//! A scrollable region around one child: the child keeps at least its
//! minimum size, and room is reserved for the scrollbars that appear when
//! the container is smaller than the child needs.

use vstd::prelude::*;

use crate::ElementHandle;
use crate::LayoutElement;
use crate::Size;
use crate::clamp_i32;
use crate::clamp_to_i32;

verus! {

/// Which axes may scroll.
#[derive(Debug, Clone, Copy, PartialEq, Eq, Structural)]
pub enum ScrollMode {
    Vertical,
    Horizontal,
    Both,
}

/// The scrollable's own minimum size: room for the scrollbar and gap on
/// each axis, plus the child's minimum extent on every axis that does not
/// scroll.
pub open spec fn scroll_min_model(
    child_min: Size,
    mode: ScrollMode,
    horz_gap: int,
    vert_gap: int,
    scrollbar_size: int,
) -> (int, int) {
    let w = if mode == ScrollMode::Vertical {
        clamp_i32(child_min.width + scrollbar_size + horz_gap)
    } else {
        clamp_i32(scrollbar_size + horz_gap)
    };
    let h = if mode == ScrollMode::Horizontal {
        clamp_i32(child_min.height + scrollbar_size + vert_gap)
    } else {
        clamp_i32(scrollbar_size + vert_gap)
    };
    (w, h)
}

/// The child's bounds within the container: the container extent, shrunk
/// by scrollbar and gap on each axis whose perpendicular overflows, and
/// never below the child's cached minimum.
pub open spec fn scroll_child_model(
    child_min: Size,
    horz_gap: int,
    vert_gap: int,
    scrollbar_size: int,
    width: int,
    height: int,
) -> (int, int) {
    let horz_scroll = width < child_min.width;
    let vert_scroll = height < child_min.height;
    let h1 = if horz_scroll {
        height - (scrollbar_size + vert_gap)
    } else {
        height
    };
    let w1 = if vert_scroll {
        width - (scrollbar_size + horz_gap)
    } else {
        width
    };
    let w2 = if w1 > child_min.width {
        w1
    } else {
        child_min.width as int
    };
    let h2 = if h1 > child_min.height {
        h1
    } else {
        child_min.height as int
    };
    (clamp_i32(w2), clamp_i32(h2))
}

/// A scrollable region around one child.
pub struct Scrollable {
    mode: ScrollMode,
    horz_gap: i32,
    vert_gap: i32,
    scrollbar_size: i32,
    child: ElementHandle,
    child_min: Size,
}

impl Scrollable {
    /// The cached child minimum size.
    pub closed spec fn spec_child_min(&self) -> Size {
        self.child_min
    }

    /// The scroll mode.
    pub closed spec fn spec_mode(&self) -> ScrollMode {
        self.mode
    }

    /// The gap kept beside a horizontal scrollbar.
    pub closed spec fn spec_horz_gap(&self) -> int {
        self.horz_gap as int
    }

    /// The gap kept beside a vertical scrollbar.
    pub closed spec fn spec_vert_gap(&self) -> int {
        self.vert_gap as int
    }

    /// The scrollbar thickness the layout reserves room for.
    pub closed spec fn spec_scrollbar_size(&self) -> int {
        self.scrollbar_size as int
    }

    /// Starts assembling a scrollable region.
    pub fn builder() -> (b: ScrollableBuilder)
        ensures
            b.spec_mode() == ScrollMode::Vertical,
            b.spec_horz_gap() == 0,
            b.spec_vert_gap() == 0,
    {
        ScrollableBuilder::new()
    }

    /// The region's own minimum size: scrollbar room on each axis, plus
    /// the child's minimum extent on every axis that does not scroll.
    pub fn min_size(&self) -> (s: Size)
        ensures
            s.width as int == scroll_min_model(
                self.spec_child_min(),
                self.spec_mode(),
                self.spec_horz_gap(),
                self.spec_vert_gap(),
                self.spec_scrollbar_size(),
            ).0,
            s.height as int == scroll_min_model(
                self.spec_child_min(),
                self.spec_mode(),
                self.spec_horz_gap(),
                self.spec_vert_gap(),
                self.spec_scrollbar_size(),
            ).1,
    {
        let w = match self.mode {
            ScrollMode::Vertical => clamp_to_i32(
                self.child_min.width as i64 + self.scrollbar_size as i64 + self.horz_gap as i64,
            ),
            _ => clamp_to_i32(self.scrollbar_size as i64 + self.horz_gap as i64),
        };
        let h = match self.mode {
            ScrollMode::Horizontal => clamp_to_i32(
                self.child_min.height as i64 + self.scrollbar_size as i64 + self.vert_gap as i64,
            ),
            _ => clamp_to_i32(self.scrollbar_size as i64 + self.vert_gap as i64),
        };
        Size { width: w, height: h }
    }

    /// Places the child within the container: scrollbar room is taken on
    /// an axis when the other axis overflows, and the child never shrinks
    /// below its cached minimum size. Returns the child's bounds.
    pub fn layout_children(&self, x: i32, y: i32, width: i32, height: i32) -> (rect: (
        i32,
        i32,
        i32,
        i32,
    ))
        ensures
            rect.0 == x,
            rect.1 == y,
            rect.2 as int == scroll_child_model(
                self.spec_child_min(),
                self.spec_horz_gap(),
                self.spec_vert_gap(),
                self.spec_scrollbar_size(),
                width as int,
                height as int,
            ).0,
            rect.3 as int == scroll_child_model(
                self.spec_child_min(),
                self.spec_horz_gap(),
                self.spec_vert_gap(),
                self.spec_scrollbar_size(),
                width as int,
                height as int,
            ).1,
    {
        let horz_scroll = width < self.child_min.width;
        let vert_scroll = height < self.child_min.height;
        let h1: i64 = if horz_scroll {
            height as i64 - (self.scrollbar_size as i64 + self.vert_gap as i64)
        } else {
            height as i64
        };
        let w1: i64 = if vert_scroll {
            width as i64 - (self.scrollbar_size as i64 + self.horz_gap as i64)
        } else {
            width as i64
        };
        let w2: i64 = if w1 > self.child_min.width as i64 {
            w1
        } else {
            self.child_min.width as i64
        };
        let h2: i64 = if h1 > self.child_min.height as i64 {
            h1
        } else {
            self.child_min.height as i64
        };
        let cw = clamp_to_i32(w2);
        let ch = clamp_to_i32(h2);
        self.child.layout(x, y, cw, ch);
        (x, y, cw, ch)
    }
}

impl LayoutElement for Scrollable {
    fn min_size(&self) -> Size {
        Scrollable::min_size(self)
    }

    fn layout(&self, x: i32, y: i32, width: i32, height: i32) {
        let _ = self.layout_children(x, y, width, height);
    }
}

/// Assembles a scrollable region: the scroll mode, the gaps kept beside
/// the scrollbars, and the scrollbar thickness to reserve room for.
pub struct ScrollableBuilder {
    mode: ScrollMode,
    horz_gap: i32,
    vert_gap: i32,
    scrollbar_size: i32,
}

impl ScrollableBuilder {
    /// The scroll mode.
    pub closed spec fn spec_mode(&self) -> ScrollMode {
        self.mode
    }

    /// The gap kept beside a horizontal scrollbar.
    pub closed spec fn spec_horz_gap(&self) -> int {
        self.horz_gap as int
    }

    /// The gap kept beside a vertical scrollbar.
    pub closed spec fn spec_vert_gap(&self) -> int {
        self.vert_gap as int
    }

    /// The scrollbar thickness the layout will reserve room for.
    pub closed spec fn spec_scrollbar_size(&self) -> int {
        self.scrollbar_size as int
    }

    /// Starts with vertical scrolling, no gaps, and the usual scrollbar
    /// thickness.
    pub fn new() -> (b: ScrollableBuilder)
        ensures
            b.spec_mode() == ScrollMode::Vertical,
            b.spec_horz_gap() == 0,
            b.spec_vert_gap() == 0,
            b.spec_scrollbar_size() == 16,
    {
        ScrollableBuilder { mode: ScrollMode::Vertical, horz_gap: 0, vert_gap: 0, scrollbar_size: 16 }
    }

    /// Sets which axes may scroll.
    pub fn with_mode(self, mode: ScrollMode) -> (r: Self)
        ensures
            r.spec_mode() == mode,
            r.spec_horz_gap() == self.spec_horz_gap(),
            r.spec_vert_gap() == self.spec_vert_gap(),
            r.spec_scrollbar_size() == self.spec_scrollbar_size(),
    {
        let mut b = self;
        b.mode = mode;
        b
    }

    /// Sets the gap kept beside a horizontal scrollbar.
    pub fn with_horz_gap(self, gap: i32) -> (r: Self)
        ensures
            r.spec_horz_gap() == gap as int,
            r.spec_mode() == self.spec_mode(),
            r.spec_vert_gap() == self.spec_vert_gap(),
            r.spec_scrollbar_size() == self.spec_scrollbar_size(),
    {
        let mut b = self;
        b.horz_gap = gap;
        b
    }

    /// Sets the gap kept beside a vertical scrollbar.
    pub fn with_vert_gap(self, gap: i32) -> (r: Self)
        ensures
            r.spec_vert_gap() == gap as int,
            r.spec_mode() == self.spec_mode(),
            r.spec_horz_gap() == self.spec_horz_gap(),
            r.spec_scrollbar_size() == self.spec_scrollbar_size(),
    {
        let mut b = self;
        b.vert_gap = gap;
        b
    }

    /// Sets both gaps at once.
    pub fn with_gap(self, horz: i32, vert: i32) -> (r: Self)
        ensures
            r.spec_horz_gap() == horz as int,
            r.spec_vert_gap() == vert as int,
            r.spec_mode() == self.spec_mode(),
            r.spec_scrollbar_size() == self.spec_scrollbar_size(),
    {
        let mut b = self;
        b.horz_gap = horz;
        b.vert_gap = vert;
        b
    }

    /// Sets the scrollbar thickness to reserve room for, as the
    /// surrounding toolkit reports it.
    pub fn with_scrollbar_size(self, size: i32) -> (r: Self)
        ensures
            r.spec_scrollbar_size() == size as int,
            r.spec_mode() == self.spec_mode(),
            r.spec_horz_gap() == self.spec_horz_gap(),
            r.spec_vert_gap() == self.spec_vert_gap(),
    {
        let mut b = self;
        b.scrollbar_size = size;
        b
    }

    /// Wraps the child and finalizes the region, caching the child's
    /// minimum size.
    pub fn add(self, element: Box<dyn LayoutElement>) -> (r: Scrollable)
        ensures
            r.spec_mode() == self.spec_mode(),
            r.spec_horz_gap() == self.spec_horz_gap(),
            r.spec_vert_gap() == self.spec_vert_gap(),
            r.spec_scrollbar_size() == self.spec_scrollbar_size(),
    {
        let child = ElementHandle::new(element);
        let child_min = child.min_size();
        Scrollable {
            mode: self.mode,
            horz_gap: self.horz_gap,
            vert_gap: self.vert_gap,
            scrollbar_size: self.scrollbar_size,
            child,
            child_min,
        }
    }
}

} // verus!
