//! A container that stacks its children: every child covers the whole
//! interior, and the container needs as much room as its largest child.

use vstd::prelude::*;

use crate::ElementHandle;
use crate::LayoutElement;
use crate::Padding;
use crate::Size;
use crate::clamp_i32;
use crate::clamp_to_i32;

verus! {

/// The folded minimum size of children reported as `sizes[..n]`: the
/// componentwise maximum, floored at zero by the empty fold.
pub open spec fn overlay_fold(sizes: Seq<Size>, n: int) -> (int, int)
    decreases n,
{
    if n <= 0 {
        (0, 0)
    } else {
        let prev = overlay_fold(sizes, n - 1);
        (
            if sizes[n - 1].width > prev.0 {
                sizes[n - 1].width as int
            } else {
                prev.0
            },
            if sizes[n - 1].height > prev.1 {
                sizes[n - 1].height as int
            } else {
                prev.1
            },
        )
    }
}

/// A finalized overlay: its children, their cached minimum sizes, the
/// outer padding and the aggregated minimum size.
pub struct Overlay {
    children: Vec<ElementHandle>,
    child_min_sizes: Vec<Size>,
    padding: Padding,
    min_size: Size,
}

impl Overlay {
    /// The cached minimum sizes agree with the fold and the children.
    #[verifier::type_invariant]
    spec fn wf(&self) -> bool {
        &&& self.child_min_sizes@.len() == self.children@.len()
        &&& self.min_size.width as int == clamp_i32(
            overlay_fold(self.child_min_sizes@, self.child_min_sizes@.len() as int).0
                + self.padding.left + self.padding.right,
        )
        &&& self.min_size.height as int == clamp_i32(
            overlay_fold(self.child_min_sizes@, self.child_min_sizes@.len() as int).1
                + self.padding.top + self.padding.bottom,
        )
    }

    /// The cached minimum size.
    pub closed spec fn spec_min_size(&self) -> Size {
        self.min_size
    }

    /// The outer padding.
    pub closed spec fn spec_padding(&self) -> Padding {
        self.padding
    }

    /// The minimum sizes the children reported at finalization.
    pub closed spec fn spec_child_min_sizes(&self) -> Seq<Size> {
        self.child_min_sizes@
    }

    /// Starts assembling an overlay.
    pub fn builder() -> (b: OverlayBuilder)
        ensures
            b.spec_padding() == (Padding { left: 0, top: 0, right: 0, bottom: 0 }),
            b.spec_child_count() == 0,
    {
        OverlayBuilder::new()
    }

    /// The aggregated minimum size: the componentwise maximum of the
    /// children's cached minimum sizes, plus the outer padding.
    pub fn min_size(&self) -> (s: Size)
        ensures
            s == self.spec_min_size(),
            s.width as int == clamp_i32(
                overlay_fold(
                    self.spec_child_min_sizes(),
                    self.spec_child_min_sizes().len() as int,
                ).0 + self.spec_padding().left + self.spec_padding().right,
            ),
            s.height as int == clamp_i32(
                overlay_fold(
                    self.spec_child_min_sizes(),
                    self.spec_child_min_sizes().len() as int,
                ).1 + self.spec_padding().top + self.spec_padding().bottom,
            ),
    {
        proof {
            use_type_invariant(self);
        }
        self.min_size
    }

    /// Places every child over the whole interior (the container bounds
    /// less the outer padding) and returns that interior rectangle.
    pub fn layout_children(&self, x: i32, y: i32, width: i32, height: i32) -> (rect: (
        i32,
        i32,
        i32,
        i32,
    ))
        ensures
            rect.0 as int == clamp_i32(x + self.spec_padding().left),
            rect.1 as int == clamp_i32(y + self.spec_padding().top),
            rect.2 as int == clamp_i32(width - (self.spec_padding().left + self.spec_padding().right)),
            rect.3 as int == clamp_i32(
                height - (self.spec_padding().top + self.spec_padding().bottom),
            ),
    {
        let xi = clamp_to_i32(x as i64 + self.padding.left as i64);
        let yi = clamp_to_i32(y as i64 + self.padding.top as i64);
        let wi = clamp_to_i32(width as i64 - (self.padding.left as i64 + self.padding.right as i64));
        let hi = clamp_to_i32(
            height as i64 - (self.padding.top as i64 + self.padding.bottom as i64),
        );
        let n = self.children.len();
        let mut i: usize = 0;
        while i < n
            invariant
                i <= n,
                n == self.children@.len(),
            decreases n - i,
        {
            self.children[i].layout(xi, yi, wi, hi);
            i = i + 1;
        }
        (xi, yi, wi, hi)
    }
}

impl LayoutElement for Overlay {
    fn min_size(&self) -> Size {
        Overlay::min_size(self)
    }

    fn layout(&self, x: i32, y: i32, width: i32, height: i32) {
        let _ = self.layout_children(x, y, width, height);
    }
}

/// Assembles an overlay: outer padding and any number of children.
pub struct OverlayBuilder {
    children: Vec<ElementHandle>,
    padding: Padding,
}

impl OverlayBuilder {
    /// How many children were added.
    pub closed spec fn spec_child_count(&self) -> int {
        self.children@.len() as int
    }

    /// The outer padding.
    pub closed spec fn spec_padding(&self) -> Padding {
        self.padding
    }

    /// Starts assembling an empty overlay.
    pub fn new() -> (b: OverlayBuilder)
        ensures
            b.spec_padding() == (Padding { left: 0, top: 0, right: 0, bottom: 0 }),
            b.spec_child_count() == 0,
    {
        OverlayBuilder {
            children: Vec::new(),
            padding: Padding { left: 0, top: 0, right: 0, bottom: 0 },
        }
    }

    /// Sets the left outer padding.
    pub fn with_left_padding(self, padding: i32) -> (r: Self)
        ensures
            r.spec_padding() == (Padding { left: padding, ..self.spec_padding() }),
            r.spec_child_count() == self.spec_child_count(),
    {
        let mut b = self;
        b.padding.left = padding;
        b
    }

    /// Sets the top outer padding.
    pub fn with_top_padding(self, padding: i32) -> (r: Self)
        ensures
            r.spec_padding() == (Padding { top: padding, ..self.spec_padding() }),
            r.spec_child_count() == self.spec_child_count(),
    {
        let mut b = self;
        b.padding.top = padding;
        b
    }

    /// Sets the right outer padding.
    pub fn with_right_padding(self, padding: i32) -> (r: Self)
        ensures
            r.spec_padding() == (Padding { right: padding, ..self.spec_padding() }),
            r.spec_child_count() == self.spec_child_count(),
    {
        let mut b = self;
        b.padding.right = padding;
        b
    }

    /// Sets the bottom outer padding.
    pub fn with_bottom_padding(self, padding: i32) -> (r: Self)
        ensures
            r.spec_padding() == (Padding { bottom: padding, ..self.spec_padding() }),
            r.spec_child_count() == self.spec_child_count(),
    {
        let mut b = self;
        b.padding.bottom = padding;
        b
    }

    /// Sets all four outer paddings at once.
    pub fn with_padding(self, left: i32, top: i32, right: i32, bottom: i32) -> (r: Self)
        ensures
            r.spec_padding() == (Padding { left, top, right, bottom }),
            r.spec_child_count() == self.spec_child_count(),
    {
        let mut b = self;
        b.padding = Padding { left, top, right, bottom };
        b
    }

    /// Adds a child that will cover the whole interior.
    pub fn add(self, element: Box<dyn LayoutElement>) -> (r: Self)
        ensures
            r.spec_padding() == self.spec_padding(),
            r.spec_child_count() == self.spec_child_count() + 1,
    {
        let mut b = self;
        b.children.push(ElementHandle::new(element));
        b
    }

    /// Finalizes the overlay: asks every child for its minimum size once
    /// and folds the results into the overlay's own minimum size.
    pub fn end(self) -> (r: Overlay)
        ensures
            r.spec_padding() == self.spec_padding(),
            r.spec_child_min_sizes().len() == self.spec_child_count(),
    {
        let OverlayBuilder { children, padding } = self;
        let n = children.len();
        let mut child_min_sizes: Vec<Size> = Vec::new();
        let mut i: usize = 0;
        while i < n
            invariant
                i <= n,
                n == children@.len(),
                child_min_sizes@.len() == i,
            decreases n - i,
        {
            child_min_sizes.push(children[i].min_size());
            i = i + 1;
        }
        let mut max_w: i32 = 0;
        let mut max_h: i32 = 0;
        let mut k: usize = 0;
        while k < n
            invariant
                k <= n,
                n == child_min_sizes@.len(),
                max_w as int == overlay_fold(child_min_sizes@, k as int).0,
                max_h as int == overlay_fold(child_min_sizes@, k as int).1,
            decreases n - k,
        {
            if child_min_sizes[k].width > max_w {
                max_w = child_min_sizes[k].width;
            }
            if child_min_sizes[k].height > max_h {
                max_h = child_min_sizes[k].height;
            }
            k = k + 1;
        }
        let min_w = clamp_to_i32(max_w as i64 + padding.left as i64 + padding.right as i64);
        let min_h = clamp_to_i32(max_h as i64 + padding.top as i64 + padding.bottom as i64);
        Overlay {
            children,
            child_min_sizes,
            padding,
            min_size: Size { width: min_w, height: min_h },
        }
    }
}

} // verus!
