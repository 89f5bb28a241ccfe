//! A two-dimensional grid layout engine.
//!
//! A grid is assembled from rows, columns and cells (optionally spanning
//! several rows or columns), then finalized. The finalized grid reports its
//! aggregated minimum size and, for any container bounds, computes the pixel
//! rectangle of every placed element, distributing extra space among
//! stretchable stripes and never shrinking a stripe below its minimum size.

use vstd::prelude::*;

pub mod grid;
pub mod overlay;
pub mod scroll;

verus! {

/// A width/height pair, in pixels.
#[derive(Debug, Clone, Copy, PartialEq, Eq, Structural)]
pub struct Size {
    pub width: i32,
    pub height: i32,
}

impl Default for Size {
    fn default() -> (s: Size)
        ensures
            s.width == 0 && s.height == 0,
    {
        Size { width: 0, height: 0 }
    }
}

/// Per-side padding, in pixels.
#[derive(Debug, Clone, Copy, PartialEq, Eq, Structural)]
pub struct Padding {
    pub left: i32,
    pub top: i32,
    pub right: i32,
    pub bottom: i32,
}

impl Default for Padding {
    fn default() -> (p: Padding)
        ensures
            p.left == 0 && p.top == 0 && p.right == 0 && p.bottom == 0,
    {
        Padding { left: 0, top: 0, right: 0, bottom: 0 }
    }
}

/// The capability every layout participant exposes: report a minimum size,
/// and accept placement at concrete bounds. The engine never inspects what a
/// participant is; it caches `min_size` once at finalization and calls
/// `layout` with the computed bounds on every pass.
pub trait LayoutElement {
    fn min_size(&self) -> Size;

    fn layout(&self, x: i32, y: i32, width: i32, height: i32);
}

/// A participant that needs no space and ignores placement.
pub struct EmptyElement;

impl LayoutElement for EmptyElement {
    fn min_size(&self) -> (s: Size)
        ensures
            s.width == 0 && s.height == 0,
    {
        Size { width: 0, height: 0 }
    }

    fn layout(&self, _x: i32, _y: i32, _width: i32, _height: i32) {
    }
}

/// Adapters that lift a plain widget handle into a layout participant.
pub trait LayoutWidgetWrapper<W>: LayoutElement + Sized {
    fn wrap(widget: W) -> Self;
}

/// An owned handle to a layout participant.
///
/// The verifier does not track values of trait-object type, so the handle
/// is opaque to it: nothing is stated, assumed or proved about the
/// participant behind it. The engine only ever asks the participant for
/// its minimum size and hands it placement bounds.
#[verifier::external_body]
pub struct ElementHandle {
    element: Box<dyn LayoutElement>,
}

impl ElementHandle {
    /// Takes ownership of a participant.
    #[verifier::external_body]
    pub fn new(element: Box<dyn LayoutElement>) -> ElementHandle {
        ElementHandle { element }
    }

    /// Asks the participant for its minimum size; the result is an
    /// arbitrary value to the verifier.
    #[verifier::external_body]
    pub fn min_size(&self) -> Size {
        self.element.min_size()
    }

    /// Hands the participant its placement bounds.
    #[verifier::external_body]
    pub fn layout(&self, x: i32, y: i32, width: i32, height: i32) {
        self.element.layout(x, y, width, height)
    }
}

/// The nearest `i32` to a mathematical integer.
pub open spec fn clamp_i32(x: int) -> int {
    if x < i32::MIN {
        i32::MIN as int
    } else if x > i32::MAX {
        i32::MAX as int
    } else {
        x
    }
}

/// Clamps a 64-bit intermediate result to the `i32` range.
pub fn clamp_to_i32(x: i64) -> (r: i32)
    ensures
        r as int == clamp_i32(x as int),
{
    if x < i32::MIN as i64 {
        i32::MIN
    } else if x > i32::MAX as i64 {
        i32::MAX
    } else {
        x as i32
    }
}

} // verus!
