//! Configuration of one cell or span before it is placed.

use vstd::prelude::*;

use crate::LayoutElement;
use crate::Padding;
use crate::grid::CellAlign;
use crate::grid::CellProperties;

use super::GridBuilder;

verus! {

/// Configures one cell (or span) at an already validated position:
/// padding and alignment, then place an element there or mark the
/// position as intentionally empty.
pub struct CellBuilder {
    owner: GridBuilder,
    props: CellProperties,
}

impl CellBuilder {
    /// The builder the placement returns to.
    pub closed spec fn spec_owner(&self) -> GridBuilder {
        self.owner
    }

    /// The placement being configured.
    pub closed spec fn spec_props(&self) -> CellProperties {
        self.props
    }

    /// A placement is valid when its owner is and its footprint lies
    /// within the declared stripes.
    pub open spec fn valid(&self) -> bool {
        &&& self.spec_owner().wf()
        &&& self.spec_props().row_span >= 1
        &&& self.spec_props().col_span >= 1
        &&& self.spec_props().row + self.spec_props().row_span <= self.spec_owner().spec_row_count()
        &&& self.spec_props().col + self.spec_props().col_span <= self.spec_owner().spec_col_count()
    }

    pub(in crate::grid::builder) fn new(owner: GridBuilder, props: CellProperties) -> (r:
        CellBuilder)
        ensures
            r.spec_owner() == owner,
            r.spec_props() == props,
    {
        CellBuilder { owner, props }
    }

    /// Sets the cell's left padding.
    pub fn with_left_padding(self, padding: i32) -> (r: Self)
        ensures
            r.spec_owner() == self.spec_owner(),
            r.spec_props() == (CellProperties {
                padding: Padding { left: padding, ..self.spec_props().padding },
                ..self.spec_props()
            }),
    {
        let mut b = self;
        b.props.padding.left = padding;
        b
    }

    /// Sets the cell's top padding.
    pub fn with_top_padding(self, padding: i32) -> (r: Self)
        ensures
            r.spec_owner() == self.spec_owner(),
            r.spec_props() == (CellProperties {
                padding: Padding { top: padding, ..self.spec_props().padding },
                ..self.spec_props()
            }),
    {
        let mut b = self;
        b.props.padding.top = padding;
        b
    }

    /// Sets the cell's right padding.
    pub fn with_right_padding(self, padding: i32) -> (r: Self)
        ensures
            r.spec_owner() == self.spec_owner(),
            r.spec_props() == (CellProperties {
                padding: Padding { right: padding, ..self.spec_props().padding },
                ..self.spec_props()
            }),
    {
        let mut b = self;
        b.props.padding.right = padding;
        b
    }

    /// Sets the cell's bottom padding.
    pub fn with_bottom_padding(self, padding: i32) -> (r: Self)
        ensures
            r.spec_owner() == self.spec_owner(),
            r.spec_props() == (CellProperties {
                padding: Padding { bottom: padding, ..self.spec_props().padding },
                ..self.spec_props()
            }),
    {
        let mut b = self;
        b.props.padding.bottom = padding;
        b
    }

    /// Sets all four cell paddings at once.
    pub fn with_padding(self, left: i32, top: i32, right: i32, bottom: i32) -> (r: Self)
        ensures
            r.spec_owner() == self.spec_owner(),
            r.spec_props() == (CellProperties {
                padding: Padding { left, top, right, bottom },
                ..self.spec_props()
            }),
    {
        let mut b = self;
        b.props.padding = Padding { left, top, right, bottom };
        b
    }

    /// Sets the participant's horizontal alignment within the cell.
    pub fn with_horz_align(self, align: CellAlign) -> (r: Self)
        ensures
            r.spec_owner() == self.spec_owner(),
            r.spec_props() == (CellProperties { horz_align: align, ..self.spec_props() }),
    {
        let mut b = self;
        b.props.horz_align = align;
        b
    }

    /// Sets the participant's vertical alignment within the cell.
    pub fn with_vert_align(self, align: CellAlign) -> (r: Self)
        ensures
            r.spec_owner() == self.spec_owner(),
            r.spec_props() == (CellProperties { vert_align: align, ..self.spec_props() }),
    {
        let mut b = self;
        b.props.vert_align = align;
        b
    }

    /// Marks the footprint as intentionally empty instead of placing an
    /// element.
    pub fn skip(self) -> (r: GridBuilder)
        requires
            self.valid(),
        ensures
            super::skip_applied(&self.spec_owner(), &r, self.spec_props()),
    {
        let CellBuilder { owner, props } = self;
        owner.apply_skip(props)
    }

    /// Places a layout participant in the configured cell or span.
    pub fn add(self, element: Box<dyn LayoutElement>) -> (r: GridBuilder)
        requires
            self.valid(),
        ensures
            if self.spec_props().row_span == 1 && self.spec_props().col_span == 1 {
                super::cell_added(&self.spec_owner(), &r, self.spec_props())
            } else {
                super::span_added(&self.spec_owner(), &r, self.spec_props())
            },
    {
        let CellBuilder { owner, props } = self;
        owner.add_cell(crate::ElementHandle::new(element), props)
    }
}

} // verus!
