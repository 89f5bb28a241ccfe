//! Declaration of rows and columns.

use vstd::prelude::*;

use crate::grid::CellAlign;
use crate::grid::StripeProperties;

use super::GridBuilder;
use super::StripeGroupRef;

verus! {

/// Which axis a stripe declaration belongs to.
#[derive(Debug, Clone, Copy, PartialEq, Eq, Structural)]
pub enum StripeKind {
    Row,
    Column,
}

/// Declares one or more stripes of one axis: their stretch factor and
/// starting minimum size (or a shared stripe group), and the default
/// alignment of cells placed in them.
pub struct StripeBuilder {
    owner: GridBuilder,
    kind: StripeKind,
    props: StripeProperties,
    group_idx: Option<usize>,
    default_align: CellAlign,
}

impl StripeBuilder {
    /// The builder this declaration returns to.
    pub closed spec fn spec_owner(&self) -> GridBuilder {
        self.owner
    }

    /// Which axis is being declared.
    pub closed spec fn spec_kind(&self) -> StripeKind {
        self.kind
    }

    /// The shared group the stripes will join, if any.
    pub closed spec fn spec_group_ref(&self) -> Option<usize> {
        self.group_idx
    }

    /// The properties a fresh group per stripe would get.
    pub closed spec fn spec_props(&self) -> StripeProperties {
        self.props
    }

    /// The default alignment of cells placed in the new stripes.
    pub closed spec fn spec_default_align(&self) -> CellAlign {
        self.default_align
    }

    /// A stripe declaration is valid when its owner is, its minimum size
    /// is non-negative and its group reference exists.
    pub open spec fn valid(&self) -> bool {
        &&& self.spec_owner().wf()
        &&& self.spec_props().min_size >= 0
        &&& match self.spec_group_ref() {
            Some(g) => g < self.spec_owner().spec_group_count(),
            None => true,
        }
    }

    pub(in crate::grid::builder) fn new(owner: GridBuilder, kind: StripeKind) -> (r: StripeBuilder)
        requires
            owner.wf(),
        ensures
            r.spec_owner() == owner,
            r.spec_kind() == kind,
            r.spec_group_ref() == None::<usize>,
            r.spec_props() == (StripeProperties { stretch: 0, min_size: 0 }),
            r.spec_default_align() == (match kind {
                StripeKind::Row => CellAlign::Center,
                StripeKind::Column => CellAlign::Stretch,
            }),
    {
        let default_align = match kind {
            StripeKind::Row => CellAlign::Center,
            StripeKind::Column => CellAlign::Stretch,
        };
        StripeBuilder {
            owner,
            kind,
            props: StripeProperties { stretch: 0, min_size: 0 },
            group_idx: None,
            default_align,
        }
    }

    /// Sets the stretch factor: zero keeps the stripes at their minimum
    /// size, a positive factor lets them share extra space in proportion.
    pub fn with_stretch(self, stretch: u8) -> (r: Self)
        ensures
            r.spec_owner() == self.spec_owner(),
            r.spec_kind() == self.spec_kind(),
            r.spec_group_ref() == self.spec_group_ref(),
            r.spec_props() == (StripeProperties { stretch, ..self.spec_props() }),
            r.spec_default_align() == self.spec_default_align(),
    {
        let mut b = self;
        b.props.stretch = stretch;
        b
    }

    /// Sets the starting minimum size, floored at zero.
    pub fn with_min_size(self, min_size: i32) -> (r: Self)
        ensures
            r.spec_owner() == self.spec_owner(),
            r.spec_kind() == self.spec_kind(),
            r.spec_group_ref() == self.spec_group_ref(),
            r.spec_props() == (StripeProperties {
                min_size: if min_size >= 0 {
                    min_size
                } else {
                    0
                },
                ..self.spec_props()
            }),
            r.spec_default_align() == self.spec_default_align(),
    {
        let mut b = self;
        b.props.min_size = if min_size >= 0 {
            min_size
        } else {
            0
        };
        b
    }

    /// Sets the default alignment of cells later placed in these stripes.
    pub fn with_default_align(self, align: CellAlign) -> (r: Self)
        ensures
            r.spec_owner() == self.spec_owner(),
            r.spec_kind() == self.spec_kind(),
            r.spec_group_ref() == self.spec_group_ref(),
            r.spec_props() == self.spec_props(),
            r.spec_default_align() == align,
    {
        let mut b = self;
        b.default_align = align;
        b
    }

    /// Joins the stripes to an existing stripe group instead of giving
    /// each its own, so that all the group's stripes size in lock-step.
    pub fn with_group(self, group: StripeGroupRef) -> (r: Self)
        requires
            group.spec_idx() < self.spec_owner().spec_group_count(),
        ensures
            r.spec_owner() == self.spec_owner(),
            r.spec_kind() == self.spec_kind(),
            r.spec_group_ref() == Some(group.spec_idx() as usize),
            r.spec_props() == self.spec_props(),
            r.spec_default_align() == self.spec_default_align(),
    {
        let mut b = self;
        b.group_idx = Some(group.idx());
        b
    }

    /// Declares one stripe.
    pub fn add(self) -> (r: GridBuilder)
        requires
            self.valid(),
            self.spec_kind() == StripeKind::Row ==> self.spec_owner().spec_row_count() + 1
                <= i32::MAX,
            self.spec_kind() == StripeKind::Column ==> self.spec_owner().spec_col_count() + 1
                <= i32::MAX,
        ensures
            super::stripes_added(
                &self.spec_owner(),
                &r,
                self.spec_kind(),
                self.spec_props(),
                self.spec_group_ref(),
                1,
            ),
    {
        let StripeBuilder { owner, kind, props, group_idx, default_align } = self;
        owner.push_stripes(kind, props, group_idx, default_align, 1)
    }

    /// Declares `count` stripes in one go.
    pub fn batch(self, count: usize) -> (r: GridBuilder)
        requires
            self.valid(),
            self.spec_kind() == StripeKind::Row ==> self.spec_owner().spec_row_count() + count
                <= i32::MAX,
            self.spec_kind() == StripeKind::Column ==> self.spec_owner().spec_col_count() + count
                <= i32::MAX,
        ensures
            super::stripes_added(
                &self.spec_owner(),
                &r,
                self.spec_kind(),
                self.spec_props(),
                self.spec_group_ref(),
                count as int,
            ),
    {
        let StripeBuilder { owner, kind, props, group_idx, default_align } = self;
        owner.push_stripes(kind, props, group_idx, default_align, count)
    }
}

} // verus!
