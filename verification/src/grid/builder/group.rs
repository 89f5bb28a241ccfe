//! Declaration of shared stripe groups.

use vstd::prelude::*;

use crate::grid::StripeProperties;

use super::GridBuilder;

verus! {

/// A handle to a declared stripe group, to be passed to stripe
/// declarations that should share it.
#[derive(Debug, Clone, Copy, PartialEq, Eq, Structural)]
pub struct StripeGroupRef {
    idx: usize,
}

impl StripeGroupRef {
    /// Which group the handle names.
    pub closed spec fn spec_idx(&self) -> int {
        self.idx as int
    }

    pub(in crate::grid::builder) fn new(idx: usize) -> (r: StripeGroupRef)
        ensures
            r.spec_idx() == idx as int,
    {
        StripeGroupRef { idx }
    }

    pub(in crate::grid::builder) fn idx(&self) -> (r: usize)
        ensures
            r as int == self.spec_idx(),
    {
        self.idx
    }
}

/// Declares one stripe group: a stretch factor and starting minimum size
/// that several stripes can share, so that they size in lock-step.
pub struct StripeGroupBuilder {
    owner: GridBuilder,
    props: StripeProperties,
}

impl StripeGroupBuilder {
    /// The builder this declaration returns to.
    pub closed spec fn spec_owner(&self) -> GridBuilder {
        self.owner
    }

    /// The declared group properties.
    pub closed spec fn spec_props(&self) -> StripeProperties {
        self.props
    }

    pub(in crate::grid::builder) fn new(owner: GridBuilder) -> (r: StripeGroupBuilder)
        requires
            owner.wf(),
        ensures
            r.spec_owner() == owner,
            r.spec_props() == (StripeProperties { stretch: 0, min_size: 0 }),
    {
        StripeGroupBuilder { owner, props: StripeProperties { stretch: 0, min_size: 0 } }
    }

    /// Sets the stretch factor.
    pub fn with_stretch(self, stretch: u8) -> (r: Self)
        ensures
            r.spec_owner() == self.spec_owner(),
            r.spec_props() == (StripeProperties { stretch, ..self.spec_props() }),
    {
        let mut b = self;
        b.props.stretch = stretch;
        b
    }

    /// Sets the starting minimum size, floored at zero.
    pub fn with_min_size(self, min_size: i32) -> (r: Self)
        ensures
            r.spec_owner() == self.spec_owner(),
            r.spec_props() == (StripeProperties {
                min_size: if min_size >= 0 {
                    min_size
                } else {
                    0
                },
                ..self.spec_props()
            }),
    {
        let mut b = self;
        b.props.min_size = if min_size >= 0 {
            min_size
        } else {
            0
        };
        b
    }

    /// Declares the group and hands back a reference for stripes to join.
    pub fn add(self) -> (r: (GridBuilder, StripeGroupRef))
        requires
            self.spec_owner().wf(),
            self.spec_props().min_size >= 0,
        ensures
            super::group_added(&self.spec_owner(), &r.0, self.spec_props()),
            r.1.spec_idx() == self.spec_owner().spec_group_count(),
            r.1.spec_idx() < r.0.spec_group_count(),
    {
        let StripeGroupBuilder { owner, props } = self;
        let (owner, idx) = owner.push_group(props);
        (owner, StripeGroupRef::new(idx))
    }
}

} // verus!
