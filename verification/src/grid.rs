//! The grid: stripes (rows and columns), stripe groups, cells and spans,
//! minimum-size aggregation, and per-pass layout of every participant.

use vstd::prelude::*;

use crate::LayoutElement;
use crate::Padding;
use crate::Size;
use crate::clamp_i32;
use crate::clamp_to_i32;
use crate::grid::allocator::calc_stripe_bounds;
use crate::grid::allocator::collect_stretch_stripes;
use crate::grid::allocator::int_seq;
use crate::grid::allocator::int_seq_u8;
use crate::grid::allocator::int_seq_usize;
use crate::grid::allocator::lemma_allocation_covers;
use crate::grid::allocator::lemma_budget_exactness;
use crate::grid::allocator::lemma_fixed_keep_minimum;
use crate::grid::allocator::lemma_no_shrink_below_minimum;
use crate::grid::allocator::lemma_stretch_order_wf;
use crate::grid::allocator::lemma_sum_to_ge_element;
use crate::grid::allocator::lemma_sum_to_monotone_with_gain;
use crate::grid::allocator::lemma_sum_to_update;
use crate::grid::allocator::stripe_lengths;
use crate::grid::allocator::order_ties_ascending;
use crate::grid::allocator::order_wf;
use crate::grid::allocator::sort_stretch_stripes;
use crate::grid::allocator::start_at;
use crate::grid::allocator::stripes_wf;
use crate::grid::allocator::sum_to;

pub mod allocator;
pub mod builder;

verus! {

/// Placement of a participant within its cell, per axis: pinned to the
/// start, centered, pinned to the end, or stretched over the whole cell.
#[derive(Debug, Clone, Copy, PartialEq, Eq, Structural)]
pub enum CellAlign {
    Start,
    Center,
    End,
    Stretch,
}

/// One weight/size class shared by one or more stripes: the stretch factor
/// and the aggregated minimum size.
#[derive(Debug, Clone, Copy, PartialEq, Eq, Structural)]
pub struct StripeProperties {
    pub stretch: u8,
    pub min_size: i32,
}

/// What occupies one intersection of a stripe with a perpendicular stripe.
#[derive(Debug, Clone, Copy, PartialEq, Eq, Structural)]
pub enum StripeCell {
    Free,
    Skipped,
    Cell(usize),
    Span,
}

impl StripeCell {
    /// The index of the simple cell recorded here, if any.
    pub fn cell_idx(&self) -> (r: Option<usize>)
        ensures
            r == (if let StripeCell::Cell(idx) = *self {
                Some(idx)
            } else {
                None::<usize>
            }),
    {
        if let StripeCell::Cell(idx) = self {
            Some(*idx)
        } else {
            None
        }
    }
}

/// One row or column: its stripe group and, per perpendicular index, what
/// occupies the intersection.
pub struct Stripe {
    pub cells: Vec<StripeCell>,
    pub group_idx: usize,
}

/// Placement metadata of one cell: its position, its footprint, per-side
/// padding and per-axis alignment.
#[derive(Debug, Clone, Copy, PartialEq, Eq, Structural)]
pub struct CellProperties {
    pub row: usize,
    pub col: usize,
    pub row_span: usize,
    pub col_span: usize,
    pub padding: Padding,
    pub horz_align: CellAlign,
    pub vert_align: CellAlign,
}

/// A placed participant: the element, its cached padded minimum size, and
/// its placement metadata.
pub struct Cell {
    pub element: crate::ElementHandle,
    pub min_size: Size,
    pub props: CellProperties,
}

impl Cell {
    /// Asks the participant for its minimum size and caches it, padded by
    /// the cell's own padding and clamped to the `i32` range. Returns what
    /// the participant reported; the verifier knows nothing about that
    /// value, but the cached minimum is pinned to it exactly.
    pub(crate) fn cache_min_size(&mut self) -> (reported: Size)
        ensures
            final(self).props == old(self).props,
            final(self).element == old(self).element,
            final(self).min_size.width as int == clamp_i32(
                reported.width + old(self).props.padding.left + old(self).props.padding.right,
            ),
            final(self).min_size.height as int == clamp_i32(
                reported.height + old(self).props.padding.top + old(self).props.padding.bottom,
            ),
    {
        let reported = self.element.min_size();
        let pad = self.props.padding;
        let w = clamp_to_i32(reported.width as i64 + pad.left as i64 + pad.right as i64);
        let h = clamp_to_i32(reported.height as i64 + pad.top as i64 + pad.bottom as i64);
        self.min_size = Size { width: w, height: h };
        reported
    }
}

/// The structural data of a grid, as the builder assembles it.
pub struct GridProperties {
    pub padding: Padding,
    pub row_spacing: i32,
    pub col_spacing: i32,
    pub cells: Vec<Cell>,
    pub spans: Vec<Cell>,
    pub groups: Vec<StripeProperties>,
    pub rows: Vec<Stripe>,
    pub cols: Vec<Stripe>,
}

/// Every stripe references an existing group.
pub open spec fn stripes_groups_wf(stripes: Seq<Stripe>, groups: Seq<StripeProperties>) -> bool {
    forall|k: int| 0 <= k < stripes.len() ==> (#[trigger] stripes[k]).group_idx < groups.len()
}

/// Every group's aggregated minimum size is non-negative.
pub open spec fn groups_wf(groups: Seq<StripeProperties>) -> bool {
    forall|g: int| 0 <= g < groups.len() ==> (#[trigger] groups[g]).min_size >= 0
}

/// The minimum sizes of the stripes `lo..hi`, read from their groups.
pub open spec fn axis_mins(
    stripes: Seq<Stripe>,
    groups: Seq<StripeProperties>,
    lo: int,
    hi: int,
) -> Seq<int> {
    Seq::new((hi - lo) as nat, |k: int| groups[stripes[lo + k].group_idx as int].min_size as int)
}

/// The stretch factors of the stripes `lo..hi`, read from their groups.
pub open spec fn axis_factors(
    stripes: Seq<Stripe>,
    groups: Seq<StripeProperties>,
    lo: int,
    hi: int,
) -> Seq<int> {
    Seq::new((hi - lo) as nat, |k: int| groups[stripes[lo + k].group_idx as int].stretch as int)
}

/// The natural size of the stripes `lo..hi`: the sum of their minimum
/// sizes plus one spacing gap between neighbours.
pub open spec fn natural_size(
    stripes: Seq<Stripe>,
    groups: Seq<StripeProperties>,
    lo: int,
    hi: int,
    spacing: int,
) -> int {
    if hi <= lo {
        0
    } else {
        sum_to(axis_mins(stripes, groups, lo, hi), hi - lo) + spacing * (hi - lo - 1)
    }
}

/// Materializes the minimum sizes of the stripes `lo..hi`.
fn stripe_mins(
    stripes: &Vec<Stripe>,
    lo: usize,
    hi: usize,
    groups: &Vec<StripeProperties>,
) -> (r: Vec<i32>)
    requires
        lo <= hi <= stripes@.len(),
        stripes_groups_wf(stripes@, groups@),
    ensures
        r@.len() == hi - lo,
        int_seq(r@) == axis_mins(stripes@, groups@, lo as int, hi as int),
        forall|k: int|
            0 <= k < r@.len() ==> #[trigger] r@[k] == groups@[stripes@[lo + k].group_idx as int].min_size,
{
    let mut r: Vec<i32> = Vec::new();
    let mut k = lo;
    while k < hi
        invariant
            lo <= k <= hi <= stripes@.len(),
            stripes_groups_wf(stripes@, groups@),
            r@.len() == k - lo,
            forall|t: int|
                0 <= t < r@.len() ==> #[trigger] r@[t] == groups@[stripes@[lo + t].group_idx as int].min_size,
        decreases hi - k,
    {
        r.push(groups[stripes[k].group_idx].min_size);
        k = k + 1;
    }
    proof {
        assert(int_seq(r@) =~= axis_mins(stripes@, groups@, lo as int, hi as int));
    }
    r
}

/// Materializes the stretch factors of the stripes `lo..hi`.
fn stripe_factors(
    stripes: &Vec<Stripe>,
    lo: usize,
    hi: usize,
    groups: &Vec<StripeProperties>,
) -> (r: Vec<u8>)
    requires
        lo <= hi <= stripes@.len(),
        stripes_groups_wf(stripes@, groups@),
    ensures
        r@.len() == hi - lo,
        int_seq_u8(r@) == axis_factors(stripes@, groups@, lo as int, hi as int),
        forall|k: int|
            0 <= k < r@.len() ==> #[trigger] r@[k] == groups@[stripes@[lo + k].group_idx as int].stretch,
{
    let mut r: Vec<u8> = Vec::new();
    let mut k = lo;
    while k < hi
        invariant
            lo <= k <= hi <= stripes@.len(),
            stripes_groups_wf(stripes@, groups@),
            r@.len() == k - lo,
            forall|t: int|
                0 <= t < r@.len() ==> #[trigger] r@[t] == groups@[stripes@[lo + t].group_idx as int].stretch,
        decreases hi - k,
    {
        r.push(groups[stripes[k].group_idx].stretch);
        k = k + 1;
    }
    proof {
        assert(int_seq_u8(r@) =~= axis_factors(stripes@, groups@, lo as int, hi as int));
    }
    r
}

/// The natural size of the stripes `lo..hi`: their minimum sizes plus one
/// spacing gap between neighbours. Zero for an empty range.
fn span_size(
    stripes: &Vec<Stripe>,
    lo: usize,
    hi: usize,
    groups: &Vec<StripeProperties>,
    spacing: i32,
) -> (r: i64)
    requires
        lo <= hi <= stripes@.len(),
        stripes@.len() <= i32::MAX,
        stripes_groups_wf(stripes@, groups@),
        groups_wf(groups@),
        spacing >= 0,
    ensures
        r as int == natural_size(stripes@, groups@, lo as int, hi as int, spacing as int),
        r >= 0,
        r as int <= 2 * 0x7fff_ffff * 0x7fff_ffff,
{
    if lo >= hi {
        return 0;
    }
    let ghost gm = axis_mins(stripes@, groups@, lo as int, hi as int);
    let mut size: i64 = 0;
    let mut k = lo;
    while k < hi
        invariant
            lo <= k <= hi <= stripes@.len(),
            stripes@.len() <= i32::MAX,
            stripes_groups_wf(stripes@, groups@),
            groups_wf(groups@),
            gm == axis_mins(stripes@, groups@, lo as int, hi as int),
            size == sum_to(gm, k - lo),
            0 <= size <= ((k - lo) as int) * 0x7fff_ffff,
        decreases hi - k,
    {
        assert(gm[(k - lo) as int] == groups@[stripes@[k as int].group_idx as int].min_size as int);
        assert(((k - lo) as int) * 0x7fff_ffff + 0x7fff_ffff == ((k - lo) as int + 1) * 0x7fff_ffff)
            by (nonlinear_arith);
        assert(((k - lo) as int + 1) * 0x7fff_ffff <= 0x8000_0000 * 0x7fff_ffff)
            by (nonlinear_arith)
            requires
                0 <= (k - lo) as int,
                (k - lo) as int + 1 <= 0x8000_0000,
        ;
        size = size + groups[stripes[k].group_idx].min_size as i64;
        k = k + 1;
    }
    assert(0 <= ((hi - lo) as int - 1) * (spacing as int) <= 0x7fff_ffff * 0x7fff_ffff)
        by (nonlinear_arith)
        requires
            0 <= (hi - lo) as int - 1 <= 0x7fff_ffff,
            0 <= spacing as int <= 0x7fff_ffff,
    ;
    assert(((hi - lo) as int) * 0x7fff_ffff <= 0x7fff_ffff * 0x7fff_ffff) by (nonlinear_arith)
        requires
            0 <= (hi - lo) as int <= 0x7fff_ffff,
    ;
    size = size + (hi - lo - 1) as i64 * spacing as i64;
    assert(((hi - lo) as int - 1) * (spacing as int) == (spacing as int) * ((hi - lo) as int - 1))
        by (nonlinear_arith);
    size
}

/// One cell's cached minimum size along one axis.
pub open spec fn cell_min_comp(cells: Seq<Cell>, i: int, horizontal: bool) -> int {
    if horizontal {
        cells[i].min_size.width as int
    } else {
        cells[i].min_size.height as int
    }
}

/// Every simple-cell reference in an occupancy sequence points at an
/// existing cell.
pub open spec fn occ_wf(occ: Seq<StripeCell>, n_cells: int) -> bool {
    forall|j: int|
        0 <= j < occ.len() ==> match #[trigger] occ[j] {
            StripeCell::Cell(idx) => idx < n_cells,
            _ => true,
        }
}

/// Folds the first `j` occupancy entries of one stripe into a running
/// maximum, starting from `acc`: each simple cell contributes its cached
/// minimum size along the axis.
pub open spec fn occ_fold(
    cells: Seq<Cell>,
    occ: Seq<StripeCell>,
    j: int,
    acc: int,
    horizontal: bool,
) -> int
    decreases j,
{
    if j <= 0 {
        acc
    } else {
        let prev = occ_fold(cells, occ, j - 1, acc, horizontal);
        match occ[j - 1] {
            StripeCell::Cell(idx) => {
                if cell_min_comp(cells, idx as int, horizontal) > prev {
                    cell_min_comp(cells, idx as int, horizontal)
                } else {
                    prev
                }
            },
            _ => prev,
        }
    }
}

/// The folded maximum never falls below its start and stays in the `i32`
/// range when the start does.
proof fn lemma_occ_fold_bounds(
    cells: Seq<Cell>,
    occ: Seq<StripeCell>,
    j: int,
    acc: int,
    horizontal: bool,
)
    requires
        acc <= i32::MAX,
    ensures
        acc <= occ_fold(cells, occ, j, acc, horizontal) <= i32::MAX,
    decreases j,
{
    if j > 0 {
        lemma_occ_fold_bounds(cells, occ, j - 1, acc, horizontal);
    }
}

/// The group minimums after folding the first `k` stripes of one axis:
/// each stripe raises its group's minimum to cover every simple cell it
/// holds.
pub open spec fn agg_axis(
    groups: Seq<StripeProperties>,
    stripes: Seq<Stripe>,
    cells: Seq<Cell>,
    k: int,
    horizontal: bool,
) -> Seq<StripeProperties>
    decreases k,
{
    if k <= 0 {
        groups
    } else {
        let g = agg_axis(groups, stripes, cells, k - 1, horizontal);
        let gi = stripes[k - 1].group_idx as int;
        let folded = occ_fold(
            cells,
            stripes[k - 1].cells@,
            stripes[k - 1].cells@.len() as int,
            g[gi].min_size as int,
            horizontal,
        );
        g.update(gi, StripeProperties { stretch: g[gi].stretch, min_size: folded as i32 })
    }
}

/// Folding stripes into groups only raises minimum sizes, never touches
/// stretch factors, and keeps the group list's length.
proof fn lemma_agg_axis_monotone(
    groups: Seq<StripeProperties>,
    stripes: Seq<Stripe>,
    cells: Seq<Cell>,
    k: int,
    horizontal: bool,
)
    requires
        stripes_groups_wf(stripes, groups),
        k <= stripes.len(),
    ensures
        agg_axis(groups, stripes, cells, k, horizontal).len() == groups.len(),
        forall|g: int|
            0 <= g < groups.len() ==> (#[trigger] agg_axis(groups, stripes, cells, k, horizontal)[g]).stretch
                == groups[g].stretch && agg_axis(groups, stripes, cells, k, horizontal)[g].min_size
                >= groups[g].min_size,
    decreases k,
{
    if k > 0 {
        lemma_agg_axis_monotone(groups, stripes, cells, k - 1, horizontal);
        let g = agg_axis(groups, stripes, cells, k - 1, horizontal);
        let gi = stripes[k - 1].group_idx as int;
        lemma_occ_fold_bounds(
            cells,
            stripes[k - 1].cells@,
            stripes[k - 1].cells@.len() as int,
            g[gi].min_size as int,
            horizontal,
        );
    }
}

/// Raises each group's minimum size along one axis to cover every simple
/// cell held by each of the axis' stripes.
fn aggregate_axis(
    groups: &mut Vec<StripeProperties>,
    stripes: &Vec<Stripe>,
    cells: &Vec<Cell>,
    horizontal: bool,
)
    requires
        stripes_groups_wf(stripes@, old(groups)@),
        forall|k: int|
            0 <= k < stripes@.len() ==> occ_wf((#[trigger] stripes@[k]).cells@, cells@.len() as int),
    ensures
        final(groups)@ == agg_axis(old(groups)@, stripes@, cells@, stripes@.len() as int, horizontal),
        final(groups)@.len() == old(groups)@.len(),
{
    let ghost g0 = groups@;
    let n = stripes.len();
    let mut k: usize = 0;
    while k < n
        invariant
            k <= n,
            n == stripes@.len(),
            stripes_groups_wf(stripes@, g0),
            forall|t: int|
                0 <= t < stripes@.len() ==> occ_wf((#[trigger] stripes@[t]).cells@, cells@.len() as int),
            groups@ == agg_axis(g0, stripes@, cells@, k as int, horizontal),
            groups@.len() == g0.len(),
        decreases n - k,
    {
        proof {
            lemma_agg_axis_monotone(g0, stripes@, cells@, k as int, horizontal);
        }
        let gi = stripes[k].group_idx;
        let occ_n = stripes[k].cells.len();
        let mut acc: i32 = groups[gi].min_size;
        let ghost base = groups@[gi as int].min_size as int;
        let mut j: usize = 0;
        while j < occ_n
            invariant
                j <= occ_n,
                k < stripes@.len(),
                occ_n == stripes@[k as int].cells@.len(),
                occ_wf(stripes@[k as int].cells@, cells@.len() as int),
                acc as int == occ_fold(cells@, stripes@[k as int].cells@, j as int, base, horizontal),
            decreases occ_n - j,
        {
            match stripes[k].cells[j] {
                StripeCell::Cell(idx) => {
                    let v = if horizontal {
                        cells[idx].min_size.width
                    } else {
                        cells[idx].min_size.height
                    };
                    if v > acc {
                        acc = v;
                    }
                },
                _ => {},
            }
            j = j + 1;
        }
        let stretch = groups[gi].stretch;
        groups.set(gi, StripeProperties { stretch, min_size: acc });
        proof {
            assert(groups@ =~= agg_axis(g0, stripes@, cells@, k as int + 1, horizontal));
        }
        k = k + 1;
    }
}

/// No two stripes of the window share a stripe group.
pub open spec fn window_groups_distinct(stripes: Seq<Stripe>, lo: int, hi: int) -> bool {
    forall|k1: int, k2: int|
        lo <= k1 < k2 < hi ==> (#[trigger] stripes[k1]).group_idx != (#[trigger] stripes[k2]).group_idx
}

/// Some stripe of the window `lo..hi` belongs to group `g`.
pub open spec fn window_references_group(stripes: Seq<Stripe>, lo: int, hi: int, g: int) -> bool {
    exists|k: int| lo <= k < hi && (#[trigger] stripes[k]).group_idx == g
}

/// Some stripe of the window belongs to a stretchable group.
pub open spec fn window_has_stretch(
    stripes: Seq<Stripe>,
    groups: Seq<StripeProperties>,
    lo: int,
    hi: int,
) -> bool {
    exists|k: int|
        lo <= k < hi && groups[(#[trigger] stripes[k]).group_idx as int].stretch > 0
}

/// Raises group minimums so that the stripes `lo..hi` together cover a
/// spanning cell's minimum size.
///
/// If the window's natural size already covers the span, nothing changes.
/// Otherwise, when the window holds stretchable stripes, the span's
/// minimum is distributed over the window as a miniature allocation pass
/// and each stretchable group's minimum is raised to its allotted length;
/// when it holds none, the first stripe's group absorbs the whole deficit.
fn adjust_span_stripes(
    min_size: i32,
    stripes: &Vec<Stripe>,
    lo: usize,
    hi: usize,
    groups: &mut Vec<StripeProperties>,
    spacing: i32,
)
    requires
        lo < hi <= stripes@.len(),
        stripes@.len() <= i32::MAX,
        stripes_groups_wf(stripes@, old(groups)@),
        groups_wf(old(groups)@),
        spacing >= 0,
    ensures
        final(groups)@.len() == old(groups)@.len(),
        forall|g: int|
            0 <= g < old(groups)@.len() ==> (#[trigger] final(groups)@[g]).stretch == old(
                groups,
            )@[g].stretch && final(groups)@[g].min_size >= old(groups)@[g].min_size,
        window_groups_distinct(stripes@, lo as int, hi as int) || !window_has_stretch(
            stripes@,
            old(groups)@,
            lo as int,
            hi as int,
        ) ==> natural_size(
            stripes@,
            final(groups)@,
            lo as int,
            hi as int,
            spacing as int,
        ) >= min_size as int,
        forall|g: int|
            0 <= g < old(groups)@.len() && !window_references_group(
                stripes@,
                lo as int,
                hi as int,
                g,
            ) ==> #[trigger] final(groups)@[g] == old(groups)@[g],
        natural_size(stripes@, old(groups)@, lo as int, hi as int, spacing as int)
            >= min_size as int ==> final(groups)@ == old(groups)@,
        !window_has_stretch(stripes@, old(groups)@, lo as int, hi as int) && natural_size(
            stripes@,
            old(groups)@,
            lo as int,
            hi as int,
            spacing as int,
        ) < min_size as int ==> final(groups)@[stripes@[lo as int].group_idx as int].min_size
            as int == old(groups)@[stripes@[lo as int].group_idx as int].min_size + min_size
            - natural_size(stripes@, old(groups)@, lo as int, hi as int, spacing as int),
        !window_has_stretch(stripes@, old(groups)@, lo as int, hi as int) && natural_size(
            stripes@,
            old(groups)@,
            lo as int,
            hi as int,
            spacing as int,
        ) < min_size as int ==> forall|g: int|
            0 <= g < old(groups)@.len() && g != stripes@[lo as int].group_idx as int
                ==> #[trigger] final(groups)@[g] == old(groups)@[g],
        window_groups_distinct(stripes@, lo as int, hi as int) && window_has_stretch(
            stripes@,
            old(groups)@,
            lo as int,
            hi as int,
        ) && natural_size(stripes@, old(groups)@, lo as int, hi as int, spacing as int)
            < min_size as int ==> exists|ord: Seq<int>|
            {
                &&& #[trigger] order_wf(
                    axis_mins(stripes@, old(groups)@, lo as int, hi as int),
                    axis_factors(stripes@, old(groups)@, lo as int, hi as int),
                    ord,
                )
                &&& order_ties_ascending(
                    axis_mins(stripes@, old(groups)@, lo as int, hi as int),
                    ord,
                )
                &&& forall|k: int|
                    0 <= k < hi - lo ==> #[trigger] axis_mins(
                        stripes@,
                        final(groups)@,
                        lo as int,
                        hi as int,
                    )[k] == stripe_lengths(
                        axis_mins(stripes@, old(groups)@, lo as int, hi as int),
                        axis_factors(stripes@, old(groups)@, lo as int, hi as int),
                        ord,
                        min_size as int,
                        spacing as int,
                    )[k]
            },
{
    let ghost g_old = groups@;
    let ghost glo = lo as int;
    let ghost ghi = hi as int;
    let ghost gn = ghi - glo;
    let current = span_size(stripes, lo, hi, groups, spacing);
    if current >= min_size as i64 {
        return;
    }

    let mins_v = stripe_mins(stripes, lo, hi, groups);
    let factors_v = stripe_factors(stripes, lo, hi, groups);
    let ghost gm = int_seq(mins_v@);
    let ghost gf = int_seq_u8(factors_v@);
    proof {
        assert forall|k: int| 0 <= k < gm.len() implies 0 <= #[trigger] gm[k] <= i32::MAX by {
            assert(gm[k] == axis_mins(stripes@, g_old, glo, ghi)[k]);
        }
        assert forall|k: int| 0 <= k < gf.len() implies 0 <= #[trigger] gf[k] <= 255 by {
            assert(gf[k] == axis_factors(stripes@, g_old, glo, ghi)[k]);
        }
        assert(stripes_wf(gm, gf));
    }

    let mut stretch = collect_stretch_stripes(&factors_v);
    if stretch.len() > 0 {
        let ghost before_sort = stretch@;
        sort_stretch_stripes(&mins_v, &mut stretch);
        proof {
            lemma_stretch_order_wf(mins_v@, factors_v@, before_sort, stretch@);
        }
        let ghost gord = int_seq_usize(stretch@);
        let bounds = calc_stripe_bounds(min_size, &mins_v, &factors_v, &stretch, spacing);
        let ghost gl = stripe_lengths(gm, gf, gord, min_size as int, spacing as int);
        proof {
            lemma_no_shrink_below_minimum(gm, gf, gord, min_size as int, spacing as int);
        }
        let stretch_n = stretch.len();
        let mut t: usize = 0;
        while t < stretch_n
            invariant
                t <= stretch_n,
                stretch_n == stretch@.len(),
                glo == lo as int,
                ghi == hi as int,
                gn == ghi - glo,
                lo < hi <= stripes@.len(),
                stripes_groups_wf(stripes@, g_old),
                groups_wf(g_old),
                groups@.len() == g_old.len(),
                gm == int_seq(mins_v@),
                gf == int_seq_u8(factors_v@),
                gord == int_seq_usize(stretch@),
                gm.len() == gn,
                gf.len() == gn,
                order_wf(gm, gf, gord),
                bounds@.len() == gn,
                allocator::lengths_of(bounds@) == gl,
                gl.len() == gn,
                forall|k: int| 0 <= k < gn ==> #[trigger] gl[k] >= gm[k],
                forall|k: int|
                    0 <= k < gn ==> #[trigger] mins_v@[k] == g_old[stripes@[glo + k].group_idx as int].min_size,
                forall|s: int| 0 <= s < stretch_n ==> (#[trigger] stretch@[s]) < gn,
                forall|g: int|
                    0 <= g < g_old.len() ==> (#[trigger] groups@[g]).stretch == g_old[g].stretch
                        && groups@[g].min_size >= g_old[g].min_size,
                forall|g: int|
                    0 <= g < g_old.len() && !window_references_group(stripes@, glo, ghi, g)
                        ==> #[trigger] groups@[g] == g_old[g],
                window_groups_distinct(stripes@, glo, ghi) ==> forall|s: int|
                    0 <= s < t ==> (#[trigger] groups@[stripes@[glo + stretch@[s]].group_idx as int]).min_size
                        as int == gl[stretch@[s] as int],
                window_groups_distinct(stripes@, glo, ghi) ==> forall|k: int|
                    0 <= k < gn && (forall|s: int| 0 <= s < t ==> (#[trigger] stretch@[s]) != k)
                        ==> (#[trigger] groups@[stripes@[glo + k].group_idx as int]).min_size
                        == g_old[stripes@[glo + k].group_idx as int].min_size,
            decreases stretch_n - t,
        {
            let rel = stretch[t];
            let gi = stripes[lo + rel].group_idx;
            let stretch_factor = groups[gi].stretch;
            groups.set(gi, StripeProperties { stretch: stretch_factor, min_size: bounds[rel].1 });
            proof {
                assert(bounds@[rel as int].1 as int == gl[rel as int]);
                assert(gl[rel as int] >= gm[rel as int]);
                assert(gm[rel as int] == g_old[gi as int].min_size as int);
                assert(glo <= glo + rel < ghi && stripes@[glo + rel].group_idx == gi);
                assert(window_references_group(stripes@, glo, ghi, gi as int));
                if window_groups_distinct(stripes@, glo, ghi) {
                    assert forall|s: int|
                        0 <= s < t + 1 implies (#[trigger] groups@[stripes@[glo + stretch@[s]].group_idx as int]).min_size
                        as int == gl[stretch@[s] as int] by {
                        if s < t {
                            assert(gord[s] == stretch@[s] as int && gord[t as int] == rel as int);
                            assert(gord[s] != gord[t as int]);
                            assert(stretch@[s] != rel);
                            assert(stripes@[glo + stretch@[s]].group_idx != gi);
                        }
                    }
                }
            }
            t = t + 1;
        }
        proof {
            assert(gf[gord[0]] > 0);
            assert(groups@[stripes@[glo + gord[0]].group_idx as int].stretch > 0);
            assert(g_old[stripes@[glo + gord[0]].group_idx as int].stretch > 0);
            assert(window_has_stretch(stripes@, g_old, glo, ghi));
            if window_groups_distinct(stripes@, glo, ghi) {
                assert forall|k: int|
                    0 <= k < gn implies axis_mins(stripes@, groups@, glo, ghi)[k] == gl[k] by {
                    if gf[k] > 0 {
                        assert(gord.contains(k));
                        let s = choose|s: int| 0 <= s < gord.len() && gord[s] == k;
                        assert(stretch@[s] as int == k);
                        assert(groups@[stripes@[glo + k].group_idx as int].min_size as int == gl[k]);
                    } else {
                        assert forall|s: int| 0 <= s < stretch_n implies (#[trigger] stretch@[s])
                            != k by {
                            assert(gord[s] == stretch@[s] as int);
                            assert(gf[gord[s]] > 0);
                        }
                        assert(groups@[stripes@[glo + k].group_idx as int].min_size == g_old[stripes@[glo
                            + k].group_idx as int].min_size);
                        lemma_fixed_keep_minimum(gm, gf, gord, min_size as int, spacing as int, k);
                        assert(gl[k] == gm[k]);
                    }
                }
                assert(axis_mins(stripes@, groups@, glo, ghi) =~= gl);
                lemma_allocation_covers(gm, gf, gord, min_size as int, spacing as int);
                // The processing order is the unique stable descending
                // order of the footprint, so the resulting minimums are
                // pinned exactly.
                assert(gm == axis_mins(stripes@, g_old, glo, ghi));
                assert(gf == axis_factors(stripes@, g_old, glo, ghi));
                assert forall|k1: int, k2: int|
                    #![trigger gord[k1], gord[k2]]
                    0 <= k1 < k2 < gord.len() && gm[gord[k1]] == gm[gord[k2]] implies gord[k1]
                    < gord[k2] by {
                    assert(mins_v@[stretch@[k1] as int] as int == gm[gord[k1]]);
                    assert(mins_v@[stretch@[k2] as int] as int == gm[gord[k2]]);
                    assert(stretch@[k1] < stretch@[k2]);
                }
                assert(order_ties_ascending(gm, gord));
                assert(order_wf(gm, gf, gord) && order_ties_ascending(gm, gord) && forall|k: int|
                    0 <= k < ghi - glo ==> #[trigger] axis_mins(stripes@, groups@, glo, ghi)[k]
                        == stripe_lengths(gm, gf, gord, min_size as int, spacing as int)[k]);
            }
        }
    } else {
        proof {
            // No collected stripe means no stretchable group anywhere in
            // the footprint.
            assert forall|k: int|
                glo <= k < ghi implies g_old[(#[trigger] stripes@[k]).group_idx as int].stretch
                == 0 by {
                let j = k - glo;
                assert(0 <= j < gn);
                if factors_v@[j] > 0 {
                    assert(int_seq_usize(stretch@).contains(j));
                }
                assert(factors_v@[j] == 0);
                assert(g_old[stripes@[k].group_idx as int].stretch == factors_v@[j]);
            }
            assert(!window_has_stretch(stripes@, g_old, glo, ghi));
        }
        let gi = stripes[lo].group_idx;
        let old_min = groups[gi].min_size;
        proof {
            assert(axis_mins(stripes@, g_old, glo, ghi)[0] == old_min as int);
            assert forall|j: int|
                0 <= j < gn implies #[trigger] axis_mins(stripes@, g_old, glo, ghi)[j] >= 0 by {}
            lemma_sum_to_ge_element(axis_mins(stripes@, g_old, glo, ghi), gn, 0);
            assert(0 <= (gn - 1) * (spacing as int)) by (nonlinear_arith)
                requires
                    gn >= 1,
                    spacing as int >= 0,
            ;
            assert((spacing as int) * (gn - 1) == (gn - 1) * (spacing as int)) by (nonlinear_arith);
            assert(current as int >= old_min as int);
        }
        let new_min_wide: i64 = old_min as i64 + (min_size as i64 - current);
        assert(old_min as int <= new_min_wide as int <= min_size as int);
        let new_min: i32 = new_min_wide as i32;
        let stretch_factor = groups[gi].stretch;
        groups.set(gi, StripeProperties { stretch: stretch_factor, min_size: new_min });
        proof {
            assert(stripes@[glo].group_idx == gi);
            assert(forall|g: int|
                0 <= g < g_old.len() && g != gi as int ==> #[trigger] groups@[g] == g_old[g]);
            assert(groups@[gi as int].min_size as int == g_old[gi as int].min_size + min_size
                - current);
            assert forall|g: int|
                0 <= g < g_old.len() && !window_references_group(stripes@, glo, ghi, g)
                    implies #[trigger] groups@[g] == g_old[g] by {
                if g == gi as int {
                    assert(glo <= glo < ghi && stripes@[glo].group_idx == g);
                    assert(window_references_group(stripes@, glo, ghi, g));
                }
            }
            let am_old = axis_mins(stripes@, g_old, glo, ghi);
            let am_new = axis_mins(stripes@, groups@, glo, ghi);
            if window_groups_distinct(stripes@, glo, ghi) {
                assert forall|k: int| 0 <= k < gn implies am_new[k] == am_old.update(
                    0,
                    new_min as int,
                )[k] by {
                    if k > 0 {
                        assert(stripes@[glo + k].group_idx != gi);
                    }
                }
                assert(am_new =~= am_old.update(0, new_min as int));
                lemma_sum_to_update(am_old, 0, new_min as int, gn);
            } else {
                // With shared groups, every footprint stripe of the first
                // stripe's group is raised, so the natural size gains at
                // least the deficit.
                assert forall|k: int| 0 <= k < gn implies am_old[k] <= #[trigger] am_new[k] by {
                    if stripes@[glo + k].group_idx == gi {
                        assert(am_old[k] == old_min as int);
                        assert(am_new[k] == new_min as int);
                    }
                }
                assert(am_new[0] == new_min as int);
                assert(am_new[0] >= am_old[0] + (min_size as int - current as int));
                lemma_sum_to_monotone_with_gain(
                    am_old,
                    am_new,
                    gn,
                    min_size as int - current as int,
                );
            }
        }
    }
}

/// Raising group minimums never shrinks a window's natural size.
proof fn lemma_natural_size_monotone(
    stripes: Seq<Stripe>,
    old_groups: Seq<StripeProperties>,
    new_groups: Seq<StripeProperties>,
    lo: int,
    hi: int,
    spacing: int,
)
    requires
        0 <= lo <= hi <= stripes.len(),
        stripes_groups_wf(stripes, old_groups),
        new_groups.len() == old_groups.len(),
        forall|g: int|
            0 <= g < old_groups.len() ==> (#[trigger] new_groups[g]).min_size
                >= old_groups[g].min_size,
    ensures
        natural_size(stripes, new_groups, lo, hi, spacing) >= natural_size(
            stripes,
            old_groups,
            lo,
            hi,
            spacing,
        ),
{
    if lo < hi {
        let am_old = axis_mins(stripes, old_groups, lo, hi);
        let am_new = axis_mins(stripes, new_groups, lo, hi);
        assert forall|j: int| 0 <= j < hi - lo implies #[trigger] am_old[j] <= #[trigger] am_new[j]
            by {}
        crate::grid::allocator::lemma_sum_to_monotone(am_old, am_new, hi - lo);
    }
}

/// Groups with the same stretch factors agree on whether a window holds
/// a stretchable stripe.
proof fn lemma_window_stretch_congruent(
    stripes: Seq<Stripe>,
    g1: Seq<StripeProperties>,
    g2: Seq<StripeProperties>,
    lo: int,
    hi: int,
)
    requires
        0 <= lo,
        hi <= stripes.len(),
        g1.len() == g2.len(),
        stripes_groups_wf(stripes, g1),
        forall|g: int| 0 <= g < g1.len() ==> (#[trigger] g1[g]).stretch == g2[g].stretch,
    ensures
        window_has_stretch(stripes, g1, lo, hi) == window_has_stretch(stripes, g2, lo, hi),
{
    if window_has_stretch(stripes, g1, lo, hi) {
        let k = choose|k: int|
            lo <= k < hi && g1[stripes[k].group_idx as int].stretch > 0;
        assert(g2[stripes[k].group_idx as int].stretch > 0);
    }
    if window_has_stretch(stripes, g2, lo, hi) {
        let k = choose|k: int|
            lo <= k < hi && g2[stripes[k].group_idx as int].stretch > 0;
        assert(g1[stripes[k].group_idx as int].stretch > 0);
    }
}

/// Rows and columns record the same occupancy: the two perpendicular
/// views have matching extents and agree at every intersection.
pub open spec fn occupancy_agrees(p: GridProperties) -> bool {
    &&& forall|r: int|
        0 <= r < p.rows@.len() ==> (#[trigger] p.rows@[r]).cells@.len() == p.cols@.len()
    &&& forall|c: int|
        0 <= c < p.cols@.len() ==> (#[trigger] p.cols@[c]).cells@.len() == p.rows@.len()
    &&& forall|r: int, c: int|
        0 <= r < p.rows@.len() && 0 <= c < p.cols@.len() ==> (#[trigger] p.rows@[r].cells@[c])
            == p.cols@[c].cells@[r]
}

/// The structural constraints that a finalized grid's data satisfies.
pub open spec fn props_wf(p: GridProperties) -> bool {
    &&& stripes_groups_wf(p.rows@, p.groups@)
    &&& stripes_groups_wf(p.cols@, p.groups@)
    &&& groups_wf(p.groups@)
    &&& p.row_spacing >= 0
    &&& p.col_spacing >= 0
    &&& p.rows@.len() <= i32::MAX
    &&& p.cols@.len() <= i32::MAX
    &&& forall|i: int|
        0 <= i < p.cells@.len() ==> (#[trigger] p.cells@[i]).props.row < p.rows@.len()
            && p.cells@[i].props.col < p.cols@.len()
    &&& forall|i: int|
        0 <= i < p.spans@.len() ==> (#[trigger] p.spans@[i]).props.row_span >= 1
            && p.spans@[i].props.col_span >= 1 && p.spans@[i].props.row
            + p.spans@[i].props.row_span <= p.rows@.len() && p.spans@[i].props.col
            + p.spans@[i].props.col_span <= p.cols@.len()
    &&& forall|k: int|
        0 <= k < p.rows@.len() ==> occ_wf((#[trigger] p.rows@[k]).cells@, p.cells@.len() as int)
    &&& forall|k: int|
        0 <= k < p.cols@.len() ==> occ_wf((#[trigger] p.cols@[k]).cells@, p.cells@.len() as int)
}

/// One span's footprint covers its minimum size on both axes, as far as
/// the reconciliation pass guarantees it: on every axis whose footprint
/// stripes belong to pairwise different groups.
pub open spec fn span_covered(
    s: Cell,
    cols: Seq<Stripe>,
    rows: Seq<Stripe>,
    groups: Seq<StripeProperties>,
    col_spacing: int,
    row_spacing: int,
) -> bool {
    &&& window_groups_distinct(cols, s.props.col as int, s.props.col + s.props.col_span)
        || !window_has_stretch(cols, groups, s.props.col as int, s.props.col + s.props.col_span)
        ==> natural_size(
        cols,
        groups,
        s.props.col as int,
        s.props.col + s.props.col_span,
        col_spacing,
    ) >= s.min_size.width
    &&& window_groups_distinct(rows, s.props.row as int, s.props.row + s.props.row_span)
        || !window_has_stretch(rows, groups, s.props.row as int, s.props.row + s.props.row_span)
        ==> natural_size(
        rows,
        groups,
        s.props.row as int,
        s.props.row + s.props.row_span,
        row_spacing,
    ) >= s.min_size.height
}

/// A finalized grid: immutable structural data, the stretchable stripes of
/// each axis sorted for allocation, and the aggregated minimum size.
pub struct Grid {
    props: GridProperties,
    stretch_rows: Vec<usize>,
    stretch_cols: Vec<usize>,
    min_size: Size,
}

impl Grid {
    /// Everything layout relies on: well-formed structural data,
    /// well-formed allocation orders for both axes, a minimum size that
    /// equals the aggregated natural size plus outer padding, and span
    /// footprints that cover their spans' minimum sizes.
    #[verifier::type_invariant]
    pub closed spec fn wf(&self) -> bool {
        &&& props_wf(self.props)
        &&& occupancy_agrees(self.props)
        &&& order_wf(
            axis_mins(self.props.cols@, self.props.groups@, 0, self.props.cols@.len() as int),
            axis_factors(self.props.cols@, self.props.groups@, 0, self.props.cols@.len() as int),
            int_seq_usize(self.stretch_cols@),
        )
        &&& self.stretch_cols@.len() <= self.props.cols@.len()
        &&& order_wf(
            axis_mins(self.props.rows@, self.props.groups@, 0, self.props.rows@.len() as int),
            axis_factors(self.props.rows@, self.props.groups@, 0, self.props.rows@.len() as int),
            int_seq_usize(self.stretch_rows@),
        )
        &&& self.stretch_rows@.len() <= self.props.rows@.len()
        &&& forall|k1: int, k2: int|
            #![trigger self.stretch_cols@[k1], self.stretch_cols@[k2]]
            0 <= k1 < k2 < self.stretch_cols@.len() && axis_mins(
                self.props.cols@,
                self.props.groups@,
                0,
                self.props.cols@.len() as int,
            )[self.stretch_cols@[k1] as int] == axis_mins(
                self.props.cols@,
                self.props.groups@,
                0,
                self.props.cols@.len() as int,
            )[self.stretch_cols@[k2] as int] ==> self.stretch_cols@[k1] < self.stretch_cols@[k2]
        &&& forall|k1: int, k2: int|
            #![trigger self.stretch_rows@[k1], self.stretch_rows@[k2]]
            0 <= k1 < k2 < self.stretch_rows@.len() && axis_mins(
                self.props.rows@,
                self.props.groups@,
                0,
                self.props.rows@.len() as int,
            )[self.stretch_rows@[k1] as int] == axis_mins(
                self.props.rows@,
                self.props.groups@,
                0,
                self.props.rows@.len() as int,
            )[self.stretch_rows@[k2] as int] ==> self.stretch_rows@[k1] < self.stretch_rows@[k2]
        &&& self.min_size.width as int == clamp_i32(
            natural_size(
                self.props.cols@,
                self.props.groups@,
                0,
                self.props.cols@.len() as int,
                self.props.col_spacing as int,
            ) + self.props.padding.left + self.props.padding.right,
        )
        &&& self.min_size.height as int == clamp_i32(
            natural_size(
                self.props.rows@,
                self.props.groups@,
                0,
                self.props.rows@.len() as int,
                self.props.row_spacing as int,
            ) + self.props.padding.top + self.props.padding.bottom,
        )
        &&& forall|i: int|
            0 <= i < self.props.spans@.len() ==> span_covered(
                #[trigger] self.props.spans@[i],
                self.props.cols@,
                self.props.rows@,
                self.props.groups@,
                self.props.col_spacing as int,
                self.props.row_spacing as int,
            )
    }

    /// The cached minimum size.
    pub closed spec fn spec_min_size(&self) -> Size {
        self.min_size
    }

    /// The grid's outer padding.
    pub closed spec fn spec_padding(&self) -> Padding {
        self.props.padding
    }

    /// The columns' aggregated natural size: the sum of all column group
    /// minimum sizes plus one column spacing gap between neighbours.
    pub closed spec fn spec_col_min_total(&self) -> int {
        natural_size(
            self.props.cols@,
            self.props.groups@,
            0,
            self.props.cols@.len() as int,
            self.props.col_spacing as int,
        )
    }

    /// The rows' aggregated natural size.
    pub closed spec fn spec_row_min_total(&self) -> int {
        natural_size(
            self.props.rows@,
            self.props.groups@,
            0,
            self.props.rows@.len() as int,
            self.props.row_spacing as int,
        )
    }

    /// How many spanning cells the grid holds.
    pub closed spec fn spec_span_count(&self) -> int {
        self.props.spans@.len() as int
    }

    /// The placement metadata of the `i`-th spanning cell.
    pub closed spec fn spec_span_props(&self, i: int) -> CellProperties {
        self.props.spans@[i].props
    }

    /// The cached padded minimum size of the `i`-th spanning cell.
    pub closed spec fn spec_span_min_size(&self, i: int) -> Size {
        self.props.spans@[i].min_size
    }

    /// Whether the columns `lo..hi` belong to pairwise different groups.
    pub closed spec fn spec_cols_distinct(&self, lo: int, hi: int) -> bool {
        window_groups_distinct(self.props.cols@, lo, hi)
    }

    /// Whether the rows `lo..hi` belong to pairwise different groups.
    pub closed spec fn spec_rows_distinct(&self, lo: int, hi: int) -> bool {
        window_groups_distinct(self.props.rows@, lo, hi)
    }

    /// Whether any of the columns `lo..hi` belongs to a stretchable
    /// group.
    pub closed spec fn spec_cols_have_stretch(&self, lo: int, hi: int) -> bool {
        window_has_stretch(self.props.cols@, self.props.groups@, lo, hi)
    }

    /// Whether any of the rows `lo..hi` belongs to a stretchable group.
    pub closed spec fn spec_rows_have_stretch(&self, lo: int, hi: int) -> bool {
        window_has_stretch(self.props.rows@, self.props.groups@, lo, hi)
    }

    /// The natural size of the columns `lo..hi`.
    pub closed spec fn spec_col_window_natural(&self, lo: int, hi: int) -> int {
        natural_size(self.props.cols@, self.props.groups@, lo, hi, self.props.col_spacing as int)
    }

    /// The natural size of the rows `lo..hi`.
    pub closed spec fn spec_row_window_natural(&self, lo: int, hi: int) -> int {
        natural_size(self.props.rows@, self.props.groups@, lo, hi, self.props.row_spacing as int)
    }

    /// How many columns the grid has.
    pub closed spec fn spec_col_count(&self) -> int {
        self.props.cols@.len() as int
    }

    /// How many rows the grid has.
    pub closed spec fn spec_row_count(&self) -> int {
        self.props.rows@.len() as int
    }

    /// The spacing between neighbouring columns.
    pub closed spec fn spec_col_spacing(&self) -> int {
        self.props.col_spacing as int
    }

    /// The spacing between neighbouring rows.
    pub closed spec fn spec_row_spacing(&self) -> int {
        self.props.row_spacing as int
    }

    /// The grid's columns, as assembled.
    pub closed spec fn spec_cols_raw(&self) -> Seq<Stripe> {
        self.props.cols@
    }

    /// The grid's rows, as assembled.
    pub closed spec fn spec_rows_raw(&self) -> Seq<Stripe> {
        self.props.rows@
    }

    /// The grid's stripe groups, after aggregation.
    pub closed spec fn spec_groups(&self) -> Seq<StripeProperties> {
        self.props.groups@
    }

    /// The grid's simple cells, with their cached minimum sizes.
    pub closed spec fn spec_cells(&self) -> Seq<Cell> {
        self.props.cells@
    }

    /// How many stripe groups the grid has.
    pub closed spec fn spec_group_count(&self) -> int {
        self.props.groups@.len() as int
    }

    /// The `g`-th group's stretch factor.
    pub closed spec fn spec_group_stretch(&self, g: int) -> int {
        self.props.groups@[g].stretch as int
    }

    /// The `g`-th group's aggregated minimum size.
    pub closed spec fn spec_group_min(&self, g: int) -> int {
        self.props.groups@[g].min_size as int
    }

    /// The group the `c`-th column belongs to.
    pub closed spec fn spec_col_group(&self, c: int) -> int {
        self.props.cols@[c].group_idx as int
    }

    /// The group the `r`-th row belongs to.
    pub closed spec fn spec_row_group(&self, r: int) -> int {
        self.props.rows@[r].group_idx as int
    }

    /// The placement metadata of the `i`-th simple cell.
    pub closed spec fn spec_cell_props(&self, i: int) -> CellProperties {
        self.props.cells@[i].props
    }

    /// The cached padded minimum size of the `i`-th simple cell.
    pub closed spec fn spec_cell_min_size(&self, i: int) -> Size {
        self.props.cells@[i].min_size
    }

    /// The `c`-th column's aggregated minimum size.
    pub closed spec fn spec_col_min(&self, c: int) -> int {
        self.props.groups@[self.props.cols@[c].group_idx as int].min_size as int
    }

    /// The `r`-th row's aggregated minimum size.
    pub closed spec fn spec_row_min(&self, r: int) -> int {
        self.props.groups@[self.props.rows@[r].group_idx as int].min_size as int
    }

    /// The `c`-th column's stretch factor.
    pub closed spec fn spec_col_stretch(&self, c: int) -> int {
        self.props.groups@[self.props.cols@[c].group_idx as int].stretch as int
    }

    /// The `r`-th row's stretch factor.
    pub closed spec fn spec_row_stretch(&self, r: int) -> int {
        self.props.groups@[self.props.rows@[r].group_idx as int].stretch as int
    }

    /// Finalizes assembled structural data into a layout-ready grid:
    /// caches every participant's padded minimum size, aggregates group
    /// minimums from simple cells, reconciles span footprints, computes
    /// the grid's own minimum size, and sorts each axis' stretchable
    /// stripes by descending minimum size for allocation.
    pub(crate) fn new(props: GridProperties) -> (grid: Grid)
        requires
            props_wf(props),
            occupancy_agrees(props),
        ensures
            grid.wf(),
            grid.spec_cols_raw() == props.cols@,
            grid.spec_rows_raw() == props.rows@,
            grid.spec_padding() == props.padding,
            grid.spec_col_spacing() == props.col_spacing as int,
            grid.spec_row_spacing() == props.row_spacing as int,
            grid.spec_group_count() == props.groups@.len(),
            forall|g: int|
                0 <= g < props.groups@.len() ==> #[trigger] grid.spec_group_stretch(g)
                    == props.groups@[g].stretch as int && grid.spec_group_min(g)
                    >= props.groups@[g].min_size,
            grid.spec_cell_count() == props.cells@.len(),
            forall|i: int|
                0 <= i < props.cells@.len() ==> #[trigger] grid.spec_cell_props(i)
                    == props.cells@[i].props,
            grid.spec_span_count() == props.spans@.len(),
            forall|i: int|
                0 <= i < props.spans@.len() ==> #[trigger] grid.spec_span_props(i)
                    == props.spans@[i].props,
            props.spans@.len() == 0 ==> grid.spec_groups() == agg_axis(
                agg_axis(props.groups@, props.cols@, grid.spec_cells(), props.cols@.len() as int, true),
                props.rows@,
                grid.spec_cells(),
                props.rows@.len() as int,
                false,
            ),
    {
        let mut props = props;
        let ghost p0 = props;

        // Cache each simple cell's padded minimum size.
        let n_cells = props.cells.len();
        let mut i: usize = 0;
        while i < n_cells
            invariant
                i <= n_cells,
                n_cells == props.cells@.len(),
                props.rows@ == p0.rows@,
                props.cols@ == p0.cols@,
                props.groups@ == p0.groups@,
                props.spans@ == p0.spans@,
                props.padding == p0.padding,
                props.row_spacing == p0.row_spacing,
                props.col_spacing == p0.col_spacing,
                forall|j: int|
                    0 <= j < n_cells ==> (#[trigger] props.cells@[j]).props == p0.cells@[j].props,
            decreases n_cells - i,
        {
            let _ = props.cells[i].cache_min_size();
            i = i + 1;
        }

        // Aggregate group minimums from the simple cells of each axis.
        aggregate_axis(&mut props.groups, &props.cols, &props.cells, true);
        proof {
            lemma_agg_axis_monotone(p0.groups@, props.cols@, props.cells@, props.cols@.len() as int, true);
        }
        let ghost g_cols = props.groups@;
        aggregate_axis(&mut props.groups, &props.rows, &props.cells, false);
        proof {
            lemma_agg_axis_monotone(g_cols, props.rows@, props.cells@, props.rows@.len() as int, false);
        }
        let ghost g_agg = props.groups@;
        let ghost cells_cached = props.cells@;

        // Cache each span's padded minimum size, then widen its footprint
        // where the natural size falls short.
        let n_spans = props.spans.len();
        let mut s: usize = 0;
        while s < n_spans
            invariant
                s <= n_spans,
                n_spans == props.spans@.len(),
                props.rows@ == p0.rows@,
                props.cols@ == p0.cols@,
                props.spans@.len() == p0.spans@.len(),
                props.cells@.len() == p0.cells@.len(),
                props.padding == p0.padding,
                props.row_spacing == p0.row_spacing,
                props.col_spacing == p0.col_spacing,
                props.groups@.len() == p0.groups@.len(),
                props.cells@ == cells_cached,
                n_spans == 0 ==> props.groups@ == g_agg,
                forall|g: int|
                    0 <= g < p0.groups@.len() ==> (#[trigger] props.groups@[g]).stretch
                        == p0.groups@[g].stretch && props.groups@[g].min_size
                        >= p0.groups@[g].min_size,
                groups_wf(props.groups@),
                stripes_groups_wf(props.rows@, props.groups@),
                stripes_groups_wf(props.cols@, props.groups@),
                props_wf(p0),
                forall|j: int|
                    0 <= j < props.cells@.len() ==> (#[trigger] props.cells@[j]).props
                        == p0.cells@[j].props,
                forall|j: int|
                    0 <= j < n_spans ==> (#[trigger] props.spans@[j]).props == p0.spans@[j].props,
                forall|j: int|
                    0 <= j < s ==> span_covered(
                        #[trigger] props.spans@[j],
                        props.cols@,
                        props.rows@,
                        props.groups@,
                        props.col_spacing as int,
                        props.row_spacing as int,
                    ),
            decreases n_spans - s,
        {
            let _ = props.spans[s].cache_min_size();

            proof {
                assert(p0.spans@[s as int].props.col + p0.spans@[s as int].props.col_span
                    <= p0.cols@.len());
                assert(p0.spans@[s as int].props.row + p0.spans@[s as int].props.row_span
                    <= p0.rows@.len());
            }
            let left = props.spans[s].props.col;
            let right = left + props.spans[s].props.col_span;
            let top = props.spans[s].props.row;
            let bottom = top + props.spans[s].props.row_span;

            let ghost g_before = props.groups@;
            adjust_span_stripes(
                props.spans[s].min_size.width,
                &props.cols,
                left,
                right,
                &mut props.groups,
                props.col_spacing,
            );
            let ghost g_mid = props.groups@;
            adjust_span_stripes(
                props.spans[s].min_size.height,
                &props.rows,
                top,
                bottom,
                &mut props.groups,
                props.row_spacing,
            );
            proof {
                // Stretch factors never change, both reconciliation
                // passes only raise minimums, and minimums raised for one
                // span never shrink another span's footprint: coverage
                // established earlier survives both passes.
                assert forall|j: int|
                    0 <= j < s + 1 implies span_covered(
                    #[trigger] props.spans@[j],
                    props.cols@,
                    props.rows@,
                    props.groups@,
                    props.col_spacing as int,
                    props.row_spacing as int,
                ) by {
                    let sp = props.spans@[j];
                    let c_lo = sp.props.col as int;
                    let c_hi = sp.props.col + sp.props.col_span;
                    let r_lo = sp.props.row as int;
                    let r_hi = sp.props.row + sp.props.row_span;
                    lemma_window_stretch_congruent(props.cols@, g_before, props.groups@, c_lo, c_hi);
                    lemma_window_stretch_congruent(props.cols@, g_mid, props.groups@, c_lo, c_hi);
                    lemma_window_stretch_congruent(props.rows@, g_before, props.groups@, r_lo, r_hi);
                    lemma_window_stretch_congruent(props.rows@, g_mid, props.groups@, r_lo, r_hi);
                    lemma_natural_size_monotone(
                        props.cols@,
                        g_before,
                        g_mid,
                        c_lo,
                        c_hi,
                        props.col_spacing as int,
                    );
                    lemma_natural_size_monotone(
                        props.cols@,
                        g_mid,
                        props.groups@,
                        c_lo,
                        c_hi,
                        props.col_spacing as int,
                    );
                    lemma_natural_size_monotone(
                        props.rows@,
                        g_before,
                        g_mid,
                        r_lo,
                        r_hi,
                        props.row_spacing as int,
                    );
                    lemma_natural_size_monotone(
                        props.rows@,
                        g_mid,
                        props.groups@,
                        r_lo,
                        r_hi,
                        props.row_spacing as int,
                    );
                }
            }
            s = s + 1;
        }

        // The grid's own minimum size: each axis' natural size plus the
        // outer padding.
        let n_cols = props.cols.len();
        let n_rows = props.rows.len();
        let w64 = span_size(&props.cols, 0, n_cols, &props.groups, props.col_spacing);
        let h64 = span_size(&props.rows, 0, n_rows, &props.groups, props.row_spacing);
        let min_w = clamp_to_i32(w64 + props.padding.left as i64 + props.padding.right as i64);
        let min_h = clamp_to_i32(h64 + props.padding.top as i64 + props.padding.bottom as i64);

        // Collect and sort each axis' stretchable stripes.
        let col_mins = stripe_mins(&props.cols, 0, n_cols, &props.groups);
        let col_factors = stripe_factors(&props.cols, 0, n_cols, &props.groups);
        let mut stretch_cols = collect_stretch_stripes(&col_factors);
        let ghost cols_before_sort = stretch_cols@;
        sort_stretch_stripes(&col_mins, &mut stretch_cols);
        proof {
            lemma_stretch_order_wf(col_mins@, col_factors@, cols_before_sort, stretch_cols@);
        }
        let row_mins = stripe_mins(&props.rows, 0, n_rows, &props.groups);
        let row_factors = stripe_factors(&props.rows, 0, n_rows, &props.groups);
        let mut stretch_rows = collect_stretch_stripes(&row_factors);
        let ghost rows_before_sort = stretch_rows@;
        sort_stretch_stripes(&row_mins, &mut stretch_rows);
        proof {
            lemma_stretch_order_wf(row_mins@, row_factors@, rows_before_sort, stretch_rows@);
        }

        proof {
            assert(props_wf(props));
            assert(occupancy_agrees(props)) by {
                assert(props.rows@ == p0.rows@ && props.cols@ == p0.cols@);
            }
            // Ties among equal minimums keep declaration order: the
            // collected lists are strictly ascending and the sort is
            // stable.
            assert forall|k1: int, k2: int|
                #![trigger stretch_cols@[k1], stretch_cols@[k2]]
                0 <= k1 < k2 < stretch_cols@.len() && axis_mins(
                    props.cols@,
                    props.groups@,
                    0,
                    props.cols@.len() as int,
                )[stretch_cols@[k1] as int] == axis_mins(
                    props.cols@,
                    props.groups@,
                    0,
                    props.cols@.len() as int,
                )[stretch_cols@[k2] as int] implies stretch_cols@[k1] < stretch_cols@[k2] by {
                assert(int_seq(col_mins@) == axis_mins(
                    props.cols@,
                    props.groups@,
                    0,
                    props.cols@.len() as int,
                ));
                assert(col_mins@[stretch_cols@[k1] as int] as int == int_seq(col_mins@)[stretch_cols@[k1] as int]);
                assert(col_mins@[stretch_cols@[k2] as int] as int == int_seq(col_mins@)[stretch_cols@[k2] as int]);
            }
            assert forall|k1: int, k2: int|
                #![trigger stretch_rows@[k1], stretch_rows@[k2]]
                0 <= k1 < k2 < stretch_rows@.len() && axis_mins(
                    props.rows@,
                    props.groups@,
                    0,
                    props.rows@.len() as int,
                )[stretch_rows@[k1] as int] == axis_mins(
                    props.rows@,
                    props.groups@,
                    0,
                    props.rows@.len() as int,
                )[stretch_rows@[k2] as int] implies stretch_rows@[k1] < stretch_rows@[k2] by {
                assert(int_seq(row_mins@) == axis_mins(
                    props.rows@,
                    props.groups@,
                    0,
                    props.rows@.len() as int,
                ));
                assert(row_mins@[stretch_rows@[k1] as int] as int == int_seq(row_mins@)[stretch_rows@[k1] as int]);
                assert(row_mins@[stretch_rows@[k2] as int] as int == int_seq(row_mins@)[stretch_rows@[k2] as int]);
            }
            assert(int_seq(col_mins@) == axis_mins(props.cols@, props.groups@, 0, props.cols@.len() as int));
            assert(int_seq_u8(col_factors@) == axis_factors(props.cols@, props.groups@, 0, props.cols@.len() as int));
            assert(int_seq(row_mins@) == axis_mins(props.rows@, props.groups@, 0, props.rows@.len() as int));
            assert(int_seq_u8(row_factors@) == axis_factors(props.rows@, props.groups@, 0, props.rows@.len() as int));
            assert(min_w as int == clamp_i32(
                natural_size(props.cols@, props.groups@, 0, props.cols@.len() as int, props.col_spacing as int)
                    + props.padding.left + props.padding.right,
            ));
            assert(min_h as int == clamp_i32(
                natural_size(props.rows@, props.groups@, 0, props.rows@.len() as int, props.row_spacing as int)
                    + props.padding.top + props.padding.bottom,
            ));
        }
        let grid = Grid {
            props,
            stretch_rows,
            stretch_cols,
            min_size: Size { width: min_w, height: min_h },
        };
        proof {
            use_type_invariant(&grid);
        }
        grid
    }

    /// Starts assembling a grid.
    pub fn builder() -> (b: crate::grid::builder::GridBuilder)
        ensures
            b.wf(),
            b.spec_row_count() == 0,
            b.spec_col_count() == 0,
            b.spec_group_count() == 0,
            b.spec_cell_count() == 0,
            b.spec_span_count() == 0,
    {
        crate::grid::builder::GridBuilder::new()
    }

    /// The aggregated minimum size of the whole grid: each axis' stripe
    /// minimums plus spacing, plus the outer padding.
    pub fn min_size(&self) -> (s: Size)
        ensures
            s == self.spec_min_size(),
            s.width as int == clamp_i32(
                self.spec_col_min_total() + self.spec_padding().left + self.spec_padding().right,
            ),
            s.height as int == clamp_i32(
                self.spec_row_min_total() + self.spec_padding().top + self.spec_padding().bottom,
            ),
    {
        proof {
            use_type_invariant(self);
        }
        self.min_size
    }

    /// Lays out every participant within the given container bounds:
    /// distributes the interior over the stripes of each axis, computes
    /// each participant's rectangle from its cell bounds, alignment and
    /// padding, places the participant there, and returns the rectangles
    /// (simple cells first, then spans, each in declaration order).
    #[verifier::rlimit(50)]
    pub fn layout_children(&self, x: i32, y: i32, width: i32, height: i32) -> (rects: Vec<
        (i32, i32, i32, i32),
    >)
        ensures
            rects_int(rects@) == self.spec_layout(x as int, y as int, width as int, height as int),
    {
        proof {
            use_type_invariant(self);
        }
        let ghost gx = x as int;
        let ghost gy = y as int;
        let ghost gw = width as int;
        let ghost gh = height as int;

        let xi = clamp_to_i32(x as i64 + self.props.padding.left as i64);
        let yi = clamp_to_i32(y as i64 + self.props.padding.top as i64);
        let wi = clamp_to_i32(
            width as i64 - (self.props.padding.left as i64 + self.props.padding.right as i64),
        );
        let hi = clamp_to_i32(
            height as i64 - (self.props.padding.top as i64 + self.props.padding.bottom as i64),
        );
        proof {
            assert(self.spec_interior(gx, gy, gw, gh) == (xi as int, yi as int, wi as int, hi as int));
        }

        let n_cols = self.props.cols.len();
        let n_rows = self.props.rows.len();
        let col_mins = stripe_mins(&self.props.cols, 0, n_cols, &self.props.groups);
        let col_factors = stripe_factors(&self.props.cols, 0, n_cols, &self.props.groups);
        let col_bounds = calc_stripe_bounds(wi, &col_mins, &col_factors, &self.stretch_cols, self.props.col_spacing);
        let row_mins = stripe_mins(&self.props.rows, 0, n_rows, &self.props.groups);
        let row_factors = stripe_factors(&self.props.rows, 0, n_rows, &self.props.groups);
        let row_bounds = calc_stripe_bounds(hi, &row_mins, &row_factors, &self.stretch_rows, self.props.row_spacing);

        let ghost col_lengths = self.spec_col_lengths(wi as int);
        let ghost row_lengths = self.spec_row_lengths(hi as int);
        proof {
            assert(allocator::lengths_of(col_bounds@) == col_lengths);
            assert(allocator::lengths_of(row_bounds@) == row_lengths);
        }

        let mut rects: Vec<(i32, i32, i32, i32)> = Vec::new();

        let n_cells = self.props.cells.len();
        let mut i: usize = 0;
        while i < n_cells
            invariant
                i <= n_cells,
                n_cells == self.props.cells@.len(),
                self.wf(),
                gx == x as int,
                gy == y as int,
                gw == width as int,
                gh == height as int,
                self.spec_interior(gx, gy, gw, gh) == (xi as int, yi as int, wi as int, hi as int),
                col_lengths == self.spec_col_lengths(wi as int),
                row_lengths == self.spec_row_lengths(hi as int),
                col_bounds@.len() == self.props.cols@.len(),
                row_bounds@.len() == self.props.rows@.len(),
                allocator::lengths_of(col_bounds@) == col_lengths,
                allocator::lengths_of(row_bounds@) == row_lengths,
                forall|t: int|
                    0 <= t < col_bounds@.len() ==> (#[trigger] col_bounds@[t]).0 as int == clamp_i32(
                        start_at(col_lengths, self.props.col_spacing as int, t),
                    ),
                forall|t: int|
                    0 <= t < row_bounds@.len() ==> (#[trigger] row_bounds@[t]).0 as int == clamp_i32(
                        start_at(row_lengths, self.props.row_spacing as int, t),
                    ),
                rects@.len() == i,
                forall|j: int|
                    0 <= j < i ==> rects_int(rects@)[j] == self.spec_cell_rect(j, gx, gy, gw, gh),
            decreases n_cells - i,
        {
            let c = self.props.cells[i].props;
            let m = self.props.cells[i].min_size;
            let cell_bounds = col_bounds[c.col];
            let rowb = row_bounds[c.row];
            let horz = calc_widget_bounds(
                xi,
                cell_bounds.0,
                cell_bounds.1,
                m.width,
                c.padding.left,
                c.padding.right,
                c.horz_align,
            );
            let vert = calc_widget_bounds(
                yi,
                rowb.0,
                rowb.1,
                m.height,
                c.padding.top,
                c.padding.bottom,
                c.vert_align,
            );
            self.props.cells[i].element.layout(horz.0, vert.0, horz.1, vert.1);
            let ghost prev_rects = rects@;
            rects.push((horz.0, vert.0, horz.1, vert.1));
            proof {
                assert(cell_bounds.1 as int == col_lengths[c.col as int]);
                assert(rowb.1 as int == row_lengths[c.row as int]);
                assert(rects_int(rects@)[i as int] == self.spec_cell_rect(i as int, gx, gy, gw, gh));
                assert forall|j: int|
                    0 <= j < i + 1 implies rects_int(rects@)[j] == self.spec_cell_rect(
                    j,
                    gx,
                    gy,
                    gw,
                    gh,
                ) by {
                    if j < i {
                        assert(rects@[j] == prev_rects[j]);
                        assert(rects_int(prev_rects)[j] == self.spec_cell_rect(j, gx, gy, gw, gh));
                    }
                }
            }
            i = i + 1;
        }

        let n_spans = self.props.spans.len();
        let mut sp: usize = 0;
        while sp < n_spans
            invariant
                sp <= n_spans,
                n_spans == self.props.spans@.len(),
                n_cells == self.props.cells@.len(),
                self.wf(),
                gx == x as int,
                gy == y as int,
                gw == width as int,
                gh == height as int,
                self.spec_interior(gx, gy, gw, gh) == (xi as int, yi as int, wi as int, hi as int),
                col_lengths == self.spec_col_lengths(wi as int),
                row_lengths == self.spec_row_lengths(hi as int),
                col_bounds@.len() == self.props.cols@.len(),
                row_bounds@.len() == self.props.rows@.len(),
                allocator::lengths_of(col_bounds@) == col_lengths,
                allocator::lengths_of(row_bounds@) == row_lengths,
                forall|t: int|
                    0 <= t < col_bounds@.len() ==> (#[trigger] col_bounds@[t]).0 as int == clamp_i32(
                        start_at(col_lengths, self.props.col_spacing as int, t),
                    ),
                forall|t: int|
                    0 <= t < row_bounds@.len() ==> (#[trigger] row_bounds@[t]).0 as int == clamp_i32(
                        start_at(row_lengths, self.props.row_spacing as int, t),
                    ),
                rects@.len() == n_cells + sp,
                forall|j: int|
                    0 <= j < n_cells ==> rects_int(rects@)[j] == self.spec_cell_rect(j, gx, gy, gw, gh),
                forall|j: int|
                    0 <= j < sp ==> rects_int(rects@)[n_cells + j] == self.spec_span_rect(
                        j,
                        gx,
                        gy,
                        gw,
                        gh,
                    ),
            decreases n_spans - sp,
        {
            let c = self.props.spans[sp].props;
            let m = self.props.spans[sp].min_size;
            let left = c.col;
            let right = c.col + c.col_span - 1;
            let span_x = col_bounds[left].0;
            let span_w = clamp_to_i32(
                col_bounds[right].0 as i64 + col_bounds[right].1 as i64 - span_x as i64,
            );
            let top = c.row;
            let bottom = c.row + c.row_span - 1;
            let span_y = row_bounds[top].0;
            let span_h = clamp_to_i32(
                row_bounds[bottom].0 as i64 + row_bounds[bottom].1 as i64 - span_y as i64,
            );
            let horz = calc_widget_bounds(
                xi,
                span_x,
                span_w,
                m.width,
                c.padding.left,
                c.padding.right,
                c.horz_align,
            );
            let vert = calc_widget_bounds(
                yi,
                span_y,
                span_h,
                m.height,
                c.padding.top,
                c.padding.bottom,
                c.vert_align,
            );
            self.props.spans[sp].element.layout(horz.0, vert.0, horz.1, vert.1);
            let ghost prev_rects = rects@;
            rects.push((horz.0, vert.0, horz.1, vert.1));
            proof {
                assert(col_bounds@[right as int].1 as int == col_lengths[right as int]);
                assert(row_bounds@[bottom as int].1 as int == row_lengths[bottom as int]);
                assert(rects_int(rects@)[(n_cells + sp) as int] == self.spec_span_rect(
                    sp as int,
                    gx,
                    gy,
                    gw,
                    gh,
                ));
                assert forall|j: int|
                    0 <= j < n_cells implies rects_int(rects@)[j] == self.spec_cell_rect(
                    j,
                    gx,
                    gy,
                    gw,
                    gh,
                ) by {
                    assert(rects@[j] == prev_rects[j]);
                    assert(rects_int(prev_rects)[j] == self.spec_cell_rect(j, gx, gy, gw, gh));
                }
                assert forall|j: int|
                    0 <= j < sp + 1 implies rects_int(rects@)[n_cells + j] == self.spec_span_rect(
                    j,
                    gx,
                    gy,
                    gw,
                    gh,
                ) by {
                    if j < sp {
                        assert(rects@[n_cells + j] == prev_rects[n_cells + j]);
                        assert(rects_int(prev_rects)[n_cells + j] == self.spec_span_rect(
                            j,
                            gx,
                            gy,
                            gw,
                            gh,
                        ));
                    }
                }
            }
            sp = sp + 1;
        }

        proof {
            assert(rects_int(rects@) =~= self.spec_layout(gx, gy, gw, gh));
        }
        rects
    }
}

/// Minimum-size monotonicity: with non-negative outer padding, the grid's
/// aggregated minimum width covers the sum of all column minimum sizes
/// plus the spacing between them, with equality when the padding is zero.
/// The columns' minimum sizes already include every widening that a
/// spanning cell forced. The same holds of the height and the rows.
pub proof fn lemma_min_size_covers_stripes(g: &Grid)
    requires
        g.wf(),
        g.spec_padding().left >= 0,
        g.spec_padding().right >= 0,
        g.spec_padding().top >= 0,
        g.spec_padding().bottom >= 0,
        g.spec_col_min_total() + g.spec_padding().left + g.spec_padding().right <= i32::MAX,
        g.spec_row_min_total() + g.spec_padding().top + g.spec_padding().bottom <= i32::MAX,
    ensures
        g.spec_min_size().width >= g.spec_col_min_total(),
        g.spec_min_size().height >= g.spec_row_min_total(),
        g.spec_padding().left == 0 && g.spec_padding().right == 0 ==> g.spec_min_size().width
            == g.spec_col_min_total(),
        g.spec_padding().top == 0 && g.spec_padding().bottom == 0 ==> g.spec_min_size().height
            == g.spec_row_min_total(),
{
    let n_cols = g.props.cols@.len() as int;
    let n_rows = g.props.rows@.len() as int;
    if n_cols > 0 {
        assert forall|j: int|
            0 <= j < n_cols implies #[trigger] axis_mins(g.props.cols@, g.props.groups@, 0, n_cols)[j]
            >= 0 by {}
        crate::grid::allocator::lemma_sum_to_nonneg(
            axis_mins(g.props.cols@, g.props.groups@, 0, n_cols),
            n_cols,
        );
        assert((g.props.col_spacing as int) * (n_cols - 1) >= 0) by (nonlinear_arith)
            requires
                g.props.col_spacing as int >= 0,
                n_cols >= 1,
        ;
    }
    if n_rows > 0 {
        assert forall|j: int|
            0 <= j < n_rows implies #[trigger] axis_mins(g.props.rows@, g.props.groups@, 0, n_rows)[j]
            >= 0 by {}
        crate::grid::allocator::lemma_sum_to_nonneg(
            axis_mins(g.props.rows@, g.props.groups@, 0, n_rows),
            n_rows,
        );
        assert((g.props.row_spacing as int) * (n_rows - 1) >= 0) by (nonlinear_arith)
            requires
                g.props.row_spacing as int >= 0,
                n_rows >= 1,
        ;
    }
}

/// Span footprints cover their deficits: after finalization, on every
/// axis where a span's footprint stripes belong to pairwise different
/// groups or none of them stretches, the footprint's natural size covers
/// the span's padded minimum size, however far that minimum exceeded
/// what the simple cells needed.
pub proof fn lemma_span_footprint_covers_deficit(g: &Grid, i: int)
    requires
        g.wf(),
        0 <= i < g.spec_span_count(),
    ensures
        g.spec_cols_distinct(
            g.spec_span_props(i).col as int,
            g.spec_span_props(i).col + g.spec_span_props(i).col_span,
        ) || !g.spec_cols_have_stretch(
            g.spec_span_props(i).col as int,
            g.spec_span_props(i).col + g.spec_span_props(i).col_span,
        ) ==> g.spec_col_window_natural(
            g.spec_span_props(i).col as int,
            g.spec_span_props(i).col + g.spec_span_props(i).col_span,
        ) >= g.spec_span_min_size(i).width,
        g.spec_rows_distinct(
            g.spec_span_props(i).row as int,
            g.spec_span_props(i).row + g.spec_span_props(i).row_span,
        ) || !g.spec_rows_have_stretch(
            g.spec_span_props(i).row as int,
            g.spec_span_props(i).row + g.spec_span_props(i).row_span,
        ) ==> g.spec_row_window_natural(
            g.spec_span_props(i).row as int,
            g.spec_span_props(i).row + g.spec_span_props(i).row_span,
        ) >= g.spec_span_min_size(i).height,
{
    assert(span_covered(
        g.props.spans@[i],
        g.props.cols@,
        g.props.rows@,
        g.props.groups@,
        g.props.col_spacing as int,
        g.props.row_spacing as int,
    ));
}

/// Layout is deterministic, so repeating a pass with identical bounds is
/// idempotent: any two layout passes over the same grid with the same
/// container bounds compute identical placement rectangles for every
/// participant.
pub proof fn lemma_layout_idempotent(
    g: &Grid,
    x: int,
    y: int,
    width: int,
    height: int,
    first: Seq<(int, int, int, int)>,
    second: Seq<(int, int, int, int)>,
)
    requires
        first == g.spec_layout(x, y, width, height),
        second == g.spec_layout(x, y, width, height),
    ensures
        first == second,
{
}

/// No stripe shrinks below its minimum size: for any interior length on
/// either axis, every column and row is allocated at least its aggregated
/// minimum.
pub proof fn lemma_no_shrink_below_minimum_grid(g: &Grid, total: int)
    requires
        g.wf(),
    ensures
        g.spec_col_lengths(total).len() == g.spec_col_count(),
        forall|c: int|
            0 <= c < g.spec_col_count() ==> #[trigger] g.spec_col_lengths(total)[c]
                >= g.spec_col_min(c),
        g.spec_row_lengths(total).len() == g.spec_row_count(),
        forall|r: int|
            0 <= r < g.spec_row_count() ==> #[trigger] g.spec_row_lengths(total)[r]
                >= g.spec_row_min(r),
{
    let nc = g.spec_col_count();
    let nr = g.spec_row_count();
    lemma_no_shrink_below_minimum(
        axis_mins(g.props.cols@, g.props.groups@, 0, nc),
        axis_factors(g.props.cols@, g.props.groups@, 0, nc),
        int_seq_usize(g.stretch_cols@),
        total,
        g.spec_col_spacing(),
    );
    lemma_no_shrink_below_minimum(
        axis_mins(g.props.rows@, g.props.groups@, 0, nr),
        axis_factors(g.props.rows@, g.props.groups@, 0, nr),
        int_seq_usize(g.stretch_rows@),
        total,
        g.spec_row_spacing(),
    );
}

/// Budget exactness for the columns: when the interior width covers the
/// columns' aggregated minimum, some column stretches, and all
/// stretchable columns carry one common factor, the allocated lengths
/// plus the spacing gaps consume the width exactly; the rounding
/// remainder goes to the stretch column processed last.
pub proof fn lemma_budget_exactness_cols(g: &Grid, total: int)
    requires
        g.wf(),
        exists|c: int| 0 <= c < g.spec_col_count() && g.spec_col_stretch(c) > 0,
        forall|c1: int, c2: int|
            0 <= c1 < g.spec_col_count() && 0 <= c2 < g.spec_col_count() && #[trigger] g.spec_col_stretch(
                c1,
            ) > 0 && #[trigger] g.spec_col_stretch(c2) > 0 ==> g.spec_col_stretch(c1)
                == g.spec_col_stretch(c2),
        total >= g.spec_col_min_total(),
    ensures
        crate::grid::allocator::sum_to(g.spec_col_lengths(total), g.spec_col_count())
            + g.spec_col_spacing() * (g.spec_col_count() - 1) == total,
{
    let nc = g.spec_col_count();
    let gm = axis_mins(g.props.cols@, g.props.groups@, 0, nc);
    let gf = axis_factors(g.props.cols@, g.props.groups@, 0, nc);
    let gord = int_seq_usize(g.stretch_cols@);
    let witness = choose|c: int| 0 <= c < nc && g.spec_col_stretch(c) > 0;
    assert(gf[witness] > 0);
    assert(gord.contains(witness));
    assert(gord.len() > 0);
    assert forall|j1: int, j2: int|
        0 <= j1 < gord.len() && 0 <= j2 < gord.len() implies gf[#[trigger] gord[j1]]
        == gf[#[trigger] gord[j2]] by {
        assert(g.spec_col_stretch(gord[j1]) > 0);
        assert(g.spec_col_stretch(gord[j2]) > 0);
    }
    lemma_budget_exactness(gm, gf, gord, total, g.spec_col_spacing());
}

/// Budget exactness for the rows, symmetrically.
pub proof fn lemma_budget_exactness_rows(g: &Grid, total: int)
    requires
        g.wf(),
        exists|r: int| 0 <= r < g.spec_row_count() && g.spec_row_stretch(r) > 0,
        forall|r1: int, r2: int|
            0 <= r1 < g.spec_row_count() && 0 <= r2 < g.spec_row_count() && #[trigger] g.spec_row_stretch(
                r1,
            ) > 0 && #[trigger] g.spec_row_stretch(r2) > 0 ==> g.spec_row_stretch(r1)
                == g.spec_row_stretch(r2),
        total >= g.spec_row_min_total(),
    ensures
        crate::grid::allocator::sum_to(g.spec_row_lengths(total), g.spec_row_count())
            + g.spec_row_spacing() * (g.spec_row_count() - 1) == total,
{
    let nr = g.spec_row_count();
    let gm = axis_mins(g.props.rows@, g.props.groups@, 0, nr);
    let gf = axis_factors(g.props.rows@, g.props.groups@, 0, nr);
    let gord = int_seq_usize(g.stretch_rows@);
    let witness = choose|r: int| 0 <= r < nr && g.spec_row_stretch(r) > 0;
    assert(gf[witness] > 0);
    assert(gord.contains(witness));
    assert(gord.len() > 0);
    assert forall|j1: int, j2: int|
        0 <= j1 < gord.len() && 0 <= j2 < gord.len() implies gf[#[trigger] gord[j1]]
        == gf[#[trigger] gord[j2]] by {
        assert(g.spec_row_stretch(gord[j1]) > 0);
        assert(g.spec_row_stretch(gord[j2]) > 0);
    }
    lemma_budget_exactness(gm, gf, gord, total, g.spec_row_spacing());
}

impl LayoutElement for Grid {
    fn min_size(&self) -> Size {
        Grid::min_size(self)
    }

    fn layout(&self, x: i32, y: i32, width: i32, height: i32) {
        let _ = self.layout_children(x, y, width, height);
    }
}

/// Truncating halving, as machine division rounds: toward zero.
pub open spec fn trunc_half(d: int) -> int {
    if d >= 0 {
        d / 2
    } else {
        -((-d) / 2)
    }
}

/// Where a participant lands within its cell, per axis: a `Stretch`
/// participant fills the cell; any other occupies its minimum length,
/// positioned at the start, center or end of the cell interior (the cell
/// less the cell's padding). The returned pair is the participant's start
/// offset (relative to the axis origin) and length, clamped to `i32`.
pub open spec fn widget_bounds_model(
    group_start: int,
    cell_start: int,
    cell_size: int,
    min_size: int,
    pad_start: int,
    pad_end: int,
    align: CellAlign,
) -> (int, int) {
    let base = match align {
        CellAlign::Stretch => cell_size,
        _ => min_size,
    };
    let widget_size = base - pad_start - pad_end;
    let cell_inner = cell_size - pad_start - pad_end;
    let rel = match align {
        CellAlign::Start => 0,
        CellAlign::Center => trunc_half(cell_inner - widget_size),
        CellAlign::End => cell_inner - widget_size,
        CellAlign::Stretch => 0,
    };
    (clamp_i32(group_start + pad_start + cell_start + rel), clamp_i32(widget_size))
}

/// Computes a participant's placement within its cell along one axis.
pub fn calc_widget_bounds(
    group_start: i32,
    cell_start: i32,
    cell_size: i32,
    min_size: i32,
    pad_start: i32,
    pad_end: i32,
    align: CellAlign,
) -> (r: (i32, i32))
    ensures
        r.0 as int == widget_bounds_model(
            group_start as int,
            cell_start as int,
            cell_size as int,
            min_size as int,
            pad_start as int,
            pad_end as int,
            align,
        ).0,
        r.1 as int == widget_bounds_model(
            group_start as int,
            cell_start as int,
            cell_size as int,
            min_size as int,
            pad_start as int,
            pad_end as int,
            align,
        ).1,
{
    let base: i64 = match align {
        CellAlign::Stretch => cell_size as i64,
        _ => min_size as i64,
    };
    let widget_size: i64 = base - pad_start as i64 - pad_end as i64;
    let cell_inner: i64 = cell_size as i64 - pad_start as i64 - pad_end as i64;
    let rel: i64 = match align {
        CellAlign::Start => 0,
        CellAlign::Center => {
            let d = cell_inner - widget_size;
            if d >= 0 {
                ((d as u64) / 2u64) as i64
            } else {
                -((((-d) as u64) / 2u64) as i64)
            }
        },
        CellAlign::End => cell_inner - widget_size,
        CellAlign::Stretch => 0,
    };
    let ws = clamp_to_i32(group_start as i64 + pad_start as i64 + cell_start as i64 + rel);
    (ws, clamp_to_i32(widget_size))
}

/// Placement rectangles as mathematical integers.
pub open spec fn rects_int(rects: Seq<(i32, i32, i32, i32)>) -> Seq<(int, int, int, int)> {
    rects.map_values(|t: (i32, i32, i32, i32)| (t.0 as int, t.1 as int, t.2 as int, t.3 as int))
}

impl Grid {
    /// The lengths the allocator assigns to the columns for an interior
    /// width.
    pub closed spec fn spec_col_lengths(&self, total: int) -> Seq<int> {
        stripe_lengths(
            axis_mins(self.props.cols@, self.props.groups@, 0, self.props.cols@.len() as int),
            axis_factors(self.props.cols@, self.props.groups@, 0, self.props.cols@.len() as int),
            int_seq_usize(self.stretch_cols@),
            total,
            self.props.col_spacing as int,
        )
    }

    /// The lengths the allocator assigns to the rows for an interior
    /// height.
    pub closed spec fn spec_row_lengths(&self, total: int) -> Seq<int> {
        stripe_lengths(
            axis_mins(self.props.rows@, self.props.groups@, 0, self.props.rows@.len() as int),
            axis_factors(self.props.rows@, self.props.groups@, 0, self.props.rows@.len() as int),
            int_seq_usize(self.stretch_rows@),
            total,
            self.props.row_spacing as int,
        )
    }

    /// The interior of the container: its origin shifted by the outer
    /// padding, its extent shrunk by it.
    pub closed spec fn spec_interior(&self, x: int, y: int, width: int, height: int) -> (
        int,
        int,
        int,
        int,
    ) {
        (
            clamp_i32(x + self.props.padding.left),
            clamp_i32(y + self.props.padding.top),
            clamp_i32(width - (self.props.padding.left + self.props.padding.right)),
            clamp_i32(height - (self.props.padding.top + self.props.padding.bottom)),
        )
    }

    /// How many simple cells the grid holds.
    pub closed spec fn spec_cell_count(&self) -> int {
        self.props.cells@.len() as int
    }

    /// The placement rectangle of the `i`-th simple cell for the given
    /// container bounds.
    pub closed spec fn spec_cell_rect(&self, i: int, x: int, y: int, width: int, height: int) -> (
        int,
        int,
        int,
        int,
    ) {
        let interior = self.spec_interior(x, y, width, height);
        let col_lengths = self.spec_col_lengths(interior.2);
        let row_lengths = self.spec_row_lengths(interior.3);
        let c = self.props.cells@[i].props;
        let m = self.props.cells@[i].min_size;
        let cell_x = clamp_i32(start_at(col_lengths, self.props.col_spacing as int, c.col as int));
        let cell_w = col_lengths[c.col as int];
        let cell_y = clamp_i32(start_at(row_lengths, self.props.row_spacing as int, c.row as int));
        let cell_h = row_lengths[c.row as int];
        let horz = widget_bounds_model(
            interior.0,
            cell_x,
            cell_w,
            m.width as int,
            c.padding.left as int,
            c.padding.right as int,
            c.horz_align,
        );
        let vert = widget_bounds_model(
            interior.1,
            cell_y,
            cell_h,
            m.height as int,
            c.padding.top as int,
            c.padding.bottom as int,
            c.vert_align,
        );
        (horz.0, vert.0, horz.1, vert.1)
    }

    /// The placement rectangle of the `i`-th spanning cell: its cell is
    /// the union of its footprint's stripe bounds on each axis.
    pub closed spec fn spec_span_rect(&self, i: int, x: int, y: int, width: int, height: int) -> (
        int,
        int,
        int,
        int,
    ) {
        let interior = self.spec_interior(x, y, width, height);
        let col_lengths = self.spec_col_lengths(interior.2);
        let row_lengths = self.spec_row_lengths(interior.3);
        let c = self.props.spans@[i].props;
        let m = self.props.spans@[i].min_size;
        let left = c.col as int;
        let right = c.col + c.col_span - 1;
        let span_x = clamp_i32(start_at(col_lengths, self.props.col_spacing as int, left));
        let right_x = clamp_i32(start_at(col_lengths, self.props.col_spacing as int, right));
        let span_w = clamp_i32(right_x + col_lengths[right] - span_x);
        let top = c.row as int;
        let bottom = c.row + c.row_span - 1;
        let span_y = clamp_i32(start_at(row_lengths, self.props.row_spacing as int, top));
        let bottom_y = clamp_i32(start_at(row_lengths, self.props.row_spacing as int, bottom));
        let span_h = clamp_i32(bottom_y + row_lengths[bottom] - span_y);
        let horz = widget_bounds_model(
            interior.0,
            span_x,
            span_w,
            m.width as int,
            c.padding.left as int,
            c.padding.right as int,
            c.horz_align,
        );
        let vert = widget_bounds_model(
            interior.1,
            span_y,
            span_h,
            m.height as int,
            c.padding.top as int,
            c.padding.bottom as int,
            c.vert_align,
        );
        (horz.0, vert.0, horz.1, vert.1)
    }

    /// Every participant's placement rectangle for the given container
    /// bounds: the simple cells in declaration order, then the spans in
    /// declaration order.
    pub closed spec fn spec_layout(&self, x: int, y: int, width: int, height: int) -> Seq<
        (int, int, int, int),
    > {
        Seq::new(self.props.cells@.len(), |i: int| self.spec_cell_rect(i, x, y, width, height))
            + Seq::new(self.props.spans@.len(), |i: int| self.spec_span_rect(i, x, y, width, height))
    }
}

} // verus!
