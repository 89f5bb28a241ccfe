//! Distribution of one axis' length over its stripes.
//!
//! Given a total length, the per-stripe minimum sizes and stretch factors,
//! and the list of stretchable stripes ordered by descending minimum size,
//! the allocator assigns every stripe a start offset and a length. Every
//! stripe receives at least its minimum size; the budget that remains after
//! spacing and fixed minimums is split among stretchable stripes in
//! proportion to their factors, and the last processed stretch stripe
//! absorbs the rounding remainder.

use vstd::prelude::*;

use crate::clamp_i32;
use crate::clamp_to_i32;

verus! {

/// The evolving state of one allocation pass: tentative stripe lengths, the
/// remaining stretch budget, the stretch factors not yet processed, and the
/// current per-factor share.
#[verifier::ext_equal]
pub ghost struct AllocState {
    pub lengths: Seq<int>,
    pub budget: int,
    pub count: int,
    pub unit: int,
}

/// The sequence of `i32` values as mathematical integers.
pub open spec fn int_seq(s: Seq<i32>) -> Seq<int> {
    s.map_values(|v: i32| v as int)
}

/// The sequence of `u8` values as mathematical integers.
pub open spec fn int_seq_u8(s: Seq<u8>) -> Seq<int> {
    s.map_values(|v: u8| v as int)
}

/// The sum of the first `n` values of a sequence of integers.
pub open spec fn sum_to(s: Seq<int>, n: int) -> int
    decreases n,
{
    if n <= 0 {
        0
    } else {
        sum_to(s, n - 1) + s[n - 1]
    }
}

/// The sum of the minimum sizes of the stripes whose factor is zero,
/// among the first `n` stripes.
pub open spec fn fixed_sum(mins: Seq<int>, factors: Seq<int>, n: int) -> int
    decreases n,
{
    if n <= 0 {
        0
    } else {
        fixed_sum(mins, factors, n - 1) + if factors[n - 1] == 0 {
            mins[n - 1]
        } else {
            0
        }
    }
}

/// The sum of the first `n` stretch factors.
pub open spec fn factor_sum(factors: Seq<int>, n: int) -> int
    decreases n,
{
    if n <= 0 {
        0
    } else {
        factor_sum(factors, n - 1) + factors[n - 1]
    }
}

/// The sum of the factors of the stripes `order[k..]`.
pub open spec fn order_factor_sum(factors: Seq<int>, order: Seq<int>, k: int) -> int
    decreases order.len() - k,
{
    if 0 <= k < order.len() {
        factors[order[k]] + order_factor_sum(factors, order, k + 1)
    } else {
        0
    }
}

/// The sum of the minimum sizes of the stripes `order[k..]`.
pub open spec fn order_min_sum(mins: Seq<int>, order: Seq<int>, k: int) -> int
    decreases order.len() - k,
{
    if 0 <= k < order.len() {
        mins[order[k]] + order_min_sum(mins, order, k + 1)
    } else {
        0
    }
}

/// Bounds on one axis' inputs: minimum sizes are non-negative `i32` values
/// and factors are byte-sized.
pub open spec fn stripes_wf(mins: Seq<int>, factors: Seq<int>) -> bool {
    &&& mins.len() == factors.len()
    &&& forall|i: int| 0 <= i < mins.len() ==> 0 <= #[trigger] mins[i] <= i32::MAX
    &&& forall|i: int| 0 <= i < factors.len() ==> 0 <= #[trigger] factors[i] <= 255
}

/// The processing order is exactly the stretchable stripes (factor above
/// zero), each once, sorted by descending minimum size.
pub open spec fn order_wf(mins: Seq<int>, factors: Seq<int>, order: Seq<int>) -> bool {
    &&& forall|k: int|
        0 <= k < order.len() ==> 0 <= #[trigger] order[k] < mins.len() && factors[order[k]] > 0
    &&& forall|k1: int, k2: int| 0 <= k1 < k2 < order.len() ==> order[k1] != order[k2]
    &&& forall|i: int|
        0 <= i < factors.len() && #[trigger] factors[i] > 0 ==> order.contains(i)
    &&& forall|k1: int, k2: int|
        0 <= k1 < k2 < order.len() ==> mins[#[trigger] order[k1]] >= mins[#[trigger] order[k2]]
}

/// One pass over the ordered stretch stripes, from position `k` on: each
/// stripe is assigned its proportional share unless that share falls below
/// its minimum size, in which case it keeps the minimum and the per-factor
/// share is recomputed from the reduced budget; the stripe processed last
/// absorbs the whole remaining budget.
pub open spec fn alloc_step(
    mins: Seq<int>,
    factors: Seq<int>,
    order: Seq<int>,
    k: int,
    st: AllocState,
) -> AllocState
    decreases order.len() - k,
{
    if 0 <= k < order.len() {
        let i = order[k];
        let f = factors[i];
        let m = mins[i];
        let count2 = st.count - f;
        let share = if count2 > 0 {
            st.unit * f
        } else {
            st.budget
        };
        if share < m {
            let budget2 = st.budget - m;
            let unit2 = if count2 > 0 && budget2 > 0 {
                budget2 / count2
            } else {
                0
            };
            alloc_step(
                mins,
                factors,
                order,
                k + 1,
                AllocState { lengths: st.lengths, budget: budget2, count: count2, unit: unit2 },
            )
        } else {
            alloc_step(
                mins,
                factors,
                order,
                k + 1,
                AllocState {
                    lengths: st.lengths.update(i, share),
                    budget: st.budget - share,
                    count: count2,
                    unit: st.unit,
                },
            )
        }
    } else {
        st
    }
}

/// The allocation state before any stretch stripe is processed: every
/// stripe's tentative length is its minimum size, and the stretch budget is
/// the total length minus spacing and fixed minimums, floored at zero.
pub open spec fn alloc_init(mins: Seq<int>, factors: Seq<int>, total: int, spacing: int) -> AllocState {
    let n = mins.len() as int;
    let raw = total - spacing * (n - 1) - fixed_sum(mins, factors, n);
    let budget = if raw > 0 {
        raw
    } else {
        0
    };
    let count = factor_sum(factors, n);
    let unit = if count > 0 && budget > 0 {
        budget / count
    } else {
        0
    };
    AllocState { lengths: mins, budget, count, unit }
}

/// The final state of one allocation pass.
pub open spec fn alloc_final(
    mins: Seq<int>,
    factors: Seq<int>,
    order: Seq<int>,
    total: int,
    spacing: int,
) -> AllocState {
    alloc_step(mins, factors, order, 0, alloc_init(mins, factors, total, spacing))
}

/// The length assigned to each stripe.
pub open spec fn stripe_lengths(
    mins: Seq<int>,
    factors: Seq<int>,
    order: Seq<int>,
    total: int,
    spacing: int,
) -> Seq<int> {
    alloc_final(mins, factors, order, total, spacing).lengths
}

/// The ideal start offset of stripe `k`: the lengths of the stripes before
/// it plus one spacing gap each.
pub open spec fn start_at(lengths: Seq<int>, spacing: int, k: int) -> int
    decreases k,
{
    if k <= 0 {
        0
    } else {
        start_at(lengths, spacing, k - 1) + lengths[k - 1] + spacing
    }
}

/// The sequence of `usize` values as mathematical integers.
pub open spec fn int_seq_usize(s: Seq<usize>) -> Seq<int> {
    s.map_values(|v: usize| v as int)
}

/// The lengths held in a bounds vector, as mathematical integers.
pub open spec fn lengths_of(bounds: Seq<(i32, i32)>) -> Seq<int> {
    bounds.map_values(|b: (i32, i32)| b.1 as int)
}

/// The sum of the factors of the stripes `order[k..]` is non-negative, and
/// at least the factor of any single listed stripe.
proof fn lemma_order_factor_sum_bounds(factors: Seq<int>, order: Seq<int>, k: int)
    requires
        forall|j: int| 0 <= j < order.len() ==> 0 <= #[trigger] order[j] < factors.len(),
        forall|i: int| 0 <= i < factors.len() ==> #[trigger] factors[i] >= 0,
    ensures
        order_factor_sum(factors, order, k) >= 0,
        0 <= k < order.len() ==> order_factor_sum(factors, order, k) >= factors[order[k]],
    decreases order.len() - k,
{
    if 0 <= k < order.len() {
        lemma_order_factor_sum_bounds(factors, order, k + 1);
    }
}

/// The sum of the minimum sizes of the stripes `order[k..]` is
/// non-negative.
proof fn lemma_order_min_sum_nonneg(mins: Seq<int>, order: Seq<int>, k: int)
    requires
        forall|j: int| 0 <= j < order.len() ==> 0 <= #[trigger] order[j] < mins.len(),
        forall|i: int| 0 <= i < mins.len() ==> #[trigger] mins[i] >= 0,
    ensures
        order_min_sum(mins, order, k) >= 0,
    decreases order.len() - k,
{
    if 0 <= k < order.len() {
        lemma_order_min_sum_nonneg(mins, order, k + 1);
    }
}

/// Two factor sequences that agree on every stripe listed in `order[k..]`
/// give the same factor sum along the order.
proof fn lemma_order_factor_sum_congruent(f1: Seq<int>, f2: Seq<int>, order: Seq<int>, k: int)
    requires
        forall|j: int|
            k <= j < order.len() ==> 0 <= #[trigger] order[j] < f1.len() && order[j] < f2.len()
                && f1[order[j]] == f2[order[j]],
    ensures
        order_factor_sum(f1, order, k) == order_factor_sum(f2, order, k),
    decreases order.len() - k,
{
    if 0 <= k < order.len() {
        lemma_order_factor_sum_congruent(f1, f2, order, k + 1);
    }
}

/// When no stripe stretches, the factor sum is zero and every minimum is
/// part of the fixed sum.
proof fn lemma_sums_all_fixed(mins: Seq<int>, factors: Seq<int>, n: int)
    requires
        forall|i: int| 0 <= i < factors.len() ==> #[trigger] factors[i] == 0,
        n <= factors.len(),
    ensures
        factor_sum(factors, n) == 0,
        fixed_sum(mins, factors, n) == sum_to(mins, n),
    decreases n,
{
    if n > 0 {
        lemma_sums_all_fixed(mins, factors, n - 1);
    }
}

/// Zeroing one factor removes exactly that factor from the factor sum and
/// moves exactly that stripe's minimum into the fixed sum.
proof fn lemma_sums_zero_one(mins: Seq<int>, factors: Seq<int>, i: int, n: int)
    requires
        0 <= i < factors.len(),
        n <= factors.len(),
    ensures
        factor_sum(factors.update(i, 0), n) == factor_sum(factors, n) - (if i < n {
            factors[i]
        } else {
            0
        }),
        fixed_sum(mins, factors.update(i, 0), n) == fixed_sum(mins, factors, n) + (if i < n
            && factors[i] != 0 {
            mins[i]
        } else {
            0
        }),
    decreases n,
{
    if n > 0 {
        lemma_sums_zero_one(mins, factors, i, n - 1);
    }
}

/// The order lists each stretchable stripe exactly once, so summing along
/// the order is summing over the stretchable stripes: the factor sum along
/// the order is the total factor sum, and the minimum-size sum along the
/// order is the total minimum-size sum less the fixed stripes' share.
proof fn lemma_order_sums(mins: Seq<int>, factors: Seq<int>, order: Seq<int>, k: int)
    requires
        0 <= k,
        mins.len() == factors.len(),
        forall|i: int| 0 <= i < factors.len() ==> #[trigger] factors[i] >= 0,
        forall|j: int|
            k <= j < order.len() ==> 0 <= #[trigger] order[j] < factors.len()
                && factors[order[j]] > 0,
        forall|j1: int, j2: int| k <= j1 < j2 < order.len() ==> order[j1] != order[j2],
        forall|i: int|
            0 <= i < factors.len() && #[trigger] factors[i] > 0 ==> exists|j: int|
                k <= j < order.len() && order[j] == i,
    ensures
        order_factor_sum(factors, order, k) == factor_sum(factors, factors.len() as int),
        order_min_sum(mins, order, k) == sum_to(mins, mins.len() as int) - fixed_sum(
            mins,
            factors,
            factors.len() as int,
        ),
    decreases order.len() - k,
{
    let n = factors.len() as int;
    if k < 0 || k >= order.len() {
        assert forall|i: int| 0 <= i < n implies #[trigger] factors[i] == 0 by {
            if factors[i] > 0 {
                let j = choose|j: int| k <= j < order.len() && order[j] == i;
                assert(false);
            }
        }
        lemma_sums_all_fixed(mins, factors, n);
    } else {
        let i0 = order[k];
        let f2 = factors.update(i0, 0);
        assert forall|i: int|
            0 <= i < f2.len() && #[trigger] f2[i] > 0 implies exists|j: int|
            k + 1 <= j < order.len() && order[j] == i by {
            assert(factors[i] > 0);
            let j = choose|j: int| k <= j < order.len() && order[j] == i;
            assert(order[j] == i && i != i0);
            assert(j != k);
            assert(k + 1 <= j < order.len() && order[j] == i);
        }
        lemma_order_sums(mins, f2, order, k + 1);
        lemma_order_factor_sum_congruent(factors, f2, order, k + 1);
        lemma_sums_zero_one(mins, factors, i0, n);
    }
}

/// Summing along the processing order reaches every stretchable stripe:
/// the factors along the order add up to the total factor sum, and the
/// minimums along the order add up to the stretchable stripes' share of
/// the total minimum.
pub proof fn lemma_order_covers_stretch(mins: Seq<int>, factors: Seq<int>, order: Seq<int>)
    requires
        stripes_wf(mins, factors),
        order_wf(mins, factors, order),
    ensures
        order_factor_sum(factors, order, 0) == factor_sum(factors, factors.len() as int),
        order_min_sum(mins, order, 0) == sum_to(mins, mins.len() as int) - fixed_sum(
            mins,
            factors,
            factors.len() as int,
        ),
{
    lemma_order_sums(mins, factors, order, 0);
}

/// Division by a positive divisor: the quotient is non-negative, at most
/// the dividend, and its product with the divisor does not exceed the
/// dividend.
proof fn lemma_div_mul_le(b: int, c: int)
    requires
        0 < c,
        0 <= b,
    ensures
        0 <= b / c <= b,
        c * (b / c) <= b,
{
    vstd::arithmetic::div_mod::lemma_fundamental_div_mod(b, c);
    vstd::arithmetic::div_mod::lemma_mod_bound(b, c);
    vstd::arithmetic::div_mod::lemma_div_pos_is_pos(b, c);
    assert((c - 1) * (b / c) >= 0) by (nonlinear_arith)
        requires
            c >= 1,
            b / c >= 0,
    ;
    assert(c * (b / c) == (c - 1) * (b / c) + (b / c)) by (nonlinear_arith);
}

/// Computes the start offset and length of each stripe along one axis.
///
/// `mins` and `factors` give each stripe's minimum size and stretch factor;
/// `stretch_stripes` lists the stretchable stripes sorted by descending
/// minimum size. Every stripe's length is at least its minimum size. Start
/// offsets accumulate lengths plus one `spacing` gap between neighbours,
/// clamped to the `i32` range.
pub fn calc_stripe_bounds(
    total_size: i32,
    mins: &Vec<i32>,
    factors: &Vec<u8>,
    stretch_stripes: &Vec<usize>,
    spacing: i32,
) -> (bounds: Vec<(i32, i32)>)
    requires
        stripes_wf(int_seq(mins@), int_seq_u8(factors@)),
        order_wf(int_seq(mins@), int_seq_u8(factors@), int_seq_usize(stretch_stripes@)),
        stretch_stripes@.len() <= mins@.len(),
        spacing >= 0,
        mins@.len() <= i32::MAX,
    ensures
        bounds@.len() == mins@.len(),
        lengths_of(bounds@) == stripe_lengths(
            int_seq(mins@),
            int_seq_u8(factors@),
            int_seq_usize(stretch_stripes@),
            total_size as int,
            spacing as int,
        ),
        forall|i: int|
            0 <= i < bounds@.len() ==> (#[trigger] bounds@[i]).0 as int == clamp_i32(
                start_at(
                    stripe_lengths(
                        int_seq(mins@),
                        int_seq_u8(factors@),
                        int_seq_usize(stretch_stripes@),
                        total_size as int,
                        spacing as int,
                    ),
                    spacing as int,
                    i,
                ),
            ),
{
    let ghost gm = int_seq(mins@);
    let ghost gf = int_seq_u8(factors@);
    let ghost gord = int_seq_usize(stretch_stripes@);
    let ghost gtotal = total_size as int;
    let ghost gspacing = spacing as int;
    proof {
        assert(gm.len() == mins@.len());
        assert(gf.len() == factors@.len());
        assert(gord.len() == stretch_stripes@.len());
    }

    let n = mins.len();
    let mut bounds: Vec<(i32, i32)> = Vec::new();
    if n == 0 {
        assert(lengths_of(bounds@) =~= stripe_lengths(gm, gf, gord, gtotal, gspacing));
        return bounds;
    }

    let mut fixed: i64 = 0;
    let mut count: i64 = 0;
    let mut idx: usize = 0;
    while idx < n
        invariant
            n == mins@.len(),
            idx <= n,
            stripes_wf(gm, gf),
            gm == int_seq(mins@),
            gf == int_seq_u8(factors@),
            bounds@.len() == idx,
            forall|j: int| 0 <= j < idx ==> #[trigger] bounds@[j] == (0i32, mins@[j]),
            fixed == fixed_sum(gm, gf, idx as int),
            count == factor_sum(gf, idx as int),
            0 <= fixed as int <= (idx as int) * 0x7fff_ffff,
            0 <= count as int <= (idx as int) * 255,
            n <= i32::MAX,
        decreases n - idx,
    {
        assert(0 <= gm[idx as int] <= 0x7fff_ffff);
        assert(0 <= gf[idx as int] <= 255);
        assert((idx as int) * 0x7fff_ffff + 0x7fff_ffff == ((idx as int) + 1) * 0x7fff_ffff)
            by (nonlinear_arith);
        assert((idx as int) * 255 + 255 == ((idx as int) + 1) * 255) by (nonlinear_arith);
        assert(((idx as int) + 1) * 0x7fff_ffff <= 0x8000_0000 * 0x7fff_ffff) by (nonlinear_arith)
            requires
                0 <= idx as int,
                (idx as int) + 1 <= 0x8000_0000,
        ;
        if factors[idx] == 0 {
            fixed = fixed + mins[idx] as i64;
        } else {
            count = count + factors[idx] as i64;
        }
        bounds.push((0i32, mins[idx]));
        idx = idx + 1;
    }

    assert(0 <= ((n as int) - 1) * (spacing as int) <= 0x7fff_ffff * 0x7fff_ffff)
        by (nonlinear_arith)
        requires
            1 <= n as int <= 0x8000_0000,
            0 <= spacing as int <= 0x7fff_ffff,
    ;
    assert(fixed as int <= 0x8000_0000 * 0x7fff_ffff) by (nonlinear_arith)
        requires
            0 <= fixed as int,
            fixed as int <= (n as int) * 0x7fff_ffff,
            n as int <= 0x8000_0000,
    ;
    let spacing_total: i64 = (n as i64 - 1) * (spacing as i64);
    let raw: i64 = total_size as i64 - spacing_total - fixed;
    let mut budget: i64 = if raw > 0 {
        raw
    } else {
        0
    };
    let mut unit: i64 = if count > 0 && budget > 0 {
        ((budget as u64) / (count as u64)) as i64
    } else {
        0
    };
    assert(count > 0 && budget > 0 ==> unit as int == budget as int / count as int);
    proof {
        if count > 0 && budget > 0 {
            lemma_div_mul_le(budget as int, count as int);
            assert(unit as int == (budget as int) / (count as int));
            assert((count as int) * ((budget as int) / (count as int)) <= budget as int);
            assert(unit * count <= budget);
        }
        if count > 0 && budget <= 0 {
            assert(unit == 0);
            assert(unit * count == 0) by (nonlinear_arith)
                requires
                    unit == 0,
            ;
        }
    }

    let ghost st0 = alloc_init(gm, gf, gtotal, gspacing);
    proof {
        lemma_order_covers_stretch(gm, gf, gord);
        assert(lengths_of(bounds@) =~= gm);
        assert(fixed == fixed_sum(gm, gf, n as int));
        assert(spacing_total == ((n as int) - 1) * gspacing);
        assert(((n as int) - 1) * gspacing == gspacing * ((n as int) - 1)) by (nonlinear_arith);
        assert(spacing_total == gspacing * ((n as int) - 1));
        assert(raw == gtotal - gspacing * ((n as int) - 1) - fixed_sum(gm, gf, n as int));
        assert(gm.len() as int == n as int);
        assert(st0.budget == budget as int);
        assert(st0.count == count as int);
        assert(st0.unit == unit as int);
        assert forall|j: int| 0 <= j < n implies (#[trigger] bounds@[j]).1 >= 0 by {
            assert(gm[j] == mins@[j] as int);
        }
        assert(st0 =~= AllocState {
            lengths: lengths_of(bounds@),
            budget: budget as int,
            count: count as int,
            unit: unit as int,
        });
    }

    let ghost fin = alloc_final(gm, gf, gord, gtotal, gspacing);

    let stretch_n = stretch_stripes.len();
    let mut k: usize = 0;
    while k < stretch_n
        invariant
            stretch_n == gord.len(),
            stretch_n <= n,
            k <= stretch_n,
            n == gm.len(),
            n <= i32::MAX,
            stripes_wf(gm, gf),
            order_wf(gm, gf, gord),
            gm == int_seq(mins@),
            gf == int_seq_u8(factors@),
            gord == int_seq_usize(stretch_stripes@),
            fin == alloc_final(gm, gf, gord, gtotal, gspacing),
            bounds@.len() == n,
            forall|j: int| 0 <= j < n ==> (#[trigger] bounds@[j]).0 == 0i32,
            forall|j: int| 0 <= j < n ==> (#[trigger] bounds@[j]).1 >= 0,
            fin == alloc_step(gm, gf, gord, k as int, AllocState {
                lengths: lengths_of(bounds@),
                budget: budget as int,
                count: count as int,
                unit: unit as int,
            }),
            count == order_factor_sum(gf, gord, k as int),
            budget <= 0x7fff_ffff,
            budget as int >= (k as int) * (-0x8000_0000),
            0 <= unit <= 0x7fff_ffff,
            count > 0 ==> unit * count <= (if budget > 0 {
                budget
            } else {
                0i64
            }),
        decreases stretch_n - k,
    {
        let ghost pre = AllocState {
            lengths: lengths_of(bounds@),
            budget: budget as int,
            count: count as int,
            unit: unit as int,
        };
        let i = stretch_stripes[k];
        assert(gord[k as int] == i as int);
        assert(0 <= (i as int) < n && gf[i as int] > 0);
        let f: i64 = factors[i] as i64;
        let m: i64 = mins[i] as i64;
        assert(f == gf[i as int] && m == gm[i as int]);
        proof {
            lemma_order_factor_sum_bounds(gf, gord, k as int + 1);
        }
        count = count - f;
        assert(count >= 0);
        let share: i64 = if count > 0 {
            assert(0 <= unit * f <= unit * (count + f)) by (nonlinear_arith)
                requires
                    0 <= unit,
                    0 < f,
                    0 < count,
            ;
            unit * f
        } else {
            budget
        };
        if share < m {
            assert((k as int) * (-0x8000_0000) - 0x8000_0000 == ((k as int) + 1) * (-0x8000_0000))
                by (nonlinear_arith);
            assert(((k as int) + 1) * (-0x8000_0000) >= 0x8000_0000 * (-0x8000_0000))
                by (nonlinear_arith)
                requires
                    0 <= k as int,
                    (k as int) + 1 <= 0x8000_0000,
            ;
            budget = budget - m;
            if count > 0 && budget > 0 {
                unit = ((budget as u64) / (count as u64)) as i64;
                assert(unit == budget as int / count as int);
                proof {
                    lemma_div_mul_le(budget as int, count as int);
                    assert(unit * count == count * unit) by (nonlinear_arith);
                }
                assert(unit * count <= budget && 0 <= unit && unit <= budget);
            } else {
                unit = 0;
            }
            proof {
                let post = AllocState {
                    lengths: lengths_of(bounds@),
                    budget: budget as int,
                    count: count as int,
                    unit: unit as int,
                };
                assert(alloc_step(gm, gf, gord, k as int, pre) == alloc_step(
                    gm,
                    gf,
                    gord,
                    k as int + 1,
                    post,
                ));
            }
        } else {
            assert(0 <= share <= 0x7fff_ffff);
            budget = budget - share;
            let ghost prev_bounds = bounds@;
            bounds.set(i, (0i32, share as i32));
            proof {
                assert(lengths_of(bounds@) =~= lengths_of(prev_bounds).update(
                    i as int,
                    share as int,
                ));
                if count > 0 {
                    assert(unit * count <= unit * (count + f) - unit * f) by (nonlinear_arith);
                }
                let post = AllocState {
                    lengths: lengths_of(bounds@),
                    budget: budget as int,
                    count: count as int,
                    unit: unit as int,
                };
                assert(alloc_step(gm, gf, gord, k as int, pre) == alloc_step(
                    gm,
                    gf,
                    gord,
                    k as int + 1,
                    post,
                ));
            }
        }
        k = k + 1;
    }

    let ghost glengths = stripe_lengths(gm, gf, gord, gtotal, gspacing);
    proof {
        assert(lengths_of(bounds@) == glengths);
    }

    let mut start: i64 = 0;
    let mut j: usize = 0;
    while j < n
        invariant
            n == bounds@.len(),
            n <= i32::MAX,
            j <= n,
            gspacing == spacing as int,
            0 <= gspacing <= 0x7fff_ffff,
            lengths_of(bounds@) == glengths,
            forall|t: int| 0 <= t < n ==> (#[trigger] bounds@[t]).1 >= 0,
            forall|t: int|
                0 <= t < j ==> (#[trigger] bounds@[t]).0 as int == clamp_i32(
                    start_at(glengths, gspacing, t),
                ),
            start == start_at(glengths, gspacing, j as int),
            0 <= start as int <= (j as int) * 0xffff_fffe,
        decreases n - j,
    {
        let ghost prev_bounds = bounds@;
        let entry = bounds[j];
        assert((j as int) * 0xffff_fffe <= 0x7fff_ffff * 0xffff_fffe) by (nonlinear_arith)
            requires
                0 <= j as int <= 0x7fff_ffff,
        ;
        let s32 = crate::clamp_to_i32(start);
        bounds.set(j, (s32, entry.1));
        proof {
            assert(lengths_of(bounds@) =~= lengths_of(prev_bounds));
        }
        assert((j as int) * 0xffff_fffe + 0xffff_fffe == ((j as int) + 1) * 0xffff_fffe)
            by (nonlinear_arith);
        assert(((j as int) + 1) * 0xffff_fffe <= 0x8000_0000 * 0xffff_fffe) by (nonlinear_arith)
            requires
                (j as int) + 1 <= 0x8000_0000,
        ;
        start = start + entry.1 as i64 + spacing as i64;
        j = j + 1;
    }

    bounds
}

/// Each processing step keeps every tentative length at or above the
/// stripe's minimum size: a stripe is only ever assigned a share that is at
/// least its minimum.
proof fn lemma_step_keeps_minimums(
    mins: Seq<int>,
    factors: Seq<int>,
    order: Seq<int>,
    k: int,
    st: AllocState,
)
    requires
        st.lengths.len() == mins.len(),
        forall|j: int| 0 <= j < order.len() ==> 0 <= #[trigger] order[j] < mins.len(),
        forall|i: int| 0 <= i < mins.len() ==> #[trigger] st.lengths[i] >= mins[i],
    ensures
        alloc_step(mins, factors, order, k, st).lengths.len() == mins.len(),
        forall|i: int|
            0 <= i < mins.len() ==> #[trigger] alloc_step(mins, factors, order, k, st).lengths[i]
                >= mins[i],
    decreases order.len() - k,
{
    if 0 <= k < order.len() {
        let i = order[k];
        let f = factors[i];
        let m = mins[i];
        let count2 = st.count - f;
        let share = if count2 > 0 {
            st.unit * f
        } else {
            st.budget
        };
        if share < m {
            let budget2 = st.budget - m;
            let unit2 = if count2 > 0 && budget2 > 0 {
                budget2 / count2
            } else {
                0
            };
            lemma_step_keeps_minimums(
                mins,
                factors,
                order,
                k + 1,
                AllocState { lengths: st.lengths, budget: budget2, count: count2, unit: unit2 },
            );
        } else {
            lemma_step_keeps_minimums(
                mins,
                factors,
                order,
                k + 1,
                AllocState {
                    lengths: st.lengths.update(i, share),
                    budget: st.budget - share,
                    count: count2,
                    unit: st.unit,
                },
            );
        }
    }
}

/// No stripe is ever assigned less than its minimum size, whatever the
/// total length on offer.
pub proof fn lemma_no_shrink_below_minimum(
    mins: Seq<int>,
    factors: Seq<int>,
    order: Seq<int>,
    total: int,
    spacing: int,
)
    requires
        forall|j: int| 0 <= j < order.len() ==> 0 <= #[trigger] order[j] < mins.len(),
    ensures
        stripe_lengths(mins, factors, order, total, spacing).len() == mins.len(),
        forall|i: int|
            0 <= i < mins.len() ==> #[trigger] stripe_lengths(mins, factors, order, total, spacing)[i]
                >= mins[i],
{
    lemma_step_keeps_minimums(mins, factors, order, 0, alloc_init(mins, factors, total, spacing));
}

/// Updating one in-range entry changes a prefix sum by the difference
/// between the new and the old value.
pub proof fn lemma_sum_to_update(s: Seq<int>, i: int, v: int, n: int)
    requires
        0 <= i < s.len(),
        n <= s.len(),
    ensures
        sum_to(s.update(i, v), n) == sum_to(s, n) + (if i < n {
            v - s[i]
        } else {
            0
        }),
    decreases n,
{
    if n > 0 {
        lemma_sum_to_update(s, i, v, n - 1);
    }
}

/// Each step spends the processed stripe's final length: the budget plus
/// the sum of all tentative lengths falls by exactly the minimums of the
/// stripes processed, whether a stripe keeps its minimum or is assigned a
/// larger share.
proof fn lemma_step_conservation(
    mins: Seq<int>,
    factors: Seq<int>,
    order: Seq<int>,
    k: int,
    st: AllocState,
)
    requires
        0 <= k,
        st.lengths.len() == mins.len(),
        forall|j: int| k <= j < order.len() ==> 0 <= #[trigger] order[j] < mins.len(),
        forall|j1: int, j2: int| k <= j1 < j2 < order.len() ==> order[j1] != order[j2],
        forall|j: int| k <= j < order.len() ==> #[trigger] st.lengths[order[j]] == mins[order[j]],
    ensures
        alloc_step(mins, factors, order, k, st).budget + sum_to(
            alloc_step(mins, factors, order, k, st).lengths,
            mins.len() as int,
        ) == st.budget + sum_to(st.lengths, mins.len() as int) - order_min_sum(mins, order, k),
    decreases order.len() - k,
{
    let n = mins.len() as int;
    if 0 <= k < order.len() {
        let i = order[k];
        let f = factors[i];
        let m = mins[i];
        let count2 = st.count - f;
        let share = if count2 > 0 {
            st.unit * f
        } else {
            st.budget
        };
        if share < m {
            let budget2 = st.budget - m;
            let unit2 = if count2 > 0 && budget2 > 0 {
                budget2 / count2
            } else {
                0
            };
            lemma_step_conservation(
                mins,
                factors,
                order,
                k + 1,
                AllocState { lengths: st.lengths, budget: budget2, count: count2, unit: unit2 },
            );
        } else {
            let st2 = AllocState {
                lengths: st.lengths.update(i, share),
                budget: st.budget - share,
                count: count2,
                unit: st.unit,
            };
            lemma_sum_to_update(st.lengths, i, share, n);
            lemma_step_conservation(mins, factors, order, k + 1, st2);
        }
    }
}

/// Once the last listed stripe has been processed no stretch budget is
/// left over: the last stripe either absorbs the whole remainder or forces
/// the budget below zero by keeping its minimum.
proof fn lemma_step_spends_budget(
    mins: Seq<int>,
    factors: Seq<int>,
    order: Seq<int>,
    k: int,
    st: AllocState,
)
    requires
        0 <= k < order.len(),
        forall|j: int| 0 <= j < order.len() ==> 0 <= #[trigger] order[j] < factors.len(),
        forall|j: int| 0 <= j < order.len() ==> #[trigger] factors[order[j]] > 0,
        forall|i: int| 0 <= i < factors.len() ==> #[trigger] factors[i] >= 0,
        forall|i: int| 0 <= i < mins.len() ==> #[trigger] mins[i] >= 0,
        mins.len() == factors.len(),
        st.count == order_factor_sum(factors, order, k),
    ensures
        alloc_step(mins, factors, order, k, st).budget <= 0,
    decreases order.len() - k,
{
    let i = order[k];
    let f = factors[i];
    let m = mins[i];
    let count2 = st.count - f;
    let share = if count2 > 0 {
        st.unit * f
    } else {
        st.budget
    };
    if k == order.len() - 1 {
        assert(order_factor_sum(factors, order, k) == factors[i] + order_factor_sum(
            factors,
            order,
            k + 1,
        ));
        assert(order_factor_sum(factors, order, k + 1) == 0);
        assert(count2 == 0);
        if share < m {
            let st2 = AllocState {
                lengths: st.lengths,
                budget: st.budget - m,
                count: count2,
                unit: 0,
            };
            assert(alloc_step(mins, factors, order, k + 1, st2) == st2);
            assert(alloc_step(mins, factors, order, k, st).budget == st.budget - m);
        } else {
            let st2 = AllocState {
                lengths: st.lengths.update(i, share),
                budget: 0,
                count: count2,
                unit: st.unit,
            };
            assert(alloc_step(mins, factors, order, k + 1, st2) == st2);
            assert(alloc_step(mins, factors, order, k, st).budget == 0);
        }
    } else {
        lemma_order_factor_sum_bounds(factors, order, k + 1);
        if share < m {
            let budget2 = st.budget - m;
            let unit2 = if count2 > 0 && budget2 > 0 {
                budget2 / count2
            } else {
                0
            };
            lemma_step_spends_budget(
                mins,
                factors,
                order,
                k + 1,
                AllocState { lengths: st.lengths, budget: budget2, count: count2, unit: unit2 },
            );
        } else {
            lemma_step_spends_budget(
                mins,
                factors,
                order,
                k + 1,
                AllocState {
                    lengths: st.lengths.update(i, share),
                    budget: st.budget - share,
                    count: count2,
                    unit: st.unit,
                },
            );
        }
    }
}

/// With at least one stretchable stripe, the allocated lengths together
/// with the spacing gaps cover the whole total length: the stretch stripes
/// absorb at least the budget that the total offers.
pub proof fn lemma_allocation_covers(
    mins: Seq<int>,
    factors: Seq<int>,
    order: Seq<int>,
    total: int,
    spacing: int,
)
    requires
        stripes_wf(mins, factors),
        order_wf(mins, factors, order),
        order.len() > 0,
    ensures
        sum_to(stripe_lengths(mins, factors, order, total, spacing), mins.len() as int) + spacing
            * (mins.len() as int - 1) >= total,
{
    let n = mins.len() as int;
    let st0 = alloc_init(mins, factors, total, spacing);
    let fin = alloc_final(mins, factors, order, total, spacing);
    lemma_order_covers_stretch(mins, factors, order);
    lemma_step_conservation(mins, factors, order, 0, st0);
    lemma_step_spends_budget(mins, factors, order, 0, st0);
    lemma_order_min_sum_nonneg(mins, order, 0);
}

/// A bound on every listed minimum bounds the sum along the order.
proof fn lemma_order_min_sum_upper(mins: Seq<int>, order: Seq<int>, k: int, b: int)
    requires
        0 <= k <= order.len(),
        forall|j: int| k <= j < order.len() ==> 0 <= #[trigger] order[j] < mins.len(),
        forall|j: int| k <= j < order.len() ==> mins[#[trigger] order[j]] <= b,
        b >= 0,
    ensures
        order_min_sum(mins, order, k) <= (order.len() - k) * b,
    decreases order.len() - k,
{
    if k < order.len() {
        lemma_order_min_sum_upper(mins, order, k + 1, b);
        assert((order.len() - k) * b == (order.len() - k - 1) * b + b) by (nonlinear_arith);
    } else {
        assert((order.len() - k) * b >= 0) by (nonlinear_arith)
            requires
                order.len() - k >= 0,
                b >= 0,
        ;
    }
}

/// When every listed stripe has the same factor, the factor sum along the
/// order is that factor times the number of listed stripes.
proof fn lemma_order_factor_sum_const(factors: Seq<int>, order: Seq<int>, k: int, f0: int)
    requires
        0 <= k <= order.len(),
        forall|j: int| k <= j < order.len() ==> 0 <= #[trigger] order[j] < factors.len(),
        forall|j: int| k <= j < order.len() ==> factors[#[trigger] order[j]] == f0,
    ensures
        order_factor_sum(factors, order, k) == (order.len() - k) * f0,
    decreases order.len() - k,
{
    if k < order.len() {
        lemma_order_factor_sum_const(factors, order, k + 1, f0);
        assert((order.len() - k) * f0 == (order.len() - k - 1) * f0 + f0) by (nonlinear_arith);
    } else {
        assert((order.len() - k) * f0 == 0) by (nonlinear_arith)
            requires
                order.len() - k == 0,
        ;
    }
}

/// When every stretchable stripe carries the same factor and the budget
/// still covers the listed minimums, the pass spends the budget exactly:
/// descending order guarantees that whenever a stripe is capped at its
/// minimum, the stripes after it need no more than the recomputed shares
/// leave, and the stripe processed last absorbs the exact remainder.
proof fn lemma_step_exact(
    mins: Seq<int>,
    factors: Seq<int>,
    order: Seq<int>,
    k: int,
    st: AllocState,
    f0: int,
)
    requires
        0 <= k < order.len(),
        f0 > 0,
        mins.len() == factors.len(),
        forall|j: int| 0 <= j < order.len() ==> 0 <= #[trigger] order[j] < mins.len(),
        forall|i: int| 0 <= i < mins.len() ==> #[trigger] mins[i] >= 0,
        forall|j: int| k <= j < order.len() ==> factors[#[trigger] order[j]] == f0,
        forall|j1: int, j2: int|
            k <= j1 < j2 < order.len() ==> mins[#[trigger] order[j1]] >= mins[#[trigger] order[j2]],
        st.count == order_factor_sum(factors, order, k),
        st.budget >= order_min_sum(mins, order, k),
        st.unit >= 0,
        st.unit * st.count <= st.budget,
    ensures
        alloc_step(mins, factors, order, k, st).budget == 0,
    decreases order.len() - k,
{
    let len = order.len() as int;
    let i = order[k];
    let f = factors[i];
    let m = mins[i];
    let count2 = st.count - f;
    lemma_order_factor_sum_const(factors, order, k, f0);
    lemma_order_factor_sum_const(factors, order, k + 1, f0);
    assert(st.count == (len - k) * f0);
    assert(count2 == (len - k) * f0 - f0);
    assert((len - k) * f0 - f0 == (len - k - 1) * f0) by (nonlinear_arith);
    let share = if count2 > 0 {
        st.unit * f
    } else {
        st.budget
    };
    if k == len - 1 {
        assert(count2 == 0) by (nonlinear_arith)
            requires
                count2 == (len - k - 1) * f0,
                len - k - 1 == 0,
        ;
        assert(share == st.budget);
        assert(order_min_sum(mins, order, k) == m + order_min_sum(mins, order, k + 1));
        assert(order_min_sum(mins, order, k + 1) == 0);
        assert(share >= m);
        let st2 = AllocState {
            lengths: st.lengths.update(i, share),
            budget: 0,
            count: count2,
            unit: st.unit,
        };
        assert(alloc_step(mins, factors, order, k + 1, st2) == st2);
    } else {
        assert(count2 >= f0) by (nonlinear_arith)
            requires
                count2 == (len - k - 1) * f0,
                len - k - 1 >= 1,
                f0 > 0,
        ;
        assert(count2 > 0);
        assert(share == st.unit * f0);
        lemma_order_min_sum_nonneg(mins, order, k + 1);
        if share < m {
            let budget2 = st.budget - m;
            let unit2 = if count2 > 0 && budget2 > 0 {
                budget2 / count2
            } else {
                0
            };
            let st2 = AllocState { lengths: st.lengths, budget: budget2, count: count2, unit: unit2 };
            assert(order_min_sum(mins, order, k) == m + order_min_sum(mins, order, k + 1));
            assert(budget2 >= order_min_sum(mins, order, k + 1));
            if count2 > 0 && budget2 > 0 {
                lemma_div_mul_le(budget2, count2);
                assert(unit2 * count2 <= budget2);
            } else {
                assert(unit2 == 0);
                assert(unit2 * count2 == 0) by (nonlinear_arith)
                    requires
                        unit2 == 0,
                ;
            }
            lemma_step_exact(mins, factors, order, k + 1, st2, f0);
        } else {
            let st2 = AllocState {
                lengths: st.lengths.update(i, share),
                budget: st.budget - share,
                count: count2,
                unit: st.unit,
            };
            // The remaining stripes' minimums are covered: each is at most
            // this stripe's minimum, which the assigned share covers.
            assert(order_min_sum(mins, order, k + 1) <= (len - k - 1) * m) by {
                lemma_order_min_sum_upper(mins, order, k + 1, m);
            }
            assert(st.unit * count2 == st.unit * st.count - st.unit * f0) by (nonlinear_arith)
                requires
                    count2 == st.count - f0,
            ;
            assert((len - k - 1) * m <= (len - k - 1) * share) by (nonlinear_arith)
                requires
                    m <= share,
                    len - k - 1 >= 0,
            ;
            assert((len - k - 1) * share == st.unit * count2) by (nonlinear_arith)
                requires
                    share == st.unit * f0,
                    count2 == (len - k - 1) * f0,
            ;
            assert(st.budget - share >= order_min_sum(mins, order, k + 1));
            assert(st.unit * count2 <= st.budget - share);
            lemma_step_exact(mins, factors, order, k + 1, st2, f0);
        }
    }
}

/// With no minimums to respect, no stripe is ever capped: every share is
/// assigned as computed and the stripe processed last absorbs the exact
/// remainder.
proof fn lemma_step_exact_zero_mins(
    mins: Seq<int>,
    factors: Seq<int>,
    order: Seq<int>,
    k: int,
    st: AllocState,
)
    requires
        0 <= k < order.len(),
        mins.len() == factors.len(),
        forall|j: int| 0 <= j < order.len() ==> 0 <= #[trigger] order[j] < mins.len(),
        forall|j: int| 0 <= j < order.len() ==> factors[#[trigger] order[j]] > 0,
        forall|i: int| 0 <= i < factors.len() ==> #[trigger] factors[i] >= 0,
        forall|i: int| 0 <= i < mins.len() ==> #[trigger] mins[i] == 0,
        st.count == order_factor_sum(factors, order, k),
        st.budget >= 0,
        st.unit >= 0,
        st.unit * st.count <= st.budget,
    ensures
        alloc_step(mins, factors, order, k, st).budget == 0,
    decreases order.len() - k,
{
    let len = order.len() as int;
    let i = order[k];
    let f = factors[i];
    let count2 = st.count - f;
    lemma_order_factor_sum_bounds(factors, order, k + 1);
    assert(st.count == f + order_factor_sum(factors, order, k + 1));
    let share = if count2 > 0 {
        st.unit * f
    } else {
        st.budget
    };
    if k == len - 1 {
        assert(order_factor_sum(factors, order, k + 1) == 0);
        assert(count2 == 0);
        assert(share == st.budget);
        assert(share >= mins[i]);
        let st2 = AllocState {
            lengths: st.lengths.update(i, share),
            budget: 0,
            count: count2,
            unit: st.unit,
        };
        assert(alloc_step(mins, factors, order, k + 1, st2) == st2);
    } else {
        assert(order_factor_sum(factors, order, k + 1) >= factors[order[k + 1]]);
        assert(count2 > 0);
        assert(share == st.unit * f);
        assert(share >= 0 && st.unit * count2 >= 0 && st.unit * count2 + share == st.unit * st.count)
            by (nonlinear_arith)
            requires
                st.unit >= 0,
                f > 0,
                count2 > 0,
                share == st.unit * f,
                count2 == st.count - f,
        ;
        assert(share >= mins[i]);
        let st2 = AllocState {
            lengths: st.lengths.update(i, share),
            budget: st.budget - share,
            count: count2,
            unit: st.unit,
        };
        assert(st2.unit * st2.count <= st2.budget);
        assert(st2.budget >= 0);
        lemma_step_exact_zero_mins(mins, factors, order, k + 1, st2);
    }
}

/// When every stretchable stripe starts from a zero minimum, the
/// allocated lengths plus spacing equal the total exactly whenever the
/// total covers the fixed stripes and the spacing, whatever the stretch
/// factors are.
pub proof fn lemma_budget_exactness_zero_minimums(
    mins: Seq<int>,
    factors: Seq<int>,
    order: Seq<int>,
    total: int,
    spacing: int,
)
    requires
        stripes_wf(mins, factors),
        order_wf(mins, factors, order),
        order.len() > 0,
        forall|i: int| 0 <= i < mins.len() ==> #[trigger] mins[i] == 0,
        total >= sum_to(mins, mins.len() as int) + spacing * (mins.len() as int - 1),
    ensures
        sum_to(stripe_lengths(mins, factors, order, total, spacing), mins.len() as int) + spacing
            * (mins.len() as int - 1) == total,
{
    let n = mins.len() as int;
    let st0 = alloc_init(mins, factors, total, spacing);
    lemma_order_covers_stretch(mins, factors, order);
    lemma_order_min_sum_nonneg(mins, order, 0);
    let raw = total - spacing * (n - 1) - fixed_sum(mins, factors, n);
    assert(raw >= order_min_sum(mins, order, 0));
    assert(st0.budget == raw);
    assert(st0.count == order_factor_sum(factors, order, 0));
    lemma_order_factor_sum_bounds(factors, order, 0);
    assert(st0.count > 0);
    if st0.budget > 0 {
        lemma_div_mul_le(st0.budget, st0.count);
        assert(st0.unit == st0.budget / st0.count);
        assert(st0.unit * st0.count == st0.count * st0.unit) by (nonlinear_arith);
        assert(st0.unit * st0.count <= st0.budget);
    } else {
        assert(st0.unit == 0);
        assert(st0.unit * st0.count == 0) by (nonlinear_arith)
            requires
                st0.unit == 0,
        ;
    }
    lemma_step_exact_zero_mins(mins, factors, order, 0, st0);
    lemma_step_conservation(mins, factors, order, 0, st0);
}

/// When the total length covers the grid's aggregated minimum and the
/// stretchable stripes all carry the same factor, the allocated lengths
/// plus spacing equal the total exactly: no pixel of the budget is lost to
/// integer division, because the stripe processed last absorbs the
/// remainder.
pub proof fn lemma_budget_exactness(
    mins: Seq<int>,
    factors: Seq<int>,
    order: Seq<int>,
    total: int,
    spacing: int,
)
    requires
        stripes_wf(mins, factors),
        order_wf(mins, factors, order),
        order.len() > 0,
        forall|j1: int, j2: int|
            0 <= j1 < order.len() && 0 <= j2 < order.len() ==> factors[#[trigger] order[j1]]
                == factors[#[trigger] order[j2]],
        total >= sum_to(mins, mins.len() as int) + spacing * (mins.len() as int - 1),
    ensures
        sum_to(stripe_lengths(mins, factors, order, total, spacing), mins.len() as int) + spacing
            * (mins.len() as int - 1) == total,
{
    let n = mins.len() as int;
    let st0 = alloc_init(mins, factors, total, spacing);
    let fin = alloc_final(mins, factors, order, total, spacing);
    let f0 = factors[order[0]];
    lemma_order_covers_stretch(mins, factors, order);
    lemma_order_min_sum_nonneg(mins, order, 0);
    let raw = total - spacing * (n - 1) - fixed_sum(mins, factors, n);
    assert(raw >= order_min_sum(mins, order, 0));
    assert(st0.budget == raw);
    assert(st0.count == order_factor_sum(factors, order, 0));
    lemma_order_factor_sum_bounds(factors, order, 0);
    assert(st0.count >= factors[order[0]]);
    assert(st0.count > 0);
    if st0.budget > 0 {
        lemma_div_mul_le(st0.budget, st0.count);
        assert(st0.unit == st0.budget / st0.count);
        assert(st0.unit * st0.count == st0.count * st0.unit) by (nonlinear_arith);
        assert(st0.unit * st0.count <= st0.budget);
    } else {
        assert(st0.unit == 0);
        assert(st0.unit * st0.count == 0) by (nonlinear_arith)
            requires
                st0.unit == 0,
        ;
    }
    lemma_step_exact(mins, factors, order, 0, st0, f0);
    lemma_step_conservation(mins, factors, order, 0, st0);
}

/// The entries grow strictly from left to right.
pub open spec fn strictly_ascending(s: Seq<usize>) -> bool {
    forall|k1: int, k2: int| 0 <= k1 < k2 < s.len() ==> s[k1] < s[k2]
}

/// Stripes with equal minimum sizes appear in the order in ascending
/// stripe order: ties are broken by declaration.
pub open spec fn order_ties_ascending(mins: Seq<int>, order: Seq<int>) -> bool {
    forall|k1: int, k2: int|
        #![trigger order[k1], order[k2]]
        0 <= k1 < k2 < order.len() && mins[order[k1]] == mins[order[k2]] ==> order[k1] < order[k2]
}

/// Collects the stretchable stripes (factor above zero) in declaration
/// order.
pub fn collect_stretch_stripes(factors: &Vec<u8>) -> (r: Vec<usize>)
    ensures
        r@.len() <= factors@.len(),
        forall|k: int|
            0 <= k < r@.len() ==> (#[trigger] r@[k]) < factors@.len() && factors@[r@[k] as int]
                > 0,
        forall|k1: int, k2: int| 0 <= k1 < k2 < r@.len() ==> r@[k1] < r@[k2],
        strictly_ascending(r@),
        forall|i: int|
            0 <= i < factors@.len() && (#[trigger] factors@[i]) > 0 ==> int_seq_usize(
                r@,
            ).contains(i),
{
    let n = factors.len();
    let mut r: Vec<usize> = Vec::new();
    let mut i: usize = 0;
    while i < n
        invariant
            i <= n,
            n == factors@.len(),
            r@.len() <= i,
            forall|k: int|
                0 <= k < r@.len() ==> (#[trigger] r@[k]) < i && factors@[r@[k] as int] > 0,
            forall|k1: int, k2: int| 0 <= k1 < k2 < r@.len() ==> r@[k1] < r@[k2],
            forall|t: int|
                0 <= t < i && (#[trigger] factors@[t]) > 0 ==> int_seq_usize(r@).contains(t),
        decreases n - i,
    {
        let ghost prev = r@;
        if factors[i] > 0 {
            r.push(i);
            proof {
                assert(int_seq_usize(r@)[prev.len() as int] == i as int);
                assert forall|t: int|
                    0 <= t < i + 1 && (#[trigger] factors@[t]) > 0 implies int_seq_usize(
                    r@,
                ).contains(t) by {
                    if t < i {
                        let w = choose|w: int|
                            0 <= w < prev.len() && int_seq_usize(prev)[w] == t;
                        assert(int_seq_usize(r@)[w] == t);
                    } else {
                        assert(int_seq_usize(r@)[prev.len() as int] == t);
                    }
                }
            }
        } else {
            proof {
                assert forall|t: int|
                    0 <= t < i + 1 && (#[trigger] factors@[t]) > 0 implies int_seq_usize(
                    r@,
                ).contains(t) by {
                    assert(t != i);
                }
            }
        }
        i = i + 1;
    }
    r
}

/// Sorts the stretch list by descending minimum size, keeping declaration
/// order among equal minimums.
pub fn sort_stretch_stripes(mins: &Vec<i32>, stretch_stripes: &mut Vec<usize>)
    requires
        forall|k: int|
            0 <= k < old(stretch_stripes)@.len() ==> (#[trigger] old(stretch_stripes)@[k])
                < mins@.len(),
    ensures
        final(stretch_stripes)@.len() == old(stretch_stripes)@.len(),
        final(stretch_stripes)@.to_multiset() == old(stretch_stripes)@.to_multiset(),
        forall|k: int|
            0 <= k < final(stretch_stripes)@.len() ==> (#[trigger] final(stretch_stripes)@[k])
                < mins@.len(),
        forall|k1: int, k2: int|
            0 <= k1 < k2 < final(stretch_stripes)@.len() ==> mins@[final(stretch_stripes)@[k1] as int]
                >= mins@[final(stretch_stripes)@[k2] as int],
        strictly_ascending(old(stretch_stripes)@) ==> forall|k1: int, k2: int|
            0 <= k1 < k2 < final(stretch_stripes)@.len() && mins@[final(stretch_stripes)@[k1] as int]
                == mins@[final(stretch_stripes)@[k2] as int] ==> final(stretch_stripes)@[k1]
                < final(stretch_stripes)@[k2],
{
    let n = stretch_stripes.len();
    let mut sorted: Vec<usize> = Vec::new();
    proof {
        assert(stretch_stripes@.subrange(0, 0) =~= sorted@);
    }
    let mut i: usize = 0;
    while i < n
        invariant
            i <= n,
            n == stretch_stripes@.len(),
            stretch_stripes@ == old(stretch_stripes)@,
            forall|k: int|
                0 <= k < stretch_stripes@.len() ==> (#[trigger] stretch_stripes@[k])
                    < mins@.len(),
            sorted@.len() == i,
            sorted@.to_multiset() == stretch_stripes@.subrange(0, i as int).to_multiset(),
            forall|k: int| 0 <= k < sorted@.len() ==> (#[trigger] sorted@[k]) < mins@.len(),
            forall|k1: int, k2: int|
                0 <= k1 < k2 < sorted@.len() ==> mins@[sorted@[k1] as int]
                    >= mins@[sorted@[k2] as int],
            strictly_ascending(stretch_stripes@) ==> forall|t: int|
                0 <= t < sorted@.len() && i < n ==> (#[trigger] sorted@[t])
                    < stretch_stripes@[i as int],
            strictly_ascending(stretch_stripes@) ==> forall|t1: int, t2: int|
                0 <= t1 < t2 < sorted@.len() && mins@[sorted@[t1] as int]
                    == mins@[sorted@[t2] as int] ==> sorted@[t1] < sorted@[t2],
        decreases n - i,
    {
        let x = stretch_stripes[i];
        let key = mins[x];
        let mut pos: usize = 0;
        while pos < sorted.len() && mins[sorted[pos]] >= key
            invariant
                pos <= sorted@.len(),
                forall|k: int|
                    0 <= k < sorted@.len() ==> (#[trigger] sorted@[k]) < mins@.len(),
                key == mins@[x as int],
                forall|t: int| 0 <= t < pos ==> mins@[#[trigger] sorted@[t] as int] >= key,
            decreases sorted@.len() - pos,
        {
            pos = pos + 1;
        }
        let ghost prev = sorted@;
        sorted.insert(pos, x);
        proof {
            broadcast use vstd::seq_lib::group_to_multiset_ensures;

            assert(stretch_stripes@.subrange(0, i as int + 1) =~= stretch_stripes@.subrange(
                0,
                i as int,
            ).push(x));
            assert(sorted@.to_multiset() == prev.to_multiset().insert(x));
            // The insertion point splits the sorted prefix: everything
            // before it has a key at least `key`, everything after less.
            assert forall|k1: int, k2: int|
                0 <= k1 < k2 < sorted@.len() implies mins@[sorted@[k1] as int]
                >= mins@[sorted@[k2] as int] by {
                let p = pos as int;
                if k1 < p && k2 < p {
                    assert(sorted@[k1] == prev[k1] && sorted@[k2] == prev[k2]);
                } else if k1 < p && k2 == p {
                    assert(sorted@[k1] == prev[k1]);
                } else if k1 < p && k2 > p {
                    assert(sorted@[k1] == prev[k1] && sorted@[k2] == prev[k2 - 1]);
                } else if k1 == p && k2 > p {
                    assert(sorted@[k2] == prev[k2 - 1]);
                    assert(p < prev.len() ==> mins@[prev[p] as int] < key);
                } else {
                    assert(sorted@[k1] == prev[k1 - 1] && sorted@[k2] == prev[k2 - 1]);
                }
            }
            if strictly_ascending(stretch_stripes@) {
                // Everything inserted so far came from the strictly
                // ascending prefix, so it lies below the element just
                // inserted; equal keys therefore stay in declaration
                // order, with the new element after its ties.
                assert forall|t: int|
                    0 <= t < sorted@.len() && i + 1 < n implies (#[trigger] sorted@[t])
                    < stretch_stripes@[i as int + 1] by {
                    let p = pos as int;
                    assert(stretch_stripes@[i as int] < stretch_stripes@[i as int + 1]);
                    if t < p {
                        assert(sorted@[t] == prev[t]);
                        assert(prev[t] < stretch_stripes@[i as int]);
                    } else if t > p {
                        assert(sorted@[t] == prev[t - 1]);
                        assert(prev[t - 1] < stretch_stripes@[i as int]);
                    }
                }
                assert forall|t1: int, t2: int|
                    0 <= t1 < t2 < sorted@.len() && mins@[sorted@[t1] as int]
                        == mins@[sorted@[t2] as int] implies sorted@[t1] < sorted@[t2] by {
                    let p = pos as int;
                    if t1 < p && t2 < p {
                        assert(sorted@[t1] == prev[t1] && sorted@[t2] == prev[t2]);
                    } else if t1 < p && t2 == p {
                        assert(sorted@[t1] == prev[t1]);
                        assert(prev[t1] < stretch_stripes@[i as int]);
                    } else if t1 < p && t2 > p {
                        assert(sorted@[t1] == prev[t1] && sorted@[t2] == prev[t2 - 1]);
                    } else if t1 == p && t2 > p {
                        assert(sorted@[t2] == prev[t2 - 1]);
                        assert(mins@[prev[p] as int] < key);
                        assert(mins@[prev[t2 - 1] as int] <= mins@[prev[p] as int]);
                    } else {
                        assert(sorted@[t1] == prev[t1 - 1] && sorted@[t2] == prev[t2 - 1]);
                    }
                }
            }
        }
        i = i + 1;
    }
    proof {
        assert(stretch_stripes@.subrange(0, n as int) =~= stretch_stripes@);
    }
    *stretch_stripes = sorted;
}

/// A collected and sorted stretch list is a well-formed processing order:
/// it lists exactly the stretchable stripes, each once, by descending
/// minimum size.
pub proof fn lemma_stretch_order_wf(
    mins_v: Seq<i32>,
    factors_v: Seq<u8>,
    before: Seq<usize>,
    after: Seq<usize>,
)
    requires
        mins_v.len() == factors_v.len(),
        before.len() <= factors_v.len(),
        forall|k: int|
            0 <= k < before.len() ==> (#[trigger] before[k]) < factors_v.len()
                && factors_v[before[k] as int] > 0,
        forall|k1: int, k2: int| 0 <= k1 < k2 < before.len() ==> before[k1] < before[k2],
        forall|i: int|
            0 <= i < factors_v.len() && (#[trigger] factors_v[i]) > 0 ==> int_seq_usize(
                before,
            ).contains(i),
        after.len() == before.len(),
        after.to_multiset() == before.to_multiset(),
        forall|k: int| 0 <= k < after.len() ==> (#[trigger] after[k]) < mins_v.len(),
        forall|k1: int, k2: int|
            0 <= k1 < k2 < after.len() ==> mins_v[after[k1] as int] >= mins_v[after[k2] as int],
    ensures
        order_wf(int_seq(mins_v), int_seq_u8(factors_v), int_seq_usize(after)),
        after.len() <= mins_v.len(),
{
    broadcast use vstd::seq_lib::group_to_multiset_ensures;

    let gm = int_seq(mins_v);
    let gf = int_seq_u8(factors_v);
    let gord = int_seq_usize(after);
    // Every listed stripe is a stretchable stripe of the axis.
    assert forall|k: int|
        0 <= k < gord.len() implies 0 <= #[trigger] gord[k] < gm.len() && gf[gord[k]] > 0 by {
        assert(after.to_multiset().count(after[k]) > 0);
        assert(before.to_multiset().count(after[k]) > 0);
        assert(before.contains(after[k]));
        let w = choose|w: int| 0 <= w < before.len() && before[w] == after[k];
        assert(factors_v[before[w] as int] > 0);
    }
    // Each stripe is listed at most once.
    assert(before.no_duplicates());
    before.lemma_multiset_has_no_duplicates();
    after.lemma_multiset_has_no_duplicates_conv();
    assert forall|k1: int, k2: int| 0 <= k1 < k2 < gord.len() implies gord[k1] != gord[k2] by {
        assert(after[k1] != after[k2]);
    }
    // Every stretchable stripe is listed.
    assert forall|i: int|
        0 <= i < gf.len() && #[trigger] gf[i] > 0 implies gord.contains(i) by {
        assert(factors_v[i] > 0);
        assert(int_seq_usize(before).contains(i));
        let w = choose|w: int| 0 <= w < before.len() && int_seq_usize(before)[w] == i;
        assert(before.to_multiset().count(before[w]) > 0);
        assert(after.to_multiset().count(before[w]) > 0);
        assert(after.contains(before[w]));
        let v = choose|v: int| 0 <= v < after.len() && after[v] == before[w];
        assert(gord[v] == i);
    }
    // Minimum sizes do not increase along the list.
    assert forall|k1: int, k2: int|
        0 <= k1 < k2 < gord.len() implies gm[#[trigger] gord[k1]] >= gm[#[trigger] gord[k2]] by {
        assert(mins_v[after[k1] as int] >= mins_v[after[k2] as int]);
    }
}

/// The pass only ever assigns to listed stripes, so a stripe with factor
/// zero keeps exactly its minimum size.
proof fn lemma_step_keeps_unlisted(
    mins: Seq<int>,
    factors: Seq<int>,
    order: Seq<int>,
    k: int,
    st: AllocState,
    i: int,
)
    requires
        0 <= i < st.lengths.len(),
        forall|j: int| 0 <= j < order.len() ==> 0 <= #[trigger] order[j] < st.lengths.len(),
        forall|j: int| 0 <= j < order.len() ==> #[trigger] order[j] != i,
    ensures
        alloc_step(mins, factors, order, k, st).lengths[i] == st.lengths[i],
    decreases order.len() - k,
{
    if 0 <= k < order.len() {
        let p = order[k];
        let f = factors[p];
        let m = mins[p];
        let count2 = st.count - f;
        let share = if count2 > 0 {
            st.unit * f
        } else {
            st.budget
        };
        if share < m {
            let budget2 = st.budget - m;
            let unit2 = if count2 > 0 && budget2 > 0 {
                budget2 / count2
            } else {
                0
            };
            lemma_step_keeps_unlisted(
                mins,
                factors,
                order,
                k + 1,
                AllocState { lengths: st.lengths, budget: budget2, count: count2, unit: unit2 },
                i,
            );
        } else {
            lemma_step_keeps_unlisted(
                mins,
                factors,
                order,
                k + 1,
                AllocState {
                    lengths: st.lengths.update(p, share),
                    budget: st.budget - share,
                    count: count2,
                    unit: st.unit,
                },
                i,
            );
        }
    }
}

/// A stripe that does not stretch is allocated exactly its minimum size.
pub proof fn lemma_fixed_keep_minimum(
    mins: Seq<int>,
    factors: Seq<int>,
    order: Seq<int>,
    total: int,
    spacing: int,
    i: int,
)
    requires
        stripes_wf(mins, factors),
        order_wf(mins, factors, order),
        0 <= i < mins.len(),
        factors[i] == 0,
    ensures
        stripe_lengths(mins, factors, order, total, spacing)[i] == mins[i],
{
    assert forall|j: int| 0 <= j < order.len() implies #[trigger] order[j] != i by {
        assert(factors[order[j]] > 0);
    }
    lemma_step_keeps_unlisted(
        mins,
        factors,
        order,
        0,
        alloc_init(mins, factors, total, spacing),
        i,
    );
}

/// A prefix sum of non-negative values is at least any one of its terms.
pub proof fn lemma_sum_to_ge_element(s: Seq<int>, n: int, i: int)
    requires
        0 <= i < n <= s.len(),
        forall|j: int| 0 <= j < n ==> #[trigger] s[j] >= 0,
    ensures
        sum_to(s, n) >= s[i],
    decreases n,
{
    if i < n - 1 {
        lemma_sum_to_ge_element(s, n - 1, i);
    } else {
        lemma_sum_to_nonneg(s, n - 1);
    }
}

/// A prefix sum of non-negative values is non-negative.
pub proof fn lemma_sum_to_nonneg(s: Seq<int>, n: int)
    requires
        n <= s.len(),
        forall|j: int| 0 <= j < n ==> #[trigger] s[j] >= 0,
    ensures
        sum_to(s, n) >= 0,
    decreases n,
{
    if n > 0 {
        lemma_sum_to_nonneg(s, n - 1);
    }
}

/// A pointwise increase that gains at least `d` at the first position
/// raises the prefix sum by at least `d`.
pub proof fn lemma_sum_to_monotone_with_gain(a: Seq<int>, b: Seq<int>, n: int, d: int)
    requires
        1 <= n <= a.len(),
        n <= b.len(),
        forall|j: int| 0 <= j < n ==> #[trigger] a[j] <= #[trigger] b[j],
        b[0] >= a[0] + d,
    ensures
        sum_to(b, n) >= sum_to(a, n) + d,
    decreases n,
{
    if n == 1 {
        assert(sum_to(a, 1) == sum_to(a, 0) + a[0]);
        assert(sum_to(b, 1) == sum_to(b, 0) + b[0]);
    } else {
        lemma_sum_to_monotone_with_gain(a, b, n - 1, d);
    }
}

/// Prefix sums respect pointwise ordering.
pub proof fn lemma_sum_to_monotone(a: Seq<int>, b: Seq<int>, n: int)
    requires
        n <= a.len(),
        n <= b.len(),
        forall|j: int| 0 <= j < n ==> #[trigger] a[j] <= #[trigger] b[j],
    ensures
        sum_to(a, n) <= sum_to(b, n),
    decreases n,
{
    if n > 0 {
        lemma_sum_to_monotone(a, b, n - 1);
    }
}


} // verus!
