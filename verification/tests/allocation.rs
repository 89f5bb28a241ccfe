//! Space distribution along one axis, and per-cell alignment arithmetic.

use gridlayout::grid::allocator::calc_stripe_bounds;
use gridlayout::grid::allocator::collect_stretch_stripes;
use gridlayout::grid::allocator::sort_stretch_stripes;
use gridlayout::grid::calc_widget_bounds;
use gridlayout::grid::CellAlign;

#[test]
fn fixed_and_stretch_column_split_the_width() {
    // A fixed column of minimum 40 and a stretch column of minimum 20,
    // no spacing, at total width 100: the stretch column takes the rest.
    let bounds = calc_stripe_bounds(100, &vec![40, 20], &vec![0, 1], &vec![1], 0);
    assert_eq!(bounds, vec![(0, 40), (40, 60)]);
}

#[test]
fn stripes_never_shrink_below_minimum() {
    // The same two columns at total width 50: the fixed column keeps 40
    // and the stretch column is clipped to its minimum 20; the content
    // overflows the container without error.
    let bounds = calc_stripe_bounds(50, &vec![40, 20], &vec![0, 1], &vec![1], 0);
    assert_eq!(bounds, vec![(0, 40), (40, 20)]);
}

#[test]
fn stretch_factors_split_proportionally() {
    // Factors 2 and 1 with zero minimums at total width 90.
    let bounds = calc_stripe_bounds(90, &vec![0, 0], &vec![2, 1], &vec![0, 1], 0);
    assert_eq!(bounds, vec![(0, 60), (60, 30)]);
}

#[test]
fn last_stretch_stripe_absorbs_the_rounding_remainder() {
    // 100 pixels over three equal stretch stripes: 33 + 33 + 34.
    let bounds = calc_stripe_bounds(100, &vec![0, 0, 0], &vec![1, 1, 1], &vec![0, 1, 2], 0);
    assert_eq!(bounds, vec![(0, 33), (33, 33), (66, 34)]);
    let total: i32 = bounds.iter().map(|b| b.1).sum();
    assert_eq!(total, 100);
}

#[test]
fn budget_is_spent_exactly_when_total_covers_the_minimum() {
    // Mixed minimums, equal factors, spacing 2: the lengths plus the two
    // gaps add up to the total exactly.
    let mins = vec![10, 0, 6];
    let factors = vec![1, 1, 1];
    let mut order = collect_stretch_stripes(&factors);
    sort_stretch_stripes(&mins, &mut order);
    assert_eq!(order, vec![0, 2, 1]);
    let bounds = calc_stripe_bounds(50, &mins, &factors, &order, 2);
    let total: i32 = bounds.iter().map(|b| b.1).sum();
    assert_eq!(total + 2 * 2, 50);
    for (k, b) in bounds.iter().enumerate() {
        assert!(b.1 >= mins[k]);
    }
}

#[test]
fn capped_stripes_pass_their_share_on() {
    // One large minimum among small stretch stripes: the large stripe is
    // checked first, keeps its minimum, and the others split the rest.
    let mins = vec![0, 30, 0];
    let factors = vec![1, 1, 1];
    let mut order = collect_stretch_stripes(&factors);
    sort_stretch_stripes(&mins, &mut order);
    assert_eq!(order, vec![1, 0, 2]);
    let bounds = calc_stripe_bounds(60, &mins, &factors, &order, 0);
    // unit is 20; stripe 1 is capped at 30; the budget left (30) is split
    // over the remaining two stripes.
    assert_eq!(bounds, vec![(0, 15), (15, 30), (45, 15)]);
    let total: i32 = bounds.iter().map(|b| b.1).sum();
    assert_eq!(total, 60);
}

#[test]
fn spacing_moves_start_offsets() {
    let bounds = calc_stripe_bounds(100, &vec![10, 10, 10], &vec![0, 0, 0], &vec![], 5);
    assert_eq!(bounds, vec![(0, 10), (15, 10), (30, 10)]);
}

#[test]
fn without_stretch_stripes_extra_space_is_not_distributed() {
    let bounds = calc_stripe_bounds(100, &vec![10, 20], &vec![0, 0], &vec![], 0);
    assert_eq!(bounds, vec![(0, 10), (10, 20)]);
}

#[test]
fn empty_axis_allocates_nothing() {
    let bounds = calc_stripe_bounds(100, &vec![], &vec![], &vec![], 3);
    assert_eq!(bounds, vec![]);
}

#[test]
fn negative_total_clips_every_stripe_to_its_minimum() {
    let bounds = calc_stripe_bounds(-50, &vec![10, 20], &vec![1, 1], &vec![1, 0], 4);
    assert_eq!(bounds, vec![(0, 10), (14, 20)]);
}

#[test]
fn sort_orders_by_descending_minimum_keeping_declaration_order() {
    let mins = vec![5, 9, 9, 7, 9];
    let mut order = vec![0, 1, 2, 3, 4];
    sort_stretch_stripes(&mins, &mut order);
    assert_eq!(order, vec![1, 2, 4, 3, 0]);
}

#[test]
fn collect_keeps_declaration_order_of_stretch_stripes() {
    let order = collect_stretch_stripes(&vec![0, 2, 0, 1]);
    assert_eq!(order, vec![1, 3]);
}

#[test]
fn start_alignment_pins_to_the_cell_start() {
    let (start, size) = calc_widget_bounds(100, 40, 60, 25, 0, 0, CellAlign::Start);
    assert_eq!((start, size), (140, 25));
}

#[test]
fn center_alignment_centers_the_minimum_extent() {
    let (start, size) = calc_widget_bounds(0, 0, 60, 20, 0, 0, CellAlign::Center);
    assert_eq!((start, size), (20, 20));
}

#[test]
fn end_alignment_pins_to_the_cell_end() {
    let (start, size) = calc_widget_bounds(0, 0, 60, 20, 0, 0, CellAlign::End);
    assert_eq!((start, size), (40, 20));
}

#[test]
fn stretch_alignment_fills_the_cell() {
    let (start, size) = calc_widget_bounds(0, 10, 60, 20, 0, 0, CellAlign::Stretch);
    assert_eq!((start, size), (10, 60));
}

#[test]
fn padding_shrinks_the_placed_widget() {
    // A stretched widget loses its padding on both sides and starts
    // after the leading padding.
    let (start, size) = calc_widget_bounds(0, 0, 60, 20, 4, 6, CellAlign::Stretch);
    assert_eq!((start, size), (4, 50));
    // A centered widget is centered within the padded cell interior.
    let (start, size) = calc_widget_bounds(0, 0, 64, 24, 2, 2, CellAlign::Center);
    assert_eq!((start, size), (2 + 20, 20));
}

#[test]
fn center_alignment_rounds_toward_zero_when_the_cell_is_too_small() {
    // The cell is 5 pixels narrower than the widget: the centering
    // offset is -5 / 2, truncated toward zero.
    let (start, size) = calc_widget_bounds(0, 0, 15, 20, 0, 0, CellAlign::Center);
    assert_eq!((start, size), (-2, 20));
}

#[test]
fn start_offsets_saturate_at_the_integer_boundary() {
    // Two fixed stripes of the largest possible minimum: the second
    // stripe's start offset cannot be represented and saturates.
    let bounds = calc_stripe_bounds(i32::MAX, &vec![i32::MAX, i32::MAX], &vec![0, 0], &vec![], 0);
    assert_eq!(bounds, vec![(0, i32::MAX), (i32::MAX, i32::MAX)]);
}

#[test]
fn unequal_factors_can_overshoot_a_tight_total() {
    // A large-factor stripe is processed first and takes its full
    // proportional share before the smaller stripes' minimums are
    // checked; the capped stripes then push the sum past the total.
    // This is why budget exactness is only guaranteed when all stretch
    // factors are equal.
    let bounds = calc_stripe_bounds(30, &vec![10, 9, 9], &vec![3, 1, 1], &vec![0, 1, 2], 0);
    assert_eq!(bounds, vec![(0, 18), (18, 9), (27, 9)]);
    let total: i32 = bounds.iter().map(|b| b.1).sum();
    assert_eq!(total, 36);
}
