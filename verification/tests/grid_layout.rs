//! Grid assembly, minimum-size aggregation, span reconciliation and full
//! layout passes.

use gridlayout::grid::builder::GridBuilder;
use gridlayout::grid::CellAlign;
use gridlayout::grid::Grid;
use gridlayout::EmptyElement;
use gridlayout::LayoutElement;
use gridlayout::Size;

/// Unwraps a builder result, failing the test on refusal.
fn accepted<T, E>(r: Result<T, E>) -> T {
    match r {
        Ok(v) => v,
        Err(_) => panic!("the builder refused a placement the test relies on"),
    }
}

/// A participant with a fixed minimum size that ignores placement.
struct FixedSize(i32, i32);

impl LayoutElement for FixedSize {
    fn min_size(&self) -> Size {
        Size { width: self.0, height: self.1 }
    }

    fn layout(&self, _x: i32, _y: i32, _width: i32, _height: i32) {}
}

fn two_column_grid() -> Grid {
    // A fixed column of minimum 40 and a stretch column of minimum 20,
    // one stretch row, no spacing, with one stretched cell per column.
    let b = GridBuilder::new();
    let b = b.col().with_min_size(40).add();
    let b = b.col().with_stretch(1).with_min_size(20).add();
    let b = b.row().with_stretch(1).add();
    let b = accepted(b.cell())
        .with_horz_align(CellAlign::Stretch)
        .with_vert_align(CellAlign::Stretch)
        .add(Box::new(EmptyElement));
    let b = accepted(b.cell())
        .with_horz_align(CellAlign::Stretch)
        .with_vert_align(CellAlign::Stretch)
        .add(Box::new(EmptyElement));
    b.end()
}

#[test]
fn grid_splits_width_between_fixed_and_stretch_columns() {
    let grid = two_column_grid();
    assert_eq!(grid.min_size(), Size { width: 60, height: 0 });
    let rects = grid.layout_children(0, 0, 100, 30);
    assert_eq!(rects, vec![(0, 0, 40, 30), (40, 0, 60, 30)]);
}

#[test]
fn grid_clips_stretch_column_to_its_minimum_when_too_narrow() {
    let grid = two_column_grid();
    // Total width 50 is below the 60 minimum: the fixed column keeps 40,
    // the stretch column its minimum 20, and the content overflows.
    let rects = grid.layout_children(0, 0, 50, 30);
    assert_eq!(rects, vec![(0, 0, 40, 30), (40, 0, 20, 30)]);
}

#[test]
fn layout_is_idempotent_for_identical_bounds() {
    let grid = two_column_grid();
    let first = grid.layout_children(3, 7, 100, 40);
    let second = grid.layout_children(3, 7, 100, 40);
    assert_eq!(first, second);
}

#[test]
fn cell_minimums_aggregate_into_column_and_row_groups() {
    let b = GridBuilder::new();
    let b = b.col().add();
    let b = b.col().add();
    let b = b.row().add();
    let b = b.row().add();
    let b = accepted(b.cell()).add(Box::new(FixedSize(30, 10)));
    let b = accepted(b.cell()).add(Box::new(FixedSize(15, 12)));
    let b = accepted(b.cell()).add(Box::new(FixedSize(8, 9)));
    let b = accepted(b.cell()).add(Box::new(FixedSize(21, 4)));
    let grid = b.end();
    // Column minimums: max(30, 8) and max(15, 21); row minimums:
    // max(10, 12) and max(9, 4).
    assert_eq!(grid.min_size(), Size { width: 30 + 21, height: 12 + 9 });
}

#[test]
fn cell_padding_grows_the_cached_minimum() {
    let b = GridBuilder::new();
    let b = b.col().add();
    let b = b.row().add();
    let b = accepted(b.cell())
        .with_padding(2, 3, 4, 5)
        .add(Box::new(FixedSize(10, 10)));
    let grid = b.end();
    assert_eq!(grid.min_size(), Size { width: 10 + 2 + 4, height: 10 + 3 + 5 });
}

#[test]
fn spacing_and_outer_padding_enter_the_minimum_size() {
    let b = GridBuilder::new()
        .with_col_spacing(5)
        .with_row_spacing(7)
        .with_padding(1, 2, 3, 4);
    let b = b.col().with_min_size(10).add();
    let b = b.col().with_min_size(20).add();
    let b = b.row().with_min_size(6).add();
    let b = b.row().with_min_size(8).add();
    let grid = b.end();
    assert_eq!(
        grid.min_size(),
        Size { width: 10 + 5 + 20 + 1 + 3, height: 6 + 7 + 8 + 2 + 4 }
    );
}

#[test]
fn span_deficit_is_absorbed_by_the_first_fixed_column() {
    // Two fixed columns with combined natural minimum 50; a span needs
    // 80: the first column's group is raised by the deficit of 30.
    let b = GridBuilder::new();
    let b = b.col().with_min_size(20).add();
    let b = b.col().with_min_size(30).add();
    let b = b.row().add();
    let b = accepted(b.span(1, 2)).add(Box::new(FixedSize(80, 0)));
    let grid = b.end();
    assert_eq!(grid.min_size(), Size { width: 80, height: 0 });
    // At exactly the minimum width the span covers both columns.
    let rects = grid.layout_children(0, 0, 80, 10);
    assert_eq!(rects.len(), 1);
    let (x, _y, w, _h) = rects[0];
    assert_eq!(x, 0);
    assert_eq!(w, 80);
}

#[test]
fn span_deficit_is_distributed_over_stretch_columns() {
    // Two stretch columns with zero minimums; a span needs 50: the
    // reconciliation pass raises both columns, splitting the span's
    // minimum like a layout pass would.
    let b = GridBuilder::new();
    let b = b.col().with_stretch(1).add();
    let b = b.col().with_stretch(1).add();
    let b = b.row().add();
    let b = accepted(b.span(1, 2)).add(Box::new(FixedSize(50, 0)));
    let grid = b.end();
    assert_eq!(grid.min_size(), Size { width: 50, height: 0 });
}

#[test]
fn span_without_deficit_changes_nothing() {
    let b = GridBuilder::new();
    let b = b.col().with_min_size(30).add();
    let b = b.col().with_min_size(30).add();
    let b = b.row().add();
    let b = accepted(b.span(1, 2)).add(Box::new(FixedSize(40, 0)));
    let grid = b.end();
    assert_eq!(grid.min_size(), Size { width: 60, height: 0 });
}

#[test]
fn alignment_positions_cells_within_their_bounds() {
    let b = GridBuilder::new();
    let b = b.col().with_min_size(60).add();
    let b = b.row().with_min_size(40).add();
    let b = accepted(b.cell())
        .with_horz_align(CellAlign::Center)
        .with_vert_align(CellAlign::End)
        .add(Box::new(FixedSize(20, 10)));
    let grid = b.end();
    let rects = grid.layout_children(0, 0, 60, 40);
    // Centered horizontally: (60 - 20) / 2 = 20; flush against the
    // bottom: 40 - 10 = 30.
    assert_eq!(rects, vec![(20, 30, 20, 10)]);
}

#[test]
fn container_origin_and_padding_shift_placements() {
    let b = GridBuilder::new().with_padding(5, 6, 0, 0);
    let b = b.col().with_min_size(10).add();
    let b = b.row().with_min_size(10).add();
    let b = accepted(b.cell())
        .with_horz_align(CellAlign::Start)
        .with_vert_align(CellAlign::Start)
        .add(Box::new(FixedSize(10, 10)));
    let grid = b.end();
    let rects = grid.layout_children(100, 200, 50, 50);
    assert_eq!(rects, vec![(105, 206, 10, 10)]);
}

#[test]
fn shared_group_sizes_columns_in_lock_step() {
    let b = GridBuilder::new();
    let (b, group) = b.group().with_stretch(0).with_min_size(0).add();
    let b = b.col().with_group(group).add();
    let b = b.col().with_group(group).add();
    let b = b.row().add();
    let b = accepted(b.cell()).add(Box::new(FixedSize(25, 0)));
    let grid = b.end();
    // The first column's content raises the shared group, so both
    // columns get the same 25-pixel minimum.
    assert_eq!(grid.min_size(), Size { width: 50, height: 0 });
}

#[test]
fn cells_fill_positions_in_row_major_order() {
    let b = GridBuilder::new();
    let b = b.col().batch(2);
    let b = b.row().batch(2);
    let b = accepted(b.cell()).add(Box::new(FixedSize(1, 1)));
    let b = accepted(b.cell()).add(Box::new(FixedSize(2, 2)));
    let b = accepted(b.cell()).add(Box::new(FixedSize(3, 3)));
    let b = accepted(b.cell())
        .with_horz_align(CellAlign::Start)
        .with_vert_align(CellAlign::Start)
        .add(Box::new(FixedSize(4, 4)));
    let grid = b.end();
    // Columns aggregate to max(1, 3) and max(2, 4); rows to max(1, 2)
    // and max(3, 4).
    assert_eq!(grid.min_size(), Size { width: 3 + 4, height: 2 + 4 });
    let rects = grid.layout_children(0, 0, 7, 6);
    // The fourth cell sits in the second column, second row.
    assert_eq!(rects[3], (3, 2, 4, 4));
}

#[test]
fn skip_reserves_a_position() {
    let b = GridBuilder::new();
    let b = b.col().batch(2);
    let b = b.row().add();
    let b = accepted(b.cell()).skip();
    let b = accepted(b.cell())
        .with_horz_align(CellAlign::Start)
        .with_vert_align(CellAlign::Start)
        .add(Box::new(FixedSize(9, 9)));
    let grid = b.end();
    // The element landed in the second column; the skipped first column
    // stays empty and contributes nothing.
    assert_eq!(grid.min_size(), Size { width: 9, height: 9 });
    let rects = grid.layout_children(0, 0, 9, 9);
    assert_eq!(rects, vec![(0, 0, 9, 9)]);
}

#[test]
fn placement_is_refused_when_the_grid_is_full() {
    let b = GridBuilder::new();
    let b = b.col().add();
    let b = b.row().add();
    let b = accepted(b.cell()).add(Box::new(EmptyElement));
    match b.cell() {
        Ok(_) => panic!("a full grid must refuse another cell"),
        Err(b) => {
            // The refused builder is unchanged and can still finalize.
            let grid = b.end();
            assert_eq!(grid.min_size(), Size { width: 0, height: 0 });
        }
    }
}

#[test]
fn cell_at_rejects_out_of_range_and_taken_positions() {
    let b = GridBuilder::new();
    let b = b.col().add();
    let b = b.row().add();
    let b = match b.cell_at(1, 0) {
        Ok(_) => panic!("row out of range"),
        Err(b) => b,
    };
    let b = match b.cell_at(0, 1) {
        Ok(_) => panic!("column out of range"),
        Err(b) => b,
    };
    let b = accepted(b.cell_at(0, 0)).add(Box::new(EmptyElement));
    match b.cell_at(0, 0) {
        Ok(_) => panic!("occupied position"),
        Err(_) => {}
    }
}

#[test]
fn span_rejects_zero_extent_and_overlap() {
    let b = GridBuilder::new();
    let b = b.col().batch(2);
    let b = b.row().batch(2);
    let b = match b.span(0, 2) {
        Ok(_) => panic!("zero row span"),
        Err(b) => b,
    };
    let b = match b.span(1, 3) {
        Ok(_) => panic!("span wider than the grid"),
        Err(b) => b,
    };
    let b = accepted(b.span_at(0, 0, 2, 1)).add(Box::new(EmptyElement));
    match b.span_at(1, 0, 1, 2) {
        Ok(_) => panic!("overlapping span"),
        Err(_) => {}
    }
}

#[test]
fn span_at_may_cover_skipped_positions() {
    let b = GridBuilder::new();
    let b = b.col().batch(2);
    let b = b.row().add();
    let b = accepted(b.cell_at(0, 0)).skip();
    let b = accepted(b.span_at(0, 0, 1, 2)).add(Box::new(FixedSize(12, 3)));
    let grid = b.end();
    assert_eq!(grid.min_size(), Size { width: 12, height: 3 });
}

#[test]
fn span_cell_covers_its_whole_footprint() {
    let b = GridBuilder::new().with_col_spacing(2);
    let b = b.col().with_min_size(10).add();
    let b = b.col().with_min_size(10).add();
    let b = b.row().with_min_size(5).add();
    let b = accepted(b.span(1, 2))
        .with_horz_align(CellAlign::Stretch)
        .with_vert_align(CellAlign::Stretch)
        .add(Box::new(EmptyElement));
    let grid = b.end();
    // Footprint: both columns plus the gap between them.
    assert_eq!(grid.min_size(), Size { width: 22, height: 5 });
    let rects = grid.layout_children(0, 0, 22, 5);
    assert_eq!(rects, vec![(0, 0, 22, 5)]);
}

#[test]
fn nested_grids_compose() {
    let inner = {
        let b = GridBuilder::new();
        let b = b.col().with_min_size(12).add();
        let b = b.row().with_min_size(7).add();
        b.end()
    };
    let b = GridBuilder::new();
    let b = b.col().add();
    let b = b.row().add();
    let b = accepted(b.cell()).add(Box::new(inner));
    let outer = b.end();
    // The inner grid reports its own aggregated minimum size, and a
    // layout pass of the outer grid places it through the capability
    // interface.
    assert_eq!(outer.min_size(), Size { width: 12, height: 7 });
    let rects = outer.layout_children(0, 0, 12, 7);
    assert_eq!(rects.len(), 1);
}

#[test]
fn span_deficit_with_a_shared_fixed_group_raises_both_columns() {
    // Both columns share one fixed group with minimum 10, so the span's
    // footprint starts at a natural 20. A span needing 26 raises the
    // first column's group by the deficit 6 - and with it the second
    // column, since they size in lock-step: the grid minimum becomes 32.
    let b = GridBuilder::new();
    let (b, group) = b.group().with_min_size(10).add();
    let b = b.col().with_group(group).add();
    let b = b.col().with_group(group).add();
    let b = b.row().add();
    let b = accepted(b.span(1, 2)).add(Box::new(FixedSize(26, 0)));
    let grid = b.end();
    assert_eq!(grid.min_size(), Size { width: 32, height: 0 });
}
