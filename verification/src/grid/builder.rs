//! Assembly of a grid: rows, columns, stripe groups, cells and spans are
//! declared and validated here; `end` finalizes the structure into a
//! layout-ready [`Grid`](crate::grid::Grid).

use vstd::prelude::*;

use crate::Padding;
use crate::grid::Cell;
use crate::grid::CellProperties;
use crate::grid::CellAlign;
use crate::grid::Grid;
use crate::grid::GridProperties;
use crate::grid::Stripe;
use crate::grid::StripeCell;
use crate::grid::StripeProperties;
use crate::grid::occ_wf;
use crate::grid::occupancy_agrees;
use crate::grid::props_wf;

mod cell;
mod group;
mod stripe;

pub use cell::CellBuilder;
pub use group::StripeGroupBuilder;
pub use group::StripeGroupRef;
pub use stripe::StripeBuilder;
pub use stripe::StripeKind;

verus! {

/// Assembles the structural data of a grid: declare stripes and stripe
/// groups, place cells and spans, then call `end` to finalize.
pub struct GridBuilder {
    pub(crate) props: GridProperties,
    pub(crate) default_cell_padding: Padding,
    pub(crate) default_row_align: Vec<CellAlign>,
    pub(crate) default_col_align: Vec<CellAlign>,
    pub(crate) next_row: usize,
    pub(crate) next_col: usize,
}

impl GridBuilder {
    /// The builder's data is consistent: stripes reference existing
    /// groups, row and column occupancy agree at every intersection,
    /// placements lie within the declared stripes, and spacing and group
    /// minimums are non-negative.
    pub closed spec fn wf(&self) -> bool {
        &&& props_wf(self.props)
        &&& occupancy_agrees(self.props)
        &&& forall|i: int|
            0 <= i < self.props.cells@.len() ==> (#[trigger] self.props.cells@[i]).props.row_span
                == 1 && self.props.cells@[i].props.col_span == 1
        &&& self.default_row_align@.len() == self.props.rows@.len()
        &&& self.default_col_align@.len() == self.props.cols@.len()
        &&& self.next_row <= self.props.rows@.len()
        &&& self.next_col <= self.props.cols@.len()
    }

    /// How many rows are declared.
    pub closed spec fn spec_row_count(&self) -> int {
        self.props.rows@.len() as int
    }

    /// How many columns are declared.
    pub closed spec fn spec_col_count(&self) -> int {
        self.props.cols@.len() as int
    }

    /// How many stripe groups exist.
    pub closed spec fn spec_group_count(&self) -> int {
        self.props.groups@.len() as int
    }

    /// The `g`-th stripe group's properties.
    pub closed spec fn spec_group(&self, g: int) -> StripeProperties {
        self.props.groups@[g]
    }

    /// The group the `r`-th row belongs to.
    pub closed spec fn spec_row_group(&self, r: int) -> int {
        self.props.rows@[r].group_idx as int
    }

    /// The group the `c`-th column belongs to.
    pub closed spec fn spec_col_group(&self, c: int) -> int {
        self.props.cols@[c].group_idx as int
    }

    /// What occupies the intersection of row `r` and column `c`.
    pub closed spec fn spec_occupancy(&self, r: int, c: int) -> StripeCell {
        self.props.rows@[r].cells@[c]
    }

    /// How many simple cells are placed.
    pub closed spec fn spec_cell_count(&self) -> int {
        self.props.cells@.len() as int
    }

    /// The placement metadata of the `i`-th simple cell.
    pub closed spec fn spec_cell(&self, i: int) -> crate::grid::CellProperties {
        self.props.cells@[i].props
    }

    /// How many spanning cells are placed.
    pub closed spec fn spec_span_count(&self) -> int {
        self.props.spans@.len() as int
    }

    /// The placement metadata of the `i`-th spanning cell.
    pub closed spec fn spec_span(&self, i: int) -> crate::grid::CellProperties {
        self.props.spans@[i].props
    }

    /// The spacing between neighbouring rows.
    pub closed spec fn spec_row_spacing(&self) -> int {
        self.props.row_spacing as int
    }

    /// The spacing between neighbouring columns.
    pub closed spec fn spec_col_spacing(&self) -> int {
        self.props.col_spacing as int
    }

    /// The outer padding.
    pub closed spec fn spec_padding(&self) -> Padding {
        self.props.padding
    }

    /// The padding new cells start out with.
    pub closed spec fn spec_default_cell_padding(&self) -> Padding {
        self.default_cell_padding
    }

    /// The assembled columns, as the finalized grid will hold them.
    pub closed spec fn spec_cols_raw(&self) -> Seq<Stripe> {
        self.props.cols@
    }

    /// The assembled rows.
    pub closed spec fn spec_rows_raw(&self) -> Seq<Stripe> {
        self.props.rows@
    }

    /// The declared stripe groups, before aggregation.
    pub closed spec fn spec_groups_raw(&self) -> Seq<StripeProperties> {
        self.props.groups@
    }

    /// The rows, columns, groups and occupancy of `a` and `b` are equal.
    pub closed spec fn same_structure(a: &GridBuilder, b: &GridBuilder) -> bool {
        &&& a.props.rows@ == b.props.rows@
        &&& a.props.cols@ == b.props.cols@
        &&& a.props.groups@ == b.props.groups@
        &&& a.default_row_align@ == b.default_row_align@
        &&& a.default_col_align@ == b.default_col_align@
    }

    /// The placed cells and spans of `a` and `b` are equal.
    pub closed spec fn same_content(a: &GridBuilder, b: &GridBuilder) -> bool {
        &&& a.props.cells@ == b.props.cells@
        &&& a.props.spans@ == b.props.spans@
    }

    /// The spacing, padding, default alignment and cursor of `a` and `b`
    /// are equal.
    pub closed spec fn same_config(a: &GridBuilder, b: &GridBuilder) -> bool {
        &&& a.props.padding == b.props.padding
        &&& a.props.row_spacing == b.props.row_spacing
        &&& a.props.col_spacing == b.props.col_spacing
        &&& a.default_cell_padding == b.default_cell_padding
        &&& a.next_row == b.next_row
        &&& a.next_col == b.next_col
    }

    /// Starts assembling an empty grid: no stripes, no cells, no spacing,
    /// no padding.
    pub fn new() -> (b: GridBuilder)
        ensures
            b.wf(),
            b.spec_row_count() == 0,
            b.spec_col_count() == 0,
            b.spec_group_count() == 0,
            b.spec_cell_count() == 0,
            b.spec_span_count() == 0,
            b.spec_row_spacing() == 0,
            b.spec_col_spacing() == 0,
            b.spec_padding() == (Padding { left: 0, top: 0, right: 0, bottom: 0 }),
            b.spec_default_cell_padding() == (Padding { left: 0, top: 0, right: 0, bottom: 0 }),
    {
        GridBuilder {
            props: GridProperties {
                padding: Padding { left: 0, top: 0, right: 0, bottom: 0 },
                row_spacing: 0,
                col_spacing: 0,
                cells: Vec::new(),
                spans: Vec::new(),
                groups: Vec::new(),
                rows: Vec::new(),
                cols: Vec::new(),
            },
            default_cell_padding: Padding { left: 0, top: 0, right: 0, bottom: 0 },
            default_row_align: Vec::new(),
            default_col_align: Vec::new(),
            next_row: 0,
            next_col: 0,
        }
    }

    /// Sets the spacing between neighbouring rows, floored at zero.
    pub fn with_row_spacing(self, spacing: i32) -> (r: Self)
        requires
            self.wf(),
        ensures
            r.wf(),
            Self::same_structure(&self, &r),
            Self::same_content(&self, &r),
            r.spec_row_spacing() == (if spacing >= 0 {
                spacing as int
            } else {
                0
            }),
            r.spec_col_spacing() == self.spec_col_spacing(),
            r.spec_padding() == self.spec_padding(),
            r.spec_default_cell_padding() == self.spec_default_cell_padding(),
    {
        let mut b = self;
        b.props.row_spacing = if spacing >= 0 {
            spacing
        } else {
            0
        };
        b
    }

    /// Sets the spacing between neighbouring columns, floored at zero.
    pub fn with_col_spacing(self, spacing: i32) -> (r: Self)
        requires
            self.wf(),
        ensures
            r.wf(),
            Self::same_structure(&self, &r),
            Self::same_content(&self, &r),
            r.spec_col_spacing() == (if spacing >= 0 {
                spacing as int
            } else {
                0
            }),
            r.spec_row_spacing() == self.spec_row_spacing(),
            r.spec_padding() == self.spec_padding(),
            r.spec_default_cell_padding() == self.spec_default_cell_padding(),
    {
        let mut b = self;
        b.props.col_spacing = if spacing >= 0 {
            spacing
        } else {
            0
        };
        b
    }

    /// Sets the left outer padding.
    pub fn with_left_padding(self, padding: i32) -> (r: Self)
        requires
            self.wf(),
        ensures
            r.wf(),
            Self::same_structure(&self, &r),
            Self::same_content(&self, &r),
            r.spec_padding() == (Padding { left: padding, ..self.spec_padding() }),
            r.spec_row_spacing() == self.spec_row_spacing(),
            r.spec_col_spacing() == self.spec_col_spacing(),
            r.spec_default_cell_padding() == self.spec_default_cell_padding(),
            r.spec_cursor_row() == self.spec_cursor_row(),
            r.spec_cursor_col() == self.spec_cursor_col(),
    {
        let mut b = self;
        b.props.padding.left = padding;
        b
    }

    /// Sets the top outer padding.
    pub fn with_top_padding(self, padding: i32) -> (r: Self)
        requires
            self.wf(),
        ensures
            r.wf(),
            Self::same_structure(&self, &r),
            Self::same_content(&self, &r),
            r.spec_padding() == (Padding { top: padding, ..self.spec_padding() }),
            r.spec_row_spacing() == self.spec_row_spacing(),
            r.spec_col_spacing() == self.spec_col_spacing(),
            r.spec_default_cell_padding() == self.spec_default_cell_padding(),
            r.spec_cursor_row() == self.spec_cursor_row(),
            r.spec_cursor_col() == self.spec_cursor_col(),
    {
        let mut b = self;
        b.props.padding.top = padding;
        b
    }

    /// Sets the right outer padding.
    pub fn with_right_padding(self, padding: i32) -> (r: Self)
        requires
            self.wf(),
        ensures
            r.wf(),
            Self::same_structure(&self, &r),
            Self::same_content(&self, &r),
            r.spec_padding() == (Padding { right: padding, ..self.spec_padding() }),
            r.spec_row_spacing() == self.spec_row_spacing(),
            r.spec_col_spacing() == self.spec_col_spacing(),
            r.spec_default_cell_padding() == self.spec_default_cell_padding(),
            r.spec_cursor_row() == self.spec_cursor_row(),
            r.spec_cursor_col() == self.spec_cursor_col(),
    {
        let mut b = self;
        b.props.padding.right = padding;
        b
    }

    /// Sets the bottom outer padding.
    pub fn with_bottom_padding(self, padding: i32) -> (r: Self)
        requires
            self.wf(),
        ensures
            r.wf(),
            Self::same_structure(&self, &r),
            Self::same_content(&self, &r),
            r.spec_padding() == (Padding { bottom: padding, ..self.spec_padding() }),
            r.spec_row_spacing() == self.spec_row_spacing(),
            r.spec_col_spacing() == self.spec_col_spacing(),
            r.spec_default_cell_padding() == self.spec_default_cell_padding(),
            r.spec_cursor_row() == self.spec_cursor_row(),
            r.spec_cursor_col() == self.spec_cursor_col(),
    {
        let mut b = self;
        b.props.padding.bottom = padding;
        b
    }

    /// Sets all four outer paddings at once.
    pub fn with_padding(self, left: i32, top: i32, right: i32, bottom: i32) -> (r: Self)
        requires
            self.wf(),
        ensures
            r.wf(),
            Self::same_structure(&self, &r),
            Self::same_content(&self, &r),
            r.spec_padding() == (Padding { left, top, right, bottom }),
            r.spec_row_spacing() == self.spec_row_spacing(),
            r.spec_col_spacing() == self.spec_col_spacing(),
            r.spec_default_cell_padding() == self.spec_default_cell_padding(),
            r.spec_cursor_row() == self.spec_cursor_row(),
            r.spec_cursor_col() == self.spec_cursor_col(),
    {
        let mut b = self;
        b.props.padding = Padding { left, top, right, bottom };
        b
    }

    /// Sets the padding that newly built cells start out with.
    pub fn with_default_cell_padding(self, left: i32, top: i32, right: i32, bottom: i32) -> (r:
        Self)
        requires
            self.wf(),
        ensures
            r.wf(),
            Self::same_structure(&self, &r),
            Self::same_content(&self, &r),
            r.spec_default_cell_padding() == (Padding { left, top, right, bottom }),
            r.spec_padding() == self.spec_padding(),
            r.spec_row_spacing() == self.spec_row_spacing(),
            r.spec_col_spacing() == self.spec_col_spacing(),
            r.spec_cursor_row() == self.spec_cursor_row(),
            r.spec_cursor_col() == self.spec_cursor_col(),
    {
        let mut b = self;
        b.default_cell_padding = Padding { left, top, right, bottom };
        b
    }

    /// Starts declaring one or more rows.
    pub fn row(self) -> (r: StripeBuilder)
        requires
            self.wf(),
        ensures
            r.spec_owner().wf(),
            r.spec_owner() == self,
            r.spec_kind() == StripeKind::Row,
            r.spec_group_ref() == None::<usize>,
            r.spec_props() == (StripeProperties { stretch: 0, min_size: 0 }),
    {
        StripeBuilder::new(self, StripeKind::Row)
    }

    /// Starts declaring one or more columns.
    pub fn col(self) -> (r: StripeBuilder)
        requires
            self.wf(),
        ensures
            r.spec_owner().wf(),
            r.spec_owner() == self,
            r.spec_kind() == StripeKind::Column,
            r.spec_group_ref() == None::<usize>,
            r.spec_props() == (StripeProperties { stretch: 0, min_size: 0 }),
    {
        StripeBuilder::new(self, StripeKind::Column)
    }

    /// Starts declaring a stripe group that several stripes can share, so
    /// that they size in lock-step.
    pub fn group(self) -> (r: StripeGroupBuilder)
        requires
            self.wf(),
        ensures
            r.spec_owner().wf(),
            r.spec_owner() == self,
            r.spec_props() == (StripeProperties { stretch: 0, min_size: 0 }),
    {
        StripeGroupBuilder::new(self)
    }

    /// The search cursor's row: where the next auto-placed cell starts
    /// looking.
    pub closed spec fn spec_cursor_row(&self) -> int {
        self.next_row as int
    }

    /// The search cursor's column.
    pub closed spec fn spec_cursor_col(&self) -> int {
        self.next_col as int
    }

    /// The default alignment of cells placed in row `r`.
    pub closed spec fn spec_row_default_align(&self, r: int) -> CellAlign {
        self.default_row_align@[r]
    }

    /// The default alignment of cells placed in column `c`.
    pub closed spec fn spec_col_default_align(&self, c: int) -> CellAlign {
        self.default_col_align@[c]
    }

    /// Starts configuring a cell at the first free position at or after
    /// the cursor, scanning each row left to right; refuses when no free
    /// position is left, returning the builder unchanged.
    pub fn cell(self) -> (r: Result<CellBuilder, GridBuilder>)
        requires
            self.wf(),
        ensures
            match r {
                Ok(cb) => {
                    &&& cb.valid()
                    &&& Self::same_structure(&self, &cb.spec_owner())
                    &&& Self::same_content(&self, &cb.spec_owner())
                    &&& cb.spec_owner().spec_padding() == self.spec_padding()
                    &&& cb.spec_owner().spec_row_spacing() == self.spec_row_spacing()
                    &&& cb.spec_owner().spec_col_spacing() == self.spec_col_spacing()
                    &&& cb.spec_owner().spec_default_cell_padding()
                        == self.spec_default_cell_padding()
                    &&& is_first_free(
                        &self,
                        self.spec_cursor_row(),
                        self.spec_cursor_col(),
                        cb.spec_props().row as int,
                        cb.spec_props().col as int,
                    )
                    &&& cb.spec_props().row_span == 1
                    &&& cb.spec_props().col_span == 1
                    &&& cb.spec_props().padding == self.spec_default_cell_padding()
                    &&& cb.spec_props().horz_align == self.spec_col_default_align(
                        cb.spec_props().col as int,
                    )
                    &&& cb.spec_props().vert_align == self.spec_row_default_align(
                        cb.spec_props().row as int,
                    )
                },
                Err(b) => {
                    &&& b.wf()
                    &&& Self::same_structure(&self, &b)
                    &&& Self::same_content(&self, &b)
                    &&& Self::same_config(&self, &b)
                    &&& !has_free_from(&self, self.spec_cursor_row(), self.spec_cursor_col())
                },
            },
    {
        let mut b = self;
        match b.next_free_cell() {
            Some((row, col)) => {
                let props = b.initial_cell_props(row, col, 1, 1);
                Ok(CellBuilder::new(b, props))
            },
            None => Err(b),
        }
    }

    /// Starts configuring a cell at the given position; refuses when the
    /// position lies outside the grid or is already taken by a cell or a
    /// span (a skipped position may be reused).
    pub fn cell_at(self, row: usize, col: usize) -> (r: Result<CellBuilder, GridBuilder>)
        requires
            self.wf(),
        ensures
            match r {
                Ok(cb) => {
                    &&& cb.valid()
                    &&& Self::same_structure(&self, &cb.spec_owner())
                    &&& Self::same_content(&self, &cb.spec_owner())
                    &&& Self::same_config(&self, &cb.spec_owner())
                    &&& row < self.spec_row_count() && col < self.spec_col_count()
                    &&& (self.spec_occupancy(row as int, col as int) == StripeCell::Free
                        || self.spec_occupancy(row as int, col as int) == StripeCell::Skipped)
                    &&& cb.spec_props().row == row && cb.spec_props().col == col
                    &&& cb.spec_props().row_span == 1 && cb.spec_props().col_span == 1
                    &&& cb.spec_props().padding == self.spec_default_cell_padding()
                },
                Err(b) => {
                    &&& b.wf()
                    &&& Self::same_structure(&self, &b)
                    &&& Self::same_content(&self, &b)
                    &&& Self::same_config(&self, &b)
                    &&& !(row < self.spec_row_count() && col < self.spec_col_count()
                        && (self.spec_occupancy(row as int, col as int) == StripeCell::Free
                        || self.spec_occupancy(row as int, col as int) == StripeCell::Skipped))
                },
            },
    {
        if row >= self.props.rows.len() || col >= self.props.cols.len() {
            return Err(self);
        }
        match self.props.rows[row].cells[col] {
            StripeCell::Free | StripeCell::Skipped => {
                let props = self.initial_cell_props(row, col, 1, 1);
                Ok(CellBuilder::new(self, props))
            },
            _ => Err(self),
        }
    }

    /// Starts configuring a span at the first free position at or after
    /// the cursor; refuses when a span extent is zero, no free position
    /// is left, or the footprint would leave the grid or overlap anything
    /// already placed or skipped.
    pub fn span(self, row_span: usize, col_span: usize) -> (r: Result<CellBuilder, GridBuilder>)
        requires
            self.wf(),
        ensures
            match r {
                Ok(cb) => {
                    &&& cb.valid()
                    &&& Self::same_structure(&self, &cb.spec_owner())
                    &&& Self::same_content(&self, &cb.spec_owner())
                    &&& row_span >= 1 && col_span >= 1
                    &&& is_first_free(
                        &self,
                        self.spec_cursor_row(),
                        self.spec_cursor_col(),
                        cb.spec_props().row as int,
                        cb.spec_props().col as int,
                    )
                    &&& span_available(
                        &self,
                        cb.spec_props().row as int,
                        cb.spec_props().col as int,
                        row_span as int,
                        col_span as int,
                        false,
                    )
                    &&& cb.spec_props().row_span == row_span
                    &&& cb.spec_props().col_span == col_span
                    &&& cb.spec_props().padding == self.spec_default_cell_padding()
                },
                Err(b) => {
                    &&& b.wf()
                    &&& Self::same_structure(&self, &b)
                    &&& Self::same_content(&self, &b)
                    &&& (row_span == 0 || col_span == 0 || !has_free_from(
                        &self,
                        self.spec_cursor_row(),
                        self.spec_cursor_col(),
                    ) || (forall|fr: int, fc: int|
                        is_first_free(
                            &self,
                            self.spec_cursor_row(),
                            self.spec_cursor_col(),
                            fr,
                            fc,
                        ) ==> !span_available(
                            &self,
                            fr,
                            fc,
                            row_span as int,
                            col_span as int,
                            false,
                        )))
                },
            },
    {
        if row_span == 0 || col_span == 0 {
            return Err(self);
        }
        let mut b = self;
        let ghost cur_r = self.spec_cursor_row();
        let ghost cur_c = self.spec_cursor_col();
        match b.next_free_cell() {
            Some((row, col)) => {
                if b.is_span_available(row, col, row_span, col_span, false) {
                    let props = b.initial_cell_props(row, col, row_span, col_span);
                    proof {
                        lemma_span_available_congruent(
                            &self,
                            &b,
                            row as int,
                            col as int,
                            row_span as int,
                            col_span as int,
                            false,
                        );
                    }
                    Ok(CellBuilder::new(b, props))
                } else {
                    proof {
                        lemma_span_available_congruent(
                            &self,
                            &b,
                            row as int,
                            col as int,
                            row_span as int,
                            col_span as int,
                            false,
                        );
                        assert forall|fr: int, fc: int|
                            is_first_free(&self, cur_r, cur_c, fr, fc) implies !span_available(
                            &self,
                            fr,
                            fc,
                            row_span as int,
                            col_span as int,
                            false,
                        ) by {
                            lemma_first_free_unique(&self, cur_r, cur_c, fr, fc, row as int, col as int);
                        }
                    }
                    Err(b)
                }
            },
            None => Err(b),
        }
    }

    /// Starts configuring a span at the given position; refuses when a
    /// span extent is zero or the footprint would leave the grid or
    /// overlap a placed cell or span (skipped positions may be covered).
    pub fn span_at(self, row: usize, col: usize, row_span: usize, col_span: usize) -> (r: Result<
        CellBuilder,
        GridBuilder,
    >)
        requires
            self.wf(),
        ensures
            match r {
                Ok(cb) => {
                    &&& cb.valid()
                    &&& Self::same_structure(&self, &cb.spec_owner())
                    &&& Self::same_content(&self, &cb.spec_owner())
                    &&& Self::same_config(&self, &cb.spec_owner())
                    &&& row_span >= 1 && col_span >= 1
                    &&& span_available(
                        &self,
                        row as int,
                        col as int,
                        row_span as int,
                        col_span as int,
                        true,
                    )
                    &&& cb.spec_props().row == row && cb.spec_props().col == col
                    &&& cb.spec_props().row_span == row_span
                    &&& cb.spec_props().col_span == col_span
                    &&& cb.spec_props().padding == self.spec_default_cell_padding()
                },
                Err(b) => {
                    &&& b.wf()
                    &&& Self::same_structure(&self, &b)
                    &&& Self::same_content(&self, &b)
                    &&& Self::same_config(&self, &b)
                    &&& (row_span == 0 || col_span == 0 || !span_available(
                        &self,
                        row as int,
                        col as int,
                        row_span as int,
                        col_span as int,
                        true,
                    ))
                },
            },
    {
        if row_span == 0 || col_span == 0 {
            return Err(self);
        }
        if self.is_span_available(row, col, row_span, col_span, true) {
            let props = self.initial_cell_props(row, col, row_span, col_span);
            Ok(CellBuilder::new(self, props))
        } else {
            Err(self)
        }
    }

    /// Finalizes the assembled structure into a layout-ready grid: the
    /// stripes, groups and placements carry over unchanged; each
    /// participant's minimum size is asked once and cached; group
    /// minimums are aggregated from the cached cell minimums and only
    /// ever grow from their declared values; afterwards the grid is
    /// layout-only.
    pub fn end(self) -> (r: Grid)
        requires
            self.wf(),
        ensures
            r.wf(),
            r.spec_cols_raw() == self.spec_cols_raw(),
            r.spec_rows_raw() == self.spec_rows_raw(),
            r.spec_col_count() == self.spec_col_count(),
            r.spec_row_count() == self.spec_row_count(),
            r.spec_padding() == self.spec_padding(),
            r.spec_col_spacing() == self.spec_col_spacing(),
            r.spec_row_spacing() == self.spec_row_spacing(),
            forall|c: int|
                0 <= c < self.spec_col_count() ==> #[trigger] r.spec_col_group(c)
                    == self.spec_col_group(c),
            forall|r0: int|
                0 <= r0 < self.spec_row_count() ==> #[trigger] r.spec_row_group(r0)
                    == self.spec_row_group(r0),
            r.spec_group_count() == self.spec_group_count(),
            forall|g: int|
                0 <= g < self.spec_group_count() ==> #[trigger] r.spec_group_stretch(g)
                    == self.spec_group(g).stretch as int && r.spec_group_min(g)
                    >= self.spec_group(g).min_size,
            r.spec_cell_count() == self.spec_cell_count(),
            forall|i: int|
                0 <= i < self.spec_cell_count() ==> #[trigger] r.spec_cell_props(i)
                    == self.spec_cell(i),
            r.spec_span_count() == self.spec_span_count(),
            forall|i: int|
                0 <= i < self.spec_span_count() ==> #[trigger] r.spec_span_props(i)
                    == self.spec_span(i),
            self.spec_span_count() == 0 ==> r.spec_groups() == crate::grid::agg_axis(
                crate::grid::agg_axis(
                    self.spec_groups_raw(),
                    self.spec_cols_raw(),
                    r.spec_cells(),
                    self.spec_col_count(),
                    true,
                ),
                self.spec_rows_raw(),
                r.spec_cells(),
                self.spec_row_count(),
                false,
            ),
    {
        Grid::new(self.props)
    }

    /// The starting configuration of a cell at the given position: the
    /// builder's default cell padding, and the alignment defaults of the
    /// position's column and row.
    fn initial_cell_props(&self, row: usize, col: usize, row_span: usize, col_span: usize) -> (r:
        crate::grid::CellProperties)
        requires
            self.wf(),
            row < self.spec_row_count(),
            col < self.spec_col_count(),
        ensures
            r.row == row && r.col == col && r.row_span == row_span && r.col_span == col_span,
            r.padding == self.spec_default_cell_padding(),
            r.horz_align == self.spec_col_default_align(col as int),
            r.vert_align == self.spec_row_default_align(row as int),
    {
        crate::grid::CellProperties {
            row,
            col,
            row_span,
            col_span,
            padding: self.default_cell_padding,
            horz_align: self.default_col_align[col],
            vert_align: self.default_row_align[row],
        }
    }

    /// Scans for the first free position at or after the cursor, row by
    /// row, and moves the cursor there.
    fn next_free_cell(&mut self) -> (r: Option<(usize, usize)>)
        requires
            old(self).wf(),
        ensures
            final(self).wf(),
            Self::same_structure(old(self), final(self)),
            Self::same_content(old(self), final(self)),
            final(self).spec_padding() == old(self).spec_padding(),
            final(self).spec_row_spacing() == old(self).spec_row_spacing(),
            final(self).spec_col_spacing() == old(self).spec_col_spacing(),
            final(self).spec_default_cell_padding() == old(self).spec_default_cell_padding(),
            (match r {
                Some(pos) => {
                    &&& is_first_free(
                        old(self),
                        old(self).spec_cursor_row(),
                        old(self).spec_cursor_col(),
                        pos.0 as int,
                        pos.1 as int,
                    )
                    &&& final(self).spec_cursor_row() == pos.0 as int
                    &&& final(self).spec_cursor_col() == pos.1 as int
                },
                None => {
                    &&& !has_free_from(
                        old(self),
                        old(self).spec_cursor_row(),
                        old(self).spec_cursor_col(),
                    )
                    &&& Self::same_config(old(self), final(self))
                },
            }),
    {
        let n_rows = self.props.rows.len();
        let n_cols = self.props.cols.len();
        let r0 = self.next_row;
        let c0 = self.next_col;
        let ghost self0 = *self;
        if n_rows == 0 || n_cols == 0 {
            return None;
        }
        let mut row = r0;
        let mut col = c0;
        let mut found: Option<(usize, usize)> = None;
        loop
            invariant_except_break
                *self == self0,
                scan_state(self0, r0 as int, c0 as int, row as int, col as int),
                n_rows == self0.props.rows@.len(),
                n_cols == self0.props.cols@.len(),
                r0 == self0.next_row && c0 == self0.next_col,
                row <= n_rows,
                (found == None::<(usize, usize)>),
            ensures
                *self == self0,
                scan_result(self0, r0 as int, c0 as int, found),
            decreases n_rows - row, (if col <= n_cols {
                (n_cols - col) as int
            } else {
                0
            }),
        {
            if col >= n_cols {
                col = 0;
                row = row + 1;
                if row >= n_rows {
                    break ;
                }
                continue ;
            }
            if row >= n_rows {
                break ;
            }
            match self.props.rows[row].cells[col] {
                StripeCell::Free => {
                    found = Some((row, col));
                    break ;
                },
                _ => {},
            }
            col = col + 1;
        }
        match found {
            Some(pos) => {
                self.next_row = pos.0;
                self.next_col = pos.1;
                Some(pos)
            },
            None => None,
        }
    }
}

/// The state of the free-position scan: the grid is consistent, the scan
/// began at the cursor, sits at `(row, col)`, and every position between
/// the cursor and there is known not to be free.
spec fn scan_state(b: GridBuilder, r0: int, c0: int, row: int, col: int) -> bool {
    &&& b.wf()
    &&& 1 <= b.spec_row_count()
    &&& 1 <= b.spec_col_count()
    &&& 0 <= r0 <= b.spec_row_count()
    &&& 0 <= c0 <= b.spec_col_count()
    &&& row >= r0
    &&& row <= b.spec_row_count()
    &&& row > r0 ==> col <= b.spec_col_count()
    &&& row == r0 ==> col >= c0
    &&& forall|rr: int, cc: int|
        0 <= rr < b.spec_row_count() && 0 <= cc < b.spec_col_count() && pos_le(r0, c0, rr, cc)
            && pos_lt(rr, cc, row, col) ==> b.spec_occupancy(rr, cc) != StripeCell::Free
}

/// What the free-position scan reports: the first free position at or
/// after the cursor, or that none exists.
spec fn scan_result(b: GridBuilder, r0: int, c0: int, found: Option<(usize, usize)>) -> bool {
    match found {
        Some(pos) => is_first_free(&b, r0, c0, pos.0 as int, pos.1 as int),
        None => !has_free_from(&b, r0, c0),
    }
}

/// Row-major position ordering: `(r1, c1)` at or before `(r2, c2)`.
pub open spec fn pos_le(r1: int, c1: int, r2: int, c2: int) -> bool {
    r1 < r2 || (r1 == r2 && c1 <= c2)
}

/// Row-major position ordering, strict.
pub open spec fn pos_lt(r1: int, c1: int, r2: int, c2: int) -> bool {
    r1 < r2 || (r1 == r2 && c1 < c2)
}

/// Some position at or after `(r0, c0)` in row-major order is free.
pub open spec fn has_free_from(b: &GridBuilder, r0: int, c0: int) -> bool {
    exists|rr: int, cc: int|
        0 <= rr < b.spec_row_count() && 0 <= cc < b.spec_col_count() && pos_le(r0, c0, rr, cc)
            && b.spec_occupancy(rr, cc) == StripeCell::Free
}

/// `(r, c)` is the first free position at or after `(r0, c0)` in
/// row-major order.
pub open spec fn is_first_free(b: &GridBuilder, r0: int, c0: int, r: int, c: int) -> bool {
    &&& 0 <= r < b.spec_row_count()
    &&& 0 <= c < b.spec_col_count()
    &&& b.spec_occupancy(r, c) == StripeCell::Free
    &&& pos_le(r0, c0, r, c)
    &&& forall|rr: int, cc: int|
        0 <= rr < b.spec_row_count() && 0 <= cc < b.spec_col_count() && pos_le(r0, c0, rr, cc)
            && pos_lt(rr, cc, r, c) ==> b.spec_occupancy(rr, cc) != StripeCell::Free
}

/// Builders with the same stripes agree on span availability.
proof fn lemma_span_available_congruent(
    a: &GridBuilder,
    b: &GridBuilder,
    row: int,
    col: int,
    row_span: int,
    col_span: int,
    allow_skipped: bool,
)
    requires
        a.props.rows@ == b.props.rows@,
        a.props.cols@.len() == b.props.cols@.len(),
    ensures
        span_available(a, row, col, row_span, col_span, allow_skipped) == span_available(
            b,
            row,
            col,
            row_span,
            col_span,
            allow_skipped,
        ),
{
    assert(a.spec_row_count() == b.spec_row_count());
    assert(a.spec_col_count() == b.spec_col_count());
    assert forall|rr: int, cc: int|
        0 <= rr < a.spec_row_count() implies a.spec_occupancy(rr, cc) == b.spec_occupancy(
        rr,
        cc,
    ) by {
        assert(a.props.rows@[rr] == b.props.rows@[rr]);
    }
}

/// The first free position at or after a cursor is unique.
proof fn lemma_first_free_unique(b: &GridBuilder, r0: int, c0: int, r1: int, c1: int, r2: int, c2: int)
    requires
        is_first_free(b, r0, c0, r1, c1),
        is_first_free(b, r0, c0, r2, c2),
    ensures
        r1 == r2 && c1 == c2,
{
    if !(r1 == r2 && c1 == c2) {
        if pos_lt(r1, c1, r2, c2) {
            assert(b.spec_occupancy(r1, c1) != StripeCell::Free);
        } else {
            assert(pos_lt(r2, c2, r1, c1));
            assert(b.spec_occupancy(r2, c2) != StripeCell::Free);
        }
    }
}

/// The whole `row_span` by `col_span` footprint at `(row, col)` lies
/// within the grid and is free (or, when allowed, skipped).
pub open spec fn span_available(
    b: &GridBuilder,
    row: int,
    col: int,
    row_span: int,
    col_span: int,
    allow_skipped: bool,
) -> bool {
    &&& 0 <= row && 0 <= col
    &&& row + row_span <= b.spec_row_count()
    &&& col + col_span <= b.spec_col_count()
    &&& forall|rr: int, cc: int|
        row <= rr < row + row_span && col <= cc < col + col_span ==> (b.spec_occupancy(rr, cc)
            == StripeCell::Free || (allow_skipped && b.spec_occupancy(rr, cc)
            == StripeCell::Skipped))
}

/// Everything a placement leaves untouched: the declared stripes and
/// groups, the spacing and padding configuration, and the cursor.
pub open spec fn placement_frame(o: &GridBuilder, r: &GridBuilder) -> bool {
    &&& r.spec_row_count() == o.spec_row_count()
    &&& r.spec_col_count() == o.spec_col_count()
    &&& r.spec_group_count() == o.spec_group_count()
    &&& forall|g: int| 0 <= g < o.spec_group_count() ==> r.spec_group(g) == o.spec_group(g)
    &&& forall|r0: int|
        0 <= r0 < o.spec_row_count() ==> r.spec_row_group(r0) == o.spec_row_group(r0)
    &&& forall|c0: int|
        0 <= c0 < o.spec_col_count() ==> r.spec_col_group(c0) == o.spec_col_group(c0)
    &&& r.spec_row_spacing() == o.spec_row_spacing()
    &&& r.spec_col_spacing() == o.spec_col_spacing()
    &&& r.spec_padding() == o.spec_padding()
    &&& r.spec_default_cell_padding() == o.spec_default_cell_padding()
    &&& r.spec_cursor_row() == o.spec_cursor_row()
    &&& r.spec_cursor_col() == o.spec_cursor_col()
}

/// What placing a simple cell leaves behind: the cell is recorded at its
/// position in both axes' occupancy, appended to the cell list with the
/// given configuration, and nothing else changes.
pub open spec fn cell_added(o: &GridBuilder, r: &GridBuilder, props: CellProperties) -> bool {
    &&& r.wf()
    &&& placement_frame(o, r)
    &&& r.spec_cell_count() == o.spec_cell_count() + 1
    &&& forall|i: int| 0 <= i < o.spec_cell_count() ==> r.spec_cell(i) == o.spec_cell(i)
    &&& r.spec_cell(o.spec_cell_count()) == props
    &&& r.spec_span_count() == o.spec_span_count()
    &&& forall|i: int| 0 <= i < o.spec_span_count() ==> r.spec_span(i) == o.spec_span(i)
    &&& r.spec_occupancy(props.row as int, props.col as int) == StripeCell::Cell(
        o.spec_cell_count() as usize,
    )
    &&& forall|rr: int, cc: int|
        0 <= rr < o.spec_row_count() && 0 <= cc < o.spec_col_count() && !(rr == props.row as int
            && cc == props.col as int) ==> r.spec_occupancy(rr, cc) == o.spec_occupancy(rr, cc)
}

/// What placing a spanning cell leaves behind: its whole footprint is
/// marked as spanned in both axes' occupancy, the span is appended to the
/// span list with the given configuration, and nothing else changes.
pub open spec fn span_added(o: &GridBuilder, r: &GridBuilder, props: CellProperties) -> bool {
    &&& r.wf()
    &&& placement_frame(o, r)
    &&& r.spec_span_count() == o.spec_span_count() + 1
    &&& forall|i: int| 0 <= i < o.spec_span_count() ==> r.spec_span(i) == o.spec_span(i)
    &&& r.spec_span(o.spec_span_count()) == props
    &&& r.spec_cell_count() == o.spec_cell_count()
    &&& forall|i: int| 0 <= i < o.spec_cell_count() ==> r.spec_cell(i) == o.spec_cell(i)
    &&& forall|rr: int, cc: int|
        props.row <= rr < props.row + props.row_span && props.col <= cc < props.col
            + props.col_span ==> r.spec_occupancy(rr, cc) == StripeCell::Span
    &&& forall|rr: int, cc: int|
        0 <= rr < o.spec_row_count() && 0 <= cc < o.spec_col_count() && !(props.row <= rr
            < props.row + props.row_span && props.col <= cc < props.col + props.col_span)
            ==> r.spec_occupancy(rr, cc) == o.spec_occupancy(rr, cc)
}

/// What skipping a footprint leaves behind: every covered position is
/// marked as intentionally empty, and nothing else changes.
pub open spec fn skip_applied(o: &GridBuilder, r: &GridBuilder, props: CellProperties) -> bool {
    &&& r.wf()
    &&& placement_frame(o, r)
    &&& GridBuilder::same_content(o, r)
    &&& forall|rr: int, cc: int|
        props.row <= rr < props.row + props.row_span && props.col <= cc < props.col
            + props.col_span ==> r.spec_occupancy(rr, cc) == StripeCell::Skipped
    &&& forall|rr: int, cc: int|
        0 <= rr < o.spec_row_count() && 0 <= cc < o.spec_col_count() && !(props.row <= rr
            < props.row + props.row_span && props.col <= cc < props.col + props.col_span)
            ==> r.spec_occupancy(rr, cc) == o.spec_occupancy(rr, cc)
}

/// What declaring a group leaves behind: one more group with the given
/// properties, and nothing else changes.
pub open spec fn group_added(o: &GridBuilder, r: &GridBuilder, props: StripeProperties) -> bool {
    &&& r.wf()
    &&& GridBuilder::same_content(o, r)
    &&& GridBuilder::same_config(o, r)
    &&& r.spec_row_count() == o.spec_row_count()
    &&& r.spec_col_count() == o.spec_col_count()
    &&& forall|r0: int|
        0 <= r0 < o.spec_row_count() ==> r.spec_row_group(r0) == o.spec_row_group(r0)
    &&& forall|c0: int|
        0 <= c0 < o.spec_col_count() ==> r.spec_col_group(c0) == o.spec_col_group(c0)
    &&& forall|rr: int, cc: int|
        0 <= rr < o.spec_row_count() && 0 <= cc < o.spec_col_count() ==> r.spec_occupancy(rr, cc)
            == o.spec_occupancy(rr, cc)
    &&& r.spec_group_count() == o.spec_group_count() + 1
    &&& forall|g: int| 0 <= g < o.spec_group_count() ==> r.spec_group(g) == o.spec_group(g)
    &&& r.spec_group(o.spec_group_count()) == props
}

/// What declaring `count` stripes leaves behind: the new stripes sit at
/// the end of their axis with entirely free occupancy, either all joined
/// to the shared group or each given a fresh group with the declared
/// properties, and everything previously declared or placed is untouched.
pub open spec fn stripes_added(
    o: &GridBuilder,
    r: &GridBuilder,
    kind: StripeKind,
    props: StripeProperties,
    group_ref: Option<usize>,
    count: int,
) -> bool {
    &&& r.wf()
    &&& GridBuilder::same_content(o, r)
    &&& r.spec_padding() == o.spec_padding()
    &&& r.spec_row_spacing() == o.spec_row_spacing()
    &&& r.spec_col_spacing() == o.spec_col_spacing()
    &&& r.spec_default_cell_padding() == o.spec_default_cell_padding()
    &&& r.spec_cursor_row() == o.spec_cursor_row()
    &&& r.spec_cursor_col() == o.spec_cursor_col()
    &&& forall|g: int| 0 <= g < o.spec_group_count() ==> r.spec_group(g) == o.spec_group(g)
    &&& (match group_ref {
        Some(_) => r.spec_group_count() == o.spec_group_count(),
        None => {
            &&& r.spec_group_count() == o.spec_group_count() + count
            &&& forall|t: int|
                0 <= t < count ==> #[trigger] r.spec_group(o.spec_group_count() + t) == props
        },
    })
    &&& forall|r0: int|
        0 <= r0 < o.spec_row_count() ==> r.spec_row_group(r0) == o.spec_row_group(r0)
    &&& forall|c0: int|
        0 <= c0 < o.spec_col_count() ==> r.spec_col_group(c0) == o.spec_col_group(c0)
    &&& forall|rr: int, cc: int|
        0 <= rr < o.spec_row_count() && 0 <= cc < o.spec_col_count() ==> r.spec_occupancy(rr, cc)
            == o.spec_occupancy(rr, cc)
    &&& (match kind {
        StripeKind::Row => {
            &&& r.spec_row_count() == o.spec_row_count() + count
            &&& r.spec_col_count() == o.spec_col_count()
            &&& forall|t: int, c0: int|
                0 <= t < count && 0 <= c0 < o.spec_col_count() ==> #[trigger] r.spec_occupancy(
                    o.spec_row_count() + t,
                    c0,
                ) == StripeCell::Free
            &&& forall|t: int|
                0 <= t < count ==> #[trigger] r.spec_row_group(o.spec_row_count() + t) == (match group_ref {
                    Some(g) => g as int,
                    None => o.spec_group_count() + t,
                })
        },
        StripeKind::Column => {
            &&& r.spec_col_count() == o.spec_col_count() + count
            &&& r.spec_row_count() == o.spec_row_count()
            &&& forall|t: int, r0: int|
                0 <= t < count && 0 <= r0 < o.spec_row_count() ==> #[trigger] r.spec_occupancy(
                    r0,
                    o.spec_col_count() + t,
                ) == StripeCell::Free
            &&& forall|t: int|
                0 <= t < count ==> #[trigger] r.spec_col_group(o.spec_col_count() + t) == (match group_ref {
                    Some(g) => g as int,
                    None => o.spec_group_count() + t,
                })
        },
    })
}

/// One paired occupancy write: recording the same value at row `rr`,
/// column `cc` of both axes keeps the builder consistent and leaves every
/// other intersection as it was.
proof fn lemma_paired_write(before: GridBuilder, after: GridBuilder, rr: int, cc: int, v: StripeCell)
    requires
        before.wf(),
        0 <= rr < before.props.rows@.len(),
        0 <= cc < before.props.cols@.len(),
        match v {
            StripeCell::Cell(idx) => idx < after.props.cells@.len(),
            _ => true,
        },
        after.props.rows@.len() == before.props.rows@.len(),
        after.props.cols@.len() == before.props.cols@.len(),
        after.props.rows@[rr].cells@ == before.props.rows@[rr].cells@.update(cc, v),
        after.props.rows@[rr].group_idx == before.props.rows@[rr].group_idx,
        forall|r1: int|
            0 <= r1 < before.props.rows@.len() && r1 != rr ==> after.props.rows@[r1]
                == before.props.rows@[r1],
        after.props.cols@[cc].cells@ == before.props.cols@[cc].cells@.update(rr, v),
        after.props.cols@[cc].group_idx == before.props.cols@[cc].group_idx,
        forall|c1: int|
            0 <= c1 < before.props.cols@.len() && c1 != cc ==> after.props.cols@[c1]
                == before.props.cols@[c1],
        after.props.cells@ == before.props.cells@,
        after.props.spans@ == before.props.spans@,
        after.props.groups@ == before.props.groups@,
        after.props.padding == before.props.padding,
        after.props.row_spacing == before.props.row_spacing,
        after.props.col_spacing == before.props.col_spacing,
        after.default_row_align@ == before.default_row_align@,
        after.default_col_align@ == before.default_col_align@,
        after.default_cell_padding == before.default_cell_padding,
        after.next_row == before.next_row,
        after.next_col == before.next_col,
    ensures
        after.wf(),
        after.spec_occupancy(rr, cc) == v,
        forall|r1: int, c1: int|
            0 <= r1 < before.spec_row_count() && 0 <= c1 < before.spec_col_count() && !(r1 == rr
                && c1 == cc) ==> after.spec_occupancy(r1, c1) == before.spec_occupancy(r1, c1),
        placement_frame(&before, &after),
        GridBuilder::same_content(&before, &after),
{
    let rows_n = before.props.rows@.len() as int;
    let cols_n = before.props.cols@.len() as int;
    assert forall|r1: int, c1: int|
        0 <= r1 < rows_n && 0 <= c1 < cols_n implies (#[trigger] after.props.rows@[r1].cells@[c1])
        == after.props.cols@[c1].cells@[r1] by {
        if r1 == rr && c1 == cc {
        } else if r1 == rr {
            assert(after.props.rows@[r1].cells@[c1] == before.props.rows@[r1].cells@[c1]);
            assert(after.props.cols@[c1] == before.props.cols@[c1]);
        } else if c1 == cc {
            assert(after.props.rows@[r1] == before.props.rows@[r1]);
            assert(after.props.cols@[c1].cells@[r1] == before.props.cols@[c1].cells@[r1]);
        } else {
            assert(after.props.rows@[r1] == before.props.rows@[r1]);
            assert(after.props.cols@[c1] == before.props.cols@[c1]);
        }
    }
    assert forall|k: int|
        0 <= k < after.props.rows@.len() implies occ_wf(
        (#[trigger] after.props.rows@[k]).cells@,
        after.props.cells@.len() as int,
    ) by {
        if k == rr {
            assert forall|j: int|
                0 <= j < after.props.rows@[k].cells@.len() implies match #[trigger] after.props.rows@[k].cells@[j] {
                StripeCell::Cell(idx) => idx < after.props.cells@.len(),
                _ => true,
            } by {
                if j != cc {
                    assert(after.props.rows@[k].cells@[j] == before.props.rows@[k].cells@[j]);
                }
            }
        } else {
            assert(after.props.rows@[k] == before.props.rows@[k]);
        }
    }
    assert forall|k: int|
        0 <= k < after.props.cols@.len() implies occ_wf(
        (#[trigger] after.props.cols@[k]).cells@,
        after.props.cells@.len() as int,
    ) by {
        if k == cc {
            assert forall|j: int|
                0 <= j < after.props.cols@[k].cells@.len() implies match #[trigger] after.props.cols@[k].cells@[j] {
                StripeCell::Cell(idx) => idx < after.props.cells@.len(),
                _ => true,
            } by {
                if j != rr {
                    assert(after.props.cols@[k].cells@[j] == before.props.cols@[k].cells@[j]);
                }
            }
        } else {
            assert(after.props.cols@[k] == before.props.cols@[k]);
        }
    }
    assert forall|k: int|
        0 <= k < after.props.rows@.len() implies (#[trigger] after.props.rows@[k]).group_idx
        < after.props.groups@.len() by {
        if k != rr {
            assert(after.props.rows@[k] == before.props.rows@[k]);
        }
    }
    assert forall|k: int|
        0 <= k < after.props.cols@.len() implies (#[trigger] after.props.cols@[k]).group_idx
        < after.props.groups@.len() by {
        if k != cc {
            assert(after.props.cols@[k] == before.props.cols@[k]);
        }
    }
    assert forall|k: int|
        0 <= k < after.props.rows@.len() implies (#[trigger] after.props.rows@[k]).cells@.len()
        == after.props.cols@.len() by {
        if k != rr {
            assert(after.props.rows@[k] == before.props.rows@[k]);
        }
    }
    assert forall|k: int|
        0 <= k < after.props.cols@.len() implies (#[trigger] after.props.cols@[k]).cells@.len()
        == after.props.rows@.len() by {
        if k != cc {
            assert(after.props.cols@[k] == before.props.cols@[k]);
        }
    }
    assert forall|r1: int|
        0 <= r1 < before.spec_row_count() implies after.spec_row_group(r1)
        == before.spec_row_group(r1) by {
        if r1 != rr {
            assert(after.props.rows@[r1] == before.props.rows@[r1]);
        }
    }
    assert forall|c1: int|
        0 <= c1 < before.spec_col_count() implies after.spec_col_group(c1)
        == before.spec_col_group(c1) by {
        if c1 != cc {
            assert(after.props.cols@[c1] == before.props.cols@[c1]);
        }
    }
    assert forall|r1: int, c1: int|
        0 <= r1 < before.spec_row_count() && 0 <= c1 < before.spec_col_count() && !(r1 == rr && c1
            == cc) implies after.spec_occupancy(r1, c1) == before.spec_occupancy(r1, c1) by {
        if r1 != rr {
            assert(after.props.rows@[r1] == before.props.rows@[r1]);
        } else {
            assert(after.props.rows@[r1].cells@[c1] == before.props.rows@[r1].cells@[c1]);
        }
    }
}

impl GridBuilder {
    /// Checks that the whole footprint lies within the grid and is free
    /// (or, when allowed, skipped).
    pub(crate) fn is_span_available(
        &self,
        row: usize,
        col: usize,
        row_span: usize,
        col_span: usize,
        allow_skipped: bool,
    ) -> (r: bool)
        requires
            self.wf(),
            row_span >= 1,
            col_span >= 1,
        ensures
            r == span_available(
                self,
                row as int,
                col as int,
                row_span as int,
                col_span as int,
                allow_skipped,
            ),
    {
        let n_rows = self.props.rows.len();
        let n_cols = self.props.cols.len();
        if row >= n_rows || row_span > n_rows - row {
            return false;
        }
        if col >= n_cols || col_span > n_cols - col {
            return false;
        }
        let bottom = row + row_span;
        let right = col + col_span;
        let mut rr = row;
        while rr < bottom
            invariant
                self.wf(),
                row <= rr <= bottom,
                bottom == row + row_span <= self.props.rows@.len(),
                right == col + col_span <= self.props.cols@.len(),
                forall|r1: int, c1: int|
                    row <= r1 < rr && col <= c1 < right ==> (self.spec_occupancy(r1, c1)
                        == StripeCell::Free || (allow_skipped && self.spec_occupancy(r1, c1)
                        == StripeCell::Skipped)),
            decreases bottom - rr,
        {
            let mut cc = col;
            while cc < right
                invariant
                    self.wf(),
                    row <= rr < bottom,
                    col <= cc <= right,
                    bottom == row + row_span <= self.props.rows@.len(),
                    right == col + col_span <= self.props.cols@.len(),
                    forall|r1: int, c1: int|
                        row <= r1 < rr && col <= c1 < right ==> (self.spec_occupancy(r1, c1)
                            == StripeCell::Free || (allow_skipped && self.spec_occupancy(r1, c1)
                            == StripeCell::Skipped)),
                    forall|c1: int|
                        col <= c1 < cc ==> (self.spec_occupancy(rr as int, c1) == StripeCell::Free
                            || (allow_skipped && self.spec_occupancy(rr as int, c1)
                            == StripeCell::Skipped)),
                decreases right - cc,
            {
                let available = match self.props.rows[rr].cells[cc] {
                    StripeCell::Free => true,
                    StripeCell::Skipped => allow_skipped,
                    _ => false,
                };
                if !available {
                    proof {
                        assert(!(self.spec_occupancy(rr as int, cc as int) == StripeCell::Free
                            || (allow_skipped && self.spec_occupancy(rr as int, cc as int)
                            == StripeCell::Skipped)));
                        assert(!span_available(
                            self,
                            row as int,
                            col as int,
                            row_span as int,
                            col_span as int,
                            allow_skipped,
                        ));
                    }
                    return false;
                }
                cc = cc + 1;
            }
            rr = rr + 1;
        }
        true
    }

    /// Records a placed participant: a simple cell is written into both
    /// axes' occupancy at its position; a spanning cell marks its whole
    /// footprint.
    pub(crate) fn add_cell(self, element: crate::ElementHandle, props: CellProperties) -> (r:
        GridBuilder)
        requires
            self.wf(),
            props.row < self.spec_row_count(),
            props.col < self.spec_col_count(),
            props.row_span >= 1,
            props.col_span >= 1,
            props.row + props.row_span <= self.spec_row_count(),
            props.col + props.col_span <= self.spec_col_count(),
        ensures
            if props.row_span == 1 && props.col_span == 1 {
                cell_added(&self, &r, props)
            } else {
                span_added(&self, &r, props)
            },
    {
        if props.row_span > 1 || props.col_span > 1 {
            return self.add_span(element, props);
        }
        let mut b = self;
        let ghost o = b;
        let row = props.row;
        let col = props.col;
        let cell_idx = b.props.cells.len();
        b.props.cells.push(
            Cell { element, min_size: crate::Size { width: 0, height: 0 }, props },
        );
        let ghost mid = b;
        proof {
            assert forall|i: int|
                0 <= i < mid.props.cells@.len() implies (#[trigger] mid.props.cells@[i]).props.row
                < mid.props.rows@.len() && mid.props.cells@[i].props.col
                < mid.props.cols@.len() && mid.props.cells@[i].props.row_span == 1
                && mid.props.cells@[i].props.col_span == 1 by {
                if i < o.props.cells@.len() {
                    assert(mid.props.cells@[i] == o.props.cells@[i]);
                }
            }
            assert forall|k: int|
                0 <= k < mid.props.rows@.len() implies occ_wf(
                (#[trigger] mid.props.rows@[k]).cells@,
                mid.props.cells@.len() as int,
            ) by {
                assert(occ_wf(o.props.rows@[k].cells@, o.props.cells@.len() as int));
            }
            assert forall|k: int|
                0 <= k < mid.props.cols@.len() implies occ_wf(
                (#[trigger] mid.props.cols@[k]).cells@,
                mid.props.cells@.len() as int,
            ) by {
                assert(occ_wf(o.props.cols@[k].cells@, o.props.cells@.len() as int));
            }
            assert(mid.wf());
        }
        b.props.rows[row].cells[col] = StripeCell::Cell(cell_idx);
        b.props.cols[col].cells[row] = StripeCell::Cell(cell_idx);
        proof {
            lemma_paired_write(mid, b, row as int, col as int, StripeCell::Cell(cell_idx));
            assert(cell_added(&o, &b, props));
        }
        b
    }

    fn add_span(self, element: crate::ElementHandle, props: CellProperties) -> (r: GridBuilder)
        requires
            self.wf(),
            props.row_span >= 1,
            props.col_span >= 1,
            props.row + props.row_span <= self.spec_row_count(),
            props.col + props.col_span <= self.spec_col_count(),
            props.row_span > 1 || props.col_span > 1,
        ensures
            span_added(&self, &r, props),
    {
        let ghost o = self;
        let mut b = self;
        b.props.spans.push(
            Cell { element, min_size: crate::Size { width: 0, height: 0 }, props },
        );
        proof {
            assert forall|i: int|
                0 <= i < b.props.spans@.len() implies (#[trigger] b.props.spans@[i]).props.row_span
                >= 1 && b.props.spans@[i].props.col_span >= 1 && b.props.spans@[i].props.row
                + b.props.spans@[i].props.row_span <= b.props.rows@.len()
                && b.props.spans@[i].props.col + b.props.spans@[i].props.col_span
                <= b.props.cols@.len() by {
                if i < o.props.spans@.len() {
                    assert(b.props.spans@[i] == o.props.spans@[i]);
                }
            }
            assert(b.wf());
        }
        let top = props.row;
        let bottom = top + props.row_span;
        let left = props.col;
        let right = left + props.col_span;
        let mut rr = top;
        while rr < bottom
            invariant
                top == props.row,
                left == props.col,
                top <= rr <= bottom,
                mark_loop_frame(&o, &b, props),
                forall|r1: int, c1: int|
                    top <= r1 < rr && left <= c1 < right ==> b.spec_occupancy(r1, c1)
                        == StripeCell::Span,
                forall|r1: int, c1: int|
                    0 <= r1 < o.spec_row_count() && 0 <= c1 < o.spec_col_count() && !(top <= r1
                        < rr && left <= c1 < right) ==> b.spec_occupancy(r1, c1)
                        == o.spec_occupancy(r1, c1),
                bottom == props.row + props.row_span,
                right == props.col + props.col_span,
                bottom <= o.spec_row_count(),
                right <= o.spec_col_count(),
                b.spec_span_count() == o.spec_span_count() + 1,
                forall|i: int| 0 <= i < o.spec_span_count() ==> b.spec_span(i) == o.spec_span(i),
                b.spec_span(o.spec_span_count()) == props,
            decreases bottom - rr,
        {
            let mut cc = left;
            while cc < right
                invariant
                    top == props.row,
                    left == props.col,
                    top <= rr < bottom,
                    left <= cc <= right,
                    mark_loop_frame(&o, &b, props),
                    forall|r1: int, c1: int|
                        top <= r1 < rr && left <= c1 < right ==> b.spec_occupancy(r1, c1)
                            == StripeCell::Span,
                    forall|c1: int|
                        left <= c1 < cc ==> b.spec_occupancy(rr as int, c1) == StripeCell::Span,
                    forall|r1: int, c1: int|
                        0 <= r1 < o.spec_row_count() && 0 <= c1 < o.spec_col_count() && !(top <= r1
                            < rr && left <= c1 < right) && !(r1 == rr as int && left <= c1 < cc)
                            ==> b.spec_occupancy(r1, c1) == o.spec_occupancy(r1, c1),
                    bottom == props.row + props.row_span,
                    right == props.col + props.col_span,
                    bottom <= o.spec_row_count(),
                    right <= o.spec_col_count(),
                    b.spec_span_count() == o.spec_span_count() + 1,
                    forall|i: int|
                        0 <= i < o.spec_span_count() ==> b.spec_span(i) == o.spec_span(i),
                    b.spec_span(o.spec_span_count()) == props,
                decreases right - cc,
            {
                let ghost prev = b;
                b.props.rows[rr].cells[cc] = StripeCell::Span;
                b.props.cols[cc].cells[rr] = StripeCell::Span;
                proof {
                    lemma_paired_write(prev, b, rr as int, cc as int, StripeCell::Span);
                }
                cc = cc + 1;
            }
            rr = rr + 1;
        }
        b
    }

    /// Marks the footprint as intentionally empty.
    pub(crate) fn apply_skip(self, props: CellProperties) -> (r: GridBuilder)
        requires
            self.wf(),
            props.row_span >= 1,
            props.col_span >= 1,
            props.row + props.row_span <= self.spec_row_count(),
            props.col + props.col_span <= self.spec_col_count(),
        ensures
            skip_applied(&self, &r, props),
    {
        let ghost o = self;
        let mut b = self;
        let top = props.row;
        let bottom = top + props.row_span;
        let left = props.col;
        let right = left + props.col_span;
        let mut rr = top;
        while rr < bottom
            invariant
                top == props.row,
                left == props.col,
                top <= rr <= bottom,
                mark_loop_frame(&o, &b, props),
                GridBuilder::same_content(&o, &b),
                forall|r1: int, c1: int|
                    top <= r1 < rr && left <= c1 < right ==> b.spec_occupancy(r1, c1)
                        == StripeCell::Skipped,
                forall|r1: int, c1: int|
                    0 <= r1 < o.spec_row_count() && 0 <= c1 < o.spec_col_count() && !(top <= r1
                        < rr && left <= c1 < right) ==> b.spec_occupancy(r1, c1)
                        == o.spec_occupancy(r1, c1),
                bottom == props.row + props.row_span,
                right == props.col + props.col_span,
                bottom <= o.spec_row_count(),
                right <= o.spec_col_count(),
            decreases bottom - rr,
        {
            let mut cc = left;
            while cc < right
                invariant
                    top == props.row,
                    left == props.col,
                    top <= rr < bottom,
                    left <= cc <= right,
                    mark_loop_frame(&o, &b, props),
                    GridBuilder::same_content(&o, &b),
                    forall|r1: int, c1: int|
                        top <= r1 < rr && left <= c1 < right ==> b.spec_occupancy(r1, c1)
                            == StripeCell::Skipped,
                    forall|c1: int|
                        left <= c1 < cc ==> b.spec_occupancy(rr as int, c1) == StripeCell::Skipped,
                    forall|r1: int, c1: int|
                        0 <= r1 < o.spec_row_count() && 0 <= c1 < o.spec_col_count() && !(top <= r1
                            < rr && left <= c1 < right) && !(r1 == rr as int && left <= c1 < cc)
                            ==> b.spec_occupancy(r1, c1) == o.spec_occupancy(r1, c1),
                    bottom == props.row + props.row_span,
                    right == props.col + props.col_span,
                    bottom <= o.spec_row_count(),
                    right <= o.spec_col_count(),
                decreases right - cc,
            {
                let ghost prev = b;
                b.props.rows[rr].cells[cc] = StripeCell::Skipped;
                b.props.cols[cc].cells[rr] = StripeCell::Skipped;
                proof {
                    lemma_paired_write(prev, b, rr as int, cc as int, StripeCell::Skipped);
                }
                cc = cc + 1;
            }
            rr = rr + 1;
        }
        b
    }

    /// Appends one stripe group.
    pub(crate) fn push_group(self, props: StripeProperties) -> (r: (GridBuilder, usize))
        requires
            self.wf(),
            props.min_size >= 0,
        ensures
            group_added(&self, &r.0, props),
            r.1 as int == self.spec_group_count(),
    {
        let mut b = self;
        let idx = b.props.groups.len();
        b.props.groups.push(props);
        (b, idx)
    }

    /// Appends `count` stripes to one axis, each with entirely free
    /// occupancy, joined to the shared group or each given a fresh one.
    pub(crate) fn push_stripes(
        self,
        kind: StripeKind,
        props: StripeProperties,
        group_idx: Option<usize>,
        default_align: CellAlign,
        count: usize,
    ) -> (r: GridBuilder)
        requires
            self.wf(),
            props.min_size >= 0,
            match group_idx {
                Some(g) => g < self.spec_group_count(),
                None => true,
            },
            kind == StripeKind::Row ==> self.spec_row_count() + count <= i32::MAX,
            kind == StripeKind::Column ==> self.spec_col_count() + count <= i32::MAX,
        ensures
            stripes_added(&self, &r, kind, props, group_idx, count as int),
    {
        let ghost o = self;
        let mut owner = self;
        let mut t: usize = 0;
        while t < count
            invariant
                t <= count,
                o.wf(),
                props.min_size >= 0,
                match group_idx {
                    Some(g) => g < o.spec_group_count(),
                    None => true,
                },
                kind == StripeKind::Row ==> o.spec_row_count() + count <= i32::MAX,
                kind == StripeKind::Column ==> o.spec_col_count() + count <= i32::MAX,
                stripes_added(&o, &owner, kind, props, group_idx, t as int),
            decreases count - t,
        {
            let ghost mid = owner;
            let group = match group_idx {
                Some(g) => g,
                None => {
                    let idx = owner.props.groups.len();
                    owner.props.groups.push(props);
                    idx
                },
            };
            match kind {
                StripeKind::Row => {
                    let n_perp = owner.props.cols.len();
                    let ghost pre = owner;
                    let mut j: usize = 0;
                    while j < n_perp
                        invariant
                            j <= n_perp,
                            n_perp == pre.props.cols@.len(),
                            owner.props.cols@.len() == pre.props.cols@.len(),
                            forall|jj: int|
                                0 <= jj < j ==> (#[trigger] owner.props.cols@[jj]).cells@
                                    == pre.props.cols@[jj].cells@.push(StripeCell::Free)
                                    && owner.props.cols@[jj].group_idx
                                    == pre.props.cols@[jj].group_idx,
                            forall|jj: int|
                                j <= jj < n_perp ==> #[trigger] owner.props.cols@[jj]
                                    == pre.props.cols@[jj],
                            owner.props.rows@ == pre.props.rows@,
                            owner.props.groups@ == pre.props.groups@,
                            owner.props.cells@ == pre.props.cells@,
                            owner.props.spans@ == pre.props.spans@,
                            owner.props.padding == pre.props.padding,
                            owner.props.row_spacing == pre.props.row_spacing,
                            owner.props.col_spacing == pre.props.col_spacing,
                            owner.default_row_align@ == pre.default_row_align@,
                            owner.default_col_align@ == pre.default_col_align@,
                            owner.default_cell_padding == pre.default_cell_padding,
                            owner.next_row == pre.next_row,
                            owner.next_col == pre.next_col,
                        decreases n_perp - j,
                    {
                        owner.props.cols[j].cells.push(StripeCell::Free);
                        j = j + 1;
                    }
                    let mut occ: Vec<StripeCell> = Vec::new();
                    let mut c: usize = 0;
                    while c < n_perp
                        invariant
                            c <= n_perp,
                            occ@.len() == c,
                            forall|cc: int| 0 <= cc < c ==> #[trigger] occ@[cc] == StripeCell::Free,
                        decreases n_perp - c,
                    {
                        occ.push(StripeCell::Free);
                        c = c + 1;
                    }
                    owner.props.rows.push(Stripe { cells: occ, group_idx: group });
                    owner.default_row_align.push(default_align);
                    proof {
                        assert(pre.wf());
                        lemma_stripe_appended_row(pre, owner, group as int);
                        let ghost t1 = t as int + 1;
                        let ghost orc = o.spec_row_count();
                        assert forall|tt: int, c0: int|
                            0 <= tt < t1 && 0 <= c0 < o.spec_col_count() implies #[trigger] owner.spec_occupancy(
                            orc + tt,
                            c0,
                        ) == StripeCell::Free by {
                            if tt < t as int {
                                assert(mid.spec_occupancy(orc + tt, c0) == StripeCell::Free);
                                assert(pre.spec_occupancy(orc + tt, c0) == StripeCell::Free);
                            }
                        }
                        assert forall|tt: int|
                            0 <= tt < t1 implies #[trigger] owner.spec_row_group(orc + tt) == (
                        match group_idx {
                            Some(g) => g as int,
                            None => o.spec_group_count() + tt,
                        }) by {
                            if tt < t as int {
                                assert(mid.spec_row_group(orc + tt) == (match group_idx {
                                    Some(g) => g as int,
                                    None => o.spec_group_count() + tt,
                                }));
                                assert(pre.spec_row_group(orc + tt) == mid.spec_row_group(orc + tt));
                            }
                        }
                        match group_idx {
                            None => {
                                assert forall|tt: int|
                                    0 <= tt < t1 implies #[trigger] owner.spec_group(
                                    o.spec_group_count() + tt,
                                ) == props by {
                                    if tt < t as int {
                                        assert(mid.spec_group(o.spec_group_count() + tt) == props);
                                        assert(pre.props.groups@[o.spec_group_count() + tt]
                                            == mid.props.groups@[o.spec_group_count() + tt]);
                                    } else {
                                        assert(pre.props.groups@[mid.props.groups@.len() as int]
                                            == props);
                                    }
                                }
                            },
                            Some(_) => {},
                        }
                        assert forall|g: int|
                            0 <= g < o.spec_group_count() implies #[trigger] owner.spec_group(g)
                            == o.spec_group(g) by {
                            assert(mid.spec_group(g) == o.spec_group(g));
                            assert(pre.props.groups@[g] == mid.props.groups@[g]);
                        }
                        assert(stripes_added(&o, &owner, kind, props, group_idx, t1));
                    }
                },
                StripeKind::Column => {
                    let n_perp = owner.props.rows.len();
                    let ghost pre = owner;
                    let mut j: usize = 0;
                    while j < n_perp
                        invariant
                            j <= n_perp,
                            n_perp == pre.props.rows@.len(),
                            owner.props.rows@.len() == pre.props.rows@.len(),
                            forall|jj: int|
                                0 <= jj < j ==> (#[trigger] owner.props.rows@[jj]).cells@
                                    == pre.props.rows@[jj].cells@.push(StripeCell::Free)
                                    && owner.props.rows@[jj].group_idx
                                    == pre.props.rows@[jj].group_idx,
                            forall|jj: int|
                                j <= jj < n_perp ==> #[trigger] owner.props.rows@[jj]
                                    == pre.props.rows@[jj],
                            owner.props.cols@ == pre.props.cols@,
                            owner.props.groups@ == pre.props.groups@,
                            owner.props.cells@ == pre.props.cells@,
                            owner.props.spans@ == pre.props.spans@,
                            owner.props.padding == pre.props.padding,
                            owner.props.row_spacing == pre.props.row_spacing,
                            owner.props.col_spacing == pre.props.col_spacing,
                            owner.default_row_align@ == pre.default_row_align@,
                            owner.default_col_align@ == pre.default_col_align@,
                            owner.default_cell_padding == pre.default_cell_padding,
                            owner.next_row == pre.next_row,
                            owner.next_col == pre.next_col,
                        decreases n_perp - j,
                    {
                        owner.props.rows[j].cells.push(StripeCell::Free);
                        j = j + 1;
                    }
                    let mut occ: Vec<StripeCell> = Vec::new();
                    let mut r0: usize = 0;
                    while r0 < n_perp
                        invariant
                            r0 <= n_perp,
                            occ@.len() == r0,
                            forall|cc: int| 0 <= cc < r0 ==> #[trigger] occ@[cc] == StripeCell::Free,
                        decreases n_perp - r0,
                    {
                        occ.push(StripeCell::Free);
                        r0 = r0 + 1;
                    }
                    owner.props.cols.push(Stripe { cells: occ, group_idx: group });
                    owner.default_col_align.push(default_align);
                    proof {
                        assert(pre.wf());
                        lemma_stripe_appended_col(pre, owner, group as int);
                        let ghost t1 = t as int + 1;
                        let ghost occ0 = o.spec_col_count();
                        assert forall|tt: int, r1: int|
                            0 <= tt < t1 && 0 <= r1 < o.spec_row_count() implies #[trigger] owner.spec_occupancy(
                            r1,
                            occ0 + tt,
                        ) == StripeCell::Free by {
                            if tt < t as int {
                                assert(mid.spec_occupancy(r1, occ0 + tt) == StripeCell::Free);
                                assert(pre.spec_occupancy(r1, occ0 + tt) == StripeCell::Free);
                            }
                        }
                        assert forall|tt: int|
                            0 <= tt < t1 implies #[trigger] owner.spec_col_group(occ0 + tt) == (
                        match group_idx {
                            Some(g) => g as int,
                            None => o.spec_group_count() + tt,
                        }) by {
                            if tt < t as int {
                                assert(mid.spec_col_group(occ0 + tt) == (match group_idx {
                                    Some(g) => g as int,
                                    None => o.spec_group_count() + tt,
                                }));
                                assert(pre.spec_col_group(occ0 + tt) == mid.spec_col_group(occ0 + tt));
                            }
                        }
                        match group_idx {
                            None => {
                                assert forall|tt: int|
                                    0 <= tt < t1 implies #[trigger] owner.spec_group(
                                    o.spec_group_count() + tt,
                                ) == props by {
                                    if tt < t as int {
                                        assert(mid.spec_group(o.spec_group_count() + tt) == props);
                                        assert(pre.props.groups@[o.spec_group_count() + tt]
                                            == mid.props.groups@[o.spec_group_count() + tt]);
                                    } else {
                                        assert(pre.props.groups@[mid.props.groups@.len() as int]
                                            == props);
                                    }
                                }
                            },
                            Some(_) => {},
                        }
                        assert forall|g: int|
                            0 <= g < o.spec_group_count() implies #[trigger] owner.spec_group(g)
                            == o.spec_group(g) by {
                            assert(mid.spec_group(g) == o.spec_group(g));
                            assert(pre.props.groups@[g] == mid.props.groups@[g]);
                        }
                        assert(stripes_added(&o, &owner, kind, props, group_idx, t1));
                    }
                },
            }
            t = t + 1;
        }
        owner
    }
}

/// What stays fixed while a footprint is being marked: the stripes,
/// groups, configuration and the placed cell list.
pub open spec fn mark_loop_frame(o: &GridBuilder, b: &GridBuilder, props: CellProperties) -> bool {
    &&& b.wf()
    &&& placement_frame(o, b)
    &&& b.spec_cell_count() == o.spec_cell_count()
    &&& forall|i: int| 0 <= i < o.spec_cell_count() ==> b.spec_cell(i) == o.spec_cell(i)
}

/// Appending one row with entirely free occupancy, after each column's
/// occupancy gained one free slot, keeps the builder consistent and
/// leaves everything previously declared untouched.
proof fn lemma_stripe_appended_row(pre: GridBuilder, after: GridBuilder, group: int)
    requires
        pre.wf(),
        0 <= group < pre.props.groups@.len(),
        pre.props.rows@.len() + 1 <= i32::MAX,
        after.props.rows@.len() == pre.props.rows@.len() + 1,
        forall|r1: int|
            0 <= r1 < pre.props.rows@.len() ==> #[trigger] after.props.rows@[r1]
                == pre.props.rows@[r1],
        after.props.rows@[pre.props.rows@.len() as int].cells@.len() == pre.props.cols@.len(),
        forall|c1: int|
            0 <= c1 < pre.props.cols@.len()
                ==> #[trigger] after.props.rows@[pre.props.rows@.len() as int].cells@[c1]
                == StripeCell::Free,
        after.props.rows@[pre.props.rows@.len() as int].group_idx == group,
        after.props.cols@.len() == pre.props.cols@.len(),
        forall|j: int|
            0 <= j < pre.props.cols@.len() ==> (#[trigger] after.props.cols@[j]).cells@
                == pre.props.cols@[j].cells@.push(StripeCell::Free)
                && after.props.cols@[j].group_idx == pre.props.cols@[j].group_idx,
        after.props.groups@ == pre.props.groups@,
        after.props.cells@ == pre.props.cells@,
        after.props.spans@ == pre.props.spans@,
        after.props.padding == pre.props.padding,
        after.props.row_spacing == pre.props.row_spacing,
        after.props.col_spacing == pre.props.col_spacing,
        after.default_row_align@.len() == pre.default_row_align@.len() + 1,
        after.default_col_align@ == pre.default_col_align@,
        after.default_cell_padding == pre.default_cell_padding,
        after.next_row == pre.next_row,
        after.next_col == pre.next_col,
    ensures
        after.wf(),
        after.spec_row_count() == pre.spec_row_count() + 1,
        after.spec_col_count() == pre.spec_col_count(),
        after.spec_group_count() == pre.spec_group_count(),
        forall|g: int| 0 <= g < pre.spec_group_count() ==> after.spec_group(g) == pre.spec_group(g),
        forall|r1: int|
            0 <= r1 < pre.spec_row_count() ==> after.spec_row_group(r1) == pre.spec_row_group(r1),
        forall|c1: int|
            0 <= c1 < pre.spec_col_count() ==> after.spec_col_group(c1) == pre.spec_col_group(c1),
        forall|r1: int, c1: int|
            0 <= r1 < pre.spec_row_count() && 0 <= c1 < pre.spec_col_count()
                ==> after.spec_occupancy(r1, c1) == pre.spec_occupancy(r1, c1),
        forall|c1: int|
            0 <= c1 < pre.spec_col_count() ==> after.spec_occupancy(pre.spec_row_count(), c1)
                == StripeCell::Free,
        after.spec_row_group(pre.spec_row_count()) == group,
        GridBuilder::same_content(&pre, &after),
        GridBuilder::same_config(&pre, &after),
        after.spec_padding() == pre.spec_padding(),
        after.spec_row_spacing() == pre.spec_row_spacing(),
        after.spec_col_spacing() == pre.spec_col_spacing(),
        after.spec_default_cell_padding() == pre.spec_default_cell_padding(),
{
    let old_n = pre.props.rows@.len() as int;
    assert forall|k: int|
        0 <= k < after.props.rows@.len() implies (#[trigger] after.props.rows@[k]).group_idx
        < after.props.groups@.len() && after.props.rows@[k].cells@.len()
        == after.props.cols@.len() && occ_wf(after.props.rows@[k].cells@, after.props.cells@.len() as int) by {
        if k < old_n {
            assert(after.props.rows@[k] == pre.props.rows@[k]);
        }
    }
    assert forall|k: int|
        0 <= k < after.props.cols@.len() implies (#[trigger] after.props.cols@[k]).group_idx
        < after.props.groups@.len() && after.props.cols@[k].cells@.len()
        == after.props.rows@.len() && occ_wf(after.props.cols@[k].cells@, after.props.cells@.len() as int) by {
        assert(after.props.cols@[k].cells@ == pre.props.cols@[k].cells@.push(StripeCell::Free));
        assert forall|p: int|
            0 <= p < after.props.cols@[k].cells@.len() implies match #[trigger] after.props.cols@[k].cells@[p] {
            StripeCell::Cell(idx) => idx < after.props.cells@.len(),
            _ => true,
        } by {
            if p < pre.props.cols@[k].cells@.len() {
                assert(after.props.cols@[k].cells@[p] == pre.props.cols@[k].cells@[p]);
            }
        }
    }
    assert forall|r1: int, c1: int|
        0 <= r1 < after.props.rows@.len() && 0 <= c1 < after.props.cols@.len()
        implies (#[trigger] after.props.rows@[r1].cells@[c1]) == after.props.cols@[c1].cells@[r1] by {
        if r1 < old_n {
            assert(after.props.rows@[r1] == pre.props.rows@[r1]);
            assert(after.props.cols@[c1].cells@[r1] == pre.props.cols@[c1].cells@[r1]);
        } else {
            assert(after.props.rows@[r1].cells@[c1] == StripeCell::Free);
            assert(after.props.cols@[c1].cells@[r1] == StripeCell::Free);
        }
    }
    assert forall|r1: int, c1: int|
        0 <= r1 < pre.spec_row_count() && 0 <= c1 < pre.spec_col_count()
        implies after.spec_occupancy(r1, c1) == pre.spec_occupancy(r1, c1) by {
        assert(after.props.rows@[r1] == pre.props.rows@[r1]);
    }
    assert(props_wf(after.props));
}

/// Appending one column with entirely free occupancy, after each row's
/// occupancy gained one free slot, keeps the builder consistent and
/// leaves everything previously declared untouched.
proof fn lemma_stripe_appended_col(pre: GridBuilder, after: GridBuilder, group: int)
    requires
        pre.wf(),
        0 <= group < pre.props.groups@.len(),
        pre.props.cols@.len() + 1 <= i32::MAX,
        after.props.cols@.len() == pre.props.cols@.len() + 1,
        forall|c1: int|
            0 <= c1 < pre.props.cols@.len() ==> #[trigger] after.props.cols@[c1]
                == pre.props.cols@[c1],
        after.props.cols@[pre.props.cols@.len() as int].cells@.len() == pre.props.rows@.len(),
        forall|r1: int|
            0 <= r1 < pre.props.rows@.len()
                ==> #[trigger] after.props.cols@[pre.props.cols@.len() as int].cells@[r1]
                == StripeCell::Free,
        after.props.cols@[pre.props.cols@.len() as int].group_idx == group,
        after.props.rows@.len() == pre.props.rows@.len(),
        forall|j: int|
            0 <= j < pre.props.rows@.len() ==> (#[trigger] after.props.rows@[j]).cells@
                == pre.props.rows@[j].cells@.push(StripeCell::Free)
                && after.props.rows@[j].group_idx == pre.props.rows@[j].group_idx,
        after.props.groups@ == pre.props.groups@,
        after.props.cells@ == pre.props.cells@,
        after.props.spans@ == pre.props.spans@,
        after.props.padding == pre.props.padding,
        after.props.row_spacing == pre.props.row_spacing,
        after.props.col_spacing == pre.props.col_spacing,
        after.default_col_align@.len() == pre.default_col_align@.len() + 1,
        after.default_row_align@ == pre.default_row_align@,
        after.default_cell_padding == pre.default_cell_padding,
        after.next_row == pre.next_row,
        after.next_col == pre.next_col,
    ensures
        after.wf(),
        after.spec_col_count() == pre.spec_col_count() + 1,
        after.spec_row_count() == pre.spec_row_count(),
        after.spec_group_count() == pre.spec_group_count(),
        forall|g: int| 0 <= g < pre.spec_group_count() ==> after.spec_group(g) == pre.spec_group(g),
        forall|r1: int|
            0 <= r1 < pre.spec_row_count() ==> after.spec_row_group(r1) == pre.spec_row_group(r1),
        forall|c1: int|
            0 <= c1 < pre.spec_col_count() ==> after.spec_col_group(c1) == pre.spec_col_group(c1),
        forall|r1: int, c1: int|
            0 <= r1 < pre.spec_row_count() && 0 <= c1 < pre.spec_col_count()
                ==> after.spec_occupancy(r1, c1) == pre.spec_occupancy(r1, c1),
        forall|r1: int|
            0 <= r1 < pre.spec_row_count() ==> after.spec_occupancy(r1, pre.spec_col_count())
                == StripeCell::Free,
        after.spec_col_group(pre.spec_col_count()) == group,
        GridBuilder::same_content(&pre, &after),
        GridBuilder::same_config(&pre, &after),
        after.spec_padding() == pre.spec_padding(),
        after.spec_row_spacing() == pre.spec_row_spacing(),
        after.spec_col_spacing() == pre.spec_col_spacing(),
        after.spec_default_cell_padding() == pre.spec_default_cell_padding(),
{
    let old_n = pre.props.cols@.len() as int;
    assert forall|k: int|
        0 <= k < after.props.cols@.len() implies (#[trigger] after.props.cols@[k]).group_idx
        < after.props.groups@.len() && after.props.cols@[k].cells@.len()
        == after.props.rows@.len() && occ_wf(after.props.cols@[k].cells@, after.props.cells@.len() as int) by {
        if k < old_n {
            assert(after.props.cols@[k] == pre.props.cols@[k]);
        }
    }
    assert forall|k: int|
        0 <= k < after.props.rows@.len() implies (#[trigger] after.props.rows@[k]).group_idx
        < after.props.groups@.len() && after.props.rows@[k].cells@.len()
        == after.props.cols@.len() && occ_wf(after.props.rows@[k].cells@, after.props.cells@.len() as int) by {
        assert(after.props.rows@[k].cells@ == pre.props.rows@[k].cells@.push(StripeCell::Free));
        assert forall|p: int|
            0 <= p < after.props.rows@[k].cells@.len() implies match #[trigger] after.props.rows@[k].cells@[p] {
            StripeCell::Cell(idx) => idx < after.props.cells@.len(),
            _ => true,
        } by {
            if p < pre.props.rows@[k].cells@.len() {
                assert(after.props.rows@[k].cells@[p] == pre.props.rows@[k].cells@[p]);
            }
        }
    }
    assert forall|r1: int, c1: int|
        0 <= r1 < after.props.rows@.len() && 0 <= c1 < after.props.cols@.len()
        implies (#[trigger] after.props.rows@[r1].cells@[c1]) == after.props.cols@[c1].cells@[r1] by {
        if c1 < old_n {
            assert(after.props.cols@[c1] == pre.props.cols@[c1]);
            assert(after.props.rows@[r1].cells@[c1] == pre.props.rows@[r1].cells@[c1]);
        } else {
            assert(after.props.rows@[r1].cells@[c1] == StripeCell::Free);
            assert(after.props.cols@[c1].cells@[r1] == StripeCell::Free);
        }
    }
    assert forall|r1: int, c1: int|
        0 <= r1 < pre.spec_row_count() && 0 <= c1 < pre.spec_col_count()
        implies after.spec_occupancy(r1, c1) == pre.spec_occupancy(r1, c1) by {
        assert(after.props.rows@[r1].cells@[c1] == pre.props.rows@[r1].cells@[c1]);
    }
    assert(props_wf(after.props));
}

} // verus!
