//! Facts about counting cells.

use vstd::prelude::*;
use crate::board::{count_cells, count_in_row, in_bounds, with_cell};
use crate::cell::Cell;

verus! {

/// 1 for `true`, 0 for `false`.
pub open spec fn indicator(b: bool) -> nat {
    if b {
        1
    } else {
        0
    }
}

/// The count over the first `c + 1` cells of a row is the count over the
/// first `c` plus what the cell at `c` adds.
pub proof fn lemma_row_prefix_step(row: Seq<Cell>, pick: spec_fn(Cell) -> bool, c: int)
    requires
        0 <= c < row.len(),
    ensures
        count_in_row(row.take(c + 1), pick) == count_in_row(row.take(c), pick) + indicator(
            pick(row[c]),
        ),
{
    assert(row.take(c + 1).drop_last() =~= row.take(c));
}

/// The count over the first `r + 1` rows is the count over the first `r`
/// plus the count of row `r`.
pub proof fn lemma_grid_prefix_step(cells: Seq<Seq<Cell>>, pick: spec_fn(Cell) -> bool, r: int)
    requires
        0 <= r < cells.len(),
    ensures
        count_cells(cells.take(r + 1), pick) == count_cells(cells.take(r), pick) + count_in_row(
            cells[r],
            pick,
        ),
{
    assert(cells.take(r + 1).drop_last() =~= cells.take(r));
}

/// Replacing one cell of a row changes the count by what the old cell gave
/// and the new cell gives.
pub proof fn lemma_row_count_update(
    row: Seq<Cell>,
    pick: spec_fn(Cell) -> bool,
    c: int,
    cell: Cell,
)
    requires
        0 <= c < row.len(),
    ensures
        count_in_row(row.update(c, cell), pick) + indicator(pick(row[c])) == count_in_row(row, pick)
            + indicator(pick(cell)),
    decreases row.len(),
{
    let changed = row.update(c, cell);
    if c == row.len() - 1 {
        assert(changed.drop_last() =~= row.drop_last());
    } else {
        assert(changed.drop_last() =~= row.drop_last().update(c, cell));
        lemma_row_count_update(row.drop_last(), pick, c, cell);
    }
}

/// Replacing one cell of the grid changes the count by what the old cell
/// gave and the new cell gives.
pub proof fn lemma_grid_count_update(
    cells: Seq<Seq<Cell>>,
    pick: spec_fn(Cell) -> bool,
    r: int,
    c: int,
    cell: Cell,
)
    requires
        in_bounds(cells, r, c),
    ensures
        count_cells(with_cell(cells, r, c, cell), pick) + indicator(pick(cells[r][c]))
            == count_cells(cells, pick) + indicator(pick(cell)),
    decreases cells.len(),
{
    let changed = with_cell(cells, r, c, cell);
    if r == cells.len() - 1 {
        assert(changed.drop_last() =~= cells.drop_last());
        lemma_row_count_update(cells[r], pick, c, cell);
    } else {
        assert(changed.drop_last() =~= with_cell(cells.drop_last(), r, c, cell));
        lemma_grid_count_update(cells.drop_last(), pick, r, c, cell);
    }
}

/// If `pick_a` says of every cell of row `a` what `pick_b` says of the cell
/// of row `b` in its place, the two counts agree.
pub proof fn lemma_row_count_same(
    a: Seq<Cell>,
    pick_a: spec_fn(Cell) -> bool,
    b: Seq<Cell>,
    pick_b: spec_fn(Cell) -> bool,
)
    requires
        a.len() == b.len(),
        forall|c: int| 0 <= c < a.len() ==> pick_a(#[trigger] a[c]) == pick_b(b[c]),
    ensures
        count_in_row(a, pick_a) == count_in_row(b, pick_b),
    decreases a.len(),
{
    if a.len() > 0 {
        lemma_row_count_same(a.drop_last(), pick_a, b.drop_last(), pick_b);
    }
}

/// If `pick_a` says of every cell of grid `a` what `pick_b` says of the cell
/// of grid `b` in its place, the two counts agree.
pub proof fn lemma_grid_count_same(
    a: Seq<Seq<Cell>>,
    pick_a: spec_fn(Cell) -> bool,
    b: Seq<Seq<Cell>>,
    pick_b: spec_fn(Cell) -> bool,
)
    requires
        a.len() == b.len(),
        forall|r: int| 0 <= r < a.len() ==> (#[trigger] a[r]).len() == b[r].len(),
        forall|r: int, c: int|
            in_bounds(a, r, c) ==> pick_a(#[trigger] a[r][c]) == pick_b(b[r][c]),
    ensures
        count_cells(a, pick_a) == count_cells(b, pick_b),
    decreases a.len(),
{
    if a.len() > 0 {
        lemma_grid_count_same(a.drop_last(), pick_a, b.drop_last(), pick_b);
        lemma_row_count_same(a.last(), pick_a, b.last(), pick_b);
    }
}

/// A cell of a row that satisfies `pick` makes the row's count positive.
pub proof fn lemma_row_count_positive(row: Seq<Cell>, pick: spec_fn(Cell) -> bool, c: int)
    requires
        0 <= c < row.len(),
        pick(row[c]),
    ensures
        count_in_row(row, pick) > 0,
    decreases row.len(),
{
    if c < row.len() - 1 {
        lemma_row_count_positive(row.drop_last(), pick, c);
    }
}

/// A cell of the grid that satisfies `pick` makes the grid's count positive.
pub proof fn lemma_grid_count_positive(
    cells: Seq<Seq<Cell>>,
    pick: spec_fn(Cell) -> bool,
    r: int,
    c: int,
)
    requires
        in_bounds(cells, r, c),
        pick(cells[r][c]),
    ensures
        count_cells(cells, pick) > 0,
    decreases cells.len(),
{
    if r < cells.len() - 1 {
        lemma_grid_count_positive(cells.drop_last(), pick, r, c);
    } else {
        lemma_row_count_positive(cells[r], pick, c);
    }
}

/// A positive count of a row has a cell to show for it.
pub proof fn lemma_row_count_witness(row: Seq<Cell>, pick: spec_fn(Cell) -> bool) -> (c: int)
    requires
        count_in_row(row, pick) > 0,
    ensures
        0 <= c < row.len(),
        pick(row[c]),
    decreases row.len(),
{
    if pick(row.last()) {
        row.len() - 1
    } else {
        lemma_row_count_witness(row.drop_last(), pick)
    }
}

/// A positive count of the grid has a cell to show for it.
pub proof fn lemma_grid_count_witness(cells: Seq<Seq<Cell>>, pick: spec_fn(Cell) -> bool) -> (at: (
    int,
    int,
))
    requires
        count_cells(cells, pick) > 0,
    ensures
        in_bounds(cells, at.0, at.1),
        pick(cells[at.0][at.1]),
    decreases cells.len(),
{
    if count_in_row(cells.last(), pick) > 0 {
        let c = lemma_row_count_witness(cells.last(), pick);
        (cells.len() - 1, c)
    } else {
        lemma_grid_count_witness(cells.drop_last(), pick)
    }
}

/// In a row, the cells that satisfy `pick` and those that satisfy its
/// opposite add up to the row.
pub proof fn lemma_row_count_split(
    row: Seq<Cell>,
    pick: spec_fn(Cell) -> bool,
    other: spec_fn(Cell) -> bool,
)
    requires
        forall|cell: Cell| #[trigger] other(cell) == !pick(cell),
    ensures
        count_in_row(row, pick) + count_in_row(row, other) == row.len(),
    decreases row.len(),
{
    if row.len() > 0 {
        lemma_row_count_split(row.drop_last(), pick, other);
    }
}

/// In a grid whose rows have `width` cells, the cells that satisfy `pick`
/// and those that satisfy its opposite add up to the grid.
pub proof fn lemma_grid_count_split(
    cells: Seq<Seq<Cell>>,
    pick: spec_fn(Cell) -> bool,
    other: spec_fn(Cell) -> bool,
    width: nat,
)
    requires
        forall|r: int| 0 <= r < cells.len() ==> (#[trigger] cells[r]).len() == width,
        forall|cell: Cell| #[trigger] other(cell) == !pick(cell),
    ensures
        count_cells(cells, pick) + count_cells(cells, other) == cells.len() * width,
    decreases cells.len(),
{
    if cells.len() > 0 {
        let rest = cells.drop_last();
        lemma_grid_count_split(rest, pick, other, width);
        lemma_row_count_split(cells.last(), pick, other);
        assert(cells.len() * width == rest.len() * width + width) by (nonlinear_arith)
            requires
                cells.len() == rest.len() + 1,
        ;
    } else {
        assert(cells.len() * width == 0) by (nonlinear_arith)
            requires
                cells.len() == 0,
        ;
    }
}

} // verus!
