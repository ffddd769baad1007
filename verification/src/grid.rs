//! The stored grid: rows of cells in vectors, and the scans over them.

use vstd::prelude::*;
use crate::board::{
    adjacency_exact, count_cells, if_inside, in_bounds, is_safe_cell, is_square, mine_at,
    neighbor_mines, neighbors, positions, with_cell,
};
use crate::cell::Cell;
use crate::counting::lemma_grid_count_witness;
use crate::neighborhood::{lemma_neighbor_mines_bound, lemma_neighbor_mines_same};
use crate::setup::{is_start_cell, laid_out, row_major_before, with_counts};

verus! {

/// The rows of a stored grid as sequences.
pub open spec fn rows_of(grid: Seq<Vec<Cell>>) -> Seq<Seq<Cell>> {
    Seq::new(grid.len(), |r: int| grid[r]@)
}

/// The position `(row, col)` as the contracts see it, or nothing where a
/// coordinate has run off the range of machine integers.
pub open spec fn spot(row: Option<usize>, col: Option<usize>) -> Option<(int, int)> {
    match (row, col) {
        (Some(r), Some(c)) => Some((r as int, c as int)),
        _ => None,
    }
}

/// Cells of a stored grid have coordinates below the largest machine
/// integer.
proof fn lemma_grid_fits(grid: &Vec<Vec<Cell>>)
    ensures
        forall|r: int, c: int|
            #[trigger] in_bounds(rows_of(grid@), r, c) ==> r < usize::MAX && c < usize::MAX,
{
    let cells = rows_of(grid@);
    assert forall|r: int, c: int| #[trigger] in_bounds(cells, r, c) implies r < usize::MAX && c
        < usize::MAX by {
        assert(cells.len() == grid.len());
        assert(cells[r].len() == grid@[r].len());
    }
}

/// A bare grid of side `size` without any mine.
pub(crate) fn blank_grid(size: usize) -> (grid: Vec<Vec<Cell>>)
    ensures
        rows_of(grid@) == laid_out(size as nat, Seq::empty()),
{
    let grid = vec![vec![Cell::new(); size]; size];
    assert(rows_of(grid@) =~~= laid_out(size as nat, Seq::empty()));
    grid
}

/// The cell at `(row, col)`.
pub(crate) fn cell_at(grid: &Vec<Vec<Cell>>, row: usize, col: usize) -> (cell: Cell)
    requires
        in_bounds(rows_of(grid@), row as int, col as int),
    ensures
        cell == rows_of(grid@)[row as int][col as int],
{
    grid[row][col]
}

/// Replaces the cell at `(row, col)`.
pub(crate) fn set_cell(grid: &mut Vec<Vec<Cell>>, row: usize, col: usize, cell: Cell)
    requires
        in_bounds(rows_of(old(grid)@), row as int, col as int),
    ensures
        rows_of(final(grid)@) == with_cell(rows_of(old(grid)@), row as int, col as int, cell),
{
    grid[row][col] = cell;
}

/// 1 if `(row, col)` is a cell of the grid that holds a mine, else 0.
fn is_mine_at(grid: &Vec<Vec<Cell>>, row: Option<usize>, col: Option<usize>) -> (m: u8)
    ensures
        m == match spot(row, col) {
            Some(at) => mine_at(rows_of(grid@), at.0, at.1),
            None => 0,
        },
{
    match (row, col) {
        (Some(r), Some(c)) => {
            if r < grid.len() && c < grid[r].len() && grid[r][c].is_mine {
                1
            } else {
                0
            }
        },
        _ => 0,
    }
}

/// Counts the mines around `(row, col)`.
pub(crate) fn count_adjacent_mines(grid: &Vec<Vec<Cell>>, row: usize, col: usize) -> (count: u8)
    ensures
        count == neighbor_mines(rows_of(grid@), row as int, col as int),
{
    let ghost cells = rows_of(grid@);
    let ghost r = row as int;
    let ghost c = col as int;
    proof {
        lemma_grid_fits(grid);
    }
    let up = row.checked_sub(1);
    let down = row.checked_add(1);
    let left = col.checked_sub(1);
    let right = col.checked_add(1);
    let up_left = is_mine_at(grid, up, left);
    assert(up_left == mine_at(cells, r - 1, c - 1));
    let up_mid = is_mine_at(grid, up, Some(col));
    assert(up_mid == mine_at(cells, r - 1, c));
    let up_right = is_mine_at(grid, up, right);
    assert(up_right == mine_at(cells, r - 1, c + 1));
    let mid_left = is_mine_at(grid, Some(row), left);
    assert(mid_left == mine_at(cells, r, c - 1));
    let mid_right = is_mine_at(grid, Some(row), right);
    assert(mid_right == mine_at(cells, r, c + 1));
    let down_left = is_mine_at(grid, down, left);
    assert(down_left == mine_at(cells, r + 1, c - 1));
    let down_mid = is_mine_at(grid, down, Some(col));
    assert(down_mid == mine_at(cells, r + 1, c));
    let down_right = is_mine_at(grid, down, right);
    assert(down_right == mine_at(cells, r + 1, c + 1));
    proof {
        reveal(neighbor_mines);
    }
    up_left + up_mid + up_right + mid_left + mid_right + down_left + down_mid + down_right
}

/// Fills in the neighbour count of every cell that holds no mine.
pub(crate) fn calculate_adjacent_mines(grid: &mut Vec<Vec<Cell>>)
    requires
        is_square(rows_of(old(grid)@)),
    ensures
        rows_of(final(grid)@) == with_counts(rows_of(old(grid)@)),
{
    let size = grid.len();
    let ghost before = rows_of(grid@);
    let mut row: usize = 0;
    while row < size
        invariant
            row <= size,
            is_square(before),
            before.len() == size,
            is_square(rows_of(grid@)),
            rows_of(grid@).len() == size,
            forall|r: int, c: int|
                0 <= r < row && 0 <= c < size ==> (#[trigger] rows_of(grid@)[r][c]) == with_counts(
                    before,
                )[r][c],
            forall|r: int, c: int|
                row <= r < size && 0 <= c < size ==> (#[trigger] rows_of(grid@)[r][c])
                    == before[r][c],
        decreases size - row,
    {
        let mut col: usize = 0;
        while col < size
            invariant
                row < size,
                col <= size,
                is_square(before),
                before.len() == size,
                is_square(rows_of(grid@)),
                rows_of(grid@).len() == size,
                forall|r: int, c: int|
                    0 <= r < row && 0 <= c < size ==> (#[trigger] rows_of(grid@)[r][c])
                        == with_counts(before)[r][c],
                forall|c: int|
                    0 <= c < col ==> (#[trigger] rows_of(grid@)[row as int][c]) == with_counts(
                        before,
                    )[row as int][c],
                forall|c: int|
                    col <= c < size ==> (#[trigger] rows_of(grid@)[row as int][c])
                        == before[row as int][c],
                forall|r: int, c: int|
                    row < r < size && 0 <= c < size ==> (#[trigger] rows_of(grid@)[r][c])
                        == before[r][c],
            decreases size - col,
        {
            let cell = cell_at(grid, row, col);
            if !cell.is_mine {
                let count = count_adjacent_mines(grid, row, col);
                proof {
                    lemma_neighbor_mines_same(rows_of(grid@), before, row as int, col as int);
                    lemma_neighbor_mines_bound(before, row as int, col as int);
                }
                set_cell(grid, row, col, Cell { adjacent_mines: count, ..cell });
            }
            col += 1;
        }
        row += 1;
    }
    assert(rows_of(grid@) =~~= with_counts(before));
}

/// Appends `(row, col)` to `out` if it lies on a grid of side `size`.
fn push_if_inside(
    out: &mut Vec<(usize, usize)>,
    size: usize,
    row: Option<usize>,
    col: Option<usize>,
)
    ensures
        positions(final(out)@) == positions(old(out)@) + match spot(row, col) {
            Some(at) => if_inside(size as int, at.0, at.1),
            None => Seq::empty(),
        },
{
    match (row, col) {
        (Some(r), Some(c)) => {
            if r < size && c < size {
                out.push((r, c));
            }
        },
        _ => {},
    }
    assert(positions(out@) =~= positions(old(out)@) + match spot(row, col) {
        Some(at) => if_inside(size as int, at.0, at.1),
        None => Seq::empty(),
    });
}

/// The neighbours of `(row, col)` on a grid of side `size`, row by row.
pub fn adjacent_cells(size: usize, row: usize, col: usize) -> (around: Vec<(usize, usize)>)
    ensures
        positions(around@) == neighbors(size as int, row as int, col as int),
{
    let up = row.checked_sub(1);
    let down = row.checked_add(1);
    let left = col.checked_sub(1);
    let right = col.checked_add(1);
    let mut around: Vec<(usize, usize)> = Vec::new();
    push_if_inside(&mut around, size, up, left);
    push_if_inside(&mut around, size, up, Some(col));
    push_if_inside(&mut around, size, up, right);
    push_if_inside(&mut around, size, Some(row), left);
    push_if_inside(&mut around, size, Some(row), right);
    push_if_inside(&mut around, size, down, left);
    push_if_inside(&mut around, size, down, Some(col));
    push_if_inside(&mut around, size, down, right);
    around
}

/// No cell that comes before `(row, col)` is free of mines.
spec fn no_safe_before(cells: Seq<Seq<Cell>>, row: int, col: int) -> bool {
    forall|i: int, j: int|
        #![trigger cells[i][j]]
        in_bounds(cells, i, j) && row_major_before(i, j, row, col) ==> cells[i][j].is_mine
}

/// `(r, c)` is what [`is_start_cell`] asks for, as far as the cells that
/// come before `(row, col)` are concerned.
spec fn is_start_before(cells: Seq<Seq<Cell>>, r: int, c: int, row: int, col: int) -> bool {
    &&& in_bounds(cells, r, c)
    &&& row_major_before(r, c, row, col)
    &&& !cells[r][c].is_mine
    &&& forall|i: int, j: int|
        #![trigger cells[i][j]]
        in_bounds(cells, i, j) && row_major_before(i, j, row, col) && !cells[i][j].is_mine ==> {
            &&& cells[r][c].adjacent_mines <= cells[i][j].adjacent_mines
            &&& row_major_before(i, j, r, c) ==> cells[r][c].adjacent_mines
                < cells[i][j].adjacent_mines
        }
}

/// Finds the cell a new game opens with: the first cell without a mine and
/// without a mined neighbour, or, where there is none, the first of the
/// mine-free cells with the fewest mined neighbours.
pub(crate) fn find_start_cell(grid: &Vec<Vec<Cell>>) -> (start: (usize, usize))
    requires
        is_square(rows_of(grid@)),
        adjacency_exact(rows_of(grid@)),
        count_cells(rows_of(grid@), is_safe_cell()) > 0,
    ensures
        is_start_cell(rows_of(grid@), start.0 as int, start.1 as int),
{
    let size = grid.len();
    let ghost cells = rows_of(grid@);
    let mut min_adjacent: u8 = 9;
    let mut min_row: usize = 0;
    let mut min_col: usize = 0;
    let mut row: usize = 0;
    while row < size
        invariant
            row <= size,
            cells == rows_of(grid@),
            cells.len() == size,
            is_square(cells),
            adjacency_exact(cells),
            min_adjacent == 9 ==> no_safe_before(cells, row as int, 0),
            min_adjacent != 9 ==> 0 < min_adjacent && is_start_before(
                cells,
                min_row as int,
                min_col as int,
                row as int,
                0,
            ) && cells[min_row as int][min_col as int].adjacent_mines == min_adjacent,
        decreases size - row,
    {
        let mut col: usize = 0;
        while col < size
            invariant
                row < size,
                col <= size,
                cells == rows_of(grid@),
                cells.len() == size,
                is_square(cells),
                adjacency_exact(cells),
                min_adjacent == 9 ==> no_safe_before(cells, row as int, col as int),
                min_adjacent != 9 ==> 0 < min_adjacent && is_start_before(
                    cells,
                    min_row as int,
                    min_col as int,
                    row as int,
                    col as int,
                ) && cells[min_row as int][min_col as int].adjacent_mines == min_adjacent,
            decreases size - col,
        {
            let cell = cell_at(grid, row, col);
            if !cell.is_mine {
                proof {
                    lemma_neighbor_mines_bound(cells, row as int, col as int);
                }
                if cell.adjacent_mines == 0 {
                    return (row, col);
                } else if cell.adjacent_mines < min_adjacent {
                    min_adjacent = cell.adjacent_mines;
                    min_row = row;
                    min_col = col;
                }
            }
            col += 1;
        }
        row += 1;
    }
    proof {
        lemma_grid_count_witness(cells, is_safe_cell());
    }
    (min_row, min_col)
}

} // verus!
