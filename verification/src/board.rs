//! The mathematical model of a game.
//!
//! Contracts never speak of the engine's storage. They speak of a
//! [`GameView`]: the grid as a sequence of rows, the configured number of
//! mines and the two terminal flags. This module defines that view and the
//! predicates the rules are stated with.

use vstd::prelude::*;
use crate::cell::Cell;

verus! {

/// What a game is, as far as the rules are concerned.
pub struct GameView {
    /// The rows of the grid, top to bottom; each row runs left to right.
    pub cells: Seq<Seq<Cell>>,
    /// The number of mines the board was configured with.
    pub mine_count: nat,
    /// Whether a mine has been revealed.
    pub game_over: bool,
    /// Whether the player has won.
    pub won: bool,
}

/// Every row is as long as the grid is high.
pub open spec fn is_square(cells: Seq<Seq<Cell>>) -> bool {
    forall|r: int| 0 <= r < cells.len() ==> (#[trigger] cells[r]).len() == cells.len()
}

/// `(r, c)` names a cell of the grid.
pub open spec fn in_bounds(cells: Seq<Seq<Cell>>, r: int, c: int) -> bool {
    0 <= r < cells.len() && 0 <= c < cells[r].len()
}

/// Two distinct positions that touch, by an edge or by a corner.
pub open spec fn adjacent(r1: int, c1: int, r2: int, c2: int) -> bool {
    &&& -1 <= r1 - r2 <= 1
    &&& -1 <= c1 - c2 <= 1
    &&& !(r1 == r2 && c1 == c2)
}

/// The position `(r, c)` alone if it lies on a grid of side `size`, else
/// nothing.
pub open spec fn if_inside(size: int, r: int, c: int) -> Seq<(int, int)> {
    if 0 <= r < size && 0 <= c < size {
        seq![(r, c)]
    } else {
        Seq::empty()
    }
}

/// The neighbours of `(r, c)` on a grid of side `size`, row by row.
pub open spec fn neighbors(size: int, r: int, c: int) -> Seq<(int, int)> {
    if_inside(size, r - 1, c - 1) + if_inside(size, r - 1, c) + if_inside(size, r - 1, c + 1)
        + if_inside(size, r, c - 1) + if_inside(size, r, c + 1) + if_inside(size, r + 1, c - 1)
        + if_inside(size, r + 1, c) + if_inside(size, r + 1, c + 1)
}

/// Positions held as machine integers, read as mathematical ones.
pub open spec fn positions(at: Seq<(usize, usize)>) -> Seq<(int, int)> {
    Seq::new(at.len(), |k: int| (at[k].0 as int, at[k].1 as int))
}

/// 1 if `(r, c)` is inside the grid and holds a mine, else 0.
pub open spec fn mine_at(cells: Seq<Seq<Cell>>, r: int, c: int) -> nat {
    if in_bounds(cells, r, c) && cells[r][c].is_mine {
        1
    } else {
        0
    }
}

/// The number of mines among the up to eight neighbours of `(r, c)`;
/// positions outside the grid count as free.
#[verifier::opaque]
pub open spec fn neighbor_mines(cells: Seq<Seq<Cell>>, r: int, c: int) -> nat {
    mine_at(cells, r - 1, c - 1) + mine_at(cells, r - 1, c) + mine_at(cells, r - 1, c + 1)
        + mine_at(cells, r, c - 1) + mine_at(cells, r, c + 1)
        + mine_at(cells, r + 1, c - 1) + mine_at(cells, r + 1, c) + mine_at(cells, r + 1, c + 1)
}

/// Every cell without a mine records exactly the number of mines around it.
pub open spec fn adjacency_exact(cells: Seq<Seq<Cell>>) -> bool {
    forall|r: int, c: int|
        in_bounds(cells, r, c) && !cells[r][c].is_mine ==> cells[r][c].adjacent_mines
            == #[trigger] neighbor_mines(cells, r, c)
}

/// No cell is both revealed and flagged.
pub open spec fn no_flag_on_revealed(cells: Seq<Seq<Cell>>) -> bool {
    forall|r: int, c: int|
        in_bounds(cells, r, c) ==> !((#[trigger] cells[r][c]).is_revealed && cells[r][c].is_flagged)
}

/// Every cell without a mine has been revealed.
pub open spec fn all_safe_revealed(cells: Seq<Seq<Cell>>) -> bool {
    forall|r: int, c: int|
        in_bounds(cells, r, c) && !(#[trigger] cells[r][c]).is_mine ==> cells[r][c].is_revealed
}

/// Every mine carries a flag.
pub open spec fn all_mines_flagged(cells: Seq<Seq<Cell>>) -> bool {
    forall|r: int, c: int|
        in_bounds(cells, r, c) && (#[trigger] cells[r][c]).is_mine ==> cells[r][c].is_flagged
}

/// The game is won when all safe cells are revealed and all mines flagged.
pub open spec fn win_condition(cells: Seq<Seq<Cell>>) -> bool {
    all_safe_revealed(cells) && all_mines_flagged(cells)
}

/// Some mine has been revealed.
pub open spec fn mine_revealed(cells: Seq<Seq<Cell>>) -> bool {
    exists|r: int, c: int|
        in_bounds(cells, r, c) && (#[trigger] cells[r][c]).is_mine && cells[r][c].is_revealed
}

/// The predicate that picks out mines.
pub open spec fn is_mine_cell() -> spec_fn(Cell) -> bool {
    |cell: Cell| cell.is_mine
}

/// The predicate that picks out cells without a mine.
pub open spec fn is_safe_cell() -> spec_fn(Cell) -> bool {
    |cell: Cell| !cell.is_mine
}

/// The predicate that picks out cells without a mine that are still covered.
pub open spec fn is_hidden_safe_cell() -> spec_fn(Cell) -> bool {
    |cell: Cell| !cell.is_mine && !cell.is_revealed
}

/// The number of cells of a row that satisfy `pick`.
pub open spec fn count_in_row(row: Seq<Cell>, pick: spec_fn(Cell) -> bool) -> nat
    decreases row.len(),
{
    if row.len() == 0 {
        0
    } else {
        count_in_row(row.drop_last(), pick) + if pick(row.last()) {
            1nat
        } else {
            0nat
        }
    }
}

/// The number of cells of the grid that satisfy `pick`.
pub open spec fn count_cells(cells: Seq<Seq<Cell>>, pick: spec_fn(Cell) -> bool) -> nat
    decreases cells.len(),
{
    if cells.len() == 0 {
        0
    } else {
        count_cells(cells.drop_last(), pick) + count_in_row(cells.last(), pick)
    }
}

/// The number of cells that satisfy `pick` among those that come before
/// `(r, c)` when the grid is read row by row.
pub open spec fn count_before(
    cells: Seq<Seq<Cell>>,
    pick: spec_fn(Cell) -> bool,
    r: int,
    c: int,
) -> nat {
    count_cells(cells.take(r), pick) + count_in_row(cells[r].take(c), pick)
}

/// The number of mines on the grid.
pub open spec fn mine_total(cells: Seq<Seq<Cell>>) -> nat {
    count_cells(cells, is_mine_cell())
}

/// The number of cells without a mine that are still covered.
pub open spec fn hidden_safe_total(cells: Seq<Seq<Cell>>) -> nat {
    count_cells(cells, is_hidden_safe_cell())
}

/// The states a game can be in: a square grid that holds the configured
/// number of mines, more than none and fewer than it has cells; exact
/// neighbour counts; no flag on a revealed cell; and terminal flags that say
/// what the grid shows.
pub open spec fn valid(v: GameView) -> bool {
    &&& is_square(v.cells)
    &&& 0 < v.mine_count < v.cells.len() * v.cells.len()
    &&& mine_total(v.cells) == v.mine_count
    &&& adjacency_exact(v.cells)
    &&& no_flag_on_revealed(v.cells)
    &&& v.game_over <==> mine_revealed(v.cells)
    &&& v.won <==> win_condition(v.cells)
}

/// The cell with its cover taken off.
pub open spec fn uncovered(cell: Cell) -> Cell {
    Cell { is_revealed: true, ..cell }
}

/// The grid with every cell of `region` revealed and nothing else changed.
pub open spec fn reveal_region(cells: Seq<Seq<Cell>>, region: Set<(int, int)>) -> Seq<Seq<Cell>> {
    Seq::new(
        cells.len(),
        |r: int|
            Seq::new(
                cells[r].len(),
                |c: int|
                    if region.contains((r, c)) {
                        uncovered(cells[r][c])
                    } else {
                        cells[r][c]
                    },
            ),
    )
}

/// The grid with the cell at `(r, c)` replaced.
pub open spec fn with_cell(cells: Seq<Seq<Cell>>, r: int, c: int, cell: Cell) -> Seq<Seq<Cell>> {
    cells.update(r, cells[r].update(c, cell))
}

} // verus!
