//! How a game begins: the board that a layout of mines makes, and the
//! opening move that is made for the player.

use vstd::prelude::*;
use crate::board::{
    hidden_safe_total, in_bounds, is_hidden_safe_cell, is_mine_cell, is_safe_cell, is_square,
    mine_total, neighbor_mines, valid, with_cell, GameView,
};
use crate::cell::Cell;
use crate::counting::{lemma_grid_count_same, lemma_grid_count_split, lemma_grid_count_witness};
use crate::neighborhood::{lemma_neighbor_mines_bound, lemma_neighbor_mines_same};
use crate::rules::after_reveal;

verus! {

/// A covered, unflagged cell without a mine and without a neighbour count.
pub open spec fn blank_cell() -> Cell {
    Cell { is_mine: false, is_revealed: false, is_flagged: false, adjacent_mines: 0 }
}

/// The cell with a mine laid in it.
pub open spec fn mined(cell: Cell) -> Cell {
    Cell { is_mine: true, ..cell }
}

/// Every cell is as [`blank_cell`] but for the mine it may hold.
pub open spec fn is_bare(cells: Seq<Seq<Cell>>) -> bool {
    forall|r: int, c: int|
        in_bounds(cells, r, c) ==> #[trigger] cells[r][c] == (Cell {
            is_mine: cells[r][c].is_mine,
            ..blank_cell()
        })
}

/// The bare grid of side `size` with mines at exactly the positions `mines`.
pub open spec fn laid_out(size: nat, mines: Seq<(int, int)>) -> Seq<Seq<Cell>> {
    Seq::new(
        size,
        |r: int| Seq::new(size, |c: int| Cell { is_mine: mines.contains((r, c)), ..blank_cell() }),
    )
}

/// The grid with the neighbour count of every mine-free cell filled in.
pub open spec fn with_counts(cells: Seq<Seq<Cell>>) -> Seq<Seq<Cell>> {
    Seq::new(
        cells.len(),
        |r: int|
            Seq::new(
                cells[r].len(),
                |c: int|
                    if cells[r][c].is_mine {
                        cells[r][c]
                    } else {
                        Cell { adjacent_mines: neighbor_mines(cells, r, c) as u8, ..cells[r][c] }
                    },
            ),
    )
}

/// The board a game on a grid of side `size` with mines at `mines` starts
/// from: everything covered, nothing flagged, neighbour counts filled in.
pub open spec fn fresh_board(size: nat, mines: Seq<(int, int)>) -> Seq<Seq<Cell>> {
    with_counts(laid_out(size, mines))
}

/// The positions `mines` are a layout for a grid of side `size`: the number
/// of cells fits a machine word, there is a mine and a cell without one, no
/// position is named twice, and every position lies on the grid.
pub open spec fn layout_ok(size: nat, mines: Seq<(int, int)>) -> bool {
    &&& size * size <= usize::MAX
    &&& 0 < mines.len() < size * size
    &&& mines.no_duplicates()
    &&& forall|k: int|
        0 <= k < mines.len() ==> 0 <= (#[trigger] mines[k]).0 < size && 0 <= mines[k].1 < size
}

/// `(r1, c1)` comes before `(r2, c2)` when the grid is read row by row.
pub open spec fn row_major_before(r1: int, c1: int, r2: int, c2: int) -> bool {
    r1 < r2 || (r1 == r2 && c1 < c2)
}

/// `(r, c)` is the cell a new game opens with: among the cells without a
/// mine it has the fewest mined neighbours, and it is the first such cell
/// when the grid is read row by row.
pub open spec fn is_start_cell(cells: Seq<Seq<Cell>>, r: int, c: int) -> bool {
    &&& in_bounds(cells, r, c)
    &&& !cells[r][c].is_mine
    &&& forall|i: int, j: int|
        in_bounds(cells, i, j) && !(#[trigger] cells[i][j]).is_mine ==> {
            &&& cells[r][c].adjacent_mines <= cells[i][j].adjacent_mines
            &&& row_major_before(i, j, r, c) ==> cells[r][c].adjacent_mines
                < cells[i][j].adjacent_mines
        }
}

/// The cell a new game on `cells` opens with.
pub open spec fn start_cell(cells: Seq<Seq<Cell>>) -> (int, int) {
    choose|r: int, c: int| is_start_cell(cells, r, c)
}

/// The grid with every cell covered and every flag taken off.
pub open spec fn covered(cells: Seq<Seq<Cell>>) -> Seq<Seq<Cell>> {
    Seq::new(
        cells.len(),
        |r: int|
            Seq::new(
                cells[r].len(),
                |c: int| Cell { is_revealed: false, is_flagged: false, ..cells[r][c] },
            ),
    )
}

/// A game on `cells` before any move.
pub open spec fn untouched(cells: Seq<Seq<Cell>>, mine_count: nat) -> GameView {
    GameView { cells, mine_count, game_over: false, won: false }
}

/// A new game on the covered grid `cells`: the start cell has been revealed
/// for the player.
pub open spec fn opening(cells: Seq<Seq<Cell>>, mine_count: nat) -> GameView {
    let start = start_cell(cells);
    after_reveal(untouched(cells, mine_count), start.0, start.1)
}

/// `v` is a new game on a grid of side `size` with `mine_count` mines: it is
/// what the opening move makes of its own board, covered; it is neither lost
/// nor won; and its mines carry no neighbour count.
pub open spec fn is_new_game(v: GameView, size: nat, mine_count: nat) -> bool {
    &&& v.cells.len() == size
    &&& v.mine_count == mine_count
    &&& v == opening(covered(v.cells), mine_count)
    &&& !v.game_over
    &&& !v.won
    &&& forall|r: int, c: int|
        in_bounds(v.cells, r, c) && (#[trigger] v.cells[r][c]).is_mine
            ==> v.cells[r][c].adjacent_mines == 0
}

/// Two cells that satisfy [`is_start_cell`] are the same cell.
pub proof fn lemma_start_cell_unique(cells: Seq<Seq<Cell>>, r1: int, c1: int, r2: int, c2: int)
    requires
        is_start_cell(cells, r1, c1),
        is_start_cell(cells, r2, c2),
    ensures
        r1 == r2,
        c1 == c2,
{
}

/// A cell that satisfies [`is_start_cell`] is the one [`start_cell`] names.
pub proof fn lemma_start_cell_is(cells: Seq<Seq<Cell>>, r: int, c: int)
    requires
        is_start_cell(cells, r, c),
    ensures
        start_cell(cells) == (r, c),
{
    let s = start_cell(cells);
    lemma_start_cell_unique(cells, r, c, s.0, s.1);
}

/// Starting from any cell without a mine one finds a start cell.
proof fn lemma_start_cell_from(cells: Seq<Seq<Cell>>, r: int, c: int)
    requires
        in_bounds(cells, r, c),
        !cells[r][c].is_mine,
    ensures
        exists|i: int, j: int| is_start_cell(cells, i, j),
    decreases cells[r][c].adjacent_mines, r, c,
{
    if !is_start_cell(cells, r, c) {
        let (i, j) = choose|i: int, j: int|
            in_bounds(cells, i, j) && !(#[trigger] cells[i][j]).is_mine && !({
                &&& cells[r][c].adjacent_mines <= cells[i][j].adjacent_mines
                &&& row_major_before(i, j, r, c) ==> cells[r][c].adjacent_mines
                    < cells[i][j].adjacent_mines
            });
        lemma_start_cell_from(cells, i, j);
    }
}

/// A grid with a cell that holds no mine has a start cell, and it is the
/// one [`start_cell`] names.
pub proof fn lemma_start_cell_exists(cells: Seq<Seq<Cell>>, r: int, c: int)
    requires
        in_bounds(cells, r, c),
        !cells[r][c].is_mine,
    ensures
        is_start_cell(cells, start_cell(cells).0, start_cell(cells).1),
{
    lemma_start_cell_from(cells, r, c);
}

/// A bare grid with its neighbour counts filled in is a game the rules
/// allow, and all its mine-free cells are still to be revealed.
pub proof fn lemma_fresh_board_valid(cells: Seq<Seq<Cell>>, mine_count: nat)
    requires
        is_square(cells),
        is_bare(cells),
        mine_total(cells) == mine_count,
        0 < mine_count < cells.len() * cells.len(),
    ensures
        valid(untouched(with_counts(cells), mine_count)),
        hidden_safe_total(with_counts(cells)) == cells.len() * cells.len() - mine_count,
{
    let fresh = with_counts(cells);
    assert forall|r: int, c: int| in_bounds(fresh, r, c) && !fresh[r][c].is_mine implies {
        fresh[r][c].adjacent_mines == #[trigger] neighbor_mines(fresh, r, c)
    } by {
        lemma_neighbor_mines_same(fresh, cells, r, c);
        lemma_neighbor_mines_bound(cells, r, c);
    }
    lemma_grid_count_same(cells, is_mine_cell(), fresh, is_mine_cell());
    lemma_grid_count_same(cells, is_safe_cell(), fresh, is_hidden_safe_cell());
    lemma_grid_count_split(cells, is_mine_cell(), is_safe_cell(), cells.len());
    lemma_grid_count_witness(fresh, is_mine_cell());
}

/// The opening move on a fresh board gives a new game.
pub proof fn lemma_opening_is_new_game(cells: Seq<Seq<Cell>>, mine_count: nat)
    requires
        is_square(cells),
        is_bare(cells),
        mine_total(cells) == mine_count,
        0 < mine_count < cells.len() * cells.len(),
    ensures
        is_new_game(opening(with_counts(cells), mine_count), cells.len(), mine_count),
{
    let fresh = with_counts(cells);
    let v = opening(fresh, mine_count);
    assert(covered(v.cells) =~~= fresh);
    lemma_fresh_board_valid(cells, mine_count);
    lemma_grid_count_split(fresh, is_mine_cell(), is_safe_cell(), fresh.len());
    let free = lemma_grid_count_witness(fresh, is_safe_cell());
    lemma_start_cell_exists(fresh, free.0, free.1);
    let mine = lemma_grid_count_witness(fresh, is_mine_cell());
    assert(!v.cells[mine.0][mine.1].is_flagged);
}

/// A laid-out grid is square and bare.
pub proof fn lemma_laid_out_is_bare(size: nat, mines: Seq<(int, int)>)
    ensures
        laid_out(size, mines).len() == size,
        is_square(laid_out(size, mines)),
        is_bare(laid_out(size, mines)),
{
}

/// Laying one more mine changes the one cell it is laid in.
pub proof fn lemma_lay_one_more(size: nat, laid: Seq<(int, int)>, p: (int, int))
    requires
        0 <= p.0 < size,
        0 <= p.1 < size,
    ensures
        laid_out(size, laid.push(p)) == with_cell(
            laid_out(size, laid),
            p.0,
            p.1,
            mined(laid_out(size, laid)[p.0][p.1]),
        ),
        laid_out(size, laid)[p.0][p.1].is_mine <==> laid.contains(p),
{
    let more = laid.push(p);
    assert forall|q: (int, int)| more.contains(q) <==> laid.contains(q) || q == p by {
        if laid.contains(q) {
            let j = choose|j: int| 0 <= j < laid.len() && laid[j] == q;
            assert(more[j] == q);
        }
        assert(more[laid.len() as int] == p);
    }
    assert(laid_out(size, more) =~~= with_cell(
        laid_out(size, laid),
        p.0,
        p.1,
        mined(laid_out(size, laid)[p.0][p.1]),
    ));
}

/// A list without repeats, extended by a position it does not hold, is
/// without repeats.
pub proof fn lemma_push_keeps_distinct(laid: Seq<(int, int)>, p: (int, int))
    requires
        laid.no_duplicates(),
        !laid.contains(p),
    ensures
        laid.push(p).no_duplicates(),
{
    let more = laid.push(p);
    assert forall|a: int, b: int|
        0 <= a < more.len() && 0 <= b < more.len() && a != b implies more[a] != more[b] by {
        if a < laid.len() && b < laid.len() {
            assert(laid[a] != laid[b]);
        }
    }
}

} // verus!
