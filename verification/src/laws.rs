//! What holds of every game, proved from the rules.

use vstd::prelude::*;
use crate::board::{
    adjacency_exact, all_mines_flagged, all_safe_revealed, in_bounds, is_mine_cell, is_safe_cell,
    mine_at, mine_total, neighbor_mines, uncovered, valid, with_cell, GameView,
};
use crate::cascade::{
    cascade_region, cascades_to, lemma_cascade_extend, lemma_cascade_last_step,
    lemma_cascade_numbered, lemma_cascade_start, lemma_cascade_target, spreads,
};
use crate::cell::Cell;
use crate::counting::{lemma_grid_count_same, lemma_grid_count_split, lemma_grid_count_witness};
use crate::neighborhood::{lemma_neighbor_mines_bound, lemma_neighbor_mines_same};
use crate::rules::{after_reveal, after_toggle, is_terminal, reveal_accepted};
use crate::setup::{
    covered, is_new_game, is_start_cell, lemma_start_cell_exists, opening, start_cell,
};

verus! {

/// Two grids of one shape whose cells agree on holding a mine.
pub open spec fn same_mines(a: Seq<Seq<Cell>>, b: Seq<Seq<Cell>>) -> bool {
    &&& a.len() == b.len()
    &&& forall|r: int| 0 <= r < a.len() ==> (#[trigger] a[r]).len() == b[r].len()
    &&& forall|r: int, c: int|
        in_bounds(a, r, c) ==> (#[trigger] a[r][c]).is_mine == b[r][c].is_mine
}

/// Two grids of one shape whose cells agree on everything but their cover
/// and their flag.
pub open spec fn same_layout(a: Seq<Seq<Cell>>, b: Seq<Seq<Cell>>) -> bool {
    &&& same_mines(a, b)
    &&& forall|r: int, c: int|
        in_bounds(a, r, c) ==> (#[trigger] a[r][c]).adjacent_mines == b[r][c].adjacent_mines
}

/// The cell at `(r, c)` was covered before the move and is revealed after.
pub open spec fn newly_revealed(v: GameView, w: GameView, r: int, c: int) -> bool {
    in_bounds(v.cells, r, c) && !v.cells[r][c].is_revealed && w.cells[r][c].is_revealed
}

/// A move of the player.
pub enum Move {
    /// A reveal of the cell at the given row and column.
    Reveal(int, int),
    /// A flag toggle at the given row and column.
    ToggleFlag(int, int),
}

/// The game after one move.
pub open spec fn after_move(v: GameView, m: Move) -> GameView {
    match m {
        Move::Reveal(r, c) => after_reveal(v, r, c),
        Move::ToggleFlag(r, c) => after_toggle(v, r, c),
    }
}

/// The game after a sequence of moves, made in order.
pub open spec fn after_moves(v: GameView, moves: Seq<Move>) -> GameView
    decreases moves.len(),
{
    if moves.len() == 0 {
        v
    } else {
        after_move(after_moves(v, moves.drop_last()), moves.last())
    }
}

/// Grids with the same mines have the same number of mines, and the same
/// number of mines around every position.
pub proof fn lemma_same_mines(a: Seq<Seq<Cell>>, b: Seq<Seq<Cell>>)
    requires
        same_mines(a, b),
    ensures
        mine_total(a) == mine_total(b),
        forall|r: int, c: int| mine_at(a, r, c) == mine_at(b, r, c),
        forall|r: int, c: int| neighbor_mines(a, r, c) == neighbor_mines(b, r, c),
{
    lemma_grid_count_same(a, is_mine_cell(), b, is_mine_cell());
    assert forall|r: int, c: int| neighbor_mines(a, r, c) == neighbor_mines(b, r, c) by {
        lemma_neighbor_mines_same(a, b, r, c);
    }
}

/// Grids with the same layout are exact in their neighbour counts together.
pub proof fn lemma_same_layout_exact(a: Seq<Seq<Cell>>, b: Seq<Seq<Cell>>)
    requires
        same_layout(a, b),
        adjacency_exact(a),
    ensures
        adjacency_exact(b),
{
    lemma_same_mines(a, b);
}

/// No move lays, lifts or moves a mine, and no move rewrites a neighbour
/// count: a reveal leaves the layout of the grid as it was.
pub proof fn law_reveal_keeps_layout(v: GameView, r: int, c: int)
    ensures
        same_layout(v.cells, after_reveal(v, r, c).cells),
        after_reveal(v, r, c).mine_count == v.mine_count,
        mine_total(after_reveal(v, r, c).cells) == mine_total(v.cells),
{
    lemma_same_mines(v.cells, after_reveal(v, r, c).cells);
}

/// A flag toggle leaves the layout of the grid as it was.
pub proof fn law_toggle_keeps_layout(v: GameView, r: int, c: int)
    ensures
        same_layout(v.cells, after_toggle(v, r, c).cells),
        after_toggle(v, r, c).mine_count == v.mine_count,
        mine_total(after_toggle(v, r, c).cells) == mine_total(v.cells),
{
    lemma_same_mines(v.cells, after_toggle(v, r, c).cells);
}

/// A reveal takes a game the rules allow to a game the rules allow: the
/// number of mines stays as configured, the neighbour counts stay exact, no
/// revealed cell carries a flag, and the terminal flags say what the grid
/// shows.
pub proof fn law_reveal_keeps_valid(v: GameView, r: int, c: int)
    requires
        valid(v),
    ensures
        valid(after_reveal(v, r, c)),
{
    let w = after_reveal(v, r, c);
    law_reveal_keeps_layout(v, r, c);
    lemma_same_layout_exact(v.cells, w.cells);
    if reveal_accepted(v, r, c) && !v.cells[r][c].is_mine {
        let region = cascade_region(v.cells, r, c);
        assert forall|i: int, j: int| in_bounds(w.cells, i, j) implies {
            let cell = #[trigger] w.cells[i][j];
            !(cell.is_revealed && cell.is_flagged) && !(cell.is_mine && cell.is_revealed)
        } by {
            if region.contains((i, j)) {
                lemma_cascade_target(v.cells, (r, c), (i, j));
            }
        }
    }
}

/// A flag toggle takes a game the rules allow to a game the rules allow.
pub proof fn law_toggle_keeps_valid(v: GameView, r: int, c: int)
    requires
        valid(v),
    ensures
        valid(after_toggle(v, r, c)),
{
    law_toggle_keeps_layout(v, r, c);
    lemma_same_layout_exact(v.cells, after_toggle(v, r, c).cells);
}

/// Whatever the player does, the game stays one the rules allow, on the
/// same layout: the mines stay where they are, as many as configured, and
/// the neighbour counts stay what they were, exact for every cell without a
/// mine.
pub proof fn law_moves_keep_board(v: GameView, moves: Seq<Move>)
    requires
        valid(v),
    ensures
        valid(after_moves(v, moves)),
        same_layout(v.cells, after_moves(v, moves).cells),
        after_moves(v, moves).mine_count == v.mine_count,
        mine_total(after_moves(v, moves).cells) == v.mine_count,
        adjacency_exact(after_moves(v, moves).cells),
    decreases moves.len(),
{
    if moves.len() > 0 {
        let u = after_moves(v, moves.drop_last());
        law_moves_keep_board(v, moves.drop_last());
        match moves.last() {
            Move::Reveal(r, c) => {
                law_reveal_keeps_valid(u, r, c);
                law_reveal_keeps_layout(u, r, c);
            },
            Move::ToggleFlag(r, c) => {
                law_toggle_keeps_valid(u, r, c);
                law_toggle_keeps_layout(u, r, c);
            },
        }
    }
}

/// In a game the rules allow, a cell without a mine counts at most eight
/// mines around it.
pub proof fn law_counts_in_range(v: GameView, r: int, c: int)
    requires
        valid(v),
        in_bounds(v.cells, r, c),
        !v.cells[r][c].is_mine,
    ensures
        v.cells[r][c].adjacent_mines <= 8,
{
    lemma_neighbor_mines_bound(v.cells, r, c);
}

/// Revealing a cell a second time changes nothing.
pub proof fn law_reveal_idempotent(v: GameView, r: int, c: int)
    ensures
        after_reveal(after_reveal(v, r, c), r, c) == after_reveal(v, r, c),
{
    if reveal_accepted(v, r, c) && !v.cells[r][c].is_mine {
        lemma_cascade_start(v.cells, (r, c));
    }
}

/// A flag toggle on a revealed cell changes nothing.
pub proof fn law_toggle_on_revealed(v: GameView, r: int, c: int)
    requires
        in_bounds(v.cells, r, c),
        v.cells[r][c].is_revealed,
    ensures
        after_toggle(v, r, c) == v,
{
}

/// What an accepted reveal of a cell without a mine uncovers.
///
/// The cell itself is revealed. From every newly revealed cell with no
/// mined neighbour the reveal has gone on to all its covered, unflagged
/// neighbours, so the whole connected region of such cells is open,
/// together with the numbered cells on its border. Nothing else has
/// happened: every newly revealed cell but the first touches a newly
/// revealed cell with no mined neighbour, which sent the reveal on to it; a
/// cell the reveal does not reach is as it was; and so is every cell that
/// was flagged or revealed before. No mine is uncovered, and the game is
/// not lost.
pub proof fn law_cascade(v: GameView, r: int, c: int)
    requires
        valid(v),
        reveal_accepted(v, r, c),
        !v.cells[r][c].is_mine,
    ensures
        newly_revealed(v, after_reveal(v, r, c), r, c),
        forall|a: (int, int), b: (int, int)|
            newly_revealed(v, after_reveal(v, r, c), a.0, a.1) && #[trigger] spreads(v.cells, a, b)
                ==> newly_revealed(v, after_reveal(v, r, c), b.0, b.1),
        forall|i: int, j: int|
            #[trigger] newly_revealed(v, after_reveal(v, r, c), i, j) && (i, j) != (r, c) ==> {
                exists|a: (int, int)|
                    newly_revealed(v, after_reveal(v, r, c), a.0, a.1) && #[trigger] spreads(
                        v.cells,
                        a,
                        (i, j),
                    )
            },
        forall|i: int, j: int|
            in_bounds(v.cells, i, j) && !cascades_to(v.cells, (r, c), (i, j))
                ==> #[trigger] after_reveal(v, r, c).cells[i][j] == v.cells[i][j],
        forall|i: int, j: int|
            in_bounds(v.cells, i, j) && (v.cells[i][j].is_flagged || v.cells[i][j].is_revealed)
                ==> #[trigger] after_reveal(v, r, c).cells[i][j] == v.cells[i][j],
        forall|i: int, j: int|
            #[trigger] newly_revealed(v, after_reveal(v, r, c), i, j) ==> !v.cells[i][j].is_mine,
        !after_reveal(v, r, c).game_over,
{
    let w = after_reveal(v, r, c);
    let start = (r, c);
    let region = cascade_region(v.cells, r, c);
    lemma_cascade_start(v.cells, start);
    assert forall|i: int, j: int| newly_revealed(v, w, i, j) <==> region.contains((i, j)) by {
        if region.contains((i, j)) {
            lemma_cascade_target(v.cells, start, (i, j));
        }
    }
    assert forall|a: (int, int), b: (int, int)|
        newly_revealed(v, w, a.0, a.1) && #[trigger] spreads(v.cells, a, b) implies {
        newly_revealed(v, w, b.0, b.1)
    } by {
        lemma_cascade_extend(v.cells, start, a, b);
    }
    assert forall|i: int, j: int|
        #[trigger] newly_revealed(v, w, i, j) && (i, j) != (r, c) implies {
        exists|a: (int, int)|
            newly_revealed(v, w, a.0, a.1) && #[trigger] spreads(v.cells, a, (i, j))
    } by {
        lemma_cascade_last_step(v.cells, start, (i, j));
    }
    assert forall|i: int, j: int|
        in_bounds(v.cells, i, j) && (v.cells[i][j].is_flagged || v.cells[i][j].is_revealed) implies {
        #[trigger] w.cells[i][j] == v.cells[i][j]
    } by {
        if region.contains((i, j)) {
            lemma_cascade_target(v.cells, start, (i, j));
        }
    }
    assert forall|i: int, j: int| #[trigger] newly_revealed(v, w, i, j) implies {
        !v.cells[i][j].is_mine
    } by {
        lemma_cascade_target(v.cells, start, (i, j));
    }
}

/// An accepted reveal of a cell that has a mined neighbour, and no mine
/// itself, uncovers that one cell.
pub proof fn law_numbered_reveal_is_single(v: GameView, r: int, c: int)
    requires
        reveal_accepted(v, r, c),
        !v.cells[r][c].is_mine,
        v.cells[r][c].adjacent_mines != 0,
    ensures
        after_reveal(v, r, c).cells == with_cell(v.cells, r, c, uncovered(v.cells[r][c])),
{
    let region = cascade_region(v.cells, r, c);
    lemma_cascade_start(v.cells, (r, c));
    assert forall|p: (int, int)| region.contains(p) implies p == (r, c) by {
        lemma_cascade_numbered(v.cells, (r, c), p);
    }
    assert(after_reveal(v, r, c).cells =~~= with_cell(v.cells, r, c, uncovered(v.cells[r][c])));
}

/// Once the game is lost or won, no sequence of reveals and flag toggles
/// changes anything.
pub proof fn law_terminal_freeze(v: GameView, moves: Seq<Move>)
    requires
        is_terminal(v),
    ensures
        after_moves(v, moves) == v,
    decreases moves.len(),
{
    if moves.len() > 0 {
        law_terminal_freeze(v, moves.drop_last());
    }
}

/// A game counts as won exactly when every cell without a mine is revealed
/// and every mine is flagged; neither alone is enough. A game that is won
/// is not lost.
pub proof fn law_win_needs_both(v: GameView)
    requires
        valid(v),
    ensures
        v.won <==> all_safe_revealed(v.cells) && all_mines_flagged(v.cells),
        v.won ==> !v.game_over,
{
}

/// An accepted reveal of a mine loses the game and uncovers that one cell:
/// nothing cascades, whatever neighbour count the mine carries.
pub proof fn law_mine_reveal_loses(v: GameView, r: int, c: int)
    requires
        reveal_accepted(v, r, c),
        v.cells[r][c].is_mine,
    ensures
        after_reveal(v, r, c).game_over,
        after_reveal(v, r, c).won == v.won,
        after_reveal(v, r, c).cells == with_cell(v.cells, r, c, uncovered(v.cells[r][c])),
{
}

/// A board with a cell that holds no mine has a start cell, and the start
/// cell holds no mine: the opening move never loses the game.
pub proof fn law_start_cell_is_safe(cells: Seq<Seq<Cell>>, mine_count: nat, r: int, c: int)
    requires
        in_bounds(cells, r, c),
        !cells[r][c].is_mine,
    ensures
        is_start_cell(cells, start_cell(cells).0, start_cell(cells).1),
        !cells[start_cell(cells).0][start_cell(cells).1].is_mine,
        !opening(cells, mine_count).game_over,
{
    lemma_start_cell_exists(cells, r, c);
}

/// A new game has been opened on a cell that holds no mine: the start cell
/// is revealed, and the game is neither lost nor won.
pub proof fn law_opening_is_safe(v: GameView, size: nat, mine_count: nat)
    requires
        valid(v),
        is_new_game(v, size, mine_count),
    ensures
        in_bounds(v.cells, start_cell(covered(v.cells)).0, start_cell(covered(v.cells)).1),
        !v.cells[start_cell(covered(v.cells)).0][start_cell(covered(v.cells)).1].is_mine,
        v.cells[start_cell(covered(v.cells)).0][start_cell(covered(v.cells)).1].is_revealed,
        !v.game_over,
        !v.won,
{
    let board = covered(v.cells);
    lemma_grid_count_split(v.cells, is_mine_cell(), is_safe_cell(), v.cells.len());
    let free = lemma_grid_count_witness(v.cells, is_safe_cell());
    lemma_start_cell_exists(board, free.0, free.1);
    lemma_cascade_start(board, start_cell(board));
    lemma_grid_count_witness(v.cells, is_mine_cell());
}

} // verus!
