//! The game engine.

use vstd::prelude::*;
use crate::board::{
    adjacency_exact, hidden_safe_total, in_bounds, is_hidden_safe_cell, is_mine_cell,
    is_safe_cell, is_square, mine_total, positions, reveal_region, uncovered, valid,
    win_condition, GameView,
};
use crate::cascade::{
    cascade_region, cascades_to, lemma_cascade_extend, lemma_cascade_least, lemma_cascade_start,
    lemma_cascade_target, spreads,
};
use crate::cell::Cell;
use crate::counting::{
    lemma_grid_count_positive, lemma_grid_count_split, lemma_grid_count_update,
    lemma_grid_count_witness,
};
use crate::grid::{
    adjacent_cells, blank_grid, calculate_adjacent_mines, cell_at, find_start_cell, rows_of,
    set_cell,
};
use crate::laws::{law_reveal_keeps_valid, law_toggle_keeps_valid};
use crate::neighborhood::{lemma_neighbors_complete, lemma_neighbors_sound};
use crate::placement::{lay_mines, place_mines};
use crate::rules::{
    after_click, after_reveal, after_toggle, flipped, is_terminal, outcome_of, reveal_accepted,
    Click, RevealOutcome,
};
use crate::setup::{
    fresh_board, is_bare, is_new_game, layout_ok, lemma_fresh_board_valid,
    lemma_laid_out_is_bare, lemma_opening_is_new_game, lemma_start_cell_is, opening, start_cell,
    with_counts,
};

verus! {

/// Some entry of the stack names the position `p`.
spec fn on_stack(stack: Seq<(usize, usize)>, p: (int, int)) -> bool {
    exists|k: int| 0 <= k < stack.len() && (#[trigger] stack[k]).0 == p.0 && stack[k].1 == p.1
}

/// Every entry of the stack lies on the grid, and if it was covered and
/// unflagged before the reveal of `start`, that reveal reaches it.
spec fn stack_is_fed(
    stack: Seq<(usize, usize)>,
    before: Seq<Seq<Cell>>,
    start: (int, int),
) -> bool {
    forall|k: int|
        0 <= k < stack.len() ==> {
            let p = ((#[trigger] stack[k]).0 as int, stack[k].1 as int);
            &&& in_bounds(before, p.0, p.1)
            &&& !before[p.0][p.1].is_revealed && !before[p.0][p.1].is_flagged ==> cascades_to(
                before,
                start,
                p,
            )
        }
}

/// Wherever the reveal spreads from a cell of `done`, it has arrived or is
/// on the stack.
spec fn spread_is_due(
    done: Set<(int, int)>,
    stack: Seq<(usize, usize)>,
    before: Seq<Seq<Cell>>,
) -> bool {
    forall|a: (int, int), b: (int, int)|
        done.contains(a) && #[trigger] spreads(before, a, b) ==> done.contains(b) || on_stack(
            stack,
            b,
        )
}

/// A game of minesweeper.
pub struct GameState {
    grid: Vec<Vec<Cell>>,
    mine_count: usize,
    game_over: bool,
    won: bool,
    unrevealed_non_mine_count: usize,
}

impl View for GameState {
    type V = GameView;

    closed spec fn view(&self) -> GameView {
        GameView {
            cells: rows_of(self.grid@),
            mine_count: self.mine_count as nat,
            game_over: self.game_over,
            won: self.won,
        }
    }
}

impl GameState {
    /// The engine's own bookkeeping agrees with the grid: the counter of
    /// covered safe cells is right, and the number of cells fits a machine
    /// word.
    pub closed spec fn bookkeeping_ok(&self) -> bool {
        &&& self.grid@.len() * self.grid@.len() <= usize::MAX
        &&& self.unrevealed_non_mine_count == hidden_safe_total(self@.cells)
    }

    /// The game is in a state the rules allow, and the engine's bookkeeping
    /// agrees with it.
    pub open spec fn wf(&self) -> bool {
        valid(self@) && self.bookkeeping_ok()
    }

    /// A new game on a grid of side `size` with `mine_count` mines laid at
    /// random, opened for the player at a cell that holds no mine.
    pub fn new(size: usize, mine_count: usize) -> (state: GameState)
        requires
            0 < mine_count < size * size <= usize::MAX,
        ensures
            state.wf(),
            is_new_game(state@, size as nat, mine_count as nat),
    {
        let mut grid = blank_grid(size);
        place_mines(&mut grid, mine_count);
        GameState::open(grid, mine_count)
    }

    /// A new game on a grid of side `size` with its mines at the positions
    /// `mines`, each given as `(row, col)`.
    ///
    /// There is no such game, and the result is `None`, unless the
    /// positions are a layout for the grid: see [`layout_ok`].
    pub fn from_mines(size: usize, mines: &Vec<(usize, usize)>) -> (result: Option<GameState>)
        ensures
            result is Some <==> layout_ok(size as nat, positions(mines@)),
            result matches Some(state) ==> {
                &&& state.wf()
                &&& is_new_game(state@, size as nat, mines@.len())
                &&& state@ == opening(fresh_board(size as nat, positions(mines@)), mines@.len())
            },
    {
        let cell_count = match size.checked_mul(size) {
            Some(cell_count) => cell_count,
            None => {
                return None;
            },
        };
        if mines.len() == 0 || mines.len() >= cell_count {
            return None;
        }
        let mut grid = blank_grid(size);
        if !lay_mines(&mut grid, mines) {
            return None;
        }
        proof {
            lemma_laid_out_is_bare(size as nat, positions(mines@));
        }
        Some(GameState::open(grid, mines.len()))
    }

    /// Starts play on a bare grid that holds its mines: fills in the
    /// neighbour counts, counts the cells to reveal, and makes the opening
    /// move.
    fn open(grid: Vec<Vec<Cell>>, mine_count: usize) -> (state: GameState)
        requires
            is_square(rows_of(grid@)),
            is_bare(rows_of(grid@)),
            mine_total(rows_of(grid@)) == mine_count,
            0 < mine_count < rows_of(grid@).len() * rows_of(grid@).len() <= usize::MAX,
        ensures
            state.wf(),
            state@ == opening(with_counts(rows_of(grid@)), mine_count as nat),
            is_new_game(state@, rows_of(grid@).len(), mine_count as nat),
    {
        let ghost bare = rows_of(grid@);
        proof {
            lemma_fresh_board_valid(bare, mine_count as nat);
            lemma_opening_is_new_game(bare, mine_count as nat);
        }
        let mut grid = grid;
        calculate_adjacent_mines(&mut grid);
        let size = grid.len();
        let mut state = GameState {
            grid,
            mine_count,
            game_over: false,
            won: false,
            unrevealed_non_mine_count: size * size - mine_count,
        };
        state.reveal_safe_starting_area();
        state
    }

    /// Makes the opening move for the player: reveals the cell a new game
    /// opens with.
    fn reveal_safe_starting_area(&mut self)
        requires
            old(self).wf(),
        ensures
            final(self).wf(),
            final(self)@ == after_reveal(
                old(self)@,
                start_cell(old(self)@.cells).0,
                start_cell(old(self)@.cells).1,
            ),
    {
        proof {
            lemma_grid_count_split(
                self@.cells,
                is_mine_cell(),
                is_safe_cell(),
                self@.cells.len(),
            );
        }
        let start = find_start_cell(&self.grid);
        proof {
            lemma_start_cell_is(self@.cells, start.0 as int, start.1 as int);
        }
        self.reveal_cell(start.0, start.1);
    }

    /// Reveals the cell at `(row, col)` and reports how the game stands
    /// afterwards.
    ///
    /// Nothing happens if the game has ended, if there is no such cell, or
    /// if the cell is already revealed or carries a flag. Revealing a mine
    /// ends the game. Revealing any other cell also reveals everything the
    /// reveal cascades to, and wins the game if that completes the board.
    pub fn reveal_cell(&mut self, row: usize, col: usize) -> (outcome: RevealOutcome)
        requires
            old(self).wf(),
        ensures
            final(self).wf(),
            final(self)@ == after_reveal(old(self)@, row as int, col as int),
            outcome == outcome_of(final(self)@),
    {
        let size = self.size();
        if self.game_over || self.won || row >= size || col >= size {
            return self.status();
        }
        let cell = cell_at(&self.grid, row, col);
        if cell.is_revealed || cell.is_flagged {
            return self.status();
        }
        proof {
            law_reveal_keeps_valid(self@, row as int, col as int);
        }
        if cell.is_mine {
            proof {
                lemma_grid_count_update(
                    self@.cells,
                    is_hidden_safe_cell(),
                    row as int,
                    col as int,
                    uncovered(cell),
                );
            }
            set_cell(&mut self.grid, row, col, Cell { is_revealed: true, ..cell });
            self.game_over = true;
            return RevealOutcome::Loss;
        }
        self.cascade(row, col);
        self.check_win();
        self.status()
    }

    /// Reveals everything a reveal of the covered, unflagged, mine-free cell
    /// `(row, col)` cascades to.
    ///
    /// The cells still to visit wait on a stack. A cell taken off the stack
    /// is skipped if it is revealed or flagged; else it is revealed, and if
    /// it has no mined neighbour, its neighbours go on the stack.
    fn cascade(&mut self, row: usize, col: usize)
        requires
            old(self).wf(),
            reveal_accepted(old(self)@, row as int, col as int),
            !old(self)@.cells[row as int][col as int].is_mine,
        ensures
            final(self)@ == (GameView {
                cells: reveal_region(
                    old(self)@.cells,
                    cascade_region(old(self)@.cells, row as int, col as int),
                ),
                ..old(self)@
            }),
            final(self).bookkeeping_ok(),
    {
        let size = self.size();
        let ghost before = self@.cells;
        let ghost start = (row as int, col as int);
        let ghost mut done: Set<(int, int)> = Set::empty();
        let mut pending: Vec<(usize, usize)> = Vec::new();
        pending.push((row, col));
        proof {
            lemma_cascade_start(before, start);
            assert(pending@[0] == (row, col));
            assert(self@.cells =~~= reveal_region(before, done));
        }
        while pending.len() > 0
            invariant
                size * size <= usize::MAX,
                before == old(self)@.cells,
                before.len() == size,
                is_square(before),
                adjacency_exact(before),
                start == (row as int, col as int),
                in_bounds(before, start.0, start.1),
                !before[start.0][start.1].is_mine,
                !before[start.0][start.1].is_revealed,
                !before[start.0][start.1].is_flagged,
                self@ == (GameView { cells: reveal_region(before, done), ..old(self)@ }),
                self.unrevealed_non_mine_count == hidden_safe_total(self@.cells),
                forall|p: (int, int)| done.contains(p) ==> cascades_to(before, start, p),
                stack_is_fed(pending@, before, start),
                spread_is_due(done, pending@, before),
                done.contains(start) || on_stack(pending@, start),
            decreases self.unrevealed_non_mine_count, pending.len(),
        {
            let ghost stack = pending@;
            let ghost reached = done;
            let ghost now = self@.cells;
            let top = pending.pop().unwrap();
            let r = top.0;
            let c = top.1;
            let ghost p = (r as int, c as int);
            proof {
                assert forall|b: (int, int)| on_stack(stack, b) implies on_stack(pending@, b) || b
                    == p by {
                    let k = choose|k: int|
                        0 <= k < stack.len() && (#[trigger] stack[k]).0 == b.0 && stack[k].1 == b.1;
                    if k < stack.len() - 1 {
                        assert(pending@[k] == stack[k]);
                    }
                }
                assert forall|k: int| 0 <= k < pending.len() implies #[trigger] pending[k]
                    == stack[k] by {}
            }
            let cell = cell_at(&self.grid, r, c);
            if !cell.is_revealed && !cell.is_flagged {
                proof {
                    lemma_cascade_target(before, start, p);
                    lemma_grid_count_update(now, is_hidden_safe_cell(), p.0, p.1, uncovered(cell));
                }
                set_cell(&mut self.grid, r, c, Cell { is_revealed: true, ..cell });
                self.unrevealed_non_mine_count -= 1;
                proof {
                    done = reached.insert(p);
                    assert(self@.cells =~~= reveal_region(before, done));
                }
                if cell.adjacent_mines == 0 {
                    let mut around = adjacent_cells(size, r, c);
                    let ghost near = around@;
                    let ghost rest = pending@;
                    pending.append(&mut around);
                    proof {
                        assert forall|k: int| 0 <= k < pending.len() implies {
                            let q = ((#[trigger] pending[k]).0 as int, pending[k].1 as int);
                            &&& in_bounds(before, q.0, q.1)
                            &&& !before[q.0][q.1].is_revealed && !before[q.0][q.1].is_flagged
                                ==> cascades_to(before, start, q)
                        } by {
                            let q = (pending[k].0 as int, pending[k].1 as int);
                            if k >= rest.len() {
                                lemma_neighbors_sound(size as int, p.0, p.1, k - rest.len());
                                if !before[q.0][q.1].is_revealed && !before[q.0][q.1].is_flagged {
                                    lemma_cascade_extend(before, start, p, q);
                                }
                            }
                        }
                        assert forall|b: (int, int)| on_stack(rest, b) implies {
                            on_stack(pending@, b)
                        } by {
                            let k = choose|k: int|
                                0 <= k < rest.len() && (#[trigger] rest[k]).0 == b.0 && rest[k].1
                                    == b.1;
                            assert(pending@[k] == rest[k]);
                        }
                        assert forall|a: (int, int), b: (int, int)|
                            done.contains(a) && #[trigger] spreads(before, a, b) implies {
                            done.contains(b) || on_stack(pending@, b)
                        } by {
                            if a == p {
                                lemma_neighbors_complete(size as int, p.0, p.1, b);
                                let j = choose|j: int|
                                    0 <= j < positions(near).len() && positions(near)[j] == b;
                                assert(pending@[rest.len() + j] == near[j]);
                            }
                        }
                    }
                }
            } else {
                proof {
                    assert(now[p.0][p.1].is_revealed ==> before[p.0][p.1].is_revealed
                        || done.contains(p));
                }
            }
        }
        proof {
            let region = cascade_region(before, row as int, col as int);
            assert forall|a: (int, int), b: (int, int)|
                done.contains(a) && #[trigger] spreads(before, a, b) implies done.contains(b) by {
                if on_stack(pending@, b) {
                    let k = choose|k: int|
                        0 <= k < pending@.len() && (#[trigger] pending@[k]).0 == b.0
                            && pending@[k].1 == b.1;
                }
            }
            if on_stack(pending@, start) {
                let k = choose|k: int|
                    0 <= k < pending@.len() && (#[trigger] pending@[k]).0 == start.0
                        && pending@[k].1 == start.1;
            }
            assert forall|t: (int, int)| region.contains(t) implies done.contains(t) by {
                lemma_cascade_least(before, start, done, t);
            }
            assert(done =~= region);
        }
    }

    /// Records a win if every safe cell is revealed and every mine flagged.
    fn check_win(&mut self)
        requires
            is_square(old(self)@.cells),
            old(self).bookkeeping_ok(),
        ensures
            final(self)@ == (GameView {
                won: old(self)@.won || win_condition(old(self)@.cells),
                ..old(self)@
            }),
            final(self).bookkeeping_ok(),
    {
        let ghost cells = self@.cells;
        if self.unrevealed_non_mine_count == 0 {
            proof {
                assert forall|r: int, c: int|
                    in_bounds(cells, r, c) && !(#[trigger] cells[r][c]).is_mine implies {
                    cells[r][c].is_revealed
                } by {
                    if !cells[r][c].is_revealed {
                        lemma_grid_count_positive(cells, is_hidden_safe_cell(), r, c);
                    }
                }
            }
            let size = self.size();
            let mut row: usize = 0;
            while row < size
                invariant
                    row <= size,
                    cells == self@.cells,
                    self@ == old(self)@,
                    self.bookkeeping_ok(),
                    cells.len() == size,
                    is_square(cells),
                    forall|r: int, c: int|
                        0 <= r < row && 0 <= c < size && (#[trigger] cells[r][c]).is_mine
                            ==> cells[r][c].is_flagged,
                decreases size - row,
            {
                let mut col: usize = 0;
                while col < size
                    invariant
                        row < size,
                        col <= size,
                        cells == self@.cells,
                        self@ == old(self)@,
                        self.bookkeeping_ok(),
                        cells.len() == size,
                        is_square(cells),
                        forall|r: int, c: int|
                            0 <= r < row && 0 <= c < size && (#[trigger] cells[r][c]).is_mine
                                ==> cells[r][c].is_flagged,
                        forall|c: int|
                            0 <= c < col && (#[trigger] cells[row as int][c]).is_mine
                                ==> cells[row as int][c].is_flagged,
                    decreases size - col,
                {
                    let cell = cell_at(&self.grid, row, col);
                    if cell.is_mine && !cell.is_flagged {
                        return ;
                    }
                    col += 1;
                }
                row += 1;
            }
            self.won = true;
        } else {
            proof {
                lemma_grid_count_witness(cells, is_hidden_safe_cell());
            }
        }
    }

    /// Sets a flag on the cell at `(row, col)`, or takes it off.
    ///
    /// Nothing happens if the game has ended, if there is no such cell, or
    /// if the cell is already revealed. Flagging the last mine wins the game
    /// if every safe cell is revealed.
    pub fn toggle_flag(&mut self, row: usize, col: usize)
        requires
            old(self).wf(),
        ensures
            final(self).wf(),
            final(self)@ == after_toggle(old(self)@, row as int, col as int),
    {
        let size = self.size();
        if self.game_over || self.won || row >= size || col >= size {
            return ;
        }
        let cell = cell_at(&self.grid, row, col);
        if cell.is_revealed {
            return ;
        }
        proof {
            law_toggle_keeps_valid(self@, row as int, col as int);
            lemma_grid_count_update(
                self@.cells,
                is_hidden_safe_cell(),
                row as int,
                col as int,
                flipped(cell),
            );
        }
        set_cell(&mut self.grid, row, col, Cell { is_flagged: !cell.is_flagged, ..cell });
        self.check_win();
    }

    /// Starts a new game of the same size and number of mines, if this one
    /// has ended; a game that is still running goes on.
    pub fn restart(&mut self)
        requires
            old(self).wf(),
        ensures
            final(self).wf(),
            !is_terminal(old(self)@) ==> final(self)@ == old(self)@,
            is_terminal(old(self)@) ==> is_new_game(
                final(self)@,
                old(self)@.cells.len(),
                old(self)@.mine_count,
            ),
    {
        if self.game_over || self.won {
            let size = self.size();
            *self = GameState::new(size, self.mine_count);
        }
    }

    /// Takes a click on the cell at `(row, col)`.
    ///
    /// On a game that has ended, any click starts a new game of the same
    /// size and number of mines. On a running game the primary button
    /// reveals the cell and the secondary button toggles its flag.
    pub fn click(&mut self, button: Click, row: usize, col: usize)
        requires
            old(self).wf(),
        ensures
            final(self).wf(),
            is_terminal(old(self)@) ==> is_new_game(
                final(self)@,
                old(self)@.cells.len(),
                old(self)@.mine_count,
            ),
            !is_terminal(old(self)@) ==> final(self)@ == after_click(
                old(self)@,
                button,
                row as int,
                col as int,
            ),
    {
        if self.game_over || self.won {
            self.restart();
            return ;
        }
        match button {
            Click::Primary => {
                self.reveal_cell(row, col);
            },
            Click::Secondary => {
                self.toggle_flag(row, col);
            },
            Click::Other => {},
        }
    }

    /// How the game stands.
    pub fn status(&self) -> (outcome: RevealOutcome)
        ensures
            outcome == outcome_of(self@),
    {
        if self.game_over {
            RevealOutcome::Loss
        } else if self.won {
            RevealOutcome::Win
        } else {
            RevealOutcome::Continue
        }
    }

    /// The side length of the grid.
    pub fn size(&self) -> (size: usize)
        ensures
            size == self@.cells.len(),
    {
        self.grid.len()
    }

    /// The number of mines the board was set up with.
    pub fn mine_count(&self) -> (mine_count: usize)
        ensures
            mine_count == self@.mine_count,
    {
        self.mine_count
    }

    /// Whether a mine has been revealed.
    pub fn is_game_over(&self) -> (game_over: bool)
        ensures
            game_over == self@.game_over,
    {
        self.game_over
    }

    /// Whether the player has won.
    pub fn is_won(&self) -> (won: bool)
        ensures
            won == self@.won,
    {
        self.won
    }

    /// The number of cells without a mine that are still covered.
    pub fn unrevealed_safe_count(&self) -> (count: usize)
        requires
            self.wf(),
        ensures
            count == hidden_safe_total(self@.cells),
    {
        self.unrevealed_non_mine_count
    }

    /// The cell at `(row, col)`, or `None` if the grid has no such cell.
    pub fn cell(&self, row: usize, col: usize) -> (cell: Option<Cell>)
        ensures
            cell == if in_bounds(self@.cells, row as int, col as int) {
                Some(self@.cells[row as int][col as int])
            } else {
                None
            },
    {
        if row < self.grid.len() {
            if col < self.grid[row].len() {
                return Some(self.grid[row][col]);
            }
        }
        None
    }
}

} // verus!
