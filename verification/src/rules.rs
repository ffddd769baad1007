//! The moves of the game, as functions from one [`GameView`] to the next.

use vstd::prelude::*;
use crate::board::{in_bounds, reveal_region, uncovered, win_condition, with_cell, GameView};
use crate::cascade::cascade_region;
use crate::cell::Cell;

verus! {

/// How the game stands after a reveal.
#[derive(Clone, Copy, Debug, PartialEq, Eq, Structural)]
pub enum RevealOutcome {
    /// The game goes on.
    Continue,
    /// Every safe cell is revealed and every mine flagged.
    Win,
    /// A mine has been revealed.
    Loss,
}

/// The outcome that describes a game: lost if a mine is revealed, else won
/// if the win is recorded, else still running.
pub open spec fn outcome_of(v: GameView) -> RevealOutcome {
    if v.game_over {
        RevealOutcome::Loss
    } else if v.won {
        RevealOutcome::Win
    } else {
        RevealOutcome::Continue
    }
}

/// The game has ended, by a loss or by a win.
pub open spec fn is_terminal(v: GameView) -> bool {
    v.game_over || v.won
}

/// A reveal of `(r, c)` acts on the game: the game is running, and the cell
/// exists and is neither revealed nor flagged.
pub open spec fn reveal_accepted(v: GameView, r: int, c: int) -> bool {
    &&& !is_terminal(v)
    &&& in_bounds(v.cells, r, c)
    &&& !v.cells[r][c].is_revealed
    &&& !v.cells[r][c].is_flagged
}

/// The game after a reveal of `(r, c)`.
///
/// A reveal that is not accepted changes nothing. A reveal of a mine
/// uncovers that one cell and ends the game. Any other reveal uncovers
/// everything it cascades to and records a win if that completes the board.
pub open spec fn after_reveal(v: GameView, r: int, c: int) -> GameView {
    if !reveal_accepted(v, r, c) {
        v
    } else if v.cells[r][c].is_mine {
        GameView { cells: with_cell(v.cells, r, c, uncovered(v.cells[r][c])), game_over: true, ..v }
    } else {
        let cells = reveal_region(v.cells, cascade_region(v.cells, r, c));
        GameView { cells, won: win_condition(cells), ..v }
    }
}

/// A flag toggle at `(r, c)` acts on the game: the game is running, and the
/// cell exists and is still covered.
pub open spec fn toggle_accepted(v: GameView, r: int, c: int) -> bool {
    &&& !is_terminal(v)
    &&& in_bounds(v.cells, r, c)
    &&& !v.cells[r][c].is_revealed
}

/// The cell with its flag set if it was clear, and cleared if it was set.
pub open spec fn flipped(cell: Cell) -> Cell {
    Cell { is_flagged: !cell.is_flagged, ..cell }
}

/// The game after a flag toggle at `(r, c)`.
///
/// A toggle that is not accepted changes nothing. Any other toggle flips the
/// flag of that one cell and records a win if that completes the board.
pub open spec fn after_toggle(v: GameView, r: int, c: int) -> GameView {
    if !toggle_accepted(v, r, c) {
        v
    } else {
        let cells = with_cell(v.cells, r, c, flipped(v.cells[r][c]));
        GameView { cells, won: win_condition(cells), ..v }
    }
}

/// What the player pressed on a cell.
#[derive(Clone, Copy, Debug, PartialEq, Eq, Structural)]
pub enum Click {
    /// The button that reveals.
    Primary,
    /// The button that flags.
    Secondary,
    /// Any other button.
    Other,
}

/// A running game after a click on `(r, c)`: the primary button reveals,
/// the secondary button toggles the flag, any other button does nothing.
pub open spec fn after_click(v: GameView, button: Click, r: int, c: int) -> GameView {
    match button {
        Click::Primary => after_reveal(v, r, c),
        Click::Secondary => after_toggle(v, r, c),
        Click::Other => v,
    }
}

} // verus!
