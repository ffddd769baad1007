//! One position of the grid.

use vstd::prelude::*;

verus! {

/// A single cell of the minesweeper grid.
#[derive(Clone, Copy, Debug, PartialEq, Eq, Structural)]
pub struct Cell {
    /// Whether the cell holds a mine.
    pub is_mine: bool,
    /// Whether the cell has been uncovered.
    pub is_revealed: bool,
    /// Whether the player has put a flag on the cell.
    pub is_flagged: bool,
    /// Number of mines among the neighbours; kept at 0 for a mine.
    pub adjacent_mines: u8,
}

impl Cell {
    /// A covered, unflagged cell without a mine and without mined neighbours.
    pub fn new() -> (cell: Self)
        ensures
            cell == (Cell {
                is_mine: false,
                is_revealed: false,
                is_flagged: false,
                adjacent_mines: 0,
            }),
    {
        Cell { is_mine: false, is_revealed: false, is_flagged: false, adjacent_mines: 0 }
    }
}

/// What a cell shows to the player.
#[derive(Clone, Copy, Debug, PartialEq, Eq, Structural)]
pub enum CellFace {
    /// Still covered, without a flag.
    Covered,
    /// Still covered, with a flag on it.
    Flag,
    /// Revealed, and a mine.
    Mine,
    /// Revealed, with this many mines around it, at least one.
    Number(u8),
    /// Revealed, with no mine around it.
    Blank,
}

/// What `cell` shows to the player: its content once it is revealed, its
/// flag or its cover until then.
pub open spec fn face_of(cell: Cell) -> CellFace {
    if cell.is_revealed {
        if cell.is_mine {
            CellFace::Mine
        } else if cell.adjacent_mines > 0 {
            CellFace::Number(cell.adjacent_mines)
        } else {
            CellFace::Blank
        }
    } else if cell.is_flagged {
        CellFace::Flag
    } else {
        CellFace::Covered
    }
}

impl Cell {
    /// What the cell shows to the player.
    pub fn face(&self) -> (face: CellFace)
        ensures
            face == face_of(*self),
    {
        if self.is_revealed {
            if self.is_mine {
                CellFace::Mine
            } else if self.adjacent_mines > 0 {
                CellFace::Number(self.adjacent_mines)
            } else {
                CellFace::Blank
            }
        } else if self.is_flagged {
            CellFace::Flag
        } else {
            CellFace::Covered
        }
    }
}

} // verus!
