//! The standard configuration of the game.

use vstd::prelude::*;

verus! {

/// Side length of the standard board.
pub const GRID_SIZE: usize = 10;

/// Number of mines on the standard board.
pub const MINE_COUNT: usize = 15;

/// How many mined cells in a row the placement draws from the whole grid
/// before it draws from the free cells alone.
pub const MAX_MISSES: usize = 64;

} // verus!
