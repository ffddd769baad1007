//! A single-player Minesweeper engine whose rules are machine-checked.
//!
//! The engine owns a square grid of cells and tracks whether the game has
//! been lost or won. Every operation carries a contract over a mathematical
//! view of the game, and the rules of play are stated as proved laws.
//!
//! - [`board`], [`cascade`], [`rules`] and [`setup`] define the model: what
//!   a game is, how a reveal spreads, what each move does, and how a game
//!   begins.
//! - [`game`] holds the engine, [`GameState`]; [`grid`] and [`placement`]
//!   hold the scans over its storage and the laying of mines; [`random`]
//!   is the one place that calls unverified code.
//! - [`laws`] states what holds of every game; [`counting`] and
//!   [`neighborhood`] hold the lemmas the proofs rest on.

pub mod board;
pub mod cascade;
pub mod cell;
pub mod constants;
pub mod counting;
pub mod game;
pub mod grid;
pub mod laws;
pub mod neighborhood;
pub mod placement;
pub mod random;
pub mod rules;
pub mod setup;

pub use cell::{Cell, CellFace};
pub use constants::{GRID_SIZE, MINE_COUNT};
pub use game::GameState;
pub use rules::{Click, RevealOutcome};
