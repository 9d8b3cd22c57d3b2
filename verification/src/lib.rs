//! Rules engine for English draughts on an 8x8 board.
//!
//! [`Checkers`] holds a game: the board, the side to move, and the square of a
//! piece that is in the middle of a jump sequence. [`Checkers::get_steps`]
//! lists the legal moves of a square, one atomic step or jump at a time, and
//! [`Checkers::make_step`] plays one. Jumps are mandatory, and a piece that
//! can jump again must do so before the turn passes. A man that reaches the
//! farthest row is crowned as it lands; if a jump took it there, it goes on
//! jumping as a king while it can.
//!
//! The rules are written down once, as functions on a mathematical
//! [`rules::Position`], in `rules`; the executable code in `board` and `game`
//! is proved to compute them. `laws` and `symmetry` hold what follows from the
//! rules.

pub mod board;
pub mod game;
pub mod laws;
pub mod rules;
pub mod symmetry;

pub use board::{board_to_string, make_board};
pub use game::Checkers;
pub use rules::{Step, StepError, Turn};
