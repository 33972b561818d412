//! Line detection and heuristic scoring for five-in-a-row on a 19x19 board.

pub mod board;
pub mod moves;
pub mod sequence;
pub mod threats;
pub mod user_interface;
