//! Orchestration core of a chess table: the authoritative session, the turn
//! arbiter, the two-click move selection, the single-slot search dispatcher,
//! the piece records of the presentation layer and their animation.

pub mod animator;
pub mod board;
pub mod laws;
pub mod players;
pub mod roots;
pub mod session;
pub mod status;
pub mod table;
pub mod visual;
