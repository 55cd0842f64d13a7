//! A verified betting-round engine for a poker table.
//!
//! The library consumes a time-ordered log of domain actions (seating, stack
//! changes, card deals, bets) and derives live game state together with a
//! round-progression tracker that decides, after each bet, whether the betting
//! round is closed and who must act next.

pub mod actions;
pub mod laws;
pub mod log;
pub mod projector;
pub mod resolver;
pub mod state;
pub mod tracker;
pub mod transition;
pub mod validate;
