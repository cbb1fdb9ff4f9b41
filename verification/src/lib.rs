//! Two-player board games with a depth-limited adversarial search.
//!
//! The crate holds the rules of a few small board games, an incremental
//! pattern-scoring engine for five-in-a-row, and a minimax search with
//! alpha-beta pruning that works over any game implementing the [`base::Board`]
//! and [`ai::AI`] traits.

pub mod ai;
pub mod base;
pub mod board;
pub mod display;
#[allow(non_snake_case)]
pub mod goT;
pub mod gobang;
pub mod score;
pub mod sums;
pub mod text;
pub mod tic_tac_toe;
pub mod tui;
