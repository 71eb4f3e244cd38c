//! Greedy coverage planning for one agent on a weighted grid.
//!
//! The agent walks cell by cell, prefers neighbours that were visited least,
//! keeps a short trail of recent cells that it will not step back onto, and
//! charges every move with the weight of the cell it arrives at.

mod chance;
pub mod executor;
pub mod grid;
pub mod laws;
pub mod model;
pub mod plan;
pub mod planner;
pub mod signal;
pub mod text;
