//! Verified core of a multi-ant Langton's Ant simulation.
//!
//! The library owns the toroidal grid of two-state cells, the ant agents with
//! their translate/inspect/rotate/flip step rule, and the tick orchestration
//! that advances every ant and reports the cell colors to repaint.  Window
//! management, argument parsing and keyboard polling live outside the library.

pub mod ant;
pub mod config;
pub mod direction;
pub mod grid;
pub mod independence;
pub mod sim;
mod rng;
