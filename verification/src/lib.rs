//! A discrete-time falling-sand automaton: a fixed-size grid of typed
//! cells advanced one tick at a time by local, neighbor-only rules, plus
//! a small cyclic tool selector for painting cells.

pub mod cell;
pub mod grid;
pub mod laws;
pub mod rules;
pub mod tools;

pub use cell::Cell;
pub use grid::Grid;
pub use tools::Tools;
