//! Three-state cellular automata on toroidal grids: Conway's Game of Life
//! extended with a quiescent `Idle` state between `Dead` and `Alive`.
pub mod cell;
pub mod grid;
pub mod rules;
pub mod analysis;

pub use cell::TritCell;
pub use grid::LifeGrid;
pub use analysis::{detect_oscillation, find_still_life, history_min_max};
pub use rules::{DayAndNightTernary, HighLifeTernary, ThreeStateLife};

