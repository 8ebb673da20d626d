//! An early port grid: every cell a random color, the outer columns kept
//! blank to center the grid.
pub mod ports;
