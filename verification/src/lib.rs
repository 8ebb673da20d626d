//! A map of every port on the machine: which are listening, connected or in
//! UDP use, by which process, drawn as a grid of 65536 cells.
//!
//! `ports` turns the platform's socket listings into a table indexed by
//! port; `ui` decides what the grid, the active-ports panel and the kill
//! popup show; `kill` and `events` hold the interactive flow. `text` and
//! `num` are the character and number handling they share.
pub mod events;
pub mod kill;
pub mod num;
pub mod ports;
pub mod service;
pub mod text;
pub mod ui;
