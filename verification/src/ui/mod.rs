//! What the terminal interface shows, decided on plain values.
pub mod color;
pub mod layout;
pub mod panel;
pub mod populator;
pub mod table;
