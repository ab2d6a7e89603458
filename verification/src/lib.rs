//! A personal task tracker's core: the record format of the backing file,
//! the rules by which the store is rewritten, the board layout and the state
//! machine of the interactive session.

pub mod atomic;
pub mod board;
pub mod cli;
pub mod clock;
pub mod decimal;
pub mod laws;
pub mod manager;
pub mod store;
pub mod task;
pub mod text;
pub mod tui;
