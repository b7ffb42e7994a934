//! The board: its mode, notes, sentiments and state.

pub mod mode;
pub mod note;
pub mod sentiment;
pub mod state;
