//! Retro: a terminal board for running retrospectives.
//!
//! The verified library holds the board's state, its notes and votes, the
//! key handling that drives it, and the text rules that notes follow.

pub mod store;
pub mod string_set;
pub mod text;

/// App
pub mod app;

/// All UI components
pub mod ui;

/// CLI param parsing
pub mod cli;

/// Networking capabilities
pub mod network;

/// The modes of the board that keeps notes by id
pub mod mode;

/// The notes of the board that keeps notes by id
pub mod note;

/// Remote retro information
pub mod remote;

/// The state of the board that keeps notes by id
pub mod state;

/// Input events from the user
pub mod events;

/// Key handling
pub mod handlers;
