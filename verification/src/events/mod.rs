//! Input events from the user

pub mod event;
pub mod handlers;
