//! Networking capabilities

pub mod actions;
pub mod network;
pub mod remote;
