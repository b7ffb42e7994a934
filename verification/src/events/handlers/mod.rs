//! Key handling of the board that votes from the command line.

pub mod command_handler;
