//! Key handling: what each key press does to the board.
use vstd::prelude::*;

use crate::app::mode::Mode;
use crate::events::event::{Key, KeyInput};

pub mod command_handler;
pub mod group_handler;
pub mod help_handler;
pub mod insert_handler;
pub mod mode_handler;
pub mod vote_handler;

verus! {

/// Whether a key press ends the session: `q` in normal mode.
pub fn quits(input: KeyInput, mode: Mode) -> (r: bool)
    ensures
        r == (input.key == Key::Char('q') && mode == Mode::Normal),
{
    match (input.key, mode) {
        (Key::Char('q'), Mode::Normal) => true,
        _ => false,
    }
}

} // verus!
