//! The help box.
use vstd::prelude::*;

use crate::app::state::{State, StateView};
use crate::events::event::{Key, KeyInput};

verus! {

/// `?` shows the help box, or hides it when it is shown; other keys leave it.
pub fn handle_show_help(input: KeyInput, state: &mut State)
    ensures
        final(state)@ == (if input.key == Key::Char('?') {
            StateView { show_help: !old(state)@.show_help, ..old(state)@ }
        } else {
            old(state)@
        }),
{
    if let Key::Char('?') = input.key {
        state.toggle_help();
    }
}

/// Pressing `?` twice leaves the help box as it was.
pub proof fn lemma_help_toggle_twice(v: StateView)
    ensures
        (StateView { show_help: !(StateView { show_help: !v.show_help, ..v }).show_help, ..v }) == v,
{
}

} // verus!
