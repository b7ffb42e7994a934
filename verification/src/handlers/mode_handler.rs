//! Switching between modes.
use vstd::prelude::*;

use crate::app::mode::Mode;
use crate::app::state::{State, StateView};
use crate::events::event::{Key, KeyInput};

verus! {

/// The state after a key press, as far as modes go: in normal mode `i`
/// starts writing a note and `:` opens the command line; in the other modes
/// Escape returns to normal mode and clears the selected rows.
pub open spec fn after_mode_key(v: StateView, input: KeyInput) -> StateView {
    match v.mode {
        Mode::Normal => if input.key == Key::Char('i') {
            StateView { mode: Mode::Insert, ..v }
        } else if input.key == Key::Char(':') {
            StateView { mode: Mode::Command, ..v }
        } else {
            v
        },
        _ => if input.key == Key::Esc {
            StateView { mode: Mode::Normal, selected_rows: Seq::empty(), ..v }
        } else {
            v
        },
    }
}

/// Changes the mode as the key press asks (see [`after_mode_key`]).
pub fn handle_mode(input: KeyInput, state: &mut State)
    ensures
        final(state)@ == after_mode_key(old(state)@, input),
        old(state)@.mode != Mode::Normal && input.key != Key::Esc ==> final(state)@ == old(state)@,
{
    match state.current_mode() {
        Mode::Normal => match input.key {
            Key::Char('i') => state.set_mode(Mode::Insert),
            Key::Char(':') => state.set_mode(Mode::Command),
            _ => {},
        },
        _ => {
            if let Key::Esc = input.key {
                state.set_mode(Mode::Normal);
                state.deselect_rows();
            }
        },
    }
}

/// Escape from any mode but normal leads back to normal mode with no rows
/// selected, whatever else the state holds.
pub proof fn lemma_escape_returns_to_normal(v: StateView, input: KeyInput)
    requires
        v.mode != Mode::Normal,
        input.key == Key::Esc,
    ensures
        after_mode_key(v, input).mode == Mode::Normal,
        after_mode_key(v, input).selected_rows == Seq::<usize>::empty(),
        after_mode_key(v, input).notes == v.notes,
        after_mode_key(v, input).pending == v.pending,
{
}

/// Only Escape leaves insert or command mode: any other key keeps the mode
/// and the whole state. In normal mode, `i` enters insert mode, `:` enters
/// command mode, and every other key changes nothing.
pub proof fn lemma_mode_keys(v: StateView, input: KeyInput)
    ensures
        v.mode != Mode::Normal && input.key != Key::Esc ==> after_mode_key(v, input) == v,
        v.mode == Mode::Normal && input.key == Key::Char('i') ==> after_mode_key(v, input).mode == Mode::Insert,
        v.mode == Mode::Normal && input.key == Key::Char(':') ==> after_mode_key(v, input).mode == Mode::Command,
        v.mode == Mode::Normal && input.key != Key::Char('i') && input.key != Key::Char(':')
            ==> after_mode_key(v, input) == v,
        v.mode != Mode::Normal && input.key == Key::Esc ==> after_mode_key(v, input).mode == Mode::Normal,
{
}

} // verus!
