//! Writing a note.
use vstd::prelude::*;

use crate::app::mode::Mode;
use crate::app::state::{published, State};
use crate::events::event::{word_edit, word_edit_of, EditAction, Key, KeyInput};

verus! {

/// In insert mode a key press edits the note being written: Alt with
/// Backspace, Left or Right deletes or moves by words, Enter publishes the
/// text (`text`, the box's lines joined by newlines) unless it is empty and
/// clears the line, and any other key is typed. The edit for the text box
/// is returned; outside insert mode nothing happens.
pub fn handle_insert(input: KeyInput, state: &mut State, text: &str) -> (edit: Option<EditAction>)
    ensures
        old(state)@.mode != Mode::Insert ==> edit is None && final(state)@ == old(state)@,
        old(state)@.mode == Mode::Insert ==> match word_edit(input) {
            Some(e) => edit == Some(e) && final(state)@ == old(state)@,
            None => if input.key == Key::Enter {
                &&& edit == Some(EditAction::DeleteLineByHead)
                &&& published(old(state)@, final(state)@, text@)
            } else {
                edit == Some(EditAction::Input) && final(state)@ == old(state)@
            },
        },
{
    if state.current_mode() != Mode::Insert {
        return None;
    }
    if let Some(e) = word_edit_of(input) {
        return Some(e);
    }
    match input.key {
        Key::Enter => {
            state.publish_text(text);
            Some(EditAction::DeleteLineByHead)
        },
        _ => Some(EditAction::Input),
    }
}

} // verus!
