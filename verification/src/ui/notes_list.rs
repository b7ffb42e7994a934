//! The list of notes.
use vstd::prelude::*;

use crate::app::mode::Mode;
use crate::app::note::Note;
use crate::app::state::State;
use crate::text::{decimal, push_char, push_decimal};

verus! {

/// How the note in row `index` is shown: in command mode the row number
/// comes first, so that commands can name it.
pub open spec fn note_line(note: Note, mode: Mode, index: usize) -> Seq<char> {
    match mode {
        Mode::Command => decimal(index as nat) + seq![' '] + note.display(),
        _ => note.display(),
    }
}

/// The line the list shows for the note in row `index`.
pub fn display_note(note: &Note, mode: &Mode, index: &usize) -> (s: String)
    ensures
        s@ == note_line(*note, *mode, *index),
{
    match mode {
        Mode::Command => {
            let mut s = String::new();
            push_decimal(&mut s, *index);
            push_char(&mut s, ' ');
            let shown = note.to_string();
            s.append(shown.as_str());
            assert(s@ =~= note_line(*note, *mode, *index));
            s
        },
        _ => note.to_string(),
    }
}

/// Whether row `index` is highlighted: in command mode, the rows the
/// command line selected are.
pub fn is_highlighted(index: &usize, state: &State) -> (r: bool)
    ensures
        r == (state@.mode == Mode::Command && state@.selected_rows.contains(*index)),
{
    if state.current_mode() != Mode::Command {
        return false;
    }
    let rows = state.chosen_rows();
    let mut i: usize = 0;
    while i < rows.len()
        invariant
            i <= rows@.len(),
            rows@ == state@.selected_rows,
            state@.mode == Mode::Command,
            forall|j: int| 0 <= j < i ==> rows@[j] != *index,
        decreases rows@.len() - i,
    {
        if rows[i] == *index {
            assert(rows@[i as int] == *index);
            assert(rows@.contains(*index));
            return true;
        }
        i = i + 1;
    }
    false
}

} // verus!
