//! Moving through the notes to vote for them.
use vstd::prelude::*;

use crate::events::event::{Key, KeyInput};
use crate::handlers::group_handler::{row_above, row_below};
use crate::mode::Mode;
use crate::network::actions::NetworkAction;
use crate::state::note::Note;
use crate::state::state::{State, StateView};

verus! {

/// The request that Enter (a vote) or Backspace (an unvote) makes for the
/// note in the selected row of `notes` (all notes of the board), if there is
/// such a note.
pub open spec fn vote_request(selected: Option<usize>, notes: Seq<Note>, key: Key) -> Option<NetworkAction> {
    match selected {
        Some(index) => if index < notes.len() {
            if key == Key::Enter {
                Some(NetworkAction::Vote(notes[index as int].as_board_note()))
            } else if key == Key::Backspace {
                Some(NetworkAction::Unvote(notes[index as int].as_board_note()))
            } else {
                None
            }
        } else {
            None
        },
        None => None,
    }
}

/// In vote mode Down selects the next row, up to one past the last note,
/// and Up the previous one (with no row selected either selects the first);
/// Enter asks the network side to vote for the note in the selected row and
/// Backspace to take a vote from it, if there is such a note among all the
/// board's notes (the filter does not apply). Other keys,
/// and all keys outside vote mode, change nothing.
pub fn handle_vote(input: KeyInput, state: &mut State)
    requires
        old(state)@.mode == Mode::Vote && input.key == Key::Down ==> old(state)@.selected_row != Some(
            usize::MAX,
        ),
    ensures
        final(state).stored() == old(state).stored(),
        final(state)@ == (if old(state)@.mode != Mode::Vote {
            old(state)@
        } else if input.key == Key::Down {
            StateView {
                selected_row: Some(row_below(old(state)@.selected_row, old(state)@.notes.len() as int)),
                ..old(state)@
            }
        } else if input.key == Key::Up {
            StateView { selected_row: Some(row_above(old(state)@.selected_row)), ..old(state)@ }
        } else {
            match vote_request(old(state)@.selected_row, old(state).stored(), input.key) {
                Some(action) => StateView { pending: old(state)@.pending.push(action), ..old(state)@ },
                None => old(state)@,
            }
        }),
{
    if state.current_mode() != Mode::Vote {
        return;
    }
    match input.key {
        Key::Down => {
            let count = state.note_count();
            let next_row = match state.current_row() {
                Some(row) => if row + 1 <= count { row + 1 } else { count },
                None => 0,
            };
            state.select_row(next_row);
        },
        Key::Up => {
            let next_row = match state.current_row() {
                Some(row) => if row >= 1 { row - 1 } else { 0 },
                None => 0,
            };
            state.select_row(next_row);
        },
        Key::Enter | Key::Backspace => {
            if let Some(index) = state.current_row() {
                let notes = state.all_notes();
                if index < notes.len() {
                    let note = crate::app::note::Note::from(notes[index].clone());
                    if let Key::Enter = input.key {
                        state.dispatch(NetworkAction::Vote(note));
                    } else {
                        state.dispatch(NetworkAction::Unvote(note));
                    }
                }
            }
        },
        _ => {},
    }
}

} // verus!
