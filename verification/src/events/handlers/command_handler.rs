//! The command line of the board that votes for the selected rows.
use vstd::prelude::*;

use crate::app::mode::Mode;
use crate::app::state::{downvoted, upvoted, State, StateView};
use crate::events::event::{word_edit, word_edit_of, EditAction, Key, KeyInput};

verus! {

/// The state after this user votes for (`up`) or takes back the vote from
/// the note in each of `rows`, in order; rows without a note are skipped.
pub open spec fn vote_rows(v: StateView, rows: Seq<usize>, up: bool) -> StateView
    decreases rows.len(),
{
    if rows.len() == 0 {
        v
    } else {
        let prev = vote_rows(v, rows.drop_last(), up);
        let i = rows.last();
        if i < prev.notes.len() {
            if up {
                upvoted(prev, prev.notes[i as int])
            } else {
                downvoted(prev, prev.notes[i as int])
            }
        } else {
            prev
        }
    }
}

proof fn lemma_vote_rows_keeps_notes(v: StateView, rows: Seq<usize>, up: bool)
    ensures
        vote_rows(v, rows, up).notes == v.notes,
    decreases rows.len(),
{
    if rows.len() > 0 {
        lemma_vote_rows_keeps_notes(v, rows.drop_last(), up);
    }
}

/// Voting for rows leaves every earlier vote in place and adds a vote for
/// the note of each selected row; taking votes back removes this user's
/// vote from the note of each selected row and adds none.
pub proof fn lemma_vote_rows_marks_rows(v: StateView, rows: Seq<usize>)
    ensures
        forall|id: Seq<char>| v.voted.contains(id) ==> #[trigger] vote_rows(v, rows, true).voted.contains(id),
        forall|j: int|
            0 <= j < rows.len() && rows[j] < v.notes.len() ==> vote_rows(v, rows, true).voted.contains(
                v.notes[#[trigger] rows[j] as int].id@,
            ),
        forall|id: Seq<char>| #[trigger] vote_rows(v, rows, false).voted.contains(id) ==> v.voted.contains(id),
        forall|j: int|
            0 <= j < rows.len() && rows[j] < v.notes.len() ==> !vote_rows(v, rows, false).voted.contains(
                v.notes[#[trigger] rows[j] as int].id@,
            ),
    decreases rows.len(),
{
    if rows.len() > 0 {
        let prefix = rows.drop_last();
        lemma_vote_rows_marks_rows(v, prefix);
        lemma_vote_rows_keeps_notes(v, prefix, true);
        lemma_vote_rows_keeps_notes(v, prefix, false);
        let up = vote_rows(v, rows, true);
        let down = vote_rows(v, rows, false);
        let i = rows.last();
        assert forall|j: int| 0 <= j < rows.len() && rows[j] < v.notes.len() implies up.voted.contains(
            v.notes[#[trigger] rows[j] as int].id@,
        ) by {
            if j < rows.len() - 1 {
                assert(prefix[j] == rows[j]);
            }
        }
        assert forall|j: int| 0 <= j < rows.len() && rows[j] < v.notes.len() implies !down.voted.contains(
            v.notes[#[trigger] rows[j] as int].id@,
        ) by {
            if j < rows.len() - 1 {
                assert(prefix[j] == rows[j]);
            }
        }
    }
}

/// What Enter does with a command text that starts with `c`: `v` votes for
/// the selected rows, `d` takes the votes back, anything else does nothing.
pub open spec fn after_enter(v: StateView, c: char) -> StateView {
    if c == 'v' {
        vote_rows(v, v.selected_rows, true)
    } else if c == 'd' {
        vote_rows(v, v.selected_rows, false)
    } else {
        v
    }
}

/// Enter on a text starting with `v` leaves this user voting for the note
/// of every selected row; on `d` for none of them; on any other character
/// it changes nothing.
pub proof fn lemma_enter_commands(v: StateView, c: char)
    ensures
        c == 'v' ==> forall|j: int|
            0 <= j < v.selected_rows.len() && v.selected_rows[j] < v.notes.len() ==> after_enter(v, c).voted.contains(
                v.notes[#[trigger] v.selected_rows[j] as int].id@,
            ),
        c == 'd' ==> forall|j: int|
            0 <= j < v.selected_rows.len() && v.selected_rows[j] < v.notes.len() ==> !after_enter(v, c).voted.contains(
                v.notes[#[trigger] v.selected_rows[j] as int].id@,
            ),
        c != 'v' && c != 'd' ==> after_enter(v, c) == v,
{
    lemma_vote_rows_marks_rows(v, v.selected_rows);
}

/// Votes (`up`) or takes back votes for the notes in the selected rows.
fn vote_selected(state: &mut State, up: bool)
    ensures
        final(state)@ == vote_rows(old(state)@, old(state)@.selected_rows, up),
{
    let rows = state.chosen_rows().clone();
    let ghost start = state@;
    let mut i: usize = 0;
    while i < rows.len()
        invariant
            i <= rows@.len(),
            rows@ == start.selected_rows,
            state@ == vote_rows(start, rows@.take(i as int), up),
        decreases rows@.len() - i,
    {
        proof {
            assert(rows@.take(i + 1).drop_last() =~= rows@.take(i as int));
            lemma_vote_rows_keeps_notes(start, rows@.take(i as int), up);
        }
        let found = match state.note_at(rows[i]) {
            Some(note) => Some(note.clone()),
            None => None,
        };
        if let Some(note) = found {
            if up {
                state.upvote(&note);
            } else {
                state.downvote(&note);
            }
        }
        i = i + 1;
    }
    assert(rows@.take(i as int) =~= rows@);
}

/// In command mode a key press edits the command line: Escape clears it and
/// the selected rows, Alt with Backspace, Left or Right deletes or moves by
/// words, Enter votes for the selected rows when the command text (`text`,
/// the box's lines joined together) starts with `v` and takes the votes
/// back when it starts with `d`, and any other key is typed. The edit for
/// the command box is returned; outside command mode nothing happens. After
/// the edit, [`crate::handlers::command_handler::apply_command_line`] reads
/// the box's first line and selects the rows it names.
/// Enter needs a command text whose first character is ASCII.
pub fn handle_command(input: KeyInput, state: &mut State, text: &str) -> (edit: Option<EditAction>)
    requires
        old(state)@.mode == Mode::Command && input.key == Key::Enter ==> text@.len() > 0 && (text@[0] as u32) < 128,
    ensures
        old(state)@.mode != Mode::Command ==> edit is None && final(state)@ == old(state)@,
        old(state)@.mode == Mode::Command ==> if input.key == Key::Esc {
            &&& edit == Some(EditAction::DeleteLineByHead)
            &&& final(state)@ == (StateView { selected_rows: Seq::empty(), ..old(state)@ })
        } else {
            match word_edit(input) {
                Some(e) => edit == Some(e) && final(state)@ == old(state)@,
                None => if input.key == Key::Enter {
                    &&& edit == Some(EditAction::Keep)
                    &&& final(state)@ == after_enter(old(state)@, text@[0])
                } else {
                    edit == Some(EditAction::Input) && final(state)@ == old(state)@
                },
            }
        },
{
    if state.current_mode() != Mode::Command {
        return None;
    }
    if let Key::Esc = input.key {
        state.deselect_rows();
        return Some(EditAction::DeleteLineByHead);
    }
    if let Some(e) = word_edit_of(input) {
        return Some(e);
    }
    match input.key {
        Key::Enter => {
            let c = text.get_char(0);
            if c == 'v' {
                vote_selected(state, true);
            } else if c == 'd' {
                vote_selected(state, false);
            }
            Some(EditAction::Keep)
        },
        _ => Some(EditAction::Input),
    }
}

} // verus!
