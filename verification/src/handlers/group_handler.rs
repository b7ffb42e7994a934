//! Moving through the notes to group them.
use vstd::prelude::*;

use crate::events::event::{Key, KeyInput};
use crate::mode::Mode;
use crate::state::state::{State, StateView};

verus! {

/// The row below `row`, but not past `last`; the first row when none is
/// selected.
pub open spec fn row_below(row: Option<usize>, last: int) -> usize {
    match row {
        Some(r) => if r + 1 <= last {
            (r + 1) as usize
        } else {
            last as usize
        },
        None => 0,
    }
}

/// The row above `row`, but not before the first; the first row when none
/// is selected.
pub open spec fn row_above(row: Option<usize>) -> usize {
    match row {
        Some(r) => if r >= 1 {
            (r - 1) as usize
        } else {
            0
        },
        None => 0,
    }
}

/// The last row the group mode can select among `count` notes.
pub open spec fn last_group_row(count: nat) -> int {
    if count >= 1 {
        count - 1
    } else {
        0
    }
}

/// In group mode Down selects the next row, up to the last note, and Up the
/// previous one; with no row selected either selects the first. Other keys,
/// and all keys outside group mode, change nothing.
pub fn handle_group(input: KeyInput, state: &mut State)
    requires
        old(state)@.mode == Mode::Group && input.key == Key::Down ==> old(state)@.selected_row != Some(
            usize::MAX,
        ),
    ensures
        final(state)@ == (if old(state)@.mode == Mode::Group && input.key == Key::Down {
            StateView {
                selected_row: Some(row_below(old(state)@.selected_row, last_group_row(old(state)@.notes.len()))),
                ..old(state)@
            }
        } else if old(state)@.mode == Mode::Group && input.key == Key::Up {
            StateView { selected_row: Some(row_above(old(state)@.selected_row)), ..old(state)@ }
        } else {
            old(state)@
        }),
{
    if state.current_mode() != Mode::Group {
        return;
    }
    match input.key {
        Key::Down => {
            let count = state.note_count();
            let last = if count >= 1 { count - 1 } else { 0 };
            let next_row = match state.current_row() {
                Some(row) => if row + 1 <= last { row + 1 } else { last },
                None => 0,
            };
            state.select_row(next_row);
        },
        Key::Up => {
            let next_row = match state.current_row() {
                Some(row) => if row >= 1 { row - 1 } else { 0 },
                None => 0,
            };
            state.select_row(next_row);
        },
        _ => {},
    }
}

/// Moving down in group mode never leaves the notes: from a row on the
/// board, the next row is on the board too.
pub proof fn lemma_row_below_stays(row: Option<usize>, count: nat)
    requires
        count >= 1,
        row matches Some(r) ==> r < count,
    ensures
        row_below(row, last_group_row(count)) < count,
{
}

} // verus!
