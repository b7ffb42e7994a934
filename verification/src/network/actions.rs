//! The requests the board hands to the network side.
use vstd::prelude::*;

use crate::app::note::Note;

verus! {

/// A request for the network side of the board.
#[derive(Debug, Clone)]
pub enum NetworkAction {
    /// Join the retro of the given room.
    JoinRetro(String),
    /// Publish a new note.
    PublishNote(Note),
    /// Give a note one more vote.
    Vote(Note),
    /// Take a vote back from a note.
    Unvote(Note),
    /// Group two notes into one.
    Group(Note, Note),
    /// Fetch all notes of the room.
    GetNotes,
    /// Wait for the next change in the room.
    ListenForChanges,
}

} // verus!
