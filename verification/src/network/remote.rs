//! What the board makes of the room's documents.
use vstd::prelude::*;

use crate::app::note::{field_sentiment, field_text, field_votes, Note, NoteFields};
use crate::app::state::{State, StateView};
use crate::network::network::retro_project;
use crate::string_set::{texts, StringSet};

verus! {

/// The path of the database of project `project`.
pub open spec fn database_root(project: Seq<char>) -> Seq<char> {
    "projects/"@ + project + "/databases/(default)"@
}

/// A stored note: the document's name and its fields.
#[derive(Debug)]
pub struct StoredNote {
    /// The document's name.
    pub name: String,
    /// The document's fields.
    pub fields: NoteFields,
}

/// `n` is what the board reads from document `d`: the note of its fields,
/// with the document's name as its id.
pub open spec fn reads_as(n: Note, d: StoredNote) -> bool {
    &&& n.id@ == d.name@
    &&& n.text@ == field_text(d.fields.text)
    &&& n.author@ == field_text(d.fields.author)
    &&& n.sentiment == field_sentiment(d.fields.sentiment)
    &&& n.votes == field_votes(d.fields.votes)
}

/// The authors of `notes`.
pub open spec fn authors_of(notes: Seq<Note>) -> Set<Seq<char>> {
    Set::new(|a: Seq<char>| exists|i: int| 0 <= i < notes.len() && #[trigger] notes[i].author@ == a)
}

/// A connection to the room's documents.
#[derive(Debug, Clone)]
pub struct Remote<'a> {
    project_id: &'static str,
    room_id: &'a String,
}

impl<'a> Remote<'a> {
    /// The project the documents are kept in.
    pub closed spec fn project(&self) -> Seq<char> {
        self.project_id@
    }

    /// The room the documents belong to.
    pub closed spec fn room(&self) -> Seq<char> {
        self.room_id@
    }

    /// A connection to room `room_id` of the board's project.
    pub fn new(room_id: &'a String) -> (r: Self)
        ensures
            r.project() == retro_project(),
            r.room() == room_id@,
    {
        let project_id = "retrodog-23512";
        Remote { project_id, room_id }
    }

    /// The path of the project's database.
    pub fn database_path(&self) -> (p: String)
        ensures
            p@ == database_root(self.project()),
    {
        let mut p = String::from_str("projects/");
        p.append(self.project_id);
        p.append("/databases/(default)");
        p
    }

    /// The path of the room's documents, inside the database.
    pub fn room_path(&self) -> (p: String)
        ensures
            p@ == database_root(self.project()) + "/documents/retros/"@ + self.room(),
    {
        let mut p = self.database_path();
        p.append("/documents/retros/");
        p.append(self.room_id.as_str());
        p
    }
}

/// The notes of the room's documents, last document first.
pub fn notes_from_documents(documents: Vec<StoredNote>) -> (notes: Vec<Note>)
    ensures
        notes@.len() == documents@.len(),
        forall|i: int| 0 <= i < notes@.len() ==> reads_as(#[trigger] notes@[i], documents@[documents@.len() - 1 - i]),
{
    let ghost all = documents@;
    let mut rest = documents;
    let mut notes: Vec<Note> = Vec::new();
    while rest.len() > 0
        invariant
            rest@.len() + notes@.len() == all.len(),
            rest@ == all.take(rest@.len() as int),
            forall|i: int| 0 <= i < notes@.len() ==> reads_as(#[trigger] notes@[i], all[all.len() - 1 - i]),
        decreases rest@.len(),
    {
        let ghost k = rest@.len() - 1;
        let document = rest.pop().unwrap();
        assert(document == all[k]);
        assert(rest@ =~= all.take(k));
        let mut note = Note::from_fields(document.fields);
        note.id = document.name;
        notes.push(note);
    }
    notes
}

/// The authors of `notes`, each once.
pub fn participants_of(notes: &Vec<Note>) -> (r: StringSet)
    ensures
        r@ == authors_of(notes@),
{
    let mut authors: Vec<String> = Vec::new();
    let mut i: usize = 0;
    while i < notes.len()
        invariant
            i <= notes@.len(),
            authors@.len() == i,
            forall|j: int| 0 <= j < i ==> #[trigger] authors@[j]@ == notes@[j].author@,
        decreases notes@.len() - i,
    {
        authors.push(notes[i].author.clone());
        i = i + 1;
    }
    let r = StringSet::from_vec(authors);
    assert(r@ =~= authors_of(notes@)) by {
        assert forall|a: Seq<char>| r@.contains(a) <==> authors_of(notes@).contains(a) by {
            if texts(authors@).contains(a) {
                let j = choose|j: int| 0 <= j < texts(authors@).len() && texts(authors@)[j] == a;
                assert(notes@[j].author@ == a);
            }
            if authors_of(notes@).contains(a) {
                let j = choose|j: int| 0 <= j < notes@.len() && #[trigger] notes@[j].author@ == a;
                assert(texts(authors@)[j] == a);
            }
        }
    }
    r
}

/// Shows the room's documents on the board: its notes become the board's
/// notes, last document first, and their authors its participants.
pub fn show_documents(state: &mut State, documents: Vec<StoredNote>)
    ensures
        final(state)@.notes.len() == documents@.len(),
        forall|i: int|
            0 <= i < final(state)@.notes.len() ==> reads_as(
                #[trigger] final(state)@.notes[i],
                documents@[documents@.len() - 1 - i],
            ),
        final(state)@ == (StateView {
            notes: final(state)@.notes,
            participants: authors_of(final(state)@.notes),
            ..old(state)@
        }),
{
    let notes = notes_from_documents(documents);
    let participants = participants_of(&notes);
    let ghost seen = notes@;
    state.set_notes(notes);
    state.set_participants(participants);
}

/// The note with one more vote, as it is written back to the room.
pub fn with_one_more_vote(note: &Note) -> (r: Note)
    requires
        note.votes < 255,
    ensures
        r == (Note { votes: (note.votes + 1) as u8, ..*note }),
{
    let mut r = note.clone();
    r.votes = note.votes + 1;
    r
}

} // verus!
