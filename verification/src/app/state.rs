//! The board's state as the user's terminal holds it.
use vstd::prelude::*;

use super::mode::Mode;
use super::note::{sentiment_of, strip_faces, Note};
use super::sentiment::Sentiment;
use crate::cli::RetroArgs;
use crate::network::actions::NetworkAction;
use crate::string_set::StringSet;

verus! {

/// How many of `notes` carry sentiment `s`.
pub open spec fn count_sentiment(notes: Seq<Note>, s: Sentiment) -> nat
    decreases notes.len(),
{
    if notes.len() == 0 {
        0
    } else {
        count_sentiment(notes.drop_last(), s) + if notes.last().sentiment == s {
            1nat
        } else {
            0nat
        }
    }
}

/// Whether a note carries sentiment `s`.
pub open spec fn with_sentiment(s: Sentiment) -> spec_fn(Note) -> bool {
    |n: Note| n.sentiment == s
}

/// The count of sentiment `s` is the number of notes whose sentiment is `s`.
pub proof fn lemma_count_is_notes_of_sentiment(notes: Seq<Note>, s: Sentiment)
    ensures
        count_sentiment(notes, s) == notes.filter(with_sentiment(s)).len(),
    decreases notes.len(),
{
    reveal(Seq::filter);
    if notes.len() > 0 {
        lemma_count_is_notes_of_sentiment(notes.drop_last(), s);
    }
}

/// Every note is counted under exactly one sentiment.
pub proof fn lemma_counts_cover_notes(notes: Seq<Note>)
    ensures
        count_sentiment(notes, Sentiment::Happy) + count_sentiment(notes, Sentiment::Sad)
            + count_sentiment(notes, Sentiment::Neutral) == notes.len(),
    decreases notes.len(),
{
    if notes.len() > 0 {
        lemma_counts_cover_notes(notes.drop_last());
    }
}

/// What the state holds, as values.
pub struct StateView {
    /// The selected row.
    pub selected_row: Option<usize>,
    /// The selected rows.
    pub selected_rows: Seq<usize>,
    /// The participants' display names.
    pub participants: Set<Seq<char>>,
    /// The sentiment filter.
    pub filter: Option<Sentiment>,
    /// The mode.
    pub mode: Mode,
    /// The notes, in the order the room lists them.
    pub notes: Seq<Note>,
    /// The ids of the notes this user has voted for.
    pub voted: Set<Seq<char>>,
    /// Whether the help box is shown.
    pub show_help: bool,
    /// The user's display name.
    pub display_name: Seq<char>,
    /// The requests for the network side not yet handed over, oldest first.
    pub pending: Seq<NetworkAction>,
    /// How many ticks have passed.
    pub tick_count: usize,
}

/// The state after this user votes for `note`: unless the user already has,
/// the vote is handed to the network side and the note's id remembered.
pub open spec fn upvoted(v: StateView, note: Note) -> StateView {
    if v.voted.contains(note.id@) {
        v
    } else {
        StateView {
            voted: v.voted.insert(note.id@),
            pending: v.pending.push(NetworkAction::Vote(note)),
            ..v
        }
    }
}

/// The state after this user takes back the vote for `note`: if the user
/// voted for it, the unvote is handed to the network side and the id
/// forgotten.
pub open spec fn downvoted(v: StateView, note: Note) -> StateView {
    if v.voted.contains(note.id@) {
        StateView {
            voted: v.voted.remove(note.id@),
            pending: v.pending.push(NetworkAction::Unvote(note)),
            ..v
        }
    } else {
        v
    }
}

/// `n` is the note `Note::new` makes of `text` by `author`.
pub open spec fn new_note_of(n: Note, author: Seq<char>, text: Seq<char>) -> bool {
    &&& n.author@ == author
    &&& n.id@ == text
    &&& n.text@ == strip_faces(text)
    &&& n.sentiment == sentiment_of(text)
    &&& n.votes == 0
}

/// The state after the user submits `text` as a note: a note of the user's
/// made of a text that is not empty is handed to the network side; an empty
/// text changes nothing.
pub open spec fn published(before: StateView, after: StateView, text: Seq<char>) -> bool {
    if text.len() > 0 {
        &&& after == (StateView { pending: before.pending.push(after.pending.last()), ..before })
        &&& after.pending.last() matches NetworkAction::PublishNote(n) && new_note_of(n, before.display_name, text)
    } else {
        after == before
    }
}

/// A vote taken back right after it was given leaves this user's votes as
/// they were; both requests go to the network side, in order.
pub proof fn lemma_downvote_undoes_upvote(v: StateView, note: Note)
    requires
        !v.voted.contains(note.id@),
    ensures
        downvoted(upvoted(v, note), note).voted == v.voted,
        downvoted(upvoted(v, note), note).pending == v.pending.push(NetworkAction::Vote(note)).push(
            NetworkAction::Unvote(note),
        ),
{
    assert(v.voted.insert(note.id@).remove(note.id@) =~= v.voted);
}

/// A user's second vote for the same note hands nothing more to the
/// network side: each user votes for a note at most once.
pub proof fn lemma_upvote_once(v: StateView, note: Note)
    ensures
        upvoted(upvoted(v, note), note) == upvoted(v, note),
{
}

/// Application state
#[derive(Debug)]
pub struct State {
    /// what row is selected (used by the vote/group modes)
    pub selected_row: Option<usize>,
    /// the rows that the command line names
    pub selected_rows: Vec<usize>,
    /// List of participants (display_names)
    pub participants: StringSet,
    /// if in filter mode display only the notes matching this filter
    pub filter: Option<Sentiment>,
    /// Active mode
    pub mode: Mode,
    /// List of all notes, by any author
    pub notes: Vec<Note>,
    /// A set of ids for the notes the current user has voted for
    my_votes: StringSet,
    /// If true, a box with a list of shorcuts for the active mode will be shown
    pub show_help: bool,
    /// Display name of the current user
    pub display_name: String,
    /// Requests for the network side, oldest first
    outbox: Vec<NetworkAction>,
    /// Tick count, decides when to redraw the ui
    pub tick_count: usize,
}

impl View for State {
    type V = StateView;

    closed spec fn view(&self) -> StateView {
        StateView {
            selected_row: self.selected_row,
            selected_rows: self.selected_rows@,
            participants: self.participants@,
            filter: self.filter,
            mode: self.mode,
            notes: self.notes@,
            voted: self.my_votes@,
            show_help: self.show_help,
            display_name: self.display_name@,
            pending: self.outbox@,
            tick_count: self.tick_count,
        }
    }
}

impl State {
    /// A fresh board for the user named in `args`: normal mode, no notes,
    /// participants, votes, filter or selection, help hidden, nothing pending.
    pub fn new(args: RetroArgs) -> (s: Self)
        ensures
            s@ == (StateView {
                selected_row: None,
                selected_rows: Seq::empty(),
                participants: Set::empty(),
                filter: None,
                mode: Mode::Normal,
                notes: Seq::empty(),
                voted: Set::empty(),
                show_help: false,
                display_name: args.display_name@,
                pending: Seq::empty(),
                tick_count: 0,
            }),
    {
        State {
            selected_row: None,
            selected_rows: Vec::new(),
            participants: StringSet::new(),
            filter: None,
            mode: Mode::Normal,
            notes: Vec::new(),
            my_votes: StringSet::new(),
            show_help: false,
            display_name: args.display_name,
            outbox: Vec::new(),
            tick_count: 0,
        }
    }

    /// Hands a request to the network side (it waits until taken).
    pub fn dispatch(&mut self, action: NetworkAction)
        ensures
            final(self)@ == (StateView { pending: old(self)@.pending.push(action), ..old(self)@ }),
    {
        self.outbox.push(action);
    }

    /// Takes the pending requests, oldest first.
    pub fn take_actions(&mut self) -> (actions: Vec<NetworkAction>)
        ensures
            actions@ == old(self)@.pending,
            final(self)@ == (StateView { pending: Seq::empty(), ..old(self)@ }),
    {
        let mut actions = Vec::new();
        std::mem::swap(&mut actions, &mut self.outbox);
        actions
    }

    /// Publishes a new note (the room, not this state, stores it).
    pub fn add_note(&mut self, note: Note)
        ensures
            final(self)@ == (StateView {
                pending: old(self)@.pending.push(NetworkAction::PublishNote(note)),
                ..old(self)@
            }),
    {
        self.dispatch(NetworkAction::PublishNote(note));
    }

    /// The room changed: fetch its notes again, then wait for the next change.
    pub fn room_changed(&mut self)
        ensures
            final(self)@ == (StateView {
                pending: old(self)@.pending.push(NetworkAction::GetNotes).push(NetworkAction::ListenForChanges),
                ..old(self)@
            }),
    {
        self.dispatch(NetworkAction::GetNotes);
        self.dispatch(NetworkAction::ListenForChanges);
    }

    /// Publishes `text` as a new note by this user, unless it is empty.
    pub fn publish_text(&mut self, text: &str)
        ensures
            published(old(self)@, final(self)@, text@),
    {
        if text.unicode_len() > 0 {
            let note = Note::new(self.display_name.clone(), String::from_str(text));
            self.dispatch(NetworkAction::PublishNote(note));
        }
    }

    /// Replaces the notes with those the room holds.
    pub fn set_notes(&mut self, notes: Vec<Note>)
        ensures
            final(self)@ == (StateView { notes: notes@, ..old(self)@ }),
    {
        self.notes = notes;
    }

    /// Replaces the participants.
    pub fn set_participants(&mut self, participants: StringSet)
        ensures
            final(self)@ == (StateView { participants: participants@, ..old(self)@ }),
    {
        self.participants = participants;
    }

    /// Votes for `note`, unless this user already has: the vote goes to the
    /// network side and the note's id is remembered.
    pub fn upvote(&mut self, note: &Note)
        ensures
            final(self)@ == upvoted(old(self)@, *note),
    {
        if !self.my_votes.contains(note.id.as_str()) {
            self.dispatch(NetworkAction::Vote(note.clone()));
            self.my_votes.insert(note.id.clone());
        }
    }

    /// Takes back this user's vote for `note`, if there is one.
    pub fn downvote(&mut self, note: &Note)
        ensures
            final(self)@ == downvoted(old(self)@, *note),
    {
        if self.my_votes.contains(note.id.as_str()) {
            self.dispatch(NetworkAction::Unvote(note.clone()));
            self.my_votes.remove(note.id.as_str());
        }
    }

    /// Whether this user has voted for the note with id `id`.
    pub fn has_voted(&self, id: &str) -> (r: bool)
        ensures
            r == self@.voted.contains(id@),
    {
        self.my_votes.contains(id)
    }

    /// Grouping is not offered by this board: it always fails, with an
    /// empty message when both ids are the same and `No` otherwise.
    pub fn group_notes(&mut self, id1: &String, id2: &String) -> (r: Result<Note, &str>)
        ensures
            final(self)@ == old(self)@,
            r matches Err(e) && e@ == (if id1@ == id2@ {
                Seq::<char>::empty()
            } else {
                seq!['N', 'o']
            }),
    {
        proof {
            reveal_strlit("");
            reveal_strlit("No");
            assert(""@ =~= Seq::<char>::empty());
            assert("No"@ =~= seq!['N', 'o']);
        }
        if *id1 == *id2 {
            return Err("");
        }
        Err("No")
    }

    /// One more tick.
    pub fn tick(&mut self)
        requires
            old(self)@.tick_count < usize::MAX,
        ensures
            final(self)@ == (StateView { tick_count: (old(self)@.tick_count + 1) as usize, ..old(self)@ }),
    {
        self.tick_count = self.tick_count + 1;
    }

    /// Shows only the notes of `sentiment`.
    pub fn set_filter(&mut self, sentiment: Sentiment)
        ensures
            final(self)@ == (StateView { filter: Some(sentiment), ..old(self)@ }),
    {
        self.filter = Some(sentiment);
    }

    /// Shows all notes again.
    pub fn reset_filter(&mut self)
        ensures
            final(self)@ == (StateView { filter: None, ..old(self)@ }),
    {
        self.filter = None;
    }

    /// The active mode.
    pub fn current_mode(&self) -> (m: Mode)
        ensures
            m == self@.mode,
    {
        self.mode
    }

    /// Switches to `mode`.
    pub fn set_mode(&mut self, mode: Mode)
        ensures
            final(self)@ == (StateView { mode, ..old(self)@ }),
    {
        self.mode = mode;
    }

    /// Shows the help box if it is hidden, hides it if it is shown.
    pub fn toggle_help(&mut self)
        ensures
            final(self)@ == (StateView { show_help: !old(self)@.show_help, ..old(self)@ }),
    {
        self.show_help = !self.show_help;
    }

    /// The user's display name.
    pub fn user_name(&self) -> (n: &String)
        ensures
            n@ == self@.display_name,
    {
        &self.display_name
    }

    /// The rows the command line selected.
    pub fn chosen_rows(&self) -> (r: &Vec<usize>)
        ensures
            r@ == self@.selected_rows,
    {
        &self.selected_rows
    }

    /// The note in row `index`, if there is one.
    pub fn note_at(&self, index: usize) -> (r: Option<&Note>)
        ensures
            match r {
                Some(n) => index < self@.notes.len() && *n == self@.notes[index as int],
                None => index >= self@.notes.len(),
            },
    {
        if index < self.notes.len() {
            Some(&self.notes[index])
        } else {
            None
        }
    }

    /// Selects row `index`.
    pub fn select_row(&mut self, index: usize)
        ensures
            final(self)@ == (StateView { selected_row: Some(index), ..old(self)@ }),
    {
        self.selected_row = Some(index);
    }

    /// Clears the row selection.
    pub fn deselect_row(&mut self)
        ensures
            final(self)@ == (StateView { selected_row: None, ..old(self)@ }),
    {
        self.selected_row = None;
    }

    /// Selects the rows `indices` (as the command line names them).
    pub fn select_rows(&mut self, indices: Vec<usize>)
        ensures
            final(self)@ == (StateView { selected_rows: indices@, ..old(self)@ }),
    {
        self.selected_rows = indices;
    }

    /// Clears the rows the command line selected.
    pub fn deselect_rows(&mut self)
        ensures
            final(self)@ == (StateView { selected_rows: Seq::empty(), ..old(self)@ }),
    {
        self.selected_rows = Vec::new();
    }

    /// How many notes carry each sentiment: happy, sad, neutral.
    pub fn sentiment_count(&self) -> (counts: [(Sentiment, usize); 3])
        ensures
            counts[0].0 == Sentiment::Happy,
            counts[0].1 == count_sentiment(self@.notes, Sentiment::Happy),
            counts[0].1 == self@.notes.filter(with_sentiment(Sentiment::Happy)).len(),
            counts[1].0 == Sentiment::Sad,
            counts[1].1 == count_sentiment(self@.notes, Sentiment::Sad),
            counts[1].1 == self@.notes.filter(with_sentiment(Sentiment::Sad)).len(),
            counts[2].0 == Sentiment::Neutral,
            counts[2].1 == count_sentiment(self@.notes, Sentiment::Neutral),
            counts[2].1 == self@.notes.filter(with_sentiment(Sentiment::Neutral)).len(),
            counts[0].1 + counts[1].1 + counts[2].1 == self@.notes.len(),
    {
        let mut happy: usize = 0;
        let mut sad: usize = 0;
        let mut neutral: usize = 0;
        let mut i: usize = 0;
        while i < self.notes.len()
            invariant
                i <= self.notes@.len(),
                happy == count_sentiment(self.notes@.take(i as int), Sentiment::Happy),
                sad == count_sentiment(self.notes@.take(i as int), Sentiment::Sad),
                neutral == count_sentiment(self.notes@.take(i as int), Sentiment::Neutral),
                happy + sad + neutral == i,
            decreases self.notes@.len() - i,
        {
            assert(self.notes@.take(i + 1).drop_last() =~= self.notes@.take(i as int));
            match self.notes[i].sentiment {
                Sentiment::Happy => happy = happy + 1,
                Sentiment::Sad => sad = sad + 1,
                Sentiment::Neutral => neutral = neutral + 1,
            }
            i = i + 1;
        }
        assert(self.notes@.take(i as int) =~= self.notes@);
        proof {
            lemma_count_is_notes_of_sentiment(self.notes@, Sentiment::Happy);
            lemma_count_is_notes_of_sentiment(self.notes@, Sentiment::Sad);
            lemma_count_is_notes_of_sentiment(self.notes@, Sentiment::Neutral);
        }
        [(Sentiment::Happy, happy), (Sentiment::Sad, sad), (Sentiment::Neutral, neutral)]
    }
}

} // verus!
