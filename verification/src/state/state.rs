//! The state of the board that keeps the notes by id and hands its
//! changes to the network side.
use vstd::prelude::*;

use crate::mode::Mode;
use super::note::{Note, Sentiment};
use crate::network::actions::NetworkAction;
use crate::store::{
    as_map, count_matching, keys_distinct, keys_matching, lemma_as_map, lemma_count_matching,
    lists_values, has_key, filtered, KeyedStore, Keyed,
};
use crate::string_set::{texts, StringSet};

verus! {

/// Whether a note is shown under `filter`.
pub open spec fn shows(filter: Option<Sentiment>, n: Note) -> bool {
    match filter {
        Some(f) => n.sentiment == f,
        None => true,
    }
}

/// With no filter every note is shown; under `Some(s)` exactly the notes of
/// sentiment `s` are.
pub proof fn lemma_shows(filter: Option<Sentiment>)
    ensures
        forall|n: Note| #[trigger] shows(filter, n) == match filter {
            Some(s) => n.sentiment == s,
            None => true,
        },
{
}

/// Whether a note carries sentiment `s`.
pub open spec fn has_sentiment(s: Sentiment) -> spec_fn(Note) -> bool {
    |n: Note| n.sentiment == s
}

/// What the state holds, as values.
pub struct StateView {
    /// The selected row.
    pub selected_row: Option<usize>,
    /// The participants' display names.
    pub participants: Seq<Seq<char>>,
    /// The sentiment filter.
    pub filter: Option<Sentiment>,
    /// The mode.
    pub mode: Mode,
    /// The notes by id.
    pub notes: Map<Seq<char>, Note>,
    /// The ids of the notes this user has voted for.
    pub voted: Set<Seq<char>>,
    /// Whether the help box is shown.
    pub show_help: bool,
    /// The requests for the network side not yet handed over, oldest first.
    pub pending: Seq<NetworkAction>,
}

/// The state after this user votes for note `id`: a note that exists and
/// that this user has not voted for gains one vote and is remembered as
/// voted for; otherwise nothing changes.
pub open spec fn upvoted(v: StateView, id: Seq<char>) -> StateView {
    if v.notes.contains_key(id) && !v.voted.contains(id) {
        StateView {
            notes: v.notes.insert(id, Note { votes: (v.notes[id].votes + 1) as u8, ..v.notes[id] }),
            voted: v.voted.insert(id),
            ..v
        }
    } else {
        v
    }
}

/// The state after this user takes back the vote for note `id`: a note that
/// exists, that this user voted for and that has votes loses one and is
/// forgotten as voted for; otherwise nothing changes.
pub open spec fn downvoted(v: StateView, id: Seq<char>) -> StateView {
    if v.notes.contains_key(id) && v.voted.contains(id) && v.notes[id].votes > 0 {
        StateView {
            notes: v.notes.insert(id, Note { votes: (v.notes[id].votes - 1) as u8, ..v.notes[id] }),
            voted: v.voted.remove(id),
            ..v
        }
    } else {
        v
    }
}

/// Voting needs room for one more vote on the note it would change.
pub open spec fn can_upvote(v: StateView, id: Seq<char>) -> bool {
    v.notes.contains_key(id) && !v.voted.contains(id) ==> v.notes[id].votes < 255
}

/// Taking back a vote just given restores the state as it was.
pub proof fn lemma_downvote_undoes_upvote(v: StateView, id: Seq<char>)
    requires
        v.notes.contains_key(id),
        !v.voted.contains(id),
        v.notes[id].votes < 255,
    ensures
        downvoted(upvoted(v, id), id) == v,
{
    let up = upvoted(v, id);
    assert(up.notes[id].votes == v.notes[id].votes + 1);
    let back = downvoted(up, id);
    assert(back.notes =~= v.notes);
    assert(back.voted =~= v.voted);
}

/// A user's second vote for the same note changes nothing: each user gives
/// a note at most one vote.
pub proof fn lemma_upvote_once(v: StateView, id: Seq<char>)
    ensures
        upvoted(upvoted(v, id), id) == upvoted(v, id),
{
}

/// Two states that store the same notes in the same order and show them
/// under the same filter list the same rows; so setting a filter and then
/// resetting it lists the notes as before.
pub proof fn lemma_same_filter_same_rows(a: State, b: State)
    requires
        a.stored() == b.stored(),
        a@.filter == b@.filter,
    ensures
        a.rows() == b.rows(),
{
}

/// Application state
#[derive(Debug)]
pub struct State {
    /// what row is selected (used by the vote/group modes)
    pub selected_row: Option<usize>,
    /// List of participants (display_names)
    pub participants: Vec<String>,
    /// if in filter mode display only the notes matching this filter
    pub filter: Option<Sentiment>,
    /// Active mode
    pub mode: Mode,
    /// List of all notes, by any author
    notes: KeyedStore<Note>,
    /// A set of ids for the notes the current user has voted for
    my_votes: StringSet,
    /// If true, a box with a list of shorcuts for the active mode will be shown
    pub show_help: bool,
    /// Requests for the network side, oldest first
    outbox: Vec<NetworkAction>,
}

impl View for State {
    type V = StateView;

    closed spec fn view(&self) -> StateView {
        StateView {
            selected_row: self.selected_row,
            participants: texts(self.participants@),
            filter: self.filter,
            mode: self.mode,
            notes: self.notes@,
            voted: self.my_votes@,
            show_help: self.show_help,
            pending: self.outbox@,
        }
    }
}

impl State {
    /// An empty board in normal mode.
    pub fn new() -> (s: Self)
        ensures
            s@ == (StateView {
                selected_row: None,
                participants: Seq::empty(),
                filter: None,
                mode: Mode::Normal,
                notes: Map::empty(),
                voted: Set::empty(),
                show_help: false,
                pending: Seq::empty(),
            }),
    {
        let s = State {
            mode: Mode::Normal,
            notes: KeyedStore::new(),
            selected_row: None,
            participants: Vec::new(),
            my_votes: StringSet::new(),
            show_help: false,
            filter: None,
            outbox: Vec::new(),
        };
        assert(s@.participants =~= Seq::<Seq<char>>::empty());
        s
    }

    /// The note with id `id`, if there is one.
    pub fn get_note(&self, id: &str) -> (r: Option<&Note>)
        ensures
            match r {
                Some(n) => self@.notes.contains_key(id@) && *n == self@.notes[id@],
                None => !self@.notes.contains_key(id@),
            },
    {
        self.notes.get(id)
    }

    /// The rows of the board: the notes shown under the filter, in the
    /// order they were first stored.
    pub closed spec fn rows(&self) -> Seq<Note> {
        filtered(self.stored(), |n: Note| shows(self.filter, n))
    }

    /// All notes, in the order they were first stored.
    pub closed spec fn stored(&self) -> Seq<Note> {
        self.notes.listing()
    }

    /// All notes, each once, in the order they were first stored.
    pub fn all_notes(&self) -> (r: &Vec<Note>)
        ensures
            r@ == self.stored(),
            r@.len() == self@.notes.len(),
    {
        self.notes.values()
    }

    /// How many notes the board holds.
    pub fn note_count(&self) -> (n: usize)
        ensures
            n == self@.notes.len(),
    {
        self.notes.len()
    }

    /// The notes shown under the filter, each once (the board's rows).
    pub fn notes_as_list(&self) -> (r: Vec<Note>)
        ensures
            lists_values(r@, self@.notes, |n: Note| shows(self@.filter, n)),
            r@ == self.rows(),
            forall|i: int| 0 <= i < r@.len() ==> self@.notes.contains_key(#[trigger] r@[i].key())
                && self@.notes[r@[i].key()] == r@[i],
            match self@.filter {
                Some(s) => {
                    &&& forall|i: int| 0 <= i < r@.len() ==> (#[trigger] r@[i]).sentiment == s
                    &&& forall|k: Seq<char>| #[trigger] self@.notes.contains_key(k) && self@.notes[k].sentiment == s
                        ==> has_key(r@, k)
                },
                None => forall|k: Seq<char>| #[trigger] self@.notes.contains_key(k) ==> has_key(r@, k),
            },
    {
        let all = self.notes.values();
        let ghost keep = |n: Note| shows(self.filter, n);
        proof {
            lemma_as_map(all@);
        }
        let mut r: Vec<Note> = Vec::new();
        let mut i: usize = 0;
        while i < all.len()
            invariant
                i <= all@.len(),
                keys_distinct(all@),
                as_map(all@) == self.notes@,
                keep == (|n: Note| shows(self.filter, n)),
                forall|k: Seq<char>| #[trigger] as_map(all@).contains_key(k) <==> has_key(all@, k),
                forall|j: int| 0 <= j < all@.len() ==> #[trigger] as_map(all@)[all@[j].key()] == all@[j],
                keys_distinct(r@),
                forall|j: int| 0 <= j < r@.len() ==> #[trigger] has_key(all@.take(i as int), r@[j].key()),
                forall|j: int| 0 <= j < r@.len() ==> self.notes@.contains_key(#[trigger] r@[j].key())
                    && self.notes@[r@[j].key()] == r@[j] && keep(r@[j]),
                forall|j: int| 0 <= j < i && keep(all@[j]) ==> has_key(r@, #[trigger] all@[j].key()),
                r@ == filtered(all@.take(i as int), keep),
                all@ == self.notes.listing(),
            decreases all@.len() - i,
        {
            assert(all@.take(i + 1).drop_last() =~= all@.take(i as int));
            assert(all@.take(i + 1).last() == all@[i as int]);
            let note = &all[i];
            let shown = match self.filter {
                Some(f) => note.sentiment == f,
                None => true,
            };
            if shown {
                let ghost before = r@;
                assert(!has_key(before, note.key())) by {
                    if has_key(before, note.key()) {
                        let j = choose|j: int| 0 <= j < before.len() && #[trigger] before[j].key() == note.key();
                        assert(has_key(all@.take(i as int), before[j].key()));
                        let m = choose|m: int| 0 <= m < i && #[trigger] all@.take(i as int)[m].key() == before[j].key();
                        assert(all@[m].key() == all@[i as int].key());
                    }
                }
                r.push(note.clone());
                assert(r@[before.len() as int] == all@[i as int]);
                assert(shows(self.filter, all@[i as int]));
                assert(keep(all@[i as int]));
                assert(has_key(all@, all@[i as int].key()));
                assert forall|j: int| 0 <= j < r@.len() implies self.notes@.contains_key(#[trigger] r@[j].key())
                    && self.notes@[r@[j].key()] == r@[j] && keep(r@[j]) by {
                    if j < before.len() {
                        assert(r@[j] == before[j]);
                    }
                }
                assert forall|a: int, b: int|
                    0 <= a < r@.len() && 0 <= b < r@.len() && a != b implies #[trigger] r@[a].key()
                    != #[trigger] r@[b].key() by {
                    if a == before.len() {
                        assert(r@[b] == before[b]);
                        assert(has_key(before, before[b].key()));
                    } else if b == before.len() {
                        assert(r@[a] == before[a]);
                        assert(has_key(before, before[a].key()));
                    } else {
                        assert(r@[a] == before[a]);
                        assert(r@[b] == before[b]);
                    }
                }
                assert forall|j: int| 0 <= j < i + 1 && keep(all@[j]) implies has_key(r@, #[trigger] all@[j].key()) by {
                    if j == i {
                        assert(r@[before.len() as int].key() == all@[j].key());
                    } else {
                        let m = choose|m: int| 0 <= m < before.len() && #[trigger] before[m].key() == all@[j].key();
                        assert(r@[m] == before[m]);
                    }
                }
            }
            assert forall|j: int| 0 <= j < r@.len() implies #[trigger] has_key(all@.take(i + 1), r@[j].key()) by {
                if has_key(all@.take(i as int), r@[j].key()) {
                    let m = choose|m: int| 0 <= m < i && #[trigger] all@.take(i as int)[m].key() == r@[j].key();
                    assert(all@.take(i + 1)[m] == all@.take(i as int)[m]);
                } else {
                    assert(all@.take(i + 1)[i as int] == all@[i as int]);
                }
            }
            i = i + 1;
        }
        proof {
            assert forall|k: Seq<char>| #[trigger] self.notes@.contains_key(k) && keep(self.notes@[k]) implies has_key(r@, k) by {
                let j = choose|j: int| 0 <= j < all@.len() && #[trigger] all@[j].key() == k;
                assert(self.notes@[all@[j].key()] == all@[j]);
            }
            assert(all@.take(i as int) =~= all@);
            lemma_shows(self.filter);
            assert forall|j: int| 0 <= j < r@.len() implies (match self.filter {
                Some(s) => (#[trigger] r@[j]).sentiment == s,
                None => true,
            }) by {
                let key = r@[j].key();
                assert(self.notes@.contains_key(key));
                assert(keep(r@[j]));
            }
            assert forall|k: Seq<char>| #[trigger] self.notes@.contains_key(k) && (match self.filter {
                Some(s) => self.notes@[k].sentiment == s,
                None => true,
            }) implies has_key(r@, k) by {
                assert(keep(self.notes@[k]));
            }
        }
        r
    }

    /// Hands a request to the network side (it waits until taken).
    pub fn dispatch(&mut self, action: NetworkAction)
        ensures
            final(self)@ == (StateView { pending: old(self)@.pending.push(action), ..old(self)@ }),
            final(self).stored() == old(self).stored(),
    {
        self.outbox.push(action);
    }

    /// Takes the pending requests, oldest first.
    pub fn take_actions(&mut self) -> (actions: Vec<NetworkAction>)
        ensures
            actions@ == old(self)@.pending,
            final(self)@ == (StateView { pending: Seq::empty(), ..old(self)@ }),
    {
        let mut actions = Vec::new();
        std::mem::swap(&mut actions, &mut self.outbox);
        actions
    }

    /// Publishes `note` (the room, not this state, stores it).
    pub fn add_note(&mut self, note: Note)
        ensures
            final(self)@ == (StateView {
                pending: old(self)@.pending.push(NetworkAction::PublishNote(note.as_board_note())),
                ..old(self)@
            }),
    {
        self.dispatch(NetworkAction::PublishNote(crate::app::note::Note::from(note)));
    }

    /// Votes for the note with id `id` (see [`upvoted`]).
    pub fn upvote(&mut self, id: String)
        requires
            can_upvote(old(self)@, id@),
        ensures
            final(self)@ == upvoted(old(self)@, id@),
    {
        let found = match self.notes.get(id.as_str()) {
            Some(note) => Some(note.clone()),
            None => None,
        };
        if let Some(mut note) = found {
            if !self.my_votes.contains(note.id.as_str()) {
                note.votes = note.votes + 1;
                self.my_votes.insert(note.id.clone());
                self.notes.insert(note);
            }
        }
    }

    /// Takes back this user's vote for the note with id `id` (see
    /// [`downvoted`]).
    pub fn downvote(&mut self, id: String)
        ensures
            final(self)@ == downvoted(old(self)@, id@),
    {
        let found = match self.notes.get(id.as_str()) {
            Some(note) => Some(note.clone()),
            None => None,
        };
        if let Some(mut note) = found {
            if self.my_votes.contains(note.id.as_str()) && note.votes > 0 {
                note.votes = note.votes - 1;
                self.my_votes.remove(note.id.as_str());
                self.notes.insert(note);
            }
        }
    }

    /// Groups the notes `id1` and `id2`: the first is replaced by a note of
    /// both texts, one per line, by "Multiple authors", neutral, with the
    /// votes of both; the second stays. Fails with an empty message for one
    /// id given twice and with `No` when a note is missing.
    pub fn group_notes(&mut self, id1: &String, id2: &String) -> (r: Result<Note, &str>)
        requires
            id1@ != id2@ && old(self)@.notes.contains_key(id1@) && old(self)@.notes.contains_key(id2@)
                ==> old(self)@.notes[id1@].votes + old(self)@.notes[id2@].votes <= 255,
        ensures
            match r {
                Ok(m) => {
                    &&& id1@ != id2@
                    &&& old(self)@.notes.contains_key(id1@)
                    &&& old(self)@.notes.contains_key(id2@)
                    &&& m.id@ == id1@
                    &&& m.author@ == "Multiple authors"@
                    &&& m.text@ == old(self)@.notes[id1@].text@ + seq!['\n'] + old(self)@.notes[id2@].text@
                    &&& m.sentiment == Sentiment::Neutral
                    &&& m.votes == old(self)@.notes[id1@].votes + old(self)@.notes[id2@].votes
                    &&& final(self)@ == (StateView { notes: old(self)@.notes.insert(id1@, m), ..old(self)@ })
                },
                Err(e) => {
                    &&& final(self)@ == old(self)@
                    &&& if id1@ == id2@ {
                        e@ == Seq::<char>::empty()
                    } else {
                        &&& !(old(self)@.notes.contains_key(id1@) && old(self)@.notes.contains_key(id2@))
                        &&& e@ == seq!['N', 'o']
                    }
                },
            },
    {
        proof {
            reveal_strlit("");
            reveal_strlit("No");
            assert(""@ =~= Seq::<char>::empty());
            assert("No"@ =~= seq!['N', 'o']);
        }
        if *id1 == *id2 {
            return Err("");
        }
        let first = self.notes.get(id1.as_str());
        let second = self.notes.get(id2.as_str());
        match (first, second) {
            (Some(first), Some(second)) => {
                let mut text = first.text.clone();
                crate::text::push_char(&mut text, '\n');
                text.append(second.text.as_str());
                let merged = Note {
                    author: String::from_str("Multiple authors"),
                    text,
                    id: first.id.clone(),
                    sentiment: Sentiment::Neutral,
                    votes: first.votes + second.votes,
                };
                let result = merged.clone();
                self.notes.insert(merged);
                Ok(result)
            },
            _ => Err("No"),
        }
    }

    /// Shows only the notes of `sentiment`.
    pub fn set_filter(&mut self, sentiment: Sentiment)
        ensures
            final(self)@ == (StateView { filter: Some(sentiment), ..old(self)@ }),
            final(self).stored() == old(self).stored(),
    {
        self.filter = Some(sentiment);
    }

    /// Shows all notes again.
    pub fn reset_filter(&mut self)
        ensures
            final(self)@ == (StateView { filter: None, ..old(self)@ }),
            final(self).stored() == old(self).stored(),
    {
        self.filter = None;
    }

    /// Takes out the note with id `id`, if there is one.
    pub fn remove_note(&mut self, id: &String)
        ensures
            final(self)@ == (StateView { notes: old(self)@.notes.remove(id@), ..old(self)@ }),
    {
        self.notes.remove(id.as_str());
    }

    /// The active mode.
    pub fn current_mode(&self) -> (m: Mode)
        ensures
            m == self@.mode,
    {
        self.mode
    }

    /// Switches to `mode`.
    pub fn set_mode(&mut self, mode: Mode)
        ensures
            final(self)@ == (StateView { mode, ..old(self)@ }),
            final(self).stored() == old(self).stored(),
    {
        self.mode = mode;
    }

    /// The selected row.
    pub fn current_row(&self) -> (r: Option<usize>)
        ensures
            r == self@.selected_row,
    {
        self.selected_row
    }

    /// Selects row `index`.
    pub fn select_row(&mut self, index: usize)
        ensures
            final(self)@ == (StateView { selected_row: Some(index), ..old(self)@ }),
            final(self).stored() == old(self).stored(),
    {
        self.selected_row = Some(index);
    }

    /// Clears the row selection.
    pub fn deselect_row(&mut self)
        ensures
            final(self)@ == (StateView { selected_row: None, ..old(self)@ }),
    {
        self.selected_row = None;
    }

    /// How many notes carry each sentiment: happy, sad, neutral.
    pub fn sentiment_count(&self) -> (counts: [(Sentiment, usize); 3])
        ensures
            counts[0].0 == Sentiment::Happy,
            counts[0].1 == keys_matching(self@.notes, has_sentiment(Sentiment::Happy)).len(),
            counts[0].1 == self@.notes.dom().filter(|k: Seq<char>| self@.notes[k].sentiment == Sentiment::Happy).len(),
            counts[1].0 == Sentiment::Sad,
            counts[1].1 == keys_matching(self@.notes, has_sentiment(Sentiment::Sad)).len(),
            counts[1].1 == self@.notes.dom().filter(|k: Seq<char>| self@.notes[k].sentiment == Sentiment::Sad).len(),
            counts[2].0 == Sentiment::Neutral,
            counts[2].1 == keys_matching(self@.notes, has_sentiment(Sentiment::Neutral)).len(),
            counts[2].1 == self@.notes.dom().filter(|k: Seq<char>| self@.notes[k].sentiment == Sentiment::Neutral).len(),
            counts[0].1 + counts[1].1 + counts[2].1 == self@.notes.len(),
    {
        let all = self.notes.values();
        let mut happy: usize = 0;
        let mut sad: usize = 0;
        let mut neutral: usize = 0;
        let mut i: usize = 0;
        while i < all.len()
            invariant
                i <= all@.len(),
                happy == count_matching(all@.take(i as int), has_sentiment(Sentiment::Happy)),
                sad == count_matching(all@.take(i as int), has_sentiment(Sentiment::Sad)),
                neutral == count_matching(all@.take(i as int), has_sentiment(Sentiment::Neutral)),
                happy + sad + neutral == i,
            decreases all@.len() - i,
        {
            assert(all@.take(i + 1).drop_last() =~= all@.take(i as int));
            match all[i].sentiment {
                Sentiment::Happy => happy = happy + 1,
                Sentiment::Sad => sad = sad + 1,
                Sentiment::Neutral => neutral = neutral + 1,
            }
            i = i + 1;
        }
        proof {
            assert(all@.take(i as int) =~= all@);
            lemma_count_matching(all@, has_sentiment(Sentiment::Happy));
            lemma_count_matching(all@, has_sentiment(Sentiment::Sad));
            lemma_count_matching(all@, has_sentiment(Sentiment::Neutral));
            let m = self.notes@;
            assert(keys_matching(m, has_sentiment(Sentiment::Happy)) =~= m.dom().filter(|k: Seq<char>| m[k].sentiment == Sentiment::Happy));
            assert(keys_matching(m, has_sentiment(Sentiment::Sad)) =~= m.dom().filter(|k: Seq<char>| m[k].sentiment == Sentiment::Sad));
            assert(keys_matching(m, has_sentiment(Sentiment::Neutral)) =~= m.dom().filter(|k: Seq<char>| m[k].sentiment == Sentiment::Neutral));
        }
        [(Sentiment::Happy, happy), (Sentiment::Sad, sad), (Sentiment::Neutral, neutral)]
    }
}

impl Default for State {
    fn default() -> (s: Self)
        ensures
            s@ == (StateView {
                selected_row: None,
                participants: Seq::empty(),
                filter: None,
                mode: Mode::Normal,
                notes: Map::empty(),
                voted: Set::empty(),
                show_help: false,
                pending: Seq::empty(),
            }),
    {
        State::new()
    }
}

} // verus!
