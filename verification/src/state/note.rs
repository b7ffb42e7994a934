//! The notes of the board that hands its changes to the network side.
use vstd::prelude::*;

use crate::app::note::strip_faces;
use crate::app::sentiment::{happy_face, sad_face};
use crate::store::Keyed;
use crate::text::{
    chars_of, contains_chars, contains_pattern, push_char, remove_chars, string_from_chars,
};

verus! {

/// The sentiment for a given note
#[derive(Clone, Copy, Debug, PartialEq, Eq, Structural)]
pub enum Sentiment {
    /// Positive (or continue doing)
    Happy,
    /// Negative (or stop doing)
    Sad,
    /// Neutral (no opinion)
    Neutral,
}

impl Sentiment {
    /// The smiley the sentiment is shown as.
    pub open spec fn symbol(self) -> Seq<char> {
        match self {
            Sentiment::Happy => seq![':', ')'],
            Sentiment::Sad => seq![':', '('],
            Sentiment::Neutral => seq![':', '|'],
        }
    }

    /// The same sentiment, as the rest of the board names it.
    pub open spec fn as_board_sentiment(self) -> crate::app::sentiment::Sentiment {
        match self {
            Sentiment::Happy => crate::app::sentiment::Sentiment::Happy,
            Sentiment::Sad => crate::app::sentiment::Sentiment::Sad,
            Sentiment::Neutral => crate::app::sentiment::Sentiment::Neutral,
        }
    }

    /// The smiley of the sentiment (its `Display` form).
    pub fn to_string(&self) -> (s: String)
        ensures
            s@ == self.symbol(),
    {
        let mut s = String::new();
        push_char(&mut s, ':');
        match self {
            Sentiment::Happy => push_char(&mut s, ')'),
            Sentiment::Sad => push_char(&mut s, '('),
            Sentiment::Neutral => push_char(&mut s, '|'),
        }
        assert(s@ =~= self.symbol());
        s
    }
}

/// The sentiment a note's text expresses: happy if it holds `:)`, else sad
/// if it holds `:(`, else neutral.
pub open spec fn sentiment_of(text: Seq<char>) -> Sentiment {
    if contains_pattern(text, happy_face()) {
        Sentiment::Happy
    } else if contains_pattern(text, sad_face()) {
        Sentiment::Sad
    } else {
        Sentiment::Neutral
    }
}

/// A text with `:)` is happy; one with `:(` and no `:)` is sad; one with
/// neither is neutral.
pub proof fn lemma_sentiment_from_smileys(text: Seq<char>)
    ensures
        contains_pattern(text, seq![':', ')']) ==> sentiment_of(text) == Sentiment::Happy,
        contains_pattern(text, seq![':', '(']) && !contains_pattern(text, seq![':', ')'])
            ==> sentiment_of(text) == Sentiment::Sad,
        !contains_pattern(text, seq![':', '(']) && !contains_pattern(text, seq![':', ')'])
            ==> sentiment_of(text) == Sentiment::Neutral,
{
    assert(happy_face() =~= seq![':', ')']);
    assert(sad_face() =~= seq![':', '(']);
}

/// A retro Note
#[derive(Debug)]
pub struct Note {
    /// Used for storing notes
    pub id: String,
    /// The actual text of the note
    pub text: String,
    /// who wrote the note, will be overwritten for grouped notes
    pub author: String,
    /// If the note was positive, negative or neutral
    pub sentiment: Sentiment,
    /// How many votes the note has received
    pub votes: u8,
}

impl Clone for Note {
    fn clone(&self) -> (r: Self)
        ensures
            r == *self,
    {
        Note {
            id: self.id.clone(),
            text: self.text.clone(),
            author: self.author.clone(),
            sentiment: self.sentiment,
            votes: self.votes,
        }
    }
}

impl Keyed for Note {
    open spec fn key(&self) -> Seq<char> {
        self.id@
    }

    fn key_string(&self) -> (k: &String) {
        &self.id
    }
}

impl Note {
    /// Create a new note, if the note contains a happy smiley it will be
    /// tagged with a happy sentiment, sad smiley will be negative and a
    /// neutral smiley (or no smiley at all) will yield a neutral sentiment.
    pub fn new(author: String, text: String) -> (n: Note)
        ensures
            n.author == author,
            n.id@ == text@,
            n.text@ == strip_faces(text@),
            n.sentiment == sentiment_of(text@),
            contains_pattern(text@, seq![':', ')']) ==> n.sentiment == Sentiment::Happy,
            contains_pattern(text@, seq![':', '(']) && !contains_pattern(text@, seq![':', ')'])
                ==> n.sentiment == Sentiment::Sad,
            !contains_pattern(text@, seq![':', '(']) && !contains_pattern(text@, seq![':', ')'])
                ==> n.sentiment == Sentiment::Neutral,
            n.votes == 0,
    {
        proof {
            lemma_sentiment_from_smileys(text@);
        }
        let cs = chars_of(text.as_str());
        let sad: Vec<char> = vec![':', '('];
        let happy: Vec<char> = vec![':', ')'];
        assert(sad@ =~= sad_face());
        assert(happy@ =~= happy_face());
        let without_sad = remove_chars(&cs, &sad);
        let stripped = remove_chars(&without_sad, &happy);
        let sentiment = Self::get_sentiment(&cs);
        Note { text: string_from_chars(&stripped), author, id: text, sentiment, votes: 0 }
    }

    /// Get the sentiment for the note based on what emoji was used.
    fn get_sentiment(text: &Vec<char>) -> (s: Sentiment)
        ensures
            s == sentiment_of(text@),
    {
        let happy: Vec<char> = vec![':', ')'];
        let sad: Vec<char> = vec![':', '('];
        assert(sad@ =~= sad_face());
        assert(happy@ =~= happy_face());
        if contains_chars(text, &happy) {
            return Sentiment::Happy;
        }
        if contains_chars(text, &sad) {
            return Sentiment::Sad;
        }
        Sentiment::Neutral
    }

    /// The same note, as the rest of the board represents it.
    pub open spec fn as_board_note(self) -> crate::app::note::Note {
        crate::app::note::Note {
            id: self.id,
            text: self.text,
            author: self.author,
            sentiment: self.sentiment.as_board_sentiment(),
            votes: self.votes,
        }
    }

    /// How the note is shown (its `Display` form): `author: text`.
    pub open spec fn display(self) -> Seq<char> {
        self.author@ + seq![':', ' '] + self.text@
    }

    /// The note as shown (its `Display` form).
    pub fn to_string(&self) -> (s: String)
        ensures
            s@ == self.display(),
    {
        let mut s = self.author.clone();
        push_char(&mut s, ':');
        push_char(&mut s, ' ');
        s.append(self.text.as_str());
        assert(s@ =~= self.display());
        s
    }
}

impl From<Note> for crate::app::note::Note {
    fn from(note: Note) -> (r: crate::app::note::Note) {
        let sentiment = match note.sentiment {
            Sentiment::Happy => crate::app::sentiment::Sentiment::Happy,
            Sentiment::Sad => crate::app::sentiment::Sentiment::Sad,
            Sentiment::Neutral => crate::app::sentiment::Sentiment::Neutral,
        };
        crate::app::note::Note {
            id: note.id,
            text: note.text,
            author: note.author,
            sentiment,
            votes: note.votes,
        }
    }
}

impl vstd::std_specs::convert::FromSpecImpl<Note> for crate::app::note::Note {
    open spec fn obeys_from_spec() -> bool {
        true
    }

    open spec fn from_spec(note: Note) -> crate::app::note::Note {
        note.as_board_note()
    }
}

} // verus!
