//! The notes of the board that keeps them by id.
use vstd::prelude::*;

use crate::store::Keyed;

verus! {

/// The sentiment for a given note
#[derive(Clone, Copy, Debug, PartialEq, Eq, Structural)]
pub enum Sentiment {
    /// Positive
    Happy,
    /// Negative
    Sad,
    /// Neutral
    Neutral,
}

impl Sentiment {
    /// The smiley the sentiment is shown as.
    pub open spec fn symbol(self) -> Seq<char> {
        match self {
            Sentiment::Happy => seq![':', ')'],
            Sentiment::Sad => seq![':', '('],
            Sentiment::Neutral => seq![':', '|'],
        }
    }

    /// The smiley of the sentiment (its `Display` form).
    pub fn to_string(&self) -> (s: String)
        ensures
            s@ == self.symbol(),
    {
        let mut s = String::new();
        crate::text::push_char(&mut s, ':');
        match self {
            Sentiment::Happy => crate::text::push_char(&mut s, ')'),
            Sentiment::Sad => crate::text::push_char(&mut s, '('),
            Sentiment::Neutral => crate::text::push_char(&mut s, '|'),
        }
        assert(s@ =~= self.symbol());
        s
    }
}

/// A retro note
#[derive(Debug)]
pub struct Note {
    /// Used for storing notes
    pub id: String,
    /// The actual text of the note
    pub text: String,
    /// who wrote the note
    pub author: String,
    /// If the note was positive, negative or neutral
    pub sentiment: Sentiment,
    /// How many votes the note has received
    pub votes: u8,
}

impl Clone for Note {
    fn clone(&self) -> (r: Self)
        ensures
            r == *self,
    {
        Note {
            id: self.id.clone(),
            text: self.text.clone(),
            author: self.author.clone(),
            sentiment: self.sentiment,
            votes: self.votes,
        }
    }
}

impl Keyed for Note {
    open spec fn key(&self) -> Seq<char> {
        self.id@
    }

    fn key_string(&self) -> (k: &String) {
        &self.id
    }
}

impl Note {
    /// A neutral note without votes, with text `text` and id `id`; its
    /// first argument is also kept as its author.
    pub fn new(text: String, id: String) -> (n: Note)
        ensures
            n.text == text,
            n.author == text,
            n.id == id,
            n.sentiment == Sentiment::Neutral,
            n.votes == 0,
    {
        Note { text: text.clone(), author: text, id, sentiment: Sentiment::Neutral, votes: 0 }
    }
}

} // verus!
