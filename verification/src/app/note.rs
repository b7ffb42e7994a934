//! A note on the board, how it is shown and how it is stored.
use vstd::prelude::*;

use super::sentiment::{happy_face, sad_face, Sentiment};
use crate::text::{
    chars_of, contains_chars, contains_pattern, decimal, pad_right, push_char, push_decimal,
    push_padded, remove_chars, remove_pattern, string_from_chars,
};

verus! {

/// A text with `:)` is happy; one with `:(` and no `:)` is sad; one with
/// neither is neutral.
pub proof fn lemma_sentiment_from_smileys(text: Seq<char>)
    ensures
        contains_pattern(text, seq![':', ')']) ==> sentiment_of(text) == Sentiment::Happy,
        contains_pattern(text, seq![':', '(']) && !contains_pattern(text, seq![':', ')'])
            ==> sentiment_of(text) == Sentiment::Sad,
        !contains_pattern(text, seq![':', '(']) && !contains_pattern(text, seq![':', ')'])
            ==> sentiment_of(text) == Sentiment::Neutral,
{
    assert(happy_face() =~= seq![':', ')']);
    assert(sad_face() =~= seq![':', '(']);
}

/// A retro Note
#[derive(Debug)]
pub struct Note {
    /// Used for storing notes
    pub id: String,
    /// The actual text of the note
    pub text: String,
    /// who wrote the note, will be overwritten for grouped notes
    pub author: String,
    /// If the note was positive, negative or neutral
    pub sentiment: Sentiment,
    /// How many votes the note has received
    pub votes: u8,
}

impl Clone for Note {
    fn clone(&self) -> (r: Self)
        ensures
            r == *self,
    {
        Note {
            id: self.id.clone(),
            text: self.text.clone(),
            author: self.author.clone(),
            sentiment: self.sentiment,
            votes: self.votes,
        }
    }
}

/// The sentiment a note's text expresses: happy if it holds `:)`, else sad
/// if it holds `:(`, else neutral.
pub open spec fn sentiment_of(text: Seq<char>) -> Sentiment {
    if contains_pattern(text, happy_face()) {
        Sentiment::Happy
    } else if contains_pattern(text, sad_face()) {
        Sentiment::Sad
    } else {
        Sentiment::Neutral
    }
}

/// A note's text as shown: the smileys `:(` and then `:)` taken out.
pub open spec fn strip_faces(text: Seq<char>) -> Seq<char> {
    remove_pattern(remove_pattern(text, sad_face()), happy_face())
}

/// The vote count as shown after a note: `[+n]`, or nothing without votes.
pub open spec fn votes_label(votes: u8) -> Seq<char> {
    if votes > 0 {
        seq!['[', '+'] + decimal(votes as nat) + seq![']']
    } else {
        Seq::<char>::empty()
    }
}

/// One value of a stored document field.
#[derive(Debug)]
pub enum FieldValue {
    /// A text value.
    Text(String),
    /// An integer value.
    Integer(i64),
    /// A value of any other kind.
    Other,
}

/// The fields a note is stored with.
#[derive(Debug)]
pub struct NoteFields {
    /// The `author` field.
    pub author: FieldValue,
    /// The `text` field.
    pub text: FieldValue,
    /// The `sentiment` field.
    pub sentiment: FieldValue,
    /// The `votes` field.
    pub votes: FieldValue,
}

/// A text field read back: its text, or empty for another kind of value.
pub open spec fn field_text(f: FieldValue) -> Seq<char> {
    match f {
        FieldValue::Text(s) => s@,
        _ => Seq::<char>::empty(),
    }
}

/// A vote count read back: the integer cut to its low eight bits, or zero
/// for another kind of value.
pub open spec fn field_votes(f: FieldValue) -> u8 {
    match f {
        FieldValue::Integer(v) => v as u8,
        _ => 0,
    }
}

/// A sentiment read back from its smiley, neutral for anything else.
pub open spec fn field_sentiment(f: FieldValue) -> Sentiment {
    match f {
        FieldValue::Text(s) => Sentiment::of_symbol(s@),
        _ => Sentiment::Neutral,
    }
}

/// The identifier a note read from its fields carries until the document's
/// name replaces it.
pub open spec fn placeholder_id() -> Seq<char> {
    seq!['i', 'd']
}

/// `fields` are the stored form of `note`.
pub open spec fn stores(fields: NoteFields, note: Note) -> bool {
    &&& fields.author matches FieldValue::Text(a) && a@ == note.author@
    &&& fields.text matches FieldValue::Text(t) && t@ == note.text@
    &&& fields.sentiment matches FieldValue::Text(s) && s@ == note.sentiment.symbol()
    &&& fields.votes matches FieldValue::Integer(v) && v == note.votes as i64
}

impl Note {
    /// Create a new note, if the note contains a happy smiley it will be
    /// tagged with a happy sentiment, sad smiley will be negative and a
    /// neutral smiley (or no smiley at all) will yield a neutral sentiment.
    pub fn new(author: String, text: String) -> (n: Note)
        ensures
            n.author == author,
            n.id@ == text@,
            n.text@ == strip_faces(text@),
            n.sentiment == sentiment_of(text@),
            contains_pattern(text@, seq![':', ')']) ==> n.sentiment == Sentiment::Happy,
            contains_pattern(text@, seq![':', '(']) && !contains_pattern(text@, seq![':', ')'])
                ==> n.sentiment == Sentiment::Sad,
            !contains_pattern(text@, seq![':', '(']) && !contains_pattern(text@, seq![':', ')'])
                ==> n.sentiment == Sentiment::Neutral,
            n.votes == 0,
    {
        proof {
            lemma_sentiment_from_smileys(text@);
        }
        let cs = chars_of(text.as_str());
        let sad: Vec<char> = vec![':', '('];
        let happy: Vec<char> = vec![':', ')'];
        assert(sad@ =~= sad_face());
        assert(happy@ =~= happy_face());
        let without_sad = remove_chars(&cs, &sad);
        let stripped = remove_chars(&without_sad, &happy);
        let sentiment = Self::get_sentiment(&cs);
        Note {
            text: string_from_chars(&stripped),
            author,
            id: text,
            sentiment,
            votes: 0,
        }
    }

    /// Get the sentiment for the note based on what emoji was used.
    fn get_sentiment(text: &Vec<char>) -> (s: Sentiment)
        ensures
            s == sentiment_of(text@),
    {
        let happy: Vec<char> = vec![':', ')'];
        let sad: Vec<char> = vec![':', '('];
        assert(sad@ =~= sad_face());
        assert(happy@ =~= happy_face());
        if contains_chars(text, &happy) {
            return Sentiment::Happy;
        }
        if contains_chars(text, &sad) {
            return Sentiment::Sad;
        }
        Sentiment::Neutral
    }

    /// How the note is shown in the list (its `Display` form): the author
    /// padded to eight characters, the smiley, the text and the votes.
    pub open spec fn display(self) -> Seq<char> {
        pad_right(self.author@, 8) + seq![' '] + self.sentiment.symbol() + seq![' '] + self.text@
            + seq![' '] + votes_label(self.votes)
    }

    /// The note as shown in the list (its `Display` form).
    pub fn to_string(&self) -> (s: String)
        ensures
            s@ == self.display(),
    {
        let mut s = String::new();
        push_padded(&mut s, self.author.as_str(), 8);
        push_char(&mut s, ' ');
        let symbol = self.sentiment.to_string();
        s.append(symbol.as_str());
        push_char(&mut s, ' ');
        s.append(self.text.as_str());
        push_char(&mut s, ' ');
        let ghost before = s@;
        if self.votes > 0 {
            push_char(&mut s, '[');
            push_char(&mut s, '+');
            push_decimal(&mut s, self.votes as usize);
            push_char(&mut s, ']');
        }
        assert(s@ =~= before + votes_label(self.votes));
        assert(s@ =~= self.display());
        s
    }

    /// The fields the note is stored with (author, text, sentiment and votes).
    pub fn to_fields(&self) -> (f: NoteFields)
        ensures
            stores(f, *self),
    {
        NoteFields {
            author: FieldValue::Text(self.author.clone()),
            text: FieldValue::Text(self.text.clone()),
            sentiment: FieldValue::Text(self.sentiment.to_string()),
            votes: FieldValue::Integer(self.votes as i64),
        }
    }

    /// Reads a note back from its stored fields; the identifier is the
    /// placeholder `id` until the caller sets the document's name.
    pub fn from_fields(fields: NoteFields) -> (n: Note)
        ensures
            n.id@ == placeholder_id(),
            n.text@ == field_text(fields.text),
            n.author@ == field_text(fields.author),
            n.sentiment == field_sentiment(fields.sentiment),
            n.votes == field_votes(fields.votes),
    {
        let mut id = String::new();
        push_char(&mut id, 'i');
        push_char(&mut id, 'd');
        assert(id@ =~= placeholder_id());
        let text = match fields.text {
            FieldValue::Text(t) => t,
            _ => String::new(),
        };
        let author = match fields.author {
            FieldValue::Text(a) => a,
            _ => String::new(),
        };
        let votes: u8 = match fields.votes {
            FieldValue::Integer(v) => v as u8,
            _ => 0,
        };
        let sentiment = match fields.sentiment {
            FieldValue::Text(s) => Sentiment::from_symbol(s.as_str()),
            _ => Sentiment::Neutral,
        };
        Note { id, text, author, sentiment, votes }
    }
}

/// Storing a note and reading it back gives its author, text, sentiment and
/// votes again.
pub proof fn lemma_fields_round_trip(note: Note, fields: NoteFields)
    requires
        stores(fields, note),
    ensures
        field_text(fields.author) == note.author@,
        field_text(fields.text) == note.text@,
        field_sentiment(fields.sentiment) == note.sentiment,
        field_votes(fields.votes) == note.votes,
{
    super::sentiment::lemma_symbol_round_trip(note.sentiment);
}

} // verus!
