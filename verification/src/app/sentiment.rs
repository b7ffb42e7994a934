//! The sentiment a note carries.
use vstd::prelude::*;

verus! {

/// The sentiment for a given note
#[derive(Clone, Copy, Debug, PartialEq, Eq, Structural)]
pub enum Sentiment {
    /// Positive (or continue doing)
    Happy,
    /// Negative (or stop doing)
    Sad,
    /// Neutral (no opinion)
    Neutral,
}

/// The smiley that marks a happy note.
pub open spec fn happy_face() -> Seq<char> {
    seq![':', ')']
}

/// The smiley that marks a sad note.
pub open spec fn sad_face() -> Seq<char> {
    seq![':', '(']
}

/// The smiley that marks a neutral note.
pub open spec fn neutral_face() -> Seq<char> {
    seq![':', '|']
}

impl Sentiment {
    /// The smiley the sentiment is shown as.
    pub open spec fn symbol(self) -> Seq<char> {
        match self {
            Sentiment::Happy => happy_face(),
            Sentiment::Sad => sad_face(),
            Sentiment::Neutral => neutral_face(),
        }
    }

    /// The sentiment a stored smiley stands for: `:)` and `:(` are read back,
    /// anything else is neutral.
    pub open spec fn of_symbol(s: Seq<char>) -> Sentiment {
        if s == happy_face() {
            Sentiment::Happy
        } else if s == sad_face() {
            Sentiment::Sad
        } else {
            Sentiment::Neutral
        }
    }

    /// The smiley of the sentiment (its `Display` form, and the text it is
    /// stored as).
    pub fn to_string(&self) -> (s: String)
        ensures
            s@ == self.symbol(),
    {
        let mut s = String::new();
        crate::text::push_char(&mut s, ':');
        match self {
            Sentiment::Happy => crate::text::push_char(&mut s, ')'),
            Sentiment::Sad => crate::text::push_char(&mut s, '('),
            Sentiment::Neutral => crate::text::push_char(&mut s, '|'),
        }
        assert(s@ =~= self.symbol());
        s
    }

    /// Reads a stored smiley back.
    pub fn from_symbol(s: &str) -> (r: Sentiment)
        ensures
            r == Sentiment::of_symbol(s@),
    {
        let n = s.unicode_len();
        if n == 2 && s.get_char(0) == ':' {
            let c = s.get_char(1);
            if c == ')' {
                assert(s@ =~= happy_face());
                return Sentiment::Happy;
            } else if c == '(' {
                assert(s@ =~= sad_face());
                return Sentiment::Sad;
            }
            assert(s@ != happy_face() && s@ != sad_face()) by {
                assert(happy_face()[1] == ')');
                assert(sad_face()[1] == '(');
            }
        } else {
            assert(s@ != happy_face() && s@ != sad_face()) by {
                assert(happy_face()[0] == ':');
                assert(sad_face()[0] == ':');
            }
        }
        Sentiment::Neutral
    }
}

/// Reading back the stored form of a sentiment gives the sentiment.
pub proof fn lemma_symbol_round_trip(s: Sentiment)
    ensures
        Sentiment::of_symbol(s.symbol()) == s,
{
    assert(happy_face() != sad_face()) by {
        assert(happy_face()[1] != sad_face()[1]);
    }
    assert(neutral_face() != happy_face()) by {
        assert(happy_face()[1] != neutral_face()[1]);
    }
    assert(neutral_face() != sad_face()) by {
        assert(sad_face()[1] != neutral_face()[1]);
    }
}

} // verus!
