//! The modes of the five-mode board, which keeps its notes by id.
use vstd::prelude::*;

use crate::ui::palette::Color;

verus! {

/// The mode the retro app currently is in
#[derive(Clone, Copy, Debug, PartialEq, Eq, Structural)]
pub enum Mode {
    /// Normal mode
    Normal,
    /// Writing a new note
    Insert,
    /// Vote or unvote for a note
    Vote,
    /// Group two notes together
    Group,
    /// Filter notes based on sentiment
    Filter,
}

impl Mode {
    /// The label shown in the status bar.
    pub open spec fn label(self) -> Seq<char> {
        match self {
            Mode::Normal => seq!['N', 'O', 'R'],
            Mode::Insert => seq!['I', 'N', 'S'],
            Mode::Group => seq!['G', 'R', 'P'],
            Mode::Vote => seq!['V', 'O', 'T'],
            Mode::Filter => seq!['F', 'N', 'D'],
        }
    }

    /// Get the highlight color for the note
    pub fn get_color(&self) -> (c: (Color, Color))
        ensures
            c == (match *self {
                Mode::Normal => (Color::Reset, Color::Reset),
                Mode::Insert => (Color::Reset, Color::LightBlue),
                Mode::Group => (Color::Reset, Color::LightRed),
                Mode::Vote => (Color::Reset, Color::LightGreen),
                Mode::Filter => (Color::Reset, Color::LightYellow),
            }),
    {
        match self {
            Mode::Normal => (Color::Reset, Color::Reset),
            Mode::Insert => (Color::Reset, Color::LightBlue),
            Mode::Group => (Color::Reset, Color::LightRed),
            Mode::Vote => (Color::Reset, Color::LightGreen),
            Mode::Filter => (Color::Reset, Color::LightYellow),
        }
    }

    /// The status bar label of the mode (its `Display` form).
    pub fn to_string(&self) -> (s: String)
        ensures
            s@ == self.label(),
    {
        let mut s = String::new();
        match self {
            Mode::Normal => s.append("NOR"),
            Mode::Insert => s.append("INS"),
            Mode::Group => s.append("GRP"),
            Mode::Vote => s.append("VOT"),
            Mode::Filter => s.append("FND"),
        }
        proof {
            reveal_strlit("NOR");
            reveal_strlit("INS");
            reveal_strlit("GRP");
            reveal_strlit("VOT");
            reveal_strlit("FND");
        }
        assert(s@ =~= self.label());
        s
    }
}

} // verus!
