//! The mode the board is in.
use vstd::prelude::*;

use crate::ui::palette::Color;

verus! {

/// The mode the retro app currently is in
#[derive(Clone, Copy, Debug, PartialEq, Eq, Structural)]
pub enum Mode {
    /// Normal mode
    Normal,
    /// Writing a new note
    Insert,
    /// Command mode - Group / vote / find
    Command,
}

impl Mode {
    /// The label shown in the status bar.
    pub open spec fn label(self) -> Seq<char> {
        match self {
            Mode::Normal => seq![' ', 'N', 'O', 'R', ' '],
            Mode::Insert => seq![' ', 'I', 'N', 'S', ' '],
            Mode::Command => seq![' ', 'C', 'M', 'D', ' '],
        }
    }

    /// Get the highlight color for the note
    pub fn get_color(&self) -> (c: Color)
        ensures
            c == (match *self {
                Mode::Normal => Color::White,
                Mode::Insert => Color::Blue,
                Mode::Command => Color::Red,
            }),
    {
        match self {
            Mode::Normal => Color::White,
            Mode::Insert => Color::Blue,
            Mode::Command => Color::Red,
        }
    }

    /// The status bar label of the mode (its `Display` form).
    pub fn to_string(&self) -> (s: String)
        ensures
            s@ == self.label(),
    {
        let mut s = String::new();
        match self {
            Mode::Normal => s.append(" NOR "),
            Mode::Insert => s.append(" INS "),
            Mode::Command => s.append(" CMD "),
        }
        proof {
            reveal_strlit(" NOR ");
            reveal_strlit(" INS ");
            reveal_strlit(" CMD ");
        }
        assert(s@ =~= self.label());
        s
    }
}

} // verus!
