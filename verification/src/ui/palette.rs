//! The colours the board is drawn with.
use vstd::prelude::*;

verus! {

/// A terminal colour, as the renderer names them.
#[derive(Clone, Copy, Debug, PartialEq, Eq, Structural)]
pub enum Color {
    /// The terminal's own default colour.
    Reset,
    /// White.
    White,
    /// Blue.
    Blue,
    /// Red.
    Red,
    /// Light blue.
    LightBlue,
    /// Light red.
    LightRed,
    /// Light green.
    LightGreen,
    /// Light yellow.
    LightYellow,
}

} // verus!
