//! What the terminal reports to the board, and the edits the board asks of
//! its text boxes.
use vstd::prelude::*;

verus! {

/// Something that happened: a key was pressed, or time passed.
#[derive(Debug)]
pub enum Event<I> {
    /// An input from the user.
    Input(I),
    /// A tick of the clock.
    Tick,
}

/// The key of a key press, as far as the board tells keys apart.
#[derive(Clone, Copy, Debug, PartialEq, Eq, Structural)]
pub enum Key {
    /// A character key.
    Char(char),
    /// Escape.
    Esc,
    /// Enter.
    Enter,
    /// Backspace.
    Backspace,
    /// Arrow left.
    Left,
    /// Arrow right.
    Right,
    /// Arrow up.
    Up,
    /// Arrow down.
    Down,
    /// Any other key.
    Other,
}

/// A key press.
#[derive(Clone, Copy, Debug, PartialEq, Eq, Structural)]
pub struct KeyInput {
    /// The key.
    pub key: Key,
    /// Whether Alt, and no other modifier, was held.
    pub alt: bool,
}

/// An edit of a text box that a key press asks for.
#[derive(Clone, Copy, Debug, PartialEq, Eq, Structural)]
pub enum EditAction {
    /// Leave the text as it is.
    Keep,
    /// Delete from the start of the line to the cursor.
    DeleteLineByHead,
    /// Delete the word before the cursor.
    DeleteWord,
    /// Move the cursor back by a word.
    WordBack,
    /// Move the cursor forward by a word.
    WordForward,
    /// Hand the key press to the text box as typing.
    Input,
}


/// The cursor edit that Alt with Backspace, Left or Right asks of a text
/// box, if the key press is one of those.
pub open spec fn word_edit(input: KeyInput) -> Option<EditAction> {
    if input.alt && input.key == Key::Backspace {
        Some(EditAction::DeleteWord)
    } else if input.alt && input.key == Key::Left {
        Some(EditAction::WordBack)
    } else if input.alt && input.key == Key::Right {
        Some(EditAction::WordForward)
    } else {
        None
    }
}

/// The cursor edit that the key press asks of a text box, if it is Alt with
/// Backspace, Left or Right.
pub fn word_edit_of(input: KeyInput) -> (r: Option<EditAction>)
    ensures
        r == word_edit(input),
{
    if !input.alt {
        return None;
    }
    match input.key {
        Key::Backspace => Some(EditAction::DeleteWord),
        Key::Left => Some(EditAction::WordBack),
        Key::Right => Some(EditAction::WordForward),
        _ => None,
    }
}

} // verus!
