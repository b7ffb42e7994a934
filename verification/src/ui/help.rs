//! The help box.
use vstd::prelude::*;

use crate::app::mode::Mode;

verus! {

/// The shortcuts listed in the help box of each mode.
pub open spec fn shortcuts(mode: Mode) -> Seq<char> {
    match mode {
        Mode::Normal => "\n?  Show/hide help\n________________\n:  command mode\n________________\ne  export to csv\nq  quit retro\n"@,
        Mode::Insert => "\n ?   Show/hide help\nESC  Normal mode\n________________\n↵    Create note\n"@,
        Mode::Command => "\nESC  Normal mode\n________________\n g   1 2 .. n\n u   1 2 .. n upvote\n d   1 2 .. n downvote\n f   query\n"@,
    }
}

/// The shortcuts the help box lists in `mode`.
pub fn help_text(mode: &Mode) -> (s: &'static str)
    ensures
        s@ == shortcuts(*mode),
{
    match mode {
        Mode::Normal => "\n?  Show/hide help\n________________\n:  command mode\n________________\ne  export to csv\nq  quit retro\n",
        Mode::Insert => "\n ?   Show/hide help\nESC  Normal mode\n________________\n↵    Create note\n",
        Mode::Command => "\nESC  Normal mode\n________________\n g   1 2 .. n\n u   1 2 .. n upvote\n d   1 2 .. n downvote\n f   query\n",
    }
}

/// The title of the help box: `Help (` and the mode's label, then `)`.
pub fn help_title(mode: &Mode) -> (s: String)
    ensures
        s@ == "Help ("@ + mode.label() + ")"@,
{
    let mut s = String::from_str("Help (");
    let label = mode.to_string();
    s.append(label.as_str());
    s.append(")");
    s
}

} // verus!
