//! The status bar.
use vstd::prelude::*;

use crate::text::{decimal, push_decimal};

verus! {

/// How many people take part: the number, then ` participants`.
pub fn participants_label(count: usize) -> (s: String)
    ensures
        s@ == decimal(count as nat) + " participants"@,
{
    let mut s = String::new();
    push_decimal(&mut s, count);
    s.append(" participants");
    s
}

} // verus!
