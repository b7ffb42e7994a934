//! Who is in which room.
use vstd::prelude::*;

verus! {

/// The room line: the user's display name, ` @ ` and the room's name.
pub fn room_label(display_name: &String, room_name: &String) -> (s: String)
    ensures
        s@ == display_name@ + " @ "@ + room_name@,
{
    let mut s = display_name.clone();
    s.append(" @ ");
    s.append(room_name.as_str());
    s
}

} // verus!
