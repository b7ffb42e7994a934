//! Where the room's documents are kept.
use vstd::prelude::*;

verus! {

/// The cloud project that keeps every room.
pub open spec fn retro_project() -> Seq<char> {
    "retrodog-23512"@
}

/// The path of the documents of room `room` in project `project`.
pub open spec fn room_root(project: Seq<char>, room: Seq<char>) -> Seq<char> {
    "projects/"@ + project + "/databases/(default)/documents/retros/"@ + room
}

/// A connection to the room's documents.
#[derive(Debug, Clone, Copy)]
pub struct Network<'a> {
    project_id: &'static str,
    room_id: &'a String,
}

impl<'a> Network<'a> {
    /// The project the documents are kept in.
    pub closed spec fn project(&self) -> Seq<char> {
        self.project_id@
    }

    /// The room the documents belong to.
    pub closed spec fn room(&self) -> Seq<char> {
        self.room_id@
    }

    /// A connection to room `room_id` of the board's project.
    pub fn new(room_id: &'a String) -> (n: Self)
        ensures
            n.project() == retro_project(),
            n.room() == room_id@,
    {
        let project_id = "retrodog-23512";
        Network { project_id, room_id }
    }

    /// The path of the room's documents.
    pub fn root_path(&self) -> (p: String)
        ensures
            p@ == room_root(self.project(), self.room()),
    {
        let mut p = String::from_str("projects/");
        p.append(self.project_id);
        p.append("/databases/(default)/documents/retros/");
        p.append(self.room_id.as_str());
        p
    }
}

} // verus!
