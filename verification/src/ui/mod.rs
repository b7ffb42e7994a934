//! What the board shows: labels, help texts, colours.

pub mod help;
pub mod notes_list;
pub mod palette;
pub mod room_info;
pub mod status_bar;
