//! The command line parameters.
use vstd::prelude::*;

verus! {

/// Retro is a CLI tool to host and and run retros
#[derive(Debug, Default, Clone)]
pub struct RetroArgs {
    /// room id to connect  to
    pub room: String,
    /// Your display name during the retro
    pub display_name: String,
}

} // verus!
