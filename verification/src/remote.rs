//! Remote retro information.
use vstd::prelude::*;

verus! {

/// Fetch remote retro information
#[derive(Debug)]
pub struct Remote<'a> {
    /// name of the retro
    pub retro: &'a String,
}

} // verus!
