//! How much of a paused scan can be used again.
use vstd::prelude::*;

verus! {

/// How much of a paused scan can be used again.
#[derive(Clone, Copy, Debug, PartialEq, Eq, Structural)]
pub enum ResumeTier {
    /// Everything.
    Full,
    /// The duplicates, but not the hashes.
    Warm,
    /// The list of files.
    InventoryOnly,
    /// That there was a scan.
    Marker,
    /// Nothing.
    Fresh,
}

} // verus!
