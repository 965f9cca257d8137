//! What the engine reports to the surfaces.
use vstd::prelude::*;

verus! {

/// What makes the files of a group alike.
#[derive(Clone, Copy, Debug, PartialEq, Eq, Structural)]
pub enum SimilarityKind {
    ByteIdentical,
    PerceptualImage,
    PerceptualAudio,
}

/// One group of duplicates. The first file is the keeper.
#[derive(Clone, Debug)]
pub struct DuplicateGroupSummary {
    pub size: u64,
    pub content_hash: String,
    pub files: Vec<String>,
    /// Every file of the group is a link to the same data.
    pub link_equivalent: bool,
    /// How many different files lie behind the paths, or 0 where that was not recorded.
    pub unique_inodes: usize,
    pub similarity_kind: SimilarityKind,
}

} // verus!
