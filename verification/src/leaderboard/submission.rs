//! How the service answers a submission.
use vstd::prelude::*;

verus! {

/// A place in one of the rankings.
#[derive(Clone, Debug)]
pub struct RankEntry {
    pub rank: u64,
    pub category: String,
    pub bracket: String,
    pub bucket_size: u64,
}

/// How the service answered a submission.
#[derive(Clone, Debug)]
pub enum SubmitOutcome {
    Accepted {
        submission_id: String,
        ranks: Vec<RankEntry>,
        achievements_unlocked: Vec<String>,
        profile_url: Option<String>,
    },
    DuplicateNoChange { submission_id: Option<String> },
    Rejected { status: u16, reason: String },
    Transient { reason: String },
    FlaggedForReview {
        review_id: Option<String>,
        local_path: String,
        original_status: u16,
        original_reason: String,
    },
}

/// What is shown of a finished scan before it is submitted.
#[derive(Clone, Debug)]
pub struct PendingRun {
    pub files_scanned: u64,
    pub bytes_scanned: u64,
    pub duplicate_groups: u64,
    pub hash_algorithm: String,
}

} // verus!
