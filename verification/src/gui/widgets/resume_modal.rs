//! The question at the start whether a paused scan goes on.
use vstd::prelude::*;

use crate::gui::checkpoint::CheckpointSummary;
use crate::gui::resume_tier::ResumeTier;
use crate::text::{cat2, cat3, cat5, decimal, decimal_string};

verus! {

/// What the user picked.
#[derive(Debug, Clone, Copy, PartialEq, Eq, Structural)]
pub enum ResumeChoice {
    Resume,
    StartFresh,
}

/// A time as people say it, counted back from `now`; all times are seconds since 1970.
pub open spec fn since_text(unix: u64, now: u64) -> Seq<char> {
    let delta = now - unix;
    if delta < 0 {
        "the future (clock skew)"@
    } else if delta < 60 {
        "just now"@
    } else if delta < 3_600 {
        decimal((delta / 60) as nat) + " minute(s) ago"@
    } else if delta < 86_400 {
        decimal((delta / 3_600) as nat) + " hour(s) ago"@
    } else if delta / 86_400 < 30 {
        decimal((delta / 86_400) as nat) + " day(s) ago"@
    } else {
        decimal((delta / 86_400) as nat) + " days ago"@
    }
}

/// A time as people say it, counted back from `now`.
pub fn human_time_since(unix: u64, now: u64) -> (r: String)
    ensures
        r@ == since_text(unix, now),
{
    if unix > now {
        return "the future (clock skew)".to_owned();
    }
    let delta: u64 = now - unix;
    if delta < 60 {
        return "just now".to_owned();
    }
    if delta < 3_600 {
        let n = decimal_string(delta / 60);
        return cat2(n.as_str(), " minute(s) ago");
    }
    if delta < 86_400 {
        let n = decimal_string(delta / 3_600);
        return cat2(n.as_str(), " hour(s) ago");
    }
    let days: u64 = delta / 86_400;
    let n = decimal_string(days);
    if days < 30 {
        return cat2(n.as_str(), " day(s) ago");
    }
    cat2(n.as_str(), " days ago")
}

/// The two lines at the top.
pub struct ResumeTexts {
    pub when: String,
    pub found: String,
}

/// The two lines at the top.
pub fn resume_texts(summary: &CheckpointSummary, now: u64) -> (r: ResumeTexts)
    ensures
        r.when@ == "From "@ + since_text(summary.created_at_unix, now) + "."@,
        r.found@ == decimal(summary.duplicate_count as nat)
            + " duplicate group(s) already confirmed · "@ + decimal(summary.roots@.len())
            + " root(s)"@ + (if summary.has_saved_inventory {
            " · file inventory saved (Stage 1 will be skipped)"@
        } else {
            " · inventory not yet saved"@
        }),
{
    let since = human_time_since(summary.created_at_unix, now);
    let groups = decimal_string(summary.duplicate_count);
    let roots = decimal_string(summary.roots.len() as u64);
    let kept = if summary.has_saved_inventory {
        " · file inventory saved (Stage 1 will be skipped)"
    } else {
        " · inventory not yet saved"
    };
    ResumeTexts {
        when: cat3("From ", since.as_str(), "."),
        found: cat5(
            groups.as_str(),
            " duplicate group(s) already confirmed · ",
            roots.as_str(),
            " root(s)",
            kept,
        ),
    }
}

/// What going on will do.
pub open spec fn tier_text(tier: ResumeTier) -> Seq<char> {
    match tier {
        ResumeTier::Full => "All your prior work is intact — hash cache hot, settings unchanged. This will be a fast continuation."@,
        ResumeTier::Warm => "Engine was upgraded since the pause; hash cache had to be wiped. Your duplicate list will be restored, but files will be re-validated against current disk state (cache misses are expected)."@,
        ResumeTier::InventoryOnly => "Scan settings changed since the pause. Your file list is still good, but grouping + hashing will be redone under the new settings."@,
        ResumeTier::Marker => "The previous scan was paused before any duplicates were found. Resuming starts a fresh walk; nothing is restored."@,
        ResumeTier::Fresh => "Nothing from the previous run can be reused (roots don't match, or no usable state). Both buttons will start a fresh scan."@,
    }
}

/// What going on will do.
pub fn tier_blurb(tier: ResumeTier) -> (r: &'static str)
    ensures
        r@ == tier_text(tier),
{
    match tier {
        ResumeTier::Full => "All your prior work is intact — hash cache hot, settings unchanged. This will be a fast continuation.",
        ResumeTier::Warm => "Engine was upgraded since the pause; hash cache had to be wiped. Your duplicate list will be restored, but files will be re-validated against current disk state (cache misses are expected).",
        ResumeTier::InventoryOnly => "Scan settings changed since the pause. Your file list is still good, but grouping + hashing will be redone under the new settings.",
        ResumeTier::Marker => "The previous scan was paused before any duplicates were found. Resuming starts a fresh walk; nothing is restored.",
        ResumeTier::Fresh => "Nothing from the previous run can be reused (roots don't match, or no usable state). Both buttons will start a fresh scan.",
    }
}

/// The label of the button that goes on, which says what that means.
pub fn resume_label(tier_label: &str) -> (r: String)
    ensures
        r@ == "▶  "@ + tier_label@,
{
    cat2("▶  ", tier_label)
}

/// How long ago a scan was paused is told in the largest unit that it fills: minutes from one
/// minute on, hours from one hour on, days from one day on. A pause in the future is told as such.
pub proof fn times_have_their_unit(unix: u64, now: u64, n: nat)
    ensures
        now < unix ==> since_text(unix, now) == "the future (clock skew)"@,
        0 <= now - unix <= 59 ==> since_text(unix, now) == "just now"@,
        1 <= n < 60 && 60 * n <= now - unix < 60 * (n + 1) ==> since_text(unix, now) == decimal(n)
            + " minute(s) ago"@,
        1 <= n < 24 && 3_600 * n <= now - unix < 3_600 * (n + 1) ==> since_text(unix, now) == decimal(n)
            + " hour(s) ago"@,
        1 <= n < 30 && 86_400 * n <= now - unix < 86_400 * (n + 1) ==> since_text(unix, now) == decimal(
            n,
        ) + " day(s) ago"@,
        30 <= n && 86_400 * n <= now - unix < 86_400 * (n + 1) ==> since_text(unix, now) == decimal(n)
            + " days ago"@,
{
}

} // verus!
