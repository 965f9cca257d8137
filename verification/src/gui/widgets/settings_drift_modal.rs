//! The question before a scan whose settings are no longer those of the paused one.
use vstd::prelude::*;

use crate::gui::checkpoint::CheckpointSummary;
use crate::text::{cat6, decimal, decimal_string};

verus! {

/// What the user picked.
#[derive(Debug, Clone, Copy, PartialEq, Eq, Structural)]
pub enum SettingsDriftChoice {
    /// Give the paused scan up, and go on with the new settings.
    ContinueWithNew,
    /// Take the settings of the paused scan back, so that it goes on.
    RevertToPaused,
    Cancel,
}

/// The line that says what the paused scan holds.
pub fn paused_line(summary: &CheckpointSummary) -> (r: String)
    ensures
        r@ == "Paused scan: "@ + decimal(summary.duplicate_count as nat)
            + " duplicate group(s) confirmed · "@ + decimal(summary.roots@.len()) + " root(s)"@ + (
        if summary.has_saved_inventory {
            " · inventory saved (Stage 1 would be skipped)"@
        } else {
            " · inventory not yet saved"@
        }),
{
    let groups = decimal_string(summary.duplicate_count);
    let roots = decimal_string(summary.roots.len() as u64);
    let kept = if summary.has_saved_inventory {
        " · inventory saved (Stage 1 would be skipped)"
    } else {
        " · inventory not yet saved"
    };
    cat6(
        "Paused scan: ",
        groups.as_str(),
        " duplicate group(s) confirmed · ",
        roots.as_str(),
        " root(s)",
        kept,
    )
}

/// What a pick does to the paused scan and to the settings.
#[derive(Debug, Clone, Copy, PartialEq, Eq, Structural)]
pub struct DriftEffect {
    pub start_scan: bool,
    /// The paused scan is put aside.
    pub archive_paused: bool,
    /// The folders and settings of the paused scan are taken back first.
    pub restore_paused: bool,
}

/// What a pick does.
pub fn effect_of(choice: SettingsDriftChoice) -> (r: DriftEffect)
    ensures
        r.start_scan == (choice != SettingsDriftChoice::Cancel),
        r.archive_paused == (choice == SettingsDriftChoice::ContinueWithNew),
        r.restore_paused == (choice == SettingsDriftChoice::RevertToPaused),
{
    DriftEffect {
        start_scan: choice != SettingsDriftChoice::Cancel,
        archive_paused: choice == SettingsDriftChoice::ContinueWithNew,
        restore_paused: choice == SettingsDriftChoice::RevertToPaused,
    }
}

} // verus!
