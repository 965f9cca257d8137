//! The bar at the top: buttons, the status and the totals.
use vstd::prelude::*;

use crate::gui::lines::Tone;
use crate::gui::widgets::settings_modal::engine::HashAlgo;
use crate::sizes::{format_size, human_size};
use crate::text::{cat4, decimal, decimal_string};

verus! {

/// What the bar asks for.
#[derive(Copy, Clone, Debug, PartialEq, Eq, Structural)]
pub enum HeaderAction {
    Nothing,
    OpenSettings,
    OpenBenchmark,
}

/// What was clicked in one frame.
#[derive(Copy, Clone, Debug, PartialEq, Eq, Structural)]
pub struct HeaderClicks {
    /// The mark that shows the hash.
    pub pill: bool,
    pub settings: bool,
    pub benchmark: bool,
}

/// What the clicks ask for. Nothing in the bar can be clicked while a scan runs.
pub fn header_action(clicks: HeaderClicks, scanning: bool) -> (r: HeaderAction)
    ensures
        r == (if scanning {
            HeaderAction::Nothing
        } else if clicks.benchmark {
            HeaderAction::OpenBenchmark
        } else if clicks.settings || clicks.pill {
            HeaderAction::OpenSettings
        } else {
            HeaderAction::Nothing
        }),
{
    if scanning {
        HeaderAction::Nothing
    } else if clicks.benchmark {
        HeaderAction::OpenBenchmark
    } else if clicks.settings || clicks.pill {
        HeaderAction::OpenSettings
    } else {
        HeaderAction::Nothing
    }
}

/// What is said of the button that opens the settings.
pub fn settings_hover(scanning: bool) -> (r: &'static str)
    ensures
        r@ == (if scanning {
            "Cancel the running scan before changing settings."@
        } else {
            "Engine options (size filters, glob patterns, format-aware, threads)."@
        }),
{
    if scanning {
        "Cancel the running scan before changing settings."
    } else {
        "Engine options (size filters, glob patterns, format-aware, threads)."
    }
}

/// What is said of the button that opens the benchmark.
pub fn benchmark_hover(scanning: bool) -> (r: &'static str)
    ensures
        r@ == (if scanning {
            "Finish the running scan before benchmarking."@
        } else {
            "Time your machine on a standard synthetic corpus and compare on the public Dedupe Hall of Fame. Touches no personal files."@
        }),
{
    if scanning {
        "Finish the running scan before benchmarking."
    } else {
        "Time your machine on a standard synthetic corpus and compare on the public Dedupe Hall of Fame. Touches no personal files."
    }
}

/// The build: its version and the commit it was made from.
pub fn build_tag(version: &str, commit: &str) -> (r: String)
    ensures
        r@ == "v"@ + version@ + " · "@ + commit@,
{
    cat4("v", version, " · ", commit)
}

/// The mark that shows the hash.
#[derive(Clone, Copy, Debug)]
pub struct Pill {
    pub label: &'static str,
    pub tone: Tone,
    pub hover: &'static str,
}

/// The mark that shows the hash.
pub fn pill(algo: HashAlgo, scanning: bool) -> (r: Pill)
    ensures
        match algo {
            HashAlgo::Blake3 => r.label@ == "BLAKE3"@ && r.tone == Tone::Cool,
            HashAlgo::River5 => r.label@ == "RIVER5"@ && r.tone == Tone::Accent,
        },
        r.hover@ == (if scanning {
            "Hash algorithm can't change mid-scan."@
        } else if algo == HashAlgo::Blake3 {
            "Content hash: BLAKE3 (32-byte cryptographic). Click to change in Settings."@
        } else {
            "Content hash: RIVER5 (16-byte, AES-NI hardware-accelerated). Click to change in Settings."@
        }),
{
    let hover = if scanning {
        "Hash algorithm can't change mid-scan."
    } else if algo == HashAlgo::Blake3 {
        "Content hash: BLAKE3 (32-byte cryptographic). Click to change in Settings."
    } else {
        "Content hash: RIVER5 (16-byte, AES-NI hardware-accelerated). Click to change in Settings."
    };
    match algo {
        HashAlgo::Blake3 => Pill { label: "BLAKE3", tone: Tone::Cool, hover },
        HashAlgo::River5 => Pill { label: "RIVER5", tone: Tone::Accent, hover },
    }
}

/// The status, or what to do first where there is none.
pub fn status_line(status: &str) -> (r: String)
    ensures
        r@ == (if status@.len() == 0 {
            "Idle — add folders in the sidebar, then click Start scan."@
        } else {
            status@
        }),
{
    if status.unicode_len() == 0 {
        "Idle — add folders in the sidebar, then click Start scan.".to_owned()
    } else {
        status.to_owned()
    }
}

/// The totals of a scan.
#[derive(Clone, Copy, Debug)]
pub struct Totals {
    pub reclaimable_bytes: u64,
    pub duplicates: u64,
    pub bytes_read: u64,
}

/// The totals as text.
pub struct TotalTexts {
    pub reclaimable: String,
    pub duplicates: String,
    pub read: String,
}

/// The totals as text.
pub fn total_texts(totals: Totals) -> (r: TotalTexts)
    ensures
        r.reclaimable@ == human_size(totals.reclaimable_bytes),
        r.duplicates@ == decimal(totals.duplicates as nat),
        r.read@ == human_size(totals.bytes_read),
{
    TotalTexts {
        reclaimable: format_size(totals.reclaimable_bytes),
        duplicates: decimal_string(totals.duplicates),
        read: format_size(totals.bytes_read),
    }
}

} // verus!
