//! The report before a scan: how fit the machine is, and what could be better.
use vstd::prelude::*;

use crate::gui::lines::Tone;
use crate::sort::{is_stable_order, stable_order, stable_order_of};
use crate::text::{cat2, cat3, cat5, decimal, decimal_string, texts};

verus! {

/// What the report asks for.
#[derive(Clone, Copy, Debug, PartialEq, Eq, Structural)]
pub enum PreflightAction {
    Cancel,
    Start,
}

/// How much a recommendation matters.
#[derive(Clone, Copy, Debug, PartialEq, Eq, Structural)]
pub enum RecommendationImpact {
    High,
    Medium,
    Low,
    Informational,
}

/// A recommendation.
#[derive(Clone, Debug)]
pub struct Recommendation {
    pub impact: RecommendationImpact,
    pub title: String,
    pub detail: String,
}

/// How one drive did.
#[derive(Clone, Debug)]
pub struct DriveScore {
    pub identifier: String,
    pub percent: Option<u8>,
    /// Whether the drive's speed was measured.
    pub has_speed: bool,
    pub error: Option<String>,
}

/// How the drives did together.
#[derive(Clone, Debug)]
pub struct DiskAxis {
    pub composite_percent: Option<u8>,
    pub drives: Vec<DriveScore>,
}

/// Where the report is.
#[derive(Clone, Debug)]
pub enum PreflightState {
    Idle,
    /// The machine is being measured.
    Probing { roots: Vec<String> },
    Showing { overall_percent: u8, cores: u64, river5: String },
    Failed { error: String },
}

/// The labels of the two buttons: to cancel, and to start.
#[derive(Clone, Copy, Debug)]
pub struct ButtonLabels {
    pub cancel: &'static str,
    pub start: &'static str,
}

/// The labels of the two buttons. Nothing is shown, and there are none, while nothing is going on.
pub fn button_labels(state: &PreflightState) -> (r: Option<ButtonLabels>)
    ensures
        match state {
            PreflightState::Idle => r is None,
            PreflightState::Probing { .. } => (r matches Some(labels) && labels.cancel@
                == "Cancel scan"@ && labels.start@ == "Skip pre-flight  →"@),
            PreflightState::Showing { .. } => (r matches Some(labels) && labels.cancel@
                == "Cancel"@ && labels.start@ == "Start scan →"@),
            PreflightState::Failed { .. } => (r matches Some(labels) && labels.cancel@ == "Cancel"@
                && labels.start@ == "Start scan →"@),
        },
{
    match state {
        PreflightState::Idle => None,
        PreflightState::Probing { .. } => Some(
            ButtonLabels { cancel: "Cancel scan", start: "Skip pre-flight  →" },
        ),
        PreflightState::Showing { .. } => Some(
            ButtonLabels { cancel: "Cancel", start: "Start scan →" },
        ),
        PreflightState::Failed { .. } => Some(
            ButtonLabels { cancel: "Cancel", start: "Start scan →" },
        ),
    }
}

/// What the targets' lines hold.
pub open spec fn target_texts(roots: Seq<String>) -> Seq<Seq<char>> {
    roots.map_values(|root: String| "Target: "@ + root@)
}

/// The line of each folder that will be scanned.
pub fn target_lines(roots: &Vec<String>) -> (r: Vec<String>)
    ensures
        texts(r@) == target_texts(roots@),
{
    let mut r: Vec<String> = Vec::new();
    let mut i: usize = 0;
    assert(texts(r@) =~= target_texts(roots@).take(0));
    while i < roots.len()
        invariant
            i <= roots.len(),
            texts(r@) =~= target_texts(roots@).take(i as int),
        decreases roots.len() - i,
    {
        let ghost before = r@;
        let line = cat2("Target: ", roots[i].as_str());
        r.push(line);
        assert(texts(r@) =~= texts(before).push(line@));
        i = i + 1;
    }
    assert(texts(r@) =~= target_texts(roots@));
    r
}

/// The tone of a score: good from 80 to 100, fair from 50, and bad otherwise.
pub open spec fn percent_tone(percent: u8) -> Tone {
    if 80 <= percent <= 100 {
        Tone::Accent
    } else if 50 <= percent <= 79 {
        Tone::Warn
    } else {
        Tone::Hot
    }
}

/// The tone of a score.
pub fn tone_for_percent(percent: u8) -> (r: Tone)
    ensures
        r == percent_tone(percent),
{
    if 80 <= percent && percent <= 100 {
        Tone::Accent
    } else if 50 <= percent && percent <= 79 {
        Tone::Warn
    } else {
        Tone::Hot
    }
}

/// A score as text.
pub open spec fn percent_text(percent: u8) -> Seq<char> {
    decimal(percent as nat) + "%"@
}

/// A score as text.
pub fn percent_string(percent: u8) -> (r: String)
    ensures
        r@ == percent_text(percent),
{
    let n = decimal_string(percent as u64);
    cat2(n.as_str(), "%")
}

/// The line below the title.
pub fn summary_line(overall_percent: u8, cores: u64, river5: &str) -> (r: String)
    ensures
        r@ == decimal(overall_percent as nat) + "% overall · "@ + decimal(cores as nat)
            + " cores · river5 "@ + river5@,
{
    let p = decimal_string(overall_percent as u64);
    let c = decimal_string(cores);
    cat5(p.as_str(), "% overall · ", c.as_str(), " cores · river5 ", river5)
}

/// How many drives have a score.
pub open spec fn measured(drives: Seq<DriveScore>) -> nat
    decreases drives.len(),
{
    if drives.len() == 0 {
        0
    } else {
        measured(drives.drop_last()) + (if drives.last().percent is Some {
            1nat
        } else {
            0nat
        })
    }
}

fn count_measured(drives: &Vec<DriveScore>) -> (r: usize)
    ensures
        r == measured(drives@),
{
    let mut r: usize = 0;
    let mut i: usize = 0;
    while i < drives.len()
        invariant
            i <= drives.len(),
            r == measured(drives@.take(i as int)),
            r <= i,
        decreases drives.len() - i,
    {
        assert(drives@.take(i + 1).drop_last() =~= drives@.take(i as int));
        assert(drives@.take(i + 1).last() == drives@[i as int]);
        if drives[i].percent.is_some() {
            r = r + 1;
        }
        i = i + 1;
    }
    assert(drives@.take(i as int) =~= drives@);
    r
}

/// What the row of the drives together shows.
pub struct DiskView {
    /// The score, or that there is none.
    pub score: String,
    pub tone: Tone,
    /// How many drives the score is made of.
    pub note: Option<String>,
    /// How much of the bar is filled; without a score there is no bar.
    pub bar: Option<u8>,
}

/// What the row of the drives together shows.
pub fn disk_view(disk: &DiskAxis) -> (r: DiskView)
    ensures
        r.bar == disk.composite_percent,
        match disk.composite_percent {
            Some(percent) => {
                &&& r.score@ == percent_text(percent)
                &&& r.tone == percent_tone(percent)
                &&& r.note matches Some(note)
                &&& note@ == "composite of "@ + decimal(measured(disk.drives@))
                    + " measured drive(s)"@
            },
            None => r.score@ == "not measured"@ && r.tone == Tone::Warn && r.note is None,
        },
{
    match disk.composite_percent {
        Some(percent) => {
            let n = decimal_string(count_measured(&disk.drives) as u64);
            DiskView {
                score: percent_string(percent),
                tone: tone_for_percent(percent),
                note: Some(cat3("composite of ", n.as_str(), " measured drive(s)")),
                bar: Some(percent),
            }
        },
        None => DiskView {
            score: "not measured".to_owned(),
            tone: Tone::Warn,
            note: None,
            bar: None,
        },
    }
}

/// What a drive's row shows.
pub struct DriveView {
    pub name: String,
    /// The score; the drive's speed stands beside it.
    pub score: Option<(String, Tone)>,
    /// Why there is no score.
    pub note: Option<String>,
    pub bar: Option<u8>,
}

/// What a drive's row shows: a score where both it and the speed are known.
pub fn drive_view(drive: &DriveScore) -> (r: DriveView)
    ensures
        r.name@ == "• "@ + drive.identifier@,
        r.bar == drive.percent,
        match drive.percent {
            Some(percent) => drive.has_speed ==> {
                &&& r.score matches Some(score)
                &&& score.0@ == percent_text(percent)
                &&& score.1 == percent_tone(percent)
                &&& r.note is None
            },
            None => true,
        },
        (drive.percent is None || !drive.has_speed) ==> {
            &&& r.score is None
            &&& r.note matches Some(note)
            &&& note@ == "("@ + (match drive.error {
                Some(error) => error@,
                None => "not measured"@,
            }) + ")"@
        },
{
    let name = cat2("• ", drive.identifier.as_str());
    if drive.has_speed {
        if let Some(percent) = drive.percent {
            return DriveView {
                name,
                score: Some((percent_string(percent), tone_for_percent(percent))),
                note: None,
                bar: drive.percent,
            };
        }
    }
    let why = match &drive.error {
        Some(error) => error.as_str(),
        None => "not measured",
    };
    DriveView { name, score: None, note: Some(cat3("(", why, ")")), bar: drive.percent }
}

/// The place of an impact in the list: what matters most comes first.
pub open spec fn impact_rank(impact: RecommendationImpact) -> i128 {
    match impact {
        RecommendationImpact::High => 0,
        RecommendationImpact::Medium => 1,
        RecommendationImpact::Low => 2,
        RecommendationImpact::Informational => 3,
    }
}

/// The sort keys of the recommendations.
pub open spec fn rank_keys(items: Seq<Recommendation>) -> Seq<i128> {
    items.map_values(|item: Recommendation| impact_rank(item.impact))
}

/// The places of the recommendations in the order they are shown: by impact, and those of one
/// impact as they came.
pub fn recommendation_order(items: &Vec<Recommendation>) -> (r: Vec<usize>)
    ensures
        r@ == stable_order_of(rank_keys(items@)),
        is_stable_order(rank_keys(items@), r@),
{
    let mut keys: Vec<i128> = Vec::new();
    let mut i: usize = 0;
    while i < items.len()
        invariant
            i <= items.len(),
            keys@ =~= rank_keys(items@).take(i as int),
        decreases items.len() - i,
    {
        let rank: i128 = match items[i].impact {
            RecommendationImpact::High => 0,
            RecommendationImpact::Medium => 1,
            RecommendationImpact::Low => 2,
            RecommendationImpact::Informational => 3,
        };
        keys.push(rank);
        i = i + 1;
    }
    assert(keys@ =~= rank_keys(items@));
    stable_order(&keys)
}

/// The mark before a recommendation.
pub fn impact_icon(impact: RecommendationImpact) -> (r: (&'static str, Tone))
    ensures
        match impact {
            RecommendationImpact::High => r.0@ == "⚠"@ && r.1 == Tone::Hot,
            RecommendationImpact::Medium => r.0@ == "⚠"@ && r.1 == Tone::Warn,
            RecommendationImpact::Low => r.0@ == "ℹ"@ && r.1 == Tone::Cool,
            RecommendationImpact::Informational => r.0@ == "ℹ"@ && r.1 == Tone::Dim,
        },
{
    match impact {
        RecommendationImpact::High => ("⚠", Tone::Hot),
        RecommendationImpact::Medium => ("⚠", Tone::Warn),
        RecommendationImpact::Low => ("ℹ", Tone::Cool),
        RecommendationImpact::Informational => ("ℹ", Tone::Dim),
    }
}

/// What is shown in place of recommendations, where there are none.
pub fn empty_note(items: &Vec<Recommendation>) -> (r: Option<&'static str>)
    ensures
        match r {
            Some(note) => items@.len() == 0 && note@ == "No recommendations — you're good to go."@,
            None => items@.len() > 0,
        },
{
    if items.len() == 0 {
        Some("No recommendations — you're good to go.")
    } else {
        None
    }
}

/// The recommendations are grouped: none stands before one that matters more.
pub proof fn what_matters_comes_first(items: Seq<Recommendation>, order: Seq<usize>, i: int, j: int)
    requires
        is_stable_order(rank_keys(items), order),
        0 <= i < j < order.len(),
    ensures
        order[i] < items.len(),
        order[j] < items.len(),
        impact_rank(items[order[i] as int].impact) <= impact_rank(items[order[j] as int].impact),
        impact_rank(items[order[i] as int].impact) == impact_rank(items[order[j] as int].impact)
            ==> order[i] < order[j],
{
    let keys = rank_keys(items);
    assert(order[i] < keys.len() && order[j] < keys.len());
    assert(keys[order[i] as int] == impact_rank(items[order[i] as int].impact));
    assert(keys[order[j] as int] == impact_rank(items[order[j] as int].impact));
}

/// Shares from 80 to 100 are good, those from 50 to 79 are middling, and all others are bad.
pub proof fn shares_have_their_tone(percent: u8)
    ensures
        percent_tone(percent) == Tone::Accent <==> percent >= 80 && percent <= 100,
        percent_tone(percent) == Tone::Warn <==> percent >= 50 && percent < 80,
        percent_tone(percent) == Tone::Hot <==> percent < 50 || percent > 100,
{
}

/// The drives that were measured are counted, each once.
pub proof fn measured_drives_are_counted(drives: Seq<DriveScore>)
    ensures
        measured(drives) == drives.filter(|d: DriveScore| d.percent is Some).len(),
    decreases drives.len(),
{
    reveal(Seq::filter);
    if drives.len() > 0 {
        measured_drives_are_counted(drives.drop_last());
    }
}

/// What matters highly stands before what matters some, that before what matters little, and notes
/// stand last. Every recommendation has its place.
pub proof fn recommendations_go_by_impact(items: Seq<Recommendation>, order: Seq<usize>, i: int, j: int)
    requires
        is_stable_order(rank_keys(items), order),
        0 <= i < j < order.len(),
    ensures
        order.len() == items.len(),
        ({
            let a = items[order[i] as int].impact;
            let b = items[order[j] as int].impact;
            &&& b is High ==> a is High
            &&& b is Medium ==> a is High || a is Medium
            &&& b is Low ==> !(a is Informational)
        }),
{
    what_matters_comes_first(items, order, i, j);
}

/// Every target has its line, in order.
pub proof fn targets_have_their_lines(roots: Seq<String>, k: int)
    requires
        0 <= k < roots.len(),
    ensures
        target_texts(roots).len() == roots.len(),
        target_texts(roots)[k] == "Target: "@ + roots[k]@,
{
}

} // verus!
