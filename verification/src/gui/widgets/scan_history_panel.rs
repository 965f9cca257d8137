//! The list of past scans: a row for each, and what its buttons ask for.
use vstd::prelude::*;

use crate::gui::lines::Tone;
use crate::gui::{says_trash, Desktop};
use crate::leaderboard::submission::SubmitOutcome;
use crate::numbers::{count_text, quotient_string};
use crate::sizes::{format_size, human_size};
use crate::text::{
    cat2, cat3, cat4, cat5, cut_left, cut_left_of, decimal, decimal_string, join_with, joined,
    plural, plural_of, same_text, texts,
};
use crate::time::{timestamp_string, timestamp_text};

verus! {

/// What became of a scan's submission.
#[derive(Clone, Copy, Debug, PartialEq, Eq, Structural)]
pub enum SubmissionState {
    Pending,
    Submitted,
    Failed,
    Interrupted,
}

/// The bytes that one kind of action has freed.
#[derive(Clone, Debug)]
pub struct ActionBytes {
    pub key: String,
    pub bytes: u64,
}

/// A past scan.
#[derive(Clone, Debug)]
pub struct ScanRecord {
    pub scan_id: String,
    pub started_at_unix: u64,
    pub roots: Vec<String>,
    pub total_files: u64,
    pub total_dups: u64,
    pub reclaimable_bytes: u64,
    pub actually_reclaimed_bytes: u64,
    /// When something was first freed, if anything was.
    pub reclaim_at_unix: Option<u64>,
    pub reclaim_updated_at_unix: Option<u64>,
    pub action_breakdown: Vec<ActionBytes>,
    pub submission_state: SubmissionState,
    /// Whether what would be submitted was kept.
    pub has_payload: bool,
    pub attempt_count: u32,
    pub last_attempt_at_unix: Option<u64>,
    pub submission_channel: Option<String>,
    pub channel: String,
}

/// What a row asks for.
#[derive(Clone, Debug)]
pub enum RowAction {
    Resubmit(String),
    Delete(String),
}

/// The timestamp as `YYYY-MM-DD HH:MM`, in UTC.
pub fn format_unix_local(secs: u64) -> (r: String)
    ensures
        r@ == timestamp_text(secs),
{
    timestamp_string(secs)
}

/// The last `cap` characters of a path behind an ellipsis, where it is longer than that.
pub fn truncate_tail(s: &str, cap: usize) -> (r: String)
    ensures
        r@ == cut_left(s@, cap as nat),
{
    cut_left_of(s, cap)
}

/// A count in short: `42`, `1.2k`, `15.3k`, `2.1M`.
pub fn format_count(n: u64) -> (r: String)
    ensures
        r@ == count_text(n),
{
    if n < 1_000 {
        decimal_string(n)
    } else if n < 1_000_000 {
        let q = quotient_string(n, 1_000, 1);
        cat2(q.as_str(), "k")
    } else if n < 1_000_000_000 {
        let q = quotient_string(n, 1_000_000, 1);
        cat2(q.as_str(), "M")
    } else {
        let q = quotient_string(n, 1_000_000_000, 1);
        cat2(q.as_str(), "B")
    }
}

/// What was scanned: the first folder, and how many more.
pub open spec fn scope_text(roots: Seq<Seq<char>>) -> Seq<char> {
    if roots.len() == 0 {
        "(no roots)"@
    } else if roots.len() == 1 {
        cut_left(roots[0], 48)
    } else {
        cut_left(roots[0], 32) + " +"@ + decimal((roots.len() - 1) as nat) + " more"@
    }
}

/// What was scanned: the first folder, and how many more.
pub fn scope_short(roots: &Vec<String>) -> (r: String)
    ensures
        r@ == scope_text(texts(roots@)),
{
    assert(texts(roots@).len() == roots.len());
    if roots.len() == 0 {
        return "(no roots)".to_owned();
    }
    assert(texts(roots@)[0] == roots@[0]@);
    if roots.len() == 1 {
        truncate_tail(roots[0].as_str(), 48)
    } else {
        let first = truncate_tail(roots[0].as_str(), 32);
        let more = decimal_string((roots.len() - 1) as u64);
        cat4(first.as_str(), " +", more.as_str(), " more")
    }
}

/// What the user calls the action that can be undone from the place for deleted files.
pub open spec fn trash_verb(desktop: Desktop) -> Seq<char> {
    if says_trash(desktop) {
        "Trash"@
    } else {
        "Recycle"@
    }
}

/// What the user calls the action that can be undone from the place for deleted files.
pub fn trash_action_verb(desktop: Desktop) -> (r: &'static str)
    ensures
        r@ == trash_verb(desktop),
{
    if desktop != Desktop::Windows {
        "Trash"
    } else {
        "Recycle"
    }
}

/// The bytes under the key, or 0 where there are none.
pub open spec fn bytes_for(breakdown: Seq<ActionBytes>, key: Seq<char>) -> u64
    decreases breakdown.len(),
{
    if breakdown.len() == 0 {
        0
    } else if breakdown[0].key@ == key {
        breakdown[0].bytes
    } else {
        bytes_for(breakdown.skip(1), key)
    }
}

fn find_bytes(breakdown: &Vec<ActionBytes>, key: &str) -> (r: u64)
    ensures
        r == bytes_for(breakdown@, key@),
{
    let mut i: usize = 0;
    assert(breakdown@.skip(0) =~= breakdown@);
    while i < breakdown.len()
        invariant
            i <= breakdown.len(),
            bytes_for(breakdown@, key@) == bytes_for(breakdown@.skip(i as int), key@),
        decreases breakdown.len() - i,
    {
        assert(breakdown@.skip(i as int)[0] == breakdown@[i as int]);
        assert(breakdown@.skip(i as int).skip(1) =~= breakdown@.skip(i + 1));
        if same_text(breakdown[i].key.as_str(), key) {
            return breakdown[i].bytes;
        }
        i = i + 1;
    }
    0
}

/// The line of one kind of action, where it freed something.
pub open spec fn action_line(breakdown: Seq<ActionBytes>, key: Seq<char>, label: Seq<char>) -> Seq<
    Seq<char>,
> {
    if bytes_for(breakdown, key) > 0 {
        seq!["  "@ + label + ": "@ + human_size(bytes_for(breakdown, key))]
    } else {
        Seq::empty()
    }
}

/// When a timestamp was, or a dash.
pub open spec fn when_text(at: Option<u64>) -> Seq<char> {
    match at {
        Some(secs) => timestamp_text(secs),
        None => "—"@,
    }
}

/// The lines about what was freed, by kind of action, in a fixed order.
pub open spec fn breakdown_lines(record: ScanRecord, desktop: Desktop) -> Seq<Seq<char>> {
    let b = record.action_breakdown@;
    seq!["Reclaim landed: "@ + when_text(record.reclaim_at_unix)] + (
    match record.reclaim_updated_at_unix {
        Some(updated) => if record.reclaim_at_unix != Some(updated) {
            seq!["Most recent update: "@ + timestamp_text(updated)]
        } else {
            Seq::empty()
        },
        None => Seq::empty(),
    }) + seq![""@] + action_line(b, "deleted_to_recycle_bytes"@, trash_verb(desktop))
        + action_line(b, "deleted_permanently_bytes"@, "Remove"@) + action_line(
        b,
        "hardlink_replaced_bytes"@,
        "Hardlink"@,
    ) + action_line(b, "reflink_replaced_bytes"@, "Reflink"@) + action_line(
        b,
        "archived_bytes"@,
        "Archive"@,
    )
}

fn push_action(lines: &mut Vec<String>, breakdown: &Vec<ActionBytes>, key: &str, label: &str)
    ensures
        texts(final(lines)@) == texts(old(lines)@) + action_line(breakdown@, key@, label@),
{
    let ghost before = lines@;
    let bytes: u64 = find_bytes(breakdown, key);
    if bytes > 0 {
        let size = format_size(bytes);
        lines.push(cat4("  ", label, ": ", size.as_str()));
    }
    assert(texts(lines@) =~= texts(before) + action_line(breakdown@, key@, label@));
}

fn when(at: Option<u64>) -> (r: String)
    ensures
        r@ == when_text(at),
{
    match at {
        Some(secs) => format_unix_local(secs),
        None => "—".to_owned(),
    }
}

/// What was freed, by kind of action: when, and a line for each kind that freed something.
pub fn action_breakdown_tooltip(record: &ScanRecord, desktop: Desktop) -> (r: String)
    ensures
        r@ == joined(breakdown_lines(*record, desktop), "\n"@),
{
    let mut lines: Vec<String> = Vec::new();
    let at = when(record.reclaim_at_unix);
    lines.push(cat2("Reclaim landed: ", at.as_str()));
    assert(texts(lines@) =~= seq!["Reclaim landed: "@ + when_text(record.reclaim_at_unix)]);
    let ghost one = texts(lines@);
    if let Some(updated) = record.reclaim_updated_at_unix {
        let same = match record.reclaim_at_unix {
            Some(first) => first == updated,
            None => false,
        };
        if !same {
            let again = format_unix_local(updated);
            lines.push(cat2("Most recent update: ", again.as_str()));
            assert(texts(lines@) =~= one + seq!["Most recent update: "@ + timestamp_text(updated)]);
        }
    }
    assert(texts(lines@) =~= one + (match record.reclaim_updated_at_unix {
        Some(updated) => if record.reclaim_at_unix != Some(updated) {
            seq!["Most recent update: "@ + timestamp_text(updated)]
        } else {
            Seq::empty()
        },
        None => Seq::empty(),
    }));
    let ghost two = texts(lines@);
    lines.push("".to_owned());
    assert(texts(lines@) =~= two + seq![""@]);
    let b = &record.action_breakdown;
    push_action(&mut lines, b, "deleted_to_recycle_bytes", trash_action_verb(desktop));
    push_action(&mut lines, b, "deleted_permanently_bytes", "Remove");
    push_action(&mut lines, b, "hardlink_replaced_bytes", "Hardlink");
    push_action(&mut lines, b, "reflink_replaced_bytes", "Reflink");
    push_action(&mut lines, b, "archived_bytes", "Archive");
    join_with(&lines, "\n")
}

/// What a row shows as freed.
pub enum ReclaimedCell {
    /// The bytes, and what freed them where that was kept.
    Freed(String, Option<String>),
    /// Nothing was done: a dash, and what could be done.
    ScanOnly(String),
}

/// The state of a row's submission: its text, tone and explanation.
pub struct StatusCell {
    pub text: &'static str,
    pub tone: Tone,
    pub tooltip: Option<String>,
}

/// What stands in a row where it is submitted again.
pub enum ResubmitCell {
    /// It is being submitted: a spinner and this line.
    Submitting(&'static str),
    /// The button and what it says when the pointer rests on it.
    Button { enabled: bool, tooltip: String },
}

/// Whether the row waits to be submitted but what would be submitted was not kept.
pub open spec fn stuck(record: ScanRecord) -> bool {
    record.submission_state == SubmissionState::Pending && !record.has_payload
}

/// The text of a row's submission state.
pub open spec fn state_text(record: ScanRecord) -> Seq<char> {
    match record.submission_state {
        SubmissionState::Pending => if record.has_payload {
            "⏳ pending"@
        } else {
            "⏳ pending · no payload"@
        },
        SubmissionState::Submitted => "✓ submitted"@,
        SubmissionState::Failed => "⚠ failed"@,
        SubmissionState::Interrupted => "🛑 interrupted"@,
    }
}

/// The tone of a row's submission state.
pub open spec fn state_tone(state: SubmissionState) -> Tone {
    match state {
        SubmissionState::Pending => Tone::Warn,
        SubmissionState::Submitted => Tone::Cool,
        SubmissionState::Failed => Tone::Hot,
        SubmissionState::Interrupted => Tone::Hot,
    }
}

/// What explains a row's submission state: why it cannot be submitted, else how often it was.
pub open spec fn state_tooltip(record: ScanRecord) -> Option<Seq<char>> {
    if stuck(record) {
        Some(
            "This row was recorded before payload-capture (#41 v2 / v0.2.10) landed; the engine can't reconstruct a submittable payload from it. The work is still in the local history, just not resubmittable. To get credit, rescan the same roots — the fresh row will be submittable."@,
        )
    } else if record.attempt_count >= 2 {
        Some(
            "Retried "@ + decimal(record.attempt_count as nat) + "× (most recent: "@ + when_text(
                record.last_attempt_at_unix,
            ) + ")"@,
        )
    } else {
        None
    }
}

/// The state of a row's submission.
pub fn status_cell(record: &ScanRecord) -> (r: StatusCell)
    ensures
        r.text@ == state_text(*record),
        r.tone == state_tone(record.submission_state),
        match r.tooltip {
            Some(text) => state_tooltip(*record) == Some(text@),
            None => state_tooltip(*record) is None,
        },
{
    let (text, tone) = match record.submission_state {
        SubmissionState::Pending => if record.has_payload {
            ("⏳ pending", Tone::Warn)
        } else {
            ("⏳ pending · no payload", Tone::Warn)
        },
        SubmissionState::Submitted => ("✓ submitted", Tone::Cool),
        SubmissionState::Failed => ("⚠ failed", Tone::Hot),
        SubmissionState::Interrupted => ("🛑 interrupted", Tone::Hot),
    };
    let tooltip = if record.submission_state == SubmissionState::Pending && !record.has_payload {
        Some(
            "This row was recorded before payload-capture (#41 v2 / v0.2.10) landed; the engine can't reconstruct a submittable payload from it. The work is still in the local history, just not resubmittable. To get credit, rescan the same roots — the fresh row will be submittable.".to_owned(),
        )
    } else if record.attempt_count >= 2 {
        let n = decimal_string(record.attempt_count as u64);
        let last = when(record.last_attempt_at_unix);
        Some(cat5("Retried ", n.as_str(), "× (most recent: ", last.as_str(), ")"))
    } else {
        None
    };
    StatusCell { text, tone, tooltip }
}

/// Whether a state allows another submission: the server has no submission of the scan yet.
pub open spec fn resubmittable(state: SubmissionState) -> bool {
    state != SubmissionState::Submitted
}

/// Whether the row can be submitted now, given the scan that is being submitted.
pub open spec fn can_resubmit(record: ScanRecord, in_flight: Option<Seq<char>>) -> bool {
    resubmittable(record.submission_state) && record.has_payload && in_flight is None
}

/// The view of an optional text.
pub open spec fn optional(text: Option<&str>) -> Option<Seq<char>> {
    match text {
        Some(t) => Some(t@),
        None => None,
    }
}

/// What the button to submit again says.
pub open spec fn resubmit_tooltip(record: ScanRecord, in_flight: Option<Seq<char>>) -> Seq<char> {
    if !record.has_payload {
        "This row was recorded before payload-capture (v1/v2); rescan to get a resubmittable row."@
    } else if !resubmittable(record.submission_state) {
        "State `Submitted` — server already has this submission."@
    } else if in_flight is Some {
        "Another resubmit is in flight; click again once it completes."@
    } else {
        "Resubmit to "@ + (match record.submission_channel {
            Some(channel) => channel@,
            None => record.channel@,
        }) + " (channel: "@ + record.channel@ + ")."@
    }
}

/// What stands in a row where it is submitted again, given the scan that is being submitted. One
/// scan is submitted at a time.
pub fn resubmit_cell(record: &ScanRecord, in_flight: Option<&str>) -> (r: ResubmitCell)
    ensures
        match r {
            ResubmitCell::Submitting(line) => optional(in_flight) == Some(record.scan_id@) && line@
                == "Submitting…"@,
            ResubmitCell::Button { enabled, tooltip } => optional(in_flight) != Some(
                record.scan_id@,
            ) && enabled == can_resubmit(*record, optional(in_flight)) && tooltip@
                == resubmit_tooltip(*record, optional(in_flight)),
        },
{
    if let Some(id) = in_flight {
        if same_text(id, record.scan_id.as_str()) {
            return ResubmitCell::Submitting("Submitting…");
        }
    }
    let open_state = record.submission_state != SubmissionState::Submitted;
    let enabled = open_state && record.has_payload && in_flight.is_none();
    let tooltip = if !record.has_payload {
        "This row was recorded before payload-capture (v1/v2); rescan to get a resubmittable row.".to_owned()
    } else if !open_state {
        "State `Submitted` — server already has this submission.".to_owned()
    } else if in_flight.is_some() {
        "Another resubmit is in flight; click again once it completes.".to_owned()
    } else {
        let target = match &record.submission_channel {
            Some(channel) => channel.as_str(),
            None => record.channel.as_str(),
        };
        cat5("Resubmit to ", target, " (channel: ", record.channel.as_str(), ").")
    };
    ResubmitCell::Button { enabled, tooltip }
}

/// A row of the list.
pub struct RecordRow {
    pub date: String,
    pub scope: String,
    /// Every folder, where there is any.
    pub scope_hover: Option<String>,
    pub files: String,
    pub duplicates: String,
    pub reclaimed: ReclaimedCell,
    pub status: StatusCell,
    pub resubmit: ResubmitCell,
}

/// Whether the cell shows what the record has freed.
pub open spec fn shows_reclaimed(
    cell: ReclaimedCell,
    record: ScanRecord,
    desktop: Desktop,
) -> bool {
    match cell {
        ReclaimedCell::Freed(text, tooltip) => {
            &&& record.reclaim_at_unix is Some
            &&& text@ == "♻ "@ + human_size(record.actually_reclaimed_bytes)
            &&& match tooltip {
                Some(t) => record.action_breakdown@.len() > 0 && t@ == joined(
                    breakdown_lines(record, desktop),
                    "\n"@,
                ),
                None => record.action_breakdown@.len() == 0,
            }
        },
        ReclaimedCell::ScanOnly(hover) => {
            &&& record.reclaim_at_unix is None
            &&& hover@ == "Scan only — no actions were taken on this run. Run "@ + trash_verb(
                desktop,
            )
                + " / Hardlink / Reflink / Archive on the groups to credit reclaim bytes to your profile."@
        },
    }
}

/// The row of a past scan.
pub fn record_row(record: &ScanRecord, in_flight: Option<&str>, desktop: Desktop) -> (r: RecordRow)
    ensures
        r.date@ == timestamp_text(record.started_at_unix),
        r.scope@ == scope_text(texts(record.roots@)),
        match r.scope_hover {
            Some(text) => record.roots@.len() > 0 && text@ == joined(texts(record.roots@), "\n"@),
            None => record.roots@.len() == 0,
        },
        r.files@ == count_text(record.total_files),
        r.duplicates@ == count_text(record.total_dups) + " groups · "@ + human_size(
            record.reclaimable_bytes,
        ),
        shows_reclaimed(r.reclaimed, *record, desktop),
        r.status.text@ == state_text(*record),
        r.status.tone == state_tone(record.submission_state),
        match r.status.tooltip {
            Some(text) => state_tooltip(*record) == Some(text@),
            None => state_tooltip(*record) is None,
        },
        match r.resubmit {
            ResubmitCell::Submitting(line) => optional(in_flight) == Some(record.scan_id@) && line@
                == "Submitting…"@,
            ResubmitCell::Button { enabled, tooltip } => optional(in_flight) != Some(
                record.scan_id@,
            ) && enabled == can_resubmit(*record, optional(in_flight)) && tooltip@
                == resubmit_tooltip(*record, optional(in_flight)),
        },
{
    let scope_hover = if record.roots.len() > 0 {
        Some(join_with(&record.roots, "\n"))
    } else {
        None
    };
    let dups = format_count(record.total_dups);
    let reclaim = format_size(record.reclaimable_bytes);
    let reclaimed = if record.reclaim_at_unix.is_some() {
        let actually = format_size(record.actually_reclaimed_bytes);
        let tooltip = if record.action_breakdown.len() > 0 {
            Some(action_breakdown_tooltip(record, desktop))
        } else {
            None
        };
        ReclaimedCell::Freed(cat2("♻ ", actually.as_str()), tooltip)
    } else {
        ReclaimedCell::ScanOnly(
            cat3(
                "Scan only — no actions were taken on this run. Run ",
                trash_action_verb(desktop),
                " / Hardlink / Reflink / Archive on the groups to credit reclaim bytes to your profile.",
            ),
        )
    };
    RecordRow {
        date: format_unix_local(record.started_at_unix),
        scope: scope_short(&record.roots),
        scope_hover,
        files: format_count(record.total_files),
        duplicates: cat3(dups.as_str(), " groups · ", reclaim.as_str()),
        reclaimed,
        status: status_cell(record),
        resubmit: resubmit_cell(record, in_flight),
    }
}

/// A click on the button to submit again: what it asks for, where it is enabled.
pub fn press_resubmit(record: &ScanRecord, in_flight: Option<&str>) -> (r: Option<RowAction>)
    ensures
        match r {
            Some(action) => can_resubmit(*record, optional(in_flight)) && (action matches RowAction::Resubmit(
                id,
            ) && id@ == record.scan_id@),
            None => !can_resubmit(*record, optional(in_flight)),
        },
{
    if record.submission_state != SubmissionState::Submitted && record.has_payload
        && in_flight.is_none() {
        Some(RowAction::Resubmit(record.scan_id.clone()))
    } else {
        None
    }
}

/// A click on the button to delete the row.
pub fn press_delete(record: &ScanRecord) -> (r: RowAction)
    ensures
        r matches RowAction::Delete(id) && id@ == record.scan_id@,
{
    RowAction::Delete(record.scan_id.clone())
}

/// What stands above the list.
pub enum HistoryHead {
    /// The records could not be read.
    Unreadable(String),
    /// There is none: a headline and a hint.
    Empty(&'static str, &'static str),
    /// How many there are.
    Count(String),
}

/// What stands above the list.
pub fn history_head(records: &Result<Vec<ScanRecord>, String>) -> (r: HistoryHead)
    ensures
        match *records {
            Err(reason) => (r matches HistoryHead::Unreadable(line) && line@
                == "Couldn't read scan history: "@ + reason@),
            Ok(list) => if list@.len() == 0 {
                r matches HistoryHead::Empty(headline, hint) && headline@ == "No scans yet"@
                    && hint@
                    == "Run a scan from the Roots panel — once it finishes, a row will appear here."@
            } else {
                r matches HistoryHead::Count(line) && line@ == decimal(list@.len())
                    + " past scan"@ + plural(list@.len() as int)
            },
        },
{
    match records {
        Err(reason) => HistoryHead::Unreadable(
            cat2("Couldn't read scan history: ", reason.as_str()),
        ),
        Ok(list) => {
            if list.len() == 0 {
                HistoryHead::Empty(
                    "No scans yet",
                    "Run a scan from the Roots panel — once it finishes, a row will appear here.",
                )
            } else {
                let n = decimal_string(list.len() as u64);
                HistoryHead::Count(cat3(n.as_str(), " past scan", plural_of(list.len() as u64)))
            }
        },
    }
}

/// The banner about the last scan that was submitted again.
#[derive(Clone, Debug)]
pub struct LastOutcome {
    pub scan_id: String,
    pub message: String,
    pub tone: Tone,
}

/// What the banner says of an answer.
pub open spec fn outcome_message(outcome: SubmitOutcome) -> (Seq<char>, Tone) {
    match outcome {
        SubmitOutcome::Accepted { submission_id, .. } => (
            "Resubmit accepted ("@ + submission_id@ + ")."@,
            Tone::Cool,
        ),
        SubmitOutcome::DuplicateNoChange { .. } => (
            "Resubmit: server already had this submission (no change)."@,
            Tone::Cool,
        ),
        SubmitOutcome::Rejected { status, reason } => (
            "Resubmit rejected ("@ + decimal(status as nat) + "): "@ + reason@,
            Tone::Hot,
        ),
        SubmitOutcome::Transient { reason } => (
            "Resubmit transient failure (will stay Pending): "@ + reason@,
            Tone::Warn,
        ),
        SubmitOutcome::FlaggedForReview { .. } => (
            "Resubmit flagged for review (uncommon path)."@,
            Tone::Warn,
        ),
    }
}

/// An answer takes the place of the banner that is shown.
pub fn store_last_outcome(banner: &mut Option<LastOutcome>, scan_id: String, outcome: &SubmitOutcome)
    ensures
        *final(banner) matches Some(b) && b.scan_id@ == scan_id@ && (b.message@, b.tone)
            == outcome_message(*outcome),
{
    let (message, tone) = match outcome {
        SubmitOutcome::Accepted { submission_id, .. } => (
            cat3("Resubmit accepted (", submission_id.as_str(), ")."),
            Tone::Cool,
        ),
        SubmitOutcome::DuplicateNoChange { .. } => (
            "Resubmit: server already had this submission (no change).".to_owned(),
            Tone::Cool,
        ),
        SubmitOutcome::Rejected { status, reason } => {
            let code = decimal_string(*status as u64);
            (cat4("Resubmit rejected (", code.as_str(), "): ", reason.as_str()), Tone::Hot)
        },
        SubmitOutcome::Transient { reason } => (
            cat2("Resubmit transient failure (will stay Pending): ", reason.as_str()),
            Tone::Warn,
        ),
        SubmitOutcome::FlaggedForReview { .. } => (
            "Resubmit flagged for review (uncommon path).".to_owned(),
            Tone::Warn,
        ),
    };
    *banner = Some(LastOutcome { scan_id, message, tone });
}

/// A submission that could not be begun takes the place of the banner that is shown.
pub fn store_inline_error(banner: &mut Option<LastOutcome>, scan_id: String, message: &str)
    ensures
        *final(banner) matches Some(b) && b.scan_id@ == scan_id@ && b.message@
            == "Couldn't start resubmit: "@ + message@ && b.tone == Tone::Hot,
{
    *banner = Some(
        LastOutcome {
            scan_id,
            message: cat2("Couldn't start resubmit: ", message),
            tone: Tone::Hot,
        },
    );
}

/// The banner was dismissed.
pub fn dismiss_banner(banner: &mut Option<LastOutcome>)
    ensures
        *final(banner) is None,
{
    *banner = None;
}

/// While a scan is being submitted no other row can be.
pub proof fn one_resubmit_at_a_time(record: ScanRecord, in_flight: Option<Seq<char>>)
    requires
        in_flight is Some,
    ensures
        !can_resubmit(record, in_flight),
{
}

/// A scan that the server has is never submitted again, and neither is one whose submission was
/// not kept.
pub proof fn only_open_rows_resubmit(record: ScanRecord, in_flight: Option<Seq<char>>)
    requires
        record.submission_state == SubmissionState::Submitted || !record.has_payload,
    ensures
        !can_resubmit(record, in_flight),
{
}

/// A scan can be submitted again exactly where the service does not have it, what would be sent is
/// still there, and no other scan is on its way.
pub proof fn open_rows_can_be_sent(record: ScanRecord, in_flight: Option<Seq<char>>)
    ensures
        can_resubmit(record, in_flight) <==> {
            &&& record.submission_state == SubmissionState::Pending || record.submission_state
                == SubmissionState::Failed || record.submission_state == SubmissionState::Interrupted
            &&& record.has_payload
            &&& in_flight is None
        },
{
}

/// The hint at the button says why it cannot be pressed: no payload first, then what was submitted,
/// then one that is on its way; and else where the scan would go.
pub proof fn hints_say_why(record: ScanRecord, in_flight: Option<Seq<char>>)
    ensures
        !record.has_payload ==> resubmit_tooltip(record, in_flight)
            == "This row was recorded before payload-capture (v1/v2); rescan to get a resubmittable row."@,
        record.has_payload && record.submission_state == SubmissionState::Submitted
            ==> resubmit_tooltip(record, in_flight)
            == "State `Submitted` — server already has this submission."@,
        record.has_payload && record.submission_state != SubmissionState::Submitted && in_flight is Some
            ==> resubmit_tooltip(record, in_flight)
            == "Another resubmit is in flight; click again once it completes."@,
        can_resubmit(record, in_flight) && record.submission_channel is None ==> resubmit_tooltip(
            record,
            in_flight,
        ) == "Resubmit to "@ + record.channel@ + " (channel: "@ + record.channel@ + ")."@,
        can_resubmit(record, in_flight) && record.submission_channel is Some ==> resubmit_tooltip(
            record,
            in_flight,
        ) == "Resubmit to "@ + (record.submission_channel->0)@ + " (channel: "@ + record.channel@
            + ")."@,
{
}

/// The state of a submission is told with its own words and its own colour; one that waits without
/// anything to send says so.
pub proof fn states_are_told(record: ScanRecord)
    ensures
        record.submission_state == SubmissionState::Submitted ==> state_text(record) == "✓ submitted"@,
        record.submission_state == SubmissionState::Failed ==> state_text(record) == "⚠ failed"@,
        record.submission_state == SubmissionState::Interrupted ==> state_text(record)
            == "🛑 interrupted"@,
        record.submission_state == SubmissionState::Pending && record.has_payload ==> state_text(record)
            == "⏳ pending"@,
        record.submission_state == SubmissionState::Pending && !record.has_payload ==> state_text(
            record,
        ) == "⏳ pending · no payload"@,
        state_tone(record.submission_state) == Tone::Cool <==> record.submission_state
            == SubmissionState::Submitted,
        state_tone(record.submission_state) == Tone::Warn <==> record.submission_state
            == SubmissionState::Pending,
        state_tone(record.submission_state) == Tone::Hot <==> record.submission_state
            == SubmissionState::Failed || record.submission_state == SubmissionState::Interrupted,
        stuck(record) <==> record.submission_state == SubmissionState::Pending && !record.has_payload,
{
}

/// Attempts are told from the second one on, unless there is nothing that could be sent.
pub proof fn retries_are_told(record: ScanRecord)
    ensures
        record.has_payload && record.attempt_count <= 1 ==> state_tooltip(record) is None,
        record.has_payload && record.attempt_count > 1 ==> state_tooltip(record) == Some(
            "Retried "@ + decimal(record.attempt_count as nat) + "× (most recent: "@ + when_text(
                record.last_attempt_at_unix,
            ) + ")"@,
        ),
        record.submission_state == SubmissionState::Pending && !record.has_payload ==> state_tooltip(
            record,
        ) is Some,
{
}

/// The bytes of an action are those of its first entry, and none where it has no entry.
pub proof fn actions_have_their_bytes(breakdown: Seq<ActionBytes>, key: Seq<char>, k: int)
    requires
        forall|j: int| 0 <= j < k ==> (#[trigger] breakdown[j]).key@ != key,
        0 <= k <= breakdown.len(),
    ensures
        k < breakdown.len() && breakdown[k].key@ == key ==> bytes_for(breakdown, key)
            == breakdown[k].bytes,
        k == breakdown.len() ==> bytes_for(breakdown, key) == 0,
    decreases k,
{
    if k > 0 {
        let rest = breakdown.skip(1);
        assert(breakdown[0].key@ != key);
        assert forall|j: int| 0 <= j < k - 1 implies (#[trigger] rest[j]).key@ != key by {
            assert(rest[j] == breakdown[j + 1]);
        }
        actions_have_their_bytes(rest, key, k - 1);
        if k < breakdown.len() {
            assert(rest[k - 1] == breakdown[k]);
        }
    }
}

/// An action that freed something is among the lines with its name and its size, and one that freed
/// nothing is not there.
pub proof fn what_was_freed_is_listed(record: ScanRecord, desktop: Desktop)
    ensures
        ({
            let lines = breakdown_lines(record, desktop);
            let recycled = bytes_for(record.action_breakdown@, "deleted_to_recycle_bytes"@);
            let removed = bytes_for(record.action_breakdown@, "deleted_permanently_bytes"@);
            let linked = bytes_for(record.action_breakdown@, "hardlink_replaced_bytes"@);
            let cloned = bytes_for(record.action_breakdown@, "reflink_replaced_bytes"@);
            let archived = bytes_for(record.action_breakdown@, "archived_bytes"@);
            let updated = record.reclaim_updated_at_unix is Some && record.reclaim_at_unix
                != record.reclaim_updated_at_unix;
            let told = |bytes: u64|
                if bytes > 0 {
                    1int
                } else {
                    0int
                };
            let start: int = if updated {
                3
            } else {
                2
            };
            &&& lines.len() == start + told(recycled) + told(removed) + told(linked) + told(cloned)
                + told(archived)
            &&& lines[0] == "Reclaim landed: "@ + when_text(record.reclaim_at_unix)
            &&& updated ==> lines[1] == "Most recent update: "@ + timestamp_text(
                record.reclaim_updated_at_unix->0,
            )
            &&& recycled > 0 ==> lines[start] == "  "@ + (if desktop == Desktop::Windows {
                "Recycle"@
            } else {
                "Trash"@
            }) + ": "@ + human_size(recycled)
            &&& removed > 0 ==> lines[start + told(recycled)] == "  "@ + "Remove"@ + ": "@ + human_size(
                removed,
            )
            &&& linked > 0 ==> lines[start + told(recycled) + told(removed)] == "  "@ + "Hardlink"@
                + ": "@ + human_size(linked)
            &&& cloned > 0 ==> lines[start + told(recycled) + told(removed) + told(linked)] == "  "@
                + "Reflink"@ + ": "@ + human_size(cloned)
            &&& archived > 0 ==> lines[start + told(recycled) + told(removed) + told(linked) + told(
                cloned,
            )] == "  "@ + "Archive"@ + ": "@ + human_size(archived)
        }),
{
}

/// The folders of a scan are told by the first one and the number of the others.
pub proof fn folders_are_told(roots: Seq<Seq<char>>)
    ensures
        roots.len() == 0 ==> scope_text(roots) == "(no roots)"@,
        roots.len() == 1 ==> scope_text(roots) == cut_left(roots[0], 48),
        roots.len() > 1 ==> scope_text(roots) == cut_left(roots[0], 32) + " +"@ + decimal(
            (roots.len() - 1) as nat,
        ) + " more"@,
{
}

/// An answer to a second submission is told with what it says, in the colour of good news where
/// the service has the scan, and of bad news where it refused it.
pub proof fn second_answers_are_told(outcome: SubmitOutcome)
    ensures
        outcome_message(outcome).1 == Tone::Cool <==> outcome is Accepted || outcome is DuplicateNoChange,
        outcome_message(outcome).1 == Tone::Hot <==> outcome is Rejected,
        outcome matches SubmitOutcome::Accepted { submission_id, .. } ==> outcome_message(outcome).0
            == "Resubmit accepted ("@ + submission_id@ + ")."@,
        outcome matches SubmitOutcome::Rejected { status, reason } ==> outcome_message(outcome).0
            == "Resubmit rejected ("@ + decimal(status as nat) + "): "@ + reason@,
        outcome matches SubmitOutcome::Transient { reason } ==> outcome_message(outcome).0
            == "Resubmit transient failure (will stay Pending): "@ + reason@,
{
}

/// What a scan freed is shown exactly where something was done: the bytes that were freed, and what
/// freed them where that was kept. A scan without actions says so.
pub proof fn freed_bytes_are_shown(cell: ReclaimedCell, record: ScanRecord, desktop: Desktop)
    requires
        shows_reclaimed(cell, record, desktop),
    ensures
        cell is Freed <==> record.reclaim_at_unix is Some,
        cell is ScanOnly <==> record.reclaim_at_unix is None,
        cell matches ReclaimedCell::Freed(text, tooltip) ==> {
            &&& text@ == "♻ "@ + human_size(record.actually_reclaimed_bytes)
            &&& tooltip is Some <==> record.action_breakdown@.len() > 0
            &&& tooltip matches Some(t) ==> t@ == joined(breakdown_lines(record, desktop), "\n"@)
        },
{
}

/// A time is told with its date, and an unknown one with a dash.
pub proof fn unknown_times_are_a_dash(secs: u64)
    ensures
        when_text(Some(secs)) == timestamp_text(secs),
        when_text(None) == "—"@,
{
}

} // verus!
