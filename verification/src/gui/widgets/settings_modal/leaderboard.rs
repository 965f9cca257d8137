//! The tab about taking part in the leaderboard: the install, what is submitted and when, and
//! what the public profile shows.
use vstd::prelude::*;

use crate::gui::lines::{line_if, line_views, push_line, push_line_if, Line, Tone};
use crate::leaderboard::account_privacy::{nothing_shown, PrivacyFlags, PrivacyOutcome};
use crate::leaderboard::install::{share_name, InstallState, ShareDefault};
use crate::leaderboard::submission::{PendingRun, RankEntry, SubmitOutcome};
use crate::sizes::{format_size, human_size};
use crate::text::{cat2, cat3, cat4, cat5, cat8, decimal, decimal_string};

use super::{cut_for_display, truncate_for_display};

verus! {

/// What the tab shows of the install: its lines, or why there is none.
pub open spec fn install_lines(loaded: Result<Option<InstallState>, String>) -> Seq<
    (Tone, Seq<char>),
> {
    match loaded {
        Ok(Some(state)) => seq![
            (Tone::Bright, "Install state"@),
            (Tone::Dim, "install_id:  "@ + state.install_id@),
            (
                if state.registered {
                    Tone::Accent
                } else {
                    Tone::Warn
                },
                "registered:  "@ + (if state.registered {
                    "yes"@
                } else {
                    "no"@
                }),
            ),
            (Tone::Dim, "server_url:  "@ + state.server_url@),
            (Tone::Dim, "share_default:  "@ + share_name(state.share_default)),
        ],
        Ok(None) => seq![
            (
                Tone::Bright,
                "Not registered. Click below to enrol — uses a small CPU proof-of-work (~1 second), no network round-trip beyond a single POST to api.superdeduper.io."@,
            ),
        ],
        Err(reason) => seq![
            (
                Tone::Hot,
                "install.json failed to load: "@ + reason@
                    + ". Either corrupted or written by a newer client."@,
            ),
            (
                Tone::Dim,
                "Run `superdeduper register --reset` from a CLI to start fresh (rotates your install_id)."@,
            ),
        ],
    }
}

/// What the tab shows of the install. Where there is none, the two ways to register stand below.
pub fn install_panel(loaded: &Result<Option<InstallState>, String>) -> (r: Vec<Line>)
    ensures
        line_views(r@) == install_lines(*loaded),
{
    let mut r: Vec<Line> = Vec::new();
    assert(line_views(r@) =~= Seq::<(Tone, Seq<char>)>::empty());
    match loaded {
        Ok(Some(state)) => {
            push_line(&mut r, Tone::Bright, "Install state".to_owned());
            push_line(&mut r, Tone::Dim, cat2("install_id:  ", state.install_id.as_str()));
            if state.registered {
                push_line(&mut r, Tone::Accent, cat2("registered:  ", "yes"));
            } else {
                push_line(&mut r, Tone::Warn, cat2("registered:  ", "no"));
            }
            push_line(&mut r, Tone::Dim, cat2("server_url:  ", state.server_url.as_str()));
            push_line(&mut r, Tone::Dim, cat2("share_default:  ", state.share_default.name()));
        },
        Ok(None) => {
            push_line(
                &mut r,
                Tone::Bright,
                "Not registered. Click below to enrol — uses a small CPU proof-of-work (~1 second), no network round-trip beyond a single POST to api.superdeduper.io.".to_owned(),
            );
        },
        Err(reason) => {
            push_line(
                &mut r,
                Tone::Hot,
                cat3(
                    "install.json failed to load: ",
                    reason.as_str(),
                    ". Either corrupted or written by a newer client.",
                ),
            );
            push_line(
                &mut r,
                Tone::Dim,
                "Run `superdeduper register --reset` from a CLI to start fresh (rotates your install_id).".to_owned(),
            );
        },
    }
    assert(line_views(r@) =~= install_lines(*loaded));
    r
}

/// The line that says where the install is kept.
pub fn install_path_line(path: Option<&str>) -> (r: String)
    ensures
        r@ == "install.json:  "@ + (match path {
            Some(p) => p@,
            None => "(install path unavailable)"@,
        }),
{
    match path {
        Some(p) => cat2("install.json:  ", p),
        None => cat2("install.json:  ", "(install path unavailable)"),
    }
}

/// What a click on one of the register buttons does.
#[derive(Clone, Copy, Debug, PartialEq, Eq, Structural)]
pub enum RegisterPlan {
    /// Nothing: the install is registered.
    AlreadyRegistered,
    /// Register the install that is there.
    Existing,
    /// Make a new install and register it.
    Fresh,
}

/// What a click on one of the register buttons does. An install that cannot be read is made anew.
pub fn register_plan(loaded: &Result<Option<InstallState>, String>) -> (r: RegisterPlan)
    ensures
        r == (match *loaded {
            Ok(Some(state)) => if state.registered {
                RegisterPlan::AlreadyRegistered
            } else {
                RegisterPlan::Existing
            },
            _ => RegisterPlan::Fresh,
        }),
{
    match loaded {
        Ok(Some(state)) => if state.registered {
            RegisterPlan::AlreadyRegistered
        } else {
            RegisterPlan::Existing
        },
        _ => RegisterPlan::Fresh,
    }
}

/// How often submissions are offered: the choice that is shown, whether it can be changed, and a
/// remark where it cannot.
pub struct ShareControl {
    pub current: ShareDefault,
    pub enabled: bool,
    pub hint: Option<&'static str>,
}

/// How often submissions are offered. Without an install nothing can be changed, and the choice
/// shown is to ask always.
pub fn share_control(install: &Option<InstallState>) -> (r: ShareControl)
    ensures
        match *install {
            Some(state) => r.current == state.share_default && r.enabled && r.hint is None,
            None => r.current == ShareDefault::AlwaysAsk && !r.enabled && (r.hint matches Some(
                line,
            ) && line@ == "Register an install above to change this."@),
        },
{
    match install {
        Some(state) => ShareControl { current: state.share_default, enabled: true, hint: None },
        None => ShareControl {
            current: ShareDefault::AlwaysAsk,
            enabled: false,
            hint: Some("Register an install above to change this."),
        },
    }
}

/// A choice of how often submissions are offered. The result says whether the install has to be
/// saved: a choice that is in force already changes nothing.
pub fn choose_share(state: &mut InstallState, chosen: ShareDefault) -> (save: bool)
    ensures
        final(state).share_default == chosen,
        final(state).install_id == old(state).install_id,
        final(state).registered == old(state).registered,
        final(state).server_url == old(state).server_url,
        save == (old(state).share_default != chosen),
{
    if chosen != state.share_default {
        state.share_default = chosen;
        true
    } else {
        false
    }
}

/// The line in place of the register button while a registration runs.
pub fn registering_line(in_flight: bool, elapsed_secs: Option<u64>) -> (r: Option<String>)
    ensures
        match r {
            Some(line) => in_flight && line@ == "Registering ("@ + decimal(
                match elapsed_secs {
                    Some(secs) => secs as nat,
                    None => 0,
                },
            ) + "s)…"@,
            None => !in_flight,
        },
{
    if in_flight {
        let secs: u64 = match elapsed_secs {
            Some(secs) => secs,
            None => 0,
        };
        let elapsed = decimal_string(secs);
        Some(cat3("Registering (", elapsed.as_str(), "s)…"))
    } else {
        None
    }
}

/// A flag of the public profile.
#[derive(Clone, Copy, Debug, PartialEq, Eq, Structural)]
pub enum PrivacyField {
    DisplayName,
    Provider,
    Avatar,
    InstallBreakdown,
    HardwareHistory,
    RecentRuns,
}

/// The flag's name.
pub open spec fn field_label(field: PrivacyField) -> Seq<char> {
    match field {
        PrivacyField::DisplayName => "Display name"@,
        PrivacyField::Provider => "Linked-provider badge"@,
        PrivacyField::Avatar => "Discord avatar"@,
        PrivacyField::InstallBreakdown => "Per-install grant breakdown"@,
        PrivacyField::HardwareHistory => "Hardware history table"@,
        PrivacyField::RecentRuns => "Recent runs table"@,
    }
}

impl PrivacyField {
    /// The flag's name.
    pub fn label(self) -> (r: &'static str)
        ensures
            r@ == field_label(self),
    {
        match self {
            PrivacyField::DisplayName => "Display name",
            PrivacyField::Provider => "Linked-provider badge",
            PrivacyField::Avatar => "Discord avatar",
            PrivacyField::InstallBreakdown => "Per-install grant breakdown",
            PrivacyField::HardwareHistory => "Hardware history table",
            PrivacyField::RecentRuns => "Recent runs table",
        }
    }
}

/// The flags with one of them set.
pub open spec fn with_flag(flags: PrivacyFlags, field: PrivacyField, on: bool) -> PrivacyFlags {
    match field {
        PrivacyField::DisplayName => PrivacyFlags { show_display_name: on, ..flags },
        PrivacyField::Provider => PrivacyFlags { show_provider: on, ..flags },
        PrivacyField::Avatar => PrivacyFlags { show_avatar: on, ..flags },
        PrivacyField::InstallBreakdown => PrivacyFlags { show_install_breakdown: on, ..flags },
        PrivacyField::HardwareHistory => PrivacyFlags { show_hardware_history: on, ..flags },
        PrivacyField::RecentRuns => PrivacyFlags { show_recent_runs: on, ..flags },
    }
}

fn set_flag(flags: PrivacyFlags, field: PrivacyField, on: bool) -> (r: PrivacyFlags)
    ensures
        r == with_flag(flags, field, on),
{
    match field {
        PrivacyField::DisplayName => PrivacyFlags { show_display_name: on, ..flags },
        PrivacyField::Provider => PrivacyFlags { show_provider: on, ..flags },
        PrivacyField::Avatar => PrivacyFlags { show_avatar: on, ..flags },
        PrivacyField::InstallBreakdown => PrivacyFlags { show_install_breakdown: on, ..flags },
        PrivacyField::HardwareHistory => PrivacyFlags { show_hardware_history: on, ..flags },
        PrivacyField::RecentRuns => PrivacyFlags { show_recent_runs: on, ..flags },
    }
}

/// What is known of the profile's flags, and whether a request about them is on its way.
#[derive(Clone, Debug)]
pub struct VisibilityPanel {
    /// The flags, once they were fetched or changed.
    pub cache: Option<PrivacyFlags>,
    /// A request is on its way: nothing can be changed meanwhile.
    pub in_flight: bool,
    /// What the last request ended with, where it did not succeed.
    pub last_outcome: Option<String>,
}

/// The panel, by view.
pub struct VisibilityView {
    pub cache: Option<PrivacyFlags>,
    pub in_flight: bool,
    pub last_outcome: Option<Seq<char>>,
}

impl View for VisibilityPanel {
    type V = VisibilityView;

    open spec fn view(&self) -> VisibilityView {
        VisibilityView {
            cache: self.cache,
            in_flight: self.in_flight,
            last_outcome: match self.last_outcome {
                Some(text) => Some(text@),
                None => None,
            },
        }
    }
}

/// The flags that are shown: what is known, or all off.
pub open spec fn shown_flags(panel: VisibilityView) -> PrivacyFlags {
    match panel.cache {
        Some(flags) => flags,
        None => nothing_shown(),
    }
}

/// Whether the flags are asked for: the install is linked, nothing is known of them, and no
/// request is on its way.
pub open spec fn wants_fetch(panel: VisibilityView, installed: bool, linked: bool) -> bool {
    installed && linked && panel.cache is None && !panel.in_flight
}

/// The panel after a request was answered.
pub open spec fn after_answer(panel: VisibilityView, outcome: PrivacyOutcome) -> VisibilityView {
    match outcome {
        PrivacyOutcome::Flags(flags) => VisibilityView {
            cache: Some(flags),
            in_flight: false,
            last_outcome: None,
        },
        PrivacyOutcome::Unauthorised(reason) => VisibilityView {
            in_flight: false,
            last_outcome: Some("auth: "@ + reason@),
            ..panel
        },
        PrivacyOutcome::Rejected(reason) => VisibilityView {
            in_flight: false,
            last_outcome: Some("rejected: "@ + reason@),
            ..panel
        },
        PrivacyOutcome::Transient(reason) => VisibilityView {
            in_flight: false,
            last_outcome: Some("transient: "@ + reason@),
            ..panel
        },
    }
}

/// What the panel shows.
pub enum VisibilityStage {
    /// There is no install: a remark.
    NeedsInstall(&'static str),
    /// The install is not linked: a remark, and the flags, all off and disabled.
    NeedsLink(&'static str),
    /// The flags, enabled while no request is on its way, and what the last request ended with.
    Flags { flags: PrivacyFlags, enabled: bool, syncing: bool, outcome: Option<String> },
}

impl VisibilityPanel {
    /// A panel that knows nothing.
    pub fn new() -> (r: Self)
        ensures
            r@ == (VisibilityView { cache: None, in_flight: false, last_outcome: None }),
    {
        VisibilityPanel { cache: None, in_flight: false, last_outcome: None }
    }

    /// What the panel shows.
    pub fn stage(&self, installed: bool, linked: bool) -> (r: VisibilityStage)
        ensures
            match r {
                VisibilityStage::NeedsInstall(line) => !installed && line@
                    == "Register + link an account above to manage these."@,
                VisibilityStage::NeedsLink(line) => installed && !linked && line@
                    == "Link a Google or Discord account (Settings → Account) to manage public-profile visibility. These control an account-level public profile, so they're available once this install is linked."@,
                VisibilityStage::Flags { flags, enabled, syncing, outcome } => {
                    &&& installed && linked
                    &&& flags == shown_flags(self@)
                    &&& enabled == !self.in_flight
                    &&& syncing == self.in_flight
                    &&& match outcome {
                        Some(text) => self@.last_outcome == Some(text@),
                        None => self@.last_outcome is None,
                    }
                },
            },
    {
        if !installed {
            return VisibilityStage::NeedsInstall(
                "Register + link an account above to manage these.",
            );
        }
        if !linked {
            return VisibilityStage::NeedsLink(
                "Link a Google or Discord account (Settings → Account) to manage public-profile visibility. These control an account-level public profile, so they're available once this install is linked.",
            );
        }
        let flags = match self.cache {
            Some(flags) => flags,
            None => PrivacyFlags::default(),
        };
        let outcome = match &self.last_outcome {
            Some(text) => Some(text.clone()),
            None => None,
        };
        VisibilityStage::Flags {
            flags,
            enabled: !self.in_flight,
            syncing: self.in_flight,
            outcome,
        }
    }

    /// Whether to ask for the flags now. A request that is begun is on its way until it is
    /// answered.
    pub fn begin_fetch(&mut self, installed: bool, linked: bool) -> (begin: bool)
        ensures
            begin == wants_fetch(old(self)@, installed, linked),
            final(self)@ == (VisibilityView {
                in_flight: old(self).in_flight || begin,
                ..old(self)@
            }),
    {
        if installed && linked && self.cache.is_none() && !self.in_flight {
            self.in_flight = true;
            true
        } else {
            false
        }
    }

    /// A click on a flag: what to send, where no request is on its way. The change is shown at
    /// once.
    pub fn set(&mut self, field: PrivacyField, on: bool) -> (send: Option<PrivacyFlags>)
        ensures
            send == (if old(self).in_flight {
                None
            } else {
                Some(with_flag(shown_flags(old(self)@), field, on))
            }),
            final(self)@ == (if old(self).in_flight {
                old(self)@
            } else {
                VisibilityView {
                    cache: Some(with_flag(shown_flags(old(self)@), field, on)),
                    in_flight: true,
                    last_outcome: None,
                }
            }),
    {
        if self.in_flight {
            return None;
        }
        let current = match self.cache {
            Some(flags) => flags,
            None => PrivacyFlags::default(),
        };
        let changed = set_flag(current, field, on);
        self.cache = Some(changed);
        self.last_outcome = None;
        self.in_flight = true;
        Some(changed)
    }

    /// The answer to a request. What the server holds takes the place of what was shown; a
    /// refusal is told, and leaves the flags as they are shown.
    pub fn answer(&mut self, outcome: PrivacyOutcome)
        ensures
            final(self)@ == after_answer(old(self)@, outcome),
    {
        self.in_flight = false;
        match outcome {
            PrivacyOutcome::Flags(flags) => {
                self.cache = Some(flags);
                self.last_outcome = None;
            },
            PrivacyOutcome::Unauthorised(reason) => {
                self.last_outcome = Some(cat2("auth: ", reason.as_str()));
            },
            PrivacyOutcome::Rejected(reason) => {
                self.last_outcome = Some(cat2("rejected: ", reason.as_str()));
            },
            PrivacyOutcome::Transient(reason) => {
                self.last_outcome = Some(cat2("transient: ", reason.as_str()));
            },
        }
    }
}

/// While a request is on its way the flags are not asked for.
pub proof fn one_fetch_at_a_time(panel: VisibilityView, installed: bool, linked: bool)
    requires
        panel.in_flight,
    ensures
        !wants_fetch(panel, installed, linked),
{
}

/// An answered request always leaves the panel ready for the next one.
pub proof fn answers_free_the_panel(panel: VisibilityView, outcome: PrivacyOutcome)
    ensures
        !after_answer(panel, outcome).in_flight,
        !(outcome is Flags) ==> after_answer(panel, outcome).cache == panel.cache,
{
}

/// What stands where the last scan is submitted.
pub enum SubmitStage {
    /// No scan has finished.
    NoRun(&'static str),
    /// A scan has finished, but the install is not registered.
    NeedsInstall(String),
    /// A scan can be submitted: its summary above the button.
    Ready(String),
}

/// What stands where the last scan is submitted.
pub fn submit_stage(pending: &Option<PendingRun>, registered: bool) -> (r: SubmitStage)
    ensures
        match *pending {
            None => (r matches SubmitStage::NoRun(line) && line@
                == "No completed scan available — run a scan first."@),
            Some(run) => if registered {
                r matches SubmitStage::Ready(line) && line@ == "Run ready: "@ + decimal(
                    run.files_scanned as nat,
                ) + " files, "@ + human_size(run.bytes_scanned) + " read, "@ + decimal(
                    run.duplicate_groups as nat,
                ) + " groups, hash="@ + run.hash_algorithm@
            } else {
                r matches SubmitStage::NeedsInstall(line) && line@ == "Run ready ("@ + decimal(
                    run.files_scanned as nat,
                ) + " files, "@ + human_size(run.bytes_scanned)
                    + "). Register this install above to enable submission."@
            },
        },
{
    match pending {
        None => SubmitStage::NoRun("No completed scan available — run a scan first."),
        Some(run) => {
            let files = decimal_string(run.files_scanned);
            let bytes = format_size(run.bytes_scanned);
            if registered {
                let groups = decimal_string(run.duplicate_groups);
                SubmitStage::Ready(
                    cat8(
                        "Run ready: ",
                        files.as_str(),
                        " files, ",
                        bytes.as_str(),
                        " read, ",
                        groups.as_str(),
                        " groups, hash=",
                        run.hash_algorithm.as_str(),
                    ),
                )
            } else {
                SubmitStage::NeedsInstall(
                    cat5(
                        "Run ready (",
                        files.as_str(),
                        " files, ",
                        bytes.as_str(),
                        "). Register this install above to enable submission.",
                    ),
                )
            }
        },
    }
}

/// Why a click on the button submits nothing, if so: the outcome that is shown instead.
pub fn refusal_before_submit(registered: bool, has_pending: bool) -> (r: Option<SubmitOutcome>)
    ensures
        match r {
            Some(SubmitOutcome::Rejected { status, reason }) => status == 0 && (!registered
                || !has_pending) && reason@ == (if !registered {
                "install not registered"@
            } else {
                "no pending submission"@
            }),
            Some(_) => false,
            None => registered && has_pending,
        },
{
    if !registered {
        Some(
            SubmitOutcome::Rejected { status: 0, reason: "install not registered".to_owned() },
        )
    } else if !has_pending {
        Some(SubmitOutcome::Rejected { status: 0, reason: "no pending submission".to_owned() })
    } else {
        None
    }
}

/// Whether a submission is kept to be sent again: it failed in a way that may pass.
pub fn is_queued(outcome: &SubmitOutcome) -> (r: bool)
    ensures
        r == (*outcome is Transient),
{
    match outcome {
        SubmitOutcome::Transient { .. } => true,
        _ => false,
    }
}

/// The line about a place in a ranking.
pub open spec fn rank_text(rank: RankEntry) -> Seq<char> {
    "  rank #"@ + decimal(rank.rank as nat) + " in "@ + rank.category@ + "/"@ + rank.bracket@
        + " (of "@ + (decimal(rank.bucket_size as nat) + ")"@)
}

/// The lines about places in rankings.
pub open spec fn rank_lines(ranks: Seq<RankEntry>) -> Seq<(Tone, Seq<char>)> {
    ranks.map_values(|r: RankEntry| (Tone::Bright, rank_text(r)))
}

/// The lines about unlocked achievements.
pub open spec fn unlocked_lines(names: Seq<String>) -> Seq<(Tone, Seq<char>)> {
    names.map_values(|n: String| (Tone::Accent, "  achievement unlocked: "@ + n@))
}

/// The lines that tell how a submission was answered.
pub open spec fn outcome_lines(outcome: SubmitOutcome) -> Seq<(Tone, Seq<char>)> {
    match outcome {
        SubmitOutcome::Accepted { submission_id, ranks, achievements_unlocked, .. } => seq![
            (Tone::Accent, "Accepted"@),
        ] + line_if(
            submission_id@.len() > 0,
            Tone::Dim,
            "submission_id:  "@ + submission_id@,
        ) + rank_lines(ranks@) + unlocked_lines(achievements_unlocked@),
        SubmitOutcome::DuplicateNoChange { .. } => seq![
            (Tone::Dim, "Already submitted (no change)"@),
        ],
        SubmitOutcome::Rejected { status, reason } => seq![
            (Tone::Hot, "Rejected ("@ + decimal(status as nat) + "): "@ + reason@),
        ],
        SubmitOutcome::Transient { reason } => seq![
            (
                Tone::Warn,
                "Transient failure: "@ + reason@ + " — queued for retry on next launch."@,
            ),
        ],
        SubmitOutcome::FlaggedForReview {
            review_id,
            local_path,
            original_status,
            original_reason,
        } => seq![
            (Tone::Accent, "✓ Flagged for review"@),
            match review_id {
                Some(id) => (Tone::Dim, "review_id: "@ + id@),
                None => (Tone::Warn, "Upload failed — saved locally only."@),
            },
            (Tone::Dim, "Local: "@ + local_path@),
            (
                Tone::Dim,
                "Original error (HTTP "@ + decimal(original_status as nat) + "): "@
                    + cut_for_display(original_reason@, 240),
            ),
        ],
    }
}

fn push_ranks(lines: &mut Vec<Line>, ranks: &Vec<RankEntry>)
    ensures
        line_views(final(lines)@) == line_views(old(lines)@) + rank_lines(ranks@),
{
    let ghost before = line_views(lines@);
    let ghost all = rank_lines(ranks@);
    let mut i: usize = 0;
    assert(before + all.take(0) =~= before);
    while i < ranks.len()
        invariant
            i <= ranks.len(),
            all == rank_lines(ranks@),
            line_views(lines@) == before + all.take(i as int),
        decreases ranks.len() - i,
    {
        let rank = &ranks[i];
        let place = decimal_string(rank.rank);
        let size = decimal_string(rank.bucket_size);
        let rest = cat2(size.as_str(), ")");
        let text = cat8(
            "  rank #",
            place.as_str(),
            " in ",
            rank.category.as_str(),
            "/",
            rank.bracket.as_str(),
            " (of ",
            rest.as_str(),
        );
        push_line(lines, Tone::Bright, text);
        assert(line_views(lines@) =~= before + all.take(i + 1));
        i = i + 1;
    }
    assert(all.take(i as int) =~= all);
}

fn push_unlocked(lines: &mut Vec<Line>, names: &Vec<String>)
    ensures
        line_views(final(lines)@) == line_views(old(lines)@) + unlocked_lines(names@),
{
    let ghost before = line_views(lines@);
    let ghost all = unlocked_lines(names@);
    let mut i: usize = 0;
    assert(before + all.take(0) =~= before);
    while i < names.len()
        invariant
            i <= names.len(),
            all == unlocked_lines(names@),
            line_views(lines@) == before + all.take(i as int),
        decreases names.len() - i,
    {
        push_line(lines, Tone::Accent, cat2("  achievement unlocked: ", names[i].as_str()));
        assert(line_views(lines@) =~= before + all.take(i + 1));
        i = i + 1;
    }
    assert(all.take(i as int) =~= all);
}

/// How a submission was answered: the lines that tell it, and the page to link to.
pub struct OutcomeView {
    pub lines: Vec<Line>,
    pub profile_url: Option<String>,
}

/// How a submission was answered.
pub fn outcome_view(outcome: &SubmitOutcome) -> (r: OutcomeView)
    ensures
        line_views(r.lines@) == outcome_lines(*outcome),
        match *outcome {
            SubmitOutcome::Accepted { profile_url: Some(url), .. } => (r.profile_url matches Some(
                link,
            ) && link@ == url@),
            _ => r.profile_url is None,
        },
{
    let mut lines: Vec<Line> = Vec::new();
    let mut link: Option<String> = None;
    assert(line_views(lines@) =~= Seq::<(Tone, Seq<char>)>::empty());
    match outcome {
        SubmitOutcome::Accepted { submission_id, ranks, achievements_unlocked, profile_url } => {
            push_line(&mut lines, Tone::Accent, "Accepted".to_owned());
            push_line_if(
                &mut lines,
                submission_id.as_str().unicode_len() > 0,
                Tone::Dim,
                cat2("submission_id:  ", submission_id.as_str()),
            );
            push_ranks(&mut lines, ranks);
            push_unlocked(&mut lines, achievements_unlocked);
            if let Some(url) = profile_url {
                link = Some(url.clone());
            }
        },
        SubmitOutcome::DuplicateNoChange { .. } => {
            push_line(&mut lines, Tone::Dim, "Already submitted (no change)".to_owned());
        },
        SubmitOutcome::Rejected { status, reason } => {
            let code = decimal_string(*status as u64);
            push_line(
                &mut lines,
                Tone::Hot,
                cat4("Rejected (", code.as_str(), "): ", reason.as_str()),
            );
        },
        SubmitOutcome::Transient { reason } => {
            push_line(
                &mut lines,
                Tone::Warn,
                cat3(
                    "Transient failure: ",
                    reason.as_str(),
                    " — queued for retry on next launch.",
                ),
            );
        },
        SubmitOutcome::FlaggedForReview {
            review_id,
            local_path,
            original_status,
            original_reason,
        } => {
            push_line(&mut lines, Tone::Accent, "✓ Flagged for review".to_owned());
            match review_id {
                Some(id) => {
                    push_line(&mut lines, Tone::Dim, cat2("review_id: ", id.as_str()));
                },
                None => {
                    push_line(
                        &mut lines,
                        Tone::Warn,
                        "Upload failed — saved locally only.".to_owned(),
                    );
                },
            }
            push_line(&mut lines, Tone::Dim, cat2("Local: ", local_path.as_str()));
            let code = decimal_string(*original_status as u64);
            let short = truncate_for_display(original_reason.as_str(), 240);
            push_line(
                &mut lines,
                Tone::Dim,
                cat4("Original error (HTTP ", code.as_str(), "): ", short.as_str()),
            );
        },
    }
    assert(line_views(lines@) =~= outcome_lines(*outcome));
    OutcomeView { lines, profile_url: link }
}

/// A switch sets its own flag as it was clicked, and leaves every other flag as it was.
pub proof fn flags_change_alone(flags: PrivacyFlags, field: PrivacyField, on: bool)
    ensures
        ({
            let t = with_flag(flags, field, on);
            &&& t.show_display_name == if field == PrivacyField::DisplayName {
                on
            } else {
                flags.show_display_name
            }
            &&& t.show_provider == if field == PrivacyField::Provider {
                on
            } else {
                flags.show_provider
            }
            &&& t.show_avatar == if field == PrivacyField::Avatar {
                on
            } else {
                flags.show_avatar
            }
            &&& t.show_install_breakdown == if field == PrivacyField::InstallBreakdown {
                on
            } else {
                flags.show_install_breakdown
            }
            &&& t.show_hardware_history == if field == PrivacyField::HardwareHistory {
                on
            } else {
                flags.show_hardware_history
            }
            &&& t.show_recent_runs == if field == PrivacyField::RecentRuns {
                on
            } else {
                flags.show_recent_runs
            }
        }),
{
}

/// What is shown are the flags that the server holds; before they are known, nothing is said to be
/// public.
pub proof fn unknown_flags_are_off(panel: VisibilityView)
    ensures
        panel.cache matches Some(flags) ==> shown_flags(panel) == flags,
        panel.cache is None ==> {
            let shown = shown_flags(panel);
            &&& !shown.show_display_name && !shown.show_provider && !shown.show_avatar
            &&& !shown.show_install_breakdown && !shown.show_hardware_history
            &&& !shown.show_recent_runs
        },
{
}

/// The flags are asked for exactly where they can be had and are not known or on their way.
pub proof fn flags_are_fetched_where_missing(panel: VisibilityView, installed: bool, linked: bool)
    ensures
        wants_fetch(panel, installed, linked) <==> installed && linked && !(panel.cache is Some) && !(
        panel.in_flight),
{
}

/// The flags that came replace those that were known and settle the last failure; a failure is told
/// with its kind and its reason, and the known flags stay.
pub proof fn answers_are_taken(panel: VisibilityView, flags: PrivacyFlags, reason: String)
    ensures
        after_answer(panel, PrivacyOutcome::Flags(flags)).cache == Some(flags),
        after_answer(panel, PrivacyOutcome::Flags(flags)).last_outcome is None,
        after_answer(panel, PrivacyOutcome::Unauthorised(reason)).cache == panel.cache,
        after_answer(panel, PrivacyOutcome::Unauthorised(reason)).last_outcome == Some(
            "auth: "@ + reason@,
        ),
        after_answer(panel, PrivacyOutcome::Rejected(reason)).cache == panel.cache,
        after_answer(panel, PrivacyOutcome::Rejected(reason)).last_outcome == Some(
            "rejected: "@ + reason@,
        ),
        after_answer(panel, PrivacyOutcome::Transient(reason)).cache == panel.cache,
        after_answer(panel, PrivacyOutcome::Transient(reason)).last_outcome == Some(
            "transient: "@ + reason@,
        ),
{
}

/// An accepted submission has a line for its id, where it has one, for each rank and for each badge
/// that it unlocked, in this order.
pub proof fn accepted_submissions_tell_all(
    id: String,
    ranks: Vec<RankEntry>,
    unlocked: Vec<String>,
    url: Option<String>,
    k: int,
)
    ensures
        ({
            let lines = outcome_lines(
                SubmitOutcome::Accepted {
                    submission_id: id,
                    ranks,
                    achievements_unlocked: unlocked,
                    profile_url: url,
                },
            );
            let head: int = if id@.len() > 0 {
                2
            } else {
                1
            };
            &&& lines.len() == head + ranks@.len() + unlocked@.len()
            &&& id@.len() > 0 ==> lines[1] == (Tone::Dim, "submission_id:  "@ + id@)
            &&& 0 <= k < ranks@.len() ==> lines[head + k] == (
                Tone::Bright,
                "  rank #"@ + decimal(ranks@[k].rank as nat) + " in "@ + ranks@[k].category@ + "/"@
                    + ranks@[k].bracket@ + " (of "@ + (decimal(ranks@[k].bucket_size as nat) + ")"@),
            )
            &&& 0 <= k < unlocked@.len() ==> lines[head + ranks@.len() + k] == (
                Tone::Accent,
                "  achievement unlocked: "@ + unlocked@[k]@,
            )
        }),
{
}

/// A refusal is told with its status and its reason, and a failed attempt with its reason.
pub proof fn failures_tell_their_reason(status: u16, reason: String)
    ensures
        outcome_lines(SubmitOutcome::Rejected { status, reason }) == seq![
            (Tone::Hot, "Rejected ("@ + decimal(status as nat) + "): "@ + reason@),
        ],
        outcome_lines(SubmitOutcome::Transient { reason }) == seq![
            (
                Tone::Warn,
                "Transient failure: "@ + reason@ + " — queued for retry on next launch."@,
            ),
        ],
{
}

/// An install is told with its id, whether it is registered, its server and its sharing.
pub proof fn installs_are_told(state: InstallState)
    ensures
        ({
            let lines = install_lines(Ok(Some(state)));
            &&& lines.len() == 5
            &&& lines[1].1 == "install_id:  "@ + state.install_id@
            &&& state.registered ==> lines[2] == (Tone::Accent, "registered:  "@ + "yes"@)
            &&& !state.registered ==> lines[2] == (Tone::Warn, "registered:  "@ + "no"@)
            &&& lines[3].1 == "server_url:  "@ + state.server_url@
            &&& lines[4].1 == "share_default:  "@ + share_name(state.share_default)
        }),
{
}

} // verus!
