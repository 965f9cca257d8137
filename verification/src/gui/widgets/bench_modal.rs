//! The benchmark window: the lane, the sign-in it may need, the consent, the run and its result.
//! Nothing is downloaded, run or submitted before the user has asked for it.
use vstd::prelude::*;

use crate::leaderboard::oauth::{provider_name, Provider};
use crate::leaderboard::submission::{RankEntry, SubmitOutcome};
use crate::numbers::{nearest, nearest_megabytes, quotient_string, quotient_text};
use crate::text::{
    cat2, cat3, cat4, cat5, cat7, cat8, decimal, decimal_string, join_with, joined, texts, wide_decimal_string,
};

verus! {

/// Where the window is.
#[derive(Clone, Copy, Debug, PartialEq, Eq, Structural)]
pub enum Phase {
    /// The lane is chosen.
    Lane,
    /// The sign-in that ranked submissions need is on its way.
    Linking,
    /// What will happen, and the buttons that begin it.
    Consent,
    /// The benchmark runs.
    Running,
    /// The result.
    Done,
}

/// Whether a benchmark is submitted for a rank, or just for fun.
#[derive(Clone, Copy, Debug, PartialEq, Eq, Structural)]
pub enum BenchLane {
    Ranked,
    Casual,
}

/// The lane's short name.
pub open spec fn lane_slug(lane: BenchLane) -> Seq<char> {
    match lane {
        BenchLane::Ranked => "ranked"@,
        BenchLane::Casual => "casual"@,
    }
}

impl BenchLane {
    /// The lane's short name.
    pub fn as_slug(self) -> (r: &'static str)
        ensures
            r@ == lane_slug(self),
    {
        match self {
            BenchLane::Ranked => "ranked",
            BenchLane::Casual => "casual",
        }
    }
}

/// A benchmark that the user can choose. The small test corpus is not among them.
#[derive(Clone, Copy, Debug)]
pub struct BenchTierChoice {
    pub corpus_version: &'static str,
    pub tier: &'static str,
    /// The name in the list.
    pub label: &'static str,
    /// How much is downloaded.
    pub approx_size: &'static str,
}

/// The number of benchmarks that the user can choose from.
pub const TIER_COUNT: usize = 1;

/// Whether the choice is the one benchmark that is offered.
pub open spec fn is_quick(choice: BenchTierChoice) -> bool {
    &&& choice.corpus_version@ == "corpus-v2-quick"@
    &&& choice.tier@ == "quick"@
    &&& choice.label@ == "Quick (ranked, ~2.4 GB)"@
    &&& choice.approx_size@ == "~2.4 GB"@
}

/// The benchmarks that the user can choose from, in the order they are listed.
pub fn user_tiers() -> (r: Vec<BenchTierChoice>)
    ensures
        r@.len() == TIER_COUNT,
        is_quick(r@[0]),
{
    let mut r: Vec<BenchTierChoice> = Vec::new();
    r.push(
        BenchTierChoice {
            corpus_version: "corpus-v2-quick",
            tier: "quick",
            label: "Quick (ranked, ~2.4 GB)",
            approx_size: "~2.4 GB",
        },
    );
    r
}

/// What the worker reports.
#[derive(Clone, Debug)]
pub struct Shared {
    pub status: String,
    pub finished: bool,
    pub result: Option<String>,
    pub is_error: bool,
    pub submitted: bool,
    /// The page of the result.
    pub deep_link: Option<String>,
    pub ranks: Vec<RankEntry>,
    /// How the sign-in ended, until it has been taken note of.
    pub linking_done: Option<Result<String, String>>,
    /// The page to sign in on, where no browser could be opened.
    pub linking_url_fallback: Option<String>,
}

/// Whether nothing has been reported.
pub open spec fn is_blank(shared: Shared, status: Seq<char>) -> bool {
    &&& shared.status@ == status
    &&& !shared.finished
    &&& shared.result is None
    &&& !shared.is_error
    &&& !shared.submitted
    &&& shared.deep_link is None
    &&& shared.ranks@.len() == 0
    &&& shared.linking_done is None
    &&& shared.linking_url_fallback is None
}

impl Default for Shared {
    fn default() -> (r: Self)
        ensures
            is_blank(r, ""@),
    {
        Shared {
            status: "".to_owned(),
            finished: false,
            result: None,
            is_error: false,
            submitted: false,
            deep_link: None,
            ranks: Vec::new(),
            linking_done: None,
            linking_url_fallback: None,
        }
    }
}

/// The part of the window that is not what the worker reports.
#[derive(Clone, Copy, Debug, PartialEq, Eq, Structural)]
pub struct BenchCore {
    pub open: bool,
    pub phase: Phase,
    /// Whether the corpus is downloaded again.
    pub fresh: bool,
    /// The place of the chosen benchmark.
    pub tier_idx: usize,
    pub show_share_preview: bool,
    pub lane: Option<BenchLane>,
    /// The worker is told to stop.
    pub cancel: bool,
}

/// The benchmark window.
#[derive(Clone, Debug)]
pub struct BenchUiState {
    pub core: BenchCore,
    /// Why the last sign-in failed, until the user has answered.
    pub linking_error: Option<String>,
    pub shared: Shared,
}

/// The window as it opens, for the lane that was chosen last.
pub open spec fn opened(last_lane: Option<BenchLane>) -> BenchCore {
    BenchCore {
        open: true,
        phase: Phase::Lane,
        fresh: false,
        tier_idx: 0,
        show_share_preview: false,
        lane: last_lane,
        cancel: false,
    }
}

/// What the sign-in status is before a ranked benchmark.
pub enum LinkStatus {
    Linked,
    Anonymous,
    Unreadable(String),
}

/// A benchmark to run.
#[derive(Clone, Copy, Debug)]
pub struct RunRequest {
    pub fresh: bool,
    pub submit: bool,
    pub tier: BenchTierChoice,
    pub lane: Option<BenchLane>,
}

impl Default for BenchUiState {
    fn default() -> (r: Self)
        ensures
            r.core == (BenchCore { open: false, ..opened(None) }),
            r.linking_error is None,
            is_blank(r.shared, ""@),
    {
        BenchUiState {
            core: BenchCore {
                open: false,
                phase: Phase::Lane,
                fresh: false,
                tier_idx: 0,
                show_share_preview: false,
                lane: None,
                cancel: false,
            },
            linking_error: None,
            shared: Shared::default(),
        }
    }
}

/// Whether the ranked lane is the one that is suggested.
pub open spec fn suggests_ranked(lane: Option<BenchLane>) -> bool {
    lane != Some(BenchLane::Casual)
}

impl BenchUiState {
    /// Opens the window at the choice of the lane, with everything else as at first.
    pub fn open(&mut self, last_lane: Option<BenchLane>)
        ensures
            final(self).core == opened(last_lane),
            final(self).linking_error is None,
            is_blank(final(self).shared, ""@),
    {
        self.core = BenchCore {
            open: true,
            phase: Phase::Lane,
            fresh: false,
            tier_idx: 0,
            show_share_preview: false,
            lane: last_lane,
            cancel: false,
        };
        self.linking_error = None;
        self.shared = Shared::default();
    }

    /// The chosen benchmark: the last one where the place lies behind the list.
    pub fn tier(&self) -> (r: BenchTierChoice)
        ensures
            is_quick(r),
    {
        let tiers = user_tiers();
        let at: usize = if self.core.tier_idx < tiers.len() {
            self.core.tier_idx
        } else {
            tiers.len() - 1
        };
        tiers[at]
    }

    /// Whether the ranked lane is the one that is suggested.
    pub fn default_is_ranked(&self) -> (r: bool)
        ensures
            r == suggests_ranked(self.core.lane),
    {
        match self.core.lane {
            Some(BenchLane::Casual) => false,
            _ => true,
        }
    }

    /// The ranked lane was chosen. A linked install goes on to the consent; another one signs in
    /// first, which the result asks for. A status that could not be read is told, with the choice
    /// to try again.
    pub fn choose_ranked(&mut self, status: LinkStatus) -> (start_link: bool)
        ensures
            old(self).core.phase != Phase::Lane ==> *final(self) == *old(self) && !start_link,
            old(self).core.phase == Phase::Lane ==> {
                let core = BenchCore { lane: Some(BenchLane::Ranked), ..old(self).core };
                match status {
                    LinkStatus::Linked => {
                        &&& final(self).core == (BenchCore { phase: Phase::Consent, ..core })
                        &&& final(self).linking_error == old(self).linking_error
                        &&& final(self).shared == old(self).shared
                        &&& !start_link
                    },
                    LinkStatus::Anonymous => {
                        &&& final(self).core == (BenchCore { phase: Phase::Linking, ..core })
                        &&& final(self).linking_error is None
                        &&& awaits_link(old(self).shared, final(self).shared)
                        &&& start_link
                    },
                    LinkStatus::Unreadable(reason) => {
                        &&& final(self).core == (BenchCore { phase: Phase::Linking, ..core })
                        &&& (final(self).linking_error matches Some(text) && text@
                            == "Couldn't read sign-in status: "@ + reason@
                            + ". Try again, or pick Casual."@)
                        &&& final(self).shared == old(self).shared
                        &&& !start_link
                    },
                }
            },
    {
        if self.core.phase != Phase::Lane {
            return false;
        }
        self.core.lane = Some(BenchLane::Ranked);
        match status {
            LinkStatus::Linked => {
                self.core.phase = Phase::Consent;
                false
            },
            LinkStatus::Anonymous => {
                self.begin_link();
                true
            },
            LinkStatus::Unreadable(reason) => {
                self.linking_error = Some(
                    cat3(
                        "Couldn't read sign-in status: ",
                        reason.as_str(),
                        ". Try again, or pick Casual.",
                    ),
                );
                self.core.phase = Phase::Linking;
                false
            },
        }
    }

    fn begin_link(&mut self)
        ensures
            final(self).core == (BenchCore { phase: Phase::Linking, ..old(self).core }),
            final(self).linking_error is None,
            awaits_link(old(self).shared, final(self).shared),
    {
        self.linking_error = None;
        self.shared.linking_done = None;
        self.shared.linking_url_fallback = None;
        self.shared.status = "Opening your browser for sign-in…".to_owned();
        self.core.phase = Phase::Linking;
    }

    /// The casual lane was chosen, at first or in place of a sign-in: it needs no account.
    pub fn choose_casual(&mut self)
        ensures
            ({
                let takes = old(self).core.phase == Phase::Lane || old(self).core.phase
                    == Phase::Linking;
                &&& final(self).core == (if takes {
                    BenchCore {
                        lane: Some(BenchLane::Casual),
                        phase: Phase::Consent,
                        ..old(self).core
                    }
                } else {
                    old(self).core
                })
                &&& if old(self).core.phase == Phase::Linking {
                    final(self).linking_error is None
                } else {
                    final(self).linking_error == old(self).linking_error
                }
                &&& final(self).shared == old(self).shared
            }),
    {
        if self.core.phase == Phase::Linking {
            self.linking_error = None;
        }
        if self.core.phase == Phase::Lane || self.core.phase == Phase::Linking {
            self.core.lane = Some(BenchLane::Casual);
            self.core.phase = Phase::Consent;
        }
    }

    /// Another try to sign in, after one has failed. The result says whether to begin it.
    pub fn retry_link(&mut self) -> (start_link: bool)
        ensures
            start_link == (old(self).core.phase == Phase::Linking && old(self).linking_error
                is Some),
            final(self).core == old(self).core,
            start_link ==> final(self).linking_error is None && awaits_link(
                old(self).shared,
                final(self).shared,
            ),
            !start_link ==> *final(self) == *old(self),
    {
        if self.core.phase == Phase::Linking && self.linking_error.is_some() {
            self.begin_link();
            true
        } else {
            false
        }
    }

    /// Takes note of how the sign-in ended: on to the consent, or the reason why not.
    pub fn poll_link(&mut self)
        ensures
            ({
                let done = old(self).shared.linking_done;
                if old(self).core.phase == Phase::Linking && done is Some {
                    &&& final(self).shared == (Shared { linking_done: None, ..old(self).shared })
                    &&& match done->0 {
                        Ok(_) => final(self).linking_error is None && final(self).core == (
                        BenchCore { phase: Phase::Consent, ..old(self).core }),
                        Err(reason) => (final(self).linking_error matches Some(text) && text@
                            == reason@) && final(self).core == old(self).core,
                    }
                } else {
                    *final(self) == *old(self)
                }
            }),
    {
        if self.core.phase == Phase::Linking {
            let mut done: Option<Result<String, String>> = None;
            std::mem::swap(&mut done, &mut self.shared.linking_done);
            match done {
                Some(Ok(_who)) => {
                    self.linking_error = None;
                    self.core.phase = Phase::Consent;
                },
                Some(Err(reason)) => {
                    self.linking_error = Some(reason);
                },
                None => {},
            }
        }
    }

    /// Begins the benchmark, where the consent is shown.
    pub fn start(&mut self, submit: bool) -> (r: Option<RunRequest>)
        ensures
            match r {
                Some(run) => {
                    &&& old(self).core.phase == Phase::Consent
                    &&& run.submit == submit
                    &&& run.fresh == old(self).core.fresh
                    &&& run.lane == old(self).core.lane
                    &&& is_quick(run.tier)
                    &&& final(self).core == (BenchCore {
                        phase: Phase::Running,
                        cancel: false,
                        ..old(self).core
                    })
                    &&& is_blank(final(self).shared, "starting…"@)
                    &&& final(self).linking_error == old(self).linking_error
                },
                None => old(self).core.phase != Phase::Consent && *final(self) == *old(self),
            },
    {
        if self.core.phase != Phase::Consent {
            return None;
        }
        self.core.phase = Phase::Running;
        self.core.cancel = false;
        self.shared = Shared::default();
        self.shared.status = "starting…".to_owned();
        Some(
            RunRequest {
                fresh: self.core.fresh,
                submit,
                tier: self.tier(),
                lane: self.core.lane,
            },
        )
    }

    /// The worker tells what it is doing.
    pub fn set_status(&mut self, status: String)
        ensures
            final(self).shared == (Shared { status, ..old(self).shared }),
            final(self).core == old(self).core,
            final(self).linking_error == old(self).linking_error,
    {
        self.shared.status = status;
    }

    /// The worker has ended.
    pub fn finish(&mut self, finish: BenchFinish)
        ensures
            final(self).shared == (Shared {
                finished: true,
                result: Some(finish.result),
                is_error: finish.is_error,
                submitted: finish.submitted,
                deep_link: finish.deep_link,
                ranks: finish.ranks,
                ..old(self).shared
            }),
            final(self).core == old(self).core,
            final(self).linking_error == old(self).linking_error,
    {
        self.shared.finished = true;
        self.shared.result = Some(finish.result);
        self.shared.is_error = finish.is_error;
        self.shared.submitted = finish.submitted;
        self.shared.deep_link = finish.deep_link;
        self.shared.ranks = finish.ranks;
    }

    /// Takes note of the end of the run.
    pub fn poll_run(&mut self)
        ensures
            final(self).core == (if old(self).core.phase == Phase::Running
                && old(self).shared.finished {
                BenchCore { phase: Phase::Done, ..old(self).core }
            } else {
                old(self).core
            }),
            final(self).shared == old(self).shared,
            final(self).linking_error == old(self).linking_error,
    {
        if self.core.phase == Phase::Running && self.shared.finished {
            self.core.phase = Phase::Done;
        }
    }

    /// A click on Cancel or Close: stops a run, and closes the window otherwise.
    pub fn cancel(&mut self)
        ensures
            final(self).core == (if old(self).core.phase == Phase::Running {
                BenchCore { cancel: true, ..old(self).core }
            } else {
                BenchCore { open: false, ..old(self).core }
            }),
            if old(self).core.phase == Phase::Linking {
                final(self).linking_error is None
            } else {
                final(self).linking_error == old(self).linking_error
            },
            final(self).shared == old(self).shared,
    {
        if self.core.phase == Phase::Running {
            self.core.cancel = true;
        } else {
            if self.core.phase == Phase::Linking {
                self.linking_error = None;
            }
            self.core.open = false;
        }
    }

    /// The window was closed by its own button: a run is stopped.
    pub fn close_window(&mut self)
        ensures
            final(self).core == (BenchCore { cancel: true, open: false, ..old(self).core }),
            final(self).shared == old(self).shared,
            final(self).linking_error == old(self).linking_error,
    {
        self.core.cancel = true;
        self.core.open = false;
    }

    /// A click on Run again: back to the choice of the lane.
    pub fn run_again(&mut self, last_lane: Option<BenchLane>)
        ensures
            final(self).core == (if old(self).core.phase == Phase::Done {
                BenchCore { phase: Phase::Lane, lane: last_lane, ..old(self).core }
            } else {
                old(self).core
            }),
            final(self).shared == old(self).shared,
            final(self).linking_error == old(self).linking_error,
    {
        if self.core.phase == Phase::Done {
            self.core.phase = Phase::Lane;
            self.core.lane = last_lane;
        }
    }

    /// A click on the link about what is shared.
    pub fn toggle_share_preview(&mut self)
        ensures
            final(self).core == (BenchCore {
                show_share_preview: !old(self).core.show_share_preview,
                ..old(self).core
            }),
            final(self).shared == old(self).shared,
            final(self).linking_error == old(self).linking_error,
    {
        self.core.show_share_preview = !self.core.show_share_preview;
    }
}

/// Whether a sign-in has begun and nothing has been heard of it. What was known of a run before
/// stays.
pub open spec fn awaits_link(before: Shared, shared: Shared) -> bool {
    &&& shared.status@ == "Opening your browser for sign-in…"@
    &&& shared == (Shared {
        status: shared.status,
        linking_done: None,
        linking_url_fallback: None,
        ..before
    })
}

/// The labels of the two lanes; the suggested one is marked.
pub struct LaneLabels {
    pub ranked: &'static str,
    pub casual: &'static str,
}

/// The labels of the two lanes.
pub fn lane_labels(state: &BenchUiState) -> (r: LaneLabels)
    ensures
        r.ranked@ == (if suggests_ranked(state.core.lane) {
            "● Ranked — I'm not here to play games"@
        } else {
            "Ranked — I'm not here to play games"@
        }),
        r.casual@ == (if suggests_ranked(state.core.lane) {
            "Casual — just for fun"@
        } else {
            "● Casual — just for fun"@
        }),
{
    if state.default_is_ranked() {
        LaneLabels {
            ranked: "● Ranked — I'm not here to play games",
            casual: "Casual — just for fun",
        }
    } else {
        LaneLabels {
            ranked: "Ranked — I'm not here to play games",
            casual: "● Casual — just for fun",
        }
    }
}

/// Whether the chosen lane has to be saved.
pub fn must_persist_lane(stored: Option<BenchLane>, chosen: BenchLane) -> (r: bool)
    ensures
        r == (stored != Some(chosen)),
{
    match stored {
        Some(lane) => lane != chosen,
        None => true,
    }
}

/// What the sign-in shows.
pub enum LinkingView {
    /// It failed: the reason, and what can be done.
    Failed(String, &'static str),
    /// No browser could be opened: what to do, the page, and what is waited for.
    Manual(&'static str, String, &'static str),
    /// What is being done.
    Waiting(String),
}

/// What the sign-in shows: a failure, else the page to open by hand, else what is being done.
pub fn linking_view(state: &BenchUiState) -> (r: LinkingView)
    ensures
        match (state.linking_error, state.shared.linking_url_fallback) {
            (Some(error), _) => (r matches LinkingView::Failed(text, hint) && text@ == error@
                && hint@
                == "You can try again, switch to Casual (anonymous submission), or cancel."@),
            (None, Some(url)) => (r matches LinkingView::Manual(lead, link, wait) && link@ == url@
                && lead@
                == "Couldn't open a browser automatically. Open this URL in any browser to finish signing in:"@
                && wait@ == "Waiting for sign-in (up to 5 minutes)…"@),
            (None, None) => (r matches LinkingView::Waiting(line) && line@ == (
            if state.shared.status@.len() == 0 {
                "Opening your browser for Google sign-in… waiting for callback (up to 5 minutes)."@
            } else {
                state.shared.status@
            })),
        },
{
    if let Some(error) = &state.linking_error {
        return LinkingView::Failed(
            error.clone(),
            "You can try again, switch to Casual (anonymous submission), or cancel.",
        );
    }
    if let Some(url) = &state.shared.linking_url_fallback {
        return LinkingView::Manual(
            "Couldn't open a browser automatically. Open this URL in any browser to finish signing in:",
            url.clone(),
            "Waiting for sign-in (up to 5 minutes)…",
        );
    }
    if state.shared.status.as_str().unicode_len() == 0 {
        LinkingView::Waiting(
            "Opening your browser for Google sign-in… waiting for callback (up to 5 minutes).".to_owned(),
        )
    } else {
        LinkingView::Waiting(state.shared.status.clone())
    }
}

/// What the sign-in ended with, as the window is told.
pub fn link_outcome(result: Result<(Provider, String), String>) -> (r: Result<String, String>)
    ensures
        match result {
            Ok((provider, name)) => (r matches Ok(text) && text@ == name@ + " ("@ + provider_name(
                provider,
            ) + ")"@),
            Err(reason) => (r matches Err(text) && text@ == "Sign-in failed: "@ + reason@),
        },
{
    match result {
        Ok((provider, name)) => Ok(cat4(name.as_str(), " (", provider.display_name(), ")")),
        Err(reason) => Err(cat2("Sign-in failed: ", reason.as_str())),
    }
}

/// What has to be done about the install before a worker can go on.
#[derive(Clone, Copy, Debug, PartialEq, Eq, Structural)]
pub enum InstallStep {
    /// Nothing.
    Use,
    /// Register the install that is there.
    Register,
    /// Make an install and register it.
    CreateAndRegister,
}

/// What has to be done about the install, given whether there is one and whether it is
/// registered; or what the worker ends with.
pub fn install_step(loaded: Result<Option<bool>, String>) -> (r: Result<InstallStep, String>)
    ensures
        match loaded {
            Ok(Some(registered)) => r == Ok::<InstallStep, String>(
                if registered {
                    InstallStep::Use
                } else {
                    InstallStep::Register
                },
            ),
            Ok(None) => r == Ok::<InstallStep, String>(InstallStep::CreateAndRegister),
            Err(reason) => (r matches Err(text) && text@ == "Install state error: "@ + reason@),
        },
{
    match loaded {
        Ok(Some(registered)) => if registered {
            Ok(InstallStep::Use)
        } else {
            Ok(InstallStep::Register)
        },
        Ok(None) => Ok(InstallStep::CreateAndRegister),
        Err(reason) => Err(cat2("Install state error: ", reason.as_str())),
    }
}

/// What the worker ends with where the install could not be registered.
pub fn register_failure(reason: &str) -> (r: String)
    ensures
        r@ == "Couldn't register this install: "@ + reason@,
{
    cat2("Couldn't register this install: ", reason)
}

/// What keeps a registered worker from running, if anything: the install is not registered after
/// all, or its key cannot be read.
pub fn credentials_failure(registered: bool, has_key: bool) -> (r: Option<&'static str>)
    ensures
        match r {
            Some(text) => (!registered || !has_key) && text@ == (if !registered {
                "Install not registered; run `superdeduper register` first."@
            } else {
                "Install key malformed; re-register."@
            }),
            None => registered && has_key,
        },
{
    if !registered {
        Some("Install not registered; run `superdeduper register` first.")
    } else if !has_key {
        Some("Install key malformed; re-register.")
    } else {
        None
    }
}

/// How a run ended.
pub enum BenchOutcome {
    Cancelled,
    Failed(String),
    Finished {
        /// The seconds it took, with two decimals.
        seconds: String,
        bytes_scanned: u64,
        dup_groups: u64,
        /// The answer to the submission, where there was one.
        submit: Option<SubmitOutcome>,
        /// The first rank, and an unusual answer, written out.
        written_out: String,
    },
}

/// What the window is told at the end of a run.
pub struct BenchFinish {
    pub result: String,
    pub is_error: bool,
    pub submitted: bool,
    pub deep_link: Option<String>,
    pub ranks: Vec<RankEntry>,
}

/// How much was hashed: in gigabytes with two decimals, or in whole megabytes.
pub open spec fn hashed_text(bytes: u64) -> Seq<char> {
    if bytes >= 1_073_741_824 {
        quotient_text(bytes as nat, 1_073_741_824, 2) + " GB"@
    } else {
        decimal(nearest(bytes as nat, 1_048_576)) + " MB"@
    }
}

/// How much was hashed.
pub fn hashed_size(bytes: u64) -> (r: String)
    ensures
        r@ == hashed_text(bytes),
{
    if bytes >= 1_073_741_824 {
        let q = quotient_string(bytes, 1_073_741_824, 2);
        cat2(q.as_str(), " GB")
    } else {
        let n = wide_decimal_string(nearest_megabytes(bytes));
        cat2(n.as_str(), " MB")
    }
}

/// The line about the run's speed.
pub open spec fn perf_text(seconds: Seq<char>, bytes: u64, groups: u64) -> Seq<char> {
    "Deduped the test corpus in "@ + seconds + "s — hashed "@ + hashed_text(bytes)
        + " of duplicate candidates, "@ + decimal(groups as nat) + " groups."@
}

/// The page of a result, under the lane's tab.
pub open spec fn deep_link_text(
    frontend: Seq<char>,
    lane: Option<BenchLane>,
    id: Seq<char>,
) -> Seq<char> {
    frontend + "/leaderboard?tab="@ + (match lane {
        Some(l) => lane_slug(l),
        None => "ranked"@,
    }) + "&highlight="@ + id
}

/// The page of a result, under the lane's tab.
pub fn deep_link(frontend: &str, lane: Option<BenchLane>, id: &str) -> (r: String)
    ensures
        r@ == deep_link_text(frontend@, lane, id@),
{
    let tab = match lane {
        Some(l) => l.as_slug(),
        None => "ranked",
    };
    cat5(frontend, "/leaderboard?tab=", tab, "&highlight=", id)
}

/// What is said of an accepted submission.
pub open spec fn accepted_text(
    has_rank: bool,
    written_out: Seq<char>,
    unlocked: Seq<Seq<char>>,
) -> Seq<char> {
    (if has_rank {
        "Verified! You ranked on the Dedupe Hall of Fame.\n"@ + written_out
    } else {
        "Verified + submitted to the Dedupe Hall of Fame.\nYour rank will appear on your profile shortly."@
    }) + (if unlocked.len() > 0 {
        "\nAchievements: "@ + joined(unlocked, ", "@)
    } else {
        ""@
    })
}

/// What is said of the answer to a submission.
pub open spec fn submit_text(submit: Option<SubmitOutcome>, written_out: Seq<char>) -> Seq<char> {
    match submit {
        None => "Ran locally — not submitted."@,
        Some(SubmitOutcome::Accepted { ranks, achievements_unlocked, .. }) => accepted_text(
            ranks@.len() > 0,
            written_out,
            texts(achievements_unlocked@),
        ),
        Some(SubmitOutcome::DuplicateNoChange { submission_id: Some(_) }) =>
            "Already on the leaderboard (same payload).\nView the existing entry below."@,
        Some(SubmitOutcome::Rejected { status, reason }) => "Not accepted (status "@ + decimal(
            status as nat,
        ) + "): "@ + reason@,
        Some(_) => written_out,
    }
}

/// The submission whose page is linked: one that was accepted, or was there already.
pub open spec fn linked_submission(submit: Option<SubmitOutcome>) -> Option<Seq<char>> {
    match submit {
        Some(SubmitOutcome::Accepted { submission_id, .. }) => Some(submission_id@),
        Some(SubmitOutcome::DuplicateNoChange { submission_id: Some(id) }) => Some(id@),
        _ => None,
    }
}

/// The places that were won.
pub open spec fn won_ranks(submit: Option<SubmitOutcome>) -> Seq<RankEntry> {
    match submit {
        Some(SubmitOutcome::Accepted { ranks, .. }) => ranks@,
        _ => Seq::empty(),
    }
}

fn accepted_message(has_rank: bool, written_out: &str, unlocked: &Vec<String>) -> (r: String)
    ensures
        r@ == accepted_text(has_rank, written_out@, texts(unlocked@)),
{
    let first = if has_rank {
        cat2("Verified! You ranked on the Dedupe Hall of Fame.\n", written_out)
    } else {
        "Verified + submitted to the Dedupe Hall of Fame.\nYour rank will appear on your profile shortly.".to_owned()
    };
    assert(texts(unlocked@).len() == unlocked.len());
    if unlocked.len() > 0 {
        let names = join_with(unlocked, ", ");
        let rest = cat2("\nAchievements: ", names.as_str());
        cat2(first.as_str(), rest.as_str())
    } else {
        cat2(first.as_str(), "")
    }
}

/// What the window is told at the end of a run: the result, whether it is an error, whether
/// something was submitted, and the page and the places that go with it.
pub fn bench_finish(outcome: BenchOutcome, frontend: &str, lane: Option<BenchLane>) -> (r:
    BenchFinish)
    ensures
        match outcome {
            BenchOutcome::Cancelled => {
                &&& r.result@ == "Cancelled — nothing was submitted."@
                &&& !r.is_error && !r.submitted && r.deep_link is None && r.ranks@.len() == 0
            },
            BenchOutcome::Failed(reason) => {
                &&& r.result@ == "Benchmark failed: "@ + reason@
                &&& r.is_error && !r.submitted && r.deep_link is None && r.ranks@.len() == 0
            },
            BenchOutcome::Finished { seconds, bytes_scanned, dup_groups, submit, written_out } => {
                &&& r.result@ == perf_text(seconds@, bytes_scanned, dup_groups) + "\n"@
                    + submit_text(submit, written_out@)
                &&& r.is_error == (submit matches Some(SubmitOutcome::Rejected { .. }))
                &&& r.submitted == (submit is Some)
                &&& match linked_submission(submit) {
                    Some(id) => (r.deep_link matches Some(link) && link@ == deep_link_text(
                        frontend@,
                        lane,
                        id,
                    )),
                    None => r.deep_link is None,
                }
                &&& r.ranks@ == won_ranks(submit)
            },
        },
{
    match outcome {
        BenchOutcome::Cancelled => BenchFinish {
            result: "Cancelled — nothing was submitted.".to_owned(),
            is_error: false,
            submitted: false,
            deep_link: None,
            ranks: Vec::new(),
        },
        BenchOutcome::Failed(reason) => BenchFinish {
            result: cat2("Benchmark failed: ", reason.as_str()),
            is_error: true,
            submitted: false,
            deep_link: None,
            ranks: Vec::new(),
        },
        BenchOutcome::Finished { seconds, bytes_scanned, dup_groups, submit, written_out } => {
            let size = hashed_size(bytes_scanned);
            let groups = decimal_string(dup_groups);
            let perf = cat7(
                "Deduped the test corpus in ",
                seconds.as_str(),
                "s — hashed ",
                size.as_str(),
                " of duplicate candidates, ",
                groups.as_str(),
                " groups.",
            );
            let mut is_error = false;
            let mut link: Option<String> = None;
            let mut won: Vec<RankEntry> = Vec::new();
            let submitted = submit.is_some();
            let message = match submit {
                None => "Ran locally — not submitted.".to_owned(),
                Some(SubmitOutcome::Accepted {
                    submission_id,
                    ranks,
                    achievements_unlocked,
                    ..
                }) => {
                    link = Some(deep_link(frontend, lane, submission_id.as_str()));
                    let text = accepted_message(
                        ranks.len() > 0,
                        written_out.as_str(),
                        &achievements_unlocked,
                    );
                    won = ranks;
                    text
                },
                Some(SubmitOutcome::DuplicateNoChange { submission_id: Some(id) }) => {
                    link = Some(deep_link(frontend, lane, id.as_str()));
                    "Already on the leaderboard (same payload).\nView the existing entry below.".to_owned()
                },
                Some(SubmitOutcome::Rejected { status, reason }) => {
                    is_error = true;
                    let code = decimal_string(status as u64);
                    cat4("Not accepted (status ", code.as_str(), "): ", reason.as_str())
                },
                Some(_) => written_out,
            };
            BenchFinish {
                result: cat3(perf.as_str(), "\n", message.as_str()),
                is_error,
                submitted,
                deep_link: link,
                ranks: won,
            }
        },
    }
}

/// The line about a place that was won.
pub open spec fn rank_text(rank: RankEntry) -> Seq<char> {
    "Rank: #"@ + decimal(rank.rank as nat) + " of "@ + decimal(rank.bucket_size as nat) + " in "@
        + rank.category@ + " / "@ + rank.bracket@
}

/// The lines about the places that were won.
pub open spec fn rank_texts(ranks: Seq<RankEntry>) -> Seq<Seq<char>> {
    if ranks.len() == 0 {
        seq!["Rank: pending (resolving asynchronously; check the leaderboard shortly)"@]
    } else {
        ranks.map_values(|r: RankEntry| rank_text(r))
    }
}

/// The lines about the places that were won, or that they are not known yet.
pub fn rank_lines(ranks: &Vec<RankEntry>) -> (r: Vec<String>)
    ensures
        texts(r@) == rank_texts(ranks@),
{
    let mut r: Vec<String> = Vec::new();
    if ranks.len() == 0 {
        r.push(
            "Rank: pending (resolving asynchronously; check the leaderboard shortly)".to_owned(),
        );
        assert(texts(r@) =~= rank_texts(ranks@));
        return r;
    }
    let ghost all = rank_texts(ranks@);
    let mut i: usize = 0;
    while i < ranks.len()
        invariant
            i <= ranks.len(),
            ranks.len() > 0,
            all == rank_texts(ranks@),
            texts(r@) =~= all.take(i as int),
        decreases ranks.len() - i,
    {
        let rank = &ranks[i];
        let place = decimal_string(rank.rank);
        let size = decimal_string(rank.bucket_size);
        let ghost before = r@;
        r.push(
            cat8(
                "Rank: #",
                place.as_str(),
                " of ",
                size.as_str(),
                " in ",
                rank.category.as_str(),
                " / ",
                rank.bracket.as_str(),
            ),
        );
        assert(texts(r@) =~= texts(before).push(all[i as int]));
        i = i + 1;
    }
    assert(all.take(i as int) =~= all);
    r
}

/// The two lines about the download, for the chosen benchmark.
pub struct ConsentTexts {
    pub download: String,
    pub workload: String,
}

/// The two lines about the download, for the chosen benchmark.
pub fn consent_texts(state: &BenchUiState) -> (r: ConsentTexts)
    ensures
        r.download@ == "1. Downloads a standard synthetic ranked corpus ("@ + "~2.4 GB"@
            + "; cached after the first run)."@,
        r.workload@ == "Downloads "@ + "~2.4 GB"@
            + " (once; cached after) and runs a CPU + disk workload. Run it when your machine is otherwise idle for an accurate, comparable result."@,
{
    let tier = state.tier();
    ConsentTexts {
        download: cat3(
            "1. Downloads a standard synthetic ranked corpus (",
            tier.approx_size,
            "; cached after the first run).",
        ),
        workload: cat3(
            "Downloads ",
            tier.approx_size,
            " (once; cached after) and runs a CPU + disk workload. Run it when your machine is otherwise idle for an accurate, comparable result.",
        ),
    }
}

/// A window opens at the choice of the lane, with nothing asked for: it suggests the lane of the
/// last time, does not download anew, and no run is told to stop.
pub proof fn windows_open_at_the_lane(last_lane: Option<BenchLane>)
    ensures
        opened(last_lane).open,
        opened(last_lane).phase == Phase::Lane,
        opened(last_lane).lane == last_lane,
        !opened(last_lane).fresh,
        !opened(last_lane).cancel,
        !opened(last_lane).show_share_preview,
        opened(last_lane).tier_idx == 0,
{
}

/// The ranked lane is suggested at first and to who took it last; to who took the casual lane last,
/// the casual one is.
pub proof fn the_last_lane_is_suggested(lane: BenchLane)
    ensures
        suggests_ranked(None),
        suggests_ranked(Some(lane)) <==> lane == BenchLane::Ranked,
{
}

/// A sign-in that begins knows of no end and of no page yet, and forgets nothing of an earlier run.
pub proof fn sign_ins_begin_afresh(before: Shared, shared: Shared)
    requires
        awaits_link(before, shared),
    ensures
        shared.linking_done is None,
        shared.linking_url_fallback is None,
        shared.finished == before.finished,
        shared.result == before.result,
        shared.is_error == before.is_error,
        shared.submitted == before.submitted,
        shared.deep_link == before.deep_link,
        shared.ranks == before.ranks,
{
}

/// A run begins with nothing reported: it has not ended, there is no result, no error, no page, no
/// rank, and nothing was submitted.
pub proof fn runs_begin_unreported(shared: Shared, status: Seq<char>)
    requires
        is_blank(shared, status),
    ensures
        shared.status@ == status,
        !shared.finished && !shared.submitted && !shared.is_error,
        shared.result is None && shared.deep_link is None,
        shared.ranks@.len() == 0,
        shared.linking_done is None && shared.linking_url_fallback is None,
{
}

/// A result has a page exactly where the service took it, now or before, and named it; the page is
/// that of the named submission. Ranks come with an accepted submission only.
pub proof fn pages_are_those_of_taken_results(submit: Option<SubmitOutcome>)
    ensures
        submit is None ==> linked_submission(submit) is None && won_ranks(submit).len() == 0,
        submit matches Some(SubmitOutcome::Accepted { submission_id, ranks, .. }) ==> linked_submission(
            submit,
        ) == Some(submission_id@) && won_ranks(submit) == ranks@,
        submit matches Some(SubmitOutcome::DuplicateNoChange { submission_id }) ==> {
            &&& linked_submission(submit) is Some <==> submission_id is Some
            &&& submission_id is Some ==> linked_submission(submit) == Some((submission_id->0)@)
            &&& won_ranks(submit).len() == 0
        },
        submit matches Some(SubmitOutcome::Rejected { .. }) ==> linked_submission(submit) is None
            && won_ranks(submit).len() == 0,
        submit matches Some(SubmitOutcome::Transient { .. }) ==> linked_submission(submit) is None
            && won_ranks(submit).len() == 0,
        submit matches Some(SubmitOutcome::FlaggedForReview { .. }) ==> linked_submission(submit)
            is None && won_ranks(submit).len() == 0,
{
}

/// The page of a result is on the tab of its lane, and on the ranked one where no lane is known.
pub proof fn pages_are_on_the_tab_of_the_lane(frontend: Seq<char>, id: Seq<char>)
    ensures
        deep_link_text(frontend, Some(BenchLane::Casual), id) == frontend + "/leaderboard?tab="@
            + "casual"@ + "&highlight="@ + id,
        deep_link_text(frontend, Some(BenchLane::Ranked), id) == frontend + "/leaderboard?tab="@
            + "ranked"@ + "&highlight="@ + id,
        deep_link_text(frontend, None, id) == deep_link_text(frontend, Some(BenchLane::Ranked), id),
{
}

/// Each rank has its line, in order, with the place, the number of entries, the category and the
/// bracket; and there is a line where there is no rank yet.
pub proof fn every_rank_has_its_line(ranks: Seq<RankEntry>, k: int)
    requires
        0 <= k < ranks.len(),
    ensures
        rank_texts(ranks).len() == ranks.len(),
        rank_texts(ranks)[k] == "Rank: #"@ + decimal(ranks[k].rank as nat) + " of "@ + decimal(
            ranks[k].bucket_size as nat,
        ) + " in "@ + ranks[k].category@ + " / "@ + ranks[k].bracket@,
        rank_texts(Seq::empty()).len() == 1,
{
}

/// A refusal is told with its status and its reason; a run that was not submitted says so; and an
/// accepted one names what was unlocked, where something was.
pub proof fn answers_are_told(status: u16, reason: String, submit: Option<SubmitOutcome>, written: Seq<char>)
    ensures
        submit_text(None, written) == "Ran locally — not submitted."@,
        submit_text(Some(SubmitOutcome::Rejected { status, reason }), written)
            == "Not accepted (status "@ + decimal(status as nat) + "): "@ + reason@,
        submit matches Some(SubmitOutcome::Accepted { ranks, achievements_unlocked, .. }) ==> {
            let names = texts(achievements_unlocked@);
            let head = if ranks@.len() > 0 {
                "Verified! You ranked on the Dedupe Hall of Fame.\n"@ + written
            } else {
                "Verified + submitted to the Dedupe Hall of Fame.\nYour rank will appear on your profile shortly."@
            };
            &&& names.len() == 0 ==> submit_text(submit, written) == head + ""@
            &&& names.len() > 0 ==> submit_text(submit, written) == head + ("\nAchievements: "@ + joined(
                names,
                ", "@,
            ))
        },
{
}

/// From one gigabyte on, what was hashed is told in gigabytes with two digits behind the point;
/// below, in whole megabytes.
pub proof fn hashed_amounts_have_their_unit(bytes: u64)
    ensures
        bytes >= 1024 * 1024 * 1024 ==> hashed_text(bytes) == quotient_text(
            bytes as nat,
            1024 * 1024 * 1024,
            2,
        ) + " GB"@,
        bytes < 1024 * 1024 * 1024 ==> hashed_text(bytes) == decimal(nearest(bytes as nat, 1024 * 1024))
            + " MB"@,
{
}

/// The benchmark that is offered is the quick one.
pub proof fn the_quick_benchmark_is_offered(choice: BenchTierChoice)
    requires
        is_quick(choice),
    ensures
        choice.corpus_version@ == "corpus-v2-quick"@,
        choice.tier@ == "quick"@,
        choice.label@ == "Quick (ranked, ~2.4 GB)"@,
        choice.approx_size@ == "~2.4 GB"@,
{
}

} // verus!
