//! The window after a scan: its figures, the offer to submit them, and the answer.
use vstd::prelude::*;

use crate::gui::lines::{line_views, push_line, Line, Tone};
use crate::gui::widgets::badge_wall::{registering_text, waiting_text};
use crate::leaderboard::catalog::{CatalogState, ProfileGrant};
use crate::leaderboard::install::ShareDefault;
use crate::leaderboard::oauth::{provider_name, AccountStatus, OauthToast, SessionSnapshot};
use crate::leaderboard::submission::{RankEntry, SubmitOutcome};
use crate::sizes::{format_size, human_size};
use crate::text::{cat2, cat3, cat5, cat8, decimal, decimal_string, padded, padded_string};

verus! {

/// What the window shows.
#[derive(Debug, Clone, Copy, PartialEq, Eq, Structural)]
pub enum ScanCompleteState {
    Hidden,
    /// The figures and the offer.
    Ready,
    /// The submission is on its way.
    Submitting,
    /// The answer.
    Done,
    /// What would be submitted.
    Preview,
}

impl Default for ScanCompleteState {
    fn default() -> (r: Self)
        ensures
            r == ScanCompleteState::Hidden,
    {
        ScanCompleteState::Hidden
    }
}

/// What a click asks for.
#[derive(Debug, Clone, Copy, PartialEq, Eq, Structural)]
pub enum ScanCompleteAction {
    /// Submit this scan.
    Submit,
    /// Do not submit this scan.
    Skip,
    /// Submit this scan, and every later one without asking.
    AutoSubmit,
    /// Show what would be submitted.
    OpenPreview,
    ClosePreview,
    /// Send a refused submission to be looked at.
    SubmitForReview,
    Close,
}

/// The window: what it shows, what it goes back to from the preview, and whether the answer was a
/// refusal.
#[derive(Debug, Clone, Copy, PartialEq, Eq, Structural)]
pub struct ScanCompleteFlow {
    pub state: ScanCompleteState,
    /// What the preview was opened from.
    pub behind_preview: ScanCompleteState,
    pub rejected: bool,
}

impl Default for ScanCompleteFlow {
    fn default() -> (r: Self)
        ensures
            r == hidden_flow(),
    {
        ScanCompleteFlow {
            state: ScanCompleteState::Hidden,
            behind_preview: ScanCompleteState::Hidden,
            rejected: false,
        }
    }
}

/// The window, hidden.
pub open spec fn hidden_flow() -> ScanCompleteFlow {
    ScanCompleteFlow {
        state: ScanCompleteState::Hidden,
        behind_preview: ScanCompleteState::Hidden,
        rejected: false,
    }
}

/// Whether the window offers the action.
pub open spec fn is_offered(flow: ScanCompleteFlow, action: ScanCompleteAction) -> bool {
    match flow.state {
        ScanCompleteState::Hidden => false,
        ScanCompleteState::Ready => action == ScanCompleteAction::Submit || action
            == ScanCompleteAction::Skip || action == ScanCompleteAction::AutoSubmit || action
            == ScanCompleteAction::OpenPreview,
        ScanCompleteState::Submitting => false,
        ScanCompleteState::Done => action == ScanCompleteAction::Close || action
            == ScanCompleteAction::OpenPreview || (action == ScanCompleteAction::SubmitForReview
            && flow.rejected),
        ScanCompleteState::Preview => action == ScanCompleteAction::ClosePreview,
    }
}

/// The window after an action. One that is not offered changes nothing.
pub open spec fn after_action(flow: ScanCompleteFlow, action: ScanCompleteAction) -> ScanCompleteFlow {
    if !is_offered(flow, action) {
        flow
    } else {
        match action {
            ScanCompleteAction::Submit | ScanCompleteAction::AutoSubmit => ScanCompleteFlow {
                state: ScanCompleteState::Submitting,
                ..flow
            },
            ScanCompleteAction::Skip | ScanCompleteAction::Close => hidden_flow(),
            ScanCompleteAction::OpenPreview => ScanCompleteFlow {
                state: ScanCompleteState::Preview,
                behind_preview: flow.state,
                ..flow
            },
            ScanCompleteAction::ClosePreview => ScanCompleteFlow {
                state: flow.behind_preview,
                behind_preview: ScanCompleteState::Hidden,
                ..flow
            },
            ScanCompleteAction::SubmitForReview => flow,
        }
    }
}

/// The window after an answer of the server, which is a refusal or not. A window that shows an
/// answer, or the preview opened from one, goes by the new one.
pub open spec fn after_answer(flow: ScanCompleteFlow, rejected: bool) -> ScanCompleteFlow {
    match flow.state {
        ScanCompleteState::Submitting => ScanCompleteFlow {
            state: ScanCompleteState::Done,
            rejected,
            ..flow
        },
        ScanCompleteState::Done => ScanCompleteFlow { rejected, ..flow },
        ScanCompleteState::Preview => if flow.behind_preview == ScanCompleteState::Done {
            ScanCompleteFlow { rejected, ..flow }
        } else {
            flow
        },
        ScanCompleteState::Hidden | ScanCompleteState::Ready => flow,
    }
}

/// What follows the end of a scan.
#[derive(Debug, Clone, Copy, PartialEq, Eq, Structural)]
pub enum AfterScan {
    /// The window asks.
    Ask,
    /// The scan is submitted without asking.
    SubmitSilently,
    /// Nothing is submitted and nothing is asked.
    Nothing,
}

/// What follows the end of a scan, by the user's choice.
pub open spec fn after_scan(share: ShareDefault) -> AfterScan {
    match share {
        ShareDefault::AlwaysAsk | ShareDefault::AskNThenSticky => AfterScan::Ask,
        ShareDefault::AutoOptIn => AfterScan::SubmitSilently,
        ShareDefault::Never => AfterScan::Nothing,
    }
}

impl ScanCompleteFlow {
    /// Whether the window offers the action.
    pub fn offers(&self, action: ScanCompleteAction) -> (r: bool)
        ensures
            r == is_offered(*self, action),
    {
        match self.state {
            ScanCompleteState::Hidden => false,
            ScanCompleteState::Ready => action == ScanCompleteAction::Submit || action
                == ScanCompleteAction::Skip || action == ScanCompleteAction::AutoSubmit || action
                == ScanCompleteAction::OpenPreview,
            ScanCompleteState::Submitting => false,
            ScanCompleteState::Done => action == ScanCompleteAction::Close || action
                == ScanCompleteAction::OpenPreview || (action
                == ScanCompleteAction::SubmitForReview && self.rejected),
            ScanCompleteState::Preview => action == ScanCompleteAction::ClosePreview,
        }
    }

    /// A click. The result says whether the action was offered.
    pub fn act(&mut self, action: ScanCompleteAction) -> (taken: bool)
        ensures
            taken == is_offered(*old(self), action),
            *final(self) == after_action(*old(self), action),
    {
        if !self.offers(action) {
            return false;
        }
        match action {
            ScanCompleteAction::Submit | ScanCompleteAction::AutoSubmit => {
                self.state = ScanCompleteState::Submitting;
            },
            ScanCompleteAction::Skip | ScanCompleteAction::Close => {
                self.state = ScanCompleteState::Hidden;
                self.behind_preview = ScanCompleteState::Hidden;
                self.rejected = false;
            },
            ScanCompleteAction::OpenPreview => {
                self.behind_preview = self.state;
                self.state = ScanCompleteState::Preview;
            },
            ScanCompleteAction::ClosePreview => {
                self.state = self.behind_preview;
                self.behind_preview = ScanCompleteState::Hidden;
            },
            ScanCompleteAction::SubmitForReview => {},
        }
        true
    }

    /// A scan has ended: what follows. Where the user is to be asked, the window opens.
    pub fn scan_finished(&mut self, share: ShareDefault) -> (r: AfterScan)
        ensures
            r == after_scan(share),
            *final(self) == (if r == AfterScan::Ask {
                ScanCompleteFlow { state: ScanCompleteState::Ready, ..hidden_flow() }
            } else {
                *old(self)
            }),
    {
        match share {
            ShareDefault::AlwaysAsk | ShareDefault::AskNThenSticky => {
                self.state = ScanCompleteState::Ready;
                self.behind_preview = ScanCompleteState::Hidden;
                self.rejected = false;
                AfterScan::Ask
            },
            ShareDefault::AutoOptIn => AfterScan::SubmitSilently,
            ShareDefault::Never => AfterScan::Nothing,
        }
    }

    /// The submission was answered, or what was sent to be looked at. An answer that nobody waits
    /// for changes nothing.
    pub fn answered(&mut self, outcome: &SubmitOutcome)
        ensures
            *final(self) == after_answer(*old(self), *outcome is Rejected),
    {
        let rejected = match outcome {
            SubmitOutcome::Rejected { .. } => true,
            _ => false,
        };
        match self.state {
            ScanCompleteState::Submitting => {
                self.state = ScanCompleteState::Done;
                self.rejected = rejected;
            },
            ScanCompleteState::Done => {
                self.rejected = rejected;
            },
            ScanCompleteState::Preview => {
                if self.behind_preview == ScanCompleteState::Done {
                    self.rejected = rejected;
                }
            },
            _ => {},
        }
    }
}

/// The preview goes back to what it was opened from.
pub proof fn preview_goes_back(flow: ScanCompleteFlow)
    requires
        is_offered(flow, ScanCompleteAction::OpenPreview),
    ensures
        ({
            let open = after_action(flow, ScanCompleteAction::OpenPreview);
            let closed = after_action(open, ScanCompleteAction::ClosePreview);
            &&& open.state == ScanCompleteState::Preview
            &&& closed.state == flow.state
            &&& closed.rejected == flow.rejected
        }),
{
}

/// Whether the preview stands before the offer or the answer.
pub open spec fn is_sound(flow: ScanCompleteFlow) -> bool {
    flow.state == ScanCompleteState::Preview ==> (flow.behind_preview == ScanCompleteState::Ready
        || flow.behind_preview == ScanCompleteState::Done)
}

/// Every action keeps the preview before the offer or the answer.
pub proof fn flows_stay_sound(flow: ScanCompleteFlow, action: ScanCompleteAction)
    requires
        is_sound(flow),
    ensures
        is_sound(after_action(flow, action)),
{
}

/// A submission begins from the offer and from nowhere else.
pub proof fn submitted_from_the_offer_only(flow: ScanCompleteFlow, action: ScanCompleteAction)
    requires
        is_sound(flow),
        flow.state != ScanCompleteState::Submitting,
        after_action(flow, action).state == ScanCompleteState::Submitting,
    ensures
        flow.state == ScanCompleteState::Ready,
        action == ScanCompleteAction::Submit || action == ScanCompleteAction::AutoSubmit,
{
}

/// Whether the offer has been answered: nothing leads back to it.
pub open spec fn is_answered(flow: ScanCompleteFlow) -> bool {
    match flow.state {
        ScanCompleteState::Hidden | ScanCompleteState::Submitting | ScanCompleteState::Done => true,
        ScanCompleteState::Ready => false,
        ScanCompleteState::Preview => flow.behind_preview == ScanCompleteState::Done,
    }
}

/// An offer that was answered does not come back, whatever is clicked, so a scan is submitted at
/// most once.
pub proof fn offers_do_not_come_back(flow: ScanCompleteFlow, action: ScanCompleteAction)
    requires
        is_answered(flow),
    ensures
        is_answered(after_action(flow, action)),
        !is_offered(flow, ScanCompleteAction::Submit),
        !is_offered(flow, ScanCompleteAction::AutoSubmit),
        is_offered(flow, ScanCompleteAction::SubmitForReview) ==> flow.rejected,
{
}

/// A submission can be sent to be looked at for as long as the last answer was a refusal: an
/// answer to what was sent takes the offer away unless it is a refusal too.
pub proof fn answers_settle_the_review(flow: ScanCompleteFlow, rejected: bool)
    requires
        flow.state == ScanCompleteState::Submitting || flow.state == ScanCompleteState::Done,
    ensures
        after_answer(flow, rejected).state == ScanCompleteState::Done,
        is_offered(after_answer(flow, rejected), ScanCompleteAction::SubmitForReview) == rejected,
{
}

/// Answers keep the preview before the offer or the answer, and bring no offer back.
pub proof fn answers_keep_the_flow(flow: ScanCompleteFlow, rejected: bool)
    ensures
        is_sound(flow) ==> is_sound(after_answer(flow, rejected)),
        is_answered(flow) ==> is_answered(after_answer(flow, rejected)),
{
}

/// Only a refused submission can be sent to be looked at.
pub proof fn only_refusals_go_to_review(flow: ScanCompleteFlow)
    requires
        is_offered(flow, ScanCompleteAction::SubmitForReview),
    ensures
        flow.state == ScanCompleteState::Done,
        flow.rejected,
{
}

/// A number with a comma before each three digits.
pub open spec fn thousands(n: nat) -> Seq<char>
    decreases n,
{
    if n < 1000 {
        decimal(n)
    } else {
        thousands(n / 1000) + ","@ + padded(n % 1000, 3)
    }
}

/// A number with a comma before each three digits.
pub fn format_thousands(n: u64) -> (r: String)
    ensures
        r@ == thousands(n as nat),
    decreases n,
{
    if n < 1000 {
        decimal_string(n)
    } else {
        let front = format_thousands(n / 1000);
        let back = padded_string(n % 1000, 3);
        cat3(front.as_str(), ",", back.as_str())
    }
}

/// The figures of a scan.
pub struct StatTexts {
    pub reclaimable: String,
    pub files: String,
    pub groups: String,
}

/// The figures of a scan.
pub fn stat_texts(reclaimable_bytes: u64, files_scanned: u64, duplicate_groups: u64) -> (r:
    StatTexts)
    ensures
        r.reclaimable@ == human_size(reclaimable_bytes),
        r.files@ == thousands(files_scanned as nat),
        r.groups@ == thousands(duplicate_groups as nat),
{
    StatTexts {
        reclaimable: format_size(reclaimable_bytes),
        files: format_thousands(files_scanned),
        groups: format_thousands(duplicate_groups),
    }
}

/// How many rows of the profile are granted.
pub open spec fn granted_rows(grants: Seq<ProfileGrant>) -> nat
    decreases grants.len(),
{
    if grants.len() == 0 {
        0
    } else {
        granted_rows(grants.drop_last()) + (if grants.last().granted {
            1nat
        } else {
            0nat
        })
    }
}

/// How many rows of the profile are granted, where it was fetched.
pub open spec fn granted_count(state: CatalogState) -> nat {
    match state.profile {
        Some(Ok(profile)) => granted_rows(profile.achievements@),
        _ => 0,
    }
}

fn count_granted(state: &CatalogState) -> (r: usize)
    ensures
        r == granted_count(*state),
{
    match &state.profile {
        Some(Ok(profile)) => {
            let grants = &profile.achievements;
            let mut r: usize = 0;
            let mut i: usize = 0;
            while i < grants.len()
                invariant
                    i <= grants.len(),
                    r == granted_rows(grants@.take(i as int)),
                    r <= i,
                decreases grants.len() - i,
            {
                assert(grants@.take(i + 1).drop_last() =~= grants@.take(i as int));
                assert(grants@.take(i + 1).last() == grants@[i as int]);
                if grants[i].granted {
                    r = r + 1;
                }
                i = i + 1;
            }
            assert(grants@.take(i as int) =~= grants@);
            r
        },
        _ => 0,
    }
}

/// The invitation to sign in.
pub open spec fn signin_copy(granted: nat) -> Seq<char> {
    if granted > 0 {
        "Sign in to keep your progress (you have earned "@ + decimal(granted) + " badges)"@
    } else {
        "Sign in to start your collection."@
    }
}

/// What stands above the offer.
pub enum SigninStage {
    /// The install is linked.
    Nothing,
    /// The install is being registered: a spinner and a line.
    Registering(String),
    /// The browser is waited for: a spinner, a line and a button to cancel.
    Waiting(String),
    /// The invitation, and a button for each provider.
    Offer(String),
}

/// What stands above the offer: nothing for a linked install, else a running registration, else a
/// running sign-in, else the invitation. A status that could not be read counts as anonymous.
pub fn signin_stage(
    status: &Option<AccountStatus>,
    registering_secs: Option<u64>,
    session: Option<SessionSnapshot>,
    state: &CatalogState,
) -> (r: SigninStage)
    ensures
        match *status {
            Some(AccountStatus::Linked { .. }) => r is Nothing,
            _ => match (registering_secs, session) {
                (Some(secs), _) => (r matches SigninStage::Registering(line) && line@
                    == registering_text(secs)),
                (None, Some(s)) => (r matches SigninStage::Waiting(line) && line@ == waiting_text(
                    s,
                )),
                (None, None) => (r matches SigninStage::Offer(line) && line@ == signin_copy(
                    granted_count(*state),
                )),
            },
        },
{
    if let Some(AccountStatus::Linked { .. }) = status {
        return SigninStage::Nothing;
    }
    if let Some(secs) = registering_secs {
        let elapsed = decimal_string(secs);
        return SigninStage::Registering(cat3("Registering machine (", elapsed.as_str(), "s)…"));
    }
    if let Some(s) = session {
        let elapsed = decimal_string(s.elapsed_secs);
        return SigninStage::Waiting(
            cat5(
                "Waiting for ",
                s.provider.display_name(),
                " sign-in (",
                elapsed.as_str(),
                "s)…",
            ),
        );
    }
    let granted: usize = count_granted(state);
    if granted > 0 {
        let n = decimal_string(granted as u64);
        SigninStage::Offer(
            cat3(
                "Sign in to keep your progress (you have earned ",
                n.as_str(),
                " badges)",
            ),
        )
    } else {
        SigninStage::Offer("Sign in to start your collection.".to_owned())
    }
}

/// The line that says how the last sign-in ended.
pub open spec fn signin_toast_text(toast: OauthToast) -> Seq<char> {
    match toast {
        OauthToast::Success { provider, display_name } => "✓ Signed in: "@ + display_name@ + " ("@
            + provider_name(provider) + ")"@,
        OauthToast::Failure { reason } => "⚠ Sign-in failed: "@ + reason@,
    }
}

/// The line that says how the last sign-in ended.
pub fn signin_toast_line(toast: &OauthToast) -> (r: String)
    ensures
        r@ == signin_toast_text(*toast),
{
    match toast {
        OauthToast::Success { provider, display_name } => cat5(
            "✓ Signed in: ",
            display_name.as_str(),
            " (",
            provider.display_name(),
            ")",
        ),
        OauthToast::Failure { reason } => cat2("⚠ Sign-in failed: ", reason.as_str()),
    }
}

/// The line about a place in a ranking.
pub open spec fn rank_text(rank: RankEntry) -> Seq<char> {
    "  Rank #"@ + decimal(rank.rank as nat) + " of "@ + decimal(rank.bucket_size as nat) + " ("@
        + rank.category@ + " / "@ + (rank.bracket@ + ")"@)
}

/// The lines about places in rankings.
pub open spec fn rank_lines(ranks: Seq<RankEntry>) -> Seq<(Tone, Seq<char>)> {
    if ranks.len() == 0 {
        seq![(Tone::Dim, "Awaiting rank computation…"@)]
    } else {
        ranks.map_values(|r: RankEntry| (Tone::Bright, rank_text(r)))
    }
}

/// The lines about unlocked achievements.
pub open spec fn unlocked_lines(names: Seq<String>) -> Seq<(Tone, Seq<char>)> {
    names.map_values(|n: String| (Tone::Accent, "  🏆 "@ + n@))
}

/// The lines that tell the answer.
pub open spec fn outcome_lines(outcome: SubmitOutcome) -> Seq<(Tone, Seq<char>)> {
    match outcome {
        SubmitOutcome::Accepted { ranks, achievements_unlocked, .. } => seq![
            (Tone::Accent, "✓ Submitted"@),
        ] + rank_lines(ranks@) + unlocked_lines(achievements_unlocked@),
        SubmitOutcome::DuplicateNoChange { .. } => seq![
            (Tone::Dim, "Already submitted (no change)"@),
        ],
        SubmitOutcome::Rejected { status, reason } => seq![
            (Tone::Hot, "✗ Rejected ("@ + decimal(status as nat) + ")"@),
            (Tone::Dim, reason@),
        ],
        SubmitOutcome::Transient { reason } => seq![
            (Tone::Warn, "Network failure — queued for retry on next launch"@),
            (Tone::Dim, reason@),
        ],
        SubmitOutcome::FlaggedForReview {
            review_id,
            local_path,
            original_status,
            original_reason,
        } => seq![(Tone::Accent, "✓ Flagged for review"@)] + (match review_id {
            Some(id) => seq![
                (Tone::Bright, "Backend review_id:  "@ + id@),
                (Tone::Dim, "Uploaded to the admin review queue + saved locally."@),
            ],
            None => seq![
                (Tone::Warn, "Upload failed — saved locally for manual collection."@),
            ],
        }) + seq![
            (Tone::Dim, "Local copy:  "@ + local_path@),
            (Tone::Dim, "Original error (sent with the review):"@),
            (Tone::Hot, "HTTP "@ + decimal(original_status as nat)),
            (Tone::Dim, original_reason@),
        ],
    }
}

fn push_ranks(lines: &mut Vec<Line>, ranks: &Vec<RankEntry>)
    ensures
        line_views(final(lines)@) == line_views(old(lines)@) + rank_lines(ranks@),
{
    let ghost before = line_views(lines@);
    let ghost all = rank_lines(ranks@);
    if ranks.len() == 0 {
        push_line(lines, Tone::Dim, "Awaiting rank computation…".to_owned());
        assert(line_views(lines@) =~= before + all);
        return;
    }
    let mut i: usize = 0;
    assert(before + all.take(0) =~= before);
    while i < ranks.len()
        invariant
            i <= ranks.len(),
            ranks.len() > 0,
            all == rank_lines(ranks@),
            line_views(lines@) == before + all.take(i as int),
        decreases ranks.len() - i,
    {
        let rank = &ranks[i];
        let place = decimal_string(rank.rank);
        let size = decimal_string(rank.bucket_size);
        let rest = cat2(rank.bracket.as_str(), ")");
        let text = cat8(
            "  Rank #",
            place.as_str(),
            " of ",
            size.as_str(),
            " (",
            rank.category.as_str(),
            " / ",
            rest.as_str(),
        );
        push_line(lines, Tone::Bright, text);
        assert(line_views(lines@) =~= before + all.take(i + 1));
        i = i + 1;
    }
    assert(all.take(i as int) =~= all);
}

fn push_unlocked(lines: &mut Vec<Line>, names: &Vec<String>)
    ensures
        line_views(final(lines)@) == line_views(old(lines)@) + unlocked_lines(names@),
{
    let ghost before = line_views(lines@);
    let ghost all = unlocked_lines(names@);
    let mut i: usize = 0;
    assert(before + all.take(0) =~= before);
    while i < names.len()
        invariant
            i <= names.len(),
            all == unlocked_lines(names@),
            line_views(lines@) == before + all.take(i as int),
        decreases names.len() - i,
    {
        push_line(lines, Tone::Accent, cat2("  🏆 ", names[i].as_str()));
        assert(line_views(lines@) =~= before + all.take(i + 1));
        i = i + 1;
    }
    assert(all.take(i as int) =~= all);
}

/// The answer: the lines that tell it, the page to link to, and whether it can be sent to be
/// looked at.
pub struct AnswerView {
    pub lines: Vec<Line>,
    pub profile_url: Option<String>,
    pub review_offered: bool,
}

/// The answer.
pub fn answer_view(outcome: &SubmitOutcome) -> (r: AnswerView)
    ensures
        line_views(r.lines@) == outcome_lines(*outcome),
        match *outcome {
            SubmitOutcome::Accepted { profile_url: Some(url), .. } => (r.profile_url matches Some(
                link,
            ) && link@ == url@),
            _ => r.profile_url is None,
        },
        r.review_offered == (*outcome is Rejected),
{
    let mut lines: Vec<Line> = Vec::new();
    let mut link: Option<String> = None;
    let mut review_offered = false;
    assert(line_views(lines@) =~= Seq::<(Tone, Seq<char>)>::empty());
    match outcome {
        SubmitOutcome::Accepted { ranks, achievements_unlocked, profile_url, .. } => {
            push_line(&mut lines, Tone::Accent, "✓ Submitted".to_owned());
            push_ranks(&mut lines, ranks);
            push_unlocked(&mut lines, achievements_unlocked);
            if let Some(url) = profile_url {
                link = Some(url.clone());
            }
        },
        SubmitOutcome::DuplicateNoChange { .. } => {
            push_line(&mut lines, Tone::Dim, "Already submitted (no change)".to_owned());
        },
        SubmitOutcome::Rejected { status, reason } => {
            review_offered = true;
            let code = decimal_string(*status as u64);
            push_line(&mut lines, Tone::Hot, cat3("✗ Rejected (", code.as_str(), ")"));
            push_line(&mut lines, Tone::Dim, reason.clone());
        },
        SubmitOutcome::Transient { reason } => {
            push_line(
                &mut lines,
                Tone::Warn,
                "Network failure — queued for retry on next launch".to_owned(),
            );
            push_line(&mut lines, Tone::Dim, reason.clone());
        },
        SubmitOutcome::FlaggedForReview {
            review_id,
            local_path,
            original_status,
            original_reason,
        } => {
            push_line(&mut lines, Tone::Accent, "✓ Flagged for review".to_owned());
            match review_id {
                Some(id) => {
                    push_line(&mut lines, Tone::Bright, cat2("Backend review_id:  ", id.as_str()));
                    push_line(
                        &mut lines,
                        Tone::Dim,
                        "Uploaded to the admin review queue + saved locally.".to_owned(),
                    );
                },
                None => {
                    push_line(
                        &mut lines,
                        Tone::Warn,
                        "Upload failed — saved locally for manual collection.".to_owned(),
                    );
                },
            }
            push_line(&mut lines, Tone::Dim, cat2("Local copy:  ", local_path.as_str()));
            push_line(
                &mut lines,
                Tone::Dim,
                "Original error (sent with the review):".to_owned(),
            );
            let code = decimal_string(*original_status as u64);
            push_line(&mut lines, Tone::Hot, cat2("HTTP ", code.as_str()));
            push_line(&mut lines, Tone::Dim, original_reason.clone());
        },
    }
    assert(line_views(lines@) =~= outcome_lines(*outcome));
    AnswerView { lines, profile_url: link, review_offered }
}

/// What the preview shows: what would be submitted, or why there is nothing.
pub fn preview_body(payload: Option<&str>) -> (r: String)
    ensures
        r@ == (match payload {
            Some(text) => text@,
            None => "(payload not yet built — run a scan first)"@,
        }),
{
    match payload {
        Some(text) => text.to_owned(),
        None => "(payload not yet built — run a scan first)".to_owned(),
    }
}

/// What a click can ask for: to submit or skip only where the offer is shown, the preview from the
/// offer and from the answer, its end from the preview, a review only of a refused answer, and the
/// end only of an answer. While a submission is on its way, and while the window is hidden, there
/// is nothing to click.
pub proof fn clicks_are_offered_where_they_belong(flow: ScanCompleteFlow)
    ensures
        ({
            let ready = flow.state == ScanCompleteState::Ready;
            let done = flow.state == ScanCompleteState::Done;
            &&& is_offered(flow, ScanCompleteAction::Submit) <==> ready
            &&& is_offered(flow, ScanCompleteAction::Skip) <==> ready
            &&& is_offered(flow, ScanCompleteAction::AutoSubmit) <==> ready
            &&& is_offered(flow, ScanCompleteAction::OpenPreview) <==> ready || done
            &&& is_offered(flow, ScanCompleteAction::ClosePreview) <==> flow.state
                == ScanCompleteState::Preview
            &&& is_offered(flow, ScanCompleteAction::SubmitForReview) <==> done && flow.rejected
            &&& is_offered(flow, ScanCompleteAction::Close) <==> done
        }),
{
}

/// Where a click leads: submitting sends the scan on its way, skipping and closing hide the
/// window, the preview remembers what it was opened from and goes back there.
pub proof fn clicks_lead_where_they_say(flow: ScanCompleteFlow)
    ensures
        flow.state == ScanCompleteState::Ready ==> {
            &&& after_action(flow, ScanCompleteAction::Submit).state == ScanCompleteState::Submitting
            &&& after_action(flow, ScanCompleteAction::AutoSubmit).state
                == ScanCompleteState::Submitting
            &&& after_action(flow, ScanCompleteAction::Skip).state == ScanCompleteState::Hidden
            &&& after_action(flow, ScanCompleteAction::OpenPreview).state == ScanCompleteState::Preview
            &&& after_action(flow, ScanCompleteAction::OpenPreview).behind_preview
                == ScanCompleteState::Ready
        },
        flow.state == ScanCompleteState::Done ==> {
            &&& after_action(flow, ScanCompleteAction::Close).state == ScanCompleteState::Hidden
            &&& after_action(flow, ScanCompleteAction::OpenPreview).state == ScanCompleteState::Preview
            &&& after_action(flow, ScanCompleteAction::OpenPreview).behind_preview
                == ScanCompleteState::Done
            &&& after_action(flow, ScanCompleteAction::SubmitForReview) == flow
        },
        flow.state == ScanCompleteState::Preview ==> after_action(
            flow,
            ScanCompleteAction::ClosePreview,
        ).state == flow.behind_preview,
        flow.state == ScanCompleteState::Submitting || flow.state == ScanCompleteState::Hidden
            ==> forall|action: ScanCompleteAction| #[trigger] after_action(flow, action) == flow,
{
}

/// An answer to a submission on its way is shown, and whether it was a refusal is kept; the offer
/// and a hidden window take no answer.
pub proof fn answers_are_shown(flow: ScanCompleteFlow, rejected: bool)
    ensures
        flow.state == ScanCompleteState::Submitting ==> after_answer(flow, rejected).state
            == ScanCompleteState::Done && after_answer(flow, rejected).rejected == rejected,
        flow.state == ScanCompleteState::Done ==> after_answer(flow, rejected).state
            == ScanCompleteState::Done && after_answer(flow, rejected).rejected == rejected,
        flow.state == ScanCompleteState::Ready || flow.state == ScanCompleteState::Hidden ==> after_answer(
            flow,
            rejected,
        ) == flow,
        flow.state == ScanCompleteState::Preview ==> after_answer(flow, rejected).state
            == ScanCompleteState::Preview && after_answer(flow, rejected).behind_preview
            == flow.behind_preview,
{
}

/// A scan is submitted without a question only where that was opted into, nothing is submitted and
/// nothing asked where that was chosen, and everyone else is asked.
pub proof fn only_who_opted_in_is_not_asked(share: ShareDefault)
    ensures
        after_scan(share) == AfterScan::SubmitSilently <==> share == ShareDefault::AutoOptIn,
        after_scan(share) == AfterScan::Nothing <==> share == ShareDefault::Never,
        after_scan(share) == AfterScan::Ask <==> share == ShareDefault::AlwaysAsk || share
            == ShareDefault::AskNThenSticky,
{
}

/// The badges that count are those that were granted, each once.
pub proof fn granted_badges_are_counted(grants: Seq<ProfileGrant>)
    ensures
        granted_rows(grants) == grants.filter(|g: ProfileGrant| g.granted).len(),
    decreases grants.len(),
{
    reveal(Seq::filter);
    if grants.len() > 0 {
        granted_badges_are_counted(grants.drop_last());
    }
}

/// Three digits stand behind each comma, and none stands before a number below a thousand.
pub proof fn commas_part_thousands(high: nat, low: nat)
    requires
        low < 1000,
    ensures
        high > 0 ==> thousands(1000 * high + low) == thousands(high) + ","@ + padded(low, 3),
        thousands(low) == decimal(low),
{
    assert((1000 * high + low) / 1000 == high);
    assert((1000 * high + low) % 1000 == low);
}

/// An accepted submission has a line for each rank and each badge it unlocked, in order and behind
/// the first line, and a line for the wait where there is no rank yet.
pub proof fn accepted_submissions_tell_all(
    id: String,
    ranks: Vec<RankEntry>,
    unlocked: Vec<String>,
    url: Option<String>,
    k: int,
)
    ensures
        ({
            let lines = outcome_lines(
                SubmitOutcome::Accepted {
                    submission_id: id,
                    ranks,
                    achievements_unlocked: unlocked,
                    profile_url: url,
                },
            );
            let told: int = if ranks@.len() == 0 {
                1
            } else {
                ranks@.len() as int
            };
            &&& lines.len() == 1 + told + unlocked@.len()
            &&& 0 <= k < ranks@.len() ==> lines[1 + k] == (
                Tone::Bright,
                "  Rank #"@ + decimal(ranks@[k].rank as nat) + " of "@ + decimal(
                    ranks@[k].bucket_size as nat,
                ) + " ("@ + ranks@[k].category@ + " / "@ + (ranks@[k].bracket@ + ")"@),
            )
            &&& 0 <= k < unlocked@.len() ==> lines[1 + told + k] == (
                Tone::Accent,
                "  🏆 "@ + unlocked@[k]@,
            )
        }),
{
}

/// A refusal is told with its status and its reason, a failed attempt with its reason.
pub proof fn failures_tell_their_reason(status: u16, reason: String)
    ensures
        outcome_lines(SubmitOutcome::Rejected { status, reason }) == seq![
            (Tone::Hot, "✗ Rejected ("@ + decimal(status as nat) + ")"@),
            (Tone::Dim, reason@),
        ],
        outcome_lines(SubmitOutcome::Transient { reason }).len() == 2,
        outcome_lines(SubmitOutcome::Transient { reason })[1] == (Tone::Dim, reason@),
{
}

/// The invitation to sign in tells how many badges there are to keep, where there are any.
pub proof fn invitations_count_the_badges(granted: nat)
    ensures
        granted > 0 ==> signin_copy(granted) == "Sign in to keep your progress (you have earned "@
            + decimal(granted) + " badges)"@,
        granted == 0 ==> signin_copy(granted) == "Sign in to start your collection."@,
{
}

/// A hidden window knows nothing of the last submission, and skipping and closing hide it so.
pub proof fn hidden_windows_know_nothing(flow: ScanCompleteFlow)
    ensures
        hidden_flow().state == ScanCompleteState::Hidden,
        hidden_flow().behind_preview == ScanCompleteState::Hidden,
        !hidden_flow().rejected,
        flow.state == ScanCompleteState::Ready ==> !after_action(flow, ScanCompleteAction::Skip).rejected,
        flow.state == ScanCompleteState::Done ==> !after_action(flow, ScanCompleteAction::Close).rejected,
{
}

/// An answer that comes while the preview of an answered submission is open is kept for it; the
/// preview of an offer takes none.
pub proof fn previews_take_answers_of_their_own(flow: ScanCompleteFlow, rejected: bool)
    requires
        flow.state == ScanCompleteState::Preview,
    ensures
        flow.behind_preview == ScanCompleteState::Done ==> after_answer(flow, rejected).rejected
            == rejected,
        flow.behind_preview != ScanCompleteState::Done ==> after_answer(flow, rejected) == flow,
{
}

} // verus!
