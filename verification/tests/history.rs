use superdeduper::gui::lines::Tone;
use superdeduper::gui::widgets::oauth_chooser::{
    answer, close, is_open, open, provider_label, start_link, Chooser, ChooserClick,
};
use superdeduper::gui::widgets::resubmit_prompt_modal::{prompt_texts, ResubmitPromptChoice};
use superdeduper::gui::widgets::scan_complete_modal::{
    answer_view, preview_body, signin_stage, signin_toast_line, stat_texts, AfterScan,
    ScanCompleteAction, ScanCompleteFlow, ScanCompleteState, SigninStage,
};
use superdeduper::gui::widgets::scan_history_panel::{
    action_breakdown_tooltip, dismiss_banner, history_head, press_delete, press_resubmit, record_row,
    resubmit_cell, scope_short, status_cell, store_inline_error, store_last_outcome,
    trash_action_verb, ActionBytes, HistoryHead, LastOutcome, ReclaimedCell, ResubmitCell, RowAction,
    ScanRecord, SubmissionState,
};
use superdeduper::gui::Desktop;
use superdeduper::leaderboard::catalog::CatalogState;
use superdeduper::leaderboard::install::ShareDefault;
use superdeduper::leaderboard::oauth::{AccountStatus, OauthToast, Provider, SessionSnapshot};
use superdeduper::leaderboard::submission::{RankEntry, SubmitOutcome};

fn record(id: &str, state: SubmissionState) -> ScanRecord {
    ScanRecord {
        scan_id: id.to_string(),
        started_at_unix: 1_704_067_200,
        roots: vec!["/home".to_string(), "/srv".to_string()],
        total_files: 15_300,
        total_dups: 12,
        reclaimable_bytes: 2048,
        actually_reclaimed_bytes: 0,
        reclaim_at_unix: None,
        reclaim_updated_at_unix: None,
        action_breakdown: Vec::new(),
        submission_state: state,
        has_payload: true,
        attempt_count: 0,
        last_attempt_at_unix: None,
        submission_channel: None,
        channel: "prod".to_string(),
    }
}

fn accepted() -> SubmitOutcome {
    SubmitOutcome::Accepted {
        submission_id: "s1".to_string(),
        ranks: vec![RankEntry {
            rank: 3,
            category: "speed".to_string(),
            bracket: "ssd".to_string(),
            bucket_size: 40,
        }],
        achievements_unlocked: vec!["Brisk".to_string()],
        profile_url: Some("https://x/p".to_string()),
    }
}

fn rejected() -> SubmitOutcome {
    SubmitOutcome::Rejected {
        status: 422,
        reason: "bad".to_string(),
    }
}

#[test]
fn rows_show_when_what_and_how_much() {
    let mut r = record("a", SubmissionState::Pending);
    let row = record_row(&r, None, Desktop::Linux);
    assert_eq!(row.date, "2024-01-01 00:00");
    assert_eq!(row.files, "15.3k");
    assert_eq!(row.duplicates, "12 groups · 2 KiB");
    assert_eq!(row.scope, "/home +1 more");
    assert_eq!(row.scope_hover.as_deref(), Some("/home\n/srv"));
    assert!(matches!(row.reclaimed, ReclaimedCell::ScanOnly(_)));
    r.actually_reclaimed_bytes = 1024;
    r.reclaim_at_unix = Some(0);
    r.action_breakdown = vec![ActionBytes { key: "archived_bytes".to_string(), bytes: 1024 }];
    assert_eq!(
        action_breakdown_tooltip(&r, Desktop::Linux),
        "Reclaim landed: 1970-01-01 00:00\n\n  Archive: 1 KiB"
    );
    assert!(matches!(
        record_row(&r, None, Desktop::Linux).reclaimed,
        ReclaimedCell::Freed(text, _) if text == "♻ 1 KiB"
    ));
    assert_eq!(scope_short(&Vec::new()), "(no roots)");
    assert_eq!(trash_action_verb(Desktop::MacOs), "Trash");
    assert_eq!(trash_action_verb(Desktop::Windows), "Recycle");
}

#[test]
fn one_resubmission_runs_at_a_time() {
    let r = record("a", SubmissionState::Pending);
    assert!(matches!(press_resubmit(&r, None), Some(RowAction::Resubmit(id)) if id == "a"));
    assert!(press_resubmit(&r, Some("b")).is_none());
    assert!(matches!(resubmit_cell(&r, Some("a")), ResubmitCell::Submitting("Submitting…")));
    assert!(matches!(press_delete(&r), RowAction::Delete(id) if id == "a"));
}

#[test]
fn only_open_rows_are_resubmitted() {
    assert!(press_resubmit(&record("a", SubmissionState::Submitted), None).is_none());
    let mut old = record("a", SubmissionState::Failed);
    assert!(press_resubmit(&old, None).is_some());
    old.has_payload = false;
    assert!(press_resubmit(&old, None).is_none());
    assert_eq!(status_cell(&record("a", SubmissionState::Submitted)).text, "✓ submitted");
    assert_eq!(status_cell(&record("a", SubmissionState::Failed)).text, "⚠ failed");
    assert_eq!(status_cell(&record("a", SubmissionState::Interrupted)).text, "🛑 interrupted");
    assert_eq!(status_cell(&record("a", SubmissionState::Pending)).text, "⏳ pending");
}

#[test]
fn the_head_counts_the_scans() {
    let one: Result<Vec<ScanRecord>, String> = Ok(vec![record("a", SubmissionState::Pending)]);
    assert!(matches!(history_head(&one), HistoryHead::Count(text) if text.contains("1 past scan")));
    assert!(matches!(history_head(&Ok(Vec::new())), HistoryHead::Empty("No scans yet", _)));
    assert!(matches!(
        history_head(&Err("io".to_string())),
        HistoryHead::Unreadable(text) if text == "Couldn't read scan history: io"
    ));
}

#[test]
fn outcomes_are_told_until_dismissed() {
    let mut banner: Option<LastOutcome> = None;
    for (outcome, text, tone) in [
        (accepted(), "Resubmit accepted (s1).", Tone::Cool),
        (rejected(), "Resubmit rejected (422): bad", Tone::Hot),
    ] {
        store_last_outcome(&mut banner, "a".to_string(), &outcome);
        let b = banner.as_ref().unwrap();
        assert_eq!(b.message, text);
        assert_eq!(b.tone, tone);
    }
    store_inline_error(&mut banner, "a".to_string(), "no key");
    assert_eq!(banner.as_ref().unwrap().message, "Couldn't start resubmit: no key");
    dismiss_banner(&mut banner);
    assert!(banner.is_none());
}

fn flow(state: ScanCompleteState) -> ScanCompleteFlow {
    ScanCompleteFlow {
        state,
        behind_preview: ScanCompleteState::Ready,
        rejected: false,
    }
}

#[test]
fn finished_scans_ask_as_the_user_chose() {
    for (share, wanted) in [
        (ShareDefault::AlwaysAsk, "Ask"),
        (ShareDefault::AutoOptIn, "SubmitSilently"),
        (ShareDefault::Never, "Nothing"),
    ] {
        let mut f = flow(ScanCompleteState::Hidden);
        let after = f.scan_finished(share);
        let name = match after {
            AfterScan::Ask => "Ask",
            AfterScan::SubmitSilently => "SubmitSilently",
            AfterScan::Nothing => "Nothing",
        };
        assert_eq!(name, wanted);
        assert_eq!(f.state == ScanCompleteState::Ready, wanted == "Ask");
    }
}

#[test]
fn previews_go_back_where_they_came_from() {
    let mut f = flow(ScanCompleteState::Hidden);
    f.scan_finished(ShareDefault::AlwaysAsk);
    assert!(f.offers(ScanCompleteAction::OpenPreview));
    assert!(f.act(ScanCompleteAction::OpenPreview));
    assert_eq!(f.state, ScanCompleteState::Preview);
    assert!(f.act(ScanCompleteAction::ClosePreview));
    assert_eq!(f.state, ScanCompleteState::Ready);
}

#[test]
fn only_refusals_can_be_reviewed() {
    let mut f = flow(ScanCompleteState::Hidden);
    f.scan_finished(ShareDefault::AlwaysAsk);
    assert!(!f.offers(ScanCompleteAction::SubmitForReview));
    assert!(f.act(ScanCompleteAction::Submit));
    assert_eq!(f.state, ScanCompleteState::Submitting);
    assert!(!f.act(ScanCompleteAction::Submit));
    f.answered(&rejected());
    assert_eq!(f.state, ScanCompleteState::Done);
    assert!(f.offers(ScanCompleteAction::SubmitForReview));
    let mut g = flow(ScanCompleteState::Hidden);
    g.scan_finished(ShareDefault::AlwaysAsk);
    g.act(ScanCompleteAction::Submit);
    g.answered(&accepted());
    assert!(!g.offers(ScanCompleteAction::SubmitForReview));
    assert!(g.act(ScanCompleteAction::Close));
    assert_eq!(g.state, ScanCompleteState::Hidden);
}

#[test]
fn answers_become_lines() {
    let view = answer_view(&accepted());
    let texts: Vec<&str> = view.lines.iter().map(|l| l.text.as_str()).collect();
    assert_eq!(texts[0], "✓ Submitted");
    assert!(texts.contains(&"  Rank #3 of 40 (speed / ssd)"));
    assert!(texts.contains(&"  🏆 Brisk"));
    assert_eq!(view.profile_url.as_deref(), Some("https://x/p"));
    assert!(!view.review_offered);
    let no = answer_view(&rejected());
    assert_eq!(no.lines[0].text, "✗ Rejected (422)");
    assert!(no.review_offered);
    let flagged = answer_view(&SubmitOutcome::FlaggedForReview {
        review_id: None,
        local_path: "/l".to_string(),
        original_status: 500,
        original_reason: "boom".to_string(),
    });
    assert!(flagged
        .lines
        .iter()
        .any(|l| l.text == "Upload failed — saved locally for manual collection." && l.tone == Tone::Warn));
    assert_eq!(
        answer_view(&SubmitOutcome::Transient { reason: "dns".to_string() }).lines[0].text,
        "Network failure — queued for retry on next launch"
    );
    assert_eq!(preview_body(None), "(payload not yet built — run a scan first)");
    assert_eq!(preview_body(Some("{}")), "{}");
}

#[test]
fn stats_are_grouped_by_thousands() {
    let s = stat_texts(1536, 412_998, 7);
    assert_eq!(s.reclaimable, "1.50 KiB");
    assert_eq!(s.files, "412,998");
    assert_eq!(s.groups, "7");
}

#[test]
fn signing_in_is_offered_to_the_anonymous() {
    let state = CatalogState { catalog: None, profile: None };
    let linked = Some(AccountStatus::Linked {
        provider: Provider::Google,
        display_name: "Ann".to_string(),
    });
    assert!(matches!(signin_stage(&linked, None, None, &state), SigninStage::Nothing));
    assert!(matches!(
        signin_stage(&Some(AccountStatus::Anonymous), None, None, &state),
        SigninStage::Offer(text) if text == "Sign in to start your collection."
    ));
    let session = SessionSnapshot { provider: Provider::Discord, elapsed_secs: 4 };
    assert!(matches!(
        signin_stage(&Some(AccountStatus::Anonymous), None, Some(session), &state),
        SigninStage::Waiting(text) if text == "Waiting for Discord sign-in (4s)…"
    ));
    assert_eq!(
        signin_toast_line(&OauthToast::Failure { reason: "no".to_string() }),
        "⚠ Sign-in failed: no"
    );
}

#[test]
fn the_chooser_closes_with_an_answer() {
    let mut chooser = Chooser { shown: false };
    assert!(!is_open(&chooser));
    open(&mut chooser);
    assert!(is_open(&chooser));
    assert_eq!(answer(&mut chooser, ChooserClick::Pick(Provider::Google)), Some(Provider::Google));
    assert!(!is_open(&chooser));
    open(&mut chooser);
    assert_eq!(answer(&mut chooser, ChooserClick::Cancel), None);
    assert!(!is_open(&chooser));
    open(&mut chooser);
    close(&mut chooser);
    assert!(!is_open(&chooser));
    assert_eq!(provider_label(Provider::Discord), "Sign in with Discord");
    let known = start_link(Provider::Google, Some("id-1".to_string()));
    assert_eq!(known.session_id, "id-1");
    assert!(!known.start_register);
    let fresh = start_link(Provider::Google, None);
    assert!(fresh.start_register);
    assert_eq!(fresh.pending_retry, Some(Provider::Google));
}

#[test]
fn pending_submissions_are_listed_up_to_five() {
    let mut rows = vec![record("a", SubmissionState::Pending)];
    let one = prompt_texts(&rows);
    assert_eq!(one.title, "1 pending submission from prior session");
    assert_eq!(
        one.rows,
        vec!["• 2024-01-01 00:00 — 2 root(s), 12 group(s), channel prod".to_string()]
    );
    assert!(one.more.is_none());
    rows[0].submission_channel = Some("dev".to_string());
    assert!(prompt_texts(&rows).rows[0].ends_with("channel dev"));
    for i in 0..6 {
        rows.push(record(&i.to_string(), SubmissionState::Pending));
    }
    let many = prompt_texts(&rows);
    assert_eq!(many.title, "7 pending submissions from prior sessions");
    assert_eq!(many.rows.len(), 5);
    assert_eq!(many.more.as_deref(), Some("  + 2 more…"));
    assert_ne!(ResubmitPromptChoice::ResubmitAll, ResubmitPromptChoice::NotNow);
}

#[test]
fn the_answer_to_a_review_takes_the_offer_away() {
    let mut f = flow(ScanCompleteState::Hidden);
    f.scan_finished(ShareDefault::AlwaysAsk);
    f.act(ScanCompleteAction::Submit);
    f.answered(&rejected());
    assert!(f.act(ScanCompleteAction::SubmitForReview));
    f.answered(&accepted());
    assert_eq!(f.state, ScanCompleteState::Done);
    assert!(!f.offers(ScanCompleteAction::SubmitForReview));
    f.answered(&rejected());
    assert!(f.offers(ScanCompleteAction::SubmitForReview));
}

#[test]
fn answers_reach_a_window_behind_its_preview() {
    let mut f = ScanCompleteFlow {
        state: ScanCompleteState::Preview,
        behind_preview: ScanCompleteState::Done,
        rejected: true,
    };
    f.answered(&accepted());
    assert_eq!(f.state, ScanCompleteState::Preview);
    assert!(!f.rejected);
    let mut g = flow(ScanCompleteState::Preview);
    g.answered(&rejected());
    assert!(!g.rejected);
}
