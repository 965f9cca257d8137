use superdeduper::gui::widgets::bench_modal::{
    bench_finish, consent_texts, credentials_failure, deep_link, hashed_size, install_step,
    lane_labels, link_outcome, linking_view, must_persist_lane, rank_lines, register_failure,
    user_tiers, BenchLane, BenchOutcome, BenchUiState, InstallStep, LinkStatus, LinkingView, Phase,
};
use superdeduper::leaderboard::oauth::Provider;
use superdeduper::leaderboard::submission::{RankEntry, SubmitOutcome};

fn opened() -> BenchUiState {
    let mut s = BenchUiState::default();
    assert!(!s.core.open);
    s.open(None);
    s
}

fn rank() -> RankEntry {
    RankEntry {
        rank: 1,
        category: "speed".to_string(),
        bracket: "ssd".to_string(),
        bucket_size: 7,
    }
}

#[test]
fn nothing_runs_before_the_consent() {
    let mut s = opened();
    assert_eq!(s.core.phase, Phase::Lane);
    assert!(s.start(true).is_none());
    assert!(!s.choose_ranked(LinkStatus::Linked));
    assert_eq!(s.core.phase, Phase::Consent);
    let run = s.start(true).expect("a run");
    assert!(run.submit);
    assert_eq!(run.lane, Some(BenchLane::Ranked));
    assert_eq!(run.tier.tier, "quick");
    assert_eq!(s.core.phase, Phase::Running);
    assert!(s.start(true).is_none());
}

#[test]
fn the_ranked_lane_signs_in_first() {
    let mut s = opened();
    assert!(s.choose_ranked(LinkStatus::Anonymous));
    assert_eq!(s.core.phase, Phase::Linking);
    assert!(matches!(linking_view(&s), LinkingView::Waiting(_)));
    s.shared.linking_url_fallback = Some("https://x".to_string());
    assert!(matches!(linking_view(&s), LinkingView::Manual(_, url, _) if url == "https://x"));
    s.shared.linking_done = Some(Err("Sign-in failed: denied".to_string()));
    s.poll_link();
    assert_eq!(s.core.phase, Phase::Linking);
    assert!(matches!(
        linking_view(&s),
        LinkingView::Failed(text, _) if text == "Sign-in failed: denied"
    ));
    assert!(s.retry_link());
    assert!(!s.retry_link());
    s.shared.linking_done = Some(Ok("Ann (Google)".to_string()));
    s.poll_link();
    assert_eq!(s.core.phase, Phase::Consent);
    assert_eq!(s.core.lane, Some(BenchLane::Ranked));
}

#[test]
fn an_unreadable_status_can_be_retried() {
    let mut s = opened();
    assert!(!s.choose_ranked(LinkStatus::Unreadable("io".to_string())));
    assert_eq!(
        s.linking_error.as_deref(),
        Some("Couldn't read sign-in status: io. Try again, or pick Casual.")
    );
    s.choose_casual();
    assert_eq!(s.core.phase, Phase::Consent);
    assert_eq!(s.core.lane, Some(BenchLane::Casual));
    assert!(s.linking_error.is_none());
}

#[test]
fn a_cancelled_run_submits_nothing() {
    let mut s = opened();
    s.choose_casual();
    s.start(false).expect("a run");
    s.set_status("hashing".to_string());
    assert_eq!(s.shared.status, "hashing");
    s.cancel();
    assert!(s.core.cancel);
    assert!(s.core.open);
    let end = bench_finish(BenchOutcome::Cancelled, "https://f", s.core.lane);
    assert!(!end.submitted);
    assert_eq!(end.result, "Cancelled — nothing was submitted.");
    s.finish(end);
    s.poll_run();
    assert_eq!(s.core.phase, Phase::Done);
    s.run_again(Some(BenchLane::Casual));
    assert_eq!(s.core.phase, Phase::Lane);
    assert!(!s.default_is_ranked());
    s.cancel();
    assert!(!s.core.open);
    s.toggle_share_preview();
    assert!(s.core.show_share_preview);
    s.close_window();
    assert!(s.core.cancel);
}

fn finished(submit: Option<SubmitOutcome>) -> BenchOutcome {
    BenchOutcome::Finished {
        seconds: "12.3".to_string(),
        bytes_scanned: 2_147_483_648,
        dup_groups: 5,
        submit,
        written_out: "You ranked #1.".to_string(),
    }
}

#[test]
fn results_link_to_the_entry() {
    let local = bench_finish(finished(None), "https://f", None);
    assert_eq!(
        local.result,
        "Deduped the test corpus in 12.3s — hashed 2.00 GB of duplicate candidates, 5 groups.\nRan locally — not submitted."
    );
    assert!(!local.submitted && local.deep_link.is_none());
    let won = bench_finish(
        finished(Some(SubmitOutcome::Accepted {
            submission_id: "s9".to_string(),
            ranks: vec![rank()],
            achievements_unlocked: Vec::new(),
            profile_url: None,
        })),
        "https://f",
        Some(BenchLane::Casual),
    );
    assert!(won.submitted && !won.is_error);
    assert_eq!(
        won.deep_link.as_deref(),
        Some("https://f/leaderboard?tab=casual&highlight=s9")
    );
    assert_eq!(won.ranks.len(), 1);
    let no = bench_finish(
        finished(Some(SubmitOutcome::Rejected { status: 400, reason: "x".to_string() })),
        "https://f",
        None,
    );
    assert!(no.is_error);
    assert!(no.result.ends_with("Not accepted (status 400): x"));
    let failed = bench_finish(BenchOutcome::Failed("disk".to_string()), "https://f", None);
    assert_eq!(failed.result, "Benchmark failed: disk");
    assert_eq!(
        deep_link("https://f", None, "s1"),
        "https://f/leaderboard?tab=ranked&highlight=s1"
    );
}

#[test]
fn texts_match_the_choice() {
    let s = opened();
    assert_eq!(user_tiers().len(), 1);
    assert!(lane_labels(&s).ranked.starts_with("● "));
    assert!(!lane_labels(&s).casual.starts_with("● "));
    assert!(consent_texts(&s).download.contains("~2.4 GB"));
    assert!(must_persist_lane(None, BenchLane::Casual));
    assert!(!must_persist_lane(Some(BenchLane::Casual), BenchLane::Casual));
    assert_eq!(BenchLane::Ranked.as_slug(), "ranked");
    assert_eq!(
        rank_lines(&vec![rank()]),
        vec!["Rank: #1 of 7 in speed / ssd".to_string()]
    );
    assert_eq!(rank_lines(&Vec::new()).len(), 1);
    assert_eq!(hashed_size(5_242_880), "5 MB");
}

#[test]
fn installs_are_made_where_there_are_none() {
    assert!(matches!(install_step(Ok(Some(true))), Ok(InstallStep::Use)));
    assert!(matches!(install_step(Ok(Some(false))), Ok(InstallStep::Register)));
    assert!(matches!(install_step(Ok(None)), Ok(InstallStep::CreateAndRegister)));
    assert!(matches!(
        install_step(Err("eof".to_string())),
        Err(text) if text == "Install state error: eof"
    ));
    assert_eq!(register_failure("net"), "Couldn't register this install: net");
    assert!(credentials_failure(true, true).is_none());
    assert_eq!(
        credentials_failure(false, true),
        Some("Install not registered; run `superdeduper register` first.")
    );
    assert_eq!(
        credentials_failure(true, false),
        Some("Install key malformed; re-register.")
    );
    assert!(matches!(
        link_outcome(Ok((Provider::Google, "Ann".to_string()))),
        Ok(text) if text == "Ann (Google)"
    ));
    assert!(matches!(
        link_outcome(Err("denied".to_string())),
        Err(text) if text == "Sign-in failed: denied"
    ));
}

#[test]
fn signing_in_keeps_what_the_last_run_told() {
    let mut s = opened();
    s.shared.finished = true;
    s.shared.result = Some("done".to_string());
    s.shared.is_error = true;
    s.shared.submitted = true;
    s.shared.deep_link = Some("https://f/r".to_string());
    s.shared.ranks = vec![rank()];
    s.shared.linking_done = Some(Err("old".to_string()));
    s.shared.linking_url_fallback = Some("https://old".to_string());
    assert!(s.choose_ranked(LinkStatus::Anonymous));
    s.shared.linking_done = Some(Err("Sign-in failed: denied".to_string()));
    s.poll_link();
    assert!(s.retry_link());
    assert!(s.shared.linking_done.is_none());
    assert!(s.shared.linking_url_fallback.is_none());
    assert!(s.shared.finished);
    assert_eq!(s.shared.result.as_deref(), Some("done"));
    assert!(s.shared.is_error);
    assert!(s.shared.submitted);
    assert_eq!(s.shared.deep_link.as_deref(), Some("https://f/r"));
    assert_eq!(s.shared.ranks.len(), 1);
}
