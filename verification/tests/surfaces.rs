use superdeduper::gui::checkpoint::{more_line, root_lines, CheckpointSummary};
use superdeduper::gui::lines::Tone;
use superdeduper::gui::resume_tier::ResumeTier;
use superdeduper::gui::state::RootEntry;
use superdeduper::gui::widgets::action_progress::{progress_texts, truncate_path_left, ActionState};
use superdeduper::gui::widgets::alpha_warning::{AlphaWarning, AlphaWarningChoice};
use superdeduper::gui::widgets::archive_summary_modal::{
    archive_view, closes, ArchiveActionSummary, ArchiveSummaryChoice,
};
use superdeduper::gui::widgets::badge_multiplier_detail::{
    choice, detail_view, AccountBadgeInstall,
};
use superdeduper::gui::widgets::badge_wall::{
    badges_line, ends_row, grid_view, lifetime_reclaimed_human, login_cta, oauth_toast_line,
    tile_action, wall_header, BadgeWallAction, GridView, LoginCta,
};
use superdeduper::gui::widgets::cache_banner::{
    cache_note, compact, human_age, short_volume_name, volume_detail_line, CacheVolumeSummary,
};
use superdeduper::gui::widgets::drive_scope::{
    apply_clicks, badge_label, drive_order, effective_hdd, effective_lcn, lcn_trace, PanelClicks,
    RenderOverrides, SCATTER_RANGE,
};
use superdeduper::gui::widgets::exclusions_safe_defaults_banner::{
    answer as answer_banner, BannerAction, BANNER_HEIGHT,
};
use superdeduper::gui::widgets::funnel::{format_compact, full_bar, stage_hover, survival_line};
use superdeduper::gui::widgets::header::{
    benchmark_hover, build_tag, header_action, pill, settings_hover, status_line, total_texts,
    HeaderAction, HeaderClicks, Totals,
};
use superdeduper::gui::widgets::log_panel::{copy_text, log_counts, log_view, LogEntry, LogLevel};
use superdeduper::gui::widgets::overall_bar::{
    determinate_text, format_eta, indeterminate_text, stage_color, BarColor, OverallStage,
};
use superdeduper::gui::widgets::preflight_modal::{
    button_labels, disk_view, drive_view, empty_note, impact_icon, percent_string,
    recommendation_order, summary_line, target_lines, tone_for_percent, DiskAxis, DriveScore,
    PreflightState, Recommendation, RecommendationImpact,
};
use superdeduper::gui::widgets::resume_modal::{
    human_time_since, resume_label, resume_texts, tier_blurb,
};
use superdeduper::gui::widgets::roots_panel::{
    button_texts, press, root_row, truncate, RootsAction, RootsButton,
};
use superdeduper::gui::widgets::scan_mode_picker::{mode_hint, pick, ScanMode};
use superdeduper::gui::widgets::settings_drift_modal::{effect_of, paused_line, SettingsDriftChoice};
use superdeduper::gui::widgets::settings_modal::engine::HashAlgo;
use superdeduper::gui::widgets::toast::{drop_expired, push, Toast, FADE_NANOS};
use superdeduper::gui::Desktop;
use superdeduper::leaderboard::catalog::{CatalogState, Profile, ProfileLifetime};
use superdeduper::leaderboard::oauth::{AccountStatus, OauthToast, Provider};

fn roots(n: usize) -> Vec<RootEntry> {
    (0..n)
        .map(|i| RootEntry {
            path: format!(r"\\?\C:\r{i}"),
            is_reference: i == 0,
        })
        .collect()
}

#[test]
fn notes_fade_and_do_not_come_back() {
    let t = Toast {
        heading: "h".to_string(),
        lines: Vec::new(),
        spawned_at: 1_000,
        ttl: 2_000_000_000,
    };
    let mut last = FADE_NANOS;
    for now in (0..30u64).map(|i| i * 100_000_000) {
        let visible = t.alpha(now);
        assert!(visible <= last);
        assert_eq!(t.expired(now), visible == 0);
        last = visible;
    }
    assert_eq!(t.alpha(1_000 + 1_600_000_000), 400_000_000);
    let mut q = Vec::new();
    push(&mut q, "old".to_string(), Vec::new(), 5, 0);
    push(&mut q, "new".to_string(), Vec::new(), 500, 0);
    let once = drop_expired(q, 10);
    assert_eq!(once.len(), 1);
    assert_eq!(once[0].heading, "new");
    assert_eq!(drop_expired(once, 10).len(), 1);
}

fn log(level: LogLevel, message: &str) -> LogEntry {
    LogEntry { level, message: message.to_string() }
}

#[test]
fn logs_pin_what_tells_of_a_resume() {
    let mut logs = vec![
        log(LogLevel::Info, "start"),
        log(LogLevel::Warn, "resume diag: cold"),
        log(LogLevel::Error, "bad"),
    ];
    let view = log_view(&logs);
    assert_eq!(view.pinned, vec![1]);
    assert_eq!(view.rest, vec![0, 2]);
    let counts = log_counts(&logs);
    assert_eq!(counts.warnings.as_deref(), Some("1 warn"));
    assert_eq!(counts.errors.as_deref(), Some("1 err"));
    assert_eq!(copy_text(&logs), "info  start\nwarn  resume diag: cold\nerror bad\n");
    for i in 0..600 {
        logs.push(log(LogLevel::Info, &i.to_string()));
    }
    let long = log_view(&logs);
    assert_eq!(long.rest.len(), 500);
    assert_eq!(*long.rest.last().unwrap(), logs.len() - 1);
    assert!(long.rest.windows(2).all(|w| w[0] < w[1]));
    assert!(log_counts(&Vec::new()).warnings.is_none());
}

#[test]
fn remaining_times_are_short() {
    assert_eq!(format_eta(None), "—");
    assert_eq!(format_eta(Some(59)), "59s");
    assert_eq!(format_eta(Some(60)), "1m 00s");
    assert_eq!(format_eta(Some(3_599)), "59m 59s");
    assert_eq!(format_eta(Some(3_660)), "1h 01m");
    assert_eq!(
        determinate_text("Hashing", 5, 10, 50, Some(61)),
        "Hashing  ·  5/10  ·  50%   ETA 1m 01s"
    );
    assert_eq!(indeterminate_text("Inventory", 0), "Inventory");
    assert_eq!(indeterminate_text("Inventory", 7), "Inventory  ·  7 seen");
    assert_eq!(stage_color(OverallStage::Hashing), BarColor::Accent);
    assert_eq!(stage_color(OverallStage::Finishing), BarColor::Rgb(0xfc, 0x53, 0x85));
}

#[test]
fn funnels_are_filled_by_the_largest_stage() {
    assert_eq!(full_bar(&vec![3, 9, 2]), 9);
    assert_eq!(full_bar(&vec![0, 0]), 1);
    assert_eq!(format_compact(999), "999");
    assert_eq!(format_compact(1_500), "1.5k");
    assert_eq!(format_compact(2_345_678), "2.35M");
    assert_eq!(format_compact(7_000_000_000), "7.00B");
    assert_eq!(stage_hover("Inventory", 4), "Inventory: 4 file(s)");
    assert_eq!(
        survival_line(5, 1_000, "0.500").as_deref(),
        Some("Survival ratio:  5 / 1.0k   (0.500%)")
    );
    assert!(survival_line(0, 0, "0.000").is_none());
}

fn volume(guid: &str, records: u64, at: i64) -> CacheVolumeSummary {
    CacheVolumeSummary {
        volume_guid: guid.to_string(),
        record_count: records,
        captured_at_unix: at,
    }
}

#[test]
fn kept_inventories_are_announced() {
    let one = vec![volume(r"\\?\Volume{0123456789}\", 1_500, 1_000)];
    let note = cache_note(&one, false, 1_120).unwrap();
    assert_eq!(note.detail, " — 2k files cached, captured 2 min ago.");
    assert!(note.volumes.is_empty());
    assert!(cache_note(&one, true, 1_120).is_none());
    assert!(cache_note(&Vec::new(), false, 1_120).is_none());
    let two = vec![
        volume(r"\\?\Volume{0123456789}\", 500, 100_000),
        volume(r"\\?\Volume{abcdefabc}\", 1_500_000, 10_000),
    ];
    let many = cache_note(&two, false, 110_000).unwrap();
    assert_eq!(many.detail, " — 1.5M files across 2 volumes, oldest 1 d ago.");
    assert_eq!(
        many.volumes[0],
        "  • volume 01234567 — 500 files, captured 2 h ago"
    );
    assert_eq!(volume_detail_line(&two[0], 110_000), many.volumes[0]);
    assert_eq!(short_volume_name(r"\\?\Volume{\\?\Volume{ab}\}\"), "ab");
    assert_eq!(human_age(50, 0), "just now");
    assert_eq!(human_age(0, 89), "just now");
    assert_eq!(human_age(0, 604_800), "1 weeks ago");
    assert_eq!(human_age(i64::MIN, i64::MAX), format!("{} weeks ago", u64::MAX / 604_800));
    assert_eq!(compact(2_500), format!("{:.0}k", 2.5));
}

#[test]
fn banners_are_dismissed_by_any_answer() {
    assert_eq!(BANNER_HEIGHT, 60);
    let open = answer_banner(BannerAction::OpenSettings);
    assert!(open.dismissed && open.open_exclusions);
    let close = answer_banner(BannerAction::Dismiss);
    assert!(close.dismissed && !close.open_exclusions);
}

#[test]
fn warnings_return_unless_closed_for_good() {
    let mut w = AlphaWarning::at_start(false);
    assert!(w.shown);
    w.answer(AlphaWarningChoice::AcknowledgeOnce);
    assert!(!w.shown && !w.dismissed);
    w.answer(AlphaWarningChoice::AcknowledgeForever);
    assert!(w.dismissed);
    assert!(!AlphaWarning::at_start(w.dismissed).shown);
}

#[test]
fn modes_cannot_change_while_scanning() {
    let mut mode = ScanMode::Exact;
    pick(&mut mode, ScanMode::Image, true);
    assert_eq!(mode, ScanMode::Exact);
    pick(&mut mode, ScanMode::Image, false);
    assert_eq!(mode, ScanMode::Image);
    assert!(mode_hint(ScanMode::Exact).is_none());
    assert!(mode_hint(ScanMode::Image).is_some());
}

#[test]
fn progress_counts_what_is_known() {
    let mut a = ActionState {
        name: "Archive".to_string(),
        done: 3,
        total: Some(9),
        current: Some("x".repeat(70)),
    };
    let texts = progress_texts(&a);
    assert_eq!(texts.counter, "3 / 9");
    assert_eq!(texts.current, format!("…{}", "x".repeat(60)));
    a.total = None;
    a.current = None;
    let texts = progress_texts(&a);
    assert_eq!(texts.counter, "3 processed");
    assert_eq!(texts.current, " ");
    assert_eq!(truncate_path_left("/a/b/c.txt", 6), "…/c.txt");
}

#[test]
fn times_are_told_as_people_say_them() {
    assert_eq!(human_time_since(10, 5), "the future (clock skew)");
    assert_eq!(human_time_since(0, 59), "just now");
    assert_eq!(human_time_since(0, 120), "2 minute(s) ago");
    assert_eq!(human_time_since(0, 7_200), "2 hour(s) ago");
    assert_eq!(human_time_since(0, 29 * 86_400), "29 day(s) ago");
    assert_eq!(human_time_since(0, 30 * 86_400), "30 days ago");
}

fn paused(n: usize, saved: bool) -> CheckpointSummary {
    CheckpointSummary {
        created_at_unix: 0,
        duplicate_count: 7,
        roots: roots(n),
        has_saved_inventory: saved,
    }
}

#[test]
fn paused_scans_are_summed_up() {
    let t = resume_texts(&paused(2, true), 120);
    assert_eq!(t.when, "From 2 minute(s) ago.");
    assert_eq!(
        t.found,
        "7 duplicate group(s) already confirmed · 2 root(s) · file inventory saved (Stage 1 will be skipped)"
    );
    assert_eq!(
        paused_line(&paused(2, false)),
        "Paused scan: 7 duplicate group(s) confirmed · 2 root(s) · inventory not yet saved"
    );
    assert_eq!(resume_label("Resume"), "▶  Resume");
    assert!(tier_blurb(ResumeTier::Full).starts_with("All your prior work is intact"));
    assert_ne!(tier_blurb(ResumeTier::Marker), tier_blurb(ResumeTier::Fresh));
}

#[test]
fn four_roots_are_listed() {
    let six = roots(6);
    let shown = root_lines(&six, true);
    assert_eq!(shown.len(), 4);
    assert_eq!(shown[0], r"★ C:\r0");
    assert_eq!(shown[1], r"  C:\r1");
    assert_eq!(root_lines(&six, false)[0], r"★ \\?\C:\r0");
    assert_eq!(more_line(6, 4).as_deref(), Some("  + 2 more…"));
    assert!(more_line(4, 4).is_none());
}

#[test]
fn drift_is_settled_one_way() {
    let go = effect_of(SettingsDriftChoice::ContinueWithNew);
    assert!(go.start_scan && go.archive_paused && !go.restore_paused);
    let back = effect_of(SettingsDriftChoice::RevertToPaused);
    assert!(back.start_scan && !back.archive_paused && back.restore_paused);
    let stop = effect_of(SettingsDriftChoice::Cancel);
    assert!(!stop.start_scan && !stop.archive_paused && !stop.restore_paused);
}

fn archived() -> ArchiveActionSummary {
    ArchiveActionSummary {
        moved_count: 1,
        moved_bytes: 1024,
        failed_access_denied_count: 2,
        failed_access_denied_bytes: 2048,
        failed_cross_device_count: 0,
        failed_cross_device_bytes: 0,
        failed_other_count: 1,
        failed_other_bytes: 10,
        user_stopped: true,
        destination: "/arch".to_string(),
    }
}

#[test]
fn archives_credit_what_was_moved() {
    let view = archive_view(&archived());
    assert_eq!(view.title, "Archive stopped");
    let moved: Vec<&str> = view.moved.iter().map(|l| l.text.as_str()).collect();
    assert_eq!(
        moved,
        vec![
            "Actually reclaimed from source: 1 KiB",
            "(1 file moved)",
            "Moved: 1 file / 1 KiB",
        ]
    );
    assert_eq!(view.failed[0].text, "Failed: 3 files / 2.01 KiB");
    assert_eq!(view.failed[1].text, "  · Access denied (protected dirs): 2 / 2 KiB");
    assert_eq!(view.failed[2].text, "  · Other (see log): 1 / 10 B");
    assert!(view.failed[3].text.starts_with("Tip: protected directories"));
    assert_eq!(view.folder, "Archive folder: /arch");
    let mut clean = archived();
    clean.failed_access_denied_count = 0;
    clean.failed_other_count = 0;
    clean.user_stopped = false;
    let view = archive_view(&clean);
    assert_eq!(view.title, "Archive complete");
    assert!(view.failed.is_empty());
    assert_eq!(view.moved[0].text, "Actually reclaimed from source: 1 KiB");
    assert!(closes(ArchiveSummaryChoice::Done));
    assert!(!closes(ArchiveSummaryChoice::RevealDestination));
}

fn install(prefix: &str, earned: u64) -> AccountBadgeInstall {
    AccountBadgeInstall {
        install_id: format!("{prefix}-aaaa"),
        install_id_prefix: prefix.to_string(),
        nickname: None,
        cpu_class: Some("x86_64".to_string()),
        earned_at_unix: earned,
        archived: false,
    }
}

#[test]
fn the_latest_machine_comes_first() {
    let view = detail_view(
        "Brisk",
        &vec![install("aaaa", 10), install("bbbb", 1_779_408_000), install("cccc", 0)],
    );
    assert_eq!(view.title, "Brisk — earned on 3 installs");
    let labels: Vec<&str> = view.rows.iter().map(|r| r.label.as_str()).collect();
    assert_eq!(labels, vec!["bbbb", "aaaa", "cccc"]);
    assert_eq!(view.rows[0].tail, "earned 2026-05-22 · x86_64");
    assert_eq!(view.rows[2].tail, "earned date unknown · x86_64");
    assert!(view.note.is_none());
    let none = detail_view("", &Vec::new());
    assert_eq!(none.title, "Earned on 0 installs");
    assert!(none.note.is_some());
    assert!(choice(true, false, false).is_some());
    assert!(choice(false, true, false).is_some());
    assert!(choice(false, false, true).is_some());
    assert!(choice(false, false, false).is_none());
}

#[test]
fn roots_stay_as_they_are_while_scanning() {
    let list = roots(2);
    assert_eq!(press(RootsButton::Remove(1), &list, false), Some(RootsAction::Remove(1)));
    for button in [
        RootsButton::Remove(1),
        RootsButton::AddFolder,
        RootsButton::AddReference,
        RootsButton::Unsuperdeduper,
    ] {
        assert_eq!(press(button, &list, true), None);
        assert!(press(button, &list, false).is_some());
    }
    assert_eq!(press(RootsButton::Remove(2), &list, false), None);
    assert_eq!(
        press(RootsButton::Star(0), &list, true),
        Some(RootsAction::ToggleReference(0))
    );
    assert_eq!(press(RootsButton::Primary, &list, true), Some(RootsAction::Pause));
    assert_eq!(press(RootsButton::Primary, &list, false), Some(RootsAction::StartScan));
    assert_eq!(press(RootsButton::Primary, &Vec::new(), false), None);
    assert_eq!(press(RootsButton::Cancel, &list, false), None);
    assert_eq!(press(RootsButton::Cancel, &list, true), Some(RootsAction::Cancel));
}

#[test]
fn root_rows_end_with_the_folder() {
    let row = root_row(&roots(1)[0], false);
    assert_eq!(row.star, "★");
    assert_eq!(row.path, r"C:\r0");
    let long = RootEntry { path: format!("/{}", "d".repeat(60)), is_reference: false };
    let row = root_row(&long, true);
    assert_eq!(row.star, "☆");
    assert_eq!(row.path, format!("…{}", "d".repeat(38)));
    assert_eq!(row.path_hover, long.path);
    assert_eq!(truncate("abcdef", 4), "…ef");
    assert_eq!(truncate("abcd", 4), "abcd");
    assert_eq!(button_texts(false, true, Desktop::Linux).primary, "▶  Resume scan");
    assert!(button_texts(false, false, Desktop::MacOs).primary_hover.contains("⌘R"));
    assert_eq!(button_texts(true, true, Desktop::Linux).primary, "⏸  Pause");
}

#[test]
fn the_header_is_inert_while_scanning() {
    let all = HeaderClicks { pill: true, settings: true, benchmark: true };
    assert_eq!(header_action(all, true), HeaderAction::Nothing);
    assert_eq!(header_action(all, false), HeaderAction::OpenBenchmark);
    let pill_only = HeaderClicks { pill: true, settings: false, benchmark: false };
    assert_eq!(header_action(pill_only, false), HeaderAction::OpenSettings);
    assert_eq!(build_tag("0.2.7", "abc"), "v0.2.7 · abc");
    assert_eq!(pill(HashAlgo::Blake3, false).label, "BLAKE3");
    assert_eq!(
        pill(HashAlgo::River5, true).hover,
        "Hash algorithm can't change mid-scan."
    );
    assert!(status_line("").starts_with("Idle"));
    assert_eq!(status_line("Hashing"), "Hashing");
    let t = total_texts(Totals { reclaimable_bytes: 1024, duplicates: 5, bytes_read: 0 });
    assert_eq!(
        (t.reclaimable.as_str(), t.duplicates.as_str(), t.read.as_str()),
        ("1 KiB", "5", "0 B")
    );
}

#[test]
fn badges_cycle_through_three_choices() {
    let mut o = RenderOverrides::new();
    assert_eq!(o.get(4), None);
    o.cycle(4);
    assert_eq!(o.get(4), Some(true));
    assert_eq!(o.get(5), None);
    o.cycle(4);
    assert_eq!(o.get(4), Some(false));
    o.cycle(4);
    assert_eq!(o.get(4), None);
    assert_eq!(badge_label(Some(true), true), "● SSD (manual)  [auto: HDD]");
    assert_eq!(badge_label(Some(false), false), "● HDD (manual)  [auto: SSD]");
    assert_eq!(badge_label(None, true), "● HDD");
    assert!(effective_hdd(Some(false), false));
    assert!(!effective_hdd(Some(true), true));
    assert!(effective_hdd(None, true));
}

#[test]
fn badge_clicks_do_not_select_the_drive() {
    let mut o = RenderOverrides::new();
    let ids = drive_order(&vec![9, 2, 5]);
    assert_eq!(ids, vec![2, 5, 9]);
    let none = PanelClicks { panel: false, badge: false };
    let both = PanelClicks { panel: true, badge: true };
    let panel = PanelClicks { panel: true, badge: false };
    assert_eq!(apply_clicks(&mut o, &ids, &vec![none, both, none]), None);
    assert_eq!(o.get(5), Some(true));
    assert_eq!(apply_clicks(&mut o, &ids, &vec![panel, none, panel]), Some(9));
    assert_eq!(o.get(9), None);
}

#[test]
fn reads_are_scattered_only_when_asked() {
    for raw in [0u64, 1, 12_345, u64::MAX] {
        assert_eq!(effective_lcn(true, true, raw), raw);
        assert_eq!(effective_lcn(false, false, raw), raw);
        assert_eq!(effective_lcn(true, false, raw), raw);
        let mut x = raw.wrapping_mul(0x9E37_79B9_7F4A_7C15);
        x ^= x >> 30;
        x = x.wrapping_mul(0xBF58_476D_1CE4_E5B9);
        x ^= x >> 27;
        x = x.wrapping_mul(0x94D0_49BB_1331_11EB);
        x ^= x >> 31;
        assert_eq!(effective_lcn(false, true, raw), x % (4 * 1024 * 1024 * 1024 * 1024u64));
        assert!(effective_lcn(false, true, raw) < SCATTER_RANGE);
    }
    let reads: Vec<u64> = (0..3_000u64).map(|i| i * 1024).collect();
    let trace = lcn_trace(true, true, &reads);
    assert_eq!(trace.top, 2_999 * 1024);
    assert_eq!(trace.dots.len(), 1_500);
    assert!(trace.dots.iter().all(|d| d % 2 == 0));
    assert_eq!(trace.span.as_deref(), Some("sequential   Δ 2.93 MiB this window"));
    let empty = lcn_trace(false, true, &Vec::new());
    assert_eq!(empty.top, 1);
    assert!(empty.span.is_none() && empty.dots.is_empty());
}

fn advice(impact: RecommendationImpact, title: &str) -> Recommendation {
    Recommendation {
        impact,
        title: title.to_string(),
        detail: String::new(),
    }
}

#[test]
fn advice_is_grouped_by_impact() {
    let items = vec![
        advice(RecommendationImpact::Low, "a"),
        advice(RecommendationImpact::High, "b"),
        advice(RecommendationImpact::Informational, "c"),
        advice(RecommendationImpact::High, "d"),
        advice(RecommendationImpact::Medium, "e"),
    ];
    assert_eq!(recommendation_order(&items), vec![1, 3, 4, 0, 2]);
    assert!(empty_note(&items).is_none());
    assert_eq!(empty_note(&Vec::new()), Some("No recommendations — you're good to go."));
    assert_eq!(impact_icon(RecommendationImpact::High), ("⚠", Tone::Hot));
    assert_eq!(impact_icon(RecommendationImpact::Low), ("ℹ", Tone::Cool));
}

#[test]
fn scores_have_their_tones() {
    for (percent, tone) in [
        (100, Tone::Accent),
        (80, Tone::Accent),
        (79, Tone::Warn),
        (50, Tone::Warn),
        (49, Tone::Hot),
        (0, Tone::Hot),
        (101, Tone::Hot),
    ] {
        assert_eq!(tone_for_percent(percent), tone);
    }
    assert_eq!(percent_string(7), "7%");
    assert_eq!(summary_line(91, 16, "aes"), "91% overall · 16 cores · river5 aes");
    let drive = |percent: Option<u8>, has_speed: bool, error: Option<&str>| DriveScore {
        identifier: "C:".to_string(),
        percent,
        has_speed,
        error: error.map(String::from),
    };
    let disk = DiskAxis {
        composite_percent: Some(60),
        drives: vec![drive(Some(60), true, None), drive(None, false, Some("denied"))],
    };
    let view = disk_view(&disk);
    assert_eq!(view.score, "60%");
    assert_eq!(view.note.as_deref(), Some("composite of 1 measured drive(s)"));
    assert_eq!(view.tone, Tone::Warn);
    let good = drive_view(&disk.drives[0]);
    assert_eq!(good.name, "• C:");
    assert_eq!(good.score.unwrap().0, "60%");
    let bad = drive_view(&disk.drives[1]);
    assert_eq!(bad.note.as_deref(), Some("(denied)"));
    assert!(bad.score.is_none());
    assert_eq!(
        drive_view(&drive(Some(1), false, None)).note.as_deref(),
        Some("(not measured)")
    );
    let none = DiskAxis { composite_percent: None, drives: Vec::new() };
    assert_eq!(disk_view(&none).score, "not measured");
}

#[test]
fn reports_offer_to_cancel_or_start() {
    assert!(button_labels(&PreflightState::Idle).is_none());
    let probing = PreflightState::Probing { roots: vec!["/a".to_string()] };
    assert_eq!(button_labels(&probing).unwrap().start, "Skip pre-flight  →");
    let failed = PreflightState::Failed { error: "x".to_string() };
    assert_eq!(button_labels(&failed).unwrap().start, "Start scan →");
    assert_eq!(target_lines(&vec!["/a".to_string()]), vec!["Target: /a".to_string()]);
}

#[test]
fn walls_count_and_invite() {
    let state = CatalogState {
        catalog: None,
        profile: Some(Ok(Profile {
            install_id: "x".to_string(),
            lifetime: ProfileLifetime { bytes_reclaimed: 1024, total_scans: 1 },
            achievements: Vec::new(),
        })),
    };
    assert_eq!(lifetime_reclaimed_human(&state), "1 KiB");
    assert_eq!(wall_header(&state).lifetime, "1 KiB");
    assert_eq!(badges_line(3, 37), "3 / 37 badges");
    assert!(matches!(grid_view(&state), GridView::Loading("loading catalog…")));
    assert!(ends_row(2) && !ends_row(3));
    assert!(matches!(login_cta(&None, None, None), LoginCta::Login));
    let linked = Some(AccountStatus::Linked {
        provider: Provider::Google,
        display_name: "Ann".to_string(),
    });
    assert!(matches!(
        login_cta(&linked, None, None),
        LoginCta::SignedIn(Provider::Google, text) if text == "Signed in as Ann (Google)"
    ));
    assert_eq!(
        oauth_toast_line(&OauthToast::Failure { reason: "no".to_string() }),
        "⚠ Link failed: no"
    );
    let failed = CatalogState { catalog: Some(Err("dns".to_string())), profile: None };
    assert!(matches!(
        grid_view(&failed),
        GridView::Failed(text, _) if text == "catalog fetch failed: dns"
    ));
    let tile = superdeduper::gui::widgets::badge_wall::GridTile {
        entry: &superdeduper::leaderboard::catalog::CatalogEntry {
            id: "brisk".to_string(),
            name: "Brisk".to_string(),
            description: "d".to_string(),
            tier: "low".to_string(),
            unlock_kind: "single-run".to_string(),
            display_order: 1,
        },
        granted: false,
        locked: false,
        granted_years: Vec::new(),
    };
    assert!(matches!(tile_action(&tile), BadgeWallAction::TileClicked(id) if id == "brisk"));
}

#[test]
fn header_buttons_say_why_they_wait() {
    assert_eq!(settings_hover(true), "Cancel the running scan before changing settings.");
    assert_eq!(benchmark_hover(true), "Finish the running scan before benchmarking.");
    assert!(settings_hover(false).starts_with("Engine options"));
    assert!(benchmark_hover(false).ends_with("Touches no personal files."));
}
