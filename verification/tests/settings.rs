use superdeduper::channel::Channel;
use superdeduper::gui::lines::Tone;
use superdeduper::gui::widgets::settings_modal::account::{
    account_stage, after_register, channel_line, status_line, unlink_message, AccountStage,
};
use superdeduper::gui::widgets::settings_modal::engine::{
    apply_edit, auto_threads_line, bypass_warning, retention_label, retention_note, set_exclude_glob,
    set_include_glob, HashAlgo, KeepStrategy, ScanKnobs, ScanSettings, ScanSwitches, SettingsEdit,
    SettingsSwitch, SizeLimits,
};
use superdeduper::gui::widgets::settings_modal::exclusions::{
    active_line, pack_hint, pack_label, parse_rules, restore_safe_defaults, rules_text,
    set_custom_extensions, set_custom_patterns, switch_pack, ExclusionConfig, PackSize,
};
use superdeduper::gui::widgets::settings_modal::leaderboard::{
    choose_share, install_panel, install_path_line, is_queued, outcome_view, refusal_before_submit,
    register_plan, registering_line, share_control, submit_stage, PrivacyField, RegisterPlan,
    SubmitStage, VisibilityPanel, VisibilityStage,
};
use superdeduper::gui::widgets::settings_modal::network::{
    cancel, confirm, endpoint_line, pick_channel, registration_line, save, selected_channel,
    switch_step, switch_texts, SwitchStep, SwitchTexts,
};
use superdeduper::gui::widgets::settings_modal::{
    install_reset_message, select_tab, show_done_dialog, show_sample_preview, DialogSlot,
    ResetConfirm, SettingsModalState, SettingsTab,
};
use superdeduper::leaderboard::account_privacy::{PrivacyFlags, PrivacyOutcome};
use superdeduper::leaderboard::install::{InstallState, ShareDefault};
use superdeduper::leaderboard::oauth::{AccountStatus, Provider, SessionSnapshot};
use superdeduper::leaderboard::submission::{PendingRun, RankEntry, SubmitOutcome};

fn knobs() -> ScanKnobs {
    ScanKnobs {
        hash_algo: HashAlgo::River5,
        sizes: SizeLimits { min_size_bytes: 1, max_size_bytes: None },
        threads: None,
        keep_strategy: KeepStrategy::Smart,
        history_retention_days: 0,
        switches: ScanSwitches {
            use_format_aware: false,
            follow_links: false,
            allow_system_paths: false,
            use_cache: true,
            always_use_cache: false,
            bypass_destructive_confirmation: false,
            dismissed_alpha_warning: false,
            skip_preflight: false,
        },
    }
}

#[test]
fn edits_change_one_knob() {
    let mut k = knobs();
    apply_edit(&mut k, SettingsEdit::HashAlgo(HashAlgo::Blake3), 8);
    assert_eq!(k.hash_algo, HashAlgo::Blake3);
    apply_edit(&mut k, SettingsEdit::Switch(SettingsSwitch::FollowLinks, true), 8);
    assert!(k.switches.follow_links);
    assert!(!k.switches.use_format_aware);
    apply_edit(&mut k, SettingsEdit::Keep(KeepStrategy::Oldest), 8);
    assert_eq!(k.keep_strategy, KeepStrategy::Oldest);
    apply_edit(&mut k, SettingsEdit::ExplicitThreads(true), 8);
    assert_eq!(k.threads, Some(8));
    apply_edit(&mut k, SettingsEdit::Threads(1_000), 8);
    assert!(k.threads.unwrap() <= 1_000);
    apply_edit(&mut k, SettingsEdit::ExplicitThreads(false), 8);
    assert_eq!(k.threads, None);
    apply_edit(&mut k, SettingsEdit::HistoryRetention(90), 8);
    assert_eq!(k.history_retention_days, 90);
}

#[test]
fn capping_twice_keeps_the_first_cap() {
    let mut k = knobs();
    apply_edit(&mut k, SettingsEdit::CapMaxSize(true), 8);
    let cap = k.sizes.max_size_bytes;
    assert!(cap.is_some());
    apply_edit(&mut k, SettingsEdit::CapMaxSize(true), 8);
    assert_eq!(k.sizes.max_size_bytes, cap);
    apply_edit(&mut k, SettingsEdit::CapMaxSize(false), 8);
    assert_eq!(k.sizes.max_size_bytes, None);
}

#[test]
fn notes_follow_the_settings() {
    let mut k = knobs();
    assert!(bypass_warning(&k).is_none());
    apply_edit(&mut k, SettingsEdit::Switch(SettingsSwitch::BypassConfirmation, true), 8);
    assert_eq!(
        bypass_warning(&k),
        Some("⚠ Destructive actions will fire WITHOUT confirmation.")
    );
    assert_eq!(auto_threads_line(8), "auto (8)");
    assert_eq!(retention_label(0), "Forever");
    assert_eq!(retention_label(365), "1 year");
    assert_eq!(retention_label(17), "17 days (custom)");
    assert!(retention_note(0).is_none());
    assert_eq!(
        retention_note(30).as_deref(),
        Some("Rows older than 30 days will be removed on next app launch.")
    );
    let mut s = ScanSettings {
        knobs: k,
        include_glob: String::new(),
        exclude_glob: String::new(),
    };
    set_include_glob(&mut s, "*.jpg".to_string());
    set_exclude_glob(&mut s, "*.tmp".to_string());
    assert_eq!((s.include_glob.as_str(), s.exclude_glob.as_str()), ("*.jpg", "*.tmp"));
    assert_eq!(KeepStrategy::all().len(), 7);
    assert_eq!(HashAlgo::Blake3.label(), "BLAKE3 (32-byte, cryptographic)");
}

fn exclusions() -> ExclusionConfig {
    ExclusionConfig {
        enabled: true,
        active_packs: vec![2],
        custom_extensions: Vec::new(),
        custom_patterns: Vec::new(),
    }
}

#[test]
fn packs_are_switched_one_at_a_time() {
    let mut cfg = exclusions();
    switch_pack(&mut cfg, 0, true);
    assert_eq!(cfg.active_packs, vec![0, 2]);
    switch_pack(&mut cfg, 0, true);
    assert_eq!(cfg.active_packs, vec![0, 2]);
    switch_pack(&mut cfg, 2, false);
    assert_eq!(cfg.active_packs, vec![0]);
    switch_pack(&mut cfg, 5, false);
    assert_eq!(cfg.active_packs, vec![0]);
}

#[test]
fn rules_come_back_as_written() {
    let rules = vec!["dll".to_string(), "sys".to_string()];
    assert_eq!(parse_rules(&rules_text(&rules)), rules);
    assert_eq!(parse_rules("  a \n\n b\n"), vec!["a".to_string(), "b".to_string()]);
    let mut cfg = exclusions();
    set_custom_extensions(&mut cfg, "dll\n\nsys");
    set_custom_patterns(&mut cfg, "**/x\n");
    assert_eq!(cfg.custom_extensions, rules);
    assert_eq!(cfg.custom_patterns, vec!["**/x".to_string()]);
    let sizes = vec![
        PackSize { extensions: 3, paths: 1 },
        PackSize { extensions: 10, paths: 10 },
        PackSize { extensions: 1, paths: 4 },
    ];
    assert_eq!(active_line(&cfg, &sizes), "Active: 3 ext rules · 5 path rules");
    assert_eq!(
        pack_label("System", PackSize { extensions: 3, paths: 1 }),
        "System  (3 extensions, 1 path pattern)"
    );
}

fn modal() -> SettingsModalState {
    SettingsModalState {
        tab: SettingsTab::Network,
        pending_channel: None,
        channel_switch_confirm: None,
    }
}

#[test]
fn switching_channels_asks_first() {
    let mut s = modal();
    let active = Channel::Prod;
    assert_eq!(selected_channel(&s, active), Channel::Prod);
    assert!(matches!(switch_step(&s, active), SwitchStep::Nothing));
    pick_channel(&mut s, active, Channel::Dev);
    assert_eq!(selected_channel(&s, active), Channel::Dev);
    assert!(matches!(switch_step(&s, active), SwitchStep::Save));
    assert!(matches!(switch_texts(&s, active), SwitchTexts::Save(t) if t == "Save (switch to dev)"));
    assert_eq!(confirm(&mut s, active), None);
    save(&mut s, active);
    assert!(matches!(switch_step(&s, active), SwitchStep::Confirm));
    pick_channel(&mut s, active, Channel::Local);
    assert!(matches!(switch_step(&s, active), SwitchStep::Save));
    save(&mut s, active);
    assert_eq!(confirm(&mut s, active), Some(Channel::Local));
    let mut t = modal();
    pick_channel(&mut t, active, Channel::Dev);
    save(&mut t, active);
    cancel(&mut t, active);
    assert_eq!(confirm(&mut t, active), None);
    assert_eq!(endpoint_line("https://x"), "Endpoint: https://x");
    assert_eq!(registration_line(Channel::Dev, true), "Registered on dev.");
    assert_eq!(
        registration_line(Channel::Dev, false),
        "Not yet registered on dev. Run `superdeduper register --channel dev` first."
    );
}

#[test]
fn channels_have_slugs() {
    assert_eq!(Channel::all().len(), 3);
    assert_eq!(Channel::Local.as_slug(), "local");
    assert!(Channel::Dev.is_non_prod());
}

#[test]
fn dialogs_stay_until_cleared() {
    let mut slot = DialogSlot::new();
    assert!(slot.shown().is_none());
    show_done_dialog(&mut slot, "done".to_string());
    assert_eq!(slot.shown().as_deref(), Some("done"));
    assert_eq!(slot.shown().as_deref(), Some("done"));
    slot.clear();
    assert!(slot.shown().is_none());
    show_sample_preview(&mut slot, "{}".to_string());
    assert_eq!(slot.shown().as_deref(), Some("{}"));
    let mut reset = ResetConfirm { armed: false };
    assert!(!reset.decide(Some(true)));
    reset.request();
    assert!(!reset.decide(None));
    assert!(reset.decide(Some(true)));
    assert!(!reset.decide(Some(true)));
    assert_eq!(
        install_reset_message(&Err("io".to_string())),
        "Install reset FAILED: io"
    );
    assert!(install_reset_message(&Ok("id-2".to_string())).contains("New install_id: id-2"));
}

#[test]
fn tabs_depend_on_the_build() {
    let full = SettingsTab::all(true);
    let bare = SettingsTab::all(false);
    assert!(full.len() > bare.len());
    assert!(full.contains(&SettingsTab::Leaderboard));
    assert!(!bare.contains(&SettingsTab::Leaderboard));
    assert_eq!(SettingsTab::KeepStrategy.label(), "Keep strategy");
    let mut s = modal();
    select_tab(&mut s, SettingsTab::Engine);
    assert_eq!(s.tab, SettingsTab::Engine);
}

fn linked() -> Option<AccountStatus> {
    Some(AccountStatus::Linked {
        provider: Provider::Google,
        display_name: "Ann".to_string(),
    })
}

#[test]
fn accounts_are_linked_or_anonymous() {
    assert_eq!(status_line(&linked(), None), "Status: Linked — Ann (Google)");
    assert_eq!(
        status_line(&None, Some("e1eae1fa-58fb")),
        "Status: Anonymous (UUID e1eae1fa…)"
    );
    assert_eq!(
        status_line(&Some(AccountStatus::Anonymous), None),
        "Status: Anonymous (UUID not registered…)"
    );
    assert_eq!(channel_line(Channel::Dev), "Channel: dev");
    assert!(matches!(
        account_stage(&linked(), None, None),
        AccountStage::Buttons { link_enabled: false, unlink_enabled: true, .. }
    ));
    assert!(matches!(
        account_stage(&None, Some(2), None),
        AccountStage::Registering(line, _) if line == "Registering machine (2s)…"
    ));
    let session = SessionSnapshot { provider: Provider::Google, elapsed_secs: 9 };
    assert!(matches!(
        account_stage(&None, None, Some(session)),
        AccountStage::Waiting(line, _) if line == "Waiting for Google sign-in (9s)…"
    ));
    assert!(unlink_message(&linked(), None).starts_with("Unlinked Ann (Google).\n\n"));
    assert_eq!(unlink_message(&linked(), Some("io")), "Unlink failed:\n\nio");
}

#[test]
fn registering_takes_up_a_waiting_sign_in() {
    let mut waiting = Some(Provider::Discord);
    let failed = after_register(&Err("net".to_string()), &mut waiting);
    assert_eq!(failed.retry, None);
    assert_eq!(failed.message, "Register failed:\n\nnet");
    assert_eq!(waiting, Some(Provider::Discord));
    let done = after_register(&Ok("id-3".to_string()), &mut waiting);
    assert_eq!(done.retry, Some(Provider::Discord));
    assert_eq!(waiting, None);
    assert!(done.message.starts_with("Registered. install_id = id-3"));
}

fn installed(registered: bool) -> InstallState {
    InstallState {
        install_id: "id-1".to_string(),
        registered,
        server_url: "https://x".to_string(),
        share_default: ShareDefault::AlwaysAsk,
    }
}

#[test]
fn installs_are_described() {
    let lines = install_panel(&Ok(Some(installed(true))));
    assert!(lines.iter().any(|l| l.text == "install_id:  id-1"));
    assert!(lines.iter().any(|l| l.text == "registered:  yes"));
    let broken = install_panel(&Err("eof".to_string()));
    assert!(broken[0].text.starts_with("install.json failed to load: eof"));
    assert_eq!(install_path_line(None), "install.json:  (install path unavailable)");
    assert!(matches!(register_plan(&Ok(Some(installed(true)))), RegisterPlan::AlreadyRegistered));
    assert!(matches!(register_plan(&Ok(Some(installed(false)))), RegisterPlan::Existing));
    assert!(matches!(register_plan(&Ok(None)), RegisterPlan::Fresh));
    assert!(!share_control(&None).enabled);
    let mut state = installed(true);
    assert!(!choose_share(&mut state, ShareDefault::AlwaysAsk));
    assert!(choose_share(&mut state, ShareDefault::Never));
    assert_eq!(state.share_default, ShareDefault::Never);
    assert_eq!(registering_line(true, Some(3)).as_deref(), Some("Registering (3s)…"));
    assert!(registering_line(false, Some(3)).is_none());
}

#[test]
fn visibility_is_fetched_once_at_a_time() {
    let mut panel = VisibilityPanel::new();
    assert!(matches!(panel.stage(false, false), VisibilityStage::NeedsInstall(_)));
    assert!(matches!(panel.stage(true, false), VisibilityStage::NeedsLink(_)));
    assert!(!panel.begin_fetch(true, false));
    assert!(panel.begin_fetch(true, true));
    assert!(!panel.begin_fetch(true, true));
    let flags = PrivacyFlags {
        show_display_name: true,
        show_provider: false,
        show_avatar: false,
        show_install_breakdown: false,
        show_hardware_history: false,
        show_recent_runs: false,
    };
    panel.answer(PrivacyOutcome::Flags(flags));
    assert!(!panel.in_flight);
    match panel.stage(true, true) {
        VisibilityStage::Flags { flags, enabled, .. } => {
            assert!(flags.show_display_name);
            assert!(enabled);
        }
        _ => panic!("flags"),
    }
    let sent = panel.set(PrivacyField::Avatar, true).expect("sent");
    assert!(sent.show_avatar && sent.show_display_name);
    assert!(panel.set(PrivacyField::Provider, true).is_none());
    panel.answer(PrivacyOutcome::Rejected("no".to_string()));
    assert!(!panel.in_flight);
    assert_eq!(panel.last_outcome.as_deref(), Some("rejected: no"));
    panel.answer(PrivacyOutcome::Unauthorised("who".to_string()));
    assert_eq!(panel.last_outcome.as_deref(), Some("auth: who"));
    panel.answer(PrivacyOutcome::Transient("dns".to_string()));
    assert_eq!(panel.last_outcome.as_deref(), Some("transient: dns"));
    assert_eq!(PrivacyField::Avatar.label(), "Discord avatar");
}

#[test]
fn submissions_need_an_install_and_a_run() {
    let run = || PendingRun {
        files_scanned: 10,
        bytes_scanned: 1024,
        duplicate_groups: 2,
        hash_algorithm: "river5".to_string(),
    };
    assert!(matches!(submit_stage(&None, true), SubmitStage::NoRun(_)));
    assert!(matches!(
        submit_stage(&Some(run()), true),
        SubmitStage::Ready(t) if t == "Run ready: 10 files, 1 KiB read, 2 groups, hash=river5"
    ));
    assert!(matches!(
        submit_stage(&Some(run()), false),
        SubmitStage::NeedsInstall(t) if t.starts_with("Run ready (10 files, 1 KiB)")
    ));
    assert!(refusal_before_submit(true, true).is_none());
    for (registered, pending, why) in [
        (false, true, "install not registered"),
        (true, false, "no pending submission"),
    ] {
        match refusal_before_submit(registered, pending) {
            Some(SubmitOutcome::Rejected { reason, .. }) => assert_eq!(reason, why),
            Some(SubmitOutcome::Transient { reason }) => assert_eq!(reason, why),
            _ => panic!("refused"),
        }
    }
    assert!(is_queued(&SubmitOutcome::Transient { reason: "dns".to_string() }));
    assert!(!is_queued(&SubmitOutcome::DuplicateNoChange { submission_id: None }));
    let view = outcome_view(&SubmitOutcome::Accepted {
        submission_id: "s1".to_string(),
        ranks: vec![RankEntry {
            rank: 2,
            category: "speed".to_string(),
            bracket: "ssd".to_string(),
            bucket_size: 9,
        }],
        achievements_unlocked: vec!["Brisk".to_string()],
        profile_url: None,
    });
    let texts: Vec<&str> = view.lines.iter().map(|l| l.text.as_str()).collect();
    assert_eq!(
        texts,
        vec![
            "Accepted",
            "submission_id:  s1",
            "  rank #2 in speed/ssd (of 9)",
            "  achievement unlocked: Brisk",
        ]
    );
    let no = outcome_view(&SubmitOutcome::Rejected { status: 400, reason: "x".to_string() });
    assert_eq!(no.lines[0].text, "Rejected (400): x");
    assert_eq!(no.lines[0].tone, Tone::Hot);
}

#[test]
fn restoring_safe_defaults_drops_own_rules() {
    let mut cfg = exclusions();
    cfg.enabled = false;
    set_custom_extensions(&mut cfg, "tmp\nbak");
    set_custom_patterns(&mut cfg, "*/cache/*");
    restore_safe_defaults(&mut cfg, &vec![0, 1, 3, 5]);
    assert!(cfg.enabled);
    assert_eq!(cfg.active_packs, vec![0, 1, 3, 5]);
    assert!(cfg.custom_extensions.is_empty());
    assert!(cfg.custom_patterns.is_empty());
}

#[test]
fn only_safe_packs_carry_a_hint() {
    assert!(pack_hint(true).unwrap().starts_with("Safe-defaults pack"));
    assert_eq!(pack_hint(false), None);
}
