use superdeduper::channel::Channel;
use superdeduper::gui::widgets::archive_summary_modal::ArchiveActionSummary;
use superdeduper::gui::widgets::badge_multiplier_detail::{
    display_label, format_earned_at, AccountBadgeInstall,
};
use superdeduper::gui::widgets::channel_banner::{banner, BANNER_HEIGHT};
use superdeduper::gui::widgets::groups_table::{format_path, BulkAction};
use superdeduper::gui::widgets::scan_complete_modal::format_thousands;
use superdeduper::gui::widgets::scan_history_panel::{format_count, format_unix_local, truncate_tail};
use superdeduper::gui::widgets::scan_mode_picker::{label_for, ScanMode};
use superdeduper::gui::widgets::settings_modal::truncate_for_display;
use superdeduper::gui::widgets::toast::{drop_expired, push, Toast, FADE_NANOS};
use superdeduper::gui::Desktop;

const SECOND: u64 = 1_000_000_000;

fn install(prefix: &str, nick: Option<&str>, archived: bool, earned: u64) -> AccountBadgeInstall {
    AccountBadgeInstall {
        install_id: format!("{prefix}-aaaa"),
        install_id_prefix: prefix.to_string(),
        nickname: nick.map(String::from),
        cpu_class: Some("x86_64".to_string()),
        earned_at_unix: earned,
        archived,
    }
}

#[test]
fn summary_totals_round_trip() {
    let s = ArchiveActionSummary {
        moved_count: 95,
        moved_bytes: 57 * 1024 * 1024,
        failed_access_denied_count: 1_200,
        failed_access_denied_bytes: 18 * 1024 * 1024 * 1024,
        failed_cross_device_count: 0,
        failed_cross_device_bytes: 0,
        failed_other_count: 3,
        failed_other_bytes: 1024,
        user_stopped: false,
        destination: "/tmp/archive".to_string(),
    };
    assert_eq!(s.failed_count(), 1_203);
    assert_eq!(s.failed_bytes(), 18 * 1024 * 1024 * 1024 + 1024);
    assert_eq!(s.moved_bytes, 57 * 1024 * 1024);
}

#[test]
fn display_label_prefers_nickname() {
    let i = install("9d4a", Some("Workstation"), false, 1_779_000_000);
    assert_eq!(display_label(&i), "Workstation");
}

#[test]
fn display_label_falls_back_to_prefix_when_nickname_missing() {
    let i = install("9d4a", None, false, 1_779_000_000);
    assert_eq!(display_label(&i), "9d4a");
}

#[test]
fn display_label_prefixes_archived() {
    let i = install("9d4a", Some("OldLaptop"), true, 1_770_000_000);
    assert_eq!(display_label(&i), "Archived · OldLaptop");
}

#[test]
fn display_label_empty_nickname_falls_back_to_prefix() {
    let i = install("9d4a", Some(""), false, 1_779_000_000);
    assert_eq!(display_label(&i), "9d4a");
}

#[test]
fn format_earned_at_renders_iso_date() {
    assert_eq!(format_earned_at(1_779_408_000), "earned 2026-05-22");
}

#[test]
fn format_earned_at_zero_is_unknown() {
    assert_eq!(format_earned_at(0), "earned date unknown");
}

#[test]
fn show_is_noop_on_prod() {
    assert!(!Channel::Prod.is_non_prod());
    assert!(banner(Channel::Prod).is_none());
}

#[test]
fn banner_height_is_32() {
    assert_eq!(BANNER_HEIGHT as f32, 32.0);
}

#[test]
fn dev_and_local_emit_distinct_labels() {
    let dev_label = banner(Channel::Dev).unwrap().text;
    let local_label = banner(Channel::Local).unwrap().text;
    assert_eq!(dev_label, "DEV ENVIRONMENT");
    assert_eq!(local_label, "LOCAL ENVIRONMENT");
    assert_ne!(dev_label, local_label);
    assert!(dev_label.contains("DEV"));
    assert!(local_label.contains("LOCAL"));
}

#[test]
fn drops_verbatim_drive_prefix() {
    assert_eq!(
        format_path(r"\\?\C:\Windows\System32\notepad.exe"),
        r"C:\Windows\System32\notepad.exe"
    );
}

#[test]
fn drops_verbatim_drive_prefix_with_lowercase_drive() {
    assert_eq!(format_path(r"\\?\c:\foo\bar.txt"), r"c:\foo\bar.txt");
}

#[test]
fn rewrites_verbatim_unc_form() {
    assert_eq!(
        format_path(r"\\?\UNC\fileserver\public\report.pdf"),
        r"\\fileserver\public\report.pdf"
    );
}

#[test]
fn passes_through_normal_windows_path() {
    assert_eq!(
        format_path(r"C:\Users\Mick\Documents\thing.txt"),
        r"C:\Users\Mick\Documents\thing.txt"
    );
}

#[test]
fn passes_through_normal_unc_path() {
    assert_eq!(format_path(r"\\fileserver\share\thing"), r"\\fileserver\share\thing");
}

#[test]
fn passes_through_unix_paths() {
    assert_eq!(format_path("/home/neomatrix/file.bin"), "/home/neomatrix/file.bin");
}

#[test]
fn handles_root_verbatim_path() {
    assert_eq!(format_path(r"\\?\D:\"), r"D:\");
}

#[test]
fn empty_path_passes_through() {
    assert_eq!(format_path(""), "");
}

#[test]
fn bulk_action_labels_use_only_bmp_glyphs() {
    for desktop in [Desktop::Linux, Desktop::MacOs, Desktop::Windows] {
        for action in [
            BulkAction::SafeRenameDupes,
            BulkAction::ArchiveMoveDupes,
            BulkAction::ArchiveCopyDupes,
            BulkAction::RecycleDupes,
            BulkAction::NukeDupes,
        ] {
            let label = action.label(desktop);
            for ch in label.chars() {
                assert!((ch as u32) < 0x10000, "{:?}: {label:?} holds {ch:?}", action);
            }
        }
    }
}

#[test]
fn format_thousands_handles_small_and_large() {
    assert_eq!(format_thousands(0), "0");
    assert_eq!(format_thousands(42), "42");
    assert_eq!(format_thousands(999), "999");
    assert_eq!(format_thousands(1_000), "1,000");
    assert_eq!(format_thousands(412_998), "412,998");
    assert_eq!(format_thousands(1_234_567_890), "1,234,567,890");
}

#[test]
fn format_unix_local_renders_known_epoch() {
    assert_eq!(format_unix_local(0), "1970-01-01 00:00");
    assert_eq!(format_unix_local(1_704_067_200), "2024-01-01 00:00");
}

#[test]
fn truncate_tail_keeps_filename() {
    let p = "/home/long/path/that/keeps/going/and/going/file.bin";
    let out = truncate_tail(p, 20);
    assert!(out.starts_with('…'));
    assert!(out.ends_with("file.bin"), "got: {out}");
}

#[test]
fn truncate_tail_passes_short_strings() {
    assert_eq!(truncate_tail("/tmp/foo", 20), "/tmp/foo");
}

#[test]
fn format_count_thresholds() {
    assert_eq!(format_count(0), "0");
    assert_eq!(format_count(999), "999");
    assert_eq!(format_count(1_000), "1.0k");
    assert_eq!(format_count(15_300), "15.3k");
    assert_eq!(format_count(2_100_000), "2.1M");
}

#[test]
fn label_strings_are_stable() {
    assert_eq!(label_for(ScanMode::Exact), "Exact match");
    assert_eq!(label_for(ScanMode::Image), "Image similarity");
    assert_eq!(label_for(ScanMode::Audio), "Audio similarity");
}

#[test]
fn passes_through_short_strings() {
    assert_eq!(truncate_for_display("hello", 10), "hello");
    assert_eq!(truncate_for_display("", 10), "");
}

#[test]
fn truncates_with_ellipsis_when_too_long() {
    let s = "the quick brown fox jumps over the lazy dog";
    let out = truncate_for_display(s, 9);
    assert_eq!(out, "the quick…");
}

#[test]
fn handles_utf8_multibyte_at_boundary() {
    let s = "error — bad request";
    let out = truncate_for_display(s, 12);
    assert!(out.ends_with('…'));
    assert!(out.is_char_boundary(out.len() - '…'.len_utf8()));
    assert_eq!(truncate_for_display(s, 7), "error …");
}

#[test]
fn cap_zero_returns_just_ellipsis() {
    let out = truncate_for_display("not-empty", 0);
    assert_eq!(out, "…");
}

#[test]
fn cap_exactly_at_byte_len_passes_through() {
    let s = "hello";
    assert_eq!(truncate_for_display(s, 5), "hello");
}

#[test]
fn alpha_full_before_fade_window() {
    let now = 100 * SECOND;
    let t = Toast {
        heading: "h".to_string(),
        lines: vec![],
        spawned_at: now,
        ttl: 5 * SECOND,
    };
    assert!(t.alpha(now) as f32 / FADE_NANOS as f32 > 0.99);
    assert!(!t.expired(now));
}

#[test]
fn alpha_zero_after_ttl() {
    let now = 100 * SECOND;
    let t = Toast {
        heading: "h".to_string(),
        lines: vec![],
        spawned_at: now - 10 * SECOND,
        ttl: 5 * SECOND,
    };
    assert_eq!(t.alpha(now) as f32 / FADE_NANOS as f32, 0.0);
    assert!(t.expired(now));
}

#[test]
fn push_then_drain_via_show_works_when_queue_isolated() {
    let now = 100 * SECOND;
    let mut q: Vec<Toast> = Vec::new();
    push(&mut q, "h".to_string(), vec!["l".to_string()], 5 * SECOND, now - 10 * SECOND);
    assert_eq!(q.len(), 1);
    let q = drop_expired(q, now);
    assert!(q.is_empty(), "expired toasts removed");
}

#[test]
fn cut_texts_keep_their_end() {
    assert_eq!(truncate_tail("abcdef", 3), "…def");
    assert_eq!(truncate_tail("abcdef", 6), "abcdef");
    assert_eq!(truncate_tail("abcdef", 0), "…");
}
