use superdeduper::inventory::placeholder::{classify, PlaceholderState};
use superdeduper::inventory::walk::{
    dedup_by_path, inode_identity, is_superdeduper_self_path, FileFacts, FileKind, OwnedWalkEvent,
};
use superdeduper::inventory::FileEntry;
use superdeduper::paths::{
    all_roots_are_volume_roots, is_volume_root, path_push, path_starts_with, strip_verbatim_prefix,
    Platform,
};

fn entry(p: &str) -> FileEntry {
    FileEntry {
        path: p.to_string(),
        size: 1024,
        mtime: 0,
        file_ref: 0,
        parent_ref: 0,
        usn: 0,
        attributes: 0,
        volume_guid: None,
        placeholder: PlaceholderState::default(),
    }
}

fn texts(items: &[&str]) -> Vec<String> {
    items.iter().map(|s| s.to_string()).collect()
}

fn skipped(events: &[OwnedWalkEvent]) -> Vec<String> {
    events
        .iter()
        .filter_map(|ev| match ev {
            OwnedWalkEvent::EntrySkipped { path, .. } => Some(path.clone()),
            _ => None,
        })
        .collect()
}

#[test]
fn volume_roots_are_recognised() {
    assert!(is_volume_root(Platform::Unix, "/"));
    assert!(!is_volume_root(Platform::Unix, "/home"));
    assert!(!is_volume_root(Platform::Unix, "/home/user"));
}

#[test]
fn windows_volume_roots_are_recognised() {
    assert!(is_volume_root(Platform::Windows, r"C:\"));
    assert!(is_volume_root(Platform::Windows, r"D:\"));
    assert!(is_volume_root(Platform::Windows, r"\\?\C:\"));
    assert!(!is_volume_root(Platform::Windows, r"C:\Windows"));
    assert!(!is_volume_root(Platform::Windows, r"C:\Windows\System32"));
    assert!(!is_volume_root(Platform::Windows, r"\\?\C:\Windows"));
    assert!(!is_volume_root(Platform::Windows, "C:"));
}

#[test]
fn mixed_roots_force_mft() {
    let roots = texts(&["/", "/home/user"]);
    assert!(!all_roots_are_volume_roots(Platform::Unix, &roots));
}

#[test]
fn empty_root_list_is_trivially_volume_root() {
    assert!(all_roots_are_volume_roots(Platform::Unix, &Vec::new()));
}

#[test]
fn default_is_not_placeholder() {
    assert_eq!(PlaceholderState::default(), PlaceholderState::NotPlaceholder);
}

#[test]
fn blocks_content_read_for_recall_and_other_reparse() {
    assert!(!PlaceholderState::NotPlaceholder.blocks_content_read());
    assert!(PlaceholderState::RecallOnOpen.blocks_content_read());
    assert!(PlaceholderState::RecallOnDataAccess.blocks_content_read());
    assert!(!PlaceholderState::ReparseDedup.blocks_content_read());
    assert!(PlaceholderState::OtherReparse(0x1234).blocks_content_read());
}

#[test]
fn destructive_blocked_for_anything_non_normal() {
    assert!(!PlaceholderState::NotPlaceholder.blocks_destructive_action());
    assert!(PlaceholderState::RecallOnOpen.blocks_destructive_action());
    assert!(PlaceholderState::RecallOnDataAccess.blocks_destructive_action());
    assert!(PlaceholderState::ReparseDedup.blocks_destructive_action());
    assert!(PlaceholderState::OtherReparse(0x1234).blocks_destructive_action());
}

#[test]
fn content_read_policy_unblocks_recall_when_opted_in() {
    assert!(!PlaceholderState::NotPlaceholder.blocks_content_read_under_policy(false));
    assert!(PlaceholderState::RecallOnOpen.blocks_content_read_under_policy(false));
    assert!(PlaceholderState::OtherReparse(0).blocks_content_read_under_policy(false));
    assert!(!PlaceholderState::RecallOnOpen.blocks_content_read_under_policy(true));
    assert!(!PlaceholderState::RecallOnDataAccess.blocks_content_read_under_policy(true));
    assert!(PlaceholderState::OtherReparse(0xDEAD).blocks_content_read_under_policy(true));
    assert!(!PlaceholderState::ReparseDedup.blocks_content_read_under_policy(false));
    assert!(!PlaceholderState::ReparseDedup.blocks_content_read_under_policy(true));
}

#[test]
fn destructive_policy_unblocks_deduped_when_opted_in() {
    assert!(!PlaceholderState::NotPlaceholder.blocks_destructive_action_under_policy(false));
    assert!(PlaceholderState::ReparseDedup.blocks_destructive_action_under_policy(false));
    assert!(PlaceholderState::RecallOnOpen.blocks_destructive_action_under_policy(false));
    assert!(!PlaceholderState::ReparseDedup.blocks_destructive_action_under_policy(true));
    assert!(PlaceholderState::RecallOnOpen.blocks_destructive_action_under_policy(true));
    assert!(PlaceholderState::RecallOnDataAccess.blocks_destructive_action_under_policy(true));
    assert!(PlaceholderState::OtherReparse(0xC0DE).blocks_destructive_action_under_policy(true));
}

#[test]
fn classify_recall_on_open() {
    let attrs = 0x0004_0000;
    assert_eq!(classify(Platform::Windows, attrs, None), PlaceholderState::RecallOnOpen);
}

#[test]
fn classify_recall_on_data_access() {
    let attrs = 0x0040_0000;
    assert_eq!(
        classify(Platform::Windows, attrs, None),
        PlaceholderState::RecallOnDataAccess
    );
}

#[test]
fn classify_dedup_reparse() {
    let attrs = 0x0000_0400;
    assert_eq!(
        classify(Platform::Windows, attrs, Some(0x8000_0013)),
        PlaceholderState::ReparseDedup
    );
}

#[test]
fn classify_other_reparse_captures_tag() {
    let attrs = 0x0000_0400;
    let unknown = 0x12345678;
    assert_eq!(
        classify(Platform::Windows, attrs, Some(unknown)),
        PlaceholderState::OtherReparse(unknown)
    );
}

#[test]
fn classify_recall_takes_precedence_over_reparse() {
    let attrs = 0x0004_0000 | 0x0000_0400;
    assert_eq!(
        classify(Platform::Windows, attrs, Some(0x8000_0013)),
        PlaceholderState::RecallOnOpen
    );
}

#[test]
fn classify_sees_nothing_special_elsewhere() {
    assert_eq!(
        classify(Platform::Unix, 0x0004_0400, Some(0x8000_0013)),
        PlaceholderState::NotPlaceholder
    );
}

#[test]
fn volume_root_push_keeps_separator() {
    let mut p = "F:\\".to_string();
    p = path_push(Platform::Windows, &p, "GitHub");
    p = path_push(Platform::Windows, &p, "subdir");
    assert_eq!(p, r"F:\GitHub\subdir");

    let root = r"F:\GitHub";
    assert!(path_starts_with(Platform::Windows, &p, root));
}

#[test]
fn drive_relative_root_does_not_satisfy_starts_with() {
    let p = path_push(Platform::Windows, "F:", "GitHub");
    let root = r"F:\GitHub";
    assert!(!path_starts_with(Platform::Windows, &p, root));
}

#[test]
fn strip_verbatim_prefix_drive_form() {
    let stripped = strip_verbatim_prefix(Platform::Windows, r"\\?\F:\GitHub");
    assert_eq!(stripped, r"F:\GitHub");
}

#[test]
fn no_duplicates_pass_through_unchanged() {
    let input = vec![entry("/a"), entry("/b"), entry("/c")];
    let mut events = Vec::new();
    let out = dedup_by_path(Platform::Unix, input, &mut events);
    assert_eq!(out.len(), 3);
    assert_eq!(skipped(&events).len(), 0);
}

#[test]
fn duplicate_paths_dropped_after_first_occurrence() {
    let input = vec![entry("/a"), entry("/b"), entry("/a"), entry("/c")];
    let mut events = Vec::new();
    let out = dedup_by_path(Platform::Unix, input, &mut events);
    assert_eq!(out.len(), 3);
    assert_eq!(
        out.iter().map(|e| e.path.as_str()).collect::<Vec<_>>(),
        vec!["/a", "/b", "/c"]
    );
    assert_eq!(skipped(&events), vec!["/a".to_string()]);
}

#[test]
fn empty_input_yields_empty_output() {
    let out = dedup_by_path(Platform::Unix, Vec::new(), &mut Vec::new());
    assert!(out.is_empty());
}

#[test]
fn all_duplicates_collapses_to_one() {
    let input = vec![entry("/x"), entry("/x"), entry("/x"), entry("/x")];
    let mut events = Vec::new();
    let out = dedup_by_path(Platform::Unix, input, &mut events);
    assert_eq!(out.len(), 1);
    assert_eq!(skipped(&events).len(), 3);
}

#[test]
fn paths_with_the_same_components_are_one_path() {
    let input = vec![entry("/a/b"), entry("/a//b/"), entry("/a/./b")];
    let mut events = Vec::new();
    let out = dedup_by_path(Platform::Unix, input, &mut events);
    assert_eq!(out.len(), 1);
    assert_eq!(out[0].path, "/a/b");
    assert_eq!(skipped(&events), vec!["/a//b/".to_string(), "/a/./b".to_string()]);
}

#[test]
fn skips_diagnose_scratch_dir() {
    assert!(is_superdeduper_self_path(
        Platform::Unix,
        "/some/drive/.superdeduper-diagnose-scratch"
    ));
}

#[test]
fn skips_diagnose_scratch_dir_with_trailing_content() {
    assert!(is_superdeduper_self_path(
        Platform::Unix,
        "/some/drive/.superdeduper-diagnose-scratch"
    ));
}

#[test]
fn skips_future_dotsuperdeduper_dash_variants() {
    for name in [
        ".superdeduper-cache",
        ".superdeduper-logs",
        ".superdeduper-profile-dumps",
    ] {
        let p = path_push(Platform::Unix, "/x", name);
        assert!(is_superdeduper_self_path(Platform::Unix, &p), "should skip: {name}");
    }
}

#[test]
fn skips_safe_renamed_dup_files() {
    assert!(is_superdeduper_self_path(Platform::Unix, "/u/photo.jpg.superdeduper"));
}

#[test]
fn skips_reflink_clone_tmp() {
    assert!(is_superdeduper_self_path(Platform::Unix, "/u/.foo.superdeduper-clone-tmp"));
}

#[test]
fn passes_through_normal_files() {
    for p in [
        "/home/user/photo.jpg",
        "/home/user/document.pdf",
        "/home/user/.bashrc",
        "/home/user/.config/foo.toml",
        "/u/superdeduper-not-prefixed.txt",
    ] {
        assert!(!is_superdeduper_self_path(Platform::Unix, p), "should not skip: {p}");
    }
}

#[test]
fn skips_bare_dotsuperdeduper_dir() {
    assert!(is_superdeduper_self_path(Platform::Unix, "/u/.superdeduper"));
}

#[test]
fn handles_empty_and_non_utf8_paths_without_panic() {
    assert!(!is_superdeduper_self_path(Platform::Unix, ""));
}

fn facts(inode: u64, device: u64) -> FileFacts {
    FileFacts {
        kind: FileKind::File,
        size: 2,
        mtime: 0,
        attributes: 0,
        reparse_tag: None,
        inode,
        device,
    }
}

#[test]
fn extracts_ino_and_dev_on_unix() {
    let (file_ref, volume_guid) = inode_identity(Platform::Unix, &facts(42, 7));
    assert_ne!(file_ref, 0);
    assert_eq!(file_ref, 42);
    let vol = volume_guid.expect("volume_guid populated on Unix");
    assert!(vol.starts_with("linux-dev-"));
    assert_eq!(vol, "linux-dev-7");
}

#[test]
fn hardlinks_share_file_ref_and_volume_guid() {
    let (ino_a, vol_a) = inode_identity(Platform::Unix, &facts(42, 7));
    let (ino_b, vol_b) = inode_identity(Platform::Unix, &facts(42, 7));
    assert_eq!(ino_a, ino_b);
    assert_eq!(vol_a, vol_b);
}

#[test]
fn distinct_files_have_distinct_file_refs() {
    let (ino_a, _) = inode_identity(Platform::Unix, &facts(42, 7));
    let (ino_b, _) = inode_identity(Platform::Unix, &facts(43, 7));
    assert_ne!(ino_a, ino_b);
}

#[test]
fn identity_comes_from_elsewhere_on_windows() {
    let (file_ref, volume_guid) = inode_identity(Platform::Windows, &facts(42, 7));
    assert_eq!(file_ref, 0);
    assert!(volume_guid.is_none());
}
