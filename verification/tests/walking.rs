use superdeduper::inventory::dir_enum::{
    enumerate_dir, file_id_for, is_dot, read_batch, volume_name, HandleFacts,
};
use superdeduper::inventory::mft::{
    accept_candidates, after_warm, candidates_in_order, enumerate as gather_volumes,
    enumerate_volume, group_roots, load_records, persist_cold_snapshot, record_path, snapshot_in_order, volume_candidates,
    volume_plan, InventoryMeta, JournalState, MftError, NumberedRecord, PlacedRoot, UsnRecord,
    VolumePlan, VolumeRecord,
};
use superdeduper::inventory::placeholder::PlaceholderState;
use superdeduper::inventory::walk::{
    dir_identity, dropped_by_exclusions, enumerate_one_folder_read_dir, filetime_ticks, filter_file,
    judge_batch_entry, judge_entry, BatchEntry, DirIdentity, EntryFacts, EntryOutcome,
    ExclusionTally, FileFacts, FileKind, IdentityFacts, ListedEntry, Listing, OwnedWalkEvent,
    WalkEvent,
};
use superdeduper::inventory::walker::{
    enumerate_with_progress, DirTree, OpenOutcome, RootFacts, RootTree, TreeEntry, WalkEntry,
    WalkError, WalkRequest, Walker,
};
use superdeduper::inventory::warm::{
    check_journal, try_warm, DeltaStep, JournalCheck, WarmAttempt, WarmInputs, WarmOutcome,
    USN_REASON_FILE_DELETE,
};
use superdeduper::inventory::{
    enumerate, enumerate_with_skipped, path_passes_globs, uses_record_table, FileEntry, PathVerdicts,
    ScanConfig, SkipKind, SkippedFile,
};
use superdeduper::paths::Platform;

fn config(platform: Platform, roots: &[&str]) -> ScanConfig {
    ScanConfig {
        platform,
        roots: roots.iter().map(|s| s.to_string()).collect(),
        min_size: 1,
        max_size: None,
        follow_links: false,
        exclusions_enabled: true,
        force_mft: false,
        use_cache: true,
    }
}

fn plain() -> PathVerdicts {
    PathVerdicts {
        excluded: false,
        include_match: None,
        exclude_match: None,
    }
}

fn file(size: u64, inode: u64) -> FileFacts {
    FileFacts {
        kind: FileKind::File,
        size,
        mtime: 5,
        attributes: 0,
        reparse_tag: None,
        inode,
        device: 1,
    }
}

fn of_kind(kind: FileKind) -> FileFacts {
    FileFacts {
        kind,
        size: 10,
        mtime: 5,
        attributes: 0,
        reparse_tag: None,
        inode: 77,
        device: 1,
    }
}

fn entry(path: &str, own: FileFacts) -> EntryFacts {
    EntryFacts {
        path: path.to_string(),
        own: Some(own),
        target: None,
        verdicts: plain(),
    }
}

fn leaf(path: &str, size: u64, inode: u64) -> TreeEntry {
    TreeEntry {
        entry: WalkEntry::Entry(entry(path, file(size, inode))),
        below: None,
    }
}

fn branch(path: &str, below: DirTree) -> TreeEntry {
    TreeEntry {
        entry: WalkEntry::Entry(entry(path, of_kind(FileKind::Directory))),
        below: Some(Box::new(below)),
    }
}

fn dir(id: u64, entries: Vec<TreeEntry>) -> DirTree {
    DirTree {
        identity: Some(DirIdentity { volume_serial: 1, file_id: id as u128 }),
        canonical: None,
        open: OpenOutcome::Opened(None),
        entries,
    }
}

fn root(tree: DirTree) -> RootTree {
    RootTree {
        facts: RootFacts::Found(of_kind(FileKind::Directory)),
        verdicts: plain(),
        tree: Some(tree),
    }
}

fn paths(files: &[FileEntry]) -> Vec<&str> {
    files.iter().map(|f| f.path.as_str()).collect()
}

fn told(events: &[OwnedWalkEvent]) -> Vec<String> {
    events
        .iter()
        .map(|e| match e.as_borrowed() {
            WalkEvent::Entered { path, depth } => format!("enter {path} {depth}"),
            WalkEvent::FileFound { path, size } => format!("file {path} {size}"),
            WalkEvent::DirError { path, message } => format!("error {path}: {message}"),
            WalkEvent::EntrySkipped { path, reason } => format!("skip {path}: {reason}"),
            WalkEvent::SymlinkCycleSkipped { from, target } => format!("cycle {from} -> {target}"),
        })
        .collect()
}

#[test]
fn a_walk_takes_the_eligible_files_in_order() {
    let tree = dir(
        1,
        vec![
            leaf("/r/a", 10, 11),
            branch("/r/sub", dir(2, vec![leaf("/r/sub/b", 20, 12)])),
            leaf("/r/empty", 0, 13),
        ],
    );
    let mut events = Vec::new();
    let files =
        enumerate_with_progress(config(Platform::Unix, &["/r"]), vec![root(tree)], &mut events).unwrap();
    let mut seen = paths(&files);
    seen.sort();
    assert_eq!(seen, vec!["/r/a", "/r/sub/b"]);
    let lines = told(&events);
    assert!(lines.contains(&"enter /r 0".to_string()));
    assert!(lines.contains(&"enter /r/sub 1".to_string()));
    assert!(lines.contains(&"file /r/a 10".to_string()));
    assert!(lines.iter().any(|l| l.starts_with("skip /r/empty: ")));
    for f in &files {
        assert!(lines.contains(&format!("file {} {}", f.path, f.size)));
        assert!(f.size >= 1);
    }
}

#[test]
fn a_missing_root_fails_the_walk() {
    let gone = RootTree {
        facts: RootFacts::Missing,
        verdicts: plain(),
        tree: None,
    };
    let out = enumerate_with_progress(config(Platform::Unix, &["/gone"]), vec![gone], &mut Vec::new());
    assert!(matches!(out, Err(WalkError::PathNotFound(p)) if p == "/gone"));
}

#[test]
fn a_directory_is_entered_once() {
    let mut cfg = config(Platform::Unix, &["/r"]);
    cfg.follow_links = true;
    let tree = dir(
        1,
        vec![
            branch("/r/one", dir(2, vec![leaf("/r/one/f", 5, 20)])),
            branch("/r/two", dir(2, vec![leaf("/r/two/f", 5, 20)])),
        ],
    );
    let mut events = Vec::new();
    let files = enumerate_with_progress(cfg, vec![root(tree)], &mut events).unwrap();
    assert_eq!(files.len(), 1);
    assert_eq!(
        told(&events).iter().filter(|l| l.starts_with("cycle ")).count(),
        1
    );
}

#[test]
fn an_unreadable_directory_is_told() {
    let mut closed = dir(2, vec![]);
    closed.open = OpenOutcome::PermissionDenied;
    let tree = dir(1, vec![branch("/r/closed", closed), leaf("/r/a", 10, 11)]);
    let mut events = Vec::new();
    let files =
        enumerate_with_progress(config(Platform::Unix, &["/r"]), vec![root(tree)], &mut events).unwrap();
    assert_eq!(paths(&files), vec!["/r/a"]);
    assert!(told(&events).iter().any(|l| l.contains("/r/closed")));
}

#[test]
fn overlapping_roots_give_each_file_once() {
    let trees = vec![
        root(dir(1, vec![leaf("/r/a", 10, 11)])),
        root(dir(9, vec![leaf("/r/a", 10, 11), leaf("/r/b", 10, 12)])),
    ];
    let mut events = Vec::new();
    let files =
        enumerate_with_progress(config(Platform::Unix, &["/r", "/r"]), trees, &mut events).unwrap();
    assert_eq!(paths(&files), vec!["/r/a", "/r/b"]);
    assert!(told(&events)
        .contains(&"skip /r/a: duplicate path (overlapping roots or unresolved alias)".to_string()));
}

#[test]
fn a_cancelled_walker_asks_for_nothing_more() {
    let mut walker = Walker::new(config(Platform::Unix, &["/r"]));
    assert!(matches!(walker.request(), WalkRequest::Root("/r")));
    walker.answer_root(RootFacts::Found(of_kind(FileKind::Directory)), plain());
    assert!(!matches!(walker.request(), WalkRequest::Nothing));
    walker.cancel();
    assert!(matches!(walker.request(), WalkRequest::Nothing));
    let (files, _, _) = walker.finish();
    assert!(files.unwrap().is_empty());
}

#[test]
fn a_walker_can_be_driven_step_by_step() {
    let mut cfg = config(Platform::Unix, &["/r"]);
    cfg.follow_links = true;
    let mut walker = Walker::new(cfg);
    let mut served = false;
    let mut rounds = 0;
    loop {
        rounds += 1;
        assert!(rounds < 50);
        match walker.request() {
            WalkRequest::Root(_) => {
                walker.answer_root(RootFacts::Found(of_kind(FileKind::Directory)), plain())
            }
            WalkRequest::Identity(_) => {
                walker.answer_identity(Some(DirIdentity { volume_serial: 1, file_id: 1 }))
            }
            WalkRequest::Location(_) => walker.answer_location(None),
            WalkRequest::Open(_) => walker.answer_open(OpenOutcome::Opened(None)),
            WalkRequest::NextEntry(_) => {
                let next = if served {
                    None
                } else {
                    served = true;
                    Some(WalkEntry::Entry(entry("/r/a", file(7, 3))))
                };
                walker.answer_entry(next);
            }
            WalkRequest::Nothing => break,
        }
    }
    assert!(!walker.take_events().is_empty());
    let (files, rest, tally) = walker.finish();
    assert_eq!(paths(&files.unwrap()), vec!["/r/a"]);
    assert!(rest.is_empty());
    assert_eq!(tally.files, 0);
}

#[test]
fn entries_are_judged_by_kind_size_and_patterns() {
    let cfg = config(Platform::Unix, &["/r"]);
    let mut tally = ExclusionTally { files: 0, bytes: 0 };
    assert!(matches!(
        judge_entry(&cfg, &entry("/r/d", of_kind(FileKind::Directory)), &mut tally),
        EntryOutcome::Descend
    ));
    assert!(matches!(
        judge_entry(&cfg, &entry("/r/f", file(9, 4)), &mut tally),
        EntryOutcome::Take(f) if f.path == "/r/f" && f.size == 9 && f.file_ref == 4
    ));
    assert!(matches!(
        judge_entry(&cfg, &entry("/r/l", of_kind(FileKind::Symlink)), &mut tally),
        EntryOutcome::Skip(_)
    ));
    assert!(matches!(
        judge_entry(&cfg, &entry("/r/x.superdeduper", file(9, 4)), &mut tally),
        EntryOutcome::Skip(_)
    ));
    let mut unlucky = entry("/r/f", file(9, 4));
    unlucky.verdicts.include_match = Some(false);
    assert!(matches!(judge_entry(&cfg, &unlucky, &mut tally), EntryOutcome::Skip(_)));
    assert_eq!((tally.files, tally.bytes), (0, 0));
    let mut excluded = entry("/r/f", file(9, 4));
    excluded.verdicts.excluded = true;
    assert!(matches!(judge_entry(&cfg, &excluded, &mut tally), EntryOutcome::Skip(_)));
    assert_eq!((tally.files, tally.bytes), (1, 9));
}

#[test]
fn links_are_looked_through_only_when_followed() {
    let mut cfg = config(Platform::Unix, &["/r"]);
    let mut tally = ExclusionTally { files: 0, bytes: 0 };
    let mut link = entry("/r/l", of_kind(FileKind::Symlink));
    link.target = Some(file(9, 4));
    assert!(matches!(judge_entry(&cfg, &link, &mut tally), EntryOutcome::Skip(_)));
    cfg.follow_links = true;
    assert!(matches!(judge_entry(&cfg, &link, &mut tally), EntryOutcome::Take(f) if f.size == 9));
    link.target = None;
    assert!(matches!(
        judge_entry(&cfg, &link, &mut tally),
        EntryOutcome::Skip("symlink target unreadable")
    ));
}

#[test]
fn batches_decide_like_single_entries() {
    let cfg = config(Platform::Windows, &[r"C:\r"]);
    let mut a = ExclusionTally { files: 0, bytes: 0 };
    let mut b = ExclusionTally { files: 0, bytes: 0 };
    for size in [0u64, 1, 500] {
        let single = judge_entry(&cfg, &entry(r"C:\r\f", file(size, 4)), &mut a);
        let batch = BatchEntry {
            name: "f".to_string(),
            is_dir: false,
            size,
            mtime: 5,
            attributes: 0,
            file_id: 4,
            reparse_tag: None,
            target: None,
            verdicts: plain(),
        };
        let other = judge_batch_entry(&cfg, r"C:\r\f", &batch, &None, &mut b);
        match (single, other) {
            (EntryOutcome::Take(x), EntryOutcome::Take(y)) => {
                assert_eq!(x.path, y.path);
                assert_eq!(x.size, y.size);
                assert_eq!(y.file_ref, 4);
            }
            (EntryOutcome::Skip(x), EntryOutcome::Skip(y)) => assert_eq!(x, y),
            _ => panic!("the two disagree on {size}"),
        }
    }
}

#[test]
fn filters_reject_in_order() {
    let mut cfg = config(Platform::Unix, &["/r"]);
    cfg.max_size = Some(100);
    let mut tally = ExclusionTally { files: 0, bytes: 0 };
    assert!(filter_file(&cfg, 0, &plain(), &mut tally).is_some());
    assert!(filter_file(&cfg, 101, &plain(), &mut tally).is_some());
    assert!(filter_file(&cfg, 50, &plain(), &mut tally).is_none());
    let mut v = plain();
    v.exclude_match = Some(true);
    assert!(!path_passes_globs(&v));
    assert!(filter_file(&cfg, 50, &v, &mut tally).is_some());
    v.exclude_match = Some(false);
    v.include_match = Some(true);
    assert!(path_passes_globs(&v));
    cfg.exclusions_enabled = false;
    v.excluded = true;
    assert!(!dropped_by_exclusions(&cfg, &v, 50, &mut tally));
    cfg.exclusions_enabled = true;
    assert!(dropped_by_exclusions(&cfg, &v, 50, &mut tally));
    assert_eq!((tally.files, tally.bytes), (1, 50));
}

#[test]
fn exclusion_totals_saturate() {
    let mut tally = ExclusionTally { files: u64::MAX - 1, bytes: u64::MAX - 5 };
    tally.record(3);
    assert_eq!((tally.files, tally.bytes), (u64::MAX, u64::MAX - 2));
}

#[test]
fn times_become_ticks_since_1601() {
    assert_eq!(filetime_ticks(Some(0)), 116_444_736_000_000_000);
    assert_eq!(filetime_ticks(Some(100)), 116_444_736_000_000_001);
    assert_eq!(filetime_ticks(Some(1_000_000_000)), 116_444_736_010_000_000);
    assert_eq!(filetime_ticks(None), 0);
}

#[test]
fn identities_hold_both_halves() {
    assert!(dir_identity(IdentityFacts::Unavailable).is_none());
    let a = dir_identity(IdentityFacts::FileId { volume_serial: 3, low: 1, high: 2 }).unwrap();
    assert_eq!((a.volume_serial, a.file_id), (3, (2u128 << 64) | 1));
    let b = dir_identity(IdentityFacts::Inode { device: 3, inode: 9 }).unwrap();
    assert_eq!((b.volume_serial, b.file_id), (3, 9));
}

#[test]
fn one_folder_lists_files_and_folders() {
    let cfg = config(Platform::Unix, &["/r"]);
    let mut tally = ExclusionTally { files: 0, bytes: 0 };
    let listing = Listing::Opened(vec![
        ListedEntry::Entry(entry("/r/a", file(5, 1))),
        ListedEntry::Entry(entry("/r/d", of_kind(FileKind::Directory))),
        ListedEntry::Failed("bad entry".to_string()),
    ]);
    let out = enumerate_one_folder_read_dir("/r", 2, &cfg, &listing, None, &mut tally);
    assert_eq!(paths(&out.entries), vec!["/r/a"]);
    assert_eq!(out.subdirs, vec![("/r/d".to_string(), 3)]);
    assert!(!out.cancelled);
    assert!(told(&out.events).iter().any(|l| l.contains("bad entry")));
    let stopped = enumerate_one_folder_read_dir("/r", 2, &cfg, &listing, Some(0), &mut tally);
    assert!(stopped.cancelled);
    let denied =
        enumerate_one_folder_read_dir("/r", 2, &cfg, &Listing::PermissionDenied, None, &mut tally);
    assert!(denied.entries.is_empty());
    assert!(!denied.events.is_empty());
}

fn record(parent: u64, name: &str, is_dir: bool, size: i64) -> VolumeRecord {
    VolumeRecord {
        parent_ref: parent,
        usn: 40,
        attributes: if is_dir { 0x10 } else { 0 },
        name: name.to_string(),
        size,
        mtime: 6,
        reparse_tag: None,
    }
}

fn volume() -> Vec<NumberedRecord> {
    vec![
        NumberedRecord { file_ref: 10, record: record(5, "docs", true, -1) },
        NumberedRecord { file_ref: 11, record: record(10, "a.txt", false, 100) },
        NumberedRecord { file_ref: 12, record: record(5, "b.txt", false, 200) },
        NumberedRecord { file_ref: 13, record: record(12, "under-a-file", false, 1) },
    ]
}

#[test]
fn paths_are_rebuilt_from_parents() {
    let table = load_records(volume());
    assert_eq!(record_path(&table, r"F:\", 11), Some(r"F:\docs\a.txt".to_string()));
    assert_eq!(record_path(&table, r"F:\", 12), Some(r"F:\b.txt".to_string()));
    assert_eq!(record_path(&table, r"F:\", 13), None);
    assert_eq!(record_path(&table, r"F:\", 99), None);
}

#[test]
fn looping_records_still_have_a_path() {
    let table = load_records(vec![
        NumberedRecord { file_ref: 1, record: record(2, "x", true, -1) },
        NumberedRecord { file_ref: 2, record: record(1, "y", true, -1) },
        NumberedRecord { file_ref: 3, record: record(1, "f", false, 1) },
    ]);
    let path = record_path(&table, r"F:\", 3).unwrap();
    assert!(path.starts_with(r"F:\"));
    assert!(path.ends_with(r"\f"));
}

#[test]
fn candidates_do_not_depend_on_the_order_of_records() {
    let table = load_records(volume());
    let roots = vec![r"F:\docs".to_string()];
    let (a, counts) = candidates_in_order(&table, r"F:\", &roots, &vec![10, 11, 12, 13]);
    let (b, other) = candidates_in_order(&table, r"F:\", &roots, &vec![13, 12, 11, 10]);
    assert_eq!(a.len(), 1);
    assert_eq!(a[0].path, r"F:\docs\a.txt");
    assert_eq!(b[0].file_ref, a[0].file_ref);
    assert_eq!((counts.dir, counts.no_path, counts.root), (1, 1, 1));
    assert_eq!((other.dir, other.no_path, other.root), (1, 1, 1));
    assert_eq!(a.len() as u64 + counts.dir + counts.no_path + counts.root, 4);
    let (c, _) = volume_candidates(&table, r"F:\", &roots);
    assert_eq!(c.len(), 1);
}

#[test]
fn accepted_files_are_in_range_and_counted() {
    let table = load_records(volume());
    let mut cfg = config(Platform::Windows, &[r"F:\"]);
    cfg.min_size = 150;
    let order = vec![10, 11, 12, 13];
    let (found, _) = candidates_in_order(&table, r"F:\", &vec![r"F:\".to_string()], &order);
    assert_eq!(found.len(), 2);
    let volume_name = Some("V".to_string());
    let out = accept_candidates(
        &cfg,
        &table,
        &volume_name,
        &found,
        &vec![Some(100), Some(200)],
        &vec![plain(), plain()],
    );
    assert_eq!(paths(&out.files), vec![r"F:\b.txt"]);
    assert_eq!(out.counts.size, 1);
    assert_eq!(out.files[0].volume_guid.as_deref(), Some("V"));
    let unnamed = accept_candidates(
        &cfg,
        &table,
        &None,
        &found,
        &vec![Some(100), Some(200)],
        &vec![plain(), plain()],
    );
    assert_eq!(paths(&unnamed.files), paths(&out.files));
    assert!(unnamed.files[0].volume_guid.is_none());
    let none = accept_candidates(
        &cfg,
        &table,
        &volume_name,
        &found,
        &vec![None, None],
        &vec![plain(), plain()],
    );
    assert_eq!(none.counts.metadata, 2);
    let kept = snapshot_in_order(&table, &out.sizes, &order);
    let sizes: Vec<(u64, i64)> = kept.iter().map(|r| (r.file_ref, r.record.size)).collect();
    assert_eq!(sizes, vec![(10, -1), (11, 100), (12, 200), (13, 0)]);
}

#[test]
fn snapshots_keep_the_cursor_from_before_the_read() {
    let table = load_records(volume());
    let cfg = config(Platform::Windows, &[r"F:\"]);
    let accepted = accept_candidates(&cfg, &table, &None, &Vec::new(), &Vec::new(), &Vec::new());
    let journal = JournalState { journal_id: 8, first_usn: 1, next_usn: 30 };
    let (meta, records) = persist_cold_snapshot(&table, &accepted.sizes, journal, 1_000);
    assert_eq!((meta.journal_id, meta.last_usn, meta.captured_at_unix), (8, 30, 1_000));
    assert_eq!(records.len(), 4);
    assert!(matches!(
        check_journal(
            Some(meta),
            Some(JournalState { journal_id: 8, first_usn: 1, next_usn: 30 })
        ),
        JournalCheck::Usable { .. }
    ));
}

#[test]
fn snapshots_are_refused_for_a_reason() {
    let saved = InventoryMeta { journal_id: 8, last_usn: 30, captured_at_unix: 0 };
    let live = |journal_id: u64, first_usn: i64, next_usn: i64| JournalState { journal_id, first_usn, next_usn };
    let reason = |check: JournalCheck| match check {
        JournalCheck::Usable { .. } => ("usable", false),
        JournalCheck::Unusable { reason, invalidate } => (reason, invalidate),
    };
    assert_eq!(reason(check_journal(None, Some(live(8, 1, 40)))), ("no snapshot yet", false));
    let again = || InventoryMeta { journal_id: 8, last_usn: 30, captured_at_unix: 0 };
    assert_eq!(reason(check_journal(Some(again()), None)), ("journal query failed", false));
    assert_eq!(
        reason(check_journal(Some(again()), Some(live(9, 1, 40)))),
        ("journal id changed", true)
    );
    assert_eq!(
        reason(check_journal(Some(again()), Some(live(8, 31, 40)))),
        ("journal rolled past cursor", true)
    );
    assert_eq!(
        reason(check_journal(Some(again()), Some(live(8, 1, 29)))),
        ("saved cursor past journal head (stale snapshot from older build)", true)
    );
    assert_eq!(reason(check_journal(Some(saved), Some(live(8, 1, 40)))), ("usable", false));
}

fn inputs(delta: Vec<DeltaStep>) -> WarmInputs {
    WarmInputs {
        saved: Some(InventoryMeta { journal_id: 8, last_usn: 30, captured_at_unix: 0 }),
        live: Some(JournalState { journal_id: 8, first_usn: 1, next_usn: 60 }),
        baseline: volume(),
        delta,
        next_usn: 60,
        now_unix: 2_000,
    }
}

fn change(file_ref: u64, parent: u64, name: &str, reason: u32) -> UsnRecord {
    UsnRecord {
        file_ref,
        parent_ref: parent,
        usn: 50,
        attributes: 0,
        name: name.to_string(),
        mtime: 9,
        reason,
    }
}

#[test]
fn warm_starts_apply_the_changes() {
    let roots = vec![r"F:\docs".to_string()];
    let delta = vec![
        DeltaStep { change: change(14, 10, "new.txt", 0), size: Some(70) },
        DeltaStep { change: change(11, 10, "a.txt", USN_REASON_FILE_DELETE), size: None },
    ];
    match try_warm(Platform::Windows, "V", &roots, inputs(delta)) {
        WarmAttempt::Ready(run) => {
            assert_eq!((run.created, run.updated, run.deleted), (1, 0, 1));
            assert_eq!(run.meta.last_usn, 60);
            let names: Vec<&str> = run.candidates.iter().map(|c| c.path.as_str()).collect();
            assert_eq!(names, vec![r"F:\docs\new.txt"]);
            assert_eq!(run.deletes, vec![11]);
            assert_eq!(run.upserts.len(), 1);
            let cfg = config(Platform::Windows, &[r"F:\docs"]);
            match run.outcome(&cfg, &vec![plain()]) {
                WarmOutcome::Applied { files, created, .. } => {
                    assert_eq!(paths(&files), vec![r"F:\docs\new.txt"]);
                    assert_eq!(files[0].size, 70);
                    assert_eq!(created, 1);
                }
                WarmOutcome::Fallback { reason } => panic!("fell back: {reason}"),
            }
        }
        WarmAttempt::Fallback { reason, .. } => panic!("fell back: {reason}"),
    }
}

#[test]
fn no_change_gives_the_same_files() {
    let roots = vec![r"F:\".to_string()];
    match try_warm(Platform::Windows, "V", &roots, inputs(Vec::new())) {
        WarmAttempt::Ready(run) => {
            assert_eq!((run.created, run.updated, run.deleted), (0, 0, 0));
            assert!(run.upserts.is_empty());
            assert!(run.deletes.is_empty());
            let mut names: Vec<&str> = run.candidates.iter().map(|c| c.path.as_str()).collect();
            names.sort();
            assert_eq!(names, vec![r"F:\b.txt", r"F:\docs\a.txt"]);
        }
        WarmAttempt::Fallback { reason, .. } => panic!("fell back: {reason}"),
    }
}

fn handed_out() -> Vec<UsnRecord> {
    let mut folder = change(10, 5, "docs", 0);
    folder.attributes = 0x10;
    vec![folder, change(11, 10, "a.txt", 0), change(12, 5, "b.txt", 0), change(13, 12, "under.txt", 0)]
}

#[test]
fn full_readings_leave_a_snapshot() {
    let roots = vec![r"F:\".to_string()];
    let mut cfg = config(Platform::Windows, &[r"F:\"]);
    cfg.min_size = 60;
    let cold = enumerate_volume("V", &roots, handed_out());
    assert_eq!((cold.counts.dir, cold.counts.no_path, cold.counts.root), (1, 1, 0));
    let size_of = |path: &str| if path == r"F:\b.txt" { Some(50) } else { Some(70) };
    let sizes: Vec<Option<u64>> = cold.candidates.iter().map(|c| size_of(&c.path)).collect();
    let verdicts = vec![plain(), plain()];
    let journal = JournalState { journal_id: 8, first_usn: 1, next_usn: 30 };
    let read = cold.outcome(&cfg, &sizes, &verdicts, true, Some(journal), 1_000);
    assert_eq!(paths(&read.files), vec![r"F:\docs\a.txt"]);
    assert_eq!(read.files[0].volume_guid.as_deref(), Some("V"));
    assert_eq!((read.counts.dir, read.counts.no_path, read.counts.size), (1, 1, 1));
    assert!(!read.anomaly);
    let (meta, records) = read.snapshot.unwrap();
    assert_eq!(meta.last_usn, 30);
    let again = WarmInputs {
        saved: Some(meta),
        live: Some(journal),
        baseline: records,
        delta: Vec::new(),
        next_usn: 30,
        now_unix: 2_000,
    };
    match try_warm(Platform::Windows, "V", &roots, again) {
        WarmAttempt::Ready(run) => match run.outcome(&cfg, &verdicts) {
            WarmOutcome::Applied { files, .. } => {
                assert_eq!(paths(&files), paths(&read.files));
                assert_eq!(files[0].size, read.files[0].size);
                assert_eq!(files[0].mtime, read.files[0].mtime);
                assert!(files[0].volume_guid.is_none());
            }
            WarmOutcome::Fallback { reason } => panic!("fell back: {reason}"),
        },
        WarmAttempt::Fallback { reason, .. } => panic!("fell back: {reason}"),
    }
}

#[test]
fn full_readings_without_a_place_leave_no_snapshot() {
    let roots = vec![r"F:\elsewhere".to_string()];
    let cfg = config(Platform::Windows, &[r"F:\elsewhere"]);
    let cold = enumerate_volume("V", &roots, handed_out());
    let journal = JournalState { journal_id: 8, first_usn: 1, next_usn: 30 };
    let read = cold.outcome(&cfg, &Vec::new(), &Vec::new(), false, Some(journal), 1_000);
    assert!(read.files.is_empty());
    assert!(read.anomaly);
    assert!(read.snapshot.is_none());
    let unknown = cold.outcome(&cfg, &Vec::new(), &Vec::new(), true, None, 1_000);
    assert!(unknown.snapshot.is_none());
    let empty = enumerate_volume("V", &roots, Vec::new());
    assert!(!empty.outcome(&cfg, &Vec::new(), &Vec::new(), true, None, 0).anomaly);
}

#[test]
fn a_change_under_an_unknown_parent_falls_back() {
    let roots = vec![r"F:\".to_string()];
    let delta = vec![DeltaStep { change: change(20, 777, "lost.txt", 0), size: Some(1) }];
    assert!(matches!(
        try_warm(Platform::Windows, "V", &roots, inputs(delta)),
        WarmAttempt::Fallback { .. }
    ));
}

#[test]
fn volumes_are_put_together() {
    let one = FileEntry {
        path: r"F:\a".to_string(),
        size: 1,
        mtime: 0,
        file_ref: 1,
        parent_ref: 0,
        usn: 0,
        attributes: 0,
        volume_guid: None,
        placeholder: PlaceholderState::NotPlaceholder,
    };
    let mut two = one.clone();
    two.path = r"G:\b".to_string();
    let all = gather_volumes(Platform::Windows, vec![Ok(vec![one.clone()]), Ok(vec![two])]).unwrap();
    assert_eq!(paths(&all), vec![r"F:\a", r"G:\b"]);
    let failed = gather_volumes(
        Platform::Windows,
        vec![Ok(vec![one]), Err("denied".to_string()), Err("later".to_string())],
    );
    assert!(matches!(failed, Err(MftError::Volume(why)) if why == "denied"));
    assert!(matches!(
        gather_volumes(Platform::Unix, Vec::new()),
        Err(MftError::Unsupported("inventory::mft: only available on Windows"))
    ));
}

#[test]
fn snapshots_are_tried_only_when_allowed() {
    let mut cfg = config(Platform::Windows, &[r"F:\"]);
    assert_eq!(volume_plan(true, &cfg), VolumePlan::Warm);
    assert_eq!(volume_plan(false, &cfg), VolumePlan::Cold);
    cfg.use_cache = false;
    assert_eq!(volume_plan(true, &cfg), VolumePlan::Cold);
    assert!(after_warm(Err("io".to_string())).is_none());
    assert!(after_warm(Ok(WarmOutcome::Fallback { reason: "no snapshot yet" })).is_none());
    let applied = WarmOutcome::Applied {
        files: Vec::new(),
        delta_records: 0,
        created: 0,
        updated: 0,
        deleted: 0,
    };
    assert!(after_warm(Ok(applied)).is_some());
}

#[test]
fn roots_are_grouped_by_volume() {
    let placed = vec![
        PlacedRoot { volume: "V1".to_string(), root: r"\\?\F:\a".to_string() },
        PlacedRoot { volume: "V2".to_string(), root: r"G:\b".to_string() },
        PlacedRoot { volume: "V1".to_string(), root: r"F:\c".to_string() },
    ];
    let groups = group_roots(&placed);
    assert_eq!(groups.len(), 2);
    let v1 = groups.iter().find(|g| g.volume == "V1").unwrap();
    assert_eq!(v1.roots, vec![r"F:\a".to_string(), r"F:\c".to_string()]);
    let v2 = groups.iter().find(|g| g.volume == "V2").unwrap();
    assert_eq!(v2.roots, vec![r"G:\b".to_string()]);
    assert!(groups.iter().all(|g| !g.roots.is_empty()));
    assert!(group_roots(&Vec::new()).is_empty());
}

#[test]
fn the_record_table_needs_volume_roots() {
    let mut cfg = config(Platform::Windows, &[r"C:\"]);
    assert!(!uses_record_table(&cfg));
    cfg.force_mft = true;
    assert!(uses_record_table(&cfg));
    cfg.roots.push(r"C:\Windows".to_string());
    assert!(!uses_record_table(&cfg));
}

fn placeholder_entry(path: &str, placeholder: PlaceholderState) -> FileEntry {
    FileEntry {
        path: path.to_string(),
        size: 1,
        mtime: 0,
        file_ref: 0,
        parent_ref: 0,
        usn: 0,
        attributes: 0,
        volume_guid: None,
        placeholder,
    }
}

#[test]
fn placeholders_are_reported_beside_the_files() {
    let mut cfg = config(Platform::Windows, &[r"C:\"]);
    cfg.force_mft = true;
    let found = vec![
        placeholder_entry(r"C:\a", PlaceholderState::NotPlaceholder),
        placeholder_entry(r"C:\b", PlaceholderState::ReparseDedup),
        placeholder_entry(r"C:\c", PlaceholderState::RecallOnOpen),
    ];
    let (files, skipped) = enumerate_with_skipped(cfg, Some(found), Vec::new()).unwrap();
    assert_eq!(files.len(), 3);
    let names: Vec<&str> = skipped.iter().map(|s| s.path.as_str()).collect();
    assert_eq!(names, vec![r"C:\b", r"C:\c"]);
    assert!(SkippedFile::from_state("x", PlaceholderState::NotPlaceholder).is_none());
}

#[test]
fn broken_links_are_reported() {
    let mut cfg = config(Platform::Unix, &["/r"]);
    cfg.follow_links = true;
    let link = TreeEntry {
        entry: WalkEntry::Entry(entry("/r/l", of_kind(FileKind::Symlink))),
        below: None,
    };
    let tree = dir(1, vec![link]);
    let (files, skipped) = enumerate_with_skipped(cfg, None, vec![root(tree)]).unwrap();
    assert!(files.is_empty());
    assert_eq!(skipped.len(), 1);
    assert_eq!(skipped[0].path, "/r/l");
    assert!(matches!(skipped[0].kind, SkipKind::SymlinkTargetUnreadable));
    assert_eq!(skipped[0].kind.link_label(), Some("symlink_target_unreadable"));
    assert_eq!(SkipKind::Placeholder(PlaceholderState::ReparseDedup).link_label(), None);
}

#[test]
fn a_failed_record_table_means_a_walk() {
    let mut cfg = config(Platform::Unix, &["/"]);
    cfg.force_mft = true;
    let tree = dir(1, vec![leaf("/a", 3, 9)]);
    let files = enumerate(cfg, None, vec![root(tree)]).unwrap();
    assert_eq!(paths(&files), vec!["/a"]);
}

fn raw_entry(name: &str, id: u64, size: u64, next: u32) -> Vec<u8> {
    let units: Vec<u16> = name.encode_utf16().collect();
    let mut v = vec![0u8; 104];
    v[0..4].copy_from_slice(&next.to_le_bytes());
    v[24..32].copy_from_slice(&77i64.to_le_bytes());
    v[40..48].copy_from_slice(&size.to_le_bytes());
    v[56..60].copy_from_slice(&0x20u32.to_le_bytes());
    v[60..64].copy_from_slice(&((units.len() * 2) as u32).to_le_bytes());
    v[96..104].copy_from_slice(&id.to_le_bytes());
    for unit in units {
        v.extend_from_slice(&unit.to_le_bytes());
    }
    v
}

#[test]
fn listings_are_read_from_bytes() {
    let mut buf = raw_entry("Aé.txt", 41, 1234, 128);
    buf.resize(128, 0);
    buf.extend(raw_entry("b", 42, 5, 0));
    let entries = read_batch(&buf);
    assert_eq!(entries.len(), 2);
    assert_eq!(entries[0].name, "Aé.txt".encode_utf16().collect::<Vec<u16>>());
    assert_eq!((entries[0].file_id, entries[0].size, entries[0].mtime), (41, 1234, 77));
    assert_eq!(entries[1].file_id, 42);
    let map = enumerate_dir(&vec![buf], Some(0xABCD));
    let units = |name: &str| name.encode_utf16().collect::<Vec<u16>>();
    assert_eq!(map.lookup(&units("Aé.txt")), Some(41));
    assert_eq!(map.lookup(&units("AÉ.TXT")), Some(41));
    assert_eq!(map.lookup(&units("nope")), None);
    let other = enumerate_dir(&Vec::new(), Some(0xABCE));
    assert_ne!(map.volume_guid, other.volume_guid);
}

#[test]
fn names_that_are_no_text_are_kept_apart() {
    let mut first = raw_entry("xy", 51, 1, 128);
    first[104..106].copy_from_slice(&0xD800u16.to_le_bytes());
    first.resize(128, 0);
    let mut second = raw_entry("xy", 52, 1, 128);
    second[104..106].copy_from_slice(&0xDC00u16.to_le_bytes());
    second.resize(128, 0);
    first.extend(second);
    first.extend(raw_entry("😀A", 53, 1, 0));
    let map = enumerate_dir(&vec![first], None);
    assert_eq!(map.lookup(&vec![0xD800, 0x79]), Some(51));
    assert_eq!(map.lookup(&vec![0xDC00, 0x79]), Some(52));
    assert_eq!(map.lookup(&"😀a".encode_utf16().collect()), Some(53));
    assert_eq!(map.lookup(&vec![0xFFFD, 0x79]), None);
    assert!(map.volume_guid.is_none());
}

#[test]
fn file_ids_join_their_halves() {
    let facts = HandleFacts { volume_serial: 0xABCD, index_high: 1, index_low: 2 };
    let (id, guid) = file_id_for(Some(facts)).unwrap();
    assert_eq!(id, (1u64 << 32) | 2);
    assert!(guid.is_some());
    assert!(file_id_for(None).is_none());
}

#[test]
fn dot_entries_and_volumes_are_named() {
    assert!(is_dot(&vec![46]));
    assert!(is_dot(&vec![46, 46]));
    assert!(!is_dot(&vec![46, 46, 46]));
    assert!(!is_dot(&Vec::new()));
    assert_eq!(volume_name(0xAB), "vol-serial:0x000000ab");
}

fn file_root(size: u64) -> RootTree {
    RootTree {
        facts: RootFacts::Found(file(size, 9)),
        verdicts: plain(),
        tree: None,
    }
}

#[test]
fn a_root_can_be_a_file() {
    let mut events = Vec::new();
    let cfg = config(Platform::Unix, &["/r/one"]);
    let files = enumerate_with_progress(cfg, vec![file_root(7)], &mut events).unwrap();
    assert_eq!(paths(&files), vec!["/r/one"]);
    assert!(told(&events).contains(&"file /r/one 7".to_string()));
}

#[test]
fn a_root_of_our_own_is_skipped() {
    let own = "/r/photo.jpg.superdeduper";
    let mut events = Vec::new();
    let cfg = config(Platform::Unix, &[own]);
    let files = enumerate_with_progress(cfg, vec![file_root(7)], &mut events).unwrap();
    assert!(files.is_empty());
    assert_eq!(told(&events), vec![format!("skip {own}: superdeduper self-footprint")]);
    let mut walker = Walker::new(config(Platform::Unix, &[own]));
    assert!(matches!(walker.request(), WalkRequest::Root(p) if p == own));
    walker.answer_root(RootFacts::Found(file(7, 9)), plain());
    let (files, events, _) = walker.finish();
    assert!(files.unwrap().is_empty());
    assert_eq!(told(&events), vec![format!("skip {own}: superdeduper self-footprint")]);
}

#[test]
fn listed_files_fit_the_size_and_the_patterns() {
    let mut unwanted = entry("/r/b.tmp", file(50, 12));
    unwanted.verdicts.exclude_match = Some(true);
    let mut excluded = entry("/r/c.dll", file(50, 13));
    excluded.verdicts.excluded = true;
    let single = |e: EntryFacts| TreeEntry {
        entry: WalkEntry::Entry(e),
        below: None,
    };
    let entries = vec![
        leaf("/r/a", 50, 11),
        single(unwanted),
        single(excluded),
        leaf("/r/small", 9, 14),
        leaf("/r/large", 101, 15),
        leaf("/r/z", 100, 16),
    ];
    let mut cfg = config(Platform::Unix, &["/r"]);
    cfg.min_size = 10;
    cfg.max_size = Some(100);
    let mut listed = enumerate(cfg, None, vec![root(dir(1, entries))]).unwrap();
    listed.sort_by(|a, b| a.path.cmp(&b.path));
    assert_eq!(paths(&listed), vec!["/r/a", "/r/z"]);
}

#[test]
fn names_outside_the_first_plane_are_folded_and_found() {
    let map = enumerate_dir(&vec![raw_entry("\u{10400}x", 21, 5, 0)], None);
    let units = |s: &str| s.encode_utf16().collect::<Vec<u16>>();
    assert_eq!(map.lookup(&units("\u{10428}X")), Some(21));
    assert_eq!(map.lookup(&units("\u{10400}X")), Some(21));
    assert_eq!(map.lookup(&units("\u{10401}x")), None);
}
