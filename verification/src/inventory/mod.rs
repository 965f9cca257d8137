//! The inventory: every eligible file under the scan roots.
//!
//! [`walk`] goes through the directories; [`mft`] reads a volume's record table; [`warm`] brings
//! a cached table up to date from the change journal. All of them produce [`FileEntry`] lists.
use vstd::prelude::*;

use crate::inventory::walk::{deduped, event_views, OwnedWalkEvent, WalkEventView};
use crate::inventory::walker::{
    all_admitted, enumerate_with_progress, is_admitted, root_is_covered, roots_are_judged, start_log,
    walk_roots, walked_files_are_admitted, walks_are_complete, RootTree, WalkError,
};
use crate::paths::{all_roots_are_volume_roots, names_volume_root, Platform};
use crate::text::same_text;

pub mod dir_enum;
pub mod mft;
pub mod placeholder;
pub mod walk;
pub mod walker;
pub mod warm;

pub use placeholder::PlaceholderState;

verus! {

/// One file in the inventory.
#[derive(Clone, Debug)]
pub struct FileEntry {
    pub path: String,
    pub size: u64,
    /// 100ns ticks since 1601-01-01 UTC; `0` if unknown.
    pub mtime: i64,
    /// The file's number on its volume, `0` if unknown. Hard links share it.
    pub file_ref: u64,
    pub parent_ref: u64,
    pub usn: i64,
    pub attributes: u32,
    /// What names the volume, when known.
    pub volume_guid: Option<String>,
    pub placeholder: PlaceholderState,
}

/// A [`FileEntry`] with its texts as character sequences.
pub struct FileEntryView {
    pub path: Seq<char>,
    pub size: u64,
    pub mtime: i64,
    pub file_ref: u64,
    pub parent_ref: u64,
    pub usn: i64,
    pub attributes: u32,
    pub volume_guid: Option<Seq<char>>,
    pub placeholder: PlaceholderState,
}

/// The contents of an optional text.
pub open spec fn optional_text(t: Option<String>) -> Option<Seq<char>> {
    match t {
        Some(s) => Some(s@),
        None => None,
    }
}

impl View for FileEntry {
    type V = FileEntryView;

    open spec fn view(&self) -> FileEntryView {
        FileEntryView {
            path: self.path@,
            size: self.size,
            mtime: self.mtime,
            file_ref: self.file_ref,
            parent_ref: self.parent_ref,
            usn: self.usn,
            attributes: self.attributes,
            volume_guid: optional_text(self.volume_guid),
            placeholder: self.placeholder,
        }
    }
}

/// The contents of a list of files.
pub open spec fn entry_views(v: Seq<FileEntry>) -> Seq<FileEntryView> {
    v.map_values(|e: FileEntry| e@)
}

/// The part of a scan's settings that the inventory goes by.
pub struct ScanConfig {
    /// The platform the scan runs on.
    pub platform: Platform,
    /// The directories and files to scan.
    pub roots: Vec<String>,
    /// Files below this size are left out.
    pub min_size: u64,
    /// Files above this size are left out.
    pub max_size: Option<u64>,
    /// Whether symbolic links are followed.
    pub follow_links: bool,
    /// Whether the exclusion rules are switched on.
    pub exclusions_enabled: bool,
    /// Whether the volume record table was asked for in place of the directory walk.
    pub force_mft: bool,
    /// Whether cached state may be used.
    pub use_cache: bool,
}

/// What the path rules of the scan say of one path.
#[derive(Clone, Copy, Debug)]
pub struct PathVerdicts {
    /// Whether the exclusion rules name the path.
    pub excluded: bool,
    /// Whether the include pattern matches, where there is one.
    pub include_match: Option<bool>,
    /// Whether the exclude pattern matches, where there is one.
    pub exclude_match: Option<bool>,
}

/// Whether a path passes the include and exclude patterns.
pub open spec fn passes_globs(v: PathVerdicts) -> bool {
    v.include_match != Some(false) && v.exclude_match != Some(true)
}

/// Whether a path passes the patterns: the include pattern has to match where there is one, and
/// the exclude pattern must not.
pub fn path_passes_globs(verdicts: &PathVerdicts) -> (r: bool)
    ensures
        r == passes_globs(*verdicts),
{
    match verdicts.include_match {
        Some(hit) => {
            if !hit {
                return false;
            }
        },
        None => {},
    }
    match verdicts.exclude_match {
        Some(hit) => {
            if hit {
                return false;
            }
        },
        None => {},
    }
    true
}

/// Whether a size lies within the scan's limits.
pub open spec fn size_in_range(cfg: ScanConfig, size: u64) -> bool {
    cfg.min_size <= size && (cfg.max_size matches Some(max) ==> size <= max)
}

/// Whether later stages may see a file, where `rules` gives the verdicts on each path: its size
/// lies within the limits, and its path passes the patterns.
pub open spec fn is_eligible(
    cfg: ScanConfig,
    rules: spec_fn(Seq<char>) -> PathVerdicts,
    file: FileEntryView,
) -> bool {
    size_in_range(cfg, file.size) && passes_globs(rules(file.path))
}

/// Whether later stages may see every one of the files.
pub open spec fn all_eligible(
    cfg: ScanConfig,
    rules: spec_fn(Seq<char>) -> PathVerdicts,
    files: Seq<FileEntryView>,
) -> bool {
    forall|k: int| 0 <= k < files.len() ==> is_eligible(cfg, rules, #[trigger] files[k])
}

/// Why a file is reported beside the inventory.
#[derive(Clone, Copy, Debug, PartialEq, Eq, Structural)]
pub enum SkipKind {
    /// It is a placeholder or a reparse point.
    Placeholder(PlaceholderState),
    /// It is a symbolic link whose target could not be looked up.
    SymlinkTargetUnreadable,
}

impl SkipKind {
    /// What a link is reported as; a placeholder is reported by its state.
    pub fn link_label(self) -> (r: Option<&'static str>)
        ensures
            match r {
                Some(label) => self == SkipKind::SymlinkTargetUnreadable && label@
                    == "symlink_target_unreadable"@,
                None => self is Placeholder,
            },
    {
        match self {
            SkipKind::SymlinkTargetUnreadable => Some("symlink_target_unreadable"),
            SkipKind::Placeholder(_) => None,
        }
    }
}

/// One file that is reported beside the inventory.
pub struct SkippedFile {
    pub path: String,
    pub kind: SkipKind,
}

/// The contents of a list of reported files.
pub open spec fn skipped_views(v: Seq<SkippedFile>) -> Seq<(Seq<char>, SkipKind)> {
    v.map_values(|s: SkippedFile| (s.path@, s.kind))
}

/// The placeholders among the files, in order.
pub open spec fn placeholders_among(files: Seq<FileEntryView>) -> Seq<(Seq<char>, SkipKind)>
    decreases files.len(),
{
    if files.len() == 0 {
        Seq::empty()
    } else {
        let init = placeholders_among(files.drop_last());
        let f = files.last();
        if f.placeholder is NotPlaceholder {
            init
        } else {
            init.push((f.path, SkipKind::Placeholder(f.placeholder)))
        }
    }
}

/// The links among the events whose target could not be looked up, in order.
pub open spec fn broken_links_among(events: Seq<WalkEventView>) -> Seq<(Seq<char>, SkipKind)>
    decreases events.len(),
{
    if events.len() == 0 {
        Seq::empty()
    } else {
        let init = broken_links_among(events.drop_last());
        match events.last() {
            WalkEventView::EntrySkipped { path, reason } => if reason
                == "symlink target unreadable"@ {
                init.push((path, SkipKind::SymlinkTargetUnreadable))
            } else {
                init
            },
            _ => init,
        }
    }
}

impl SkippedFile {
    /// The report of a file in this state; regular files are not reported.
    pub fn from_state(path: &str, state: PlaceholderState) -> (r: Option<SkippedFile>)
        ensures
            match r {
                Some(s) => {
                    &&& !(state is NotPlaceholder)
                    &&& s.path@ == path@
                    &&& s.kind == SkipKind::Placeholder(state)
                },
                None => state is NotPlaceholder,
            },
    {
        if state.emits_event() {
            Some(SkippedFile { path: path.to_owned(), kind: SkipKind::Placeholder(state) })
        } else {
            None
        }
    }
}

/// The files to report beside an inventory: its placeholders, and behind them the links whose
/// target could not be looked up. What a filter left out is not reported.
pub fn skipped_files(files: &Vec<FileEntry>, events: &Vec<OwnedWalkEvent>) -> (r: Vec<SkippedFile>)
    ensures
        skipped_views(r@) == placeholders_among(entry_views(files@)) + broken_links_among(
            event_views(events@),
        ),
{
    let ghost fs = entry_views(files@);
    let ghost es = event_views(events@);
    let mut r: Vec<SkippedFile> = Vec::new();
    let mut i: usize = 0;
    proof {
        assert(fs.take(0) =~= Seq::<FileEntryView>::empty());
        assert(skipped_views(r@) =~= Seq::<(Seq<char>, SkipKind)>::empty());
    }
    while i < files.len()
        invariant
            i <= files.len(),
            fs == entry_views(files@),
            skipped_views(r@) == placeholders_among(fs.take(i as int)),
        decreases files.len() - i,
    {
        let f = &files[i];
        proof {
            assert(fs.take(i + 1).drop_last() =~= fs.take(i as int));
            assert(fs.take(i + 1).last() == f@);
        }
        match SkippedFile::from_state(f.path.as_str(), f.placeholder) {
            Some(s) => {
                let ghost before = r@;
                let ghost told = (s.path@, s.kind);
                r.push(s);
                assert(skipped_views(r@) =~= skipped_views(before).push(told));
            },
            None => {},
        }
        i = i + 1;
    }
    let ghost head = skipped_views(r@);
    let mut j: usize = 0;
    proof {
        assert(fs.take(i as int) =~= fs);
        assert(es.take(0) =~= Seq::<WalkEventView>::empty());
        assert(head + Seq::<(Seq<char>, SkipKind)>::empty() =~= head);
    }
    while j < events.len()
        invariant
            j <= events.len(),
            es == event_views(events@),
            skipped_views(r@) == head + broken_links_among(es.take(j as int)),
        decreases events.len() - j,
    {
        let e = &events[j];
        proof {
            assert(es.take(j + 1).drop_last() =~= es.take(j as int));
            assert(es.take(j + 1).last() == e@);
        }
        match e {
            OwnedWalkEvent::EntrySkipped { path, reason } => {
                if same_text(reason, "symlink target unreadable") {
                    let s = SkippedFile {
                        path: path.clone(),
                        kind: SkipKind::SymlinkTargetUnreadable,
                    };
                    let ghost before = r@;
                    let ghost told = (s.path@, s.kind);
                    r.push(s);
                    assert(skipped_views(r@) =~= skipped_views(before).push(told));
                    assert(skipped_views(r@) =~= head + broken_links_among(es.take(j + 1)));
                }
            },
            _ => {},
        }
        j = j + 1;
    }
    assert(es.take(j as int) =~= es);
    r
}

/// Whether the volume record table is tried: it was asked for, and every root is the root of its
/// volume. Otherwise the directories are walked.
pub open spec fn tries_record_table(cfg: ScanConfig) -> bool {
    cfg.force_mft && forall|k: int|
        0 <= k < cfg.roots@.len() ==> names_volume_root(cfg.platform, #[trigger] cfg.roots@[k]@)
}

/// Whether the volume record table is tried in place of the directory walk.
pub fn uses_record_table(cfg: &ScanConfig) -> (r: bool)
    ensures
        r == tries_record_table(*cfg),
{
    cfg.force_mft && all_roots_are_volume_roots(cfg.platform, &cfg.roots)
}

/// The files of a scan, or the root that could not be walked. `records` holds the files from the
/// volume record table, if it could be read; `roots` the recorded roots for a walk.
pub open spec fn inventory_of(
    cfg: ScanConfig,
    records: Option<Seq<FileEntryView>>,
    roots: Seq<RootTree>,
) -> Result<Seq<FileEntryView>, Seq<char>> {
    match (tries_record_table(cfg), records) {
        (true, Some(found)) => Ok(found),
        _ => {
            let (log, failed) = walk_roots(cfg, roots, 0, start_log());
            match failed {
                Some(root) => Err(root),
                None => Ok(deduped(cfg.platform, log.files)),
            }
        },
    }
}

/// What a walk for the inventory tells, none where the volume record table is used.
pub open spec fn inventory_events(
    cfg: ScanConfig,
    records: Option<Seq<FileEntryView>>,
    roots: Seq<RootTree>,
) -> Seq<WalkEventView> {
    match (tries_record_table(cfg), records) {
        (true, Some(_)) => Seq::empty(),
        _ => {
            let log = walk_roots(cfg, roots, 0, start_log()).0;
            log.events + walk::duplicate_events(cfg.platform, log.files)
        },
    }
}

/// The contents of a list of files, if there is one.
pub open spec fn optional_views(records: Option<Vec<FileEntry>>) -> Option<Seq<FileEntryView>> {
    match records {
        Some(found) => Some(entry_views(found@)),
        None => None,
    }
}

/// Enumerates the files of a scan, and the files to report beside them. `records` holds the files
/// from the volume record table, `None` where it could not be read; `roots` the recorded roots for
/// a walk. The walk is taken unless the table is to be tried and could be read.
pub fn enumerate_with_skipped(
    cfg: ScanConfig,
    records: Option<Vec<FileEntry>>,
    roots: Vec<RootTree>,
) -> (r: Result<(Vec<FileEntry>, Vec<SkippedFile>), WalkError>)
    ensures
        match inventory_of(cfg, optional_views(records), roots@) {
            Ok(files) => r matches Ok(all) && {
                &&& entry_views(all.0@) == files
                &&& skipped_views(all.1@) == placeholders_among(files) + broken_links_among(
                    inventory_events(cfg, optional_views(records), roots@),
                )
            },
            Err(root) => r matches Err(WalkError::PathNotFound(p)) && p@ == root,
        },
{
    let mut events: Vec<OwnedWalkEvent> = Vec::new();
    assert(event_views(events@) =~= Seq::<WalkEventView>::empty());
    let table = uses_record_table(&cfg);
    match records {
        Some(found) => {
            if table {
                let skipped = skipped_files(&found, &events);
                proof {
                    assert(placeholders_among(entry_views(found@)) + broken_links_among(
                        Seq::<WalkEventView>::empty(),
                    ) =~= placeholders_among(entry_views(found@)));
                }
                return Ok((found, skipped));
            }
        },
        None => {},
    }
    let ghost platform = cfg.platform;
    let ghost log = walk_roots(cfg, roots@, 0, start_log()).0;
    match enumerate_with_progress(cfg, roots, &mut events) {
        Ok(files) => {
            let skipped = skipped_files(&files, &events);
            proof {
                assert(event_views(events@) =~= log.events + walk::duplicate_events(
                    platform,
                    log.files,
                ));
            }
            Ok((files, skipped))
        },
        Err(e) => Err(e),
    }
}

/// Enumerates the files of a scan.
pub fn enumerate(cfg: ScanConfig, records: Option<Vec<FileEntry>>, roots: Vec<RootTree>) -> (r: Result<
    Vec<FileEntry>,
    WalkError,
>)
    ensures
        match inventory_of(cfg, optional_views(records), roots@) {
            Ok(files) => r matches Ok(listed) && entry_views(listed@) == files,
            Err(root) => r matches Err(WalkError::PathNotFound(p)) && p@ == root,
        },
{
    match enumerate_with_skipped(cfg, records, roots) {
        Ok(all) => Ok(all.0),
        Err(e) => Err(e),
    }
}

/// A single root that is not the root of its volume is enough for the walk.
pub proof fn one_directory_root_means_walking(cfg: ScanConfig, k: int)
    requires
        0 <= k < cfg.roots@.len(),
        !names_volume_root(cfg.platform, cfg.roots@[k]@),
    ensures
        !tries_record_table(cfg),
{
}

/// No file that later stages must not see is listed. A walk lists no such file whatever was
/// recorded, as long as the verdicts are those of the rules; and the files from the volume record
/// table are listed as they were taken there.
pub proof fn listed_files_are_eligible(
    cfg: ScanConfig,
    records: Option<Seq<FileEntryView>>,
    roots: Seq<RootTree>,
    rules: spec_fn(Seq<char>) -> PathVerdicts,
)
    requires
        roots_are_judged(cfg, roots, rules),
        records matches Some(found) ==> all_eligible(cfg, rules, found),
    ensures
        inventory_of(cfg, records, roots) matches Ok(files) ==> all_eligible(cfg, rules, files),
{
    let log = walk_roots(cfg, roots, 0, start_log()).0;
    walked_files_are_admitted(cfg, roots, rules);
    walk::deduped_is_complete(cfg.platform, log.files);
    let kept = deduped(cfg.platform, log.files);
    assert forall|k: int| 0 <= k < kept.len() implies is_eligible(cfg, rules, #[trigger] kept[k]) by {
        assert(log.files.contains(kept[k]));
        let i = log.files.index_of(kept[k]);
        assert(is_admitted(cfg, rules, log.files[i]));
    }
}

/// The files that a walk lists are, besides, not excluded and none of superdeduper's own.
pub proof fn walked_inventories_hold_no_excluded_file(
    cfg: ScanConfig,
    roots: Seq<RootTree>,
    rules: spec_fn(Seq<char>) -> PathVerdicts,
)
    requires
        roots_are_judged(cfg, roots, rules),
    ensures
        inventory_of(cfg, None, roots) matches Ok(files) ==> all_admitted(cfg, rules, files),
{
    let log = walk_roots(cfg, roots, 0, start_log()).0;
    walked_files_are_admitted(cfg, roots, rules);
    walk::deduped_is_complete(cfg.platform, log.files);
    let kept = deduped(cfg.platform, log.files);
    assert forall|k: int| 0 <= k < kept.len() implies is_admitted(cfg, rules, #[trigger] kept[k]) by {
        assert(log.files.contains(kept[k]));
        let i = log.files.index_of(kept[k]);
        assert(is_admitted(cfg, rules, log.files[i]));
    }
}

/// The inventory is complete. Where it succeeds without the volume record table, every root was
/// found, and every wanted file of every root is in it.
pub proof fn walked_inventories_are_complete(
    cfg: ScanConfig,
    records: Option<Seq<FileEntryView>>,
    roots: Seq<RootTree>,
    k: int,
)
    requires
        0 <= k < cfg.roots@.len(),
        !cfg.force_mft || records is None || exists|j: int|
            0 <= j < cfg.roots@.len() && !names_volume_root(cfg.platform, #[trigger] cfg.roots@[j]@),
    ensures
        inventory_of(cfg, records, roots) matches Ok(files) ==> {
            &&& k < roots.len()
            &&& roots[k].facts is Found
            &&& root_is_covered(
                cfg,
                cfg.roots@[k]@,
                roots[k],
                files,
                walk_roots(cfg, roots, 0, start_log()).0.events,
            )
        },
{
    if walk_roots(cfg, roots, 0, start_log()).1 is None {
        walks_are_complete(cfg, roots, k);
    }
}

/// Where the volume record table was asked for, every root is the root of its volume and the table
/// could be read, the inventory is what was taken from it, whatever was recorded for a walk.
pub proof fn readable_tables_are_used(
    cfg: ScanConfig,
    found: Seq<FileEntryView>,
    roots: Seq<RootTree>,
)
    requires
        cfg.force_mft,
        forall|k: int|
            0 <= k < cfg.roots@.len() ==> names_volume_root(cfg.platform, #[trigger] cfg.roots@[k]@),
    ensures
        inventory_of(cfg, Some(found), roots) == Ok::<Seq<FileEntryView>, Seq<char>>(found),
        inventory_events(cfg, Some(found), roots).len() == 0,
{
}

/// Every file that is no regular one is reported with its path and its state.
pub proof fn placeholders_are_reported(files: Seq<FileEntryView>, k: int)
    requires
        0 <= k < files.len(),
        files[k].placeholder != PlaceholderState::NotPlaceholder,
    ensures
        placeholders_among(files).contains(
            (files[k].path, SkipKind::Placeholder(files[k].placeholder)),
        ),
    decreases files.len(),
{
    let told = (files[k].path, SkipKind::Placeholder(files[k].placeholder));
    let init = placeholders_among(files.drop_last());
    let all = placeholders_among(files);
    if k < files.len() - 1 {
        placeholders_are_reported(files.drop_last(), k);
        let i = init.index_of(told);
        assert(all[i] == told);
    } else {
        assert(all[init.len() as int] == told);
    }
}

/// What is reported as a placeholder is a file of the inventory in that state, and no regular one.
pub proof fn reported_placeholders_are_files(files: Seq<FileEntryView>, i: int)
    requires
        0 <= i < placeholders_among(files).len(),
    ensures
        exists|k: int|
            0 <= k < files.len() && (#[trigger] files[k]).placeholder
                != PlaceholderState::NotPlaceholder && placeholders_among(files)[i] == (
                files[k].path,
                SkipKind::Placeholder(files[k].placeholder),
            ),
    decreases files.len(),
{
    let init = placeholders_among(files.drop_last());
    let last = files.len() - 1;
    if i < init.len() {
        reported_placeholders_are_files(files.drop_last(), i);
        let k = choose|k: int|
            0 <= k < files.drop_last().len() && (#[trigger] files.drop_last()[k]).placeholder
                != PlaceholderState::NotPlaceholder && init[i] == (
                files.drop_last()[k].path,
                SkipKind::Placeholder(files.drop_last()[k].placeholder),
            );
        assert(files[k] == files.drop_last()[k]);
    } else {
        assert(files[last] == files.last());
    }
}

/// Every link that was skipped because its target could not be looked up is reported.
pub proof fn broken_links_are_reported(events: Seq<WalkEventView>, k: int, path: Seq<char>)
    requires
        0 <= k < events.len(),
        events[k] == (WalkEventView::EntrySkipped { path, reason: "symlink target unreadable"@ }),
    ensures
        broken_links_among(events).contains((path, SkipKind::SymlinkTargetUnreadable)),
    decreases events.len(),
{
    let told = (path, SkipKind::SymlinkTargetUnreadable);
    let init = broken_links_among(events.drop_last());
    let all = broken_links_among(events);
    if k < events.len() - 1 {
        broken_links_are_reported(events.drop_last(), k, path);
        let i = init.index_of(told);
        assert(all[i] == told);
    } else {
        assert(all[init.len() as int] == told);
    }
}

/// What is reported as a broken link was skipped for that reason: what a filter left out, and what
/// was skipped for another reason, is not reported.
pub proof fn reported_links_were_skipped(events: Seq<WalkEventView>, i: int)
    requires
        0 <= i < broken_links_among(events).len(),
    ensures
        broken_links_among(events)[i].1 == SkipKind::SymlinkTargetUnreadable,
        exists|k: int|
            0 <= k < events.len() && #[trigger] events[k] == (WalkEventView::EntrySkipped {
                path: broken_links_among(events)[i].0,
                reason: "symlink target unreadable"@,
            }),
    decreases events.len(),
{
    let init = broken_links_among(events.drop_last());
    let last = events.len() - 1;
    if i < init.len() {
        reported_links_were_skipped(events.drop_last(), i);
        let k = choose|k: int|
            0 <= k < events.drop_last().len() && #[trigger] events.drop_last()[k] == (
            WalkEventView::EntrySkipped {
                path: init[i].0,
                reason: "symlink target unreadable"@,
            });
        assert(events[k] == events.drop_last()[k]);
    } else {
        assert(events[last] == events.last());
    }
}

/// Files at the limits are within them, files beyond are not, and without an upper limit no file is
/// too large. A path passes unless there is an include pattern that does not match or an exclude
/// pattern that does; exclusion rules have no part in that.
pub proof fn limits_and_patterns_say_what_is_eligible(
    cfg: ScanConfig,
    rules: spec_fn(Seq<char>) -> PathVerdicts,
    file: FileEntryView,
)
    ensures
        is_eligible(cfg, rules, file) <==> {
            &&& file.size >= cfg.min_size
            &&& cfg.max_size is None || file.size <= cfg.max_size->0
            &&& rules(file.path).include_match is None || rules(file.path).include_match == Some(true)
            &&& rules(file.path).exclude_match is None || rules(file.path).exclude_match == Some(false)
        },
{
    let v = rules(file.path);
    match v.include_match {
        Some(hit) => {
            assert(hit || !hit);
        },
        None => {},
    }
    match v.exclude_match {
        Some(hit) => {
            assert(hit || !hit);
        },
        None => {},
    }
}

} // verus!
