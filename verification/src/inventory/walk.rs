//! The directory walk: which entries of a directory are taken, skipped or gone into.
//!
//! What was found about an entry decides what becomes of it: see [`judge_entry`] for entries that
//! were looked up one by one, [`judge_batch_entry`] for entries that came in a batch, and
//! [`enumerate_one_folder_read_dir`] for a whole directory.
use vstd::prelude::*;

use crate::inventory::placeholder::{classified, classify, FILE_ATTRIBUTE_REPARSE_POINT};
use crate::inventory::{
    entry_views, optional_text, passes_globs, path_passes_globs, size_in_range, FileEntry,
    FileEntryView, PathVerdicts, ScanConfig,
};
use crate::paths::{components, components_of, file_name_of, final_name, Platform};
use crate::tables::PathSet;
use crate::text::{begins_with, decimal, decimal_is_injective, decimal_string, finishes_with, texts};

verus! {

/// The reparse tag of a symbolic link.
pub const IO_REPARSE_TAG_SYMLINK: u32 = 0xA000_000C;

/// FILETIME ticks at the Unix epoch.
pub const UNIX_EPOCH_AS_FILETIME: i64 = 116_444_736_000_000_000;

/// What identifies one physical directory, however many paths lead to it.
#[derive(Clone, Copy, Debug, PartialEq, Eq, Hash, Structural)]
pub struct DirIdentity {
    pub volume_serial: u64,
    pub file_id: u128,
}

/// What the file system says a directory's numbers are, where it says anything.
#[derive(Clone, Copy, Debug)]
pub enum IdentityFacts {
    /// The query failed, or the file system does not support it.
    Unavailable,
    /// Unix: device and inode number.
    Inode { device: u64, inode: u64 },
    /// Windows: volume serial and the bytes of the 128-bit file id, lowest first.
    FileId { volume_serial: u64, low: u64, high: u64 },
}

/// The identity that the numbers make up.
pub open spec fn identity_from(facts: IdentityFacts) -> Option<DirIdentity> {
    match facts {
        IdentityFacts::Unavailable => None,
        IdentityFacts::Inode { device, inode } => Some(
            DirIdentity { volume_serial: device, file_id: inode as u128 },
        ),
        IdentityFacts::FileId { volume_serial, low, high } => Some(
            DirIdentity {
                volume_serial,
                file_id: (high as nat * 0x1_0000_0000_0000_0000nat + low as nat) as u128,
            },
        ),
    }
}

/// Resolves a directory to its identity. `None` means that it cannot be told apart from others.
pub fn dir_identity(facts: IdentityFacts) -> (r: Option<DirIdentity>)
    ensures
        r == identity_from(facts),
{
    match facts {
        IdentityFacts::Unavailable => None,
        IdentityFacts::Inode { device, inode } => Some(
            DirIdentity { volume_serial: device, file_id: inode as u128 },
        ),
        IdentityFacts::FileId { volume_serial, low, high } => {
            let file_id: u128 = high as u128 * 0x1_0000_0000_0000_0000u128 + low as u128;
            Some(DirIdentity { volume_serial, file_id })
        },
    }
}

/// Two directories with known numbers have the same identity exactly when their numbers agree.
pub proof fn identities_tell_directories_apart(a: IdentityFacts, b: IdentityFacts)
    requires
        !(a is Unavailable),
        !(b is Unavailable),
        a is Inode == b is Inode,
    ensures
        (identity_from(a) == identity_from(b)) == (a == b),
{
    match (a, b) {
        (
            IdentityFacts::FileId { volume_serial: v1, low: l1, high: h1 },
            IdentityFacts::FileId { volume_serial: v2, low: l2, high: h2 },
        ) => {
            let x = h1 as nat * 0x1_0000_0000_0000_0000nat + l1 as nat;
            let y = h2 as nat * 0x1_0000_0000_0000_0000nat + l2 as nat;
            assert(x as u128 == y as u128 <==> x == y);
        },
        _ => {},
    }
}

/// What happened on the walk, as it is told to a listener.
pub enum WalkEvent<'a> {
    /// About to enumerate this directory.
    Entered { path: &'a str, depth: u32 },
    /// One eligible file. The filters have passed.
    FileFound { path: &'a str, size: u64 },
    /// The directory could not be opened or looked up.
    DirError { path: &'a str, message: String },
    /// One entry was left out.
    EntrySkipped { path: &'a str, reason: &'static str },
    /// A directory that had been enumerated before, under this or another path.
    SymlinkCycleSkipped { from: &'a str, target: String },
}

/// A [`WalkEvent`] that owns its texts.
#[derive(Clone, Debug)]
pub enum OwnedWalkEvent {
    Entered { path: String, depth: u32 },
    FileFound { path: String, size: u64 },
    DirError { path: String, message: String },
    EntrySkipped { path: String, reason: &'static str },
    SymlinkCycleSkipped { from: String, target: String },
}

/// An event with its texts as character sequences.
pub enum WalkEventView {
    Entered { path: Seq<char>, depth: u32 },
    FileFound { path: Seq<char>, size: u64 },
    DirError { path: Seq<char>, message: Seq<char> },
    EntrySkipped { path: Seq<char>, reason: Seq<char> },
    SymlinkCycleSkipped { from: Seq<char>, target: Seq<char> },
}

impl<'a> View for WalkEvent<'a> {
    type V = WalkEventView;

    open spec fn view(&self) -> WalkEventView {
        match self {
            WalkEvent::Entered { path, depth } => WalkEventView::Entered { path: path@, depth: *depth },
            WalkEvent::FileFound { path, size } => WalkEventView::FileFound { path: path@, size: *size },
            WalkEvent::DirError { path, message } => WalkEventView::DirError {
                path: path@,
                message: message@,
            },
            WalkEvent::EntrySkipped { path, reason } => WalkEventView::EntrySkipped {
                path: path@,
                reason: reason@,
            },
            WalkEvent::SymlinkCycleSkipped { from, target } => WalkEventView::SymlinkCycleSkipped {
                from: from@,
                target: target@,
            },
        }
    }
}

impl View for OwnedWalkEvent {
    type V = WalkEventView;

    open spec fn view(&self) -> WalkEventView {
        match self {
            OwnedWalkEvent::Entered { path, depth } => WalkEventView::Entered {
                path: path@,
                depth: *depth,
            },
            OwnedWalkEvent::FileFound { path, size } => WalkEventView::FileFound {
                path: path@,
                size: *size,
            },
            OwnedWalkEvent::DirError { path, message } => WalkEventView::DirError {
                path: path@,
                message: message@,
            },
            OwnedWalkEvent::EntrySkipped { path, reason } => WalkEventView::EntrySkipped {
                path: path@,
                reason: reason@,
            },
            OwnedWalkEvent::SymlinkCycleSkipped { from, target } => WalkEventView::SymlinkCycleSkipped {
                from: from@,
                target: target@,
            },
        }
    }
}

impl OwnedWalkEvent {
    /// The event as a listener sees it.
    pub fn as_borrowed(&self) -> (r: WalkEvent<'_>)
        ensures
            r@ == self@,
    {
        match self {
            OwnedWalkEvent::Entered { path, depth } => WalkEvent::Entered {
                path: path.as_str(),
                depth: *depth,
            },
            OwnedWalkEvent::FileFound { path, size } => WalkEvent::FileFound {
                path: path.as_str(),
                size: *size,
            },
            OwnedWalkEvent::DirError { path, message } => WalkEvent::DirError {
                path: path.as_str(),
                message: message.clone(),
            },
            OwnedWalkEvent::EntrySkipped { path, reason } => WalkEvent::EntrySkipped {
                path: path.as_str(),
                reason: *reason,
            },
            OwnedWalkEvent::SymlinkCycleSkipped { from, target } => WalkEvent::SymlinkCycleSkipped {
                from: from.as_str(),
                target: target.clone(),
            },
        }
    }
}

/// The contents of a list of events.
pub open spec fn event_views(v: Seq<OwnedWalkEvent>) -> Seq<WalkEventView> {
    v.map_values(|e: OwnedWalkEvent| e@)
}

/// What kind of thing a path leads to.
#[derive(Clone, Copy, Debug, PartialEq, Eq, Structural)]
pub enum FileKind {
    Directory,
    File,
    Symlink,
    Other,
}

/// What the file system says of one file.
#[derive(Clone, Copy, Debug)]
pub struct FileFacts {
    pub kind: FileKind,
    pub size: u64,
    /// 100ns ticks since 1601-01-01 UTC; `0` if unknown.
    pub mtime: i64,
    /// Windows file attributes.
    pub attributes: u32,
    /// The reparse tag, where the file has a reparse point and the tag could be read.
    pub reparse_tag: Option<u32>,
    /// Unix inode number.
    pub inode: u64,
    /// Unix device number.
    pub device: u64,
}

/// FILETIME ticks of a moment this many nanoseconds after the Unix epoch; `None` is unknown.
pub open spec fn ticks_after_epoch(nanos: Option<u128>) -> int {
    match nanos {
        Some(n) => UNIX_EPOCH_AS_FILETIME + n as int / 100,
        None => 0,
    }
}

/// FILETIME ticks of a modification time, given in nanoseconds after the Unix epoch. Unknown
/// times, and times before the epoch, are `0`.
pub fn filetime_ticks(nanos: Option<u128>) -> (r: i64)
    requires
        ticks_after_epoch(nanos) <= i64::MAX,
    ensures
        r == ticks_after_epoch(nanos),
{
    match nanos {
        Some(n) => {
            let ticks: u128 = n / 100;
            UNIX_EPOCH_AS_FILETIME + ticks as i64
        },
        None => 0,
    }
}

/// A file's number and volume, as the metadata of the platform gives them.
pub open spec fn inode_of(platform: Platform, facts: FileFacts) -> (u64, Option<Seq<char>>) {
    if platform is Unix {
        (facts.inode, Some("linux-dev-"@ + decimal(facts.device as nat)))
    } else {
        (0, None)
    }
}

/// A file's number and volume. On Unix both come from the metadata, so that hard links are seen
/// to be one file; on Windows they are resolved later.
pub fn inode_identity(platform: Platform, facts: &FileFacts) -> (r: (u64, Option<String>))
    ensures
        r.0 == inode_of(platform, *facts).0,
        optional_text(r.1) == inode_of(platform, *facts).1,
{
    match platform {
        Platform::Unix => {
            let mut volume = "linux-dev-".to_owned();
            volume.append(decimal_string(facts.device).as_str());
            (facts.inode, Some(volume))
        },
        Platform::Windows => (0, None),
    }
}

/// The Windows attributes of a file; other platforms have none.
pub open spec fn attributes_of(platform: Platform, facts: FileFacts) -> u32 {
    if platform is Windows {
        facts.attributes
    } else {
        0
    }
}

/// The tag of a reparse point, which only files with the reparse attribute have.
pub open spec fn tag_if_reparse(attributes: u32, reparse_tag: Option<u32>) -> Option<u32> {
    if attributes & FILE_ATTRIBUTE_REPARSE_POINT != 0 {
        reparse_tag
    } else {
        None
    }
}

fn effective_tag(attributes: u32, reparse_tag: Option<u32>) -> (r: Option<u32>)
    ensures
        r == tag_if_reparse(attributes, reparse_tag),
{
    if attributes & FILE_ATTRIBUTE_REPARSE_POINT != 0 {
        reparse_tag
    } else {
        None
    }
}

/// The inventory entry of a file found by reading a directory.
pub open spec fn entry_for(platform: Platform, path: Seq<char>, facts: FileFacts) -> FileEntryView {
    let attributes = attributes_of(platform, facts);
    FileEntryView {
        path,
        size: facts.size,
        mtime: facts.mtime,
        file_ref: inode_of(platform, facts).0,
        parent_ref: 0,
        usn: 0,
        attributes,
        volume_guid: inode_of(platform, facts).1,
        placeholder: classified(platform, attributes, tag_if_reparse(attributes, facts.reparse_tag)),
    }
}

pub(crate) fn entry_from(platform: Platform, path: &str, facts: &FileFacts) -> (r: FileEntry)
    ensures
        r@ == entry_for(platform, path@, *facts),
{
    let attributes: u32 = match platform {
        Platform::Windows => facts.attributes,
        Platform::Unix => 0,
    };
    let tag = effective_tag(attributes, facts.reparse_tag);
    let (file_ref, volume_guid) = inode_identity(platform, facts);
    FileEntry {
        path: path.to_owned(),
        size: facts.size,
        mtime: facts.mtime,
        file_ref,
        parent_ref: 0,
        usn: 0,
        attributes,
        volume_guid,
        placeholder: classify(platform, attributes, tag),
    }
}

/// Whether a path is one of superdeduper's own: a scratch directory (`.superdeduper-...`), a
/// safely renamed duplicate (`....superdeduper`) or a leftover of an interrupted clone.
pub open spec fn is_own_footprint(platform: Platform, path: Seq<char>) -> bool {
    match final_name(platform, path) {
        Some(name) => ".superdeduper-"@.is_prefix_of(name) || ".superdeduper"@.is_suffix_of(name)
            || ".superdeduper-clone-tmp"@.is_suffix_of(name),
        None => false,
    }
}

/// Whether a path is one of superdeduper's own, which are never scanned.
pub fn is_superdeduper_self_path(platform: Platform, path: &str) -> (r: bool)
    ensures
        r == is_own_footprint(platform, path@),
{
    match file_name_of(platform, path) {
        Some(name) => {
            let n = name.as_str();
            begins_with(n, ".superdeduper-") || finishes_with(n, ".superdeduper")
                || finishes_with(n, ".superdeduper-clone-tmp")
        },
        None => false,
    }
}

/// How many files, and of how many bytes, the exclusion rules have dropped. Both counts wrap.
#[derive(Clone, Copy, Debug, PartialEq, Eq, Structural)]
pub struct ExclusionTally {
    pub files: u64,
    pub bytes: u64,
}

impl ExclusionTally {
    /// The counts after one more file of this size.
    pub open spec fn with(self, size: u64) -> ExclusionTally {
        ExclusionTally {
            files: ((self.files + 1) % 0x1_0000_0000_0000_0000) as u64,
            bytes: ((self.bytes + size) % 0x1_0000_0000_0000_0000) as u64,
        }
    }

    /// Counts one more file of this size.
    pub fn record(&mut self, size: u64)
        ensures
            *final(self) == old(self).with(size),
    {
        self.files = self.files.wrapping_add(1);
        self.bytes = self.bytes.wrapping_add(size);
    }
}

/// Whether the exclusion rules drop a path. While they are switched off they drop nothing.
pub open spec fn is_excluded(cfg: ScanConfig, verdicts: PathVerdicts) -> bool {
    cfg.exclusions_enabled && verdicts.excluded
}

/// Whether the exclusion rules drop a file, which is counted if they do.
pub fn dropped_by_exclusions(
    cfg: &ScanConfig,
    verdicts: &PathVerdicts,
    size: u64,
    tally: &mut ExclusionTally,
) -> (r: bool)
    ensures
        r == is_excluded(*cfg, *verdicts),
        *final(tally) == (if r { old(tally).with(size) } else { *old(tally) }),
{
    if !cfg.exclusions_enabled {
        return false;
    }
    if verdicts.excluded {
        tally.record(size);
        return true;
    }
    false
}

/// What becomes of one entry.
pub enum EntryOutcome {
    /// Left out, for this reason.
    Skip(&'static str),
    /// A directory, to be enumerated in turn.
    Descend,
    /// An eligible file.
    Take(FileEntry),
}

/// An outcome with its texts as character sequences.
pub enum OutcomeView {
    Skip(Seq<char>),
    Descend,
    Take(FileEntryView),
}

impl View for EntryOutcome {
    type V = OutcomeView;

    open spec fn view(&self) -> OutcomeView {
        match self {
            EntryOutcome::Skip(reason) => OutcomeView::Skip(reason@),
            EntryOutcome::Descend => OutcomeView::Descend,
            EntryOutcome::Take(entry) => OutcomeView::Take(entry@),
        }
    }
}

/// What the filters say of a file of this size: the reason to leave it out, if there is one.
/// The size limits come first, then the exclusion rules, then the patterns.
pub open spec fn filter_reason(cfg: ScanConfig, size: u64, verdicts: PathVerdicts) -> Option<Seq<char>> {
    if size < cfg.min_size {
        Some("below min-size"@)
    } else if !size_in_range(cfg, size) {
        Some("above max-size"@)
    } else if is_excluded(cfg, verdicts) {
        Some("Settings → Exclusions"@)
    } else if !passes_globs(verdicts) {
        Some("filtered by include/exclude"@)
    } else {
        None
    }
}

/// Whether judging a file of this size gets as far as the exclusion rules, and they drop it.
pub open spec fn counts_as_excluded(cfg: ScanConfig, size: u64, verdicts: PathVerdicts) -> bool {
    size_in_range(cfg, size) && is_excluded(cfg, verdicts)
}

/// Why a file of this size is left out, if it is. A file that the exclusion rules drop is counted.
pub fn filter_file(
    cfg: &ScanConfig,
    size: u64,
    verdicts: &PathVerdicts,
    tally: &mut ExclusionTally,
) -> (r: Option<&'static str>)
    ensures
        match r {
            Some(reason) => filter_reason(*cfg, size, *verdicts) == Some(reason@),
            None => filter_reason(*cfg, size, *verdicts) is None,
        },
        *final(tally) == (if counts_as_excluded(*cfg, size, *verdicts) {
            old(tally).with(size)
        } else {
            *old(tally)
        }),
{
    if size < cfg.min_size {
        return Some("below min-size");
    }
    match cfg.max_size {
        Some(max) => {
            if size > max {
                return Some("above max-size");
            }
        },
        None => {},
    }
    if dropped_by_exclusions(cfg, verdicts, size, tally) {
        return Some("Settings → Exclusions");
    }
    if !path_passes_globs(verdicts) {
        return Some("filtered by include/exclude");
    }
    None
}

/// The outcome for a file that the filters decide on.
pub open spec fn file_outcome(
    cfg: ScanConfig,
    size: u64,
    verdicts: PathVerdicts,
    entry: FileEntryView,
) -> OutcomeView {
    match filter_reason(cfg, size, verdicts) {
        Some(reason) => OutcomeView::Skip(reason),
        None => OutcomeView::Take(entry),
    }
}

/// What was found out about one entry of a directory that was read entry by entry.
pub struct EntryFacts {
    pub path: String,
    /// The entry itself, not followed; `None` where the lookup failed.
    pub own: Option<FileFacts>,
    /// What a symbolic link leads to; `None` where the lookup failed.
    pub target: Option<FileFacts>,
    /// What the path rules say of the path.
    pub verdicts: PathVerdicts,
}

/// The facts to go by: those of the target for a followed link, else the entry's own. `Err` is
/// the reason to leave the entry out.
pub open spec fn resolved(cfg: ScanConfig, own: Option<FileFacts>, target: Option<FileFacts>) -> Result<
    FileFacts,
    Seq<char>,
> {
    match own {
        None => Err("metadata failed"@),
        Some(facts) => if facts.kind is Symlink {
            if !cfg.follow_links {
                Err("symlink (use --follow-links to include)"@)
            } else {
                match target {
                    Some(t) => Ok(t),
                    None => Err("symlink target unreadable"@),
                }
            }
        } else {
            Ok(facts)
        },
    }
}

/// What becomes of one entry of a directory that was read entry by entry.
pub open spec fn entry_outcome(
    cfg: ScanConfig,
    path: Seq<char>,
    own: Option<FileFacts>,
    target: Option<FileFacts>,
    verdicts: PathVerdicts,
) -> OutcomeView {
    match resolved(cfg, own, target) {
        Err(reason) => OutcomeView::Skip(reason),
        Ok(facts) => if is_own_footprint(cfg.platform, path) {
            OutcomeView::Skip("superdeduper self-footprint"@)
        } else if facts.kind is Directory {
            OutcomeView::Descend
        } else if !(facts.kind is File) {
            OutcomeView::Skip("not a regular file"@)
        } else {
            file_outcome(cfg, facts.size, verdicts, entry_for(cfg.platform, path, facts))
        },
    }
}

/// The size of the file that judging an entry brings before the filters, if it comes to that.
pub open spec fn judged_size(
    cfg: ScanConfig,
    path: Seq<char>,
    own: Option<FileFacts>,
    target: Option<FileFacts>,
) -> Option<u64> {
    match resolved(cfg, own, target) {
        Err(_) => None,
        Ok(facts) => if !is_own_footprint(cfg.platform, path) && facts.kind is File {
            Some(facts.size)
        } else {
            None
        },
    }
}

/// The exclusion count after judging a file of this size, if one was judged.
pub open spec fn tally_after(
    cfg: ScanConfig,
    tally: ExclusionTally,
    size: Option<u64>,
    verdicts: PathVerdicts,
) -> ExclusionTally {
    match size {
        Some(n) => if counts_as_excluded(cfg, n, verdicts) {
            tally.with(n)
        } else {
            tally
        },
        None => tally,
    }
}

/// Decides on one entry of a directory that was read entry by entry.
pub fn judge_entry(cfg: &ScanConfig, entry: &EntryFacts, tally: &mut ExclusionTally) -> (r: EntryOutcome)
    ensures
        r@ == entry_outcome(*cfg, entry.path@, entry.own, entry.target, entry.verdicts),
        *final(tally) == tally_after(
            *cfg,
            *old(tally),
            judged_size(*cfg, entry.path@, entry.own, entry.target),
            entry.verdicts,
        ),
{
    let facts: FileFacts = match entry.own {
        None => {
            return EntryOutcome::Skip("metadata failed");
        },
        Some(own) => match own.kind {
            FileKind::Symlink => {
                if !cfg.follow_links {
                    return EntryOutcome::Skip("symlink (use --follow-links to include)");
                }
                match entry.target {
                    Some(t) => t,
                    None => {
                        return EntryOutcome::Skip("symlink target unreadable");
                    },
                }
            },
            _ => own,
        },
    };
    if is_superdeduper_self_path(cfg.platform, entry.path.as_str()) {
        return EntryOutcome::Skip("superdeduper self-footprint");
    }
    match facts.kind {
        FileKind::Directory => EntryOutcome::Descend,
        FileKind::File => match filter_file(cfg, facts.size, &entry.verdicts, tally) {
            Some(reason) => EntryOutcome::Skip(reason),
            None => EntryOutcome::Take(entry_from(cfg.platform, entry.path.as_str(), &facts)),
        },
        _ => EntryOutcome::Skip("not a regular file"),
    }
}

/// One entry of a directory that the system listed in a batch, with sizes and file numbers.
pub struct BatchEntry {
    pub name: String,
    pub is_dir: bool,
    pub size: u64,
    pub mtime: i64,
    pub attributes: u32,
    pub file_id: u64,
    /// The reparse tag, where the entry has a reparse point and the tag could be read.
    pub reparse_tag: Option<u32>,
    /// What a symbolic link leads to; `None` where the lookup failed.
    pub target: Option<FileFacts>,
    /// What the path rules say of the path.
    pub verdicts: PathVerdicts,
}

/// Whether a batch entry is a symbolic link.
pub open spec fn is_symlink(entry: BatchEntry) -> bool {
    tag_if_reparse(entry.attributes, entry.reparse_tag) == Some(IO_REPARSE_TAG_SYMLINK)
}

/// The inventory entry of the target of a symbolic link found in a batch. Its number is resolved
/// later.
pub open spec fn linked_entry(platform: Platform, path: Seq<char>, target: FileFacts) -> FileEntryView {
    let attributes = attributes_of(platform, target);
    FileEntryView {
        path,
        size: target.size,
        mtime: target.mtime,
        file_ref: 0,
        parent_ref: 0,
        usn: 0,
        attributes,
        volume_guid: None,
        placeholder: classified(platform, attributes, tag_if_reparse(attributes, target.reparse_tag)),
    }
}

/// The inventory entry of a file found in a batch, which carries its number and volume.
pub open spec fn batch_file_entry(
    platform: Platform,
    path: Seq<char>,
    entry: BatchEntry,
    volume: Option<Seq<char>>,
) -> FileEntryView {
    FileEntryView {
        path,
        size: entry.size,
        mtime: entry.mtime,
        file_ref: entry.file_id,
        parent_ref: 0,
        usn: 0,
        attributes: entry.attributes,
        volume_guid: volume,
        placeholder: classified(
            platform,
            entry.attributes,
            tag_if_reparse(entry.attributes, entry.reparse_tag),
        ),
    }
}

/// What becomes of one entry of a directory that was listed in a batch.
pub open spec fn batch_outcome(
    cfg: ScanConfig,
    path: Seq<char>,
    entry: BatchEntry,
    volume: Option<Seq<char>>,
) -> OutcomeView {
    if is_own_footprint(cfg.platform, path) {
        OutcomeView::Skip("superdeduper self-footprint"@)
    } else if is_symlink(entry) {
        if !cfg.follow_links {
            OutcomeView::Skip("symlink (use --follow-links to include)"@)
        } else {
            match entry.target {
                None => OutcomeView::Skip("symlink target unreadable"@),
                Some(t) => if t.kind is Directory {
                    OutcomeView::Descend
                } else if !(t.kind is File) {
                    OutcomeView::Skip("not a regular file"@)
                } else {
                    file_outcome(cfg, t.size, entry.verdicts, linked_entry(cfg.platform, path, t))
                },
            }
        }
    } else if entry.is_dir {
        OutcomeView::Descend
    } else {
        file_outcome(
            cfg,
            entry.size,
            entry.verdicts,
            batch_file_entry(cfg.platform, path, entry, volume),
        )
    }
}

/// The size of the file that judging a batch entry brings before the filters, if it comes to that.
pub open spec fn batch_judged_size(cfg: ScanConfig, path: Seq<char>, entry: BatchEntry) -> Option<u64> {
    if is_own_footprint(cfg.platform, path) {
        None
    } else if is_symlink(entry) {
        match entry.target {
            Some(t) => if cfg.follow_links && t.kind is File {
                Some(t.size)
            } else {
                None
            },
            None => None,
        }
    } else if entry.is_dir {
        None
    } else {
        Some(entry.size)
    }
}

/// Decides on one entry of a directory that was listed in a batch.
pub fn judge_batch_entry(
    cfg: &ScanConfig,
    path: &str,
    entry: &BatchEntry,
    volume: &Option<String>,
    tally: &mut ExclusionTally,
) -> (r: EntryOutcome)
    ensures
        r@ == batch_outcome(*cfg, path@, *entry, optional_text(*volume)),
        *final(tally) == tally_after(
            *cfg,
            *old(tally),
            batch_judged_size(*cfg, path@, *entry),
            entry.verdicts,
        ),
{
    if is_superdeduper_self_path(cfg.platform, path) {
        return EntryOutcome::Skip("superdeduper self-footprint");
    }
    let tag = effective_tag(entry.attributes, entry.reparse_tag);
    let link: bool = match tag {
        Some(t) => t == IO_REPARSE_TAG_SYMLINK,
        None => false,
    };
    if link {
        if !cfg.follow_links {
            return EntryOutcome::Skip("symlink (use --follow-links to include)");
        }
        let target: FileFacts = match entry.target {
            Some(t) => t,
            None => {
                return EntryOutcome::Skip("symlink target unreadable");
            },
        };
        return match target.kind {
            FileKind::Directory => EntryOutcome::Descend,
            FileKind::File => match filter_file(cfg, target.size, &entry.verdicts, tally) {
                Some(reason) => EntryOutcome::Skip(reason),
                None => {
                    let attributes: u32 = match cfg.platform {
                        Platform::Windows => target.attributes,
                        Platform::Unix => 0,
                    };
                    let target_tag = effective_tag(attributes, target.reparse_tag);
                    EntryOutcome::Take(
                        FileEntry {
                            path: path.to_owned(),
                            size: target.size,
                            mtime: target.mtime,
                            file_ref: 0,
                            parent_ref: 0,
                            usn: 0,
                            attributes,
                            volume_guid: None,
                            placeholder: classify(cfg.platform, attributes, target_tag),
                        },
                    )
                },
            },
            _ => EntryOutcome::Skip("not a regular file"),
        };
    }
    if entry.is_dir {
        return EntryOutcome::Descend;
    }
    match filter_file(cfg, entry.size, &entry.verdicts, tally) {
        Some(reason) => EntryOutcome::Skip(reason),
        None => EntryOutcome::Take(
            FileEntry {
                path: path.to_owned(),
                size: entry.size,
                mtime: entry.mtime,
                file_ref: entry.file_id,
                parent_ref: 0,
                usn: 0,
                attributes: entry.attributes,
                volume_guid: volume.clone(),
                placeholder: classify(cfg.platform, entry.attributes, tag),
            },
        ),
    }
}

/// Whether a batch entry and an entry that was looked up by itself describe the same thing.
pub open spec fn same_thing(batch: BatchEntry, own: FileFacts, target: Option<FileFacts>) -> bool {
    &&& own.kind == (if is_symlink(batch) {
        FileKind::Symlink
    } else if batch.is_dir {
        FileKind::Directory
    } else {
        FileKind::File
    })
    &&& own.size == batch.size
    &&& target == batch.target
}

/// Listing a directory in a batch decides as reading it entry by entry does: the same entries are
/// gone into, the same files are taken with the same path and size, and the rest is left out.
pub proof fn batch_decides_like_single_entries(
    cfg: ScanConfig,
    path: Seq<char>,
    batch: BatchEntry,
    own: FileFacts,
    volume: Option<Seq<char>>,
)
    requires
        same_thing(batch, own, batch.target),
    ensures
        ({
            let a = batch_outcome(cfg, path, batch, volume);
            let b = entry_outcome(cfg, path, Some(own), batch.target, batch.verdicts);
            &&& a is Descend == b is Descend
            &&& a is Skip == b is Skip
            &&& a is Take ==> a->Take_0.path == b->Take_0.path && a->Take_0.size == b->Take_0.size
        }),
{
}

/// Every file that is taken lies within the size limits, is not excluded, passes the patterns,
/// is not one of superdeduper's own, and keeps the path it was found under.
pub proof fn taken_files_are_eligible(
    cfg: ScanConfig,
    path: Seq<char>,
    own: Option<FileFacts>,
    target: Option<FileFacts>,
    verdicts: PathVerdicts,
)
    ensures
        entry_outcome(cfg, path, own, target, verdicts) matches OutcomeView::Take(e) ==> {
            &&& size_in_range(cfg, e.size)
            &&& !is_excluded(cfg, verdicts)
            &&& passes_globs(verdicts)
            &&& !is_own_footprint(cfg.platform, path)
            &&& e.path == path
        },
{
}

/// Without following links, nothing is decided by what a link leads to.
pub proof fn unfollowed_links_are_never_looked_through(
    cfg: ScanConfig,
    path: Seq<char>,
    own: Option<FileFacts>,
    a: Option<FileFacts>,
    b: Option<FileFacts>,
    verdicts: PathVerdicts,
)
    requires
        !cfg.follow_links,
    ensures
        entry_outcome(cfg, path, own, a, verdicts) == entry_outcome(cfg, path, own, b, verdicts),
{
}

/// Whether the file at place `i` is the first of its path. Spellings of one path count as one.
pub open spec fn first_of_its_path(platform: Platform, files: Seq<FileEntryView>, i: int) -> bool {
    forall|j: int|
        0 <= j < i ==> components(platform, (#[trigger] files[j]).path) != components(
            platform,
            files[i].path,
        )
}

/// The files without those whose path came before.
pub open spec fn deduped(platform: Platform, files: Seq<FileEntryView>) -> Seq<FileEntryView>
    decreases files.len(),
{
    if files.len() == 0 {
        Seq::empty()
    } else {
        let init = deduped(platform, files.drop_last());
        if first_of_its_path(platform, files, files.len() - 1) {
            init.push(files.last())
        } else {
            init
        }
    }
}

/// The event of each file whose path came before.
pub open spec fn duplicate_events(platform: Platform, files: Seq<FileEntryView>) -> Seq<WalkEventView>
    decreases files.len(),
{
    if files.len() == 0 {
        Seq::empty()
    } else {
        let init = duplicate_events(platform, files.drop_last());
        if first_of_its_path(platform, files, files.len() - 1) {
            init
        } else {
            init.push(
                WalkEventView::EntrySkipped {
                    path: files.last().path,
                    reason: "duplicate path (overlapping roots or unresolved alias)"@,
                },
            )
        }
    }
}

/// Drops the files whose path came before, and tells of each one.
pub fn dedup_by_path(
    platform: Platform,
    entries: Vec<FileEntry>,
    events: &mut Vec<OwnedWalkEvent>,
) -> (r: Vec<FileEntry>)
    ensures
        entry_views(r@) == deduped(platform, entry_views(entries@)),
        event_views(final(events)@) == event_views(old(events)@) + duplicate_events(
            platform,
            entry_views(entries@),
        ),
{
    let ghost all = entry_views(entries@);
    let mut seen = PathSet::new();
    let mut kept: Vec<FileEntry> = Vec::with_capacity(entries.len());
    proof {
        assert(all.subrange(0, 0) =~= Seq::<FileEntryView>::empty());
        assert(entry_views(kept@) =~= Seq::<FileEntryView>::empty());
        assert(event_views(events@) =~= event_views(old(events)@) + Seq::<WalkEventView>::empty());
    }
    for entry in it: entries
        invariant
            all == entry_views(it.seq()),
            entry_views(kept@) == deduped(platform, all.subrange(0, it.index() as int)),
            event_views(events@) == event_views(old(events)@) + duplicate_events(
                platform,
                all.subrange(0, it.index() as int),
            ),
            forall|c: Seq<Seq<char>>|
                seen@.contains(c) <==> exists|j: int|
                    0 <= j < it.index() && components(platform, (#[trigger] all[j]).path) == c,
    {
        let ghost i = it.index() as int;
        let ghost upto = all.subrange(0, i + 1);
        let ghost key = components(platform, entry.path@);
        let ghost before = seen@;
        proof {
            assert(entry@ == all[i]);
            assert(upto.drop_last() =~= all.subrange(0, i));
            assert(upto.last() == entry@);
            assert(first_of_its_path(platform, upto, i) == !before.contains(key)) by {
                if before.contains(key) {
                    let j = choose|j: int|
                        0 <= j < i && components(platform, (#[trigger] all[j]).path) == key;
                    assert(upto[j] == all[j]);
                } else {
                    assert forall|j: int| 0 <= j < i implies components(
                        platform,
                        (#[trigger] upto[j]).path,
                    ) != key by {
                        assert(upto[j] == all[j]);
                    }
                }
            }
        }
        if seen.insert(components_of(platform, entry.path.as_str())) {
            let ghost old_kept = kept@;
            kept.push(entry);
            assert(entry_views(kept@) =~= entry_views(old_kept).push(all[i]));
        } else {
            let ghost old_events = events@;
            let event = OwnedWalkEvent::EntrySkipped {
                path: entry.path,
                reason: "duplicate path (overlapping roots or unresolved alias)",
            };
            let ghost told = event@;
            events.push(event);
            assert(event_views(events@) =~= event_views(old_events).push(told));
            assert(event_views(events@) =~= event_views(old(events)@) + duplicate_events(platform, upto));
        }
        proof {
            assert forall|c: Seq<Seq<char>>|
                seen@.contains(c) <==> exists|j: int|
                    0 <= j < i + 1 && components(platform, (#[trigger] all[j]).path) == c by {
                if seen@.contains(c) {
                    if c == key {
                        assert(components(platform, all[i].path) == c);
                    } else {
                        assert(before.contains(c));
                    }
                }
            }
        }
    }
    assert(all.subrange(0, all.len() as int) =~= all);
    kept
}

/// Whether one of the files has a path with these components.
pub open spec fn has_path(platform: Platform, files: Seq<FileEntryView>, c: Seq<Seq<char>>) -> bool {
    exists|i: int| 0 <= i < files.len() && components(platform, (#[trigger] files[i]).path) == c
}

proof fn lemma_deduped_keeps_path(platform: Platform, files: Seq<FileEntryView>, c: Seq<Seq<char>>)
    ensures
        has_path(platform, deduped(platform, files), c) == has_path(platform, files, c),
    decreases files.len(),
{
    if files.len() > 0 {
        let init = files.drop_last();
        let n = files.len() - 1;
        let d = deduped(platform, init);
        let e = deduped(platform, files);
        lemma_deduped_keeps_path(platform, init, c);
        if has_path(platform, files, c) {
            let i = choose|i: int|
                0 <= i < files.len() && components(platform, (#[trigger] files[i]).path) == c;
            if i < n {
                assert(init[i] == files[i]);
                assert(has_path(platform, init, c));
            } else if first_of_its_path(platform, files, n) {
                assert(e[d.len() as int] == files[n]);
            } else {
                let j = choose|j: int|
                    0 <= j < n && components(platform, (#[trigger] files[j]).path) == components(
                        platform,
                        files[n].path,
                    );
                assert(init[j] == files[j]);
                assert(has_path(platform, init, c));
            }
            if has_path(platform, d, c) {
                let k = choose|k: int|
                    0 <= k < d.len() && components(platform, (#[trigger] d[k]).path) == c;
                assert(e[k] == d[k]);
            }
            assert(has_path(platform, e, c));
        }
        if has_path(platform, e, c) {
            let k = choose|k: int|
                0 <= k < e.len() && components(platform, (#[trigger] e[k]).path) == c;
            if k < d.len() {
                assert(d[k] == e[k]);
                assert(has_path(platform, init, c));
                let i = choose|i: int|
                    0 <= i < init.len() && components(platform, (#[trigger] init[i]).path) == c;
                assert(files[i] == init[i]);
            } else {
                assert(files[n] == e[k]);
            }
        }
    }
}

proof fn lemma_deduped_is_selected(platform: Platform, files: Seq<FileEntryView>, k: int)
    requires
        0 <= k < deduped(platform, files).len(),
    ensures
        files.contains(deduped(platform, files)[k]),
    decreases files.len(),
{
    let init = files.drop_last();
    let d = deduped(platform, init);
    let e = deduped(platform, files);
    if k < d.len() {
        lemma_deduped_is_selected(platform, init, k);
        let i = choose|i: int| 0 <= i < init.len() && init[i] == d[k];
        assert(files[i] == e[k]);
    } else {
        assert(files[files.len() - 1] == e[k]);
    }
}

/// Dropping duplicates loses no path and adds no file.
pub proof fn deduped_is_complete(platform: Platform, files: Seq<FileEntryView>)
    ensures
        forall|c: Seq<Seq<char>>|
            has_path(platform, deduped(platform, files), c) == has_path(platform, files, c),
        forall|k: int|
            0 <= k < deduped(platform, files).len() ==> files.contains(
                #[trigger] deduped(platform, files)[k],
            ),
{
    assert forall|c: Seq<Seq<char>>|
        has_path(platform, deduped(platform, files), c) == has_path(platform, files, c) by {
        lemma_deduped_keeps_path(platform, files, c);
    }
    assert forall|k: int| 0 <= k < deduped(platform, files).len() implies files.contains(
        #[trigger] deduped(platform, files)[k],
    ) by {
        lemma_deduped_is_selected(platform, files, k);
    }
}

/// Dropping duplicates leaves no path twice.
pub proof fn deduped_paths_are_distinct(platform: Platform, files: Seq<FileEntryView>)
    ensures
        forall|a: int, b: int|
            0 <= a < b < deduped(platform, files).len() ==> components(
                platform,
                (#[trigger] deduped(platform, files)[a]).path,
            ) != components(platform, (#[trigger] deduped(platform, files)[b]).path),
    decreases files.len(),
{
    if files.len() > 0 {
        let init = files.drop_last();
        let n = files.len() - 1;
        deduped_paths_are_distinct(platform, init);
        let d = deduped(platform, init);
        let e = deduped(platform, files);
        assert forall|a: int, b: int| 0 <= a < b < e.len() implies components(
            platform,
            (#[trigger] e[a]).path,
        ) != components(platform, (#[trigger] e[b]).path) by {
            assert(e[a] == d[a]);
            if b < d.len() {
                assert(e[b] == d[b]);
            } else {
                lemma_deduped_is_selected(platform, init, a);
                let i = choose|i: int| 0 <= i < init.len() && init[i] == d[a];
                assert(files[i] == d[a]);
                assert(e[b] == files[n]);
            }
        }
    }
}

/// Files whose paths all differ pass through unchanged, and nothing is told.
pub proof fn distinct_paths_pass_through(platform: Platform, files: Seq<FileEntryView>)
    requires
        forall|a: int, b: int|
            0 <= a < b < files.len() ==> components(platform, (#[trigger] files[a]).path)
                != components(platform, (#[trigger] files[b]).path),
    ensures
        deduped(platform, files) == files,
        duplicate_events(platform, files) == Seq::<WalkEventView>::empty(),
    decreases files.len(),
{
    if files.len() > 0 {
        let init = files.drop_last();
        assert forall|a: int, b: int| 0 <= a < b < init.len() implies components(
            platform,
            (#[trigger] init[a]).path,
        ) != components(platform, (#[trigger] init[b]).path) by {
            assert(init[a] == files[a] && init[b] == files[b]);
        }
        distinct_paths_pass_through(platform, init);
        assert(deduped(platform, files) =~= files);
    } else {
        assert(deduped(platform, files) =~= files);
    }
}

/// Dropping duplicates a second time changes nothing.
pub proof fn dropping_again_changes_nothing(platform: Platform, files: Seq<FileEntryView>)
    ensures
        deduped(platform, deduped(platform, files)) == deduped(platform, files),
        duplicate_events(platform, deduped(platform, files)) == Seq::<WalkEventView>::empty(),
{
    deduped_paths_are_distinct(platform, files);
    distinct_paths_pass_through(platform, deduped(platform, files));
}

/// As many files are kept as are not told of as duplicates.
pub proof fn every_duplicate_is_told(platform: Platform, files: Seq<FileEntryView>)
    ensures
        deduped(platform, files).len() + duplicate_events(platform, files).len() == files.len(),
    decreases files.len(),
{
    if files.len() > 0 {
        every_duplicate_is_told(platform, files.drop_last());
    }
}

/// One entry of a directory, as the system handed it out.
pub enum ListedEntry {
    /// An entry with what was found out about it.
    Entry(EntryFacts),
    /// The system could not hand the entry out, for this reason.
    Failed(String),
}

/// What came of opening a directory.
pub enum Listing {
    PermissionDenied,
    NotFound,
    Failed(String),
    Opened(Vec<ListedEntry>),
}

/// What is known after a number of entries: the files taken, the directories to go into with
/// their depth, what happened, and what the exclusion rules dropped.
pub struct FolderView {
    pub entries: Seq<FileEntryView>,
    pub subdirs: Seq<(Seq<char>, u32)>,
    pub events: Seq<WalkEventView>,
    pub tally: ExclusionTally,
}

/// The depth below this one. Depths wrap.
pub open spec fn deeper(depth: u32) -> u32 {
    ((depth + 1) % 0x1_0000_0000) as u32
}

/// The event that an outcome is told by. Directories are told of when they are entered.
pub open spec fn outcome_events(path: Seq<char>, outcome: OutcomeView) -> Seq<WalkEventView> {
    match outcome {
        OutcomeView::Skip(reason) => seq![WalkEventView::EntrySkipped { path, reason }],
        OutcomeView::Descend => Seq::empty(),
        OutcomeView::Take(e) => seq![WalkEventView::FileFound { path, size: e.size }],
    }
}

/// The files that an outcome adds.
pub open spec fn outcome_files(outcome: OutcomeView) -> Seq<FileEntryView> {
    match outcome {
        OutcomeView::Take(e) => seq![e],
        _ => Seq::empty(),
    }
}

/// The state of a folder after one more entry.
pub open spec fn folder_step(
    cfg: ScanConfig,
    dir: Seq<char>,
    depth: u32,
    state: FolderView,
    entry: ListedEntry,
) -> FolderView {
    match entry {
        ListedEntry::Failed(message) => FolderView {
            events: state.events.push(
                WalkEventView::DirError { path: dir, message: "entry error: "@ + message@ },
            ),
            ..state
        },
        ListedEntry::Entry(e) => {
            let outcome = entry_outcome(cfg, e.path@, e.own, e.target, e.verdicts);
            FolderView {
                entries: state.entries + outcome_files(outcome),
                subdirs: if outcome is Descend {
                    state.subdirs.push((e.path@, deeper(depth)))
                } else {
                    state.subdirs
                },
                events: state.events + outcome_events(e.path@, outcome),
                tally: tally_after(
                    cfg,
                    state.tally,
                    judged_size(cfg, e.path@, e.own, e.target),
                    e.verdicts,
                ),
            }
        },
    }
}

/// The state of a folder after these entries.
pub open spec fn folder_after(
    cfg: ScanConfig,
    dir: Seq<char>,
    depth: u32,
    start: ExclusionTally,
    entries: Seq<ListedEntry>,
) -> FolderView
    decreases entries.len(),
{
    if entries.len() == 0 {
        FolderView {
            entries: Seq::empty(),
            subdirs: Seq::empty(),
            events: Seq::empty(),
            tally: start,
        }
    } else {
        folder_step(
            cfg,
            dir,
            depth,
            folder_after(cfg, dir, depth, start, entries.drop_last()),
            entries.last(),
        )
    }
}

/// The result of enumerating one folder, without going into the directories in it.
pub struct FolderResult {
    /// The files taken.
    pub entries: Vec<FileEntry>,
    /// The directories found, with the depth to enumerate them at.
    pub subdirs: Vec<(String, u32)>,
    /// What happened, in order.
    pub events: Vec<OwnedWalkEvent>,
    /// Whether the walk was cancelled in this folder.
    pub cancelled: bool,
}

/// The contents of a list of directories.
pub open spec fn subdir_views(v: Seq<(String, u32)>) -> Seq<(Seq<char>, u32)> {
    v.map_values(|d: (String, u32)| (d.0@, d.1))
}

impl FolderResult {
    /// Whether the result holds the contents of `state`.
    pub open spec fn holds(self, state: FolderView) -> bool {
        &&& entry_views(self.entries@) == state.entries
        &&& subdir_views(self.subdirs@) == state.subdirs
        &&& event_views(self.events@) == state.events
    }

    /// Nothing found yet.
    pub fn new() -> (r: Self)
        ensures
            entry_views(r.entries@) == Seq::<FileEntryView>::empty(),
            subdir_views(r.subdirs@) == Seq::<(Seq<char>, u32)>::empty(),
            event_views(r.events@) == Seq::<WalkEventView>::empty(),
            r.entries@.len() == 0,
            r.subdirs@.len() == 0,
            r.events@.len() == 0,
            !r.cancelled,
    {
        let r = FolderResult {
            entries: Vec::new(),
            subdirs: Vec::new(),
            events: Vec::new(),
            cancelled: false,
        };
        assert(entry_views(r.entries@) =~= Seq::<FileEntryView>::empty());
        assert(subdir_views(r.subdirs@) =~= Seq::<(Seq<char>, u32)>::empty());
        assert(event_views(r.events@) =~= Seq::<WalkEventView>::empty());
        r
    }

    /// Takes in one more entry of the folder.
    pub fn absorb(
        &mut self,
        cfg: &ScanConfig,
        dir: &str,
        depth: u32,
        entry: &ListedEntry,
        tally: &mut ExclusionTally,
    )
        ensures
            final(self).cancelled == old(self).cancelled,
            ({
                let before = FolderView {
                    entries: entry_views(old(self).entries@),
                    subdirs: subdir_views(old(self).subdirs@),
                    events: event_views(old(self).events@),
                    tally: *old(tally),
                };
                let after = folder_step(*cfg, dir@, depth, before, *entry);
                final(self).holds(after) && *final(tally) == after.tally
            }),
    {
        match entry {
            ListedEntry::Failed(message) => {
                let mut text = "entry error: ".to_owned();
                text.append(message.as_str());
                let event = OwnedWalkEvent::DirError { path: dir.to_owned(), message: text };
                let ghost told = event@;
                self.events.push(event);
                assert(event_views(self.events@) =~= event_views(old(self).events@).push(told));
            },
            ListedEntry::Entry(e) => {
                match judge_entry(cfg, e, tally) {
                    EntryOutcome::Skip(reason) => {
                        let event = OwnedWalkEvent::EntrySkipped { path: e.path.clone(), reason };
                        let ghost told = event@;
                        self.events.push(event);
                        proof {
                            assert(event_views(self.events@) =~= event_views(old(self).events@)
                                + seq![told]);
                            assert(entry_views(self.entries@) =~= entry_views(old(self).entries@)
                                + Seq::<FileEntryView>::empty());
                        }
                    },
                    EntryOutcome::Descend => {
                        let child = (e.path.clone(), depth.wrapping_add(1));
                        let ghost seen = (child.0@, child.1);
                        self.subdirs.push(child);
                        proof {
                            assert(subdir_views(self.subdirs@) =~= subdir_views(
                                old(self).subdirs@,
                            ).push(seen));
                            assert(event_views(self.events@) =~= event_views(old(self).events@)
                                + Seq::<WalkEventView>::empty());
                            assert(entry_views(self.entries@) =~= entry_views(old(self).entries@)
                                + Seq::<FileEntryView>::empty());
                        }
                    },
                    EntryOutcome::Take(file) => {
                        let event = OwnedWalkEvent::FileFound { path: e.path.clone(), size: file.size };
                        let ghost told = event@;
                        let ghost taken = file@;
                        self.events.push(event);
                        self.entries.push(file);
                        proof {
                            assert(event_views(self.events@) =~= event_views(old(self).events@)
                                + seq![told]);
                            assert(entry_views(self.entries@) =~= entry_views(old(self).entries@)
                                + seq![taken]);
                        }
                    },
                }
            },
        }
    }
}

/// How many entries are looked at: all of them, or those before the one at which the walk was
/// found to be cancelled.
pub open spec fn looked_at(len: nat, stop_before: Option<usize>) -> nat {
    match stop_before {
        Some(n) => if n < len {
            n as nat
        } else {
            len
        },
        None => len,
    }
}

/// Enumerates one folder, without going into the directories in it. `stop_before` is the place of
/// the entry before which the walk was found to be cancelled, if it was.
///
/// A folder that is gone is passed over; one that cannot be opened is told of.
pub fn enumerate_one_folder_read_dir(
    dir: &str,
    depth: u32,
    cfg: &ScanConfig,
    listing: &Listing,
    stop_before: Option<usize>,
    tally: &mut ExclusionTally,
) -> (r: FolderResult)
    ensures
        match listing {
            Listing::Opened(entries) => {
                let n = looked_at(entries@.len(), stop_before);
                let state = folder_after(*cfg, dir@, depth, *old(tally), entries@.take(n as int));
                &&& r.holds(state)
                &&& *final(tally) == state.tally
                &&& r.cancelled == (n < entries@.len())
            },
            _ => {
                &&& r.entries@.len() == 0
                &&& r.subdirs@.len() == 0
                &&& !r.cancelled
                &&& *final(tally) == *old(tally)
                &&& event_views(r.events@) == match listing {
                    Listing::PermissionDenied => seq![
                        WalkEventView::DirError { path: dir@, message: "permission denied"@ },
                    ],
                    Listing::Failed(message) => seq![
                        WalkEventView::DirError { path: dir@, message: message@ },
                    ],
                    _ => Seq::empty(),
                }
            },
        },
{
    let mut r = FolderResult::new();
    match listing {
        Listing::PermissionDenied => {
            let event = OwnedWalkEvent::DirError {
                path: dir.to_owned(),
                message: "permission denied".to_owned(),
            };
            let ghost told = event@;
            r.events.push(event);
            assert(event_views(r.events@) =~= seq![told]);
            r
        },
        Listing::NotFound => r,
        Listing::Failed(message) => {
            let event = OwnedWalkEvent::DirError { path: dir.to_owned(), message: message.clone() };
            let ghost told = event@;
            r.events.push(event);
            assert(event_views(r.events@) =~= seq![told]);
            r
        },
        Listing::Opened(entries) => {
            let mut i: usize = 0;
            let ghost n = looked_at(entries@.len(), stop_before) as int;
            assert(entries@.take(0) =~= Seq::<ListedEntry>::empty());
            while i < entries.len()
                invariant
                    i <= n <= entries.len(),
                    n == looked_at(entries@.len(), stop_before),
                    *listing == Listing::Opened(*entries),
                    !r.cancelled,
                    r.holds(folder_after(*cfg, dir@, depth, *old(tally), entries@.take(i as int))),
                    *tally == folder_after(*cfg, dir@, depth, *old(tally), entries@.take(i as int)).tally,
                decreases entries.len() - i,
            {
                match stop_before {
                    Some(stop) => {
                        if stop <= i {
                            r.cancelled = true;
                            return r;
                        }
                    },
                    None => {},
                }
                proof {
                    assert(entries@.take(i + 1).drop_last() =~= entries@.take(i as int));
                    assert(entries@.take(i + 1).last() == entries@[i as int]);
                }
                r.absorb(cfg, dir, depth, &entries[i], tally);
                i = i + 1;
            }
            r
        },
    }
}

/// A directory is gone into whatever its size is and whatever the path rules say of it, and so is
/// one that a followed link leads to. Only superdeduper's own directories are not.
pub proof fn directories_are_gone_into(
    cfg: ScanConfig,
    path: Seq<char>,
    own: FileFacts,
    target: Option<FileFacts>,
    verdicts: PathVerdicts,
)
    requires
        !is_own_footprint(cfg.platform, path),
        own.kind is Directory || (own.kind is Symlink && cfg.follow_links && (target matches Some(
            t,
        ) && t.kind is Directory)),
    ensures
        entry_outcome(cfg, path, Some(own), target, verdicts) is Descend,
{
}

/// A directory that was listed in a batch is gone into in the same way.
pub proof fn listed_directories_are_gone_into(
    cfg: ScanConfig,
    path: Seq<char>,
    entry: BatchEntry,
    volume: Option<Seq<char>>,
)
    requires
        !is_own_footprint(cfg.platform, path),
        if entry.attributes & 0x400 != 0 && entry.reparse_tag == Some(0xA000_000Cu32) {
            cfg.follow_links && (entry.target matches Some(t) && t.kind is Directory)
        } else {
            entry.is_dir
        },
    ensures
        batch_outcome(cfg, path, entry, volume) is Descend,
{
}

/// Whether a file of this size with these verdicts is one to take: it is no smaller than the least
/// size and no larger than the largest, no exclusion rule that is switched on names it, the include
/// pattern matches where there is one, and the exclude pattern does not.
pub open spec fn is_wanted(cfg: ScanConfig, size: u64, verdicts: PathVerdicts) -> bool {
    &&& cfg.min_size <= size
    &&& cfg.max_size matches Some(max) ==> size <= max
    &&& cfg.exclusions_enabled ==> !verdicts.excluded
    &&& verdicts.include_match matches Some(matches_it) ==> matches_it
    &&& verdicts.exclude_match matches Some(matches_it) ==> !matches_it
}

/// A regular file that is not one of superdeduper's own is taken exactly when it is wanted, under
/// the path it was found at, with its size and time; a file behind a followed link likewise, by
/// what the link leads to.
pub proof fn wanted_files_are_taken(
    cfg: ScanConfig,
    path: Seq<char>,
    own: FileFacts,
    target: Option<FileFacts>,
    facts: FileFacts,
    verdicts: PathVerdicts,
)
    requires
        !is_own_footprint(cfg.platform, path),
        facts.kind is File,
        own == facts || (own.kind is Symlink && cfg.follow_links && target == Some(facts)),
    ensures
        ({
            let outcome = entry_outcome(cfg, path, Some(own), target, verdicts);
            &&& outcome is Take <==> is_wanted(cfg, facts.size, verdicts)
            &&& !is_wanted(cfg, facts.size, verdicts) ==> outcome is Skip
            &&& outcome matches OutcomeView::Take(e) ==> {
                &&& e.path == path
                &&& e.size == facts.size
                &&& e.mtime == facts.mtime
                &&& cfg.platform is Unix ==> e.file_ref == facts.inode && e.attributes == 0
                &&& cfg.platform is Windows ==> e.file_ref == 0 && e.attributes == facts.attributes
                    && e.volume_guid is None
            }
        }),
{
}

/// A file that was listed in a batch is taken exactly when it is wanted, under its path, with the
/// size, the time, the number and the volume that the batch gives; a file behind a followed link by
/// what the link leads to.
pub proof fn wanted_listed_files_are_taken(
    cfg: ScanConfig,
    path: Seq<char>,
    entry: BatchEntry,
    volume: Option<Seq<char>>,
)
    requires
        !is_own_footprint(cfg.platform, path),
    ensures
        ({
            let outcome = batch_outcome(cfg, path, entry, volume);
            let link = entry.attributes & 0x400 != 0 && entry.reparse_tag == Some(0xA000_000Cu32);
            &&& !link && !entry.is_dir ==> {
                &&& outcome is Take <==> is_wanted(cfg, entry.size, entry.verdicts)
                &&& outcome matches OutcomeView::Take(e) ==> e.path == path && e.size == entry.size
                    && e.mtime == entry.mtime && e.file_ref == entry.file_id && e.attributes
                    == entry.attributes && e.volume_guid == volume
            }
            &&& link && cfg.follow_links ==> match entry.target {
                Some(t) => {
                    &&& outcome is Take <==> t.kind is File && is_wanted(
                        cfg,
                        t.size,
                        entry.verdicts,
                    )
                    &&& outcome matches OutcomeView::Take(e) ==> e.path == path && e.size == t.size
                        && e.mtime == t.mtime
                },
                None => outcome is Skip,
            }
            &&& link && !cfg.follow_links ==> outcome is Skip
        }),
{
}

/// Files that hold the same data on one Unix volume can be told from one another and from files on
/// other volumes: two files have the same number and volume exactly when they have the same inode
/// and device.
pub proof fn hard_links_are_seen(path_a: Seq<char>, path_b: Seq<char>, a: FileFacts, b: FileFacts)
    ensures
        ({
            let x = entry_for(Platform::Unix, path_a, a);
            let y = entry_for(Platform::Unix, path_b, b);
            (x.file_ref == y.file_ref && x.volume_guid == y.volume_guid) <==> (a.inode == b.inode
                && a.device == b.device)
        }),
{
    let head = "linux-dev-"@;
    let x = head + decimal(a.device as nat);
    let y = head + decimal(b.device as nat);
    if x == y {
        assert(x.skip(head.len() as int) =~= decimal(a.device as nat));
        assert(y.skip(head.len() as int) =~= decimal(b.device as nat));
        decimal_is_injective(a.device as nat, b.device as nat);
    }
}

/// What is left out says why: links that are not followed, targets that cannot be looked up,
/// superdeduper's own files, and things that are neither file nor directory.
pub proof fn the_rest_is_left_out(
    cfg: ScanConfig,
    path: Seq<char>,
    own: Option<FileFacts>,
    target: Option<FileFacts>,
    verdicts: PathVerdicts,
)
    ensures
        ({
            let outcome = entry_outcome(cfg, path, own, target, verdicts);
            &&& own is None ==> outcome == OutcomeView::Skip("metadata failed"@)
            &&& (own matches Some(f) && f.kind is Symlink && !cfg.follow_links) ==> outcome
                == OutcomeView::Skip("symlink (use --follow-links to include)"@)
            &&& (own matches Some(f) && f.kind is Symlink && cfg.follow_links && target is None)
                ==> outcome == OutcomeView::Skip("symlink target unreadable"@)
            &&& (own matches Some(f) && !(f.kind is Symlink) && is_own_footprint(cfg.platform, path))
                ==> outcome == OutcomeView::Skip("superdeduper self-footprint"@)
            &&& (own matches Some(f) && f.kind is Other && !is_own_footprint(cfg.platform, path))
                ==> outcome == OutcomeView::Skip("not a regular file"@)
            &&& (own matches Some(f) && f.kind is File && f.size < cfg.min_size
                && !is_own_footprint(cfg.platform, path)) ==> outcome == OutcomeView::Skip(
                "below min-size"@,
            )
            &&& (own matches Some(f) && f.kind is File && f.size >= cfg.min_size
                && (cfg.max_size matches Some(max) && f.size > max) && !is_own_footprint(cfg.platform, path)) ==> outcome == OutcomeView::Skip(
                "above max-size"@,
            )
        }),
{
}

/// A file that the exclusion rules drop is counted with its bytes, and nothing else is: neither a
/// directory, nor a file of another size than is scanned, nor one that the rules let pass.
pub proof fn excluded_files_are_counted(
    cfg: ScanConfig,
    path: Seq<char>,
    own: FileFacts,
    verdicts: PathVerdicts,
    tally: ExclusionTally,
)
    requires
        !(own.kind is Symlink),
        tally.files < u64::MAX,
        tally.bytes + own.size <= u64::MAX,
    ensures
        ({
            let after = tally_after(
                cfg,
                tally,
                judged_size(cfg, path, Some(own), None),
                verdicts,
            );
            let dropped = own.kind is File && !is_own_footprint(cfg.platform, path) && cfg.min_size
                <= own.size && (cfg.max_size matches Some(max) ==> own.size <= max)
                && cfg.exclusions_enabled && verdicts.excluded;
            &&& after.files == tally.files + if dropped {
                1int
            } else {
                0
            }
            &&& after.bytes == tally.bytes + if dropped {
                own.size as int
            } else {
                0
            }
        }),
{
}

/// Superdeduper's own files are told by their last name alone: it begins with `.superdeduper-`, or
/// it ends in `.superdeduper` or `.superdeduper-clone-tmp`. No other file is taken for one.
pub proof fn own_files_are_told_by_their_name(platform: Platform, path: Seq<char>)
    ensures
        is_own_footprint(platform, path) <==> (final_name(platform, path) matches Some(name) && {
            ||| name.len() >= 14 && name.take(14) == ".superdeduper-"@
            ||| name.len() >= 13 && name.skip(name.len() - 13) == ".superdeduper"@
            ||| name.len() >= 23 && name.skip(name.len() - 23) == ".superdeduper-clone-tmp"@
        }),
{
    reveal_strlit(".superdeduper-");
    reveal_strlit(".superdeduper");
    reveal_strlit(".superdeduper-clone-tmp");
}

/// One folder is enumerated in full: its wanted files are taken, its directories are named with
/// the depth below, and what lies below them is not looked at.
pub proof fn folders_are_read_in_full(
    cfg: ScanConfig,
    dir: Seq<char>,
    depth: u32,
    start: ExclusionTally,
    entries: Seq<ListedEntry>,
    k: int,
)
    requires
        0 <= k < entries.len(),
        depth < u32::MAX,
    ensures
        ({
            let after = folder_after(cfg, dir, depth, start, entries);
            entries[k] matches ListedEntry::Entry(e) ==> {
                let path = e.path@;
                let free = !is_own_footprint(cfg.platform, path);
                &&& (e.own matches Some(f) && f.kind is Directory && free)
                    ==> after.subdirs.contains((path, (depth + 1) as u32))
                &&& (e.own matches Some(f) && f.kind is File && free && is_wanted(
                    cfg,
                    f.size,
                    e.verdicts,
                )) ==> exists|i: int|
                    0 <= i < after.entries.len() && (#[trigger] after.entries[i]).path == path
                        && after.entries[i].size == e.own->0.size
            }
        }),
    decreases entries.len(),
{
    let before = folder_after(cfg, dir, depth, start, entries.drop_last());
    let after = folder_after(cfg, dir, depth, start, entries);
    assert(entries.last() == entries[entries.len() - 1]);
    if k < entries.len() - 1 {
        folders_are_read_in_full(cfg, dir, depth, start, entries.drop_last(), k);
        assert(entries.drop_last()[k] == entries[k]);
        assert(before.entries.is_prefix_of(after.entries));
        assert(before.subdirs.is_prefix_of(after.subdirs));
        if let ListedEntry::Entry(e) = entries[k] {
            let here = (e.path@, (depth + 1) as u32);
            if before.subdirs.contains(here) {
                let i = before.subdirs.index_of(here);
                assert(after.subdirs[i] == here);
            }
            if exists|i: int|
                0 <= i < before.entries.len() && (#[trigger] before.entries[i]).path == e.path@
                    && before.entries[i].size == e.own->0.size {
                let i = choose|i: int|
                    0 <= i < before.entries.len() && (#[trigger] before.entries[i]).path == e.path@
                        && before.entries[i].size == e.own->0.size;
                assert(after.entries[i] == before.entries[i]);
            }
        }
    } else if let ListedEntry::Entry(e) = entries[k] {
        if after.subdirs.len() > before.subdirs.len() {
            assert(after.subdirs[before.subdirs.len() as int] == (e.path@, deeper(depth)));
        }
        if after.entries.len() > before.entries.len() {
            assert(after.entries[before.entries.len() as int].path == e.path@);
        }
    }
}

/// What is taken on Windows carries the state that its own attributes tell: a cloud stub stays one,
/// and a regular file is none. Elsewhere every file is a regular one.
pub proof fn taken_files_carry_their_state(
    cfg: ScanConfig,
    path: Seq<char>,
    facts: FileFacts,
    verdicts: PathVerdicts,
)
    requires
        facts.kind is File,
    ensures
        entry_outcome(cfg, path, Some(facts), None, verdicts) matches OutcomeView::Take(e) ==> {
            &&& cfg.platform is Unix ==> e.placeholder is NotPlaceholder
            &&& cfg.platform is Windows ==> {
                &&& e.placeholder is RecallOnOpen <==> facts.attributes & 0x4_0000 != 0
                &&& facts.attributes & 0x4_0000 == 0 && facts.attributes & 0x40_0000 != 0
                    ==> e.placeholder is RecallOnDataAccess
                &&& e.placeholder is NotPlaceholder <==> facts.attributes & 0x4_0000 == 0
                    && facts.attributes & 0x40_0000 == 0 && facts.attributes & 0x400 == 0
                &&& e.placeholder is ReparseDedup ==> facts.reparse_tag == Some(0x8000_0013u32)
            }
        },
{
}

/// Superdeduper's own things are left out also where a followed link leads to them under such a
/// name, and where they are listed in a batch.
pub proof fn own_things_are_left_out(
    cfg: ScanConfig,
    path: Seq<char>,
    own: Option<FileFacts>,
    target: Option<FileFacts>,
    verdicts: PathVerdicts,
    entry: BatchEntry,
    volume: Option<Seq<char>>,
)
    requires
        is_own_footprint(cfg.platform, path),
    ensures
        entry_outcome(cfg, path, own, target, verdicts) is Skip,
        batch_outcome(cfg, path, entry, volume) == OutcomeView::Skip("superdeduper self-footprint"@),
        judged_size(cfg, path, own, target) is None,
        batch_judged_size(cfg, path, entry) is None,
{
}

/// A file within the size limits that is left out says whether the exclusion rules or the patterns
/// did it; the exclusion rules come first.
pub proof fn filters_say_who_did_it(
    cfg: ScanConfig,
    path: Seq<char>,
    facts: FileFacts,
    verdicts: PathVerdicts,
)
    requires
        facts.kind is File,
        !is_own_footprint(cfg.platform, path),
        cfg.min_size <= facts.size,
        cfg.max_size is None || facts.size <= cfg.max_size->0,
    ensures
        cfg.exclusions_enabled && verdicts.excluded ==> entry_outcome(
            cfg,
            path,
            Some(facts),
            None,
            verdicts,
        ) == OutcomeView::Skip("Settings → Exclusions"@),
        !(cfg.exclusions_enabled && verdicts.excluded) && (verdicts.include_match == Some(false)
            || verdicts.exclude_match == Some(true)) ==> entry_outcome(
            cfg,
            path,
            Some(facts),
            None,
            verdicts,
        ) == OutcomeView::Skip("filtered by include/exclude"@),
{
}

/// What the exclusion rules drop is counted alike in a batch and entry by entry.
pub proof fn batches_count_like_single_entries(
    cfg: ScanConfig,
    path: Seq<char>,
    batch: BatchEntry,
    own: FileFacts,
)
    requires
        same_thing(batch, own, batch.target),
    ensures
        batch_judged_size(cfg, path, batch) == judged_size(cfg, path, Some(own), batch.target),
{
}

/// Of several files with one path the first one is kept, and every later one is told of under its
/// own path.
pub proof fn the_first_of_a_path_is_kept(platform: Platform, files: Seq<FileEntryView>, k: int)
    requires
        0 <= k < files.len(),
    ensures
        (forall|j: int|
            0 <= j < k ==> components(platform, (#[trigger] files[j]).path) != components(
                platform,
                files[k].path,
            )) ==> deduped(platform, files).contains(files[k]),
        (exists|j: int|
            0 <= j < k && components(platform, (#[trigger] files[j]).path) == components(
                platform,
                files[k].path,
            )) ==> duplicate_events(platform, files).contains(
            WalkEventView::EntrySkipped {
                path: files[k].path,
                reason: "duplicate path (overlapping roots or unresolved alias)"@,
            },
        ),
    decreases files.len(),
{
    let init = files.drop_last();
    let kept = deduped(platform, init);
    let all = deduped(platform, files);
    let told = duplicate_events(platform, init);
    let events = duplicate_events(platform, files);
    let event = WalkEventView::EntrySkipped {
        path: files[k].path,
        reason: "duplicate path (overlapping roots or unresolved alias)"@,
    };
    if k < files.len() - 1 {
        the_first_of_a_path_is_kept(platform, init, k);
        assert(init[k] == files[k]);
        assert(forall|j: int| 0 <= j < init.len() ==> init[j] == files[j]);
        if kept.contains(files[k]) {
            assert(all[kept.index_of(files[k])] == files[k]);
        }
        if told.contains(event) {
            assert(events[told.index_of(event)] == event);
        }
    } else if first_of_its_path(platform, files, k) {
        assert(all[kept.len() as int] == files[k]);
    } else {
        assert(events[told.len() as int] == event);
    }
}

/// Files come out in the order they were found in: those of a longer list begin with those of a
/// shorter one.
pub proof fn kept_files_keep_their_order(platform: Platform, files: Seq<FileEntryView>, n: int)
    requires
        0 <= n <= files.len(),
    ensures
        deduped(platform, files.take(n)).is_prefix_of(deduped(platform, files)),
    decreases files.len() - n,
{
    let a = deduped(platform, files.take(n));
    if n == files.len() {
        assert(files.take(n) =~= files);
        assert(a =~= a.subrange(0, a.len() as int));
    } else {
        kept_files_keep_their_order(platform, files, n + 1);
        let next = files.take(n + 1);
        let b = deduped(platform, next);
        let all = deduped(platform, files);
        assert(next.drop_last() =~= files.take(n));
        assert(forall|i: int| 0 <= i < a.len() ==> a[i] == b[i]);
        assert(forall|i: int| 0 <= i < b.len() ==> b[i] == all.subrange(0, b.len() as int)[i]);
        assert(a =~= all.subrange(0, a.len() as int));
    }
}

/// Times are told in ticks of 100 nanoseconds from the beginning of 1601 on: the beginning of 1970
/// is 11644473600 seconds after it, and an unknown time is `0`.
pub proof fn times_are_told_in_ticks(seconds: nat, nanos: nat)
    requires
        nanos < 1_000_000_000,
        seconds * 1_000_000_000 + nanos <= u128::MAX,
    ensures
        ticks_after_epoch(Some((seconds * 1_000_000_000 + nanos) as u128)) == 11_644_473_600 * 10_000_000
            + seconds * 10_000_000 + nanos / 100,
        ticks_after_epoch(None) == 0,
{
    assert((seconds * 1_000_000_000 + nanos) / 100 == seconds * 10_000_000 + nanos / 100);
}

/// What one folder's enumeration takes was listed there as a wanted file, and the directories it
/// names were listed there too: nothing else comes in.
pub proof fn folders_hold_nothing_else(
    cfg: ScanConfig,
    dir: Seq<char>,
    depth: u32,
    start: ExclusionTally,
    entries: Seq<ListedEntry>,
    i: int,
)
    ensures
        ({
            let after = folder_after(cfg, dir, depth, start, entries);
            &&& 0 <= i < after.entries.len() ==> exists|k: int|
                0 <= k < entries.len() && ((#[trigger] entries[k]) matches ListedEntry::Entry(e)
                    && e.path@ == after.entries[i].path && !is_own_footprint(cfg.platform, e.path@)
                    && is_wanted(cfg, after.entries[i].size, e.verdicts))
            &&& 0 <= i < after.subdirs.len() ==> exists|k: int|
                0 <= k < entries.len() && ((#[trigger] entries[k]) matches ListedEntry::Entry(e)
                    && e.path@ == after.subdirs[i].0 && !is_own_footprint(cfg.platform, e.path@))
        }),
    decreases entries.len(),
{
    if entries.len() > 0 {
        let front = entries.drop_last();
        let last = entries.len() - 1;
        let before = folder_after(cfg, dir, depth, start, front);
        let after = folder_after(cfg, dir, depth, start, entries);
        folders_hold_nothing_else(cfg, dir, depth, start, front, i);
        assert(entries[last] == entries.last());
        if 0 <= i < before.entries.len() {
            assert(after.entries[i] == before.entries[i]);
            let k = choose|k: int|
                0 <= k < front.len() && ((#[trigger] front[k]) matches ListedEntry::Entry(e)
                    && e.path@ == before.entries[i].path && !is_own_footprint(cfg.platform, e.path@)
                    && is_wanted(cfg, before.entries[i].size, e.verdicts));
            assert(entries[k] == front[k]);
        }
        if 0 <= i < before.subdirs.len() {
            assert(after.subdirs[i] == before.subdirs[i]);
            let k = choose|k: int|
                0 <= k < front.len() && ((#[trigger] front[k]) matches ListedEntry::Entry(e)
                    && e.path@ == before.subdirs[i].0 && !is_own_footprint(cfg.platform, e.path@));
            assert(entries[k] == front[k]);
        }
    }
}

/// A walk tells every file it takes with its size and everything it leaves out with the reason, and
/// goes one level deeper below a directory.
pub proof fn outcomes_are_told(path: Seq<char>, outcome: OutcomeView, depth: u32)
    ensures
        outcome matches OutcomeView::Take(e) ==> {
            &&& outcome_events(path, outcome) == seq![
                WalkEventView::FileFound { path, size: e.size },
            ]
            &&& outcome_files(outcome) == seq![e]
        },
        outcome matches OutcomeView::Skip(reason) ==> {
            &&& outcome_events(path, outcome) == seq![WalkEventView::EntrySkipped { path, reason }]
            &&& outcome_files(outcome).len() == 0
        },
        outcome is Descend ==> outcome_events(path, outcome).len() == 0 && outcome_files(outcome).len()
            == 0,
        depth < u32::MAX ==> deeper(depth) == depth + 1,
{
}

/// A stop leaves out what was not looked at yet, and without one all is looked at.
pub proof fn stops_cut_the_rest(len: nat, n: usize)
    ensures
        looked_at(len, None) == len,
        n <= len ==> looked_at(len, Some(n)) == n,
        n > len ==> looked_at(len, Some(n)) == len,
{
}

/// A result that holds what was found in a folder holds all of it: as many files, directories and
/// events as were found, each as it was found, in order.
pub proof fn results_hold_all_that_was_found(result: FolderResult, state: FolderView, k: int)
    requires
        result.holds(state),
    ensures
        result.entries@.len() == state.entries.len(),
        result.subdirs@.len() == state.subdirs.len(),
        result.events@.len() == state.events.len(),
        0 <= k < state.entries.len() ==> result.entries@[k]@ == state.entries[k],
        0 <= k < state.subdirs.len() ==> result.subdirs@[k].0@ == state.subdirs[k].0
            && result.subdirs@[k].1 == state.subdirs[k].1,
        0 <= k < state.events.len() ==> result.events@[k]@ == state.events[k],
{
    assert(entry_views(result.entries@).len() == result.entries@.len());
    assert(subdir_views(result.subdirs@).len() == result.subdirs@.len());
    assert(event_views(result.events@).len() == result.events@.len());
    if 0 <= k < state.entries.len() {
        assert(entry_views(result.entries@)[k] == result.entries@[k]@);
    }
    if 0 <= k < state.subdirs.len() {
        assert(subdir_views(result.subdirs@)[k] == (result.subdirs@[k].0@, result.subdirs@[k].1));
    }
    if 0 <= k < state.events.len() {
        assert(event_views(result.events@)[k] == result.events@[k]@);
    }
}

} // verus!
