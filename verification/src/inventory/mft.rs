//! The volume record table: paths rebuilt from parent numbers, and the files among the records
//! that a scan takes.
use vstd::prelude::*;

use crate::inventory::placeholder::{classified, classify};
use crate::inventory::warm::WarmOutcome;
use crate::inventory::{
    all_eligible, entry_views, optional_text, passes_globs, path_passes_globs, size_in_range, FileEntry,
    FileEntryView, PathVerdicts, ScanConfig,
};
use crate::paths::{
    is_under_any, path_push_all, pushed, pushed_all, starts_with, strip_verbatim_prefix,
    under_any_root, unverbatim, volume_root, volume_root_for, Platform,
};
use crate::tables::{NameTable, PathTable, RecordTable, SizeTable};
use crate::text::texts;

verus! {

/// The attribute of a directory.
pub const FILE_ATTRIBUTE_DIRECTORY: u32 = 0x10;

/// How many parents are followed at most, so that a loop in the records ends.
pub const MAX_PARENTS: u64 = 1024;

/// One record of a volume.
#[derive(Debug)]
pub struct VolumeRecord {
    /// The number of the directory the file lies in.
    pub parent_ref: u64,
    pub usn: i64,
    pub attributes: u32,
    pub name: String,
    /// The file's size; `-1` for directories.
    pub size: i64,
    /// 100ns ticks since 1601-01-01 UTC.
    pub mtime: i64,
    /// The reparse tag, where it is known.
    pub reparse_tag: Option<u32>,
}

impl VolumeRecord {
    /// Whether the record is that of a directory.
    pub open spec fn is_dir(self) -> bool {
        self.attributes & FILE_ATTRIBUTE_DIRECTORY != 0
    }

    /// Whether the record is that of a directory.
    pub fn is_directory(&self) -> (r: bool)
        ensures
            r == self.is_dir(),
    {
        self.attributes & FILE_ATTRIBUTE_DIRECTORY != 0
    }

    /// A record with the same contents.
    pub fn duplicate(&self) -> (r: Self)
        ensures
            r == *self,
    {
        VolumeRecord {
            parent_ref: self.parent_ref,
            usn: self.usn,
            attributes: self.attributes,
            name: self.name.clone(),
            size: self.size,
            mtime: self.mtime,
            reparse_tag: self.reparse_tag,
        }
    }
}

/// The names met on the way up from `cursor`, nearest first. The way ends at the top, at a parent
/// without a record, at a record without a name or that is its own parent, and where it comes back
/// to the file it started from. A parent that is not a directory makes the way worthless.
pub open spec fn ancestors(
    table: Map<u64, VolumeRecord>,
    file_ref: u64,
    cursor: u64,
    steps: nat,
) -> Option<Seq<Seq<char>>>
    decreases steps,
{
    if steps == 0 || cursor == 0 || cursor == file_ref || !table.contains_key(cursor) {
        Some(Seq::empty())
    } else {
        let parent = table[cursor];
        if !parent.is_dir() {
            None
        } else if parent.name@.len() == 0 || parent.parent_ref == cursor {
            Some(Seq::empty())
        } else {
            match ancestors(table, file_ref, parent.parent_ref, (steps - 1) as nat) {
                Some(rest) => Some(seq![parent.name@] + rest),
                None => None,
            }
        }
    }
}

/// The path of a record: the names from the top down, below the volume's root. `None` where there
/// is no record, or a parent that is not a directory.
pub open spec fn path_of(
    table: Map<u64, VolumeRecord>,
    volume_root: Seq<char>,
    file_ref: u64,
) -> Option<Seq<char>> {
    if !table.contains_key(file_ref) {
        None
    } else {
        let record = table[file_ref];
        match ancestors(table, file_ref, record.parent_ref, MAX_PARENTS as nat) {
            Some(up) => Some(
                pushed_all(Platform::Windows, volume_root, (seq![record.name@] + up).reverse()),
            ),
            None => None,
        }
    }
}

fn reversed(v: &Vec<String>) -> (r: Vec<String>)
    ensures
        texts(r@) == texts(v@).reverse(),
{
    let mut r: Vec<String> = Vec::new();
    let mut i: usize = v.len();
    while i > 0
        invariant
            i <= v.len(),
            r.len() == v.len() - i,
            forall|k: int| 0 <= k < r.len() ==> (#[trigger] r@[k])@ == v@[v.len() - 1 - k]@,
        decreases i,
    {
        i = i - 1;
        r.push(v[i].clone());
    }
    assert(texts(r@) =~= texts(v@).reverse());
    r
}

/// The path of a record, rebuilt by going up its parents.
pub fn record_path(table: &RecordTable, volume_root: &str, file_ref: u64) -> (r: Option<String>)
    ensures
        optional_text(r) == path_of(table@, volume_root@, file_ref),
{
    let record = match table.get(file_ref) {
        Some(record) => record,
        None => {
            return None;
        },
    };
    let mut segments: Vec<String> = Vec::new();
    segments.push(record.name.clone());
    let mut cursor: u64 = record.parent_ref;
    let mut left: u64 = MAX_PARENTS;
    let ghost goal = ancestors(table@, file_ref, record.parent_ref, MAX_PARENTS as nat);
    let ghost mut above: Seq<Seq<char>> = Seq::empty();
    assert(texts(segments@) =~= seq![record.name@] + above);
    let mut done: bool = false;
    proof {
        let rest = ancestors(table@, file_ref, cursor, left as nat);
        if rest is Some {
            assert(above + rest->0 =~= rest->0);
        }
    }
    while left > 0 && !done
        invariant
            left <= MAX_PARENTS,
            texts(segments@) == seq![record.name@] + above,
            done ==> goal == Some(above),
            !done ==> goal == (match ancestors(table@, file_ref, cursor, left as nat) {
                Some(rest) => Some(above + rest),
                None => None,
            }),
            table@.contains_key(file_ref),
            *record == table@[file_ref],
            goal == ancestors(table@, file_ref, record.parent_ref, MAX_PARENTS as nat),
        decreases left, (if done { 0int } else { 1int }),
    {
        let ghost here = ancestors(table@, file_ref, cursor, left as nat);
        if cursor == 0 || cursor == file_ref {
            proof {
                assert(above + Seq::<Seq<char>>::empty() =~= above);
            }
            done = true;
        } else {
            match table.get(cursor) {
                None => {
                    proof {
                        assert(above + Seq::<Seq<char>>::empty() =~= above);
                    }
                    done = true;
                },
                Some(parent) => {
                    if !parent.is_directory() {
                        return None;
                    }
                    if parent.name.as_str().is_empty() || parent.parent_ref == cursor {
                        proof {
                            assert(above + Seq::<Seq<char>>::empty() =~= above);
                        }
                        done = true;
                    } else {
                        let ghost before = segments@;
                        segments.push(parent.name.clone());
                        proof {
                            assert(texts(segments@) =~= texts(before).push(parent.name@));
                            let rest = ancestors(
                                table@,
                                file_ref,
                                parent.parent_ref,
                                (left - 1) as nat,
                            );
                            if rest is Some {
                                assert(above + (seq![parent.name@] + rest->0) =~= above.push(
                                    parent.name@,
                                ) + rest->0);
                            }
                            above = above.push(parent.name@);
                            assert(texts(segments@) =~= seq![record.name@] + above);
                        }
                        cursor = parent.parent_ref;
                        left = left - 1;
                    }
                },
            }
        }
    }
    proof {
        if !done {
            assert(above + Seq::<Seq<char>>::empty() =~= above);
        }
    }
    let parts = reversed(&segments);
    Some(path_push_all(Platform::Windows, volume_root, &parts))
}

/// Whether every path kept in the cache is the path of its record.
pub open spec fn cache_is_true(
    cache: Map<u64, Seq<char>>,
    table: Map<u64, VolumeRecord>,
    volume_root: Seq<char>,
) -> bool {
    forall|k: u64|
        cache.contains_key(k) ==> path_of(table, volume_root, k) == Some(#[trigger] cache[k])
}

/// The path of a record, from the cache where it was rebuilt before. The cache changes nothing
/// but the time this takes.
fn reconstruct_path(
    file_ref: u64,
    table: &RecordTable,
    cache: &mut PathTable,
    volume_root: &str,
) -> (r: Option<String>)
    requires
        cache_is_true(old(cache)@, table@, volume_root@),
    ensures
        optional_text(r) == path_of(table@, volume_root@, file_ref),
        cache_is_true(final(cache)@, table@, volume_root@),
{
    match cache.get(file_ref) {
        Some(path) => {
            return Some(path.clone());
        },
        None => {},
    }
    let rebuilt = record_path(table, volume_root, file_ref);
    match &rebuilt {
        Some(path) => cache.insert(file_ref, path.clone()),
        None => {},
    }
    rebuilt
}

/// What becomes of a record before anything is looked up on disk.
pub enum RecordFate {
    /// It is a directory.
    Directory,
    /// Its path cannot be rebuilt.
    NoPath,
    /// Its path lies outside the roots.
    OutsideRoots,
    /// It is a file under the roots, at this path.
    Candidate(Seq<char>),
}

/// What becomes of the record under this number.
pub open spec fn fate(
    table: Map<u64, VolumeRecord>,
    volume_root: Seq<char>,
    roots: Seq<Seq<char>>,
    file_ref: u64,
) -> RecordFate {
    if table.contains_key(file_ref) && table[file_ref].is_dir() {
        RecordFate::Directory
    } else {
        match path_of(table, volume_root, file_ref) {
            None => RecordFate::NoPath,
            Some(path) => if is_under_any(Platform::Windows, path, roots) {
                RecordFate::Candidate(path)
            } else {
                RecordFate::OutsideRoots
            },
        }
    }
}

/// How many records were left out, and why.
pub struct CountsView {
    pub dir: nat,
    pub no_path: nat,
    pub root: nat,
    pub metadata: nat,
    pub size: nat,
    pub glob: nat,
}

pub open spec fn no_counts() -> CountsView {
    CountsView { dir: 0, no_path: 0, root: 0, metadata: 0, size: 0, glob: 0 }
}

/// The candidates among the records under these numbers, in order, and what was left out.
pub open spec fn candidates_in(
    table: Map<u64, VolumeRecord>,
    volume_root: Seq<char>,
    roots: Seq<Seq<char>>,
    order: Seq<u64>,
) -> (Seq<(u64, Seq<char>)>, CountsView)
    decreases order.len(),
{
    if order.len() == 0 {
        (Seq::empty(), no_counts())
    } else {
        let (found, counts) = candidates_in(table, volume_root, roots, order.drop_last());
        match fate(table, volume_root, roots, order.last()) {
            RecordFate::Directory => (found, CountsView { dir: counts.dir + 1, ..counts }),
            RecordFate::NoPath => (found, CountsView { no_path: counts.no_path + 1, ..counts }),
            RecordFate::OutsideRoots => (found, CountsView { root: counts.root + 1, ..counts }),
            RecordFate::Candidate(path) => (found.push((order.last(), path)), counts),
        }
    }
}

/// A record that is a file under the roots.
pub struct Candidate {
    pub file_ref: u64,
    pub path: String,
}

/// The contents of a list of candidates.
pub open spec fn candidate_views(v: Seq<Candidate>) -> Seq<(u64, Seq<char>)> {
    v.map_values(|c: Candidate| (c.file_ref, c.path@))
}

/// How many records were left out, and why.
#[derive(Clone, Copy, Debug, PartialEq, Eq, Structural)]
pub struct FilterCounts {
    pub dir: u64,
    pub no_path: u64,
    pub root: u64,
    pub metadata: u64,
    pub size: u64,
    pub glob: u64,
}

impl View for FilterCounts {
    type V = CountsView;

    open spec fn view(&self) -> CountsView {
        CountsView {
            dir: self.dir as nat,
            no_path: self.no_path as nat,
            root: self.root as nat,
            metadata: self.metadata as nat,
            size: self.size as nat,
            glob: self.glob as nat,
        }
    }
}

fn zero_counts() -> (r: FilterCounts)
    ensures
        r@ == no_counts(),
{
    FilterCounts { dir: 0, no_path: 0, root: 0, metadata: 0, size: 0, glob: 0 }
}

/// Whether a list names every record of the table once.
pub open spec fn lists_all(table: Map<u64, VolumeRecord>, order: Seq<u64>) -> bool {
    order.no_duplicates() && forall|k: u64| order.contains(k) == table.contains_key(k)
}

/// The candidates among the records under these numbers, in order, and what was left out.
pub fn candidates_in_order(
    table: &RecordTable,
    volume_root: &str,
    roots: &Vec<String>,
    order: &Vec<u64>,
) -> (r: (Vec<Candidate>, FilterCounts))
    ensures
        ({
            let expected = candidates_in(table@, volume_root@, texts(roots@), order@);
            candidate_views(r.0@) == expected.0 && r.1@ == expected.1
        }),
{
    let ghost all = texts(roots@);
    let mut cache = PathTable::new();
    let mut found: Vec<Candidate> = Vec::new();
    let mut counts = zero_counts();
    let mut i: usize = 0;
    proof {
        assert(order@.take(0) =~= Seq::<u64>::empty());
        assert(candidate_views(found@) =~= Seq::<(u64, Seq<char>)>::empty());
    }
    while i < order.len()
        invariant
            i <= order.len(),
            all == texts(roots@),
            cache_is_true(cache@, table@, volume_root@),
            candidate_views(found@) == candidates_in(
                table@,
                volume_root@,
                all,
                order@.take(i as int),
            ).0,
            counts@ == candidates_in(table@, volume_root@, all, order@.take(i as int)).1,
            counts.dir <= i,
            counts.no_path <= i,
            counts.root <= i,
        decreases order.len() - i,
    {
        let file_ref: u64 = order[i];
        proof {
            assert(order@.take(i + 1).drop_last() =~= order@.take(i as int));
            assert(order@.take(i + 1).last() == file_ref);
        }
        let is_dir: bool = match table.get(file_ref) {
            Some(record) => record.is_directory(),
            None => false,
        };
        if is_dir {
            counts.dir = counts.dir + 1;
        } else {
            match reconstruct_path(file_ref, table, &mut cache, volume_root) {
                None => {
                    counts.no_path = counts.no_path + 1;
                },
                Some(path) => {
                    if under_any_root(Platform::Windows, path.as_str(), roots) {
                        let ghost before = found@;
                        let ghost at = path@;
                        found.push(Candidate { file_ref, path });
                        assert(candidate_views(found@) =~= candidate_views(before).push((file_ref, at)));
                    } else {
                        counts.root = counts.root + 1;
                    }
                },
            }
        }
        i = i + 1;
    }
    assert(order@.take(order.len() as int) =~= order@);
    (found, counts)
}

/// The candidates among all records of a volume, in the order in which its table hands them out.
/// That order is not fixed: what is stated holds for whichever it was.
pub fn volume_candidates(table: &RecordTable, volume_root: &str, roots: &Vec<String>) -> (r: (
    Vec<Candidate>,
    FilterCounts,
))
    ensures
        exists|order: Seq<u64>|
            lists_all(table@, order) && (#[trigger] candidates_in(
                table@,
                volume_root@,
                texts(roots@),
                order,
            )) == (candidate_views(r.0@), r.1@),
{
    let order = table.keys();
    let r = candidates_in_order(table, volume_root, roots, &order);
    assert(lists_all(table@, order@));
    r
}

/// Which records become candidates does not depend on the order they are handed out in.
pub proof fn candidates_do_not_depend_on_order(
    table: Map<u64, VolumeRecord>,
    volume_root: Seq<char>,
    roots: Seq<Seq<char>>,
    order: Seq<u64>,
    file_ref: u64,
    path: Seq<char>,
)
    ensures
        candidates_in(table, volume_root, roots, order).0.contains((file_ref, path)) <==> (
        order.contains(file_ref) && fate(table, volume_root, roots, file_ref)
            == RecordFate::Candidate(path)),
    decreases order.len(),
{
    if order.len() > 0 {
        let init = order.drop_last();
        let n = order.len() - 1;
        candidates_do_not_depend_on_order(table, volume_root, roots, init, file_ref, path);
        let before = candidates_in(table, volume_root, roots, init).0;
        let after = candidates_in(table, volume_root, roots, order).0;
        if order.contains(file_ref) {
            let i = choose|i: int| 0 <= i < order.len() && order[i] == file_ref;
            if i < n {
                assert(init[i] == file_ref);
            }
        }
        if init.contains(file_ref) {
            let i = choose|i: int| 0 <= i < init.len() && init[i] == file_ref;
            assert(order[i] == file_ref);
        }
        if before.contains((file_ref, path)) {
            let i = choose|i: int| 0 <= i < before.len() && before[i] == (file_ref, path);
            assert(after[i] == (file_ref, path));
        }
        if after.contains((file_ref, path)) {
            let i = choose|i: int| 0 <= i < after.len() && after[i] == (file_ref, path);
            if i < before.len() {
                assert(before[i] == (file_ref, path));
            } else {
                assert(order[n] == file_ref);
            }
        }
        if order[n] == file_ref && fate(table, volume_root, roots, file_ref)
            == RecordFate::Candidate(path) {
            assert(after[before.len() as int] == (file_ref, path));
        }
    }
}

/// Every record is a candidate or counted as left out, once.
pub proof fn every_record_is_accounted_for(
    table: Map<u64, VolumeRecord>,
    volume_root: Seq<char>,
    roots: Seq<Seq<char>>,
    order: Seq<u64>,
)
    ensures
        ({
            let (found, counts) = candidates_in(table, volume_root, roots, order);
            found.len() + counts.dir + counts.no_path + counts.root == order.len()
        }),
    decreases order.len(),
{
    if order.len() > 0 {
        every_record_is_accounted_for(table, volume_root, roots, order.drop_last());
    }
}

/// One record as the system hands it out, or one change from the change journal.
#[derive(Clone, Debug)]
pub struct UsnRecord {
    pub file_ref: u64,
    pub parent_ref: u64,
    pub usn: i64,
    pub attributes: u32,
    pub name: String,
    pub mtime: i64,
    /// What happened to the file, as a set of bits. Only changes have one.
    pub reason: u32,
}

/// The record that a change leaves behind, or that the system handed out.
pub open spec fn changed_record(r: UsnRecord, size: i64, mtime: i64) -> VolumeRecord {
    VolumeRecord {
        parent_ref: r.parent_ref,
        usn: r.usn,
        attributes: r.attributes,
        name: r.name,
        size,
        mtime,
        reparse_tag: None,
    }
}

impl UsnRecord {
    /// The record that the change leaves behind, or that the system handed out.
    pub(crate) fn to_record(&self, size: i64, mtime: i64) -> (r: VolumeRecord)
        ensures
            r == changed_record(*self, size, mtime),
    {
        VolumeRecord {
            parent_ref: self.parent_ref,
            usn: self.usn,
            attributes: self.attributes,
            name: self.name.clone(),
            size,
            mtime,
            reparse_tag: None,
        }
    }
}

/// A record with its number.
pub struct NumberedRecord {
    pub file_ref: u64,
    pub record: VolumeRecord,
}

/// The table that results from entering these records in turn.
pub open spec fn entered(records: Seq<NumberedRecord>) -> Map<u64, VolumeRecord>
    decreases records.len(),
{
    if records.len() == 0 {
        Map::empty()
    } else {
        entered(records.drop_last()).insert(records.last().file_ref, records.last().record)
    }
}

/// The table of these records. A later record takes the place of an earlier one of its number.
pub fn load_records(records: Vec<NumberedRecord>) -> (r: RecordTable)
    ensures
        r@ == entered(records@),
{
    let ghost all = records@;
    let mut table = RecordTable::new();
    assert(all.take(0) =~= Seq::<NumberedRecord>::empty());
    for r in it: records
        invariant
            it.seq() == all,
            table@ == entered(all.take(it.index() as int)),
    {
        let ghost i = it.index() as int;
        proof {
            assert(all.take(i + 1).drop_last() =~= all.take(i));
            assert(all.take(i + 1).last() == r);
        }
        table.insert(r.file_ref, r.record);
    }
    assert(all.take(all.len() as int) =~= all);
    table
}

/// The inventory entry of a record at a path.
pub open spec fn record_entry(
    record: VolumeRecord,
    file_ref: u64,
    path: Seq<char>,
    size: u64,
    volume: Option<Seq<char>>,
) -> FileEntryView {
    FileEntryView {
        path,
        size,
        mtime: record.mtime,
        file_ref,
        parent_ref: record.parent_ref,
        usn: record.usn,
        attributes: record.attributes,
        volume_guid: volume,
        placeholder: classified(Platform::Windows, record.attributes, record.reparse_tag),
    }
}

/// The files taken, what was left out, and the sizes that were found out.
pub struct AcceptedView {
    pub files: Seq<FileEntryView>,
    pub counts: CountsView,
    pub sizes: Map<u64, u64>,
}

/// What is accepted of these candidates. `sizes` holds the size of each one, `None` where it
/// could not be looked up; `verdicts` what the path rules say of each one. Sizes are kept whether
/// the file is taken or not. A candidate without a record is not taken.
pub open spec fn accepted(
    cfg: ScanConfig,
    table: Map<u64, VolumeRecord>,
    volume: Option<Seq<char>>,
    candidates: Seq<(u64, Seq<char>)>,
    sizes: Seq<Option<u64>>,
    verdicts: Seq<PathVerdicts>,
) -> AcceptedView
    decreases candidates.len(),
{
    if candidates.len() == 0 {
        AcceptedView { files: Seq::empty(), counts: no_counts(), sizes: Map::empty() }
    } else {
        let init = accepted(
            cfg,
            table,
            volume,
            candidates.drop_last(),
            sizes.drop_last(),
            verdicts.drop_last(),
        );
        let (file_ref, path) = candidates.last();
        match sizes.last() {
            None => AcceptedView {
                counts: CountsView { metadata: init.counts.metadata + 1, ..init.counts },
                ..init
            },
            Some(size) => {
                let known = AcceptedView { sizes: init.sizes.insert(file_ref, size), ..init };
                if !size_in_range(cfg, size) {
                    AcceptedView {
                        counts: CountsView { size: init.counts.size + 1, ..init.counts },
                        ..known
                    }
                } else if !passes_globs(verdicts.last()) {
                    AcceptedView {
                        counts: CountsView { glob: init.counts.glob + 1, ..init.counts },
                        ..known
                    }
                } else if !table.contains_key(file_ref) {
                    known
                } else {
                    AcceptedView {
                        files: init.files.push(
                            record_entry(table[file_ref], file_ref, path, size, volume),
                        ),
                        ..known
                    }
                }
            },
        }
    }
}

/// The files taken from a volume, what was left out, and the sizes that were found out.
pub struct Accepted {
    pub files: Vec<FileEntry>,
    pub counts: FilterCounts,
    pub sizes: SizeTable,
}

impl View for Accepted {
    type V = AcceptedView;

    open spec fn view(&self) -> AcceptedView {
        AcceptedView {
            files: entry_views(self.files@),
            counts: self.counts@,
            sizes: self.sizes@,
        }
    }
}

/// Takes the candidates that pass the size limits and the patterns. Each candidate comes with its
/// size, `None` where it could not be looked up, and with what the path rules say of it.
pub fn accept_candidates(
    cfg: &ScanConfig,
    table: &RecordTable,
    volume: &Option<String>,
    candidates: &Vec<Candidate>,
    sizes: &Vec<Option<u64>>,
    verdicts: &Vec<PathVerdicts>,
) -> (r: Accepted)
    requires
        sizes.len() == candidates.len(),
        verdicts.len() == candidates.len(),
    ensures
        r@ == accepted(
            *cfg,
            table@,
            optional_text(*volume),
            candidate_views(candidates@),
            sizes@,
            verdicts@,
        ),
{
    let ghost all = candidate_views(candidates@);
    let ghost vol = optional_text(*volume);
    let mut r = Accepted { files: Vec::new(), counts: zero_counts(), sizes: SizeTable::new() };
    let mut i: usize = 0;
    proof {
        assert(all.take(0) =~= Seq::<(u64, Seq<char>)>::empty());
        assert(entry_views(r.files@) =~= Seq::<FileEntryView>::empty());
    }
    while i < candidates.len()
        invariant
            i <= candidates.len(),
            sizes.len() == candidates.len(),
            verdicts.len() == candidates.len(),
            all == candidate_views(candidates@),
            vol == optional_text(*volume),
            r@ == accepted(
                *cfg,
                table@,
                vol,
                all.take(i as int),
                sizes@.take(i as int),
                verdicts@.take(i as int),
            ),
            r.counts.metadata <= i,
            r.counts.size <= i,
            r.counts.glob <= i,
        decreases candidates.len() - i,
    {
        let c = &candidates[i];
        proof {
            assert(all.take(i + 1).drop_last() =~= all.take(i as int));
            assert(sizes@.take(i + 1).drop_last() =~= sizes@.take(i as int));
            assert(verdicts@.take(i + 1).drop_last() =~= verdicts@.take(i as int));
            assert(all.take(i + 1).last() == (c.file_ref, c.path@));
        }
        match sizes[i] {
            None => {
                r.counts.metadata = r.counts.metadata + 1;
            },
            Some(size) => {
                r.sizes.insert(c.file_ref, size);
                let in_range: bool = cfg.min_size <= size && match cfg.max_size {
                    Some(max) => size <= max,
                    None => true,
                };
                if !in_range {
                    r.counts.size = r.counts.size + 1;
                } else if !path_passes_globs(&verdicts[i]) {
                    r.counts.glob = r.counts.glob + 1;
                } else {
                    match table.get(c.file_ref) {
                        Some(record) => {
                            let entry = FileEntry {
                                path: c.path.clone(),
                                size,
                                mtime: record.mtime,
                                file_ref: c.file_ref,
                                parent_ref: record.parent_ref,
                                usn: record.usn,
                                attributes: record.attributes,
                                volume_guid: volume.clone(),
                                placeholder: classify(
                                    Platform::Windows,
                                    record.attributes,
                                    record.reparse_tag,
                                ),
                            };
                            let ghost before = r.files@;
                            let ghost taken = entry@;
                            r.files.push(entry);
                            assert(entry_views(r.files@) =~= entry_views(before).push(taken));
                        },
                        None => {},
                    }
                }
            },
        }
        i = i + 1;
    }
    proof {
        assert(all.take(i as int) =~= all);
        assert(sizes@.take(i as int) =~= sizes@);
        assert(verdicts@.take(i as int) =~= verdicts@);
    }
    r
}

/// Where a size in a snapshot comes from: directories have none, files that were looked up have
/// theirs, and files that were not have `0`.
pub open spec fn snapshot_size(record: VolumeRecord, sizes: Map<u64, u64>, file_ref: u64) -> i64 {
    if record.is_dir() {
        (-1) as i64
    } else if sizes.contains_key(file_ref) {
        sizes[file_ref] as i64
    } else {
        0
    }
}

/// The record as it is kept in a snapshot.
pub open spec fn snapshot_record(record: VolumeRecord, sizes: Map<u64, u64>, file_ref: u64) -> VolumeRecord {
    VolumeRecord { size: snapshot_size(record, sizes, file_ref), ..record }
}

/// The table as it is kept in a snapshot.
pub open spec fn snapshot_table(table: Map<u64, VolumeRecord>, sizes: Map<u64, u64>) -> Map<
    u64,
    VolumeRecord,
> {
    Map::new(
        |k: u64| table.contains_key(k),
        |k: u64| snapshot_record(table[k], sizes, k),
    )
}

/// The snapshot of the records under these numbers, in order.
pub fn snapshot_in_order(table: &RecordTable, sizes: &SizeTable, order: &Vec<u64>) -> (r: Vec<NumberedRecord>)
    requires
        forall|i: int| 0 <= i < order.len() ==> table@.contains_key(#[trigger] order@[i]),
    ensures
        r.len() == order.len(),
        forall|i: int|
            0 <= i < order.len() ==> (#[trigger] r@[i]) == (NumberedRecord {
                file_ref: order@[i],
                record: snapshot_record(table@[order@[i]], sizes@, order@[i]),
            }),
{
    let mut r: Vec<NumberedRecord> = Vec::new();
    let mut i: usize = 0;
    while i < order.len()
        invariant
            i <= order.len(),
            r.len() == i,
            forall|k: int| 0 <= k < order.len() ==> table@.contains_key(#[trigger] order@[k]),
            forall|k: int|
                0 <= k < i ==> (#[trigger] r@[k]) == (NumberedRecord {
                    file_ref: order@[k],
                    record: snapshot_record(table@[order@[k]], sizes@, order@[k]),
                }),
        decreases order.len() - i,
    {
        let file_ref: u64 = order[i];
        assert(table@.contains_key(order@[i as int]));
        match table.get(file_ref) {
            Some(record) => {
                let size: i64 = if record.is_directory() {
                    -1
                } else {
                    match sizes.get(file_ref) {
                        Some(n) => n as i64,
                        None => 0,
                    }
                };
                let mut kept = record.duplicate();
                kept.size = size;
                r.push(NumberedRecord { file_ref, record: kept });
            },
            None => {},
        }
        i = i + 1;
    }
    r
}

/// The state of a volume's change journal.
#[derive(Clone, Copy, Debug, PartialEq, Eq, Structural)]
pub struct JournalState {
    pub journal_id: u64,
    /// The first change that the journal still holds.
    pub first_usn: i64,
    /// The change that will be written next.
    pub next_usn: i64,
}

/// What is kept beside a snapshot.
#[derive(Clone, Copy, Debug, PartialEq, Eq, Structural)]
pub struct InventoryMeta {
    pub journal_id: u64,
    /// The change that the snapshot is complete up to.
    pub last_usn: i64,
    pub captured_at_unix: i64,
}

/// Whether the records are those of the table, each once, with the sizes that were found out.
pub open spec fn is_snapshot(
    records: Seq<NumberedRecord>,
    table: Map<u64, VolumeRecord>,
    sizes: Map<u64, u64>,
) -> bool {
    exists|order: Seq<u64>|
        {
            &&& #[trigger] lists_all(table, order)
            &&& records.len() == order.len()
            &&& forall|i: int|
                0 <= i < order.len() ==> (#[trigger] records[i]) == (NumberedRecord {
                    file_ref: order[i],
                    record: snapshot_record(table[order[i]], sizes, order[i]),
                })
        }
}

/// What is kept beside the snapshot of a volume: its journal as it was before the reading began.
pub open spec fn meta_of(journal: JournalState, now_unix: i64) -> InventoryMeta {
    InventoryMeta {
        journal_id: journal.journal_id,
        last_usn: journal.next_usn,
        captured_at_unix: now_unix,
    }
}

/// The snapshot to keep after a volume was read: every record once, with the sizes that were found
/// out, up to date with the journal as it was before the reading began. What changed during the
/// reading is then among the changes of the next scan.
pub fn persist_cold_snapshot(
    table: &RecordTable,
    sizes: &SizeTable,
    journal: JournalState,
    now_unix: i64,
) -> (r: (InventoryMeta, Vec<NumberedRecord>))
    ensures
        r.0 == meta_of(journal, now_unix),
        is_snapshot(r.1@, table@, sizes@),
{
    let order = table.keys();
    proof {
        assert forall|i: int| 0 <= i < order.len() implies table@.contains_key(
            #[trigger] order@[i],
        ) by {
            assert(order@.contains(order@[i]));
        }
        assert(lists_all(table@, order@));
    }
    let records = snapshot_in_order(table, sizes, &order);
    let meta = InventoryMeta {
        journal_id: journal.journal_id,
        last_usn: journal.next_usn,
        captured_at_unix: now_unix,
    };
    (meta, records)
}

proof fn lemma_entered_in_order(
    records: Seq<NumberedRecord>,
    table: Map<u64, VolumeRecord>,
    sizes: Map<u64, u64>,
    order: Seq<u64>,
)
    requires
        records.len() == order.len(),
        forall|i: int|
            0 <= i < order.len() ==> (#[trigger] records[i]) == (NumberedRecord {
                file_ref: order[i],
                record: snapshot_record(table[order[i]], sizes, order[i]),
            }),
    ensures
        forall|k: u64| #[trigger] entered(records).contains_key(k) <==> order.contains(k),
        forall|k: u64| #[trigger]
            entered(records).contains_key(k) ==> entered(records)[k] == snapshot_record(
                table[k],
                sizes,
                k,
            ),
    decreases records.len(),
{
    if records.len() > 0 {
        let n = records.len() - 1;
        let front = order.drop_last();
        assert forall|i: int| 0 <= i < front.len() implies (#[trigger] records.drop_last()[i]) == (
        NumberedRecord {
            file_ref: front[i],
            record: snapshot_record(table[front[i]], sizes, front[i]),
        }) by {
            assert(records[i] == records.drop_last()[i]);
        }
        lemma_entered_in_order(records.drop_last(), table, sizes, front);
        assert(records[n].file_ref == order[n]);
        assert forall|k: u64| #[trigger] entered(records).contains_key(k) <==> order.contains(
            k,
        ) by {
            if front.contains(k) {
                let i = choose|i: int| 0 <= i < front.len() && front[i] == k;
                assert(order[i] == k);
            }
            if order.contains(k) && k != order[n] {
                let i = choose|i: int| 0 <= i < order.len() && order[i] == k;
                assert(front[i] == k);
            }
            assert(entered(records).contains_key(k) <==> entered(
                records.drop_last(),
            ).contains_key(k) || k == order[n]);
        }
        assert forall|k: u64| #[trigger] entered(records).contains_key(k) implies entered(
            records,
        )[k] == snapshot_record(table[k], sizes, k) by {
            if k != order[n] {
                assert(entered(records.drop_last()).contains_key(k));
            }
        }
    }
}

/// What is written to a snapshot comes back from it: every record, with the sizes that were found
/// out.
pub proof fn snapshots_come_back(
    records: Seq<NumberedRecord>,
    table: Map<u64, VolumeRecord>,
    sizes: Map<u64, u64>,
)
    requires
        is_snapshot(records, table, sizes),
    ensures
        entered(records) == snapshot_table(table, sizes),
{
    let order = choose|order: Seq<u64>|
        {
            &&& #[trigger] lists_all(table, order)
            &&& records.len() == order.len()
            &&& forall|i: int|
                0 <= i < order.len() ==> (#[trigger] records[i]) == (NumberedRecord {
                    file_ref: order[i],
                    record: snapshot_record(table[order[i]], sizes, order[i]),
                })
        };
    lemma_entered_in_order(records, table, sizes, order);
    assert forall|k: u64| #[trigger] entered(records).contains_key(k) == snapshot_table(
        table,
        sizes,
    ).contains_key(k) by {
        assert(order.contains(k) == table.contains_key(k));
    }
    assert(entered(records) =~= snapshot_table(table, sizes));
}

/// The records that the system handed out, with their numbers. Their sizes are not known yet.
pub open spec fn numbered(records: Seq<UsnRecord>) -> Seq<NumberedRecord> {
    records.map_values(
        |r: UsnRecord|
            NumberedRecord { file_ref: r.file_ref, record: changed_record(r, 0, r.mtime) },
    )
}

/// A volume that was read in full, whose files are not yet chosen.
pub struct ColdRun {
    pub volume: String,
    pub table: RecordTable,
    /// The files under the roots.
    pub candidates: Vec<Candidate>,
    /// What was left out, and why.
    pub counts: FilterCounts,
}

/// What a full reading of a volume gave.
pub struct ColdOutcome {
    pub files: Vec<FileEntry>,
    /// What was left out, and why.
    pub counts: FilterCounts,
    /// Whether there were records but no file among them was taken.
    pub anomaly: bool,
    /// What to keep for the next scan.
    pub snapshot: Option<(InventoryMeta, Vec<NumberedRecord>)>,
}

/// Finds the files under the roots among all records of a volume. The order in which they come
/// out is not fixed: what is stated holds for whichever it was.
pub fn enumerate_volume(volume: &str, roots: &Vec<String>, records: Vec<UsnRecord>) -> (r: ColdRun)
    ensures
        r.volume@ == volume@,
        r.table@ == entered(numbered(records@)),
        exists|order: Seq<u64>|
            lists_all(r.table@, order) && (#[trigger] candidates_in(
                r.table@,
                volume_root(volume@, texts(roots@)),
                texts(roots@),
                order,
            )) == (candidate_views(r.candidates@), r.counts@),
{
    let ghost all = numbered(records@);
    let ghost handed = records@;
    let mut table = RecordTable::new();
    assert(all.take(0) =~= Seq::<NumberedRecord>::empty());
    for r in it: records
        invariant
            it.seq() == handed,
            all == numbered(handed),
            table@ == entered(all.take(it.index() as int)),
    {
        let ghost i = it.index() as int;
        proof {
            assert(all.take(i + 1).drop_last() =~= all.take(i));
            assert(all.take(i + 1).last() == all[i]);
            assert(handed[i] == r);
        }
        table.insert(r.file_ref, r.to_record(0, r.mtime));
    }
    assert(all.take(all.len() as int) =~= all);
    let root = volume_root_for(volume, roots);
    let (candidates, counts) = volume_candidates(&table, root.as_str(), roots);
    ColdRun { volume: volume.to_owned(), table, candidates, counts }
}

impl ColdRun {
    /// Chooses the files, once every candidate was looked up and the path rules were asked about
    /// it. A snapshot is left where there is a place for one and the journal was known before the
    /// reading began.
    pub fn outcome(
        &self,
        cfg: &ScanConfig,
        sizes: &Vec<Option<u64>>,
        verdicts: &Vec<PathVerdicts>,
        has_cache: bool,
        journal: Option<JournalState>,
        now_unix: i64,
    ) -> (r: ColdOutcome)
        requires
            sizes.len() == self.candidates.len(),
            verdicts.len() == self.candidates.len(),
        ensures
            ({
                let taken = accepted(
                    *cfg,
                    self.table@,
                    Some(self.volume@),
                    candidate_views(self.candidates@),
                    sizes@,
                    verdicts@,
                );
                &&& entry_views(r.files@) == taken.files
                &&& r.counts@ == (CountsView {
                    dir: self.counts@.dir,
                    no_path: self.counts@.no_path,
                    root: self.counts@.root,
                    ..taken.counts
                })
                &&& r.anomaly == (taken.files.len() == 0 && exists|k: u64|
                    self.table@.contains_key(k))
                &&& match r.snapshot {
                    Some((meta, records)) => {
                        &&& has_cache
                        &&& journal matches Some(j) && meta == meta_of(j, now_unix)
                        &&& is_snapshot(records@, self.table@, taken.sizes)
                    },
                    None => !has_cache || journal is None,
                }
            }),
    {
        let volume = Some(self.volume.clone());
        let taken = accept_candidates(cfg, &self.table, &volume, &self.candidates, sizes, verdicts);
        let mut counts = taken.counts;
        counts.dir = self.counts.dir;
        counts.no_path = self.counts.no_path;
        counts.root = self.counts.root;
        let order = self.table.keys();
        proof {
            if order.len() > 0 {
                assert(order@.contains(order@[0]));
                assert(self.table@.contains_key(order@[0]));
            } else {
                assert forall|k: u64| !self.table@.contains_key(k) by {
                    assert(!order@.contains(k));
                }
            }
            assert(entry_views(taken.files@).len() == taken.files.len());
        }
        let anomaly = order.len() > 0 && taken.files.len() == 0;
        let snapshot = match journal {
            Some(j) => if has_cache {
                Some(persist_cold_snapshot(&self.table, &taken.sizes, j, now_unix))
            } else {
                None
            },
            None => None,
        };
        ColdOutcome { files: taken.files, counts, anomaly, snapshot }
    }
}

/// Whether the volume is named beside the files changes nothing else: the same candidates with the
/// same sizes and verdicts are taken, and the same are left out.
pub proof fn naming_the_volume_changes_nothing_else(
    cfg: ScanConfig,
    table: Map<u64, VolumeRecord>,
    a: Option<Seq<char>>,
    b: Option<Seq<char>>,
    candidates: Seq<(u64, Seq<char>)>,
    sizes: Seq<Option<u64>>,
    verdicts: Seq<PathVerdicts>,
)
    ensures
        ({
            let x = accepted(cfg, table, a, candidates, sizes, verdicts);
            let y = accepted(cfg, table, b, candidates, sizes, verdicts);
            &&& x.counts == y.counts
            &&& x.sizes == y.sizes
            &&& x.files.len() == y.files.len()
            &&& forall|i: int|
                0 <= i < x.files.len() ==> (#[trigger] x.files[i]) == (FileEntryView {
                    volume_guid: a,
                    ..y.files[i]
                })
        }),
    decreases candidates.len(),
{
    if candidates.len() > 0 {
        naming_the_volume_changes_nothing_else(
            cfg,
            table,
            a,
            b,
            candidates.drop_last(),
            sizes.drop_last(),
            verdicts.drop_last(),
        );
    }
}

/// Every file taken from a volume lies within the size limits.
pub proof fn accepted_files_are_in_range(
    cfg: ScanConfig,
    table: Map<u64, VolumeRecord>,
    volume: Option<Seq<char>>,
    candidates: Seq<(u64, Seq<char>)>,
    sizes: Seq<Option<u64>>,
    verdicts: Seq<PathVerdicts>,
)
    ensures
        forall|i: int|
            0 <= i < accepted(cfg, table, volume, candidates, sizes, verdicts).files.len()
                ==> size_in_range(
                cfg,
                (#[trigger] accepted(cfg, table, volume, candidates, sizes, verdicts).files[i]).size,
            ),
    decreases candidates.len(),
{
    if candidates.len() > 0 {
        accepted_files_are_in_range(
            cfg,
            table,
            volume,
            candidates.drop_last(),
            sizes.drop_last(),
            verdicts.drop_last(),
        );
    }
}

/// Every file taken from a volume is one that later stages may see, where the verdicts on the
/// candidates are those that `rules` gives on their paths.
pub proof fn accepted_files_are_eligible(
    cfg: ScanConfig,
    table: Map<u64, VolumeRecord>,
    volume: Option<Seq<char>>,
    candidates: Seq<(u64, Seq<char>)>,
    sizes: Seq<Option<u64>>,
    verdicts: Seq<PathVerdicts>,
    rules: spec_fn(Seq<char>) -> PathVerdicts,
)
    requires
        verdicts.len() == candidates.len(),
        forall|i: int|
            0 <= i < candidates.len() ==> #[trigger] verdicts[i] == rules(candidates[i].1),
    ensures
        all_eligible(
            cfg,
            rules,
            accepted(cfg, table, volume, candidates, sizes, verdicts).files,
        ),
    decreases candidates.len(),
{
    if candidates.len() > 0 {
        assert forall|i: int| 0 <= i < candidates.drop_last().len() implies #[trigger] verdicts.drop_last()[i]
            == rules(candidates.drop_last()[i].1) by {
            assert(verdicts[i] == rules(candidates[i].1));
        }
        accepted_files_are_eligible(
            cfg,
            table,
            volume,
            candidates.drop_last(),
            sizes.drop_last(),
            verdicts.drop_last(),
            rules,
        );
        assert(verdicts[candidates.len() - 1] == rules(candidates[candidates.len() - 1].1));
    }
}

/// The roots of one volume.
pub struct VolumeRoots {
    pub volume: String,
    pub roots: Vec<String>,
}

/// A root with the volume it lies on.
pub struct PlacedRoot {
    pub volume: String,
    pub root: String,
}

/// The roots that lie on a volume, without their verbatim markers, in order.
pub open spec fn roots_on(placed: Seq<PlacedRoot>, volume: Seq<char>) -> Seq<Seq<char>>
    decreases placed.len(),
{
    if placed.len() == 0 {
        Seq::empty()
    } else {
        let init = roots_on(placed.drop_last(), volume);
        if placed.last().volume@ == volume {
            init.push(unverbatim(Platform::Windows, placed.last().root@))
        } else {
            init
        }
    }
}

/// Whether the groups hold each root under its volume: no volume twice, none without a root, and
/// under each volume its roots in order.
pub open spec fn grouped(placed: Seq<PlacedRoot>, groups: Seq<VolumeRoots>) -> bool {
    &&& forall|a: int, b: int|
        0 <= a < b < groups.len() ==> (#[trigger] groups[a]).volume@ != (#[trigger] groups[b]).volume@
    &&& forall|g: int|
        0 <= g < groups.len() ==> texts((#[trigger] groups[g]).roots@) == roots_on(
            placed,
            groups[g].volume@,
        )
    &&& forall|g: int| 0 <= g < groups.len() ==> (#[trigger] groups[g]).roots@.len() > 0
    &&& forall|i: int|
        0 <= i < placed.len() ==> exists|g: int|
            0 <= g < groups.len() && (#[trigger] groups[g]).volume@ == (#[trigger] placed[i]).volume@
}

proof fn lemma_roots_on_step(placed: Seq<PlacedRoot>, i: int, volume: Seq<char>)
    requires
        0 <= i < placed.len(),
    ensures
        roots_on(placed.take(i + 1), volume) == (if placed[i].volume@ == volume {
            roots_on(placed.take(i), volume).push(unverbatim(Platform::Windows, placed[i].root@))
        } else {
            roots_on(placed.take(i), volume)
        }),
{
    assert(placed.take(i + 1).drop_last() =~= placed.take(i));
    assert(placed.take(i + 1).last() == placed[i]);
}

/// Groups roots by the volume they lie on, so that each volume is read once.
#[verifier::spinoff_prover]
pub fn group_roots(placed: &Vec<PlacedRoot>) -> (r: Vec<VolumeRoots>)
    ensures
        grouped(placed@, r@),
{
    let mut index = NameTable::new();
    let mut groups: Vec<VolumeRoots> = Vec::new();
    let mut i: usize = 0;
    while i < placed.len()
        invariant
            i <= placed.len(),
            grouped(placed@.take(i as int), groups@),
            forall|g: int|
                0 <= g < groups.len() ==> index@.contains_key((#[trigger] groups@[g]).volume@)
                    && index@[groups@[g].volume@] == g,
            forall|v: Seq<char>| #[trigger]
                index@.contains_key(v) ==> index@[v] < groups.len() && groups@[index@[v] as int].volume@
                    == v,
            forall|v: Seq<char>|
                !(#[trigger] index@.contains_key(v)) ==> roots_on(placed@.take(i as int), v)
                    == Seq::<Seq<char>>::empty(),
            groups.len() <= i,
        decreases placed.len() - i,
    {
        let p = &placed[i];
        let ghost volume = p.volume@;
        let ghost root = unverbatim(Platform::Windows, p.root@);
        let ghost old_groups = groups@;
        let ghost old_index = index@;
        let ghost before = placed@.take(i as int);
        let ghost now = placed@.take(i + 1);
        let stripped = strip_verbatim_prefix(Platform::Windows, p.root.as_str());
        proof {
            assert forall|v: Seq<char>| roots_on(now, v) == (if volume == v {
                roots_on(before, v).push(root)
            } else {
                roots_on(before, v)
            }) by {
                lemma_roots_on_step(placed@, i as int, v);
            }
        }
        match index.get(p.volume.as_str()) {
            Some(g) => {
                let at: usize = g as usize;
                groups[at].roots.push(stripped);
                proof {
                    assert(groups@[at as int].volume == old_groups[at as int].volume);
                    assert(texts(groups@[at as int].roots@) =~= texts(
                        old_groups[at as int].roots@,
                    ).push(root));
                    assert forall|k: int| 0 <= k < groups.len() implies texts(
                        (#[trigger] groups@[k]).roots@,
                    ) == roots_on(now, groups@[k].volume@) by {
                        if k != at {
                            assert(groups@[k] == old_groups[k]);
                        }
                    }
                    assert forall|k: int| 0 <= k < now.len() implies exists|h: int|
                        0 <= h < groups.len() && (#[trigger] groups@[h]).volume@ == (
                        #[trigger] now[k]).volume@ by {
                        if k < i {
                            assert(before[k] == now[k]);
                            let h = choose|h: int|
                                0 <= h < old_groups.len() && (#[trigger] old_groups[h]).volume@
                                    == before[k].volume@;
                            assert(groups@[h].volume@ == old_groups[h].volume@);
                        } else {
                            assert(groups@[at as int].volume@ == now[k].volume@);
                        }
                    }
                }
            },
            None => {
                let n: usize = groups.len();
                let mut roots: Vec<String> = Vec::new();
                roots.push(stripped);
                assert(texts(roots@) =~= Seq::<Seq<char>>::empty().push(root));
                index.insert(p.volume.clone(), n as u64);
                groups.push(VolumeRoots { volume: p.volume.clone(), roots });
                proof {
                    assert forall|k: int| 0 <= k < groups.len() implies texts(
                        (#[trigger] groups@[k]).roots@,
                    ) == roots_on(now, groups@[k].volume@) by {
                        if k < n {
                            assert(groups@[k] == old_groups[k]);
                        }
                    }
                    assert forall|k: int| 0 <= k < now.len() implies exists|h: int|
                        0 <= h < groups.len() && (#[trigger] groups@[h]).volume@ == (
                        #[trigger] now[k]).volume@ by {
                        if k < i {
                            assert(before[k] == now[k]);
                            let h = choose|h: int|
                                0 <= h < old_groups.len() && (#[trigger] old_groups[h]).volume@
                                    == before[k].volume@;
                            assert(groups@[h].volume@ == old_groups[h].volume@);
                        } else {
                            assert(groups@[n as int].volume@ == now[k].volume@);
                        }
                    }
                }
            },
        }
        proof {
            assert forall|a: int, b: int| 0 <= a < b < groups.len() implies (
            #[trigger] groups@[a]).volume@ != (#[trigger] groups@[b]).volume@ by {
                assert(old_groups[a].volume@ == groups@[a].volume@);
                assert(old_index.contains_key(old_groups[a].volume@));
                if b < old_groups.len() {
                    assert(old_groups[b].volume@ == groups@[b].volume@);
                    assert(old_index.contains_key(old_groups[b].volume@));
                }
            }
            assert(forall|k: int|
                0 <= k < groups.len() ==> texts((#[trigger] groups@[k]).roots@) == roots_on(
                    now,
                    groups@[k].volume@,
                ));
            assert forall|g: int| 0 <= g < groups.len() implies (
            #[trigger] groups@[g]).roots@.len() > 0 by {
                assert(g < old_groups.len() ==> old_groups[g].roots@.len() > 0);
            }
            assert(grouped(now, groups@));
        }
        i = i + 1;
    }
    assert(placed@.take(placed.len() as int) =~= placed@);
    groups
}

/// How the files of a volume are got.
#[derive(Clone, Copy, Debug, PartialEq, Eq, Structural)]
pub enum VolumePlan {
    /// From the snapshot, if that works, and else from the record table.
    Warm,
    /// From the record table.
    Cold,
}

/// How the files of a volume are got: from a snapshot only where there is a place for one and the
/// scan may use it.
pub fn volume_plan(has_cache: bool, cfg: &ScanConfig) -> (r: VolumePlan)
    ensures
        r == (if has_cache && cfg.use_cache {
            VolumePlan::Warm
        } else {
            VolumePlan::Cold
        }),
{
    if has_cache && cfg.use_cache {
        VolumePlan::Warm
    } else {
        VolumePlan::Cold
    }
}

/// The files that a warm start gave. Where it gave none, or went wrong, the volume has to be read
/// in full.
pub fn after_warm(attempt: Result<WarmOutcome, String>) -> (r: Option<Vec<FileEntry>>)
    ensures
        match attempt {
            Ok(WarmOutcome::Applied { files, .. }) => r == Some(files),
            Ok(WarmOutcome::Fallback { .. }) => r is None,
            Err(_) => r is None,
        },
{
    match attempt {
        Ok(WarmOutcome::Applied { files, .. }) => Some(files),
        Ok(WarmOutcome::Fallback { .. }) => None,
        Err(_) => None,
    }
}

/// Why the record tables gave no files.
#[derive(Debug)]
pub enum MftError {
    /// There are none on this platform.
    Unsupported(&'static str),
    /// A volume could not be read.
    Volume(String),
}

/// The files of all volumes, one after the other, or the first reason why one has none.
pub open spec fn gathered(volumes: Seq<Result<Vec<FileEntry>, String>>) -> Result<
    Seq<FileEntryView>,
    Seq<char>,
>
    decreases volumes.len(),
{
    if volumes.len() == 0 {
        Ok(Seq::empty())
    } else {
        match gathered(volumes.drop_last()) {
            Err(reason) => Err(reason),
            Ok(files) => match volumes.last() {
                Err(reason) => Err(reason@),
                Ok(more) => Ok(files + entry_views(more@)),
            },
        }
    }
}

proof fn lemma_first_failure_stays(volumes: Seq<Result<Vec<FileEntry>, String>>, n: int)
    requires
        0 <= n <= volumes.len(),
        gathered(volumes.take(n)) is Err,
    ensures
        gathered(volumes) == gathered(volumes.take(n)),
    decreases volumes.len() - n,
{
    if n < volumes.len() {
        assert(volumes.take(n + 1).drop_last() =~= volumes.take(n));
        lemma_first_failure_stays(volumes, n + 1);
    } else {
        assert(volumes.take(n) =~= volumes);
    }
}

/// Puts the files of the volumes together.
pub fn enumerate(platform: Platform, volumes: Vec<Result<Vec<FileEntry>, String>>) -> (r: Result<
    Vec<FileEntry>,
    MftError,
>)
    ensures
        platform == Platform::Unix ==> (r matches Err(MftError::Unsupported(why)) && why@
            == "inventory::mft: only available on Windows"@),
        platform == Platform::Windows ==> (match gathered(volumes@) {
            Ok(files) => r matches Ok(all) && entry_views(all@) == files,
            Err(reason) => r matches Err(MftError::Volume(why)) && why@ == reason,
        }),
{
    if platform == Platform::Unix {
        return Err(MftError::Unsupported("inventory::mft: only available on Windows"));
    }
    let ghost all = volumes@;
    let mut out: Vec<FileEntry> = Vec::new();
    assert(all.take(0) =~= Seq::empty());
    assert(entry_views(out@) =~= Seq::empty());
    for volume in it: volumes
        invariant
            it.seq() == all,
            gathered(all.take(it.index())) == Ok::<Seq<FileEntryView>, Seq<char>>(
                entry_views(out@),
            ),
            platform == Platform::Windows,
    {
        let ghost i = it.index();
        assert(all.take(i + 1).drop_last() =~= all.take(i));
        assert(all.take(i + 1).last() == all[i]);
        match volume {
            Ok(files) => {
                let ghost before = out@;
                let mut files = files;
                let ghost more = files@;
                out.append(&mut files);
                assert(entry_views(out@) =~= entry_views(before) + entry_views(more));
            },
            Err(why) => {
                proof {
                    lemma_first_failure_stays(all, i + 1);
                }
                return Err(MftError::Volume(why));
            },
        }
    }
    assert(all.take(all.len() as int) =~= all);
    Ok(out)
}

/// Where later stages may see the files of each volume, they may see the files of all together.
pub proof fn gathered_files_are_eligible(
    cfg: ScanConfig,
    rules: spec_fn(Seq<char>) -> PathVerdicts,
    volumes: Seq<Result<Vec<FileEntry>, String>>,
)
    requires
        forall|i: int|
            0 <= i < volumes.len() ==> (#[trigger] volumes[i] matches Ok(files) ==> all_eligible(
                cfg,
                rules,
                entry_views(files@),
            )),
    ensures
        gathered(volumes) matches Ok(files) ==> all_eligible(cfg, rules, files),
    decreases volumes.len(),
{
    if volumes.len() > 0 {
        let front = volumes.drop_last();
        assert forall|i: int| 0 <= i < front.len() implies (#[trigger] front[i] matches Ok(files)
            ==> all_eligible(cfg, rules, entry_views(files@))) by {
            assert(front[i] == volumes[i]);
        }
        gathered_files_are_eligible(cfg, rules, front);
        assert(volumes[volumes.len() - 1] == volumes.last());
    }
}

/// Whether the numbers lead from the top of a volume down to a record: every one but the last is a
/// directory with a name, every one after the first has the one before it as its parent, and the
/// first lies at the top, where its parent is `0`, has no record, or is the nameless or own parent
/// that stands for the root.
pub open spec fn is_way_down(table: Map<u64, VolumeRecord>, way: Seq<u64>) -> bool {
    &&& way.len() > 0
    &&& way.no_duplicates()
    &&& forall|k: int| 0 <= k < way.len() ==> (#[trigger] way[k]) != 0 && table.contains_key(way[k])
    &&& forall|k: int|
        0 <= k < way.len() - 1 ==> table[#[trigger] way[k]].attributes & 0x10 != 0
            && table[way[k]].name@.len() > 0 && table[way[k + 1]].parent_ref == way[k]
    &&& {
        let top = table[way[0]].parent_ref;
        top == 0 || !table.contains_key(top) || (table[top].attributes & 0x10 != 0 && !way.contains(
            top,
        ) && (table[top].name@.len() == 0 || table[top].parent_ref == top))
    }
}

/// The names of these records, in order.
pub open spec fn names_along(table: Map<u64, VolumeRecord>, way: Seq<u64>) -> Seq<Seq<char>> {
    way.map_values(|k: u64| table[k].name@)
}

proof fn lemma_ancestors_along(table: Map<u64, VolumeRecord>, way: Seq<u64>, j: int, steps: nat)
    requires
        is_way_down(table, way),
        0 <= j < way.len() - 1,
        steps > j,
    ensures
        ancestors(table, way.last(), way[j], steps) == Some(
            names_along(table, way).take(j + 1).reverse(),
        ),
    decreases j,
{
    let names = names_along(table, way);
    let file = way.last();
    let here = table[way[j]];
    assert(way[j] != file);
    assert(here.is_dir());
    assert(names[j] == here.name@);
    let rest = ancestors(table, file, here.parent_ref, (steps - 1) as nat);
    if j == 0 {
        assert(here.parent_ref != way[0]) by {
            if here.parent_ref == way[0] {
                assert(way.contains(way[0]));
            }
        }
        assert(rest == Some(Seq::<Seq<char>>::empty()));
        assert(seq![here.name@] + Seq::<Seq<char>>::empty() =~= names.take(1).reverse());
    } else {
        assert(table[way[j - 1 + 1]].parent_ref == way[j - 1]);
        assert(way[j - 1] != way[j]);
        lemma_ancestors_along(table, way, j - 1, (steps - 1) as nat);
        assert(seq![here.name@] + names.take(j).reverse() =~= names.take(j + 1).reverse());
    }
}

/// The path of a record is the volume's root with the names on the way down to it pushed one after
/// the other: the outermost directory first, the record's own name last.
pub proof fn paths_follow_the_way_down(
    table: Map<u64, VolumeRecord>,
    volume_root: Seq<char>,
    way: Seq<u64>,
)
    requires
        is_way_down(table, way),
        way.len() <= 1025,
    ensures
        path_of(table, volume_root, way.last()) == Some(
            pushed_all(Platform::Windows, volume_root, names_along(table, way)),
        ),
{
    let names = names_along(table, way);
    let file = way.last();
    let n = way.len() as int;
    assert(table.contains_key(way[n - 1]));
    let record = table[file];
    assert(names[n - 1] == record.name@);
    if n > 1 {
        assert(table[way[n - 2 + 1]].parent_ref == way[n - 2]);
        lemma_ancestors_along(table, way, n - 2, MAX_PARENTS as nat);
        let up = names.take(n - 1).reverse();
        assert((seq![record.name@] + up).reverse() =~= names);
    } else {
        let top = record.parent_ref;
        assert(ancestors(table, file, top, MAX_PARENTS as nat) == Some(Seq::<Seq<char>>::empty()));
        assert((seq![record.name@] + Seq::<Seq<char>>::empty()).reverse() =~= names);
    }
}

/// A record lies in the directory that is its parent: its path is the directory's path with its own
/// name pushed.
pub proof fn records_lie_in_their_directory(
    table: Map<u64, VolumeRecord>,
    volume_root: Seq<char>,
    way: Seq<u64>,
)
    requires
        is_way_down(table, way),
        2 <= way.len() <= 1025,
    ensures
        path_of(table, volume_root, way[way.len() - 2]) is Some,
        path_of(table, volume_root, way.last()) == Some(
            pushed(
                Platform::Windows,
                path_of(table, volume_root, way[way.len() - 2])->0,
                table[way.last()].name@,
            ),
        ),
{
    let above = way.drop_last();
    assert forall|k: int| 0 <= k < above.len() - 1 implies table[#[trigger] above[k]].attributes & 0x10
        != 0 && table[above[k]].name@.len() > 0 && table[above[k + 1]].parent_ref == above[k] by {
        assert(way[k] == above[k] && way[k + 1] == above[k + 1]);
    }
    let top = table[way[0]].parent_ref;
    if above.contains(top) {
        let i = above.index_of(top);
        assert(way[i] == top);
    }
    assert forall|k: int| 0 <= k < above.len() implies (#[trigger] above[k]) != 0
        && table.contains_key(above[k]) by {
        assert(way[k] == above[k]);
    }
    assert(is_way_down(table, above));
    paths_follow_the_way_down(table, volume_root, above);
    paths_follow_the_way_down(table, volume_root, way);
    let names = names_along(table, way);
    assert(names.drop_last() =~= names_along(table, above));
    assert(names.last() == table[way.last()].name@);
}

/// A record that was not handed out has no path, and neither has one below something that is not a
/// directory.
pub proof fn nothing_lies_below_a_file(
    table: Map<u64, VolumeRecord>,
    volume_root: Seq<char>,
    file_ref: u64,
)
    ensures
        !table.contains_key(file_ref) ==> path_of(table, volume_root, file_ref) is None,
        table.contains_key(file_ref) && ({
            let parent = table[file_ref].parent_ref;
            &&& parent != 0
            &&& parent != file_ref
            &&& table.contains_key(parent)
            &&& table[parent].attributes & 0x10 == 0
        }) ==> path_of(table, volume_root, file_ref) is None,
{
}

/// A record becomes a candidate exactly when it is no directory, has a path, and the path lies
/// under one of the roots, or there are none; it is then a candidate once, at that path.
pub proof fn files_under_the_roots_are_candidates(
    table: Map<u64, VolumeRecord>,
    volume_root: Seq<char>,
    roots: Seq<Seq<char>>,
    order: Seq<u64>,
    file_ref: u64,
    path: Seq<char>,
)
    requires
        lists_all(table, order),
    ensures
        candidates_in(table, volume_root, roots, order).0.contains((file_ref, path)) <==> {
            &&& table.contains_key(file_ref)
            &&& table[file_ref].attributes & 0x10 == 0
            &&& path_of(table, volume_root, file_ref) == Some(path)
            &&& roots.len() == 0 || exists|k: int|
                0 <= k < roots.len() && starts_with(Platform::Windows, path, #[trigger] roots[k])
        },
{
    candidates_do_not_depend_on_order(table, volume_root, roots, order, file_ref, path);
    assert(order.contains(file_ref) == table.contains_key(file_ref));
}

/// A candidate that was looked up is taken where its size is in range and the patterns pass: under
/// its path, with the size that was found, and with the number, parent, change, attributes and time
/// of its record.
pub proof fn wanted_candidates_are_accepted(
    cfg: ScanConfig,
    table: Map<u64, VolumeRecord>,
    volume: Option<Seq<char>>,
    candidates: Seq<(u64, Seq<char>)>,
    sizes: Seq<Option<u64>>,
    verdicts: Seq<PathVerdicts>,
    k: int,
)
    requires
        sizes.len() == candidates.len(),
        verdicts.len() == candidates.len(),
        0 <= k < candidates.len(),
        table.contains_key(candidates[k].0),
        sizes[k] matches Some(size) && cfg.min_size <= size && (cfg.max_size matches Some(max) ==> size
            <= max),
        verdicts[k].include_match != Some(false),
        verdicts[k].exclude_match != Some(true),
    ensures
        ({
            let files = accepted(cfg, table, volume, candidates, sizes, verdicts).files;
            let record = table[candidates[k].0];
            exists|i: int|
                {
                    &&& 0 <= i < files.len()
                    &&& (#[trigger] files[i]).path == candidates[k].1
                    &&& files[i].file_ref == candidates[k].0
                    &&& Some(files[i].size) == sizes[k]
                    &&& files[i].mtime == record.mtime
                    &&& files[i].parent_ref == record.parent_ref
                    &&& files[i].usn == record.usn
                    &&& files[i].attributes == record.attributes
                    &&& files[i].volume_guid == volume
                }
        }),
    decreases candidates.len(),
{
    let n = candidates.len() - 1;
    let init = accepted(
        cfg,
        table,
        volume,
        candidates.drop_last(),
        sizes.drop_last(),
        verdicts.drop_last(),
    ).files;
    let files = accepted(cfg, table, volume, candidates, sizes, verdicts).files;
    let record = table[candidates[k].0];
    if k < n {
        wanted_candidates_are_accepted(
            cfg,
            table,
            volume,
            candidates.drop_last(),
            sizes.drop_last(),
            verdicts.drop_last(),
            k,
        );
        let i = choose|i: int|
            {
                &&& 0 <= i < init.len()
                &&& (#[trigger] init[i]).path == candidates[k].1
                &&& init[i].file_ref == candidates[k].0
                &&& Some(init[i].size) == sizes[k]
                &&& init[i].mtime == record.mtime
                &&& init[i].parent_ref == record.parent_ref
                &&& init[i].usn == record.usn
                &&& init[i].attributes == record.attributes
                &&& init[i].volume_guid == volume
            };
        assert(files[i] == init[i]);
    } else {
        assert(files.len() == init.len() + 1);
        assert(files[init.len() as int].path == candidates[k].1);
    }
}

/// Every file that is taken is one of the candidates, with the size that was looked up for it, and
/// there are never more files than candidates.
pub proof fn accepted_files_were_candidates(
    cfg: ScanConfig,
    table: Map<u64, VolumeRecord>,
    volume: Option<Seq<char>>,
    candidates: Seq<(u64, Seq<char>)>,
    sizes: Seq<Option<u64>>,
    verdicts: Seq<PathVerdicts>,
    i: int,
)
    requires
        sizes.len() == candidates.len(),
        verdicts.len() == candidates.len(),
        0 <= i < accepted(cfg, table, volume, candidates, sizes, verdicts).files.len(),
    ensures
        ({
            let files = accepted(cfg, table, volume, candidates, sizes, verdicts).files;
            &&& files.len() <= candidates.len()
            &&& exists|k: int|
                0 <= k < candidates.len() && (#[trigger] candidates[k]) == (
                files[i].file_ref,
                files[i].path,
            ) && sizes[k] == Some(files[i].size)
        }),
    decreases candidates.len(),
{
    let n = candidates.len() - 1;
    let init = accepted(
        cfg,
        table,
        volume,
        candidates.drop_last(),
        sizes.drop_last(),
        verdicts.drop_last(),
    ).files;
    let files = accepted(cfg, table, volume, candidates, sizes, verdicts).files;
    if init.len() > 0 {
        accepted_files_were_candidates(
            cfg,
            table,
            volume,
            candidates.drop_last(),
            sizes.drop_last(),
            verdicts.drop_last(),
            if i < init.len() {
                i
            } else {
                0
            },
        );
    }
    if i < init.len() {
        assert(files[i] == init[i]);
        let k = choose|k: int|
            0 <= k < candidates.drop_last().len() && (#[trigger] candidates.drop_last()[k]) == (
            init[i].file_ref,
            init[i].path,
        ) && sizes.drop_last()[k] == Some(init[i].size);
        assert(candidates[k] == (files[i].file_ref, files[i].path));
    } else {
        assert(candidates[n] == (files[i].file_ref, files[i].path));
    }
}

/// Of the records that were handed out under one number, the last one counts.
pub proof fn later_records_win(records: Seq<NumberedRecord>, k: int)
    requires
        0 <= k < records.len(),
        forall|j: int| k < j < records.len() ==> (#[trigger] records[j]).file_ref != records[k].file_ref,
    ensures
        entered(records).contains_key(records[k].file_ref),
        entered(records)[records[k].file_ref] == records[k].record,
    decreases records.len(),
{
    let n = records.len() - 1;
    if k < n {
        let init = records.drop_last();
        assert(init[k] == records[k]);
        assert(records[n].file_ref != records[k].file_ref);
        later_records_win(init, k);
    }
}

/// No record turns up that was not handed out.
pub proof fn records_were_handed_out(records: Seq<NumberedRecord>, file_ref: u64)
    requires
        entered(records).contains_key(file_ref),
    ensures
        exists|k: int|
            0 <= k < records.len() && (#[trigger] records[k]).file_ref == file_ref
                && records[k].record == entered(records)[file_ref],
    decreases records.len(),
{
    let n = records.len() - 1;
    if n >= 0 {
        let init = records.drop_last();
        if records[n].file_ref != file_ref {
            records_were_handed_out(init, file_ref);
            let k = choose|k: int|
                0 <= k < init.len() && (#[trigger] init[k]).file_ref == file_ref && init[k].record
                    == entered(init)[file_ref];
            assert(records[k] == init[k]);
        } else {
            assert(records[n].record == entered(records)[file_ref]);
        }
    }
}

/// A record that was handed out is entered with its parent, change, attributes, name and time.
pub proof fn handed_out_records_are_entered(records: Seq<UsnRecord>, k: int)
    requires
        0 <= k < records.len(),
        forall|j: int| k < j < records.len() ==> (#[trigger] records[j]).file_ref != records[k].file_ref,
    ensures
        ({
            let table = entered(numbered(records));
            let r = records[k];
            &&& table.contains_key(r.file_ref)
            &&& table[r.file_ref].parent_ref == r.parent_ref
            &&& table[r.file_ref].usn == r.usn
            &&& table[r.file_ref].attributes == r.attributes
            &&& table[r.file_ref].name == r.name
            &&& table[r.file_ref].mtime == r.mtime
        }),
{
    let all = numbered(records);
    assert forall|j: int| k < j < all.len() implies (#[trigger] all[j]).file_ref != all[k].file_ref by {
        assert(records[j].file_ref != records[k].file_ref);
    }
    later_records_win(all, k);
}

/// A snapshot keeps every record as it was but for its size: directories have none, and a file has
/// the size that was looked up for it.
pub proof fn snapshots_keep_records(table: Map<u64, VolumeRecord>, sizes: Map<u64, u64>, k: u64)
    ensures
        snapshot_table(table, sizes).contains_key(k) <==> table.contains_key(k),
        table.contains_key(k) ==> {
            let kept = snapshot_table(table, sizes)[k];
            &&& kept.name == table[k].name
            &&& kept.parent_ref == table[k].parent_ref
            &&& kept.usn == table[k].usn
            &&& kept.attributes == table[k].attributes
            &&& kept.mtime == table[k].mtime
            &&& kept.reparse_tag == table[k].reparse_tag
            &&& table[k].attributes & 0x10 != 0 ==> kept.size == -1
            &&& table[k].attributes & 0x10 == 0 && sizes.contains_key(k) && sizes[k] <= i64::MAX
                ==> kept.size == sizes[k]
            &&& table[k].attributes & 0x10 == 0 && !sizes.contains_key(k) ==> kept.size == 0
        },
{
}

/// A snapshot is complete up to the change that was to be written next when the reading began, in
/// the journal that was read.
pub proof fn snapshots_name_their_journal(journal: JournalState, now: i64)
    ensures
        meta_of(journal, now).journal_id == journal.journal_id,
        meta_of(journal, now).last_usn == journal.next_usn,
        meta_of(journal, now).captured_at_unix == now,
{
}

/// The files of all volumes are listed: where every volume could be read, each of its files is
/// among the files, and where one could not, the whole reading fails with the first reason.
pub proof fn every_volume_is_listed(volumes: Seq<Result<Vec<FileEntry>, String>>, k: int)
    requires
        0 <= k < volumes.len(),
    ensures
        match gathered(volumes) {
            Ok(files) => volumes[k] matches Ok(own) && forall|i: int|
                0 <= i < own@.len() ==> files.contains(#[trigger] entry_views(own@)[i]),
            Err(reason) => volumes[k] is Err && (forall|j: int|
                0 <= j < k ==> (#[trigger] volumes[j]) is Ok) ==> volumes[k]->Err_0@ == reason,
        },
    decreases volumes.len(),
{
    let init = volumes.drop_last();
    let n = volumes.len() - 1;
    if k < n {
        every_volume_is_listed(init, k);
        assert(init[k] == volumes[k]);
        if let Ok(files) = gathered(volumes) {
            let before = gathered(init)->Ok_0;
            assert forall|i: int| 0 <= i < volumes[k]->Ok_0@.len() implies files.contains(
                #[trigger] entry_views(volumes[k]->Ok_0@)[i],
            ) by {
                let e = entry_views(volumes[k]->Ok_0@)[i];
                assert(before.contains(e));
                let at = before.index_of(e);
                assert(files[at] == e);
            }
        } else {
            if gathered(init) is Ok {
                assert(volumes[k] is Ok);
            }
        }
    } else {
        if let Ok(files) = gathered(volumes) {
            let before = gathered(init)->Ok_0;
            let own = entry_views(volumes[k]->Ok_0@);
            assert forall|i: int| 0 <= i < volumes[k]->Ok_0@.len() implies files.contains(
                #[trigger] own[i],
            ) by {
                assert(files[before.len() + i] == own[i]);
            }
        } else if volumes[k] is Err && (forall|j: int| 0 <= j < k ==> (#[trigger] volumes[j]) is Ok) {
            lemma_good_volumes_gather(volumes, n);
        }
    }
}

proof fn lemma_good_volumes_gather(volumes: Seq<Result<Vec<FileEntry>, String>>, n: int)
    requires
        0 <= n <= volumes.len(),
        forall|j: int| 0 <= j < n ==> (#[trigger] volumes[j]) is Ok,
    ensures
        gathered(volumes.take(n)) is Ok,
        n == volumes.len() - 1 ==> gathered(volumes.drop_last()) is Ok,
    decreases n,
{
    if n > 0 {
        lemma_good_volumes_gather(volumes, n - 1);
        assert(volumes.take(n).drop_last() =~= volumes.take(n - 1));
        assert(volumes.take(n).last() == volumes[n - 1]);
    }
    assert(n == volumes.len() - 1 ==> volumes.take(n) =~= volumes.drop_last());
}

/// Every size that was looked up is known afterwards under the number of its file, whether or not
/// the file is taken; nothing is known of a file that could not be looked up.
pub proof fn looked_up_sizes_are_known(
    cfg: ScanConfig,
    table: Map<u64, VolumeRecord>,
    volume: Option<Seq<char>>,
    candidates: Seq<(u64, Seq<char>)>,
    sizes: Seq<Option<u64>>,
    verdicts: Seq<PathVerdicts>,
    k: int,
)
    requires
        sizes.len() == candidates.len(),
        verdicts.len() == candidates.len(),
        0 <= k < candidates.len(),
        forall|j: int|
            0 <= j < candidates.len() && j != k ==> (#[trigger] candidates[j]).0 != candidates[k].0,
    ensures
        ({
            let known = accepted(cfg, table, volume, candidates, sizes, verdicts).sizes;
            &&& sizes[k] matches Some(size) ==> known.contains_key(candidates[k].0)
                && known[candidates[k].0] == size
            &&& sizes[k] is None ==> !known.contains_key(candidates[k].0)
        }),
    decreases candidates.len(),
{
    let last = candidates.len() - 1;
    let front = candidates.drop_last();
    if k < last {
        assert(candidates[last].0 != candidates[k].0);
        assert forall|j: int| 0 <= j < front.len() && j != k implies (#[trigger] front[j]).0
            != front[k].0 by {
            assert(front[j] == candidates[j]);
        }
        looked_up_sizes_are_known(
            cfg,
            table,
            volume,
            front,
            sizes.drop_last(),
            verdicts.drop_last(),
            k,
        );
    } else if sizes[k] is None {
        assert forall|j: int| 0 <= j < front.len() implies (#[trigger] front[j]).0
            != candidates[k].0 by {
            assert(front[j] == candidates[j]);
        }
        lemma_unknown_size(
            cfg,
            table,
            volume,
            front,
            sizes.drop_last(),
            verdicts.drop_last(),
            candidates[k].0,
        );
    }
}

proof fn lemma_unknown_size(
    cfg: ScanConfig,
    table: Map<u64, VolumeRecord>,
    volume: Option<Seq<char>>,
    candidates: Seq<(u64, Seq<char>)>,
    sizes: Seq<Option<u64>>,
    verdicts: Seq<PathVerdicts>,
    file_ref: u64,
)
    requires
        sizes.len() == candidates.len(),
        verdicts.len() == candidates.len(),
        forall|j: int| 0 <= j < candidates.len() ==> (#[trigger] candidates[j]).0 != file_ref,
    ensures
        !accepted(cfg, table, volume, candidates, sizes, verdicts).sizes.contains_key(file_ref),
    decreases candidates.len(),
{
    if candidates.len() > 0 {
        let front = candidates.drop_last();
        assert forall|j: int| 0 <= j < front.len() implies (#[trigger] front[j]).0 != file_ref by {
            assert(front[j] == candidates[j]);
        }
        lemma_unknown_size(
            cfg,
            table,
            volume,
            front,
            sizes.drop_last(),
            verdicts.drop_last(),
            file_ref,
        );
        assert(candidates[candidates.len() - 1].0 != file_ref);
    }
}

/// Every candidate is taken or counted under the reason that left it out: it could not be looked
/// up, its size is out of range, or the patterns do not pass it.
pub proof fn every_candidate_is_accounted_for(
    cfg: ScanConfig,
    table: Map<u64, VolumeRecord>,
    volume: Option<Seq<char>>,
    candidates: Seq<(u64, Seq<char>)>,
    sizes: Seq<Option<u64>>,
    verdicts: Seq<PathVerdicts>,
)
    requires
        sizes.len() == candidates.len(),
        verdicts.len() == candidates.len(),
        forall|j: int|
            0 <= j < candidates.len() ==> table.contains_key((#[trigger] candidates[j]).0),
    ensures
        ({
            let a = accepted(cfg, table, volume, candidates, sizes, verdicts);
            &&& a.files.len() + a.counts.metadata + a.counts.size + a.counts.glob == candidates.len()
            &&& a.counts.metadata == sizes.filter(|s: Option<u64>| s is None).len()
        }),
    decreases candidates.len(),
{
    reveal(Seq::filter);
    if candidates.len() > 0 {
        let front = candidates.drop_last();
        assert forall|j: int| 0 <= j < front.len() implies table.contains_key(
            (#[trigger] front[j]).0,
        ) by {
            assert(front[j] == candidates[j]);
        }
        every_candidate_is_accounted_for(
            cfg,
            table,
            volume,
            front,
            sizes.drop_last(),
            verdicts.drop_last(),
        );
        assert(table.contains_key(candidates[candidates.len() - 1].0));
    }
}

/// A record that is taken carries the state that its attributes and its reparse tag tell.
pub proof fn records_carry_their_state(
    record: VolumeRecord,
    file_ref: u64,
    path: Seq<char>,
    size: u64,
    volume: Option<Seq<char>>,
)
    ensures
        ({
            let state = record_entry(record, file_ref, path, size, volume).placeholder;
            let bits = record.attributes;
            &&& state is RecallOnOpen <==> bits & 0x4_0000 != 0
            &&& bits & 0x4_0000 == 0 && bits & 0x40_0000 != 0 ==> state is RecallOnDataAccess
            &&& state is NotPlaceholder <==> bits & 0x4_0000 == 0 && bits & 0x40_0000 == 0 && bits
                & 0x400 == 0
            &&& state is ReparseDedup ==> record.reparse_tag == Some(0x8000_0013u32)
        }),
{
}

/// Each root is among the roots of its own volume, without a verbatim marker.
pub proof fn roots_stay_on_their_volume(placed: Seq<PlacedRoot>, k: int)
    requires
        0 <= k < placed.len(),
    ensures
        roots_on(placed, placed[k].volume@).contains(unverbatim(Platform::Windows, placed[k].root@)),
    decreases placed.len(),
{
    let volume = placed[k].volume@;
    let front = placed.drop_last();
    let before = roots_on(front, volume);
    let all = roots_on(placed, volume);
    let own = unverbatim(Platform::Windows, placed[k].root@);
    if k < placed.len() - 1 {
        assert(front[k] == placed[k]);
        roots_stay_on_their_volume(front, k);
        let i = before.index_of(own);
        assert(before[i] == own);
        assert(all[i] == own);
    } else {
        assert(placed.last() == placed[k]);
        assert(all == before.push(own));
        assert(all[before.len() as int] == own);
    }
}

/// A volume has the roots that lie on it, in their order, and no other.
pub proof fn volumes_have_their_own_roots(placed: Seq<PlacedRoot>, volume: Seq<char>, i: int)
    requires
        0 <= i < roots_on(placed, volume).len(),
    ensures
        exists|k: int|
            0 <= k < placed.len() && (#[trigger] placed[k]).volume@ == volume && unverbatim(
                Platform::Windows,
                placed[k].root@,
            ) == roots_on(placed, volume)[i],
        roots_on(placed, volume).len() <= placed.len(),
    decreases placed.len(),
{
    let front = placed.drop_last();
    let last = placed.len() - 1;
    let before = roots_on(front, volume);
    if i < before.len() {
        volumes_have_their_own_roots(front, volume, i);
        let k = choose|k: int|
            0 <= k < front.len() && (#[trigger] front[k]).volume@ == volume && unverbatim(
                Platform::Windows,
                front[k].root@,
            ) == before[i];
        assert(placed[k] == front[k]);
    } else {
        if before.len() > 0 {
            volumes_have_their_own_roots(front, volume, 0);
        }
        assert(placed[last] == placed.last());
    }
}

/// The roots are grouped by volume: no volume has two groups, no group is empty, and every root is
/// in the group of its volume, without a verbatim marker.
pub proof fn every_root_is_in_the_group_of_its_volume(
    placed: Seq<PlacedRoot>,
    groups: Seq<VolumeRoots>,
    k: int,
)
    requires
        grouped(placed, groups),
        0 <= k < placed.len(),
    ensures
        exists|g: int|
            0 <= g < groups.len() && (#[trigger] groups[g]).volume@ == placed[k].volume@ && texts(
                groups[g].roots@,
            ).contains(unverbatim(Platform::Windows, placed[k].root@)),
        forall|a: int, b: int|
            0 <= a < b < groups.len() ==> (#[trigger] groups[a]).volume@ != (
            #[trigger] groups[b]).volume@,
        forall|g: int| 0 <= g < groups.len() ==> (#[trigger] groups[g]).roots@.len() >= 1,
{
    assert(placed[k].volume@ == placed[k].volume@);
    let g = choose|g: int|
        0 <= g < groups.len() && (#[trigger] groups[g]).volume@ == placed[k].volume@;
    roots_stay_on_their_volume(placed, k);
    assert(texts(groups[g].roots@) == roots_on(placed, groups[g].volume@));
}

} // verus!
