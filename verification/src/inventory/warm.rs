//! The warm start: a cached record table brought up to date from the change journal.
//!
//! A snapshot is usable while the journal still holds every change since it was taken. The changes
//! are applied one by one; a changed file is looked up on disk, so [`DeltaRun`] alternates between
//! a change and the size that was found.
use vstd::prelude::*;

use crate::inventory::mft::{
    accept_candidates, accepted, ancestors, candidate_views, candidates_in, changed_record, entered,
    fate, lists_all, load_records, path_of, record_path, snapshot_table, volume_candidates,
    Accepted, Candidate, FILE_ATTRIBUTE_DIRECTORY, FilterCounts, InventoryMeta, JournalState,
    MAX_PARENTS, NumberedRecord, RecordFate, UsnRecord, VolumeRecord,
};
use crate::inventory::{
    entry_views, optional_text, passes_globs, FileEntry, FileEntryView, PathVerdicts, ScanConfig,
};
use crate::paths::{volume_root, volume_root_for, Platform};
use crate::tables::RecordTable;
use crate::text::texts;

verus! {

/// The bit of a change that says that the file is gone.
pub const USN_REASON_FILE_DELETE: u32 = 0x0000_0200;

/// What came of a warm start on one volume.
pub enum WarmOutcome {
    /// The files come from the snapshot and the changes.
    Applied { files: Vec<FileEntry>, delta_records: u64, created: u64, updated: u64, deleted: u64 },
    /// The volume has to be read in full.
    Fallback { reason: &'static str },
}

/// What a look at the journal says of a snapshot.
pub enum JournalCheck {
    /// The snapshot can be brought up to date.
    Usable { saved: InventoryMeta, live: JournalState },
    /// It cannot, for this reason. `invalidate` says whether it has to be thrown away.
    Unusable { reason: &'static str, invalidate: bool },
}

/// What a look at the journal says of a snapshot, as a pair of reason and whether to throw it away.
pub open spec fn journal_problem(saved: Option<InventoryMeta>, live: Option<JournalState>) -> Option<
    (Seq<char>, bool),
> {
    match (saved, live) {
        (None, _) => Some(("no snapshot yet"@, false)),
        (Some(_), None) => Some(("journal query failed"@, false)),
        (Some(s), Some(l)) => if l.journal_id != s.journal_id {
            Some(("journal id changed"@, true))
        } else if s.last_usn < l.first_usn {
            Some(("journal rolled past cursor"@, true))
        } else if s.last_usn > l.next_usn {
            Some(("saved cursor past journal head (stale snapshot from older build)"@, true))
        } else {
            None
        },
    }
}

/// Decides whether a snapshot can be brought up to date. `saved` is what was kept beside it,
/// `live` the state of the journal where it could be queried.
pub fn check_journal(saved: Option<InventoryMeta>, live: Option<JournalState>) -> (r: JournalCheck)
    ensures
        match r {
            JournalCheck::Usable { saved: s, live: l } => {
                &&& journal_problem(saved, live) is None
                &&& saved == Some(s)
                &&& live == Some(l)
            },
            JournalCheck::Unusable { reason, invalidate } => journal_problem(saved, live) == Some(
                (reason@, invalidate),
            ),
        },
{
    let s: InventoryMeta = match saved {
        Some(s) => s,
        None => {
            return JournalCheck::Unusable { reason: "no snapshot yet", invalidate: false };
        },
    };
    let l: JournalState = match live {
        Some(l) => l,
        None => {
            return JournalCheck::Unusable { reason: "journal query failed", invalidate: false };
        },
    };
    if l.journal_id != s.journal_id {
        return JournalCheck::Unusable { reason: "journal id changed", invalidate: true };
    }
    if s.last_usn < l.first_usn {
        return JournalCheck::Unusable { reason: "journal rolled past cursor", invalidate: true };
    }
    if s.last_usn > l.next_usn {
        return JournalCheck::Unusable {
            reason: "saved cursor past journal head (stale snapshot from older build)",
            invalidate: true,
        };
    }
    JournalCheck::Usable { saved: s, live: l }
}

/// A snapshot is used only while the journal is the same one and still holds every change since.
pub proof fn usable_snapshots_are_covered(saved: Option<InventoryMeta>, live: Option<JournalState>)
    ensures
        journal_problem(saved, live) is None <==> {
            &&& saved is Some
            &&& live is Some
            &&& saved->0.journal_id == live->0.journal_id
            &&& live->0.first_usn <= saved->0.last_usn <= live->0.next_usn
        },
{
}

/// The snapshot that a full reading leaves behind is usable as long as its journal stays and does
/// not roll past it.
pub proof fn fresh_snapshots_are_usable(before: JournalState, later: JournalState, now: i64)
    requires
        later.journal_id == before.journal_id,
        later.first_usn <= before.next_usn <= later.next_usn,
    ensures
        journal_problem(
            Some(
                InventoryMeta {
                    journal_id: before.journal_id,
                    last_usn: before.next_usn,
                    captured_at_unix: now,
                },
            ),
            Some(later),
        ) is None,
{
}

/// One more, where there is room.
pub open spec fn one_more(n: u64) -> u64 {
    if n < u64::MAX {
        (n + 1) as u64
    } else {
        n
    }
}

/// One less, where there is something.
pub open spec fn one_less(n: u64) -> u64 {
    if n > 0 {
        (n - 1) as u64
    } else {
        0
    }
}

fn inc(n: u64) -> (r: u64)
    ensures
        r == one_more(n),
{
    if n < u64::MAX {
        n + 1
    } else {
        n
    }
}

fn dec(n: u64) -> (r: u64)
    ensures
        r == one_less(n),
{
    if n > 0 {
        n - 1
    } else {
        0
    }
}

/// The state while changes are applied.
pub struct DeltaView {
    /// The records.
    pub table: Map<u64, VolumeRecord>,
    /// The records to write to the snapshot.
    pub upserts: Seq<NumberedRecord>,
    /// The numbers to delete from the snapshot.
    pub deletes: Seq<u64>,
    pub created: u64,
    pub updated: u64,
    pub deleted: u64,
    /// Whether a change was met whose directory is not in the table.
    pub missing_parent: bool,
    /// The change whose file is being looked up, and whether the file had a record before.
    pub waiting: Option<(UsnRecord, bool)>,
}

/// The state with a record written.
pub open spec fn with_record(st: DeltaView, r: UsnRecord, size: i64, mtime: i64) -> DeltaView {
    let record = changed_record(r, size, mtime);
    DeltaView {
        table: st.table.insert(r.file_ref, record),
        upserts: st.upserts.push(NumberedRecord { file_ref: r.file_ref, record }),
        ..st
    }
}

/// Whether a change is that of a directory.
pub open spec fn changes_directory(r: UsnRecord) -> bool {
    r.attributes & FILE_ATTRIBUTE_DIRECTORY != 0
}

/// The state after a change, up to the point where its file has to be looked up.
pub open spec fn after_change(st: DeltaView, volume_root: Seq<char>, r: UsnRecord) -> DeltaView {
    let known = st.table.contains_key(r.file_ref);
    if st.missing_parent || st.waiting is Some {
        st
    } else if r.reason & USN_REASON_FILE_DELETE != 0 {
        if known {
            DeltaView {
                table: st.table.remove(r.file_ref),
                deleted: one_more(st.deleted),
                deletes: st.deletes.push(r.file_ref),
                ..st
            }
        } else {
            st
        }
    } else if !known && !st.table.contains_key(r.parent_ref) && r.parent_ref != 0 {
        DeltaView { missing_parent: true, ..st }
    } else {
        let counted = if known {
            DeltaView { updated: one_more(st.updated), ..st }
        } else {
            DeltaView { created: one_more(st.created), ..st }
        };
        if changes_directory(r) {
            with_record(counted, r, (-1) as i64, 0)
        } else {
            let provisional = st.table.insert(r.file_ref, changed_record(r, 0, 0));
            match path_of(provisional, volume_root, r.file_ref) {
                Some(_) => DeltaView { table: provisional, waiting: Some((r, known)), ..counted },
                None => DeltaView {
                    table: st.table.remove(r.file_ref),
                    deletes: if known {
                        st.deletes.push(r.file_ref)
                    } else {
                        st.deletes
                    },
                    ..counted
                },
            }
        }
    }
}

/// The state after the file of a change was looked up. `None` means that it is gone.
pub open spec fn after_lookup(st: DeltaView, size: Option<u64>) -> DeltaView {
    match st.waiting {
        None => st,
        Some((r, known)) => {
            let idle = DeltaView { waiting: None, ..st };
            match size {
                Some(n) => with_record(idle, r, n as i64, r.mtime),
                None => if known {
                    DeltaView {
                        table: st.table.remove(r.file_ref),
                        deleted: one_more(st.deleted),
                        updated: one_less(st.updated),
                        deletes: st.deletes.push(r.file_ref),
                        ..idle
                    }
                } else {
                    DeltaView {
                        table: st.table.remove(r.file_ref),
                        created: one_less(st.created),
                        ..idle
                    }
                },
            }
        },
    }
}

/// Applies changes to a record table.
pub struct DeltaRun {
    volume_root: String,
    table: RecordTable,
    upserts: Vec<NumberedRecord>,
    deletes: Vec<u64>,
    created: u64,
    updated: u64,
    deleted: u64,
    missing_parent: bool,
    waiting: Option<(UsnRecord, bool)>,
}

impl View for DeltaRun {
    type V = DeltaView;

    closed spec fn view(&self) -> DeltaView {
        DeltaView {
            table: self.table@,
            upserts: self.upserts@,
            deletes: self.deletes@,
            created: self.created,
            updated: self.updated,
            deleted: self.deleted,
            missing_parent: self.missing_parent,
            waiting: self.waiting,
        }
    }
}

/// The state before any change.
pub open spec fn untouched(table: Map<u64, VolumeRecord>) -> DeltaView {
    DeltaView {
        table,
        upserts: Seq::empty(),
        deletes: Seq::empty(),
        created: 0,
        updated: 0,
        deleted: 0,
        missing_parent: false,
        waiting: None,
    }
}

impl DeltaRun {
    /// Where the paths of the volume start.
    pub closed spec fn root(self) -> Seq<char> {
        self.volume_root@
    }

    /// Starts from the records of a snapshot.
    pub fn new(baseline: Vec<NumberedRecord>, volume_root: String) -> (r: Self)
        ensures
            r.root() == volume_root@,
            r@ == untouched(entered(baseline@)),
    {
        let r = DeltaRun {
            volume_root,
            table: load_records(baseline),
            upserts: Vec::new(),
            deletes: Vec::new(),
            created: 0,
            updated: 0,
            deleted: 0,
            missing_parent: false,
            waiting: None,
        };
        proof {
            assert(r.upserts@ =~= Seq::<NumberedRecord>::empty());
            assert(r.deletes@ =~= Seq::<u64>::empty());
        }
        r
    }

    fn write(&mut self, change: &UsnRecord, size: i64, mtime: i64)
        ensures
            final(self)@ == with_record(old(self)@, *change, size, mtime),
            final(self).root() == old(self).root(),
    {
        self.table.insert(change.file_ref, change.to_record(size, mtime));
        self.upserts.push(
            NumberedRecord { file_ref: change.file_ref, record: change.to_record(size, mtime) },
        );
    }

    /// Applies a change. Where its file has to be looked up, the result is the file's path, and
    /// [`DeltaRun::answer`] takes what was found.
    pub fn apply(&mut self, change: UsnRecord) -> (r: Option<String>)
        ensures
            final(self)@ == after_change(old(self)@, old(self).root(), change),
            final(self).root() == old(self).root(),
            optional_text(r) == (if old(self)@.waiting is None && final(self)@.waiting is Some {
                path_of(final(self)@.table, old(self).root(), change.file_ref)
            } else {
                None
            }),
    {
        if self.missing_parent || self.waiting.is_some() {
            return None;
        }
        let file_ref: u64 = change.file_ref;
        let known: bool = self.table.contains_key(file_ref);
        if change.reason & USN_REASON_FILE_DELETE != 0 {
            if self.table.remove(file_ref) {
                self.deleted = inc(self.deleted);
                self.deletes.push(file_ref);
            } else {
                assert(self.table@ =~= old(self).table@);
            }
            return None;
        }
        if !known {
            if !self.table.contains_key(change.parent_ref) && change.parent_ref != 0 {
                self.missing_parent = true;
                return None;
            }
            self.created = inc(self.created);
        } else {
            self.updated = inc(self.updated);
        }
        if change.attributes & FILE_ATTRIBUTE_DIRECTORY != 0 {
            self.write(&change, -1, 0);
            return None;
        }
        self.table.insert(file_ref, change.to_record(0, 0));
        match record_path(&self.table, self.volume_root.as_str(), file_ref) {
            Some(path) => {
                self.waiting = Some((change, known));
                Some(path)
            },
            None => {
                let gone = self.table.remove(file_ref);
                assert(self.table@ =~= old(self).table@.remove(file_ref));
                if known {
                    self.deletes.push(file_ref);
                }
                None
            },
        }
    }

    /// Takes the size of the file that was asked for, `None` where it is gone.
    pub fn answer(&mut self, size: Option<u64>)
        ensures
            final(self)@ == after_lookup(old(self)@, size),
            final(self).root() == old(self).root(),
    {
        let mut waiting: Option<(UsnRecord, bool)> = None;
        std::mem::swap(&mut waiting, &mut self.waiting);
        match waiting {
            None => {},
            Some((change, known)) => match size {
                Some(n) => {
                    let mtime: i64 = change.mtime;
                    self.write(&change, n as i64, mtime);
                },
                None => {
                    let gone = self.table.remove(change.file_ref);
                    if known {
                        self.deleted = inc(self.deleted);
                        self.updated = dec(self.updated);
                        self.deletes.push(change.file_ref);
                    } else {
                        self.created = dec(self.created);
                    }
                },
            },
        }
    }
}

/// A change, with what looking up its file gave, or would give.
pub struct DeltaStep {
    pub change: UsnRecord,
    /// The size of the file, `None` where it is gone.
    pub size: Option<u64>,
}

/// The state after a change and the lookup of its file, where there is one.
pub open spec fn after_step(st: DeltaView, volume_root: Seq<char>, step: DeltaStep) -> DeltaView {
    after_lookup(after_change(st, volume_root, step.change), step.size)
}

/// The state after these changes.
pub open spec fn after_steps(st: DeltaView, volume_root: Seq<char>, steps: Seq<DeltaStep>) -> DeltaView
    decreases steps.len(),
{
    if steps.len() == 0 {
        st
    } else {
        after_step(after_steps(st, volume_root, steps.drop_last()), volume_root, steps.last())
    }
}

impl DeltaRun {
    /// Applies recorded changes in order, up to the first one whose directory is not known.
    pub fn apply_all(&mut self, steps: Vec<DeltaStep>)
        ensures
            final(self)@ == after_steps(old(self)@, old(self).root(), steps@),
            final(self).root() == old(self).root(),
    {
        let ghost all = steps@;
        let ghost st = self@;
        let ghost root = self.root();
        assert(all.take(0) =~= Seq::<DeltaStep>::empty());
        for step in it: steps
            invariant
                it.seq() == all,
                self.root() == root,
                self@ == after_steps(st, root, all.take(it.index() as int)),
        {
            let ghost i = it.index() as int;
            proof {
                assert(all.take(i + 1).drop_last() =~= all.take(i));
                assert(all.take(i + 1).last() == step);
            }
            let path = self.apply(step.change);
            self.answer(step.size);
        }
        assert(all.take(all.len() as int) =~= all);
    }
}

/// The record that was written last under a number, if one was.
pub open spec fn last_written(upserts: Seq<NumberedRecord>, k: u64) -> Option<VolumeRecord>
    decreases upserts.len(),
{
    if upserts.len() == 0 {
        None
    } else if upserts.last().file_ref == k {
        Some(upserts.last().record)
    } else {
        last_written(upserts.drop_last(), k)
    }
}

/// Whether the difference between a table and the one it came from is named by what was written
/// and deleted, under this number.
pub open spec fn difference_named(
    base: Map<u64, VolumeRecord>,
    table: Map<u64, VolumeRecord>,
    upserts: Seq<NumberedRecord>,
    deletes: Seq<u64>,
    k: u64,
) -> bool {
    if table.contains_key(k) {
        (base.contains_key(k) && base[k] == table[k]) || last_written(upserts, k) == Some(table[k])
    } else {
        base.contains_key(k) ==> deletes.contains(k)
    }
}

/// What holds between changes and, of every other file, while one is looked up.
spec fn faithful(base: Map<u64, VolumeRecord>, st: DeltaView) -> bool {
    &&& forall|k: u64|
        (st.waiting matches Some(w) ==> w.0.file_ref != k) ==> #[trigger] difference_named(
            base,
            st.table,
            st.upserts,
            st.deletes,
            k,
        )
    &&& st.waiting matches Some(w) ==> (!w.1 && base.contains_key(w.0.file_ref)
        ==> st.deletes.contains(w.0.file_ref))
}

proof fn lemma_written(upserts: Seq<NumberedRecord>, n: NumberedRecord, k: u64)
    ensures
        last_written(upserts.push(n), k) == (if n.file_ref == k {
            Some(n.record)
        } else {
            last_written(upserts, k)
        }),
{
    assert(upserts.push(n).drop_last() =~= upserts);
}

proof fn lemma_push_contains(deletes: Seq<u64>, n: u64, k: u64)
    ensures
        deletes.push(n).contains(k) <==> deletes.contains(k) || n == k,
{
    let after = deletes.push(n);
    if deletes.contains(k) {
        let i = choose|i: int| 0 <= i < deletes.len() && deletes[i] == k;
        assert(after[i] == k);
    }
    if n == k {
        assert(after[deletes.len() as int] == k);
    }
    if after.contains(k) {
        let i = choose|i: int| 0 <= i < after.len() && after[i] == k;
        if i < deletes.len() {
            assert(deletes[i] == k);
        }
    }
}

proof fn lemma_change_is_faithful(
    base: Map<u64, VolumeRecord>,
    st: DeltaView,
    volume_root: Seq<char>,
    r: UsnRecord,
)
    requires
        faithful(base, st),
        st.waiting is None,
    ensures
        faithful(base, after_change(st, volume_root, r)),
{
    let next = after_change(st, volume_root, r);
    let w = r.file_ref;
    assert(difference_named(base, st.table, st.upserts, st.deletes, w));
    assert forall|k: u64|
        (next.waiting matches Some(x) ==> x.0.file_ref != k) implies #[trigger] difference_named(
        base,
        next.table,
        next.upserts,
        next.deletes,
        k,
    ) by {
        assert(difference_named(base, st.table, st.upserts, st.deletes, k));
        lemma_push_contains(st.deletes, w, k);
        lemma_written(
            st.upserts,
            NumberedRecord { file_ref: w, record: changed_record(r, (-1) as i64, 0) },
            k,
        );
    }
}

proof fn lemma_lookup_is_faithful(base: Map<u64, VolumeRecord>, st: DeltaView, size: Option<u64>)
    requires
        faithful(base, st),
    ensures
        faithful(base, after_lookup(st, size)),
{
    let next = after_lookup(st, size);
    if let Some((r, known)) = st.waiting {
        let w = r.file_ref;
        assert forall|k: u64|
            (next.waiting matches Some(x) ==> x.0.file_ref != k) implies #[trigger] difference_named(
            base,
            next.table,
            next.upserts,
            next.deletes,
            k,
        ) by {
            if k != w {
                assert(difference_named(base, st.table, st.upserts, st.deletes, k));
            }
            lemma_push_contains(st.deletes, w, k);
            if let Some(n) = size {
                lemma_written(
                    st.upserts,
                    NumberedRecord { file_ref: w, record: changed_record(r, n as i64, r.mtime) },
                    k,
                );
            }
        }
    }
}

proof fn lemma_steps_are_faithful(
    base: Map<u64, VolumeRecord>,
    volume_root: Seq<char>,
    steps: Seq<DeltaStep>,
)
    ensures
        faithful(base, after_steps(untouched(base), volume_root, steps)),
        after_steps(untouched(base), volume_root, steps).waiting is None,
    decreases steps.len(),
{
    if steps.len() > 0 {
        let before = after_steps(untouched(base), volume_root, steps.drop_last());
        lemma_steps_are_faithful(base, volume_root, steps.drop_last());
        lemma_change_is_faithful(base, before, volume_root, steps.last().change);
        lemma_lookup_is_faithful(
            base,
            after_change(before, volume_root, steps.last().change),
            steps.last().size,
        );
    }
}

/// What is written to the snapshot names every difference: a record that is new or has changed is
/// the one written last under its number, and a record that is gone is among the deleted ones.
pub proof fn snapshot_delta_is_complete(
    base: Map<u64, VolumeRecord>,
    volume_root: Seq<char>,
    steps: Seq<DeltaStep>,
    k: u64,
)
    ensures
        ({
            let st = after_steps(untouched(base), volume_root, steps);
            difference_named(base, st.table, st.upserts, st.deletes, k)
        }),
{
    lemma_steps_are_faithful(base, volume_root, steps);
    let st = after_steps(untouched(base), volume_root, steps);
    assert(difference_named(base, st.table, st.upserts, st.deletes, k));
}

/// With no change, the table stays as it was and nothing is written.
pub proof fn no_change_changes_nothing(base: Map<u64, VolumeRecord>, volume_root: Seq<char>)
    ensures
        after_steps(untouched(base), volume_root, Seq::<DeltaStep>::empty()) == untouched(base),
{
}

/// The size that the table holds for each candidate.
pub open spec fn table_sizes(
    table: Map<u64, VolumeRecord>,
    candidates: Seq<(u64, Seq<char>)>,
) -> Seq<Option<u64>> {
    candidates.map_values(
        |c: (u64, Seq<char>)|
            if table.contains_key(c.0) {
                Some(table[c.0].size as u64)
            } else {
                None
            },
    )
}

/// Takes the candidates that pass the size limits and the patterns. The sizes are those of the
/// table; nothing is looked up.
pub fn entries_from_records(
    cfg: &ScanConfig,
    table: &RecordTable,
    candidates: &Vec<Candidate>,
    verdicts: &Vec<PathVerdicts>,
) -> (r: Accepted)
    requires
        verdicts.len() == candidates.len(),
    ensures
        r@ == accepted(
            *cfg,
            table@,
            None,
            candidate_views(candidates@),
            table_sizes(table@, candidate_views(candidates@)),
            verdicts@,
        ),
{
    let ghost all = candidate_views(candidates@);
    let mut sizes: Vec<Option<u64>> = Vec::new();
    let mut i: usize = 0;
    while i < candidates.len()
        invariant
            i <= candidates.len(),
            all == candidate_views(candidates@),
            sizes.len() == i,
            forall|k: int| 0 <= k < i ==> sizes@[k] == #[trigger] table_sizes(table@, all)[k],
        decreases candidates.len() - i,
    {
        let c = &candidates[i];
        assert(all[i as int] == (c.file_ref, c.path@));
        let size: Option<u64> = match table.get(c.file_ref) {
            Some(record) => Some(record.size as u64),
            None => None,
        };
        sizes.push(size);
        i = i + 1;
    }
    assert(sizes@ =~= table_sizes(table@, all));
    accept_candidates(cfg, table, &None, candidates, &sizes, verdicts)
}

/// What a warm start goes by: what was kept beside the snapshot, the state of the journal, the
/// snapshot, the changes since, the change to go on from, and the time.
pub struct WarmInputs {
    pub saved: Option<InventoryMeta>,
    pub live: Option<JournalState>,
    pub baseline: Vec<NumberedRecord>,
    pub delta: Vec<DeltaStep>,
    pub next_usn: i64,
    pub now_unix: i64,
}

/// A snapshot brought up to date, whose files are not yet chosen.
pub struct WarmRun {
    pub table: RecordTable,
    /// The files under the roots.
    pub candidates: Vec<Candidate>,
    /// What was left out, and why.
    pub counts: FilterCounts,
    /// What to keep beside the snapshot.
    pub meta: InventoryMeta,
    /// The records to write to the snapshot.
    pub upserts: Vec<NumberedRecord>,
    /// The numbers to delete from the snapshot.
    pub deletes: Vec<u64>,
    pub delta_records: u64,
    pub created: u64,
    pub updated: u64,
    pub deleted: u64,
}

/// What came of trying to bring a snapshot up to date.
pub enum WarmAttempt {
    /// The volume has to be read in full. `invalidate` says whether the snapshot has to be thrown
    /// away.
    Fallback { reason: &'static str, invalidate: bool },
    Ready(WarmRun),
}

/// Why a snapshot cannot be used on this platform in this state, and whether it has to be thrown
/// away.
pub open spec fn warm_problem(
    platform: Platform,
    inputs: WarmInputs,
    volume_root: Seq<char>,
) -> Option<(Seq<char>, bool)> {
    if platform is Unix {
        Some(("non-Windows: USN journal unavailable"@, false))
    } else if journal_problem(inputs.saved, inputs.live) is Some {
        journal_problem(inputs.saved, inputs.live)
    } else if after_steps(untouched(entered(inputs.baseline@)), volume_root, inputs.delta@).missing_parent {
        Some(("delta references unknown parent directory"@, true))
    } else {
        None
    }
}

/// Brings a snapshot up to date from the change journal. The order in which the candidates come
/// out is not fixed: what is stated holds for whichever it was.
pub fn try_warm(platform: Platform, volume: &str, roots: &Vec<String>, inputs: WarmInputs) -> (r: WarmAttempt)
    ensures
        ({
            let root = volume_root(volume@, texts(roots@));
            let st = after_steps(untouched(entered(inputs.baseline@)), root, inputs.delta@);
            match r {
                WarmAttempt::Fallback { reason, invalidate } => warm_problem(platform, inputs, root)
                    == Some((reason@, invalidate)),
                WarmAttempt::Ready(run) => {
                    &&& warm_problem(platform, inputs, root) is None
                    &&& run.table@ == st.table
                    &&& run.upserts@ == st.upserts
                    &&& run.deletes@ == st.deletes
                    &&& run.created == st.created
                    &&& run.updated == st.updated
                    &&& run.deleted == st.deleted
                    &&& run.delta_records == inputs.delta@.len()
                    &&& run.meta == (InventoryMeta {
                        journal_id: inputs.live->0.journal_id,
                        last_usn: inputs.next_usn,
                        captured_at_unix: inputs.now_unix,
                    })
                    &&& exists|order: Seq<u64>|
                        lists_all(st.table, order) && (#[trigger] candidates_in(
                            st.table,
                            root,
                            texts(roots@),
                            order,
                        )) == (candidate_views(run.candidates@), run.counts@)
                },
            }
        }),
{
    match platform {
        Platform::Unix => {
            return WarmAttempt::Fallback {
                reason: "non-Windows: USN journal unavailable",
                invalidate: false,
            };
        },
        Platform::Windows => {},
    }
    let live: JournalState = match check_journal(inputs.saved, inputs.live) {
        JournalCheck::Usable { saved, live } => live,
        JournalCheck::Unusable { reason, invalidate } => {
            return WarmAttempt::Fallback { reason, invalidate };
        },
    };
    let root = volume_root_for(volume, roots);
    let delta_records: u64 = inputs.delta.len() as u64;
    let mut run = DeltaRun::new(inputs.baseline, root.clone());
    run.apply_all(inputs.delta);
    if run.missing_parent {
        return WarmAttempt::Fallback {
            reason: "delta references unknown parent directory",
            invalidate: true,
        };
    }
    let (candidates, counts) = volume_candidates(&run.table, root.as_str(), roots);
    proof {
        let st = run@;
        let order = choose|order: Seq<u64>|
            lists_all(st.table, order) && (#[trigger] candidates_in(
                st.table,
                root@,
                texts(roots@),
                order,
            )) == (candidate_views(candidates@), counts@);
        assert(lists_all(st.table, order));
    }
    WarmAttempt::Ready(
        WarmRun {
            table: run.table,
            candidates,
            counts,
            meta: InventoryMeta {
                journal_id: live.journal_id,
                last_usn: inputs.next_usn,
                captured_at_unix: inputs.now_unix,
            },
            upserts: run.upserts,
            deletes: run.deletes,
            delta_records,
            created: run.created,
            updated: run.updated,
            deleted: run.deleted,
        },
    )
}

impl WarmRun {
    /// Chooses the files, once the path rules were asked about every candidate.
    pub fn outcome(&self, cfg: &ScanConfig, verdicts: &Vec<PathVerdicts>) -> (r: WarmOutcome)
        requires
            verdicts.len() == self.candidates.len(),
        ensures
            r matches WarmOutcome::Applied { files, delta_records, created, updated, deleted } && {
                &&& entry_views(files@) == accepted(
                    *cfg,
                    self.table@,
                    None,
                    candidate_views(self.candidates@),
                    table_sizes(self.table@, candidate_views(self.candidates@)),
                    verdicts@,
                ).files
                &&& delta_records == self.delta_records
                &&& created == self.created
                &&& updated == self.updated
                &&& deleted == self.deleted
            },
    {
        let taken = entries_from_records(cfg, &self.table, &self.candidates, verdicts);
        WarmOutcome::Applied {
            files: taken.files,
            delta_records: self.delta_records,
            created: self.created,
            updated: self.updated,
            deleted: self.deleted,
        }
    }
}

proof fn lemma_same_ancestors(
    table: Map<u64, VolumeRecord>,
    sizes: Map<u64, u64>,
    file_ref: u64,
    cursor: u64,
    steps: nat,
)
    ensures
        ancestors(snapshot_table(table, sizes), file_ref, cursor, steps) == ancestors(
            table,
            file_ref,
            cursor,
            steps,
        ),
    decreases steps,
{
    if steps > 0 && table.contains_key(cursor) {
        lemma_same_ancestors(table, sizes, file_ref, table[cursor].parent_ref, (steps - 1) as nat);
    }
}

proof fn lemma_same_candidates(
    table: Map<u64, VolumeRecord>,
    sizes: Map<u64, u64>,
    root: Seq<char>,
    roots: Seq<Seq<char>>,
    order: Seq<u64>,
)
    ensures
        candidates_in(snapshot_table(table, sizes), root, roots, order) == candidates_in(
            table,
            root,
            roots,
            order,
        ),
    decreases order.len(),
{
    if order.len() > 0 {
        let k = order.last();
        lemma_same_candidates(table, sizes, root, roots, order.drop_last());
        if table.contains_key(k) {
            lemma_same_ancestors(
                table,
                sizes,
                k,
                table[k].parent_ref,
                MAX_PARENTS as nat,
            );
        }
        assert(path_of(snapshot_table(table, sizes), root, k) == path_of(table, root, k));
        assert(fate(snapshot_table(table, sizes), root, roots, k) == fate(table, root, roots, k));
    }
}

proof fn lemma_candidates_are_distinct(
    table: Map<u64, VolumeRecord>,
    root: Seq<char>,
    roots: Seq<Seq<char>>,
    order: Seq<u64>,
)
    requires
        order.no_duplicates(),
    ensures
        ({
            let found = candidates_in(table, root, roots, order).0;
            &&& forall|i: int|
                0 <= i < found.len() ==> order.contains((#[trigger] found[i]).0) && fate(
                    table,
                    root,
                    roots,
                    found[i].0,
                ) == RecordFate::Candidate(found[i].1)
            &&& forall|i: int, j: int|
                0 <= i < j < found.len() ==> (#[trigger] found[i]).0 != (#[trigger] found[j]).0
        }),
    decreases order.len(),
{
    let found = candidates_in(table, root, roots, order).0;
    if order.len() > 0 {
        let front = order.drop_last();
        let before = candidates_in(table, root, roots, front).0;
        assert(front.no_duplicates());
        lemma_candidates_are_distinct(table, root, roots, front);
        assert(order.last() == order[order.len() - 1]);
        assert forall|i: int| 0 <= i < before.len() implies order.contains(
            (#[trigger] before[i]).0,
        ) && before[i].0 != order.last() by {
            assert(front.contains(before[i].0));
            let j = choose|j: int| 0 <= j < front.len() && front[j] == before[i].0;
            assert(order[j] == before[i].0);
        }
        assert forall|i: int| 0 <= i < found.len() implies order.contains((#[trigger] found[i]).0)
            && fate(table, root, roots, found[i].0) == RecordFate::Candidate(found[i].1) by {
            if i < before.len() {
                assert(found[i] == before[i]);
            }
        }
        assert forall|i: int, j: int| 0 <= i < j < found.len() implies (#[trigger] found[i]).0 != (
        #[trigger] found[j]).0 by {
            assert(found[i] == before[i]);
            if j < before.len() {
                assert(found[j] == before[j]);
            }
        }
    }
}

proof fn lemma_kept_sizes(
    cfg: ScanConfig,
    table: Map<u64, VolumeRecord>,
    volume: Option<Seq<char>>,
    candidates: Seq<(u64, Seq<char>)>,
    sizes: Seq<Option<u64>>,
    verdicts: Seq<PathVerdicts>,
)
    requires
        sizes.len() == candidates.len(),
        verdicts.len() == candidates.len(),
        forall|i: int, j: int|
            0 <= i < j < candidates.len() ==> (#[trigger] candidates[i]).0 != (
            #[trigger] candidates[j]).0,
    ensures
        ({
            let kept = accepted(cfg, table, volume, candidates, sizes, verdicts).sizes;
            &&& forall|i: int|
                0 <= i < candidates.len() ==> match sizes[i] {
                    Some(n) => kept.contains_key((#[trigger] candidates[i]).0)
                        && kept[candidates[i].0] == n,
                    None => !kept.contains_key(candidates[i].0),
                }
            &&& forall|k: u64| #[trigger]
                kept.contains_key(k) ==> exists|i: int|
                    0 <= i < candidates.len() && (#[trigger] candidates[i]).0 == k
        }),
    decreases candidates.len(),
{
    let kept = accepted(cfg, table, volume, candidates, sizes, verdicts).sizes;
    if candidates.len() > 0 {
        let front = candidates.drop_last();
        let n = candidates.len() - 1;
        let before = accepted(
            cfg,
            table,
            volume,
            front,
            sizes.drop_last(),
            verdicts.drop_last(),
        ).sizes;
        assert forall|i: int, j: int| 0 <= i < j < front.len() implies (#[trigger] front[i]).0 != (
        #[trigger] front[j]).0 by {
            assert(front[i] == candidates[i] && front[j] == candidates[j]);
        }
        lemma_kept_sizes(cfg, table, volume, front, sizes.drop_last(), verdicts.drop_last());
        assert forall|i: int| 0 <= i < candidates.len() implies match sizes[i] {
            Some(x) => kept.contains_key((#[trigger] candidates[i]).0) && kept[candidates[i].0]
                == x,
            None => !kept.contains_key(candidates[i].0),
        } by {
            if i < n {
                assert(front[i] == candidates[i]);
                assert(candidates[i].0 != candidates[n].0);
            } else if sizes[i] is None && before.contains_key(candidates[n].0) {
                let j = choose|j: int|
                    0 <= j < front.len() && (#[trigger] front[j]).0 == candidates[n].0;
                assert(front[j] == candidates[j]);
            }
        }
        assert forall|k: u64| #[trigger] kept.contains_key(k) implies exists|i: int|
            0 <= i < candidates.len() && (#[trigger] candidates[i]).0 == k by {
            if before.contains_key(k) {
                let j = choose|j: int| 0 <= j < front.len() && (#[trigger] front[j]).0 == k;
                assert(candidates[j].0 == k);
            } else {
                assert(candidates[n].0 == k);
            }
        }
    }
}

/// Whether a candidate is judged alike by a full reading and from the snapshot that the reading
/// leaves: it could be looked up, or is left out from the snapshot as well.
pub open spec fn judged_alike(cfg: ScanConfig, size: Option<u64>, verdicts: PathVerdicts) -> bool {
    size is Some || cfg.min_size > 0 || !passes_globs(verdicts)
}

proof fn lemma_same_files(
    cfg: ScanConfig,
    table: Map<u64, VolumeRecord>,
    snapshot: Map<u64, VolumeRecord>,
    volume: Option<Seq<char>>,
    candidates: Seq<(u64, Seq<char>)>,
    cold: Seq<Option<u64>>,
    warm: Seq<Option<u64>>,
    verdicts: Seq<PathVerdicts>,
)
    requires
        cold.len() == candidates.len(),
        warm.len() == candidates.len(),
        verdicts.len() == candidates.len(),
        forall|k: u64| snapshot.contains_key(k) == #[trigger] table.contains_key(k),
        forall|k: u64| #[trigger]
            table.contains_key(k) ==> snapshot[k] == (VolumeRecord {
                size: snapshot[k].size,
                ..table[k]
            }),
        forall|i: int|
            0 <= i < candidates.len() ==> (#[trigger] warm[i]) == Some(
                match cold[i] {
                    Some(n) => n,
                    None => 0,
                },
            ),
        forall|i: int|
            0 <= i < candidates.len() ==> #[trigger] judged_alike(cfg, cold[i], verdicts[i]),
    ensures
        ({
            let x = accepted(cfg, table, volume, candidates, cold, verdicts).files;
            let y = accepted(cfg, snapshot, None, candidates, warm, verdicts).files;
            &&& x.len() == y.len()
            &&& forall|i: int|
                0 <= i < y.len() ==> (#[trigger] y[i]) == (FileEntryView {
                    volume_guid: None,
                    ..x[i]
                })
        }),
    decreases candidates.len(),
{
    if candidates.len() > 0 {
        let n = candidates.len() - 1;
        let (front, a, b, v) = (
            candidates.drop_last(),
            cold.drop_last(),
            warm.drop_last(),
            verdicts.drop_last(),
        );
        assert forall|i: int| 0 <= i < front.len() implies #[trigger] judged_alike(
            cfg,
            a[i],
            v[i],
        ) by {
            assert(judged_alike(cfg, cold[i], verdicts[i]));
        }
        assert forall|i: int| 0 <= i < front.len() implies (#[trigger] b[i]) == Some(
            match a[i] {
                Some(n) => n,
                None => 0,
            },
        ) by {
            assert(warm[i] == b[i]);
        }
        lemma_same_files(cfg, table, snapshot, volume, front, a, b, v);
        assert(judged_alike(cfg, cold[n], verdicts[n]));
        assert(warm[n] is Some);
        let k = candidates[n].0;
        assert(snapshot.contains_key(k) == table.contains_key(k));
        let x = accepted(cfg, table, volume, candidates, cold, verdicts).files;
        let y = accepted(cfg, snapshot, None, candidates, warm, verdicts).files;
        let xf = accepted(cfg, table, volume, front, a, v).files;
        let yf = accepted(cfg, snapshot, None, front, b, v).files;
        assert forall|i: int| 0 <= i < y.len() implies (#[trigger] y[i]) == (FileEntryView {
            volume_guid: None,
            ..x[i]
        }) by {
            if i < yf.len() {
                assert(y[i] == yf[i]);
                assert(x[i] == xf[i]);
            }
        }
    }
}

/// A warm start right after a full reading finds the same candidates and takes the same files as
/// the reading did; only the volume is not named beside them.
pub proof fn warm_start_repeats_full_reading(
    cfg: ScanConfig,
    table: Map<u64, VolumeRecord>,
    volume: Option<Seq<char>>,
    root: Seq<char>,
    roots: Seq<Seq<char>>,
    order: Seq<u64>,
    sizes: Seq<Option<u64>>,
    verdicts: Seq<PathVerdicts>,
)
    requires
        lists_all(table, order),
        sizes.len() == candidates_in(table, root, roots, order).0.len(),
        verdicts.len() == sizes.len(),
        forall|i: int|
            0 <= i < sizes.len() ==> #[trigger] judged_alike(cfg, sizes[i], verdicts[i]),
    ensures
        ({
            let candidates = candidates_in(table, root, roots, order).0;
            let cold = accepted(cfg, table, volume, candidates, sizes, verdicts);
            let kept = snapshot_table(table, cold.sizes);
            let warm = accepted(
                cfg,
                kept,
                None,
                candidates,
                table_sizes(kept, candidates),
                verdicts,
            );
            &&& candidates_in(kept, root, roots, order) == candidates_in(table, root, roots, order)
            &&& warm.files.len() == cold.files.len()
            &&& forall|i: int|
                0 <= i < warm.files.len() ==> (#[trigger] warm.files[i]) == (FileEntryView {
                    volume_guid: None,
                    ..cold.files[i]
                })
        }),
{
    let candidates = candidates_in(table, root, roots, order).0;
    let cold = accepted(cfg, table, volume, candidates, sizes, verdicts);
    let kept = snapshot_table(table, cold.sizes);
    let again = table_sizes(kept, candidates);
    lemma_same_candidates(table, cold.sizes, root, roots, order);
    lemma_candidates_are_distinct(table, root, roots, order);
    lemma_kept_sizes(cfg, table, volume, candidates, sizes, verdicts);
    assert forall|i: int| 0 <= i < candidates.len() implies (#[trigger] again[i]) == Some(
        match sizes[i] {
            Some(n) => n,
            None => 0,
        },
    ) by {
        let k = candidates[i].0;
        assert(order.contains(k));
        assert(table.contains_key(k));
        assert(!table[k].is_dir());
        if let Some(n) = sizes[i] {
            assert(cold.sizes.contains_key(k) && cold.sizes[k] == n);
            assert((n as i64) as u64 == n) by (bit_vector);
        } else {
            assert(!cold.sizes.contains_key(k));
        }
    }
    lemma_same_files(cfg, table, kept, volume, candidates, sizes, again, verdicts);
}

/// After a change that is no delete, of a file that can be found on the disk, the table holds the
/// record of that change under the file's number, with the size that was found, whether or not the
/// number had a record before. The record is written to the snapshot, no other record changes, and
/// the file counts as new or as changed.
pub proof fn changed_files_are_written_anew(
    st: DeltaView,
    volume_root: Seq<char>,
    r: UsnRecord,
    size: u64,
)
    requires
        st.waiting is None,
        !st.missing_parent,
        r.reason & 0x200 == 0,
        r.attributes & 0x10 == 0,
        st.table.contains_key(r.file_ref) || st.table.contains_key(r.parent_ref) || r.parent_ref == 0,
        path_of(
            st.table.insert(
                r.file_ref,
                VolumeRecord {
                    parent_ref: r.parent_ref,
                    usn: r.usn,
                    attributes: r.attributes,
                    name: r.name,
                    size: 0,
                    mtime: 0,
                    reparse_tag: None,
                },
            ),
            volume_root,
            r.file_ref,
        ) is Some,
        size <= i64::MAX,
        st.created < u64::MAX,
        st.updated < u64::MAX,
    ensures
        ({
            let after = after_step(st, volume_root, DeltaStep { change: r, size: Some(size) });
            let record = after.table[r.file_ref];
            let known = st.table.contains_key(r.file_ref);
            &&& after.table.contains_key(r.file_ref)
            &&& record.parent_ref == r.parent_ref
            &&& record.name == r.name
            &&& record.attributes == r.attributes
            &&& record.usn == r.usn
            &&& record.mtime == r.mtime
            &&& record.size == size
            &&& after.upserts == st.upserts.push(NumberedRecord { file_ref: r.file_ref, record })
            &&& after.deletes == st.deletes
            &&& after.waiting is None
            &&& !after.missing_parent
            &&& after.updated == st.updated + if known {
                1int
            } else {
                0
            }
            &&& after.created == st.created + if known {
                0int
            } else {
                1
            }
            &&& after.deleted == st.deleted
            &&& forall|k: u64|
                k != r.file_ref ==> #[trigger] after.table.contains_key(k) == st.table.contains_key(k)
                    && after.table[k] == st.table[k]
        }),
{
}

/// After a change of a directory the table holds its record, without a size; the record is written
/// to the snapshot, and no other record changes.
pub proof fn changed_directories_are_written_anew(
    st: DeltaView,
    volume_root: Seq<char>,
    r: UsnRecord,
    size: Option<u64>,
)
    requires
        st.waiting is None,
        !st.missing_parent,
        r.reason & 0x200 == 0,
        r.attributes & 0x10 != 0,
        st.table.contains_key(r.file_ref) || st.table.contains_key(r.parent_ref) || r.parent_ref == 0,
    ensures
        ({
            let after = after_step(st, volume_root, DeltaStep { change: r, size });
            let record = after.table[r.file_ref];
            &&& after.table.contains_key(r.file_ref)
            &&& record.parent_ref == r.parent_ref
            &&& record.name == r.name
            &&& record.attributes == r.attributes
            &&& record.usn == r.usn
            &&& record.size == -1
            &&& after.upserts == st.upserts.push(NumberedRecord { file_ref: r.file_ref, record })
            &&& after.deletes == st.deletes
            &&& forall|k: u64|
                k != r.file_ref ==> #[trigger] after.table.contains_key(k) == st.table.contains_key(k)
                    && after.table[k] == st.table[k]
        }),
{
}

/// A file that was deleted, or that is gone when it is looked up, has no record any more; where it
/// had one, its number is deleted from the snapshot. No other record changes, and nothing is
/// written.
pub proof fn vanished_files_are_deleted(
    st: DeltaView,
    volume_root: Seq<char>,
    r: UsnRecord,
    size: Option<u64>,
)
    requires
        st.waiting is None,
        !st.missing_parent,
        r.reason & 0x200 != 0 || (size is None && r.attributes & 0x10 == 0 && (
        st.table.contains_key(r.file_ref) || st.table.contains_key(r.parent_ref) || r.parent_ref
            == 0)),
    ensures
        ({
            let after = after_step(st, volume_root, DeltaStep { change: r, size });
            &&& !after.table.contains_key(r.file_ref)
            &&& st.table.contains_key(r.file_ref) ==> after.deletes == st.deletes.push(r.file_ref)
            &&& !st.table.contains_key(r.file_ref) ==> after.deletes == st.deletes
            &&& after.upserts == st.upserts
            &&& forall|k: u64|
                k != r.file_ref ==> #[trigger] after.table.contains_key(k) == st.table.contains_key(k)
                    && after.table[k] == st.table[k]
        }),
{
}

/// A new file in a directory that is not known stops the warm start: nothing is changed by it, nor
/// by anything after it.
pub proof fn unknown_directories_stop_the_start(
    st: DeltaView,
    volume_root: Seq<char>,
    r: UsnRecord,
    size: Option<u64>,
    later: DeltaStep,
)
    requires
        st.waiting is None,
        !st.missing_parent,
        r.reason & 0x200 == 0,
        !st.table.contains_key(r.file_ref),
        !st.table.contains_key(r.parent_ref),
        r.parent_ref != 0,
    ensures
        ({
            let after = after_step(st, volume_root, DeltaStep { change: r, size });
            &&& after.missing_parent
            &&& after.table == st.table
            &&& after.upserts == st.upserts
            &&& after.deletes == st.deletes
            &&& after_step(after, volume_root, later) == after
        }),
{
}

/// Changes are applied in the order of the journal: those after the first ones start from what the
/// first ones left.
pub proof fn changes_are_applied_in_order(
    st: DeltaView,
    volume_root: Seq<char>,
    first: Seq<DeltaStep>,
    next: DeltaStep,
)
    ensures
        after_steps(st, volume_root, first.push(next)) == after_step(
            after_steps(st, volume_root, first),
            volume_root,
            next,
        ),
{
    assert(first.push(next).drop_last() =~= first);
}

/// A snapshot is thrown away exactly where it and the journal are known and do not fit together.
pub proof fn misfits_are_thrown_away(saved: Option<InventoryMeta>, live: Option<JournalState>)
    ensures
        journal_problem(saved, live) matches Some(problem) ==> problem.1 == (saved is Some && live is Some),
{
}

/// A file that was not looked up again has the size that its record holds.
pub proof fn warm_sizes_are_those_of_the_table(
    table: Map<u64, VolumeRecord>,
    candidates: Seq<(u64, Seq<char>)>,
    k: int,
)
    requires
        0 <= k < candidates.len(),
        table.contains_key(candidates[k].0),
        0 <= table[candidates[k].0].size,
    ensures
        table_sizes(table, candidates).len() == candidates.len(),
        table_sizes(table, candidates)[k] matches Some(size) && size == table[candidates[k].0].size,
{
}

/// A deleted file that was known counts as deleted, and so does a known one that is gone when it is
/// looked up; neither counts as changed. What was never known and is gone does not count at all.
pub proof fn vanished_files_are_counted(
    st: DeltaView,
    volume_root: Seq<char>,
    r: UsnRecord,
)
    requires
        st.waiting is None,
        !st.missing_parent,
        st.deleted < u64::MAX,
        st.created < u64::MAX,
        st.updated < u64::MAX,
    ensures
        ({
            let known = st.table.contains_key(r.file_ref);
            let gone = after_step(st, volume_root, DeltaStep { change: r, size: None });
            let looked_up = after_change(st, volume_root, r).waiting is Some;
            r.reason & 0x200 != 0 || looked_up ==> {
                &&& gone.deleted == st.deleted + if known {
                    1int
                } else {
                    0
                }
                &&& gone.updated == st.updated
                &&& gone.created == st.created
            }
        }),
{
}

/// A file is looked up exactly when it was changed and not deleted, is no directory, is known or in
/// a known directory, and has a path.
pub proof fn changed_files_are_looked_up(st: DeltaView, volume_root: Seq<char>, r: UsnRecord)
    requires
        st.waiting is None,
        !st.missing_parent,
    ensures
        after_change(st, volume_root, r).waiting is Some <==> {
            &&& r.reason & 0x200 == 0
            &&& r.attributes & 0x10 == 0
            &&& st.table.contains_key(r.file_ref) || st.table.contains_key(r.parent_ref)
                || r.parent_ref == 0
            &&& path_of(
                st.table.insert(
                    r.file_ref,
                    VolumeRecord {
                        parent_ref: r.parent_ref,
                        usn: r.usn,
                        attributes: r.attributes,
                        name: r.name,
                        size: 0,
                        mtime: 0,
                        reparse_tag: None,
                    },
                ),
                volume_root,
                r.file_ref,
            ) is Some
        },
        after_change(st, volume_root, r).waiting matches Some(asked) ==> asked.0 == r,
{
}

/// What stands against a warm start is told: no snapshot, an unknown journal, another journal, one
/// that has gone on too far, or one that has not come as far as the snapshot.
pub proof fn misfits_are_told(saved: InventoryMeta, live: JournalState)
    ensures
        journal_problem(None, Some(live)) == Some(("no snapshot yet"@, false)),
        journal_problem(Some(saved), None) == Some(("journal query failed"@, false)),
        saved.journal_id != live.journal_id ==> journal_problem(Some(saved), Some(live)) == Some(
            ("journal id changed"@, true),
        ),
        saved.journal_id == live.journal_id && saved.last_usn < live.first_usn ==> journal_problem(
            Some(saved),
            Some(live),
        ) == Some(("journal rolled past cursor"@, true)),
        saved.journal_id == live.journal_id && live.first_usn <= saved.last_usn && saved.last_usn
            > live.next_usn ==> journal_problem(Some(saved), Some(live)) == Some(
            ("saved cursor past journal head (stale snapshot from older build)"@, true),
        ),
{
}

/// A warm start is made exactly on Windows, from a snapshot that its journal covers, where every
/// change has a known directory.
pub proof fn warm_starts_need_a_covered_snapshot(
    platform: Platform,
    inputs: WarmInputs,
    volume_root: Seq<char>,
)
    ensures
        warm_problem(platform, inputs, volume_root) is None <==> {
            &&& platform is Windows
            &&& inputs.saved is Some && inputs.live is Some
            &&& (inputs.saved->0).journal_id == (inputs.live->0).journal_id
            &&& (inputs.live->0).first_usn <= (inputs.saved->0).last_usn <= (inputs.live->0).next_usn
            &&& !after_steps(
                untouched(entered(inputs.baseline@)),
                volume_root,
                inputs.delta@,
            ).missing_parent
        },
{
}

/// Of the records that were written under one number, the last one counts.
pub proof fn the_last_record_written_counts(upserts: Seq<NumberedRecord>, k: int)
    requires
        0 <= k < upserts.len(),
        forall|j: int| k < j < upserts.len() ==> (#[trigger] upserts[j]).file_ref != upserts[k].file_ref,
    ensures
        last_written(upserts, upserts[k].file_ref) == Some(upserts[k].record),
    decreases upserts.len(),
{
    let last = upserts.len() - 1;
    if k < last {
        let front = upserts.drop_last();
        assert(upserts[last].file_ref != upserts[k].file_ref);
        assert forall|j: int| k < j < front.len() implies (#[trigger] front[j]).file_ref
            != front[k].file_ref by {
            assert(front[j] == upserts[j]);
        }
        the_last_record_written_counts(front, k);
    }
}

/// Before the first change the table is the snapshot's, nothing is written, deleted or counted,
/// nothing is asked for, and no directory is missing.
pub proof fn warm_starts_begin_untouched(base: Map<u64, VolumeRecord>)
    ensures
        untouched(base).table == base,
        untouched(base).upserts.len() == 0,
        untouched(base).deletes.len() == 0,
        untouched(base).created == 0 && untouched(base).updated == 0 && untouched(base).deleted == 0,
        !untouched(base).missing_parent,
        untouched(base).waiting is None,
{
}

/// A record of the table is the snapshot's own or the one that was written last under its number,
/// and a record of the snapshot that the table does not hold any more was deleted.
pub proof fn every_difference_is_written(
    base: Map<u64, VolumeRecord>,
    volume_root: Seq<char>,
    steps: Seq<DeltaStep>,
    k: u64,
)
    ensures
        ({
            let st = after_steps(untouched(base), volume_root, steps);
            &&& st.table.contains_key(k) && !(base.contains_key(k) && base[k] == st.table[k])
                ==> last_written(st.upserts, k) == Some(st.table[k])
            &&& base.contains_key(k) && !st.table.contains_key(k) ==> st.deletes.contains(k)
        }),
{
    snapshot_delta_is_complete(base, volume_root, steps, k);
}

/// Away from Windows there is no warm start, and nothing is thrown away for that; a change below a
/// directory that is not known throws the snapshot away.
pub proof fn useless_snapshots_are_thrown_away(
    platform: Platform,
    inputs: WarmInputs,
    volume_root: Seq<char>,
)
    ensures
        platform is Unix ==> (warm_problem(platform, inputs, volume_root) matches Some(problem)
            && !problem.1),
        platform is Windows && journal_problem(inputs.saved, inputs.live) is None && after_steps(
            untouched(entered(inputs.baseline@)),
            volume_root,
            inputs.delta@,
        ).missing_parent ==> warm_problem(platform, inputs, volume_root) == Some(
            ("delta references unknown parent directory"@, true),
        ),
        platform is Windows && journal_problem(inputs.saved, inputs.live) is Some ==> warm_problem(
            platform,
            inputs,
            volume_root,
        ) == journal_problem(inputs.saved, inputs.live),
{
}

} // verus!
