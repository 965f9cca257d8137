//! The table of duplicate groups: which groups are shown and in what order, the rows they make,
//! and what the buttons ask for.
use vstd::prelude::*;

use crate::gui::events::{DuplicateGroupSummary, SimilarityKind};
use crate::gui::state::{inode_aware_savings, one_less, savings};
use crate::gui::{says_trash, Desktop};
use crate::paths::{displayed, for_user_display, path_starts_with, starts_with, Platform};
use crate::sizes::{format_size, human_size};
use crate::sort::{
    comes_before, is_stable_order, ordered, stable_order, stable_order_exists,
    stable_order_names_every_place, stable_order_of,
};
use crate::tables::IndexSet;
use crate::text::{
    cat2, cat3, decimal, decimal_string, right_aligned, right_aligned_string, texts,
    wide_decimal_string,
};

verus! {

/// What the user has asked to be done with duplicates.
#[derive(Clone, Debug)]
pub enum GroupAction {
    /// Move every duplicate of the group to the place for deleted files.
    RecycleOthers { keeper: String, dupes: Vec<String> },
    /// Replace every duplicate of the group by a hard link to the keeper.
    HardlinkOthers { keeper: String, dupes: Vec<String> },
    /// Show the file selected in its folder.
    Reveal(String),
    /// Open the file with its application.
    OpenFile(String),
    /// Open the folder that holds the file.
    OpenFolder(String),
    /// Rename every duplicate of the group, reversibly.
    SafeRenameOthers { keeper: String, dupes: Vec<String> },
    /// Rename the duplicates of every visible group.
    SafeRenameAllVisible,
    /// Move the duplicates of every visible group into an archive.
    ArchiveAllVisible,
    /// Copy the duplicates of every visible group into an archive.
    ArchiveCopyAllVisible,
    /// Move the duplicates of every visible group to the place for deleted files.
    RecycleAllVisible,
    /// Delete the duplicates of every visible group for good.
    NukeAllVisible,
    /// Make the file at `member_idx` the keeper of its group.
    PromoteKeeper { group_idx: usize, member_idx: usize },
    /// Show the file in the preview.
    Preview(String),
}

/// What the button above the table does with every visible group.
#[derive(Copy, Clone, Debug, PartialEq, Eq, Structural)]
pub enum BulkAction {
    SafeRenameDupes,
    ArchiveMoveDupes,
    ArchiveCopyDupes,
    RecycleDupes,
    NukeDupes,
}

impl Default for BulkAction {
    fn default() -> (r: Self)
        ensures
            r == BulkAction::SafeRenameDupes,
    {
        BulkAction::SafeRenameDupes
    }
}

/// The bulk action's name in the list.
pub open spec fn bulk_label(action: BulkAction, desktop: Desktop) -> Seq<char> {
    match action {
        BulkAction::SafeRenameDupes => "Safe-rename dupes"@,
        BulkAction::ArchiveMoveDupes => "Archive (Move) dupes"@,
        BulkAction::ArchiveCopyDupes => "Archive (Copy) dupes"@,
        BulkAction::RecycleDupes => if says_trash(desktop) {
            "♻ Move dupes to Trash"@
        } else {
            "♻ Recycle dupes"@
        },
        BulkAction::NukeDupes => "Nuke dupes (permanent)"@,
    }
}

/// What the bulk action does, told before it is run.
pub open spec fn bulk_hover(action: BulkAction, desktop: Desktop) -> Seq<char> {
    match action {
        BulkAction::SafeRenameDupes => "Append .superdeduper to every non-keeper across every visible group. Reversible: click Unsuperdeduper in the Roots panel to restore. Reference paths are never touched."@,
        BulkAction::ArchiveMoveDupes => "Pick a destination folder, then MOVE every duplicate (except the keeper per group, and never anything under a reference root) into that folder. Reclaims bytes from source. Preserves the directory tree under the destination so a future restore can put files back. Writes a manifest JSON alongside. Requires typing ARCHIVE to confirm."@,
        BulkAction::ArchiveCopyDupes => "Pick a destination folder, then COPY every duplicate to that folder. Source files are NOT touched — disk usage grows, nothing reclaims. Useful as a vault-style backup before later running Archive (Move) or Nuke. No confirmation prompt because nothing is destroyed."@,
        BulkAction::RecycleDupes => if says_trash(desktop) {
            "Send every non-keeper across every visible group to the OS Trash. Reference paths never touched. Recoverable from the Trash until you empty it. Requires confirmation."@
        } else {
            "Send every non-keeper across every visible group to the OS Recycle Bin. Reference paths never touched. Recoverable from the Recycle Bin until you empty it. Requires confirmation."@
        },
        BulkAction::NukeDupes => if desktop == Desktop::MacOs {
            "PERMANENTLY delete every non-keeper across every visible group — no Trash, no undo. Reference paths never touched. Requires typing DELETE to confirm. Only use when you're certain."@
        } else {
            "PERMANENTLY delete every non-keeper across every visible group — no recycle bin, no undo. Reference paths never touched. Requires typing DELETE to confirm. Only use when you're certain."@
        },
    }
}

/// The remark behind the button.
pub open spec fn bulk_trailer(action: BulkAction, desktop: Desktop) -> Seq<char> {
    match action {
        BulkAction::SafeRenameDupes => "safe-mode (no files deleted)"@,
        BulkAction::ArchiveMoveDupes => "moves dupes, writes manifest"@,
        BulkAction::ArchiveCopyDupes => "copies dupes (no reclaim, no confirm)"@,
        BulkAction::RecycleDupes => if desktop == Desktop::MacOs {
            "recoverable from Trash"@
        } else {
            "recoverable from recycle bin"@
        },
        BulkAction::NukeDupes => "PERMANENT delete — no undo"@,
    }
}

/// What running the bulk action asks for.
pub open spec fn bulk_request(action: BulkAction) -> GroupAction {
    match action {
        BulkAction::SafeRenameDupes => GroupAction::SafeRenameAllVisible,
        BulkAction::ArchiveMoveDupes => GroupAction::ArchiveAllVisible,
        BulkAction::ArchiveCopyDupes => GroupAction::ArchiveCopyAllVisible,
        BulkAction::RecycleDupes => GroupAction::RecycleAllVisible,
        BulkAction::NukeDupes => GroupAction::NukeAllVisible,
    }
}

impl BulkAction {
    /// The action's name in the list.
    pub fn label(self, desktop: Desktop) -> (r: &'static str)
        ensures
            r@ == bulk_label(self, desktop),
    {
        match self {
            BulkAction::SafeRenameDupes => "Safe-rename dupes",
            BulkAction::ArchiveMoveDupes => "Archive (Move) dupes",
            BulkAction::ArchiveCopyDupes => "Archive (Copy) dupes",
            BulkAction::RecycleDupes => if desktop != Desktop::Windows {
                "♻ Move dupes to Trash"
            } else {
                "♻ Recycle dupes"
            },
            BulkAction::NukeDupes => "Nuke dupes (permanent)",
        }
    }

    /// Whether the action destroys files for good, with no recycle bin and no rename to undo, so
    /// that it has to be confirmed by a typed word.
    pub fn is_destructive(self) -> (r: bool)
        ensures
            r == (self == BulkAction::NukeDupes),
    {
        self == BulkAction::NukeDupes
    }

    /// What the action does, told before it is run.
    pub fn hover(self, desktop: Desktop) -> (r: &'static str)
        ensures
            r@ == bulk_hover(self, desktop),
    {
        match self {
            BulkAction::SafeRenameDupes => "Append .superdeduper to every non-keeper across every visible group. Reversible: click Unsuperdeduper in the Roots panel to restore. Reference paths are never touched.",
            BulkAction::ArchiveMoveDupes => "Pick a destination folder, then MOVE every duplicate (except the keeper per group, and never anything under a reference root) into that folder. Reclaims bytes from source. Preserves the directory tree under the destination so a future restore can put files back. Writes a manifest JSON alongside. Requires typing ARCHIVE to confirm.",
            BulkAction::ArchiveCopyDupes => "Pick a destination folder, then COPY every duplicate to that folder. Source files are NOT touched — disk usage grows, nothing reclaims. Useful as a vault-style backup before later running Archive (Move) or Nuke. No confirmation prompt because nothing is destroyed.",
            BulkAction::RecycleDupes => if desktop != Desktop::Windows {
                "Send every non-keeper across every visible group to the OS Trash. Reference paths never touched. Recoverable from the Trash until you empty it. Requires confirmation."
            } else {
                "Send every non-keeper across every visible group to the OS Recycle Bin. Reference paths never touched. Recoverable from the Recycle Bin until you empty it. Requires confirmation."
            },
            BulkAction::NukeDupes => if desktop == Desktop::MacOs {
                "PERMANENTLY delete every non-keeper across every visible group — no Trash, no undo. Reference paths never touched. Requires typing DELETE to confirm. Only use when you're certain."
            } else {
                "PERMANENTLY delete every non-keeper across every visible group — no recycle bin, no undo. Reference paths never touched. Requires typing DELETE to confirm. Only use when you're certain."
            },
        }
    }

    /// The remark behind the button.
    pub fn trailer(self, desktop: Desktop) -> (r: &'static str)
        ensures
            r@ == bulk_trailer(self, desktop),
    {
        match self {
            BulkAction::SafeRenameDupes => "safe-mode (no files deleted)",
            BulkAction::ArchiveMoveDupes => "moves dupes, writes manifest",
            BulkAction::ArchiveCopyDupes => "copies dupes (no reclaim, no confirm)",
            BulkAction::RecycleDupes => if desktop == Desktop::MacOs {
                "recoverable from Trash"
            } else {
                "recoverable from recycle bin"
            },
            BulkAction::NukeDupes => "PERMANENT delete — no undo",
        }
    }

    /// What running the action asks for.
    pub fn request(self) -> (r: GroupAction)
        ensures
            r == bulk_request(self),
    {
        match self {
            BulkAction::SafeRenameDupes => GroupAction::SafeRenameAllVisible,
            BulkAction::ArchiveMoveDupes => GroupAction::ArchiveAllVisible,
            BulkAction::ArchiveCopyDupes => GroupAction::ArchiveCopyAllVisible,
            BulkAction::RecycleDupes => GroupAction::RecycleAllVisible,
            BulkAction::NukeDupes => GroupAction::NukeAllVisible,
        }
    }
}

/// What the table remembers between frames.
pub struct GroupsTableState {
    /// The groups whose members are shown.
    pub expanded: IndexSet,
    /// The groups whose action has been queued: they show no more buttons.
    pub acted: IndexSet,
    /// The bulk action that is selected.
    pub bulk_action: BulkAction,
    /// Whether groups that free nothing are left out of the table.
    pub hide_unreclaimable: bool,
}

impl GroupsTableState {
    /// The groups whose members are shown.
    pub open spec fn open_groups(&self) -> Set<usize> {
        self.expanded@
    }

    /// Whether the members of the group are shown.
    pub fn is_open(&self, group: usize) -> (r: bool)
        ensures
            r == self.open_groups().contains(group),
    {
        self.expanded.contains(group)
    }

    /// Whether an action on the group has been queued.
    pub fn is_acted(&self, group: usize) -> (r: bool)
        ensures
            r == self.acted@.contains(group),
    {
        self.acted.contains(group)
    }

    /// A click on the group's row: shows its members, or hides them again.
    pub fn toggle(&mut self, group: usize)
        ensures
            final(self).open_groups() == toggled(old(self).open_groups(), group),
            final(self).acted == old(self).acted,
            final(self).bulk_action == old(self).bulk_action,
            final(self).hide_unreclaimable == old(self).hide_unreclaimable,
    {
        if self.expanded.contains(group) {
            self.expanded.remove(group);
        } else {
            self.expanded.insert(group);
        }
    }
}

impl Default for GroupsTableState {
    fn default() -> (r: Self)
        ensures
            r.open_groups() == Set::<usize>::empty(),
            r.acted@ == Set::<usize>::empty(),
            r.bulk_action == BulkAction::SafeRenameDupes,
            !r.hide_unreclaimable,
    {
        GroupsTableState {
            expanded: IndexSet::new(),
            acted: IndexSet::new(),
            bulk_action: BulkAction::SafeRenameDupes,
            hide_unreclaimable: false,
        }
    }
}

/// The set with the group put in, or taken out where it was in.
pub open spec fn toggled(open: Set<usize>, group: usize) -> Set<usize> {
    if open.contains(group) {
        open.remove(group)
    } else {
        open.insert(group)
    }
}

/// Two clicks on a row leave it as it was.
pub proof fn toggling_twice_restores(open: Set<usize>, group: usize)
    ensures
        toggled(toggled(open, group), group) == open,
{
    assert(toggled(toggled(open, group), group) =~= open);
}

/// What the table is narrowed to: a drive, and the reference folders that show through every
/// narrowing.
pub struct TableFilter {
    pub platform: Platform,
    pub drive_root: Option<String>,
    pub reference_roots: Vec<String>,
}

/// Whether the path lies under the root or under one of the references.
pub open spec fn shows_through(
    platform: Platform,
    path: Seq<char>,
    root: Seq<char>,
    references: Seq<Seq<char>>,
) -> bool {
    ||| starts_with(platform, path, root)
    ||| exists|j: int|
        0 <= j < references.len() && starts_with(platform, path, #[trigger] references[j])
}

/// Whether a group is shown: without a drive every group is, else those with a file on the drive
/// or under a reference folder.
pub open spec fn passes_filter(g: DuplicateGroupSummary, filter: TableFilter) -> bool {
    match filter.drive_root {
        None => true,
        Some(root) => exists|i: int|
            0 <= i < g.files@.len() && shows_through(
                filter.platform,
                #[trigger] texts(g.files@)[i],
                root@,
                texts(filter.reference_roots@),
            ),
    }
}

fn path_shows_through(platform: Platform, path: &str, root: &str, references: &Vec<String>) -> (r:
    bool)
    ensures
        r == shows_through(platform, path@, root@, texts(references@)),
{
    if path_starts_with(platform, path, root) {
        return true;
    }
    let ghost all = texts(references@);
    let mut j: usize = 0;
    while j < references.len()
        invariant
            j <= references.len(),
            all == texts(references@),
            !starts_with(platform, path@, root@),
            forall|k: int| 0 <= k < j ==> !starts_with(platform, path@, #[trigger] all[k]),
        decreases references.len() - j,
    {
        if path_starts_with(platform, path, references[j].as_str()) {
            assert(starts_with(platform, path@, all[j as int]));
            return true;
        }
        j = j + 1;
    }
    false
}

/// Whether a group is shown.
pub fn group_passes_filter(g: &DuplicateGroupSummary, filter: &TableFilter) -> (r: bool)
    ensures
        r == passes_filter(*g, *filter),
{
    match &filter.drive_root {
        None => true,
        Some(root) => {
            let ghost all = texts(g.files@);
            let ghost references = texts(filter.reference_roots@);
            let mut i: usize = 0;
            while i < g.files.len()
                invariant
                    i <= g.files.len(),
                    all == texts(g.files@),
                    references == texts(filter.reference_roots@),
                    filter.drive_root == Some(*root),
                    forall|k: int|
                        0 <= k < i ==> !shows_through(
                            filter.platform,
                            #[trigger] all[k],
                            root@,
                            references,
                        ),
                decreases g.files.len() - i,
            {
                if path_shows_through(
                    filter.platform,
                    g.files[i].as_str(),
                    root.as_str(),
                    &filter.reference_roots,
                ) {
                    assert(shows_through(filter.platform, all[i as int], root@, references));
                    return true;
                }
                i = i + 1;
            }
            false
        },
    }
}

/// The places of the groups that are shown, in the order of the list.
pub open spec fn passing(groups: Seq<DuplicateGroupSummary>, filter: TableFilter) -> Seq<usize>
    decreases groups.len(),
{
    if groups.len() == 0 {
        Seq::empty()
    } else {
        let before = passing(groups.drop_last(), filter);
        if passes_filter(groups.last(), filter) {
            before.push((groups.len() - 1) as usize)
        } else {
            before
        }
    }
}

/// The keys by which groups are sorted: those that free most come first.
pub open spec fn savings_keys(groups: Seq<DuplicateGroupSummary>, places: Seq<usize>) -> Seq<i128> {
    places.map_values(|p: usize| (0 - savings(groups[p as int])) as i128)
}

/// The places of the groups that are shown, those that free most first.
pub open spec fn shown_order(groups: Seq<DuplicateGroupSummary>, filter: TableFilter) -> Seq<usize> {
    ordered(passing(groups, filter), savings_keys(groups, passing(groups, filter)))
}

proof fn passing_is_in_range(groups: Seq<DuplicateGroupSummary>, filter: TableFilter)
    requires
        groups.len() <= usize::MAX,
    ensures
        passing(groups, filter).len() <= groups.len(),
        forall|k: int|
            0 <= k < passing(groups, filter).len() ==> #[trigger] passing(groups, filter)[k]
                < groups.len(),
    decreases groups.len(),
{
    if groups.len() > 0 {
        passing_is_in_range(groups.drop_last(), filter);
    }
}

/// The places of the groups that are shown, those that free most first. Groups that free the
/// same keep their order.
pub fn sorted_groups(groups: &Vec<DuplicateGroupSummary>, filter: &TableFilter) -> (r: Vec<usize>)
    ensures
        r@ == shown_order(groups@, *filter),
        forall|k: int| 0 <= k < r.len() ==> #[trigger] r[k] < groups.len(),
{
    let ghost want = passing(groups@, *filter);
    let ghost want_keys = savings_keys(groups@, want);
    proof {
        assert(groups.len() <= usize::MAX);
        passing_is_in_range(groups@, *filter);
    }
    let mut places: Vec<usize> = Vec::new();
    let mut keys: Vec<i128> = Vec::new();
    let mut i: usize = 0;
    assert(groups@.take(0) =~= Seq::<DuplicateGroupSummary>::empty());
    while i < groups.len()
        invariant
            i <= groups.len(),
            places@ == passing(groups@.take(i as int), *filter),
            keys@ == savings_keys(groups@, places@),
        decreases groups.len() - i,
    {
        assert(groups@.take(i + 1).drop_last() =~= groups@.take(i as int));
        assert(groups@.take(i + 1).last() == groups@[i as int]);
        if group_passes_filter(&groups[i], filter) {
            let free: u64 = inode_aware_savings(&groups[i]);
            let key: i128 = 0 - free as i128;
            let ghost before = places@;
            places.push(i);
            keys.push(key);
            assert(keys@ =~= savings_keys(groups@, places@));
        }
        i = i + 1;
    }
    assert(groups@.take(i as int) =~= groups@);
    assert(places@ == want);
    let order = stable_order(&keys);
    let mut r: Vec<usize> = Vec::new();
    let mut j: usize = 0;
    while j < order.len()
        invariant
            j <= order.len(),
            order.len() == places.len(),
            is_stable_order(keys@, order@),
            keys.len() == places.len(),
            keys@ == want_keys,
            order@ == stable_order_of(want_keys),
            places@ == want,
            r@ =~= ordered(want, want_keys).take(j as int),
            forall|k: int| 0 <= k < want.len() ==> #[trigger] want[k] < groups.len(),
            forall|k: int| 0 <= k < r.len() ==> #[trigger] r[k] < groups.len(),
        decreases order.len() - j,
    {
        let place: usize = order[j];
        assert(ordered(want, want_keys)[j as int] == want[place as int]);
        r.push(places[place]);
        j = j + 1;
    }
    assert(ordered(want, want_keys).take(j as int) =~= ordered(want, want_keys));
    r
}

/// Whether a group has a row: groups that free nothing can be hidden.
pub open spec fn has_row(g: DuplicateGroupSummary, hide_unreclaimable: bool) -> bool {
    !hide_unreclaimable || savings(g) > 0
}

/// How many duplicates the groups with a row hold, among the given places.
pub open spec fn dupes_shown(
    groups: Seq<DuplicateGroupSummary>,
    places: Seq<usize>,
    hide_unreclaimable: bool,
) -> nat
    decreases places.len(),
{
    if places.len() == 0 {
        0
    } else {
        let g = groups[places.last() as int];
        dupes_shown(groups, places.drop_last(), hide_unreclaimable) + (if has_row(
            g,
            hide_unreclaimable,
        ) {
            one_less(g.files@.len())
        } else {
            0
        })
    }
}

/// How many groups free nothing, among the given places.
pub open spec fn freeing_nothing(groups: Seq<DuplicateGroupSummary>, places: Seq<usize>) -> nat
    decreases places.len(),
{
    if places.len() == 0 {
        0
    } else {
        freeing_nothing(groups, places.drop_last()) + (if savings(groups[places.last() as int])
            == 0 {
            1nat
        } else {
            0nat
        })
    }
}

fn count_dupes(groups: &Vec<DuplicateGroupSummary>, places: &Vec<usize>, hide: bool) -> (r: u128)
    requires
        forall|k: int| 0 <= k < places.len() ==> #[trigger] places[k] < groups.len(),
    ensures
        r == dupes_shown(groups@, places@, hide),
{
    let mut r: u128 = 0;
    let mut i: usize = 0;
    while i < places.len()
        invariant
            i <= places.len(),
            forall|k: int| 0 <= k < places.len() ==> #[trigger] places[k] < groups.len(),
            r == dupes_shown(groups@, places@.take(i as int), hide),
            r <= i * 0xffff_ffff_ffff_ffff,
        decreases places.len() - i,
    {
        assert(places@.take(i + 1).drop_last() =~= places@.take(i as int));
        assert(places@.take(i + 1).last() == places@[i as int]);
        let g = &groups[places[i]];
        assert(i * 0xffff_ffff_ffff_ffff <= 0xffff_ffff_ffff_ffff * 0xffff_ffff_ffff_ffff)
            by (nonlinear_arith)
            requires
                i <= 0xffff_ffff_ffff_ffff,
        ;
        if !hide || inode_aware_savings(g) > 0 {
            let n: usize = g.files.len();
            if n > 0 {
                r = r + (n - 1) as u128;
            }
        }
        i = i + 1;
    }
    assert(places@.take(i as int) =~= places@);
    r
}

fn count_freeing_nothing(groups: &Vec<DuplicateGroupSummary>, places: &Vec<usize>) -> (r: usize)
    requires
        forall|k: int| 0 <= k < places.len() ==> #[trigger] places[k] < groups.len(),
    ensures
        r == freeing_nothing(groups@, places@),
{
    let mut r: usize = 0;
    let mut i: usize = 0;
    while i < places.len()
        invariant
            i <= places.len(),
            forall|k: int| 0 <= k < places.len() ==> #[trigger] places[k] < groups.len(),
            r == freeing_nothing(groups@, places@.take(i as int)),
            r <= i,
        decreases places.len() - i,
    {
        assert(places@.take(i + 1).drop_last() =~= places@.take(i as int));
        assert(places@.take(i + 1).last() == places@[i as int]);
        if inode_aware_savings(&groups[places[i]]) == 0 {
            r = r + 1;
        }
        i = i + 1;
    }
    assert(places@.take(i as int) =~= places@);
    r
}

/// One row of the table.
#[derive(Debug, Clone, Copy, PartialEq, Eq, Structural)]
pub enum RowItem {
    /// The row of a group: its place in the list of groups, and its number among the rows of
    /// groups, counted from 1.
    Group { sorted_idx: usize, display_idx: usize },
    /// The row of a member of an open group.
    Dupe { sorted_idx: usize, member_idx: usize },
}

/// The rows of a group's members, up to the given one.
pub open spec fn member_rows(group: usize, members: nat) -> Seq<RowItem> {
    Seq::new(members, |j: int| RowItem::Dupe { sorted_idx: group, member_idx: j as usize })
}

/// The rows that the groups at the given places make, and how many groups have one.
pub open spec fn rows_for(
    groups: Seq<DuplicateGroupSummary>,
    places: Seq<usize>,
    open: Set<usize>,
    hide_unreclaimable: bool,
) -> (Seq<RowItem>, nat)
    decreases places.len(),
{
    if places.len() == 0 {
        (Seq::empty(), 0)
    } else {
        let before = rows_for(groups, places.drop_last(), open, hide_unreclaimable);
        let place = places.last();
        let g = groups[place as int];
        if has_row(g, hide_unreclaimable) {
            let number = before.1 + 1;
            let head = before.0.push(
                RowItem::Group { sorted_idx: place, display_idx: number as usize },
            );
            if open.contains(place) {
                (head + member_rows(place, g.files@.len()), number)
            } else {
                (head, number)
            }
        } else {
            before
        }
    }
}

/// The rows of the table.
pub fn table_rows(
    groups: &Vec<DuplicateGroupSummary>,
    places: &Vec<usize>,
    table_state: &GroupsTableState,
) -> (r: Vec<RowItem>)
    requires
        forall|k: int| 0 <= k < places.len() ==> #[trigger] places[k] < groups.len(),
    ensures
        r@ == rows_for(
            groups@,
            places@,
            table_state.open_groups(),
            table_state.hide_unreclaimable,
        ).0,
{
    let ghost open = table_state.open_groups();
    let hide = table_state.hide_unreclaimable;
    let mut r: Vec<RowItem> = Vec::new();
    let mut number: usize = 0;
    let mut i: usize = 0;
    while i < places.len()
        invariant
            i <= places.len(),
            open == table_state.open_groups(),
            hide == table_state.hide_unreclaimable,
            forall|k: int| 0 <= k < places.len() ==> #[trigger] places[k] < groups.len(),
            r@ == rows_for(groups@, places@.take(i as int), open, hide).0,
            number == rows_for(groups@, places@.take(i as int), open, hide).1,
            number <= i,
        decreases places.len() - i,
    {
        assert(places@.take(i + 1).drop_last() =~= places@.take(i as int));
        assert(places@.take(i + 1).last() == places@[i as int]);
        let place: usize = places[i];
        let g = &groups[place];
        if !(hide && inode_aware_savings(g) == 0) {
            number = number + 1;
            r.push(RowItem::Group { sorted_idx: place, display_idx: number });
            if table_state.is_open(place) {
                let ghost head = r@;
                let members: usize = g.files.len();
                let mut j: usize = 0;
                assert(head + member_rows(place, 0) =~= head);
                while j < members
                    invariant
                        j <= members,
                        r@ == head + member_rows(place, j as nat),
                    decreases members - j,
                {
                    r.push(RowItem::Dupe { sorted_idx: place, member_idx: j });
                    j = j + 1;
                    assert(r@ =~= head + member_rows(place, j as nat));
                }
            }
        }
        i = i + 1;
    }
    assert(places@.take(i as int) =~= places@);
    r
}

/// The height of a row, in points.
pub fn row_height(item: RowItem) -> (r: u32)
    ensures
        r == (if item is Group {
            22u32
        } else {
            18u32
        }),
{
    match item {
        RowItem::Group { .. } => 22,
        RowItem::Dupe { .. } => 18,
    }
}

/// The bar above the table.
pub struct BulkBar {
    pub go_label: String,
    pub go_enabled: bool,
    pub go_hover: &'static str,
    pub trailer: &'static str,
    pub toggle_text: String,
}

/// The label of the button: with the number of files, where there are any.
pub open spec fn go_text(count: nat) -> Seq<char> {
    if count > 0 {
        "Go ("@ + decimal(count) + " files)"@
    } else {
        "Go"@
    }
}

/// The text of the switch that hides groups which free nothing.
pub open spec fn toggle_line(hide_unreclaimable: bool, hidden: nat) -> Seq<char> {
    if hide_unreclaimable {
        "🚫 Showing reclaimable only ("@ + decimal(hidden) + " hidden)"@
    } else if hidden > 0 {
        "👁 Showing all · "@ + decimal(hidden) + " are 0 B"@
    } else {
        "👁 Showing all"@
    }
}

/// Why the button waits for the scan.
pub open spec fn scanning_hover() -> Seq<char> {
    "Wait for the scan to finish before running bulk actions. The duplicate set is still being computed."@
}

/// The bar above the table. The button is enabled where there is a duplicate to act on and no
/// scan runs.
pub fn bulk_bar(
    groups: &Vec<DuplicateGroupSummary>,
    places: &Vec<usize>,
    table_state: &GroupsTableState,
    is_scanning: bool,
    desktop: Desktop,
) -> (r: BulkBar)
    requires
        forall|k: int| 0 <= k < places.len() ==> #[trigger] places[k] < groups.len(),
    ensures
        ({
            let hide = table_state.hide_unreclaimable;
            let count = dupes_shown(groups@, places@, hide);
            &&& r.go_label@ == go_text(count)
            &&& r.go_enabled == (count > 0 && !is_scanning)
            &&& r.go_hover@ == (if is_scanning {
                scanning_hover()
            } else {
                bulk_hover(table_state.bulk_action, desktop)
            })
            &&& r.trailer@ == bulk_trailer(table_state.bulk_action, desktop)
            &&& r.toggle_text@ == toggle_line(hide, freeing_nothing(groups@, places@))
        }),
{
    let hide = table_state.hide_unreclaimable;
    let count: u128 = count_dupes(groups, places, hide);
    let hidden: usize = count_freeing_nothing(groups, places);
    let go_label = if count > 0 {
        let n = wide_decimal_string(count);
        cat3("Go (", n.as_str(), " files)")
    } else {
        "Go".to_owned()
    };
    let n = decimal_string(hidden as u64);
    let toggle_text = if hide {
        cat3("🚫 Showing reclaimable only (", n.as_str(), " hidden)")
    } else if hidden > 0 {
        cat3("👁 Showing all · ", n.as_str(), " are 0 B")
    } else {
        "👁 Showing all".to_owned()
    };
    BulkBar {
        go_label,
        go_enabled: count > 0 && !is_scanning,
        go_hover: if is_scanning {
            "Wait for the scan to finish before running bulk actions. The duplicate set is still being computed."
        } else {
            table_state.bulk_action.hover(desktop)
        },
        trailer: table_state.bulk_action.trailer(desktop),
        toggle_text,
    }
}

/// Whether one of the groups at the given places holds images that only look alike.
pub open spec fn any_perceptual_image(
    groups: Seq<DuplicateGroupSummary>,
    places: Seq<usize>,
) -> bool {
    exists|k: int|
        0 <= k < places.len() && groups[#[trigger] places[k] as int].similarity_kind
            == SimilarityKind::PerceptualImage
}

/// What the table area shows.
pub enum TableView {
    /// No duplicates at all: a headline and an explanation.
    Empty(&'static str, &'static str),
    /// None on the selected drive.
    NoneHere(&'static str),
    /// The table.
    Table {
        /// The places of the groups, in the order they are shown.
        places: Vec<usize>,
        /// The warning above groups of similar images.
        advisory: Option<&'static str>,
        bar: BulkBar,
        rows: Vec<RowItem>,
    },
}

/// Whether the view shows the groups at the places of `order`.
pub open spec fn is_view_of(
    view: TableView,
    groups: Seq<DuplicateGroupSummary>,
    order: Seq<usize>,
    table_state: GroupsTableState,
    is_scanning: bool,
    desktop: Desktop,
) -> bool {
    let hide = table_state.hide_unreclaimable;
    match view {
        TableView::Empty(headline, hint) => {
            &&& groups.len() == 0
            &&& headline@ == "No duplicates yet."@
            &&& hint@
                == "When a scan finishes, every confirmed duplicate group lands here. Click a row to see all the files in the group; the keeper is in green."@
        },
        TableView::NoneHere(line) => {
            &&& groups.len() > 0
            &&& order.len() == 0
            &&& line@ == "No duplicates on this drive."@
        },
        TableView::Table { places, advisory, bar, rows } => {
            &&& groups.len() > 0
            &&& order.len() > 0
            &&& places@ == order
            &&& match advisory {
                Some(text) => any_perceptual_image(groups, order) && text@
                    == "Tier-4 perceptual similarity may produce false positives at scale; review group contents before destructive action."@,
                None => !any_perceptual_image(groups, order),
            }
            &&& bar.go_label@ == go_text(dupes_shown(groups, order, hide))
            &&& bar.go_enabled == (dupes_shown(groups, order, hide) > 0 && !is_scanning)
            &&& bar.go_hover@ == (if is_scanning {
                scanning_hover()
            } else {
                bulk_hover(table_state.bulk_action, desktop)
            })
            &&& bar.trailer@ == bulk_trailer(table_state.bulk_action, desktop)
            &&& bar.toggle_text@ == toggle_line(hide, freeing_nothing(groups, order))
            &&& rows@ == rows_for(groups, order, table_state.open_groups(), hide).0
        },
    }
}

/// What the table area shows: nothing found, nothing on this drive, or the groups that pass the
/// filter, with the bar above them and a row for each group and each member of an open group.
pub fn show_filtered(
    groups: &Vec<DuplicateGroupSummary>,
    table_state: &GroupsTableState,
    filter: &TableFilter,
    is_scanning: bool,
    desktop: Desktop,
) -> (r: TableView)
    ensures
        is_view_of(
            r,
            groups@,
            shown_order(groups@, *filter),
            *table_state,
            is_scanning,
            desktop,
        ),
{
    if groups.len() == 0 {
        proof {
            assert(passing(groups@, *filter).len() == 0);
        }
        return TableView::Empty(
            "No duplicates yet.",
            "When a scan finishes, every confirmed duplicate group lands here. Click a row to see all the files in the group; the keeper is in green.",
        );
    }
    let places = sorted_groups(groups, filter);
    if places.len() == 0 {
        return TableView::NoneHere("No duplicates on this drive.");
    }
    let mut perceptual = false;
    let mut i: usize = 0;
    while i < places.len()
        invariant
            i <= places.len(),
            forall|k: int| 0 <= k < places.len() ==> #[trigger] places[k] < groups.len(),
            perceptual == any_perceptual_image(groups@, places@.take(i as int)),
        decreases places.len() - i,
    {
        let ghost before = places@.take(i as int);
        let ghost after = places@.take(i + 1);
        let image = groups[places[i]].similarity_kind == SimilarityKind::PerceptualImage;
        proof {
            if perceptual {
                let k = choose|k: int|
                    0 <= k < before.len() && groups[#[trigger] before[k] as int].similarity_kind
                        == SimilarityKind::PerceptualImage;
                assert(after[k] == before[k]);
            }
            if image {
                assert(after[i as int] == places@[i as int]);
            }
            if any_perceptual_image(groups@, after) {
                let k = choose|k: int|
                    0 <= k < after.len() && groups[#[trigger] after[k] as int].similarity_kind
                        == SimilarityKind::PerceptualImage;
                if k < i {
                    assert(before[k] == after[k]);
                }
            }
        }
        perceptual = perceptual || image;
        i = i + 1;
    }
    assert(places@.take(i as int) =~= places@);
    let advisory = if perceptual {
        Some(
            "Tier-4 perceptual similarity may produce false positives at scale; review group contents before destructive action.",
        )
    } else {
        None
    };
    let bar = bulk_bar(groups, &places, table_state, is_scanning, desktop);
    let rows = table_rows(groups, &places, table_state);
    TableView::Table { places, advisory, bar, rows }
}

/// What the table area shows without a filter.
pub fn show(
    groups: &Vec<DuplicateGroupSummary>,
    table_state: &GroupsTableState,
    platform: Platform,
    is_scanning: bool,
    desktop: Desktop,
) -> (r: TableView)
    ensures
        ({
            let every = Seq::new(groups@.len(), |i: int| i as usize);
            is_view_of(
                r,
                groups@,
                ordered(every, savings_keys(groups@, every)),
                *table_state,
                is_scanning,
                desktop,
            )
        }),
{
    let filter = TableFilter { platform, drive_root: None, reference_roots: Vec::new() };
    proof {
        everything_passes(groups@, filter);
    }
    show_filtered(groups, table_state, &filter, is_scanning, desktop)
}

/// Without a drive every group is shown.
pub proof fn everything_passes(groups: Seq<DuplicateGroupSummary>, filter: TableFilter)
    requires
        filter.drive_root is None,
    ensures
        passing(groups, filter) == Seq::new(groups.len(), |i: int| i as usize),
    decreases groups.len(),
{
    if groups.len() > 0 {
        everything_passes(groups.drop_last(), filter);
    }
    assert(passing(groups, filter) =~= Seq::new(groups.len(), |i: int| i as usize));
}

/// The groups that free most come first.
pub proof fn most_freeing_comes_first(
    groups: Seq<DuplicateGroupSummary>,
    filter: TableFilter,
    i: int,
    j: int,
)
    requires
        groups.len() <= usize::MAX,
        0 <= i < j < shown_order(groups, filter).len(),
    ensures
        savings(groups[shown_order(groups, filter)[i] as int]) >= savings(
            groups[shown_order(groups, filter)[j] as int],
        ),
{
    let kept = passing(groups, filter);
    let keys = savings_keys(groups, kept);
    passing_is_in_range(groups, filter);
    stable_order_exists(keys);
    let order = stable_order_of(keys);
    assert(comes_before(keys, order[i], order[j]));
    assert(order[i] < keys.len() && order[j] < keys.len());
}

/// A group is shown where it passes the filter, and only there.
pub proof fn shown_where_passing(
    groups: Seq<DuplicateGroupSummary>,
    filter: TableFilter,
    place: usize,
)
    requires
        groups.len() <= usize::MAX,
    ensures
        shown_order(groups, filter).contains(place) <==> (place < groups.len() && passes_filter(
            groups[place as int],
            filter,
        )),
{
    let kept = passing(groups, filter);
    let keys = savings_keys(groups, kept);
    passing_is_in_range(groups, filter);
    passing_holds(groups, filter, place);
    stable_order_exists(keys);
    let order = stable_order_of(keys);
    let shown = shown_order(groups, filter);
    if shown.contains(place) {
        let i = choose|i: int| 0 <= i < shown.len() && shown[i] == place;
        assert(order[i] < keys.len());
        assert(kept[order[i] as int] == place);
    }
    if kept.contains(place) {
        let a = choose|a: int| 0 <= a < kept.len() && kept[a] == place;
        stable_order_names_every_place(keys, order, a as usize);
        let i = choose|i: int| 0 <= i < order.len() && order[i] == a as usize;
        assert(shown[i] == place);
    }
}

proof fn passing_holds(groups: Seq<DuplicateGroupSummary>, filter: TableFilter, place: usize)
    requires
        groups.len() <= usize::MAX,
    ensures
        passing(groups, filter).contains(place) <==> (place < groups.len() && passes_filter(
            groups[place as int],
            filter,
        )),
    decreases groups.len(),
{
    if groups.len() > 0 {
        let front = groups.drop_last();
        let before = passing(front, filter);
        let after = passing(groups, filter);
        passing_holds(front, filter, place);
        if before.contains(place) {
            let i = choose|i: int| 0 <= i < before.len() && before[i] == place;
            assert(after[i] == place);
        }
        if after.contains(place) {
            let i = choose|i: int| 0 <= i < after.len() && after[i] == place;
            if i < before.len() {
                assert(before[i] == place);
            }
        }
        if place == groups.len() - 1 && passes_filter(groups.last(), filter) {
            assert(after[before.len() as int] == place);
        }
    }
}

/// A mark on groups whose files are alike but not equal: its text and what it means.
pub open spec fn similarity_mark(kind: SimilarityKind) -> Option<(Seq<char>, Seq<char>)> {
    match kind {
        SimilarityKind::PerceptualImage => Some(
            (
                "perceptual image"@,
                "These files look perceptually similar (resize, format-conversion, light-edit twins) but their bytes differ. Review side-by-side before deleting — perceptual-similar isn't byte-identical."@,
            ),
        ),
        SimilarityKind::PerceptualAudio => Some(
            (
                "♪ perceptual audio"@,
                "These files sound acoustically similar (re-encode, bitrate / codec change, modest editing) but their bytes differ. Listen to a few seconds of each before deleting — perceptual-similar isn't byte-identical."@,
            ),
        ),
        SimilarityKind::ByteIdentical => None,
    }
}

/// What stands in the action column of a group, behind the similarity mark.
#[derive(Clone, Copy, Debug, PartialEq, Eq, Structural)]
pub enum ActionCell {
    /// The files share their data already.
    AlreadyHardlinked,
    /// An action has been queued.
    Queued,
    /// The buttons.
    Buttons,
    /// The group has no file.
    Nothing,
}

/// What stands in the action column: a group of links has nothing to free, a group acted on
/// waits, every other group with a file has its buttons.
pub open spec fn action_cell(g: DuplicateGroupSummary, acted: bool) -> ActionCell {
    if g.link_equivalent && g.similarity_kind == SimilarityKind::ByteIdentical {
        ActionCell::AlreadyHardlinked
    } else if acted {
        ActionCell::Queued
    } else if g.files@.len() > 0 {
        ActionCell::Buttons
    } else {
        ActionCell::Nothing
    }
}

/// The row of a group.
pub struct GroupRowView {
    pub number: String,
    pub size: String,
    pub copies: String,
    pub reclaim: String,
    /// The similarity mark and its explanation.
    pub mark: Option<(&'static str, &'static str)>,
    pub cell: ActionCell,
    /// The arrow and the keeper's path.
    pub label: String,
}

/// The keeper's path behind an arrow that points down where the group is open.
pub open spec fn keeper_label(g: DuplicateGroupSummary, is_open: bool) -> Seq<char> {
    let arrow = if is_open {
        "▼ "@
    } else {
        "▶ "@
    };
    arrow + (if g.files@.len() > 0 {
        displayed(g.files@[0]@)
    } else {
        Seq::empty()
    })
}

/// The path of a row or tooltip, as users read it.
pub fn format_path(path: &str) -> (r: String)
    ensures
        r@ == displayed(path@),
{
    for_user_display(path)
}

/// The row of a group.
pub fn group_row(g: &DuplicateGroupSummary, display_idx: usize, is_open: bool, acted: bool) -> (r:
    GroupRowView)
    ensures
        r.number@ == right_aligned(display_idx as nat, 3),
        r.size@ == human_size(g.size),
        r.copies@ == "×"@ + decimal(g.files@.len()),
        r.reclaim@ == human_size(savings(*g)),
        match r.mark {
            Some((text, hint)) => similarity_mark(g.similarity_kind) == Some((text@, hint@)),
            None => similarity_mark(g.similarity_kind) is None,
        },
        r.cell == action_cell(*g, acted),
        r.label@ == keeper_label(*g, is_open),
{
    let count = decimal_string(g.files.len() as u64);
    let mark = match g.similarity_kind {
        SimilarityKind::PerceptualImage => Some(
            (
                "perceptual image",
                "These files look perceptually similar (resize, format-conversion, light-edit twins) but their bytes differ. Review side-by-side before deleting — perceptual-similar isn't byte-identical.",
            ),
        ),
        SimilarityKind::PerceptualAudio => Some(
            (
                "♪ perceptual audio",
                "These files sound acoustically similar (re-encode, bitrate / codec change, modest editing) but their bytes differ. Listen to a few seconds of each before deleting — perceptual-similar isn't byte-identical.",
            ),
        ),
        SimilarityKind::ByteIdentical => None,
    };
    let cell = if g.link_equivalent && g.similarity_kind == SimilarityKind::ByteIdentical {
        ActionCell::AlreadyHardlinked
    } else if acted {
        ActionCell::Queued
    } else if g.files.len() > 0 {
        ActionCell::Buttons
    } else {
        ActionCell::Nothing
    };
    let keeper = if g.files.len() > 0 {
        format_path(g.files[0].as_str())
    } else {
        let none = String::new();
        assert(none@ =~= Seq::<char>::empty());
        none
    };
    let arrow = if is_open {
        "▼ "
    } else {
        "▶ "
    };
    GroupRowView {
        number: right_aligned_string(display_idx as u64, 3),
        size: format_size(g.size),
        copies: cat2("×", count.as_str()),
        reclaim: format_size(inode_aware_savings(g)),
        mark,
        cell,
        label: cat2(arrow, keeper.as_str()),
    }
}

/// A button in the row of a group.
#[derive(Clone, Copy, Debug, PartialEq, Eq, Structural)]
pub enum GroupButton {
    SafeRename,
    Recycle,
    Hardlink,
    OpenFile,
    OpenFolder,
    Reveal,
    Preview,
}

/// Whether the button queues an action on the group, after which the row has no more buttons.
pub open spec fn queues(button: GroupButton) -> bool {
    button == GroupButton::SafeRename || button == GroupButton::Recycle || button
        == GroupButton::Hardlink
}

/// Whether the request is what the button asks for on a group with these files.
pub open spec fn asks_for(button: GroupButton, files: Seq<Seq<char>>, request: GroupAction) -> bool {
    let keeper = files[0];
    let others = files.skip(1);
    match button {
        GroupButton::SafeRename => (request matches GroupAction::SafeRenameOthers {
            keeper: k,
            dupes,
        } && k@ == keeper && texts(dupes@) == others),
        GroupButton::Recycle => (request matches GroupAction::RecycleOthers {
            keeper: k,
            dupes,
        } && k@ == keeper && texts(dupes@) == others),
        GroupButton::Hardlink => (request matches GroupAction::HardlinkOthers {
            keeper: k,
            dupes,
        } && k@ == keeper && texts(dupes@) == others),
        GroupButton::OpenFile => request matches GroupAction::OpenFile(k) && k@ == keeper,
        GroupButton::OpenFolder => request matches GroupAction::OpenFolder(k) && k@ == keeper,
        GroupButton::Reveal => request matches GroupAction::Reveal(k) && k@ == keeper,
        GroupButton::Preview => request matches GroupAction::Preview(k) && k@ == keeper,
    }
}

fn other_files(files: &Vec<String>) -> (r: Vec<String>)
    requires
        files.len() > 0,
    ensures
        texts(r@) == texts(files@).skip(1),
{
    let ghost all = texts(files@).skip(1);
    let mut r: Vec<String> = Vec::new();
    let mut i: usize = 1;
    while i < files.len()
        invariant
            1 <= i <= files.len(),
            all == texts(files@).skip(1),
            texts(r@) =~= all.take(i - 1),
        decreases files.len() - i,
    {
        let ghost before = r@;
        r.push(files[i].clone());
        assert(texts(r@) =~= texts(before).push(all[i - 1]));
        i = i + 1;
    }
    assert(all.take(i - 1) =~= all);
    r
}

/// A click on a button in the row of a group. The row has buttons only where its action cell says
/// so, and a click elsewhere asks for nothing. A queued action takes the buttons away.
pub fn press(
    groups: &Vec<DuplicateGroupSummary>,
    table_state: &mut GroupsTableState,
    group: usize,
    button: GroupButton,
) -> (r: Option<GroupAction>)
    ensures
        ({
            let shown = group < groups@.len() && action_cell(
                groups@[group as int],
                old(table_state).acted@.contains(group),
            ) == ActionCell::Buttons;
            &&& (r is Some) == shown
            &&& r matches Some(request) ==> asks_for(
                button,
                texts(groups@[group as int].files@),
                request,
            )
            &&& final(table_state).acted@ == (if shown && queues(button) {
                old(table_state).acted@.insert(group)
            } else {
                old(table_state).acted@
            })
        }),
        r matches Some(request) ==> {
            let files = texts(groups@[group as int].files@);
            match button {
                GroupButton::SafeRename => (request matches GroupAction::SafeRenameOthers {
                    keeper,
                    dupes,
                } && keeper@ == files[0] && texts(dupes@) == files.skip(1)),
                GroupButton::Recycle => (request matches GroupAction::RecycleOthers {
                    keeper,
                    dupes,
                } && keeper@ == files[0] && texts(dupes@) == files.skip(1)),
                GroupButton::Hardlink => (request matches GroupAction::HardlinkOthers {
                    keeper,
                    dupes,
                } && keeper@ == files[0] && texts(dupes@) == files.skip(1)),
                GroupButton::OpenFile => request matches GroupAction::OpenFile(f) && f@ == files[0],
                GroupButton::OpenFolder => request matches GroupAction::OpenFolder(f) && f@
                    == files[0],
                GroupButton::Reveal => request matches GroupAction::Reveal(f) && f@ == files[0],
                GroupButton::Preview => request matches GroupAction::Preview(f) && f@ == files[0],
            }
        },
        r is Some <==> {
            &&& group < groups@.len()
            &&& groups@[group as int].files@.len() > 0
            &&& !old(table_state).acted@.contains(group)
            &&& !(groups@[group as int].link_equivalent && groups@[group as int].similarity_kind
                == SimilarityKind::ByteIdentical)
        },
        final(table_state).open_groups() == old(table_state).open_groups(),
        final(table_state).bulk_action == old(table_state).bulk_action,
        final(table_state).hide_unreclaimable == old(table_state).hide_unreclaimable,
{
    if group >= groups.len() {
        return None;
    }
    let g = &groups[group];
    if (g.link_equivalent && g.similarity_kind == SimilarityKind::ByteIdentical)
        || table_state.is_acted(group) || g.files.len() == 0 {
        return None;
    }
    let keeper = g.files[0].clone();
    Some(
        match button {
            GroupButton::SafeRename => {
                table_state.acted.insert(group);
                GroupAction::SafeRenameOthers { keeper, dupes: other_files(&g.files) }
            },
            GroupButton::Recycle => {
                table_state.acted.insert(group);
                GroupAction::RecycleOthers { keeper, dupes: other_files(&g.files) }
            },
            GroupButton::Hardlink => {
                table_state.acted.insert(group);
                GroupAction::HardlinkOthers { keeper, dupes: other_files(&g.files) }
            },
            GroupButton::OpenFile => GroupAction::OpenFile(keeper),
            GroupButton::OpenFolder => GroupAction::OpenFolder(keeper),
            GroupButton::Reveal => GroupAction::Reveal(keeper),
            GroupButton::Preview => GroupAction::Preview(keeper),
        },
    )
}

/// A click on the button above the table: what it asks for, where it is enabled.
pub fn press_go(bar: &BulkBar, bulk_action: BulkAction) -> (r: Option<GroupAction>)
    ensures
        r == (if bar.go_enabled {
            Some(bulk_request(bulk_action))
        } else {
            None::<GroupAction>
        }),
{
    if bar.go_enabled {
        Some(bulk_action.request())
    } else {
        None
    }
}

/// The row of a member.
pub struct DupeRowView {
    /// Whether the row has the button that makes the file the keeper.
    pub promote_shown: bool,
    pub promote_enabled: bool,
    pub tag: &'static str,
    pub path: String,
}

/// The row of a member. The keeper cannot be promoted, nor can a file of a group acted on, and
/// while a scan runs the button is disabled.
pub fn dupe_row(path: &str, member_idx: usize, acted: bool, is_scanning: bool) -> (r: DupeRowView)
    ensures
        r.promote_shown == (member_idx > 0 && !acted),
        r.promote_enabled == (member_idx > 0 && !acted && !is_scanning),
        r.tag@ == (if member_idx == 0 {
            "keep "@
        } else {
            "dupe "@
        }),
        r.path@ == displayed(path@),
{
    let promote_shown = member_idx > 0 && !acted;
    DupeRowView {
        promote_shown,
        promote_enabled: promote_shown && !is_scanning,
        tag: if member_idx == 0 {
            "keep "
        } else {
            "dupe "
        },
        path: format_path(path),
    }
}

/// A click on the button that makes the file the keeper.
pub fn press_promote(row: &DupeRowView, group_idx: usize, member_idx: usize) -> (r: Option<
    GroupAction,
>)
    ensures
        r == (if row.promote_enabled {
            Some(GroupAction::PromoteKeeper { group_idx, member_idx })
        } else {
            None::<GroupAction>
        }),
{
    if row.promote_enabled {
        Some(GroupAction::PromoteKeeper { group_idx, member_idx })
    } else {
        None
    }
}

/// What a click in a row asks for, where the row has a member that can be made the keeper: that
/// its own file is made the keeper of its own group.
pub open spec fn promotion(
    groups: Seq<DuplicateGroupSummary>,
    acted: Set<usize>,
    item: RowItem,
    is_scanning: bool,
) -> Option<GroupAction> {
    match item {
        RowItem::Group { .. } => None,
        RowItem::Dupe { sorted_idx, member_idx } => if sorted_idx < groups.len() && 0 < member_idx
            < groups[sorted_idx as int].files@.len() && !acted.contains(sorted_idx)
            && !is_scanning {
            Some(GroupAction::PromoteKeeper { group_idx: sorted_idx, member_idx })
        } else {
            None
        },
    }
}

/// A click on the button of a row that makes its file the keeper. The row of a group has none;
/// neither has the keeper's, nor that of a group acted on, and while a scan runs it does nothing.
pub fn promote_row(
    groups: &Vec<DuplicateGroupSummary>,
    table_state: &GroupsTableState,
    item: RowItem,
    is_scanning: bool,
) -> (r: Option<GroupAction>)
    ensures
        r == promotion(groups@, table_state.acted@, item, is_scanning),
{
    match item {
        RowItem::Group { .. } => None,
        RowItem::Dupe { sorted_idx, member_idx } => {
            if sorted_idx >= groups.len() || member_idx >= groups[sorted_idx].files.len() {
                return None;
            }
            let row = dupe_row(
                groups[sorted_idx].files[member_idx].as_str(),
                member_idx,
                table_state.is_acted(sorted_idx),
                is_scanning,
            );
            press_promote(&row, sorted_idx, member_idx)
        },
    }
}

/// A click on the button above the table that these groups, this state and this filter make: it
/// asks for the action that is selected, where a file is shown to act on and no scan runs.
pub fn run_bulk_action(
    groups: &Vec<DuplicateGroupSummary>,
    table_state: &GroupsTableState,
    filter: &TableFilter,
    is_scanning: bool,
    desktop: Desktop,
) -> (r: Option<GroupAction>)
    ensures
        r == (if !is_scanning && dupes_shown(
            groups@,
            shown_order(groups@, *filter),
            table_state.hide_unreclaimable,
        ) > 0 {
            Some(bulk_request(table_state.bulk_action))
        } else {
            None::<GroupAction>
        }),
{
    let places = sorted_groups(groups, filter);
    let bar = bulk_bar(groups, &places, table_state, is_scanning, desktop);
    press_go(&bar, table_state.bulk_action)
}

/// The file that a row asks to be made the keeper is the row's own, and is not the keeper yet.
pub proof fn rows_promote_their_own_file(
    groups: Seq<DuplicateGroupSummary>,
    acted: Set<usize>,
    item: RowItem,
    is_scanning: bool,
)
    requires
        promotion(groups, acted, item, is_scanning) is Some,
    ensures
        ({
            let asked = promotion(groups, acted, item, is_scanning)->0;
            &&& asked matches GroupAction::PromoteKeeper { group_idx, member_idx }
            &&& item == (RowItem::Dupe { sorted_idx: group_idx, member_idx })
            &&& 0 < member_idx < groups[group_idx as int].files@.len()
            &&& !acted.contains(group_idx)
            &&& !is_scanning
        }),
{
}

/// How many of the rows are rows of groups.
pub open spec fn group_rows(rows: Seq<RowItem>) -> nat
    decreases rows.len(),
{
    if rows.len() == 0 {
        0
    } else {
        group_rows(rows.drop_last()) + (if rows.last() is Group {
            1nat
        } else {
            0nat
        })
    }
}

proof fn group_rows_add(a: Seq<RowItem>, b: Seq<RowItem>)
    ensures
        group_rows(a + b) == group_rows(a) + group_rows(b),
    decreases b.len(),
{
    if b.len() == 0 {
        assert(a + b =~= a);
    } else {
        assert((a + b).drop_last() =~= a + b.drop_last());
        group_rows_add(a, b.drop_last());
    }
}

proof fn member_rows_are_no_group_rows(group: usize, members: nat)
    ensures
        group_rows(member_rows(group, members)) == 0,
    decreases members,
{
    if members > 0 {
        assert(member_rows(group, members).drop_last() =~= member_rows(
            group,
            (members - 1) as nat,
        ));
        member_rows_are_no_group_rows(group, (members - 1) as nat);
    }
}

proof fn group_rows_are_counted(
    groups: Seq<DuplicateGroupSummary>,
    places: Seq<usize>,
    open: Set<usize>,
    hide_unreclaimable: bool,
)
    ensures
        group_rows(rows_for(groups, places, open, hide_unreclaimable).0) == rows_for(
            groups,
            places,
            open,
            hide_unreclaimable,
        ).1,
    decreases places.len(),
{
    if places.len() > 0 {
        let before = rows_for(groups, places.drop_last(), open, hide_unreclaimable);
        group_rows_are_counted(groups, places.drop_last(), open, hide_unreclaimable);
        let place = places.last();
        let g = groups[place as int];
        if has_row(g, hide_unreclaimable) {
            let head = before.0.push(
                RowItem::Group { sorted_idx: place, display_idx: (before.1 + 1) as usize },
            );
            assert(head.drop_last() =~= before.0);
            group_rows_add(head, member_rows(place, g.files@.len()));
            member_rows_are_no_group_rows(place, g.files@.len());
        }
    }
}

/// The rows of groups are numbered from 1 without gaps, in the order they stand.
pub proof fn group_rows_are_numbered(
    groups: Seq<DuplicateGroupSummary>,
    places: Seq<usize>,
    open: Set<usize>,
    hide_unreclaimable: bool,
    k: int,
)
    requires
        places.len() <= usize::MAX,
        0 <= k < rows_for(groups, places, open, hide_unreclaimable).0.len(),
    ensures
        rows_for(groups, places, open, hide_unreclaimable).0[k] matches RowItem::Group {
            sorted_idx,
            display_idx,
        } ==> display_idx == 1 + group_rows(
            rows_for(groups, places, open, hide_unreclaimable).0.take(k),
        ),
    decreases places.len(),
{
    let rows = rows_for(groups, places, open, hide_unreclaimable).0;
    let before = rows_for(groups, places.drop_last(), open, hide_unreclaimable);
    numbers_stay_small(groups, places.drop_last(), open, hide_unreclaimable);
    if k < before.0.len() {
        group_rows_are_numbered(groups, places.drop_last(), open, hide_unreclaimable, k);
        assert(rows.take(k) =~= before.0.take(k));
        assert(rows[k] == before.0[k]);
    } else if k == before.0.len() {
        group_rows_are_counted(groups, places.drop_last(), open, hide_unreclaimable);
        assert(rows.take(k) =~= before.0);
    } else {
        assert(rows[k] is Dupe);
    }
}

/// Each row of a group names a shown group, and a member's row names one of its group's files.
pub proof fn rows_name_shown_groups(
    groups: Seq<DuplicateGroupSummary>,
    places: Seq<usize>,
    open: Set<usize>,
    hide_unreclaimable: bool,
    k: int,
)
    requires
        places.len() <= usize::MAX,
        forall|i: int| 0 <= i < places.len() ==> groups[#[trigger] places[i] as int].files@.len()
            <= usize::MAX,
        0 <= k < rows_for(groups, places, open, hide_unreclaimable).0.len(),
    ensures
        match rows_for(groups, places, open, hide_unreclaimable).0[k] {
            RowItem::Group { sorted_idx, display_idx } => {
                &&& places.contains(sorted_idx)
                &&& has_row(groups[sorted_idx as int], hide_unreclaimable)
                &&& 1 <= display_idx <= rows_for(groups, places, open, hide_unreclaimable).1
            },
            RowItem::Dupe { sorted_idx, member_idx } => {
                &&& places.contains(sorted_idx)
                &&& has_row(groups[sorted_idx as int], hide_unreclaimable)
                &&& open.contains(sorted_idx)
                &&& member_idx < groups[sorted_idx as int].files@.len()
            },
        },
    decreases places.len(),
{
    let front = places.drop_last();
    let before = rows_for(groups, front, open, hide_unreclaimable);
    let place = places.last();
    assert(places[places.len() - 1] == place);
    numbers_stay_small(groups, front, open, hide_unreclaimable);
    if k < before.0.len() {
        assert forall|i: int| 0 <= i < front.len() implies groups[#[trigger] front[i] as int].files@.len()
            <= usize::MAX by {
            assert(places[i] == front[i]);
        }
        rows_name_shown_groups(groups, front, open, hide_unreclaimable, k);
        assert(forall|p: usize| front.contains(p) ==> places.contains(p)) by {
            assert forall|p: usize| front.contains(p) implies places.contains(p) by {
                let i = choose|i: int| 0 <= i < front.len() && front[i] == p;
                assert(places[i] == p);
            }
        }
    }
}

proof fn numbers_stay_small(
    groups: Seq<DuplicateGroupSummary>,
    places: Seq<usize>,
    open: Set<usize>,
    hide_unreclaimable: bool,
)
    ensures
        rows_for(groups, places, open, hide_unreclaimable).1 <= places.len(),
    decreases places.len(),
{
    if places.len() > 0 {
        numbers_stay_small(groups, places.drop_last(), open, hide_unreclaimable);
    }
}

/// Hidden groups and groups with a row are all the shown groups.
pub proof fn hidden_and_shown_make_all(
    groups: Seq<DuplicateGroupSummary>,
    places: Seq<usize>,
    open: Set<usize>,
)
    ensures
        rows_for(groups, places, open, true).1 + freeing_nothing(groups, places) == places.len(),
        rows_for(groups, places, open, false).1 == places.len(),
    decreases places.len(),
{
    if places.len() > 0 {
        hidden_and_shown_make_all(groups, places.drop_last(), open);
    }
}

/// A group that has been acted on offers no button.
pub proof fn acted_groups_offer_nothing(g: DuplicateGroupSummary)
    ensures
        action_cell(g, true) != ActionCell::Buttons,
{
}

/// Every label in the list of bulk actions is made of characters of the Basic Multilingual Plane,
/// which the bundled font has.
pub proof fn bulk_labels_are_in_the_font(action: BulkAction, desktop: Desktop, i: int)
    requires
        0 <= i < bulk_label(action, desktop).len(),
    ensures
        (bulk_label(action, desktop)[i] as int) < 0x1_0000,
{
    reveal_strlit("Safe-rename dupes");
    reveal_strlit("Archive (Move) dupes");
    reveal_strlit("Archive (Copy) dupes");
    reveal_strlit("♻ Move dupes to Trash");
    reveal_strlit("♻ Recycle dupes");
    reveal_strlit("Nuke dupes (permanent)");
}

/// A button asks for what it names and for nothing else: only Safe-rename renames, only Recycle
/// recycles, only Hardlink links, and each leaves the first file alone and takes all the others.
/// The other buttons only show the first file.
pub proof fn buttons_ask_for_what_they_name(
    button: GroupButton,
    files: Seq<Seq<char>>,
    request: GroupAction,
)
    requires
        files.len() > 0,
        asks_for(button, files, request),
    ensures
        request is SafeRenameOthers <==> button == GroupButton::SafeRename,
        request is RecycleOthers <==> button == GroupButton::Recycle,
        request is HardlinkOthers <==> button == GroupButton::Hardlink,
        request is OpenFile <==> button == GroupButton::OpenFile,
        request is OpenFolder <==> button == GroupButton::OpenFolder,
        request is Reveal <==> button == GroupButton::Reveal,
        request is Preview <==> button == GroupButton::Preview,
        request matches GroupAction::SafeRenameOthers { keeper, dupes } ==> keeper@ == files[0]
            && dupes@.len() == files.len() - 1 && forall|i: int|
            0 <= i < dupes@.len() ==> (#[trigger] dupes@[i])@ == files[i + 1],
        request matches GroupAction::RecycleOthers { keeper, dupes } ==> keeper@ == files[0]
            && dupes@.len() == files.len() - 1 && forall|i: int|
            0 <= i < dupes@.len() ==> (#[trigger] dupes@[i])@ == files[i + 1],
        request matches GroupAction::HardlinkOthers { keeper, dupes } ==> keeper@ == files[0]
            && dupes@.len() == files.len() - 1 && forall|i: int|
            0 <= i < dupes@.len() ==> (#[trigger] dupes@[i])@ == files[i + 1],
{
    let others = files.skip(1);
    match request {
        GroupAction::SafeRenameOthers { keeper, dupes } => {
            assert(texts(dupes@).len() == dupes@.len());
            assert forall|i: int| 0 <= i < dupes@.len() implies (#[trigger] dupes@[i])@ == files[i + 1] by {
                assert(texts(dupes@)[i] == dupes@[i]@);
            }
        },
        GroupAction::RecycleOthers { keeper, dupes } => {
            assert(texts(dupes@).len() == dupes@.len());
            assert forall|i: int| 0 <= i < dupes@.len() implies (#[trigger] dupes@[i])@ == files[i + 1] by {
                assert(texts(dupes@)[i] == dupes@[i]@);
            }
        },
        GroupAction::HardlinkOthers { keeper, dupes } => {
            assert(texts(dupes@).len() == dupes@.len());
            assert forall|i: int| 0 <= i < dupes@.len() implies (#[trigger] dupes@[i])@ == files[i + 1] by {
                assert(texts(dupes@)[i] == dupes@[i]@);
            }
        },
        _ => {},
    }
}

/// A group has its buttons where it has a file, no action on it has been queued and its files are
/// not one and the same already; and exactly the buttons that change files queue an action.
pub proof fn groups_with_something_to_do_have_buttons(
    g: DuplicateGroupSummary,
    acted: bool,
    button: GroupButton,
)
    ensures
        ({
            let linked = g.link_equivalent && g.similarity_kind == SimilarityKind::ByteIdentical;
            &&& action_cell(g, acted) == ActionCell::Buttons <==> g.files@.len() > 0 && !acted && !linked
            &&& action_cell(g, acted) == ActionCell::AlreadyHardlinked <==> linked
            &&& action_cell(g, acted) == ActionCell::Queued <==> acted && !linked
        }),
        queues(button) <==> !(button == GroupButton::OpenFile || button == GroupButton::OpenFolder
            || button == GroupButton::Reveal || button == GroupButton::Preview),
{
}

/// A bulk action asks for what it names: renaming asks to rename, moving to move, copying to copy,
/// recycling to recycle, and nothing but the permanent deletion asks for that.
pub proof fn bulk_actions_ask_for_what_they_name(action: BulkAction)
    ensures
        bulk_request(action) is SafeRenameAllVisible <==> action == BulkAction::SafeRenameDupes,
        bulk_request(action) is ArchiveAllVisible <==> action == BulkAction::ArchiveMoveDupes,
        bulk_request(action) is ArchiveCopyAllVisible <==> action == BulkAction::ArchiveCopyDupes,
        bulk_request(action) is RecycleAllVisible <==> action == BulkAction::RecycleDupes,
        bulk_request(action) is NukeAllVisible <==> action == BulkAction::NukeDupes,
{
}

/// Without a drive every group passes; with one, a group passes where one of its files lies on the
/// drive or in a reference folder, and only there.
pub proof fn groups_on_the_drive_pass(g: DuplicateGroupSummary, filter: TableFilter)
    ensures
        filter.drive_root is None ==> passes_filter(g, filter),
        filter.drive_root matches Some(root) ==> (passes_filter(g, filter) <==> exists|i: int|
            0 <= i < g.files@.len() && (starts_with(
                filter.platform,
                (#[trigger] g.files@[i])@,
                root@,
            ) || exists|j: int|
                0 <= j < filter.reference_roots@.len() && starts_with(
                    filter.platform,
                    g.files@[i]@,
                    (#[trigger] filter.reference_roots@[j])@,
                ))),
{
    if let Some(root) = filter.drive_root {
        let references = texts(filter.reference_roots@);
        let all = texts(g.files@);
        assert forall|i: int| 0 <= i < g.files@.len() implies shows_through(
            filter.platform,
            #[trigger] all[i],
            root@,
            references,
        ) == (starts_with(filter.platform, g.files@[i]@, root@) || exists|j: int|
            0 <= j < filter.reference_roots@.len() && starts_with(
                filter.platform,
                g.files@[i]@,
                (#[trigger] filter.reference_roots@[j])@,
            )) by {
            assert(all[i] == g.files@[i]@);
            assert forall|j: int| 0 <= j < references.len() implies #[trigger] references[j]
                == filter.reference_roots@[j]@ by {}
            if exists|j: int|
                0 <= j < filter.reference_roots@.len() && starts_with(
                    filter.platform,
                    g.files@[i]@,
                    (#[trigger] filter.reference_roots@[j])@,
                ) {
                let j = choose|j: int|
                    0 <= j < filter.reference_roots@.len() && starts_with(
                        filter.platform,
                        g.files@[i]@,
                        (#[trigger] filter.reference_roots@[j])@,
                    );
                assert(starts_with(filter.platform, all[i], references[j]));
            }
            if exists|j: int|
                0 <= j < references.len() && starts_with(
                    filter.platform,
                    all[i],
                    #[trigger] references[j],
                ) {
                let j = choose|j: int|
                    0 <= j < references.len() && starts_with(
                        filter.platform,
                        all[i],
                        #[trigger] references[j],
                    );
                assert(starts_with(
                    filter.platform,
                    g.files@[i]@,
                    filter.reference_roots@[j]@,
                ));
            }
        }
        if passes_filter(g, filter) {
            let i = choose|i: int|
                0 <= i < g.files@.len() && shows_through(
                    filter.platform,
                    #[trigger] all[i],
                    root@,
                    references,
                );
            assert(g.files@[i]@ == all[i]);
        }
        if exists|i: int|
            0 <= i < g.files@.len() && (starts_with(
                filter.platform,
                (#[trigger] g.files@[i])@,
                root@,
            ) || exists|j: int|
                0 <= j < filter.reference_roots@.len() && starts_with(
                    filter.platform,
                    g.files@[i]@,
                    (#[trigger] filter.reference_roots@[j])@,
                )) {
            let i = choose|i: int|
                0 <= i < g.files@.len() && (starts_with(
                    filter.platform,
                    (#[trigger] g.files@[i])@,
                    root@,
                ) || exists|j: int|
                    0 <= j < filter.reference_roots@.len() && starts_with(
                        filter.platform,
                        g.files@[i]@,
                        (#[trigger] filter.reference_roots@[j])@,
                    ));
            assert(shows_through(filter.platform, all[i], root@, references));
        }
    }
}

/// Every shown group that frees something, and where nothing is hidden every shown group, has a
/// row; and where it is open, so has each of its files.
pub proof fn every_shown_group_has_its_rows(
    groups: Seq<DuplicateGroupSummary>,
    places: Seq<usize>,
    open: Set<usize>,
    hide_unreclaimable: bool,
    k: int,
    member: usize,
)
    requires
        0 <= k < places.len(),
        !hide_unreclaimable || savings(groups[places[k] as int]) > 0,
    ensures
        ({
            let rows = rows_for(groups, places, open, hide_unreclaimable).0;
            &&& exists|i: int|
                0 <= i < rows.len() && ((#[trigger] rows[i]) matches RowItem::Group {
                    sorted_idx,
                    ..
                } && sorted_idx == places[k])
            &&& open.contains(places[k]) && member < groups[places[k] as int].files@.len()
                ==> rows.contains(RowItem::Dupe { sorted_idx: places[k], member_idx: member })
        }),
    decreases places.len(),
{
    let rows = rows_for(groups, places, open, hide_unreclaimable).0;
    let before = rows_for(groups, places.drop_last(), open, hide_unreclaimable).0;
    let wanted = RowItem::Dupe { sorted_idx: places[k], member_idx: member };
    if k < places.len() - 1 {
        every_shown_group_has_its_rows(
            groups,
            places.drop_last(),
            open,
            hide_unreclaimable,
            k,
            member,
        );
        assert(forall|i: int| 0 <= i < before.len() ==> rows[i] == before[i]);
        let i = choose|i: int|
            0 <= i < before.len() && ((#[trigger] before[i]) matches RowItem::Group {
                sorted_idx,
                ..
            } && sorted_idx == places[k]);
        assert(rows[i] == before[i]);
        if before.contains(wanted) {
            assert(rows[before.index_of(wanted)] == wanted);
        }
    } else {
        assert(rows[before.len() as int] is Group);
        if open.contains(places[k]) && member < groups[places[k] as int].files@.len() {
            assert(rows[before.len() + 1 + member] == wanted);
        }
    }
}

/// The button above the table can be pressed exactly where a group with a row has a file besides
/// the one that is kept, and no scan runs; its count is that of all such files.
pub proof fn there_is_something_to_act_on(
    groups: Seq<DuplicateGroupSummary>,
    places: Seq<usize>,
    hide_unreclaimable: bool,
)
    ensures
        dupes_shown(groups, places, hide_unreclaimable) > 0 <==> exists|k: int|
            0 <= k < places.len() && groups[#[trigger] places[k] as int].files@.len() > 1 && (
            hide_unreclaimable ==> savings(groups[places[k] as int]) > 0),
        forall|last: usize| #[trigger]
            dupes_shown(groups, places.push(last), hide_unreclaimable) == dupes_shown(
                groups,
                places,
                hide_unreclaimable,
            ) + (if groups[last as int].files@.len() > 0 && (hide_unreclaimable ==> savings(
                groups[last as int],
            ) > 0) {
                groups[last as int].files@.len() - 1
            } else {
                0
            }),
    decreases places.len(),
{
    assert forall|last: usize| #[trigger]
        dupes_shown(groups, places.push(last), hide_unreclaimable) == dupes_shown(
            groups,
            places,
            hide_unreclaimable,
        ) + (if groups[last as int].files@.len() > 0 && (hide_unreclaimable ==> savings(
            groups[last as int],
        ) > 0) {
            groups[last as int].files@.len() - 1
        } else {
            0
        }) by {
        assert(places.push(last).drop_last() =~= places);
    }
    if places.len() > 0 {
        let front = places.drop_last();
        there_is_something_to_act_on(groups, front, hide_unreclaimable);
        let n = places.len() - 1;
        if dupes_shown(groups, front, hide_unreclaimable) > 0 {
            let k = choose|k: int|
                0 <= k < front.len() && groups[#[trigger] front[k] as int].files@.len() > 1 && (
                hide_unreclaimable ==> savings(groups[front[k] as int]) > 0);
            assert(places[k] == front[k]);
        } else if dupes_shown(groups, places, hide_unreclaimable) > 0 {
            assert(groups[places[n] as int].files@.len() > 1);
        }
        if exists|k: int|
            0 <= k < places.len() && groups[#[trigger] places[k] as int].files@.len() > 1 && (
            hide_unreclaimable ==> savings(groups[places[k] as int]) > 0) {
            let k = choose|k: int|
                0 <= k < places.len() && groups[#[trigger] places[k] as int].files@.len() > 1 && (
                hide_unreclaimable ==> savings(groups[places[k] as int]) > 0);
            if k < n {
                assert(front[k] == places[k]);
            }
        }
    }
}

/// Every file but the first of a group that was not acted on can be made the keeper while no scan
/// runs.
pub proof fn other_files_can_be_promoted(
    groups: Seq<DuplicateGroupSummary>,
    acted: Set<usize>,
    group: usize,
    member: usize,
)
    requires
        group < groups.len(),
        0 < member < groups[group as int].files@.len(),
        !acted.contains(group),
    ensures
        promotion(
            groups,
            acted,
            RowItem::Dupe { sorted_idx: group, member_idx: member },
            false,
        ) == Some(GroupAction::PromoteKeeper { group_idx: group, member_idx: member }),
{
}

/// The button of the bulk action tells how many files it is about, where it is about any.
pub proof fn bulk_buttons_count_files(count: nat)
    ensures
        count > 0 ==> go_text(count) == "Go ("@ + decimal(count) + " files)"@,
        count == 0 ==> go_text(count) == "Go"@,
{
}

/// The line above the table tells how many groups free nothing, and whether they are hidden.
pub proof fn hidden_groups_are_told(hidden: nat)
    ensures
        toggle_line(true, hidden) == "🚫 Showing reclaimable only ("@ + decimal(hidden) + " hidden)"@,
        hidden > 0 ==> toggle_line(false, hidden) == "👁 Showing all · "@ + decimal(hidden)
            + " are 0 B"@,
        hidden == 0 ==> toggle_line(false, hidden) == "👁 Showing all"@,
{
}

/// A click opens a closed group and closes an open one, and touches no other.
pub proof fn clicks_open_and_close(open: Set<usize>, group: usize, other: usize)
    ensures
        toggled(open, group).contains(group) <==> !open.contains(group),
        other != group ==> (toggled(open, group).contains(other) <==> open.contains(other)),
{
}

/// Groups whose files only look or sound alike are marked, and groups of identical files are not;
/// one group of images that look alike is enough for the note above the table.
pub proof fn similar_files_are_marked(
    kind: SimilarityKind,
    groups: Seq<DuplicateGroupSummary>,
    places: Seq<usize>,
    k: int,
)
    ensures
        similarity_mark(kind) is None <==> kind == SimilarityKind::ByteIdentical,
        kind == SimilarityKind::PerceptualImage ==> (similarity_mark(kind)->0).0 == "perceptual image"@,
        kind == SimilarityKind::PerceptualAudio ==> (similarity_mark(kind)->0).0 == "♪ perceptual audio"@,
        0 <= k < places.len() && groups[places[k] as int].similarity_kind
            == SimilarityKind::PerceptualImage ==> any_perceptual_image(groups, places),
{
}

/// The row of a group shows its first file, the one that is kept, behind an arrow that points down
/// where the group is open.
pub proof fn rows_show_the_kept_file(g: DuplicateGroupSummary)
    requires
        g.files@.len() > 0,
    ensures
        keeper_label(g, true) == "▼ "@ + displayed(g.files@[0]@),
        keeper_label(g, false) == "▶ "@ + displayed(g.files@[0]@),
{
}

/// The table is shown exactly where there is a group to show: it shows the groups in their order
/// with their rows, and its button works where there is a file to act on and no scan runs.
pub proof fn views_show_the_groups(
    view: TableView,
    groups: Seq<DuplicateGroupSummary>,
    order: Seq<usize>,
    table_state: GroupsTableState,
    is_scanning: bool,
    desktop: Desktop,
)
    requires
        is_view_of(view, groups, order, table_state, is_scanning, desktop),
    ensures
        view is Empty <==> groups.len() == 0,
        view is NoneHere <==> groups.len() > 0 && order.len() == 0,
        view is Table <==> groups.len() > 0 && order.len() > 0,
        view matches TableView::Table { places, advisory, bar, rows } ==> {
            let hide = table_state.hide_unreclaimable;
            let files = dupes_shown(groups, order, hide);
            &&& places@ == order
            &&& rows@ == rows_for(groups, order, table_state.expanded@, hide).0
            &&& bar.go_enabled <==> files > 0 && !is_scanning
            &&& bar.go_label@ == go_text(files)
            &&& is_scanning ==> bar.go_hover@
                == "Wait for the scan to finish before running bulk actions. The duplicate set is still being computed."@
            &&& !is_scanning ==> bar.go_hover@ == bulk_hover(table_state.bulk_action, desktop)
            &&& bar.trailer@ == bulk_trailer(table_state.bulk_action, desktop)
            &&& bar.toggle_text@ == toggle_line(hide, freeing_nothing(groups, order))
            &&& advisory is Some <==> any_perceptual_image(groups, order)
        },
{
}

/// A deletion without a way back says so, wherever it is told; the other actions do not.
pub proof fn permanent_deletion_is_told(action: BulkAction, desktop: Desktop)
    ensures
        bulk_trailer(BulkAction::NukeDupes, desktop) == "PERMANENT delete — no undo"@,
        bulk_label(BulkAction::NukeDupes, desktop) == "Nuke dupes (permanent)"@,
        bulk_label(BulkAction::SafeRenameDupes, desktop) == "Safe-rename dupes"@,
        bulk_label(BulkAction::ArchiveMoveDupes, desktop) == "Archive (Move) dupes"@,
        bulk_label(BulkAction::ArchiveCopyDupes, desktop) == "Archive (Copy) dupes"@,
        bulk_label(BulkAction::RecycleDupes, Desktop::Windows) == "♻ Recycle dupes"@,
        desktop != Desktop::Windows ==> bulk_label(BulkAction::RecycleDupes, desktop)
            == "♻ Move dupes to Trash"@,
        bulk_trailer(BulkAction::SafeRenameDupes, desktop) == "safe-mode (no files deleted)"@,
        bulk_trailer(BulkAction::ArchiveMoveDupes, desktop) == "moves dupes, writes manifest"@,
        bulk_trailer(BulkAction::ArchiveCopyDupes, desktop)
            == "copies dupes (no reclaim, no confirm)"@,
{
}

/// What can be brought back says where from, by the desktop's own word for it.
pub proof fn recoverable_files_are_told(desktop: Desktop)
    ensures
        bulk_trailer(BulkAction::RecycleDupes, Desktop::MacOs) == "recoverable from Trash"@,
        desktop != Desktop::MacOs ==> bulk_trailer(BulkAction::RecycleDupes, desktop)
            == "recoverable from recycle bin"@,
        bulk_hover(BulkAction::NukeDupes, Desktop::MacOs)
            == "PERMANENTLY delete every non-keeper across every visible group — no Trash, no undo. Reference paths never touched. Requires typing DELETE to confirm. Only use when you're certain."@,
        desktop != Desktop::MacOs ==> bulk_hover(BulkAction::NukeDupes, desktop)
            == "PERMANENTLY delete every non-keeper across every visible group — no recycle bin, no undo. Reference paths never touched. Requires typing DELETE to confirm. Only use when you're certain."@,
        bulk_hover(BulkAction::RecycleDupes, Desktop::Windows)
            == "Send every non-keeper across every visible group to the OS Recycle Bin. Reference paths never touched. Recoverable from the Recycle Bin until you empty it. Requires confirmation."@,
        desktop != Desktop::Windows ==> bulk_hover(BulkAction::RecycleDupes, desktop)
            == "Send every non-keeper across every visible group to the OS Trash. Reference paths never touched. Recoverable from the Trash until you empty it. Requires confirmation."@,
{
}

} // verus!
