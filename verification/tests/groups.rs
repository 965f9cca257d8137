use superdeduper::gui::events::{DuplicateGroupSummary, SimilarityKind};
use superdeduper::gui::state::{inode_aware_savings, saturating_product};
use superdeduper::gui::widgets::groups_table::{
    bulk_bar, dupe_row, group_passes_filter, group_row, press, press_go, press_promote, promote_row,
    row_height, run_bulk_action, show, show_filtered, sorted_groups, table_rows, ActionCell, BulkAction, GroupAction, GroupButton,
    GroupsTableState, RowItem, TableFilter, TableView,
};
use superdeduper::gui::widgets::treemap::{
    map_tiles, map_view, tile_name_line, tile_savings_line, tooltip, truncate, MapView,
};
use superdeduper::gui::Desktop;
use superdeduper::paths::Platform;

fn group(size: u64, files: &[&str]) -> DuplicateGroupSummary {
    DuplicateGroupSummary {
        size,
        content_hash: "deadbeef".repeat(8),
        files: files.iter().map(|s| s.to_string()).collect(),
        link_equivalent: false,
        unique_inodes: 0,
        similarity_kind: SimilarityKind::ByteIdentical,
    }
}

fn no_filter() -> TableFilter {
    TableFilter {
        platform: Platform::Unix,
        drive_root: None,
        reference_roots: Vec::new(),
    }
}

fn three() -> Vec<DuplicateGroupSummary> {
    vec![
        group(1024, &["/d/a", "/d/b"]),
        group(2048, &["/e/a", "/e/b", "/e/c"]),
        group(100, &["/d/x", "/e/x"]),
    ]
}

#[test]
fn links_free_nothing_at_all() {
    let mut g = group(1024, &["/a", "/b", "/c"]);
    assert_eq!(inode_aware_savings(&g), 2048);
    g.unique_inodes = 2;
    assert_eq!(inode_aware_savings(&g), 1024);
    g.unique_inodes = 1;
    assert_eq!(inode_aware_savings(&g), 0);
    g.unique_inodes = 0;
    g.link_equivalent = true;
    assert_eq!(inode_aware_savings(&g), 0);
    assert_eq!(saturating_product(u64::MAX, 2), u64::MAX);
}

#[test]
fn groups_that_free_most_come_first() {
    let groups = three();
    assert_eq!(sorted_groups(&groups, &no_filter()), vec![1, 0, 2]);
    let mut filter = no_filter();
    filter.drive_root = Some("/d".to_string());
    assert_eq!(sorted_groups(&groups, &filter), vec![0, 2]);
    assert!(group_passes_filter(&groups[0], &filter));
    assert!(!group_passes_filter(&groups[1], &filter));
    filter.reference_roots.push("/e".to_string());
    assert_eq!(sorted_groups(&groups, &filter), vec![1, 0, 2]);
}

#[test]
fn toggling_twice_leaves_the_table_as_it_was() {
    let mut state = GroupsTableState::default();
    assert!(!state.is_open(3));
    state.toggle(3);
    assert!(state.is_open(3));
    assert!(!state.is_open(4));
    state.toggle(3);
    assert!(!state.is_open(3));
    assert!(!state.is_acted(3));
}

#[test]
fn open_groups_show_their_members() {
    let groups = three();
    let places = sorted_groups(&groups, &no_filter());
    let mut state = GroupsTableState::default();
    assert_eq!(table_rows(&groups, &places, &state).len(), 3);
    state.toggle(1);
    let rows = table_rows(&groups, &places, &state);
    let members = rows.iter().filter(|r| matches!(r, RowItem::Dupe { .. })).count();
    assert_eq!(members, 3);
    assert_eq!(rows.len(), 6);
    assert!(row_height(rows[0]) > 0);
}

#[test]
fn groups_that_free_nothing_can_be_hidden() {
    let mut groups = three();
    groups[2].link_equivalent = true;
    let places = sorted_groups(&groups, &no_filter());
    let mut state = GroupsTableState::default();
    state.hide_unreclaimable = true;
    assert_eq!(table_rows(&groups, &places, &state).len(), 2);
    state.hide_unreclaimable = false;
    assert_eq!(table_rows(&groups, &places, &state).len(), 3);
}

#[test]
fn pressed_groups_are_done_with() {
    let groups = three();
    let mut state = GroupsTableState::default();
    let first = press(&groups, &mut state, 0, GroupButton::Recycle);
    assert!(matches!(
        first,
        Some(GroupAction::RecycleOthers { keeper, dupes })
            if keeper == "/d/a" && dupes == vec!["/d/b".to_string()]
    ));
    assert!(state.is_acted(0));
    assert!(press(&groups, &mut state, 0, GroupButton::Recycle).is_none());
    assert!(!state.is_acted(1));
    let look = press(&groups, &mut state, 1, GroupButton::OpenFile);
    assert!(matches!(look, Some(GroupAction::OpenFile(p)) if p == "/e/a"));
    assert!(!state.is_acted(1));
}

#[test]
fn rows_tell_what_can_be_done() {
    let g = group(1024, &["/d/a", "/d/b"]);
    let row = group_row(&g, 0, false, false);
    assert!(matches!(row.cell, ActionCell::Buttons));
    assert_eq!(row.reclaim.trim(), "1 KiB");
    assert!(matches!(group_row(&g, 0, false, true).cell, ActionCell::Queued));
    let mut links = group(1024, &["/d/a", "/d/b"]);
    links.link_equivalent = true;
    assert!(matches!(
        group_row(&links, 0, false, false).cell,
        ActionCell::AlreadyHardlinked
    ));
}

#[test]
fn members_can_become_the_keeper() {
    let keeper = dupe_row("/d/a", 0, false, false);
    assert!(!keeper.promote_shown);
    assert!(press_promote(&keeper, 4, 0).is_none());
    let dupe = dupe_row(r"\\?\C:\d\b", 1, false, false);
    assert!(dupe.path.contains(r"C:\d\b"));
    assert!(!dupe.path.contains(r"\\?\"));
    assert!(matches!(
        press_promote(&dupe, 4, 1),
        Some(GroupAction::PromoteKeeper { group_idx: 4, member_idx: 1 })
    ));
    let busy = dupe_row("/d/b", 1, false, true);
    assert!(press_promote(&busy, 4, 1).is_none());
}

#[test]
fn bulk_actions_ask_for_every_visible_group() {
    let groups = three();
    let places = sorted_groups(&groups, &no_filter());
    let state = GroupsTableState::default();
    let bar = bulk_bar(&groups, &places, &state, false, Desktop::Linux);
    assert!(bar.go_enabled);
    for (action, wanted) in [
        (BulkAction::SafeRenameDupes, "SafeRenameAllVisible"),
        (BulkAction::ArchiveMoveDupes, "ArchiveAllVisible"),
        (BulkAction::ArchiveCopyDupes, "ArchiveCopyAllVisible"),
        (BulkAction::RecycleDupes, "RecycleAllVisible"),
        (BulkAction::NukeDupes, "NukeAllVisible"),
    ] {
        let asked = press_go(&bar, action).expect("enabled");
        assert_eq!(format!("{asked:?}"), wanted);
        assert_eq!(format!("{:?}", action.request()), wanted);
    }
    let busy = bulk_bar(&groups, &places, &state, true, Desktop::Linux);
    assert!(press_go(&busy, BulkAction::NukeDupes).is_none());
    assert!(BulkAction::NukeDupes.is_destructive());
    assert!(!BulkAction::RecycleDupes.is_destructive());
    assert!(!BulkAction::ArchiveMoveDupes.is_destructive());
    assert!(!BulkAction::ArchiveCopyDupes.is_destructive());
    assert!(!BulkAction::SafeRenameDupes.is_destructive());
    assert_eq!(BulkAction::default(), BulkAction::SafeRenameDupes);
    assert_eq!(BulkAction::RecycleDupes.label(Desktop::Windows), "♻ Recycle dupes");
    assert_eq!(BulkAction::RecycleDupes.label(Desktop::MacOs), "♻ Move dupes to Trash");
    assert_eq!(BulkAction::RecycleDupes.trailer(Desktop::MacOs), "recoverable from Trash");
    assert!(BulkAction::NukeDupes.hover(Desktop::Linux).starts_with("PERMANENTLY"));
}

#[test]
fn tables_say_when_there_is_nothing() {
    let state = GroupsTableState::default();
    assert!(matches!(
        show(&Vec::new(), &state, Platform::Unix, false, Desktop::Linux),
        TableView::Empty(_, _)
    ));
    let mut filter = no_filter();
    filter.drive_root = Some("/nowhere".to_string());
    assert!(matches!(
        show_filtered(&three(), &state, &filter, false, Desktop::Linux),
        TableView::NoneHere(_)
    ));
    match show(&three(), &state, Platform::Unix, false, Desktop::Linux) {
        TableView::Table { places, rows, .. } => {
            assert_eq!(places, vec![1, 0, 2]);
            assert_eq!(rows.len(), 3);
        }
        _ => panic!("a table"),
    }
}

#[test]
fn maps_draw_what_frees_space() {
    let mut groups = three();
    groups[2].link_equivalent = true;
    let tiles = map_tiles(&groups, &no_filter());
    let drawn: Vec<(usize, u64)> = tiles.iter().map(|t| (t.group_index, t.savings)).collect();
    assert_eq!(drawn[0].1, 4096);
    assert!(drawn.windows(2).all(|w| w[0].1 >= w[1].1));
    assert!(matches!(map_view(&Vec::new(), &no_filter()), MapView::Message("No duplicates yet.")));
    assert_eq!(tile_savings_line(&tiles[0]), "4 KiB");
    assert_eq!(
        tile_name_line(Platform::Unix, &tiles[0]).unwrap(),
        "×3  a"
    );
    let tip = tooltip(&tiles[0]);
    assert_eq!(tip.summary, "2 KiB × 3 copies   ·   4 KiB reclaimable");
    assert_eq!(tip.hash, "hash deadbeefdead…");
    assert_eq!(tip.files[0].0, "keep ");
    assert_eq!(tip.files[1].0, "dupe ");
    assert!(tip.more.is_none());
    assert_eq!(truncate("abcdef", 4), "abc…");
}

#[test]
fn rows_promote_the_file_they_show() {
    let groups = three();
    let mut state = GroupsTableState::default();
    state.toggle(0);
    state.toggle(1);
    let places = sorted_groups(&groups, &no_filter());
    let asked: Vec<(usize, usize)> = table_rows(&groups, &places, &state)
        .into_iter()
        .filter_map(|row| promote_row(&groups, &state, row, false))
        .map(|action| match action {
            GroupAction::PromoteKeeper { group_idx, member_idx } => (group_idx, member_idx),
            other => panic!("{other:?}"),
        })
        .collect();
    assert_eq!(asked, vec![(1, 1), (1, 2), (0, 1)]);
    let row = RowItem::Dupe { sorted_idx: 0, member_idx: 1 };
    assert!(promote_row(&groups, &state, row, true).is_none());
    assert!(promote_row(&groups, &state, RowItem::Dupe { sorted_idx: 9, member_idx: 1 }, false).is_none());
    assert!(promote_row(&groups, &state, RowItem::Group { sorted_idx: 0, display_idx: 0 }, false).is_none());
    press(&groups, &mut state, 0, GroupButton::Recycle);
    assert!(promote_row(&groups, &state, row, false).is_none());
}

#[test]
fn the_bulk_button_asks_for_what_is_selected() {
    let groups = three();
    let mut state = GroupsTableState::default();
    state.bulk_action = BulkAction::ArchiveCopyDupes;
    let asked = run_bulk_action(&groups, &state, &no_filter(), false, Desktop::Linux).unwrap();
    assert_eq!(format!("{asked:?}"), "ArchiveCopyAllVisible");
    assert!(run_bulk_action(&groups, &state, &no_filter(), true, Desktop::Linux).is_none());
    let mut elsewhere = no_filter();
    elsewhere.drive_root = Some("/nowhere".to_string());
    assert!(run_bulk_action(&groups, &state, &elsewhere, false, Desktop::Linux).is_none());
}
