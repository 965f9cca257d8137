//! The map of reclaimable space: one tile for each group of duplicates, sized by the bytes that
//! it would free.
use vstd::prelude::*;

use crate::gui::events::DuplicateGroupSummary;
use crate::gui::state::{one_less, saturated_product, saturating_product};
use crate::gui::widgets::groups_table::{group_passes_filter, passes_filter, TableFilter};
use crate::paths::{file_name_of, final_name, Platform};
use crate::sizes::{format_size, human_size};
use crate::sort::{
    comes_before, is_stable_order, ordered, stable_order, stable_order_exists,
    stable_order_names_every_place, stable_order_of,
};
use crate::text::{
    byte_head, byte_head_of, cat2, cat3, cat4, cat6, cut_right, cut_right_of, decimal,
    decimal_string, texts,
};

verus! {

/// The most tiles that are drawn.
pub const MAX_TILES: usize = 256;

/// The most files that a tooltip lists.
pub const MAX_LISTED: usize = 8;

/// One tile of the map.
pub struct Tile {
    /// The place of the group in the list, counted from 1.
    pub group_index: usize,
    pub savings: u64,
    pub size_each: u64,
    pub count: usize,
    pub files: Vec<String>,
    pub hash: String,
}

/// What a tile holds.
pub struct TileContents {
    pub group_index: nat,
    pub savings: u64,
    pub size_each: u64,
    pub count: nat,
    pub files: Seq<Seq<char>>,
    pub hash: Seq<char>,
}

impl View for Tile {
    type V = TileContents;

    open spec fn view(&self) -> TileContents {
        TileContents {
            group_index: self.group_index as nat,
            savings: self.savings,
            size_each: self.size_each,
            count: self.count as nat,
            files: texts(self.files@),
            hash: self.hash@,
        }
    }
}

/// The tile of the group at the given place.
pub open spec fn tile_of(g: DuplicateGroupSummary, place: nat) -> TileContents {
    TileContents {
        group_index: place + 1,
        savings: saturated_product(g.size, one_less(g.files@.len())),
        size_each: g.size,
        count: g.files@.len(),
        files: texts(g.files@),
        hash: g.content_hash@,
    }
}

/// Whether the group has a tile: it passes the filter and has a duplicate.
pub open spec fn has_tile(g: DuplicateGroupSummary, filter: TableFilter) -> bool {
    passes_filter(g, filter) && g.files@.len() > 1
}

/// The tiles of the groups, in the order of the list.
pub open spec fn all_tiles(groups: Seq<DuplicateGroupSummary>, filter: TableFilter) -> Seq<
    TileContents,
>
    decreases groups.len(),
{
    if groups.len() == 0 {
        Seq::empty()
    } else {
        let before = all_tiles(groups.drop_last(), filter);
        if has_tile(groups.last(), filter) {
            before.push(tile_of(groups.last(), (groups.len() - 1) as nat))
        } else {
            before
        }
    }
}

/// The keys by which tiles are sorted: those that free most come first.
pub open spec fn tile_keys(tiles: Seq<TileContents>) -> Seq<i128> {
    tiles.map_values(|t: TileContents| (0 - t.savings) as i128)
}

/// The tiles that are drawn: those that free most, at most `MAX_TILES` of them.
pub open spec fn drawn_tiles(groups: Seq<DuplicateGroupSummary>, filter: TableFilter) -> Seq<
    TileContents,
> {
    let tiles = all_tiles(groups, filter);
    let sorted = ordered(tiles, tile_keys(tiles));
    if sorted.len() > MAX_TILES {
        sorted.take(MAX_TILES as int)
    } else {
        sorted
    }
}

/// The contents of the tiles.
pub open spec fn tile_views(tiles: Seq<Tile>) -> Seq<TileContents> {
    tiles.map_values(|t: Tile| t@)
}

fn copy_files(files: &Vec<String>) -> (r: Vec<String>)
    ensures
        texts(r@) == texts(files@),
{
    let ghost all = texts(files@);
    let mut r: Vec<String> = Vec::new();
    let mut i: usize = 0;
    while i < files.len()
        invariant
            i <= files.len(),
            all == texts(files@),
            texts(r@) =~= all.take(i as int),
        decreases files.len() - i,
    {
        let ghost before = r@;
        r.push(files[i].clone());
        assert(texts(r@) =~= texts(before).push(all[i as int]));
        i = i + 1;
    }
    assert(all.take(i as int) =~= all);
    r
}

fn make_tile(groups: &Vec<DuplicateGroupSummary>, place: usize) -> (r: Tile)
    requires
        place < groups.len(),
        groups@[place as int].files@.len() > 1,
    ensures
        r@ == tile_of(groups@[place as int], place as nat),
{
    let g = &groups[place];
    let count: usize = g.files.len();
    Tile {
        group_index: place + 1,
        savings: saturating_product(g.size, count - 1),
        size_each: g.size,
        count,
        files: copy_files(&g.files),
        hash: g.content_hash.clone(),
    }
}

/// The tiles that are drawn: those that free most first, at most `MAX_TILES` of them. Groups
/// that free the same keep their order, and a group without a duplicate has no tile.
pub fn map_tiles(groups: &Vec<DuplicateGroupSummary>, filter: &TableFilter) -> (r: Vec<Tile>)
    ensures
        tile_views(r@) == drawn_tiles(groups@, *filter),
{
    let ghost want = all_tiles(groups@, *filter);
    let ghost want_keys = tile_keys(want);
    let mut places: Vec<usize> = Vec::new();
    let mut keys: Vec<i128> = Vec::new();
    let mut i: usize = 0;
    assert(groups@.take(0) =~= Seq::<DuplicateGroupSummary>::empty());
    while i < groups.len()
        invariant
            i <= groups.len(),
            places.len() == all_tiles(groups@.take(i as int), *filter).len(),
            forall|k: int|
                0 <= k < places.len() ==> #[trigger] places[k] < groups.len()
                    && groups@[places[k] as int].files@.len() > 1 && all_tiles(
                    groups@.take(i as int),
                    *filter,
                )[k] == tile_of(groups@[places[k] as int], places[k] as nat),
            keys@ == tile_keys(all_tiles(groups@.take(i as int), *filter)),
        decreases groups.len() - i,
    {
        assert(groups@.take(i + 1).drop_last() =~= groups@.take(i as int));
        assert(groups@.take(i + 1).last() == groups@[i as int]);
        let ghost before = all_tiles(groups@.take(i as int), *filter);
        let ghost after = all_tiles(groups@.take(i + 1), *filter);
        let g = &groups[i];
        let count: usize = g.files.len();
        if group_passes_filter(g, filter) && count > 1 {
            let free: u64 = saturating_product(g.size, count - 1);
            let key: i128 = 0 - free as i128;
            places.push(i);
            keys.push(key);
            assert(after == before.push(tile_of(*g, i as nat)));
            assert(keys@ =~= tile_keys(after));
        }
        i = i + 1;
    }
    assert(groups@.take(i as int) =~= groups@);
    let order = stable_order(&keys);
    let ghost sorted = ordered(want, want_keys);
    let mut r: Vec<Tile> = Vec::new();
    let mut j: usize = 0;
    while j < order.len() && j < MAX_TILES
        invariant
            j <= order.len(),
            j <= MAX_TILES,
            order.len() == places.len(),
            want.len() == places.len(),
            want_keys == tile_keys(want),
            is_stable_order(want_keys, order@),
            order@ == stable_order_of(want_keys),
            sorted == ordered(want, want_keys),
            forall|k: int|
                0 <= k < places.len() ==> #[trigger] places[k] < groups.len()
                    && groups@[places[k] as int].files@.len() > 1 && want[k] == tile_of(
                    groups@[places[k] as int],
                    places[k] as nat,
                ),
            tile_views(r@) =~= sorted.take(j as int),
        decreases order.len() - j,
    {
        let at: usize = order[j];
        let place: usize = places[at];
        assert(sorted[j as int] == want[at as int]);
        let ghost before = r@;
        r.push(make_tile(groups, place));
        assert(tile_views(r@) =~= tile_views(before).push(sorted[j as int]));
        j = j + 1;
    }
    assert(sorted.take(sorted.len() as int) =~= sorted);
    r
}

/// What the map area shows.
pub enum MapView {
    /// A line in place of the map.
    Message(&'static str),
    /// Tiles that free nothing at all: nothing is drawn.
    Nothing,
    /// The tiles to lay out.
    Tiles(Vec<Tile>),
}

/// Whether one of the tiles frees something.
pub open spec fn frees_something(tiles: Seq<TileContents>) -> bool {
    exists|k: int| 0 <= k < tiles.len() && (#[trigger] tiles[k]).savings > 0
}

/// What the map area shows.
pub fn map_view(groups: &Vec<DuplicateGroupSummary>, filter: &TableFilter) -> (r: MapView)
    ensures
        match r {
            MapView::Message(line) => if groups@.len() == 0 {
                line@ == "No duplicates yet."@
            } else {
                line@ == "No duplicates on this drive."@ && drawn_tiles(groups@, *filter).len() == 0
            },
            MapView::Nothing => groups@.len() > 0 && drawn_tiles(groups@, *filter).len() > 0
                && !frees_something(drawn_tiles(groups@, *filter)),
            MapView::Tiles(tiles) => groups@.len() > 0 && tile_views(tiles@) == drawn_tiles(
                groups@,
                *filter,
            ) && frees_something(drawn_tiles(groups@, *filter)),
        },
{
    if groups.len() == 0 {
        return MapView::Message("No duplicates yet.");
    }
    let tiles = map_tiles(groups, filter);
    let ghost all = drawn_tiles(groups@, *filter);
    assert(tiles.len() == tile_views(tiles@).len());
    if tiles.len() == 0 {
        return MapView::Message("No duplicates on this drive.");
    }
    let mut i: usize = 0;
    while i < tiles.len()
        invariant
            i <= tiles.len(),
            groups@.len() > 0,
            all == drawn_tiles(groups@, *filter),
            tile_views(tiles@) == all,
            forall|k: int| 0 <= k < i ==> (#[trigger] all[k]).savings == 0,
        decreases tiles.len() - i,
    {
        assert(all[i as int] == tiles@[i as int]@);
        if tiles[i].savings > 0 {
            return MapView::Tiles(tiles);
        }
        i = i + 1;
    }
    MapView::Nothing
}

/// The lines of a tile's tooltip.
pub struct TileTooltip {
    pub title: String,
    pub summary: String,
    pub hash: String,
    /// The files that are listed, each with its tag.
    pub files: Vec<(&'static str, String)>,
    pub more: Option<String>,
}

/// The tag before a listed file.
pub open spec fn file_tag(i: int) -> Seq<char> {
    if i == 0 {
        "keep "@
    } else {
        "dupe "@
    }
}

/// The lines of a tile's tooltip: the first files of the group, and how many more there are.
pub fn tooltip(tile: &Tile) -> (r: TileTooltip)
    ensures
        r.title@ == "Group #"@ + decimal(tile.group_index as nat),
        r.summary@ == human_size(tile.size_each) + " × "@ + decimal(tile.count as nat)
            + " copies   ·   "@ + human_size(tile.savings) + " reclaimable"@,
        r.hash@ == "hash "@ + byte_head(tile.hash@, 12) + "…"@,
        r.files@.len() == (if tile.files@.len() > MAX_LISTED {
            MAX_LISTED as nat
        } else {
            tile.files@.len()
        }),
        forall|i: int|
            0 <= i < r.files@.len() ==> (#[trigger] r.files@[i]).0@ == file_tag(i)
                && r.files@[i].1@ == tile.files@[i]@,
        match r.more {
            Some(line) => tile.files@.len() > MAX_LISTED && line@ == "… "@ + decimal(
                (tile.files@.len() - MAX_LISTED) as nat,
            ) + " more"@,
            None => tile.files@.len() <= MAX_LISTED,
        },
{
    let index = decimal_string(tile.group_index as u64);
    let each = format_size(tile.size_each);
    let count = decimal_string(tile.count as u64);
    let free = format_size(tile.savings);
    let (prefix, _) = byte_head_of(tile.hash.as_str(), 12);
    let mut files: Vec<(&'static str, String)> = Vec::new();
    let mut i: usize = 0;
    while i < tile.files.len() && i < MAX_LISTED
        invariant
            i <= tile.files.len(),
            i <= MAX_LISTED,
            files.len() == i,
            forall|k: int|
                0 <= k < i ==> (#[trigger] files@[k]).0@ == file_tag(k) && files@[k].1@
                    == tile.files@[k]@,
        decreases tile.files.len() - i,
    {
        let tag = if i == 0 {
            "keep "
        } else {
            "dupe "
        };
        files.push((tag, tile.files[i].clone()));
        i = i + 1;
    }
    let more = if tile.files.len() > MAX_LISTED {
        let n = decimal_string((tile.files.len() - MAX_LISTED) as u64);
        Some(cat3("… ", n.as_str(), " more"))
    } else {
        None
    };
    TileTooltip {
        title: cat2("Group #", index.as_str()),
        summary: cat6(
            each.as_str(),
            " × ",
            count.as_str(),
            " copies   ·   ",
            free.as_str(),
            " reclaimable",
        ),
        hash: cat3("hash ", prefix.as_str(), "…"),
        files,
        more,
    }
}

/// The text, cut to `n` characters with an ellipsis where it has more.
pub fn truncate(s: &str, n: usize) -> (r: String)
    ensures
        r@ == cut_right(s@, n as nat),
{
    cut_right_of(s, n)
}

/// The name of the first file, or nothing where it has none.
pub open spec fn first_name(platform: Platform, files: Seq<Seq<char>>) -> Seq<char> {
    if files.len() == 0 {
        Seq::empty()
    } else {
        match final_name(platform, files[0]) {
            Some(name) => name,
            None => Seq::empty(),
        }
    }
}

/// The second line on a tall tile: the count of copies and the keeper's name.
pub open spec fn name_line(platform: Platform, tile: TileContents) -> Option<Seq<char>> {
    let name = first_name(platform, tile.files);
    if name.len() == 0 {
        None
    } else {
        Some("×"@ + decimal(tile.count) + "  "@ + cut_right(name, 24))
    }
}

/// The second line on a tall tile, where the keeper has a name.
pub fn tile_name_line(platform: Platform, tile: &Tile) -> (r: Option<String>)
    ensures
        match r {
            Some(line) => name_line(platform, tile@) == Some(line@),
            None => name_line(platform, tile@) is None,
        },
{
    assert(texts(tile.files@).len() == tile.files.len());
    if tile.files.len() == 0 {
        return None;
    }
    assert(texts(tile.files@)[0] == tile.files@[0]@);
    match file_name_of(platform, tile.files[0].as_str()) {
        Some(name) => {
            if name.as_str().unicode_len() == 0 {
                None
            } else {
                let count = decimal_string(tile.count as u64);
                let short = truncate(name.as_str(), 24);
                Some(cat4("×", count.as_str(), "  ", short.as_str()))
            }
        },
        None => None,
    }
}

/// The first line on a tile: the bytes it frees.
pub fn tile_savings_line(tile: &Tile) -> (r: String)
    ensures
        r@ == human_size(tile.savings),
{
    format_size(tile.savings)
}

proof fn tiles_have_duplicates(groups: Seq<DuplicateGroupSummary>, filter: TableFilter)
    ensures
        all_tiles(groups, filter).len() <= groups.len(),
        forall|k: int|
            0 <= k < all_tiles(groups, filter).len() ==> {
                let t = #[trigger] all_tiles(groups, filter)[k];
                &&& t.count > 1
                &&& 1 <= t.group_index <= groups.len()
                &&& t == tile_of(groups[t.group_index - 1], (t.group_index - 1) as nat)
            },
    decreases groups.len(),
{
    if groups.len() > 0 {
        let front = groups.drop_last();
        tiles_have_duplicates(front, filter);
        assert forall|k: int| 0 <= k < all_tiles(groups, filter).len() implies {
            let t = #[trigger] all_tiles(groups, filter)[k];
            &&& t.count > 1
            &&& 1 <= t.group_index <= groups.len()
            &&& t == tile_of(groups[t.group_index - 1], (t.group_index - 1) as nat)
        } by {
            if k < all_tiles(front, filter).len() {
                let t = all_tiles(front, filter)[k];
                assert(all_tiles(groups, filter)[k] == t);
                assert(front[t.group_index - 1] == groups[t.group_index - 1]);
            }
        }
    }
}

/// Every tile stands for a group with a duplicate, the tiles come by what they free, and there are
/// at most `MAX_TILES`.
pub proof fn drawn_tiles_are_in_order(
    groups: Seq<DuplicateGroupSummary>,
    filter: TableFilter,
    i: int,
    j: int,
)
    requires
        groups.len() <= usize::MAX,
        0 <= i <= j < drawn_tiles(groups, filter).len(),
    ensures
        drawn_tiles(groups, filter)[i].savings >= drawn_tiles(groups, filter)[j].savings,
        drawn_tiles(groups, filter)[i].count > 1,
        drawn_tiles(groups, filter).len() <= MAX_TILES,
{
    let tiles = all_tiles(groups, filter);
    let keys = tile_keys(tiles);
    tiles_have_duplicates(groups, filter);
    stable_order_exists(keys);
    let order = stable_order_of(keys);
    assert(i < j ==> comes_before(keys, order[i], order[j]));
    assert(order[i] < keys.len() && order[j] < keys.len());
    assert(tiles[order[i] as int].count > 1);
}

/// Every group that passes the filter and has at least two files has a tile: its own, with its
/// size, its files, their number and its hash, and with the bytes of all files but one.
pub proof fn every_duplicate_group_has_a_tile(
    groups: Seq<DuplicateGroupSummary>,
    filter: TableFilter,
    k: int,
)
    requires
        0 <= k < groups.len(),
        passes_filter(groups[k], filter),
        groups[k].files@.len() >= 2,
    ensures
        ({
            let tiles = all_tiles(groups, filter);
            let g = groups[k];
            exists|i: int|
                {
                    &&& 0 <= i < tiles.len()
                    &&& (#[trigger] tiles[i]).group_index == k + 1
                    &&& tiles[i].size_each == g.size
                    &&& tiles[i].count == g.files@.len()
                    &&& tiles[i].files == texts(g.files@)
                    &&& tiles[i].hash == g.content_hash@
                    &&& g.size * (g.files@.len() - 1) <= u64::MAX ==> tiles[i].savings == g.size * (
                    g.files@.len() - 1)
                    &&& g.size * (g.files@.len() - 1) > u64::MAX ==> tiles[i].savings == u64::MAX
                }
        }),
    decreases groups.len(),
{
    let tiles = all_tiles(groups, filter);
    let before = all_tiles(groups.drop_last(), filter);
    let g = groups[k];
    if k < groups.len() - 1 {
        every_duplicate_group_has_a_tile(groups.drop_last(), filter, k);
        let i = choose|i: int|
            {
                &&& 0 <= i < before.len()
                &&& (#[trigger] before[i]).group_index == k + 1
                &&& before[i].size_each == g.size
                &&& before[i].count == g.files@.len()
                &&& before[i].files == texts(g.files@)
                &&& before[i].hash == g.content_hash@
                &&& g.size * (g.files@.len() - 1) <= u64::MAX ==> before[i].savings == g.size * (
                g.files@.len() - 1)
                &&& g.size * (g.files@.len() - 1) > u64::MAX ==> before[i].savings == u64::MAX
            };
        assert(tiles[i] == before[i]);
    } else {
        assert(tiles[before.len() as int] == tile_of(g, k as nat));
    }
}

/// Every tile stands for a group that passes the filter and has at least two files, and no group
/// has two tiles.
pub proof fn tiles_stand_for_duplicate_groups(
    groups: Seq<DuplicateGroupSummary>,
    filter: TableFilter,
    i: int,
    j: int,
)
    requires
        0 <= i < j < all_tiles(groups, filter).len(),
    ensures
        ({
            let tiles = all_tiles(groups, filter);
            let at = tiles[j].group_index;
            &&& 1 <= tiles[i].group_index < at <= groups.len()
            &&& passes_filter(groups[at - 1], filter)
            &&& groups[at - 1].files@.len() >= 2
        }),
    decreases groups.len(),
{
    let tiles = all_tiles(groups, filter);
    let before = all_tiles(groups.drop_last(), filter);
    tiles_have_duplicates(groups, filter);
    tiles_have_duplicates(groups.drop_last(), filter);
    if j < before.len() {
        tiles_stand_for_duplicate_groups(groups.drop_last(), filter, i, j);
        assert(tiles[i] == before[i] && tiles[j] == before[j]);
    } else {
        assert(tiles[i] == before[i]);
    }
}

/// While there are at most `MAX_TILES` tiles all of them are drawn, each once; where there are more,
/// that many are drawn, and none is left out that frees more than one that is drawn.
pub proof fn tiles_are_drawn(groups: Seq<DuplicateGroupSummary>, filter: TableFilter, k: int)
    requires
        groups.len() <= usize::MAX,
        0 <= k < all_tiles(groups, filter).len(),
    ensures
        ({
            let tiles = all_tiles(groups, filter);
            let drawn = drawn_tiles(groups, filter);
            &&& drawn.len() == (if tiles.len() <= 256 {
                tiles.len()
            } else {
                256
            })
            &&& drawn.contains(tiles[k]) || (tiles.len() > 256 && forall|i: int|
                0 <= i < drawn.len() ==> (#[trigger] drawn[i]).savings >= tiles[k].savings)
        }),
{
    let tiles = all_tiles(groups, filter);
    let keys = tile_keys(tiles);
    let order = stable_order_of(keys);
    let sorted = ordered(tiles, keys);
    let drawn = drawn_tiles(groups, filter);
    tiles_have_duplicates(groups, filter);
    stable_order_exists(keys);
    stable_order_names_every_place(keys, order, k as usize);
    let at = choose|at: int| 0 <= at < order.len() && order[at] == k as usize;
    assert(sorted[at] == tiles[k]);
    if at < drawn.len() {
        assert(drawn[at] == tiles[k]);
    } else {
        assert forall|i: int| 0 <= i < drawn.len() implies (#[trigger] drawn[i]).savings
            >= tiles[k].savings by {
            assert(comes_before(keys, order[i], order[at]));
            assert(order[i] < keys.len());
            assert(drawn[i] == tiles[order[i] as int]);
        }
    }
}

/// The first file of a group is the one that is kept, and every other one is a duplicate.
pub proof fn only_the_first_file_is_kept(i: int)
    ensures
        i == 0 ==> file_tag(i) == "keep "@,
        i != 0 ==> file_tag(i) == "dupe "@,
{
}

/// A tile tells how many files it has and the name of the first one, cut to 24 characters.
pub proof fn tiles_tell_their_name(platform: Platform, tile: TileContents, name: Seq<char>)
    requires
        tile.files.len() > 0,
        final_name(platform, tile.files[0]) == Some(name),
        name.len() > 0,
    ensures
        name_line(platform, tile) == Some("×"@ + decimal(tile.count) + "  "@ + cut_right(name, 24)),
{
}

/// One tile that frees something is enough, whichever it is; and where none does, nothing is freed.
pub proof fn one_tile_is_enough(tiles: Seq<TileContents>, k: int)
    ensures
        0 <= k < tiles.len() && tiles[k].savings > 0 ==> frees_something(tiles),
        (forall|i: int| 0 <= i < tiles.len() ==> (#[trigger] tiles[i]).savings == 0)
            ==> !frees_something(tiles),
{
}

} // verus!
