//! The badge wall: the achievement catalog as a grid of tiles, with the grants of the install's
//! profile on it.
use vstd::prelude::*;

use crate::leaderboard::catalog::{CatalogEntry, CatalogState, ProfileGrant};
use crate::leaderboard::oauth::{
    provider_name, AccountStatus, OauthToast, Provider, SessionSnapshot,
};
use crate::sizes::{format_size, human_size};
use crate::sort::{
    comes_before, is_stable_order, ordered, stable_order, stable_order_exists,
    stable_order_names_every_place, stable_order_of,
};
use crate::text::{
    cat2, cat3, cat4, cat5, chars_of, decimal, decimal_string, find_chars, find_from, joined,
    last_place, last_place_of, last_places_are_last, same_text, searches_find_the_first_place, text_of,
    texts,
};

verus! {

/// The window width, in points, below which the wall gives way to the mini widget.
pub const NARROW_MODE_BREAKPOINT: u32 = 900;

/// The tiles in one row of the grid.
pub const COLUMNS: usize = 3;

/// What a click on the badge wall asks for.
#[derive(Clone, Debug)]
pub enum BadgeWallAction {
    /// Show the details of the achievement with this id.
    TileClicked(String),
    /// Open the profile page.
    OpenProfile,
    /// Open the settings where the install is registered.
    OpenRegister,
}

/// A short form of an achievement name: what follows the first `": "`, else what precedes the
/// first `" ("`, else the whole name.
pub open spec fn shortened(name: Seq<char>) -> Seq<char> {
    match find_from(name, ": "@, 0) {
        Some(at) => name.skip(at + 2),
        None => match find_from(name, " ("@, 0) {
            Some(at) => name.take(at),
            None => name,
        },
    }
}

/// A short form of an achievement name: without a prefix that ends in a colon, else without what
/// follows in brackets.
pub fn short_name(name: &str) -> (r: String)
    ensures
        r@ == shortened(name@),
{
    proof {
        reveal_strlit(": ");
        assert(": "@.len() == 2);
    }
    let v = chars_of(name);
    let colon = chars_of(": ");
    let bracket = chars_of(" (");
    if let Some(at) = find_chars(&v, &colon) {
        assert(at + 2 <= v.len());
        let r = text_of(&v, at + 2, v.len());
        assert(v@.subrange(at + 2, v.len() as int) =~= name@.skip(at + 2));
        return r;
    }
    if let Some(at) = find_chars(&v, &bracket) {
        let r = text_of(&v, 0, at);
        assert(v@.subrange(0, at as int) =~= name@.take(at as int));
        return r;
    }
    name.to_owned()
}

/// One tile of the grid.
#[derive(Clone, Debug)]
pub struct GridTile<'a> {
    pub entry: &'a CatalogEntry,
    pub granted: bool,
    /// The achievement belongs to a feature that has not shipped: it cannot be granted yet.
    pub locked: bool,
    /// The years a yearly achievement was granted in, ascending.
    pub granted_years: Vec<u16>,
}

/// Whether the achievement belongs to the scheduled network-storage features.
pub open spec fn nas_pro_locked(id: Seq<char>) -> bool {
    ||| id == "schedule-master"@
    ||| id == "polite-citizen"@
    ||| id == "multi-share-maestro"@
    ||| id == "snapshot-sage"@
    ||| id == "email-report-veteran"@
}

/// Whether the achievement belongs to the scheduled network-storage features, which have not
/// shipped.
pub fn is_nas_pro_locked(id: &str) -> (r: bool)
    ensures
        r == nas_pro_locked(id@),
{
    same_text(id, "schedule-master") || same_text(id, "polite-citizen") || same_text(
        id,
        "multi-share-maestro",
    ) || same_text(id, "snapshot-sage") || same_text(id, "email-report-veteran")
}

/// Whether the character is a decimal digit.
pub open spec fn is_digit(c: char) -> bool {
    '0' <= c && c <= '9'
}

/// The number that a string of decimal digits stands for.
pub open spec fn digits_value(s: Seq<char>) -> int
    decreases s.len(),
{
    if s.len() == 0 {
        0
    } else {
        digits_value(s.drop_last()) * 10 + (s.last() as int - '0' as int)
    }
}

/// The number below 65536 that a string of decimal digits stands for.
pub open spec fn digits_year(digits: Seq<char>) -> Option<u16> {
    if digits.len() > 0 && (forall|i: int| 0 <= i < digits.len() ==> is_digit(#[trigger] digits[i]))
        && digits_value(digits) <= u16::MAX {
        Some(digits_value(digits) as u16)
    } else {
        None
    }
}

/// The year that a suffix names: decimal digits, with or without a plus sign before them, for a
/// number below 65536.
pub open spec fn year_of(s: Seq<char>) -> Option<u16> {
    if s.len() > 0 && s[0] == '+' {
        digits_year(s.skip(1))
    } else {
        digits_year(s)
    }
}

fn parse_year(v: &Vec<char>, from: usize) -> (r: Option<u16>)
    requires
        from <= v.len(),
    ensures
        r == year_of(v@.skip(from as int)),
{
    let ghost s = v@.skip(from as int);
    let start: usize = if from < v.len() && v[from] == '+' {
        from + 1
    } else {
        from
    };
    let ghost digits = v@.skip(start as int);
    assert(s.len() > 0 && s[0] == '+' ==> s.skip(1) =~= digits);
    assert(year_of(s) == digits_year(digits));
    if start == v.len() {
        return None;
    }
    let mut value: u32 = 0;
    let mut i: usize = start;
    assert(digits.take(0) =~= Seq::<char>::empty());
    while i < v.len()
        invariant
            start <= i <= v.len(),
            digits == v@.skip(start as int),
            year_of(v@.skip(from as int)) == digits_year(digits),
            forall|k: int| 0 <= k < i - start ==> is_digit(#[trigger] digits[k]),
            value <= u16::MAX ==> value == digits_value(digits.take(i - start)),
            value > u16::MAX ==> digits_value(digits.take(i - start)) > u16::MAX,
            value <= 0xa_0000,
        decreases v.len() - i,
    {
        let c = v[i];
        assert(digits[i - start] == c);
        if c < '0' || c > '9' {
            assert(!is_digit(digits[i - start]));
            return None;
        }
        assert(digits.take(i - start + 1).drop_last() =~= digits.take(i - start));
        assert(digits.take(i - start + 1).last() == c);
        if value <= 0xffff {
            value = value * 10 + (c as u32 - '0' as u32);
        }
        i = i + 1;
    }
    assert(digits.take(i - start) =~= digits);
    if value <= 0xffff {
        Some(value as u16)
    } else {
        None
    }
}

/// What a grant row is about: the catalog id, and the year where the row's id carries one. An id
/// carries a year where it holds one `#`, with something before it and a number behind it.
pub open spec fn grant_key(id: Seq<char>) -> (Seq<char>, Option<u16>) {
    let at = last_place(id, '#');
    if at > 0 && last_place(id.take(at), '#') == -1 && year_of(id.skip(at + 1)) is Some {
        (id.take(at), year_of(id.skip(at + 1)))
    } else {
        (id, None)
    }
}

/// Splits a grant id into the catalog id and the year it carries, if any. An id with a malformed
/// suffix is a plain id.
pub fn parse_grant_id(id: &str) -> (r: (String, Option<u16>))
    ensures
        (r.0@, r.1) == grant_key(id@),
{
    let v = chars_of(id);
    assert(v@.take(v.len() as int) =~= v@);
    if let Some(at) = last_place_of(&v, v.len(), '#') {
        if at > 0 {
            if last_place_of(&v, at, '#').is_none() {
                if let Some(year) = parse_year(&v, at + 1) {
                    let base = text_of(&v, 0, at);
                    assert(v@.subrange(0, at as int) =~= v@.take(at as int));
                    return (base, Some(year));
                }
            }
        }
    }
    (id.to_owned(), None)
}

/// A grant row as the wall reads it.
pub struct GrantRow {
    pub key: (Seq<char>, Option<u16>),
    pub granted: bool,
}

/// The grant rows as the wall reads them.
pub open spec fn grant_rows(grants: Seq<ProfileGrant>) -> Seq<GrantRow> {
    grants.map_values(
        |g: ProfileGrant| GrantRow { key: grant_key(g.achievement_id@), granted: g.granted },
    )
}

/// The rows of the profile, where it was fetched.
pub open spec fn rows_of(state: CatalogState) -> Seq<GrantRow> {
    match state.profile {
        Some(Ok(profile)) => grant_rows(profile.achievements@),
        _ => Seq::empty(),
    }
}

/// What the last row without a year says of the achievement.
pub open spec fn plain_grant(rows: Seq<GrantRow>, id: Seq<char>) -> bool
    decreases rows.len(),
{
    if rows.len() == 0 {
        false
    } else if rows.last().key == (id, None::<u16>) {
        rows.last().granted
    } else {
        plain_grant(rows.drop_last(), id)
    }
}

/// The ascending years with one more in its place; a year that is there already is not added.
pub open spec fn with_year(years: Seq<u16>, year: u16) -> Seq<u16>
    decreases years.len(),
{
    if years.len() == 0 {
        seq![year]
    } else if years.last() < year {
        years.push(year)
    } else if years.last() == year {
        years
    } else {
        with_year(years.drop_last(), year).push(years.last())
    }
}

/// The years the achievement was granted in, ascending.
pub open spec fn years_granted(rows: Seq<GrantRow>, id: Seq<char>) -> Seq<u16>
    decreases rows.len(),
{
    if rows.len() == 0 {
        Seq::empty()
    } else {
        let before = years_granted(rows.drop_last(), id);
        let row = rows.last();
        if row.granted && row.key.0 == id && row.key.1 is Some {
            with_year(before, row.key.1->0)
        } else {
            before
        }
    }
}

fn add_year(years: &mut Vec<u16>, year: u16)
    ensures
        final(years)@ == with_year(old(years)@, year),
{
    let ghost all = years@;
    let mut k: usize = years.len();
    assert(all.take(k as int) =~= all);
    assert(all.skip(k as int) =~= Seq::<u16>::empty());
    assert(with_year(all, year) =~= with_year(all.take(k as int), year) + all.skip(k as int));
    while k > 0 && years[k - 1] > year
        invariant
            k <= years.len(),
            years@ == all,
            with_year(all, year) == with_year(all.take(k as int), year) + all.skip(k as int),
        decreases k,
    {
        assert(all.take(k as int).drop_last() =~= all.take(k - 1));
        assert(with_year(all.take(k as int), year) == with_year(all.take(k - 1), year).push(
            all[k - 1],
        ));
        k = k - 1;
        assert(with_year(all.take(k + 1), year) + all.skip(k + 1) =~= with_year(
            all.take(k as int),
            year,
        ) + all.skip(k as int));
    }
    if k > 0 && years[k - 1] == year {
        assert(with_year(all.take(k as int), year) =~= all.take(k as int));
        assert(all.take(k as int) + all.skip(k as int) =~= all);
    } else {
        years.insert(k, year);
        assert(with_year(all.take(k as int), year) =~= all.take(k as int).push(year));
        assert(years@ =~= all.take(k as int).push(year) + all.skip(k as int));
    }
}

/// A grant row with its id split.
struct SplitRow {
    base: String,
    year: Option<u16>,
    granted: bool,
}

spec fn split_views(rows: Seq<SplitRow>) -> Seq<GrantRow> {
    rows.map_values(|r: SplitRow| GrantRow { key: (r.base@, r.year), granted: r.granted })
}

fn split_rows(grants: &Vec<ProfileGrant>) -> (r: Vec<SplitRow>)
    ensures
        split_views(r@) == grant_rows(grants@),
{
    let mut r: Vec<SplitRow> = Vec::new();
    let mut i: usize = 0;
    while i < grants.len()
        invariant
            i <= grants.len(),
            split_views(r@) =~= grant_rows(grants@).take(i as int),
        decreases grants.len() - i,
    {
        let (base, year) = parse_grant_id(grants[i].achievement_id.as_str());
        let ghost before = r@;
        r.push(SplitRow { base, year, granted: grants[i].granted });
        assert(split_views(r@) =~= split_views(before).push(grant_rows(grants@)[i as int]));
        i = i + 1;
    }
    r
}

/// What the rows say of one achievement: its plain grant and its years.
fn grants_of(rows: &Vec<SplitRow>, id: &str) -> (r: (bool, Vec<u16>))
    ensures
        r.0 == plain_grant(split_views(rows@), id@),
        r.1@ == years_granted(split_views(rows@), id@),
{
    let ghost all = split_views(rows@);
    let mut plain = false;
    let mut years: Vec<u16> = Vec::new();
    let mut i: usize = 0;
    while i < rows.len()
        invariant
            i <= rows.len(),
            all == split_views(rows@),
            plain == plain_grant(all.take(i as int), id@),
            years@ == years_granted(all.take(i as int), id@),
        decreases rows.len() - i,
    {
        assert(all.take(i + 1).drop_last() =~= all.take(i as int));
        assert(all.take(i + 1).last() == all[i as int]);
        if same_text(rows[i].base.as_str(), id) {
            match rows[i].year {
                Some(year) => {
                    if rows[i].granted {
                        add_year(&mut years, year);
                    }
                },
                None => {
                    plain = rows[i].granted;
                },
            }
        }
        i = i + 1;
    }
    assert(all.take(i as int) =~= all);
    (plain, years)
}

/// What a tile shows of its achievement.
pub struct TileFlags {
    pub granted: bool,
    pub locked: bool,
    pub years: Seq<u16>,
}

/// What the tile of an achievement shows, given the profile's rows.
pub open spec fn tile_flags(rows: Seq<GrantRow>, id: Seq<char>) -> TileFlags {
    if nas_pro_locked(id) {
        TileFlags { granted: false, locked: true, years: Seq::empty() }
    } else {
        let years = years_granted(rows, id);
        TileFlags { granted: years.len() > 0 || plain_grant(rows, id), locked: false, years }
    }
}

/// The place of a tile: granted tiles, then those that can still be earned, then locked ones, and
/// in each of the three by the catalog's own order.
pub open spec fn tile_key(flags: TileFlags, display_order: i32) -> i128 {
    let bucket: int = if flags.granted {
        0
    } else if flags.locked {
        2
    } else {
        1
    };
    (bucket * 0x2_0000_0000 + display_order) as i128
}

/// The keys of the entries' tiles.
pub open spec fn tile_keys(rows: Seq<GrantRow>, entries: Seq<CatalogEntry>) -> Seq<i128> {
    entries.map_values(|e: CatalogEntry| tile_key(tile_flags(rows, e.id@), e.display_order))
}

/// Whether the tile is that of the entry.
pub open spec fn is_tile_of(tile: GridTile, rows: Seq<GrantRow>, entry: CatalogEntry) -> bool {
    let flags = tile_flags(rows, entry.id@);
    &&& *tile.entry == entry
    &&& tile.granted == flags.granted
    &&& tile.locked == flags.locked
    &&& tile.granted_years@ == flags.years
}

fn tile_for<'a>(rows: &Vec<SplitRow>, entry: &'a CatalogEntry) -> (r: GridTile<'a>)
    ensures
        is_tile_of(r, split_views(rows@), *entry),
{
    let locked = is_nas_pro_locked(entry.id.as_str());
    if locked {
        GridTile { entry, granted: false, locked, granted_years: Vec::new() }
    } else {
        let (plain, granted_years) = grants_of(rows, entry.id.as_str());
        let granted = granted_years.len() > 0 || plain;
        GridTile { entry, granted, locked, granted_years }
    }
}

/// The tiles of the grid, one for each entry, in the order they are drawn: granted first, then
/// the ones still to be earned, then locked ones, and by `display_order` among equals. Entries
/// that agree in all of that keep their order.
pub fn classify_grid_entries<'a>(state: &CatalogState, catalog_entries: &'a Vec<CatalogEntry>) -> (r:
    Vec<GridTile<'a>>)
    ensures
        r.len() == catalog_entries.len(),
        ({
            let rows = rows_of(*state);
            let in_order = ordered(catalog_entries@, tile_keys(rows, catalog_entries@));
            forall|i: int| 0 <= i < r.len() ==> is_tile_of(#[trigger] r[i], rows, in_order[i])
        }),
{
    let rows = match &state.profile {
        Some(Ok(profile)) => split_rows(&profile.achievements),
        _ => Vec::new(),
    };
    let ghost seen = rows_of(*state);
    assert(split_views(rows@) =~= seen);
    let ghost keys_all = tile_keys(seen, catalog_entries@);
    let mut keys: Vec<i128> = Vec::new();
    let mut i: usize = 0;
    while i < catalog_entries.len()
        invariant
            i <= catalog_entries.len(),
            split_views(rows@) == seen,
            keys_all == tile_keys(seen, catalog_entries@),
            keys@ =~= keys_all.take(i as int),
        decreases catalog_entries.len() - i,
    {
        let tile = tile_for(&rows, &catalog_entries[i]);
        let bucket: i128 = if tile.granted {
            0
        } else if tile.locked {
            2
        } else {
            1
        };
        let key: i128 = bucket * 0x2_0000_0000 + tile.entry.display_order as i128;
        assert(key == keys_all[i as int]);
        keys.push(key);
        i = i + 1;
    }
    assert(keys@ =~= keys_all);
    let order = stable_order(&keys);
    let mut r: Vec<GridTile<'a>> = Vec::new();
    let mut j: usize = 0;
    while j < order.len()
        invariant
            j <= order.len(),
            order.len() == catalog_entries.len(),
            r.len() == j,
            is_stable_order(keys_all, order@),
            keys_all.len() == catalog_entries.len(),
            order@ == stable_order_of(keys_all),
            split_views(rows@) == seen,
            forall|k: int|
                0 <= k < j ==> is_tile_of(
                    #[trigger] r[k],
                    seen,
                    ordered(catalog_entries@, keys_all)[k],
                ),
        decreases order.len() - j,
    {
        let place: usize = order[j];
        assert(ordered(catalog_entries@, keys_all)[j as int] == catalog_entries@[place as int]);
        r.push(tile_for(&rows, &catalog_entries[place]));
        j = j + 1;
    }
    r
}

/// The catalog ids with a grant, each once.
pub open spec fn granted_bases(rows: Seq<GrantRow>) -> Seq<Seq<char>>
    decreases rows.len(),
{
    if rows.len() == 0 {
        Seq::empty()
    } else {
        let before = granted_bases(rows.drop_last());
        if rows.last().granted && !before.contains(rows.last().key.0) {
            before.push(rows.last().key.0)
        } else {
            before
        }
    }
}

fn has_text(list: &Vec<String>, text: &str) -> (r: bool)
    ensures
        r == texts(list@).contains(text@),
{
    let ghost all = texts(list@);
    let mut i: usize = 0;
    while i < list.len()
        invariant
            i <= list.len(),
            all == texts(list@),
            forall|k: int| 0 <= k < i ==> all[k] != text@,
        decreases list.len() - i,
    {
        if same_text(list[i].as_str(), text) {
            assert(all[i as int] == text@);
            return true;
        }
        i = i + 1;
    }
    false
}

/// How many entries the catalog has, where it was fetched.
pub open spec fn catalog_len(state: CatalogState) -> nat {
    match state.catalog {
        Some(Ok(catalog)) => catalog.achievements@.len(),
        _ => 0,
    }
}

/// How many achievements are granted, and how many there are. The years of a yearly achievement
/// count once.
pub fn count_grants(state: &CatalogState) -> (r: (u32, u32))
    ensures
        r.0 == granted_bases(rows_of(*state)).len() as u32,
        r.1 == catalog_len(*state) as u32,
{
    let total: u32 = match &state.catalog {
        Some(Ok(catalog)) => catalog.achievements.len() as u32,
        _ => 0,
    };
    let granted: u32 = match &state.profile {
        Some(Ok(profile)) => {
            let rows = split_rows(&profile.achievements);
            let ghost all = split_views(rows@);
            let mut bases: Vec<String> = Vec::new();
            let mut i: usize = 0;
            assert(texts(bases@) =~= granted_bases(all.take(0)));
            while i < rows.len()
                invariant
                    i <= rows.len(),
                    all == split_views(rows@),
                    texts(bases@) == granted_bases(all.take(i as int)),
                decreases rows.len() - i,
            {
                assert(all.take(i + 1).drop_last() =~= all.take(i as int));
                assert(all.take(i + 1).last() == all[i as int]);
                if rows[i].granted && !has_text(&bases, rows[i].base.as_str()) {
                    let ghost before = bases@;
                    bases.push(rows[i].base.clone());
                    assert(texts(bases@) =~= texts(before).push(
                        rows[i as int].base@,
                    ));
                }
                i = i + 1;
            }
            assert(all.take(i as int) =~= all);
            assert(texts(bases@).len() == bases.len());
            bases.len() as u32
        },
        _ => 0,
    };
    (granted, total)
}

/// The bytes the install has reclaimed, or 0 where the profile was not fetched.
pub open spec fn reclaimed_bytes(state: CatalogState) -> u64 {
    match state.profile {
        Some(Ok(profile)) => profile.lifetime.bytes_reclaimed,
        _ => 0,
    }
}

/// The bytes the install has reclaimed over its lifetime, as people read them.
pub fn lifetime_reclaimed_human(state: &CatalogState) -> (r: String)
    ensures
        r@ == human_size(reclaimed_bytes(*state)),
{
    let bytes: u64 = match &state.profile {
        Some(Ok(profile)) => profile.lifetime_reclaimed_bytes(),
        _ => 0,
    };
    format_size(bytes)
}

/// The headline above the grid: granted and known achievements, or the granted ones alone while
/// the catalog is empty.
pub open spec fn badges_text(granted: u32, total: u32) -> Seq<char> {
    if total == 0 {
        decimal(granted as nat) + " badges"@
    } else {
        decimal(granted as nat) + " / "@ + decimal(total as nat) + " badges"@
    }
}

/// The headline above the grid.
pub fn badges_line(granted: u32, total: u32) -> (r: String)
    ensures
        r@ == badges_text(granted, total),
{
    let have = decimal_string(granted as u64);
    if total == 0 {
        cat2(have.as_str(), " badges")
    } else {
        let all = decimal_string(total as u64);
        cat4(have.as_str(), " / ", all.as_str(), " badges")
    }
}

/// The two lines above the grid, and in the mini widget.
pub struct WallHeader {
    /// The bytes reclaimed over the install's lifetime.
    pub lifetime: String,
    /// The count of badges.
    pub badges: String,
}

/// The lines above the grid, which the mini widget shows too.
pub fn wall_header(state: &CatalogState) -> (r: WallHeader)
    ensures
        r.lifetime@ == human_size(reclaimed_bytes(*state)),
        r.badges@ == badges_text(
            granted_bases(rows_of(*state)).len() as u32,
            catalog_len(*state) as u32,
        ),
{
    let (granted, total) = count_grants(state);
    WallHeader { lifetime: lifetime_reclaimed_human(state), badges: badges_line(granted, total) }
}

/// The numerals of the years.
pub open spec fn year_texts(years: Seq<u16>) -> Seq<Seq<char>> {
    years.map_values(|y: u16| decimal(y as nat))
}

/// The years, with commas between them.
pub open spec fn years_text(years: Seq<u16>) -> Seq<char> {
    joined(year_texts(years), ", "@)
}

fn years_line(years: &Vec<u16>) -> (r: String)
    ensures
        r@ == years_text(years@),
{
    let ghost all = year_texts(years@);
    let mut r = String::new();
    let mut i: usize = 0;
    assert(r@ =~= joined(all.take(0), ", "@));
    while i < years.len()
        invariant
            i <= years.len(),
            all == year_texts(years@),
            r@ == joined(all.take(i as int), ", "@),
        decreases years.len() - i,
    {
        let year = decimal_string(years[i] as u64);
        assert(all.take(i + 1).drop_last() =~= all.take(i as int));
        assert(all.take(i + 1).last() == year@);
        if i == 0 {
            r = year;
        } else {
            r = cat3(r.as_str(), ", ", year.as_str());
        }
        i = i + 1;
    }
    assert(all.take(i as int) =~= all);
    r
}

/// How a tile is drawn.
#[derive(Clone, Copy, Debug, PartialEq, Eq, Structural)]
pub enum TileLook {
    /// A padlock.
    Locked,
    /// The coloured shield.
    Granted,
    /// The shield in grey.
    Ungranted,
}

/// The look that goes with the flags. A lock goes before a grant.
pub open spec fn look(granted: bool, locked: bool) -> TileLook {
    if locked {
        TileLook::Locked
    } else if granted {
        TileLook::Granted
    } else {
        TileLook::Ungranted
    }
}

/// The label on a tile's face: the short name, and the latest year where there is one.
pub open spec fn face_text(name: Seq<char>, years: Seq<u16>) -> Seq<char> {
    if years.len() == 0 {
        shortened(name)
    } else {
        shortened(name) + " "@ + decimal(years.last() as nat)
    }
}

/// What a tile tells when the pointer rests on it.
pub open spec fn tooltip_text(
    name: Seq<char>,
    description: Seq<char>,
    look: TileLook,
    years: Seq<u16>,
) -> Seq<char> {
    match look {
        TileLook::Locked => name
            + " (locked)\n\nRequires sd-nas-pro features (Phase NP1+).\n\n"@ + description,
        TileLook::Granted => if years.len() == 0 {
            name + "\n\n"@ + description
        } else {
            name + "\n\nGranted "@ + years_text(years) + "\n\n"@ + description
        },
        TileLook::Ungranted => name + " (not yet earned)\n\nUnlock: "@ + description,
    }
}

/// What a screen reader reads of a tile.
pub open spec fn access_text(name: Seq<char>, look: TileLook, years: Seq<u16>) -> Seq<char> {
    match look {
        TileLook::Locked => name + ": locked"@,
        TileLook::Granted => if years.len() == 0 {
            name + ": granted"@
        } else {
            name + ": granted "@ + years_text(years)
        },
        TileLook::Ungranted => name + ": not yet earned"@,
    }
}

/// Everything that is drawn of a tile.
pub struct TileView {
    pub look: TileLook,
    pub face: String,
    pub tooltip: String,
    pub access_label: String,
}

/// What is drawn of a tile.
pub fn tile_view(tile: &GridTile) -> (r: TileView)
    ensures
        r.look == look(tile.granted, tile.locked),
        r.face@ == face_text(tile.entry.name@, tile.granted_years@),
        r.tooltip@ == tooltip_text(
            tile.entry.name@,
            tile.entry.description@,
            r.look,
            tile.granted_years@,
        ),
        r.access_label@ == access_text(tile.entry.name@, r.look, tile.granted_years@),
{
    let name = tile.entry.name.as_str();
    let description = tile.entry.description.as_str();
    let years = &tile.granted_years;
    let short = short_name(name);
    let face = if years.len() == 0 {
        short
    } else {
        let latest = decimal_string(years[years.len() - 1] as u64);
        cat3(short.as_str(), " ", latest.as_str())
    };
    if tile.locked {
        TileView {
            look: TileLook::Locked,
            face,
            tooltip: cat3(
                name,
                " (locked)\n\nRequires sd-nas-pro features (Phase NP1+).\n\n",
                description,
            ),
            access_label: cat2(name, ": locked"),
        }
    } else if tile.granted {
        if years.len() == 0 {
            TileView {
                look: TileLook::Granted,
                face,
                tooltip: cat3(name, "\n\n", description),
                access_label: cat2(name, ": granted"),
            }
        } else {
            let listed = years_line(years);
            TileView {
                look: TileLook::Granted,
                face,
                tooltip: cat5(name, "\n\nGranted ", listed.as_str(), "\n\n", description),
                access_label: cat3(name, ": granted ", listed.as_str()),
            }
        }
    } else {
        TileView {
            look: TileLook::Ungranted,
            face,
            tooltip: cat3(name, " (not yet earned)\n\nUnlock: ", description),
            access_label: cat2(name, ": not yet earned"),
        }
    }
}

/// What the grid area holds.
pub enum GridView<'a> {
    /// The catalog is on its way: a spinner and this line.
    Loading(&'static str),
    /// The catalog could not be fetched: two lines.
    Failed(String, &'static str),
    /// The tiles, in the order they are drawn.
    Tiles(Vec<GridTile<'a>>),
}

/// What the grid area holds.
pub fn grid_view<'a>(state: &'a CatalogState) -> (r: GridView<'a>)
    ensures
        match state.catalog {
            None => r matches GridView::Loading(line) && line@ == "loading catalog…"@,
            Some(Err(e)) => (r matches GridView::Failed(line, hint) && line@
                == "catalog fetch failed: "@ + e@ && hint@ == "Retries on next app start."@),
            Some(Ok(catalog)) => (r matches GridView::Tiles(tiles) && tiles.len()
                == catalog.achievements@.len() && ({
                let rows = rows_of(*state);
                let in_order = ordered(
                    catalog.achievements@,
                    tile_keys(rows, catalog.achievements@),
                );
                forall|i: int|
                    0 <= i < tiles.len() ==> is_tile_of(#[trigger] tiles[i], rows, in_order[i])
            })),
        },
{
    match &state.catalog {
        None => GridView::Loading("loading catalog…"),
        Some(Err(e)) => GridView::Failed(
            cat2("catalog fetch failed: ", e.as_str()),
            "Retries on next app start.",
        ),
        Some(Ok(catalog)) => GridView::Tiles(
            classify_grid_entries(state, &catalog.achievements),
        ),
    }
}

/// Whether the tile at this place is the last of its row.
pub fn ends_row(place: usize) -> (r: bool)
    ensures
        r == ((place + 1) % COLUMNS as int == 0),
{
    place % COLUMNS == COLUMNS - 1
}

/// What a click on the tile asks for.
pub fn tile_action(tile: &GridTile) -> (r: BadgeWallAction)
    ensures
        r matches BadgeWallAction::TileClicked(id) && id@ == tile.entry.id@,
{
    BadgeWallAction::TileClicked(tile.entry.id.clone())
}

/// What stands between the header and the grid.
pub enum LoginCta {
    /// The install is linked: the line says to whom.
    SignedIn(Provider, String),
    /// The install is being registered: a spinner and this line.
    Registering(String),
    /// The browser is waited for: a spinner, this line, and a button to cancel.
    Waiting(String),
    /// The button that opens the provider chooser.
    Login,
}

/// The line that says who is signed in.
pub open spec fn signed_in_text(provider: Provider, display_name: Seq<char>) -> Seq<char> {
    "Signed in as "@ + display_name + " ("@ + provider_name(provider) + ")"@
}

/// The line while the install is being registered.
pub open spec fn registering_text(secs: u64) -> Seq<char> {
    "Registering machine ("@ + decimal(secs as nat) + "s)…"@
}

/// The line while the browser is waited for.
pub open spec fn waiting_text(session: SessionSnapshot) -> Seq<char> {
    "Waiting for "@ + provider_name(session.provider) + " sign-in ("@ + decimal(
        session.elapsed_secs as nat,
    ) + "s)…"@
}

/// What stands between the header and the grid. A linked account goes before a running
/// registration, and that before a running sign-in. A status that could not be read counts as
/// anonymous.
pub fn login_cta(
    status: &Option<AccountStatus>,
    registering_secs: Option<u64>,
    session: Option<SessionSnapshot>,
) -> (r: LoginCta)
    ensures
        match *status {
            Some(AccountStatus::Linked { provider, display_name }) => (r matches LoginCta::SignedIn(
                p,
                line,
            ) && p == provider && line@ == signed_in_text(provider, display_name@)),
            _ => match (registering_secs, session) {
                (Some(secs), _) => (r matches LoginCta::Registering(line) && line@
                    == registering_text(secs)),
                (None, Some(s)) => (r matches LoginCta::Waiting(line) && line@ == waiting_text(s)),
                (None, None) => r is Login,
            },
        },
{
    if let Some(AccountStatus::Linked { provider, display_name }) = status {
        return LoginCta::SignedIn(
            *provider,
            cat5("Signed in as ", display_name.as_str(), " (", provider.display_name(), ")"),
        );
    }
    if let Some(secs) = registering_secs {
        let elapsed = decimal_string(secs);
        return LoginCta::Registering(cat3("Registering machine (", elapsed.as_str(), "s)…"));
    }
    match session {
        Some(s) => {
            let elapsed = decimal_string(s.elapsed_secs);
            LoginCta::Waiting(
                cat5(
                    "Waiting for ",
                    s.provider.display_name(),
                    " sign-in (",
                    elapsed.as_str(),
                    "s)…",
                ),
            )
        },
        None => LoginCta::Login,
    }
}

/// The line that says how the last sign-in ended.
pub open spec fn toast_text(toast: OauthToast) -> Seq<char> {
    match toast {
        OauthToast::Success { provider, display_name } => "✓ Linked: "@ + display_name@ + " ("@
            + provider_name(provider) + ")"@,
        OauthToast::Failure { reason } => "⚠ Link failed: "@ + reason@,
    }
}

/// The line that says how the last sign-in ended.
pub fn oauth_toast_line(toast: &OauthToast) -> (r: String)
    ensures
        r@ == toast_text(*toast),
{
    match toast {
        OauthToast::Success { provider, display_name } => cat5(
            "✓ Linked: ",
            display_name.as_str(),
            " (",
            provider.display_name(),
            ")",
        ),
        OauthToast::Failure { reason } => cat2("⚠ Link failed: ", reason.as_str()),
    }
}

/// A locked achievement is never granted and shows no years, whatever the profile says.
pub proof fn locked_is_never_granted(rows: Seq<GrantRow>, id: Seq<char>)
    requires
        nas_pro_locked(id),
    ensures
        tile_flags(rows, id).locked,
        !tile_flags(rows, id).granted,
        tile_flags(rows, id).years.len() == 0,
{
}

/// Without a profile, or with one that could not be fetched, nothing is granted.
pub proof fn no_profile_no_grants(state: CatalogState, id: Seq<char>)
    requires
        !(state.profile matches Some(Ok(_))),
    ensures
        !tile_flags(rows_of(state), id).granted,
        granted_bases(rows_of(state)).len() == 0,
{
}

/// The tiles come granted first, then ungranted, then locked, and by the catalog's order in each.
pub proof fn tiles_are_in_order(rows: Seq<GrantRow>, entries: Seq<CatalogEntry>, i: int, j: int)
    requires
        entries.len() <= usize::MAX,
        0 <= i < j < entries.len(),
    ensures
        ({
            let tiles = ordered(entries, tile_keys(rows, entries));
            let a = tile_flags(rows, tiles[i].id@);
            let b = tile_flags(rows, tiles[j].id@);
            &&& !a.granted ==> !b.granted
            &&& a.locked ==> b.locked
            &&& a.granted == b.granted && a.locked == b.locked ==> tiles[i].display_order
                <= tiles[j].display_order
        }),
{
    let keys = tile_keys(rows, entries);
    let order = stable_order_of(keys);
    stable_order_exists(keys);
    assert(comes_before(keys, order[i], order[j]));
    assert(order[i] < keys.len() && order[j] < keys.len());
}

/// Every entry of the catalog has a tile.
pub proof fn every_entry_has_a_tile(rows: Seq<GrantRow>, entries: Seq<CatalogEntry>, at: usize)
    requires
        entries.len() <= usize::MAX,
        at < entries.len(),
    ensures
        ordered(entries, tile_keys(rows, entries)).len() == entries.len(),
        ordered(entries, tile_keys(rows, entries)).contains(entries[at as int]),
{
    let keys = tile_keys(rows, entries);
    let order = stable_order_of(keys);
    stable_order_exists(keys);
    stable_order_names_every_place(keys, order, at);
    let i = choose|i: int| 0 <= i < order.len() && order[i] == at;
    assert(ordered(entries, keys)[i] == entries[at as int]);
}

spec fn ascending(years: Seq<u16>) -> bool {
    forall|a: int, b: int| 0 <= a < b < years.len() ==> years[a] < years[b]
}

proof fn with_year_keeps_order(years: Seq<u16>, year: u16)
    requires
        ascending(years),
    ensures
        ascending(with_year(years, year)),
        forall|y: u16| #[trigger] with_year(years, year).contains(y) <==> (years.contains(y) || y == year),
    decreases years.len(),
{
    let r = with_year(years, year);
    if years.len() == 0 {
        assert(r[0] == year);
    } else if years.last() < year {
        assert(r[years.len() as int] == year);
        assert forall|y: u16| years.contains(y) implies r.contains(y) by {
            let a = choose|a: int| 0 <= a < years.len() && years[a] == y;
            assert(r[a] == y);
        }
    } else if years.last() == year {
        assert(years[years.len() - 1] == year);
    } else {
        let front = years.drop_last();
        assert forall|a: int, b: int| 0 <= a < b < front.len() implies front[a] < front[b] by {
            assert(years[a] < years[b]);
        }
        with_year_keeps_order(front, year);
        let inner = with_year(front, year);
        assert(r == inner.push(years.last()));
        assert forall|a: int| 0 <= a < inner.len() implies inner[a] < years.last() by {
            assert(inner.contains(inner[a]));
            if front.contains(inner[a]) {
                let k = choose|k: int| 0 <= k < front.len() && front[k] == inner[a];
                assert(years[k] < years[years.len() - 1]);
            }
        }
        assert forall|y: u16| r.contains(y) <==> (years.contains(y) || y == year) by {
            if r.contains(y) {
                let a = choose|a: int| 0 <= a < r.len() && r[a] == y;
                if a < inner.len() {
                    assert(inner.contains(y)) by {
                        assert(inner[a] == y);
                    }
                    if front.contains(y) {
                        let k = choose|k: int| 0 <= k < front.len() && front[k] == y;
                        assert(years[k] == y);
                    }
                } else {
                    assert(years[years.len() - 1] == y);
                }
            }
            if years.contains(y) {
                let k = choose|k: int| 0 <= k < years.len() && years[k] == y;
                if k < front.len() {
                    assert(front[k] == y);
                    assert(front.contains(y));
                    assert(inner.contains(y));
                    let a = choose|a: int| 0 <= a < inner.len() && inner[a] == y;
                    assert(r[a] == y);
                } else {
                    assert(r[inner.len() as int] == y);
                }
            }
            if y == year {
                assert(inner.contains(y));
                let a = choose|a: int| 0 <= a < inner.len() && inner[a] == y;
                assert(r[a] == y);
            }
        }
    }
}

/// The years of an achievement ascend without repetition, and are the years of its granted rows.
pub proof fn years_are_the_granted_ones(rows: Seq<GrantRow>, id: Seq<char>)
    ensures
        forall|a: int, b: int|
            0 <= a < b < years_granted(rows, id).len() ==> years_granted(rows, id)[a]
                < years_granted(rows, id)[b],
        forall|y: u16| #[trigger]
            years_granted(rows, id).contains(y) <==> exists|k: int|
                0 <= k < rows.len() && (#[trigger] rows[k]).granted && rows[k].key == (id, Some(y)),
    decreases rows.len(),
{
    if rows.len() > 0 {
        let front = rows.drop_last();
        years_are_the_granted_ones(front, id);
        let before = years_granted(front, id);
        let row = rows.last();
        if row.granted && row.key.0 == id && row.key.1 is Some {
            with_year_keeps_order(before, row.key.1->0);
        }
        assert forall|y: u16|
            years_granted(rows, id).contains(y) <==> exists|k: int|
                0 <= k < rows.len() && (#[trigger] rows[k]).granted && rows[k].key == (
                    id,
                    Some(y),
                ) by {
            if years_granted(rows, id).contains(y) {
                if before.contains(y) {
                    let k = choose|k: int|
                        0 <= k < front.len() && (#[trigger] front[k]).granted && front[k].key == (
                            id,
                            Some(y),
                        );
                    assert(rows[k].granted && rows[k].key == (id, Some(y)));
                } else {
                    assert(rows[rows.len() - 1].granted && rows[rows.len() - 1].key == (
                        id,
                        Some(y),
                    ));
                }
            }
            if exists|k: int|
                0 <= k < rows.len() && (#[trigger] rows[k]).granted && rows[k].key == (
                    id,
                    Some(y),
                ) {
                let k = choose|k: int|
                    0 <= k < rows.len() && (#[trigger] rows[k]).granted && rows[k].key == (
                        id,
                        Some(y),
                    );
                if k < front.len() {
                    assert(front[k].granted && front[k].key == (id, Some(y)));
                    assert(before.contains(y));
                } else {
                    assert(row.key.1 == Some(y));
                    assert(with_year(before, y).contains(y));
                }
            }
        }
    }
}

/// The count of badges counts each granted achievement once.
pub proof fn granted_bases_are_distinct(rows: Seq<GrantRow>)
    ensures
        granted_bases(rows).no_duplicates(),
        forall|id: Seq<char>|
            granted_bases(rows).contains(id) <==> exists|k: int|
                0 <= k < rows.len() && (#[trigger] rows[k]).granted && rows[k].key.0 == id,
    decreases rows.len(),
{
    if rows.len() > 0 {
        let front = rows.drop_last();
        granted_bases_are_distinct(front);
        let before = granted_bases(front);
        let after = granted_bases(rows);
        let row = rows.last();
        assert(rows[rows.len() - 1] == row);
        assert forall|id: Seq<char>|
            after.contains(id) <==> exists|k: int|
                0 <= k < rows.len() && (#[trigger] rows[k]).granted && rows[k].key.0 == id by {
            if after.contains(id) {
                if before.contains(id) {
                    let k = choose|k: int|
                        0 <= k < front.len() && (#[trigger] front[k]).granted && front[k].key.0
                            == id;
                    assert(rows[k].granted && rows[k].key.0 == id);
                } else {
                    let a = choose|a: int| 0 <= a < after.len() && after[a] == id;
                    if a < before.len() {
                        assert(before[a] == id);
                    }
                    assert(rows[rows.len() - 1].granted && rows[rows.len() - 1].key.0 == id);
                }
            }
            if exists|k: int|
                0 <= k < rows.len() && (#[trigger] rows[k]).granted && rows[k].key.0 == id {
                let k = choose|k: int|
                    0 <= k < rows.len() && (#[trigger] rows[k]).granted && rows[k].key.0 == id;
                if k < front.len() {
                    assert(front[k].granted && front[k].key.0 == id);
                    assert(before.contains(id));
                    let a = choose|a: int| 0 <= a < before.len() && before[a] == id;
                    assert(after[a] == id);
                } else if before.contains(id) {
                    let a = choose|a: int| 0 <= a < before.len() && before[a] == id;
                    assert(after[a] == id);
                } else {
                    assert(after[before.len() as int] == id);
                }
            }
        }
    }
}

/// How many of the tiles are granted.
pub open spec fn granted_among(tiles: Seq<GridTile>) -> nat
    decreases tiles.len(),
{
    if tiles.len() == 0 {
        0
    } else {
        granted_among(tiles.drop_last()) + (if tiles.last().granted {
            1nat
        } else {
            0nat
        })
    }
}

/// Whether a catalog and a profile match: no id stands twice in the catalog, every granted row is
/// of an achievement in it that can be granted, and no two rows without a year are of the same
/// achievement.
pub open spec fn profile_matches(rows: Seq<GrantRow>, entries: Seq<CatalogEntry>) -> bool {
    &&& forall|a: int, b: int|
        0 <= a < b < entries.len() ==> (#[trigger] entries[a]).id@ != (#[trigger] entries[b]).id@
    &&& forall|k: int|
        0 <= k < rows.len() && (#[trigger] rows[k]).granted ==> !nas_pro_locked(rows[k].key.0)
            && exists|a: int| 0 <= a < entries.len() && (#[trigger] entries[a]).id@ == rows[k].key.0
    &&& plain_rows_are_distinct(rows)
}

/// Whether no two rows without a year are of the same achievement.
pub open spec fn plain_rows_are_distinct(rows: Seq<GrantRow>) -> bool {
    forall|a: int, b: int|
        0 <= a < b < rows.len() && (#[trigger] rows[a]).key.1 is None && (#[trigger] rows[b]).key.1
            is None ==> rows[a].key.0 != rows[b].key.0
}

proof fn plain_grant_is_a_granted_row(rows: Seq<GrantRow>, id: Seq<char>)
    ensures
        plain_grant(rows, id) ==> exists|k: int|
            0 <= k < rows.len() && (#[trigger] rows[k]).granted && rows[k].key == (id, None::<u16>),
        plain_rows_are_distinct(rows) && (exists|k: int|
            0 <= k < rows.len() && (#[trigger] rows[k]).granted && rows[k].key == (id, None::<u16>))
            ==> plain_grant(rows, id),
    decreases rows.len(),
{
    if rows.len() > 0 {
        let front = rows.drop_last();
        let last = rows.len() - 1;
        plain_grant_is_a_granted_row(front, id);
        if plain_grant(rows, id) {
            if rows.last().key == (id, None::<u16>) {
                assert(rows[last].granted && rows[last].key == (id, None::<u16>));
            } else {
                let k = choose|k: int|
                    0 <= k < front.len() && (#[trigger] front[k]).granted && front[k].key == (
                        id,
                        None::<u16>,
                    );
                assert(rows[k].granted && rows[k].key == (id, None::<u16>));
            }
        }
        if plain_rows_are_distinct(rows) && exists|k: int|
            0 <= k < rows.len() && (#[trigger] rows[k]).granted && rows[k].key == (
                id,
                None::<u16>,
            ) {
            let k = choose|k: int|
                0 <= k < rows.len() && (#[trigger] rows[k]).granted && rows[k].key == (
                    id,
                    None::<u16>,
                );
            assert(plain_rows_are_distinct(front)) by {
                assert forall|a: int, b: int|
                    0 <= a < b < front.len() && (#[trigger] front[a]).key.1 is None && (
                    #[trigger] front[b]).key.1 is None implies front[a].key.0 != front[b].key.0 by {
                    assert(rows[a] == front[a] && rows[b] == front[b]);
                }
            }
            if k < last {
                assert(front[k].granted && front[k].key == (id, None::<u16>));
                if rows.last().key == (id, None::<u16>) {
                    assert(rows[last].key.1 is None && rows[k].key.1 is None);
                }
            }
        }
    }
}

proof fn granted_tiles_have_granted_rows(rows: Seq<GrantRow>, entries: Seq<CatalogEntry>, id: Seq<char>)
    requires
        profile_matches(rows, entries),
    ensures
        tile_flags(rows, id).granted <==> granted_bases(rows).contains(id),
{
    granted_bases_are_distinct(rows);
    plain_grant_is_a_granted_row(rows, id);
    years_are_the_granted_ones(rows, id);
    let years = years_granted(rows, id);
    if tile_flags(rows, id).granted {
        if years.len() > 0 {
            assert(years.contains(years[0]));
            let k = choose|k: int|
                0 <= k < rows.len() && (#[trigger] rows[k]).granted && rows[k].key == (
                    id,
                    Some(years[0]),
                );
            assert(rows[k].granted && rows[k].key.0 == id);
        } else {
            let k = choose|k: int|
                0 <= k < rows.len() && (#[trigger] rows[k]).granted && rows[k].key == (
                    id,
                    None::<u16>,
                );
            assert(rows[k].granted && rows[k].key.0 == id);
        }
    }
    if granted_bases(rows).contains(id) {
        let k = choose|k: int|
            0 <= k < rows.len() && (#[trigger] rows[k]).granted && rows[k].key.0 == id;
        assert(!nas_pro_locked(rows[k].key.0));
        match rows[k].key.1 {
            Some(y) => {
                assert(rows[k].granted && rows[k].key == (id, Some(y)));
                assert(years.contains(y));
            },
            None => {
                assert(rows[k].granted && rows[k].key == (id, None::<u16>));
            },
        }
    }
}

spec fn granted_ids(tiles: Seq<GridTile>) -> Seq<Seq<char>>
    decreases tiles.len(),
{
    if tiles.len() == 0 {
        Seq::empty()
    } else {
        let before = granted_ids(tiles.drop_last());
        if tiles.last().granted {
            before.push(tiles.last().entry.id@)
        } else {
            before
        }
    }
}

proof fn granted_ids_are_distinct(tiles: Seq<GridTile>)
    requires
        forall|a: int, b: int|
            0 <= a < b < tiles.len() ==> (#[trigger] tiles[a]).entry.id@ != (
            #[trigger] tiles[b]).entry.id@,
    ensures
        granted_ids(tiles).len() == granted_among(tiles),
        granted_ids(tiles).no_duplicates(),
        forall|id: Seq<char>| #[trigger]
            granted_ids(tiles).contains(id) <==> exists|k: int|
                0 <= k < tiles.len() && (#[trigger] tiles[k]).granted && tiles[k].entry.id@ == id,
    decreases tiles.len(),
{
    if tiles.len() > 0 {
        let front = tiles.drop_last();
        let last = tiles.len() - 1;
        assert forall|a: int, b: int| 0 <= a < b < front.len() implies (
        #[trigger] front[a]).entry.id@ != (#[trigger] front[b]).entry.id@ by {
            assert(tiles[a] == front[a] && tiles[b] == front[b]);
        }
        granted_ids_are_distinct(front);
        let before = granted_ids(front);
        let after = granted_ids(tiles);
        assert(tiles[last] == tiles.last());
        assert(!before.contains(tiles.last().entry.id@)) by {
            if before.contains(tiles.last().entry.id@) {
                let k = choose|k: int|
                    0 <= k < front.len() && (#[trigger] front[k]).granted && front[k].entry.id@
                        == tiles.last().entry.id@;
                assert(tiles[k].entry.id@ != tiles[last].entry.id@);
            }
        }
        assert forall|id: Seq<char>| #[trigger] after.contains(id) <==> exists|k: int|
            0 <= k < tiles.len() && (#[trigger] tiles[k]).granted && tiles[k].entry.id@ == id by {
            if after.contains(id) {
                let a = choose|a: int| 0 <= a < after.len() && after[a] == id;
                if a < before.len() {
                    assert(before[a] == id);
                    assert(before.contains(id));
                    let k = choose|k: int|
                        0 <= k < front.len() && (#[trigger] front[k]).granted
                            && front[k].entry.id@ == id;
                    assert(tiles[k].granted && tiles[k].entry.id@ == id);
                } else {
                    assert(tiles[last].granted && tiles[last].entry.id@ == id);
                }
            }
            if exists|k: int|
                0 <= k < tiles.len() && (#[trigger] tiles[k]).granted && tiles[k].entry.id@ == id {
                let k = choose|k: int|
                    0 <= k < tiles.len() && (#[trigger] tiles[k]).granted && tiles[k].entry.id@
                        == id;
                if k < last {
                    assert(front[k].granted && front[k].entry.id@ == id);
                    assert(before.contains(id));
                    let a = choose|a: int| 0 <= a < before.len() && before[a] == id;
                    assert(after[a] == id);
                } else {
                    assert(after[before.len() as int] == id);
                }
            }
        }
        assert forall|a: int, b: int| 0 <= a < after.len() && 0 <= b < after.len() && a
            != b implies after[a] != after[b] by {
            if a < before.len() && b < before.len() {
                assert(before[a] != before[b]);
            } else if a < before.len() {
                assert(before.contains(before[a]));
            } else {
                assert(before.contains(before[b]));
            }
        }
    }
}

/// The count in the headline is the number of granted tiles, and never more than there are
/// achievements, where the profile matches the catalog. `tiles` are the tiles of the grid.
pub proof fn headline_counts_granted_tiles(
    rows: Seq<GrantRow>,
    entries: Seq<CatalogEntry>,
    tiles: Seq<GridTile>,
)
    requires
        entries.len() <= usize::MAX,
        profile_matches(rows, entries),
        tiles.len() == entries.len(),
        forall|i: int|
            0 <= i < tiles.len() ==> is_tile_of(
                #[trigger] tiles[i],
                rows,
                ordered(entries, tile_keys(rows, entries))[i],
            ),
    ensures
        granted_bases(rows).len() == granted_among(tiles),
        granted_bases(rows).len() <= entries.len(),
        entries.len() <= u32::MAX ==> granted_bases(rows).len() as u32 <= entries.len() as u32,
{
    let keys = tile_keys(rows, entries);
    let order = stable_order_of(keys);
    let sorted = ordered(entries, keys);
    stable_order_exists(keys);
    assert forall|a: int, b: int| 0 <= a < b < tiles.len() implies (#[trigger] tiles[a]).entry.id@
        != (#[trigger] tiles[b]).entry.id@ by {
        assert(is_tile_of(tiles[a], rows, sorted[a]) && is_tile_of(tiles[b], rows, sorted[b]));
        assert(comes_before(keys, order[a], order[b]));
        assert(order[a] < keys.len() && order[b] < keys.len());
        let x = order[a] as int;
        let y = order[b] as int;
        assert(x != y);
        if x < y {
            assert(entries[x].id@ != entries[y].id@);
        } else {
            assert(entries[y].id@ != entries[x].id@);
        }
    }
    granted_ids_are_distinct(tiles);
    granted_bases_are_distinct(rows);
    let ids = granted_ids(tiles);
    let bases = granted_bases(rows);
    assert forall|id: Seq<char>| ids.contains(id) == bases.contains(id) by {
        granted_tiles_have_granted_rows(rows, entries, id);
        if ids.contains(id) {
            let k = choose|k: int|
                0 <= k < tiles.len() && (#[trigger] tiles[k]).granted && tiles[k].entry.id@ == id;
            assert(is_tile_of(tiles[k], rows, sorted[k]));
        }
        if bases.contains(id) {
            let k = choose|k: int|
                0 <= k < rows.len() && (#[trigger] rows[k]).granted && rows[k].key.0 == id;
            let a = choose|a: int|
                0 <= a < entries.len() && (#[trigger] entries[a]).id@ == rows[k].key.0;
            stable_order_names_every_place(keys, order, a as usize);
            let i = choose|i: int| 0 <= i < order.len() && order[i] == a as usize;
            assert(sorted[i] == entries[a]);
            assert(is_tile_of(tiles[i], rows, sorted[i]));
            assert(tiles[i].granted && tiles[i].entry.id@ == id);
        }
    }
    assert(ids.to_set() =~= bases.to_set());
    ids.unique_seq_to_set();
    bases.unique_seq_to_set();
    granted_are_no_more(tiles);
}

proof fn granted_are_no_more(tiles: Seq<GridTile>)
    ensures
        granted_among(tiles) <= tiles.len(),
    decreases tiles.len(),
{
    if tiles.len() > 0 {
        granted_are_no_more(tiles.drop_last());
    }
}

/// A badge that was granted for a year shows on its tile, with the year; and one that was granted
/// without a year does where no later row takes it back. Only the badges that are locked here do
/// not.
pub proof fn granted_badges_show(rows: Seq<GrantRow>, id: Seq<char>, k: int)
    requires
        0 <= k < rows.len(),
        rows[k].granted,
        rows[k].key.0 == id,
        !nas_pro_locked(id),
    ensures
        rows[k].key.1 matches Some(year) ==> tile_flags(rows, id).granted && tile_flags(
            rows,
            id,
        ).years.contains(year),
        rows[k].key.1 is None && (forall|j: int|
            k < j < rows.len() ==> (#[trigger] rows[j]).key != (id, None::<u16>)) ==> tile_flags(
            rows,
            id,
        ).granted,
        !tile_flags(rows, id).locked,
{
    years_are_the_granted_ones(rows, id);
    match rows[k].key.1 {
        Some(year) => {
            assert(rows[k].key == (id, Some(year)));
            assert(years_granted(rows, id).contains(year));
        },
        None => {
            assert(rows[k].key == (id, None::<u16>));
            if forall|j: int| k < j < rows.len() ==> (#[trigger] rows[j]).key != (id, None::<u16>) {
                lemma_plain_grant(rows, id, k);
            }
        },
    }
}

proof fn lemma_plain_grant(rows: Seq<GrantRow>, id: Seq<char>, k: int)
    requires
        0 <= k < rows.len(),
        rows[k].key == (id, None::<u16>),
        forall|j: int| k < j < rows.len() ==> (#[trigger] rows[j]).key != (id, None::<u16>),
    ensures
        plain_grant(rows, id) == rows[k].granted,
    decreases rows.len(),
{
    let last = rows.len() - 1;
    if k < last {
        let front = rows.drop_last();
        assert(rows[last].key != (id, None::<u16>));
        assert forall|j: int| k < j < front.len() implies (#[trigger] front[j]).key != (
            id,
            None::<u16>,
        ) by {
            assert(front[j] == rows[j]);
        }
        lemma_plain_grant(front, id, k);
    }
}

/// A tile that shows as granted has a granted row of its badge.
pub proof fn shown_badges_were_granted(rows: Seq<GrantRow>, id: Seq<char>)
    requires
        tile_flags(rows, id).granted,
    ensures
        exists|k: int| 0 <= k < rows.len() && (#[trigger] rows[k]).granted && rows[k].key.0 == id,
{
    years_are_the_granted_ones(rows, id);
    let years = years_granted(rows, id);
    if years.len() > 0 {
        assert(years.contains(years[0]));
        let k = choose|k: int|
            0 <= k < rows.len() && (#[trigger] rows[k]).granted && rows[k].key == (id, Some(years[0]));
        assert(rows[k].granted && rows[k].key.0 == id);
    } else {
        lemma_plain_row(rows, id);
    }
}

proof fn lemma_plain_row(rows: Seq<GrantRow>, id: Seq<char>)
    requires
        plain_grant(rows, id),
    ensures
        exists|k: int| 0 <= k < rows.len() && (#[trigger] rows[k]).granted && rows[k].key.0 == id,
    decreases rows.len(),
{
    let last = rows.len() - 1;
    if rows.last().key == (id, None::<u16>) {
        assert(rows[last].granted && rows[last].key.0 == id);
    } else {
        let front = rows.drop_last();
        lemma_plain_row(front, id);
        let k = choose|k: int|
            0 <= k < front.len() && (#[trigger] front[k]).granted && front[k].key.0 == id;
        assert(rows[k] == front[k]);
    }
}

proof fn lemma_last_mark(base: Seq<char>, rest: Seq<char>)
    requires
        forall|i: int| 0 <= i < rest.len() ==> #[trigger] rest[i] != '#',
    ensures
        last_place(base.push('#') + rest, '#') == base.len(),
    decreases rest.len(),
{
    let whole = base.push('#') + rest;
    if rest.len() == 0 {
        assert(whole =~= base.push('#'));
    } else {
        let init = rest.drop_last();
        assert forall|i: int| 0 <= i < init.len() implies #[trigger] init[i] != '#' by {
            assert(init[i] == rest[i]);
        }
        lemma_last_mark(base, init);
        assert(whole.drop_last() =~= base.push('#') + init);
        assert(whole.last() == rest.last());
        assert(rest.last() == rest[rest.len() - 1]);
    }
}

/// A badge with a year is named by its id, a `#` and the year; one without a `#` is the badge
/// itself.
pub proof fn years_stand_behind_their_badge(base: Seq<char>, year: Seq<char>)
    requires
        base.len() > 0,
        forall|i: int| 0 <= i < base.len() ==> #[trigger] base[i] != '#',
    ensures
        grant_key(base) == (base, None::<u16>),
        year.len() > 0 && (forall|i: int| 0 <= i < year.len() ==> '0' <= #[trigger] year[i] <= '9')
            && digits_value(year) <= 65535 ==> grant_key(base.push('#') + year) == (
            base,
            Some(digits_value(year) as u16),
        ),
{
    last_places_are_last(base, '#');
    assert(last_place(base, '#') == -1);
    if year.len() > 0 && (forall|i: int| 0 <= i < year.len() ==> '0' <= #[trigger] year[i] <= '9')
        && digits_value(year) <= 65535 {
        let whole = base.push('#') + year;
        assert forall|i: int| 0 <= i < year.len() implies #[trigger] year[i] != '#' by {
            assert('0' <= year[i] <= '9');
        }
        lemma_last_mark(base, year);
        assert(whole.take(base.len() as int) =~= base);
        assert(whole.skip(base.len() as int + 1) =~= year);
        assert(year[0] != '+');
        assert forall|i: int| 0 <= i < year.len() implies is_digit(#[trigger] year[i]) by {
            assert('0' <= year[i] <= '9');
        }
    }
}

/// The digits of a year are read as a number.
pub proof fn years_are_read_as_numbers(digits: Seq<char>, c: char)
    requires
        '0' <= c <= '9',
    ensures
        digits_value(digits.push(c)) == 10 * digits_value(digits) + (c as int - '0' as int),
        digits_value(Seq::empty()) == 0,
{
    assert(digits.push(c).drop_last() =~= digits);
}

/// On the face of a tile the lead of a name up to its first `: ` is left out, and without one what
/// follows the first ` (` is.
pub proof fn names_are_shortened(lead: Seq<char>, rest: Seq<char>)
    ensures
        (forall|j: int| 0 <= j < lead.len() ==> #[trigger] lead[j] != ':') ==> shortened(
            lead + ": "@ + rest,
        ) == rest,
        (forall|j: int| 0 <= j < lead.len() ==> #[trigger] lead[j] != ' ') && (forall|j: int|
            0 <= j < lead.len() ==> #[trigger] lead[j] != ':') && (forall|j: int|
            0 <= j < rest.len() ==> #[trigger] rest[j] != ':') ==> shortened(lead + " ("@ + rest) == lead,
{
    reveal_strlit(": ");
    reveal_strlit(" (");
    let colon = ": "@;
    let open = " ("@;
    let at = lead.len() as int;
    if forall|j: int| 0 <= j < lead.len() ==> #[trigger] lead[j] != ':' {
        let whole = lead + colon + rest;
        searches_find_the_first_place(whole, colon, 0);
        assert(whole.subrange(at, at + 2) =~= colon);
        match find_from(whole, colon, 0) {
            Some(found) => {
                if found < at {
                    assert(whole.subrange(found, found + 2)[0] == colon[0]);
                    assert(whole[found] == lead[found]);
                }
                assert(found == at);
            },
            None => {
                assert(!(whole.subrange(at, at + colon.len()) == colon));
            },
        }
        assert(whole.skip(at + 2) =~= rest);
    }
    if (forall|j: int| 0 <= j < lead.len() ==> #[trigger] lead[j] != ' ') && (forall|j: int|
        0 <= j < lead.len() ==> #[trigger] lead[j] != ':') && (forall|j: int|
        0 <= j < rest.len() ==> #[trigger] rest[j] != ':') {
        let whole = lead + open + rest;
        searches_find_the_first_place(whole, colon, 0);
        searches_find_the_first_place(whole, open, 0);
        match find_from(whole, colon, 0) {
            Some(found) => {
                assert(whole.subrange(found, found + 2)[0] == ':');
                assert(whole[found] == ':');
                if found < at {
                    assert(whole[found] == lead[found]);
                } else if found >= at + 2 {
                    assert(whole[found] == rest[found - at - 2]);
                }
                assert(false);
            },
            None => {},
        }
        assert(whole.subrange(at, at + 2) =~= open);
        match find_from(whole, open, 0) {
            Some(found) => {
                if found < at {
                    assert(whole.subrange(found, found + 2)[0] == open[0]);
                    assert(whole[found] == lead[found]);
                }
                assert(found == at);
            },
            None => {
                assert(!(whole.subrange(at, at + open.len()) == open));
            },
        }
        assert(whole.take(at) =~= lead);
    }
}

/// A tile looks locked where the badge is locked, and else as it was granted or not; its texts say
/// the same.
pub proof fn tiles_look_as_they_are(granted: bool, locked: bool, name: Seq<char>, years: Seq<u16>)
    ensures
        look(granted, locked) == TileLook::Locked <==> locked,
        look(granted, locked) == TileLook::Granted <==> granted && !locked,
        look(granted, locked) == TileLook::Ungranted <==> !granted && !locked,
        access_text(name, TileLook::Locked, years) == name + ": locked"@,
        access_text(name, TileLook::Ungranted, years) == name + ": not yet earned"@,
        years.len() == 0 ==> access_text(name, TileLook::Granted, years) == name + ": granted"@,
        years.len() > 0 ==> access_text(name, TileLook::Granted, years) == name + ": granted "@
            + joined(years.map_values(|y: u16| decimal(y as nat)), ", "@),
        years.len() > 0 ==> face_text(name, years) == shortened(name) + " "@ + decimal(
            years[years.len() - 1] as nat,
        ),
        years.len() == 0 ==> face_text(name, years) == shortened(name),
{
}

/// The headline tells how many badges there are of how many, and leaves out the whole where the
/// catalog is not known.
pub proof fn headlines_tell_the_badges(granted: u32, total: u32)
    ensures
        total > 0 ==> badges_text(granted, total) == decimal(granted as nat) + " / "@ + decimal(
            total as nat,
        ) + " badges"@,
        total == 0 ==> badges_text(granted, total) == decimal(granted as nat) + " badges"@,
{
}

/// A tile is that of its own entry and shows what the profile grants it.
pub proof fn tiles_show_their_entry(tile: GridTile, rows: Seq<GrantRow>, entry: CatalogEntry)
    requires
        is_tile_of(tile, rows, entry),
    ensures
        *tile.entry == entry,
        tile.granted == tile_flags(rows, entry.id@).granted,
        tile.locked <==> nas_pro_locked(entry.id@),
        tile.granted_years@ == tile_flags(rows, entry.id@).years,
{
}

/// The rows of a profile are those that the service sent, each granted as it was sent; without a
/// profile there are none.
pub proof fn rows_are_those_of_the_profile(grants: Seq<ProfileGrant>, k: int)
    requires
        0 <= k < grants.len(),
    ensures
        grant_rows(grants).len() == grants.len(),
        grant_rows(grants)[k].granted == grants[k].granted,
        grant_rows(grants)[k].key == grant_key(grants[k].achievement_id@),
{
}

/// The badges that are locked are the five of the scheduled network-storage features.
pub proof fn five_badges_are_locked(id: Seq<char>)
    ensures
        nas_pro_locked(id) <==> seq![
            "schedule-master"@,
            "polite-citizen"@,
            "multi-share-maestro"@,
            "snapshot-sage"@,
            "email-report-veteran"@,
        ].contains(id),
{
    let all = seq![
        "schedule-master"@,
        "polite-citizen"@,
        "multi-share-maestro"@,
        "snapshot-sage"@,
        "email-report-veteran"@,
    ];
    assert(all[0] == "schedule-master"@);
    assert(all[1] == "polite-citizen"@);
    assert(all[2] == "multi-share-maestro"@);
    assert(all[3] == "snapshot-sage"@);
    assert(all[4] == "email-report-veteran"@);
}

/// What stands behind a `#` and is no number, or a number beyond 65535, is no year: the whole is
/// the badge's name then.
pub proof fn other_endings_are_no_years(base: Seq<char>, rest: Seq<char>)
    requires
        forall|i: int| 0 <= i < rest.len() ==> #[trigger] rest[i] != '#' && rest[i] != '+',
        rest.len() == 0 || digits_value(rest) > 65535 || exists|i: int|
            0 <= i < rest.len() && !('0' <= #[trigger] rest[i] <= '9'),
    ensures
        grant_key(base.push('#') + rest) == (base.push('#') + rest, None::<u16>),
{
    let whole = base.push('#') + rest;
    lemma_last_mark(base, rest);
    assert(whole.skip(base.len() as int + 1) =~= rest);
    if rest.len() > 0 {
        assert(rest[0] != '+');
        if exists|i: int| 0 <= i < rest.len() && !('0' <= #[trigger] rest[i] <= '9') {
            let i = choose|i: int| 0 <= i < rest.len() && !('0' <= #[trigger] rest[i] <= '9');
            assert(!is_digit(rest[i]));
        }
    }
    assert(year_of(rest) is None);
}

/// The note at a tile tells what the badge is and how it stands: earned, with its years where it
/// has any, to be unlocked, or locked.
pub proof fn notes_tell_how_a_badge_stands(name: Seq<char>, description: Seq<char>, years: Seq<u16>)
    ensures
        tooltip_text(name, description, TileLook::Ungranted, years) == name
            + " (not yet earned)\n\nUnlock: "@ + description,
        tooltip_text(name, description, TileLook::Locked, years) == name
            + " (locked)\n\nRequires sd-nas-pro features (Phase NP1+).\n\n"@ + description,
        years.len() == 0 ==> tooltip_text(name, description, TileLook::Granted, years) == name + "\n\n"@
            + description,
        years.len() > 0 ==> tooltip_text(name, description, TileLook::Granted, years) == name
            + "\n\nGranted "@ + joined(years.map_values(|y: u16| decimal(y as nat)), ", "@) + "\n\n"@
            + description,
{
}

} // verus!
