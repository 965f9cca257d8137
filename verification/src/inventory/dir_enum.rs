//! Directory listings in a batch: the packed entries that Windows hands out for a whole directory,
//! and the file numbers in them.
use vstd::prelude::*;

use crate::inventory::mft::FILE_ATTRIBUTE_DIRECTORY;
use crate::inventory::optional_text;
use crate::tables::UnitTable;
use crate::text::{chars_of, hex, hex_string};

verus! {

/// Where the fields of a packed entry stand.
pub const OFFSET_LAST_WRITE: usize = 24;

pub const OFFSET_END_OF_FILE: usize = 40;

pub const OFFSET_ATTRIBUTES: usize = 56;

pub const OFFSET_NAME_LENGTH: usize = 60;

pub const OFFSET_FILE_ID: usize = 96;

pub const OFFSET_NAME: usize = 104;

/// The text of these UTF-16 units: a unit outside the surrogates is a character, and a high
/// surrogate and the low one behind it make one up. With a surrogate that stands alone there is no
/// text.
pub open spec fn decoded(units: Seq<u16>) -> Option<Seq<char>>
    decreases units.len(),
{
    if units.len() == 0 {
        Some(Seq::empty())
    } else if units[0] < 0xD800 || units[0] > 0xDFFF {
        match decoded(units.skip(1)) {
            Some(rest) => Some(seq![units[0] as char] + rest),
            None => None,
        }
    } else if units[0] < 0xDC00 && units.len() > 1 && 0xDC00 <= units[1] <= 0xDFFF {
        match decoded(units.skip(2)) {
            Some(rest) => Some(
                seq![(0x1_0000 + 0x400 * (units[0] - 0xD800) + (units[1] - 0xDC00)) as char] + rest,
            ),
            None => None,
        }
    } else {
        None
    }
}

/// The units with those of one more character: one for a character below 0x10000, two
/// surrogates for another one.
pub open spec fn with_char(units: Seq<u16>, c: char) -> Seq<u16> {
    let n = c as int;
    if n < 0x1_0000 {
        units.push(n as u16)
    } else {
        units.push((0xD800 + (n - 0x1_0000) / 0x400) as u16).push(
            (0xDC00 + (n - 0x1_0000) % 0x400) as u16,
        )
    }
}

/// The UTF-16 units of a text.
pub open spec fn encoded(text: Seq<char>) -> Seq<u16>
    decreases text.len(),
{
    if text.len() == 0 {
        Seq::empty()
    } else {
        with_char(encoded(text.drop_last()), text.last())
    }
}

/// The text that `str::to_lowercase` gives for a text.
pub uninterp spec fn lowercase(text: Seq<char>) -> Seq<char>;

/// `char::from_u32` of std: the character with this number, where there is one. There is none for
/// surrogates, and none beyond 0x10FFFF.
pub assume_specification[ char::from_u32 ](i: u32) -> (r: Option<char>)
    ensures
        match r {
            Some(c) => c as int == i,
            None => 0xD800 <= i <= 0xDFFF || i > 0x10_FFFF,
        },
;

/// The text of UTF-16 units, if they are one.
fn decode_utf16(units: &Vec<u16>) -> (r: Option<String>)
    ensures
        match r {
            Some(text) => decoded(units@) == Some(text@),
            None => decoded(units@) is None,
        },
{
    let mut text = String::new();
    let mut i: usize = 0;
    proof {
        assert(units@.skip(0) =~= units@);
        assert(text@ =~= Seq::<char>::empty());
        if let Some(all) = decoded(units@) {
            assert(text@ + all =~= all);
        }
    }
    while i < units.len()
        invariant
            i <= units.len(),
            match decoded(units@.skip(i as int)) {
                Some(rest) => decoded(units@) == Some(text@ + rest),
                None => decoded(units@) is None,
            },
        decreases units.len() - i,
    {
        let ghost rest = units@.skip(i as int);
        let ghost before = text@;
        let unit: u16 = units[i];
        assert(rest[0] == unit);
        if unit < 0xD800 || unit > 0xDFFF {
            assert(rest.skip(1) =~= units@.skip(i + 1));
            match char::from_u32(unit as u32) {
                Some(c) => {
                    assert(c == unit as char);
                    text.push(c);
                },
                None => {
                    return None;
                },
            }
            proof {
                if let Some(behind) = decoded(rest.skip(1)) {
                    assert(before + (seq![unit as char] + behind) =~= text@ + behind);
                }
            }
            i = i + 1;
        } else if unit < 0xDC00 && units.len() - i > 1 && 0xDC00 <= units[i + 1] && units[i + 1]
            <= 0xDFFF {
            let low: u16 = units[i + 1];
            assert(rest[1] == low);
            assert(rest.skip(2) =~= units@.skip(i + 2));
            let n: u32 = 0x1_0000 + 0x400 * (unit as u32 - 0xD800) + (low as u32 - 0xDC00);
            match char::from_u32(n) {
                Some(c) => {
                    assert(c == n as char);
                    text.push(c);
                },
                None => {
                    return None;
                },
            }
            proof {
                if let Some(behind) = decoded(rest.skip(2)) {
                    assert(before + (seq![n as char] + behind) =~= text@ + behind);
                }
            }
            i = i + 2;
        } else {
            return None;
        }
    }
    proof {
        assert(units@.skip(i as int) =~= Seq::<u16>::empty());
        assert(text@ + Seq::<char>::empty() =~= text@);
    }
    Some(text)
}

fn push_units(units: &mut Vec<u16>, c: char)
    ensures
        final(units)@ == with_char(old(units)@, c),
{
    let n: u32 = c as u32;
    if n < 0x1_0000 {
        units.push(n as u16);
    } else {
        units.push((0xD800 + (n - 0x1_0000) / 0x400) as u16);
        units.push((0xDC00 + (n - 0x1_0000) % 0x400) as u16);
    }
}

/// The text as UTF-16 units.
fn encode_utf16(text: &str) -> (r: Vec<u16>)
    ensures
        r@ == encoded(text@),
{
    let chars = chars_of(text);
    let mut r: Vec<u16> = Vec::new();
    let mut i: usize = 0;
    assert(chars@.take(0) =~= Seq::<char>::empty());
    while i < chars.len()
        invariant
            i <= chars.len(),
            r@ == encoded(chars@.take(i as int)),
        decreases chars.len() - i,
    {
        proof {
            assert(chars@.take(i + 1).drop_last() =~= chars@.take(i as int));
            assert(chars@.take(i + 1).last() == chars@[i as int]);
        }
        push_units(&mut r, chars[i]);
        i = i + 1;
    }
    assert(chars@.take(i as int) =~= chars@);
    r
}

/// `str::to_lowercase` of std: the text in lower case. Which character becomes which is in the
/// tables of Unicode, so the text is named and not spelled out.
#[verifier::external_body]
fn to_lowercase(text: &str) -> (r: String)
    ensures
        r@ == lowercase(text@),
{
    text.to_lowercase()
}

/// A file name without regard to case: in lower case, or as it is where it is no text.
pub open spec fn folded(name: Seq<u16>) -> Seq<u16> {
    match decoded(name) {
        Some(text) => encoded(lowercase(text)),
        None => name,
    }
}

fn fold_name(name: &Vec<u16>) -> (r: Vec<u16>)
    ensures
        r@ == folded(name@),
{
    match decode_utf16(name) {
        Some(text) => encode_utf16(to_lowercase(text.as_str()).as_str()),
        None => name.clone(),
    }
}

/// The number that the byte at `at` and the one behind it make up, lowest first.
pub open spec fn le16(buf: Seq<u8>, at: int) -> u16 {
    (buf[at] + 0x100 * buf[at + 1]) as u16
}

/// The number that four bytes make up, lowest first.
pub open spec fn le32(buf: Seq<u8>, at: int) -> u32 {
    (buf[at] + 0x100 * buf[at + 1] + 0x1_0000 * buf[at + 2] + 0x100_0000 * buf[at + 3]) as u32
}

/// The number that eight bytes make up, lowest first.
pub open spec fn le64(buf: Seq<u8>, at: int) -> u64 {
    (le32(buf, at) + 0x1_0000_0000 * le32(buf, at + 4)) as u64
}

fn read16(buf: &Vec<u8>, at: usize) -> (r: u16)
    requires
        at + 2 <= buf.len(),
    ensures
        r == le16(buf@, at as int),
{
    buf[at] as u16 + 0x100 * (buf[at + 1] as u16)
}

fn read32(buf: &Vec<u8>, at: usize) -> (r: u32)
    requires
        at + 4 <= buf.len(),
    ensures
        r == le32(buf@, at as int),
{
    buf[at] as u32 + 0x100 * (buf[at + 1] as u32) + 0x1_0000 * (buf[at + 2] as u32) + 0x100_0000 * (
    buf[at + 3] as u32)
}

fn read64(buf: &Vec<u8>, at: usize) -> (r: u64)
    requires
        at + 8 <= buf.len(),
    ensures
        r == le64(buf@, at as int),
{
    read32(buf, at) as u64 + 0x1_0000_0000 * (read32(buf, at + 4) as u64)
}

/// One packed entry.
pub struct RawEntryView {
    pub name: Seq<u16>,
    pub attributes: u32,
    pub file_id: u64,
    pub size: u64,
    /// 100ns ticks since 1601-01-01 UTC.
    pub mtime: i64,
}

/// How many UTF-16 units the name of the entry at `at` has.
pub open spec fn name_units(buf: Seq<u8>, at: int) -> int {
    le32(buf, at + OFFSET_NAME_LENGTH) as int / 2
}

/// Whether a whole entry lies in the buffer at `at`.
pub open spec fn entry_fits(buf: Seq<u8>, at: int) -> bool {
    at + OFFSET_NAME <= buf.len() && at + OFFSET_NAME + 2 * name_units(buf, at) <= buf.len()
}

/// The entry at `at`.
pub open spec fn entry_at(buf: Seq<u8>, at: int) -> RawEntryView {
    RawEntryView {
        name: Seq::new(name_units(buf, at) as nat, |k: int| le16(buf, at + OFFSET_NAME + 2 * k)),
        attributes: le32(buf, at + OFFSET_ATTRIBUTES),
        file_id: le64(buf, at + OFFSET_FILE_ID),
        size: le64(buf, at + OFFSET_END_OF_FILE),
        mtime: le64(buf, at + OFFSET_LAST_WRITE) as i64,
    }
}

/// The entries of a batch from `at` on. Each one says how far the next one is; the last one says
/// `0`. An entry that does not lie in the buffer ends the batch.
pub open spec fn entries_from(buf: Seq<u8>, at: int) -> Seq<RawEntryView>
    decreases (if at <= buf.len() { buf.len() - at + 1 } else { 0 }),
{
    if at < 0 || !entry_fits(buf, at) {
        Seq::empty()
    } else {
        let next = le32(buf, at) as int;
        seq![entry_at(buf, at)] + if next == 0 {
            Seq::empty()
        } else {
            entries_from(buf, at + next)
        }
    }
}

/// One packed entry.
pub struct RawEntry {
    pub name: Vec<u16>,
    pub attributes: u32,
    pub file_id: u64,
    pub size: u64,
    pub mtime: i64,
}

impl View for RawEntry {
    type V = RawEntryView;

    open spec fn view(&self) -> RawEntryView {
        RawEntryView {
            name: self.name@,
            attributes: self.attributes,
            file_id: self.file_id,
            size: self.size,
            mtime: self.mtime,
        }
    }
}

/// The contents of a list of packed entries.
pub open spec fn raw_views(v: Seq<RawEntry>) -> Seq<RawEntryView> {
    v.map_values(|e: RawEntry| e@)
}

fn read_entry(buf: &Vec<u8>, at: usize) -> (r: RawEntry)
    requires
        entry_fits(buf@, at as int),
    ensures
        r@ == entry_at(buf@, at as int),
{
    let len: usize = buf.len();
    let count: usize = (read32(buf, at + OFFSET_NAME_LENGTH) / 2) as usize;
    let mut name: Vec<u16> = Vec::new();
    let mut k: usize = 0;
    while k < count
        invariant
            k <= count,
            len == buf@.len(),
            count == name_units(buf@, at as int),
            entry_fits(buf@, at as int),
            name.len() == k,
            forall|j: int| 0 <= j < k ==> name@[j] == le16(buf@, at + OFFSET_NAME + 2 * j),
        decreases count - k,
    {
        name.push(read16(buf, at + OFFSET_NAME + 2 * k));
        k = k + 1;
    }
    let r = RawEntry {
        name,
        attributes: read32(buf, at + OFFSET_ATTRIBUTES),
        file_id: read64(buf, at + OFFSET_FILE_ID),
        size: read64(buf, at + OFFSET_END_OF_FILE),
        mtime: read64(buf, at + OFFSET_LAST_WRITE) as i64,
    };
    assert(r.name@ =~= entry_at(buf@, at as int).name);
    r
}

/// Reads the entries of a batch.
pub fn read_batch(buf: &Vec<u8>) -> (r: Vec<RawEntry>)
    ensures
        raw_views(r@) == entries_from(buf@, 0),
{
    let mut r: Vec<RawEntry> = Vec::new();
    let mut at: usize = 0;
    let mut more: bool = true;
    assert(raw_views(r@) + entries_from(buf@, 0) =~= entries_from(buf@, 0));
    while more
        invariant
            at <= buf.len(),
            more ==> raw_views(r@) + entries_from(buf@, at as int) == entries_from(buf@, 0),
            !more ==> raw_views(r@) == entries_from(buf@, 0),
        decreases buf.len() - at, (if more { 1int } else { 0int }),
    {
        let ghost so_far = raw_views(r@);
        let room: usize = buf.len() - at;
        if room < OFFSET_NAME {
            proof {
                assert(so_far + Seq::<RawEntryView>::empty() =~= so_far);
            }
            more = false;
        } else {
            let units: usize = (read32(buf, at + OFFSET_NAME_LENGTH) / 2) as usize;
            if units > (room - OFFSET_NAME) / 2 {
                proof {
                    assert(so_far + Seq::<RawEntryView>::empty() =~= so_far);
                }
                more = false;
            } else {
                let entry = read_entry(buf, at);
                let ghost seen = entry@;
                let ghost before = r@;
                r.push(entry);
                let next: usize = read32(buf, at) as usize;
                proof {
                    assert(raw_views(r@) =~= raw_views(before).push(seen));
                    assert(so_far + (seq![seen] + Seq::<RawEntryView>::empty()) =~= raw_views(r@));
                    assert(so_far + (seq![seen] + entries_from(buf@, at + next)) =~= raw_views(r@)
                        + entries_from(buf@, at + next));
                }
                if next == 0 {
                    more = false;
                } else if next > room {
                    proof {
                        assert(entries_from(buf@, at + next) =~= Seq::<RawEntryView>::empty());
                    }
                    more = false;
                } else {
                    at = at + next;
                }
            }
        }
    }
    r
}

/// Whether a name is `.` or `..`.
pub open spec fn is_dot_name(name: Seq<u16>) -> bool {
    name == seq![46u16] || name == seq![46u16, 46u16]
}

/// Whether an entry is a file whose number counts: not `.`, not `..` and not a directory.
pub open spec fn names_a_file(e: RawEntryView) -> bool {
    !is_dot_name(e.name) && e.attributes & FILE_ATTRIBUTE_DIRECTORY == 0
}

/// The number of each file among the entries, by its name without regard to case. Of two names
/// that differ in case only, the later one counts.
pub open spec fn numbers_among(entries: Seq<RawEntryView>) -> Map<Seq<u16>, u64>
    decreases entries.len(),
{
    if entries.len() == 0 {
        Map::empty()
    } else {
        let init = numbers_among(entries.drop_last());
        let e = entries.last();
        if names_a_file(e) {
            init.insert(folded(e.name), e.file_id)
        } else {
            init
        }
    }
}

/// The entries of all batches, in order.
pub open spec fn all_entries(batches: Seq<Vec<u8>>) -> Seq<RawEntryView>
    decreases batches.len(),
{
    if batches.len() == 0 {
        Seq::empty()
    } else {
        all_entries(batches.drop_last()) + entries_from(batches.last()@, 0)
    }
}

/// The text that stands for a volume with this serial number.
pub open spec fn volume_text(serial: u32) -> Seq<char> {
    "vol-serial:0x"@ + hex(serial as nat, 8)
}

/// What stands for a volume, by its serial number.
pub fn volume_name(serial: u32) -> (r: String)
    ensures
        r@ == volume_text(serial),
{
    let mut r = "vol-serial:0x".to_owned();
    r.append(hex_string(serial, 8).as_str());
    r
}

/// The file numbers of one directory.
pub struct DirInodeMap {
    /// What stands for the directory's volume, where its serial number is known.
    pub volume_guid: Option<String>,
    /// File name without regard to case to file number. Hard links of one file share it.
    pub by_name: UnitTable,
}

/// Whether a name is `.` or `..`, which every directory lists.
pub fn is_dot(name: &Vec<u16>) -> (r: bool)
    ensures
        r == is_dot_name(name@),
{
    let r = (name.len() == 1 && name[0] == 46) || (name.len() == 2 && name[0] == 46 && name[1] == 46);
    proof {
        if name@.len() == 1 && name@[0] == 46 {
            assert(name@ =~= seq![46u16]);
        }
        if name@.len() == 2 && name@[0] == 46 && name@[1] == 46 {
            assert(name@ =~= seq![46u16, 46u16]);
        }
        if name@ == seq![46u16] {
            assert(name@[0] == 46);
        }
        if name@ == seq![46u16, 46u16] {
            assert(name@[0] == 46 && name@[1] == 46);
        }
    }
    r
}

fn note_numbers(by_name: &mut UnitTable, entries: &Vec<RawEntry>, Ghost(before): Ghost<Seq<RawEntryView>>)
    requires
        old(by_name)@ == numbers_among(before),
    ensures
        final(by_name)@ == numbers_among(before + raw_views(entries@)),
{
    let ghost all = raw_views(entries@);
    let mut i: usize = 0;
    assert(before + all.take(0) =~= before);
    while i < entries.len()
        invariant
            i <= entries.len(),
            all == raw_views(entries@),
            by_name@ == numbers_among(before + all.take(i as int)),
        decreases entries.len() - i,
    {
        let e = &entries[i];
        let ghost upto = before + all.take(i + 1);
        proof {
            assert(upto.drop_last() =~= before + all.take(i as int));
            assert(upto.last() == e@);
        }
        if !is_dot(&e.name) && e.attributes & FILE_ATTRIBUTE_DIRECTORY == 0 {
            by_name.insert(fold_name(&e.name), e.file_id);
        }
        i = i + 1;
    }
    assert(all.take(i as int) =~= all);
}

/// Builds the file numbers of a directory from the batches it was listed in and the serial number
/// of its volume. Directories do not count, and neither do `.` and `..`.
pub fn enumerate_dir(batches: &Vec<Vec<u8>>, volume_serial: Option<u32>) -> (r: DirInodeMap)
    ensures
        r.by_name@ == numbers_among(all_entries(batches@)),
        optional_text(r.volume_guid) == (match volume_serial {
            Some(serial) => Some(volume_text(serial)),
            None => None,
        }),
{
    let mut by_name = UnitTable::new();
    let mut i: usize = 0;
    assert(batches@.take(0) =~= Seq::<Vec<u8>>::empty());
    while i < batches.len()
        invariant
            i <= batches.len(),
            by_name@ == numbers_among(all_entries(batches@.take(i as int))),
        decreases batches.len() - i,
    {
        let entries = read_batch(&batches[i]);
        proof {
            assert(batches@.take(i + 1).drop_last() =~= batches@.take(i as int));
            assert(batches@.take(i + 1).last() == batches@[i as int]);
        }
        note_numbers(&mut by_name, &entries, Ghost(all_entries(batches@.take(i as int))));
        i = i + 1;
    }
    assert(batches@.take(i as int) =~= batches@);
    let volume_guid: Option<String> = match volume_serial {
        Some(serial) => Some(volume_name(serial)),
        None => None,
    };
    DirInodeMap { volume_guid, by_name }
}

impl DirInodeMap {
    /// The number of the file with this name, whatever its case.
    pub fn lookup(&self, name: &Vec<u16>) -> (r: Option<u64>)
        ensures
            r == (if self.by_name@.contains_key(folded(name@)) {
                Some(self.by_name@[folded(name@)])
            } else {
                None
            }),
    {
        self.by_name.get(&fold_name(name))
    }
}

/// What an open file says of its place: the serial number of its volume, and its number in two
/// halves.
#[derive(Clone, Copy, Debug)]
pub struct HandleFacts {
    pub volume_serial: u32,
    pub index_high: u32,
    pub index_low: u32,
}

/// A file's number, put together from its halves, and what stands for its volume; `None` where the
/// file could not be opened.
pub fn file_id_for(facts: Option<HandleFacts>) -> (r: Option<(u64, Option<String>)>)
    ensures
        match (facts, r) {
            (None, None) => true,
            (Some(f), Some(id)) => {
                &&& id.0 == f.index_high * 0x1_0000_0000 + f.index_low
                &&& optional_text(id.1) == Some(volume_text(f.volume_serial))
            },
            _ => false,
        },
{
    match facts {
        None => None,
        Some(f) => {
            let number: u64 = f.index_high as u64 * 0x1_0000_0000 + f.index_low as u64;
            Some((number, Some(volume_name(f.volume_serial))))
        },
    }
}

proof fn lemma_hex_is_injective(a: nat, b: nat, width: nat)
    requires
        hex(a, width) == hex(b, width),
    ensures
        a % pow16(width) == b % pow16(width),
    decreases width,
{
    if width > 0 {
        let x = hex(a, width);
        let y = hex(b, width);
        assert(x.last() == y.last());
        assert(x.drop_last() =~= hex(a / 16, (width - 1) as nat));
        assert(y.drop_last() =~= hex(b / 16, (width - 1) as nat));
        lemma_hex_is_injective(a / 16, b / 16, (width - 1) as nat);
        let m = pow16((width - 1) as nat);
        assert(m > 0) by {
            lemma_pow16_positive((width - 1) as nat);
        }
        lemma_digit(a, m);
        lemma_digit(b, m);
    } else {
        assert(a % 1 == 0 && b % 1 == 0);
    }
}

spec fn pow16(width: nat) -> nat
    decreases width,
{
    if width == 0 {
        1
    } else {
        16 * pow16((width - 1) as nat)
    }
}

proof fn lemma_pow16_positive(width: nat)
    ensures
        pow16(width) > 0,
    decreases width,
{
    if width > 0 {
        lemma_pow16_positive((width - 1) as nat);
    }
}

proof fn lemma_digit(a: nat, m: nat)
    requires
        m > 0,
    ensures
        a % (16 * m) == 16 * ((a / 16) % m) + a % 16,
{
    let q = a / 16;
    let r = a % 16;
    let k = q / m;
    let s = q % m;
    assert(q == m * k + s) by (nonlinear_arith)
        requires
            k == q / m,
            s == q % m,
            m > 0,
    ;
    assert(a == (16 * m) * k + (16 * s + r)) by (nonlinear_arith)
        requires
            a == 16 * q + r,
            q == m * k + s,
    ;
    assert(s < m) by (nonlinear_arith)
        requires
            s == q % m,
            m > 0,
    ;
    assert(16 * s + r < 16 * m);
    assert(a % (16 * m) == 16 * s + r) by (nonlinear_arith)
        requires
            a == (16 * m) * k + (16 * s + r),
            0 <= 16 * s + r < 16 * m,
    ;
}

/// Volumes with different serial numbers have different names.
pub proof fn volumes_have_their_own_names(a: u32, b: u32)
    requires
        volume_text(a) == volume_text(b),
    ensures
        a == b,
{
    let head = "vol-serial:0x"@;
    let x = volume_text(a);
    let y = volume_text(b);
    assert(x.subrange(head.len() as int, x.len() as int) =~= hex(a as nat, 8));
    assert(y.subrange(head.len() as int, y.len() as int) =~= hex(b as nat, 8));
    lemma_hex_is_injective(a as nat, b as nat, 8);
    assert(pow16(8) == 0x1_0000_0000) by {
        reveal_with_fuel(pow16, 9);
    }
}

/// Every file that is listed has its number under its name without regard to case, as long as no
/// later file shares that name: nothing but directories, `.` and `..` is left out.
pub proof fn listed_files_have_their_number(entries: Seq<RawEntryView>, k: int)
    requires
        0 <= k < entries.len(),
        entries[k].attributes & 0x10 == 0,
        entries[k].name != seq![46u16],
        entries[k].name != seq![46u16, 46u16],
        forall|j: int|
            k < j < entries.len() && (#[trigger] entries[j]).attributes & 0x10 == 0 && entries[j].name
                != seq![46u16] && entries[j].name != seq![46u16, 46u16] ==> folded(entries[j].name)
                != folded(entries[k].name),
    ensures
        numbers_among(entries).contains_key(folded(entries[k].name)),
        numbers_among(entries)[folded(entries[k].name)] == entries[k].file_id,
    decreases entries.len(),
{
    if k < entries.len() - 1 {
        let init = entries.drop_last();
        assert forall|j: int|
            k < j < init.len() && (#[trigger] init[j]).attributes & 0x10 == 0 && init[j].name
                != seq![46u16] && init[j].name != seq![46u16, 46u16] implies folded(init[j].name)
            != folded(init[k].name) by {
            assert(init[j] == entries[j]);
        }
        listed_files_have_their_number(init, k);
        assert(entries.last() == entries[entries.len() - 1]);
    }
}

/// A number under a name is that of a listed file with that name, never that of a directory.
pub proof fn numbers_are_those_of_files(entries: Seq<RawEntryView>, name: Seq<u16>)
    requires
        numbers_among(entries).contains_key(name),
    ensures
        exists|k: int|
            0 <= k < entries.len() && (#[trigger] entries[k]).attributes & 0x10 == 0 && folded(
                entries[k].name,
            ) == name && entries[k].file_id == numbers_among(entries)[name] && entries[k].name
                != seq![46u16] && entries[k].name != seq![46u16, 46u16],
    decreases entries.len(),
{
    let e = entries.last();
    let last = entries.len() - 1;
    if names_a_file(e) && folded(e.name) == name {
        assert(entries[last] == e);
    } else {
        let init = entries.drop_last();
        numbers_are_those_of_files(init, name);
        let k = choose|k: int|
            0 <= k < init.len() && (#[trigger] init[k]).attributes & 0x10 == 0 && folded(init[k].name)
                == name && init[k].file_id == numbers_among(init)[name] && init[k].name != seq![46u16]
                && init[k].name != seq![46u16, 46u16];
        assert(entries[k] == init[k]);
    }
}

/// The entries of every batch count, in order and none twice.
pub proof fn every_batch_counts(batches: Seq<Vec<u8>>, k: int)
    requires
        0 <= k < batches.len(),
    ensures
        all_entries(batches) == all_entries(batches.take(k)) + entries_from(batches[k]@, 0)
            + all_entries(batches.skip(k + 1)),
    decreases batches.len(),
{
    let init = batches.drop_last();
    let tail = batches.skip(k + 1);
    if k < batches.len() - 1 {
        every_batch_counts(init, k);
        assert(init.take(k) =~= batches.take(k));
        assert(tail.drop_last() =~= init.skip(k + 1));
        assert(tail.last() == batches.last());
        assert(all_entries(batches) =~= all_entries(batches.take(k)) + entries_from(batches[k]@, 0)
            + all_entries(tail));
    } else {
        assert(init =~= batches.take(k));
        assert(tail =~= Seq::<Vec<u8>>::empty());
        assert(all_entries(batches) =~= all_entries(batches.take(k)) + entries_from(batches[k]@, 0)
            + all_entries(tail));
    }
}

/// An entry that lies in the buffer is read from its own bytes, lowest first: its change time from
/// byte 24 on, its size from byte 40 on, its attributes from byte 56 on, its number from byte 96 on
/// and its name from byte 104 on. The entry behind it follows at the distance in its first four
/// bytes; with the distance `0` it is the last one.
pub proof fn entries_are_read_from_their_bytes(buf: Seq<u8>, at: int)
    requires
        0 <= at,
        at + 104 <= buf.len(),
        at + 104 + 2 * (le32(buf, at + 60) as int / 2) <= buf.len(),
    ensures
        ({
            let read = entries_from(buf, at);
            let e = read[0];
            let next = le32(buf, at) as int;
            &&& read.len() >= 1
            &&& e.size == le32(buf, at + 40) + 0x1_0000_0000 * le32(buf, at + 44)
            &&& e.file_id == le32(buf, at + 96) + 0x1_0000_0000 * le32(buf, at + 100)
            &&& e.attributes == le32(buf, at + 56)
            &&& e.mtime == (le32(buf, at + 24) + 0x1_0000_0000 * le32(buf, at + 28)) as u64 as i64
            &&& e.name.len() == le32(buf, at + 60) / 2
            &&& forall|k: int|
                0 <= k < e.name.len() ==> #[trigger] e.name[k] == buf[at + 104 + 2 * k] + 0x100 * buf[at
                    + 105 + 2 * k]
            &&& next == 0 ==> read.len() == 1
            &&& next > 0 ==> read.skip(1) == entries_from(buf, at + next)
        }),
{
    let next = le32(buf, at) as int;
    let read = entries_from(buf, at);
    if next > 0 {
        assert(read.skip(1) =~= entries_from(buf, at + next));
    }
}

/// The bytes of a number stand lowest first.
pub proof fn numbers_stand_lowest_byte_first(buf: Seq<u8>, at: int)
    requires
        0 <= at,
        at + 4 <= buf.len(),
    ensures
        le32(buf, at) == buf[at] + 256 * buf[at + 1] + 65536 * buf[at + 2] + 16777216 * buf[at + 3],
        le16(buf, at) == buf[at] + 256 * buf[at + 1],
{
}

proof fn lemma_decoded_parts(a: Seq<u16>, b: Seq<u16>)
    requires
        decoded(a) is Some,
    ensures
        decoded(b) is None ==> decoded(a + b) is None,
        decoded(b) matches Some(rest) ==> decoded(a + b) == Some(decoded(a)->0 + rest),
    decreases a.len(),
{
    if a.len() == 0 {
        assert(a + b =~= b);
        if let Some(rest) = decoded(b) {
            assert(Seq::<char>::empty() + rest =~= rest);
        }
    } else if a[0] < 0xD800 || a[0] > 0xDFFF {
        lemma_decoded_parts(a.skip(1), b);
        assert((a + b).skip(1) =~= a.skip(1) + b);
        if let Some(rest) = decoded(b) {
            assert(seq![a[0] as char] + (decoded(a.skip(1))->0 + rest) =~= decoded(a)->0 + rest);
        }
    } else {
        lemma_decoded_parts(a.skip(2), b);
        assert((a + b).skip(2) =~= a.skip(2) + b);
        if let Some(rest) = decoded(b) {
            assert(decoded(a + b)->0 =~= decoded(a)->0 + rest);
        }
    }
}

proof fn lemma_one_char(c: char)
    ensures
        decoded(with_char(Seq::empty(), c)) == Some(seq![c]),
{
    let n = c as int;
    let units = with_char(Seq::empty(), c);
    if n < 0x1_0000 {
        assert(units =~= seq![n as u16]);
        assert(units.skip(1) =~= Seq::<u16>::empty());
        assert(decoded(units.skip(1))->0 =~= Seq::<char>::empty());
        assert(n < 0xD800 || n > 0xDFFF);
        assert(units[0] == n);
        assert(units[0] as char == c);
    } else {
        assert(units.len() == 2);
        assert(units.skip(2) =~= Seq::<u16>::empty());
        assert(decoded(units.skip(2))->0 =~= Seq::<char>::empty());
        assert(units[0] == 0xD800 + (n - 0x1_0000) / 0x400);
        assert(units[1] == 0xDC00 + (n - 0x1_0000) % 0x400);
    }
    assert(decoded(units)->0 =~= seq![c]);
}

/// A text comes back whole from its UTF-16 units.
pub proof fn texts_come_back_from_their_units(text: Seq<char>)
    ensures
        decoded(encoded(text)) == Some(text),
    decreases text.len(),
{
    if text.len() > 0 {
        let init = encoded(text.drop_last());
        let c = text.last();
        let units = with_char(Seq::empty(), c);
        texts_come_back_from_their_units(text.drop_last());
        assert(encoded(text) =~= init + units);
        lemma_one_char(c);
        lemma_decoded_parts(init, units);
        assert(text.drop_last() + seq![c] =~= text);
    } else {
        assert(text =~= Seq::<char>::empty());
    }
}

/// A batch ends where no whole entry lies any more: with fewer than 104 bytes left, or with a name
/// that reaches over the end.
pub proof fn cut_off_entries_end_the_batch(buf: Seq<u8>, at: int)
    requires
        0 <= at,
        at + 104 > buf.len() || at + 104 + 2 * (le32(buf, at + 60) as int / 2) > buf.len(),
    ensures
        entries_from(buf, at).len() == 0,
{
}

/// A surrogate that stands alone is no text: a low one at the beginning, and a high one with nothing
/// or with another unit than a low one behind it.
pub proof fn lone_surrogates_are_no_text(units: Seq<u16>)
    requires
        units.len() > 0,
        0xD800 <= units[0] <= 0xDFFF,
        units[0] >= 0xDC00 || units.len() == 1 || units[1] < 0xDC00 || units[1] > 0xDFFF,
    ensures
        decoded(units) is None,
{
}

} // verus!
