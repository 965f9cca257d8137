//! The note that an earlier inventory can be used again.
use vstd::prelude::*;

use crate::numbers::{quotient_string, quotient_text};
use crate::text::{
    begins_with, cat2, cat5, cat6, cat7, chars_of, decimal, decimal_string, finishes_with, head,
    head_of, text_of, texts,
};

verus! {

/// What is kept of a volume.
#[derive(Clone, Debug)]
pub struct CacheVolumeSummary {
    pub volume_guid: String,
    pub record_count: u64,
    pub captured_at_unix: i64,
}

/// A count in short: one decimal for millions, none for thousands.
pub open spec fn compact_text(n: u64) -> Seq<char> {
    if n >= 1_000_000 {
        quotient_text(n as nat, 1_000_000, 1) + "M"@
    } else if n >= 1_000 {
        quotient_text(n as nat, 1_000, 0) + "k"@
    } else {
        decimal(n as nat)
    }
}

/// A count in short.
pub fn compact(n: u64) -> (r: String)
    ensures
        r@ == compact_text(n),
{
    if n >= 1_000_000 {
        let q = quotient_string(n, 1_000_000, 1);
        cat2(q.as_str(), "M")
    } else if n >= 1_000 {
        let q = quotient_string(n, 1_000, 0);
        cat2(q.as_str(), "k")
    } else {
        decimal_string(n)
    }
}

/// How long ago something was kept, in seconds; nothing lies in the future.
pub open spec fn age_secs(captured: i64, now: i64) -> int {
    if now > captured {
        now - captured
    } else {
        0
    }
}

/// How long ago something was kept.
pub open spec fn age_text(captured: i64, now: i64) -> Seq<char> {
    let age = age_secs(captured, now);
    if age < 90 {
        "just now"@
    } else if age < 3_600 {
        decimal((age / 60) as nat) + " min ago"@
    } else if age < 86_400 {
        decimal((age / 3_600) as nat) + " h ago"@
    } else if age < 604_800 {
        decimal((age / 86_400) as nat) + " d ago"@
    } else {
        decimal((age / 604_800) as nat) + " weeks ago"@
    }
}

/// How long ago something was kept.
pub fn human_age(captured: i64, now: i64) -> (r: String)
    ensures
        r@ == age_text(captured, now),
{
    let age: u64 = if now > captured {
        (now as i128 - captured as i128) as u64
    } else {
        0
    };
    if age < 90 {
        "just now".to_owned()
    } else if age < 3_600 {
        let n = decimal_string(age / 60);
        cat2(n.as_str(), " min ago")
    } else if age < 86_400 {
        let n = decimal_string(age / 3_600);
        cat2(n.as_str(), " h ago")
    } else if age < 604_800 {
        let n = decimal_string(age / 86_400);
        cat2(n.as_str(), " d ago")
    } else {
        let n = decimal_string(age / 604_800);
        cat2(n.as_str(), " weeks ago")
    }
}

/// The text without the lead, as often as it stands there.
pub open spec fn without_lead(s: Seq<char>, lead: Seq<char>) -> Seq<char>
    decreases s.len(),
{
    if lead.len() > 0 && lead.is_prefix_of(s) {
        without_lead(s.skip(lead.len() as int), lead)
    } else {
        s
    }
}

/// The text without the end, as often as it stands there.
pub open spec fn without_end(s: Seq<char>, end: Seq<char>) -> Seq<char>
    decreases s.len(),
{
    if end.len() > 0 && end.is_suffix_of(s) {
        without_end(s.take(s.len() - end.len()), end)
    } else {
        s
    }
}

fn drop_lead(s: &str, lead: &str) -> (r: String)
    requires
        lead@.len() > 0,
    ensures
        r@ == without_lead(s@, lead@),
{
    let n: usize = lead.unicode_len();
    let mut rest = s.to_owned();
    while begins_with(rest.as_str(), lead)
        invariant
            n == lead@.len(),
            n > 0,
            without_lead(rest@, lead@) == without_lead(s@, lead@),
        decreases rest@.len(),
    {
        let v = chars_of(rest.as_str());
        let ghost before = rest@;
        rest = text_of(&v, n, v.len());
        assert(rest@ =~= before.skip(n as int));
    }
    rest
}

fn drop_end(s: &str, end: &str) -> (r: String)
    requires
        end@.len() > 0,
    ensures
        r@ == without_end(s@, end@),
{
    let n: usize = end.unicode_len();
    let mut rest = s.to_owned();
    while finishes_with(rest.as_str(), end)
        invariant
            n == end@.len(),
            n > 0,
            without_end(rest@, end@) == without_end(s@, end@),
        decreases rest@.len(),
    {
        let v = chars_of(rest.as_str());
        let ghost before = rest@;
        rest = text_of(&v, 0, v.len() - n);
        assert(rest@ =~= before.take(before.len() - n));
    }
    rest
}

/// A volume's name in short: the first eight characters of its id.
pub open spec fn short_volume(guid: Seq<char>) -> Seq<char> {
    head(without_end(without_lead(guid, "\\\\?\\Volume{"@), "}\\"@), 8)
}

/// A volume's name in short.
pub fn short_volume_name(guid: &str) -> (r: String)
    ensures
        r@ == short_volume(guid@),
{
    proof {
        reveal_strlit("\\\\?\\Volume{");
        reveal_strlit("}\\");
    }
    let inner = drop_lead(guid, "\\\\?\\Volume{");
    let id = drop_end(inner.as_str(), "}\\");
    head_of(id.as_str(), 8)
}

/// The line of a volume.
pub open spec fn volume_text(s: CacheVolumeSummary, now: i64) -> Seq<char> {
    "  • volume "@ + short_volume(s.volume_guid@) + " — "@ + compact_text(s.record_count)
        + " files, captured "@ + age_text(s.captured_at_unix, now)
}

/// The line of a volume.
pub fn volume_detail_line(s: &CacheVolumeSummary, now: i64) -> (r: String)
    ensures
        r@ == volume_text(*s, now),
{
    let short = short_volume_name(s.volume_guid.as_str());
    let files = compact(s.record_count);
    let age = human_age(s.captured_at_unix, now);
    cat6(
        "  • volume ",
        short.as_str(),
        " — ",
        files.as_str(),
        " files, captured ",
        age.as_str(),
    )
}

/// The files of all volumes together.
pub open spec fn total_records(volumes: Seq<CacheVolumeSummary>) -> nat
    decreases volumes.len(),
{
    if volumes.len() == 0 {
        0
    } else {
        total_records(volumes.drop_last()) + volumes.last().record_count as nat
    }
}

/// Whether `oldest` is the time of the oldest volume.
pub open spec fn is_oldest(volumes: Seq<CacheVolumeSummary>, oldest: i64) -> bool {
    &&& forall|i: int|
        0 <= i < volumes.len() ==> oldest <= (#[trigger] volumes[i]).captured_at_unix
    &&& exists|i: int|
        0 <= i < volumes.len() && oldest == (#[trigger] volumes[i]).captured_at_unix
}

/// The time of the oldest volume.
pub open spec fn oldest_of(volumes: Seq<CacheVolumeSummary>) -> i64 {
    choose|oldest: i64| is_oldest(volumes, oldest)
}

fn oldest_volume(volumes: &Vec<CacheVolumeSummary>) -> (r: i64)
    requires
        volumes@.len() > 0,
    ensures
        r == oldest_of(volumes@),
        is_oldest(volumes@, r),
{
    let mut r: i64 = volumes[0].captured_at_unix;
    let mut i: usize = 1;
    assert(volumes@[0].captured_at_unix == r);
    while i < volumes.len()
        invariant
            1 <= i <= volumes.len(),
            forall|k: int| 0 <= k < i ==> r <= (#[trigger] volumes@[k]).captured_at_unix,
            exists|k: int| 0 <= k < i && r == (#[trigger] volumes@[k]).captured_at_unix,
        decreases volumes.len() - i,
    {
        if volumes[i].captured_at_unix < r {
            r = volumes[i].captured_at_unix;
            assert(volumes@[i as int].captured_at_unix == r);
        }
        i = i + 1;
    }
    assert(is_oldest(volumes@, r));
    let ghost other = oldest_of(volumes@);
    assert(is_oldest(volumes@, other));
    r
}

fn total_of(volumes: &Vec<CacheVolumeSummary>) -> (r: u64)
    requires
        total_records(volumes@) <= u64::MAX,
    ensures
        r == total_records(volumes@),
{
    let mut r: u64 = 0;
    let mut i: usize = 0;
    assert(volumes@.take(0) =~= Seq::<CacheVolumeSummary>::empty());
    while i < volumes.len()
        invariant
            i <= volumes.len(),
            total_records(volumes@) <= u64::MAX,
            r == total_records(volumes@.take(i as int)),
        decreases volumes.len() - i,
    {
        proof {
            assert(volumes@.take(i + 1).drop_last() =~= volumes@.take(i as int));
            assert(volumes@.take(i + 1).last() == volumes@[i as int]);
            parts_are_no_more(volumes@, i + 1);
        }
        r = r + volumes[i].record_count;
        i = i + 1;
    }
    assert(volumes@.take(i as int) =~= volumes@);
    r
}

proof fn parts_are_no_more(volumes: Seq<CacheVolumeSummary>, n: int)
    requires
        0 <= n <= volumes.len(),
    ensures
        total_records(volumes.take(n)) <= total_records(volumes),
    decreases volumes.len() - n,
{
    if n < volumes.len() {
        assert(volumes.take(n + 1).drop_last() =~= volumes.take(n));
        parts_are_no_more(volumes, n + 1);
    } else {
        assert(volumes.take(n) =~= volumes);
    }
}

/// What the note says behind its title.
pub open spec fn detail_text(volumes: Seq<CacheVolumeSummary>, now: i64) -> Seq<char> {
    let total = compact_text(total_records(volumes) as u64);
    let age = age_text(oldest_of(volumes), now);
    if volumes.len() == 1 {
        " — "@ + total + " files cached, captured "@ + age + "."@
    } else {
        " — "@ + total + " files across "@ + decimal(volumes.len()) + " volumes, oldest "@ + age
            + "."@
    }
}

/// The lines of the volumes, where there is more than one.
pub open spec fn volume_texts(volumes: Seq<CacheVolumeSummary>, now: i64) -> Seq<Seq<char>> {
    if volumes.len() > 1 {
        volumes.map_values(|s: CacheVolumeSummary| volume_text(s, now))
    } else {
        Seq::empty()
    }
}

/// What the note shows.
pub struct CacheNote {
    pub detail: String,
    pub volumes: Vec<String>,
}

/// What the note shows. There is none where nothing is kept, or where it is always used.
pub fn cache_note(volumes: &Vec<CacheVolumeSummary>, always_use_cache: bool, now: i64) -> (r: Option<
    CacheNote,
>)
    requires
        always_use_cache || total_records(volumes@) <= u64::MAX,
    ensures
        match r {
            Some(note) => {
                &&& !always_use_cache
                &&& volumes@.len() > 0
                &&& note.detail@ == detail_text(volumes@, now)
                &&& texts(note.volumes@) == volume_texts(volumes@, now)
            },
            None => always_use_cache || volumes@.len() == 0,
        },
{
    if always_use_cache || volumes.len() == 0 {
        return None;
    }
    let total = compact(total_of(volumes));
    let age = human_age(oldest_volume(volumes), now);
    let detail = if volumes.len() == 1 {
        cat5(" — ", total.as_str(), " files cached, captured ", age.as_str(), ".")
    } else {
        let n = decimal_string(volumes.len() as u64);
        cat7(
            " — ",
            total.as_str(),
            " files across ",
            n.as_str(),
            " volumes, oldest ",
            age.as_str(),
            ".",
        )
    };
    let mut lines: Vec<String> = Vec::new();
    let ghost wanted = volume_texts(volumes@, now);
    assert(texts(lines@) =~= wanted.take(0));
    if volumes.len() > 1 {
        let mut i: usize = 0;
        while i < volumes.len()
            invariant
                i <= volumes.len(),
                volumes.len() > 1,
                wanted == volume_texts(volumes@, now),
                texts(lines@) =~= wanted.take(i as int),
            decreases volumes.len() - i,
        {
            let ghost before = lines@;
            let line = volume_detail_line(&volumes[i], now);
            lines.push(line);
            assert(texts(lines@) =~= texts(before).push(line@));
            i = i + 1;
        }
    }
    assert(texts(lines@) =~= wanted);
    Some(CacheNote { detail, volumes: lines })
}

/// Volumes have only one oldest time.
pub proof fn oldest_is_unique(volumes: Seq<CacheVolumeSummary>, a: i64, b: i64)
    requires
        is_oldest(volumes, a),
        is_oldest(volumes, b),
    ensures
        a == b,
{
}

/// The age of a cached table is told in the largest unit that it fills, from a minute and a half
/// on; a table from the future is told as one of just now.
pub proof fn ages_have_their_unit(captured: i64, now: i64, n: nat)
    ensures
        now - captured <= 89 ==> age_text(captured, now) == "just now"@,
        now - captured >= 90 && n < 60 && 60 * n <= now - captured < 60 * (n + 1) ==> age_text(
            captured,
            now,
        ) == decimal(n) + " min ago"@,
        1 <= n < 24 && 3_600 * n <= now - captured < 3_600 * (n + 1) ==> age_text(captured, now)
            == decimal(n) + " h ago"@,
        1 <= n < 7 && 86_400 * n <= now - captured < 86_400 * (n + 1) ==> age_text(captured, now)
            == decimal(n) + " d ago"@,
        1 <= n && 604_800 * n <= now - captured < 604_800 * (n + 1) ==> age_text(captured, now)
            == decimal(n) + " weeks ago"@,
{
}

/// Counts are told whole below a thousand, then in thousands, and in millions.
pub proof fn counts_have_their_unit(n: u64)
    ensures
        n <= 999 ==> compact_text(n) == decimal(n as nat),
        1_000 <= n <= 999_999 ==> compact_text(n) == quotient_text(n as nat, 1_000, 0) + "k"@,
        n >= 1_000_000 ==> compact_text(n) == quotient_text(n as nat, 1_000_000, 1) + "M"@,
{
}

/// The files of every volume count, whichever volumes stand before and behind it.
pub proof fn every_volume_counts(volumes: Seq<CacheVolumeSummary>, k: int)
    requires
        0 <= k < volumes.len(),
    ensures
        total_records(volumes) == volumes[k].record_count + total_records(volumes.remove(k)),
    decreases volumes.len(),
{
    let init = volumes.drop_last();
    if k < volumes.len() - 1 {
        every_volume_counts(init, k);
        assert(volumes.remove(k).drop_last() =~= init.remove(k));
        assert(volumes.remove(k).last() == volumes.last());
    } else {
        assert(volumes.remove(k) =~= init);
    }
}

/// With more than one volume each has its line, in order; a single one has none of its own.
pub proof fn volumes_have_their_lines(volumes: Seq<CacheVolumeSummary>, now: i64, k: int)
    requires
        0 <= k < volumes.len(),
    ensures
        volumes.len() == 1 ==> volume_texts(volumes, now).len() == 0,
        volumes.len() > 1 ==> volume_texts(volumes, now).len() == volumes.len() && volume_texts(
            volumes,
            now,
        )[k] == "  • volume "@ + short_volume(volumes[k].volume_guid@) + " — "@ + compact_text(
            volumes[k].record_count,
        ) + " files, captured "@ + age_text(volumes[k].captured_at_unix, now),
{
}

/// A volume is called by the first eight characters between the braces of its name.
pub proof fn volumes_are_called_by_their_id(id: Seq<char>)
    requires
        id.len() >= 8,
        forall|i: int| 0 <= i < id.len() ==> #[trigger] id[i] != '\\' && id[i] != '}',
    ensures
        short_volume("\\\\?\\Volume{"@ + id + "}\\"@) == id.take(8),
{
    reveal_strlit("\\\\?\\Volume{");
    reveal_strlit("}\\");
    let lead = "\\\\?\\Volume{"@;
    let end = "}\\"@;
    let whole = lead + id + end;
    assert(whole.subrange(0, lead.len() as int) =~= lead);
    let rest = whole.skip(lead.len() as int);
    assert(rest =~= id + end);
    assert(id[0] != '\\');
    assert(rest[0] == id[0]);
    if lead.is_prefix_of(rest) {
        assert(rest.subrange(0, lead.len() as int)[0] == lead[0]);
    }
    assert(without_lead(rest, lead) == rest);
    assert(without_lead(whole, lead) == rest);
    assert(rest.subrange(rest.len() - 2, rest.len() as int) =~= end);
    assert(rest.take(rest.len() - 2) =~= id);
    if end.is_suffix_of(id) {
        assert(id.subrange(id.len() - 2, id.len() as int)[1] == end[1]);
        assert(id[id.len() - 1] == '\\');
    }
    assert(without_end(id, end) == id);
    assert(without_end(rest, end) == id);
}

/// The banner tells how many files are cached and how old they are; with more than one volume, how
/// many there are and how old the oldest is.
pub proof fn banners_tell_the_oldest(volumes: Seq<CacheVolumeSummary>, now: i64, oldest: i64)
    requires
        volumes.len() > 0,
        forall|i: int| 0 <= i < volumes.len() ==> oldest <= (#[trigger] volumes[i]).captured_at_unix,
        exists|i: int| 0 <= i < volumes.len() && oldest == (#[trigger] volumes[i]).captured_at_unix,
    ensures
        volumes.len() == 1 ==> detail_text(volumes, now) == " — "@ + compact_text(
            total_records(volumes) as u64,
        ) + " files cached, captured "@ + age_text(oldest, now) + "."@,
        volumes.len() > 1 ==> detail_text(volumes, now) == " — "@ + compact_text(
            total_records(volumes) as u64,
        ) + " files across "@ + decimal(volumes.len()) + " volumes, oldest "@ + age_text(oldest, now)
            + "."@,
{
    assert(is_oldest(volumes, oldest));
    oldest_is_unique(volumes, oldest, oldest_of(volumes));
}

} // verus!
