//! The live view of a drive: how it is drawn, where its reads are drawn, and what clicks do.
use vstd::prelude::*;

use crate::gui::widgets::funnel::{full_bar, is_full_bar};
use crate::sizes::{format_size, human_size};
use crate::sort::{ordered, stable_order, stable_order_of};
use crate::tables::OverrideTable;
use crate::text::{cat2, cat3};

verus! {

/// The number of positions that scattered reads are spread over: 4 TiB.
pub const SCATTER_RANGE: u64 = 4_398_046_511_104;

/// Whether the drive is drawn as one with a seek penalty: as the user chose, and as it was
/// detected where the user chose nothing. A choice of `true` is for none.
pub open spec fn drawn_as_hdd(choice: Option<bool>, has_seek_penalty: bool) -> bool {
    match choice {
        Some(ssd) => !ssd,
        None => has_seek_penalty,
    }
}

/// Whether the drive is drawn as one with a seek penalty.
pub fn effective_hdd(choice: Option<bool>, has_seek_penalty: bool) -> (r: bool)
    ensures
        r == drawn_as_hdd(choice, has_seek_penalty),
{
    match choice {
        Some(ssd) => !ssd,
        None => has_seek_penalty,
    }
}

/// The name of a drive's kind.
pub open spec fn kind_name(hdd: bool) -> Seq<char> {
    if hdd {
        "HDD"@
    } else {
        "SSD"@
    }
}

/// The badge: the kind that was detected, behind the one that the user chose.
pub fn badge_label(choice: Option<bool>, has_seek_penalty: bool) -> (r: String)
    ensures
        r@ == (match choice {
            Some(true) => "● SSD (manual)  [auto: "@ + kind_name(has_seek_penalty) + "]"@,
            Some(false) => "● HDD (manual)  [auto: "@ + kind_name(has_seek_penalty) + "]"@,
            None => "● "@ + kind_name(has_seek_penalty),
        }),
{
    let detected = if has_seek_penalty {
        "HDD"
    } else {
        "SSD"
    };
    match choice {
        Some(true) => cat3("● SSD (manual)  [auto: ", detected, "]"),
        Some(false) => cat3("● HDD (manual)  [auto: ", detected, "]"),
        None => cat2("● ", detected),
    }
}

/// The choice after a click on the badge: from none to `true`, from `true` to `false`, and from
/// `false` to none.
pub open spec fn next_choice(choice: Option<bool>) -> Option<bool> {
    match choice {
        None => Some(true),
        Some(true) => Some(false),
        Some(false) => None,
    }
}

/// The choice for the drive, if there is one.
pub open spec fn choice_for(choices: Map<u32, bool>, drive: u32) -> Option<bool> {
    if choices.contains_key(drive) {
        Some(choices[drive])
    } else {
        None
    }
}

/// The choices after a click on the drive's badge.
pub open spec fn cycled(choices: Map<u32, bool>, drive: u32) -> Map<u32, bool> {
    match next_choice(choice_for(choices, drive)) {
        Some(ssd) => choices.insert(drive, ssd),
        None => choices.remove(drive),
    }
}

/// How the user wants drives drawn.
pub struct RenderOverrides {
    pub table: OverrideTable,
}

impl View for RenderOverrides {
    type V = Map<u32, bool>;

    open spec fn view(&self) -> Map<u32, bool> {
        self.table@
    }
}

impl RenderOverrides {
    /// No choice for any drive.
    pub fn new() -> (r: Self)
        ensures
            r@ == Map::<u32, bool>::empty(),
    {
        RenderOverrides { table: OverrideTable::new() }
    }

    /// The choice for the drive, if there is one.
    pub fn get(&self, drive: u32) -> (r: Option<bool>)
        ensures
            r == choice_for(self@, drive),
    {
        self.table.get(drive)
    }

    /// A click on the drive's badge.
    pub fn cycle(&mut self, drive: u32)
        ensures
            final(self)@ == cycled(old(self)@, drive),
    {
        let next = match self.table.get(drive) {
            None => Some(true),
            Some(ssd) => if ssd {
                Some(false)
            } else {
                None
            },
        };
        match next {
            Some(ssd) => {
                self.table.insert(drive, ssd);
            },
            None => {
                self.table.remove(drive);
            },
        }
    }
}

/// What was clicked in a drive's panel.
#[derive(Clone, Copy, Debug, PartialEq, Eq, Structural)]
pub struct PanelClicks {
    /// The panel itself.
    pub panel: bool,
    /// The badge in it, which lies on the panel.
    pub badge: bool,
}

/// The sort keys of the drives.
pub open spec fn drive_keys(ids: Seq<u32>) -> Seq<i128> {
    ids.map_values(|id: u32| id as i128)
}

/// The drives in the order of their numbers.
pub fn drive_order(ids: &Vec<u32>) -> (r: Vec<u32>)
    ensures
        r@ == ordered(ids@, drive_keys(ids@)),
{
    let mut keys: Vec<i128> = Vec::new();
    let mut i: usize = 0;
    while i < ids.len()
        invariant
            i <= ids.len(),
            keys@ =~= drive_keys(ids@).take(i as int),
        decreases ids.len() - i,
    {
        keys.push(ids[i] as i128);
        i = i + 1;
    }
    assert(keys@ =~= drive_keys(ids@));
    let order = stable_order(&keys);
    let mut r: Vec<u32> = Vec::new();
    let mut j: usize = 0;
    while j < order.len()
        invariant
            j <= order.len(),
            order@ == stable_order_of(drive_keys(ids@)),
            forall|k: int| 0 <= k < order.len() ==> #[trigger] order@[k] < ids.len(),
            r@ =~= ordered(ids@, drive_keys(ids@)).take(j as int),
        decreases order.len() - j,
    {
        assert(order@[j as int] < ids.len());
        r.push(ids[order[j]]);
        j = j + 1;
    }
    assert(r@ =~= ordered(ids@, drive_keys(ids@)));
    r
}

/// The last drive whose panel was clicked, but not its badge.
pub open spec fn last_clicked(ids: Seq<u32>, clicks: Seq<PanelClicks>) -> Option<u32>
    decreases ids.len(),
{
    if ids.len() == 0 {
        None
    } else if clicks[ids.len() - 1].panel && !clicks[ids.len() - 1].badge {
        Some(ids.last())
    } else {
        last_clicked(ids.drop_last(), clicks)
    }
}

/// The choices after the clicks on badges.
pub open spec fn after_clicks(
    choices: Map<u32, bool>,
    ids: Seq<u32>,
    clicks: Seq<PanelClicks>,
) -> Map<u32, bool>
    decreases ids.len(),
{
    if ids.len() == 0 {
        choices
    } else {
        let before = after_clicks(choices, ids.drop_last(), clicks);
        if clicks[ids.len() - 1].badge {
            cycled(before, ids.last())
        } else {
            before
        }
    }
}

/// The clicks of one frame: each badge that was clicked cycles the drive's choice. The result is
/// the drive whose panel was clicked, if any.
pub fn apply_clicks(overrides: &mut RenderOverrides, ids: &Vec<u32>, clicks: &Vec<PanelClicks>) -> (r:
    Option<u32>)
    requires
        ids.len() == clicks.len(),
    ensures
        r == last_clicked(ids@, clicks@),
        final(overrides)@ == after_clicks(old(overrides)@, ids@, clicks@),
{
    let ghost start = overrides@;
    let mut r: Option<u32> = None;
    let mut i: usize = 0;
    assert(ids@.take(0) =~= Seq::<u32>::empty());
    while i < ids.len()
        invariant
            i <= ids.len(),
            ids.len() == clicks.len(),
            r == last_clicked(ids@.take(i as int), clicks@),
            overrides@ == after_clicks(start, ids@.take(i as int), clicks@),
        decreases ids.len() - i,
    {
        assert(ids@.take(i + 1).drop_last() =~= ids@.take(i as int));
        assert(ids@.take(i + 1).last() == ids@[i as int]);
        if clicks[i].panel && !clicks[i].badge {
            r = Some(ids[i]);
        }
        if clicks[i].badge {
            overrides.cycle(ids[i]);
        }
        i = i + 1;
    }
    assert(ids@.take(i as int) =~= ids@);
    r
}

/// A position spread over `SCATTER_RANGE`.
pub open spec fn scattered(raw: u64) -> u64 {
    let a = raw.wrapping_mul(0x9E37_79B9_7F4A_7C15);
    let b = (a ^ (a >> 30)).wrapping_mul(0xBF58_476D_1CE4_E5B9);
    let c = (b ^ (b >> 27)).wrapping_mul(0x94D0_49BB_1331_11EB);
    (c ^ (c >> 31)) % SCATTER_RANGE
}

/// Where a read is drawn. A drive that has a seek penalty but is drawn as one without has its
/// reads scattered; every other read is drawn where it was.
pub open spec fn drawn_position(as_hdd: bool, has_seek_penalty: bool, raw: u64) -> u64 {
    if has_seek_penalty && !as_hdd {
        scattered(raw)
    } else {
        raw
    }
}

/// Where a read is drawn.
pub fn effective_lcn(as_hdd: bool, has_seek_penalty: bool, raw: u64) -> (r: u64)
    ensures
        r == drawn_position(as_hdd, has_seek_penalty, raw),
{
    if as_hdd || !has_seek_penalty {
        return raw;
    }
    let a: u64 = raw.wrapping_mul(0x9E37_79B9_7F4A_7C15);
    let b: u64 = (a ^ (a >> 30)).wrapping_mul(0xBF58_476D_1CE4_E5B9);
    let c: u64 = (b ^ (b >> 27)).wrapping_mul(0x94D0_49BB_1331_11EB);
    (c ^ (c >> 31)) % SCATTER_RANGE
}

/// Where the reads are drawn.
pub open spec fn drawn_positions(as_hdd: bool, has_seek_penalty: bool, reads: Seq<u64>) -> Seq<
    u64,
> {
    reads.map_values(|raw: u64| drawn_position(as_hdd, has_seek_penalty, raw))
}

/// One read in so many is drawn, so that no more than about this many dots appear.
pub open spec fn dot_stride(as_hdd: bool, total: nat) -> nat {
    let most: nat = if as_hdd {
        1024
    } else {
        768
    };
    if total / most == 0 {
        1
    } else {
        total / most
    }
}

/// How far apart two positions are.
pub open spec fn distance(a: u64, b: u64) -> u64 {
    if a >= b {
        (a - b) as u64
    } else {
        (b - a) as u64
    }
}

/// What the trace of a drive's reads shows.
pub struct Trace {
    /// Where the reads are drawn, oldest first.
    pub positions: Vec<u64>,
    /// The position at the top.
    pub top: u64,
    /// The places of the reads that get a dot.
    pub dots: Vec<usize>,
    /// How far apart the first and the last read are; nothing without reads.
    pub span: Option<String>,
}

/// Whether `dots` are the places below `total` that `stride` divides, in their order.
pub open spec fn are_dots(dots: Seq<usize>, total: nat, stride: nat) -> bool {
    &&& dots.len() == (total + stride - 1) / stride as int
    &&& forall|k: int| 0 <= k < dots.len() ==> #[trigger] dots[k] == k * stride && dots[k] < total
}

fn dot_places(total: usize, stride: usize) -> (r: Vec<usize>)
    requires
        stride >= 1,
    ensures
        are_dots(r@, total as nat, stride as nat),
{
    let mut r: Vec<usize> = Vec::new();
    let mut i: usize = 0;
    let mut wanted: usize = 0;
    assert(r.len() * stride == 0) by (nonlinear_arith)
        requires
            r.len() == 0,
    ;
    while i < total
        invariant
            i <= total,
            stride >= 1,
            i <= wanted,
            wanted < i + stride,
            wanted == r.len() * stride,
            forall|k: int| 0 <= k < r.len() ==> #[trigger] r@[k] == k * stride && r@[k] < total,
        decreases total - i,
    {
        if i == wanted {
            r.push(i);
            if stride > total - i {
                assert((total + stride - 1) / stride as int == r.len()) by (nonlinear_arith)
                    requires
                        stride >= 1,
                        i < total,
                        i == (r.len() - 1) * stride,
                        stride > total - i,
                ;
                return r;
            }
            assert(i + stride == r.len() * stride) by (nonlinear_arith)
                requires
                    i == (r.len() - 1) * stride,
            ;
            wanted = i + stride;
        }
        i = i + 1;
    }
    assert((total + stride - 1) / stride as int == r.len()) by (nonlinear_arith)
        requires
            stride >= 1,
            total <= r.len() * stride,
            r.len() * stride < total + stride,
    ;
    r
}

/// What the trace of a drive's reads shows.
pub fn lcn_trace(as_hdd: bool, has_seek_penalty: bool, reads: &Vec<u64>) -> (r: Trace)
    ensures
        r.positions@ == drawn_positions(as_hdd, has_seek_penalty, reads@),
        is_full_bar(r.positions@, r.top),
        are_dots(r.dots@, reads@.len(), dot_stride(as_hdd, reads@.len())),
        match r.span {
            Some(text) => reads@.len() > 0 && text@ == (if as_hdd {
                "sequential   Δ "@
            } else {
                "scattered    Δ "@
            }) + human_size(
                distance(
                    drawn_position(as_hdd, has_seek_penalty, reads@.last()),
                    drawn_position(as_hdd, has_seek_penalty, reads@.first()),
                ),
            ) + " this window"@,
            None => reads@.len() == 0,
        },
{
    let mut positions: Vec<u64> = Vec::new();
    let mut i: usize = 0;
    while i < reads.len()
        invariant
            i <= reads.len(),
            positions@ =~= drawn_positions(as_hdd, has_seek_penalty, reads@).take(i as int),
        decreases reads.len() - i,
    {
        positions.push(effective_lcn(as_hdd, has_seek_penalty, reads[i]));
        i = i + 1;
    }
    assert(positions@ =~= drawn_positions(as_hdd, has_seek_penalty, reads@));
    let top: u64 = full_bar(&positions);
    let most: usize = if as_hdd {
        1024
    } else {
        768
    };
    let quotient: usize = reads.len() / most;
    let stride: usize = if quotient == 0 {
        1
    } else {
        quotient
    };
    let dots = dot_places(reads.len(), stride);
    let span = if reads.len() == 0 {
        None
    } else {
        let first: u64 = positions[0];
        let last: u64 = positions[reads.len() - 1];
        let gap: u64 = if last >= first {
            last - first
        } else {
            first - last
        };
        let size = format_size(gap);
        let lead = if as_hdd {
            "sequential   Δ "
        } else {
            "scattered    Δ "
        };
        Some(cat3(lead, size.as_str(), " this window"))
    };
    Trace { positions, top, dots, span }
}

/// Three clicks on a badge bring the choices back, and no other drive's choice is touched.
pub proof fn three_clicks_restore(choices: Map<u32, bool>, drive: u32)
    ensures
        cycled(cycled(cycled(choices, drive), drive), drive) == choices,
        forall|other: u32|
            other != drive ==> #[trigger] choice_for(cycled(choices, drive), other) == choice_for(
                choices,
                other,
            ),
{
    assert(cycled(cycled(cycled(choices, drive), drive), drive) =~= choices);
}

/// A badge that is clicked always changes what the user chose for the drive.
pub proof fn every_click_counts(choices: Map<u32, bool>, drive: u32)
    ensures
        choice_for(cycled(choices, drive), drive) != choice_for(choices, drive),
        choice_for(cycled(choices, drive), drive) == next_choice(choice_for(choices, drive)),
{
}

/// A drive that is drawn as it was detected has its reads drawn where they were, only a drive with
/// a seek penalty that is drawn without one has reads moved, and moved reads stay within the range.
pub proof fn reads_are_moved_only_to_scatter(as_hdd: bool, has_seek_penalty: bool, raw: u64)
    ensures
        as_hdd == has_seek_penalty ==> drawn_position(as_hdd, has_seek_penalty, raw) == raw,
        drawn_position(as_hdd, has_seek_penalty, raw) != raw ==> has_seek_penalty && !as_hdd,
        has_seek_penalty && !as_hdd ==> drawn_position(as_hdd, has_seek_penalty, raw)
            < SCATTER_RANGE,
{
}

/// A click on a badge never counts as a click on the panel it lies on: a drive that is picked had
/// its panel clicked, and not its badge.
pub proof fn badges_do_not_select(ids: Seq<u32>, clicks: Seq<PanelClicks>)
    ensures
        last_clicked(ids, clicks) matches Some(drive) ==> exists|i: int|
            0 <= i < ids.len() && ids[i] == drive && (#[trigger] clicks[i]).panel
                && !clicks[i].badge,
    decreases ids.len(),
{
    if ids.len() > 0 {
        badges_do_not_select(ids.drop_last(), clicks);
        if let Some(drive) = last_clicked(ids, clicks) {
            let last = ids.len() - 1;
            if clicks[last].panel && !clicks[last].badge {
                assert(ids[last] == drive);
            } else {
                let front = ids.drop_last();
                let i = choose|i: int|
                    0 <= i < front.len() && front[i] == drive && (#[trigger] clicks[i]).panel
                        && !clicks[i].badge;
                assert(ids[i] == drive);
            }
        }
    }
}

/// A drive is drawn as the user chose, and as it was detected where nothing was chosen. Clicks go
/// from what was detected to a solid-state drive, to a disk and back.
pub proof fn choices_decide_how_drives_are_drawn(has_seek_penalty: bool)
    ensures
        drawn_as_hdd(None, has_seek_penalty) == has_seek_penalty,
        !drawn_as_hdd(Some(true), has_seek_penalty),
        drawn_as_hdd(Some(false), has_seek_penalty),
        next_choice(None) == Some(true),
        next_choice(Some(true)) == Some(false),
        next_choice(Some(false)) is None,
        kind_name(true) == "HDD"@,
        kind_name(false) == "SSD"@,
{
}

/// The drive that is picked is the last one whose panel was clicked beside its badge; without such
/// a click none is.
pub proof fn the_last_click_picks(ids: Seq<u32>, clicks: Seq<PanelClicks>, k: int)
    requires
        0 <= k < ids.len(),
        ids.len() <= clicks.len(),
        forall|j: int|
            k < j < ids.len() ==> !((#[trigger] clicks[j]).panel && !clicks[j].badge),
    ensures
        clicks[k].panel && !clicks[k].badge ==> last_clicked(ids, clicks) == Some(ids[k]),
        k == 0 && !(clicks[k].panel && !clicks[k].badge) ==> last_clicked(ids, clicks) is None,
    decreases ids.len(),
{
    let last = ids.len() - 1;
    if k < last {
        assert(!(clicks[last].panel && !clicks[last].badge));
        the_last_click_picks(ids.drop_last(), clicks, k);
    } else if k == 0 {
        assert(last_clicked(ids.drop_last(), clicks) is None);
    }
}

/// A click on the badge of one drive moves that drive's choice on; a drive whose badge was not
/// clicked keeps its choice.
pub proof fn clicks_move_their_own_drive(
    choices: Map<u32, bool>,
    ids: Seq<u32>,
    clicks: Seq<PanelClicks>,
    drive: u32,
)
    requires
        ids.len() <= clicks.len(),
        forall|j: int| 0 <= j < ids.len() && (#[trigger] ids[j]) == drive ==> !clicks[j].badge,
    ensures
        choice_for(after_clicks(choices, ids, clicks), drive) == choice_for(choices, drive),
    decreases ids.len(),
{
    if ids.len() > 0 {
        let front = ids.drop_last();
        let last = ids.len() - 1;
        assert forall|j: int| 0 <= j < front.len() && (#[trigger] front[j]) == drive implies !clicks[j].badge by {
            assert(front[j] == ids[j]);
        }
        clicks_move_their_own_drive(choices, front, clicks, drive);
        assert(ids.last() == ids[last]);
    }
}

/// A badge that was clicked, and whose drive is listed once, has moved its choice on.
pub proof fn clicked_badges_move_on(
    choices: Map<u32, bool>,
    ids: Seq<u32>,
    clicks: Seq<PanelClicks>,
    k: int,
)
    requires
        0 <= k < ids.len(),
        ids.len() <= clicks.len(),
        clicks[k].badge,
        forall|j: int| 0 <= j < ids.len() && j != k ==> #[trigger] ids[j] != ids[k],
    ensures
        choice_for(after_clicks(choices, ids, clicks), ids[k]) == next_choice(choice_for(choices, ids[k])),
    decreases ids.len(),
{
    let front = ids.drop_last();
    let last = ids.len() - 1;
    if k < last {
        assert forall|j: int| 0 <= j < front.len() && j != k implies #[trigger] front[j] != front[k] by {
            assert(front[j] == ids[j]);
        }
        assert(front[k] == ids[k]);
        clicked_badges_move_on(choices, front, clicks, k);
        assert(ids[last] != ids[k]);
    } else {
        assert forall|j: int| 0 <= j < front.len() && (#[trigger] front[j]) == ids[k] implies !clicks[j].badge by {
            assert(front[j] == ids[j]);
        }
        clicks_move_their_own_drive(choices, front, clicks, ids[k]);
    }
}

/// Every read has its position, in order, and with few reads each has its dot: up to twice 1024
/// reads of a disk, and up to twice 768 of another drive.
pub proof fn few_reads_have_their_dots(as_hdd: bool, penalty: bool, reads: Seq<u64>, dots: Seq<usize>, k: int)
    requires
        are_dots(dots, reads.len(), dot_stride(as_hdd, reads.len())),
        reads.len() < if as_hdd {
            2048nat
        } else {
            1536nat
        },
        0 <= k < reads.len(),
    ensures
        drawn_positions(as_hdd, penalty, reads).len() == reads.len(),
        dots.len() == reads.len(),
        dots[k] == k,
        !penalty || as_hdd ==> drawn_positions(as_hdd, penalty, reads)[k] == reads[k],
{
    assert(dot_stride(as_hdd, reads.len()) == 1);
    assert((reads.len() + 1 - 1) / 1int == reads.len());
    assert(dots[k] == k * 1);
}

/// The distance of two positions is the same from either of them.
pub proof fn distances_have_no_direction(a: u64, b: u64)
    ensures
        distance(a, b) == distance(b, a),
        a <= b ==> a + distance(a, b) == b,
{
}

/// The dots start at the first read, are the same number of reads apart, and reach to the end:
/// behind the last one there are fewer reads than that.
pub proof fn dots_are_spread_evenly(dots: Seq<usize>, total: nat, stride: nat, k: int)
    requires
        are_dots(dots, total, stride),
        stride >= 1,
        total >= 1,
        0 <= k < dots.len() - 1,
    ensures
        dots[0] == 0,
        dots[k + 1] == dots[k] + stride,
        dots.last() < total,
        total <= dots.last() + stride,
{
    assert(dots[0] == 0 * stride);
    assert(dots[k + 1] == (k + 1) * stride);
    assert(dots[k] == k * stride);
    assert((k + 1) * stride == k * stride + stride) by (nonlinear_arith);
    let n = dots.len() as int;
    assert(dots[n - 1] == (n - 1) * stride);
    vstd::arithmetic::div_mod::lemma_fundamental_div_mod(total + stride - 1, stride as int);
    assert((total + stride - 1) % (stride as int) < stride);
    assert(stride * n == (n - 1) * stride + stride) by (nonlinear_arith);
}

/// Of many reads only so many have dots that they stay below twice the most that a panel holds:
/// 1024 for a disk, and 768 for another drive.
pub proof fn dots_stay_few(as_hdd: bool, total: nat)
    ensures
        dot_stride(as_hdd, total) >= 1,
        as_hdd ==> total < (dot_stride(as_hdd, total) + 1) * 1024,
        !as_hdd ==> total < (dot_stride(as_hdd, total) + 1) * 768,
        dot_stride(as_hdd, total) > 1 ==> dot_stride(as_hdd, total) * (if as_hdd {
            1024nat
        } else {
            768nat
        }) <= total,
{
}

} // verus!
