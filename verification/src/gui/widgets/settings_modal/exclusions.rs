//! The tab with the exclusion rules: the packs that are switched on and the user's own rules.
use vstd::prelude::*;

use crate::sort::{
    comes_before, is_stable_order, ordered, stable_order, stable_order_exists,
    stable_order_names_every_place, stable_order_of,
};
use crate::text::{
    cat4, cat5, cat7, chars_of, decimal, decimal_string, join_with, joined, plural, plural_of,
    texts, trimmed, trimmed_text, wide_decimal_string,
};

verus! {

/// Which files are left out of a scan. A pack is named by its place in the list of all packs.
#[derive(Clone, Debug)]
pub struct ExclusionConfig {
    pub enabled: bool,
    pub active_packs: Vec<usize>,
    pub custom_extensions: Vec<String>,
    pub custom_patterns: Vec<String>,
}

/// The packs without one of them.
pub open spec fn without(packs: Seq<usize>, pack: usize) -> Seq<usize>
    decreases packs.len(),
{
    if packs.len() == 0 {
        Seq::empty()
    } else if packs.last() == pack {
        without(packs.drop_last(), pack)
    } else {
        without(packs.drop_last(), pack).push(packs.last())
    }
}

/// The keys by which packs are sorted: their places in the list of all packs.
pub open spec fn pack_keys(packs: Seq<usize>) -> Seq<i128> {
    packs.map_values(|p: usize| p as i128)
}

/// The packs in the order of the list of all packs.
pub open spec fn in_list_order(packs: Seq<usize>) -> Seq<usize> {
    ordered(packs, pack_keys(packs))
}

/// The active packs after a pack was switched.
pub open spec fn switched(packs: Seq<usize>, pack: usize, on: bool) -> Seq<usize> {
    if !on {
        without(packs, pack)
    } else if packs.contains(pack) {
        packs
    } else {
        in_list_order(packs.push(pack))
    }
}

fn has_pack(packs: &Vec<usize>, pack: usize) -> (r: bool)
    ensures
        r == packs@.contains(pack),
{
    let mut i: usize = 0;
    while i < packs.len()
        invariant
            i <= packs.len(),
            forall|k: int| 0 <= k < i ==> packs@[k] != pack,
        decreases packs.len() - i,
    {
        if packs[i] == pack {
            assert(packs@[i as int] == pack);
            return true;
        }
        i = i + 1;
    }
    false
}

/// Switches a pack on or off. Packs that are on stand in the order of the list of all packs, so
/// that what is saved does not depend on the order of the clicks.
pub fn switch_pack(cfg: &mut ExclusionConfig, pack: usize, on: bool)
    ensures
        final(cfg).active_packs@ == switched(old(cfg).active_packs@, pack, on),
        final(cfg).enabled == old(cfg).enabled,
        final(cfg).custom_extensions == old(cfg).custom_extensions,
        final(cfg).custom_patterns == old(cfg).custom_patterns,
{
    let ghost before = cfg.active_packs@;
    if !on {
        let mut kept: Vec<usize> = Vec::new();
        let mut i: usize = 0;
        assert(before.take(0) =~= Seq::<usize>::empty());
        while i < cfg.active_packs.len()
            invariant
                i <= cfg.active_packs.len(),
                cfg.active_packs@ == before,
                kept@ == without(before.take(i as int), pack),
            decreases cfg.active_packs.len() - i,
        {
            assert(before.take(i + 1).drop_last() =~= before.take(i as int));
            assert(before.take(i + 1).last() == before[i as int]);
            if cfg.active_packs[i] != pack {
                kept.push(cfg.active_packs[i]);
            }
            i = i + 1;
        }
        assert(before.take(i as int) =~= before);
        cfg.active_packs = kept;
    } else if !has_pack(&cfg.active_packs, pack) {
        let mut packs: Vec<usize> = Vec::new();
        let mut keys: Vec<i128> = Vec::new();
        let mut i: usize = 0;
        while i < cfg.active_packs.len()
            invariant
                i <= cfg.active_packs.len(),
                cfg.active_packs@ == before,
                packs@ =~= before.take(i as int),
                keys@ =~= pack_keys(packs@),
            decreases cfg.active_packs.len() - i,
        {
            packs.push(cfg.active_packs[i]);
            keys.push(cfg.active_packs[i] as i128);
            i = i + 1;
        }
        packs.push(pack);
        keys.push(pack as i128);
        let ghost all = before.push(pack);
        assert(packs@ =~= all);
        assert(keys@ =~= pack_keys(all));
        let order = stable_order(&keys);
        let mut sorted: Vec<usize> = Vec::new();
        let mut j: usize = 0;
        while j < order.len()
            invariant
                j <= order.len(),
                order.len() == packs.len(),
                packs@ == all,
                is_stable_order(pack_keys(all), order@),
                order@ == stable_order_of(pack_keys(all)),
                sorted@ =~= in_list_order(all).take(j as int),
            decreases order.len() - j,
        {
            let at: usize = order[j];
            assert(in_list_order(all)[j as int] == all[at as int]);
            sorted.push(packs[at]);
            j = j + 1;
        }
        assert(in_list_order(all).take(j as int) =~= in_list_order(all));
        cfg.active_packs = sorted;
    }
}

/// The lines of a text: what stands between its line breaks.
pub open spec fn pieces(s: Seq<char>) -> Seq<Seq<char>>
    decreases s.len(),
{
    if s.len() == 0 {
        seq![Seq::<char>::empty()]
    } else {
        let before = pieces(s.drop_last());
        if s.last() == '\n' {
            before.push(Seq::empty())
        } else {
            before.drop_last().push(before.last().push(s.last()))
        }
    }
}

/// The lines without white space at their ends, but for those that are then empty.
pub open spec fn rules_among(lines: Seq<Seq<char>>) -> Seq<Seq<char>>
    decreases lines.len(),
{
    if lines.len() == 0 {
        Seq::empty()
    } else {
        let before = rules_among(lines.drop_last());
        let rule = trimmed(lines.last());
        if rule.len() == 0 {
            before
        } else {
            before.push(rule)
        }
    }
}

/// The rules that a text holds, one on each line.
pub open spec fn rules_in(s: Seq<char>) -> Seq<Seq<char>> {
    rules_among(pieces(s))
}

/// The rules that a text holds, one on each line, without the white space around them. Empty
/// lines hold none.
pub fn parse_rules(text: &str) -> (r: Vec<String>)
    ensures
        texts(r@) == rules_in(text@),
{
    let v = chars_of(text);
    let mut r: Vec<String> = Vec::new();
    let mut start: usize = 0;
    let mut i: usize = 0;
    assert(v@.take(0) =~= Seq::<char>::empty());
    assert(v@.subrange(0, 0) =~= Seq::<char>::empty());
    assert(pieces(v@.take(0)).drop_last() =~= Seq::<Seq<char>>::empty());
    assert(texts(r@) =~= Seq::<Seq<char>>::empty());
    while i < v.len()
        invariant
            start <= i <= v.len(),
            v@ == text@,
            pieces(v@.take(i as int)).len() > 0,
            pieces(v@.take(i as int)).last() == v@.subrange(start as int, i as int),
            texts(r@) == rules_among(pieces(v@.take(i as int)).drop_last()),
        decreases v.len() - i,
    {
        let ghost seen = v@.take(i as int);
        let ghost now = v@.take(i + 1);
        assert(now.drop_last() =~= seen);
        assert(now.last() == v@[i as int]);
        if v[i] == '\n' {
            let rule = trimmed_text(&v, start, i);
            let ghost before = r@;
            assert(pieces(now).drop_last() =~= pieces(seen));
            if rule.as_str().unicode_len() > 0 {
                r.push(rule);
                assert(texts(r@) =~= texts(before).push(rule@));
            }
            start = i + 1;
            assert(v@.subrange(start as int, i + 1) =~= Seq::<char>::empty());
        } else {
            assert(pieces(now).drop_last() =~= pieces(seen).drop_last());
            assert(v@.subrange(start as int, i + 1) =~= v@.subrange(start as int, i as int).push(
                v@[i as int],
            ));
        }
        i = i + 1;
    }
    assert(v@.take(i as int) =~= v@);
    let rule = trimmed_text(&v, start, i);
    let ghost before = r@;
    if rule.as_str().unicode_len() > 0 {
        r.push(rule);
        assert(texts(r@) =~= texts(before).push(rule@));
    }
    r
}

/// The text of the field that holds the rules: one on each line.
pub fn rules_text(rules: &Vec<String>) -> (r: String)
    ensures
        r@ == joined(texts(rules@), "\n"@),
{
    join_with(rules, "\n")
}

/// An edit of the field with the user's extensions.
pub fn set_custom_extensions(cfg: &mut ExclusionConfig, text: &str)
    ensures
        texts(final(cfg).custom_extensions@) == rules_in(text@),
        final(cfg).enabled == old(cfg).enabled,
        final(cfg).active_packs == old(cfg).active_packs,
        final(cfg).custom_patterns == old(cfg).custom_patterns,
{
    cfg.custom_extensions = parse_rules(text);
}

/// An edit of the field with the user's path patterns.
pub fn set_custom_patterns(cfg: &mut ExclusionConfig, text: &str)
    ensures
        texts(final(cfg).custom_patterns@) == rules_in(text@),
        final(cfg).enabled == old(cfg).enabled,
        final(cfg).active_packs == old(cfg).active_packs,
        final(cfg).custom_extensions == old(cfg).custom_extensions,
{
    cfg.custom_patterns = parse_rules(text);
}

/// What is said of a pack that is on for new installs.
pub fn pack_hint(safe: bool) -> (r: Option<&'static str>)
    ensures
        match r {
            Some(line) => safe && line@
                == "Safe-defaults pack (on by default for new installs in v0.2.7+). Recommended to leave ON unless you specifically want to find duplicates among files of this kind."@,
            None => !safe,
        },
{
    if safe {
        Some(
            "Safe-defaults pack (on by default for new installs in v0.2.7+). Recommended to leave ON unless you specifically want to find duplicates among files of this kind.",
        )
    } else {
        None
    }
}

/// A click on the button that brings the defaults back: the filter is on, the packs that are on
/// for new installs are active, and the user's own rules are gone.
pub fn restore_safe_defaults(cfg: &mut ExclusionConfig, safe_packs: &Vec<usize>)
    ensures
        final(cfg).enabled,
        final(cfg).active_packs@ == safe_packs@,
        final(cfg).custom_extensions@.len() == 0,
        final(cfg).custom_patterns@.len() == 0,
{
    let mut packs: Vec<usize> = Vec::new();
    let mut i: usize = 0;
    while i < safe_packs.len()
        invariant
            i <= safe_packs.len(),
            packs@ =~= safe_packs@.take(i as int),
        decreases safe_packs.len() - i,
    {
        packs.push(safe_packs[i]);
        i = i + 1;
    }
    *cfg = ExclusionConfig {
        enabled: true,
        active_packs: packs,
        custom_extensions: Vec::new(),
        custom_patterns: Vec::new(),
    };
}

/// How many rules a pack holds.
#[derive(Clone, Copy, Debug)]
pub struct PackSize {
    pub extensions: usize,
    pub paths: usize,
}

/// The label of a pack: its name and how many rules it holds.
pub open spec fn pack_text(name: Seq<char>, size: PackSize) -> Seq<char> {
    name + "  ("@ + decimal(size.extensions as nat) + " extension"@ + plural(
        size.extensions as int,
    ) + ", "@ + (decimal(size.paths as nat) + " path pattern"@ + plural(size.paths as int) + ")"@)
}

/// The label of a pack: its name and how many rules it holds.
pub fn pack_label(name: &str, size: PackSize) -> (r: String)
    ensures
        r@ == pack_text(name@, size),
{
    let extensions = decimal_string(size.extensions as u64);
    let paths = decimal_string(size.paths as u64);
    let rest = cat4(
        paths.as_str(),
        " path pattern",
        plural_of(size.paths as u64),
        ")",
    );
    cat7(
        name,
        "  (",
        extensions.as_str(),
        " extension",
        plural_of(size.extensions as u64),
        ", ",
        rest.as_str(),
    )
}

/// The size of the pack at the given place.
pub open spec fn size_at(sizes: Seq<PackSize>, pack: usize) -> PackSize {
    if pack < sizes.len() {
        sizes[pack as int]
    } else {
        PackSize { extensions: 0, paths: 0 }
    }
}

/// How many extensions and path patterns the packs hold together.
pub open spec fn rules_held(sizes: Seq<PackSize>, packs: Seq<usize>) -> (nat, nat)
    decreases packs.len(),
{
    if packs.len() == 0 {
        (0, 0)
    } else {
        let before = rules_held(sizes, packs.drop_last());
        let size = size_at(sizes, packs.last());
        (before.0 + size.extensions as nat, before.1 + size.paths as nat)
    }
}

/// The line that counts the rules in force.
pub open spec fn active_text(cfg: ExclusionConfig, sizes: Seq<PackSize>) -> Seq<char> {
    let held = rules_held(sizes, cfg.active_packs@);
    let extensions = if cfg.enabled {
        held.0 + cfg.custom_extensions@.len()
    } else {
        0
    };
    let paths = if cfg.enabled {
        held.1 + cfg.custom_patterns@.len()
    } else {
        0
    };
    "Active: "@ + decimal(extensions) + " ext rules · "@ + decimal(paths) + " path rules"@
}

/// The line that counts the rules in force: those of the active packs and the user's own, or
/// none where the filter is off.
pub fn active_line(cfg: &ExclusionConfig, sizes: &Vec<PackSize>) -> (r: String)
    ensures
        r@ == active_text(*cfg, sizes@),
{
    let packs = &cfg.active_packs;
    let mut extensions: u128 = 0;
    let mut paths: u128 = 0;
    let mut i: usize = 0;
    while i < packs.len()
        invariant
            i <= packs.len(),
            extensions == rules_held(sizes@, packs@.take(i as int)).0,
            paths == rules_held(sizes@, packs@.take(i as int)).1,
            extensions <= i * 0xffff_ffff_ffff_ffff,
            paths <= i * 0xffff_ffff_ffff_ffff,
        decreases packs.len() - i,
    {
        assert(packs@.take(i + 1).drop_last() =~= packs@.take(i as int));
        assert(packs@.take(i + 1).last() == packs@[i as int]);
        assert(i * 0xffff_ffff_ffff_ffff <= 0xffff_ffff_ffff_ffff * 0xffff_ffff_ffff_ffff)
            by (nonlinear_arith)
            requires
                i <= 0xffff_ffff_ffff_ffff,
        ;
        if packs[i] < sizes.len() {
            let size = sizes[packs[i]];
            extensions = extensions + size.extensions as u128;
            paths = paths + size.paths as u128;
        }
        i = i + 1;
    }
    assert(packs@.take(i as int) =~= packs@);
    assert(i * 0xffff_ffff_ffff_ffff <= 0xffff_ffff_ffff_ffff * 0xffff_ffff_ffff_ffff)
        by (nonlinear_arith)
        requires
            i <= 0xffff_ffff_ffff_ffff,
    ;
    let all_extensions: u128 = if cfg.enabled {
        extensions + cfg.custom_extensions.len() as u128
    } else {
        0
    };
    let all_paths: u128 = if cfg.enabled {
        paths + cfg.custom_patterns.len() as u128
    } else {
        0
    };
    let e = wide_decimal_string(all_extensions);
    let p = wide_decimal_string(all_paths);
    cat5("Active: ", e.as_str(), " ext rules · ", p.as_str(), " path rules")
}

proof fn without_holds(packs: Seq<usize>, pack: usize, other: usize)
    ensures
        without(packs, pack).contains(other) <==> (packs.contains(other) && other != pack),
    decreases packs.len(),
{
    if packs.len() > 0 {
        let front = packs.drop_last();
        let before = without(front, pack);
        let after = without(packs, pack);
        without_holds(front, pack, other);
        if before.contains(other) {
            let i = choose|i: int| 0 <= i < before.len() && before[i] == other;
            assert(after[i] == other);
        }
        if after.contains(other) {
            let i = choose|i: int| 0 <= i < after.len() && after[i] == other;
            if i < before.len() {
                assert(before[i] == other);
            }
        }
        if packs.contains(other) {
            let i = choose|i: int| 0 <= i < packs.len() && packs[i] == other;
            if i < front.len() {
                assert(front[i] == other);
            } else if other != pack {
                assert(after[before.len() as int] == other);
            }
        }
        if front.contains(other) {
            let i = choose|i: int| 0 <= i < front.len() && front[i] == other;
            assert(packs[i] == other);
        }
        if packs.last() == other {
            assert(packs[packs.len() - 1] == other);
        }
    }
}

/// Switching a pack puts exactly that pack on or off, and leaves every other as it was.
pub proof fn switching_one_pack_leaves_the_others(
    packs: Seq<usize>,
    pack: usize,
    on: bool,
    other: usize,
)
    requires
        packs.len() < usize::MAX,
    ensures
        switched(packs, pack, on).contains(pack) == on,
        other != pack ==> switched(packs, pack, on).contains(other) == packs.contains(other),
{
    without_holds(packs, pack, pack);
    without_holds(packs, pack, other);
    if on && !packs.contains(pack) {
        let all = packs.push(pack);
        assert(all[packs.len() as int] == pack);
        sorting_keeps(all, pack);
        sorting_keeps(all, other);
        if packs.contains(other) {
            let i = choose|i: int| 0 <= i < packs.len() && packs[i] == other;
            assert(all[i] == other);
        }
        if all.contains(other) && other != pack {
            let i = choose|i: int| 0 <= i < all.len() && all[i] == other;
            assert(packs[i] == other);
        }
    }
}

proof fn sorting_keeps(packs: Seq<usize>, pack: usize)
    requires
        packs.len() <= usize::MAX,
    ensures
        in_list_order(packs).contains(pack) <==> packs.contains(pack),
{
    let keys = pack_keys(packs);
    stable_order_exists(keys);
    let order = stable_order_of(keys);
    let sorted = in_list_order(packs);
    if sorted.contains(pack) {
        let i = choose|i: int| 0 <= i < sorted.len() && sorted[i] == pack;
        assert(order[i] < keys.len());
        assert(packs[order[i] as int] == pack);
    }
    if packs.contains(pack) {
        let a = choose|a: int| 0 <= a < packs.len() && packs[a] == pack;
        stable_order_names_every_place(keys, order, a as usize);
        let i = choose|i: int| 0 <= i < order.len() && order[i] == a as usize;
        assert(sorted[i] == pack);
    }
}

/// After a pack was switched on, the packs stand in the order of the list of all packs.
pub proof fn switching_on_sorts(packs: Seq<usize>, pack: usize, i: int, j: int)
    requires
        packs.len() < usize::MAX,
        !packs.contains(pack),
        0 <= i < j < switched(packs, pack, true).len(),
    ensures
        switched(packs, pack, true)[i] <= switched(packs, pack, true)[j],
{
    let all = packs.push(pack);
    let keys = pack_keys(all);
    stable_order_exists(keys);
    let order = stable_order_of(keys);
    assert(comes_before(keys, order[i], order[j]));
    assert(order[i] < keys.len() && order[j] < keys.len());
}

/// Whether a rule can stand on a line of its own: it is not empty, has no white space at its
/// ends and no line break in it.
pub open spec fn is_rule(s: Seq<char>) -> bool {
    s.len() > 0 && trimmed(s) == s && !s.contains('\n')
}

proof fn pieces_of_joined(a: Seq<char>, b: Seq<char>)
    requires
        !b.contains('\n'),
    ensures
        pieces(a + "\n"@ + b) == pieces(a).push(b),
    decreases b.len(),
{
    reveal_strlit("\n");
    let s = a + "\n"@ + b;
    if b.len() == 0 {
        assert(s.drop_last() =~= a);
        assert(s.last() == '\n');
        assert(b =~= Seq::<char>::empty());
    } else {
        let front = b.drop_last();
        assert(!front.contains('\n')) by {
            if front.contains('\n') {
                let i = choose|i: int| 0 <= i < front.len() && front[i] == '\n';
                assert(b[i] == '\n');
            }
        }
        pieces_of_joined(a, front);
        assert(s.drop_last() =~= a + "\n"@ + front);
        assert(s.last() == b.last());
        assert(b.last() != '\n') by {
            assert(b[b.len() - 1] == b.last());
        }
        let before = pieces(a).push(front);
        assert(before.drop_last() =~= pieces(a));
        assert(before.last() == front);
        assert(front.push(b.last()) =~= b);
    }
}

proof fn pieces_of_one(b: Seq<char>)
    requires
        !b.contains('\n'),
    ensures
        pieces(b) == seq![b],
    decreases b.len(),
{
    if b.len() == 0 {
        assert(b =~= Seq::<char>::empty());
    } else {
        let front = b.drop_last();
        assert(!front.contains('\n')) by {
            if front.contains('\n') {
                let i = choose|i: int| 0 <= i < front.len() && front[i] == '\n';
                assert(b[i] == '\n');
            }
        }
        pieces_of_one(front);
        assert(b[b.len() - 1] == b.last());
        assert(seq![front].drop_last() =~= Seq::<Seq<char>>::empty());
        assert(front.push(b.last()) =~= b);
        assert(pieces(b) =~= seq![b]);
    }
}

/// The field gives back the rules that were put into it.
pub proof fn rules_come_back(rules: Seq<Seq<char>>)
    requires
        forall|i: int| 0 <= i < rules.len() ==> is_rule(#[trigger] rules[i]),
    ensures
        rules_in(joined(rules, "\n"@)) == rules,
    decreases rules.len(),
{
    reveal_with_fuel(rules_among, 3);
    if rules.len() == 0 {
        let empty = Seq::<char>::empty();
        assert(joined(rules, "\n"@) == empty);
        assert(pieces(empty) == seq![empty]);
        assert(trimmed(empty) == empty);
        assert(seq![empty].drop_last() =~= Seq::<Seq<char>>::empty());
        assert(rules_among(seq![empty]) =~= rules);
    } else {
        let front = rules.drop_last();
        let last = rules.last();
        assert(rules[rules.len() - 1] == last);
        assert forall|i: int| 0 <= i < front.len() implies is_rule(#[trigger] front[i]) by {
            assert(rules[i] == front[i]);
        }
        rules_come_back(front);
        if rules.len() == 1 {
            pieces_of_one(last);
            assert(seq![last].drop_last() =~= Seq::<Seq<char>>::empty());
            assert(rules_among(seq![last]) =~= rules);
        } else {
            let head = joined(front, "\n"@);
            pieces_of_joined(head, last);
            assert(pieces(head).push(last).drop_last() =~= pieces(head));
            assert(rules_in(joined(rules, "\n"@)) =~= front.push(last));
            assert(front.push(last) =~= rules);
        }
    }
}

proof fn lemma_pieces_parts(a: Seq<char>, b: Seq<char>)
    ensures
        pieces(a.push('\n') + b) == pieces(a) + pieces(b),
        pieces(b).len() > 0,
    decreases b.len(),
{
    let whole = a.push('\n') + b;
    if b.len() == 0 {
        assert(whole =~= a.push('\n'));
        assert(whole.drop_last() =~= a);
        assert(pieces(b) =~= seq![Seq::<char>::empty()]);
        assert(pieces(whole) =~= pieces(a) + pieces(b));
    } else {
        let init = b.drop_last();
        lemma_pieces_parts(a, init);
        assert(whole.drop_last() =~= a.push('\n') + init);
        assert(whole.last() == b.last());
        assert(pieces(whole) =~= pieces(a) + pieces(b));
    }
}

proof fn lemma_rules_parts(a: Seq<Seq<char>>, b: Seq<Seq<char>>)
    ensures
        rules_among(a + b) == rules_among(a) + rules_among(b),
    decreases b.len(),
{
    if b.len() == 0 {
        assert(a + b =~= a);
        assert(rules_among(a) + rules_among(b) =~= rules_among(a));
    } else {
        lemma_rules_parts(a, b.drop_last());
        assert((a + b).drop_last() =~= a + b.drop_last());
        assert((a + b).last() == b.last());
        assert(rules_among(a + b) =~= rules_among(a) + rules_among(b));
    }
}

/// The rules of a text are those of its lines, in order: no line changes what another one means.
pub proof fn every_line_is_read(before: Seq<char>, after: Seq<char>)
    ensures
        rules_in(before.push('\n') + after) == rules_in(before) + rules_in(after),
{
    lemma_pieces_parts(before, after);
    lemma_rules_parts(pieces(before), pieces(after));
}

/// A line is a rule without the white space around it; a blank line is none.
pub proof fn a_line_is_a_rule(line: Seq<char>)
    requires
        forall|i: int| 0 <= i < line.len() ==> #[trigger] line[i] != '\n',
    ensures
        trimmed(line).len() > 0 ==> rules_in(line) == seq![trimmed(line)],
        trimmed(line).len() == 0 ==> rules_in(line).len() == 0,
{
    lemma_one_piece(line);
    assert(seq![line].drop_last() =~= Seq::<Seq<char>>::empty());
    assert(rules_among(seq![line].drop_last()) =~= Seq::<Seq<char>>::empty());
    assert(rules_among(seq![line]) =~= if trimmed(line).len() == 0 {
        Seq::empty()
    } else {
        seq![trimmed(line)]
    });
}

proof fn lemma_one_piece(line: Seq<char>)
    requires
        forall|i: int| 0 <= i < line.len() ==> #[trigger] line[i] != '\n',
    ensures
        pieces(line) == seq![line],
    decreases line.len(),
{
    if line.len() > 0 {
        let init = line.drop_last();
        assert forall|i: int| 0 <= i < init.len() implies #[trigger] init[i] != '\n' by {
            assert(init[i] == line[i]);
        }
        lemma_one_piece(init);
        assert(line.last() == line[line.len() - 1]);
        assert(init.push(line.last()) =~= line);
        assert(pieces(line) =~= seq![line]);
    } else {
        assert(line =~= Seq::<char>::empty());
        assert(pieces(line) =~= seq![line]);
    }
}

/// Every active pack adds its rules to the count, whichever packs stand before and behind it.
pub proof fn every_pack_counts(sizes: Seq<PackSize>, packs: Seq<usize>, k: int)
    requires
        0 <= k < packs.len(),
        packs[k] < sizes.len(),
    ensures
        ({
            let size = sizes[packs[k] as int];
            let all = rules_held(sizes, packs);
            let others = rules_held(sizes, packs.remove(k));
            all.0 == others.0 + size.extensions && all.1 == others.1 + size.paths
        }),
    decreases packs.len(),
{
    let init = packs.drop_last();
    if k < packs.len() - 1 {
        every_pack_counts(sizes, init, k);
        assert(packs.remove(k).drop_last() =~= init.remove(k));
        assert(packs.remove(k).last() == packs.last());
    } else {
        assert(packs.remove(k) =~= init);
    }
}

/// While the exclusions are switched off no rule is said to be active; while they are on, the rules
/// of the active packs and the user's own ones are counted together.
pub proof fn active_rules_are_told(cfg: ExclusionConfig, sizes: Seq<PackSize>)
    ensures
        !cfg.enabled ==> active_text(cfg, sizes) == "Active: "@ + decimal(0) + " ext rules · "@
            + decimal(0) + " path rules"@,
        cfg.enabled ==> active_text(cfg, sizes) == "Active: "@ + decimal(
            rules_held(sizes, cfg.active_packs@).0 + cfg.custom_extensions@.len(),
        ) + " ext rules · "@ + decimal(
            rules_held(sizes, cfg.active_packs@).1 + cfg.custom_patterns@.len(),
        ) + " path rules"@,
{
}

/// Switching a pack off takes out every mention of it and keeps the others in their order.
pub proof fn switching_off_keeps_the_order(packs: Seq<usize>, pack: usize)
    ensures
        switched(packs, pack, false) == packs.filter(|p: usize| p != pack),
    decreases packs.len(),
{
    reveal(Seq::filter);
    if packs.len() > 0 {
        switching_off_keeps_the_order(packs.drop_last(), pack);
    }
}

} // verus!
