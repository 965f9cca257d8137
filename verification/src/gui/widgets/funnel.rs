//! The pipeline as a funnel: how many files are left after each stage.
use vstd::prelude::*;

use crate::numbers::{quotient_string, quotient_text};
use crate::text::{cat2, cat4, cat7, decimal, decimal_string};

verus! {

/// A count in short: two decimals for billions and millions, one for thousands.
pub open spec fn compact_text(n: u64) -> Seq<char> {
    if n >= 1_000_000_000 {
        quotient_text(n as nat, 1_000_000_000, 2) + "B"@
    } else if n >= 1_000_000 {
        quotient_text(n as nat, 1_000_000, 2) + "M"@
    } else if n >= 1_000 {
        quotient_text(n as nat, 1_000, 1) + "k"@
    } else {
        decimal(n as nat)
    }
}

/// A count in short.
pub fn format_compact(n: u64) -> (r: String)
    ensures
        r@ == compact_text(n),
{
    if n >= 1_000_000_000 {
        let q = quotient_string(n, 1_000_000_000, 2);
        cat2(q.as_str(), "B")
    } else if n >= 1_000_000 {
        let q = quotient_string(n, 1_000_000, 2);
        cat2(q.as_str(), "M")
    } else if n >= 1_000 {
        let q = quotient_string(n, 1_000, 1);
        cat2(q.as_str(), "k")
    } else {
        decimal_string(n)
    }
}

/// Whether `max` is the largest of the counts, or 1 where all are 0.
pub open spec fn is_full_bar(counts: Seq<u64>, max: u64) -> bool {
    &&& max >= 1
    &&& forall|i: int| 0 <= i < counts.len() ==> #[trigger] counts[i] <= max
    &&& max == 1 || counts.contains(max)
}

/// The count that fills a bar: the largest one, and at least 1.
pub fn full_bar(counts: &Vec<u64>) -> (r: u64)
    ensures
        is_full_bar(counts@, r),
{
    let mut r: u64 = 1;
    let mut i: usize = 0;
    while i < counts.len()
        invariant
            i <= counts.len(),
            r >= 1,
            forall|k: int| 0 <= k < i ==> #[trigger] counts@[k] <= r,
            r == 1 || counts@.contains(r),
        decreases counts.len() - i,
    {
        if counts[i] > r {
            r = counts[i];
            assert(counts@[i as int] == r);
        }
        i = i + 1;
    }
    r
}

/// What a stage's bar says.
pub fn stage_hover(label: &str, count: u64) -> (r: String)
    ensures
        r@ == label@ + ": "@ + decimal(count as nat) + " file(s)"@,
{
    let n = decimal_string(count);
    cat4(label, ": ", n.as_str(), " file(s)")
}

/// The line below the funnel, where a file was inventoried: confirmed and inventoried files, and
/// the share in percent.
pub fn survival_line(confirmed: u64, inventoried: u64, percent: &str) -> (r: Option<String>)
    ensures
        match r {
            Some(line) => inventoried > 0 && line@ == "Survival ratio:  "@ + compact_text(confirmed)
                + " / "@ + compact_text(inventoried) + "   ("@ + percent@ + "%)"@,
            None => inventoried == 0,
        },
{
    if inventoried > 0 {
        let c = format_compact(confirmed);
        let i = format_compact(inventoried);
        Some(
            cat7("Survival ratio:  ", c.as_str(), " / ", i.as_str(), "   (", percent, "%)"),
        )
    } else {
        None
    }
}

/// Counts are told whole below a thousand, then in thousands, in millions and in billions.
pub proof fn counts_have_their_unit(n: u64)
    ensures
        n <= 999 ==> compact_text(n) == decimal(n as nat),
        1_000 <= n <= 999_999 ==> compact_text(n) == quotient_text(n as nat, 1_000, 1) + "k"@,
        1_000_000 <= n <= 999_999_999 ==> compact_text(n) == quotient_text(n as nat, 1_000_000, 2)
            + "M"@,
        n >= 1_000_000_000 ==> compact_text(n) == quotient_text(n as nat, 1_000_000_000, 2) + "B"@,
{
}

/// A full bar stands for the greatest count: no count is above it, and there is one way to choose
/// it.
pub proof fn full_bars_are_the_greatest_count(counts: Seq<u64>, max: u64, k: int, other: u64)
    requires
        is_full_bar(counts, max),
        0 <= k < counts.len(),
    ensures
        counts[k] <= max,
        max > 1 ==> exists|i: int| 0 <= i < counts.len() && #[trigger] counts[i] == max,
        is_full_bar(counts, other) ==> other == max,
        max > 0,
{
    if max > 1 {
        let i = counts.index_of(max);
        assert(counts[i] == max);
    }
    if is_full_bar(counts, other) && other > 1 {
        let j = counts.index_of(other);
        assert(counts[j] == other);
    }
}

} // verus!
