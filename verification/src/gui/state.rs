//! What the surfaces compute from the engine's reports.
use vstd::prelude::*;

use crate::gui::events::DuplicateGroupSummary;

verus! {

/// A folder to scan.
#[derive(Clone, Debug)]
pub struct RootEntry {
    pub path: String,
    /// Files in it are never acted on.
    pub is_reference: bool,
}

/// `a * b`, or the largest `u64` where the product does not fit.
pub open spec fn saturated_product(a: u64, b: nat) -> u64 {
    if a * b <= u64::MAX {
        (a * b) as u64
    } else {
        u64::MAX
    }
}

/// The product, or the largest `u64` where it does not fit.
pub fn saturating_product(a: u64, b: usize) -> (r: u64)
    ensures
        r == saturated_product(a, b as nat),
{
    match a.checked_mul(b as u64) {
        Some(product) => product,
        None => u64::MAX,
    }
}

/// `n - 1`, or 0.
pub open spec fn one_less(n: nat) -> nat {
    if n == 0 {
        0
    } else {
        (n - 1) as nat
    }
}

/// The bytes that are freed when only one file of the group remains. Files that share their data
/// free nothing: a group of links frees 0, and where the different files behind the paths are
/// counted, they are what counts.
pub open spec fn savings(g: DuplicateGroupSummary) -> u64 {
    if g.link_equivalent {
        0
    } else if g.unique_inodes == 0 {
        saturated_product(g.size, one_less(g.files@.len()))
    } else {
        saturated_product(g.size, one_less(g.unique_inodes as nat))
    }
}

/// The bytes that are freed when only one file of the group remains.
pub fn inode_aware_savings(g: &DuplicateGroupSummary) -> (r: u64)
    ensures
        r == savings(*g),
{
    if g.link_equivalent {
        0
    } else {
        let copies: usize = if g.unique_inodes == 0 {
            g.files.len()
        } else {
            g.unique_inodes
        };
        let extra: usize = if copies == 0 {
            0
        } else {
            copies - 1
        };
        saturating_product(g.size, extra)
    }
}

/// A group of links to the same data frees nothing.
pub proof fn links_free_nothing(g: DuplicateGroupSummary)
    requires
        g.link_equivalent || g.unique_inodes == 1,
    ensures
        savings(g) == 0,
{
    assert(g.size * 0nat == 0) by (nonlinear_arith);
}

/// What a group frees is its size times the copies besides the one that is kept: the files that
/// are known to be different, or all of its files where that was not counted.
pub proof fn savings_are_those_of_the_other_copies(g: DuplicateGroupSummary, copies: nat)
    requires
        !g.link_equivalent,
        copies == (if g.unique_inodes == 0 {
            g.files@.len()
        } else {
            g.unique_inodes as nat
        }),
    ensures
        copies > 0 && g.size * (copies - 1) <= u64::MAX ==> savings(g) == g.size * (copies - 1),
        copies > 0 && g.size * (copies - 1) > u64::MAX ==> savings(g) == u64::MAX,
        copies == 0 ==> savings(g) == 0,
{
    assert(g.size * 0nat == 0) by (nonlinear_arith);
}

} // verus!
