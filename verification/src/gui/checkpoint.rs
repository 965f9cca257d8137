//! What is known of a paused scan.
use vstd::prelude::*;

use crate::gui::state::RootEntry;
use crate::paths::{displayed, for_user_display};
use crate::text::{cat2, cat3, decimal, decimal_string, texts};

verus! {

/// What is known of a paused scan.
#[derive(Clone, Debug)]
pub struct CheckpointSummary {
    pub created_at_unix: u64,
    /// The groups of duplicates that were found.
    pub duplicate_count: u64,
    pub roots: Vec<RootEntry>,
    /// Whether the list of files was kept.
    pub has_saved_inventory: bool,
}

/// The most folders that are listed.
pub const LISTED: usize = 4;

/// How many of so many items are listed.
pub open spec fn listed_count(total: nat, most: nat) -> nat {
    if total < most {
        total
    } else {
        most
    }
}

/// The line of a folder: a star before a reference, and the path as it is or as people read it.
pub open spec fn root_line_text(root: RootEntry, for_people: bool) -> Seq<char> {
    (if root.is_reference {
        "★ "@
    } else {
        "  "@
    }) + (if for_people {
        displayed(root.path@)
    } else {
        root.path@
    })
}

/// The lines of the folders that are listed.
pub open spec fn root_line_texts(roots: Seq<RootEntry>, for_people: bool) -> Seq<Seq<char>> {
    roots.take(listed_count(roots.len(), LISTED as nat) as int).map_values(
        |root: RootEntry| root_line_text(root, for_people),
    )
}

/// The lines of the first folders.
pub fn root_lines(roots: &Vec<RootEntry>, for_people: bool) -> (r: Vec<String>)
    ensures
        texts(r@) == root_line_texts(roots@, for_people),
{
    let mut r: Vec<String> = Vec::new();
    let end: usize = if roots.len() < LISTED {
        roots.len()
    } else {
        LISTED
    };
    let ghost wanted = root_line_texts(roots@, for_people);
    let mut i: usize = 0;
    assert(texts(r@) =~= wanted.take(0));
    while i < end
        invariant
            i <= end <= roots.len(),
            end == listed_count(roots@.len(), LISTED as nat),
            wanted == root_line_texts(roots@, for_people),
            texts(r@) =~= wanted.take(i as int),
        decreases end - i,
    {
        let ghost before = r@;
        let star = if roots[i].is_reference {
            "★ "
        } else {
            "  "
        };
        let line = if for_people {
            let shown = for_user_display(roots[i].path.as_str());
            cat2(star, shown.as_str())
        } else {
            cat2(star, roots[i].path.as_str())
        };
        assert(line@ == root_line_text(roots@[i as int], for_people));
        r.push(line);
        assert(texts(r@) =~= texts(before).push(line@));
        i = i + 1;
    }
    assert(texts(r@) =~= wanted);
    r
}

/// The line for what is not listed.
pub open spec fn more_text(total: nat, most: nat) -> Seq<char> {
    "  + "@ + decimal((total - most) as nat) + " more…"@
}

/// The line for what is not listed, where something is not.
pub fn more_line(total: usize, most: usize) -> (r: Option<String>)
    ensures
        match r {
            Some(line) => total > most && line@ == more_text(total as nat, most as nat),
            None => total <= most,
        },
{
    if total > most {
        let n = decimal_string((total - most) as u64);
        Some(cat3("  + ", n.as_str(), " more…"))
    } else {
        None
    }
}

/// What is listed and what is not make all.
pub proof fn nothing_is_lost(roots: Seq<RootEntry>, for_people: bool)
    ensures
        roots.len() > LISTED ==> root_line_texts(roots, for_people).len() + (roots.len() - LISTED)
            == roots.len(),
        roots.len() <= LISTED ==> root_line_texts(roots, for_people).len() == roots.len(),
{
}

/// The first four folders each have their line, in order, with a star before a reference folder and
/// the folder's path, shown plain to a person.
pub proof fn folders_have_their_lines(roots: Seq<RootEntry>, for_people: bool, k: int)
    requires
        0 <= k < roots.len(),
        k < 4,
    ensures
        root_line_texts(roots, for_people).len() == if roots.len() < 4 {
            roots.len()
        } else {
            4
        },
        roots[k].is_reference && !for_people ==> root_line_texts(roots, for_people)[k] == "★ "@
            + roots[k].path@,
        !roots[k].is_reference && !for_people ==> root_line_texts(roots, for_people)[k] == "  "@
            + roots[k].path@,
        roots[k].is_reference && for_people ==> root_line_texts(roots, for_people)[k] == "★ "@
            + displayed(roots[k].path@),
        !roots[k].is_reference && for_people ==> root_line_texts(roots, for_people)[k] == "  "@
            + displayed(roots[k].path@),
{
}

/// The line below a cut list counts what the list leaves out.
pub proof fn the_rest_is_counted(shown: nat, rest: nat)
    ensures
        more_text(shown + rest, shown) == "  + "@ + decimal(rest) + " more…"@,
{
}

} // verus!
