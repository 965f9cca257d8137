//! The list of folders to scan, and the buttons that start and stop a scan.
use vstd::prelude::*;

use crate::gui::state::RootEntry;
use crate::gui::Desktop;
use crate::paths::{displayed, for_user_display};
use crate::text::{cat2, tail, tail_of};

verus! {

/// What the panel asks for.
#[derive(Debug, Clone, Copy, PartialEq, Eq, Structural)]
pub enum RootsAction {
    PickFolder,
    PickReferenceFolder,
    Remove(usize),
    ToggleReference(usize),
    StartScan,
    Pause,
    Cancel,
    /// Undo the renames of safe mode in every folder.
    Unsuperdeduper,
}

/// A button of the panel.
#[derive(Debug, Clone, Copy, PartialEq, Eq, Structural)]
pub enum RootsButton {
    Star(usize),
    Remove(usize),
    AddFolder,
    AddReference,
    Primary,
    Unsuperdeduper,
    Cancel,
}

/// Whether a press of the button does anything.
pub open spec fn is_enabled(button: RootsButton, roots: nat, scanning: bool) -> bool {
    match button {
        RootsButton::Star(i) => i < roots,
        RootsButton::Remove(i) => i < roots && !scanning,
        RootsButton::AddFolder => !scanning,
        RootsButton::AddReference => !scanning,
        RootsButton::Primary => scanning || roots > 0,
        RootsButton::Unsuperdeduper => roots > 0 && !scanning,
        RootsButton::Cancel => scanning,
    }
}

/// What a press of the button asks for.
pub open spec fn asked_by(button: RootsButton, scanning: bool) -> RootsAction {
    match button {
        RootsButton::Star(i) => RootsAction::ToggleReference(i),
        RootsButton::Remove(i) => RootsAction::Remove(i),
        RootsButton::AddFolder => RootsAction::PickFolder,
        RootsButton::AddReference => RootsAction::PickReferenceFolder,
        RootsButton::Primary => if scanning {
            RootsAction::Pause
        } else {
            RootsAction::StartScan
        },
        RootsButton::Unsuperdeduper => RootsAction::Unsuperdeduper,
        RootsButton::Cancel => RootsAction::Cancel,
    }
}

/// A press of a button, which does nothing where the button is disabled.
pub fn press(button: RootsButton, roots: &Vec<RootEntry>, scanning: bool) -> (r: Option<RootsAction>)
    ensures
        r == (if is_enabled(button, roots@.len(), scanning) {
            Some(asked_by(button, scanning))
        } else {
            None
        }),
{
    match button {
        RootsButton::Star(i) => if i < roots.len() {
            Some(RootsAction::ToggleReference(i))
        } else {
            None
        },
        RootsButton::Remove(i) => if i < roots.len() && !scanning {
            Some(RootsAction::Remove(i))
        } else {
            None
        },
        RootsButton::AddFolder => if !scanning {
            Some(RootsAction::PickFolder)
        } else {
            None
        },
        RootsButton::AddReference => if !scanning {
            Some(RootsAction::PickReferenceFolder)
        } else {
            None
        },
        RootsButton::Primary => if scanning {
            Some(RootsAction::Pause)
        } else if roots.len() > 0 {
            Some(RootsAction::StartScan)
        } else {
            None
        },
        RootsButton::Unsuperdeduper => if roots.len() > 0 && !scanning {
            Some(RootsAction::Unsuperdeduper)
        } else {
            None
        },
        RootsButton::Cancel => if scanning {
            Some(RootsAction::Cancel)
        } else {
            None
        },
    }
}

/// The text, or the end of it behind an ellipsis where it has more than `n` characters.
pub open spec fn shortened(s: Seq<char>, n: nat) -> Seq<char> {
    if s.len() <= n {
        s
    } else {
        "…"@ + tail(s, (n - 2) as nat)
    }
}

/// The text, or the end of it behind an ellipsis where it has more than `n` characters.
pub fn truncate(s: &str, n: usize) -> (r: String)
    requires
        s@.len() <= n || n >= 2,
    ensures
        r@ == shortened(s@, n as nat),
{
    if s.unicode_len() <= n {
        s.to_owned()
    } else {
        let end = tail_of(s, n - 2);
        cat2("…", end.as_str())
    }
}

/// What a folder's row shows.
pub struct RootRow {
    pub star: &'static str,
    pub star_hover: &'static str,
    pub path: String,
    pub path_hover: String,
    pub highlighted: bool,
    pub remove_hover: &'static str,
}

/// What a folder's row shows.
pub fn root_row(root: &RootEntry, scanning: bool) -> (r: RootRow)
    ensures
        r.star@ == (if root.is_reference {
            "★"@
        } else {
            "☆"@
        }),
        r.star_hover@ == (if root.is_reference {
            "Reference — files here are never deleted."@
        } else {
            "Toggle as reference / source of truth."@
        }),
        r.path@ == shortened(displayed(root.path@), 40),
        r.path_hover@ == displayed(root.path@),
        r.highlighted == root.is_reference,
        r.remove_hover@ == (if scanning {
            "Cancel the running scan before removing roots."@
        } else {
            "Remove this root from the scan list."@
        }),
{
    let path_hover = for_user_display(root.path.as_str());
    RootRow {
        star: if root.is_reference {
            "★"
        } else {
            "☆"
        },
        star_hover: if root.is_reference {
            "Reference — files here are never deleted."
        } else {
            "Toggle as reference / source of truth."
        },
        path: truncate(path_hover.as_str(), 40),
        path_hover,
        highlighted: root.is_reference,
        remove_hover: if scanning {
            "Cancel the running scan before removing roots."
        } else {
            "Remove this root from the scan list."
        },
    }
}

/// The texts of the buttons below the list.
#[derive(Clone, Copy, Debug)]
pub struct ButtonTexts {
    pub primary: &'static str,
    pub primary_hover: &'static str,
    pub add_hover: &'static str,
    pub reference_hover: &'static str,
}

/// The texts of the buttons below the list.
pub fn button_texts(scanning: bool, can_resume: bool, desktop: Desktop) -> (r: ButtonTexts)
    ensures
        r.primary@ == (if scanning {
            "⏸  Pause"@
        } else if can_resume {
            "▶  Resume scan"@
        } else {
            "▶  Start scan"@
        }),
        r.primary_hover@ == (if scanning {
            "Pause the in-flight scan (Esc)."@
        } else if desktop == Desktop::MacOs {
            "Run a duplicate scan over the listed roots (⌘R or F5)."@
        } else {
            "Run a duplicate scan over the listed roots (Ctrl+R or F5)."@
        }),
        r.add_hover@ == (if scanning {
            "Cancel the running scan before adding folders."@
        } else {
            "Add a folder to scan."@
        }),
        r.reference_hover@ == (if scanning {
            "Cancel the running scan before adding reference folders."@
        } else {
            "Add a folder as a reference (source of truth)."@
        }),
{
    ButtonTexts {
        primary: if scanning {
            "⏸  Pause"
        } else if can_resume {
            "▶  Resume scan"
        } else {
            "▶  Start scan"
        },
        primary_hover: if scanning {
            "Pause the in-flight scan (Esc)."
        } else if desktop == Desktop::MacOs {
            "Run a duplicate scan over the listed roots (⌘R or F5)."
        } else {
            "Run a duplicate scan over the listed roots (Ctrl+R or F5)."
        },
        add_hover: if scanning {
            "Cancel the running scan before adding folders."
        } else {
            "Add a folder to scan."
        },
        reference_hover: if scanning {
            "Cancel the running scan before adding reference folders."
        } else {
            "Add a folder as a reference (source of truth)."
        },
    }
}

/// While a scan runs, no button adds or removes a folder, starts another scan or undoes renames.
pub proof fn roots_are_fixed_while_scanning(button: RootsButton, roots: nat)
    ensures
        is_enabled(button, roots, true) ==> (match asked_by(button, true) {
            RootsAction::ToggleReference(i) => i < roots,
            RootsAction::Pause => true,
            RootsAction::Cancel => true,
            _ => false,
        }),
{
}

/// While no scan runs, none can be paused or cancelled; and a scan needs a folder.
pub proof fn idle_panels_start_only(button: RootsButton, roots: nat)
    ensures
        is_enabled(button, roots, false) ==> asked_by(button, false) != RootsAction::Pause && asked_by(
            button,
            false,
        ) != RootsAction::Cancel,
        is_enabled(button, roots, false) && asked_by(button, false) == RootsAction::StartScan
            ==> roots > 0,
{
}

/// A shortened text has at most `n` characters, and ends as the text does.
pub proof fn shortened_fits(s: Seq<char>, n: nat)
    requires
        n >= 2,
    ensures
        shortened(s, n).len() <= n,
        s.len() > n ==> shortened(s, n).skip(1) == tail(s, (n - 2) as nat),
{
    reveal_strlit("…");
    if s.len() > n {
        assert(shortened(s, n).skip(1) =~= tail(s, (n - 2) as nat));
    }
}

/// Each button can be pressed exactly where its action makes sense: a star wherever its folder is,
/// folders are added and removed only while no scan runs, a scan or its undoing needs a folder, a
/// pause and a cancel need a scan.
pub proof fn buttons_work_where_they_belong(i: usize, roots: nat, scanning: bool)
    ensures
        is_enabled(RootsButton::Star(i), roots, scanning) <==> i < roots,
        is_enabled(RootsButton::Remove(i), roots, scanning) <==> i < roots && !scanning,
        is_enabled(RootsButton::AddFolder, roots, scanning) <==> !scanning,
        is_enabled(RootsButton::AddReference, roots, scanning) <==> !scanning,
        is_enabled(RootsButton::Primary, roots, scanning) <==> scanning || roots >= 1,
        is_enabled(RootsButton::Unsuperdeduper, roots, scanning) <==> !scanning && roots >= 1,
        is_enabled(RootsButton::Cancel, roots, scanning) <==> scanning,
{
}

/// Each button asks for what it names, and for its own folder; the main one pauses a scan that runs
/// and starts one otherwise.
pub proof fn buttons_ask_for_what_they_name(i: usize, scanning: bool)
    ensures
        asked_by(RootsButton::Star(i), scanning) == RootsAction::ToggleReference(i),
        asked_by(RootsButton::Remove(i), scanning) == RootsAction::Remove(i),
        asked_by(RootsButton::AddFolder, scanning) == RootsAction::PickFolder,
        asked_by(RootsButton::AddReference, scanning) == RootsAction::PickReferenceFolder,
        asked_by(RootsButton::Primary, true) == RootsAction::Pause,
        asked_by(RootsButton::Primary, false) == RootsAction::StartScan,
        asked_by(RootsButton::Unsuperdeduper, scanning) == RootsAction::Unsuperdeduper,
        asked_by(RootsButton::Cancel, scanning) == RootsAction::Cancel,
{
}

/// A text that fits is shown whole; another one loses its beginning, behind an ellipsis, and its
/// last characters are the last ones of the text.
pub proof fn long_texts_lose_their_beginning(s: Seq<char>, n: nat, k: int)
    requires
        n >= 2,
    ensures
        s.len() <= n ==> shortened(s, n) == s,
        s.len() > n ==> {
            &&& shortened(s, n).len() == n - 1
            &&& shortened(s, n)[0] == '…'
            &&& 0 <= k < n - 2 ==> shortened(s, n)[n - 2 - k] == s[s.len() - 1 - k]
        },
{
    reveal_strlit("…");
}

} // verus!
