//! The list where the kind of similarity is picked for the next scan.
use vstd::prelude::*;

verus! {

/// What makes files duplicates.
#[derive(Copy, Clone, Debug, PartialEq, Eq, Structural)]
pub enum ScanMode {
    Exact,
    Image,
    Audio,
}

/// The mode's name in the list.
pub open spec fn mode_label(mode: ScanMode) -> Seq<char> {
    match mode {
        ScanMode::Exact => "Exact match"@,
        ScanMode::Image => "Image similarity"@,
        ScanMode::Audio => "Audio similarity"@,
    }
}

/// The mode's name in the list.
pub fn label_for(mode: ScanMode) -> (r: &'static str)
    ensures
        r@ == mode_label(mode),
{
    match mode {
        ScanMode::Exact => "Exact match",
        ScanMode::Image => "Image similarity",
        ScanMode::Audio => "Audio similarity",
    }
}

/// The remark below the list, where the mode does not do yet what it says.
pub fn mode_hint(mode: ScanMode) -> (r: Option<&'static str>)
    ensures
        match mode {
            ScanMode::Exact => r is None,
            ScanMode::Image => (r matches Some(text) && text@
                == "Image mode is wired in the CLI today (superdeduper scan --mode image). The GUI engine integration is the v3 sub-deliverable per the t1.2 spec. Picking Image and clicking Start scan will fall through to exact dedup for now."@),
            ScanMode::Audio => (r matches Some(text) && text@
                == "Audio mode is not yet implemented (T1.3 / #26). The dropdown is here as a placeholder for the shared mode picker per Mick's directive."@),
        },
{
    match mode {
        ScanMode::Exact => None,
        ScanMode::Image => Some(
            "Image mode is wired in the CLI today (superdeduper scan --mode image). The GUI engine integration is the v3 sub-deliverable per the t1.2 spec. Picking Image and clicking Start scan will fall through to exact dedup for now.",
        ),
        ScanMode::Audio => Some(
            "Audio mode is not yet implemented (T1.3 / #26). The dropdown is here as a placeholder for the shared mode picker per Mick's directive.",
        ),
    }
}

/// A pick in the list, which is disabled while a scan runs.
pub fn pick(current: &mut ScanMode, mode: ScanMode, is_scanning: bool)
    ensures
        *final(current) == (if is_scanning {
            *old(current)
        } else {
            mode
        }),
{
    if !is_scanning {
        *current = mode;
    }
}

} // verus!
