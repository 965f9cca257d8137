//! The note that exclusions were switched on, shown until it is answered once.
use vstd::prelude::*;

verus! {

/// The height of the note, in points.
pub const BANNER_HEIGHT: u32 = 60;

/// An answer to the note.
#[derive(Copy, Clone, Debug, PartialEq, Eq, Structural)]
pub enum BannerAction {
    /// Show what is left out.
    OpenSettings,
    Dismiss,
}

/// What an answer does.
#[derive(Copy, Clone, Debug, PartialEq, Eq, Structural)]
pub struct BannerEffect {
    /// The note is not shown again.
    pub dismissed: bool,
    /// The settings open at the exclusions.
    pub open_exclusions: bool,
}

/// What an answer does: each dismisses the note, and one opens the settings too.
pub fn answer(action: BannerAction) -> (r: BannerEffect)
    ensures
        r.dismissed,
        r.open_exclusions == (action == BannerAction::OpenSettings),
{
    BannerEffect { dismissed: true, open_exclusions: action == BannerAction::OpenSettings }
}

} // verus!
