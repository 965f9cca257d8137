//! What the surfaces show and how they answer input.
use vstd::prelude::*;

pub mod checkpoint;
pub mod events;
pub mod lines;
pub mod resume_tier;
pub mod state;
pub mod widgets;

verus! {

/// The desktop the surfaces run on.
#[derive(Clone, Copy, Debug, PartialEq, Eq, Structural)]
pub enum Desktop {
    Linux,
    MacOs,
    /// Windows, and every system not named above.
    Windows,
}

/// Whether the desktop calls the place for deleted files the Trash.
pub open spec fn says_trash(desktop: Desktop) -> bool {
    desktop != Desktop::Windows
}

} // verus!
