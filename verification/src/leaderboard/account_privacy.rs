//! What an account shows on its public profile.
use vstd::prelude::*;

verus! {

/// What an account shows on its public profile. Everything is off until it is switched on.
#[derive(Clone, Copy, Debug, PartialEq, Eq, Structural)]
pub struct PrivacyFlags {
    pub show_display_name: bool,
    pub show_provider: bool,
    pub show_avatar: bool,
    pub show_install_breakdown: bool,
    pub show_hardware_history: bool,
    pub show_recent_runs: bool,
}

/// Nothing shown.
pub open spec fn nothing_shown() -> PrivacyFlags {
    PrivacyFlags {
        show_display_name: false,
        show_provider: false,
        show_avatar: false,
        show_install_breakdown: false,
        show_hardware_history: false,
        show_recent_runs: false,
    }
}

impl Default for PrivacyFlags {
    fn default() -> (r: Self)
        ensures
            r == nothing_shown(),
    {
        PrivacyFlags {
            show_display_name: false,
            show_provider: false,
            show_avatar: false,
            show_install_breakdown: false,
            show_hardware_history: false,
            show_recent_runs: false,
        }
    }
}

/// How a request about the flags was answered.
#[derive(Clone, Debug)]
pub enum PrivacyOutcome {
    /// The flags as the server holds them.
    Flags(PrivacyFlags),
    Unauthorised(String),
    Rejected(String),
    Transient(String),
}

} // verus!
