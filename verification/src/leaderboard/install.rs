//! The install's identity towards the service.
use vstd::prelude::*;

verus! {

/// When a finished scan is submitted.
#[derive(Clone, Copy, Debug, PartialEq, Eq, Structural)]
pub enum ShareDefault {
    AlwaysAsk,
    AskNThenSticky,
    AutoOptIn,
    Never,
}

/// The choice's name in the settings.
pub open spec fn share_label(share: ShareDefault) -> Seq<char> {
    match share {
        ShareDefault::AlwaysAsk => "Always ask"@,
        ShareDefault::AskNThenSticky => "Ask 3 times, then remember"@,
        ShareDefault::AutoOptIn => "Auto-submit"@,
        ShareDefault::Never => "Never"@,
    }
}

/// The choice's name in the install's own records.
pub open spec fn share_name(share: ShareDefault) -> Seq<char> {
    match share {
        ShareDefault::AlwaysAsk => "AlwaysAsk"@,
        ShareDefault::AskNThenSticky => "AskNThenSticky"@,
        ShareDefault::AutoOptIn => "AutoOptIn"@,
        ShareDefault::Never => "Never"@,
    }
}

impl ShareDefault {
    /// The choice's name in the settings.
    pub fn label(self) -> (r: &'static str)
        ensures
            r@ == share_label(self),
    {
        match self {
            ShareDefault::AlwaysAsk => "Always ask",
            ShareDefault::AskNThenSticky => "Ask 3 times, then remember",
            ShareDefault::AutoOptIn => "Auto-submit",
            ShareDefault::Never => "Never",
        }
    }

    /// The choice's name in the install's own records.
    pub fn name(self) -> (r: &'static str)
        ensures
            r@ == share_name(self),
    {
        match self {
            ShareDefault::AlwaysAsk => "AlwaysAsk",
            ShareDefault::AskNThenSticky => "AskNThenSticky",
            ShareDefault::AutoOptIn => "AutoOptIn",
            ShareDefault::Never => "Never",
        }
    }
}

/// The install's identity, as far as the surfaces show it.
#[derive(Clone, Debug)]
pub struct InstallState {
    pub install_id: String,
    pub registered: bool,
    pub server_url: String,
    pub share_default: ShareDefault,
}

} // verus!
