//! The account an install can be linked to.
use vstd::prelude::*;

verus! {

/// A sign-in provider.
#[derive(Clone, Copy, Debug, PartialEq, Eq, Structural)]
pub enum Provider {
    Google,
    Discord,
}

/// The provider's name as shown to the user.
pub open spec fn provider_name(provider: Provider) -> Seq<char> {
    match provider {
        Provider::Google => "Google"@,
        Provider::Discord => "Discord"@,
    }
}

impl Provider {
    /// The provider's name as shown to the user.
    pub fn display_name(self) -> (r: &'static str)
        ensures
            r@ == provider_name(self),
    {
        match self {
            Provider::Google => "Google",
            Provider::Discord => "Discord",
        }
    }
}

/// Whether the install is linked to an account, and to which.
#[derive(Clone, Debug)]
pub enum AccountStatus {
    Anonymous,
    Linked { provider: Provider, display_name: String },
}

/// How the last sign-in ended, kept until the user dismisses it.
#[derive(Clone, Debug)]
pub enum OauthToast {
    Success { provider: Provider, display_name: String },
    Failure { reason: String },
}

/// A sign-in that waits for the browser: the provider and the seconds since it began.
#[derive(Clone, Copy, Debug)]
pub struct SessionSnapshot {
    pub provider: Provider,
    pub elapsed_secs: u64,
}

} // verus!
