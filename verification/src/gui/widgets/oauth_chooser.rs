//! The dialog where a sign-in provider is picked.
use vstd::prelude::*;

use crate::leaderboard::oauth::{provider_name, Provider};
use crate::text::cat2;

verus! {

/// Whether the dialog is open. One dialog serves every surface that offers a sign-in.
#[derive(Clone, Copy, Debug, PartialEq, Eq, Structural)]
pub struct Chooser {
    pub shown: bool,
}

impl Default for Chooser {
    fn default() -> (r: Self)
        ensures
            !r.shown,
    {
        Chooser { shown: false }
    }
}

/// Opens the dialog.
pub fn open(chooser: &mut Chooser)
    ensures
        final(chooser).shown,
{
    chooser.shown = true;
}

/// Whether the dialog is open.
pub fn is_open(chooser: &Chooser) -> (r: bool)
    ensures
        r == chooser.shown,
{
    chooser.shown
}

/// Closes the dialog.
pub fn close(chooser: &mut Chooser)
    ensures
        !final(chooser).shown,
{
    chooser.shown = false;
}

/// A click in the dialog.
#[derive(Clone, Copy, Debug, PartialEq, Eq, Structural)]
pub enum ChooserClick {
    Pick(Provider),
    Cancel,
}

/// A click in the dialog: closes it, and gives the provider to sign in with. A dialog that is
/// not open takes no click.
pub fn answer(chooser: &mut Chooser, click: ChooserClick) -> (r: Option<Provider>)
    ensures
        !final(chooser).shown,
        r == (match click {
            ChooserClick::Pick(provider) => if old(chooser).shown {
                Some(provider)
            } else {
                None
            },
            ChooserClick::Cancel => None,
        }),
{
    let was_open = is_open(chooser);
    close(chooser);
    match click {
        ChooserClick::Pick(provider) => if was_open {
            Some(provider)
        } else {
            None
        },
        ChooserClick::Cancel => None,
    }
}

/// The label of a provider's button.
pub fn provider_label(provider: Provider) -> (r: String)
    ensures
        r@ == "Sign in with "@ + provider_name(provider),
{
    cat2("Sign in with ", provider.display_name())
}

/// What a sign-in begins with.
pub struct LinkPlan {
    /// The provider to sign in with once the registration has finished, where one is begun.
    pub pending_retry: Option<Provider>,
    /// Whether the install is registered first. The sign-in runs at the same time.
    pub start_register: bool,
    pub provider: Provider,
    /// The install id that goes into the sign-in, or nothing where there is no install yet.
    pub session_id: String,
}

/// What a sign-in begins with. Without an install, one is registered while the user signs in, and
/// the provider is kept for another try.
pub fn start_link(provider: Provider, install_id: Option<String>) -> (r: LinkPlan)
    ensures
        r.provider == provider,
        match install_id {
            Some(id) => r.pending_retry is None && !r.start_register && r.session_id@ == id@,
            None => r.pending_retry == Some(provider) && r.start_register && r.session_id@
                == ""@,
        },
{
    match install_id {
        Some(id) => LinkPlan {
            pending_retry: None,
            start_register: false,
            provider,
            session_id: id,
        },
        None => LinkPlan {
            pending_retry: Some(provider),
            start_register: true,
            provider,
            session_id: "".to_owned(),
        },
    }
}

} // verus!
