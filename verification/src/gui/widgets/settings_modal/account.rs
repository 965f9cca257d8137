//! The tab where the install is linked to an account.
use vstd::prelude::*;

use crate::channel::{slug, Channel};
use crate::gui::widgets::badge_wall::{registering_text, waiting_text};
use crate::leaderboard::oauth::{provider_name, AccountStatus, Provider, SessionSnapshot};
use crate::text::{cat2, cat3, cat4, cat5, chars_of, decimal_string, text_of};

use super::result_texts;

verus! {

/// What stands before the first hyphen of an id.
pub open spec fn id_head(id: Seq<char>) -> Seq<char>
    decreases id.len(),
{
    if id.len() == 0 || id[0] == '-' {
        Seq::empty()
    } else {
        seq![id[0]] + id_head(id.skip(1))
    }
}

fn id_head_of(id: &str) -> (r: String)
    ensures
        r@ == id_head(id@),
{
    let v = chars_of(id);
    let mut i: usize = 0;
    assert(v@.take(0) =~= Seq::<char>::empty());
    assert(v@.skip(0) =~= v@);
    assert(Seq::<char>::empty() + id_head(v@) =~= id_head(v@));
    while i < v.len() && v[i] != '-'
        invariant
            i <= v.len(),
            v@ == id@,
            v@.take(i as int) + id_head(v@.skip(i as int)) == id_head(id@),
        decreases v.len() - i,
    {
        assert(v@.skip(i as int).skip(1) =~= v@.skip(i + 1));
        assert(v@.take(i + 1) + id_head(v@.skip(i + 1)) =~= v@.take(i as int) + (seq![v@[i as int]]
            + id_head(v@.skip(i + 1))));
        i = i + 1;
    }
    assert(id_head(v@.skip(i as int)) =~= Seq::<char>::empty());
    assert(v@.take(i as int) + Seq::<char>::empty() =~= v@.take(i as int));
    assert(v@.subrange(0, i as int) =~= v@.take(i as int));
    text_of(&v, 0, i)
}

/// The line that says whether the install is linked, and to whom.
pub open spec fn status_text(
    status: Option<AccountStatus>,
    install_id: Option<Seq<char>>,
) -> Seq<char> {
    match status {
        Some(AccountStatus::Linked { provider, display_name }) => "Status: Linked — "@
            + display_name@ + " ("@ + provider_name(provider) + ")"@,
        _ => "Status: Anonymous (UUID "@ + (match install_id {
            Some(id) => id_head(id),
            None => "not registered"@,
        }) + "…)"@,
    }
}

/// The line that says whether the install is linked, and to whom. A status that could not be
/// read counts as anonymous.
pub fn status_line(status: &Option<AccountStatus>, install_id: Option<&str>) -> (r: String)
    ensures
        r@ == status_text(
            *status,
            match install_id {
                Some(id) => Some(id@),
                None => None,
            },
        ),
{
    match status {
        Some(AccountStatus::Linked { provider, display_name }) => cat5(
            "Status: Linked — ",
            display_name.as_str(),
            " (",
            provider.display_name(),
            ")",
        ),
        _ => {
            let short = match install_id {
                Some(id) => id_head_of(id),
                None => "not registered".to_owned(),
            };
            cat3("Status: Anonymous (UUID ", short.as_str(), "…)")
        },
    }
}

/// The line that names the channel.
pub fn channel_line(active: Channel) -> (r: String)
    ensures
        r@ == "Channel: "@ + slug(active),
{
    cat2("Channel: ", active.as_slug())
}

/// What stands below the status.
pub enum AccountStage {
    /// The install is being registered: a spinner, a line and a remark.
    Registering(String, &'static str),
    /// The browser is waited for: a spinner, a line, a button to cancel and a remark.
    Waiting(String, &'static str),
    /// The two buttons, of which one is enabled, and a remark.
    Buttons { link_enabled: bool, unlink_enabled: bool, hint: &'static str },
}

/// Whether the install is linked.
pub open spec fn is_linked(status: Option<AccountStatus>) -> bool {
    status matches Some(AccountStatus::Linked { .. })
}

/// The remark below the buttons.
pub open spec fn link_hint(linked: bool) -> Seq<char> {
    if linked {
        "To switch providers, click Unlink first then click Link…. Note: Unlink only clears the local link record — the server-side binding stays until the v1.1 unlink endpoint ships."@
    } else {
        "Click Link… to pick a provider (Google or Discord). Your browser opens to the provider's sign-in page; this window updates when the flow finishes. CLI equivalent: `superdeduper account link google|discord`."@
    }
}

/// What stands below the status: a running registration, else a running sign-in, else the
/// buttons. Linking is for installs that are not linked, unlinking for those that are.
pub fn account_stage(
    status: &Option<AccountStatus>,
    registering_secs: Option<u64>,
    session: Option<SessionSnapshot>,
) -> (r: AccountStage)
    ensures
        match (registering_secs, session) {
            (Some(secs), _) => (r matches AccountStage::Registering(line, hint) && line@
                == registering_text(secs) && hint@
                == "First-time setup. Once your machine is registered (~1s), the sign-in flow continues automatically."@),
            (None, Some(s)) => (r matches AccountStage::Waiting(line, hint) && line@
                == waiting_text(s) && hint@
                == "Complete the sign-in in the browser window that opened. Cancel here to abort + reuse the loopback port."@),
            (None, None) => (r matches AccountStage::Buttons {
                link_enabled,
                unlink_enabled,
                hint,
            } && link_enabled == !is_linked(*status) && unlink_enabled == is_linked(*status)
                && hint@ == link_hint(is_linked(*status))),
        },
{
    if let Some(secs) = registering_secs {
        let elapsed = decimal_string(secs);
        return AccountStage::Registering(
            cat3("Registering machine (", elapsed.as_str(), "s)…"),
            "First-time setup. Once your machine is registered (~1s), the sign-in flow continues automatically.",
        );
    }
    if let Some(s) = session {
        let elapsed = decimal_string(s.elapsed_secs);
        return AccountStage::Waiting(
            cat5(
                "Waiting for ",
                s.provider.display_name(),
                " sign-in (",
                elapsed.as_str(),
                "s)…",
            ),
            "Complete the sign-in in the browser window that opened. Cancel here to abort + reuse the loopback port.",
        );
    }
    let linked = match status {
        Some(AccountStatus::Linked { .. }) => true,
        _ => false,
    };
    AccountStage::Buttons {
        link_enabled: !linked,
        unlink_enabled: linked,
        hint: if linked {
            "To switch providers, click Unlink first then click Link…. Note: Unlink only clears the local link record — the server-side binding stays until the v1.1 unlink endpoint ships."
        } else {
            "Click Link… to pick a provider (Google or Discord). Your browser opens to the provider's sign-in page; this window updates when the flow finishes. CLI equivalent: `superdeduper account link google|discord`."
        },
    }
}

/// Who was linked, in the message after unlinking.
pub open spec fn linked_text(status: Option<AccountStatus>) -> Seq<char> {
    match status {
        Some(AccountStatus::Linked { provider, display_name }) => display_name@ + " ("@
            + provider_name(provider) + ")"@,
        _ => "this machine"@,
    }
}

/// What the dialog says after unlinking.
pub open spec fn unlink_text(status: Option<AccountStatus>, failure: Option<Seq<char>>) -> Seq<char> {
    match failure {
        Some(reason) => "Unlink failed:\n\n"@ + reason,
        None => "Unlinked "@ + linked_text(status)
            + ".\n\nLocal link record cleared. Note: the server-side binding stays in place until the v1.1 unlink endpoint ships."@,
    }
}

/// What the dialog says after unlinking, or why that failed.
pub fn unlink_message(status: &Option<AccountStatus>, failure: Option<&str>) -> (r: String)
    ensures
        r@ == unlink_text(
            *status,
            match failure {
                Some(reason) => Some(reason@),
                None => None,
            },
        ),
{
    match failure {
        Some(reason) => cat2("Unlink failed:\n\n", reason),
        None => {
            let who = match status {
                Some(AccountStatus::Linked { provider, display_name }) => cat4(
                    display_name.as_str(),
                    " (",
                    provider.display_name(),
                    ")",
                ),
                _ => "this machine".to_owned(),
            };
            cat3(
                "Unlinked ",
                who.as_str(),
                ".\n\nLocal link record cleared. Note: the server-side binding stays in place until the v1.1 unlink endpoint ships.",
            )
        },
    }
}

/// What follows a finished registration.
pub struct RegisterFollowUp {
    /// The provider to sign in with now, where a sign-in had to wait for the registration.
    pub retry: Option<Provider>,
    /// What the dialog says.
    pub message: String,
}

/// What the dialog says after a registration.
pub open spec fn register_text(outcome: Result<Seq<char>, Seq<char>>) -> Seq<char> {
    match outcome {
        Ok(id) => "Registered. install_id = "@ + id
            + "\n\nYou can now sign in with Google or Discord."@,
        Err(reason) => "Register failed:\n\n"@ + reason,
    }
}

/// A finished registration. Where it succeeded, a sign-in that waited for it is taken up again,
/// once; where it failed, the sign-in keeps waiting.
pub fn after_register(outcome: &Result<String, String>, waiting: &mut Option<Provider>) -> (r:
    RegisterFollowUp)
    ensures
        r.message@ == register_text(result_texts(*outcome)),
        outcome is Ok ==> r.retry == *old(waiting) && *final(waiting) is None,
        outcome is Err ==> r.retry is None && *final(waiting) == *old(waiting),
{
    match outcome {
        Ok(id) => {
            let retry = *waiting;
            *waiting = None;
            RegisterFollowUp {
                retry,
                message: cat3(
                    "Registered. install_id = ",
                    id.as_str(),
                    "\n\nYou can now sign in with Google or Discord.",
                ),
            }
        },
        Err(reason) => RegisterFollowUp {
            retry: None,
            message: cat2("Register failed:\n\n", reason.as_str()),
        },
    }
}

/// Of an install id the part before its first hyphen is shown, and all of it where it has none.
pub proof fn ids_are_shown_up_to_their_hyphen(head: Seq<char>, rest: Seq<char>)
    requires
        forall|i: int| 0 <= i < head.len() ==> #[trigger] head[i] != '-',
    ensures
        id_head(head) == head,
        id_head(head.push('-') + rest) == head,
    decreases head.len(),
{
    let whole = head.push('-') + rest;
    if head.len() > 0 {
        let tail = head.skip(1);
        assert forall|i: int| 0 <= i < tail.len() implies #[trigger] tail[i] != '-' by {
            assert(tail[i] == head[i + 1]);
        }
        ids_are_shown_up_to_their_hyphen(tail, rest);
        assert(whole.skip(1) =~= tail.push('-') + rest);
        assert(whole[0] == head[0]);
        assert(head[0] != '-');
        assert(seq![head[0]] + tail =~= head);
    } else {
        assert(whole[0] == '-');
        assert(head =~= Seq::<char>::empty());
    }
}

/// A linked account is told with its name and its provider; every other install is told to be
/// anonymous, with the beginning of its id where it has one.
pub proof fn accounts_are_told(
    provider: Provider,
    display_name: String,
    status: Option<AccountStatus>,
    id: Option<Seq<char>>,
)
    ensures
        status_text(Some(AccountStatus::Linked { provider, display_name }), id) == "Status: Linked — "@
            + display_name@ + " ("@ + provider_name(provider) + ")"@,
        is_linked(Some(AccountStatus::Linked { provider, display_name })),
        !is_linked(None),
        !is_linked(status) && id is Some ==> status_text(status, id) == "Status: Anonymous (UUID "@
            + id_head(id->0) + "…)"@,
        !is_linked(status) && id is None ==> status_text(status, id) == "Status: Anonymous (UUID "@
            + "not registered"@ + "…)"@,
{
}

/// What went wrong is told with its reason, and what went right with whom it was about.
pub proof fn outcomes_are_told(status: Option<AccountStatus>, text: Seq<char>)
    ensures
        unlink_text(status, Some(text)) == "Unlink failed:\n\n"@ + text,
        register_text(Err(text)) == "Register failed:\n\n"@ + text,
        register_text(Ok(text)) == "Registered. install_id = "@ + text
            + "\n\nYou can now sign in with Google or Discord."@,
        unlink_text(status, None) == "Unlinked "@ + (match status {
            Some(AccountStatus::Linked { provider, display_name }) => display_name@ + " ("@
                + provider_name(provider) + ")"@,
            _ => "this machine"@,
        })
            + ".\n\nLocal link record cleared. Note: the server-side binding stays in place until the v1.1 unlink endpoint ships."@,
{
}

} // verus!
