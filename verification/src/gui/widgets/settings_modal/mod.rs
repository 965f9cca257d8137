//! The settings window: its tabs, the dialogs above it, and what its buttons do.
use vstd::prelude::*;

pub mod account;
pub mod engine;
pub mod exclusions;
pub mod leaderboard;
pub mod network;

use crate::channel::Channel;
use crate::text::{byte_head, byte_head_of, byte_len, cat2, cat3};

verus! {

/// A tab of the settings window.
#[derive(Copy, Clone, Debug, PartialEq, Eq, Structural)]
pub enum SettingsTab {
    Engine,
    Cache,
    KeepStrategy,
    Safety,
    Preflight,
    Exclusions,
    Network,
    Account,
    Leaderboard,
}

impl Default for SettingsTab {
    fn default() -> (r: Self)
        ensures
            r == SettingsTab::Engine,
    {
        SettingsTab::Engine
    }
}

/// The tab's name.
pub open spec fn tab_label(tab: SettingsTab) -> Seq<char> {
    match tab {
        SettingsTab::Engine => "Engine"@,
        SettingsTab::Cache => "Cache"@,
        SettingsTab::KeepStrategy => "Keep strategy"@,
        SettingsTab::Safety => "Safety"@,
        SettingsTab::Preflight => "Pre-flight"@,
        SettingsTab::Exclusions => "Exclusions"@,
        SettingsTab::Network => "Network"@,
        SettingsTab::Account => "Account"@,
        SettingsTab::Leaderboard => "Leaderboard"@,
    }
}

/// The tabs that every build has, in the order they are listed.
pub open spec fn local_tabs() -> Seq<SettingsTab> {
    seq![
        SettingsTab::Engine,
        SettingsTab::Cache,
        SettingsTab::KeepStrategy,
        SettingsTab::Safety,
        SettingsTab::Preflight,
        SettingsTab::Exclusions,
        SettingsTab::Network,
    ]
}

/// The tabs of a build, in the order they are listed: a build that talks to the service has two
/// more.
pub open spec fn tabs(telemetry: bool) -> Seq<SettingsTab> {
    if telemetry {
        local_tabs().push(SettingsTab::Account).push(SettingsTab::Leaderboard)
    } else {
        local_tabs()
    }
}

impl SettingsTab {
    /// The tab's name.
    pub fn label(self) -> (r: &'static str)
        ensures
            r@ == tab_label(self),
    {
        match self {
            SettingsTab::Engine => "Engine",
            SettingsTab::Cache => "Cache",
            SettingsTab::KeepStrategy => "Keep strategy",
            SettingsTab::Safety => "Safety",
            SettingsTab::Preflight => "Pre-flight",
            SettingsTab::Exclusions => "Exclusions",
            SettingsTab::Network => "Network",
            SettingsTab::Account => "Account",
            SettingsTab::Leaderboard => "Leaderboard",
        }
    }

    /// The tabs of a build, in the order they are listed.
    pub fn all(telemetry: bool) -> (r: Vec<SettingsTab>)
        ensures
            r@ == tabs(telemetry),
    {
        let mut r: Vec<SettingsTab> = Vec::new();
        r.push(SettingsTab::Engine);
        r.push(SettingsTab::Cache);
        r.push(SettingsTab::KeepStrategy);
        r.push(SettingsTab::Safety);
        r.push(SettingsTab::Preflight);
        r.push(SettingsTab::Exclusions);
        r.push(SettingsTab::Network);
        assert(r@ =~= local_tabs());
        if telemetry {
            r.push(SettingsTab::Account);
            r.push(SettingsTab::Leaderboard);
        }
        r
    }
}

/// What the settings window remembers while it is open.
#[derive(Clone, Copy, Debug, PartialEq, Eq, Structural)]
pub struct SettingsModalState {
    pub tab: SettingsTab,
    /// The channel picked in the list, where it has been touched.
    pub pending_channel: Option<Channel>,
    /// The channel whose switch waits for a confirmation.
    pub channel_switch_confirm: Option<Channel>,
}

impl Default for SettingsModalState {
    fn default() -> (r: Self)
        ensures
            r == (SettingsModalState {
                tab: SettingsTab::Engine,
                pending_channel: None,
                channel_switch_confirm: None,
            }),
    {
        SettingsModalState {
            tab: SettingsTab::Engine,
            pending_channel: None,
            channel_switch_confirm: None,
        }
    }
}

/// A slot for one text that a dialog shows until it is closed.
#[derive(Clone, Debug)]
pub struct DialogSlot {
    pub message: Option<String>,
}

/// The text in the slot.
pub open spec fn slot_text(slot: DialogSlot) -> Option<Seq<char>> {
    match slot.message {
        Some(message) => Some(message@),
        None => None,
    }
}

impl DialogSlot {
    /// An empty slot.
    pub fn new() -> (r: Self)
        ensures
            slot_text(r) is None,
    {
        DialogSlot { message: None }
    }

    /// The text to show. It stays in the slot: the dialog is drawn again until it is closed.
    pub fn shown(&self) -> (r: Option<String>)
        ensures
            match r {
                Some(text) => slot_text(*self) == Some(text@),
                None => slot_text(*self) is None,
            },
    {
        match &self.message {
            Some(message) => Some(message.clone()),
            None => None,
        }
    }

    /// The dialog was closed.
    pub fn clear(&mut self)
        ensures
            slot_text(*final(self)) is None,
    {
        self.message = None;
    }
}

/// Asks for a dialog that says the message, in place of one that is still open.
pub fn show_done_dialog(slot: &mut DialogSlot, message: String)
    ensures
        slot_text(*final(slot)) == Some(message@),
{
    slot.message = Some(message);
}

/// Asks for the window with the sample submission.
pub fn show_sample_preview(slot: &mut DialogSlot, json: String)
    ensures
        slot_text(*final(slot)) == Some(json@),
{
    slot.message = Some(json);
}

/// The question before the install's identity is given up.
#[derive(Clone, Copy, Debug, PartialEq, Eq, Structural)]
pub struct ResetConfirm {
    pub armed: bool,
}

impl ResetConfirm {
    /// A click on the button: asks, and does nothing else.
    pub fn request(&mut self)
        ensures
            final(self).armed,
    {
        self.armed = true;
    }

    /// The answer to the question. The identity is reset where the question was asked and
    /// answered with yes; an answer takes the question away.
    pub fn decide(&mut self, decision: Option<bool>) -> (reset: bool)
        ensures
            reset == (old(self).armed && decision == Some(true)),
            final(self).armed == (old(self).armed && decision is None),
    {
        if !self.armed {
            return false;
        }
        match decision {
            Some(reset) => {
                self.armed = false;
                reset
            },
            None => false,
        }
    }
}

/// What the dialog says after the identity was reset, or could not be.
pub open spec fn reset_message(outcome: Result<Seq<char>, Seq<char>>) -> Seq<char> {
    match outcome {
        Ok(install_id) =>
            "Install reset. A backup of your previous identity was saved.\n\nNew install_id: "@
            + install_id
            + "\n\nClick Register to push this identity to the leaderboard (rank + achievements start fresh)."@,
        Err(reason) => "Install reset FAILED: "@ + reason,
    }
}

/// The message of a result, by view.
pub open spec fn result_texts(outcome: Result<String, String>) -> Result<Seq<char>, Seq<char>> {
    match outcome {
        Ok(value) => Ok(value@),
        Err(reason) => Err(reason@),
    }
}

/// What the dialog says after the identity was reset to a new id, or why it could not be.
pub fn install_reset_message(outcome: &Result<String, String>) -> (r: String)
    ensures
        r@ == reset_message(result_texts(*outcome)),
{
    match outcome {
        Ok(install_id) => cat3(
            "Install reset. A backup of your previous identity was saved.\n\nNew install_id: ",
            install_id.as_str(),
            "\n\nClick Register to push this identity to the leaderboard (rank + achievements start fresh).",
        ),
        Err(reason) => cat2("Install reset FAILED: ", reason.as_str()),
    }
}

/// A long text for one line: at most `cap` bytes of it, and an ellipsis where it was cut.
pub open spec fn cut_for_display(s: Seq<char>, cap: nat) -> Seq<char> {
    if byte_len(s) <= cap {
        s
    } else {
        byte_head(s, cap) + "…"@
    }
}

/// Shortens a long text for one line: whole characters that take at most `cap` bytes, and an
/// ellipsis where the text was cut.
pub fn truncate_for_display(s: &str, cap: usize) -> (r: String)
    ensures
        r@ == cut_for_display(s@, cap as nat),
{
    let (head, whole) = byte_head_of(s, cap);
    if whole {
        s.to_owned()
    } else {
        cat2(head.as_str(), "…")
    }
}

/// A click on a tab's button.
pub fn select_tab(state: &mut SettingsModalState, tab: SettingsTab)
    ensures
        *final(state) == (SettingsModalState { tab, ..*old(state) }),
{
    state.tab = tab;
}

/// The tabs about the account and the leaderboard are there exactly where the build takes part in
/// them; the other tabs are always there.
pub proof fn tabs_fit_the_build(telemetry: bool)
    ensures
        tabs(telemetry).contains(SettingsTab::Account) <==> telemetry,
        tabs(telemetry).contains(SettingsTab::Leaderboard) <==> telemetry,
        tabs(telemetry).contains(SettingsTab::Engine),
        tabs(telemetry).contains(SettingsTab::Cache),
        tabs(telemetry).contains(SettingsTab::KeepStrategy),
        tabs(telemetry).contains(SettingsTab::Safety),
        tabs(telemetry).contains(SettingsTab::Preflight),
        tabs(telemetry).contains(SettingsTab::Exclusions),
        tabs(telemetry).contains(SettingsTab::Network),
        tabs(telemetry).len() == if telemetry {
            9nat
        } else {
            7nat
        },
{
    let all = tabs(telemetry);
    assert(all[0] == SettingsTab::Engine);
    assert(all[1] == SettingsTab::Cache);
    assert(all[2] == SettingsTab::KeepStrategy);
    assert(all[3] == SettingsTab::Safety);
    assert(all[4] == SettingsTab::Preflight);
    assert(all[5] == SettingsTab::Exclusions);
    assert(all[6] == SettingsTab::Network);
    if telemetry {
        assert(all[7] == SettingsTab::Account);
        assert(all[8] == SettingsTab::Leaderboard);
    }
}

/// A text that fits is shown whole.
pub proof fn short_texts_are_shown_whole(s: Seq<char>, cap: nat)
    ensures
        byte_len(s) <= cap ==> cut_for_display(s, cap) == s,
        byte_len(s) > cap ==> cut_for_display(s, cap).len() > 0 && cut_for_display(s, cap).last()
            == '…',
{
    reveal_strlit("…");
}

} // verus!
