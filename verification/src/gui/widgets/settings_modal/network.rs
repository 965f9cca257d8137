//! The tab where the channel is switched: a pick, a save, and a confirmation.
use vstd::prelude::*;

use super::SettingsModalState;
use crate::channel::{slug, Channel};
use crate::text::{cat2, cat3, cat5, cat7};

verus! {

/// The channel that the list shows as picked.
pub open spec fn picked(state: SettingsModalState, active: Channel) -> Channel {
    match state.pending_channel {
        Some(channel) => channel,
        None => active,
    }
}

/// The channel that the list shows as picked: the one picked last, or the active one.
pub fn selected_channel(state: &SettingsModalState, active: Channel) -> (r: Channel)
    ensures
        r == picked(*state, active),
{
    match state.pending_channel {
        Some(channel) => channel,
        None => active,
    }
}

/// The state after a pick.
pub open spec fn after_pick(state: SettingsModalState, active: Channel, pick: Channel) -> SettingsModalState {
    if pick != picked(state, active) {
        SettingsModalState {
            pending_channel: Some(pick),
            channel_switch_confirm: None,
            ..state
        }
    } else {
        state
    }
}

/// A pick in the list. Another pick takes a waiting confirmation away.
pub fn pick_channel(state: &mut SettingsModalState, active: Channel, pick: Channel)
    ensures
        *final(state) == after_pick(*old(state), active, pick),
{
    if pick != selected_channel(state, active) {
        state.pending_channel = Some(pick);
        state.channel_switch_confirm = None;
    }
}

/// What stands below the list.
#[derive(Clone, Copy, Debug, PartialEq, Eq, Structural)]
pub enum SwitchStep {
    /// The picked channel is the active one.
    Nothing,
    /// The button that asks for the switch.
    Save,
    /// The question whether to switch.
    Confirm,
}

/// What stands below the list.
pub open spec fn step(state: SettingsModalState, active: Channel) -> SwitchStep {
    let pick = picked(state, active);
    if pick == active {
        SwitchStep::Nothing
    } else if state.channel_switch_confirm == Some(pick) {
        SwitchStep::Confirm
    } else {
        SwitchStep::Save
    }
}

/// What stands below the list.
pub fn switch_step(state: &SettingsModalState, active: Channel) -> (r: SwitchStep)
    ensures
        r == step(*state, active),
{
    let pick = selected_channel(state, active);
    if pick == active {
        SwitchStep::Nothing
    } else {
        match state.channel_switch_confirm {
            Some(channel) => if channel == pick {
                SwitchStep::Confirm
            } else {
                SwitchStep::Save
            },
            None => SwitchStep::Save,
        }
    }
}

/// The state after a click on Save.
pub open spec fn after_save(state: SettingsModalState, active: Channel) -> SettingsModalState {
    if step(state, active) == SwitchStep::Save {
        SettingsModalState { channel_switch_confirm: Some(picked(state, active)), ..state }
    } else {
        state
    }
}

/// A click on Save: asks whether to switch. Without the button nothing happens.
pub fn save(state: &mut SettingsModalState, active: Channel)
    ensures
        *final(state) == after_save(*old(state), active),
{
    if switch_step(state, active) == SwitchStep::Save {
        state.channel_switch_confirm = Some(selected_channel(state, active));
    }
}

/// The state with nothing picked and nothing to confirm.
pub open spec fn settled(state: SettingsModalState) -> SettingsModalState {
    SettingsModalState { pending_channel: None, channel_switch_confirm: None, ..state }
}

/// A click on Cancel: takes the pick back.
pub fn cancel(state: &mut SettingsModalState, active: Channel)
    ensures
        *final(state) == (if step(*old(state), active) == SwitchStep::Confirm {
            settled(*old(state))
        } else {
            *old(state)
        }),
{
    if switch_step(state, active) == SwitchStep::Confirm {
        state.pending_channel = None;
        state.channel_switch_confirm = None;
    }
}

/// A click on the button that confirms: the channel to switch to.
pub fn confirm(state: &mut SettingsModalState, active: Channel) -> (r: Option<Channel>)
    ensures
        r == (if step(*old(state), active) == SwitchStep::Confirm {
            Some(picked(*old(state), active))
        } else {
            None
        }),
        *final(state) == (if step(*old(state), active) == SwitchStep::Confirm {
            settled(*old(state))
        } else {
            *old(state)
        }),
{
    if switch_step(state, active) == SwitchStep::Confirm {
        let pick = selected_channel(state, active);
        state.pending_channel = None;
        state.channel_switch_confirm = None;
        Some(pick)
    } else {
        None
    }
}

/// The line that says where the channel's server is.
pub fn endpoint_line(server_url: &str) -> (r: String)
    ensures
        r@ == "Endpoint: "@ + server_url@,
{
    cat2("Endpoint: ", server_url)
}

/// The line that says whether the install is registered on the channel.
pub open spec fn registration_text(pick: Channel, registered: bool) -> Seq<char> {
    if registered {
        "Registered on "@ + slug(pick) + "."@
    } else {
        "Not yet registered on "@ + slug(pick) + ". Run `superdeduper register --channel "@ + slug(
            pick,
        ) + "` first."@
    }
}

/// The line that says whether the install is registered on the channel.
pub fn registration_line(pick: Channel, registered: bool) -> (r: String)
    ensures
        r@ == registration_text(pick, registered),
{
    if registered {
        cat3("Registered on ", pick.as_slug(), ".")
    } else {
        cat5(
            "Not yet registered on ",
            pick.as_slug(),
            ". Run `superdeduper register --channel ",
            pick.as_slug(),
            "` first.",
        )
    }
}

/// The texts below the list.
pub enum SwitchTexts {
    /// The line that names the active channel.
    Nothing(String),
    /// The label of the button.
    Save(String),
    /// The question, what the switch means, and the label of the button that confirms.
    Confirm(String, String, String),
}

/// The texts below the list.
pub fn switch_texts(state: &SettingsModalState, active: Channel) -> (r: SwitchTexts)
    ensures
        ({
            let pick = slug(picked(*state, active));
            match step(*state, active) {
                SwitchStep::Nothing => (r matches SwitchTexts::Nothing(line) && line@
                    == "Active channel: "@ + slug(active)),
                SwitchStep::Save => (r matches SwitchTexts::Save(label) && label@
                    == "Save (switch to "@ + pick + ")"@),
                SwitchStep::Confirm => (r matches SwitchTexts::Confirm(question, meaning, label)
                    && question@ == "Switch channel to "@ + pick + "?"@ && meaning@
                    == "Switching to "@ + pick + " channel. You'll be a fresh install on "@ + pick
                    + " (or load the existing one if you've registered there before). Your "@
                    + slug(active)
                    + " grants stay safe but won't transfer between channels."@ && label@
                    == "Switch to "@ + pick),
            }
        }),
{
    let pick = selected_channel(state, active).as_slug();
    match switch_step(state, active) {
        SwitchStep::Nothing => SwitchTexts::Nothing(cat2("Active channel: ", active.as_slug())),
        SwitchStep::Save => SwitchTexts::Save(cat3("Save (switch to ", pick, ")")),
        SwitchStep::Confirm => SwitchTexts::Confirm(
            cat3("Switch channel to ", pick, "?"),
            cat7(
                "Switching to ",
                pick,
                " channel. You'll be a fresh install on ",
                pick,
                " (or load the existing one if you've registered there before). Your ",
                active.as_slug(),
                " grants stay safe but won't transfer between channels.",
            ),
            cat2("Switch to ", pick),
        ),
    }
}

/// A pick of another channel never leaves a question about an earlier one.
pub proof fn another_pick_asks_again(state: SettingsModalState, active: Channel, pick: Channel)
    requires
        pick != picked(state, active),
    ensures
        step(after_pick(state, active, pick), active) != SwitchStep::Confirm,
{
}

/// What is confirmed is what was picked and saved, and never the active channel.
pub proof fn confirmed_is_picked(state: SettingsModalState, active: Channel)
    requires
        step(state, active) == SwitchStep::Confirm,
    ensures
        state.channel_switch_confirm == Some(picked(state, active)),
        picked(state, active) != active,
{
}

/// A switch takes a pick, a save and a confirmation: after a save the same channel is asked for.
pub proof fn save_asks_for_the_pick(state: SettingsModalState, active: Channel)
    requires
        step(state, active) == SwitchStep::Save,
    ensures
        step(after_save(state, active), active) == SwitchStep::Confirm,
        picked(after_save(state, active), active) == picked(state, active),
{
}

/// What is picked is what the user chose last, and the active channel before any choice. A switch
/// is one save and one confirmation away; where the active channel is picked there is nothing to
/// do.
pub proof fn switches_take_two_steps(state: SettingsModalState, active: Channel)
    ensures
        ({
            let pick = match state.pending_channel {
                Some(channel) => channel,
                None => active,
            };
            &&& picked(state, active) == pick
            &&& step(state, active) == SwitchStep::Nothing <==> pick == active
            &&& step(state, active) == SwitchStep::Confirm <==> pick != active
                && state.channel_switch_confirm == Some(pick)
            &&& step(state, active) == SwitchStep::Save <==> pick != active
                && state.channel_switch_confirm != Some(pick)
            &&& pick != active ==> after_save(state, active).channel_switch_confirm == Some(pick)
            &&& pick == active ==> after_save(state, active) == state
            &&& after_save(state, active).pending_channel == state.pending_channel
        }),
{
}

/// A pick is kept and has to be saved before it can be confirmed; after a switch, or a step back,
/// nothing is picked or asked.
pub proof fn picks_are_kept(state: SettingsModalState, active: Channel, pick: Channel)
    ensures
        picked(after_pick(state, active, pick), active) == pick,
        pick != picked(state, active) ==> after_pick(state, active, pick).channel_switch_confirm is None,
        settled(state).pending_channel is None,
        settled(state).channel_switch_confirm is None,
        picked(settled(state), active) == active,
{
}

/// The note below the channels is about the picked one.
pub proof fn registrations_are_told(pick: Channel)
    ensures
        registration_text(pick, true) == "Registered on "@ + slug(pick) + "."@,
        registration_text(pick, false) == "Not yet registered on "@ + slug(pick)
            + ". Run `superdeduper register --channel "@ + slug(pick) + "` first."@,
{
}

} // verus!
