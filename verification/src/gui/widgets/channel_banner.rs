//! The stripe that says the client does not talk to the public service. It cannot be dismissed.
use vstd::prelude::*;

use crate::channel::Channel;

verus! {

/// The height of the stripe, in points.
pub const BANNER_HEIGHT: u32 = 32;

/// The stripe: its colour and its text.
#[derive(Clone, Copy, Debug)]
pub struct ChannelBanner {
    pub red: u8,
    pub green: u8,
    pub blue: u8,
    pub text: &'static str,
}

/// The stripe for the channel. The public channel has none.
pub fn banner(channel: Channel) -> (r: Option<ChannelBanner>)
    ensures
        match channel {
            Channel::Prod => r is None,
            Channel::Dev => (r matches Some(b) && b.red == 0xff && b.green == 0x88 && b.blue == 0
                && b.text@ == "DEV ENVIRONMENT"@),
            Channel::Local => (r matches Some(b) && b.red == 0x33 && b.green == 0x99 && b.blue
                == 0xff && b.text@ == "LOCAL ENVIRONMENT"@),
        },
        r is Some <==> channel != Channel::Prod,
{
    match channel {
        Channel::Prod => None,
        Channel::Dev => Some(
            ChannelBanner { red: 0xff, green: 0x88, blue: 0, text: "DEV ENVIRONMENT" },
        ),
        Channel::Local => Some(
            ChannelBanner { red: 0x33, green: 0x99, blue: 0xff, text: "LOCAL ENVIRONMENT" },
        ),
    }
}

} // verus!
