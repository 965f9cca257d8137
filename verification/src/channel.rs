//! The server environments a client can talk to.
use vstd::prelude::*;

verus! {

/// A server environment. Identity, achievements and submissions belong to one of them.
#[derive(Clone, Copy, Debug, PartialEq, Eq, Structural)]
pub enum Channel {
    Prod,
    Dev,
    Local,
}

/// The channel's short name.
pub open spec fn slug(channel: Channel) -> Seq<char> {
    match channel {
        Channel::Prod => "prod"@,
        Channel::Dev => "dev"@,
        Channel::Local => "local"@,
    }
}

impl Channel {
    /// The channel's short name.
    pub fn as_slug(self) -> (r: &'static str)
        ensures
            r@ == slug(self),
    {
        match self {
            Channel::Prod => "prod",
            Channel::Dev => "dev",
            Channel::Local => "local",
        }
    }

    /// Whether the channel is another than the public one.
    pub fn is_non_prod(self) -> (r: bool)
        ensures
            r == (self != Channel::Prod),
    {
        self != Channel::Prod
    }

    /// Every channel, in the order they are offered.
    pub fn all() -> (r: Vec<Channel>)
        ensures
            r@ == seq![Channel::Prod, Channel::Dev, Channel::Local],
    {
        let r = vec![Channel::Prod, Channel::Dev, Channel::Local];
        assert(r@ =~= seq![Channel::Prod, Channel::Dev, Channel::Local]);
        r
    }
}

} // verus!
