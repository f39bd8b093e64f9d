//! One secure channel: its key agreement, its keys, the number of its next message.

use vstd::prelude::*;
use crate::address::{Address, Route, RouteView};
use crate::address;
use crate::message::{Message, MessageView};

verus! {

/// A channel with its key agreement `A`, which gives the keys `K`, under which messages are
/// encrypted and decrypted, once it is complete.
pub struct Channel<A, K> {
    /// The keys, once the agreement has given them; `None` while somebody works with them.
    pub completed_key_exchange: Option<K>,
    /// The identifier, from which the address is made.
    pub id: u32,
    /// The agreement; `None` while somebody works with it.
    pub agreement: Option<A>,
    /// The number of the next message that is encrypted. The last number there is stands for none
    /// left.
    pub nonce: u16,
    /// The way to the other end.
    pub route: Route,
    /// What to send when the key agreement is done.
    pub pending: Option<Message>,
}

/// What a [`Channel`] holds.
pub struct ChannelView<A, K> {
    pub completed_key_exchange: Option<K>,
    pub id: u32,
    pub agreement: Option<A>,
    pub nonce: u16,
    pub route: RouteView,
    pub pending: Option<MessageView>,
}

impl<A, K> View for Channel<A, K> {
    type V = ChannelView<A, K>;

    open spec fn view(&self) -> ChannelView<A, K> {
        ChannelView {
            completed_key_exchange: self.completed_key_exchange,
            id: self.id,
            agreement: self.agreement,
            nonce: self.nonce,
            route: self.route@,
            pending: match self.pending {
                Some(m) => Some(m@),
                None => None,
            },
        }
    }
}

/// What a channel holds is shown whole.
pub proof fn law_channel_shows_all<A, K>(channel: Channel<A, K>)
    ensures
        channel@.completed_key_exchange == channel.completed_key_exchange,
        channel@.id == channel.id,
        channel@.agreement == channel.agreement,
        channel@.nonce == channel.nonce,
        channel@.route == channel.route@,
        channel@.pending is Some <==> channel.pending is Some,
        channel.pending matches Some(m) ==> channel@.pending == Some(m@),
{
}

/// A channel on which nothing has happened yet.
pub open spec fn new_channel<A, K>(id: u32, agreement: A) -> ChannelView<A, K> {
    ChannelView {
        completed_key_exchange: None,
        id,
        agreement: Some(agreement),
        nonce: 0,
        route: Seq::empty(),
        pending: None,
    }
}

impl<A, K> Channel<A, K> {
    /// A channel on which nothing has happened yet.
    pub fn new(id: u32, agreement: A) -> (channel: Self)
        ensures
            channel@ == new_channel::<A, K>(id, agreement),
            channel.id == id,
            channel.agreement == Some(agreement),
            channel.completed_key_exchange is None,
            channel.nonce == 0,
            channel.route@.len() == 0,
            channel.pending is None,
    {
        let channel = Channel {
            id,
            agreement: Some(agreement),
            completed_key_exchange: None,
            nonce: 0,
            route: Route { addresses: Vec::new() },
            pending: None,
        };
        assert(channel@.route =~= Seq::empty());
        channel
    }

    /// The address of the channel.
    pub fn as_address(&self) -> (address: Address)
        ensures
            address@ == address::channel_address(self@.id).address,
            address matches Address::ChannelAddress(bytes) && bytes@.len() == 4 && self.id
                == bytes@[0] + 256 * bytes@[1] + 65536 * bytes@[2] + 16777216 * bytes@[3],
    {
        proof {
            address::law_routed(address::channel_address(self.id).address, self.id);
        }
        Address::channel(self.id)
    }
}

} // verus!
