//! What sessions tell the broadcast core, and what the core asks to be sent.

use crate::peer::PeerId;
use vstd::prelude::*;

verus! {

/// One occurrence on one connection, as its session reports it.
///
/// A session reports `Connected` first and `Disconnected` last; in between
/// come the chunks it has read.
#[derive(Debug, Clone, PartialEq, Eq)]
pub enum SessionEvent<H> {
    /// The peer is there, and `handle` is the channel on which to reach it.
    Connected { peer: PeerId, handle: H },
    /// The peer has sent `bytes`.
    Data { peer: PeerId, bytes: Vec<u8> },
    /// The peer's connection has ended.
    Disconnected { peer: PeerId },
}

/// A session event as contracts see it: identities and chunks as sequences.
pub enum EventView<H> {
    Connected { peer: Seq<u8>, handle: H },
    Data { peer: Seq<u8>, bytes: Seq<u8> },
    Disconnected { peer: Seq<u8> },
}

impl<H> View for SessionEvent<H> {
    type V = EventView<H>;

    open spec fn view(&self) -> EventView<H> {
        match *self {
            SessionEvent::Connected { peer, handle } => EventView::Connected {
                peer: peer@,
                handle,
            },
            SessionEvent::Data { peer, bytes } => EventView::Data { peer: peer@, bytes: bytes@ },
            SessionEvent::Disconnected { peer } => EventView::Disconnected { peer: peer@ },
        }
    }
}

/// One chunk to be written to one client's outbound channel.
#[derive(Debug, Clone, PartialEq, Eq)]
pub struct Delivery {
    pub to: PeerId,
    pub payload: Vec<u8>,
}

impl View for Delivery {
    type V = (Seq<u8>, Seq<u8>);

    open spec fn view(&self) -> (Seq<u8>, Seq<u8>) {
        (self.to@, self.payload@)
    }
}

/// A list of deliveries as contracts see it: `(recipient, payload)` pairs in
/// the order in which they are to be written.
pub open spec fn delivery_views(list: Seq<Delivery>) -> Seq<(Seq<u8>, Seq<u8>)> {
    list.map_values(|delivery: Delivery| delivery@)
}

} // verus!
