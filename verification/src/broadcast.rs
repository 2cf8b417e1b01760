//! The broadcast core: the one owner of the registry.
//!
//! The core takes session events one at a time, in the order of the merged
//! stream, and answers each with the new registry and the chunks to write.
//! It writes nothing itself: whoever runs it performs the deliveries, each on
//! its own, so that one client's failing channel holds up nobody else's.

use crate::event::{delivery_views, Delivery, EventView, SessionEvent};
use crate::notice::{
    joined, joined_text, left, left_text, relayed, relayed_text, said, said_text,
};
use crate::peer::PeerId;
use crate::registry::{
    lemma_without_absent, lemma_without_empty, lemma_without_membership, lemma_without_push,
    registered, unique, without, ClientHandle, ClientRegistry,
};
use vstd::prelude::*;
use vstd::utf8::{encode_utf8, valid_utf8};

verus! {

/// One copy of `payload` for each entry, in the order of the entries.
pub open spec fn addressed<H>(entries: Seq<(Seq<u8>, H)>, payload: Seq<u8>) -> Seq<
    (Seq<u8>, Seq<u8>),
> {
    entries.map_values(|entry: (Seq<u8>, H)| (entry.0, payload))
}

/// The registry after `event`.
pub open spec fn next_registry<H>(entries: Seq<(Seq<u8>, H)>, event: EventView<H>) -> Seq<
    (Seq<u8>, H),
> {
    match event {
        EventView::Connected { peer, handle } => if registered(entries, peer) {
            entries
        } else {
            entries.push((peer, handle))
        },
        EventView::Data { peer, bytes } => entries,
        EventView::Disconnected { peer } => without(entries, peer),
    }
}

/// The deliveries that `event` gives rise to, in order.
pub open spec fn outgoing<H>(entries: Seq<(Seq<u8>, H)>, event: EventView<H>) -> Seq<
    (Seq<u8>, Seq<u8>),
> {
    match event {
        EventView::Connected { peer, handle } => if registered(entries, peer) {
            Seq::empty()
        } else {
            addressed(entries, joined_text(peer))
        },
        EventView::Data { peer, bytes } => if registered(entries, peer) {
            addressed(without(entries, peer), relayed_text(peer, bytes))
        } else {
            Seq::empty()
        },
        EventView::Disconnected { peer } => if registered(entries, peer) {
            addressed(without(entries, peer), left_text(peer))
        } else {
            Seq::empty()
        },
    }
}

/// The registry after each of `events` in turn.
pub open spec fn run<H>(entries: Seq<(Seq<u8>, H)>, events: Seq<EventView<H>>) -> Seq<
    (Seq<u8>, H),
>
    decreases events.len(),
{
    if events.len() == 0 {
        entries
    } else {
        next_registry(run(entries, events.drop_last()), events.last())
    }
}

/// All the deliveries that `events` give rise to, in the order of the events.
pub open spec fn run_outgoing<H>(entries: Seq<(Seq<u8>, H)>, events: Seq<EventView<H>>) -> Seq<
    (Seq<u8>, Seq<u8>),
>
    decreases events.len(),
{
    if events.len() == 0 {
        Seq::empty()
    } else {
        run_outgoing(entries, events.drop_last()) + outgoing(
            run(entries, events.drop_last()),
            events.last(),
        )
    }
}

/// A list of events as contracts see it.
pub open spec fn event_views<H>(events: Seq<SessionEvent<H>>) -> Seq<EventView<H>> {
    events.map_values(|event: SessionEvent<H>| event@)
}

/// The broadcast core of one relay.
pub struct BroadcastCore<H> {
    registry: ClientRegistry<H>,
}

impl<H> View for BroadcastCore<H> {
    type V = Seq<(Seq<u8>, H)>;

    closed spec fn view(&self) -> Seq<(Seq<u8>, H)> {
        self.registry@
    }
}

impl<H> BroadcastCore<H> {
    /// No identity is registered twice.
    pub open spec fn wf(&self) -> bool {
        unique(self@)
    }

    /// A core with nobody registered.
    pub fn new() -> (core: Self)
        ensures
            core@ == Seq::<(Seq<u8>, H)>::empty(),
            core.wf(),
    {
        BroadcastCore { registry: ClientRegistry::new() }
    }

    /// The registry, to look at.
    pub fn registry(&self) -> (registry: &ClientRegistry<H>)
        ensures
            registry@ == self@,
    {
        &self.registry
    }

    /// One copy of `payload` for every registered client but `except`.
    fn fan_out(&self, except: &PeerId, payload: &Vec<u8>) -> (out: Vec<Delivery>)
        ensures
            delivery_views(out@) == addressed(without(self@, except@), payload@),
    {
        let ids = self.registry.peers();
        let ghost entries = self@;
        let mut out: Vec<Delivery> = Vec::new();
        let mut i: usize = 0;
        proof {
            assert(entries.take(0) =~= Seq::empty());
            lemma_without_empty::<H>(except@);
            assert(delivery_views(out@) =~= addressed(
                without(entries.take(0), except@),
                payload@,
            ));
        }
        while i < ids.len()
            invariant
                i <= ids.len(),
                ids@.len() == entries.len(),
                forall|j: int| 0 <= j < ids@.len() ==> (#[trigger] ids@[j])@ == entries[j].0,
                delivery_views(out@) == addressed(
                    without(entries.take(i as int), except@),
                    payload@,
                ),
            decreases ids.len() - i,
        {
            let ghost before = delivery_views(out@);
            if !ids[i].same(except) {
                out.push(Delivery { to: ids[i].duplicate(), payload: payload.clone() });
                assert(delivery_views(out@) =~= before.push((entries[i as int].0, payload@)));
            }
            proof {
                assert(entries.take(i + 1) =~= entries.take(i as int).push(entries[i as int]));
                lemma_without_push(entries.take(i as int), entries[i as int], except@);
                assert(delivery_views(out@) =~= addressed(
                    without(entries.take(i + 1), except@),
                    payload@,
                ));
            }
            i = i + 1;
        }
        assert(entries.take(i as int) =~= entries);
        out
    }

    /// A peer has arrived: the others are told, then it is registered.
    ///
    /// The new peer gets no notice of its own arrival. An identity that is
    /// registered already stays with its first channel: the event is passed
    /// over, and `handle` is dropped.
    pub fn on_connected(&mut self, peer: PeerId, handle: H) -> (out: Vec<Delivery>)
        requires
            old(self).wf(),
        ensures
            final(self).wf(),
            final(self)@ == next_registry(
                old(self)@,
                EventView::Connected { peer: peer@, handle },
            ),
            delivery_views(out@) == outgoing(
                old(self)@,
                EventView::Connected { peer: peer@, handle },
            ),
    {
        if self.registry.contains(&peer) {
            let out: Vec<Delivery> = Vec::new();
            assert(delivery_views(out@) =~= Seq::empty());
            return out;
        }
        let notice = joined(&peer);
        let out = self.fan_out(&peer, &notice);
        proof {
            lemma_without_absent(self@, peer@);
        }
        self.registry.insert(ClientHandle { id: peer, outbound: handle });
        out
    }

    /// A peer has sent something that reads as `text`: every other client
    /// gets one line that shows it with the sender's identity.
    ///
    /// Nothing is sent for a peer that is not registered.
    pub fn on_text(&self, peer: &PeerId, text: &str) -> (out: Vec<Delivery>)
        ensures
            delivery_views(out@) == if registered(self@, peer@) {
                addressed(without(self@, peer@), said_text(peer@, encode_utf8(text@)))
            } else {
                Seq::empty()
            },
    {
        if !self.registry.contains(peer) {
            let out: Vec<Delivery> = Vec::new();
            assert(delivery_views(out@) =~= Seq::empty());
            return out;
        }
        let line = said(peer, text.as_bytes());
        self.fan_out(peer, &line)
    }

    /// A peer has sent `bytes`: every other client gets them as text, one
    /// line each, with the sender's identity in front.
    ///
    /// Bytes that are well-formed UTF-8 arrive as they were sent.
    pub fn on_data(&self, peer: &PeerId, bytes: &Vec<u8>) -> (out: Vec<Delivery>)
        ensures
            delivery_views(out@) == outgoing(
                self@,
                EventView::Data { peer: peer@, bytes: bytes@ },
            ),
            valid_utf8(bytes@) && registered(self@, peer@) ==> delivery_views(out@) == addressed(
                without(self@, peer@),
                said_text(peer@, bytes@),
            ),
    {
        if !self.registry.contains(peer) {
            let out: Vec<Delivery> = Vec::new();
            assert(delivery_views(out@) =~= Seq::empty());
            return out;
        }
        let line = relayed(peer, bytes);
        self.fan_out(peer, &line)
    }

    /// A peer's connection has ended: it leaves the registry, then those who
    /// remain are told.
    ///
    /// Nothing happens for a peer that is not registered.
    pub fn on_disconnected(&mut self, peer: &PeerId) -> (out: Vec<Delivery>)
        requires
            old(self).wf(),
        ensures
            final(self).wf(),
            final(self)@ == next_registry(old(self)@, EventView::Disconnected { peer: peer@ }),
            delivery_views(out@) == outgoing(
                old(self)@,
                EventView::Disconnected { peer: peer@ },
            ),
    {
        let gone = self.registry.remove(peer);
        if gone.is_none() {
            let out: Vec<Delivery> = Vec::new();
            assert(delivery_views(out@) =~= Seq::empty());
            return out;
        }
        let notice = left(peer);
        let out = self.fan_out(peer, &notice);
        proof {
            lemma_without_membership(old(self)@, peer@);
            lemma_without_absent(self@, peer@);
            assert(old(self)@.contains(gone.unwrap()@));
        }
        out
    }

    /// Takes the next event of the merged stream.
    ///
    /// Returns the chunks to write, each with its recipient, in the order of
    /// the registry.
    pub fn handle(&mut self, event: SessionEvent<H>) -> (out: Vec<Delivery>)
        requires
            old(self).wf(),
        ensures
            final(self).wf(),
            final(self)@ == next_registry(old(self)@, event@),
            delivery_views(out@) == outgoing(old(self)@, event@),
    {
        match event {
            SessionEvent::Connected { peer, handle } => self.on_connected(peer, handle),
            SessionEvent::Data { peer, bytes } => self.on_data(&peer, &bytes),
            SessionEvent::Disconnected { peer } => self.on_disconnected(&peer),
        }
    }

    /// Takes a stretch of the merged stream, event by event.
    ///
    /// Returns every chunk to write, in the order in which the events asked
    /// for them.
    pub fn consume(&mut self, events: Vec<SessionEvent<H>>) -> (out: Vec<Delivery>)
        requires
            old(self).wf(),
        ensures
            final(self).wf(),
            final(self)@ == run(old(self)@, event_views(events@)),
            delivery_views(out@) == run_outgoing(old(self)@, event_views(events@)),
    {
        let ghost all = event_views(events@);
        let mut out: Vec<Delivery> = Vec::new();
        proof {
            assert(all.take(0) =~= Seq::empty());
            assert(delivery_views(out@) =~= Seq::empty());
        }
        for event in it: events
            invariant
                self.wf(),
                it.seq().len() == all.len(),
                forall|j: int| 0 <= j < all.len() ==> (#[trigger] it.seq()[j])@ == all[j],
                self@ == run(old(self)@, all.take(it.index() as int)),
                delivery_views(out@) == run_outgoing(old(self)@, all.take(it.index() as int)),
        {
            let ghost done = all.take(it.index() as int);
            let ghost so_far = delivery_views(out@);
            let mut step = self.handle(event);
            let ghost fresh = delivery_views(step@);
            out.append(&mut step);
            proof {
                let next = all.take(it.index() + 1);
                assert(next.drop_last() =~= done);
                assert(next.last() == all[it.index() as int]);
                assert(delivery_views(out@) =~= so_far + fresh);
            }
        }
        assert(all.take(all.len() as int) =~= all);
        out
    }
}

} // verus!
