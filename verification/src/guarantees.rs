//! What holds of the broadcast core on every stream of events.
//!
//! Each statement is about the model that the core's contracts are written
//! in: `next_registry`, `outgoing` and `run`.

use crate::broadcast::{addressed, next_registry, outgoing, run};
use crate::event::EventView;
use crate::notice::{joined_text, relayed_text};
use crate::registry::{
    lemma_without_absent, lemma_without_membership, lemma_without_unique, registered, unique,
    without,
};
use vstd::prelude::*;

verus! {

/// `list` holds exactly one delivery for `to`, and its payload is `payload`.
pub open spec fn delivered_once(
    list: Seq<(Seq<u8>, Seq<u8>)>,
    to: Seq<u8>,
    payload: Seq<u8>,
) -> bool {
    exists|i: int|
        0 <= i < list.len() && #[trigger] list[i] == (to, payload) && forall|j: int|
            0 <= j < list.len() && (#[trigger] list[j]).0 == to ==> j == i
}

/// One event leaves a registry of unique identities a registry of unique
/// identities.
pub proof fn lemma_step_keeps_unique<H>(entries: Seq<(Seq<u8>, H)>, event: EventView<H>)
    requires
        unique(entries),
    ensures
        unique(next_registry(entries, event)),
{
    match event {
        EventView::Connected { peer, handle } => {
            if !registered(entries, peer) {
                let grown = entries.push((peer, handle));
                assert forall|i: int, j: int| 0 <= i < j < grown.len() implies (
                #[trigger] grown[i]).0 != (#[trigger] grown[j]).0 by {
                    if j == entries.len() {
                        assert(entries[i].0 != peer);
                    } else {
                        assert(entries[i].0 != entries[j].0);
                    }
                }
            }
        },
        EventView::Data { peer, bytes } => {},
        EventView::Disconnected { peer } => {
            lemma_without_unique(entries, peer);
        },
    }
}

/// Whatever events arrive, in whatever order, the registry never holds two
/// entries with one identity: not at the end, and at no point on the way.
pub proof fn lemma_registry_always_unique<H>(events: Seq<EventView<H>>, upto: int)
    requires
        0 <= upto <= events.len(),
    ensures
        unique(run(Seq::<(Seq<u8>, H)>::empty(), events.take(upto))),
    decreases upto,
{
    let seen = events.take(upto);
    if upto > 0 {
        assert(seen.drop_last() =~= events.take(upto - 1));
        lemma_registry_always_unique(events, upto - 1);
        lemma_step_keeps_unique(run(Seq::<(Seq<u8>, H)>::empty(), seen.drop_last()), seen.last());
    }
}

/// Nothing that a peer causes is sent to that peer: not the chunk it sent,
/// not the notice of its arrival, not the notice of its leaving.
pub proof fn lemma_nothing_returns_to_its_source<H>(
    entries: Seq<(Seq<u8>, H)>,
    event: EventView<H>,
    at: int,
)
    requires
        0 <= at < outgoing(entries, event).len(),
    ensures
        match event {
            EventView::Connected { peer, handle } => outgoing(entries, event)[at].0 != peer,
            EventView::Data { peer, bytes } => outgoing(entries, event)[at].0 != peer,
            EventView::Disconnected { peer } => outgoing(entries, event)[at].0 != peer,
        },
{
    match event {
        EventView::Connected { peer, handle } => {
            assert(entries[at].0 != peer);
        },
        EventView::Data { peer, bytes } => {
            lemma_without_membership(entries, peer);
            assert(without(entries, peer)[at].0 != peer);
        },
        EventView::Disconnected { peer } => {
            lemma_without_membership(entries, peer);
            assert(without(entries, peer)[at].0 != peer);
        },
    }
}

/// A chunk sent to all of `entries` reaches a registered peer exactly once.
pub proof fn lemma_addressed_once<H>(entries: Seq<(Seq<u8>, H)>, to: Seq<u8>, payload: Seq<u8>)
    requires
        unique(entries),
        registered(entries, to),
    ensures
        delivered_once(addressed(entries, payload), to, payload),
{
    let list = addressed(entries, payload);
    let i = choose|i: int| 0 <= i < entries.len() && (#[trigger] entries[i]).0 == to;
    assert(list[i] == (to, payload));
    assert forall|j: int| 0 <= j < list.len() && (#[trigger] list[j]).0 == to implies j == i by {
        if j < i {
            assert(entries[j].0 != entries[i].0);
        } else if i < j {
            assert(entries[i].0 != entries[j].0);
        }
    }
}

/// When a registered peer sends a chunk, every other registered peer is sent
/// it exactly once.
pub proof fn lemma_data_reaches_each_other_peer<H>(
    entries: Seq<(Seq<u8>, H)>,
    sender: Seq<u8>,
    bytes: Seq<u8>,
    to: Seq<u8>,
)
    requires
        unique(entries),
        registered(entries, sender),
        registered(entries, to),
        to != sender,
    ensures
        delivered_once(
            outgoing(entries, EventView::Data { peer: sender, bytes }),
            to,
            relayed_text(sender, bytes),
        ),
{
    lemma_without_unique(entries, sender);
    lemma_without_membership(entries, sender);
    lemma_addressed_once(without(entries, sender), to, relayed_text(sender, bytes));
}

/// A peer that joins is seen by those who were there, and sees them.
///
/// Let `earlier` be registered and `newcomer` not. Then nothing that
/// `newcomer` sends is passed on yet; its arrival sends `earlier` exactly
/// one notice, and that is the notice of this arrival; and once it has
/// arrived, `newcomer` is sent every chunk that `earlier` sends, once.
pub proof fn lemma_join_visibility<H>(
    entries: Seq<(Seq<u8>, H)>,
    earlier: Seq<u8>,
    newcomer: Seq<u8>,
    handle: H,
    bytes: Seq<u8>,
)
    requires
        unique(entries),
        registered(entries, earlier),
        !registered(entries, newcomer),
    ensures
        outgoing(entries, EventView::Data { peer: newcomer, bytes }).len() == 0,
        delivered_once(
            outgoing(entries, EventView::Connected { peer: newcomer, handle }),
            earlier,
            joined_text(newcomer),
        ),
        delivered_once(
            outgoing(
                next_registry(entries, EventView::Connected { peer: newcomer, handle }),
                EventView::Data { peer: earlier, bytes },
            ),
            newcomer,
            relayed_text(earlier, bytes),
        ),
{
    let arrival = EventView::Connected { peer: newcomer, handle };
    lemma_addressed_once(entries, earlier, joined_text(newcomer));
    let grown = next_registry(entries, arrival);
    lemma_step_keeps_unique(entries, arrival);
    let at = choose|i: int| 0 <= i < entries.len() && (#[trigger] entries[i]).0 == earlier;
    assert(grown[at].0 == earlier);
    assert(grown[entries.len() as int].0 == newcomer);
    lemma_data_reaches_each_other_peer(grown, earlier, bytes, newcomer);
}

/// Whether `event` is the arrival of `peer`.
pub open spec fn is_arrival_of<H>(event: EventView<H>, peer: Seq<u8>) -> bool {
    event matches EventView::Connected { peer: who, .. } && who == peer
}

/// Nobody is registered who has not arrived: a peer that the registry holds
/// after some events has a `Connected` among them. So whatever a peer sends
/// is passed on only after its arrival has been announced.
pub proof fn lemma_registered_only_after_arrival<H>(events: Seq<EventView<H>>, peer: Seq<u8>)
    requires
        registered(run(Seq::<(Seq<u8>, H)>::empty(), events), peer),
    ensures
        exists|k: int| 0 <= k < events.len() && is_arrival_of(#[trigger] events[k], peer),
    decreases events.len(),
{
    let none = Seq::<(Seq<u8>, H)>::empty();
    if events.len() == 0 {
        assert(run(none, events) == none);
        assert(!registered(none, peer));
    } else {
        let before = run(none, events.drop_last());
        let last = events.last();
        if registered(before, peer) {
            lemma_registered_only_after_arrival(events.drop_last(), peer);
            let k = choose|k: int|
                0 <= k < events.drop_last().len() && is_arrival_of(
                    #[trigger] events.drop_last()[k],
                    peer,
                );
            assert(events[k] == events.drop_last()[k]);
        } else {
            match last {
                EventView::Connected { peer: who, handle } => {
                    if who != peer {
                        let after = before.push((who, handle));
                        let i = choose|i: int|
                            0 <= i < after.len() && (#[trigger] after[i]).0 == peer;
                        assert(before[i].0 == peer);
                    }
                    assert(is_arrival_of(events[events.len() - 1], peer));
                },
                EventView::Data { peer: who, bytes } => {},
                EventView::Disconnected { peer: who } => {
                    lemma_without_membership(before, who);
                },
            }
        }
    }
}

/// Leaving twice is leaving once: the second `Disconnected` for a peer finds
/// it gone, changes nothing and sends nothing.
pub proof fn lemma_leave_idempotent<H>(entries: Seq<(Seq<u8>, H)>, peer: Seq<u8>)
    ensures
        next_registry(
            next_registry(entries, EventView::Disconnected { peer }),
            EventView::Disconnected { peer },
        ) == next_registry(entries, EventView::Disconnected { peer }),
        outgoing(
            next_registry(entries, EventView::Disconnected { peer }),
            EventView::Disconnected { peer },
        ).len() == 0,
{
    lemma_without_membership(entries, peer);
    lemma_without_absent(without(entries, peer), peer);
}

/// What one client is sent does not hang on any other client.
///
/// Let `sender` send a chunk and `to` be another registered peer. Then `to`
/// is sent that chunk exactly once whether a third peer, `other`, is in the
/// registry or has been removed from it. The core never learns how a write
/// went, so a client whose channel is broken can at most be such an `other`.
pub proof fn lemma_delivery_independent_of_others<H>(
    entries: Seq<(Seq<u8>, H)>,
    sender: Seq<u8>,
    bytes: Seq<u8>,
    to: Seq<u8>,
    other: Seq<u8>,
)
    requires
        unique(entries),
        registered(entries, sender),
        registered(entries, to),
        to != sender,
        other != sender,
        other != to,
    ensures
        delivered_once(
            outgoing(entries, EventView::Data { peer: sender, bytes }),
            to,
            relayed_text(sender, bytes),
        ),
        delivered_once(
            outgoing(without(entries, other), EventView::Data { peer: sender, bytes }),
            to,
            relayed_text(sender, bytes),
        ),
{
    lemma_data_reaches_each_other_peer(entries, sender, bytes, to);
    lemma_without_unique(entries, other);
    lemma_without_membership(entries, other);
    lemma_data_reaches_each_other_peer(without(entries, other), sender, bytes, to);
}

/// Two peers that arrive at an empty relay are both registered, whichever
/// arrival the merged stream puts first.
pub proof fn lemma_two_arrivals_either_order<H>(
    first: Seq<u8>,
    first_handle: H,
    second: Seq<u8>,
    second_handle: H,
)
    requires
        first != second,
    ensures
        run(
            Seq::<(Seq<u8>, H)>::empty(),
            seq![
                EventView::Connected { peer: first, handle: first_handle },
                EventView::Connected { peer: second, handle: second_handle },
            ],
        ) == seq![(first, first_handle), (second, second_handle)],
        run(
            Seq::<(Seq<u8>, H)>::empty(),
            seq![
                EventView::Connected { peer: second, handle: second_handle },
                EventView::Connected { peer: first, handle: first_handle },
            ],
        ) == seq![(second, second_handle), (first, first_handle)],
{
    lemma_two_arrivals(first, first_handle, second, second_handle);
    lemma_two_arrivals(second, second_handle, first, first_handle);
}

/// Two different peers arriving in turn at an empty relay.
proof fn lemma_two_arrivals<H>(first: Seq<u8>, first_handle: H, second: Seq<u8>, second_handle: H)
    requires
        first != second,
    ensures
        run(
            Seq::<(Seq<u8>, H)>::empty(),
            seq![
                EventView::Connected { peer: first, handle: first_handle },
                EventView::Connected { peer: second, handle: second_handle },
            ],
        ) == seq![(first, first_handle), (second, second_handle)],
{
    let none = Seq::<(Seq<u8>, H)>::empty();
    let one = EventView::Connected { peer: first, handle: first_handle };
    let two = EventView::Connected { peer: second, handle: second_handle };
    let both = seq![one, two];
    assert(both.drop_last() =~= seq![one]);
    assert(seq![one].drop_last() =~= Seq::<EventView<H>>::empty());
    assert(run(none, Seq::<EventView<H>>::empty()) == none);
    assert(run(none, seq![one]) == next_registry(none, one)) by {
        reveal_with_fuel(run, 2);
    }
    assert(!registered(none, first));
    let after_one = none.push((first, first_handle));
    assert(run(none, seq![one]) == after_one);
    assert(!registered(after_one, second)) by {
        if registered(after_one, second) {
            let i = choose|i: int| 0 <= i < after_one.len() && (#[trigger] after_one[i]).0 == second;
            assert(after_one[i].0 == first);
        }
    }
    assert(run(none, both) == next_registry(run(none, both.drop_last()), both.last()));
    assert(run(none, both) =~= seq![(first, first_handle), (second, second_handle)]);
}

} // verus!
