//! The set of live clients, keyed by peer identity.
//!
//! The registry is modelled as a sequence of `(identity, outbound channel)`
//! pairs in the order in which the peers were registered. That order is the
//! order in which a broadcast visits them.

use crate::peer::PeerId;
use vstd::prelude::*;

verus! {

/// One registered client: who it is, and the channel on which bytes reach it.
pub struct ClientHandle<H> {
    pub id: PeerId,
    pub outbound: H,
}

impl<H> View for ClientHandle<H> {
    type V = (Seq<u8>, H);

    open spec fn view(&self) -> (Seq<u8>, H) {
        (self.id@, self.outbound)
    }
}

/// Whether some entry of `entries` belongs to `peer`.
pub open spec fn registered<H>(entries: Seq<(Seq<u8>, H)>, peer: Seq<u8>) -> bool {
    exists|i: int| 0 <= i < entries.len() && (#[trigger] entries[i]).0 == peer
}

/// No identity occurs in two entries.
pub open spec fn unique<H>(entries: Seq<(Seq<u8>, H)>) -> bool {
    forall|i: int, j: int|
        0 <= i < j < entries.len() ==> (#[trigger] entries[i]).0 != (#[trigger] entries[j]).0
}

/// The test that an entry belongs to somebody other than `peer`.
pub open spec fn not_of<H>(peer: Seq<u8>) -> spec_fn((Seq<u8>, H)) -> bool {
    |entry: (Seq<u8>, H)| entry.0 != peer
}

/// The entries that do not belong to `peer`, in their old order.
pub open spec fn without<H>(entries: Seq<(Seq<u8>, H)>, peer: Seq<u8>) -> Seq<(Seq<u8>, H)> {
    entries.filter(not_of(peer))
}

/// Dropping a peer from a registry extended by one entry.
pub proof fn lemma_without_push<H>(entries: Seq<(Seq<u8>, H)>, entry: (Seq<u8>, H), peer: Seq<u8>)
    ensures
        without(entries.push(entry), peer) == if entry.0 != peer {
            without(entries, peer).push(entry)
        } else {
            without(entries, peer)
        },
{
    entries.lemma_filter_push(entry, not_of(peer));
}

/// Dropping a peer that is not registered changes nothing.
pub proof fn lemma_without_absent<H>(entries: Seq<(Seq<u8>, H)>, peer: Seq<u8>)
    requires
        !registered(entries, peer),
    ensures
        without(entries, peer) == entries,
    decreases entries.len(),
{
    if entries.len() == 0 {
        lemma_without_empty::<H>(peer);
        assert(entries =~= Seq::empty());
    } else {
        let front = entries.drop_last();
        let last = entries.last();
        assert(entries =~= front.push(last));
        assert(entries[entries.len() - 1].0 != peer);
        assert forall|i: int| 0 <= i < front.len() implies (#[trigger] front[i]).0 != peer by {
            assert(entries[i].0 != peer);
        }
        lemma_without_absent(front, peer);
        lemma_without_push(front, last, peer);
    }
}

/// Nothing is left to drop from an empty registry.
pub proof fn lemma_without_empty<H>(peer: Seq<u8>)
    ensures
        without(Seq::<(Seq<u8>, H)>::empty(), peer) == Seq::<(Seq<u8>, H)>::empty(),
{
    let none = Seq::<(Seq<u8>, H)>::empty();
    none.lemma_filter_len(not_of(peer));
    assert(without(none, peer) =~= none);
}

/// Where identities are unique, dropping a registered peer removes exactly
/// the one entry that holds it.
pub proof fn lemma_without_at<H>(entries: Seq<(Seq<u8>, H)>, at: int, peer: Seq<u8>)
    requires
        unique(entries),
        0 <= at < entries.len(),
        entries[at].0 == peer,
    ensures
        without(entries, peer) == entries.remove(at),
{
    let keep = not_of::<H>(peer);
    let before = entries.subrange(0, at);
    let hit = seq![entries[at]];
    let after = entries.subrange(at + 1, entries.len() as int);
    assert(entries =~= before + hit + after);
    assert forall|i: int| 0 <= i < before.len() implies (#[trigger] before[i]).0 != peer by {
        assert(entries[i].0 != entries[at].0);
    }
    assert forall|i: int| 0 <= i < after.len() implies (#[trigger] after[i]).0 != peer by {
        assert(entries[at].0 != entries[at + 1 + i].0);
    }
    lemma_without_absent(before, peer);
    lemma_without_absent(after, peer);
    lemma_without_empty::<H>(peer);
    lemma_without_push(Seq::<(Seq<u8>, H)>::empty(), entries[at], peer);
    assert(hit =~= Seq::<(Seq<u8>, H)>::empty().push(entries[at]));
    Seq::filter_distributes_over_add(before, hit, keep);
    Seq::filter_distributes_over_add(before + hit, after, keep);
    assert(without(entries, peer) =~= before + after);
}

/// What dropping a peer does to membership: the peer itself is gone, every
/// entry that stays was there before, and every other peer stays.
pub proof fn lemma_without_membership<H>(entries: Seq<(Seq<u8>, H)>, peer: Seq<u8>)
    ensures
        !registered(without(entries, peer), peer),
        forall|other: Seq<u8>|
            other != peer ==> (registered(without(entries, peer), other) <==> registered(
                entries,
                other,
            )),
        forall|i: int|
            0 <= i < without(entries, peer).len() ==> entries.contains(
                #[trigger] without(entries, peer)[i],
            ),
{
    let keep = not_of::<H>(peer);
    let rest = without(entries, peer);
    assert forall|i: int| 0 <= i < rest.len() implies (#[trigger] rest[i]).0 != peer
        && entries.contains(rest[i]) by {
        entries.lemma_filter_pred(keep, i);
        assert(rest.contains(rest[i]));
        entries.lemma_filter_contains_rev(keep, rest[i]);
    }
    assert forall|other: Seq<u8>| other != peer implies (registered(rest, other) <==> registered(
        entries,
        other,
    )) by {
        if registered(rest, other) {
            let i = choose|i: int| 0 <= i < rest.len() && (#[trigger] rest[i]).0 == other;
            assert(entries.contains(rest[i]));
            let j = choose|j: int| 0 <= j < entries.len() && entries[j] == rest[i];
            assert(entries[j].0 == other);
        }
        if registered(entries, other) {
            let j = choose|j: int| 0 <= j < entries.len() && (#[trigger] entries[j]).0 == other;
            entries.lemma_filter_contains(keep, j);
            let i = choose|i: int| 0 <= i < rest.len() && rest[i] == entries[j];
            assert(rest[i].0 == other);
        }
    }
}

/// Dropping a peer keeps identities unique.
pub proof fn lemma_without_unique<H>(entries: Seq<(Seq<u8>, H)>, peer: Seq<u8>)
    requires
        unique(entries),
    ensures
        unique(without(entries, peer)),
{
    if registered(entries, peer) {
        let at = choose|i: int| 0 <= i < entries.len() && (#[trigger] entries[i]).0 == peer;
        lemma_without_at(entries, at, peer);
        let rest = entries.remove(at);
        assert forall|i: int, j: int| 0 <= i < j < rest.len() implies (#[trigger] rest[i]).0 != (
        #[trigger] rest[j]).0 by {
            let a = if i < at { i } else { i + 1 };
            let b = if j < at { j } else { j + 1 };
            assert(rest[i] == entries[a]);
            assert(rest[j] == entries[b]);
        }
    } else {
        lemma_without_absent(entries, peer);
    }
}

/// The live clients of one relay.
///
/// A well-formed registry holds no identity twice. `new` makes one, and every
/// operation keeps it so.
pub struct ClientRegistry<H> {
    clients: Vec<ClientHandle<H>>,
}

impl<H> View for ClientRegistry<H> {
    type V = Seq<(Seq<u8>, H)>;

    closed spec fn view(&self) -> Seq<(Seq<u8>, H)> {
        self.clients@.map_values(|client: ClientHandle<H>| client@)
    }
}

impl<H> ClientRegistry<H> {
    /// No identity is held twice.
    pub open spec fn wf(&self) -> bool {
        unique(self@)
    }

    /// A registry with nobody in it.
    pub fn new() -> (registry: Self)
        ensures
            registry@ == Seq::<(Seq<u8>, H)>::empty(),
            registry.wf(),
    {
        let registry = ClientRegistry { clients: Vec::new() };
        assert(registry@ =~= Seq::empty());
        registry
    }

    /// The number of registered clients.
    pub fn len(&self) -> (n: usize)
        ensures
            n == self@.len(),
    {
        self.clients.len()
    }

    /// The place of `peer` among the clients, if it is registered.
    fn position(&self, peer: &PeerId) -> (at: Option<usize>)
        ensures
            match at {
                Some(i) => i < self@.len() && self@[i as int].0 == peer@,
                None => !registered(self@, peer@),
            },
    {
        let mut i: usize = 0;
        while i < self.clients.len()
            invariant
                i <= self.clients.len(),
                forall|j: int| 0 <= j < i ==> (#[trigger] self@[j]).0 != peer@,
            decreases self.clients.len() - i,
        {
            if self.clients[i].id.same(peer) {
                return Some(i);
            }
            i = i + 1;
        }
        None
    }

    /// Whether `peer` is registered.
    pub fn contains(&self, peer: &PeerId) -> (found: bool)
        ensures
            found == registered(self@, peer@),
    {
        self.position(peer).is_some()
    }

    /// The outbound channel of `peer`, if it is registered.
    pub fn outbound(&self, peer: &PeerId) -> (channel: Option<&H>)
        ensures
            match channel {
                Some(h) => exists|i: int|
                    0 <= i < self@.len() && (#[trigger] self@[i]) == (peer@, *h),
                None => !registered(self@, peer@),
            },
    {
        match self.position(peer) {
            Some(i) => {
                assert(self@[i as int] == (peer@, self.clients[i as int].outbound));
                Some(&self.clients[i].outbound)
            },
            None => None,
        }
    }

    /// The identities of the registered clients, in the order of a broadcast.
    pub fn peers(&self) -> (ids: Vec<PeerId>)
        ensures
            ids@.len() == self@.len(),
            forall|i: int| 0 <= i < ids@.len() ==> (#[trigger] ids@[i])@ == self@[i].0,
    {
        let mut ids: Vec<PeerId> = Vec::new();
        let mut i: usize = 0;
        while i < self.clients.len()
            invariant
                i <= self.clients.len(),
                ids@.len() == i,
                forall|j: int| 0 <= j < i ==> (#[trigger] ids@[j])@ == self@[j].0,
            decreases self.clients.len() - i,
        {
            ids.push(self.clients[i].id.duplicate());
            i = i + 1;
        }
        ids
    }

    /// Registers `client` unless its identity is already held.
    ///
    /// Returns whether the client was added. One that is refused is dropped,
    /// and the registry stays as it was.
    pub fn insert(&mut self, client: ClientHandle<H>) -> (added: bool)
        requires
            old(self).wf(),
        ensures
            added == !registered(old(self)@, client@.0),
            added ==> final(self)@ == old(self)@.push(client@),
            !added ==> final(self)@ == old(self)@,
            final(self).wf(),
    {
        if self.position(&client.id).is_some() {
            return false;
        }
        let ghost before = self@;
        let ghost entry = client@;
        self.clients.push(client);
        proof {
            assert(self@ =~= before.push(entry));
            assert forall|i: int, j: int| 0 <= i < j < self@.len() implies (#[trigger] self@[i]).0
                != (#[trigger] self@[j]).0 by {
                if j == before.len() {
                    assert(before[i].0 != entry.0);
                } else {
                    assert(before[i].0 != before[j].0);
                }
            }
        }
        true
    }

    /// Removes `peer`, and hands back its entry if it was registered.
    pub fn remove(&mut self, peer: &PeerId) -> (gone: Option<ClientHandle<H>>)
        requires
            old(self).wf(),
        ensures
            final(self)@ == without(old(self)@, peer@),
            final(self).wf(),
            match gone {
                Some(client) => client@.0 == peer@ && old(self)@.contains(client@),
                None => !registered(old(self)@, peer@),
            },
    {
        proof {
            lemma_without_unique(self@, peer@);
        }
        match self.position(peer) {
            Some(i) => {
                let ghost before = self@;
                let client = self.clients.remove(i);
                proof {
                    assert(before[i as int] == client@);
                    assert(self@ =~= before.remove(i as int));
                    lemma_without_at(before, i as int, peer@);
                }
                Some(client)
            },
            None => {
                proof {
                    lemma_without_absent(self@, peer@);
                }
                None
            },
        }
    }
}

} // verus!
