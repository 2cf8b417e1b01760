//! One connection, turned into events for the broadcast core.
//!
//! A session announces its peer once, then reports what each read of the
//! connection gave: a chunk, or the end. After the end it reports nothing
//! more. It never looks at the registry, and what it may have failed to
//! write to its own connection is not its concern here: only a read ends a
//! session.

use crate::event::{EventView, SessionEvent};
use crate::peer::PeerId;
use vstd::prelude::*;

verus! {

/// What one read of the connection gave.
#[derive(Debug, Clone, PartialEq, Eq)]
pub enum ReadOutcome {
    /// The read returned these bytes. No bytes at all means that the peer
    /// has closed the connection in good order.
    Chunk(Vec<u8>),
    /// The read failed.
    Failed,
}

/// A read outcome as contracts see it.
pub enum ReadView {
    Chunk(Seq<u8>),
    Failed,
}

impl View for ReadOutcome {
    type V = ReadView;

    open spec fn view(&self) -> ReadView {
        match *self {
            ReadOutcome::Chunk(bytes) => ReadView::Chunk(bytes@),
            ReadOutcome::Failed => ReadView::Failed,
        }
    }
}

/// Where a session stands.
pub enum Stage<H> {
    /// Not announced yet; `handle` is the channel to hand to the core.
    Fresh { handle: H },
    /// Announced, and reading.
    Running,
    /// Ended. Nothing follows.
    Closed,
}

/// Whether a read outcome ends the session: a failure does, and so do no
/// bytes.
pub open spec fn ends(outcome: ReadView) -> bool {
    match outcome {
        ReadView::Chunk(bytes) => bytes.len() == 0,
        ReadView::Failed => true,
    }
}

/// The stage after the session has been asked to announce itself.
pub open spec fn stage_after_start<H>(stage: Stage<H>) -> Stage<H> {
    match stage {
        Stage::Fresh { handle } => Stage::Running,
        Stage::Running => Stage::Running,
        Stage::Closed => Stage::Closed,
    }
}

/// The event, if any, by which the session announces itself.
pub open spec fn event_of_start<H>(peer: Seq<u8>, stage: Stage<H>) -> Option<EventView<H>> {
    match stage {
        Stage::Fresh { handle } => Some(EventView::Connected { peer, handle }),
        Stage::Running => None,
        Stage::Closed => None,
    }
}

/// The stage after one read.
pub open spec fn stage_after_read<H>(stage: Stage<H>, outcome: ReadView) -> Stage<H> {
    match stage {
        Stage::Running => if ends(outcome) {
            Stage::Closed
        } else {
            Stage::Running
        },
        Stage::Fresh { handle } => stage,
        Stage::Closed => Stage::Closed,
    }
}

/// The event, if any, that one read gives rise to.
pub open spec fn event_of_read<H>(peer: Seq<u8>, stage: Stage<H>, outcome: ReadView) -> Option<
    EventView<H>,
> {
    match stage {
        Stage::Running => match outcome {
            ReadView::Chunk(bytes) => if bytes.len() == 0 {
                Some(EventView::Disconnected { peer })
            } else {
                Some(EventView::Data { peer, bytes })
            },
            ReadView::Failed => Some(EventView::Disconnected { peer }),
        },
        Stage::Fresh { handle } => None,
        Stage::Closed => None,
    }
}

/// An optional event as contracts see it.
pub open spec fn event_view<H>(event: Option<SessionEvent<H>>) -> Option<EventView<H>> {
    match event {
        Some(e) => Some(e@),
        None => None,
    }
}

/// The session of one connection.
pub struct Session<H> {
    peer: PeerId,
    stage: Stage<H>,
}

impl<H> View for Session<H> {
    type V = (Seq<u8>, Stage<H>);

    closed spec fn view(&self) -> (Seq<u8>, Stage<H>) {
        (self.peer@, self.stage)
    }
}

impl<H> Session<H> {
    /// A session for `peer` that has not announced itself yet.
    pub fn new(peer: PeerId, handle: H) -> (session: Self)
        ensures
            session@ == (peer@, Stage::Fresh { handle }),
    {
        Session { peer, stage: Stage::Fresh { handle } }
    }

    /// The peer of this session.
    pub fn peer(&self) -> (peer: &PeerId)
        ensures
            peer@ == self@.0,
    {
        &self.peer
    }

    /// Whether the session is announced and has not ended.
    pub fn is_running(&self) -> (running: bool)
        ensures
            running == (self@.1 is Running),
    {
        match self.stage {
            Stage::Running => true,
            _ => false,
        }
    }

    /// Whether the session has ended.
    pub fn is_closed(&self) -> (closed: bool)
        ensures
            closed == (self@.1 is Closed),
    {
        match self.stage {
            Stage::Closed => true,
            _ => false,
        }
    }

    /// Announces the peer, the first time it is called.
    ///
    /// A fresh session gives `Connected` with its channel and starts to
    /// run. A session that has announced itself gives nothing.
    pub fn start(&mut self) -> (event: Option<SessionEvent<H>>)
        ensures
            final(self)@ == (old(self)@.0, stage_after_start(old(self)@.1)),
            event_view(event) == event_of_start(old(self)@.0, old(self)@.1),
    {
        let mut stage: Stage<H> = Stage::Running;
        core::mem::swap(&mut self.stage, &mut stage);
        match stage {
            Stage::Fresh { handle } => Some(
                SessionEvent::Connected { peer: self.peer.duplicate(), handle },
            ),
            Stage::Running => None,
            Stage::Closed => {
                self.stage = Stage::Closed;
                None
            },
        }
    }

    /// Takes what one read of the connection gave.
    ///
    /// A running session gives `Data` for a chunk that holds bytes, and
    /// `Disconnected` for an empty chunk or a failed read; with that it
    /// ends. A session that is not running gives nothing and stays as it
    /// is: nothing comes before the announcement, and nothing after the
    /// end.
    pub fn on_read(&mut self, outcome: ReadOutcome) -> (event: Option<SessionEvent<H>>)
        ensures
            final(self)@ == (old(self)@.0, stage_after_read(old(self)@.1, outcome@)),
            event_view(event) == event_of_read(old(self)@.0, old(self)@.1, outcome@),
    {
        if !self.is_running() {
            return None;
        }
        match outcome {
            ReadOutcome::Chunk(bytes) => {
                if bytes.len() == 0 {
                    self.stage = Stage::Closed;
                    Some(SessionEvent::Disconnected { peer: self.peer.duplicate() })
                } else {
                    Some(SessionEvent::Data { peer: self.peer.duplicate(), bytes })
                }
            },
            ReadOutcome::Failed => {
                self.stage = Stage::Closed;
                Some(SessionEvent::Disconnected { peer: self.peer.duplicate() })
            },
        }
    }
}

/// The stage of a running session after each of `outcomes` in turn.
pub open spec fn stage_after_reads<H>(stage: Stage<H>, outcomes: Seq<ReadView>) -> Stage<H>
    decreases outcomes.len(),
{
    if outcomes.len() == 0 {
        stage
    } else {
        stage_after_read(stage_after_reads(stage, outcomes.drop_last()), outcomes.last())
    }
}

/// A session that has ended stays ended and silent, whatever is read.
pub proof fn lemma_closed_is_final<H>(peer: Seq<u8>, outcome: ReadView)
    ensures
        stage_after_read(Stage::<H>::Closed, outcome) == Stage::<H>::Closed,
        event_of_read(peer, Stage::<H>::Closed, outcome) == None::<EventView<H>>,
        stage_after_start(Stage::<H>::Closed) == Stage::<H>::Closed,
        event_of_start(peer, Stage::<H>::Closed) == None::<EventView<H>>,
{
}

/// Over any run of reads, a running session reports `Disconnected` at the
/// first read that ends it and at no other: every read before that one
/// gives `Data`, and every read after it gives nothing.
pub proof fn lemma_one_disconnect<H>(peer: Seq<u8>, outcomes: Seq<ReadView>, at: int)
    requires
        0 <= at < outcomes.len(),
    ensures
        ({
            let stage = stage_after_reads(Stage::<H>::Running, outcomes.take(at));
            let event = event_of_read(peer, stage, outcomes[at]);
            let ended_before = exists|k: int| 0 <= k < at && ends(#[trigger] outcomes[k]);
            &&& (stage is Closed <==> ended_before)
            &&& (ended_before ==> event is None)
            &&& (!ended_before && ends(outcomes[at]) ==> event == Some(
                EventView::<H>::Disconnected { peer },
            ))
            &&& (!ended_before && !ends(outcomes[at]) ==> event == Some(
                EventView::<H>::Data { peer, bytes: outcomes[at]->Chunk_0 },
            ))
        }),
{
    lemma_closed_iff_ended::<H>(outcomes, at);
}

/// A running session is closed after some reads exactly when one of them
/// ended it.
proof fn lemma_closed_iff_ended<H>(outcomes: Seq<ReadView>, upto: int)
    requires
        0 <= upto <= outcomes.len(),
    ensures
        ({
            let stage = stage_after_reads(Stage::<H>::Running, outcomes.take(upto));
            &&& (stage is Closed || stage is Running)
            &&& (stage is Closed <==> exists|k: int| 0 <= k < upto && ends(#[trigger] outcomes[k]))
        }),
    decreases upto,
{
    let seen = outcomes.take(upto);
    if upto > 0 {
        assert(seen.drop_last() =~= outcomes.take(upto - 1));
        assert(seen.last() == outcomes[upto - 1]);
        lemma_closed_iff_ended::<H>(outcomes, upto - 1);
        let before = stage_after_reads(Stage::<H>::Running, outcomes.take(upto - 1));
        if before is Closed {
            let k = choose|k: int| 0 <= k < upto - 1 && ends(#[trigger] outcomes[k]);
            assert(0 <= k < upto && ends(outcomes[k]));
        } else if ends(outcomes[upto - 1]) {
            assert(0 <= upto - 1 < upto && ends(outcomes[upto - 1]));
        } else {
            assert forall|k: int| 0 <= k < upto implies !ends(#[trigger] outcomes[k]) by {
                if k < upto - 1 {
                    assert(!(exists|k: int| 0 <= k < upto - 1 && ends(#[trigger] outcomes[k])));
                }
            }
        }
    }
}

} // verus!
