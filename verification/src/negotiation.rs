//! The handshake engine: drives application-level handshakes for many peers
//! at once from a single cooperative poll loop.
//!
//! Each pending substream is an explicit state machine keyed by peer and
//! path (outbound, inbound, or inbound-accepting). The engine never blocks:
//! the surrounding runtime performs the one non-blocking I/O step an entry
//! waits for ([`HandshakeService::action_required`]) and hands the outcome
//! back ([`HandshakeService::advance`]). An outcome of `Pending` changes
//! nothing; an I/O failure folds immediately into a negotiation-error event
//! and removes the entry; a completed entry joins a FIFO ready list, from
//! which [`HandshakeService::poll_next`] emits at most one terminal event
//! per invocation, first completed first delivered.

use vstd::prelude::*;

use crate::types::{PeerId, Substream};

verus! {

/// Which of the three handshake flows an entry follows.
#[derive(Debug, Clone, Copy, PartialEq, Eq, Structural)]
pub enum HandshakePath {
    /// Substream opened by the local node: send our handshake, then read
    /// the remote one.
    Outbound,
    /// Substream opened by the remote node, whose handshake the transport
    /// has already consumed or will deliver first: one send, or one read.
    Inbound,
    /// Substream the local code explicitly accepted after inspection: the
    /// remote payload must be read before we may answer.
    InboundAccepting,
}

/// Progress of an outbound handshake.
#[derive(Debug, Clone, Copy, PartialEq, Eq, Structural)]
pub enum OutboundState {
    /// Waiting for the sink to accept a send.
    SendHandshake,
    /// The sink is ready: the local payload can be buffered.
    SinkReady,
    /// The payload is buffered: waiting for the flush.
    HandshakeSent,
    /// Our handshake is on the wire: waiting for the remote one.
    ReadHandshake,
    /// Terminal: the remote handshake was read.
    Done,
}

/// Progress of an inbound handshake.
#[derive(Debug, Clone, Copy, PartialEq, Eq, Structural)]
pub enum InboundState {
    /// Waiting for the sink to accept a send.
    SendHandshake,
    /// The sink is ready: the local payload can be buffered.
    SinkReady,
    /// The payload is buffered: waiting for the flush.
    HandshakeSent,
    /// Waiting for the remote handshake.
    ReadHandshake,
    /// Terminal: the exchange this entry was registered for is over.
    Done,
}

/// Progress of an inbound handshake that local code accepted explicitly.
#[derive(Debug, Clone, Copy, PartialEq, Eq, Structural)]
pub enum InboundAcceptingState {
    /// The remote payload must be read first.
    ReadHandshake,
    /// Remote payload consumed: waiting for the sink to accept our answer.
    SendHandshake,
    /// The sink is ready: the local payload can be buffered.
    SinkReady,
    /// The payload is buffered: waiting for the flush.
    HandshakeSent,
    /// Terminal: the substream is accepted.
    Done,
}

/// State of one pending entry, tagged by its path.
#[derive(Debug, Clone, Copy, PartialEq, Eq, Structural)]
pub enum HandshakeState {
    /// An outbound entry.
    Outbound(OutboundState),
    /// An inbound entry.
    Inbound(InboundState),
    /// An inbound entry accepted explicitly by local code.
    InboundAccepting(InboundAcceptingState),
}

/// The path an entry's state belongs to.
pub open spec fn path_of(st: HandshakeState) -> HandshakePath {
    match st {
        HandshakeState::Outbound(_) => HandshakePath::Outbound,
        HandshakeState::Inbound(_) => HandshakePath::Inbound,
        HandshakeState::InboundAccepting(_) => HandshakePath::InboundAccepting,
    }
}

/// Whether a state is terminal.
pub open spec fn is_done(st: HandshakeState) -> bool {
    match st {
        HandshakeState::Outbound(s) => s == OutboundState::Done,
        HandshakeState::Inbound(s) => s == InboundState::Done,
        HandshakeState::InboundAccepting(s) => s == InboundAcceptingState::Done,
    }
}

/// One pending handshake.
#[derive(Debug, Clone, PartialEq, Eq)]
pub struct HandshakeEntry {
    /// The remote peer.
    pub peer: PeerId,
    /// The substream the handshake runs over.
    pub substream: Substream,
    /// Progress so far.
    pub state: HandshakeState,
    /// Local payload, snapshotted when the sink first reported ready.
    /// Updates to the service-wide payload no longer affect this entry.
    pub payload: Vec<u8>,
    /// Remote handshake bytes, filled when the entry completes.
    pub result: Vec<u8>,
}

/// The key an entry is registered under.
pub open spec fn key_of(e: HandshakeEntry) -> (PeerId, HandshakePath) {
    (e.peer, path_of(e.state))
}

/// The one non-blocking I/O step an entry waits for.
#[derive(Debug, Clone, PartialEq, Eq)]
pub enum IoAction {
    /// Check whether the sink accepts a send.
    PollReady,
    /// Buffer these bytes into the sink.
    StartSend(Vec<u8>),
    /// Flush the sink.
    PollFlush,
    /// Read the next frame.
    PollRead,
}

/// Outcome of the I/O step the runtime performed for an entry.
#[derive(Debug, Clone, PartialEq, Eq)]
pub enum IoEvent {
    /// The sink accepts a send.
    SinkReady,
    /// The bytes were buffered.
    Sent,
    /// The sink was flushed.
    Flushed,
    /// One frame was read.
    Frame(Vec<u8>),
    /// The step would block: nothing happened.
    Pending,
    /// The stream failed or closed.
    Failed,
}

/// Events emitted by [`HandshakeService`].
#[derive(Debug, Clone, PartialEq, Eq)]
pub enum HandshakeEvent {
    /// Outbound substream has been negotiated.
    OutboundNegotiated {
        /// Peer ID.
        peer: PeerId,
        /// Handshake read from the remote peer.
        handshake: Vec<u8>,
        /// Substream.
        substream: Substream,
    },
    /// Outbound substream failed to negotiate.
    OutboundNegotiationError {
        /// Peer ID.
        peer: PeerId,
    },
    /// Inbound substream has been negotiated.
    InboundNegotiated {
        /// Peer ID.
        peer: PeerId,
        /// Handshake read from the remote peer, empty if this entry only
        /// had to answer.
        handshake: Vec<u8>,
        /// Substream.
        substream: Substream,
    },
    /// Inbound substream failed to negotiate.
    InboundNegotiationError {
        /// Peer ID.
        peer: PeerId,
    },
    /// Inbound substream accepted by local code has answered the remote
    /// peer and is ready.
    InboundAccepted {
        /// Peer ID.
        peer: PeerId,
        /// Substream.
        substream: Substream,
    },
}

/// The negotiation-error event an I/O failure on `path` folds into.
pub open spec fn error_event(path: HandshakePath, peer: PeerId) -> HandshakeEvent {
    match path {
        HandshakePath::Outbound => HandshakeEvent::OutboundNegotiationError { peer },
        _ => HandshakeEvent::InboundNegotiationError { peer },
    }
}

/// The terminal event a completed entry is emitted as.
pub open spec fn done_event(e: HandshakeEntry) -> HandshakeEvent {
    match path_of(e.state) {
        HandshakePath::Outbound => HandshakeEvent::OutboundNegotiated {
            peer: e.peer,
            handshake: e.result,
            substream: e.substream,
        },
        HandshakePath::Inbound => HandshakeEvent::InboundNegotiated {
            peer: e.peer,
            handshake: e.result,
            substream: e.substream,
        },
        HandshakePath::InboundAccepting => HandshakeEvent::InboundAccepted {
            peer: e.peer,
            substream: e.substream,
        },
    }
}

/// Handshake service: all pending handshakes of one protocol instance.
#[derive(Debug)]
pub struct HandshakeService {
    /// Local handshake payload handed to entries when their sink first
    /// reports ready.
    pub handshake: Vec<u8>,
    /// Pending entries, at most one per peer and path, in registration
    /// order (the round-robin order of the poll loop).
    pub entries: Vec<HandshakeEntry>,
    /// Keys of completed entries, first completed first.
    pub ready: Vec<(PeerId, HandshakePath)>,
}

impl HandshakeService {
    /// Whether an entry is registered under `(peer, path)`.
    pub open spec fn has_entry(&self, peer: PeerId, path: HandshakePath) -> bool {
        exists|i: int|
            0 <= i < self.entries@.len() && key_of(#[trigger] self.entries@[i]) == (peer, path)
    }

    /// Index of the entry registered under `(peer, path)`.
    pub open spec fn entry_idx(&self, peer: PeerId, path: HandshakePath) -> int {
        choose|i: int|
            0 <= i < self.entries@.len() && key_of(#[trigger] self.entries@[i]) == (peer, path)
    }

    /// The entry registered under `(peer, path)`.
    pub open spec fn entry_at(&self, peer: PeerId, path: HandshakePath) -> HandshakeEntry {
        self.entries@[self.entry_idx(peer, path)]
    }

    /// Whether the ready list holds `(peer, path)`.
    pub open spec fn ready_has(&self, peer: PeerId, path: HandshakePath) -> bool {
        exists|k: int| 0 <= k < self.ready@.len() && #[trigger] self.ready@[k] == (peer, path)
    }

    /// Position of `(peer, path)` in the ready list.
    pub open spec fn ready_idx(&self, peer: PeerId, path: HandshakePath) -> int {
        choose|k: int| 0 <= k < self.ready@.len() && #[trigger] self.ready@[k] == (peer, path)
    }

    /// Well-formedness: keys are unique among entries and in the ready
    /// list, and the ready list holds exactly the keys of completed
    /// entries.
    pub open spec fn wf(&self) -> bool {
        &&& forall|i: int, j: int|
            0 <= i < j < self.entries@.len() ==> key_of(#[trigger] self.entries@[i]) != key_of(
                #[trigger] self.entries@[j],
            )
        &&& forall|k: int, l: int|
            0 <= k < l < self.ready@.len() ==> #[trigger] self.ready@[k] != #[trigger] self.ready@[l]
        &&& forall|k: int|
            0 <= k < self.ready@.len() ==> self.has_entry(
                (#[trigger] self.ready@[k]).0,
                self.ready@[k].1,
            ) && is_done(self.entry_at(self.ready@[k].0, self.ready@[k].1).state)
        &&& forall|i: int|
            0 <= i < self.entries@.len() && is_done((#[trigger] self.entries@[i]).state)
                ==> self.ready_has(self.entries@[i].peer, path_of(self.entries@[i].state))
    }

    /// Number of terminal events still owed: one per pending entry,
    /// completed or not.
    pub open spec fn owed(&self) -> nat {
        self.entries@.len()
    }

    /// Create new [`HandshakeService`].
    pub fn new(handshake: Vec<u8>) -> (r: Self)
        ensures
            r.wf(),
            r.handshake@ == handshake@,
            r.entries@ =~= Seq::<HandshakeEntry>::empty(),
            r.ready@ =~= Seq::<(PeerId, HandshakePath)>::empty(),
    {
        Self { handshake, entries: Vec::new(), ready: Vec::new() }
    }

    /// Set the local handshake payload. Entries whose sink has already
    /// reported ready carry their own snapshot and are unaffected.
    pub fn set_handshake(&mut self, handshake: Vec<u8>)
        ensures
            final(self).handshake@ == handshake@,
            final(self).entries@ == old(self).entries@,
            final(self).ready@ == old(self).ready@,
            old(self).wf() ==> final(self).wf(),
    {
        self.handshake = handshake;
        proof {
            if old(self).wf() {
                assert forall|k: int| 0 <= k < self.ready@.len() implies self.has_entry(
                    (#[trigger] self.ready@[k]).0,
                    self.ready@[k].1,
                ) && is_done(self.entry_at(self.ready@[k].0, self.ready@[k].1).state) by {
                    assert(old(self).has_entry(old(self).ready@[k].0, old(self).ready@[k].1));
                }
                assert forall|i: int|
                    0 <= i < self.entries@.len() && is_done(
                        (#[trigger] self.entries@[i]).state,
                    ) implies self.ready_has(self.entries@[i].peer, path_of(self.entries@[i].state))
                by {
                    assert(old(self).ready_has(
                        old(self).entries@[i].peer,
                        path_of(old(self).entries@[i].state),
                    ));
                }
            }
        }
    }

    /// Returns `true` if the service holds no pending entries.
    pub fn is_empty(&self) -> (r: bool)
        ensures
            r == (self.entries@.len() == 0),
    {
        self.entries.is_empty()
    }

    /// The path an entry follows.
    fn entry_path(e: &HandshakeEntry) -> (r: HandshakePath)
        ensures
            r == path_of(e.state),
    {
        match e.state {
            HandshakeState::Outbound(_) => HandshakePath::Outbound,
            HandshakeState::Inbound(_) => HandshakePath::Inbound,
            HandshakeState::InboundAccepting(_) => HandshakePath::InboundAccepting,
        }
    }

    /// Find the entry registered under `(peer, path)`.
    fn find_entry(&self, peer: PeerId, path: HandshakePath) -> (r: Option<usize>)
        ensures
            match r {
                Some(i) => {
                    &&& 0 <= i < self.entries@.len()
                    &&& key_of(self.entries@[i as int]) == (peer, path)
                    &&& self.has_entry(peer, path)
                    &&& self.wf() ==> i == self.entry_idx(peer, path)
                },
                None => !self.has_entry(peer, path),
            },
    {
        let mut i: usize = 0;
        while i < self.entries.len()
            invariant
                i <= self.entries@.len(),
                forall|j: int| 0 <= j < i ==> key_of(#[trigger] self.entries@[j]) != (peer, path),
            decreases self.entries@.len() - i,
        {
            let e = &self.entries[i];
            if e.peer == peer {
                let p = Self::entry_path(e);
                if p == path {
                    proof {
                        if self.wf() {
                            let k = self.entry_idx(peer, path);
                            assert(0 <= k < self.entries@.len() && key_of(self.entries@[k]) == (
                                peer,
                                path,
                            ));
                        }
                    }
                    return Some(i);
                }
            }
            i = i + 1;
        }
        None
    }

    /// Find the position of `(peer, path)` in the ready list.
    fn find_ready(&self, peer: PeerId, path: HandshakePath) -> (r: Option<usize>)
        ensures
            match r {
                Some(k) => {
                    &&& 0 <= k < self.ready@.len()
                    &&& self.ready@[k as int] == (peer, path)
                    &&& self.ready_has(peer, path)
                    &&& self.wf() ==> k == self.ready_idx(peer, path)
                },
                None => !self.ready_has(peer, path),
            },
    {
        let mut k: usize = 0;
        while k < self.ready.len()
            invariant
                k <= self.ready@.len(),
                forall|j: int| 0 <= j < k ==> #[trigger] self.ready@[j] != (peer, path),
            decreases self.ready@.len() - k,
        {
            let item = &self.ready[k];
            if item.0 == peer && item.1 == path {
                proof {
                    if self.wf() {
                        let l = self.ready_idx(peer, path);
                        assert(0 <= l < self.ready@.len() && self.ready@[l] == (peer, path));
                    }
                }
                return Some(k);
            }
            k = k + 1;
        }
        None
    }

    /// Withdraw the entry registered under `(peer, path)`, together with
    /// its ready-list item if it had completed, and hand it back.
    fn take_entry(&mut self, peer: PeerId, path: HandshakePath) -> (r: Option<HandshakeEntry>)
        requires
            old(self).wf(),
        ensures
            final(self).wf(),
            final(self).handshake@ == old(self).handshake@,
            !old(self).has_entry(peer, path) ==> r is None && *final(self) == *old(self),
            old(self).has_entry(peer, path) ==> {
                let i = old(self).entry_idx(peer, path);
                let e = old(self).entries@[i];
                &&& r == Some(e)
                &&& final(self).entries@ == old(self).entries@.remove(i)
                &&& (is_done(e.state) ==> final(self).ready@ == old(self).ready@.remove(
                    old(self).ready_idx(peer, path),
                ))
                &&& (!is_done(e.state) ==> final(self).ready@ == old(self).ready@)
            },
            !final(self).has_entry(peer, path),
    {
        match self.find_entry(peer, path) {
            None => None,
            Some(i) => {
                let ghost pre = *self;
                let e = self.entries.remove(i);
                proof {
                    if is_done(e.state) {
                        assert(pre.ready_has(peer, path));
                    } else {
                        if pre.ready_has(peer, path) {
                            let k = pre.ready_idx(peer, path);
                            assert(pre.has_entry(pre.ready@[k].0, pre.ready@[k].1) && is_done(
                                pre.entry_at(pre.ready@[k].0, pre.ready@[k].1).state,
                            ));
                            assert(false);
                        }
                    }
                }
                match self.find_ready(peer, path) {
                    Some(k) => {
                        self.ready.remove(k);
                    },
                    None => {},
                }
                proof {
                    lemma_wf_after_removal(pre, *self, peer, path);
                }
                Some(e)
            },
        }
    }

    /// Register a fresh entry for `peer` starting in `state`, replacing any
    /// entry already registered under the same peer and path.
    fn register(&mut self, peer: PeerId, substream: Substream, state: HandshakeState)
        requires
            old(self).wf(),
            !is_done(state),
        ensures
            final(self).wf(),
            registration_step(*old(self), *final(self), peer, state, substream),
    {
        let path = match state {
            HandshakeState::Outbound(_) => HandshakePath::Outbound,
            HandshakeState::Inbound(_) => HandshakePath::Inbound,
            HandshakeState::InboundAccepting(_) => HandshakePath::InboundAccepting,
        };
        let _ = self.take_entry(peer, path);
        let ghost mid = *self;
        let entry = HandshakeEntry {
            peer,
            substream,
            state,
            payload: Vec::new(),
            result: Vec::new(),
        };
        self.entries.push(entry);
        proof {
            let post = *self;
            assert forall|a: int, b: int|
                0 <= a < b < post.entries@.len() implies key_of(post.entries@[a]) != key_of(
                post.entries@[b],
            ) by {
                if b == post.entries@.len() - 1 {
                    assert(key_of(post.entries@[a]) != (peer, path));
                }
            }
            assert forall|l: int| 0 <= l < post.ready@.len() implies post.has_entry(
                (#[trigger] post.ready@[l]).0,
                post.ready@[l].1,
            ) && is_done(post.entry_at(post.ready@[l].0, post.ready@[l].1).state) by {
                let item = mid.ready@[l];
                assert(mid.has_entry(item.0, item.1) && is_done(
                    mid.entry_at(item.0, item.1).state,
                ));
                let j = mid.entry_idx(item.0, item.1);
                assert(post.entries@[j] == mid.entries@[j]);
                assert(post.has_entry(item.0, item.1));
                let j2 = post.entry_idx(item.0, item.1);
                if j2 != j {
                    if j2 < j {
                        assert(key_of(post.entries@[j2]) != key_of(post.entries@[j]));
                    } else {
                        assert(key_of(post.entries@[j]) != key_of(post.entries@[j2]));
                    }
                }
            }
            assert forall|a: int|
                0 <= a < post.entries@.len() && is_done((#[trigger] post.entries@[a]).state)
                implies post.ready_has(post.entries@[a].peer, path_of(post.entries@[a].state)) by {
                if a < post.entries@.len() - 1 {
                    assert(post.entries@[a] == mid.entries@[a]);
                    assert(mid.ready_has(mid.entries@[a].peer, path_of(mid.entries@[a].state)));
                    let l = mid.ready_idx(mid.entries@[a].peer, path_of(mid.entries@[a].state));
                    assert(post.ready@[l] == mid.ready@[l]);
                }
            }
            assert(post.entries@.subrange(0, post.entries@.len() - 1) =~= mid.entries@);
            if !old(self).has_entry(peer, path) {
                assert(mid.entries@ == old(self).entries@);
            }
        }
    }

    /// Negotiate an outbound handshake over a freshly opened substream.
    pub fn negotiate_outbound(&mut self, peer: PeerId, substream: Substream)
        requires
            old(self).wf(),
        ensures
            final(self).wf(),
            registration_step(
                *old(self),
                *final(self),
                peer,
                HandshakeState::Outbound(OutboundState::SendHandshake),
                substream,
            ),
    {
        self.register(peer, substream, HandshakeState::Outbound(OutboundState::SendHandshake));
    }

    /// Accept an inbound substream after local inspection: the remote
    /// payload is read before we answer.
    pub fn accept_inbound(&mut self, peer: PeerId, substream: Substream)
        requires
            old(self).wf(),
        ensures
            final(self).wf(),
            registration_step(
                *old(self),
                *final(self),
                peer,
                HandshakeState::InboundAccepting(InboundAcceptingState::ReadHandshake),
                substream,
            ),
    {
        self.register(
            peer,
            substream,
            HandshakeState::InboundAccepting(InboundAcceptingState::ReadHandshake),
        );
    }

    /// Read the handshake of a remote peer whose substream the transport
    /// handed over before consuming it.
    pub fn read_handshake(&mut self, peer: PeerId, substream: Substream)
        requires
            old(self).wf(),
        ensures
            final(self).wf(),
            registration_step(
                *old(self),
                *final(self),
                peer,
                HandshakeState::Inbound(InboundState::ReadHandshake),
                substream,
            ),
    {
        self.register(peer, substream, HandshakeState::Inbound(InboundState::ReadHandshake));
    }

    /// Answer a remote peer whose handshake the transport has already
    /// consumed.
    pub fn send_handshake(&mut self, peer: PeerId, substream: Substream)
        requires
            old(self).wf(),
        ensures
            final(self).wf(),
            registration_step(
                *old(self),
                *final(self),
                peer,
                HandshakeState::Inbound(InboundState::SendHandshake),
                substream,
            ),
    {
        self.register(peer, substream, HandshakeState::Inbound(InboundState::SendHandshake));
    }

    /// Withdraw the outbound entry of `peer`, handing its substream back,
    /// for instance when the connection closes.
    pub fn remove_outbound(&mut self, peer: &PeerId) -> (r: Option<Substream>)
        requires
            old(self).wf(),
        ensures
            final(self).wf(),
            withdrawal_step(*old(self), *final(self), *peer, HandshakePath::Outbound, r),
    {
        match self.take_entry(*peer, HandshakePath::Outbound) {
            Some(e) => Some(e.substream),
            None => None,
        }
    }

    /// The one non-blocking I/O step the entry at position `i` waits for,
    /// or `None` once it has completed. The runtime performs the step and
    /// reports its outcome through [`Self::advance`].
    pub fn action_required(&self, i: usize) -> (r: Option<IoAction>)
        requires
            i < self.entries@.len(),
        ensures
            ({
                let st = self.entries@[i as int].state;
                &&& (expects_poll_ready(st) ==> r == Some(IoAction::PollReady))
                &&& (expects_start_send(st) ==> (r matches Some(IoAction::StartSend(p)) && p@
                    == self.entries@[i as int].payload@))
                &&& (expects_flush(st) ==> r == Some(IoAction::PollFlush))
                &&& (expects_read(st) ==> r == Some(IoAction::PollRead))
                &&& (is_done(st) ==> r is None)
            }),
    {
        match self.entries[i].state {
            HandshakeState::Outbound(OutboundState::SendHandshake)
            | HandshakeState::Inbound(InboundState::SendHandshake)
            | HandshakeState::InboundAccepting(InboundAcceptingState::SendHandshake) => Some(
                IoAction::PollReady,
            ),
            HandshakeState::Outbound(OutboundState::SinkReady)
            | HandshakeState::Inbound(InboundState::SinkReady)
            | HandshakeState::InboundAccepting(InboundAcceptingState::SinkReady) => Some(
                IoAction::StartSend(self.entries[i].payload.clone()),
            ),
            HandshakeState::Outbound(OutboundState::HandshakeSent)
            | HandshakeState::Inbound(InboundState::HandshakeSent)
            | HandshakeState::InboundAccepting(InboundAcceptingState::HandshakeSent) => Some(
                IoAction::PollFlush,
            ),
            HandshakeState::Outbound(OutboundState::ReadHandshake)
            | HandshakeState::Inbound(InboundState::ReadHandshake)
            | HandshakeState::InboundAccepting(InboundAcceptingState::ReadHandshake) => Some(
                IoAction::PollRead,
            ),
            HandshakeState::Outbound(OutboundState::Done)
            | HandshakeState::Inbound(InboundState::Done)
            | HandshakeState::InboundAccepting(InboundAcceptingState::Done) => None,
        }
    }

    /// The key of the entry at position `i`, for the runtime's round-robin
    /// walk over pending entries.
    pub fn entry_key(&self, i: usize) -> (r: (PeerId, HandshakePath))
        requires
            i < self.entries@.len(),
        ensures
            r == key_of(self.entries@[i as int]),
    {
        let e = &self.entries[i];
        (e.peer, Self::entry_path(e))
    }

    /// The token under which the runtime holds the byte stream of the
    /// entry at position `i`.
    pub fn substream_io(&self, i: usize) -> (r: u64)
        requires
            i < self.entries@.len(),
        ensures
            r == self.entries@[i as int].substream.io,
    {
        self.entries[i].substream.io
    }

    /// Number of pending entries.
    pub fn len(&self) -> (r: usize)
        ensures
            r == self.entries@.len(),
    {
        self.entries.len()
    }

    /// Advance the entry under `(peer, path)` by the outcome of the one
    /// I/O step it was waiting for.
    ///
    /// `Pending` or an outcome the entry does not wait for changes nothing
    /// and emits nothing: without new I/O readiness there is no progress
    /// and no spurious event. A failure removes the entry and emits its
    /// negotiation-error event at once. Everything else moves the entry one
    /// state forward; completion queues it, in completion order, for
    /// [`Self::poll_next`]. One terminal event stays owed per pending
    /// entry: the count of pending entries drops by exactly one when and
    /// only when an event is emitted here, and the event carries that
    /// entry's peer.
    pub fn advance(&mut self, peer: PeerId, path: HandshakePath, event: IoEvent) -> (r: Option<
        HandshakeEvent,
    >)
        requires
            old(self).wf(),
        ensures
            final(self).wf(),
            advance_step(*old(self), *final(self), peer, path, event, r),
            final(self).owed() + (if r is Some {
                1nat
            } else {
                0nat
            }) == old(self).owed(),
            r matches Some(ev) ==> ev == error_event(path, peer),
    {
        let i = match self.find_entry(peer, path) {
            None => {
                return None;
            },
            Some(i) => i,
        };
        let ghost pre = *self;
        let st = self.entries[i].state;
        match event {
            IoEvent::Pending => None,
            IoEvent::Failed => {
                match st {
                    HandshakeState::Outbound(OutboundState::Done)
                    | HandshakeState::Inbound(InboundState::Done)
                    | HandshakeState::InboundAccepting(InboundAcceptingState::Done) => None,
                    _ => {
                        let _ = self.entries.remove(i);
                        proof {
                            lemma_wf_after_removal(pre, *self, peer, path);
                        }
                        match path {
                            HandshakePath::Outbound => Some(
                                HandshakeEvent::OutboundNegotiationError { peer },
                            ),
                            _ => Some(HandshakeEvent::InboundNegotiationError { peer }),
                        }
                    },
                }
            },
            IoEvent::SinkReady => {
                match st {
                    HandshakeState::Outbound(OutboundState::SendHandshake) => {
                        self.entries[i].payload = self.handshake.clone();
                        self.entries[i].state = HandshakeState::Outbound(OutboundState::SinkReady);
                        proof {
                            lemma_wf_after_update(pre, *self, i as int, false);
                        }
                        None
                    },
                    HandshakeState::Inbound(InboundState::SendHandshake) => {
                        self.entries[i].payload = self.handshake.clone();
                        self.entries[i].state = HandshakeState::Inbound(InboundState::SinkReady);
                        proof {
                            lemma_wf_after_update(pre, *self, i as int, false);
                        }
                        None
                    },
                    HandshakeState::InboundAccepting(InboundAcceptingState::SendHandshake) => {
                        self.entries[i].payload = self.handshake.clone();
                        self.entries[i].state = HandshakeState::InboundAccepting(
                            InboundAcceptingState::SinkReady,
                        );
                        proof {
                            lemma_wf_after_update(pre, *self, i as int, false);
                        }
                        None
                    },
                    _ => None,
                }
            },
            IoEvent::Sent => {
                match st {
                    HandshakeState::Outbound(OutboundState::SinkReady) => {
                        self.entries[i].state = HandshakeState::Outbound(
                            OutboundState::HandshakeSent,
                        );
                        proof {
                            lemma_wf_after_update(pre, *self, i as int, false);
                        }
                        None
                    },
                    HandshakeState::Inbound(InboundState::SinkReady) => {
                        self.entries[i].state = HandshakeState::Inbound(
                            InboundState::HandshakeSent,
                        );
                        proof {
                            lemma_wf_after_update(pre, *self, i as int, false);
                        }
                        None
                    },
                    HandshakeState::InboundAccepting(InboundAcceptingState::SinkReady) => {
                        self.entries[i].state = HandshakeState::InboundAccepting(
                            InboundAcceptingState::HandshakeSent,
                        );
                        proof {
                            lemma_wf_after_update(pre, *self, i as int, false);
                        }
                        None
                    },
                    _ => None,
                }
            },
            IoEvent::Flushed => {
                match st {
                    HandshakeState::Outbound(OutboundState::HandshakeSent) => {
                        self.entries[i].state = HandshakeState::Outbound(
                            OutboundState::ReadHandshake,
                        );
                        proof {
                            lemma_wf_after_update(pre, *self, i as int, false);
                        }
                        None
                    },
                    HandshakeState::Inbound(InboundState::HandshakeSent) => {
                        self.entries[i].state = HandshakeState::Inbound(InboundState::Done);
                        self.entries[i].result = Vec::new();
                        self.ready.push((peer, path));
                        proof {
                            lemma_wf_after_update(pre, *self, i as int, true);
                        }
                        None
                    },
                    HandshakeState::InboundAccepting(InboundAcceptingState::HandshakeSent) => {
                        self.entries[i].state = HandshakeState::InboundAccepting(
                            InboundAcceptingState::Done,
                        );
                        self.ready.push((peer, path));
                        proof {
                            lemma_wf_after_update(pre, *self, i as int, true);
                        }
                        None
                    },
                    _ => None,
                }
            },
            IoEvent::Frame(bytes) => {
                match st {
                    HandshakeState::Outbound(OutboundState::ReadHandshake) => {
                        self.entries[i].state = HandshakeState::Outbound(OutboundState::Done);
                        self.entries[i].result = bytes;
                        self.ready.push((peer, path));
                        proof {
                            lemma_wf_after_update(pre, *self, i as int, true);
                        }
                        None
                    },
                    HandshakeState::Inbound(InboundState::ReadHandshake) => {
                        self.entries[i].state = HandshakeState::Inbound(InboundState::Done);
                        self.entries[i].result = bytes;
                        self.ready.push((peer, path));
                        proof {
                            lemma_wf_after_update(pre, *self, i as int, true);
                        }
                        None
                    },
                    HandshakeState::InboundAccepting(InboundAcceptingState::ReadHandshake) => {
                        self.entries[i].state = HandshakeState::InboundAccepting(
                            InboundAcceptingState::SendHandshake,
                        );
                        proof {
                            lemma_wf_after_update(pre, *self, i as int, false);
                        }
                        None
                    },
                    _ => None,
                }
            },
        }
    }

    /// Emit the oldest completed entry's terminal event, if any — at most
    /// one per invocation, first completed first delivered, and removing
    /// the entry. Without a completed entry nothing changes: re-invoking
    /// the engine is free of spurious events.
    pub fn poll_next(&mut self) -> (r: Option<(PeerId, HandshakeEvent)>)
        requires
            old(self).wf(),
        ensures
            final(self).wf(),
            final(self).handshake@ == old(self).handshake@,
            old(self).ready@.len() == 0 ==> r is None && *final(self) == *old(self),
            old(self).ready@.len() > 0 ==> {
                let key = old(self).ready@[0];
                let i = old(self).entry_idx(key.0, key.1);
                let e = old(self).entries@[i];
                &&& r == Some((key.0, done_event(e)))
                &&& final(self).entries@ == old(self).entries@.remove(i)
                &&& final(self).ready@ == old(self).ready@.remove(0)
            },
            final(self).owed() + (if r is Some {
                1nat
            } else {
                0nat
            }) == old(self).owed(),
            r matches Some(pe) ==> event_peer(pe.1) == pe.0,
    {
        if self.ready.len() == 0 {
            return None;
        }
        let ghost pre = *self;
        let key = self.ready[0];
        let peer = key.0;
        let path = key.1;
        proof {
            assert(pre.has_entry(peer, path) && is_done(pre.entry_at(peer, path).state));
        }
        let i = match self.find_entry(peer, path) {
            Some(i) => i,
            None => {
                proof {
                    assert(false);
                }
                return None;
            },
        };
        let _ = self.ready.remove(0);
        let e = self.entries.remove(i);
        proof {
            assert(pre.ready_idx(peer, path) == 0) by {
                let k = pre.ready_idx(peer, path);
                assert(pre.ready@[0] == (peer, path));
                if k != 0 {
                    assert(pre.ready@[0] != pre.ready@[k]);
                }
            }
            lemma_wf_after_removal(pre, *self, peer, path);
        }
        let event = match path {
            HandshakePath::Outbound => HandshakeEvent::OutboundNegotiated {
                peer: e.peer,
                handshake: e.result,
                substream: e.substream,
            },
            HandshakePath::Inbound => HandshakeEvent::InboundNegotiated {
                peer: e.peer,
                handshake: e.result,
                substream: e.substream,
            },
            HandshakePath::InboundAccepting => HandshakeEvent::InboundAccepted {
                peer: e.peer,
                substream: e.substream,
            },
        };
        Some((peer, event))
    }

    /// Withdraw the inbound entry of `peer`, handing its substream back.
    pub fn remove_inbound(&mut self, peer: &PeerId) -> (r: Option<Substream>)
        requires
            old(self).wf(),
        ensures
            final(self).wf(),
            withdrawal_step(*old(self), *final(self), *peer, HandshakePath::Inbound, r),
    {
        match self.take_entry(*peer, HandshakePath::Inbound) {
            Some(e) => Some(e.substream),
            None => None,
        }
    }
}

/// Whether a state waits for sink readiness.
pub open spec fn expects_poll_ready(st: HandshakeState) -> bool {
    ||| st == HandshakeState::Outbound(OutboundState::SendHandshake)
    ||| st == HandshakeState::Inbound(InboundState::SendHandshake)
    ||| st == HandshakeState::InboundAccepting(InboundAcceptingState::SendHandshake)
}

/// The state after the sink reported ready.
pub open spec fn after_ready(st: HandshakeState) -> HandshakeState {
    match st {
        HandshakeState::Outbound(_) => HandshakeState::Outbound(OutboundState::SinkReady),
        HandshakeState::Inbound(_) => HandshakeState::Inbound(InboundState::SinkReady),
        HandshakeState::InboundAccepting(_) => HandshakeState::InboundAccepting(
            InboundAcceptingState::SinkReady,
        ),
    }
}

/// Whether a state waits for its payload to be buffered.
pub open spec fn expects_start_send(st: HandshakeState) -> bool {
    ||| st == HandshakeState::Outbound(OutboundState::SinkReady)
    ||| st == HandshakeState::Inbound(InboundState::SinkReady)
    ||| st == HandshakeState::InboundAccepting(InboundAcceptingState::SinkReady)
}

/// The state after the payload was buffered.
pub open spec fn after_sent(st: HandshakeState) -> HandshakeState {
    match st {
        HandshakeState::Outbound(_) => HandshakeState::Outbound(OutboundState::HandshakeSent),
        HandshakeState::Inbound(_) => HandshakeState::Inbound(InboundState::HandshakeSent),
        HandshakeState::InboundAccepting(_) => HandshakeState::InboundAccepting(
            InboundAcceptingState::HandshakeSent,
        ),
    }
}

/// Whether a state waits for a flush.
pub open spec fn expects_flush(st: HandshakeState) -> bool {
    ||| st == HandshakeState::Outbound(OutboundState::HandshakeSent)
    ||| st == HandshakeState::Inbound(InboundState::HandshakeSent)
    ||| st == HandshakeState::InboundAccepting(InboundAcceptingState::HandshakeSent)
}

/// Whether a state waits for a frame from the remote peer.
pub open spec fn expects_read(st: HandshakeState) -> bool {
    ||| st == HandshakeState::Outbound(OutboundState::ReadHandshake)
    ||| st == HandshakeState::Inbound(InboundState::ReadHandshake)
    ||| st == HandshakeState::InboundAccepting(InboundAcceptingState::ReadHandshake)
}

/// Entries unchanged except (at most) position `i`.
pub open spec fn updated_at(pre: Seq<HandshakeEntry>, post: Seq<HandshakeEntry>, i: int) -> bool {
    &&& post.len() == pre.len()
    &&& forall|j: int| 0 <= j < pre.len() && j != i ==> post[j] == pre[j]
}

/// How one `advance` call changes the service. Exactly one of these holds:
/// no entry sits under the key, or the outcome was `Pending` or did not
/// match the step the entry waits for — then nothing changes and nothing is
/// emitted; or the stream failed — then the entry leaves at once and the
/// negotiation-error event for its path is emitted; or the entry takes its
/// one step, snapshotting the service payload when the sink first reports
/// ready and joining the ready list when it completes.
pub open spec fn advance_step(
    pre: HandshakeService,
    post: HandshakeService,
    peer: PeerId,
    path: HandshakePath,
    ev: IoEvent,
    r: Option<HandshakeEvent>,
) -> bool {
    &&& post.handshake@ == pre.handshake@
    &&& (!pre.has_entry(peer, path) ==> post == pre && r is None)
    &&& (pre.has_entry(peer, path) ==> {
        let i = pre.entry_idx(peer, path);
        let e = pre.entries@[i];
        match ev {
            IoEvent::Pending => post == pre && r is None,
            IoEvent::Failed => if is_done(e.state) {
                post == pre && r is None
            } else {
                &&& post.entries@ == pre.entries@.remove(i)
                &&& post.ready@ == pre.ready@
                &&& r == Some(error_event(path, peer))
            },
            IoEvent::SinkReady => if expects_poll_ready(e.state) {
                &&& updated_at(pre.entries@, post.entries@, i)
                &&& post.ready@ == pre.ready@
                &&& r is None
                &&& post.entries@[i].peer == e.peer
                &&& post.entries@[i].substream == e.substream
                &&& post.entries@[i].result == e.result
                &&& post.entries@[i].payload@ == pre.handshake@
                &&& post.entries@[i].state == after_ready(e.state)
            } else {
                post == pre && r is None
            },
            IoEvent::Sent => if expects_start_send(e.state) {
                &&& updated_at(pre.entries@, post.entries@, i)
                &&& post.ready@ == pre.ready@
                &&& r is None
                &&& post.entries@[i] == (HandshakeEntry { state: after_sent(e.state), ..e })
            } else {
                post == pre && r is None
            },
            IoEvent::Flushed => if expects_flush(e.state) {
                match e.state {
                    HandshakeState::Outbound(_) => {
                        &&& updated_at(pre.entries@, post.entries@, i)
                        &&& post.ready@ == pre.ready@
                        &&& r is None
                        &&& post.entries@[i] == (HandshakeEntry {
                            state: HandshakeState::Outbound(OutboundState::ReadHandshake),
                            ..e
                        })
                    },
                    HandshakeState::Inbound(_) => {
                        &&& updated_at(pre.entries@, post.entries@, i)
                        &&& post.ready@ == pre.ready@.push((peer, path))
                        &&& r is None
                        &&& post.entries@[i].peer == e.peer
                        &&& post.entries@[i].substream == e.substream
                        &&& post.entries@[i].payload == e.payload
                        &&& post.entries@[i].result@ =~= Seq::<u8>::empty()
                        &&& post.entries@[i].state == HandshakeState::Inbound(InboundState::Done)
                    },
                    HandshakeState::InboundAccepting(_) => {
                        &&& updated_at(pre.entries@, post.entries@, i)
                        &&& post.ready@ == pre.ready@.push((peer, path))
                        &&& r is None
                        &&& post.entries@[i] == (HandshakeEntry {
                            state: HandshakeState::InboundAccepting(InboundAcceptingState::Done),
                            ..e
                        })
                    },
                }
            } else {
                post == pre && r is None
            },
            IoEvent::Frame(bytes) => if expects_read(e.state) {
                match e.state {
                    HandshakeState::InboundAccepting(_) => {
                        &&& updated_at(pre.entries@, post.entries@, i)
                        &&& post.ready@ == pre.ready@
                        &&& r is None
                        &&& post.entries@[i] == (HandshakeEntry {
                            state: HandshakeState::InboundAccepting(
                                InboundAcceptingState::SendHandshake,
                            ),
                            ..e
                        })
                    },
                    HandshakeState::Outbound(_) => {
                        &&& updated_at(pre.entries@, post.entries@, i)
                        &&& post.ready@ == pre.ready@.push((peer, path))
                        &&& r is None
                        &&& post.entries@[i] == (HandshakeEntry {
                            state: HandshakeState::Outbound(OutboundState::Done),
                            result: bytes,
                            ..e
                        })
                    },
                    HandshakeState::Inbound(_) => {
                        &&& updated_at(pre.entries@, post.entries@, i)
                        &&& post.ready@ == pre.ready@.push((peer, path))
                        &&& r is None
                        &&& post.entries@[i] == (HandshakeEntry {
                            state: HandshakeState::Inbound(InboundState::Done),
                            result: bytes,
                            ..e
                        })
                    },
                }
            } else {
                post == pre && r is None
            },
        }
    })
}

/// The peer an emitted event belongs to.
pub open spec fn event_peer(e: HandshakeEvent) -> PeerId {
    match e {
        HandshakeEvent::OutboundNegotiated { peer, .. } => peer,
        HandshakeEvent::OutboundNegotiationError { peer } => peer,
        HandshakeEvent::InboundNegotiated { peer, .. } => peer,
        HandshakeEvent::InboundNegotiationError { peer } => peer,
        HandshakeEvent::InboundAccepted { peer, .. } => peer,
    }
}

/// Re-invoking the engine with no new I/O readiness produces no progress
/// and no spurious events: a `Pending` outcome leaves the service exactly
/// as it was and emits nothing, whatever entry it was reported for.
pub proof fn lemma_no_readiness_no_progress(
    pre: HandshakeService,
    post: HandshakeService,
    peer: PeerId,
    path: HandshakePath,
    r: Option<HandshakeEvent>,
)
    requires
        advance_step(pre, post, peer, path, IoEvent::Pending, r),
    ensures
        post == pre,
        r is None,
{
}

/// For any number of concurrently pending handshakes, any interleaving of
/// I/O outcomes yields exactly one terminal event per entry, each matched
/// to its originating peer: one `advance` step removes an entry exactly
/// when it emits an event, the event carries that entry's peer, and a
/// completed entry stays owed until [`HandshakeService::poll_next`] emits
/// it. Together with `poll_next`'s contract — which removes exactly the
/// entry it emits for — the count of pending entries always equals the
/// count of terminal events still owed.
pub proof fn lemma_one_terminal_event_per_entry(
    pre: HandshakeService,
    post: HandshakeService,
    peer: PeerId,
    path: HandshakePath,
    ev: IoEvent,
    r: Option<HandshakeEvent>,
)
    requires
        pre.wf(),
        advance_step(pre, post, peer, path, ev, r),
    ensures
        post.owed() + (if r is Some {
            1nat
        } else {
            0nat
        }) == pre.owed(),
        r matches Some(e) ==> event_peer(e) == peer && pre.has_entry(peer, path),
{
    if pre.has_entry(peer, path) {
        let i = pre.entry_idx(peer, path);
        assert(0 <= i < pre.entries@.len());
    }
}

/// How a registration call changes the service: the local payload is kept,
/// any entry under the same key is withdrawn first (together with its
/// ready-list item if it had completed), and a fresh entry with the given
/// state and empty payload and result joins at the end of the round-robin
/// order. Nothing else changes.
pub open spec fn registration_step(
    pre: HandshakeService,
    post: HandshakeService,
    peer: PeerId,
    state: HandshakeState,
    substream: Substream,
) -> bool {
    let path = path_of(state);
    let last = post.entries@[post.entries@.len() - 1];
    &&& post.handshake@ == pre.handshake@
    &&& post.entries@.len() > 0
    &&& last.peer == peer
    &&& last.substream == substream
    &&& last.state == state
    &&& last.payload@ =~= Seq::<u8>::empty()
    &&& last.result@ =~= Seq::<u8>::empty()
    &&& (!pre.has_entry(peer, path) ==> {
        &&& post.entries@.len() == pre.entries@.len() + 1
        &&& post.entries@.subrange(0, pre.entries@.len() as int) == pre.entries@
        &&& post.ready@ == pre.ready@
    })
    &&& (pre.has_entry(peer, path) ==> {
        let i = pre.entry_idx(peer, path);
        &&& post.entries@.len() == pre.entries@.len()
        &&& post.entries@.subrange(0, post.entries@.len() - 1) == pre.entries@.remove(i)
        &&& (is_done(pre.entry_at(peer, path).state) ==> post.ready@ == pre.ready@.remove(
            pre.ready_idx(peer, path),
        ))
        &&& (!is_done(pre.entry_at(peer, path).state) ==> post.ready@ == pre.ready@)
    })
}

/// How a withdrawal call changes the service: the entry under the key — if
/// any — leaves, together with its ready-list item if it had completed, and
/// its substream is handed back. Nothing else changes.
pub open spec fn withdrawal_step(
    pre: HandshakeService,
    post: HandshakeService,
    peer: PeerId,
    path: HandshakePath,
    r: Option<Substream>,
) -> bool {
    &&& post.handshake@ == pre.handshake@
    &&& !post.has_entry(peer, path)
    &&& (!pre.has_entry(peer, path) ==> r is None && post == pre)
    &&& (pre.has_entry(peer, path) ==> {
        let i = pre.entry_idx(peer, path);
        let e = pre.entries@[i];
        &&& r == Some(e.substream)
        &&& post.entries@ == pre.entries@.remove(i)
        &&& (is_done(e.state) ==> post.ready@ == pre.ready@.remove(pre.ready_idx(peer, path)))
        &&& (!is_done(e.state) ==> post.ready@ == pre.ready@)
    })
}

/// A pointwise update of one entry that keeps its key preserves
/// well-formedness, provided the ready list gains the entry's key exactly
/// when the entry completes.
proof fn lemma_wf_after_update(
    pre: HandshakeService,
    post: HandshakeService,
    i: int,
    pushed: bool,
)
    requires
        pre.wf(),
        0 <= i < pre.entries@.len(),
        updated_at(pre.entries@, post.entries@, i),
        key_of(post.entries@[i]) == key_of(pre.entries@[i]),
        !is_done(pre.entries@[i].state),
        !pushed ==> post.ready@ == pre.ready@ && !is_done(post.entries@[i].state),
        pushed ==> post.ready@ == pre.ready@.push(key_of(pre.entries@[i])) && is_done(
            post.entries@[i].state,
        ),
    ensures
        post.wf(),
{
    let key = key_of(pre.entries@[i]);
    assert forall|a: int, b: int|
        0 <= a < b < post.entries@.len() implies key_of(post.entries@[a]) != key_of(
        post.entries@[b],
    ) by {
        assert(key_of(pre.entries@[a]) != key_of(pre.entries@[b]));
        assert(key_of(post.entries@[a]) == key_of(pre.entries@[a]));
        assert(key_of(post.entries@[b]) == key_of(pre.entries@[b]));
    }

    // The key never sat in the old ready list: its entry had not completed.
    assert forall|l: int| 0 <= l < pre.ready@.len() implies #[trigger] pre.ready@[l] != key by {
        if pre.ready@[l] == key {
            assert(pre.has_entry(key.0, key.1) && is_done(pre.entry_at(key.0, key.1).state));
            let j = pre.entry_idx(key.0, key.1);
            if j != i {
                if j < i {
                    assert(key_of(pre.entries@[j]) != key_of(pre.entries@[i]));
                } else {
                    assert(key_of(pre.entries@[i]) != key_of(pre.entries@[j]));
                }
            }
            assert(false);
        }
    }

    assert forall|k: int, l: int| 0 <= k < l < post.ready@.len() implies #[trigger] post.ready@[k]
        != #[trigger] post.ready@[l] by {
        if pushed && l == post.ready@.len() - 1 {
            assert(post.ready@[k] == pre.ready@[k]);
            assert(pre.ready@[k] != key);
        } else {
            assert(pre.ready@[k] != pre.ready@[l]);
        }
    }

    assert forall|l: int| 0 <= l < post.ready@.len() implies post.has_entry(
        (#[trigger] post.ready@[l]).0,
        post.ready@[l].1,
    ) && is_done(post.entry_at(post.ready@[l].0, post.ready@[l].1).state) by {
        if pushed && l == post.ready@.len() - 1 {
            assert(post.ready@[l] == key);
            assert(key_of(post.entries@[i]) == key);
            assert(post.has_entry(key.0, key.1));
            let j2 = post.entry_idx(key.0, key.1);
            if j2 != i {
                if j2 < i {
                    assert(key_of(post.entries@[j2]) != key_of(post.entries@[i]));
                } else {
                    assert(key_of(post.entries@[i]) != key_of(post.entries@[j2]));
                }
            }
            assert(post.entry_at(key.0, key.1) == post.entries@[i]);
        } else {
            let item = pre.ready@[l];
            assert(post.ready@[l] == item);
            assert(pre.has_entry(item.0, item.1) && is_done(pre.entry_at(item.0, item.1).state));
            let j = pre.entry_idx(item.0, item.1);
            assert(j != i);
            assert(post.entries@[j] == pre.entries@[j]);
            assert(post.has_entry(item.0, item.1));
            let j2 = post.entry_idx(item.0, item.1);
            if j2 != j {
                if j2 < j {
                    assert(key_of(post.entries@[j2]) != key_of(post.entries@[j]));
                } else {
                    assert(key_of(post.entries@[j]) != key_of(post.entries@[j2]));
                }
            }
            assert(post.entry_at(item.0, item.1) == pre.entries@[j]);
        }
    }

    assert forall|a: int|
        0 <= a < post.entries@.len() && is_done((#[trigger] post.entries@[a]).state) implies
        post.ready_has(post.entries@[a].peer, path_of(post.entries@[a].state)) by {
        if a == i {
            assert(pushed);
            let l = post.ready@.len() - 1;
            assert(post.ready@[l] == key);
        } else {
            let ent = pre.entries@[a];
            assert(post.entries@[a] == ent);
            assert(pre.ready_has(ent.peer, path_of(ent.state)));
            let l = pre.ready_idx(ent.peer, path_of(ent.state));
            assert(post.ready@[l] == pre.ready@[l]);
        }
    }
}

/// After withdrawing the entry under `(peer, path)` — and, if it had
/// completed, its ready-list item — the service is well-formed again and no
/// entry remains under that key.
proof fn lemma_wf_after_removal(
    pre: HandshakeService,
    post: HandshakeService,
    peer: PeerId,
    path: HandshakePath,
)
    requires
        pre.wf(),
        pre.has_entry(peer, path),
        post.entries@ == pre.entries@.remove(pre.entry_idx(peer, path)),
        is_done(pre.entry_at(peer, path).state) ==> post.ready@ == pre.ready@.remove(
            pre.ready_idx(peer, path),
        ) && pre.ready_has(peer, path),
        !is_done(pre.entry_at(peer, path).state) ==> post.ready@ == pre.ready@,
    ensures
        post.wf(),
        !post.has_entry(peer, path),
{
    let i = pre.entry_idx(peer, path);
    let e = pre.entries@[i];
    assert(0 <= i < pre.entries@.len() && key_of(e) == (peer, path));

    // Where each surviving element sat before the removal.
    assert forall|a: int| 0 <= a < post.entries@.len() implies post.entries@[a] == pre.entries@[
        (if a < i {
            a
        } else {
            a + 1
        })
    ] by {}

    let removed_ready = is_done(e.state);
    let k = pre.ready_idx(peer, path);
    if removed_ready {
        assert(0 <= k < pre.ready@.len() && pre.ready@[k] == (peer, path));
        assert forall|a: int| 0 <= a < post.ready@.len() implies post.ready@[a] == pre.ready@[
            (if a < k {
                a
            } else {
                a + 1
            })
        ] by {}
    }

    assert forall|a: int, b: int|
        0 <= a < b < post.entries@.len() implies key_of(post.entries@[a]) != key_of(
        post.entries@[b],
    ) by {
        let pa: int = if a < i { a } else { a + 1 };
        let pb: int = if b < i { b } else { b + 1 };
        assert(key_of(pre.entries@[pa]) != key_of(pre.entries@[pb]));
    }

    assert forall|a: int, b: int| 0 <= a < b < post.ready@.len() implies post.ready@[a]
        != post.ready@[b] by {
        if removed_ready {
            let pa: int = if a < k { a } else { a + 1 };
            let pb: int = if b < k { b } else { b + 1 };
            assert(pre.ready@[pa] != pre.ready@[pb]);
        }
    }

    assert forall|a: int| 0 <= a < post.entries@.len() implies key_of(post.entries@[a]) != (
        peer,
        path,
    ) by {
        let pa: int = if a < i { a } else { a + 1 };
        if key_of(pre.entries@[pa]) == (peer, path) {
            if pa < i {
                assert(key_of(pre.entries@[pa]) != key_of(pre.entries@[i]));
            } else {
                assert(key_of(pre.entries@[i]) != key_of(pre.entries@[pa]));
            }
        }
    }
    assert(!post.has_entry(peer, path));

    assert forall|l: int| 0 <= l < post.ready@.len() implies post.has_entry(
        (#[trigger] post.ready@[l]).0,
        post.ready@[l].1,
    ) && is_done(post.entry_at(post.ready@[l].0, post.ready@[l].1).state) by {
        let pl: int = if removed_ready && l >= k {
            l + 1
        } else {
            l
        };
        let item = pre.ready@[pl];
        assert(post.ready@[l] == item);
        assert(pre.has_entry(item.0, item.1) && is_done(pre.entry_at(item.0, item.1).state));
        let j = pre.entry_idx(item.0, item.1);
        assert(0 <= j < pre.entries@.len() && key_of(pre.entries@[j]) == item);
        if removed_ready {
            assert(pl != k);
            assert(item != (peer, path));
        } else {
            if item == (peer, path) {
                assert(pre.ready_has(peer, path));
                assert(is_done(pre.entry_at(peer, path).state));
                assert(false);
            }
        }
        assert(j != i);
        let nj: int = if j < i {
            j
        } else {
            j - 1
        };
        assert(post.entries@[nj] == pre.entries@[j]);
        assert(post.has_entry(item.0, item.1));
        let j2 = post.entry_idx(item.0, item.1);
        assert(key_of(post.entries@[j2]) == item && key_of(post.entries@[nj]) == item);
        if j2 != nj {
            if j2 < nj {
                assert(key_of(post.entries@[j2]) != key_of(post.entries@[nj]));
            } else {
                assert(key_of(post.entries@[nj]) != key_of(post.entries@[j2]));
            }
        }
        assert(post.entry_at(item.0, item.1) == pre.entries@[j]);
    }

    assert forall|a: int|
        0 <= a < post.entries@.len() && is_done((#[trigger] post.entries@[a]).state) implies
        post.ready_has(post.entries@[a].peer, path_of(post.entries@[a].state)) by {
        let pa: int = if a < i { a } else { a + 1 };
        let ent = pre.entries@[pa];
        assert(post.entries@[a] == ent);
        assert(pre.ready_has(ent.peer, path_of(ent.state)));
        let l = pre.ready_idx(ent.peer, path_of(ent.state));
        assert(0 <= l < pre.ready@.len() && pre.ready@[l] == (ent.peer, path_of(ent.state)));
        if removed_ready {
            assert(key_of(ent) != (peer, path));
            assert(l != k);
            let nl: int = if l < k {
                l
            } else {
                l - 1
            };
            assert(post.ready@[nl] == pre.ready@[l]);
        } else {
            assert(post.ready@[l] == pre.ready@[l]);
        }
    }
}

} // verus!
