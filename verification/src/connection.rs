//! The per-connection event engine: one cooperative execution unit owns all
//! of a connection's substream state and multiplexes its in-flight opens
//! and accepts without one scheduling unit per substream.
//!
//! The runtime runs the loop: it accepts remote streams, opens local ones
//! and enforces nothing itself — every decision (assigning substream ids,
//! selecting protocols, correlating results, normalizing an expired
//! deadline into a timeout failure, routing to handlers) is made here.

use vstd::prelude::*;

use crate::negotiator;
use crate::negotiator::negotiated;
use crate::protocol::{ConnectionEvent, DispatchOutcome, DispatchVerdict, ProtocolInfo};
use crate::tracker::{first_expired_at, has_op, op_idx, some_expired, PendingOperationTracker};
use crate::transport::TransportEvent;
use crate::types::{ConnectionId, Direction, Error, PeerId, Role, Substream, SubstreamId};

verus! {

/// Every externally visible asynchronous substream step runs under this
/// deadline, in milliseconds; expiry is normalized to a timeout failure.
pub const SUBSTREAM_OPEN_TIMEOUT_MS: u64 = 5000;

/// What a pending outbound substream open is correlated back by.
#[derive(Debug, Clone, PartialEq, Eq)]
pub struct SubstreamContext {
    /// The protocol the open was requested for.
    pub protocol: String,
    /// The substream id the open was requested under.
    pub substream_id: SubstreamId,
}

/// Why an in-flight substream open or accept failed.
#[derive(Debug, Clone, PartialEq, Eq)]
pub enum ConnectionError {
    /// The step exceeded its deadline.
    Timeout {
        /// Protocol, where the attempt carried one.
        protocol: Option<String>,
        /// Substream ID, where the attempt carried one.
        substream_id: Option<SubstreamId>,
    },
    /// The substream failed to negotiate.
    FailedToNegotiate {
        /// Protocol, where the attempt carried one.
        protocol: Option<String>,
        /// Substream ID, where the attempt carried one.
        substream_id: Option<SubstreamId>,
        /// The underlying error.
        error: Error,
    },
}

/// The command an outbound substream open hands to the runtime: open one
/// bidirectional stream, negotiate the protocol as dialer, and report the
/// resolution back — or its expiry, first.
#[derive(Debug, PartialEq, Eq)]
pub struct OpenSubstreamCommand {
    /// The assigned substream id.
    pub substream_id: SubstreamId,
    /// The protocol to propose.
    pub protocol: String,
    /// Direction the resulting substream carries.
    pub direction: Direction,
    /// The tick the attempt expires at.
    pub deadline: u64,
}

/// The command an inbound substream hands to the runtime: negotiate the
/// protocol as listener against the registered set, under the deadline,
/// and report the resolution back.
#[derive(Debug, PartialEq, Eq)]
pub struct AcceptSubstreamCommand {
    /// The assigned substream id.
    pub substream_id: SubstreamId,
    /// The protocols this connection's handlers registered.
    pub protocols: Vec<String>,
    /// Deadline of the accept, in milliseconds from now.
    pub timeout: u64,
}

/// The protocol, substream id and normalized error a failure carries:
/// expiry of the deadline is a timeout failure like any other.
pub open spec fn failure_parts(err: ConnectionError) -> (
    Option<String>,
    Option<SubstreamId>,
    Error,
) {
    match err {
        ConnectionError::Timeout { protocol, substream_id } => (
            protocol,
            substream_id,
            Error::Timeout,
        ),
        ConnectionError::FailedToNegotiate { protocol, substream_id, error } => (
            protocol,
            substream_id,
            error,
        ),
    }
}

/// How completing the in-flight open under `id` changes the tracked
/// operations: the one under `id` leaves, if it was still tracked.
pub open spec fn tracker_completed(
    pre: Seq<(u64, SubstreamContext, u64)>,
    post: Seq<(u64, SubstreamContext, u64)>,
    id: u64,
) -> bool {
    &&& (!has_op(pre, id) ==> post == pre)
    &&& (has_op(pre, id) ==> post == pre.remove(op_idx(pre, id)))
}

/// How routing `event` to the handler registered under `name` changes the
/// dispatcher and what the report returns: exactly the dispatcher's own
/// verdict — unregistered fails closed, a closed or full channel leaves
/// every queue untouched, and delivery appends to the one channel under
/// `name` and no other.
pub open spec fn dispatched(
    pre: ProtocolInfo,
    post: ProtocolInfo,
    name: Seq<char>,
    event: ConnectionEvent,
    r: Option<Result<DispatchOutcome, Error>>,
) -> bool {
    match pre.verdict(name) {
        DispatchVerdict::NotSupported => (r matches Some(res) && (res matches Err(
            Error::ProtocolNotSupported(s),
        ) && s@ == name)) && post.handlers@ == pre.handlers@,
        DispatchVerdict::Closed => r == Some(Err::<DispatchOutcome, Error>(Error::ChannelClosed))
            && post.handlers@ == pre.handlers@,
        DispatchVerdict::Suspend => r == Some(
            Ok::<DispatchOutcome, Error>(DispatchOutcome::Suspended),
        ) && post.handlers@ == pre.handlers@,
        DispatchVerdict::Deliver => {
            let i = pre.idx(name);
            &&& r == Some(Ok::<DispatchOutcome, Error>(DispatchOutcome::Delivered))
            &&& post.handlers@.len() == pre.handlers@.len()
            &&& forall|j: int|
                0 <= j < pre.handlers@.len() && j != i ==> post.handlers@[j] == pre.handlers@[j]
            &&& post.handlers@[i].name == pre.handlers@[i].name
            &&& post.handlers@[i].capacity == pre.handlers@[i].capacity
            &&& post.handlers@[i].closed == pre.handlers@[i].closed
            &&& post.handlers@[i].queue@ == pre.handlers@[i].queue@.push(event)
        },
    }
}

/// QUIC connection engine.
#[derive(Debug)]
pub struct QuicConnection {
    /// Remote peer ID.
    pub peer: PeerId,
    /// Connection ID.
    pub connection_id: ConnectionId,
    /// The dispatcher copy this connection routes events through.
    pub protocol_set: ProtocolInfo,
    /// Next substream ID.
    pub next_substream_id: SubstreamId,
    /// In-flight outbound substream opens, by substream id.
    pub pending_substreams: PendingOperationTracker<SubstreamContext>,
}

impl QuicConnection {
    /// Well-formedness: the dispatcher and tracker are well-formed, every
    /// tracked open sits under its own substream id, and no tracked id has
    /// reached the counter.
    pub open spec fn wf(&self) -> bool {
        &&& self.protocol_set.wf()
        &&& self.pending_substreams.wf()
        &&& forall|i: int|
            0 <= i < self.pending_substreams.operations@.len() ==> (
            #[trigger] self.pending_substreams.operations@[i]).0 < self.next_substream_id.0 && self.pending_substreams.operations@[i].1.substream_id.0
                == self.pending_substreams.operations@[i].0
    }

    /// Create a new connection engine around its dispatcher copy.
    pub fn new(peer: PeerId, protocol_set: ProtocolInfo, connection_id: ConnectionId) -> (r: Self)
        requires
            protocol_set.wf(),
        ensures
            r.wf(),
            r.peer == peer,
            r.connection_id == connection_id,
            r.protocol_set == protocol_set,
            r.next_substream_id.0 == 0,
            r.pending_substreams.operations@.len() == 0,
    {
        Self {
            peer,
            connection_id,
            protocol_set,
            next_substream_id: SubstreamId::new(),
            pending_substreams: PendingOperationTracker::new(),
        }
    }

    /// The protocol names this connection's handlers registered, for the
    /// listener side of a substream negotiation.
    pub fn supported_protocols(&self) -> (r: Vec<String>)
        ensures
            r@.len() == self.protocol_set.handlers@.len(),
            forall|i: int|
                0 <= i < r@.len() ==> r@[i] == (#[trigger] self.protocol_set.handlers@[i]).name,
    {
        let mut out: Vec<String> = Vec::new();
        let mut i: usize = 0;
        while i < self.protocol_set.handlers.len()
            invariant
                i <= self.protocol_set.handlers@.len(),
                out@.len() == i,
                forall|j: int|
                    0 <= j < i ==> out@[j] == (#[trigger] self.protocol_set.handlers@[j]).name,
            decreases self.protocol_set.handlers@.len() - i,
        {
            out.push(self.protocol_set.handlers[i].name.clone());
            i = i + 1;
        }
        out
    }

    /// Select the protocol of a fresh substream: the dialer proposes its
    /// candidates in order, the listener picks the first proposal in its
    /// registered set; a mismatch is a negotiation failure that fails only
    /// this substream.
    pub fn negotiate_protocol(role: Role, local: &Vec<String>, remote: &Vec<String>) -> (r: Result<
        String,
        Error,
    >)
        ensures
            (match negotiated(role, local.deep_view(), remote.deep_view()) {
                Some(name) => r matches Ok(s) && s@ == name,
                None => r == Err::<String, Error>(Error::NegotiationFailure),
            }),
    {
        match negotiator::select_protocol(role, local, remote) {
            Some(name) => Ok(name),
            None => Err(Error::NegotiationFailure),
        }
    }

    /// A handler asked for an outbound substream on `protocol`: assign the
    /// next substream id, record the attempt under its deadline and hand
    /// the runtime the open command.
    pub fn on_command_open_substream(&mut self, protocol: String, now: u64) -> (r:
        OpenSubstreamCommand)
        requires
            old(self).wf(),
            old(self).next_substream_id.0 < u64::MAX,
            now <= u64::MAX - SUBSTREAM_OPEN_TIMEOUT_MS,
        ensures
            final(self).wf(),
            r.substream_id.0 == old(self).next_substream_id.0,
            r.protocol == protocol,
            r.direction == Direction::Outbound(r.substream_id),
            r.deadline == now + SUBSTREAM_OPEN_TIMEOUT_MS,
            final(self).next_substream_id.0 == old(self).next_substream_id.0 + 1,
            final(self).pending_substreams.operations@ == old(self).pending_substreams.operations@.push(
                (
                    r.substream_id.0,
                    (SubstreamContext { protocol, substream_id: r.substream_id }),
                    r.deadline,
                ),
            ),
            final(self).peer == old(self).peer,
            final(self).connection_id == old(self).connection_id,
            final(self).protocol_set == old(self).protocol_set,
    {
        let substream_id = self.next_substream_id.next();
        let deadline = now + SUBSTREAM_OPEN_TIMEOUT_MS;
        let context = SubstreamContext { protocol: protocol.clone(), substream_id };
        proof {
            if has_op(self.pending_substreams.operations@, substream_id.0) {
                let k = op_idx(self.pending_substreams.operations@, substream_id.0);
                assert(self.pending_substreams.operations@[k].0 < self.next_substream_id.0);
                assert(false);
            }
        }
        self.pending_substreams.register(substream_id.0, context, deadline);
        OpenSubstreamCommand {
            substream_id,
            protocol,
            direction: Direction::Outbound(substream_id),
            deadline,
        }
    }

    /// The remote peer opened a substream: assign the next substream id and
    /// hand the runtime the accept command, carrying the registered
    /// protocols for the listener side of the negotiation.
    pub fn on_inbound_substream(&mut self) -> (r: AcceptSubstreamCommand)
        requires
            old(self).wf(),
            old(self).next_substream_id.0 < u64::MAX,
        ensures
            final(self).wf(),
            r.substream_id.0 == old(self).next_substream_id.0,
            r.timeout == SUBSTREAM_OPEN_TIMEOUT_MS,
            r.protocols@.len() == old(self).protocol_set.handlers@.len(),
            forall|i: int|
                0 <= i < r.protocols@.len() ==> r.protocols@[i] == (#[trigger] old(self).protocol_set.handlers@[i]).name,
            final(self).next_substream_id.0 == old(self).next_substream_id.0 + 1,
            final(self).pending_substreams == old(self).pending_substreams,
            final(self).peer == old(self).peer,
            final(self).connection_id == old(self).connection_id,
            final(self).protocol_set == old(self).protocol_set,
    {
        let substream_id = self.next_substream_id.next();
        let protocols = self.supported_protocols();
        AcceptSubstreamCommand { substream_id, protocols, timeout: SUBSTREAM_OPEN_TIMEOUT_MS }
    }

    /// Normalize the first expired in-flight open into a timeout failure
    /// carrying the protocol and substream id the open was requested
    /// under, and withdraw it. The failure is handed back through
    /// [`Self::on_substream_result`] like any other.
    pub fn on_tick(&mut self, now: u64) -> (r: Option<ConnectionError>)
        requires
            old(self).wf(),
        ensures
            final(self).wf(),
            final(self).peer == old(self).peer,
            final(self).connection_id == old(self).connection_id,
            final(self).protocol_set == old(self).protocol_set,
            final(self).next_substream_id == old(self).next_substream_id,
            !some_expired(old(self).pending_substreams.operations@, now) ==> r is None && *final(self) == *old(self),
            some_expired(old(self).pending_substreams.operations@, now) ==> {
                let k = first_expired_at(old(self).pending_substreams.operations@, now);
                let op = old(self).pending_substreams.operations@[k];
                &&& r == Some(
                    (ConnectionError::Timeout {
                        protocol: Some(op.1.protocol),
                        substream_id: Some(op.1.substream_id),
                    }),
                )
                &&& final(self).pending_substreams.operations@ == old(self).pending_substreams.operations@.remove(k)
            },
    {
        match self.pending_substreams.pop_expired(now) {
            None => None,
            Some((_, context, _)) => Some(
                ConnectionError::Timeout {
                    protocol: Some(context.protocol),
                    substream_id: Some(context.substream_id),
                },
            ),
        }
    }

    /// An in-flight substream open or accept resolved: correlate it back,
    /// and route the outcome to the protocol's handler.
    ///
    /// A negotiated substream is reported to its protocol's handler; a
    /// failure that carries its protocol and substream id — a timeout from
    /// [`Self::on_tick`] as much as any negotiation error — is reported as
    /// a substream-open failure, so the handler can apply its own retry
    /// policy. A failure carrying no correlation is dropped without a
    /// report; `None` says so explicitly.
    pub fn on_substream_result(&mut self, result: Result<Substream, ConnectionError>) -> (r:
        Option<Result<DispatchOutcome, Error>>)
        requires
            old(self).wf(),
        ensures
            final(self).wf(),
            final(self).peer == old(self).peer,
            final(self).connection_id == old(self).connection_id,
            final(self).next_substream_id == old(self).next_substream_id,
            final(self).protocol_set.command_capacity == old(self).protocol_set.command_capacity,
            final(self).protocol_set.commands@ == old(self).protocol_set.commands@,
            (match result {
                Ok(substream) => {
                    &&& (match substream.direction {
                        Direction::Outbound(sid) => tracker_completed(
                            old(self).pending_substreams.operations@,
                            final(self).pending_substreams.operations@,
                            sid.0,
                        ),
                        Direction::Inbound => final(self).pending_substreams == old(
                            self,
                        ).pending_substreams,
                    })
                    &&& dispatched(
                        old(self).protocol_set,
                        final(self).protocol_set,
                        substream.protocol@,
                        (ConnectionEvent::SubstreamOpened { peer: old(self).peer, substream }),
                        r,
                    )
                },
                Err(err) => {
                    let (protocol, substream_id, error) = failure_parts(err);
                    match (protocol, substream_id) {
                        (Some(p), Some(sid)) => {
                            &&& tracker_completed(
                                old(self).pending_substreams.operations@,
                                final(self).pending_substreams.operations@,
                                sid.0,
                            )
                            &&& dispatched(
                                old(self).protocol_set,
                                final(self).protocol_set,
                                p@,
                                (ConnectionEvent::SubstreamOpenFailure {
                                    peer: old(self).peer,
                                    substream: sid,
                                    error,
                                }),
                                r,
                            )
                        },
                        _ => r is None && *final(self) == *old(self),
                    }
                },
            }),
    {
        match result {
            Ok(substream) => {
                match substream.direction {
                    Direction::Outbound(sid) => {
                        let _ = self.pending_substreams.complete(sid.0);
                    },
                    Direction::Inbound => {},
                }
                let protocol = substream.protocol.clone();
                let peer = self.peer;
                Some(self.protocol_set.report_substream_open(protocol, peer, substream))
            },
            Err(err) => {
                let (protocol, substream_id, error) = match err {
                    ConnectionError::Timeout { protocol, substream_id } => (
                        protocol,
                        substream_id,
                        Error::Timeout,
                    ),
                    ConnectionError::FailedToNegotiate { protocol, substream_id, error } => (
                        protocol,
                        substream_id,
                        error,
                    ),
                };
                match (protocol, substream_id) {
                    (Some(p), Some(sid)) => {
                        let _ = self.pending_substreams.complete(sid.0);
                        let peer = self.peer;
                        Some(self.protocol_set.report_substream_open_failure(p, peer, sid, error))
                    },
                    _ => None,
                }
            },
        }
    }

    /// The connection closed: every pending handshake and substream state
    /// of this peer dies with this engine, and the closure is surfaced.
    pub fn on_connection_closed(&self) -> (r: TransportEvent)
        ensures
            r == (TransportEvent::ConnectionClosed { peer: self.peer }),
    {
        TransportEvent::ConnectionClosed { peer: self.peer }
    }
}

} // verus!
