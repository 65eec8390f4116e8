//! Protocol names, protocol configuration, and the dispatcher that routes
//! connection events to independently registered protocol handlers.

use vstd::prelude::*;

use crate::types::{Error, PeerId, Substream, SubstreamId};

verus! {

/// Name of an application protocol, fixed at node construction.
#[derive(Debug, Clone)]
pub enum ProtocolName {
    /// Static protocol name.
    Static(&'static str),
}

impl ProtocolName {
    /// The characters of the name.
    pub open spec fn chars(&self) -> Seq<char> {
        match self {
            ProtocolName::Static(s) => s@,
        }
    }

    /// Get the name as `String`.
    pub fn to_string(&self) -> (r: String)
        ensures
            r@ == self.chars(),
    {
        match self {
            ProtocolName::Static(s) => (*s).to_owned(),
        }
    }
}

impl From<&'static str> for ProtocolName {
    fn from(value: &'static str) -> (r: Self)
        ensures
            r == ProtocolName::Static(value),
    {
        ProtocolName::Static(value)
    }
}

impl vstd::std_specs::convert::FromSpecImpl<&'static str> for ProtocolName {
    open spec fn obeys_from_spec() -> bool {
        true
    }

    open spec fn from_spec(value: &'static str) -> Self {
        ProtocolName::Static(value)
    }
}

/// Libp2p protocol configuration.
#[derive(Debug)]
pub struct Libp2pProtocol {
    /// Protocol name.
    name: ProtocolName,
}

impl Libp2pProtocol {
    /// The protocol name held by this configuration.
    pub closed spec fn spec_name(&self) -> ProtocolName {
        self.name
    }

    /// Create new [`Libp2pProtocol`].
    pub fn new(name: ProtocolName) -> (r: Self)
        ensures
            r.spec_name() == name,
    {
        Self { name }
    }

    /// Get the name of the protocol.
    pub fn name(&self) -> (r: &ProtocolName)
        ensures
            r == self.spec_name(),
    {
        &self.name
    }

    /// Get the name as `String`.
    pub fn to_string(&self) -> (r: String)
        ensures
            r@ == self.spec_name().chars(),
    {
        self.name.to_string()
    }
}

/// Notification protocol configuration.
#[derive(Debug)]
pub struct NotificationProtocol {
    /// Protocol name.
    name: ProtocolName,
}

impl NotificationProtocol {
    /// The protocol name held by this configuration.
    pub closed spec fn spec_name(&self) -> ProtocolName {
        self.name
    }

    /// Create new [`NotificationProtocol`].
    pub fn new(name: ProtocolName) -> (r: Self)
        ensures
            r.spec_name() == name,
    {
        Self { name }
    }

    /// Get the name of the protocol.
    pub fn name(&self) -> (r: &ProtocolName)
        ensures
            r == self.spec_name(),
    {
        &self.name
    }

    /// Get the name as `String`.
    pub fn to_string(&self) -> (r: String)
        ensures
            r@ == self.spec_name().chars(),
    {
        self.name.to_string()
    }
}

/// Marker for substream framing codecs. Framing is applied by the
/// connection layer from static registration metadata; the negotiation
/// logic itself never chooses it.
pub trait Codec {

}

/// Events received from connections that are relevant to the execution of
/// a user protocol.
#[derive(Debug, Clone, PartialEq, Eq)]
pub enum ExecutionEvent {
    /// Connection established to remote peer.
    ConnectionEstablished {
        /// Peer ID.
        peer: PeerId,
    },
    /// Connection closed to remote peer.
    ConnectionClosed {
        /// Peer ID.
        peer: PeerId,
    },
    /// Substream opened to remote peer.
    SubstreamOpened {
        /// Peer ID.
        peer: PeerId,
        /// Opened substream.
        substream: Substream,
    },
    /// Failed to open substream.
    SubstreamOpenFailure {
        /// Peer ID.
        peer: PeerId,
        /// Error that occurred.
        error: Error,
    },
}

/// Commands sent by different protocols to the transport machinery.
#[derive(Debug, Clone, PartialEq, Eq)]
pub enum TransportCommand {
    /// Open substream to remote peer.
    OpenSubstream {
        /// Protocol.
        protocol: String,
        /// Remote peer ID.
        peer: PeerId,
    },
}

/// Events emitted by a connection to protocols.
#[derive(Debug, Clone, PartialEq, Eq)]
pub enum ConnectionEvent {
    /// Substream opened for `peer`.
    SubstreamOpened {
        /// Peer ID.
        peer: PeerId,
        /// Substream.
        substream: Substream,
    },
    /// Failed to open substream.
    SubstreamOpenFailure {
        /// Peer ID.
        peer: PeerId,
        /// Substream ID the failed open was requested under.
        substream: SubstreamId,
        /// Error.
        error: Error,
    },
}

/// One registered protocol handler: its name and its bounded event channel.
#[derive(Debug, Clone, PartialEq, Eq)]
pub struct HandlerEntry {
    /// Protocol name the handler registered under.
    pub name: String,
    /// Capacity of the handler's event channel.
    pub capacity: usize,
    /// Whether the handler has stopped accepting events.
    pub closed: bool,
    /// Events delivered to the handler and not yet consumed by it.
    pub queue: Vec<ConnectionEvent>,
}

/// What became of one `report_*` call.
#[derive(Debug, Clone, Copy, PartialEq, Eq, Structural)]
pub enum DispatchOutcome {
    /// The event was placed in the handler's channel.
    Delivered,
    /// The handler's channel is full; nothing was enqueued and the caller
    /// must try again later. No data is dropped.
    Suspended,
}

/// The four ways a `report_*` call can end, decided by the routing table.
#[derive(Debug, Clone, Copy, PartialEq, Eq, Structural)]
pub enum DispatchVerdict {
    /// The protocol name is not registered: the call fails closed.
    NotSupported,
    /// The handler no longer accepts events.
    Closed,
    /// The handler's channel has room: the event is delivered.
    Deliver,
    /// The handler's channel is full: the call is suspended.
    Suspend,
}

/// Supported protocol information.
///
/// Each connection gets a copy of [`ProtocolInfo`], which routes connection
/// events to the handler registered for a protocol name and relays the
/// handlers' own substream-open requests back. The routing table is fixed
/// at construction: registration never changes afterwards, and a lookup of
/// an unknown name fails closed with `ProtocolNotSupported`.
#[derive(Debug)]
pub struct ProtocolInfo {
    /// Registered handlers, one bounded channel each.
    pub handlers: Vec<HandlerEntry>,
    /// Capacity of the shared substream-open request channel.
    pub command_capacity: usize,
    /// Pending substream-open requests from all handlers, oldest first.
    pub commands: Vec<TransportCommand>,
}

impl ProtocolInfo {
    /// Well-formedness: handler names are unique, and no queue has
    /// outgrown its channel's capacity.
    pub open spec fn wf(&self) -> bool {
        &&& forall|i: int, j: int|
            0 <= i < j < self.handlers@.len() ==> self.handlers@[i].name@ != self.handlers@[j].name@
        &&& forall|i: int|
            0 <= i < self.handlers@.len() ==> (#[trigger] self.handlers@[i]).queue@.len()
                <= self.handlers@[i].capacity
        &&& self.commands@.len() <= self.command_capacity
    }

    /// Whether a handler is registered under `name`.
    pub open spec fn registered(&self, name: Seq<char>) -> bool {
        exists|i: int|
            0 <= i < self.handlers@.len() && (#[trigger] self.handlers@[i]).name@ == name
    }

    /// Index of the handler registered under `name`.
    pub open spec fn idx(&self, name: Seq<char>) -> int {
        choose|i: int|
            0 <= i < self.handlers@.len() && (#[trigger] self.handlers@[i]).name@ == name
    }

    /// The handler entry registered under `name`.
    pub open spec fn entry(&self, name: Seq<char>) -> HandlerEntry {
        self.handlers@[self.idx(name)]
    }

    /// How a report to `name` must end, given the routing table and the
    /// state of the one channel registered under `name`. The verdict never
    /// reads any other handler's channel.
    pub open spec fn verdict(&self, name: Seq<char>) -> DispatchVerdict {
        if !self.registered(name) {
            DispatchVerdict::NotSupported
        } else if self.entry(name).closed {
            DispatchVerdict::Closed
        } else if self.entry(name).queue@.len() < self.entry(name).capacity {
            DispatchVerdict::Deliver
        } else {
            DispatchVerdict::Suspend
        }
    }

    /// Create new [`ProtocolInfo`] from the handler registrations, fixed
    /// for the node's lifetime, and the capacity of the shared
    /// substream-open request channel. Protocol names are globally unique
    /// per running node.
    pub fn new(registrations: Vec<(String, usize)>, command_capacity: usize) -> (r: Self)
        requires
            forall|i: int, j: int|
                0 <= i < j < registrations@.len() ==> registrations@[i].0@ != registrations@[j].0@,
        ensures
            r.wf(),
            r.handlers@.len() == registrations@.len(),
            forall|i: int|
                0 <= i < registrations@.len() ==> {
                    &&& (#[trigger] r.handlers@[i]).name == registrations@[i].0
                    &&& r.handlers@[i].capacity == registrations@[i].1
                    &&& !r.handlers@[i].closed
                    &&& r.handlers@[i].queue@ =~= Seq::<ConnectionEvent>::empty()
                },
            r.command_capacity == command_capacity,
            r.commands@ =~= Seq::<TransportCommand>::empty(),
    {
        let mut handlers: Vec<HandlerEntry> = Vec::new();
        let mut i: usize = 0;
        while i < registrations.len()
            invariant
                i <= registrations@.len(),
                handlers@.len() == i,
                forall|j: int|
                    0 <= j < i ==> {
                        &&& (#[trigger] handlers@[j]).name == registrations@[j].0
                        &&& handlers@[j].capacity == registrations@[j].1
                        &&& !handlers@[j].closed
                        &&& handlers@[j].queue@ =~= Seq::<ConnectionEvent>::empty()
                    },
            decreases registrations@.len() - i,
        {
            let name = registrations[i].0.clone();
            let capacity = registrations[i].1;
            handlers.push(HandlerEntry { name, capacity, closed: false, queue: Vec::new() });
            i = i + 1;
        }
        let r = Self { handlers, command_capacity, commands: Vec::new() };
        proof {
            assert forall|a: int, b: int|
                0 <= a < b < r.handlers@.len() implies r.handlers@[a].name@
                != r.handlers@[b].name@ by {
                assert(r.handlers@[a].name == registrations@[a].0);
                assert(r.handlers@[b].name == registrations@[b].0);
            }
        }
        r
    }

    /// Find the handler registered under `protocol`.
    fn find_handler(&self, protocol: &String) -> (r: Option<usize>)
        ensures
            match r {
                Some(i) => {
                    &&& 0 <= i < self.handlers@.len()
                    &&& self.handlers@[i as int].name@ == protocol@
                    &&& self.registered(protocol@)
                    &&& self.wf() ==> i == self.idx(protocol@)
                },
                None => !self.registered(protocol@),
            },
    {
        let mut i: usize = 0;
        while i < self.handlers.len()
            invariant
                i <= self.handlers@.len(),
                forall|j: int| 0 <= j < i ==> (#[trigger] self.handlers@[j]).name@ != protocol@,
            decreases self.handlers@.len() - i,
        {
            if self.handlers[i].name == *protocol {
                proof {
                    if self.wf() {
                        let k = self.idx(protocol@);
                        assert(0 <= k < self.handlers@.len() && self.handlers@[k].name@
                            == protocol@);
                    }
                }
                return Some(i);
            }
            i = i + 1;
        }
        None
    }

    /// Report to `protocol` that a substream was opened for `peer`.
    ///
    /// Routing fails closed: an unregistered name is a configuration
    /// invariant violation and is surfaced, never dropped. A full channel
    /// suspends the call without dropping the event; no other handler's
    /// channel is read or written.
    pub fn report_substream_open(
        &mut self,
        protocol: String,
        peer: PeerId,
        substream: Substream,
    ) -> (r: Result<DispatchOutcome, Error>)
        requires
            old(self).wf(),
        ensures
            final(self).wf(),
            final(self).command_capacity == old(self).command_capacity,
            final(self).commands@ == old(self).commands@,
            (match old(self).verdict(protocol@) {
                DispatchVerdict::NotSupported => r == Err::<DispatchOutcome, Error>(
                    Error::ProtocolNotSupported(protocol),
                ) && *final(self) == *old(self),
                DispatchVerdict::Closed => r == Err::<DispatchOutcome, Error>(Error::ChannelClosed)
                    && *final(self) == *old(self),
                DispatchVerdict::Suspend => r == Ok::<DispatchOutcome, Error>(
                    DispatchOutcome::Suspended,
                ) && *final(self) == *old(self),
                DispatchVerdict::Deliver => {
                    let i = old(self).idx(protocol@);
                    &&& r == Ok::<DispatchOutcome, Error>(DispatchOutcome::Delivered)
                    &&& final(self).handlers@.len() == old(self).handlers@.len()
                    &&& forall|j: int|
                        0 <= j < old(self).handlers@.len() && j != i
                            ==> final(self).handlers@[j] == old(self).handlers@[j]
                    &&& final(self).handlers@[i].name == old(self).handlers@[i].name
                    &&& final(self).handlers@[i].capacity == old(self).handlers@[i].capacity
                    &&& final(self).handlers@[i].closed == old(self).handlers@[i].closed
                    &&& final(self).handlers@[i].queue@ == old(self).handlers@[i].queue@.push(
                        (ConnectionEvent::SubstreamOpened { peer, substream }),
                    )
                },
            }),
    {
        match self.find_handler(&protocol) {
            None => Err(Error::ProtocolNotSupported(protocol)),
            Some(i) => {
                if self.handlers[i].closed {
                    Err(Error::ChannelClosed)
                } else if self.handlers[i].queue.len() < self.handlers[i].capacity {
                    let event = ConnectionEvent::SubstreamOpened { peer, substream };
                    self.handlers[i].queue.push(event);
                    Ok(DispatchOutcome::Delivered)
                } else {
                    Ok(DispatchOutcome::Suspended)
                }
            }
        }
    }

    /// Report to `protocol` that the connection failed to open the
    /// substream requested for `peer` under `substream`, so the handler can
    /// apply its own retry policy. Routing is the same as for
    /// [`Self::report_substream_open`].
    pub fn report_substream_open_failure(
        &mut self,
        protocol: String,
        peer: PeerId,
        substream: SubstreamId,
        error: Error,
    ) -> (r: Result<DispatchOutcome, Error>)
        requires
            old(self).wf(),
        ensures
            final(self).wf(),
            final(self).command_capacity == old(self).command_capacity,
            final(self).commands@ == old(self).commands@,
            (match old(self).verdict(protocol@) {
                DispatchVerdict::NotSupported => r == Err::<DispatchOutcome, Error>(
                    Error::ProtocolNotSupported(protocol),
                ) && *final(self) == *old(self),
                DispatchVerdict::Closed => r == Err::<DispatchOutcome, Error>(Error::ChannelClosed)
                    && *final(self) == *old(self),
                DispatchVerdict::Suspend => r == Ok::<DispatchOutcome, Error>(
                    DispatchOutcome::Suspended,
                ) && *final(self) == *old(self),
                DispatchVerdict::Deliver => {
                    let i = old(self).idx(protocol@);
                    &&& r == Ok::<DispatchOutcome, Error>(DispatchOutcome::Delivered)
                    &&& final(self).handlers@.len() == old(self).handlers@.len()
                    &&& forall|j: int|
                        0 <= j < old(self).handlers@.len() && j != i
                            ==> final(self).handlers@[j] == old(self).handlers@[j]
                    &&& final(self).handlers@[i].name == old(self).handlers@[i].name
                    &&& final(self).handlers@[i].capacity == old(self).handlers@[i].capacity
                    &&& final(self).handlers@[i].closed == old(self).handlers@[i].closed
                    &&& final(self).handlers@[i].queue@ == old(self).handlers@[i].queue@.push(
                        (ConnectionEvent::SubstreamOpenFailure { peer, substream, error }),
                    )
                },
            }),
    {
        match self.find_handler(&protocol) {
            None => Err(Error::ProtocolNotSupported(protocol)),
            Some(i) => {
                if self.handlers[i].closed {
                    Err(Error::ChannelClosed)
                } else if self.handlers[i].queue.len() < self.handlers[i].capacity {
                    let event = ConnectionEvent::SubstreamOpenFailure { peer, substream, error };
                    self.handlers[i].queue.push(event);
                    Ok(DispatchOutcome::Delivered)
                } else {
                    Ok(DispatchOutcome::Suspended)
                }
            }
        }
    }

    /// A handler asks the connection machinery to open a substream. The
    /// shared request channel is bounded like any handler channel.
    pub fn send_command(&mut self, command: TransportCommand) -> (r: DispatchOutcome)
        requires
            old(self).wf(),
        ensures
            final(self).wf(),
            final(self).handlers@ == old(self).handlers@,
            final(self).command_capacity == old(self).command_capacity,
            old(self).commands@.len() < old(self).command_capacity
                ==> r == DispatchOutcome::Delivered
                    && final(self).commands@ == old(self).commands@.push(command),
            old(self).commands@.len() >= old(self).command_capacity ==> r
                == DispatchOutcome::Suspended && final(self).commands@ == old(self).commands@,
    {
        if self.commands.len() < self.command_capacity {
            self.commands.push(command);
            DispatchOutcome::Delivered
        } else {
            DispatchOutcome::Suspended
        }
    }

    /// Poll the next pending substream-open request from any handler,
    /// oldest first.
    pub fn poll_next(&mut self) -> (r: Option<TransportCommand>)
        requires
            old(self).wf(),
        ensures
            final(self).wf(),
            final(self).handlers@ == old(self).handlers@,
            final(self).command_capacity == old(self).command_capacity,
            old(self).commands@.len() == 0
                ==> r is None && final(self).commands@ == old(self).commands@,
            old(self).commands@.len() > 0
                ==> r == Some(old(self).commands@[0])
                    && final(self).commands@ == old(self).commands@.skip(1),
    {
        if self.commands.len() > 0 {
            let c = self.commands.remove(0);
            proof {
                assert(final(self).commands@ =~= old(self).commands@.skip(1));
            }
            Some(c)
        } else {
            None
        }
    }

    /// The handler registered under `protocol` consumes its next pending
    /// event, oldest first.
    pub fn next_event(&mut self, protocol: &String) -> (r: Result<Option<ConnectionEvent>, Error>)
        requires
            old(self).wf(),
        ensures
            final(self).wf(),
            final(self).command_capacity == old(self).command_capacity,
            final(self).commands@ == old(self).commands@,
            !old(self).registered(protocol@) ==> (r matches Err(Error::ProtocolNotSupported(s))
                && s@ == protocol@) && *final(self) == *old(self),
            old(self).registered(protocol@) ==> {
                let i = old(self).idx(protocol@);
                let q = old(self).handlers@[i].queue@;
                &&& final(self).handlers@.len() == old(self).handlers@.len()
                &&& forall|j: int|
                    0 <= j < old(self).handlers@.len() && j != i
                        ==> final(self).handlers@[j] == old(self).handlers@[j]
                &&& final(self).handlers@[i].name == old(self).handlers@[i].name
                &&& final(self).handlers@[i].capacity == old(self).handlers@[i].capacity
                &&& final(self).handlers@[i].closed == old(self).handlers@[i].closed
                &&& (q.len() == 0 ==> r == Ok::<Option<ConnectionEvent>, Error>(None)
                    && final(self).handlers@[i].queue@ == q)
                &&& (q.len() > 0 ==> r == Ok::<Option<ConnectionEvent>, Error>(Some(q[0]))
                    && final(self).handlers@[i].queue@ == q.skip(1))
            },
    {
        match self.find_handler(protocol) {
            None => Err(Error::ProtocolNotSupported((*protocol).clone())),
            Some(i) => {
                if self.handlers[i].queue.len() > 0 {
                    let e = self.handlers[i].queue.remove(0);
                    proof {
                        assert(final(self).handlers@[i as int].queue@
                            =~= old(self).handlers@[i as int].queue@.skip(1));
                    }
                    Ok(Some(e))
                } else {
                    Ok(None)
                }
            }
        }
    }

    /// Mark the handler registered under `protocol` as no longer accepting
    /// events. Later reports to it fail for that single report; the
    /// dispatcher itself keeps working.
    pub fn close_handler(&mut self, protocol: &String) -> (r: bool)
        requires
            old(self).wf(),
        ensures
            final(self).wf(),
            final(self).command_capacity == old(self).command_capacity,
            final(self).commands@ == old(self).commands@,
            r == old(self).registered(protocol@),
            !old(self).registered(protocol@) ==> *final(self) == *old(self),
            old(self).registered(protocol@) ==> {
                let i = old(self).idx(protocol@);
                &&& final(self).handlers@.len() == old(self).handlers@.len()
                &&& forall|j: int|
                    0 <= j < old(self).handlers@.len() && j != i
                        ==> final(self).handlers@[j] == old(self).handlers@[j]
                &&& final(self).handlers@[i].name == old(self).handlers@[i].name
                &&& final(self).handlers@[i].capacity == old(self).handlers@[i].capacity
                &&& final(self).handlers@[i].closed
                &&& final(self).handlers@[i].queue@ == old(self).handlers@[i].queue@
            },
    {
        match self.find_handler(protocol) {
            None => false,
            Some(i) => {
                self.handlers[i].closed = true;
                true
            }
        }
    }
}

/// `report_substream_open` for an unregistered protocol name always fails
/// with `ProtocolNotSupported`: the routing table decides the verdict from
/// the name alone, and an unknown name fails closed before any channel is
/// touched.
pub proof fn lemma_unregistered_report_fails(d: ProtocolInfo, name: Seq<char>)
    requires
        !d.registered(name),
    ensures
        d.verdict(name) == DispatchVerdict::NotSupported,
{
}

/// One slow handler cannot stall delivery to another: the verdict for a
/// report to `q` reads only the channel registered under `q`, so two
/// dispatcher states that agree on `q`'s entry — whatever any other
/// handler's channel holds, however full it is — give the same verdict.
pub proof fn lemma_full_handler_does_not_block_others(
    d1: ProtocolInfo,
    d2: ProtocolInfo,
    q: Seq<char>,
)
    requires
        d1.wf(),
        d2.wf(),
        d1.registered(q),
        d2.registered(q),
        d1.entry(q) == d2.entry(q),
    ensures
        d1.verdict(q) == d2.verdict(q),
{
}

} // verus!
