//! Identifiers, addresses and errors shared by every component.

use vstd::prelude::*;

verus! {

/// Identifier of a connection, unique for the node's lifetime.
#[derive(Debug, Clone, Copy, PartialEq, Eq, Structural)]
pub struct ConnectionId(pub u64);

/// Identifier of a substream, unique within its connection.
#[derive(Debug, Clone, Copy, PartialEq, Eq, Structural)]
pub struct SubstreamId(pub u64);

impl SubstreamId {
    /// Create the first substream identifier of a connection.
    pub fn new() -> (r: Self)
        ensures
            r.0 == 0,
    {
        SubstreamId(0)
    }

    /// Return the current identifier and advance to the next one.
    pub fn next(&mut self) -> (r: SubstreamId)
        requires
            old(self).0 < u64::MAX,
        ensures
            r == *old(self),
            final(self).0 == old(self).0 + 1,
    {
        let id = SubstreamId(self.0);
        self.0 = self.0 + 1;
        id
    }
}

/// Identity of a remote node, derived from its public key and supplied by
/// the surrounding runtime as a plain value.
#[derive(Debug, Clone, Copy, PartialEq, Eq, Structural)]
pub struct PeerId(pub u64);

/// Direction of a substream: opened by the remote peer, or opened locally
/// on behalf of the substream identifier that requested it.
#[derive(Debug, Clone, Copy, PartialEq, Eq, Structural)]
pub enum Direction {
    /// Substream opened by the remote node.
    Inbound,
    /// Substream opened by the local node.
    Outbound(SubstreamId),
}

/// Connection role.
#[derive(Debug, Clone, Copy, PartialEq, Eq, Structural)]
pub enum Role {
    /// Dialer.
    Dialer,
    /// Listener.
    Listener,
}

/// One component of a structured dial address, listed outermost first.
///
/// Host components carry their textual form; turning an address string into
/// these components (and back) belongs to the surrounding runtime.
#[derive(Debug, Clone, PartialEq, Eq)]
pub enum AddressComponent {
    /// IPv4 host, in textual form.
    Ip4(String),
    /// IPv6 host, in textual form (without brackets).
    Ip6(String),
    /// DNS host name.
    Dns(String),
    /// DNS host name resolved to IPv4 only.
    Dns4(String),
    /// DNS host name resolved to IPv6 only.
    Dns6(String),
    /// TCP port.
    Tcp(u16),
    /// Plain WebSocket.
    Ws,
    /// WebSocket over TLS.
    Wss,
    /// Identity of the peer the address points at.
    P2p(PeerId),
}

/// A structured multi-protocol address: a stack of components.
#[derive(Debug, PartialEq, Eq)]
pub struct Multiaddr {
    /// Components of the address, outermost first.
    pub components: Vec<AddressComponent>,
}

impl AddressComponent {
    /// Copy one component.
    pub fn duplicate(&self) -> (r: AddressComponent)
        ensures
            r == *self,
    {
        match self {
            AddressComponent::Ip4(h) => AddressComponent::Ip4(h.clone()),
            AddressComponent::Ip6(h) => AddressComponent::Ip6(h.clone()),
            AddressComponent::Dns(h) => AddressComponent::Dns(h.clone()),
            AddressComponent::Dns4(h) => AddressComponent::Dns4(h.clone()),
            AddressComponent::Dns6(h) => AddressComponent::Dns6(h.clone()),
            AddressComponent::Tcp(p) => AddressComponent::Tcp(*p),
            AddressComponent::Ws => AddressComponent::Ws,
            AddressComponent::Wss => AddressComponent::Wss,
            AddressComponent::P2p(p) => AddressComponent::P2p(*p),
        }
    }
}

impl Clone for Multiaddr {
    /// Copy an address, component for component.
    fn clone(&self) -> (r: Self)
        ensures
            r.components@ == self.components@,
    {
        let mut components: Vec<AddressComponent> = Vec::new();
        let mut i: usize = 0;
        while i < self.components.len()
            invariant
                i <= self.components@.len(),
                components@.len() == i,
                forall|j: int| 0 <= j < i ==> components@[j] == self.components@[j],
            decreases self.components@.len() - i,
        {
            components.push(self.components[i].duplicate());
            i = i + 1;
        }
        proof {
            assert(components@ =~= self.components@);
        }
        Multiaddr { components }
    }
}

/// A negotiated bidirectional byte channel, owned by exactly one component
/// at a time and handed to exactly one handler.
///
/// The raw byte stream itself lives in the surrounding runtime; `io` names
/// it. Everything the core's logic reads — direction and negotiated
/// protocol — is carried here as plain data.
#[derive(Debug, Clone, PartialEq, Eq)]
pub struct Substream {
    /// Substream direction.
    pub direction: Direction,
    /// Negotiated protocol name.
    pub protocol: String,
    /// Token under which the runtime holds the underlying byte stream.
    pub io: u64,
}

/// Reason an address was rejected.
#[derive(Debug, Clone, Copy, PartialEq, Eq, Structural)]
pub enum AddressError {
    /// The address does not end in the identity of the remote peer.
    PeerIdMissing,
}

/// Errors surfaced by the connection and substream machinery.
#[derive(Debug, Clone, PartialEq, Eq)]
pub enum Error {
    /// A bounded asynchronous step exceeded its deadline.
    Timeout,
    /// Protocol mismatch or handshake stream failure; fails only the one
    /// substream.
    NegotiationFailure,
    /// The address cannot be served by this transport.
    TransportNotSupported(Multiaddr),
    /// The address is malformed.
    AddressError(AddressError),
    /// The operation does not apply to the connection's current state.
    InvalidState,
    /// No connection exists under the given identifier.
    ConnectionDoesntExist(ConnectionId),
    /// The protocol name is not registered with the dispatcher.
    ProtocolNotSupported(String),
    /// The handler's channel is no longer accepting events.
    ChannelClosed,
    /// Failure without further detail.
    Unknown,
}

/// Node-wide configuration.
#[derive(Debug)]
pub struct LiteP2pConfiguration {
    /// Listening addresses.
    pub listen_addresses: Vec<Multiaddr>,
}

/// Transport configuration.
#[derive(Debug)]
pub struct TransportConfig {
    /// Listening address for the transport.
    pub listen_address: Multiaddr,
    /// Supported protocols.
    pub supported_protocols: Vec<String>,
    /// Maximum number of allowed connections.
    pub max_connections: usize,
}

} // verus!
