//! The WebSocket connection manager: the per-connection lifecycle state
//! machine behind dial, open, negotiate, accept, reject and cancel.
//!
//! A connection id moves through dialing, raw-opened, negotiating, open and
//! closed; cancellation is a side-flag: in-flight work is never aborted,
//! its result is discarded when it resolves. The asynchronous work itself —
//! connecting, the security and multiplexing handshake, timeouts — is run
//! by the surrounding runtime, which hands every resolution back through
//! the `on_*` methods here and performs the commands handed out.

use vstd::prelude::*;

use crate::types::{AddressError, ConnectionId, Error, Multiaddr, AddressComponent, PeerId};

verus! {

/// URL scheme of a dial target.
#[derive(Debug, Clone, Copy, PartialEq, Eq, Structural)]
pub enum Scheme {
    /// Plain WebSocket.
    Ws,
    /// WebSocket over TLS.
    Wss,
}

/// A validated dial target: everything the runtime needs to form the URL
/// and connect.
#[derive(Debug, PartialEq, Eq)]
pub struct DialTarget {
    /// URL scheme.
    pub scheme: Scheme,
    /// Host, in textual form.
    pub host: String,
    /// Whether the host is an IPv6 address, which the URL form sets in
    /// brackets.
    pub ip6_host: bool,
    /// TCP port.
    pub port: u16,
}

/// A fully negotiated connection awaiting validation by the owning layer.
#[derive(Debug, PartialEq, Eq)]
pub struct NegotiatedConnection {
    /// Remote peer.
    pub peer: PeerId,
    /// Connection ID.
    pub connection_id: ConnectionId,
    /// The address the connection runs over.
    pub endpoint: Multiaddr,
}

/// Events emitted by the connection manager, its single observable output.
#[derive(Debug, PartialEq, Eq)]
pub enum TransportEvent {
    /// A raw connection opened and awaits the negotiation decision.
    ConnectionOpened {
        /// Connection ID.
        connection_id: ConnectionId,
        /// The address that answered.
        address: Multiaddr,
    },
    /// A connection finished negotiating and awaits validation.
    ConnectionEstablished {
        /// Remote peer.
        peer: PeerId,
        /// The address the connection runs over.
        endpoint: Multiaddr,
    },
    /// A dial failed.
    DialFailure {
        /// Connection ID.
        connection_id: ConnectionId,
        /// The address dialed.
        address: Multiaddr,
        /// Why it failed.
        error: Error,
    },
    /// No candidate address of an open attempt answered.
    OpenFailure {
        /// Connection ID.
        connection_id: ConnectionId,
    },
    /// The connection to a peer closed.
    ConnectionClosed {
        /// Remote peer.
        peer: PeerId,
    },
}

/// A failure of the asynchronous connection work, correlated back to the
/// connection id that started it where one exists.
#[derive(Debug, PartialEq, Eq)]
pub struct WebSocketError {
    /// Error.
    pub error: Error,
    /// Connection ID.
    pub connection_id: Option<ConnectionId>,
}

impl WebSocketError {
    /// Create new [`WebSocketError`].
    pub fn new(error: Error, connection_id: Option<ConnectionId>) -> (r: Self)
        ensures
            r.error == error,
            r.connection_id == connection_id,
    {
        Self { error, connection_id }
    }
}

/// Configuration of the WebSocket connection manager.
#[derive(Debug)]
pub struct WebSocketTransportConfig {
    /// Listening addresses.
    pub listen_addresses: Vec<Multiaddr>,
    /// Deadline of every dial and negotiation attempt, in milliseconds.
    pub connection_open_timeout: u64,
    /// Deadline of every substream open, in milliseconds.
    pub substream_open_timeout: u64,
}

/// The host held by the first component of a dial address, with its IPv6
/// flag.
pub open spec fn host_of(c: AddressComponent) -> Option<(String, bool)> {
    match c {
        AddressComponent::Ip4(h) => Some((h, false)),
        AddressComponent::Ip6(h) => Some((h, true)),
        AddressComponent::Dns(h) => Some((h, false)),
        AddressComponent::Dns4(h) => Some((h, false)),
        AddressComponent::Dns6(h) => Some((h, false)),
        _ => None,
    }
}

/// The scheme named by the third component of a dial address.
pub open spec fn scheme_of(c: AddressComponent) -> Option<Scheme> {
    match c {
        AddressComponent::Ws => Some(Scheme::Ws),
        AddressComponent::Wss => Some(Scheme::Wss),
        _ => None,
    }
}

/// What a dial address converts to once host, port and scheme are read:
/// the fourth component must name the remote peer.
pub open spec fn spec_url_with_peer(
    address: Multiaddr,
    host: String,
    ip6_host: bool,
    port: u16,
    scheme: Scheme,
) -> Result<(DialTarget, PeerId), Error> {
    let c = address.components@;
    if c.len() < 4 {
        Err(Error::AddressError(AddressError::PeerIdMissing))
    } else {
        match c[3] {
            AddressComponent::P2p(peer) => Ok(
                ((DialTarget { scheme, host, ip6_host, port }), peer),
            ),
            _ => Err(Error::AddressError(AddressError::PeerIdMissing)),
        }
    }
}

/// What a dial address converts to once its host is read: the second
/// component must be a TCP port and the third a WebSocket scheme.
pub open spec fn spec_url_with_host(address: Multiaddr, host: String, ip6_host: bool) -> Result<
    (DialTarget, PeerId),
    Error,
> {
    let c = address.components@;
    if c.len() < 3 {
        Err(Error::TransportNotSupported(address))
    } else {
        match c[1] {
            AddressComponent::Tcp(port) => match scheme_of(c[2]) {
                Some(scheme) => spec_url_with_peer(address, host, ip6_host, port, scheme),
                None => Err(Error::TransportNotSupported(address)),
            },
            _ => Err(Error::TransportNotSupported(address)),
        }
    }
}

/// What a dial address converts to: a dial target and the remote peer for
/// a stack of host, TCP port, WebSocket scheme and peer identity; the exact
/// error otherwise. A stack that is not host/TCP/WebSocket cannot be served
/// by this transport; one that merely misses the trailing peer identity is
/// a malformed address.
pub open spec fn spec_url_of(address: Multiaddr) -> Result<(DialTarget, PeerId), Error> {
    let c = address.components@;
    if c.len() < 1 {
        Err(Error::TransportNotSupported(address))
    } else {
        match host_of(c[0]) {
            Some(hb) => spec_url_with_host(address, hb.0, hb.1),
            None => Err(Error::TransportNotSupported(address)),
        }
    }
}

/// Convert a dial address into its validated target and the remote peer.
///
/// The first component gives the host, the second the TCP port, the third
/// the WebSocket scheme; the fourth must name the remote peer. Everything
/// else is rejected, and forming the URL string from the returned target is
/// the runtime's business.
pub fn multiaddr_into_url(address: Multiaddr) -> (r: Result<(DialTarget, PeerId), Error>)
    ensures
        r == spec_url_of(address),
{
    if address.components.len() < 1 {
        return Err(Error::TransportNotSupported(address));
    }
    let (host, ip6_host) = match &address.components[0] {
        AddressComponent::Ip4(h) => (h.clone(), false),
        AddressComponent::Ip6(h) => (h.clone(), true),
        AddressComponent::Dns(h) => (h.clone(), false),
        AddressComponent::Dns4(h) => (h.clone(), false),
        AddressComponent::Dns6(h) => (h.clone(), false),
        _ => {
            return Err(Error::TransportNotSupported(address));
        },
    };
    if address.components.len() < 3 {
        return Err(Error::TransportNotSupported(address));
    }
    let port = match &address.components[1] {
        AddressComponent::Tcp(port) => *port,
        _ => {
            return Err(Error::TransportNotSupported(address));
        },
    };
    let scheme = match &address.components[2] {
        AddressComponent::Ws => Scheme::Ws,
        AddressComponent::Wss => Scheme::Wss,
        _ => {
            return Err(Error::TransportNotSupported(address));
        },
    };
    if address.components.len() < 4 {
        return Err(Error::AddressError(AddressError::PeerIdMissing));
    }
    let peer = match &address.components[3] {
        AddressComponent::P2p(peer) => *peer,
        _ => {
            return Err(Error::AddressError(AddressError::PeerIdMissing));
        },
    };
    Ok((DialTarget { scheme, host, ip6_host, port }, peer))
}

/// Whether the ids of an id-keyed table are unique.
pub open spec fn ids_unique<T>(s: Seq<(ConnectionId, T)>) -> bool {
    forall|i: int, j: int| 0 <= i < j < s.len() ==> (#[trigger] s[i]).0 != (#[trigger] s[j]).0
}

/// Whether an id-keyed table holds `id`.
pub open spec fn has_id<T>(s: Seq<(ConnectionId, T)>, id: ConnectionId) -> bool {
    exists|i: int| 0 <= i < s.len() && (#[trigger] s[i]).0 == id
}

/// Index of `id` in an id-keyed table.
pub open spec fn idx_of_id<T>(s: Seq<(ConnectionId, T)>, id: ConnectionId) -> int {
    choose|i: int| 0 <= i < s.len() && (#[trigger] s[i]).0 == id
}

/// The value bound to `id` in an id-keyed table.
pub open spec fn value_of_id<T>(s: Seq<(ConnectionId, T)>, id: ConnectionId) -> T {
    s[idx_of_id(s, id)].1
}

/// The command a dial hands to the runtime: connect to the target under
/// the deadline, run the security and multiplexing handshake, and report
/// the resolution back.
#[derive(Debug, PartialEq, Eq)]
pub struct DialCommand {
    /// Connection ID of the attempt.
    pub connection_id: ConnectionId,
    /// Where to connect.
    pub target: DialTarget,
    /// The peer the address names.
    pub peer: PeerId,
    /// Deadline, in milliseconds.
    pub timeout: u64,
}

/// The command an open hands to the runtime: race the candidate targets,
/// each under the deadline, and report the first that answers.
#[derive(Debug, PartialEq, Eq)]
pub struct OpenCommand {
    /// Connection ID of the attempt.
    pub connection_id: ConnectionId,
    /// The candidate addresses that converted, with their targets, in the
    /// order given.
    pub targets: Vec<(Multiaddr, DialTarget)>,
    /// Deadline of each candidate, in milliseconds.
    pub timeout: u64,
}

/// The command an accepted inbound connection hands to the runtime:
/// negotiate the fresh connection under the deadline and report the
/// resolution back.
#[derive(Debug, Clone, Copy, PartialEq, Eq, Structural)]
pub struct AcceptConnectionCommand {
    /// The id assigned to the inbound connection.
    pub connection_id: ConnectionId,
    /// Deadline, in milliseconds.
    pub timeout: u64,
}

/// The command a negotiate hands to the runtime: run the security and
/// multiplexing handshake over the raw stream held under the id, and
/// report the resolution back.
#[derive(Debug, PartialEq, Eq)]
pub struct NegotiateCommand {
    /// Connection ID whose raw stream to negotiate over.
    pub connection_id: ConnectionId,
    /// The peer the address names.
    pub peer: PeerId,
    /// Deadline, in milliseconds.
    pub timeout: u64,
}

/// The candidate addresses of an open attempt that convert to dial
/// targets, in order.
pub open spec fn open_targets(addrs: Seq<Multiaddr>) -> Seq<(Multiaddr, DialTarget)>
    decreases addrs.len(),
{
    if addrs.len() == 0 {
        Seq::empty()
    } else {
        let front = open_targets(addrs.drop_last());
        match spec_url_of(addrs.last()) {
            Ok(tp) => front.push((addrs.last(), tp.0)),
            Err(_) => front,
        }
    }
}

/// The connection id a resolution of the asynchronous connection work is
/// correlated to, where one exists.
pub open spec fn connection_result_id(result: Result<NegotiatedConnection, WebSocketError>) -> Option<
    ConnectionId,
> {
    match result {
        Ok(conn) => Some(conn.connection_id),
        Err(werr) => werr.connection_id,
    }
}

/// Whether a dial or negotiation resolution is emitted as a transport
/// event. A canceled id is discarded; an establishment is always emitted
/// otherwise; a failure only while its dial is still on record.
pub open spec fn connection_result_emits(
    pre: WebSocketTransport,
    result: Result<NegotiatedConnection, WebSocketError>,
) -> bool {
    match result {
        Ok(conn) => !pre.is_canceled(conn.connection_id),
        Err(werr) => match werr.connection_id {
            Some(id) => !pre.is_canceled(id) && has_id(pre.pending_dials@, id),
            None => false,
        },
    }
}

/// Whether a raw-connection resolution of an open attempt is emitted as a
/// transport event: always, unless its id is canceled.
pub open spec fn raw_result_emits(
    pre: WebSocketTransport,
    result: Result<(ConnectionId, Multiaddr), ConnectionId>,
) -> bool {
    match result {
        Ok(idaddr) => !pre.is_canceled(idaddr.0),
        Err(id) => !pre.is_canceled(id),
    }
}

/// Canceling a connection id before its dial resolves guarantees that no
/// `ConnectionEstablished` and no `DialFailure` is ever emitted for it:
/// whatever the resolution carries under a canceled id, it is discarded.
pub proof fn lemma_cancel_suppresses_dial_result(
    t: WebSocketTransport,
    result: Result<NegotiatedConnection, WebSocketError>,
    id: ConnectionId,
)
    requires
        connection_result_id(result) == Some(id),
        t.is_canceled(id),
    ensures
        !connection_result_emits(t, result),
{
}

/// The first peer identity named anywhere in an address's components.
pub open spec fn first_peer(c: Seq<AddressComponent>) -> Option<PeerId>
    decreases c.len(),
{
    if c.len() == 0 {
        None
    } else {
        match c[0] {
            AddressComponent::P2p(peer) => Some(peer),
            _ => first_peer(c.skip(1)),
        }
    }
}

/// WebSocket connection manager.
#[derive(Debug)]
pub struct WebSocketTransport {
    /// Listening addresses.
    pub listen_addresses: Vec<Multiaddr>,
    /// Deadline of every dial and negotiation attempt, in milliseconds.
    pub connection_open_timeout: u64,
    /// Deadline of every substream open, in milliseconds.
    pub substream_open_timeout: u64,
    /// The next connection id to assign.
    pub next_connection_id: u64,
    /// Addresses of in-flight dials and negotiations, by connection id.
    pub pending_dials: Vec<(ConnectionId, Multiaddr)>,
    /// Raw connections awaiting the negotiation decision, by connection id.
    pub opened_raw: Vec<(ConnectionId, Multiaddr)>,
    /// Ids whose in-flight work was canceled: their results are discarded
    /// when they resolve, never emitted.
    pub canceled: Vec<ConnectionId>,
    /// Negotiated connections awaiting validation, by connection id.
    pub pending_open: Vec<(ConnectionId, NegotiatedConnection)>,
}

impl WebSocketTransport {
    /// Well-formedness: each table binds a connection id at most once.
    pub open spec fn wf(&self) -> bool {
        &&& ids_unique(self.pending_dials@)
        &&& ids_unique(self.opened_raw@)
        &&& ids_unique(self.pending_open@)
        &&& forall|i: int, j: int|
            0 <= i < j < self.canceled@.len() ==> self.canceled@[i] != self.canceled@[j]
    }

    /// Whether `id` is marked canceled.
    pub open spec fn is_canceled(&self, id: ConnectionId) -> bool {
        self.canceled@.contains(id)
    }

    /// Create a new manager. The listen addresses move into the listener;
    /// nothing is pending.
    pub fn new(config: WebSocketTransportConfig) -> (r: Self)
        ensures
            r.wf(),
            r.listen_addresses@ == config.listen_addresses@,
            r.connection_open_timeout == config.connection_open_timeout,
            r.substream_open_timeout == config.substream_open_timeout,
            r.next_connection_id == 0,
            r.pending_dials@.len() == 0,
            r.opened_raw@.len() == 0,
            r.canceled@.len() == 0,
            r.pending_open@.len() == 0,
    {
        Self {
            listen_addresses: config.listen_addresses,
            connection_open_timeout: config.connection_open_timeout,
            substream_open_timeout: config.substream_open_timeout,
            next_connection_id: 0,
            pending_dials: Vec::new(),
            opened_raw: Vec::new(),
            canceled: Vec::new(),
            pending_open: Vec::new(),
        }
    }

    /// Get the assigned listen addresses.
    pub fn listen_address(&self) -> (r: Vec<Multiaddr>)
        ensures
            r@.len() == self.listen_addresses@.len(),
            forall|i: int|
                0 <= i < r@.len() ==> (#[trigger] r@[i]).components@
                    == self.listen_addresses@[i].components@,
    {
        let mut out: Vec<Multiaddr> = Vec::new();
        let mut i: usize = 0;
        while i < self.listen_addresses.len()
            invariant
                i <= self.listen_addresses@.len(),
                out@.len() == i,
                forall|j: int|
                    0 <= j < i ==> (#[trigger] out@[j]).components@
                        == self.listen_addresses@[j].components@,
            decreases self.listen_addresses@.len() - i,
        {
            out.push(self.listen_addresses[i].clone());
            i = i + 1;
        }
        out
    }

    /// Assign a fresh connection id, for instance to an inbound connection
    /// the listener accepted. Ids are monotone and never reused.
    pub fn next_connection_id(&mut self) -> (r: ConnectionId)
        requires
            old(self).next_connection_id < u64::MAX,
        ensures
            r.0 == old(self).next_connection_id,
            final(self).next_connection_id == old(self).next_connection_id + 1,
            *final(self) == (WebSocketTransport {
                next_connection_id: final(self).next_connection_id,
                ..*old(self)
            }),
    {
        let id = ConnectionId(self.next_connection_id);
        self.next_connection_id = self.next_connection_id + 1;
        id
    }

    /// The listener accepted an inbound connection: assign it a fresh id
    /// and hand the runtime the command to negotiate it under the deadline.
    /// The resolution comes back through [`Self::on_connection_result`].
    pub fn on_inbound_connection(&mut self) -> (r: AcceptConnectionCommand)
        requires
            old(self).next_connection_id < u64::MAX,
        ensures
            r.connection_id.0 == old(self).next_connection_id,
            r.timeout == old(self).connection_open_timeout,
            final(self).next_connection_id == old(self).next_connection_id + 1,
            *final(self) == (WebSocketTransport {
                next_connection_id: final(self).next_connection_id,
                ..*old(self)
            }),
    {
        let connection_id = self.next_connection_id();
        AcceptConnectionCommand { connection_id, timeout: self.connection_open_timeout }
    }

    /// Find `id` in an id-keyed table.
    fn find_id<T>(table: &Vec<(ConnectionId, T)>, id: ConnectionId) -> (r: Option<usize>)
        ensures
            match r {
                Some(i) => {
                    &&& 0 <= i < table@.len()
                    &&& table@[i as int].0 == id
                    &&& has_id(table@, id)
                    &&& ids_unique(table@) ==> i == idx_of_id(table@, id)
                },
                None => !has_id(table@, id),
            },
    {
        let mut i: usize = 0;
        while i < table.len()
            invariant
                i <= table@.len(),
                forall|j: int| 0 <= j < i ==> (#[trigger] table@[j]).0 != id,
            decreases table@.len() - i,
        {
            if table[i].0 == id {
                proof {
                    if ids_unique(table@) {
                        let k = idx_of_id(table@, id);
                        assert(0 <= k < table@.len() && table@[k].0 == id);
                        if k != i {
                            if k < i {
                                assert(table@[k].0 != table@[i as int].0);
                            } else {
                                assert(table@[i as int].0 != table@[k].0);
                            }
                        }
                    }
                }
                return Some(i);
            }
            i = i + 1;
        }
        None
    }

    /// Begin dialing `address` under `connection_id`: validate the address,
    /// record the attempt and hand the runtime the dial command. The call
    /// never blocks; the resolution comes back later through
    /// [`Self::on_connection_result`].
    pub fn dial(&mut self, connection_id: ConnectionId, address: Multiaddr) -> (r: Result<
        DialCommand,
        Error,
    >)
        requires
            old(self).wf(),
            !has_id(old(self).pending_dials@, connection_id),
        ensures
            final(self).wf(),
            (match spec_url_of(address) {
                Ok(tp) => {
                    &&& r == Ok::<DialCommand, Error>(
                        (DialCommand {
                            connection_id,
                            target: tp.0,
                            peer: tp.1,
                            timeout: old(self).connection_open_timeout,
                        }),
                    )
                    &&& final(self).pending_dials@ == old(self).pending_dials@.push(
                        (connection_id, address),
                    )
                    &&& *final(self) == (WebSocketTransport {
                        pending_dials: final(self).pending_dials,
                        ..*old(self)
                    })
                },
                Err(e) => {
                    &&& *final(self) == *old(self)
                    &&& (e matches Error::TransportNotSupported(a) ==> (r matches Err(
                        Error::TransportNotSupported(a2),
                    ) && a2.components@ == a.components@))
                    &&& (!(e matches Error::TransportNotSupported(_)) ==> r == Err::<
                        DialCommand,
                        Error,
                    >(e))
                },
            }),
    {
        let parsed = multiaddr_into_url(address.clone());
        match parsed {
            Err(e) => Err(e),
            Ok((target, peer)) => {
                let timeout = self.connection_open_timeout;
                self.pending_dials.push((connection_id, address));
                proof {
                    assert forall|i: int, j: int|
                        0 <= i < j < self.pending_dials@.len() implies (
                        #[trigger] self.pending_dials@[i]).0 != (
                        #[trigger] self.pending_dials@[j]).0 by {
                        if j == self.pending_dials@.len() - 1 {
                            assert(!has_id(old(self).pending_dials@, connection_id));
                        }
                    }
                }
                Ok(DialCommand { connection_id, target, peer, timeout })
            },
        }
    }

    /// Attempt several candidate addresses for `connection_id` at once:
    /// the runtime races the returned targets and reports the first that
    /// answers through [`Self::on_raw_connection_result`]; the losers are
    /// abandoned. Addresses that do not convert are skipped.
    pub fn open(&mut self, connection_id: ConnectionId, addresses: Vec<Multiaddr>) -> (r: Result<
        OpenCommand,
        Error,
    >)
        requires
            old(self).wf(),
        ensures
            final(self).wf(),
            *final(self) == *old(self),
            (r matches Ok(cmd) && cmd.connection_id == connection_id && cmd.timeout == old(self).connection_open_timeout && cmd.targets@ == open_targets(addresses@)),
    {
        let timeout = self.connection_open_timeout;
        let mut targets: Vec<(Multiaddr, DialTarget)> = Vec::new();
        let mut rest = addresses;
        let ghost all = rest@;
        let ghost k: int = 0;
        while rest.len() > 0
            invariant
                0 <= k <= all.len(),
                rest@ == all.skip(k),
                targets@ == open_targets(all.take(k)),
            decreases rest@.len(),
        {
            let address = rest.remove(0);
            proof {
                assert(address == all[k]);
                assert(rest@ =~= all.skip(k + 1));
            }
            match multiaddr_into_url(address.clone()) {
                Ok((target, _peer)) => {
                    targets.push((address, target));
                },
                Err(_) => {},
            }
            proof {
                assert(all.take(k + 1).drop_last() =~= all.take(k));
                assert(all.take(k + 1).last() == all[k]);
            }
            proof {
                k = k + 1;
            }
        }
        proof {
            assert(all.take(all.len() as int) =~= all);
        }
        Ok(OpenCommand { connection_id, targets, timeout })
    }

    /// Begin negotiating the raw connection held under `connection_id`:
    /// hand the runtime the command to run the security and multiplexing
    /// handshake. Fails if no raw connection sits under the id, or — with
    /// the raw connection discarded — if its address names no peer.
    pub fn negotiate(&mut self, connection_id: ConnectionId) -> (r: Result<NegotiateCommand, Error>)
        requires
            old(self).wf(),
            !has_id(old(self).pending_dials@, connection_id),
        ensures
            final(self).wf(),
            !has_id(old(self).opened_raw@, connection_id) ==> r == Err::<NegotiateCommand, Error>(
                Error::ConnectionDoesntExist(connection_id),
            ) && *final(self) == *old(self),
            has_id(old(self).opened_raw@, connection_id) ==> {
                let i = idx_of_id(old(self).opened_raw@, connection_id);
                let address = old(self).opened_raw@[i].1;
                &&& final(self).opened_raw@ == old(self).opened_raw@.remove(i)
                &&& (match first_peer(address.components@) {
                    Some(peer) => {
                        &&& r == Ok::<NegotiateCommand, Error>(
                            (NegotiateCommand {
                                connection_id,
                                peer,
                                timeout: old(self).connection_open_timeout,
                            }),
                        )
                        &&& final(self).pending_dials@ == old(self).pending_dials@.push(
                            (connection_id, address),
                        )
                    },
                    None => {
                        &&& r == Err::<NegotiateCommand, Error>(Error::InvalidState)
                        &&& final(self).pending_dials@ == old(self).pending_dials@
                    },
                })
                &&& final(self).pending_open@ == old(self).pending_open@
                &&& final(self).canceled@ == old(self).canceled@
                &&& final(self).listen_addresses@ == old(self).listen_addresses@
                &&& final(self).connection_open_timeout == old(self).connection_open_timeout
                &&& final(self).substream_open_timeout == old(self).substream_open_timeout
                &&& final(self).next_connection_id == old(self).next_connection_id
            },
    {
        let i = match Self::find_id(&self.opened_raw, connection_id) {
            None => {
                return Err(Error::ConnectionDoesntExist(connection_id));
            },
            Some(i) => i,
        };
        let ghost pre = *self;
        let (id, address) = self.opened_raw.remove(i);
        proof {
            assert forall|a: int, b: int|
                0 <= a < b < self.opened_raw@.len() implies (#[trigger] self.opened_raw@[a]).0 != (
                #[trigger] self.opened_raw@[b]).0 by {
                let pa: int = if a < i { a } else { a + 1 };
                let pb: int = if b < i { b } else { b + 1 };
                assert(pre.opened_raw@[pa].0 != pre.opened_raw@[pb].0);
            }
        }
        let peer = match Self::find_first_peer(&address) {
            None => {
                return Err(Error::InvalidState);
            },
            Some(peer) => peer,
        };
        let timeout = self.connection_open_timeout;
        self.pending_dials.push((id, address));
        proof {
            assert forall|a: int, b: int|
                0 <= a < b < self.pending_dials@.len() implies (
                #[trigger] self.pending_dials@[a]).0 != (#[trigger] self.pending_dials@[b]).0 by {
                if b == self.pending_dials@.len() - 1 {
                    assert(!has_id(old(self).pending_dials@, connection_id));
                }
            }
        }
        Ok(NegotiateCommand { connection_id, peer, timeout })
    }

    /// The first peer identity named anywhere in `address`.
    fn find_first_peer(address: &Multiaddr) -> (r: Option<PeerId>)
        ensures
            r == first_peer(address.components@),
    {
        proof {
            assert(address.components@.skip(0) =~= address.components@);
        }
        let mut i: usize = 0;
        while i < address.components.len()
            invariant
                i <= address.components@.len(),
                first_peer(address.components@) == first_peer(address.components@.skip(i as int)),
                forall|j: int|
                    0 <= j < i ==> !((#[trigger] address.components@[j]) is P2p),
            decreases address.components@.len() - i,
        {
            match &address.components[i] {
                AddressComponent::P2p(peer) => {
                    proof {
                        assert(address.components@.skip(i as int)[0] == address.components@[
                            i as int]);
                    }
                    return Some(*peer);
                },
                _ => {},
            }
            proof {
                assert(address.components@.skip(i as int)[0] == address.components@[i as int]);
                assert(address.components@.skip(i as int).skip(1) =~= address.components@.skip(
                    i as int + 1,
                ));
            }
            i = i + 1;
        }
        proof {
            assert(address.components@.skip(i as int).len() == 0);
        }
        None
    }

    /// Validate the negotiated connection sitting under `connection_id`,
    /// handing its context back so the runtime can start the connection's
    /// event loop.
    pub fn accept(&mut self, connection_id: ConnectionId) -> (r: Result<NegotiatedConnection, Error>)
        requires
            old(self).wf(),
        ensures
            final(self).wf(),
            !has_id(old(self).pending_open@, connection_id) ==> r == Err::<
                NegotiatedConnection,
                Error,
            >(Error::ConnectionDoesntExist(connection_id)) && *final(self) == *old(self),
            has_id(old(self).pending_open@, connection_id) ==> {
                let i = idx_of_id(old(self).pending_open@, connection_id);
                &&& r == Ok::<NegotiatedConnection, Error>(old(self).pending_open@[i].1)
                &&& final(self).pending_open@ == old(self).pending_open@.remove(i)
                &&& *final(self) == (WebSocketTransport {
                    pending_open: final(self).pending_open,
                    ..*old(self)
                })
            },
    {
        let i = match Self::find_id(&self.pending_open, connection_id) {
            None => {
                return Err(Error::ConnectionDoesntExist(connection_id));
            },
            Some(i) => i,
        };
        let ghost pre = *self;
        let (_, connection) = self.pending_open.remove(i);
        proof {
            assert forall|a: int, b: int|
                0 <= a < b < self.pending_open@.len() implies (#[trigger] self.pending_open@[a]).0
                != (#[trigger] self.pending_open@[b]).0 by {
                let pa: int = if a < i { a } else { a + 1 };
                let pb: int = if b < i { b } else { b + 1 };
                assert(pre.pending_open@[pa].0 != pre.pending_open@[pb].0);
            }
        }
        Ok(connection)
    }

    /// Discard the negotiated connection sitting under `connection_id`
    /// before its event loop starts — the owning layer's veto. The id is
    /// marked canceled either way.
    pub fn reject(&mut self, connection_id: ConnectionId) -> (r: Result<(), Error>)
        requires
            old(self).wf(),
        ensures
            final(self).wf(),
            final(self).is_canceled(connection_id),
            final(self).pending_dials@ == old(self).pending_dials@,
            final(self).opened_raw@ == old(self).opened_raw@,
            final(self).listen_addresses@ == old(self).listen_addresses@,
            old(self).is_canceled(connection_id) ==> final(self).canceled@ == old(self).canceled@,
            !old(self).is_canceled(connection_id) ==> final(self).canceled@ == old(self).canceled@.push(connection_id),
            !has_id(old(self).pending_open@, connection_id) ==> r == Err::<(), Error>(
                Error::ConnectionDoesntExist(connection_id),
            ) && final(self).pending_open@ == old(self).pending_open@,
            has_id(old(self).pending_open@, connection_id) ==> r == Ok::<(), Error>(()) && final(self).pending_open@ == old(self).pending_open@.remove(
                idx_of_id(old(self).pending_open@, connection_id),
            ),
    {
        self.cancel(connection_id);
        let i = match Self::find_id(&self.pending_open, connection_id) {
            None => {
                return Err(Error::ConnectionDoesntExist(connection_id));
            },
            Some(i) => i,
        };
        let ghost pre = *self;
        let _ = self.pending_open.remove(i);
        proof {
            assert forall|a: int, b: int|
                0 <= a < b < self.pending_open@.len() implies (#[trigger] self.pending_open@[a]).0
                != (#[trigger] self.pending_open@[b]).0 by {
                let pa: int = if a < i { a } else { a + 1 };
                let pb: int = if b < i { b } else { b + 1 };
                assert(pre.pending_open@[pa].0 != pre.pending_open@[pb].0);
            }
        }
        Ok(())
    }

    /// Mark `connection_id` canceled. In-flight work is not aborted: when
    /// it resolves, its result is discarded rather than emitted.
    pub fn cancel(&mut self, connection_id: ConnectionId)
        requires
            old(self).wf(),
        ensures
            final(self).wf(),
            final(self).is_canceled(connection_id),
            old(self).is_canceled(connection_id) ==> *final(self) == *old(self),
            !old(self).is_canceled(connection_id) ==> final(self).canceled@ == old(self).canceled@.push(connection_id) && *final(self) == (WebSocketTransport {
                canceled: final(self).canceled,
                ..*old(self)
            }),
    {
        match self.find_canceled(connection_id) {
            Some(_) => {},
            None => {
                self.canceled.push(connection_id);
                proof {
                    assert(final(self).canceled@.last() == connection_id);
                    assert forall|a: int, b: int|
                        0 <= a < b < self.canceled@.len() implies self.canceled@[a]
                        != self.canceled@[b] by {
                        if b == self.canceled@.len() - 1 {
                            assert(!old(self).is_canceled(connection_id));
                            assert(old(self).canceled@.contains(self.canceled@[a]) ==> true);
                            if self.canceled@[a] == connection_id {
                                assert(old(self).canceled@[a] == connection_id);
                                assert(old(self).canceled@.contains(connection_id));
                            }
                        }
                    }
                }
            },
        }
    }

    /// Remove the cancellation mark of `id`, consuming it.
    fn unmark_canceled(&mut self, id: ConnectionId)
        requires
            old(self).wf(),
            old(self).is_canceled(id),
        ensures
            final(self).wf(),
            !final(self).is_canceled(id),
            forall|other: ConnectionId|
                other != id ==> final(self).is_canceled(other) == old(self).is_canceled(other),
            final(self).canceled@.len() == old(self).canceled@.len() - 1,
            *final(self) == (WebSocketTransport { canceled: final(self).canceled, ..*old(self) }),
    {
        let ghost pre = *self;
        match self.find_canceled(id) {
            Some(i) => {
                let _ = self.canceled.remove(i);
                proof {
                    assert forall|a: int, b: int|
                        0 <= a < b < self.canceled@.len() implies self.canceled@[a]
                        != self.canceled@[b] by {
                        let pa: int = if a < i { a } else { a + 1 };
                        let pb: int = if b < i { b } else { b + 1 };
                        assert(pre.canceled@[pa] != pre.canceled@[pb]);
                    }
                    assert forall|a: int| 0 <= a < self.canceled@.len() implies self.canceled@[a]
                        != id by {
                        let pa: int = if a < i { a } else { a + 1 };
                        if pre.canceled@[pa] == id {
                            if pa < i {
                                assert(pre.canceled@[pa] != pre.canceled@[i as int]);
                            } else {
                                assert(pre.canceled@[i as int] != pre.canceled@[pa]);
                            }
                        }
                    }
                    assert(!final(self).is_canceled(id));
                    assert forall|other: ConnectionId|
                        other != id implies final(self).is_canceled(other) == pre.is_canceled(
                        other,
                    ) by {
                        if pre.is_canceled(other) {
                            let k = choose|k: int|
                                0 <= k < pre.canceled@.len() && pre.canceled@[k] == other;
                            assert(k != i);
                            let nk: int = if k < i { k } else { k - 1 };
                            assert(self.canceled@[nk] == other);
                        }
                        if final(self).is_canceled(other) {
                            let k = choose|k: int|
                                0 <= k < self.canceled@.len() && self.canceled@[k] == other;
                            let pk: int = if k < i { k } else { k + 1 };
                            assert(pre.canceled@[pk] == other);
                        }
                    }
                }
            },
            None => {
                proof {
                    assert(false);
                }
            },
        }
    }

    /// One of the raced candidate addresses of an open attempt resolved:
    /// either the first that answered, or the id alone once every candidate
    /// failed. A canceled id's result is discarded: the mark is consumed
    /// and nothing is emitted.
    pub fn on_raw_connection_result(
        &mut self,
        result: Result<(ConnectionId, Multiaddr), ConnectionId>,
    ) -> (r: Option<TransportEvent>)
        requires
            old(self).wf(),
            (match result {
                Ok(idaddr) => !old(self).is_canceled(idaddr.0) ==> !has_id(
                    old(self).opened_raw@,
                    idaddr.0,
                ),
                Err(_) => true,
            }),
        ensures
            final(self).wf(),
            (r is Some) == raw_result_emits(*old(self), result),
            (match result {
                Ok(idaddr) => {
                    &&& (old(self).is_canceled(idaddr.0) ==> r is None && !final(self).is_canceled(idaddr.0) && final(self).opened_raw@ == old(self).opened_raw@
                        && final(self).pending_dials@ == old(self).pending_dials@ && final(self).pending_open@ == old(self).pending_open@)
                    &&& (!old(self).is_canceled(idaddr.0) ==> (r matches Some(
                        TransportEvent::ConnectionOpened { connection_id, address },
                    ) && connection_id == idaddr.0 && address.components@ == idaddr.1.components@)
                        && final(self).opened_raw@ == old(self).opened_raw@.push(idaddr) && *final(self) == (WebSocketTransport { opened_raw: final(self).opened_raw, ..*old(self) }))
                },
                Err(id) => {
                    &&& (old(self).is_canceled(id) ==> r is None && !final(self).is_canceled(id)
                        && final(self).opened_raw@ == old(self).opened_raw@ && final(self).pending_dials@ == old(self).pending_dials@ && final(self).pending_open@
                        == old(self).pending_open@)
                    &&& (!old(self).is_canceled(id) ==> r == Some(
                        TransportEvent::OpenFailure { connection_id: id },
                    ) && *final(self) == *old(self))
                },
            }),
    {
        match result {
            Ok((connection_id, address)) => {
                if self.find_canceled(connection_id).is_some() {
                    self.unmark_canceled(connection_id);
                    None
                } else {
                    let event_address = address.clone();
                    let ghost pre = *self;
                    self.opened_raw.push((connection_id, address));
                    proof {
                        assert forall|a: int, b: int|
                            0 <= a < b < self.opened_raw@.len() implies (
                            #[trigger] self.opened_raw@[a]).0 != (
                            #[trigger] self.opened_raw@[b]).0 by {
                            if b == self.opened_raw@.len() - 1 {
                                assert(!has_id(pre.opened_raw@, connection_id));
                            }
                        }
                    }
                    Some(TransportEvent::ConnectionOpened { connection_id, address: event_address })
                }
            },
            Err(connection_id) => {
                if self.find_canceled(connection_id).is_some() {
                    self.unmark_canceled(connection_id);
                    None
                } else {
                    Some(TransportEvent::OpenFailure { connection_id })
                }
            },
        }
    }

    /// A dial or negotiation attempt resolved: a fully negotiated
    /// connection, or the failure, correlated back through the attempt's
    /// connection id. A canceled id's result is discarded: the mark is
    /// consumed and nothing is emitted, neither an establishment nor a dial
    /// failure.
    pub fn on_connection_result(&mut self, result: Result<NegotiatedConnection, WebSocketError>)
        -> (r: Option<TransportEvent>)
        requires
            old(self).wf(),
            (match result {
                Ok(conn) => !old(self).is_canceled(conn.connection_id) ==> !has_id(
                    old(self).pending_open@,
                    conn.connection_id,
                ),
                Err(_) => true,
            }),
        ensures
            final(self).wf(),
            (r is Some) == connection_result_emits(*old(self), result),
            (match result {
                Ok(conn) => {
                    &&& (old(self).is_canceled(conn.connection_id) ==> r is None && !final(self).is_canceled(conn.connection_id) && final(self).pending_open@ == old(self).pending_open@ && final(self).pending_dials@ == old(self).pending_dials@)
                    &&& (!old(self).is_canceled(conn.connection_id) ==> (r matches Some(
                        TransportEvent::ConnectionEstablished { peer, endpoint },
                    ) && peer == conn.peer && endpoint.components@ == conn.endpoint.components@)
                        && final(self).pending_open@ == old(self).pending_open@.push(
                        (conn.connection_id, conn),
                    ) && *final(self) == (WebSocketTransport {
                        pending_open: final(self).pending_open,
                        ..*old(self)
                    }))
                },
                Err(werr) => match werr.connection_id {
                    Some(id) => {
                        &&& (old(self).is_canceled(id) ==> r is None && !final(self).is_canceled(
                            id,
                        ) && final(self).pending_open@ == old(self).pending_open@ && (has_id(
                            old(self).pending_dials@,
                            id,
                        ) ==> final(self).pending_dials@ == old(self).pending_dials@.remove(
                            idx_of_id(old(self).pending_dials@, id),
                        )) && (!has_id(old(self).pending_dials@, id) ==> final(self).pending_dials@
                            == old(self).pending_dials@))
                        &&& (!old(self).is_canceled(id) && has_id(old(self).pending_dials@, id)
                            ==> r == Some(
                            (TransportEvent::DialFailure {
                                connection_id: id,
                                address: value_of_id(old(self).pending_dials@, id),
                                error: werr.error,
                            }),
                        ) && final(self).pending_dials@ == old(self).pending_dials@.remove(
                            idx_of_id(old(self).pending_dials@, id),
                        ) && *final(self) == (WebSocketTransport {
                            pending_dials: final(self).pending_dials,
                            ..*old(self)
                        }))
                        &&& (!old(self).is_canceled(id) && !has_id(old(self).pending_dials@, id)
                            ==> r is None && *final(self) == *old(self))
                    },
                    None => r is None && *final(self) == *old(self),
                },
            }),
    {
        match result {
            Ok(conn) => {
                let id = conn.connection_id;
                if self.find_canceled(id).is_some() {
                    self.unmark_canceled(id);
                    None
                } else {
                    let peer = conn.peer;
                    let endpoint = conn.endpoint.clone();
                    let ghost pre = *self;
                    self.pending_open.push((id, conn));
                    proof {
                        assert forall|a: int, b: int|
                            0 <= a < b < self.pending_open@.len() implies (
                            #[trigger] self.pending_open@[a]).0 != (
                            #[trigger] self.pending_open@[b]).0 by {
                            if b == self.pending_open@.len() - 1 {
                                assert(!has_id(pre.pending_open@, id));
                            }
                        }
                    }
                    Some(TransportEvent::ConnectionEstablished { peer, endpoint })
                }
            },
            Err(werr) => {
                let id = match werr.connection_id {
                    None => {
                        return None;
                    },
                    Some(id) => id,
                };
                let canceled = self.find_canceled(id).is_some();
                if canceled {
                    self.unmark_canceled(id);
                }
                match Self::find_id(&self.pending_dials, id) {
                    Some(i) => {
                        let ghost pre = *self;
                        let (_, address) = self.pending_dials.remove(i);
                        proof {
                            assert forall|a: int, b: int|
                                0 <= a < b < self.pending_dials@.len() implies (
                                #[trigger] self.pending_dials@[a]).0 != (
                                #[trigger] self.pending_dials@[b]).0 by {
                                let pa: int = if a < i { a } else { a + 1 };
                                let pb: int = if b < i { b } else { b + 1 };
                                assert(pre.pending_dials@[pa].0 != pre.pending_dials@[pb].0);
                            }
                        }
                        if canceled {
                            None
                        } else {
                            Some(
                                TransportEvent::DialFailure {
                                    connection_id: id,
                                    address,
                                    error: werr.error,
                                },
                            )
                        }
                    },
                    None => None,
                }
            },
        }
    }

    /// Whether `id` is marked canceled, and where.
    fn find_canceled(&self, id: ConnectionId) -> (r: Option<usize>)
        ensures
            match r {
                Some(i) => 0 <= i < self.canceled@.len() && self.canceled@[i as int] == id
                    && self.is_canceled(id),
                None => !self.is_canceled(id),
            },
    {
        let mut i: usize = 0;
        while i < self.canceled.len()
            invariant
                i <= self.canceled@.len(),
                forall|j: int| 0 <= j < i ==> self.canceled@[j] != id,
            decreases self.canceled@.len() - i,
        {
            if self.canceled[i] == id {
                return Some(i);
            }
            i = i + 1;
        }
        None
    }
}

} // verus!
