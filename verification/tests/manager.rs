use litep2p::transport::{
    multiaddr_into_url, NegotiatedConnection, Scheme, TransportEvent, WebSocketError,
    WebSocketTransport, WebSocketTransportConfig,
};
use litep2p::types::{
    AddressComponent, AddressError, ConnectionId, Error, Multiaddr, PeerId,
};

fn ws_address(host: &str, port: u16, peer: u64) -> Multiaddr {
    Multiaddr {
        components: vec![
            AddressComponent::Ip4(host.to_string()),
            AddressComponent::Tcp(port),
            AddressComponent::Ws,
            AddressComponent::P2p(PeerId(peer)),
        ],
    }
}

fn manager() -> WebSocketTransport {
    WebSocketTransport::new(WebSocketTransportConfig {
        listen_addresses: vec![ws_address("127.0.0.1", 8888, 1)],
        connection_open_timeout: 10_000,
        substream_open_timeout: 5_000,
    })
}

#[test]
fn url_conversion_reads_host_port_scheme_and_peer() {
    let (target, peer) = multiaddr_into_url(ws_address("192.168.1.5", 443, 77)).unwrap();
    assert_eq!(target.scheme, Scheme::Ws);
    assert_eq!(target.host, "192.168.1.5".to_string());
    assert!(!target.ip6_host);
    assert_eq!(target.port, 443);
    assert_eq!(peer, PeerId(77));
}

#[test]
fn url_conversion_marks_ip6_hosts_and_tls() {
    let address = Multiaddr {
        components: vec![
            AddressComponent::Ip6("::1".to_string()),
            AddressComponent::Tcp(9000),
            AddressComponent::Wss,
            AddressComponent::P2p(PeerId(5)),
        ],
    };
    let (target, _) = multiaddr_into_url(address).unwrap();
    assert_eq!(target.scheme, Scheme::Wss);
    assert!(target.ip6_host);
    assert_eq!(target.host, "::1".to_string());
}

#[test]
fn url_conversion_rejects_missing_peer_as_address_error() {
    let address = Multiaddr {
        components: vec![
            AddressComponent::Dns("example.org".to_string()),
            AddressComponent::Tcp(80),
            AddressComponent::Ws,
        ],
    };
    assert_eq!(
        multiaddr_into_url(address),
        Err(Error::AddressError(AddressError::PeerIdMissing))
    );
}

#[test]
fn url_conversion_rejects_foreign_stacks_as_not_supported() {
    let address = Multiaddr {
        components: vec![AddressComponent::Tcp(80), AddressComponent::Ws],
    };
    match multiaddr_into_url(address) {
        Err(Error::TransportNotSupported(a)) => {
            assert_eq!(a.components.len(), 2);
        }
        other => panic!("unexpected result {:?}", other),
    }
    let empty = Multiaddr { components: vec![] };
    assert!(matches!(multiaddr_into_url(empty), Err(Error::TransportNotSupported(_))));
    // A host followed by something other than TCP is not served either.
    let no_tcp = Multiaddr {
        components: vec![
            AddressComponent::Ip4("1.2.3.4".to_string()),
            AddressComponent::Ws,
            AddressComponent::Ws,
            AddressComponent::P2p(PeerId(1)),
        ],
    };
    assert!(matches!(multiaddr_into_url(no_tcp), Err(Error::TransportNotSupported(_))));
}

#[test]
fn canceled_dial_emits_no_establishment_and_no_failure() {
    let mut m = manager();
    let id = ConnectionId(4);
    let cmd = m.dial(id, ws_address("10.0.0.1", 443, 9)).unwrap();
    assert_eq!(cmd.connection_id, id);
    assert_eq!(cmd.peer, PeerId(9));
    assert_eq!(cmd.timeout, 10_000);

    // Canceled before the dial resolves.
    m.cancel(id);

    // However the in-flight work resolves, nothing is emitted for the id.
    let failure = Err(WebSocketError::new(Error::Timeout, Some(id)));
    assert!(m.on_connection_result(failure).is_none());

    // A second dial, canceled, that resolves successfully: discarded too.
    let id2 = ConnectionId(5);
    let _ = m.dial(id2, ws_address("10.0.0.2", 443, 8)).unwrap();
    m.cancel(id2);
    let conn = NegotiatedConnection {
        peer: PeerId(8),
        connection_id: id2,
        endpoint: ws_address("10.0.0.2", 443, 8),
    };
    assert!(m.on_connection_result(Ok(conn)).is_none());
}

#[test]
fn dial_resolution_surfaces_establishment_and_failure() {
    let mut m = manager();
    let id = ConnectionId(1);
    let _ = m.dial(id, ws_address("10.0.0.1", 443, 9)).unwrap();

    let conn = NegotiatedConnection {
        peer: PeerId(9),
        connection_id: id,
        endpoint: ws_address("10.0.0.1", 443, 9),
    };
    match m.on_connection_result(Ok(conn)) {
        Some(TransportEvent::ConnectionEstablished { peer, .. }) => assert_eq!(peer, PeerId(9)),
        other => panic!("unexpected event {:?}", other),
    }

    // A failing dial surfaces a DialFailure carrying the dialed address.
    let id2 = ConnectionId(2);
    let _ = m.dial(id2, ws_address("10.0.0.3", 80, 4)).unwrap();
    match m.on_connection_result(Err(WebSocketError::new(Error::Timeout, Some(id2)))) {
        Some(TransportEvent::DialFailure { connection_id, address, error }) => {
            assert_eq!(connection_id, id2);
            assert_eq!(address, ws_address("10.0.0.3", 80, 4));
            assert_eq!(error, Error::Timeout);
        }
        other => panic!("unexpected event {:?}", other),
    }

    // A failure with no connection id is logged away, not emitted.
    assert!(m.on_connection_result(Err(WebSocketError::new(Error::Unknown, None))).is_none());
}

#[test]
fn dial_rejects_invalid_addresses_without_recording_them() {
    let mut m = manager();
    let bad = Multiaddr { components: vec![AddressComponent::Tcp(80)] };
    assert!(matches!(m.dial(ConnectionId(1), bad), Err(Error::TransportNotSupported(_))));
}

#[test]
fn open_keeps_only_convertible_candidates() {
    let mut m = manager();
    let good1 = ws_address("10.0.0.1", 80, 3);
    let bad = Multiaddr { components: vec![AddressComponent::Tcp(80)] };
    let good2 = ws_address("10.0.0.2", 81, 3);
    let cmd = m.open(ConnectionId(7), vec![good1.clone(), bad, good2.clone()]).unwrap();
    assert_eq!(cmd.connection_id, ConnectionId(7));
    assert_eq!(cmd.targets.len(), 2);
    assert_eq!(cmd.targets[0].0, good1);
    assert_eq!(cmd.targets[0].1.port, 80);
    assert_eq!(cmd.targets[1].0, good2);
    assert_eq!(cmd.targets[1].1.port, 81);
}

#[test]
fn raw_connection_results_respect_cancellation() {
    let mut m = manager();
    let id = ConnectionId(3);
    // Canceled: the winning candidate is discarded.
    m.cancel(id);
    assert!(m.on_raw_connection_result(Ok((id, ws_address("10.0.0.1", 80, 2)))).is_none());
    // The mark is consumed: a later attempt under the same id is live.
    match m.on_raw_connection_result(Ok((id, ws_address("10.0.0.1", 80, 2)))) {
        Some(TransportEvent::ConnectionOpened { connection_id, address }) => {
            assert_eq!(connection_id, id);
            assert_eq!(address, ws_address("10.0.0.1", 80, 2));
        }
        other => panic!("unexpected event {:?}", other),
    }
    // All candidates failing surfaces an OpenFailure.
    match m.on_raw_connection_result(Err(ConnectionId(4))) {
        Some(TransportEvent::OpenFailure { connection_id }) => {
            assert_eq!(connection_id, ConnectionId(4));
        }
        other => panic!("unexpected event {:?}", other),
    }
}

#[test]
fn negotiate_needs_an_opened_raw_connection_with_a_peer() {
    let mut m = manager();
    assert_eq!(
        m.negotiate(ConnectionId(9)),
        Err(Error::ConnectionDoesntExist(ConnectionId(9)))
    );

    // A raw connection whose address names no peer cannot negotiate.
    let id = ConnectionId(1);
    let peerless = Multiaddr {
        components: vec![
            AddressComponent::Ip4("10.0.0.9".to_string()),
            AddressComponent::Tcp(80),
            AddressComponent::Ws,
        ],
    };
    let _ = m.on_raw_connection_result(Ok((id, peerless)));
    assert_eq!(m.negotiate(id), Err(Error::InvalidState));

    // One that does starts negotiating under the configured deadline.
    let id2 = ConnectionId(2);
    let _ = m.on_raw_connection_result(Ok((id2, ws_address("10.0.0.1", 80, 44))));
    let cmd = m.negotiate(id2).unwrap();
    assert_eq!(cmd.connection_id, id2);
    assert_eq!(cmd.peer, PeerId(44));
    assert_eq!(cmd.timeout, 10_000);
}

#[test]
fn accept_and_reject_validate_pending_connections() {
    let mut m = manager();
    assert_eq!(m.accept(ConnectionId(8)), Err(Error::ConnectionDoesntExist(ConnectionId(8))));
    assert_eq!(m.reject(ConnectionId(8)), Err(Error::ConnectionDoesntExist(ConnectionId(8))));

    let id = ConnectionId(1);
    let _ = m.dial(id, ws_address("10.0.0.1", 443, 9)).unwrap();
    let conn = NegotiatedConnection {
        peer: PeerId(9),
        connection_id: id,
        endpoint: ws_address("10.0.0.1", 443, 9),
    };
    let _ = m.on_connection_result(Ok(conn));
    let accepted = m.accept(id).unwrap();
    assert_eq!(accepted.peer, PeerId(9));
    assert_eq!(accepted.connection_id, id);
    // Gone once validated.
    assert_eq!(m.accept(id), Err(Error::ConnectionDoesntExist(id)));
}

#[test]
fn reject_discards_the_pending_connection() {
    let mut m = manager();
    let id = ConnectionId(1);
    let _ = m.dial(id, ws_address("10.0.0.1", 443, 9)).unwrap();
    let conn = NegotiatedConnection {
        peer: PeerId(9),
        connection_id: id,
        endpoint: ws_address("10.0.0.1", 443, 9),
    };
    let _ = m.on_connection_result(Ok(conn));
    assert_eq!(m.reject(id), Ok(()));
    assert_eq!(m.accept(id), Err(Error::ConnectionDoesntExist(id)));
}

#[test]
fn fresh_connection_ids_are_monotone() {
    let mut m = manager();
    assert_eq!(m.next_connection_id(), ConnectionId(0));
    assert_eq!(m.next_connection_id(), ConnectionId(1));
    assert_eq!(m.next_connection_id(), ConnectionId(2));
}

#[test]
fn inbound_connections_get_fresh_ids_under_the_deadline() {
    let mut m = manager();
    let first = m.on_inbound_connection();
    let second = m.on_inbound_connection();
    assert_eq!(first.connection_id, ConnectionId(0));
    assert_eq!(second.connection_id, ConnectionId(1));
    assert_eq!(first.timeout, 10_000);
}

#[test]
fn listen_addresses_move_into_the_listener() {
    let m = manager();
    let addresses = m.listen_address();
    assert_eq!(addresses.len(), 1);
    assert_eq!(addresses[0], ws_address("127.0.0.1", 8888, 1));
}
