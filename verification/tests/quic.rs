use litep2p::connection::{
    ConnectionError, QuicConnection, SUBSTREAM_OPEN_TIMEOUT_MS,
};
use litep2p::protocol::{ConnectionEvent, DispatchOutcome, ProtocolInfo};
use litep2p::tracker::PendingOperationTracker;
use litep2p::transport::TransportEvent;
use litep2p::types::{ConnectionId, Direction, Error, PeerId, Role, Substream, SubstreamId};

fn engine_with(protocols: &[&str]) -> QuicConnection {
    let registrations: Vec<(String, usize)> =
        protocols.iter().map(|n| (n.to_string(), 4)).collect();
    QuicConnection::new(PeerId(42), ProtocolInfo::new(registrations, 8), ConnectionId(1))
}

#[test]
fn outbound_substream_timeout_reaches_the_handler() {
    // Scenario: an outbound substream open exceeds its 5-second deadline
    // with no response.
    let mut c = engine_with(&["/notif/1"]);
    let cmd = c.on_command_open_substream("/notif/1".to_string(), 0);
    assert_eq!(cmd.substream_id, SubstreamId(0));
    assert_eq!(cmd.deadline, SUBSTREAM_OPEN_TIMEOUT_MS);
    assert_eq!(cmd.direction, Direction::Outbound(SubstreamId(0)));

    // Under the deadline nothing expires.
    assert!(c.on_tick(SUBSTREAM_OPEN_TIMEOUT_MS - 1).is_none());

    // At the deadline the attempt is normalized into a timeout failure
    // carrying the original protocol and substream identifiers.
    let failure = c.on_tick(SUBSTREAM_OPEN_TIMEOUT_MS).unwrap();
    assert_eq!(
        failure,
        ConnectionError::Timeout {
            protocol: Some("/notif/1".to_string()),
            substream_id: Some(SubstreamId(0)),
        }
    );

    // Translated into a dispatcher-visible failure event for the handler.
    let r = c.on_substream_result(Err(failure));
    assert_eq!(r, Some(Ok(DispatchOutcome::Delivered)));
    let event = c.protocol_set.next_event(&"/notif/1".to_string()).unwrap().unwrap();
    assert_eq!(
        event,
        ConnectionEvent::SubstreamOpenFailure {
            peer: PeerId(42),
            substream: SubstreamId(0),
            error: Error::Timeout,
        }
    );

    // The attempt is gone: no second timeout for the same substream.
    assert!(c.on_tick(2 * SUBSTREAM_OPEN_TIMEOUT_MS).is_none());
}

#[test]
fn negotiated_substream_is_delivered_to_its_handler() {
    let mut c = engine_with(&["/notif/1", "/sync/1"]);
    let cmd = c.on_command_open_substream("/sync/1".to_string(), 100);
    let substream = Substream {
        direction: Direction::Outbound(cmd.substream_id),
        protocol: "/sync/1".to_string(),
        io: 5,
    };
    let r = c.on_substream_result(Ok(substream));
    assert_eq!(r, Some(Ok(DispatchOutcome::Delivered)));
    let event = c.protocol_set.next_event(&"/sync/1".to_string()).unwrap().unwrap();
    match event {
        ConnectionEvent::SubstreamOpened { peer, substream } => {
            assert_eq!(peer, PeerId(42));
            assert_eq!(substream.protocol, "/sync/1".to_string());
            assert_eq!(substream.io, 5);
        }
        other => panic!("unexpected event {:?}", other),
    }
    // Completed: its deadline no longer fires.
    assert!(c.on_tick(u64::MAX - SUBSTREAM_OPEN_TIMEOUT_MS).is_none());
}

#[test]
fn substream_for_unknown_protocol_fails_closed() {
    let mut c = engine_with(&["/notif/1"]);
    let substream = Substream {
        direction: Direction::Inbound,
        protocol: "/stranger/1".to_string(),
        io: 5,
    };
    let r = c.on_substream_result(Ok(substream));
    assert_eq!(r, Some(Err(Error::ProtocolNotSupported("/stranger/1".to_string()))));
}

#[test]
fn uncorrelated_failures_are_dropped_without_a_report() {
    let mut c = engine_with(&["/notif/1"]);
    let r = c.on_substream_result(Err(ConnectionError::Timeout {
        protocol: None,
        substream_id: None,
    }));
    assert!(r.is_none());
    let r = c.on_substream_result(Err(ConnectionError::FailedToNegotiate {
        protocol: None,
        substream_id: Some(SubstreamId(1)),
        error: Error::Unknown,
    }));
    assert!(r.is_none());
}

#[test]
fn negotiation_failures_carry_their_error_to_the_handler() {
    let mut c = engine_with(&["/notif/1"]);
    let cmd = c.on_command_open_substream("/notif/1".to_string(), 0);
    let r = c.on_substream_result(Err(ConnectionError::FailedToNegotiate {
        protocol: Some("/notif/1".to_string()),
        substream_id: Some(cmd.substream_id),
        error: Error::NegotiationFailure,
    }));
    assert_eq!(r, Some(Ok(DispatchOutcome::Delivered)));
    let event = c.protocol_set.next_event(&"/notif/1".to_string()).unwrap().unwrap();
    assert_eq!(
        event,
        ConnectionEvent::SubstreamOpenFailure {
            peer: PeerId(42),
            substream: cmd.substream_id,
            error: Error::NegotiationFailure,
        }
    );
}

#[test]
fn inbound_substreams_get_fresh_ids_and_the_registered_set() {
    let mut c = engine_with(&["/notif/1", "/sync/1"]);
    let first = c.on_inbound_substream();
    let second = c.on_inbound_substream();
    assert_eq!(first.substream_id, SubstreamId(0));
    assert_eq!(second.substream_id, SubstreamId(1));
    assert_eq!(first.protocols, vec!["/notif/1".to_string(), "/sync/1".to_string()]);
    assert_eq!(first.timeout, SUBSTREAM_OPEN_TIMEOUT_MS);
}

#[test]
fn protocol_selection_agrees_between_dialer_and_listener() {
    let dialer = vec!["/a/2".to_string(), "/a/1".to_string()];
    let listener = vec!["/a/1".to_string(), "/b/1".to_string()];
    // The dialer proposes in preference order; the listener picks the first
    // proposal it supports.
    let from_dialer = QuicConnection::negotiate_protocol(Role::Dialer, &dialer, &listener);
    let from_listener = QuicConnection::negotiate_protocol(Role::Listener, &listener, &dialer);
    assert_eq!(from_dialer, Ok("/a/1".to_string()));
    assert_eq!(from_listener, Ok("/a/1".to_string()));
}

#[test]
fn protocol_mismatch_fails_only_that_substream() {
    let dialer = vec!["/a/1".to_string()];
    let listener = vec!["/b/1".to_string()];
    assert_eq!(
        QuicConnection::negotiate_protocol(Role::Dialer, &dialer, &listener),
        Err(Error::NegotiationFailure)
    );
    assert_eq!(
        QuicConnection::negotiate_protocol(Role::Listener, &listener, &dialer),
        Err(Error::NegotiationFailure)
    );
}

#[test]
fn dialer_preference_order_decides() {
    let dialer = vec!["/a/2".to_string(), "/a/1".to_string()];
    let listener = vec!["/a/1".to_string(), "/a/2".to_string()];
    assert_eq!(
        QuicConnection::negotiate_protocol(Role::Dialer, &dialer, &listener),
        Ok("/a/2".to_string())
    );
}

#[test]
fn connection_close_is_surfaced_for_cleanup() {
    let c = engine_with(&["/notif/1"]);
    assert_eq!(c.on_connection_closed(), TransportEvent::ConnectionClosed { peer: PeerId(42) });
}

#[test]
fn tracker_correlates_completions_and_expiries() {
    let mut t: PendingOperationTracker<u32> = PendingOperationTracker::new();
    t.register(1, 10, 100);
    t.register(2, 20, 50);
    t.register(3, 30, 200);
    assert_eq!(t.len(), 3);
    // Completion is matched back by identifier.
    assert_eq!(t.complete(2), Some((20, 50)));
    assert_eq!(t.complete(2), None);
    // Expiry withdraws the first operation past its deadline.
    assert_eq!(t.pop_expired(99), None);
    assert_eq!(t.pop_expired(100), Some((1, 10, 100)));
    assert_eq!(t.pop_expired(100), None);
    assert_eq!(t.pop_expired(500), Some((3, 30, 200)));
    assert_eq!(t.len(), 0);
}
