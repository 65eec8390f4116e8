use litep2p::protocol::{ConnectionEvent, DispatchOutcome, ProtocolInfo};
use litep2p::protocol::{Libp2pProtocol, NotificationProtocol, ProtocolName, TransportCommand};
use litep2p::types::{Direction, Error, PeerId, Substream, SubstreamId};

fn substream(protocol: &str, io: u64) -> Substream {
    Substream { direction: Direction::Inbound, protocol: protocol.to_string(), io }
}

fn dispatcher(entries: &[(&str, usize)]) -> ProtocolInfo {
    let registrations: Vec<(String, usize)> =
        entries.iter().map(|(n, c)| (n.to_string(), *c)).collect();
    ProtocolInfo::new(registrations, 8)
}

#[test]
fn unregistered_protocol_always_fails_not_supported() {
    let mut d = dispatcher(&[("/notif/1", 2)]);
    let r = d.report_substream_open("/unknown/1".to_string(), PeerId(7), substream("/unknown/1", 1));
    assert_eq!(r, Err(Error::ProtocolNotSupported("/unknown/1".to_string())));
    // And again: the verdict depends on the routing table alone.
    let r = d.report_substream_open_failure(
        "/unknown/1".to_string(),
        PeerId(7),
        SubstreamId(0),
        Error::Timeout,
    );
    assert_eq!(r, Err(Error::ProtocolNotSupported("/unknown/1".to_string())));
}

#[test]
fn full_handler_does_not_block_other_handler() {
    // Two protocols; the consumer of "/slow/1" is stalled with a channel of
    // one, the consumer of "/live/1" keeps reading.
    let mut d = dispatcher(&[("/slow/1", 1), ("/live/1", 1)]);

    // Fill the slow handler's channel.
    let r = d.report_substream_open("/slow/1".to_string(), PeerId(1), substream("/slow/1", 10));
    assert_eq!(r, Ok(DispatchOutcome::Delivered));
    // The slow handler is now full: the next report is suspended, not
    // dropped and not delivered.
    let r = d.report_substream_open("/slow/1".to_string(), PeerId(2), substream("/slow/1", 11));
    assert_eq!(r, Ok(DispatchOutcome::Suspended));

    // Delivery to the live handler is unaffected by the stalled one.
    let r = d.report_substream_open("/live/1".to_string(), PeerId(3), substream("/live/1", 12));
    assert_eq!(r, Ok(DispatchOutcome::Delivered));

    // The live handler drains its event; the slow handler's queued event
    // is still there, untouched.
    let live = d.next_event(&"/live/1".to_string()).unwrap();
    assert!(matches!(live, Some(ConnectionEvent::SubstreamOpened { peer: PeerId(3), .. })));
    let slow = d.next_event(&"/slow/1".to_string()).unwrap();
    assert!(matches!(slow, Some(ConnectionEvent::SubstreamOpened { peer: PeerId(1), .. })));
}

#[test]
fn suspended_report_succeeds_after_drain() {
    let mut d = dispatcher(&[("/p/1", 1)]);
    assert_eq!(
        d.report_substream_open("/p/1".to_string(), PeerId(1), substream("/p/1", 1)),
        Ok(DispatchOutcome::Delivered)
    );
    assert_eq!(
        d.report_substream_open("/p/1".to_string(), PeerId(2), substream("/p/1", 2)),
        Ok(DispatchOutcome::Suspended)
    );
    let _ = d.next_event(&"/p/1".to_string()).unwrap();
    assert_eq!(
        d.report_substream_open("/p/1".to_string(), PeerId(2), substream("/p/1", 2)),
        Ok(DispatchOutcome::Delivered)
    );
}

#[test]
fn closed_handler_fails_single_report_only() {
    let mut d = dispatcher(&[("/a/1", 4), ("/b/1", 4)]);
    assert!(d.close_handler(&"/a/1".to_string()));
    let r = d.report_substream_open("/a/1".to_string(), PeerId(1), substream("/a/1", 1));
    assert_eq!(r, Err(Error::ChannelClosed));
    // The dispatcher itself keeps working for other handlers.
    let r = d.report_substream_open("/b/1".to_string(), PeerId(1), substream("/b/1", 2));
    assert_eq!(r, Ok(DispatchOutcome::Delivered));
}

#[test]
fn open_failure_event_carries_substream_and_error() {
    let mut d = dispatcher(&[("/p/1", 4)]);
    let r = d.report_substream_open_failure(
        "/p/1".to_string(),
        PeerId(9),
        SubstreamId(3),
        Error::Timeout,
    );
    assert_eq!(r, Ok(DispatchOutcome::Delivered));
    let e = d.next_event(&"/p/1".to_string()).unwrap().unwrap();
    assert_eq!(
        e,
        ConnectionEvent::SubstreamOpenFailure {
            peer: PeerId(9),
            substream: SubstreamId(3),
            error: Error::Timeout,
        }
    );
}

#[test]
fn commands_are_polled_oldest_first_and_bounded() {
    let mut d = ProtocolInfo::new(vec![("/p/1".to_string(), 4)], 2);
    let c1 = TransportCommand::OpenSubstream { protocol: "/p/1".to_string(), peer: PeerId(1) };
    let c2 = TransportCommand::OpenSubstream { protocol: "/p/1".to_string(), peer: PeerId(2) };
    let c3 = TransportCommand::OpenSubstream { protocol: "/p/1".to_string(), peer: PeerId(3) };
    assert_eq!(d.send_command(c1.clone()), DispatchOutcome::Delivered);
    assert_eq!(d.send_command(c2.clone()), DispatchOutcome::Delivered);
    // The shared request channel is bounded too.
    assert_eq!(d.send_command(c3.clone()), DispatchOutcome::Suspended);
    assert_eq!(d.poll_next(), Some(c1));
    assert_eq!(d.poll_next(), Some(c2));
    assert_eq!(d.poll_next(), None);
}

#[test]
fn protocol_name_conversions() {
    let name = ProtocolName::from("/notif/1");
    assert_eq!(name.to_string(), "/notif/1".to_string());
    let l = Libp2pProtocol::new(ProtocolName::from("/ipfs/ping/1.0.0"));
    assert_eq!(l.to_string(), "/ipfs/ping/1.0.0".to_string());
    assert_eq!(l.name().to_string(), "/ipfs/ping/1.0.0".to_string());
    let n = NotificationProtocol::new(ProtocolName::from("/notif/1"));
    assert_eq!(n.to_string(), "/notif/1".to_string());
    assert_eq!(n.name().to_string(), "/notif/1".to_string());
}
