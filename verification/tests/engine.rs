use litep2p::negotiation::{
    HandshakeEvent, HandshakePath, HandshakeService, IoAction, IoEvent,
};
use litep2p::types::{Direction, PeerId, Substream};

fn substream(io: u64) -> Substream {
    Substream { direction: Direction::Inbound, protocol: "/notif/1".to_string(), io }
}

/// Drive one outbound entry through its whole happy path: the sink is
/// immediately ready, accepts the payload, flushes, and the remote answers
/// with `reply`.
fn run_outbound(engine: &mut HandshakeService, peer: PeerId, reply: &[u8]) {
    assert!(engine.advance(peer, HandshakePath::Outbound, IoEvent::SinkReady).is_none());
    assert!(engine.advance(peer, HandshakePath::Outbound, IoEvent::Sent).is_none());
    assert!(engine.advance(peer, HandshakePath::Outbound, IoEvent::Flushed).is_none());
    assert!(
        engine.advance(peer, HandshakePath::Outbound, IoEvent::Frame(reply.to_vec())).is_none()
    );
}

#[test]
fn no_op_polls_produce_no_progress_and_no_events() {
    let mut engine = HandshakeService::new(vec![1, 2, 3]);
    engine.negotiate_outbound(PeerId(1), substream(1));
    // Without new I/O readiness, re-invoking the engine does nothing.
    for _ in 0..5 {
        assert!(engine.advance(PeerId(1), HandshakePath::Outbound, IoEvent::Pending).is_none());
        assert!(engine.poll_next().is_none());
    }
    assert_eq!(engine.len(), 1);
    // The entry still waits for the same step.
    assert_eq!(engine.action_required(0), Some(IoAction::PollReady));
    assert!(!engine.is_empty());
}

#[test]
fn two_outbound_handshakes_complete_in_completion_order() {
    // Peers A and B both begin outbound handshakes with local payload
    // [1, 2, 3]; both streams accept writes and flushes immediately and
    // answer [9, 9].
    let a = PeerId(10);
    let b = PeerId(20);
    let mut engine = HandshakeService::new(vec![1, 2, 3]);
    engine.negotiate_outbound(a, substream(1));
    engine.negotiate_outbound(b, substream(2));

    // B completes first, then A: delivery must follow completion order.
    run_outbound(&mut engine, b, &[9, 9]);
    run_outbound(&mut engine, a, &[9, 9]);

    let (peer, event) = engine.poll_next().unwrap();
    assert_eq!(peer, b);
    match event {
        HandshakeEvent::OutboundNegotiated { peer, handshake, substream } => {
            assert_eq!(peer, b);
            assert_eq!(handshake, vec![9, 9]);
            assert_eq!(substream.io, 2);
        }
        other => panic!("unexpected event {:?}", other),
    }
    let (peer, event) = engine.poll_next().unwrap();
    assert_eq!(peer, a);
    match event {
        HandshakeEvent::OutboundNegotiated { peer, handshake, substream } => {
            assert_eq!(peer, a);
            assert_eq!(handshake, vec![9, 9]);
            assert_eq!(substream.io, 1);
        }
        other => panic!("unexpected event {:?}", other),
    }
    // Exactly two terminal events: one per handshake.
    assert!(engine.poll_next().is_none());
    assert!(engine.is_empty());
}

#[test]
fn n_pending_handshakes_yield_exactly_n_events_matched_to_peers() {
    let peers = [PeerId(1), PeerId(2), PeerId(3)];
    let mut engine = HandshakeService::new(vec![5]);
    for (i, p) in peers.iter().enumerate() {
        engine.negotiate_outbound(*p, substream(i as u64));
    }
    // Interleave the I/O readiness across the three entries.
    for p in peers.iter() {
        assert!(engine.advance(*p, HandshakePath::Outbound, IoEvent::SinkReady).is_none());
    }
    for p in peers.iter().rev() {
        assert!(engine.advance(*p, HandshakePath::Outbound, IoEvent::Sent).is_none());
        assert!(engine.advance(*p, HandshakePath::Outbound, IoEvent::Flushed).is_none());
    }
    // Peer 2 answers first, then 1, then 3.
    let completion = [PeerId(2), PeerId(1), PeerId(3)];
    for p in completion.iter() {
        assert!(
            engine.advance(*p, HandshakePath::Outbound, IoEvent::Frame(vec![p.0 as u8])).is_none()
        );
    }
    let mut seen = Vec::new();
    while let Some((peer, event)) = engine.poll_next() {
        match event {
            HandshakeEvent::OutboundNegotiated { peer: inner, handshake, .. } => {
                assert_eq!(peer, inner);
                assert_eq!(handshake, vec![peer.0 as u8]);
            }
            other => panic!("unexpected event {:?}", other),
        }
        seen.push(peer);
    }
    // Exactly three terminal events, one per peer, in completion order.
    assert_eq!(seen, completion.to_vec());
    assert!(engine.is_empty());
}

#[test]
fn io_failure_folds_into_error_event_and_removes_entry() {
    let mut engine = HandshakeService::new(vec![1]);
    engine.negotiate_outbound(PeerId(1), substream(1));
    engine.read_handshake(PeerId(2), substream(2));
    let r = engine.advance(PeerId(1), HandshakePath::Outbound, IoEvent::Failed);
    assert_eq!(r, Some(HandshakeEvent::OutboundNegotiationError { peer: PeerId(1) }));
    let r = engine.advance(PeerId(2), HandshakePath::Inbound, IoEvent::Failed);
    assert_eq!(r, Some(HandshakeEvent::InboundNegotiationError { peer: PeerId(2) }));
    assert!(engine.is_empty());
    assert!(engine.poll_next().is_none());
}

#[test]
fn inbound_read_path_delivers_remote_handshake() {
    let mut engine = HandshakeService::new(vec![1]);
    engine.read_handshake(PeerId(4), substream(4));
    assert_eq!(engine.action_required(0), Some(IoAction::PollRead));
    assert!(engine.advance(PeerId(4), HandshakePath::Inbound, IoEvent::Frame(vec![8, 8])).is_none());
    let (peer, event) = engine.poll_next().unwrap();
    assert_eq!(peer, PeerId(4));
    match event {
        HandshakeEvent::InboundNegotiated { peer, handshake, substream } => {
            assert_eq!(peer, PeerId(4));
            assert_eq!(handshake, vec![8, 8]);
            assert_eq!(substream.io, 4);
        }
        other => panic!("unexpected event {:?}", other),
    }
}

#[test]
fn inbound_send_path_answers_and_completes_with_empty_handshake() {
    let mut engine = HandshakeService::new(vec![6, 6]);
    engine.send_handshake(PeerId(5), substream(5));
    assert_eq!(engine.action_required(0), Some(IoAction::PollReady));
    assert!(engine.advance(PeerId(5), HandshakePath::Inbound, IoEvent::SinkReady).is_none());
    assert_eq!(engine.action_required(0), Some(IoAction::StartSend(vec![6, 6])));
    assert!(engine.advance(PeerId(5), HandshakePath::Inbound, IoEvent::Sent).is_none());
    assert!(engine.advance(PeerId(5), HandshakePath::Inbound, IoEvent::Flushed).is_none());
    let (peer, event) = engine.poll_next().unwrap();
    assert_eq!(peer, PeerId(5));
    match event {
        HandshakeEvent::InboundNegotiated { handshake, .. } => {
            assert_eq!(handshake, Vec::<u8>::new());
        }
        other => panic!("unexpected event {:?}", other),
    }
}

#[test]
fn inbound_accepting_reads_before_answering() {
    let mut engine = HandshakeService::new(vec![3, 3]);
    engine.accept_inbound(PeerId(6), substream(6));
    // The remote payload must be read before we may answer.
    assert_eq!(engine.action_required(0), Some(IoAction::PollRead));
    assert!(engine
        .advance(PeerId(6), HandshakePath::InboundAccepting, IoEvent::Frame(vec![1]))
        .is_none());
    assert_eq!(engine.action_required(0), Some(IoAction::PollReady));
    assert!(engine
        .advance(PeerId(6), HandshakePath::InboundAccepting, IoEvent::SinkReady)
        .is_none());
    assert_eq!(engine.action_required(0), Some(IoAction::StartSend(vec![3, 3])));
    assert!(engine.advance(PeerId(6), HandshakePath::InboundAccepting, IoEvent::Sent).is_none());
    assert!(engine.advance(PeerId(6), HandshakePath::InboundAccepting, IoEvent::Flushed).is_none());
    let (peer, event) = engine.poll_next().unwrap();
    assert_eq!(peer, PeerId(6));
    assert!(matches!(event, HandshakeEvent::InboundAccepted { peer: PeerId(6), .. }));
}

#[test]
fn set_handshake_spares_entries_whose_sink_reported_ready() {
    let mut engine = HandshakeService::new(vec![1, 2, 3]);
    engine.negotiate_outbound(PeerId(1), substream(1));
    // The first entry's sink reports ready: it snapshots [1, 2, 3].
    assert!(engine.advance(PeerId(1), HandshakePath::Outbound, IoEvent::SinkReady).is_none());
    engine.set_handshake(vec![7]);
    // In-flight entry past the snapshot point is unaffected.
    assert_eq!(engine.action_required(0), Some(IoAction::StartSend(vec![1, 2, 3])));
    // An entry that has not yet reached that point uses the new payload.
    engine.negotiate_outbound(PeerId(2), substream(2));
    assert!(engine.advance(PeerId(2), HandshakePath::Outbound, IoEvent::SinkReady).is_none());
    assert_eq!(engine.action_required(1), Some(IoAction::StartSend(vec![7])));
}

#[test]
fn remove_withdraws_the_entry_and_returns_its_substream() {
    let mut engine = HandshakeService::new(vec![1]);
    engine.negotiate_outbound(PeerId(1), substream(11));
    engine.read_handshake(PeerId(1), substream(12));
    let s = engine.remove_outbound(&PeerId(1)).unwrap();
    assert_eq!(s.io, 11);
    let s = engine.remove_inbound(&PeerId(1)).unwrap();
    assert_eq!(s.io, 12);
    assert!(engine.remove_outbound(&PeerId(1)).is_none());
    assert!(engine.is_empty());
}

#[test]
fn entry_keys_follow_registration_order() {
    let mut engine = HandshakeService::new(vec![]);
    engine.negotiate_outbound(PeerId(1), substream(1));
    engine.accept_inbound(PeerId(2), substream(2));
    assert_eq!(engine.len(), 2);
    assert_eq!(engine.entry_key(0), (PeerId(1), HandshakePath::Outbound));
    assert_eq!(engine.entry_key(1), (PeerId(2), HandshakePath::InboundAccepting));
}
