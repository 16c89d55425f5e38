use veloren_logic::channel::{
    Frame, Handshake, HandshakeAction, HandshakeState, Pid, Received, Sid, STREAM_ID_OFFSET1, STREAM_ID_OFFSET2,
    VELOREN_MAGIC_NUMBER, VELOREN_NETWORK_VERSION,
};

fn deliver(h: &Handshake, state: HandshakeState, from: &Handshake, action: HandshakeAction) -> (HandshakeState, Vec<HandshakeAction>) {
    let frame = from.frame_for(action).unwrap();
    h.step(state, Received::Frame(frame))
}

#[test]
fn two_sides_complete_each_other() {
    let a = Handshake::new(1, Pid(11), 111, true);
    let b = Handshake::new(2, Pid(22), 222, false);
    let (sa, acts_a) = a.start();
    let (sb, acts_b) = b.start();
    assert_eq!(acts_a, vec![HandshakeAction::SendHandshake]);
    assert!(acts_b.is_empty());
    // b receives a's handshake and answers with its own.
    let (sb, acts_b) = deliver(&b, sb, &a, acts_a[0]);
    assert_eq!(acts_b, vec![HandshakeAction::SendHandshake]);
    // a receives b's handshake and sends init.
    let (sa, acts_a) = deliver(&a, sa, &b, acts_b[0]);
    assert_eq!(acts_a, vec![HandshakeAction::SendInit]);
    // b receives a's init, finishes and sends its own init.
    let (sb, acts_b) = deliver(&b, sb, &a, acts_a[0]);
    assert_eq!(acts_b, vec![HandshakeAction::SendInit]);
    assert!(matches!(sb, HandshakeState::Done(Ok((Pid(11), Sid(STREAM_ID_OFFSET2), 111)))));
    let (sa, acts_a) = deliver(&a, sa, &b, acts_b[0]);
    assert!(acts_a.is_empty());
    assert!(matches!(sa, HandshakeState::Done(Ok((Pid(22), Sid(STREAM_ID_OFFSET1), 222)))));
}

#[test]
fn wrong_magic_and_version_are_rejected() {
    let h = Handshake::new(1, Pid(1), 5, false);
    let (s, _) = h.start();
    let bad = Frame::Handshake { magic_number: *b"VELOREX", version: VELOREN_NETWORK_VERSION };
    let (s2, acts) = h.step(s, Received::Frame(bad));
    assert!(matches!(s2, HandshakeState::Done(Err(()))));
    assert_eq!(acts, vec![HandshakeAction::RejectWrongMagic, HandshakeAction::StopReading]);

    let old = Frame::Handshake { magic_number: VELOREN_MAGIC_NUMBER, version: [0, 4, 0] };
    let (s3, acts) = h.step(HandshakeState::AwaitingHandshake, Received::Frame(old));
    assert!(matches!(s3, HandshakeState::Done(Err(()))));
    assert_eq!(acts, vec![HandshakeAction::RejectWrongVersion([0, 4, 0]), HandshakeAction::StopReading]);
}

#[test]
fn unexpected_events_fail_and_done_is_final() {
    let h = Handshake::new(1, Pid(1), 5, true);
    let (s, acts) = h.step(HandshakeState::AwaitingHandshake, Received::Frame(Frame::Shutdown));
    assert!(matches!(s, HandshakeState::Done(Err(()))));
    assert_eq!(acts, vec![HandshakeAction::StopReading]);
    let (s, _) = h.step(HandshakeState::AwaitingInit, Received::Interrupted);
    assert!(matches!(s, HandshakeState::Done(Err(()))));
    let (s, acts) = h.step(HandshakeState::Done(Err(())), Received::Closed);
    assert!(matches!(s, HandshakeState::Done(Err(()))));
    assert!(acts.is_empty());
}

#[test]
fn frames_of_sends() {
    let h = Handshake::new(3, Pid(7), 9, true);
    assert!(matches!(
        h.frame_for(HandshakeAction::SendHandshake),
        Some(Frame::Handshake { magic_number, version }) if magic_number == *b"VELOREN" && version == [0, 5, 0]
    ));
    assert!(matches!(h.frame_for(HandshakeAction::SendInit), Some(Frame::Init { pid: Pid(7), secret: 9 })));
    assert!(h.frame_for(HandshakeAction::StopReading).is_none());
}
