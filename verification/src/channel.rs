use vstd::prelude::*;

verus! {

/// Identifies a participant (one end of a connection).
#[derive(Clone, Copy, Debug, PartialEq, Eq, Structural)]
pub struct Pid(pub u128);

/// Identifies a stream; each side numbers its streams from its own offset.
#[derive(Clone, Copy, Debug, PartialEq, Eq, Structural)]
pub struct Sid(pub u64);

/// Identifies a channel.
pub type Cid = u64;

/// The bytes `VELOREN` that every handshake frame must start with.
pub const VELOREN_MAGIC_NUMBER: [u8; 7] = [86u8, 69u8, 76u8, 79u8, 82u8, 69u8, 78u8];

/// The protocol version spoken by this implementation.
pub const VELOREN_NETWORK_VERSION: [u32; 3] = [0u32, 5u32, 0u32];

/// First stream id of the side that started the handshake.
pub const STREAM_ID_OFFSET1: u64 = 0u64;

/// First stream id of the side that answered the handshake.
pub const STREAM_ID_OFFSET2: u64 = 9223372036854775807u64;

/// A frame on the wire.
#[derive(Clone, Debug)]
pub enum Frame {
    Handshake { magic_number: [u8; 7], version: [u32; 3] },
    Init { pid: Pid, secret: u128 },
    Shutdown,
    OpenStream { sid: Sid, prio: u8, promises: u8 },
    CloseStream { sid: Sid },
    DataHeader { mid: u64, sid: Sid, length: u64 },
    Data { mid: u64, start: u64, data: Vec<u8> },
    Raw(Vec<u8>),
}

/// What the protocol reader delivered to the handshake.
#[derive(Clone, Debug)]
pub enum Received {
    /// A decoded frame.
    Frame(Frame),
    /// The protocol was interrupted while reading.
    Interrupted,
    /// The reader closed without delivering anything.
    Closed,
}

/// Something the handshake asks its driver to do.
#[derive(Clone, Copy, Debug, PartialEq, Eq)]
pub enum HandshakeAction {
    /// Send `Frame::Handshake` with our magic number and version.
    SendHandshake,
    /// Send `Frame::Init` with our pid and secret.
    SendInit,
    /// Tell the peer (in a raw frame) that its magic number is wrong, then
    /// send `Frame::Shutdown`.
    RejectWrongMagic,
    /// Tell the peer (in a raw frame) that its version is wrong, then send
    /// `Frame::Shutdown`.
    RejectWrongVersion([u32; 3]),
    /// Stop the protocol reader.
    StopReading,
}

/// Where a handshake stands.
#[derive(Clone, Copy, Debug)]
pub enum HandshakeState {
    /// Waiting for the peer's handshake frame.
    AwaitingHandshake,
    /// Handshake frames matched; waiting for the peer's init frame.
    AwaitingInit,
    /// Finished: the peer's pid, the first id of our streams, and the peer's
    /// secret; or failure.
    Done(Result<(Pid, Sid, u128), ()>),
}

/// The handshake of one channel: our identity, and whether we speak first.
#[derive(Clone, Copy, Debug)]
pub struct Handshake {
    pub cid: Cid,
    pub local_pid: Pid,
    pub secret: u128,
    pub init_handshake: bool,
}

/// The frame that `action` puts on the wire when taken by `h`, if any.
pub open spec fn frame_of(h: Handshake, action: HandshakeAction) -> Option<Frame> {
    match action {
        HandshakeAction::SendHandshake => Some(
            Frame::Handshake { magic_number: VELOREN_MAGIC_NUMBER, version: VELOREN_NETWORK_VERSION },
        ),
        HandshakeAction::SendInit => Some(Frame::Init { pid: h.local_pid, secret: h.secret }),
        _ => None,
    }
}

/// The actions with which `h` opens the exchange.
pub open spec fn start_spec(h: Handshake) -> Seq<HandshakeAction> {
    if h.init_handshake {
        seq![HandshakeAction::SendHandshake]
    } else {
        seq![]
    }
}

/// How `h` answers `event` in `state`: the next state and the actions to take.
pub open spec fn step_spec(h: Handshake, state: HandshakeState, event: Received) -> (
    HandshakeState,
    Seq<HandshakeAction>,
) {
    let fail = HandshakeState::Done(Err(()));
    match state {
        HandshakeState::AwaitingHandshake => match event {
            Received::Frame(Frame::Handshake { magic_number, version }) => {
                if magic_number@ != VELOREN_MAGIC_NUMBER@ {
                    (fail, seq![HandshakeAction::RejectWrongMagic, HandshakeAction::StopReading])
                } else if version@ != VELOREN_NETWORK_VERSION@ {
                    (
                        fail,
                        seq![HandshakeAction::RejectWrongVersion(version), HandshakeAction::StopReading],
                    )
                } else if h.init_handshake {
                    (HandshakeState::AwaitingInit, seq![HandshakeAction::SendInit])
                } else {
                    (HandshakeState::AwaitingInit, seq![HandshakeAction::SendHandshake])
                }
            },
            _ => (fail, seq![HandshakeAction::StopReading]),
        },
        HandshakeState::AwaitingInit => match event {
            Received::Frame(Frame::Init { pid, secret }) => {
                if h.init_handshake {
                    (HandshakeState::Done(Ok((pid, Sid(STREAM_ID_OFFSET1), secret))), seq![])
                } else {
                    (
                        HandshakeState::Done(Ok((pid, Sid(STREAM_ID_OFFSET2), secret))),
                        seq![HandshakeAction::SendInit],
                    )
                }
            },
            _ => (fail, seq![HandshakeAction::StopReading]),
        },
        HandshakeState::Done(r) => (HandshakeState::Done(r), seq![]),
    }
}

fn same_magic(a: &[u8; 7], b: &[u8; 7]) -> (r: bool)
    ensures
        r == (a@ == b@),
{
    let mut i: usize = 0;
    while i < 7
        invariant
            i <= 7,
            a@.len() == 7,
            b@.len() == 7,
            forall|j: int| 0 <= j < i ==> a@[j] == b@[j],
        decreases 7 - i,
    {
        if a[i] != b[i] {
            assert(a@[i as int] != b@[i as int]);
            return false;
        }
        i = i + 1;
    }
    assert(a@ =~= b@);
    true
}

fn same_version(a: &[u32; 3], b: &[u32; 3]) -> (r: bool)
    ensures
        r == (a@ == b@),
{
    let mut i: usize = 0;
    while i < 3
        invariant
            i <= 3,
            a@.len() == 3,
            b@.len() == 3,
            forall|j: int| 0 <= j < i ==> a@[j] == b@[j],
        decreases 3 - i,
    {
        if a[i] != b[i] {
            assert(a@[i as int] != b@[i as int]);
            return false;
        }
        i = i + 1;
    }
    assert(a@ =~= b@);
    true
}

/// Two connected handshakes, one that starts and one that answers, complete
/// each other: each ends with the other's pid and secret, the starting side
/// numbers its streams from `STREAM_ID_OFFSET1` and the answering side from
/// `STREAM_ID_OFFSET2`, and neither asks for anything further.
pub proof fn lemma_peers_complete(a: Handshake, b: Handshake)
    requires
        a.init_handshake,
        !b.init_handshake,
    ensures
        ({
            let a_open = start_spec(a);
            let b_open = start_spec(b);
            let b1 = step_spec(b, HandshakeState::AwaitingHandshake, Received::Frame(frame_of(a, a_open[0])->0));
            let a1 = step_spec(a, HandshakeState::AwaitingHandshake, Received::Frame(frame_of(b, b1.1[0])->0));
            let b2 = step_spec(b, b1.0, Received::Frame(frame_of(a, a1.1[0])->0));
            let a2 = step_spec(a, a1.0, Received::Frame(frame_of(b, b2.1[0])->0));
            &&& a_open.len() == 1 && b_open.len() == 0
            &&& b1.1.len() == 1 && a1.1.len() == 1 && b2.1.len() == 1 && a2.1.len() == 0
            &&& a2.0 == HandshakeState::Done(Ok((b.local_pid, Sid(STREAM_ID_OFFSET1), b.secret)))
            &&& b2.0 == HandshakeState::Done(Ok((a.local_pid, Sid(STREAM_ID_OFFSET2), a.secret)))
        }),
{
    let a_open = start_spec(a);
    assert(frame_of(a, a_open[0]) == Some(
        Frame::Handshake { magic_number: VELOREN_MAGIC_NUMBER, version: VELOREN_NETWORK_VERSION },
    ));
    let b1 = step_spec(b, HandshakeState::AwaitingHandshake, Received::Frame(frame_of(a, a_open[0])->0));
    assert(b1.1[0] == HandshakeAction::SendHandshake);
    let a1 = step_spec(a, HandshakeState::AwaitingHandshake, Received::Frame(frame_of(b, b1.1[0])->0));
    assert(a1.1[0] == HandshakeAction::SendInit);
    let b2 = step_spec(b, b1.0, Received::Frame(frame_of(a, a1.1[0])->0));
    assert(b2.1[0] == HandshakeAction::SendInit);
}

/// Whenever a handshake that is still running fails, it stops the reader.
pub proof fn lemma_failure_stops_reading(h: Handshake, state: HandshakeState, event: Received)
    requires
        !(state is Done),
        step_spec(h, state, event).0 == HandshakeState::Done(Err(())),
    ensures
        step_spec(h, state, event).1.contains(HandshakeAction::StopReading),
{
    let r = step_spec(h, state, event);
    assert(r.1[r.1.len() - 1] == HandshakeAction::StopReading);
}

/// A finished handshake stays finished and asks for nothing more.
pub proof fn lemma_done_is_final(h: Handshake, result: Result<(Pid, Sid, u128), ()>, event: Received)
    ensures
        step_spec(h, HandshakeState::Done(result), event).0 == HandshakeState::Done(result),
        step_spec(h, HandshakeState::Done(result), event).1.len() == 0,
{
}

/// A handshake succeeds only after it has accepted the peer's handshake
/// frame: from the first state, no event leads straight to success.
pub proof fn lemma_no_success_without_handshake(h: Handshake, event: Received)
    ensures
        !(step_spec(h, HandshakeState::AwaitingHandshake, event).0 matches HandshakeState::Done(Ok(_))),
{
}

/// A peer is accepted only when it speaks our network version exactly:
/// from the first state, a handshake frame with our magic number leads on
/// (to waiting for the init frame) exactly when each of its three version
/// numbers equals ours; any other version ends the handshake in failure,
/// telling the peer the version it sent and stopping the reader.
pub proof fn lemma_version_must_match(h: Handshake, magic_number: [u8; 7], version: [u32; 3])
    requires
        magic_number@ == VELOREN_MAGIC_NUMBER@,
    ensures
        ({
            let r = step_spec(
                h,
                HandshakeState::AwaitingHandshake,
                Received::Frame(Frame::Handshake { magic_number, version }),
            );
            let same = version@[0] == VELOREN_NETWORK_VERSION@[0] && version@[1] == VELOREN_NETWORK_VERSION@[1]
                && version@[2] == VELOREN_NETWORK_VERSION@[2];
            &&& (r.0 is AwaitingInit) <==> same
            &&& !same ==> r.0 == HandshakeState::Done(Err(())) && r.1 == seq![
                HandshakeAction::RejectWrongVersion(version),
                HandshakeAction::StopReading,
            ]
        }),
{
    if version@[0] == VELOREN_NETWORK_VERSION@[0] && version@[1] == VELOREN_NETWORK_VERSION@[1] && version@[2]
        == VELOREN_NETWORK_VERSION@[2] {
        assert(version@ =~= VELOREN_NETWORK_VERSION@);
    }
}

/// A handshake frame whose magic number is not ours is refused, whatever
/// version it carries.
pub proof fn lemma_magic_must_match(h: Handshake, magic_number: [u8; 7], version: [u32; 3])
    requires
        magic_number@ != VELOREN_MAGIC_NUMBER@,
    ensures
        step_spec(h, HandshakeState::AwaitingHandshake, Received::Frame(Frame::Handshake { magic_number, version }))
            == (HandshakeState::Done(Err(())), seq![HandshakeAction::RejectWrongMagic, HandshakeAction::StopReading]),
{
}

impl Handshake {
    /// The handshake of channel `cid` for participant `local_pid`, which
    /// speaks first when `init_handshake` is set.
    pub fn new(cid: u64, local_pid: Pid, secret: u128, init_handshake: bool) -> (h: Handshake)
        ensures
            h == (Handshake { cid, local_pid, secret, init_handshake }),
    {
        Handshake { cid, local_pid, secret, init_handshake }
    }

    /// The frame that `action` puts on the wire, if it is a plain send.
    pub fn frame_for(&self, action: HandshakeAction) -> (f: Option<Frame>)
        ensures
            f == frame_of(*self, action),
    {
        match action {
            HandshakeAction::SendHandshake => Some(
                Frame::Handshake {
                    magic_number: VELOREN_MAGIC_NUMBER,
                    version: VELOREN_NETWORK_VERSION,
                },
            ),
            HandshakeAction::SendInit => Some(Frame::Init { pid: self.local_pid, secret: self.secret }),
            _ => None,
        }
    }

    /// Opens the exchange: the side that starts sends its handshake frame
    /// first; the other side waits.
    pub fn start(&self) -> (r: (HandshakeState, Vec<HandshakeAction>))
        ensures
            r.0 is AwaitingHandshake,
            r.1@ == start_spec(*self),
    {
        let mut actions: Vec<HandshakeAction> = Vec::new();
        if self.init_handshake {
            actions.push(HandshakeAction::SendHandshake);
        }
        proof {
            if self.init_handshake {
                assert(actions@ =~= seq![HandshakeAction::SendHandshake]);
            } else {
                assert(actions@ =~= Seq::<HandshakeAction>::empty());
            }
        }
        (HandshakeState::AwaitingHandshake, actions)
    }

    /// Answers what the reader delivered: checks the peer's magic number
    /// and version, then takes its pid and secret from its init frame.
    /// Anything unexpected fails the handshake and stops the reader.
    pub fn step(&self, state: HandshakeState, event: Received) -> (r: (HandshakeState, Vec<HandshakeAction>))
        ensures
            r.0 == step_spec(*self, state, event).0,
            r.1@ == step_spec(*self, state, event).1,
    {
        let fail = HandshakeState::Done(Err(()));
        match state {
            HandshakeState::AwaitingHandshake => match event {
                Received::Frame(Frame::Handshake { magic_number, version }) => {
                    if !same_magic(&magic_number, &VELOREN_MAGIC_NUMBER) {
                        let v = vec![HandshakeAction::RejectWrongMagic, HandshakeAction::StopReading];
                        assert(v@ =~= seq![HandshakeAction::RejectWrongMagic, HandshakeAction::StopReading]);
                        (fail, v)
                    } else if !same_version(&version, &VELOREN_NETWORK_VERSION) {
                        let v = vec![HandshakeAction::RejectWrongVersion(version), HandshakeAction::StopReading];
                        assert(v@ =~= seq![HandshakeAction::RejectWrongVersion(version), HandshakeAction::StopReading]);
                        (fail, v)
                    } else if self.init_handshake {
                        let v = vec![HandshakeAction::SendInit];
                        assert(v@ =~= seq![HandshakeAction::SendInit]);
                        (HandshakeState::AwaitingInit, v)
                    } else {
                        let v = vec![HandshakeAction::SendHandshake];
                        assert(v@ =~= seq![HandshakeAction::SendHandshake]);
                        (HandshakeState::AwaitingInit, v)
                    }
                },
                _ => {
                    let v = vec![HandshakeAction::StopReading];
                    assert(v@ =~= seq![HandshakeAction::StopReading]);
                    (fail, v)
                },
            },
            HandshakeState::AwaitingInit => match event {
                Received::Frame(Frame::Init { pid, secret }) => {
                    if self.init_handshake {
                        let v: Vec<HandshakeAction> = Vec::new();
                        assert(v@ =~= Seq::<HandshakeAction>::empty());
                        (HandshakeState::Done(Ok((pid, Sid(STREAM_ID_OFFSET1), secret))), v)
                    } else {
                        let v = vec![HandshakeAction::SendInit];
                        assert(v@ =~= seq![HandshakeAction::SendInit]);
                        (HandshakeState::Done(Ok((pid, Sid(STREAM_ID_OFFSET2), secret))), v)
                    }
                },
                _ => {
                    let v = vec![HandshakeAction::StopReading];
                    assert(v@ =~= seq![HandshakeAction::StopReading]);
                    (fail, v)
                },
            },
            HandshakeState::Done(r) => {
                let v: Vec<HandshakeAction> = Vec::new();
                assert(v@ =~= Seq::<HandshakeAction>::empty());
                (HandshakeState::Done(r), v)
            },
        }
    }
}

} // verus!
