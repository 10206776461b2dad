use peerwire::BasicMessage;
use peerwire::InfoHash;
use peerwire::INFO_HASH_LEN;
use peerwire::OPeerManagerMessage;
use peerwire::PeerAddr;
use peerwire::PeerId;
use peerwire::PEER_ID_LEN;
use peerwire::PeerInfo;
use peerwire::PeerSession;
use peerwire::SessionAction;
use peerwire::SessionCommand;
use peerwire::SessionEvent;
use peerwire::TransportError;

type Act = SessionAction<BasicMessage>;
type Ev = SessionEvent<BasicMessage>;

fn info() -> PeerInfo {
    PeerInfo::new(PeerAddr::new(0x7f00_0001, 6881), PeerId::new([4u8; PEER_ID_LEN]), InfoHash::new([55u8; INFO_HASH_LEN]))
}

fn data(byte: u8) -> BasicMessage {
    BasicMessage::Data(vec![byte])
}

#[test]
fn a_new_session_announces_its_peer() {
    let (s, acts) = PeerSession::new::<BasicMessage>(info());
    assert!(s.live);
    assert_eq!(acts, vec![Act::Emit(OPeerManagerMessage::PeerAdded(info()))]);
}

#[test]
fn sends_are_written_and_acknowledged_in_order() {
    let (mut s, _) = PeerSession::new::<BasicMessage>(info());
    // Each send command yields one tagged write; the acknowledgment
    // comes only from the transport's acceptance report, echoing the
    // id, in submission order.
    let acts = s.step(Ev::Command(SessionCommand::Send(7, data(1))));
    assert_eq!(acts, vec![Act::Write(7, data(1))]);
    let acts = s.step(Ev::Command(SessionCommand::Send(8, data(2))));
    assert_eq!(acts, vec![Act::Write(8, data(2))]);
    let acts = s.step(Ev::Sent(7));
    assert_eq!(acts, vec![Act::Emit(OPeerManagerMessage::SentMessage(info(), 7))]);
    let acts = s.step(Ev::Sent(8));
    assert_eq!(acts, vec![Act::Emit(OPeerManagerMessage::SentMessage(info(), 8))]);
    assert!(s.live);
}

#[test]
fn rejected_writes_are_never_acknowledged() {
    let (mut s, _) = PeerSession::new::<BasicMessage>(info());
    let acts = s.step(Ev::Command(SessionCommand::Send(7, data(1))));
    assert_eq!(acts, vec![Act::Write(7, data(1))]);
    // The transport rejects the write: the terminal error is emitted
    // and no SentMessage acknowledgment ever follows.
    let error = TransportError { message: String::from("broken pipe") };
    let acts = s.step(Ev::TransportFailed(error.clone()));
    assert_eq!(
        acts,
        vec![Act::Close, Act::Emit(OPeerManagerMessage::PeerError(info(), error))]
    );
    assert!(!s.live);
    assert_eq!(s.step(Ev::Sent(7)), Vec::<Act>::new());
}

#[test]
fn inbound_messages_are_forwarded_upward() {
    let (mut s, _) = PeerSession::new::<BasicMessage>(info());
    let acts = s.step(Ev::Inbound(data(9)));
    assert_eq!(acts, vec![Act::Emit(OPeerManagerMessage::ReceivedMessage(info(), data(9)))]);
}

#[test]
fn keep_alives_are_consumed_and_reset_the_timeout() {
    let (mut s, _) = PeerSession::new::<BasicMessage>(info());
    let acts = s.step(Ev::Inbound(BasicMessage::KeepAlive));
    // Never surfaced as ReceivedMessage.
    assert_eq!(acts, Vec::<Act>::new());
    // The inactivity window was reset, so the next timeout tick does
    // not disconnect.
    let acts = s.step(Ev::TimeoutTick);
    assert_eq!(acts, Vec::<Act>::new());
    assert!(s.live);
}

#[test]
fn quiet_sessions_time_out_exactly_once() {
    let (mut s, _) = PeerSession::new::<BasicMessage>(info());
    let acts = s.step(Ev::TimeoutTick);
    assert_eq!(
        acts,
        vec![Act::Close, Act::Emit(OPeerManagerMessage::PeerDisconnect(info()))]
    );
    assert!(!s.live);
    // The session is terminal: nothing further is emitted or written.
    assert_eq!(s.step(Ev::TimeoutTick), Vec::<Act>::new());
    assert_eq!(s.step(Ev::Command(SessionCommand::Send(1, data(1)))), Vec::<Act>::new());
    assert_eq!(s.step(Ev::HeartbeatTick), Vec::<Act>::new());
}

#[test]
fn heartbeats_fill_quiet_send_windows() {
    let (mut s, _) = PeerSession::new::<BasicMessage>(info());
    // Nothing was sent since the last tick: synthesize a keep-alive.
    assert_eq!(s.step(Ev::HeartbeatTick), vec![Act::WriteKeepAlive]);
    // Outbound traffic suppresses the next heartbeat once.
    s.step(Ev::Command(SessionCommand::Send(1, data(1))));
    assert_eq!(s.step(Ev::HeartbeatTick), Vec::<Act>::new());
    assert_eq!(s.step(Ev::HeartbeatTick), vec![Act::WriteKeepAlive]);
}

#[test]
fn removal_tears_down_with_peer_removed() {
    let (mut s, _) = PeerSession::new::<BasicMessage>(info());
    let acts = s.step(Ev::Command(SessionCommand::Remove));
    assert_eq!(acts, vec![Act::Close, Act::Emit(OPeerManagerMessage::PeerRemoved(info()))]);
    assert!(!s.live);
}

#[test]
fn transport_failures_surface_peer_error() {
    let (mut s, _) = PeerSession::new::<BasicMessage>(info());
    let error = TransportError { message: String::from("connection reset") };
    let acts = s.step(Ev::TransportFailed(error.clone()));
    assert_eq!(
        acts,
        vec![Act::Close, Act::Emit(OPeerManagerMessage::PeerError(info(), error))]
    );
    assert!(!s.live);
    // Terminal: a later timeout tick emits nothing more.
    assert_eq!(s.step(Ev::TimeoutTick), Vec::<Act>::new());
}
