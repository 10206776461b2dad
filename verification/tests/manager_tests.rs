use peerwire::BasicMessage;
use peerwire::FlushStatus;
use peerwire::FlushVerdict;
use peerwire::IPeerManagerMessage;
use peerwire::InfoHash;
use peerwire::INFO_HASH_LEN;
use peerwire::ManagerAction;
use peerwire::OPeerManagerMessage;
use peerwire::PeerAddr;
use peerwire::PeerId;
use peerwire::PEER_ID_LEN;
use peerwire::PeerInfo;
use peerwire::PeerManager;
use peerwire::PeerManagerBuilder;
use peerwire::PeerManagerError;
use peerwire::PeerManagerErrorKind;
use peerwire::PollResult;
use peerwire::SessionCommand;
use peerwire::SinkResult;

/// The connection handle as a runtime would represent it; the
/// supervisor only carries it through.
#[derive(Clone, Copy, PartialEq, Eq, Debug)]
struct Conn(u32);

type Cmd = IPeerManagerMessage<Conn, BasicMessage>;

fn info(n: u8) -> PeerInfo {
    PeerInfo::new(
        PeerAddr::new(0x7f00_0001, 6881 + n as u16),
        PeerId::new([n; PEER_ID_LEN]),
        InfoHash::new([55u8; INFO_HASH_LEN]),
    )
}

fn manager(capacity: usize) -> PeerManager {
    let builder = PeerManagerBuilder::new().with_peer_capacity(capacity);
    PeerManager::from_builder(builder)
}

#[test]
fn admission_spawns_a_session() {
    let mut m = manager(4);
    let r = m.start_send(Cmd::AddPeer(info(1), Conn(1)));
    assert_eq!(r, Ok(SinkResult::Ready(ManagerAction::Spawn(info(1), Conn(1)))));
    assert!(m.contains_peer(&info(1)));
}

#[test]
fn duplicate_admission_is_refused() {
    let mut m = manager(4);
    m.start_send(Cmd::AddPeer(info(1), Conn(1))).unwrap();
    let r = m.start_send(Cmd::AddPeer(info(1), Conn(2)));
    assert_eq!(
        r,
        Err(PeerManagerError { kind: PeerManagerErrorKind::PeerDuplicate { info: info(1) } })
    );
}

#[test]
fn commands_for_absent_peers_fail() {
    let mut m = manager(4);
    let r = m.start_send(Cmd::RemovePeer(info(9)));
    assert_eq!(
        r,
        Err(PeerManagerError { kind: PeerManagerErrorKind::PeerNotFound { info: info(9) } })
    );
    let r = m.start_send(Cmd::SendMessage(info(9), 3, BasicMessage::KeepAlive));
    assert_eq!(
        r,
        Err(PeerManagerError { kind: PeerManagerErrorKind::PeerNotFound { info: info(9) } })
    );
}

#[test]
fn commands_for_managed_peers_are_forwarded() {
    let mut m = manager(4);
    m.start_send(Cmd::AddPeer(info(1), Conn(1))).unwrap();
    let r = m.start_send(Cmd::SendMessage(info(1), 7, BasicMessage::KeepAlive));
    assert_eq!(
        r,
        Ok(SinkResult::Ready(ManagerAction::Forward(info(1), SessionCommand::Send(
            7,
            BasicMessage::KeepAlive,
        ))))
    );
    let r = m.start_send(Cmd::RemovePeer(info(1)));
    assert_eq!(r, Ok(SinkResult::Ready(ManagerAction::Forward(info(1), SessionCommand::Remove))));
}

#[test]
fn capacity_backpressure_and_retry() {
    // Capacity 2: two admissions succeed, the third is not ready, and
    // after one peer is removed a retried admission succeeds.
    let mut m = manager(2);
    assert!(matches!(m.start_send(Cmd::AddPeer(info(1), Conn(1))), Ok(SinkResult::Ready(_))));
    assert!(matches!(m.start_send(Cmd::AddPeer(info(2), Conn(2))), Ok(SinkResult::Ready(_))));

    let r = m.start_send(Cmd::AddPeer(info(3), Conn(3)));
    assert_eq!(r, Ok(SinkResult::NotReady(Cmd::AddPeer(info(3), Conn(3)))));

    let r = m.poll(OPeerManagerMessage::<BasicMessage>::PeerRemoved(info(1)));
    assert_eq!(
        r,
        PollResult::Event { event: OPeerManagerMessage::PeerRemoved(info(1)), wake: true }
    );

    let r = m.start_send(Cmd::AddPeer(info(3), Conn(3)));
    assert_eq!(r, Ok(SinkResult::Ready(ManagerAction::Spawn(info(3), Conn(3)))));
}

#[test]
fn terminal_events_remove_exactly_once() {
    let mut m = manager(4);
    m.start_send(Cmd::AddPeer(info(1), Conn(1))).unwrap();
    m.start_send(Cmd::AddPeer(info(2), Conn(2))).unwrap();

    let r = m.poll(OPeerManagerMessage::<BasicMessage>::PeerDisconnect(info(2)));
    assert_eq!(
        r,
        PollResult::Event { event: OPeerManagerMessage::PeerDisconnect(info(2)), wake: false }
    );
    assert!(!m.contains_peer(&info(2)));
    assert!(m.contains_peer(&info(1)));

    // A second removal signal for the same identity is the fatal
    // map/stream disagreement, not a tolerated no-op.
    let r = m.poll(OPeerManagerMessage::<BasicMessage>::PeerDisconnect(info(2)));
    assert_eq!(r, PollResult::Fatal(info(2)));
}

#[test]
fn non_terminal_events_pass_through() {
    let mut m = manager(4);
    m.start_send(Cmd::AddPeer(info(1), Conn(1))).unwrap();
    let r = m.poll(OPeerManagerMessage::<BasicMessage>::SentMessage(info(1), 42));
    assert_eq!(
        r,
        PollResult::Event { event: OPeerManagerMessage::SentMessage(info(1), 42), wake: false }
    );
    assert!(m.contains_peer(&info(1)));
}

#[test]
fn flush_verdicts() {
    let mut m = manager(4);
    m.start_send(Cmd::AddPeer(info(1), Conn(1))).unwrap();
    m.start_send(Cmd::AddPeer(info(2), Conn(2))).unwrap();

    let all = vec![FlushStatus::Ready, FlushStatus::Ready];
    assert_eq!(m.poll_complete(&all), FlushVerdict::AllReady);

    let busy = vec![FlushStatus::Ready, FlushStatus::NotReady];
    assert_eq!(m.poll_complete(&busy), FlushVerdict::Pending);

    // A failed channel means a session died without reporting through
    // the event path: fatal wherever it sits, even behind a channel
    // that is merely busy.
    let broken = vec![FlushStatus::Failed, FlushStatus::Ready];
    assert_eq!(m.poll_complete(&broken), FlushVerdict::Fatal);
    let hidden = vec![FlushStatus::NotReady, FlushStatus::Failed];
    assert_eq!(m.poll_complete(&hidden), FlushVerdict::Fatal);
}

#[test]
fn timer_sizing_is_derived_from_the_configuration() {
    let builder = PeerManagerBuilder::new()
        .with_peer_capacity(100)
        .with_heartbeat_interval(60_000)
        .with_heartbeat_timeout(120_000);
    let m = PeerManager::from_builder(builder);
    // Two timers per peer is 200; the next power of two is 256.
    assert_eq!(m.timer.channel_capacity, 256);
    assert_eq!(m.timer.max_capacity, 257);
    assert_eq!(m.timer.num_slots, 2048);
    // 120 whole seconds spread over 2048 slots, plus one: 59 ms.
    assert_eq!(m.timer.tick_ms, 59);

    // A capacity whose doubling is already a power of two is kept.
    let m = PeerManager::from_builder(PeerManagerBuilder::new().with_peer_capacity(64));
    assert_eq!(m.timer.channel_capacity, 128);
}
