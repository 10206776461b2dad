//! The peer session supervisor: owns the capacity-bounded session map,
//! decides admission with backpressure, routes removal and send
//! commands to the owning session's private channel, and demultiplexes
//! the shared egress stream, removing a session from the map exactly
//! once when its terminal event comes back.
//!
//! The supervisor is a state machine over plain values.  Spawning a
//! session task, delivering on a channel, polling a channel and waking
//! a parked caller are effects; the supervisor returns them as explicit
//! outcomes and the surrounding event loop performs them.

use vstd::prelude::*;

use crate::builder::timer_config;
use crate::builder::PeerManagerBuilder;
use crate::builder::TimerConfig;
use crate::error::PeerManagerError;
use crate::error::PeerManagerErrorKind;
use crate::message::IPeerManagerMessage;
use crate::message::ManagedMessage;
use crate::message::OPeerManagerMessage;
use crate::peer::PeerInfo;
use crate::seqs::distinct_seq;
use crate::seqs::lemma_distinct_push;
use crate::seqs::lemma_distinct_remove_at;
use crate::session::lemma_timeout_disconnects;
use crate::session::spec_step;
use crate::session::terminal_count;
use crate::session::PeerSession;
use crate::session::SessionAction;
use crate::session::SessionCommand;
use crate::session::SessionEvent;

verus! {

/// The effect a successfully accepted command asks of the surrounding
/// runtime.
#[derive(PartialEq, Eq, Debug)]
pub enum ManagerAction<C, M> {
    /// Start a session task owning this connection under this identity.
    Spawn(PeerInfo, C),
    /// Deliver this command on that session's private FIFO channel.
    Forward(PeerInfo, SessionCommand<M>),
}

/// Outcome of handing one command to the supervisor.
#[derive(PartialEq, Eq, Debug)]
pub enum SinkResult<C, M> {
    /// The command was accepted; perform the action.
    Ready(ManagerAction<C, M>),
    /// The supervisor is at capacity: the command comes back unchanged,
    /// to be retried after the next wake signal.
    NotReady(IPeerManagerMessage<C, M>),
}

/// Outcome of demultiplexing one event from the shared egress stream.
#[derive(PartialEq, Eq, Debug)]
pub enum PollResult<M> {
    /// Surface the event to the consumer.  `wake` reports that a
    /// capacity slot was freed while an admission attempt was parked:
    /// the parked caller must be woken to retry.
    Event { event: OPeerManagerMessage<M>, wake: bool },
    /// A removal signal arrived for an identity absent from the map:
    /// the map and the event stream disagree, which is a broken
    /// contract between supervisor and session task.  The caller must
    /// abort the process, not continue.
    Fatal(PeerInfo),
}

/// What polling one session's private channel reported at flush time.
#[derive(Clone, Copy, PartialEq, Eq, Structural, Debug)]
pub enum FlushStatus {
    /// The channel accepted everything queued so far.
    Ready,
    /// The channel still holds queued items.
    NotReady,
    /// The channel failed: its session task died without reporting
    /// through the event path.
    Failed,
}

/// Overall outcome of a flush across every live session.
#[derive(Clone, Copy, PartialEq, Eq, Structural, Debug)]
pub enum FlushVerdict {
    /// Every session's channel is drained.
    AllReady,
    /// Some channel is still busy; flush again later.
    Pending,
    /// A live session's channel failed: an internal-invariant
    /// violation.  The caller must abort the process, not continue.
    Fatal,
}

/// The flush outcome over the per-session reports.  A failed channel
/// anywhere is fatal, however many merely busy channels sit around it:
/// it means the map references a dead session, and a busy sibling must
/// never hide that.  With no failure, a busy channel anywhere leaves
/// the flush pending; otherwise everything is drained.
pub open spec fn spec_flush(outcomes: Seq<FlushStatus>) -> FlushVerdict {
    if outcomes.contains(FlushStatus::Failed) {
        FlushVerdict::Fatal
    } else if outcomes.contains(FlushStatus::NotReady) {
        FlushVerdict::Pending
    } else {
        FlushVerdict::AllReady
    }
}

/// The identity a terminal egress event asks to remove from the map,
/// if the event is terminal.
pub open spec fn removal_key<M>(event: OPeerManagerMessage<M>) -> Option<PeerInfo> {
    match event {
        OPeerManagerMessage::PeerRemoved(info) => Option::Some(info),
        OPeerManagerMessage::PeerDisconnect(info) => Option::Some(info),
        OPeerManagerMessage::PeerError(info, _) => Option::Some(info),
        _ => Option::None,
    }
}

/// Supervises a set of admitted peer sessions under a hard capacity
/// bound with heartbeating.
///
/// The session map is modeled by the distinct sequence of managed
/// identities; the sessions themselves (channels, connections, tasks)
/// live with the surrounding runtime, which keys them by the same
/// `PeerInfo`.
pub struct PeerManager {
    /// The configuration this supervisor was built from.
    pub build: PeerManagerBuilder,
    /// Sizing of the shared timer, derived from the configuration.
    pub timer: TimerConfig,
    /// The identities of the live sessions: the keys of the session
    /// map, each present at most once.
    pub peers: Vec<PeerInfo>,
    /// Whether an admission attempt is parked waiting for a capacity
    /// slot.  At most one waiting context is retained: a second
    /// attempt while one is parked overwrites the earlier one.
    pub parked: bool,
}

impl PeerManager {
    /// The session map never holds two entries with equal `PeerInfo`,
    /// and never exceeds the configured capacity.
    pub open spec fn wf(&self) -> bool {
        &&& distinct_seq(self.peers@)
        &&& self.peers@.len() <= self.build.peer_capacity
    }

    /// Builds a supervisor from its configuration: an empty session
    /// map, no parked admission, and the shared timer sized for two
    /// entries per admissible peer.
    pub fn from_builder(builder: PeerManagerBuilder) -> (r: PeerManager)
        requires
            1 <= builder.peer_capacity <= usize::MAX / 4,
        ensures
            r.wf(),
            r.build == builder,
            r.peers@ == Seq::<PeerInfo>::empty(),
            !r.parked,
            crate::builder::is_pow2(r.timer.channel_capacity as nat),
            r.timer.channel_capacity >= 2 * builder.peer_capacity,
            (r.timer.channel_capacity as nat) < 4 * builder.peer_capacity,
            r.timer.max_capacity == r.timer.channel_capacity + 1,
            r.timer.num_slots == crate::builder::DEFAULT_TIMER_SLOTS,
            r.timer.tick_ms == crate::builder::spec_tick_ms(
                builder.heartbeat_interval_ms,
                builder.heartbeat_timeout_ms,
            ),
    {
        let timer = timer_config(&builder);
        let r = PeerManager { build: builder, timer, peers: Vec::new(), parked: false };
        proof {
            assert(r.peers@ =~= Seq::<PeerInfo>::empty());
        }
        r
    }

    /// Index of the given identity in the session map, if present; the
    /// first occurrence, with nothing equal before it.
    fn position_of(&self, info: &PeerInfo) -> (r: Option<usize>)
        ensures
            match r {
                Option::Some(i) => {
                    &&& i < self.peers@.len()
                    &&& self.peers@[i as int] == *info
                    &&& forall|j: int| 0 <= j < i ==> self.peers@[j] != *info
                },
                Option::None => !self.peers@.contains(*info),
            },
    {
        let n = self.peers.len();
        let mut i: usize = 0;
        while i < n
            invariant
                n == self.peers@.len(),
                i <= n,
                forall|j: int| 0 <= j < i ==> self.peers@[j] != *info,
            decreases n - i,
        {
            if self.peers[i].equals(info) {
                return Option::Some(i);
            }
            i = i + 1;
        }
        Option::None
    }

    /// Whether the given identity is currently managed.
    pub fn contains_peer(&self, info: &PeerInfo) -> (r: bool)
        ensures
            r == self.peers@.contains(*info),
    {
        match self.position_of(info) {
            Option::Some(i) => {
                proof {
                    assert(self.peers@[i as int] == *info);
                }
                true
            },
            Option::None => false,
        }
    }

    /// Accepts one command.
    ///
    /// An admission at capacity is not an error: the command is handed
    /// back `NotReady` and the calling context is recorded as parked,
    /// to be woken when a slot frees.  An admission for an identity
    /// already managed fails with the duplicate error; an admission for
    /// an absent identity under capacity inserts it and asks the
    /// runtime to spawn its session.  Removal and send commands for a
    /// managed identity are forwarded to that session's private
    /// channel, and fail with `PeerNotFound` for an absent one.
    pub fn start_send<C, M>(&mut self, item: IPeerManagerMessage<C, M>) -> (r: Result<
        SinkResult<C, M>,
        PeerManagerError,
    >)
        requires
            old(self).wf(),
        ensures
            final(self).wf(),
            final(self).build == old(self).build,
            final(self).timer == old(self).timer,
            (match item {
                IPeerManagerMessage::AddPeer(info, c) => {
                    &&& final(self).peers@ == spec_admit(
                        old(self).peers@,
                        old(self).build.peer_capacity as nat,
                        info,
                    )
                    &&& if old(self).peers@.len() >= old(self).build.peer_capacity {
                        &&& r matches Ok(k) && k == SinkResult::NotReady(
                            IPeerManagerMessage::<C, M>::AddPeer(info, c),
                        )
                        &&& final(self).peers@ == old(self).peers@
                        &&& final(self).parked
                    } else if old(self).peers@.contains(info) {
                        &&& r matches Err(e) && e == (PeerManagerError {
                            kind: PeerManagerErrorKind::PeerDuplicate { info },
                        })
                        &&& final(self).peers@ == old(self).peers@
                        &&& final(self).parked == old(self).parked
                    } else {
                        &&& r matches Ok(k) && k == SinkResult::Ready(
                            ManagerAction::<C, M>::Spawn(info, c),
                        )
                        &&& final(self).peers@ == old(self).peers@.push(info)
                        &&& final(self).parked == old(self).parked
                    }
                },
                IPeerManagerMessage::RemovePeer(info) => {
                    &&& final(self).peers@ == old(self).peers@
                    &&& final(self).parked == old(self).parked
                    &&& if old(self).peers@.contains(info) {
                        r matches Ok(k) && k == SinkResult::Ready(
                            ManagerAction::<C, M>::Forward(info, SessionCommand::Remove),
                        )
                    } else {
                        r matches Err(e) && e == (PeerManagerError {
                            kind: PeerManagerErrorKind::PeerNotFound { info },
                        })
                    }
                },
                IPeerManagerMessage::SendMessage(info, id, m) => {
                    &&& final(self).peers@ == old(self).peers@
                    &&& final(self).parked == old(self).parked
                    &&& if old(self).peers@.contains(info) {
                        r matches Ok(k) && k == SinkResult::Ready(
                            ManagerAction::<C, M>::Forward(info, SessionCommand::Send(id, m)),
                        )
                    } else {
                        r matches Err(e) && e == (PeerManagerError {
                            kind: PeerManagerErrorKind::PeerNotFound { info },
                        })
                    }
                },
            }),
    {
        match item {
            IPeerManagerMessage::AddPeer(info, peer) => {
                if self.peers.len() >= self.build.peer_capacity {
                    self.parked = true;
                    return Ok(SinkResult::NotReady(IPeerManagerMessage::AddPeer(info, peer)));
                }
                if self.contains_peer(&info) {
                    return Err(PeerManagerError::from_kind(PeerManagerErrorKind::PeerDuplicate {
                        info,
                    }));
                }
                let ghost pre = self.peers@;
                self.peers.push(info);
                proof {
                    lemma_distinct_push(pre, info);
                }
                Ok(SinkResult::Ready(ManagerAction::Spawn(info, peer)))
            },
            IPeerManagerMessage::RemovePeer(info) => {
                if self.contains_peer(&info) {
                    Ok(SinkResult::Ready(ManagerAction::Forward(info, SessionCommand::Remove)))
                } else {
                    Err(PeerManagerError::from_kind(PeerManagerErrorKind::PeerNotFound { info }))
                }
            },
            IPeerManagerMessage::SendMessage(info, id, message) => {
                if self.contains_peer(&info) {
                    Ok(
                        SinkResult::Ready(
                            ManagerAction::Forward(info, SessionCommand::Send(id, message)),
                        ),
                    )
                } else {
                    Err(PeerManagerError::from_kind(PeerManagerErrorKind::PeerNotFound { info }))
                }
            },
        }
    }

    /// Demultiplexes one event read from the shared egress stream.
    ///
    /// A terminal event (`PeerRemoved`, `PeerDisconnect`, `PeerError`)
    /// for a managed identity removes it from the map, clears the
    /// parked marker, and reports whether a parked admission must be
    /// woken; the event itself passes through unmodified.  A terminal
    /// event for an absent identity is the fatal map/stream
    /// disagreement.  Every other event passes through untouched.
    pub fn poll<M>(&mut self, event: OPeerManagerMessage<M>) -> (r: PollResult<M>)
        requires
            old(self).wf(),
        ensures
            final(self).wf(),
            final(self).build == old(self).build,
            final(self).timer == old(self).timer,
            (match removal_key(event) {
                Option::Some(info) => {
                    if old(self).peers@.contains(info) {
                        &&& final(self).peers@ == old(self).peers@.remove_value(info)
                        &&& final(self).peers@.len() == old(self).peers@.len() - 1
                        &&& !final(self).peers@.contains(info)
                        &&& forall|x: PeerInfo|
                            x != info ==> (final(self).peers@.contains(x) == old(
                                self,
                            ).peers@.contains(x))
                        &&& !final(self).parked
                        &&& r == PollResult::Event { event, wake: old(self).parked }
                    } else {
                        &&& final(self).peers@ == old(self).peers@
                        &&& final(self).parked == old(self).parked
                        &&& r == PollResult::<M>::Fatal(info)
                    }
                },
                Option::None => {
                    &&& final(self).peers@ == old(self).peers@
                    &&& final(self).parked == old(self).parked
                    &&& r == PollResult::Event { event, wake: false }
                },
            }),
    {
        let opt_info = match &event {
            OPeerManagerMessage::PeerRemoved(info) => Option::Some(*info),
            OPeerManagerMessage::PeerDisconnect(info) => Option::Some(*info),
            OPeerManagerMessage::PeerError(info, _) => Option::Some(*info),
            _ => Option::None,
        };
        match opt_info {
            Option::Some(info) => {
                match self.position_of(&info) {
                    Option::Some(at) => {
                        let ghost pre = self.peers@;
                        self.peers.remove(at);
                        proof {
                            lemma_distinct_remove_at(pre, at as int, info);
                        }
                        let wake = self.parked;
                        self.parked = false;
                        PollResult::Event { event, wake }
                    },
                    Option::None => PollResult::Fatal(info),
                }
            },
            Option::None => PollResult::Event { event, wake: false },
        }
    }

    /// Resolves a flush across every live session from what polling
    /// each session's private channel reported, one report per managed
    /// peer.  A failed channel is fatal wherever it sits: the map would
    /// otherwise reference a dead session.
    pub fn poll_complete(&self, outcomes: &Vec<FlushStatus>) -> (r: FlushVerdict)
        requires
            outcomes@.len() == self.peers@.len(),
        ensures
            r == spec_flush(outcomes@),
    {
        let n = outcomes.len();
        let mut saw_not_ready = false;
        let mut i: usize = 0;
        while i < n
            invariant
                n == outcomes@.len(),
                i <= n,
                forall|j: int| 0 <= j < i ==> outcomes@[j] != FlushStatus::Failed,
                saw_not_ready == exists|j: int|
                    0 <= j < i && outcomes@[j] == FlushStatus::NotReady,
            decreases n - i,
        {
            match outcomes[i] {
                FlushStatus::Ready => {},
                FlushStatus::NotReady => {
                    assert(outcomes@[i as int] == FlushStatus::NotReady);
                    saw_not_ready = true;
                },
                FlushStatus::Failed => {
                    assert(outcomes@[i as int] == FlushStatus::Failed);
                    return FlushVerdict::Fatal;
                },
            }
            i = i + 1;
        }
        if saw_not_ready {
            FlushVerdict::Pending
        } else {
            FlushVerdict::AllReady
        }
    }
}

/// One admission attempt at the spec level, exactly as
/// [`PeerManager::start_send`] decides it for `AddPeer`: refused at
/// capacity or for an identity already managed, inserted otherwise.
pub open spec fn spec_admit(peers: Seq<PeerInfo>, cap: nat, info: PeerInfo) -> Seq<PeerInfo> {
    if peers.len() >= cap || peers.contains(info) {
        peers
    } else {
        peers.push(info)
    }
}

/// Whether an admission is accepted outright: a free slot and an
/// absent identity.
pub open spec fn admit_allowed(peers: Seq<PeerInfo>, cap: nat, info: PeerInfo) -> bool {
    peers.len() < cap && !peers.contains(info)
}

/// One bookkeeping operation on the session map: an admission attempt,
/// or the removal a demultiplexed terminal event demands.
#[derive(Clone, Copy, PartialEq, Eq, Debug)]
pub enum MapOp {
    Admit(PeerInfo),
    Withdraw(PeerInfo),
}

/// The session map after one bookkeeping operation.
pub open spec fn spec_apply_op(peers: Seq<PeerInfo>, cap: nat, op: MapOp) -> Seq<PeerInfo> {
    match op {
        MapOp::Admit(info) => spec_admit(peers, cap, info),
        MapOp::Withdraw(info) => peers.remove_value(info),
    }
}

/// The session map after a whole sequence of bookkeeping operations.
pub open spec fn spec_apply_ops(peers: Seq<PeerInfo>, cap: nat, ops: Seq<MapOp>) -> Seq<PeerInfo>
    decreases ops.len(),
{
    if ops.len() == 0 {
        peers
    } else {
        spec_apply_ops(spec_apply_op(peers, cap, ops[0]), cap, ops.drop_first())
    }
}

proof fn lemma_withdraw_preserves(peers: Seq<PeerInfo>, info: PeerInfo)
    requires
        distinct_seq(peers),
    ensures
        distinct_seq(peers.remove_value(info)),
        peers.remove_value(info).len() <= peers.len(),
{
    peers.index_of_first_ensures(info);
    match peers.index_of_first(info) {
        Option::Some(at) => {
            lemma_distinct_remove_at(peers, at, info);
        },
        Option::None => {},
    }
}

proof fn lemma_admit_preserves(peers: Seq<PeerInfo>, cap: nat, info: PeerInfo)
    requires
        distinct_seq(peers),
        peers.len() <= cap,
    ensures
        distinct_seq(spec_admit(peers, cap, info)),
        spec_admit(peers, cap, info).len() <= cap,
{
    if admit_allowed(peers, cap, info) {
        lemma_distinct_push(peers, info);
    }
}

proof fn lemma_apply_ops_invariant(peers: Seq<PeerInfo>, cap: nat, ops: Seq<MapOp>)
    requires
        distinct_seq(peers),
        peers.len() <= cap,
    ensures
        distinct_seq(spec_apply_ops(peers, cap, ops)),
        spec_apply_ops(peers, cap, ops).len() <= cap,
    decreases ops.len(),
{
    if ops.len() > 0 {
        match ops[0] {
            MapOp::Admit(info) => {
                lemma_admit_preserves(peers, cap, info);
            },
            MapOp::Withdraw(info) => {
                lemma_withdraw_preserves(peers, info);
            },
        }
        lemma_apply_ops_invariant(spec_apply_op(peers, cap, ops[0]), cap, ops.drop_first());
    }
}

/// The session map never holds two entries with equal `PeerInfo`:
/// starting empty, any sequence of admissions and removals leaves it
/// duplicate-free and within capacity.  (The other half of uniqueness
/// is that a removal signal for an already-absent identity is never
/// tolerated: [`PeerManager::poll`] answers it with
/// [`PollResult::Fatal`] and leaves the map untouched.)
pub proof fn lemma_session_map_unique(cap: nat, ops: Seq<MapOp>)
    ensures
        distinct_seq(spec_apply_ops(Seq::empty(), cap, ops)),
        spec_apply_ops(Seq::empty(), cap, ops).len() <= cap,
{
    lemma_apply_ops_invariant(Seq::empty(), cap, ops);
}

/// The session map after admitting each identity in turn.
pub open spec fn spec_admit_all(peers: Seq<PeerInfo>, cap: nat, infos: Seq<PeerInfo>) -> Seq<
    PeerInfo,
>
    decreases infos.len(),
{
    if infos.len() == 0 {
        peers
    } else {
        spec_admit_all(spec_admit(peers, cap, infos[0]), cap, infos.drop_first())
    }
}

proof fn lemma_admit_all_general(peers: Seq<PeerInfo>, cap: nat, infos: Seq<PeerInfo>)
    requires
        distinct_seq(peers + infos),
        peers.len() + infos.len() <= cap,
    ensures
        spec_admit_all(peers, cap, infos) == peers + infos,
    decreases infos.len(),
{
    if infos.len() == 0 {
        assert(peers + infos =~= peers);
    } else {
        let x = infos[0];
        assert((peers + infos)[peers.len() as int] == x);
        assert(!peers.contains(x)) by {
            if peers.contains(x) {
                let k = choose|k: int| 0 <= k < peers.len() && peers[k] == x;
                assert((peers + infos)[k] == x);
            }
        }
        assert(spec_admit(peers, cap, x) == peers.push(x));
        assert(peers.push(x) + infos.drop_first() =~= peers + infos);
        lemma_admit_all_general(peers.push(x), cap, infos.drop_first());
    }
}

/// Admitting up to capacity many distinct identities into an empty
/// supervisor succeeds for every one of them: the map ends up holding
/// exactly those identities, in admission order.
pub proof fn lemma_admissions_fill_capacity(cap: nat, infos: Seq<PeerInfo>)
    requires
        distinct_seq(infos),
        infos.len() <= cap,
    ensures
        spec_admit_all(Seq::empty(), cap, infos) == infos,
{
    assert(Seq::<PeerInfo>::empty() + infos =~= infos);
    lemma_admit_all_general(Seq::empty(), cap, infos);
}

/// Backpressure at capacity: with the map full, no admission is
/// accepted, whatever the identity; and as soon as any one peer is
/// removed, a retried admission for an absent identity is accepted.
pub proof fn lemma_capacity_backpressure(
    peers: Seq<PeerInfo>,
    cap: nat,
    info: PeerInfo,
    leaving: PeerInfo,
)
    requires
        distinct_seq(peers),
        peers.len() == cap,
        peers.contains(leaving),
        !peers.contains(info),
    ensures
        !admit_allowed(peers, cap, info),
        spec_admit(peers, cap, info) == peers,
        admit_allowed(peers.remove_value(leaving), cap, info),
        spec_admit(peers.remove_value(leaving), cap, info) == peers.remove_value(leaving).push(
            info,
        ),
{
    peers.index_of_first_ensures(leaving);
    match peers.index_of_first(leaving) {
        Option::Some(at) => {
            lemma_distinct_remove_at(peers, at, leaving);
            assert(info != leaving);
        },
        Option::None => {},
    }
}

/// A session with no inbound traffic for longer than the configured
/// timeout emits exactly one `PeerDisconnect` and is removed from the
/// map: the expired timeout tick is the session's terminal transition,
/// and demultiplexing the `PeerDisconnect` it emits takes the identity
/// out of the session map for good.
pub proof fn lemma_timeout_removes_from_map<M: ManagedMessage>(
    s: PeerSession,
    peers: Seq<PeerInfo>,
)
    requires
        s.live,
        !s.recv_since_timeout,
        distinct_seq(peers),
        peers.contains(s.info),
    ensures
        spec_step(s, SessionEvent::<M>::TimeoutTick).1 == seq![
            SessionAction::<M>::Close,
            SessionAction::Emit(OPeerManagerMessage::PeerDisconnect(s.info)),
        ],
        terminal_count(spec_step(s, SessionEvent::<M>::TimeoutTick).1) == 1nat,
        !spec_step(s, SessionEvent::<M>::TimeoutTick).0.live,
        !peers.remove_value(s.info).contains(s.info),
        peers.remove_value(s.info).len() == peers.len() - 1,
{
    lemma_timeout_disconnects::<M>(s);
    peers.index_of_first_ensures(s.info);
    match peers.index_of_first(s.info) {
        Option::Some(at) => {
            lemma_distinct_remove_at(peers, at, s.info);
        },
        Option::None => {},
    }
}

} // verus!
