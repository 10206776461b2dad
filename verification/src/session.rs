//! The per-peer session task, as a state machine over plain values: it
//! owns one admitted connection end to end, bridges commands and
//! inbound traffic, applies heartbeat and inactivity-timeout policy,
//! and emits exactly one terminal event before going quiet.
//!
//! The surrounding runtime reads the connection, drives the two timer
//! intervals and forwards commands; each such occurrence is handed to
//! [`PeerSession::step`], and the actions that come back (writes,
//! teardown, events for the supervisor's egress stream) are performed
//! in order.

use vstd::prelude::*;

use crate::message::ManagedMessage;
use crate::message::MessageId;
use crate::message::OPeerManagerMessage;
use crate::message::TransportError;
use crate::peer::PeerInfo;

verus! {

/// A command addressed to one session through its private channel.
#[derive(PartialEq, Eq, Debug)]
pub enum SessionCommand<M> {
    /// Serialize this message to the peer; acknowledged with the id
    /// once the transport accepts the write.
    Send(MessageId, M),
    /// Tear the session down on request.
    Remove,
}

/// One occurrence a session task reacts to.
#[derive(PartialEq, Eq, Debug)]
pub enum SessionEvent<M> {
    /// A command the supervisor forwarded on the session's channel.
    Command(SessionCommand<M>),
    /// A message read from the connection.
    Inbound(M),
    /// The transport accepted the write that carried this id.
    Sent(MessageId),
    /// The transport failed, reading or writing.
    TransportFailed(TransportError),
    /// The heartbeat-send interval elapsed.
    HeartbeatTick,
    /// The inactivity-timeout interval elapsed.
    TimeoutTick,
}

/// An effect the surrounding runtime must perform, in order, after a
/// step.
#[derive(PartialEq, Eq, Debug)]
pub enum SessionAction<M> {
    /// Serialize this message onto the connection.  Once the transport
    /// accepts it the runtime reports [`SessionEvent::Sent`] with this
    /// id, and only that report produces the acknowledgment; a rejected
    /// write is reported as [`SessionEvent::TransportFailed`] and is
    /// never acknowledged.
    Write(MessageId, M),
    /// Synthesize a keep-alive instance and serialize it.
    WriteKeepAlive,
    /// Terminate the connection; no further reads or writes.
    Close,
    /// Surface this event on the supervisor's shared egress stream.
    Emit(OPeerManagerMessage<M>),
}

/// State of one admitted connection's session task.
#[derive(Clone, Copy, PartialEq, Eq, Debug)]
pub struct PeerSession {
    /// The identity this session was admitted under.
    pub info: PeerInfo,
    /// Cleared by the terminal transition; a dead session reacts to
    /// nothing and performs no further reads or writes.
    pub live: bool,
    /// Whether anything was written to the peer since the last
    /// heartbeat tick; reset at every tick.
    pub sent_since_heartbeat: bool,
    /// Whether anything was read from the peer since the last timeout
    /// tick; reset at every tick.
    pub recv_since_timeout: bool,
}

/// The session transition function: next state and the actions owed,
/// for one event.
///
/// A dead session ignores everything.  A send command writes the
/// message, and the write's acceptance, reported back as `Sent`, emits
/// the `SentMessage` acknowledgment; a removal, a
/// transport failure and an expired inactivity timeout each tear the
/// session down with their terminal event (`PeerRemoved`, `PeerError`,
/// `PeerDisconnect`); inbound keep-alives are consumed, other inbound
/// messages surface as `ReceivedMessage`, and either resets the
/// inactivity window; a heartbeat tick with no outbound traffic since
/// the previous one synthesizes a keep-alive.
pub open spec fn spec_step<M: ManagedMessage>(s: PeerSession, event: SessionEvent<M>) -> (
    PeerSession,
    Seq<SessionAction<M>>,
) {
    if !s.live {
        (s, Seq::empty())
    } else {
        match event {
            SessionEvent::Command(SessionCommand::Send(id, m)) => (
                PeerSession { sent_since_heartbeat: true, ..s },
                seq![SessionAction::Write(id, m)],
            ),
            SessionEvent::Command(SessionCommand::Remove) => (
                PeerSession { live: false, ..s },
                seq![
                    SessionAction::Close,
                    SessionAction::Emit(OPeerManagerMessage::PeerRemoved(s.info)),
                ],
            ),
            SessionEvent::Inbound(m) => if m.spec_is_keep_alive() {
                (PeerSession { recv_since_timeout: true, ..s }, Seq::empty())
            } else {
                (
                    PeerSession { recv_since_timeout: true, ..s },
                    seq![SessionAction::Emit(OPeerManagerMessage::ReceivedMessage(s.info, m))],
                )
            },
            SessionEvent::Sent(id) => (
                s,
                seq![SessionAction::Emit(OPeerManagerMessage::SentMessage(s.info, id))],
            ),
            SessionEvent::TransportFailed(e) => (
                PeerSession { live: false, ..s },
                seq![
                    SessionAction::Close,
                    SessionAction::Emit(OPeerManagerMessage::PeerError(s.info, e)),
                ],
            ),
            SessionEvent::HeartbeatTick => (
                PeerSession { sent_since_heartbeat: false, ..s },
                if s.sent_since_heartbeat {
                    Seq::empty()
                } else {
                    seq![SessionAction::WriteKeepAlive]
                },
            ),
            SessionEvent::TimeoutTick => if s.recv_since_timeout {
                (PeerSession { recv_since_timeout: false, ..s }, Seq::empty())
            } else {
                (
                    PeerSession { live: false, ..s },
                    seq![
                        SessionAction::Close,
                        SessionAction::Emit(OPeerManagerMessage::PeerDisconnect(s.info)),
                    ],
                )
            },
        }
    }
}

impl PeerSession {
    /// Fresh session state for a just-admitted connection, together
    /// with the actions owed on start: announcing the peer on the
    /// egress stream.
    pub fn new<M>(info: PeerInfo) -> (r: (PeerSession, Vec<SessionAction<M>>))
        ensures
            r.0 == (PeerSession {
                info,
                live: true,
                sent_since_heartbeat: false,
                recv_since_timeout: false,
            }),
            r.1@ == seq![SessionAction::<M>::Emit(OPeerManagerMessage::PeerAdded(info))],
    {
        let s = PeerSession { info, live: true, sent_since_heartbeat: false, recv_since_timeout: false };
        let mut acts: Vec<SessionAction<M>> = Vec::new();
        acts.push(SessionAction::Emit(OPeerManagerMessage::PeerAdded(info)));
        proof {
            assert(acts@ =~= seq![SessionAction::<M>::Emit(OPeerManagerMessage::PeerAdded(info))]);
        }
        (s, acts)
    }

    /// Reacts to one event: updates the session state and returns the
    /// actions the runtime must perform, exactly as [`spec_step`] says.
    pub fn step<M: ManagedMessage>(&mut self, event: SessionEvent<M>) -> (acts: Vec<
        SessionAction<M>,
    >)
        ensures
            *final(self) == spec_step(*old(self), event).0,
            acts@ == spec_step(*old(self), event).1,
    {
        let mut acts: Vec<SessionAction<M>> = Vec::new();
        if !self.live {
            proof {
                assert(acts@ =~= spec_step(*old(self), event).1);
            }
            return acts;
        }
        match event {
            SessionEvent::Command(SessionCommand::Send(id, m)) => {
                self.sent_since_heartbeat = true;
                acts.push(SessionAction::Write(id, m));
            },
            SessionEvent::Command(SessionCommand::Remove) => {
                self.live = false;
                acts.push(SessionAction::Close);
                acts.push(SessionAction::Emit(OPeerManagerMessage::PeerRemoved(self.info)));
            },
            SessionEvent::Inbound(m) => {
                self.recv_since_timeout = true;
                if !m.is_keep_alive() {
                    acts.push(SessionAction::Emit(OPeerManagerMessage::ReceivedMessage(self.info, m)));
                }
            },
            SessionEvent::Sent(id) => {
                acts.push(SessionAction::Emit(OPeerManagerMessage::SentMessage(self.info, id)));
            },
            SessionEvent::TransportFailed(e) => {
                self.live = false;
                acts.push(SessionAction::Close);
                acts.push(SessionAction::Emit(OPeerManagerMessage::PeerError(self.info, e)));
            },
            SessionEvent::HeartbeatTick => {
                if !self.sent_since_heartbeat {
                    acts.push(SessionAction::WriteKeepAlive);
                }
                self.sent_since_heartbeat = false;
            },
            SessionEvent::TimeoutTick => {
                if self.recv_since_timeout {
                    self.recv_since_timeout = false;
                } else {
                    self.live = false;
                    acts.push(SessionAction::Close);
                    acts.push(SessionAction::Emit(OPeerManagerMessage::PeerDisconnect(self.info)));
                }
            },
        }
        proof {
            assert(acts@ =~= spec_step(*old(self), event).1);
        }
        acts
    }
}

/// The session state and accumulated actions after a whole sequence of
/// events, applied in order from `s`.
pub open spec fn spec_run<M: ManagedMessage>(s: PeerSession, events: Seq<SessionEvent<M>>) -> (
    PeerSession,
    Seq<SessionAction<M>>,
)
    decreases events.len(),
{
    if events.len() == 0 {
        (s, Seq::empty())
    } else {
        let first = spec_step(s, events[0]);
        let rest = spec_run(first.0, events.drop_first());
        (rest.0, first.1 + rest.1)
    }
}

/// Whether this egress event is one of the three terminal events of a
/// session.
pub open spec fn is_terminal_event<M>(e: OPeerManagerMessage<M>) -> bool {
    e is PeerRemoved || e is PeerDisconnect || e is PeerError
}

/// Whether this action surfaces a terminal event.
pub open spec fn is_terminal_emit<M>(a: SessionAction<M>) -> bool {
    match a {
        SessionAction::Emit(e) => is_terminal_event(e),
        _ => false,
    }
}

/// How many of the actions surface a terminal event.
pub open spec fn terminal_count<M>(acts: Seq<SessionAction<M>>) -> nat
    decreases acts.len(),
{
    if acts.len() == 0 {
        0
    } else {
        (if is_terminal_emit(acts[0]) {
            1nat
        } else {
            0nat
        }) + terminal_count(acts.drop_first())
    }
}

proof fn lemma_terminal_count_add<M>(a: Seq<SessionAction<M>>, b: Seq<SessionAction<M>>)
    ensures
        terminal_count(a + b) == terminal_count(a) + terminal_count(b),
    decreases a.len(),
{
    if a.len() == 0 {
        assert(a + b =~= b);
    } else {
        assert((a + b).drop_first() =~= a.drop_first() + b);
        assert((a + b)[0] == a[0]);
        lemma_terminal_count_add(a.drop_first(), b);
    }
}

proof fn lemma_terminal_count_two<M>(a: SessionAction<M>, b: SessionAction<M>)
    ensures
        terminal_count(seq![a, b]) == (if is_terminal_emit(a) {
            1nat
        } else {
            0nat
        }) + (if is_terminal_emit(b) {
            1nat
        } else {
            0nat
        }),
{
    reveal_with_fuel(terminal_count, 3);
    assert(seq![a, b].drop_first() =~= seq![b]);
    assert(seq![b].drop_first() =~= Seq::<SessionAction<M>>::empty());
}

proof fn lemma_terminal_count_one<M>(a: SessionAction<M>)
    ensures
        terminal_count(seq![a]) == if is_terminal_emit(a) {
            1nat
        } else {
            0nat
        },
{
    reveal_with_fuel(terminal_count, 2);
    assert(seq![a].drop_first() =~= Seq::<SessionAction<M>>::empty());
}

/// One step surfaces a terminal event exactly when it is the step that
/// takes the session from live to dead; and a dead session never comes
/// back.
proof fn lemma_step_terminal<M: ManagedMessage>(s: PeerSession, event: SessionEvent<M>)
    ensures
        terminal_count(spec_step(s, event).1) == if s.live && !spec_step(s, event).0.live {
            1nat
        } else {
            0nat
        },
        !s.live ==> !spec_step(s, event).0.live,
{
    let r = spec_step(s, event);
    if !s.live {
    } else {
        match event {
            SessionEvent::Command(SessionCommand::Send(id, m)) => {
                lemma_terminal_count_one(r.1[0]);
                assert(r.1 =~= seq![r.1[0]]);
            },
            SessionEvent::Command(SessionCommand::Remove) => {
                lemma_terminal_count_two(r.1[0], r.1[1]);
                assert(r.1 =~= seq![r.1[0], r.1[1]]);
            },
            SessionEvent::Inbound(m) => {
                if !m.spec_is_keep_alive() {
                    lemma_terminal_count_one(r.1[0]);
                    assert(r.1 =~= seq![r.1[0]]);
                }
            },
            SessionEvent::Sent(id) => {
                lemma_terminal_count_one(r.1[0]);
                assert(r.1 =~= seq![r.1[0]]);
            },
            SessionEvent::TransportFailed(e) => {
                lemma_terminal_count_two(r.1[0], r.1[1]);
                assert(r.1 =~= seq![r.1[0], r.1[1]]);
            },
            SessionEvent::HeartbeatTick => {
                if !s.sent_since_heartbeat {
                    lemma_terminal_count_one(r.1[0]);
                    assert(r.1 =~= seq![r.1[0]]);
                }
            },
            SessionEvent::TimeoutTick => {
                if !s.recv_since_timeout {
                    lemma_terminal_count_two(r.1[0], r.1[1]);
                    assert(r.1 =~= seq![r.1[0], r.1[1]]);
                }
            },
        }
    }
}

/// Exactly one of `PeerRemoved`, `PeerDisconnect`, `PeerError` is ever
/// emitted per session: over any sequence of events, a session that
/// starts live surfaces exactly one terminal event if it ends dead and
/// none if it is still live; a session that starts dead stays dead and
/// surfaces nothing.
pub proof fn lemma_exactly_one_terminal_event<M: ManagedMessage>(
    s: PeerSession,
    events: Seq<SessionEvent<M>>,
)
    ensures
        terminal_count(spec_run(s, events).1) == if s.live && !spec_run(s, events).0.live {
            1nat
        } else {
            0nat
        },
        !s.live ==> !spec_run(s, events).0.live,
    decreases events.len(),
{
    if events.len() == 0 {
    } else {
        let first = spec_step(s, events[0]);
        lemma_step_terminal(s, events[0]);
        lemma_exactly_one_terminal_event(first.0, events.drop_first());
        lemma_terminal_count_add(first.1, spec_run(first.0, events.drop_first()).1);
    }
}

/// Whether some action surfaces a keep-alive as a received message.
pub open spec fn surfaces_keep_alive<M: ManagedMessage>(acts: Seq<SessionAction<M>>) -> bool {
    exists|i: int|
        0 <= i < acts.len() && ((#[trigger] acts[i]) matches SessionAction::Emit(
            OPeerManagerMessage::ReceivedMessage(_, m),
        ) && m.spec_is_keep_alive())
}

/// A message recognized as a keep-alive is never surfaced as
/// `ReceivedMessage`, over any sequence of events.
pub proof fn lemma_keep_alive_suppression<M: ManagedMessage>(
    s: PeerSession,
    events: Seq<SessionEvent<M>>,
)
    ensures
        !surfaces_keep_alive(spec_run(s, events).1),
    decreases events.len(),
{
    if events.len() == 0 {
    } else {
        let first = spec_step(s, events[0]);
        let rest = spec_run(first.0, events.drop_first());
        lemma_keep_alive_suppression(first.0, events.drop_first());
        assert forall|i: int| 0 <= i < first.1.len() implies !((#[trigger] first.1[i])
            matches SessionAction::Emit(OPeerManagerMessage::ReceivedMessage(_, m))
            && m.spec_is_keep_alive()) by {
            if s.live {
                match events[0] {
                    SessionEvent::Inbound(m0) => {},
                    _ => {},
                }
            }
        }
        assert forall|i: int| 0 <= i < (first.1 + rest.1).len() implies !((#[trigger] (first.1
            + rest.1)[i]) matches SessionAction::Emit(OPeerManagerMessage::ReceivedMessage(_, m))
            && m.spec_is_keep_alive()) by {
            if i < first.1.len() {
                assert((first.1 + rest.1)[i] == first.1[i]);
            } else {
                assert((first.1 + rest.1)[i] == rest.1[i - first.1.len()]);
            }
        }
    }
}

/// Receiving a keep-alive resets the inactivity window without
/// surfacing anything.
pub proof fn lemma_keep_alive_resets_timer<M: ManagedMessage>(s: PeerSession, m: M)
    requires
        s.live,
        m.spec_is_keep_alive(),
    ensures
        spec_step(s, SessionEvent::Inbound(m)).0.recv_since_timeout,
        spec_step(s, SessionEvent::Inbound(m)).1 == Seq::<SessionAction<M>>::empty(),
{
}

/// The ids acknowledged by `SentMessage` emissions, in emission order.
pub open spec fn sent_ids<M>(acts: Seq<SessionAction<M>>) -> Seq<MessageId>
    decreases acts.len(),
{
    if acts.len() == 0 {
        Seq::empty()
    } else {
        (match acts[0] {
            SessionAction::Emit(OPeerManagerMessage::SentMessage(_, id)) => seq![id],
            _ => Seq::empty(),
        }) + sent_ids(acts.drop_first())
    }
}

/// The ids carried by `Write` actions, in the order the writes are
/// handed to the transport.
pub open spec fn write_ids<M>(acts: Seq<SessionAction<M>>) -> Seq<MessageId>
    decreases acts.len(),
{
    if acts.len() == 0 {
        Seq::empty()
    } else {
        (match acts[0] {
            SessionAction::Write(id, _) => seq![id],
            _ => Seq::empty(),
        }) + write_ids(acts.drop_first())
    }
}

/// The ids of the send commands in a sequence of events, in submission
/// order.
pub open spec fn command_ids<M>(events: Seq<SessionEvent<M>>) -> Seq<MessageId>
    decreases events.len(),
{
    if events.len() == 0 {
        Seq::empty()
    } else {
        (match events[0] {
            SessionEvent::Command(SessionCommand::Send(id, _)) => seq![id],
            _ => Seq::empty(),
        }) + command_ids(events.drop_first())
    }
}

/// The ids of the accepted writes a sequence of events reports, in
/// acceptance order.
pub open spec fn accepted_ids<M>(events: Seq<SessionEvent<M>>) -> Seq<MessageId>
    decreases events.len(),
{
    if events.len() == 0 {
        Seq::empty()
    } else {
        (match events[0] {
            SessionEvent::Sent(id) => seq![id],
            _ => Seq::empty(),
        }) + accepted_ids(events.drop_first())
    }
}

proof fn lemma_sent_ids_add<M>(a: Seq<SessionAction<M>>, b: Seq<SessionAction<M>>)
    ensures
        sent_ids(a + b) == sent_ids(a) + sent_ids(b),
    decreases a.len(),
{
    if a.len() == 0 {
        assert(a + b =~= b);
        assert(sent_ids(a) + sent_ids(b) =~= sent_ids(b));
    } else {
        assert((a + b).drop_first() =~= a.drop_first() + b);
        assert((a + b)[0] == a[0]);
        lemma_sent_ids_add(a.drop_first(), b);
        assert(sent_ids(a + b) =~= sent_ids(a) + sent_ids(b));
    }
}

proof fn lemma_write_ids_add<M>(a: Seq<SessionAction<M>>, b: Seq<SessionAction<M>>)
    ensures
        write_ids(a + b) == write_ids(a) + write_ids(b),
    decreases a.len(),
{
    if a.len() == 0 {
        assert(a + b =~= b);
        assert(write_ids(a) + write_ids(b) =~= write_ids(b));
    } else {
        assert((a + b).drop_first() =~= a.drop_first() + b);
        assert((a + b)[0] == a[0]);
        lemma_write_ids_add(a.drop_first(), b);
        assert(write_ids(a + b) =~= write_ids(a) + write_ids(b));
    }
}

/// Correlation of send commands, transport writes and acknowledgments,
/// over any sequence of events through which the session stays live:
/// every send command yields exactly one `Write` carrying its id, in
/// submission order, and every accepted write the runtime reports back
/// yields exactly one `SentMessage` echoing its id, in acceptance
/// order.  A rejected write is reported as a transport failure instead
/// and so is never acknowledged.
pub proof fn lemma_sends_correlated<M: ManagedMessage>(
    s: PeerSession,
    events: Seq<SessionEvent<M>>,
)
    requires
        spec_run(s, events).0.live,
    ensures
        spec_run(s, events).0.info == s.info,
        write_ids(spec_run(s, events).1) == command_ids(events),
        sent_ids(spec_run(s, events).1) == accepted_ids(events),
    decreases events.len(),
{
    reveal_with_fuel(write_ids, 2);
    reveal_with_fuel(sent_ids, 2);
    reveal_with_fuel(command_ids, 2);
    reveal_with_fuel(accepted_ids, 2);
    if events.len() == 0 {
    } else {
        let first = spec_step(s, events[0]);
        let rest = spec_run(first.0, events.drop_first());
        lemma_exactly_one_terminal_event(first.0, events.drop_first());
        assert(first.0.live);
        assert(s.live);
        lemma_sends_correlated(first.0, events.drop_first());
        lemma_write_ids_add(first.1, rest.1);
        lemma_sent_ids_add(first.1, rest.1);
        match events[0] {
            SessionEvent::Command(SessionCommand::Send(id, m)) => {
                assert(first.1.drop_first() =~= Seq::<SessionAction<M>>::empty());
                assert(write_ids(first.1) =~= seq![id]);
                assert(sent_ids(first.1) =~= Seq::<MessageId>::empty());
                assert(write_ids(spec_run(s, events).1) =~= command_ids(events));
                assert(sent_ids(spec_run(s, events).1) =~= accepted_ids(events));
            },
            SessionEvent::Sent(id) => {
                assert(first.1.drop_first() =~= Seq::<SessionAction<M>>::empty());
                assert(sent_ids(first.1) =~= seq![id]);
                assert(write_ids(first.1) =~= Seq::<MessageId>::empty());
                assert(write_ids(spec_run(s, events).1) =~= command_ids(events));
                assert(sent_ids(spec_run(s, events).1) =~= accepted_ids(events));
            },
            SessionEvent::Inbound(m) => {
                if !m.spec_is_keep_alive() {
                    assert(first.1.drop_first() =~= Seq::<SessionAction<M>>::empty());
                }
                assert(write_ids(first.1) =~= Seq::<MessageId>::empty());
                assert(sent_ids(first.1) =~= Seq::<MessageId>::empty());
                assert(write_ids(spec_run(s, events).1) =~= command_ids(events));
                assert(sent_ids(spec_run(s, events).1) =~= accepted_ids(events));
            },
            SessionEvent::HeartbeatTick => {
                if !s.sent_since_heartbeat {
                    assert(first.1.drop_first() =~= Seq::<SessionAction<M>>::empty());
                }
                assert(write_ids(first.1) =~= Seq::<MessageId>::empty());
                assert(sent_ids(first.1) =~= Seq::<MessageId>::empty());
                assert(write_ids(spec_run(s, events).1) =~= command_ids(events));
                assert(sent_ids(spec_run(s, events).1) =~= accepted_ids(events));
            },
            SessionEvent::TimeoutTick => {
                assert(s.recv_since_timeout);
                assert(write_ids(first.1) =~= Seq::<MessageId>::empty());
                assert(sent_ids(first.1) =~= Seq::<MessageId>::empty());
                assert(write_ids(spec_run(s, events).1) =~= command_ids(events));
                assert(sent_ids(spec_run(s, events).1) =~= accepted_ids(events));
            },
            SessionEvent::Command(SessionCommand::Remove) => {
                assert(false);
            },
            SessionEvent::TransportFailed(e) => {
                assert(false);
            },
        }
    }
}

/// An expired inactivity timeout on a quiet session is its terminal
/// transition: the session dies, tears the connection down, and emits
/// exactly one `PeerDisconnect`.
pub proof fn lemma_timeout_disconnects<M: ManagedMessage>(s: PeerSession)
    requires
        s.live,
        !s.recv_since_timeout,
    ensures
        !spec_step(s, SessionEvent::<M>::TimeoutTick).0.live,
        spec_step(s, SessionEvent::<M>::TimeoutTick).1 == seq![
            SessionAction::<M>::Close,
            SessionAction::Emit(OPeerManagerMessage::PeerDisconnect(s.info)),
        ],
        terminal_count(spec_step(s, SessionEvent::<M>::TimeoutTick).1) == 1nat,
{
    lemma_step_terminal(s, SessionEvent::<M>::TimeoutTick);
}

} // verus!
