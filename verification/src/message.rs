//! Message types spoken between callers, the supervisor and the per-peer
//! session tasks, and the managed-message capability that a wire message
//! type must offer to be supervised.

use vstd::prelude::*;

use crate::peer::PeerInfo;

verus! {

/// Identifier for matching sent messages with received acknowledgments.
/// Chosen by the caller of a send command and echoed back verbatim in
/// the `SentMessage` event; the supervisor never interprets it.
pub type MessageId = u64;

/// The capability a wire message type must offer so that a session task
/// can manage its peer: produce a keep-alive instance, and recognize
/// one.
///
/// `spec_is_keep_alive` fixes, per message value, what counts as a
/// keep-alive; the two executable methods are held to it, so heartbeat
/// synthesis and keep-alive suppression agree on one notion.
pub trait ManagedMessage: Sized {
    spec fn spec_is_keep_alive(&self) -> bool;

    /// A keep-alive message instance.
    fn keep_alive() -> (m: Self)
        ensures
            m.spec_is_keep_alive(),
    ;

    /// Whether this instance is a keep-alive message.
    fn is_keep_alive(&self) -> (r: bool)
        ensures
            r == self.spec_is_keep_alive(),
    ;
}

/// A transport-level failure, reported upward as data: the supervisor
/// keeps running for every other peer.
#[derive(Clone, PartialEq, Eq, Debug)]
pub struct TransportError {
    pub message: String,
}

/// Command sent to the supervisor.  `C` is the admitted connection as
/// the surrounding runtime represents it; the supervisor never looks
/// inside it and hands it back when it decides to spawn a session.  `M`
/// is the wire message type.
#[derive(PartialEq, Eq, Debug)]
pub enum IPeerManagerMessage<C, M> {
    /// Add a peer to the supervisor.
    AddPeer(PeerInfo, C),
    /// Remove a peer from the supervisor.
    RemovePeer(PeerInfo),
    /// Send a message to a peer.
    SendMessage(PeerInfo, MessageId, M),
}

/// Event the supervisor emits on its single egress stream.
#[derive(PartialEq, Eq, Debug)]
pub enum OPeerManagerMessage<M> {
    /// A peer was admitted and its session task started.
    PeerAdded(PeerInfo),
    /// A peer was removed on request; its terminal event.
    PeerRemoved(PeerInfo),
    /// A message for the given peer was accepted by its transport; the
    /// echoed id correlates it with the originating send command.
    SentMessage(PeerInfo, MessageId),
    /// A (non-keep-alive) message arrived from the given peer.
    ReceivedMessage(PeerInfo, M),
    /// The peer's session timed out with no inbound traffic; its
    /// terminal event.
    PeerDisconnect(PeerInfo),
    /// The peer's transport failed; its terminal event.
    PeerError(PeerInfo, TransportError),
}

/// A minimal wire message type with the managed-message capability: a
/// content-free keep-alive, or a payload of bytes.
#[derive(Clone, PartialEq, Eq, Debug)]
pub enum BasicMessage {
    KeepAlive,
    Data(Vec<u8>),
}

impl ManagedMessage for BasicMessage {
    open spec fn spec_is_keep_alive(&self) -> bool {
        self is KeepAlive
    }

    fn keep_alive() -> BasicMessage {
        BasicMessage::KeepAlive
    }

    fn is_keep_alive(&self) -> bool {
        match self {
            BasicMessage::KeepAlive => true,
            BasicMessage::Data(_) => false,
        }
    }
}

} // verus!
