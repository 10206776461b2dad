//! Connection admission and session supervision for a BitTorrent
//! peer-wire stack.
//!
//! The crate has two tightly coupled halves.  The first is a progressive
//! handshake filter chain: independently registered filters judge a
//! connection attribute by attribute as the handshake reveals them, and a
//! combinator folds their verdicts into one decision.  The second is a
//! peer session supervisor: it admits connections under a hard capacity
//! bound with backpressure, keys every live session by its `PeerInfo`,
//! routes send and removal commands to the owning session, and removes a
//! session from its bookkeeping exactly once when the session's terminal
//! event comes back on the shared egress stream.
//!
//! The supervisor and the per-peer session task are written as state
//! machines over plain values: every decision they take is a verified
//! function from the current state and one event to the next state and a
//! list of actions.  The surrounding event loop, timers and transport
//! live outside this crate and only perform the actions handed to them.

pub mod builder;
pub mod chain;
pub mod error;
pub mod filter;
pub mod manager;
pub mod message;
pub mod peer;
pub mod seqs;
pub mod session;

pub use builder::PeerManagerBuilder;
pub use builder::TimerConfig;
pub use chain::ChainVerdict;
pub use chain::EitherFilter;
pub use chain::FilterAllowHash;
pub use chain::FilterBlockAllHash;
pub use chain::FilterChain;
pub use chain::HandshakeFilter;
pub use chain::Protocol;
pub use error::PeerManagerError;
pub use error::PeerManagerErrorKind;
pub use filter::combine_decisions;
pub use filter::FilterDecision;
pub use manager::FlushStatus;
pub use manager::FlushVerdict;
pub use manager::ManagerAction;
pub use manager::PeerManager;
pub use manager::PollResult;
pub use manager::SinkResult;
pub use message::BasicMessage;
pub use message::IPeerManagerMessage;
pub use message::ManagedMessage;
pub use message::MessageId;
pub use message::OPeerManagerMessage;
pub use message::TransportError;
pub use peer::InfoHash;
pub use peer::INFO_HASH_LEN;
pub use peer::PeerAddr;
pub use peer::PeerId;
pub use peer::PEER_ID_LEN;
pub use peer::PeerInfo;
pub use session::PeerSession;
pub use session::SessionAction;
pub use session::SessionCommand;
pub use session::SessionEvent;
