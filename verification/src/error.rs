//! The recoverable, caller-facing errors of the supervisor.  Fatal
//! invariant violations (a removal signal for an absent key, a live
//! session's channel failing at flush time) are not errors of this
//! kind: they are surfaced as explicit fatal outcomes that the caller
//! must treat as process-terminating.

use vstd::prelude::*;

use crate::peer::PeerInfo;

verus! {

/// What went wrong with a supervisor command.
#[derive(Clone, Copy, PartialEq, Eq, Debug)]
pub enum PeerManagerErrorKind {
    /// The command addressed an identity not currently managed:
    /// removed already, or never added.
    PeerNotFound { info: PeerInfo },
    /// An admission named an identity that is already managed; an add
    /// is only valid for an absent key.
    PeerDuplicate { info: PeerInfo },
}

/// Error returned synchronously for a command the supervisor refuses.
/// Callers may retry with corrected input or ignore it; the supervisor
/// keeps running unchanged.
#[derive(Clone, Copy, PartialEq, Eq, Debug)]
pub struct PeerManagerError {
    pub kind: PeerManagerErrorKind,
}

impl PeerManagerError {
    pub fn from_kind(kind: PeerManagerErrorKind) -> (r: PeerManagerError)
        ensures
            r == (PeerManagerError { kind }),
    {
        PeerManagerError { kind }
    }
}

} // verus!
