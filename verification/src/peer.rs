//! Plain-value identity types for a peer connection: the info hash that
//! scoped the handshake, the peer id the remote presented, the remote
//! address, and the `PeerInfo` record that keys a live session.

use vstd::prelude::*;

verus! {

/// Length in bytes of an info hash.
pub const INFO_HASH_LEN: usize = 20;

/// Length in bytes of a peer id.
pub const PEER_ID_LEN: usize = 20;

/// Fixed-length identifier of the torrent a connection is scoped to.
#[derive(Clone, Copy, PartialEq, Eq, Hash, Debug)]
pub struct InfoHash {
    pub bytes: [u8; 20],
}

impl View for InfoHash {
    type V = Seq<u8>;

    open spec fn view(&self) -> Seq<u8> {
        self.bytes@
    }
}

impl InfoHash {
    pub fn new(bytes: [u8; 20]) -> (r: InfoHash)
        ensures
            r@ == bytes@,
    {
        InfoHash { bytes }
    }

    /// Structural equality over the twenty hash bytes.
    pub fn equals(&self, other: &InfoHash) -> (r: bool)
        ensures
            r == (*self == *other),
    {
        eq_bytes_20(&self.bytes, &other.bytes)
    }
}

/// Identifier a remote peer presents during the handshake.
#[derive(Clone, Copy, PartialEq, Eq, Hash, Debug)]
pub struct PeerId {
    pub bytes: [u8; 20],
}

impl View for PeerId {
    type V = Seq<u8>;

    open spec fn view(&self) -> Seq<u8> {
        self.bytes@
    }
}

impl PeerId {
    pub fn new(bytes: [u8; 20]) -> (r: PeerId)
        ensures
            r@ == bytes@,
    {
        PeerId { bytes }
    }

    /// Structural equality over the twenty id bytes.
    pub fn equals(&self, other: &PeerId) -> (r: bool)
        ensures
            r == (*self == *other),
    {
        eq_bytes_20(&self.bytes, &other.bytes)
    }
}

/// Remote endpoint of a connection, as plain values: a v4 address and a
/// port.
#[derive(Clone, Copy, PartialEq, Eq, Hash, Structural, Debug)]
pub struct PeerAddr {
    pub ip: u32,
    pub port: u16,
}

impl PeerAddr {
    pub fn new(ip: u32, port: u16) -> (r: PeerAddr)
        ensures
            r.ip == ip,
            r.port == port,
    {
        PeerAddr { ip, port }
    }
}

/// Immutable identity of an admitted session: created at admission time,
/// used as the unique key of the supervisor's session map, dropped when
/// the session is removed.  Equality is structural over all fields.
#[derive(Clone, Copy, PartialEq, Eq, Hash, Debug)]
pub struct PeerInfo {
    pub addr: PeerAddr,
    pub peer_id: PeerId,
    pub hash: InfoHash,
}

impl PeerInfo {
    pub fn new(addr: PeerAddr, peer_id: PeerId, hash: InfoHash) -> (r: PeerInfo)
        ensures
            r == (PeerInfo { addr, peer_id, hash }),
    {
        PeerInfo { addr, peer_id, hash }
    }

    /// Structural equality over address, peer id and info hash.
    pub fn equals(&self, other: &PeerInfo) -> (r: bool)
        ensures
            r == (*self == *other),
    {
        self.addr.ip == other.addr.ip && self.addr.port == other.addr.port
            && self.peer_id.equals(&other.peer_id) && self.hash.equals(&other.hash)
    }
}

/// Byte-wise equality of two fixed-length buffers.
fn eq_bytes_20(a: &[u8; 20], b: &[u8; 20]) -> (r: bool)
    ensures
        r == (*a == *b),
{
    broadcast use vstd::array::group_array_axioms;

    let mut i: usize = 0;
    while i < 20
        invariant
            i <= 20,
            forall|j: int| 0 <= j < i ==> a@[j] == b@[j],
        decreases 20 - i,
    {
        if a[i] != b[i] {
            assert(a@[i as int] != b@[i as int]);
            assert(*a != *b);
            return false;
        }
        i = i + 1;
    }
    assert(*a =~= *b);
    true
}

} // verus!
