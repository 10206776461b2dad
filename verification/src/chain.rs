//! The handshake filter chain: an order-insensitive collection of filter
//! instances, each judging a connection on the attributes a handshake
//! reveals progressively (protocol identifier, info hash, peer id,
//! remote address).  Every query hands each filter the attribute value,
//! or an absence marker while it is not yet known, and folds the answers
//! with the combinator.

use vstd::prelude::*;

use crate::filter::combine_decisions;
use crate::filter::combined;
use crate::filter::FilterDecision;
use crate::peer::InfoHash;
use crate::peer::PeerAddr;
use crate::peer::PeerId;
use crate::seqs::distinct_seq;

verus! {

/// Protocol identifier presented in the handshake header.
#[derive(Clone, PartialEq, Eq, Debug)]
pub enum Protocol {
    BitTorrent,
    Custom(Vec<u8>),
}

/// The attribute value a filter is queried with, as a mathematical
/// value: `None` while the handshake has not yet revealed the attribute.
pub open spec fn opt_value<T>(opt: Option<&T>) -> Option<T> {
    match opt {
        Option::Some(t) => Option::Some(*t),
        Option::None => Option::None,
    }
}

/// A pure predicate over handshake-visible data.
///
/// Filters are queried once per attribute each time more of the
/// handshake becomes known, so an implementation must be a pure function
/// of the attribute value alone: the spec functions fix each verdict,
/// and the executable methods must return exactly them, which makes
/// repeated queries idempotent by construction.  A filter that cannot
/// judge an attribute it has not seen yet must answer `NeedData`, never
/// guess.  `eq_filter` is the structural equality the chain uses for
/// idempotent add and for removal of a previously added instance.
pub trait HandshakeFilter: Sized {
    spec fn spec_on_protocol(&self, prot: Option<Protocol>) -> FilterDecision;

    spec fn spec_on_hash(&self, hash: Option<InfoHash>) -> FilterDecision;

    spec fn spec_on_pid(&self, pid: Option<PeerId>) -> FilterDecision;

    spec fn spec_on_addr(&self, addr: Option<PeerAddr>) -> FilterDecision;

    fn on_protocol(&self, opt_prot: Option<&Protocol>) -> (d: FilterDecision)
        ensures
            d == self.spec_on_protocol(opt_value(opt_prot)),
    ;

    fn on_hash(&self, opt_hash: Option<&InfoHash>) -> (d: FilterDecision)
        ensures
            d == self.spec_on_hash(opt_value(opt_hash)),
    ;

    fn on_pid(&self, opt_pid: Option<&PeerId>) -> (d: FilterDecision)
        ensures
            d == self.spec_on_pid(opt_value(opt_pid)),
    ;

    fn on_addr(&self, opt_addr: Option<&PeerAddr>) -> (d: FilterDecision)
        ensures
            d == self.spec_on_addr(opt_value(opt_addr)),
    ;

    fn eq_filter(&self, other: &Self) -> (r: bool)
        ensures
            r == (*self == *other),
    ;
}

/// What the chain answers once every attribute's combined decision is
/// known: admit when each attribute came out `Allow` (or `Pass`, the
/// posture with no opinionated filter), reject as soon as any attribute
/// combined to `Block`, and stay pending while any attribute still needs
/// data.
#[derive(Clone, Copy, PartialEq, Eq, Structural, Debug)]
pub enum ChainVerdict {
    Admit,
    Reject,
    Pending,
}

/// The chain's overall admission verdict from the four per-attribute
/// combined decisions.
pub open spec fn chain_verdict(
    dp: FilterDecision,
    dh: FilterDecision,
    di: FilterDecision,
    da: FilterDecision,
) -> ChainVerdict {
    if dp == FilterDecision::Block || dh == FilterDecision::Block || di == FilterDecision::Block
        || da == FilterDecision::Block {
        ChainVerdict::Reject
    } else if dp == FilterDecision::NeedData || dh == FilterDecision::NeedData
        || di == FilterDecision::NeedData || da == FilterDecision::NeedData {
        ChainVerdict::Pending
    } else {
        ChainVerdict::Admit
    }
}

/// The verdicts the registered filters render for the protocol
/// attribute, in registration order.
pub open spec fn protocol_decisions<F: HandshakeFilter>(
    fs: Seq<F>,
    prot: Option<Protocol>,
) -> Seq<FilterDecision> {
    fs.map_values(|g: F| g.spec_on_protocol(prot))
}

/// The verdicts the registered filters render for the info-hash
/// attribute, in registration order.
pub open spec fn hash_decisions<F: HandshakeFilter>(
    fs: Seq<F>,
    hash: Option<InfoHash>,
) -> Seq<FilterDecision> {
    fs.map_values(|g: F| g.spec_on_hash(hash))
}

/// The verdicts the registered filters render for the peer-id
/// attribute, in registration order.
pub open spec fn pid_decisions<F: HandshakeFilter>(
    fs: Seq<F>,
    pid: Option<PeerId>,
) -> Seq<FilterDecision> {
    fs.map_values(|g: F| g.spec_on_pid(pid))
}

/// The verdicts the registered filters render for the remote-address
/// attribute, in registration order.
pub open spec fn addr_decisions<F: HandshakeFilter>(
    fs: Seq<F>,
    addr: Option<PeerAddr>,
) -> Seq<FilterDecision> {
    fs.map_values(|g: F| g.spec_on_addr(addr))
}

/// An ordered collection of filter instances.  Order never affects a
/// combined verdict (the combinator is permutation-invariant), but the
/// chain keeps each registered instance exactly once so that add and
/// remove are idempotent.
pub struct FilterChain<F> {
    filters: Vec<F>,
}

impl<F> View for FilterChain<F> {
    type V = Seq<F>;

    closed spec fn view(&self) -> Seq<F> {
        self.filters@
    }
}

impl<F: HandshakeFilter> FilterChain<F> {
    /// No filter instance is registered twice.
    pub open spec fn wf(&self) -> bool {
        distinct_seq(self@)
    }

    /// An empty chain: the default posture is full admission.
    pub fn new() -> (r: FilterChain<F>)
        ensures
            r@ == Seq::<F>::empty(),
            r.wf(),
    {
        let r = FilterChain { filters: Vec::new() };
        proof {
            assert(r@ =~= Seq::<F>::empty());
        }
        r
    }

    /// Whether this exact filter instance is registered.
    pub fn contains_filter(&self, filter: &F) -> (r: bool)
        ensures
            r == self@.contains(*filter),
    {
        let n = self.filters.len();
        let mut i: usize = 0;
        while i < n
            invariant
                n == self@.len(),
                i <= n,
                forall|j: int| 0 <= j < i ==> self@[j] != *filter,
            decreases n - i,
        {
            if self.filters[i].eq_filter(filter) {
                assert(self@[i as int] == *filter);
                return true;
            }
            i = i + 1;
        }
        false
    }

    /// Registers a filter instance; adding one that is already present
    /// leaves the chain unchanged.
    pub fn add_filter(&mut self, filter: F)
        requires
            old(self).wf(),
        ensures
            final(self).wf(),
            old(self)@.contains(filter) ==> final(self)@ == old(self)@,
            !old(self)@.contains(filter) ==> final(self)@ == old(self)@.push(filter),
    {
        if !self.contains_filter(&filter) {
            let ghost pre = self@;
            self.filters.push(filter);
            proof {
                crate::seqs::lemma_distinct_push(pre, filter);
            }
        }
    }

    /// Removes a previously added filter instance; removing one that is
    /// not present leaves the chain unchanged.
    pub fn remove_filter(&mut self, filter: &F)
        requires
            old(self).wf(),
        ensures
            final(self).wf(),
            final(self)@ == old(self)@.remove_value(*filter),
            !final(self)@.contains(*filter),
            forall|g: F| g != *filter ==> (final(self)@.contains(g) == old(self)@.contains(g)),
    {
        let ghost pre = self@;
        let n = self.filters.len();
        let mut i: usize = 0;
        while i < n
            invariant
                n == self@.len(),
                self@ == pre,
                pre == old(self)@,
                distinct_seq(pre),
                i <= n,
                forall|j: int| 0 <= j < i ==> self@[j] != *filter,
            decreases n - i,
        {
            if self.filters[i].eq_filter(filter) {
                assert(pre[i as int] == *filter);
                self.filters.remove(i);
                proof {
                    self.lemma_removed_at(pre, i as int, *filter);
                }
                return;
            }
            i = i + 1;
        }
        proof {
            assert(!pre.contains(*filter));
            pre.index_of_first_ensures(*filter);
            assert(self@ =~= pre.remove_value(*filter));
        }
    }

    /// After removing the sole occurrence of `filter` at index `at`,
    /// the chain is the old one with that index taken out.
    proof fn lemma_removed_at(&self, pre: Seq<F>, at: int, filter: F)
        requires
            distinct_seq(pre),
            0 <= at < pre.len(),
            pre[at] == filter,
            forall|j: int| 0 <= j < at ==> pre[j] != filter,
            self@ == pre.remove(at),
        ensures
            self.wf(),
            self@ == pre.remove_value(filter),
            !self@.contains(filter),
            forall|g: F| g != filter ==> (self@.contains(g) == pre.contains(g)),
    {
        crate::seqs::lemma_distinct_remove_at(pre, at, filter);
    }

    /// Queries every filter with the (possibly still unknown) protocol
    /// identifier and combines the verdicts.
    pub fn on_protocol(&self, opt_prot: Option<&Protocol>) -> (d: FilterDecision)
        ensures
            d == self.combined_on_protocol(opt_value(opt_prot)),
    {
        let ghost v = opt_value(opt_prot);
        let mut decisions: Vec<FilterDecision> = Vec::new();
        let n = self.filters.len();
        let mut i: usize = 0;
        while i < n
            invariant
                n == self@.len(),
                i <= n,
                v == opt_value(opt_prot),
                decisions@ == protocol_decisions(self@.take(i as int), v),
            decreases n - i,
        {
            let d = self.filters[i].on_protocol(opt_prot);
            decisions.push(d);
            proof {
                assert(self@.take(i as int + 1) =~= self@.take(i as int).push(self@[i as int]));
                assert(decisions@ =~= protocol_decisions(self@.take(i as int + 1), v));
            }
            i = i + 1;
        }
        proof {
            assert(self@.take(n as int) =~= self@);
        }
        combine_decisions(&decisions)
    }

    /// Queries every filter with the (possibly still unknown) info hash
    /// and combines the verdicts.
    pub fn on_hash(&self, opt_hash: Option<&InfoHash>) -> (d: FilterDecision)
        ensures
            d == self.combined_on_hash(opt_value(opt_hash)),
    {
        let ghost v = opt_value(opt_hash);
        let mut decisions: Vec<FilterDecision> = Vec::new();
        let n = self.filters.len();
        let mut i: usize = 0;
        while i < n
            invariant
                n == self@.len(),
                i <= n,
                v == opt_value(opt_hash),
                decisions@ == hash_decisions(self@.take(i as int), v),
            decreases n - i,
        {
            let d = self.filters[i].on_hash(opt_hash);
            decisions.push(d);
            proof {
                assert(self@.take(i as int + 1) =~= self@.take(i as int).push(self@[i as int]));
                assert(decisions@ =~= hash_decisions(self@.take(i as int + 1), v));
            }
            i = i + 1;
        }
        proof {
            assert(self@.take(n as int) =~= self@);
        }
        combine_decisions(&decisions)
    }

    /// Queries every filter with the (possibly still unknown) peer id
    /// and combines the verdicts.
    pub fn on_pid(&self, opt_pid: Option<&PeerId>) -> (d: FilterDecision)
        ensures
            d == self.combined_on_pid(opt_value(opt_pid)),
    {
        let ghost v = opt_value(opt_pid);
        let mut decisions: Vec<FilterDecision> = Vec::new();
        let n = self.filters.len();
        let mut i: usize = 0;
        while i < n
            invariant
                n == self@.len(),
                i <= n,
                v == opt_value(opt_pid),
                decisions@ == pid_decisions(self@.take(i as int), v),
            decreases n - i,
        {
            let d = self.filters[i].on_pid(opt_pid);
            decisions.push(d);
            proof {
                assert(self@.take(i as int + 1) =~= self@.take(i as int).push(self@[i as int]));
                assert(decisions@ =~= pid_decisions(self@.take(i as int + 1), v));
            }
            i = i + 1;
        }
        proof {
            assert(self@.take(n as int) =~= self@);
        }
        combine_decisions(&decisions)
    }

    /// Queries every filter with the (possibly still unknown) remote
    /// address and combines the verdicts.
    pub fn on_addr(&self, opt_addr: Option<&PeerAddr>) -> (d: FilterDecision)
        ensures
            d == self.combined_on_addr(opt_value(opt_addr)),
    {
        let ghost v = opt_value(opt_addr);
        let mut decisions: Vec<FilterDecision> = Vec::new();
        let n = self.filters.len();
        let mut i: usize = 0;
        while i < n
            invariant
                n == self@.len(),
                i <= n,
                v == opt_value(opt_addr),
                decisions@ == addr_decisions(self@.take(i as int), v),
            decreases n - i,
        {
            let d = self.filters[i].on_addr(opt_addr);
            decisions.push(d);
            proof {
                assert(self@.take(i as int + 1) =~= self@.take(i as int).push(self@[i as int]));
                assert(decisions@ =~= addr_decisions(self@.take(i as int + 1), v));
            }
            i = i + 1;
        }
        proof {
            assert(self@.take(n as int) =~= self@);
        }
        combine_decisions(&decisions)
    }

    /// Combined decision for the protocol attribute.
    pub open spec fn combined_on_protocol(&self, prot: Option<Protocol>) -> FilterDecision {
        combined(protocol_decisions(self@, prot))
    }

    /// Combined decision for the info-hash attribute.
    pub open spec fn combined_on_hash(&self, hash: Option<InfoHash>) -> FilterDecision {
        combined(hash_decisions(self@, hash))
    }

    /// Combined decision for the peer-id attribute.
    pub open spec fn combined_on_pid(&self, pid: Option<PeerId>) -> FilterDecision {
        combined(pid_decisions(self@, pid))
    }

    /// Combined decision for the remote-address attribute.
    pub open spec fn combined_on_addr(&self, addr: Option<PeerAddr>) -> FilterDecision {
        combined(addr_decisions(self@, addr))
    }

    /// The overall admission verdict for a handshake whose attributes
    /// are known as far as the arguments say: rejected as soon as any
    /// attribute combines to `Block`, pending while any still needs
    /// data, admitted otherwise (`Pass` counts as `Allow`, so the empty
    /// chain admits everything).
    pub fn check(
        &self,
        opt_prot: Option<&Protocol>,
        opt_hash: Option<&InfoHash>,
        opt_pid: Option<&PeerId>,
        opt_addr: Option<&PeerAddr>,
    ) -> (v: ChainVerdict)
        ensures
            v == chain_verdict(
                self.combined_on_protocol(opt_value(opt_prot)),
                self.combined_on_hash(opt_value(opt_hash)),
                self.combined_on_pid(opt_value(opt_pid)),
                self.combined_on_addr(opt_value(opt_addr)),
            ),
    {
        let dp = self.on_protocol(opt_prot);
        let dh = self.on_hash(opt_hash);
        let di = self.on_pid(opt_pid);
        let da = self.on_addr(opt_addr);
        if dp == FilterDecision::Block || dh == FilterDecision::Block
            || di == FilterDecision::Block || da == FilterDecision::Block {
            ChainVerdict::Reject
        } else if dp == FilterDecision::NeedData || dh == FilterDecision::NeedData
            || di == FilterDecision::NeedData || da == FilterDecision::NeedData {
            ChainVerdict::Pending
        } else {
            ChainVerdict::Admit
        }
    }
}

/// A filter that votes to block every connection, whatever its info
/// hash, and has no opinion on the other attributes.  Registered
/// together with a whitelisting filter it turns the chain into a
/// whitelist.
#[derive(Clone, Copy, PartialEq, Eq, Structural, Debug)]
pub struct FilterBlockAllHash;

impl HandshakeFilter for FilterBlockAllHash {
    open spec fn spec_on_protocol(&self, prot: Option<Protocol>) -> FilterDecision {
        FilterDecision::Pass
    }

    open spec fn spec_on_hash(&self, hash: Option<InfoHash>) -> FilterDecision {
        FilterDecision::Block
    }

    open spec fn spec_on_pid(&self, pid: Option<PeerId>) -> FilterDecision {
        FilterDecision::Pass
    }

    open spec fn spec_on_addr(&self, addr: Option<PeerAddr>) -> FilterDecision {
        FilterDecision::Pass
    }

    fn on_protocol(&self, opt_prot: Option<&Protocol>) -> FilterDecision {
        FilterDecision::Pass
    }

    fn on_hash(&self, opt_hash: Option<&InfoHash>) -> FilterDecision {
        FilterDecision::Block
    }

    fn on_pid(&self, opt_pid: Option<&PeerId>) -> FilterDecision {
        FilterDecision::Pass
    }

    fn on_addr(&self, opt_addr: Option<&PeerAddr>) -> FilterDecision {
        FilterDecision::Pass
    }

    fn eq_filter(&self, other: &Self) -> bool {
        true
    }
}

/// A filter that whitelists exactly one info hash: it answers `Allow`
/// for that hash, `Pass` for any other, and `NeedData` while the hash is
/// not yet known, so that a sibling's blanket `Block` cannot finalize
/// rejection prematurely.
#[derive(Clone, Copy, PartialEq, Eq, Debug)]
pub struct FilterAllowHash {
    pub hash: InfoHash,
}

impl HandshakeFilter for FilterAllowHash {
    open spec fn spec_on_protocol(&self, prot: Option<Protocol>) -> FilterDecision {
        FilterDecision::Pass
    }

    open spec fn spec_on_hash(&self, hash: Option<InfoHash>) -> FilterDecision {
        match hash {
            Option::Some(h) => if h == self.hash {
                FilterDecision::Allow
            } else {
                FilterDecision::Pass
            },
            Option::None => FilterDecision::NeedData,
        }
    }

    open spec fn spec_on_pid(&self, pid: Option<PeerId>) -> FilterDecision {
        FilterDecision::Pass
    }

    open spec fn spec_on_addr(&self, addr: Option<PeerAddr>) -> FilterDecision {
        FilterDecision::Pass
    }

    fn on_protocol(&self, opt_prot: Option<&Protocol>) -> FilterDecision {
        FilterDecision::Pass
    }

    fn on_hash(&self, opt_hash: Option<&InfoHash>) -> FilterDecision {
        match opt_hash {
            Option::Some(h) => if h.equals(&self.hash) {
                FilterDecision::Allow
            } else {
                FilterDecision::Pass
            },
            Option::None => FilterDecision::NeedData,
        }
    }

    fn on_pid(&self, opt_pid: Option<&PeerId>) -> FilterDecision {
        FilterDecision::Pass
    }

    fn on_addr(&self, opt_addr: Option<&PeerAddr>) -> FilterDecision {
        FilterDecision::Pass
    }

    fn eq_filter(&self, other: &Self) -> bool {
        self.hash.equals(&other.hash)
    }
}

/// One of two filter types.  A chain's element type is fixed, so mixed
/// chains (the whitelist pattern: a blanket block plus an allow
/// exception) nest their filters in this combinator instead of behind
/// trait objects.
#[derive(Clone, Copy, PartialEq, Eq, Debug)]
pub enum EitherFilter<A, B> {
    First(A),
    Second(B),
}

impl<A: HandshakeFilter, B: HandshakeFilter> HandshakeFilter for EitherFilter<A, B> {
    open spec fn spec_on_protocol(&self, prot: Option<Protocol>) -> FilterDecision {
        match self {
            EitherFilter::First(f) => f.spec_on_protocol(prot),
            EitherFilter::Second(f) => f.spec_on_protocol(prot),
        }
    }

    open spec fn spec_on_hash(&self, hash: Option<InfoHash>) -> FilterDecision {
        match self {
            EitherFilter::First(f) => f.spec_on_hash(hash),
            EitherFilter::Second(f) => f.spec_on_hash(hash),
        }
    }

    open spec fn spec_on_pid(&self, pid: Option<PeerId>) -> FilterDecision {
        match self {
            EitherFilter::First(f) => f.spec_on_pid(pid),
            EitherFilter::Second(f) => f.spec_on_pid(pid),
        }
    }

    open spec fn spec_on_addr(&self, addr: Option<PeerAddr>) -> FilterDecision {
        match self {
            EitherFilter::First(f) => f.spec_on_addr(addr),
            EitherFilter::Second(f) => f.spec_on_addr(addr),
        }
    }

    fn on_protocol(&self, opt_prot: Option<&Protocol>) -> FilterDecision {
        match self {
            EitherFilter::First(f) => f.on_protocol(opt_prot),
            EitherFilter::Second(f) => f.on_protocol(opt_prot),
        }
    }

    fn on_hash(&self, opt_hash: Option<&InfoHash>) -> FilterDecision {
        match self {
            EitherFilter::First(f) => f.on_hash(opt_hash),
            EitherFilter::Second(f) => f.on_hash(opt_hash),
        }
    }

    fn on_pid(&self, opt_pid: Option<&PeerId>) -> FilterDecision {
        match self {
            EitherFilter::First(f) => f.on_pid(opt_pid),
            EitherFilter::Second(f) => f.on_pid(opt_pid),
        }
    }

    fn on_addr(&self, opt_addr: Option<&PeerAddr>) -> FilterDecision {
        match self {
            EitherFilter::First(f) => f.on_addr(opt_addr),
            EitherFilter::Second(f) => f.on_addr(opt_addr),
        }
    }

    fn eq_filter(&self, other: &Self) -> bool {
        match (self, other) {
            (EitherFilter::First(a), EitherFilter::First(b)) => a.eq_filter(b),
            (EitherFilter::Second(a), EitherFilter::Second(b)) => a.eq_filter(b),
            _ => false,
        }
    }
}

/// The default posture with zero filters is full admission: an empty
/// chain combines every attribute to `Pass`, and `Pass` on every
/// attribute admits the handshake.
pub proof fn lemma_empty_chain_admits<F: HandshakeFilter>(
    chain: FilterChain<F>,
    prot: Option<Protocol>,
    hash: Option<InfoHash>,
    pid: Option<PeerId>,
    addr: Option<PeerAddr>,
)
    requires
        chain@.len() == 0,
    ensures
        chain.combined_on_protocol(prot) == FilterDecision::Pass,
        chain.combined_on_hash(hash) == FilterDecision::Pass,
        chain.combined_on_pid(pid) == FilterDecision::Pass,
        chain.combined_on_addr(addr) == FilterDecision::Pass,
        chain_verdict(
            chain.combined_on_protocol(prot),
            chain.combined_on_hash(hash),
            chain.combined_on_pid(pid),
            chain.combined_on_addr(addr),
        ) == ChainVerdict::Admit,
{
}

} // verus!
