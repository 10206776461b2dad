//! The filter decision combinator: folds the verdicts that the registered
//! handshake filters rendered for one attribute into a single decision.

use vstd::prelude::*;

verus! {

/// One filter's verdict on a single handshake attribute.
///
/// `Pass` means the filter has no opinion and defers to its siblings;
/// `NeedData` means the filter cannot decide until the attribute becomes
/// known, so the handshake attempt must stay pending; `Allow` and `Block`
/// are decisive.
#[derive(Clone, Copy, PartialEq, Eq, Structural, Debug)]
pub enum FilterDecision {
    Allow,
    Block,
    Pass,
    NeedData,
}

/// The verdict obtained by combining the per-filter verdicts for one
/// attribute.
///
/// An explicit `Allow` is a whitelist entry and overrides everything; an
/// undecided filter (`NeedData`) holds the attempt open even against a
/// sibling's `Block`, because more data might still produce an `Allow`;
/// `Block` beats only the indifferent `Pass`.
pub open spec fn combined(ds: Seq<FilterDecision>) -> FilterDecision {
    if ds.contains(FilterDecision::Allow) {
        FilterDecision::Allow
    } else if ds.contains(FilterDecision::NeedData) {
        FilterDecision::NeedData
    } else if ds.contains(FilterDecision::Block) {
        FilterDecision::Block
    } else {
        FilterDecision::Pass
    }
}

/// Combines the decisions rendered by every registered filter for one
/// handshake attribute into the chain's verdict for that attribute.
pub fn combine_decisions(ds: &Vec<FilterDecision>) -> (r: FilterDecision)
    ensures
        r == combined(ds@),
{
    let mut saw_need_data = false;
    let mut saw_block = false;
    let mut i: usize = 0;
    while i < ds.len()
        invariant
            i <= ds.len(),
            forall|j: int| 0 <= j < i ==> ds@[j] != FilterDecision::Allow,
            saw_need_data == exists|j: int| 0 <= j < i && ds@[j] == FilterDecision::NeedData,
            saw_block == exists|j: int| 0 <= j < i && ds@[j] == FilterDecision::Block,
        decreases ds.len() - i,
    {
        match ds[i] {
            FilterDecision::Allow => {
                assert(ds@[i as int] == FilterDecision::Allow);
                return FilterDecision::Allow;
            },
            FilterDecision::NeedData => {
                assert(ds@[i as int] == FilterDecision::NeedData);
                saw_need_data = true;
            },
            FilterDecision::Block => {
                assert(ds@[i as int] == FilterDecision::Block);
                saw_block = true;
            },
            FilterDecision::Pass => {},
        }
        i = i + 1;
    }
    if saw_need_data {
        FilterDecision::NeedData
    } else if saw_block {
        FilterDecision::Block
    } else {
        FilterDecision::Pass
    }
}

/// The combinator's precedence, stated for every multiset of verdicts:
/// an `Allow` anywhere wins; otherwise a `NeedData` anywhere keeps the
/// attempt pending; otherwise a `Block` anywhere rejects; and a chain in
/// which every filter passed yields `Pass`.
pub proof fn lemma_combined_precedence(ds: Seq<FilterDecision>)
    ensures
        ds.contains(FilterDecision::Allow) ==> combined(ds) == FilterDecision::Allow,
        !ds.contains(FilterDecision::Allow) && ds.contains(FilterDecision::NeedData)
            ==> combined(ds) == FilterDecision::NeedData,
        !ds.contains(FilterDecision::Allow) && !ds.contains(FilterDecision::NeedData)
            && ds.contains(FilterDecision::Block) ==> combined(ds) == FilterDecision::Block,
        !ds.contains(FilterDecision::Allow) && !ds.contains(FilterDecision::NeedData)
            && !ds.contains(FilterDecision::Block) ==> combined(ds) == FilterDecision::Pass,
{
}

/// The combined verdict depends only on the multiset of per-filter
/// verdicts: permuting the filters' answers cannot change it.  This is
/// why the chain may hold its filters in any order.
pub proof fn lemma_combined_permutation(ds1: Seq<FilterDecision>, ds2: Seq<FilterDecision>)
    requires
        ds1.to_multiset() == ds2.to_multiset(),
    ensures
        combined(ds1) == combined(ds2),
{
    broadcast use vstd::seq_lib::group_to_multiset_ensures;

    assert forall|d: FilterDecision| ds1.contains(d) == ds2.contains(d) by {
        assert(ds1.contains(d) <==> ds1.to_multiset().count(d) > 0);
        assert(ds2.contains(d) <==> ds2.to_multiset().count(d) > 0);
    }
}

} // verus!
