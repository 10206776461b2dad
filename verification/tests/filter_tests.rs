use peerwire::ChainVerdict;
use peerwire::FilterAllowHash;
use peerwire::FilterBlockAllHash;
use peerwire::EitherFilter;
use peerwire::FilterChain;
use peerwire::FilterDecision;
use peerwire::InfoHash;
use peerwire::INFO_HASH_LEN;
use peerwire::combine_decisions;

#[test]
fn combinator_allow_overrides_block() {
    let ds = vec![FilterDecision::Block, FilterDecision::Allow, FilterDecision::Pass];
    assert_eq!(combine_decisions(&ds), FilterDecision::Allow);
}

#[test]
fn combinator_need_data_overrides_block() {
    let ds = vec![FilterDecision::Block, FilterDecision::NeedData];
    assert_eq!(combine_decisions(&ds), FilterDecision::NeedData);
}

#[test]
fn combinator_block_overrides_pass() {
    let ds = vec![FilterDecision::Pass, FilterDecision::Block, FilterDecision::Pass];
    assert_eq!(combine_decisions(&ds), FilterDecision::Block);
}

#[test]
fn combinator_all_pass() {
    let ds = vec![FilterDecision::Pass, FilterDecision::Pass];
    assert_eq!(combine_decisions(&ds), FilterDecision::Pass);
    let empty: Vec<FilterDecision> = Vec::new();
    assert_eq!(combine_decisions(&empty), FilterDecision::Pass);
}

#[test]
fn combinator_is_permutation_invariant() {
    let orders = [
        vec![FilterDecision::Allow, FilterDecision::NeedData, FilterDecision::Block],
        vec![FilterDecision::Block, FilterDecision::NeedData, FilterDecision::Allow],
        vec![FilterDecision::NeedData, FilterDecision::Allow, FilterDecision::Block],
    ];
    for ds in orders.iter() {
        assert_eq!(combine_decisions(ds), FilterDecision::Allow);
    }
    let orders = [
        vec![FilterDecision::NeedData, FilterDecision::Block, FilterDecision::Pass],
        vec![FilterDecision::Pass, FilterDecision::Block, FilterDecision::NeedData],
    ];
    for ds in orders.iter() {
        assert_eq!(combine_decisions(ds), FilterDecision::NeedData);
    }
}

#[test]
fn test_filter_whitelist_diff_data() {
    let allow_info_hash = InfoHash::new([55u8; INFO_HASH_LEN]);

    let mut chain: FilterChain<WhitelistFilter> = FilterChain::new();
    chain.add_filter(EitherFilter::First(FilterBlockAllHash));
    chain.add_filter(EitherFilter::Second(FilterAllowHash { hash: allow_info_hash }));

    // The whitelisted hash is admitted.
    let wanted = InfoHash::new([55u8; INFO_HASH_LEN]);
    assert_eq!(chain.on_hash(Some(&wanted)), FilterDecision::Allow);
    assert_eq!(chain.check(None, Some(&wanted), None, None), ChainVerdict::Admit);

    // A handshake for a different hash is blocked: it never completes.
    let other = InfoHash::new([54u8; INFO_HASH_LEN]);
    assert_eq!(chain.on_hash(Some(&other)), FilterDecision::Block);
    assert_eq!(chain.check(None, Some(&other), None, None), ChainVerdict::Reject);

    // While the hash is unknown the attempt stays pending.
    assert_eq!(chain.on_hash(None), FilterDecision::NeedData);
    assert_eq!(chain.check(None, None, None, None), ChainVerdict::Pending);
}

#[test]
fn empty_chain_admits_everything() {
    let chain: FilterChain<WhitelistFilter> = FilterChain::new();
    assert_eq!(chain.on_hash(None), FilterDecision::Pass);
    assert_eq!(chain.check(None, None, None, None), ChainVerdict::Admit);
}

#[test]
fn add_and_remove_are_idempotent() {
    let mut chain: FilterChain<WhitelistFilter> = FilterChain::new();
    let block = EitherFilter::First(FilterBlockAllHash);
    chain.add_filter(block);
    chain.add_filter(block);
    assert!(chain.contains_filter(&block));
    chain.remove_filter(&block);
    assert!(!chain.contains_filter(&block));
    // With the instance gone the chain is back to full admission.
    let hash = InfoHash::new([55u8; INFO_HASH_LEN]);
    assert_eq!(chain.on_hash(Some(&hash)), FilterDecision::Pass);
    chain.remove_filter(&block);
    assert!(!chain.contains_filter(&block));
}

/// The two whitelisting filters as one chain element type.
type WhitelistFilter = EitherFilter<FilterBlockAllHash, FilterAllowHash>;
