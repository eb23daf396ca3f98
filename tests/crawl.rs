use relation_server::engine::{capable_sources, normalize, Crawl, RoundStatus, Source};
use relation_server::model::{Chain, ContractCategory, Platform, Target};
use relation_server::graph::GraphStore;
use relation_server::upstream::the_graph::{Account, Domain, QueryResponse, TheGraph};
use relation_server::upstream::FetchError;

fn eth(s: &str) -> Target {
    Target::Identity(Platform::Ethereum, s.to_string())
}

fn ens(name: &str) -> Target {
    Target::NFT(Chain::Ethereum, ContractCategory::ENS, "0x57f1".to_string(), name.to_string())
}

#[test]
fn cycle_terminates() {
    let mut c = Crawl::new(&eth("0xABC"), 100);
    let r1 = c.next_round();
    assert_eq!(r1.len(), 1);
    assert!(r1[0].same(&eth("0xabc")));
    assert_eq!(c.absorb(vec![Ok(vec![ens("abc.eth")])]), RoundStatus::Completed);
    let r2 = c.next_round();
    assert_eq!(r2.len(), 1);
    c.absorb(vec![Ok(vec![eth("0xAbC")])]);
    let r3 = c.next_round();
    assert!(r3.is_empty());
    assert!(c.is_done());
    assert_eq!(c.visited_count(), 2);
}

#[test]
fn failed_fetch_does_not_block_others() {
    let mut c = Crawl::new(&eth("0x1"), 100);
    c.next_round();
    let status = c.absorb(vec![Err(FetchError::TransportTimeout), Ok(vec![eth("0x2"), eth("0x3")])]);
    assert_eq!(status, RoundStatus::PartiallyFailed);
    let r = c.next_round();
    assert_eq!(r.len(), 2);
}

#[test]
fn round_skips_duplicates_and_respects_bound() {
    let mut c = Crawl::new(&eth("0x1"), 3);
    c.next_round();
    c.absorb(vec![Ok(vec![eth("0x2"), eth("0x2"), eth("0x1"), eth("0x3"), eth("0x4")])]);
    let r = c.next_round();
    assert_eq!(r.len(), 2);
    assert!(r[0].same(&eth("0x2")));
    assert!(r[1].same(&eth("0x3")));
    assert_eq!(c.visited_count(), 3);
    c.absorb(vec![Ok(vec![eth("0x5")])]);
    assert!(c.next_round().is_empty());
}

#[test]
fn dispatch_by_capability() {
    let s = capable_sources(&eth("0x1"));
    assert_eq!(s, vec![Source::EnsReverse, Source::ProofService, Source::SpaceId, Source::SybilList, Source::TheGraph]);
    let s = capable_sources(&Target::Identity(Platform::Twitter, "a".to_string()));
    assert_eq!(s, vec![Source::ProofService]);
    let s = capable_sources(&ens("a.eth"));
    assert_eq!(s, vec![Source::TheGraph]);
    assert!(capable_sources(&Target::Identity(Platform::Lens, "a".to_string())).is_empty());
    assert!(!Source::EnsReverse.can_fetch(&ens("a.eth")));
}

#[test]
fn normalize_lowercases_ethereum_only() {
    assert!(normalize(&eth("0xABC")).same(&eth("0xabc")));
    let tw = Target::Identity(Platform::Twitter, "Alice".to_string());
    assert!(normalize(&tw).same(&tw));
}

#[test]
fn failed_answer_does_not_block_writes() {
    let seed = eth("0x1");
    let mut c = Crawl::new(&seed, 100);
    let mut store = GraphStore::new();
    let round = c.next_round();
    let res = QueryResponse {
        domains: vec![Domain {
            name: "a.eth".to_string(),
            created_at: "1".to_string(),
            events: vec![],
            resolved_address: None,
            owner: Account { id: "0x1".to_string() },
        }],
        wrapped_domains: vec![],
    };
    let ok = TheGraph::perform_fetch(&round[0], res, 5);
    let status = c.complete_round(&mut store, vec![Err(FetchError::NoResult), Ok(ok)]);
    assert_eq!(status, RoundStatus::PartiallyFailed);
    assert_eq!(store.identity_count(), 1);
    assert_eq!(store.contract_count(), 1);
    assert_eq!(store.edge_count(), 2);
    let next = c.next_round();
    assert_eq!(next.len(), 1);
    assert!(matches!(&next[0], Target::NFT(_, _, _, n) if n == "a.eth"));
}
