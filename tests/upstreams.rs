use relation_server::graph::{GraphStore, NodeKey, RelationKind};
use relation_server::model::{Chain, ContractCategory, DataSource, Platform, Target};
use relation_server::upstream::ens_reverse::{ENSReverseLookup, Response};
use relation_server::upstream::proof_client::{
    ErrorResponse, ProofClient, ProofPersona, ProofQueryResponse, ProofQueryResponsePagination, ProofRecord,
};
use relation_server::upstream::space_id::{BadResponse, ResolveResponse, ReverseResolveResponse, SpaceId};
use relation_server::upstream::sybil_list::{SybilList, TwitterItem, VerifiedItem};
use relation_server::upstream::the_graph::{Account, Domain, DomainEvent, QueryResponse, TheGraph, WrappedDomain, QUERY_BY_ENS, QUERY_BY_WALLET};
use relation_server::upstream::{check_status, make_uri, FetchError};

fn eth(s: &str) -> Target {
    Target::Identity(Platform::Ethereum, s.to_string())
}

fn record(platform: &str, identity: &str, created_at: &str) -> ProofRecord {
    ProofRecord {
        platform: platform.to_string(),
        identity: identity.to_string(),
        created_at: created_at.to_string(),
        last_checked_at: created_at.to_string(),
        is_valid: true,
        invalid_reason: String::new(),
    }
}

fn proof_answer(records: Vec<ProofRecord>) -> ProofQueryResponse {
    ProofQueryResponse {
        pagination: ProofQueryResponsePagination { total: 1, per: 20, current: 1, next: 0 },
        ids: vec![ProofPersona { persona: "0x03persona".to_string(), proofs: records }],
    }
}

#[test]
fn status_and_uri_checks() {
    assert!(check_status(200, String::new()).is_ok());
    assert!(check_status(299, String::new()).is_ok());
    assert!(matches!(check_status(404, "gone".to_string()), Err(FetchError::UpstreamHttpError(404, m)) if m == "gone"));
    assert!(matches!(check_status(199, String::new()), Err(FetchError::UpstreamHttpError(199, _))));
    assert!(make_uri("https://example.com/a?b=c").is_ok());
    assert!(matches!(make_uri("not a uri"), Err(FetchError::ParamError)));
}

#[test]
fn ens_reverse_lowercases_and_records_name() {
    let t = eth("0xABCdef");
    let o = ENSReverseLookup::process(&t, Response { reverse_record: Some("alice.eth".to_string()), domains: vec![] }, 5);
    assert!(o.next.is_empty());
    let mut g = GraphStore::new();
    g.apply_all(o.facts);
    let v = g.find_by_platform_identity(Platform::Ethereum, "0xabcdef").unwrap();
    assert_eq!(v.display_name, Some("alice.eth".to_string()));
    assert!(g.find_by_platform_identity(Platform::Ethereum, "0xABCdef").is_none());
    let u = ENSReverseLookup::request_uri("https://ens.example/", "0xABC").unwrap();
    assert_eq!(u.to_string(), "https://ens.example/0xabc");
}

#[test]
fn ens_reverse_cleared_record_retracts_name() {
    let t = eth("0xabc");
    let mut g = GraphStore::new();
    g.apply_all(ENSReverseLookup::process(&t, Response { reverse_record: Some("alice".to_string()), domains: vec![] }, 1).facts);
    g.apply_all(ENSReverseLookup::process(&t, Response { reverse_record: None, domains: vec![] }, 2).facts);
    let v = g.find_by_platform_identity(Platform::Ethereum, "0xabc").unwrap();
    assert_eq!(v.display_name, Some(String::new()));
}

#[test]
fn fetchers_ignore_targets_they_cannot_fetch() {
    let tw = Target::Identity(Platform::Twitter, "alice".to_string());
    assert!(!ENSReverseLookup::can_fetch(&tw));
    let o = ENSReverseLookup::process(&tw, Response { reverse_record: Some("x".to_string()), domains: vec![] }, 1);
    assert!(o.facts.is_empty() && o.next.is_empty());
    let o = SybilList::process(&tw, vec![], 1);
    assert!(o.facts.is_empty() && o.next.is_empty());
    let dotbit = Target::Identity(Platform::Dotbit, "a.bit".to_string());
    assert!(!SpaceId::can_fetch(&dotbit));
    assert!(!TheGraph::can_fetch(&dotbit));
    let o = TheGraph::perform_fetch(&dotbit, QueryResponse { domains: vec![], wrapped_domains: vec![] }, 1);
    assert!(o.facts.is_empty() && o.next.is_empty());
    let r = ProofClient::process(&dotbit, proof_answer(vec![record("twitter", "a", "1")]), 1).unwrap();
    assert!(r.facts.is_empty() && r.next.is_empty());
}

#[test]
fn space_id_answers() {
    assert_eq!(SpaceId::address_of(Ok(ResolveResponse { code: 0, address: "0xAbC".to_string() })).unwrap(), "0xAbC");
    assert!(matches!(
        SpaceId::address_of(Ok(ResolveResponse { code: 0, address: "0x0000000000000000000000000000000000000000".to_string() })),
        Err(FetchError::NoResult)
    ));
    assert!(matches!(
        SpaceId::address_of(Err(BadResponse { code: 1, msg: "invalid".to_string() })),
        Err(FetchError::UpstreamRejected(1, m)) if m == "invalid"
    ));
    assert_eq!(SpaceId::name_of(Ok(ReverseResolveResponse { code: 0, name: None })).unwrap(), None);
    let u = SpaceId::get_address_uri("https://sid.example", "abc.bnb").unwrap();
    assert_eq!(u.to_string(), "https://sid.example/v1/getAddress?tld=bnb&domain=abc.bnb");
    let u = SpaceId::get_name_uri("https://sid.example", "0xabc").unwrap();
    assert_eq!(u.to_string(), "https://sid.example/v1/getName?tld=bnb&address=0xabc");
}

#[test]
fn space_id_resolution_is_directed() {
    let o = SpaceId::fetch_address_by_domain("abc.bnb", "0xAB", Some("other.bnb".to_string()), 7);
    assert_eq!(o.facts.len(), 3);
    assert_eq!(o.next.len(), 1);
    assert!(o.next[0].same(&eth("0xab")));
    let mut g = GraphStore::new();
    g.apply_all(o.facts);
    let sid = NodeKey::Identity(Platform::SpaceId, "abc.bnb".to_string());
    let other = NodeKey::Identity(Platform::SpaceId, "other.bnb".to_string());
    let addr = NodeKey::Identity(Platform::Ethereum, "0xab".to_string());
    assert_eq!(g.count_relations(&sid, &addr, RelationKind::Resolve, DataSource::SpaceId), 1);
    assert_eq!(g.count_relations(&addr, &other, RelationKind::Resolve, DataSource::SpaceId), 1);
    assert_eq!(g.count_relations(&addr, &sid, RelationKind::Resolve, DataSource::SpaceId), 0);
    assert_eq!(g.count_relations(&addr, &sid, RelationKind::Hold, DataSource::SpaceId), 1);
}

#[test]
fn space_id_domain_by_address() {
    let o = SpaceId::fetch_domain_by_address("0xAB", None, 1);
    assert!(o.facts.is_empty() && o.next.is_empty());
    let o = SpaceId::fetch_domain_by_address("0xAB", Some("abc.bnb".to_string()), 1);
    assert_eq!(o.facts.len(), 3);
    let mut g = GraphStore::new();
    g.apply_all(o.facts);
    assert_eq!(g.identity_count(), 2);
    assert_eq!(g.edge_count(), 3);
    assert!(o.next[0].same(&Target::Identity(Platform::SpaceId, "abc.bnb".to_string())));
}

#[test]
fn proof_service_links_target_to_twitter() {
    let seed = "0x2467ee73bb0c5acdeedf4e6cc5aa685741126872";
    let answer = proof_answer(vec![record("ethereum", seed, "1650000000"), record("twitter", "alice_tw", "1650000001")]);
    let o = ProofClient::process(&eth(seed), answer, 1700000000).unwrap();
    assert_eq!(o.next.len(), 1);
    let mut g = GraphStore::new();
    g.apply_all(o.facts);
    assert!(g.find_by_platform_identity(Platform::Ethereum, seed).is_some());
    let tw = g.find_by_platform_identity(Platform::Twitter, "alice_tw").unwrap();
    assert_eq!(tw.created_at, Some(1650000001));
    let from = NodeKey::Identity(Platform::Ethereum, seed.to_string());
    let to = NodeKey::Identity(Platform::Twitter, "alice_tw".to_string());
    assert_eq!(g.count_relations(&from, &to, RelationKind::Proof, DataSource::NextID), 1);
    assert_eq!(g.edge_count(), 1);
}

#[test]
fn test_smoke() {
    let target = eth("0x2467ee73bb0c5acdeedf4e6cc5aa685741126872");
    let answer = proof_answer(vec![record("twitter", "someone", "1650000000")]);
    let o = ProofClient::process(&target, answer, 1700000000).unwrap();
    let mut g = GraphStore::new();
    g.apply_all(o.facts);
    let found = g
        .find_by_platform_identity(target.platform().unwrap(), &target.identity().unwrap())
        .expect("Record not found");
    assert_eq!(found.updated_at, 1700000000);
}

#[test]
fn test_multiple_avatars() {
    let target = eth("0x1cb1fa7d604e06cd8c596b5b7bcaaf5c5fdefd53");
    let answer = proof_answer(vec![record("twitter", "lyria_shan0127", "1650000000"), record("github", "lyria", "1")]);
    let o = ProofClient::process(&target, answer, 1).unwrap();
    let mut g = GraphStore::new();
    g.apply_all(o.facts);
    let found = g.find_by_platform_identity(Platform::Twitter, "lyria_shan0127").expect("Record not found");
    assert_eq!(found.identity, "lyria_shan0127");
}

#[test]
fn proof_service_errors() {
    let mut empty = proof_answer(vec![]);
    empty.pagination.total = 0;
    assert!(matches!(ProofClient::process(&eth("0x1"), empty, 1), Err(FetchError::NoResult)));
    let none = ProofQueryResponse {
        pagination: ProofQueryResponsePagination { total: 3, per: 20, current: 1, next: 0 },
        ids: vec![],
    };
    assert!(matches!(ProofClient::process(&eth("0x1"), none, 1), Err(FetchError::NoResult)));
    assert!(matches!(
        ProofClient::error_of(500, ErrorResponse { message: "boom".to_string() }),
        FetchError::UpstreamHttpError(500, m) if m == "boom"
    ));
    let o = ProofClient::process(&eth("0x1"), proof_answer(vec![record("myspace", "x", "1")]), 1).unwrap();
    assert!(o.facts.is_empty());
    let u = ProofClient::request_uri("https://proof.example", Platform::Ethereum, "0x1").unwrap();
    assert_eq!(u.to_string(), "https://proof.example/v1/proof?platform=ethereum&identity=0x1");
    assert_eq!(ProofClient::ability()[0].1, vec![Platform::Twitter, Platform::Ethereum, Platform::Github]);
}

#[test]
fn sybil_list_links_addresses_to_handles() {
    let item = |h: &str| VerifiedItem { twitter: TwitterItem { timestamp: 1600000000, tweet_id: "42".to_string(), handle: h.to_string() } };
    let entries = vec![("0xAA".to_string(), item("a")), ("0xbb".to_string(), item("b"))];
    let o = SybilList::process(&eth("0xaa"), entries, 9);
    assert_eq!(o.facts.len(), 2);
    assert_eq!(o.next.len(), 1);
    assert!(o.next[0].same(&Target::Identity(Platform::Twitter, "a".to_string())));
    let mut g = GraphStore::new();
    g.apply_all(o.facts);
    assert_eq!(g.identity_count(), 4);
    assert!(g.find_by_platform_identity(Platform::Ethereum, "0xaa").is_some());
    assert_eq!(SybilList::ability()[0].0, Platform::Ethereum);
}

fn domain(name: &str, owner: &str, resolved: Option<&str>) -> Domain {
    Domain {
        name: name.to_string(),
        created_at: "1600000000".to_string(),
        events: vec![DomainEvent { transaction_id: "0xtx".to_string() }],
        resolved_address: resolved.map(|a| Account { id: a.to_string() }),
        owner: Account { id: owner.to_string() },
    }
}

#[test]
fn the_graph_merges_wrapped_domains_first() {
    let res = QueryResponse {
        domains: vec![domain("a.eth", "0xwrapper", None), domain("b.eth", "0x1", None), domain("b.eth", "0x2", None)],
        wrapped_domains: vec![WrappedDomain { name: "a.eth".to_string(), owner: Account { id: "0xreal".to_string() }, domain: domain("a.eth", "0xwrapper", None) }],
    };
    let m = TheGraph::merge_domains(res);
    assert_eq!(m.len(), 2);
    assert_eq!(m[0].name, "a.eth");
    assert_eq!(m[0].owner.id, "0xreal");
    assert_eq!(m[1].name, "b.eth");
    assert_eq!(m[1].owner.id, "0x1");
}

#[test]
fn the_graph_records_domains() {
    let res = QueryResponse {
        domains: vec![
            domain("a.eth", "0x1", Some("0x2")),
            domain("z.eth", "0x1", Some("0x0000000000000000000000000000000000000000")),
        ],
        wrapped_domains: vec![],
    };
    let o = TheGraph::perform_fetch(&eth("0x1"), res, 3);
    assert_eq!(o.facts.len(), 5);
    assert_eq!(o.next.len(), 2);
    assert!(o.next[0].same(&Target::NFT(
        Chain::Ethereum,
        ContractCategory::ENS,
        "0x57f1887a8bf19b14fc0df6fd9b2acc9af147ea85".to_string(),
        "a.eth".to_string()
    )));
    let mut g = GraphStore::new();
    g.apply_all(o.facts);
    assert_eq!(g.contract_count(), 1);
    assert_eq!(g.identity_count(), 2);
    let c = g.find_by_chain_address(Chain::Ethereum, "0x57f1887a8bf19b14fc0df6fd9b2acc9af147ea85").unwrap();
    assert_eq!(c.category, ContractCategory::ENS);
    let ens = NodeKey::Contract(Chain::Ethereum, c.address.clone());
    let owner = NodeKey::Identity(Platform::Ethereum, "0x1".to_string());
    assert_eq!(g.count_relations(&owner, &ens, RelationKind::Hold, DataSource::TheGraph), 2);
}

#[test]
fn the_graph_from_a_name() {
    let t = Target::NFT(Chain::Ethereum, ContractCategory::ENS, "0x57f1".to_string(), "a.eth".to_string());
    assert!(TheGraph::can_fetch(&t));
    let (q, var) = TheGraph::query_for(&t);
    assert_eq!(q, QUERY_BY_ENS);
    assert_eq!(var, "a.eth");
    assert_eq!(TheGraph::query_for(&eth("0x1")).0, QUERY_BY_WALLET);
    let res = QueryResponse { domains: vec![domain("a.eth", "0x1", Some("0x2"))], wrapped_domains: vec![] };
    let o = TheGraph::perform_fetch(&t, res, 3);
    assert_eq!(o.next.len(), 2);
    assert!(o.next[0].same(&eth("0x1")));
    assert!(o.next[1].same(&eth("0x2")));
}

#[test]
fn sybil_proof_carries_tweet_evidence() {
    let item = VerifiedItem { twitter: TwitterItem { timestamp: 1600000123, tweet_id: "777".to_string(), handle: "h".to_string() } };
    let o = SybilList::process(&eth("0xaa"), vec![("0xAA".to_string(), item)], 9);
    match &o.facts[0] {
        relation_server::graph::Fact::Link(_, _, relation_server::graph::Relation::Proof(p)) => {
            assert_eq!(p.source, DataSource::SybilList);
            assert_eq!(p.record_id, Some("777".to_string()));
            assert_eq!(p.created_at, Some(1600000123));
            assert_eq!(p.last_fetched_at, 9);
        }
        _ => panic!("expected a proof link"),
    }
}

#[test]
fn proof_service_edge_fields() {
    let answer = proof_answer(vec![record("github", "gh", "1650000002"), record("twitter", "tw", "bad")]);
    let o = ProofClient::process(&eth("0x1"), answer, 44).unwrap();
    assert_eq!(o.facts.len(), 2);
    let times: Vec<Option<i64>> = o
        .facts
        .iter()
        .map(|f| match f {
            relation_server::graph::Fact::Link(_, _, relation_server::graph::Relation::Proof(p)) => {
                assert_eq!(p.record_id, None);
                assert_eq!(p.last_fetched_at, 44);
                p.created_at
            }
            _ => panic!("expected a proof link"),
        })
        .collect();
    assert_eq!(times, vec![Some(1650000002), None]);
}

#[test]
fn the_graph_resolutions_record_the_name() {
    let res = QueryResponse { domains: vec![domain("a.eth", "0x1", Some("0x2"))], wrapped_domains: vec![] };
    let o = TheGraph::perform_fetch(&eth("0x1"), res, 3);
    assert_eq!(o.facts.len(), 3);
    for (k, f) in o.facts.iter().enumerate() {
        match f {
            relation_server::graph::Fact::Link(a, b, rel) => {
                let contract = if k == 1 { a } else { b };
                match contract {
                    relation_server::graph::Node::Contract(c) => assert_eq!(c.category, ContractCategory::ENS),
                    _ => panic!("expected the ENS contract"),
                }
                match rel {
                    relation_server::graph::Relation::Hold(h) => {
                        assert_eq!(k, 0);
                        assert_eq!(h.id, "a.eth");
                        assert_eq!(h.transaction, Some("0xtx".to_string()));
                        assert_eq!(h.created_at, Some(1600000000));
                    }
                    relation_server::graph::Relation::Resolve(r) => {
                        assert_eq!(r.name, "a.eth");
                        assert_eq!(r.updated_at, 3);
                    }
                    _ => panic!("unexpected relation"),
                }
            }
            _ => panic!("expected a link"),
        }
    }
}

#[test]
fn second_reverse_lookup_advances_time() {
    let t = eth("0xabc");
    let mut g = GraphStore::new();
    g.apply_all(ENSReverseLookup::process(&t, Response { reverse_record: Some("a.eth".to_string()), domains: vec![] }, 10).facts);
    g.apply_all(ENSReverseLookup::process(&t, Response { reverse_record: Some("b.eth".to_string()), domains: vec![] }, 20).facts);
    assert_eq!(g.identity_count(), 1);
    let v = g.find_by_platform_identity(Platform::Ethereum, "0xabc").unwrap();
    assert_eq!(v.updated_at, 20);
    assert_eq!(v.display_name, Some("b.eth".to_string()));
}
