use relation_server::graph::{
    Contract, Edge, Fact, GraphStore, Identity, Node, NodeKey, Proof, Relation, RelationKind, StoreError,
};
use relation_server::model::{Chain, ContractCategory, DataSource, Platform};

fn identity(p: Platform, id: &str, display: Option<&str>, now: i64) -> Identity {
    Identity {
        uuid: None,
        platform: p,
        identity: id.to_string(),
        display_name: display.map(|d| d.to_string()),
        avatar_url: None,
        profile_url: None,
        created_at: None,
        added_at: now,
        updated_at: now,
    }
}

fn proof_relation(source: DataSource, now: i64) -> Relation {
    Relation::Proof(Proof { uuid: 1, source, record_id: None, created_at: None, last_fetched_at: now })
}

fn link(now: i64) -> Fact {
    Fact::Link(
        Node::Identity(identity(Platform::Ethereum, "0xabc", None, now)),
        Node::Identity(identity(Platform::Twitter, "alice", Some("alice"), now)),
        proof_relation(DataSource::NextID, now),
    )
}

#[test]
fn upsert_keeps_one_vertex_per_key() {
    let mut g = GraphStore::new();
    g.create_or_update_identity(identity(Platform::Twitter, "alice", Some("alice"), 10));
    g.create_or_update_identity(identity(Platform::Twitter, "alice", None, 20));
    g.create_or_update_identity(identity(Platform::Github, "alice", None, 20));
    assert_eq!(g.identity_count(), 2);
    let v = g.find_by_platform_identity(Platform::Twitter, "alice").unwrap();
    assert_eq!(v.display_name, Some("alice".to_string()));
    assert_eq!(v.added_at, 10);
    assert_eq!(v.updated_at, 20);
}

#[test]
fn empty_display_name_overwrites() {
    let mut g = GraphStore::new();
    g.create_or_update_identity(identity(Platform::Ethereum, "0xabc", Some("alice"), 10));
    g.create_or_update_identity(identity(Platform::Ethereum, "0xabc", Some(""), 11));
    let v = g.find_by_platform_identity(Platform::Ethereum, "0xabc").unwrap();
    assert_eq!(v.display_name, Some(String::new()));
}

#[test]
fn update_time_never_moves_back() {
    let mut g = GraphStore::new();
    g.create_or_update_identity(identity(Platform::Ethereum, "0xabc", None, 30));
    g.create_or_update_identity(identity(Platform::Ethereum, "0xabc", None, 20));
    assert_eq!(g.find_by_platform_identity(Platform::Ethereum, "0xabc").unwrap().updated_at, 30);
}

#[test]
fn recrawl_creates_no_duplicates() {
    let mut g = GraphStore::new();
    g.apply_all(vec![link(100)]);
    assert_eq!((g.identity_count(), g.edge_count()), (2, 1));
    g.apply_all(vec![link(200)]);
    assert_eq!((g.identity_count(), g.edge_count()), (2, 1));
    let from = NodeKey::Identity(Platform::Ethereum, "0xabc".to_string());
    let to = NodeKey::Identity(Platform::Twitter, "alice".to_string());
    assert_eq!(g.count_relations(&from, &to, RelationKind::Proof, DataSource::NextID), 1);
    let v = g.find_by_platform_identity(Platform::Twitter, "alice").unwrap();
    assert!(v.updated_at > 100);
    assert_eq!(v.updated_at, 200);
}

#[test]
fn proofs_of_different_sources_are_kept() {
    let mut g = GraphStore::new();
    g.apply_all(vec![link(1)]);
    g.apply(Fact::Link(
        Node::Identity(identity(Platform::Ethereum, "0xabc", None, 2)),
        Node::Identity(identity(Platform::Twitter, "alice", None, 2)),
        proof_relation(DataSource::SybilList, 2),
    ));
    assert_eq!(g.edge_count(), 2);
}

#[test]
fn edge_needs_its_endpoints() {
    let mut g = GraphStore::new();
    let e = Edge {
        from: NodeKey::Identity(Platform::Ethereum, "0xabc".to_string()),
        to: NodeKey::Contract(Chain::Ethereum, "0x57f1".to_string()),
        relation: proof_relation(DataSource::TheGraph, 1),
    };
    assert_eq!(g.connect(e), Err(StoreError::MissingEndpoint));
    assert_eq!(g.edge_count(), 0);
    g.create_or_update_contract(Contract {
        uuid: 2,
        category: ContractCategory::ENS,
        chain: Chain::Ethereum,
        address: "0x57f1".to_string(),
        symbol: None,
        updated_at: 1,
    });
    assert_eq!(g.contract_count(), 1);
    assert!(g.find_by_chain_address(Chain::Ethereum, "0x57f1").is_some());
    assert!(g.contains(&NodeKey::Contract(Chain::Ethereum, "0x57f1".to_string())));
}

#[test]
fn record_id_is_kept_from_first_write() {
    let mut g = GraphStore::new();
    let mut a = identity(Platform::Github, "bob", None, 1);
    a.uuid = Some(5);
    let mut b = identity(Platform::Github, "bob", None, 2);
    b.uuid = Some(9);
    g.create_or_update_identity(a);
    g.create_or_update_identity(b);
    assert_eq!(g.find_by_platform_identity(Platform::Github, "bob").unwrap().uuid, Some(5));
}

#[test]
fn fresh_records_get_distinct_ids() {
    let a = relation_server::upstream::new_identity(Platform::Github, "a".to_string(), None, None, 1);
    let b = relation_server::upstream::new_identity(Platform::Github, "a".to_string(), None, None, 1);
    assert!(a.uuid.is_some() && b.uuid.is_some());
    assert_ne!(a.uuid, b.uuid);
}
