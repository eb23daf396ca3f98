use vstd::prelude::*;
use crate::model::{Chain, ContractCategory, DataFetcher, DataSource, DomainNameSystem, Platform};
use crate::util::str_eq;

verus! {

/// A handle on one platform. Times are UNIX seconds.
#[derive(Debug)]
pub struct Identity {
    /// Record id, kept from the first write.
    pub uuid: Option<u128>,
    pub platform: Platform,
    pub identity: String,
    pub display_name: Option<String>,
    pub avatar_url: Option<String>,
    pub profile_url: Option<String>,
    pub created_at: Option<i64>,
    pub added_at: i64,
    pub updated_at: i64,
}

/// An on-chain contract or collection.
#[derive(Debug)]
pub struct Contract {
    /// Record id, kept from the first write.
    pub uuid: u128,
    pub category: ContractCategory,
    pub chain: Chain,
    pub address: String,
    pub symbol: Option<String>,
    pub updated_at: i64,
}

/// Two identities belong to the same owner, as a source attests.
#[derive(Debug)]
pub struct Proof {
    /// Record id, kept from the first write.
    pub uuid: u128,
    pub source: DataSource,
    pub record_id: Option<String>,
    pub created_at: Option<i64>,
    pub last_fetched_at: i64,
}

/// The `from` identity owns the `to` entity; `id` tells tokens of one contract apart.
#[derive(Debug)]
pub struct Hold {
    /// Record id, kept from the first write.
    pub uuid: u128,
    pub source: DataSource,
    pub fetcher: DataFetcher,
    pub transaction: Option<String>,
    pub id: String,
    pub created_at: Option<i64>,
    pub updated_at: i64,
}

/// A name resolves to an address (`name -> address`), or an address
/// reverse-resolves to a name (`address -> name`).
#[derive(Debug)]
pub struct Resolve {
    /// Record id, kept from the first write.
    pub uuid: u128,
    pub source: DataSource,
    pub system: DomainNameSystem,
    pub name: String,
    pub fetcher: DataFetcher,
    pub updated_at: i64,
}

/// What an edge asserts.
#[derive(Debug)]
pub enum Relation {
    Proof(Proof),
    Hold(Hold),
    Resolve(Resolve),
}

/// The kind of an edge.
#[derive(Clone, Copy, Debug, PartialEq, Eq, Structural)]
pub enum RelationKind {
    Proof,
    Hold,
    Resolve,
}

/// A vertex to be written.
#[derive(Debug)]
pub enum Node {
    Identity(Identity),
    Contract(Contract),
}

/// The natural key of a vertex.
#[derive(Debug)]
pub enum NodeKey {
    Identity(Platform, String),
    Contract(Chain, String),
}

/// A directed edge between two vertices, given by their keys.
#[derive(Debug)]
pub struct Edge {
    pub from: NodeKey,
    pub to: NodeKey,
    pub relation: Relation,
}

/// One discovered fact: a vertex, or an edge with both of its endpoints.
#[derive(Debug)]
pub enum Fact {
    Vertex(Node),
    Link(Node, Node, Relation),
}

/// A vertex key as plain values.
pub enum KeyView {
    Identity(Platform, Seq<char>),
    Contract(Chain, Seq<char>),
}

impl View for NodeKey {
    type V = KeyView;

    open spec fn view(&self) -> KeyView {
        match self {
            NodeKey::Identity(p, s) => KeyView::Identity(*p, s@),
            NodeKey::Contract(c, a) => KeyView::Contract(*c, a@),
        }
    }
}

/// What tells two edges between the same vertices apart: kind and source,
/// and for a hold its id, for a resolution its naming system.
pub enum RelationKey {
    Proof(DataSource),
    Hold(DataSource, Seq<char>),
    Resolve(DataSource, DomainNameSystem),
}

pub open spec fn relation_key(r: Relation) -> RelationKey {
    match r {
        Relation::Proof(p) => RelationKey::Proof(p.source),
        Relation::Hold(h) => RelationKey::Hold(h.source, h.id@),
        Relation::Resolve(r) => RelationKey::Resolve(r.source, r.system),
    }
}

pub open spec fn relation_kind(r: Relation) -> RelationKind {
    match r {
        Relation::Proof(_) => RelationKind::Proof,
        Relation::Hold(_) => RelationKind::Hold,
        Relation::Resolve(_) => RelationKind::Resolve,
    }
}

pub open spec fn relation_source(r: Relation) -> DataSource {
    match r {
        Relation::Proof(p) => p.source,
        Relation::Hold(h) => h.source,
        Relation::Resolve(r) => r.source,
    }
}

pub open spec fn identity_key(v: Identity) -> KeyView {
    KeyView::Identity(v.platform, v.identity@)
}

pub open spec fn contract_key(c: Contract) -> KeyView {
    KeyView::Contract(c.chain, c.address@)
}

pub open spec fn node_key(n: Node) -> KeyView {
    match n {
        Node::Identity(v) => identity_key(v),
        Node::Contract(c) => contract_key(c),
    }
}

/// The natural key of an edge.
pub open spec fn edge_key(e: Edge) -> (KeyView, KeyView, RelationKey) {
    (e.from@, e.to@, relation_key(e.relation))
}

/// A supplied value replaces the stored one; an absent one keeps it.
pub open spec fn merge_opt<T>(old: Option<T>, new: Option<T>) -> Option<T> {
    if new is Some {
        new
    } else {
        old
    }
}

/// Timestamps only move forward.
pub open spec fn later(a: i64, b: i64) -> i64 {
    if a < b {
        b
    } else {
        a
    }
}

pub open spec fn merge_identity(old: Identity, new: Identity) -> Identity {
    Identity {
        uuid: old.uuid,
        platform: old.platform,
        identity: old.identity,
        display_name: merge_opt(old.display_name, new.display_name),
        avatar_url: merge_opt(old.avatar_url, new.avatar_url),
        profile_url: merge_opt(old.profile_url, new.profile_url),
        created_at: merge_opt(old.created_at, new.created_at),
        added_at: old.added_at,
        updated_at: later(old.updated_at, new.updated_at),
    }
}

pub open spec fn merge_contract(old: Contract, new: Contract) -> Contract {
    Contract {
        uuid: old.uuid,
        category: new.category,
        chain: old.chain,
        address: old.address,
        symbol: merge_opt(old.symbol, new.symbol),
        updated_at: later(old.updated_at, new.updated_at),
    }
}

/// The relation stored after `new` is written over `old` of the same key.
pub open spec fn merge_relation(old: Relation, new: Relation) -> Relation {
    match (old, new) {
        (Relation::Proof(o), Relation::Proof(n)) => Relation::Proof(Proof {
            uuid: o.uuid,
            source: n.source,
            record_id: merge_opt(o.record_id, n.record_id),
            created_at: merge_opt(o.created_at, n.created_at),
            last_fetched_at: later(o.last_fetched_at, n.last_fetched_at),
        }),
        (Relation::Hold(o), Relation::Hold(n)) => Relation::Hold(Hold {
            uuid: o.uuid,
            source: n.source,
            fetcher: n.fetcher,
            transaction: merge_opt(o.transaction, n.transaction),
            id: o.id,
            created_at: merge_opt(o.created_at, n.created_at),
            updated_at: later(o.updated_at, n.updated_at),
        }),
        (Relation::Resolve(o), Relation::Resolve(n)) => Relation::Resolve(Resolve {
            uuid: o.uuid,
            source: n.source,
            system: n.system,
            name: n.name,
            fetcher: n.fetcher,
            updated_at: later(o.updated_at, n.updated_at),
        }),
        _ => new,
    }
}

/// The contents of a graph store.
pub struct GraphView {
    pub identities: Seq<Identity>,
    pub contracts: Seq<Contract>,
    pub edges: Seq<Edge>,
}

pub open spec fn identity_index(s: Seq<Identity>, k: KeyView) -> int
    recommends
        exists|i: int| 0 <= i < s.len() && identity_key(s[i]) == k,
{
    choose|i: int| 0 <= i < s.len() && identity_key(s[i]) == k
}

pub open spec fn contract_index(s: Seq<Contract>, k: KeyView) -> int {
    choose|i: int| 0 <= i < s.len() && contract_key(s[i]) == k
}

pub open spec fn edge_index(s: Seq<Edge>, k: (KeyView, KeyView, RelationKey)) -> int {
    choose|i: int| 0 <= i < s.len() && edge_key(s[i]) == k
}

/// The identities after `v` is upserted: merged into the one of the same key,
/// or appended.
pub open spec fn upsert_identity_spec(s: Seq<Identity>, v: Identity) -> Seq<Identity> {
    if exists|i: int| 0 <= i < s.len() && identity_key(s[i]) == identity_key(v) {
        let i = identity_index(s, identity_key(v));
        s.update(i, merge_identity(s[i], v))
    } else {
        s.push(v)
    }
}

pub open spec fn upsert_contract_spec(s: Seq<Contract>, c: Contract) -> Seq<Contract> {
    if exists|i: int| 0 <= i < s.len() && contract_key(s[i]) == contract_key(c) {
        let i = contract_index(s, contract_key(c));
        s.update(i, merge_contract(s[i], c))
    } else {
        s.push(c)
    }
}

pub open spec fn upsert_edge_spec(s: Seq<Edge>, e: Edge) -> Seq<Edge> {
    if exists|i: int| 0 <= i < s.len() && edge_key(s[i]) == edge_key(e) {
        let i = edge_index(s, edge_key(e));
        s.update(i, Edge { from: s[i].from, to: s[i].to, relation: merge_relation(s[i].relation, e.relation) })
    } else {
        s.push(e)
    }
}

impl GraphView {
    pub open spec fn has_node(self, k: KeyView) -> bool {
        match k {
            KeyView::Identity(_, _) => exists|i: int| 0 <= i < self.identities.len() && identity_key(self.identities[i]) == k,
            KeyView::Contract(_, _) => exists|i: int| 0 <= i < self.contracts.len() && contract_key(self.contracts[i]) == k,
        }
    }

    pub open spec fn has_edge(self, k: (KeyView, KeyView, RelationKey)) -> bool {
        exists|i: int| 0 <= i < self.edges.len() && edge_key(self.edges[i]) == k
    }

    /// At most one vertex per key, at most one edge per key, and every edge
    /// between vertices that exist.
    pub open spec fn wf(self) -> bool {
        &&& forall|i: int, j: int| 0 <= i < j < self.identities.len()
            ==> identity_key(self.identities[i]) != identity_key(self.identities[j])
        &&& forall|i: int, j: int| 0 <= i < j < self.contracts.len()
            ==> contract_key(self.contracts[i]) != contract_key(self.contracts[j])
        &&& forall|i: int, j: int| 0 <= i < j < self.edges.len()
            ==> edge_key(self.edges[i]) != edge_key(self.edges[j])
        &&& forall|i: int| 0 <= i < self.edges.len()
            ==> self.has_node(#[trigger] self.edges[i].from@) && self.has_node(self.edges[i].to@)
    }

    /// The store after a vertex is upserted.
    pub open spec fn upsert_node(self, n: Node) -> GraphView {
        match n {
            Node::Identity(v) => GraphView { identities: upsert_identity_spec(self.identities, v), ..self },
            Node::Contract(c) => GraphView { contracts: upsert_contract_spec(self.contracts, c), ..self },
        }
    }

    /// The store after a fact is written: endpoints first, then the edge.
    pub open spec fn apply(self, f: Fact) -> GraphView {
        match f {
            Fact::Vertex(n) => self.upsert_node(n),
            Fact::Link(a, b, r) => {
                let g = self.upsert_node(a).upsert_node(b);
                GraphView {
                    edges: upsert_edge_spec(g.edges, Edge { from: node_key_of(a), to: node_key_of(b), relation: r }),
                    ..g
                }
            },
        }
    }

    /// The store after each fact is written in order.
    pub open spec fn apply_all(self, fs: Seq<Fact>) -> GraphView
        decreases fs.len(),
    {
        if fs.len() == 0 {
            self
        } else {
            self.apply_all(fs.drop_last()).apply(fs.last())
        }
    }
}

/// The key, as an executable value, of a vertex.
pub open spec fn node_key_of(n: Node) -> NodeKey {
    match n {
        Node::Identity(v) => NodeKey::Identity(v.platform, v.identity),
        Node::Contract(c) => NodeKey::Contract(c.chain, c.address),
    }
}

impl NodeKey {
    /// Whether two keys name the same vertex.
    pub fn same(&self, other: &NodeKey) -> (r: bool)
        ensures
            r == (self@ == other@),
    {
        match (self, other) {
            (NodeKey::Identity(p, s), NodeKey::Identity(q, t)) => *p == *q && str_eq(s.as_str(), t.as_str()),
            (NodeKey::Contract(c, a), NodeKey::Contract(d, b)) => *c == *d && str_eq(a.as_str(), b.as_str()),
            _ => false,
        }
    }
}

impl Node {
    /// The key of this vertex.
    pub fn key(&self) -> (r: NodeKey)
        ensures
            r == node_key_of(*self),
    {
        match self {
            Node::Identity(v) => NodeKey::Identity(v.platform, v.identity.clone()),
            Node::Contract(c) => NodeKey::Contract(c.chain, c.address.clone()),
        }
    }
}

fn merge_opt_string(old: &Option<String>, new: Option<String>) -> (r: Option<String>)
    ensures
        r == merge_opt(*old, new),
{
    match new {
        Some(n) => Some(n),
        None => match old {
            Some(o) => Some(o.clone()),
            None => None,
        },
    }
}

fn merge_opt_time(old: Option<i64>, new: Option<i64>) -> (r: Option<i64>)
    ensures
        r == merge_opt(old, new),
{
    if new.is_some() {
        new
    } else {
        old
    }
}

fn later_of(a: i64, b: i64) -> (r: i64)
    ensures
        r == later(a, b),
{
    if a < b {
        b
    } else {
        a
    }
}

fn same_relation_key(a: &Relation, b: &Relation) -> (r: bool)
    ensures
        r == (relation_key(*a) == relation_key(*b)),
{
    match (a, b) {
        (Relation::Proof(x), Relation::Proof(y)) => x.source == y.source,
        (Relation::Hold(x), Relation::Hold(y)) => x.source == y.source && str_eq(x.id.as_str(), y.id.as_str()),
        (Relation::Resolve(x), Relation::Resolve(y)) => x.source == y.source && x.system == y.system,
        _ => false,
    }
}

fn merge_relation_exec(old: &Relation, new: Relation) -> (r: Relation)
    requires
        relation_key(*old) == relation_key(new),
    ensures
        r == merge_relation(*old, new),
{
    match new {
        Relation::Proof(n) => match old {
            Relation::Proof(o) => Relation::Proof(Proof {
                uuid: o.uuid,
                source: n.source,
                record_id: merge_opt_string(&o.record_id, n.record_id),
                created_at: merge_opt_time(o.created_at, n.created_at),
                last_fetched_at: later_of(o.last_fetched_at, n.last_fetched_at),
            }),
            _ => Relation::Proof(n),
        },
        Relation::Hold(n) => match old {
            Relation::Hold(o) => Relation::Hold(Hold {
                uuid: o.uuid,
                source: n.source,
                fetcher: n.fetcher,
                transaction: merge_opt_string(&o.transaction, n.transaction),
                id: o.id.clone(),
                created_at: merge_opt_time(o.created_at, n.created_at),
                updated_at: later_of(o.updated_at, n.updated_at),
            }),
            _ => Relation::Hold(n),
        },
        Relation::Resolve(n) => match old {
            Relation::Resolve(o) => Relation::Resolve(Resolve {
                uuid: o.uuid,
                source: n.source,
                system: n.system,
                name: n.name,
                fetcher: n.fetcher,
                updated_at: later_of(o.updated_at, n.updated_at),
            }),
            _ => Relation::Resolve(n),
        },
    }
}

impl Identity {
    /// A copy of this record.
    pub fn copy(&self) -> (r: Identity)
        ensures
            r == *self,
    {
        Identity {
            uuid: self.uuid,
            platform: self.platform,
            identity: self.identity.clone(),
            display_name: merge_opt_string(&self.display_name, None),
            avatar_url: merge_opt_string(&self.avatar_url, None),
            profile_url: merge_opt_string(&self.profile_url, None),
            created_at: self.created_at,
            added_at: self.added_at,
            updated_at: self.updated_at,
        }
    }
}

impl Contract {
    /// A copy of this record.
    pub fn copy(&self) -> (r: Contract)
        ensures
            r == *self,
    {
        Contract {
            uuid: self.uuid,
            category: self.category,
            chain: self.chain,
            address: self.address.clone(),
            symbol: merge_opt_string(&self.symbol, None),
            updated_at: self.updated_at,
        }
    }
}

/// Why a write was refused.
#[derive(Clone, Copy, Debug, PartialEq, Eq, Structural)]
pub enum StoreError {
    /// An edge names a vertex that is not stored.
    MissingEndpoint,
}

proof fn lemma_upsert_edge(g: GraphView, e: Edge)
    requires
        g.wf(),
        g.has_node(e.from@),
        g.has_node(e.to@),
    ensures
        (GraphView { edges: upsert_edge_spec(g.edges, e), ..g }).wf(),
        (GraphView { edges: upsert_edge_spec(g.edges, e), ..g }).has_edge(edge_key(e)),
        forall|k: (KeyView, KeyView, RelationKey)| g.has_edge(k)
            ==> #[trigger] (GraphView { edges: upsert_edge_spec(g.edges, e), ..g }).has_edge(k),
        upsert_edge_spec(g.edges, e).len() == g.edges.len() + (if g.has_edge(edge_key(e)) { 0int } else { 1int }),
{
    let s = g.edges;
    let s2 = upsert_edge_spec(s, e);
    let g2 = GraphView { edges: s2, ..g };
    assert forall|m: int| 0 <= m < s.len() implies edge_key(#[trigger] s2[m]) == edge_key(s[m]) by {}
    if exists|i: int| 0 <= i < s.len() && edge_key(s[i]) == edge_key(e) {
        let i = edge_index(s, edge_key(e));
        assert(edge_key(s2[i]) == edge_key(e));
        assert(s2.len() == s.len());
        assert(g.has_edge(edge_key(e)));
    } else {
        assert(edge_key(s2[s.len() as int]) == edge_key(e));
        assert(s2.len() == s.len() + 1);
        assert(!g.has_edge(edge_key(e)));
    }
    assert forall|k: (KeyView, KeyView, RelationKey)| g.has_edge(k) implies g2.has_edge(k) by {
        let j = choose|j: int| 0 <= j < s.len() && edge_key(s[j]) == k;
        assert(edge_key(s2[j]) == edge_key(s[j]));
        assert(0 <= j < g2.edges.len() && edge_key(g2.edges[j]) == k);
    }
    assert forall|i: int| 0 <= i < s2.len() implies g2.has_node(#[trigger] s2[i].from@) && g2.has_node(s2[i].to@) by {
        if i < s.len() {
            assert(g.has_node(s[i].from@));
            assert(g.has_node(s[i].to@));
        }
    }
}

/// An in-memory graph store: vertices and edges keyed by their natural keys,
/// written only by upsert.
pub struct GraphStore {
    identities: Vec<Identity>,
    contracts: Vec<Contract>,
    edges: Vec<Edge>,
}

impl View for GraphStore {
    type V = GraphView;

    closed spec fn view(&self) -> GraphView {
        GraphView { identities: self.identities@, contracts: self.contracts@, edges: self.edges@ }
    }
}

proof fn lemma_upsert_node(g: GraphView, n: Node)
    requires
        g.wf(),
    ensures
        g.upsert_node(n).wf(),
        g.upsert_node(n).edges == g.edges,
        g.upsert_node(n).has_node(node_key(n)),
        forall|k: KeyView| g.has_node(k) ==> #[trigger] g.upsert_node(n).has_node(k),
        g.has_node(node_key(n)) ==> g.upsert_node(n).identities.len() == g.identities.len()
            && g.upsert_node(n).contracts.len() == g.contracts.len(),
{
    let g2 = g.upsert_node(n);
    match n {
        Node::Identity(v) => {
            let s = g.identities;
            let s2 = g2.identities;
            assert forall|m: int| 0 <= m < s.len() implies identity_key(#[trigger] s2[m]) == identity_key(s[m]) by {}
            if exists|i: int| 0 <= i < s.len() && identity_key(s[i]) == identity_key(v) {
                let i = identity_index(s, identity_key(v));
                assert(identity_key(s2[i]) == identity_key(v));
            } else {
                assert(identity_key(s2[s.len() as int]) == identity_key(v));
            }
            assert forall|k: KeyView| g.has_node(k) implies g2.has_node(k) by {
                if k is Identity {
                    let j = choose|j: int| 0 <= j < s.len() && identity_key(s[j]) == k;
                    assert(identity_key(s2[j]) == k);
                }
            }
            assert forall|i: int| 0 <= i < g2.edges.len() implies g2.has_node(#[trigger] g2.edges[i].from@)
                && g2.has_node(g2.edges[i].to@) by {
                assert(g.has_node(g.edges[i].from@));
                assert(g.has_node(g.edges[i].to@));
            }
        },
        Node::Contract(c) => {
            let s = g.contracts;
            let s2 = g2.contracts;
            assert forall|m: int| 0 <= m < s.len() implies contract_key(#[trigger] s2[m]) == contract_key(s[m]) by {}
            if exists|i: int| 0 <= i < s.len() && contract_key(s[i]) == contract_key(c) {
                let i = contract_index(s, contract_key(c));
                assert(contract_key(s2[i]) == contract_key(c));
            } else {
                assert(contract_key(s2[s.len() as int]) == contract_key(c));
            }
            assert forall|k: KeyView| g.has_node(k) implies g2.has_node(k) by {
                if k is Contract {
                    let j = choose|j: int| 0 <= j < s.len() && contract_key(s[j]) == k;
                    assert(contract_key(s2[j]) == k);
                }
            }
            assert forall|i: int| 0 <= i < g2.edges.len() implies g2.has_node(#[trigger] g2.edges[i].from@)
                && g2.has_node(g2.edges[i].to@) by {
                assert(g.has_node(g.edges[i].from@));
                assert(g.has_node(g.edges[i].to@));
            }
        },
    }
}

impl GraphStore {
    /// An empty store.
    pub fn new() -> (r: GraphStore)
        ensures
            r@.wf(),
            r@.identities.len() == 0,
            r@.contracts.len() == 0,
            r@.edges.len() == 0,
    {
        GraphStore { identities: Vec::new(), contracts: Vec::new(), edges: Vec::new() }
    }

    /// The number of identity vertices.
    pub fn identity_count(&self) -> (r: usize)
        ensures
            r == self@.identities.len(),
    {
        self.identities.len()
    }

    /// The number of contract vertices.
    pub fn contract_count(&self) -> (r: usize)
        ensures
            r == self@.contracts.len(),
    {
        self.contracts.len()
    }

    /// The number of edges.
    pub fn edge_count(&self) -> (r: usize)
        ensures
            r == self@.edges.len(),
    {
        self.edges.len()
    }

    fn identity_position(&self, platform: Platform, identity: &str) -> (r: Option<usize>)
        ensures
            match r {
                Some(i) => i < self@.identities.len() && identity_key(self@.identities[i as int])
                    == KeyView::Identity(platform, identity@),
                None => !exists|i: int| 0 <= i < self@.identities.len()
                    && identity_key(self@.identities[i]) == KeyView::Identity(platform, identity@),
            },
    {
        let mut i: usize = 0;
        while i < self.identities.len()
            invariant
                i <= self@.identities.len(),
                forall|j: int| 0 <= j < i ==> identity_key(self@.identities[j]) != KeyView::Identity(platform, identity@),
            decreases self@.identities.len() - i,
        {
            if self.identities[i].platform == platform && str_eq(self.identities[i].identity.as_str(), identity) {
                return Some(i);
            }
            i = i + 1;
        }
        None
    }

    fn contract_position(&self, chain: Chain, address: &str) -> (r: Option<usize>)
        ensures
            match r {
                Some(i) => i < self@.contracts.len() && contract_key(self@.contracts[i as int])
                    == KeyView::Contract(chain, address@),
                None => !exists|i: int| 0 <= i < self@.contracts.len()
                    && contract_key(self@.contracts[i]) == KeyView::Contract(chain, address@),
            },
    {
        let mut i: usize = 0;
        while i < self.contracts.len()
            invariant
                i <= self@.contracts.len(),
                forall|j: int| 0 <= j < i ==> contract_key(self@.contracts[j]) != KeyView::Contract(chain, address@),
            decreases self@.contracts.len() - i,
        {
            if self.contracts[i].chain == chain && str_eq(self.contracts[i].address.as_str(), address) {
                return Some(i);
            }
            i = i + 1;
        }
        None
    }

    fn edge_position(&self, e: &Edge) -> (r: Option<usize>)
        ensures
            match r {
                Some(i) => i < self@.edges.len() && edge_key(self@.edges[i as int]) == edge_key(*e),
                None => !self@.has_edge(edge_key(*e)),
            },
    {
        let mut i: usize = 0;
        while i < self.edges.len()
            invariant
                i <= self@.edges.len(),
                forall|j: int| 0 <= j < i ==> edge_key(self@.edges[j]) != edge_key(*e),
            decreases self@.edges.len() - i,
        {
            let x = &self.edges[i];
            if x.from.same(&e.from) && x.to.same(&e.to) && same_relation_key(&x.relation, &e.relation) {
                return Some(i);
            }
            i = i + 1;
        }
        None
    }

    /// Whether a vertex of key `k` is stored.
    pub fn contains(&self, k: &NodeKey) -> (r: bool)
        ensures
            r == self@.has_node(k@),
    {
        match k {
            NodeKey::Identity(p, s) => self.identity_position(*p, s.as_str()).is_some(),
            NodeKey::Contract(c, a) => self.contract_position(*c, a.as_str()).is_some(),
        }
    }

    /// The stored identity of key (`platform`, `identity`), if any.
    pub fn find_by_platform_identity(&self, platform: Platform, identity: &str) -> (r: Option<Identity>)
        ensures
            match r {
                Some(v) => exists|i: int| 0 <= i < self@.identities.len() && self@.identities[i] == v
                    && identity_key(v) == KeyView::Identity(platform, identity@),
                None => !self@.has_node(KeyView::Identity(platform, identity@)),
            },
    {
        match self.identity_position(platform, identity) {
            Some(i) => Some(self.identities[i].copy()),
            None => None,
        }
    }

    /// The stored contract of key (`chain`, `address`), if any.
    pub fn find_by_chain_address(&self, chain: Chain, address: &str) -> (r: Option<Contract>)
        ensures
            match r {
                Some(c) => exists|i: int| 0 <= i < self@.contracts.len() && self@.contracts[i] == c
                    && contract_key(c) == KeyView::Contract(chain, address@),
                None => !self@.has_node(KeyView::Contract(chain, address@)),
            },
    {
        match self.contract_position(chain, address) {
            Some(i) => Some(self.contracts[i].copy()),
            None => None,
        }
    }

    /// Creates the identity if its key is absent; otherwise merges the supplied
    /// fields into the stored one and moves its update time forward.
    pub fn create_or_update_identity(&mut self, v: Identity)
        requires
            old(self)@.wf(),
        ensures
            final(self)@ == old(self)@.upsert_node(Node::Identity(v)),
            final(self)@.wf(),
    {
        proof {
            lemma_upsert_node(self@, Node::Identity(v));
        }
        let ghost s = self@.identities;
        match self.identity_position(v.platform, v.identity.as_str()) {
            Some(i) => {
                assert(identity_index(s, identity_key(v)) == i);
                let old_rec = &self.identities[i];
                let merged = Identity {
                    uuid: old_rec.uuid,
                    platform: old_rec.platform,
                    identity: old_rec.identity.clone(),
                    display_name: merge_opt_string(&old_rec.display_name, v.display_name),
                    avatar_url: merge_opt_string(&old_rec.avatar_url, v.avatar_url),
                    profile_url: merge_opt_string(&old_rec.profile_url, v.profile_url),
                    created_at: merge_opt_time(old_rec.created_at, v.created_at),
                    added_at: old_rec.added_at,
                    updated_at: later_of(old_rec.updated_at, v.updated_at),
                };
                self.identities.set(i, merged);
            },
            None => {
                self.identities.push(v);
            },
        }
    }

    /// Creates the contract if its key is absent; otherwise merges the supplied
    /// fields into the stored one and moves its update time forward.
    pub fn create_or_update_contract(&mut self, c: Contract)
        requires
            old(self)@.wf(),
        ensures
            final(self)@ == old(self)@.upsert_node(Node::Contract(c)),
            final(self)@.wf(),
    {
        proof {
            lemma_upsert_node(self@, Node::Contract(c));
        }
        let ghost s = self@.contracts;
        match self.contract_position(c.chain, c.address.as_str()) {
            Some(i) => {
                assert(contract_index(s, contract_key(c)) == i);
                let old_rec = &self.contracts[i];
                let merged = Contract {
                    uuid: old_rec.uuid,
                    category: c.category,
                    chain: old_rec.chain,
                    address: old_rec.address.clone(),
                    symbol: merge_opt_string(&old_rec.symbol, c.symbol),
                    updated_at: later_of(old_rec.updated_at, c.updated_at),
                };
                self.contracts.set(i, merged);
            },
            None => {
                self.contracts.push(c);
            },
        }
    }

    /// Upserts a vertex.
    pub fn create_or_update(&mut self, n: Node)
        requires
            old(self)@.wf(),
        ensures
            final(self)@ == old(self)@.upsert_node(n),
            final(self)@.wf(),
    {
        match n {
            Node::Identity(v) => self.create_or_update_identity(v),
            Node::Contract(c) => self.create_or_update_contract(c),
        }
    }
}

impl GraphStore {
    /// Writes an edge between two stored vertices: creates it if its key is
    /// absent, otherwise merges it into the stored one. An edge never creates
    /// its endpoints: where one is missing nothing is written.
    pub fn connect(&mut self, e: Edge) -> (r: Result<(), StoreError>)
        requires
            old(self)@.wf(),
        ensures
            final(self)@.wf(),
            r is Ok <==> (old(self)@.has_node(e.from@) && old(self)@.has_node(e.to@)),
            r is Ok ==> final(self)@ == (GraphView { edges: upsert_edge_spec(old(self)@.edges, e), ..old(self)@ }),
            r is Err ==> final(self)@ == old(self)@,
    {
        if !self.contains(&e.from) || !self.contains(&e.to) {
            return Err(StoreError::MissingEndpoint);
        }
        proof {
            lemma_upsert_edge(self@, e);
        }
        let ghost s = self@.edges;
        match self.edge_position(&e) {
            Some(i) => {
                assert(edge_index(s, edge_key(e)) == i);
                let old_e = &self.edges[i];
                let merged = Edge {
                    from: old_e.from.copy(),
                    to: old_e.to.copy(),
                    relation: merge_relation_exec(&old_e.relation, e.relation),
                };
                self.edges.set(i, merged);
            },
            None => {
                self.edges.push(e);
            },
        }
        Ok(())
    }

    /// Writes one fact: both endpoints of a link are upserted before its edge,
    /// so the write always succeeds.
    pub fn apply(&mut self, f: Fact)
        requires
            old(self)@.wf(),
        ensures
            final(self)@ == old(self)@.apply(f),
            final(self)@.wf(),
    {
        match f {
            Fact::Vertex(n) => self.create_or_update(n),
            Fact::Link(a, b, rel) => {
                let ka = a.key();
                let kb = b.key();
                proof {
                    lemma_upsert_node(self@, a);
                    lemma_upsert_node(self@.upsert_node(a), b);
                }
                self.create_or_update(a);
                self.create_or_update(b);
                let r = self.connect(Edge { from: ka, to: kb, relation: rel });
                assert(r is Ok);
            },
        }
    }

    /// Writes the facts in order.
    pub fn apply_all(&mut self, facts: Vec<Fact>)
        requires
            old(self)@.wf(),
        ensures
            final(self)@ == old(self)@.apply_all(facts@),
            final(self)@.wf(),
    {
        let ghost g0 = self@;
        let ghost all = facts@;
        let n = facts.len();
        let mut rest = facts;
        let mut k: usize = 0;
        while rest.len() > 0
            invariant
                all.len() == n,
                self@.wf(),
                k <= all.len(),
                rest@ == all.skip(k as int),
                self@ == g0.apply_all(all.take(k as int)),
            decreases rest@.len(),
        {
            let f = rest.remove(0);
            proof {
                assert(all.take(k + 1).drop_last() =~= all.take(k as int));
                assert(all.take(k + 1).last() == f);
            }
            self.apply(f);
            k = k + 1;
            proof {
                assert(rest@ =~= all.skip(k as int));
            }
        }
        assert(all.take(k as int) =~= all);
    }
}

impl NodeKey {
    /// A copy of this key.
    pub fn copy(&self) -> (r: NodeKey)
        ensures
            r == *self,
    {
        match self {
            NodeKey::Identity(p, s) => NodeKey::Identity(*p, s.clone()),
            NodeKey::Contract(c, a) => NodeKey::Contract(*c, a.clone()),
        }
    }
}

/// Whether everything a fact writes is already stored: its vertices, and for
/// a link its edge.
pub open spec fn fact_present(g: GraphView, f: Fact) -> bool {
    match f {
        Fact::Vertex(n) => g.has_node(node_key(n)),
        Fact::Link(a, b, r) => g.has_node(node_key(a)) && g.has_node(node_key(b))
            && g.has_edge((node_key(a), node_key(b), relation_key(r))),
    }
}

/// Whether two facts write the same keys.
pub open spec fn same_keys(f: Fact, h: Fact) -> bool {
    match (f, h) {
        (Fact::Vertex(n), Fact::Vertex(m)) => node_key(n) == node_key(m),
        (Fact::Link(a, b, r), Fact::Link(c, d, q)) => node_key(a) == node_key(c) && node_key(b) == node_key(d)
            && relation_key(r) == relation_key(q),
        _ => false,
    }
}

pub open spec fn same_size(g: GraphView, h: GraphView) -> bool {
    &&& g.identities.len() == h.identities.len()
    &&& g.contracts.len() == h.contracts.len()
    &&& g.edges.len() == h.edges.len()
}

proof fn lemma_apply(g: GraphView, f: Fact)
    requires
        g.wf(),
    ensures
        g.apply(f).wf(),
        fact_present(g.apply(f), f),
        forall|k: KeyView| g.has_node(k) ==> #[trigger] g.apply(f).has_node(k),
        forall|k: (KeyView, KeyView, RelationKey)| g.has_edge(k) ==> #[trigger] g.apply(f).has_edge(k),
        fact_present(g, f) ==> same_size(g, g.apply(f)),
{
    match f {
        Fact::Vertex(n) => {
            lemma_upsert_node(g, n);
            assert(g.apply(f) == g.upsert_node(n));
            assert forall|k: KeyView| g.has_node(k) implies #[trigger] g.apply(f).has_node(k) by {
                assert(g.upsert_node(n).has_node(k));
            }
        },
        Fact::Link(a, b, r) => {
            lemma_upsert_node(g, a);
            let g1 = g.upsert_node(a);
            lemma_upsert_node(g1, b);
            let g2 = g1.upsert_node(b);
            let e = Edge { from: node_key_of(a), to: node_key_of(b), relation: r };
            assert(e.from@ == node_key(a));
            assert(e.to@ == node_key(b));
            lemma_upsert_edge(g2, e);
            let g3 = GraphView { edges: upsert_edge_spec(g2.edges, e), ..g2 };
            assert(g.apply(f) == g3);
            assert forall|k: KeyView| g.has_node(k) implies #[trigger] g.apply(f).has_node(k) by {
                assert(g1.has_node(k));
                assert(g2.has_node(k));
                assert(g3.identities == g2.identities && g3.contracts == g2.contracts);
            }
            assert forall|k: (KeyView, KeyView, RelationKey)| g.has_edge(k) implies g3.has_edge(k) by {
                assert(g2.edges == g.edges);
                assert(g2.has_edge(k));
            }
            if fact_present(g, f) {
                assert(g2.edges == g.edges);
                assert(g2.has_edge(edge_key(e)));
            }
        },
    }
}

proof fn lemma_apply_all(g: GraphView, fs: Seq<Fact>)
    requires
        g.wf(),
    ensures
        g.apply_all(fs).wf(),
        forall|i: int| 0 <= i < fs.len() ==> fact_present(g.apply_all(fs), #[trigger] fs[i]),
        forall|k: KeyView| g.has_node(k) ==> #[trigger] g.apply_all(fs).has_node(k),
        forall|k: (KeyView, KeyView, RelationKey)| g.has_edge(k) ==> #[trigger] g.apply_all(fs).has_edge(k),
    decreases fs.len(),
{
    if fs.len() > 0 {
        let pre = fs.drop_last();
        lemma_apply_all(g, pre);
        let g1 = g.apply_all(pre);
        lemma_apply(g1, fs.last());
        assert forall|i: int| 0 <= i < fs.len() implies fact_present(g.apply_all(fs), #[trigger] fs[i]) by {
            if i < fs.len() - 1 {
                assert(fs[i] == pre[i]);
                lemma_present_stays(g1, fs.last(), fs[i]);
            }
        }
    }
}

proof fn lemma_present_stays(g: GraphView, f: Fact, h: Fact)
    requires
        g.wf(),
        fact_present(g, h),
    ensures
        fact_present(g.apply(f), h),
{
    lemma_apply(g, f);
    match h {
        Fact::Vertex(n) => {
            assert(g.apply(f).has_node(node_key(n)));
        },
        Fact::Link(a, b, r) => {
            assert(g.apply(f).has_node(node_key(a)));
            assert(g.apply(f).has_node(node_key(b)));
            assert(g.apply(f).has_edge((node_key(a), node_key(b), relation_key(r))));
        },
    }
}

proof fn lemma_rewrite_present(g: GraphView, gs: Seq<Fact>)
    requires
        g.wf(),
        forall|i: int| 0 <= i < gs.len() ==> fact_present(g, #[trigger] gs[i]),
    ensures
        same_size(g, g.apply_all(gs)),
        forall|i: int| 0 <= i < gs.len() ==> fact_present(g.apply_all(gs), #[trigger] gs[i]),
    decreases gs.len(),
{
    lemma_apply_all(g, gs);
    if gs.len() > 0 {
        let pre = gs.drop_last();
        assert forall|i: int| 0 <= i < pre.len() implies fact_present(g, #[trigger] pre[i]) by {
            assert(pre[i] == gs[i]);
        }
        lemma_rewrite_present(g, pre);
        let g1 = g.apply_all(pre);
        lemma_apply_all(g, pre);
        assert(fact_present(g, gs.last()));
        lemma_keys_present_stay(g, g1, gs.last());
        lemma_apply(g1, gs.last());
    }
}

proof fn lemma_keys_present_stay(g: GraphView, g1: GraphView, h: Fact)
    requires
        fact_present(g, h),
        forall|k: KeyView| g.has_node(k) ==> #[trigger] g1.has_node(k),
        forall|k: (KeyView, KeyView, RelationKey)| g.has_edge(k) ==> #[trigger] g1.has_edge(k),
    ensures
        fact_present(g1, h),
{
    match h {
        Fact::Vertex(n) => {
            assert(g1.has_node(node_key(n)));
        },
        Fact::Link(a, b, r) => {
            assert(g1.has_node(node_key(a)));
            assert(g1.has_node(node_key(b)));
            assert(g1.has_edge((node_key(a), node_key(b), relation_key(r))));
        },
    }
}

/// Crawling again adds nothing: after the facts `fs` are written, writing facts
/// `gs` of the same keys (the same crawl at a later time) creates no vertex and
/// no edge, so no key is ever stored twice.
pub proof fn recrawl_adds_nothing(g: GraphView, fs: Seq<Fact>, gs: Seq<Fact>)
    requires
        g.wf(),
        fs.len() == gs.len(),
        forall|i: int| 0 <= i < fs.len() ==> same_keys(#[trigger] fs[i], gs[i]),
    ensures
        same_size(g.apply_all(fs), g.apply_all(fs).apply_all(gs)),
        g.apply_all(fs).apply_all(gs).wf(),
{
    lemma_apply_all(g, fs);
    let g1 = g.apply_all(fs);
    assert forall|i: int| 0 <= i < gs.len() implies fact_present(g1, #[trigger] gs[i]) by {
        assert(fact_present(g1, fs[i]));
        assert(same_keys(fs[i], gs[i]));
    }
    lemma_rewrite_present(g1, gs);
    lemma_apply_all(g1, gs);
}

/// Timestamps only move forward: rewriting a stored identity leaves its update
/// time at the later of the stored and the written one, so a write at a later
/// time strictly advances it.
pub proof fn update_time_moves_forward(g: GraphView, v: Identity)
    requires
        g.wf(),
        g.has_node(identity_key(v)),
    ensures
        ({
            let i = identity_index(g.identities, identity_key(v));
            let g2 = g.upsert_node(Node::Identity(v));
            &&& g2.identities.len() == g.identities.len()
            &&& identity_key(g2.identities[i]) == identity_key(v)
            &&& g2.identities[i].updated_at >= g.identities[i].updated_at
            &&& g2.identities[i].updated_at >= v.updated_at
            &&& v.updated_at > g.identities[i].updated_at ==> g2.identities[i].updated_at == v.updated_at
        }),
{
}

/// A supplied display name overwrites the stored one, also where it is empty:
/// a retracted value is a fact, not a missing answer.
pub proof fn retraction_overwrites(g: GraphView, v: Identity)
    requires
        g.wf(),
        v.display_name is Some,
    ensures
        ({
            let g2 = g.upsert_node(Node::Identity(v));
            &&& g2.wf()
            &&& exists|i: int| 0 <= i < g2.identities.len() && identity_key(g2.identities[i]) == identity_key(v)
                && g2.identities[i].display_name == v.display_name
        }),
{
    lemma_upsert_node(g, Node::Identity(v));
    let s = g.identities;
    if exists|i: int| 0 <= i < s.len() && identity_key(s[i]) == identity_key(v) {
        let i = identity_index(s, identity_key(v));
        let g2 = g.upsert_node(Node::Identity(v));
        assert(identity_key(g2.identities[i]) == identity_key(v));
    } else {
        let g2 = g.upsert_node(Node::Identity(v));
        assert(identity_key(g2.identities[s.len() as int]) == identity_key(v));
    }
}

/// Every link that a sequence of facts writes is stored afterwards, as a
/// directed edge of its own key.
pub proof fn links_are_stored(g: GraphView, fs: Seq<Fact>, i: int)
    requires
        g.wf(),
        0 <= i < fs.len(),
        fs[i] is Link,
    ensures
        g.apply_all(fs).has_edge(crate::upstream::link_keys(fs[i])->0),
        g.apply_all(fs).wf(),
{
    lemma_apply_all(g, fs);
    assert(fact_present(g.apply_all(fs), fs[i]));
}

/// The number of edges of a kind and source from one vertex to another.
pub open spec fn relation_count(es: Seq<Edge>, from: KeyView, to: KeyView, kind: RelationKind, source: DataSource) -> nat
    decreases es.len(),
{
    if es.len() == 0 {
        0
    } else {
        let e = es.last();
        relation_count(es.drop_last(), from, to, kind, source) + if e.from@ == from && e.to@ == to
            && relation_kind(e.relation) == kind && relation_source(e.relation) == source {
            1nat
        } else {
            0nat
        }
    }
}

fn kind_of(r: &Relation) -> (k: RelationKind)
    ensures
        k == relation_kind(*r),
{
    match r {
        Relation::Proof(_) => RelationKind::Proof,
        Relation::Hold(_) => RelationKind::Hold,
        Relation::Resolve(_) => RelationKind::Resolve,
    }
}

fn source_of(r: &Relation) -> (s: DataSource)
    ensures
        s == relation_source(*r),
{
    match r {
        Relation::Proof(p) => p.source,
        Relation::Hold(h) => h.source,
        Relation::Resolve(x) => x.source,
    }
}

impl GraphStore {
    /// The number of stored edges of a kind and source from `from` to `to`.
    pub fn count_relations(&self, from: &NodeKey, to: &NodeKey, kind: RelationKind, source: DataSource) -> (r: usize)
        ensures
            r == relation_count(self@.edges, from@, to@, kind, source),
    {
        let mut n: usize = 0;
        let mut i: usize = 0;
        while i < self.edges.len()
            invariant
                i <= self@.edges.len(),
                n == relation_count(self@.edges.take(i as int), from@, to@, kind, source),
                n <= i,
            decreases self@.edges.len() - i,
        {
            let e = &self.edges[i];
            proof {
                assert(self@.edges.take(i + 1).drop_last() =~= self@.edges.take(i as int));
                assert(self@.edges.take(i + 1).last() == *e);
            }
            if e.from.same(from) && e.to.same(to) && kind_of(&e.relation) == kind && source_of(&e.relation) == source {
                n = n + 1;
            }
            i = i + 1;
        }
        assert(self@.edges.take(i as int) =~= self@.edges);
        n
    }
}

/// Writing one sequence of facts after another is writing them in one go.
pub proof fn apply_all_concat(g: GraphView, a: Seq<Fact>, b: Seq<Fact>)
    ensures
        g.apply_all(a + b) == g.apply_all(a).apply_all(b),
    decreases b.len(),
{
    if b.len() == 0 {
        assert(a + b =~= a);
    } else {
        apply_all_concat(g, a, b.drop_last());
        assert((a + b).drop_last() =~= a + b.drop_last());
        assert((a + b).last() == b.last());
    }
}

/// Writing an identity again at a later time keeps its one vertex and
/// strictly advances its update time, provided no stored time lies after the
/// first write.
pub proof fn refresh_strictly_advances(g: GraphView, v1: Identity, v2: Identity)
    requires
        g.wf(),
        identity_key(v1) == identity_key(v2),
        v1.updated_at < v2.updated_at,
        forall|j: int| 0 <= j < g.identities.len() ==> #[trigger] g.identities[j].updated_at <= v1.updated_at,
    ensures
        ({
            let g1 = g.upsert_node(Node::Identity(v1));
            let g2 = g1.upsert_node(Node::Identity(v2));
            let i = identity_index(g1.identities, identity_key(v1));
            &&& g2.wf()
            &&& g2.identities.len() == g1.identities.len()
            &&& 0 <= i < g1.identities.len()
            &&& identity_key(g1.identities[i]) == identity_key(v1)
            &&& identity_key(g2.identities[i]) == identity_key(v1)
            &&& forall|j: int| 0 <= j < g2.identities.len() && identity_key(g2.identities[j]) == identity_key(v1) ==> j == i
            &&& g1.identities[i].updated_at < g2.identities[i].updated_at
            &&& g2.identities[i].updated_at == v2.updated_at
            &&& g2.identities[i].display_name == merge_opt(g1.identities[i].display_name, v2.display_name)
        }),
{
    let k = identity_key(v1);
    let n1 = Node::Identity(v1);
    let n2 = Node::Identity(v2);
    lemma_upsert_node(g, n1);
    let g1 = g.upsert_node(n1);
    lemma_upsert_node(g1, n2);
    let g2 = g1.upsert_node(n2);
    let s = g.identities;
    let s1 = g1.identities;
    let i = identity_index(s1, k);
    assert(exists|m: int| 0 <= m < s1.len() && identity_key(s1[m]) == k);
    if exists|m: int| 0 <= m < s.len() && identity_key(s[m]) == k {
        let j = identity_index(s, k);
        assert(identity_key(s1[j]) == k);
        assert(i == j);
        assert(s1[i].updated_at == v1.updated_at);
    } else {
        assert(identity_key(s1[s.len() as int]) == k);
        assert(i == s.len());
        assert(s1[i].updated_at == v1.updated_at);
    }
    assert(g2.identities == s1.update(i, merge_identity(s1[i], v2)));
    assert forall|j: int| 0 <= j < g2.identities.len() && identity_key(g2.identities[j]) == k implies j == i by {
        if j != i {
            assert(g2.identities[j] == s1[j]);
        }
    }
}

proof fn lemma_count_unique(es: Seq<Edge>, from: KeyView, to: KeyView, source: DataSource)
    requires
        forall|i: int, j: int| 0 <= i < j < es.len() ==> edge_key(es[i]) != edge_key(es[j]),
    ensures
        relation_count(es, from, to, RelationKind::Proof, source) == (if exists|i: int| 0 <= i < es.len()
            && edge_key(es[i]) == (from, to, RelationKey::Proof(source)) { 1nat } else { 0nat }),
    decreases es.len(),
{
    let k = (from, to, RelationKey::Proof(source));
    if es.len() > 0 {
        let pre = es.drop_last();
        lemma_count_unique(pre, from, to, source);
        let e = es.last();
        assert((e.from@ == from && e.to@ == to && relation_kind(e.relation) == RelationKind::Proof
            && relation_source(e.relation) == source) == (edge_key(e) == k));
        if edge_key(e) == k {
            assert forall|i: int| 0 <= i < pre.len() implies edge_key(pre[i]) != k by {
                assert(pre[i] == es[i]);
            }
        }
        if exists|i: int| 0 <= i < es.len() && edge_key(es[i]) == k {
            let i = choose|i: int| 0 <= i < es.len() && edge_key(es[i]) == k;
            if i < pre.len() {
                assert(pre[i] == es[i]);
            }
        }
        if exists|i: int| 0 <= i < pre.len() && edge_key(pre[i]) == k {
            let i = choose|i: int| 0 <= i < pre.len() && edge_key(pre[i]) == k;
            assert(es[i] == pre[i]);
        }
    }
}

/// A stored proof link is exactly one edge: in a well-formed store the number
/// of proof edges of a source between two vertices is one where that proof is
/// stored and none otherwise.
pub proof fn proof_edges_are_unique(g: GraphView, from: KeyView, to: KeyView, source: DataSource)
    requires
        g.wf(),
    ensures
        relation_count(g.edges, from, to, RelationKind::Proof, source)
            == (if g.has_edge((from, to, RelationKey::Proof(source))) { 1nat } else { 0nat }),
{
    lemma_count_unique(g.edges, from, to, source);
}

} // verus!
