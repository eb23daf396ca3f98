use vstd::prelude::*;
use crate::graph::{Contract, Fact, Hold, KeyView, Node, Relation, RelationKey, Resolve};
use crate::model::{Chain, ContractCategory, DataFetcher, DataSource, DomainNameSystem, Platform, Target, TargetView, ENS_REGISTRAR};
use crate::upstream::{fresh_identity, hold_written, ident, link_keys, new_identity, resolve_written, Outcome};
use crate::upstream::space_id::ZERO_ADDRESS;
use crate::util::{new_uuid, parse_timestamp, str_eq, timestamp_of};

verus! {

/// The ENS domains (plain and wrapped) that a subgraph query found.
#[derive(Debug)]
pub struct QueryResponse {
    pub domains: Vec<Domain>,
    pub wrapped_domains: Vec<WrappedDomain>,
}

/// An ENS domain.
#[derive(Debug)]
pub struct Domain {
    /// The name (`something.eth`).
    pub name: String,
    /// Creation time, in seconds, as text.
    pub created_at: String,
    /// The first event of the domain.
    pub events: Vec<DomainEvent>,
    /// The address the domain resolves to, if it resolves.
    pub resolved_address: Option<Account>,
    pub owner: Account,
}

/// A domain held through the name wrapper, whose owner is the real one.
#[derive(Debug)]
pub struct WrappedDomain {
    pub name: String,
    pub owner: Account,
    pub domain: Domain,
}

/// An Ethereum account.
#[derive(Debug)]
pub struct Account {
    pub id: String,
}

#[derive(Debug)]
pub struct DomainEvent {
    pub transaction_id: String,
}

/// The query for the domains of a name.
pub const QUERY_BY_ENS: &'static str = "
        query OwnerAddressByENS($target: String!){
            domains(where: { name: $target }) {
                name
                createdAt
                events(first: 1) { transactionID }
                resolvedAddress { id }
                owner { id }
            }
            wrappedDomains(where: { name: $target }) {
                name
                domain {
                    name
                    createdAt
                    events(first: 1) { transactionID }
                    resolvedAddress { id }
                    owner { id }
                }
                owner { id }
            }
        }
    ";

/// The query for the domains a wallet owns.
pub const QUERY_BY_WALLET: &'static str = "
        query ENSByOwnerAddress($target: String!){
            domains(where: { owner: $target }) {
                name
                createdAt
                events(first: 1) { transactionID }
                resolvedAddress { id }
                owner { id }
            }
            wrappedDomains(where: { owner: $target }) {
                name
                domain {
                    name
                    createdAt
                    events(first: 1) { transactionID }
                    resolvedAddress { id }
                    owner { id }
                }
                owner { id }
            }
        }
    ";

/// ENS through its subgraph.
pub struct TheGraph {}

pub open spec fn the_graph_accepts(t: TargetView) -> bool {
    ||| t matches TargetView::Identity(p, _) && p == Platform::Ethereum
    ||| t matches TargetView::NFT(c, k, _, _) && c == Chain::Ethereum && k == ContractCategory::ENS
}

/// A wrapped domain with its real owner.
pub open spec fn unwrapped(w: WrappedDomain) -> Domain {
    Domain { owner: w.owner, ..w.domain }
}

pub open spec fn has_name(ds: Seq<Domain>, n: Seq<char>) -> bool {
    exists|i: int| 0 <= i < ds.len() && ds[i].name@ == n
}

/// The wrapped domains first, with their real owners, then each plain domain
/// whose name is not there yet.
pub open spec fn merged(ws: Seq<WrappedDomain>, ds: Seq<Domain>) -> Seq<Domain>
    decreases ds.len(),
{
    if ds.len() == 0 {
        ws.map_values(|w: WrappedDomain| unwrapped(w))
    } else {
        let m = merged(ws, ds.drop_last());
        if has_name(m, ds.last().name@) {
            m
        } else {
            m.push(ds.last())
        }
    }
}

pub open spec fn ens_contract() -> KeyView {
    KeyView::Contract(Chain::Ethereum, ENS_REGISTRAR@)
}

pub open spec fn ens_resolve() -> RelationKey {
    RelationKey::Resolve(DataSource::TheGraph, DomainNameSystem::ENS)
}

/// Whether a domain resolves to an address other than zero.
pub open spec fn resolves(d: Domain) -> bool {
    d.resolved_address matches Some(a) && a.id@ != ZERO_ADDRESS@
}

/// The edges written for one domain: the owner holds the name, the name
/// resolves to the owner, and where it resolves to an address, that address
/// reverse-resolves to the name.
pub open spec fn domain_edges(d: Domain) -> Seq<(KeyView, KeyView, RelationKey)> {
    let owner = ident(Platform::Ethereum, d.owner.id@);
    let base = seq![
        (owner, ens_contract(), RelationKey::Hold(DataSource::TheGraph, d.name@)),
        (ens_contract(), owner, ens_resolve()),
    ];
    if resolves(d) {
        base.push((ident(Platform::Ethereum, d.resolved_address->0.id@), ens_contract(), ens_resolve()))
    } else {
        base
    }
}

/// The transaction of a domain's first event, if it has one.
pub open spec fn creation_tx(d: Domain) -> Option<Seq<char>> {
    if d.events@.len() > 0 {
        Some(d.events@[0].transaction_id@)
    } else {
        None
    }
}

/// The fact written at position `j` for a domain: the owner's hold of the
/// name, with the creating transaction and time; the name resolving to the
/// owner; and where the name resolves to an address, that address
/// reverse-resolving to the name. All of it written at `now`.
pub open spec fn domain_fact(d: Domain, j: int, f: Fact, now: i64) -> bool {
    &&& link_keys(f) == Some(domain_edges(d)[j])
    &&& if j == 0 {
        hold_written(f, creation_tx(d), timestamp_of(d.created_at@), now)
            && (f matches Fact::Link(a, c, _) && identity_fresh(a, now) && ens_contract_fresh(c, now))
    } else if j == 1 {
        resolve_written(f, d.name@, now)
            && (f matches Fact::Link(c, a, _) && ens_contract_fresh(c, now) && identity_fresh(a, now))
    } else {
        resolve_written(f, d.name@, now)
            && (f matches Fact::Link(a, c, _) && identity_fresh(a, now) && ens_contract_fresh(c, now))
    }
}

/// An Ethereum identity written at `now` with nothing else supplied.
pub open spec fn identity_fresh(n: Node, now: i64) -> bool {
    n matches Node::Identity(v) && fresh_identity(v, Platform::Ethereum, v.identity@, None, None, now)
}

/// The ENS contract vertex, written at `now`.
pub open spec fn ens_contract_fresh(n: Node, now: i64) -> bool {
    n matches Node::Contract(c) && c.category == ContractCategory::ENS && c.symbol is None && c.updated_at == now
}

/// The positions of the facts written for one domain.
pub open spec fn domain_slots(d: Domain) -> Seq<(Domain, int)> {
    if resolves(d) {
        seq![(d, 0int), (d, 1int), (d, 2int)]
    } else {
        seq![(d, 0int), (d, 1int)]
    }
}

/// The positions of the facts written for each domain in turn.
pub open spec fn all_slots(ds: Seq<Domain>) -> Seq<(Domain, int)>
    decreases ds.len(),
{
    if ds.len() == 0 {
        Seq::empty()
    } else {
        all_slots(ds.drop_last()) + domain_slots(ds.last())
    }
}

/// What a domain leads to: from a wallet, the domain as a token; from a
/// token, its owner and the address it resolves to, where that differs.
pub open spec fn domain_next(t: TargetView, d: Domain) -> Seq<TargetView> {
    match t {
        TargetView::Identity(_, _) => seq![TargetView::NFT(Chain::Ethereum, ContractCategory::ENS, ENS_REGISTRAR@, d.name@)],
        TargetView::NFT(..) => {
            let owner = seq![TargetView::Identity(Platform::Ethereum, d.owner.id@)];
            if d.resolved_address matches Some(a) && a.id@ != d.owner.id@ {
                owner.push(TargetView::Identity(Platform::Ethereum, d.resolved_address->0.id@))
            } else {
                owner
            }
        },
    }
}

pub open spec fn all_next(t: TargetView, ds: Seq<Domain>) -> Seq<TargetView>
    decreases ds.len(),
{
    if ds.len() == 0 {
        Seq::empty()
    } else {
        all_next(t, ds.drop_last()) + domain_next(t, ds.last())
    }
}

fn ens_contract_node(now: i64) -> (r: Node)
    ensures
        crate::graph::node_key(r) == ens_contract(),
        ens_contract_fresh(r, now),
{
    Node::Contract(Contract {
        uuid: new_uuid(),
        category: ContractCategory::ENS,
        chain: Chain::Ethereum,
        address: String::from_str(ENS_REGISTRAR),
        symbol: None,
        updated_at: now,
    })
}

fn eth_node(address: &String, now: i64) -> (r: Node)
    ensures
        crate::graph::node_key(r) == ident(Platform::Ethereum, address@),
        identity_fresh(r, now),
{
    Node::Identity(new_identity(Platform::Ethereum, address.clone(), None, None, now))
}

fn ens_resolve_relation(name: &String, now: i64) -> (r: Relation)
    ensures
        crate::graph::relation_key(r) == ens_resolve(),
        r matches Relation::Resolve(x) && x.name@ == name@ && x.updated_at == now,
{
    Relation::Resolve(Resolve {
        uuid: new_uuid(),
        source: DataSource::TheGraph,
        system: DomainNameSystem::ENS,
        name: name.clone(),
        fetcher: DataFetcher::RelationService,
        updated_at: now,
    })
}

impl TheGraph {
    pub fn can_fetch(target: &Target) -> (r: bool)
        ensures
            r == the_graph_accepts(target@),
    {
        target.in_platform_supported(vec![Platform::Ethereum])
            || target.in_nft_supported(vec![ContractCategory::ENS], vec![Chain::Ethereum])
    }

    /// The query and its variable: the domains a wallet owns, or the domains
    /// of a name.
    pub fn query_for(target: &Target) -> (r: (&'static str, String))
        ensures
            match target@ {
                TargetView::Identity(_, s) => r.0@ == QUERY_BY_WALLET@ && r.1@ == s,
                TargetView::NFT(_, _, _, n) => r.0@ == QUERY_BY_ENS@ && r.1@ == n,
            },
    {
        match target {
            Target::Identity(_, s) => (QUERY_BY_WALLET, s.clone()),
            Target::NFT(_, _, _, n) => (QUERY_BY_ENS, n.clone()),
        }
    }

    /// Merges wrapped and plain domains: a wrapped domain takes the owner of
    /// its wrapper, and a plain domain already present by name is skipped.
    pub fn merge_domains(res: QueryResponse) -> (r: Vec<Domain>)
        ensures
            r@ == merged(res.wrapped_domains@, res.domains@),
    {
        let ghost ws = res.wrapped_domains@;
        let ghost ds = res.domains@;
        let nw = res.wrapped_domains.len();
        let nd = res.domains.len();
        let mut wrapped = res.wrapped_domains;
        let mut plain = res.domains;
        let mut out: Vec<Domain> = Vec::new();
        let mut k: usize = 0;
        while wrapped.len() > 0
            invariant
                k <= ws.len(),
                ws.len() == nw,
                wrapped@ == ws.skip(k as int),
                out@ == ws.take(k as int).map_values(|w: WrappedDomain| unwrapped(w)),
            decreases wrapped@.len(),
        {
            let wd = wrapped.remove(0);
            assert(ws[k as int] == wd);
            let d = Domain {
                name: wd.domain.name,
                created_at: wd.domain.created_at,
                events: wd.domain.events,
                resolved_address: wd.domain.resolved_address,
                owner: wd.owner,
            };
            out.push(d);
            proof {
                assert(ws.take(k + 1).map_values(|w: WrappedDomain| unwrapped(w))
                    =~= ws.take(k as int).map_values(|w: WrappedDomain| unwrapped(w)).push(unwrapped(wd)));
                assert(wrapped@ =~= ws.skip(k + 1));
            }
            k = k + 1;
        }
        assert(ws.take(k as int) =~= ws);
        let mut j: usize = 0;
        while plain.len() > 0
            invariant
                j <= ds.len(),
                ds.len() == nd,
                plain@ == ds.skip(j as int),
                out@ == merged(ws, ds.take(j as int)),
            decreases plain@.len(),
        {
            let d = plain.remove(0);
            proof {
                assert(ds[j as int] == d);
                assert(ds.take(j + 1).drop_last() =~= ds.take(j as int));
                assert(plain@ =~= ds.skip(j + 1));
            }
            let mut found = false;
            let mut i: usize = 0;
            while i < out.len()
                invariant
                    i <= out@.len(),
                    found == exists|m: int| 0 <= m < i && out@[m].name@ == d.name@,
                decreases out@.len() - i,
            {
                if str_eq(out[i].name.as_str(), d.name.as_str()) {
                    found = true;
                }
                i = i + 1;
            }
            if !found {
                out.push(d);
            }
            j = j + 1;
        }
        assert(ds.take(j as int) =~= ds);
        out
    }

    /// The writes for one domain: its owner holds the name (with the creating
    /// transaction and time, where known) and the name resolves to the owner;
    /// where it resolves to an address other than zero, that address
    /// reverse-resolves to the name.
    pub fn create_or_update_own(domain: &Domain, now: i64) -> (r: Vec<Fact>)
        ensures
            r@.len() == domain_edges(*domain).len(),
            forall|k: int| 0 <= k < r@.len() ==> domain_fact(*domain, k, #[trigger] r@[k], now),
    {
        let creation_tx = if domain.events.len() > 0 {
            Some(domain.events[0].transaction_id.clone())
        } else {
            None
        };
        let ownership = Hold {
            uuid: new_uuid(),
            source: DataSource::TheGraph,
            fetcher: DataFetcher::RelationService,
            transaction: creation_tx,
            id: domain.name.clone(),
            created_at: parse_timestamp(domain.created_at.as_str()),
            updated_at: now,
        };
        let mut facts: Vec<Fact> = Vec::new();
        facts.push(Fact::Link(eth_node(&domain.owner.id, now), ens_contract_node(now), Relation::Hold(ownership)));
        facts.push(Fact::Link(ens_contract_node(now), eth_node(&domain.owner.id, now), ens_resolve_relation(&domain.name, now)));
        match &domain.resolved_address {
            Some(a) => {
                if !str_eq(a.id.as_str(), ZERO_ADDRESS) {
                    facts.push(Fact::Link(eth_node(&a.id, now), ens_contract_node(now), ens_resolve_relation(&domain.name, now)));
                }
            },
            None => {},
        }
        facts
    }

    /// Records every merged domain of the answer and returns what they lead to.
    pub fn perform_fetch(target: &Target, res: QueryResponse, now: i64) -> (r: Outcome)
        ensures
            !the_graph_accepts(target@) ==> r.facts@.len() == 0 && r.next@.len() == 0,
            the_graph_accepts(target@) ==> ({
                let ds = merged(res.wrapped_domains@, res.domains@);
                &&& r.facts@.len() == all_slots(ds).len()
                &&& forall|k: int| 0 <= k < r.facts@.len() ==> domain_fact(all_slots(ds)[k].0, all_slots(ds)[k].1, #[trigger] r.facts@[k], now)
                &&& crate::engine::views(r.next@) == all_next(target@, ds)
            }),
    {
        if !Self::can_fetch(target) {
            return Outcome::empty();
        }
        let domains = Self::merge_domains(res);
        let ghost ds = domains@;
        let mut facts: Vec<Fact> = Vec::new();
        let mut next: Vec<Target> = Vec::new();
        let mut i: usize = 0;
        while i < domains.len()
            invariant
                ds == domains@,
                i <= ds.len(),
                facts@.len() == all_slots(ds.take(i as int)).len(),
                forall|k: int| 0 <= k < facts@.len() ==> domain_fact(all_slots(ds.take(i as int))[k].0,
                    all_slots(ds.take(i as int))[k].1, #[trigger] facts@[k], now),
                crate::engine::views(next@) == all_next(target@, ds.take(i as int)),
            decreases ds.len() - i,
        {
            let d = &domains[i];
            proof {
                assert(ds.take(i + 1).drop_last() =~= ds.take(i as int));
                assert(ds.take(i + 1).last() == *d);
            }
            let own = Self::create_or_update_own(d, now);
            let ghost facts_before = facts@;
            let mut j: usize = 0;
            let no = own.len();
            let mut own = own;
            let ghost own0 = own@;
            while own.len() > 0
                invariant
                    j <= own0.len(),
                    own0.len() == no,
                    own@ == own0.skip(j as int),
                    facts@ == facts_before + own0.take(j as int),
                decreases own@.len(),
            {
                let f = own.remove(0);
                facts.push(f);
                proof {
                    assert(own0[j as int] == f);
                    assert(facts@ =~= facts_before + own0.take(j + 1));
                    assert(own@ =~= own0.skip(j + 1));
                }
                j = j + 1;
            }
            assert(own0.take(j as int) =~= own0);
            assert(all_slots(ds.take(i + 1)) == all_slots(ds.take(i as int)) + domain_slots(*d));
            assert forall|k: int| 0 <= k < facts@.len() implies domain_fact(all_slots(ds.take(i + 1))[k].0,
                all_slots(ds.take(i + 1))[k].1, #[trigger] facts@[k], now) by {
                if k >= facts_before.len() {
                    assert(facts@[k] == own0[k - facts_before.len()]);
                    assert(domain_slots(*d)[k - facts_before.len()] == (*d, k - facts_before.len()));
                } else {
                    assert(facts@[k] == facts_before[k]);
                }
            }
            let ghost next_before = next@;
            match target {
                Target::Identity(..) => {
                    next.push(Target::NFT(Chain::Ethereum, ContractCategory::ENS, String::from_str(ENS_REGISTRAR), d.name.clone()));
                    proof {
                        assert(crate::engine::views(next@) =~= crate::engine::views(next_before) + domain_next(target@, *d));
                    }
                },
                Target::NFT(..) => {
                    next.push(Target::Identity(Platform::Ethereum, d.owner.id.clone()));
                    let ghost next_mid = next@;
                    proof {
                        assert(crate::engine::views(next_mid) =~= crate::engine::views(next_before)
                            + seq![TargetView::Identity(Platform::Ethereum, d.owner.id@)]);
                    }
                    match &d.resolved_address {
                        Some(a) => {
                            if !str_eq(a.id.as_str(), d.owner.id.as_str()) {
                                next.push(Target::Identity(Platform::Ethereum, a.id.clone()));
                                proof {
                                    assert(crate::engine::views(next@) =~= crate::engine::views(next_mid).push(
                                        TargetView::Identity(Platform::Ethereum, a.id@)));
                                }
                            }
                        },
                        None => {},
                    }
                    proof {
                        assert(crate::engine::views(next@) =~= crate::engine::views(next_before) + domain_next(target@, *d));
                    }
                },
            }
            i = i + 1;
        }
        assert(ds.take(i as int) =~= ds);
        Outcome { facts, next }
    }
}

} // verus!
