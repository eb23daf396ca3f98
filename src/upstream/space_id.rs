use vstd::prelude::*;
use crate::graph::{links_are_stored, Fact, GraphView, Hold, Node, Relation, RelationKey, Resolve};
use crate::model::{DataFetcher, DataSource, DomainNameSystem, Platform, Target, TargetView};
use crate::upstream::{ends_fresh, fresh_identity, hold_written, ident, is_valid_uri, join, link_keys, make_uri, new_identity, resolve_written, FetchError, Outcome};
use crate::util::{lower_of, lowercase, new_uuid, str_eq};

verus! {

/// An error answer of the SpaceId API.
#[derive(Debug)]
pub struct BadResponse {
    pub code: i32,
    pub msg: String,
}

/// The address a SpaceId domain resolves to.
#[derive(Debug)]
pub struct ResolveResponse {
    pub code: i32,
    pub address: String,
}

/// The primary domain an address reverse-resolves to, if it has one.
#[derive(Debug)]
pub struct ReverseResolveResponse {
    pub code: i32,
    pub name: Option<String>,
}

/// Resolves SpaceId domains to addresses and back.
pub struct SpaceId {}

/// What SpaceId is asked about a target.
#[derive(Debug)]
pub enum Lookup {
    /// The primary name of an address.
    ByAddress(String),
    /// The address of a domain.
    ByDomain(String),
    /// Nothing: SpaceId does not know the target.
    Nothing,
}

/// The address SpaceId answers for a domain that is valid but not registered.
pub const ZERO_ADDRESS: &'static str = "0x0000000000000000000000000000000000000000";

pub open spec fn space_id_accepts(t: TargetView) -> bool {
    t matches TargetView::Identity(p, _) && (p == Platform::SpaceId || p == Platform::Ethereum)
}

/// The relation key of a SpaceId hold.
pub open spec fn sid_hold() -> RelationKey {
    RelationKey::Hold(DataSource::SpaceId, Seq::empty())
}

/// The relation key of a SpaceId resolution, forward or reverse.
pub open spec fn sid_resolve() -> RelationKey {
    RelationKey::Resolve(DataSource::SpaceId, DomainNameSystem::SpaceId)
}

fn sid_hold_relation(now: i64) -> (r: Relation)
    ensures
        crate::graph::relation_key(r) == sid_hold(),
        r matches Relation::Hold(h) && h.transaction is None && h.created_at is None && h.updated_at == now,
{
    Relation::Hold(Hold {
        uuid: new_uuid(),
        source: DataSource::SpaceId,
        fetcher: DataFetcher::RelationService,
        transaction: None,
        id: String::new(),
        created_at: None,
        updated_at: now,
    })
}

fn sid_resolve_relation(name: String, now: i64) -> (r: Relation)
    ensures
        crate::graph::relation_key(r) == sid_resolve(),
        r matches Relation::Resolve(x) && x.name == name && x.updated_at == now,
{
    Relation::Resolve(Resolve {
        uuid: new_uuid(),
        source: DataSource::SpaceId,
        system: DomainNameSystem::SpaceId,
        name,
        fetcher: DataFetcher::RelationService,
        updated_at: now,
    })
}

fn sid_vertex(platform: Platform, identity: &String, now: i64) -> (r: Node)
    ensures
        crate::graph::node_key(r) == ident(platform, identity@),
        r matches Node::Identity(v) && fresh_identity(v, platform, identity@, None, None, now),
{
    Node::Identity(new_identity(platform, identity.clone(), None, None, now))
}

impl SpaceId {
    /// SpaceId answers for Ethereum addresses and SpaceId domains.
    pub fn can_fetch(target: &Target) -> (r: bool)
        ensures
            r == space_id_accepts(target@),
    {
        target.in_platform_supported(vec![Platform::SpaceId, Platform::Ethereum])
    }

    /// Chooses the lookup for a target: an Ethereum address is reverse-resolved,
    /// a SpaceId domain is resolved.
    pub fn plan(target: &Target) -> (r: Lookup)
        ensures
            match target@ {
                TargetView::Identity(Platform::Ethereum, s) => r matches Lookup::ByAddress(a) && a@ == s,
                TargetView::Identity(Platform::SpaceId, s) => r matches Lookup::ByDomain(d) && d@ == s,
                _ => r is Nothing,
            },
    {
        match target {
            Target::Identity(Platform::Ethereum, s) => Lookup::ByAddress(s.clone()),
            Target::Identity(Platform::SpaceId, s) => Lookup::ByDomain(s.clone()),
            _ => Lookup::Nothing,
        }
    }

    /// The request that resolves a domain.
    pub fn get_address_uri(base: &str, domain: &str) -> (r: Result<http::Uri, FetchError>)
        ensures
            r is Ok <==> is_valid_uri(base@ + "/v1/getAddress?tld=bnb&domain="@ + domain@),
            r is Err ==> r->Err_0 is ParamError,
    {
        let head = join(base, "/v1/getAddress?tld=bnb&domain=");
        let url = join(head.as_str(), domain);
        proof {
            assert(url@ =~= base@ + "/v1/getAddress?tld=bnb&domain="@ + domain@);
        }
        make_uri(url.as_str())
    }

    /// The request that reverse-resolves an address.
    pub fn get_name_uri(base: &str, address: &str) -> (r: Result<http::Uri, FetchError>)
        ensures
            r is Ok <==> is_valid_uri(base@ + "/v1/getName?tld=bnb&address="@ + address@),
            r is Err ==> r->Err_0 is ParamError,
    {
        let head = join(base, "/v1/getName?tld=bnb&address=");
        let url = join(head.as_str(), address);
        proof {
            assert(url@ =~= base@ + "/v1/getName?tld=bnb&address="@ + address@);
        }
        make_uri(url.as_str())
    }

    /// The address of a resolve answer. An error answer is a rejection, and
    /// the zero address (valid but unregistered domain) is no result.
    pub fn address_of(reply: Result<ResolveResponse, BadResponse>) -> (r: Result<String, FetchError>)
        ensures
            match reply {
                Ok(x) => if x.address@ == ZERO_ADDRESS@ {
                    r matches Err(FetchError::NoResult)
                } else {
                    r == Ok::<String, FetchError>(x.address)
                },
                Err(b) => r matches Err(FetchError::UpstreamRejected(c, m)) && c == b.code && m == b.msg,
            },
    {
        match reply {
            Ok(x) => {
                if str_eq(x.address.as_str(), ZERO_ADDRESS) {
                    Err(FetchError::NoResult)
                } else {
                    Ok(x.address)
                }
            },
            Err(b) => Err(FetchError::UpstreamRejected(b.code, b.msg)),
        }
    }

    /// The primary name of a reverse-resolve answer; an error answer is a rejection.
    pub fn name_of(reply: Result<ReverseResolveResponse, BadResponse>) -> (r: Result<Option<String>, FetchError>)
        ensures
            match reply {
                Ok(x) => r == Ok::<Option<String>, FetchError>(x.name),
                Err(b) => r matches Err(FetchError::UpstreamRejected(c, m)) && c == b.code && m == b.msg,
            },
    {
        match reply {
            Ok(x) => Ok(x.name),
            Err(b) => Err(FetchError::UpstreamRejected(b.code, b.msg)),
        }
    }

    /// Records what an address's primary name says: the address holds the
    /// name, the name resolves to the address and the address reverse-resolves
    /// to the name. The name is visited next. An address without a primary
    /// name yields nothing.
    pub fn fetch_domain_by_address(address: &str, name: Option<String>, now: i64) -> (r: Outcome)
        ensures
            name is None ==> r.facts@.len() == 0 && r.next@.len() == 0,
            name matches Some(n) ==> ({
                let eth = ident(Platform::Ethereum, lower_of(address@));
                let sid = ident(Platform::SpaceId, n@);
                &&& r.facts@.len() == 3
                &&& link_keys(r.facts@[0]) == Some((eth, sid, sid_hold()))
                &&& link_keys(r.facts@[1]) == Some((sid, eth, sid_resolve()))
                &&& link_keys(r.facts@[2]) == Some((eth, sid, sid_resolve()))
                &&& hold_written(r.facts@[0], None, None, now)
                &&& resolve_written(r.facts@[1], n@, now)
                &&& resolve_written(r.facts@[2], n@, now)
                &&& forall|k: int| 0 <= k < 3 ==> ends_fresh(#[trigger] r.facts@[k], None, None, None, None, now)
                &&& r.next@.len() == 1
                &&& r.next@[0]@ == TargetView::Identity(Platform::SpaceId, n@)
            }),
    {
        match name {
            None => Outcome::empty(),
            Some(n) => {
                let addr = lowercase(address);
                let mut facts: Vec<Fact> = Vec::new();
                facts.push(Fact::Link(
                    sid_vertex(Platform::Ethereum, &addr, now),
                    sid_vertex(Platform::SpaceId, &n, now),
                    sid_hold_relation(now),
                ));
                facts.push(Fact::Link(
                    sid_vertex(Platform::SpaceId, &n, now),
                    sid_vertex(Platform::Ethereum, &addr, now),
                    sid_resolve_relation(n.clone(), now),
                ));
                facts.push(Fact::Link(
                    sid_vertex(Platform::Ethereum, &addr, now),
                    sid_vertex(Platform::SpaceId, &n, now),
                    sid_resolve_relation(n.clone(), now),
                ));
                let mut next: Vec<Target> = Vec::new();
                next.push(Target::Identity(Platform::SpaceId, n));
                Outcome { facts, next }
            },
        }
    }

    /// Records what a domain's resolution says: the address holds the domain
    /// and the domain resolves to the address; where the address has a primary
    /// name, the address also reverse-resolves to that name, which may be
    /// another domain. The address is visited next.
    pub fn fetch_address_by_domain(domain: &str, address: &str, reverse: Option<String>, now: i64) -> (r: Outcome)
        ensures
            ({
                let eth = ident(Platform::Ethereum, lower_of(address@));
                let sid = ident(Platform::SpaceId, domain@);
                &&& r.facts@.len() == (if reverse is Some { 3int } else { 2int })
                &&& link_keys(r.facts@[0]) == Some((eth, sid, sid_hold()))
                &&& link_keys(r.facts@[1]) == Some((sid, eth, sid_resolve()))
                &&& hold_written(r.facts@[0], None, None, now)
                &&& resolve_written(r.facts@[1], domain@, now)
                &&& forall|k: int| 0 <= k < r.facts@.len() ==> ends_fresh(#[trigger] r.facts@[k], None, None, None, None, now)
                &&& r.next@.len() == 1
                &&& r.next@[0]@ == TargetView::Identity(Platform::Ethereum, lower_of(address@))
            }),
            reverse matches Some(d) ==> link_keys(r.facts@[2]) == Some((
                ident(Platform::Ethereum, lower_of(address@)),
                ident(Platform::SpaceId, d@),
                sid_resolve(),
            )) && resolve_written(r.facts@[2], d@, now),
    {
        let addr = lowercase(address);
        let dom = String::from_str(domain);
        let mut facts: Vec<Fact> = Vec::new();
        facts.push(Fact::Link(
            sid_vertex(Platform::Ethereum, &addr, now),
            sid_vertex(Platform::SpaceId, &dom, now),
            sid_hold_relation(now),
        ));
        facts.push(Fact::Link(
            sid_vertex(Platform::SpaceId, &dom, now),
            sid_vertex(Platform::Ethereum, &addr, now),
            sid_resolve_relation(dom.clone(), now),
        ));
        match reverse {
            Some(d) => {
                facts.push(Fact::Link(
                    sid_vertex(Platform::Ethereum, &addr, now),
                    sid_vertex(Platform::SpaceId, &d, now),
                    sid_resolve_relation(d.clone(), now),
                ));
            },
            None => {},
        }
        let mut next: Vec<Target> = Vec::new();
        next.push(Target::Identity(Platform::Ethereum, addr));
        Outcome { facts, next }
    }
}

/// Forward and reverse resolution are separate directed edges: when a domain
/// resolves to an address whose primary name is another domain, writing the
/// answer stores an edge from the domain to the address and an edge from the
/// address to the other domain, of different keys.
pub proof fn resolutions_are_directed(
    g: GraphView,
    facts: Seq<Fact>,
    domain: Seq<char>,
    address: Seq<char>,
    reverse: Seq<char>,
)
    requires
        g.wf(),
        facts.len() == 3,
        link_keys(facts[1]) == Some((ident(Platform::SpaceId, domain), ident(Platform::Ethereum, address), sid_resolve())),
        link_keys(facts[2]) == Some((ident(Platform::Ethereum, address), ident(Platform::SpaceId, reverse), sid_resolve())),
        domain != reverse,
    ensures
        ({
            let g2 = g.apply_all(facts);
            let forward = (ident(Platform::SpaceId, domain), ident(Platform::Ethereum, address), sid_resolve());
            let backward = (ident(Platform::Ethereum, address), ident(Platform::SpaceId, reverse), sid_resolve());
            &&& g2.wf()
            &&& g2.has_edge(forward)
            &&& g2.has_edge(backward)
            &&& forward != backward
            &&& forward.0 != backward.1
        }),
{
    links_are_stored(g, facts, 1);
    links_are_stored(g, facts, 2);
}

} // verus!
