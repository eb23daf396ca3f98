use vstd::prelude::*;
use crate::graph::{edge_key, links_are_stored, proof_edges_are_unique, relation_count, Fact, GraphView, KeyView, Node, Proof, Relation, RelationKey, RelationKind};
use crate::model::{platform_named, DataSource, Platform, Target, TargetView};
use crate::upstream::{ends_fresh, ident, is_valid_uri, join, link_keys, make_uri, new_identity, proof_written, FetchError, Outcome};
use crate::util::{new_uuid, parse_timestamp, str_eq, timestamp_of};

verus! {

/// An answer of the proof service: the personas that hold the queried identity.
#[derive(Debug)]
pub struct ProofQueryResponse {
    pub pagination: ProofQueryResponsePagination,
    pub ids: Vec<ProofPersona>,
}

/// A persona and the proofs it has published.
#[derive(Debug)]
pub struct ProofPersona {
    pub persona: String,
    pub proofs: Vec<ProofRecord>,
}

/// One published proof: the persona holds `identity` on `platform`.
#[derive(Debug)]
pub struct ProofRecord {
    pub platform: String,
    pub identity: String,
    pub created_at: String,
    pub last_checked_at: String,
    pub is_valid: bool,
    pub invalid_reason: String,
}

#[derive(Debug)]
pub struct ProofQueryResponsePagination {
    pub total: u32,
    pub per: u32,
    pub current: u32,
    pub next: u32,
}

/// The proof service's error answer.
#[derive(Debug)]
pub struct ErrorResponse {
    pub message: String,
}

/// The proof-of-ownership service.
pub struct ProofClient {}

pub open spec fn proof_accepts(t: TargetView) -> bool {
    t matches TargetView::Identity(p, _) && (p == Platform::NextID || p == Platform::Ethereum
        || p == Platform::Twitter || p == Platform::Github)
}

/// The identities that the proofs `rs` link to the target `t`, in order:
/// those on a known platform, other than the target itself.
pub open spec fn linked(t: TargetView, rs: Seq<ProofRecord>) -> Seq<TargetView>
    decreases rs.len(),
{
    if rs.len() == 0 {
        Seq::empty()
    } else {
        let prev = linked(t, rs.drop_last());
        let r = rs.last();
        match platform_named(r.platform@) {
            Some(p) => if TargetView::Identity(p, r.identity@) != t {
                prev.push(TargetView::Identity(p, r.identity@))
            } else {
                prev
            },
            None => prev,
        }
    }
}

/// The proofs among `rs` that link an identity other than the target `t`, in order.
pub open spec fn kept(t: TargetView, rs: Seq<ProofRecord>) -> Seq<ProofRecord>
    decreases rs.len(),
{
    if rs.len() == 0 {
        Seq::empty()
    } else {
        let prev = kept(t, rs.drop_last());
        let r = rs.last();
        match platform_named(r.platform@) {
            Some(p) => if TargetView::Identity(p, r.identity@) != t {
                prev.push(r)
            } else {
                prev
            },
            None => prev,
        }
    }
}

/// The fact written for one proof record: a proof without evidence id,
/// claimed at the record's creation time and fetched at `now`, from the target
/// (written at `now` with nothing else supplied) to the record's identity
/// (displaying its own name, created at the record's time).
pub open spec fn proof_fact(f: Fact, r: ProofRecord, now: i64) -> bool {
    &&& proof_written(f, None, timestamp_of(r.created_at@), now)
    &&& ends_fresh(f, None, None, Some(r.identity@), timestamp_of(r.created_at@), now)
}

/// The vertex key of an identity target.
pub open spec fn key_of_target(t: TargetView) -> crate::graph::KeyView {
    match t {
        TargetView::Identity(p, s) => ident(p, s),
        TargetView::NFT(c, _, a, _) => crate::graph::KeyView::Contract(c, a),
    }
}

impl ProofClient {
    pub fn can_fetch(target: &Target) -> (r: bool)
        ensures
            r == proof_accepts(target@),
    {
        target.in_platform_supported(vec![Platform::NextID, Platform::Ethereum, Platform::Twitter, Platform::Github])
    }

    /// The platforms whose identities a persona's proofs link.
    pub fn ability() -> (r: Vec<(Platform, Vec<Platform>)>)
        ensures
            r@.len() == 1,
            r@[0].0 == Platform::NextID,
            r@[0].1@ == seq![Platform::Twitter, Platform::Ethereum, Platform::Github],
    {
        let mut v = Vec::new();
        v.push((Platform::NextID, vec![Platform::Twitter, Platform::Ethereum, Platform::Github]));
        v
    }

    /// The query for the proofs of an identity on a platform.
    pub fn request_uri(base: &str, platform: Platform, identity: &str) -> (r: Result<http::Uri, FetchError>)
        ensures
            r is Ok <==> is_valid_uri(base@ + "/v1/proof?platform="@ + crate::model::platform_name(platform)
                + "&identity="@ + identity@),
            r is Err ==> r->Err_0 is ParamError,
    {
        let a = join(base, "/v1/proof?platform=");
        let b = join(a.as_str(), platform.name());
        let c = join(b.as_str(), "&identity=");
        let url = join(c.as_str(), identity);
        make_uri(url.as_str())
    }

    /// The error for a non-success answer.
    pub fn error_of(status: u16, body: ErrorResponse) -> (r: FetchError)
        ensures
            r == FetchError::UpstreamHttpError(status, body.message),
    {
        FetchError::UpstreamHttpError(status, body.message)
    }

    /// Records the proofs of the last persona of the answer: a proof edge from
    /// the target to every identity that a proof names on a known platform,
    /// and those identities as the next targets. An answer without personas
    /// is no result.
    pub fn process(target: &Target, body: ProofQueryResponse, now: i64) -> (r: Result<Outcome, FetchError>)
        ensures
            !proof_accepts(target@) ==> (r matches Ok(o) && o.facts@.len() == 0 && o.next@.len() == 0),
            proof_accepts(target@) ==> (r matches Err(FetchError::NoResult) <==> (body.pagination.total == 0
                || body.ids@.len() == 0)),
            proof_accepts(target@) && r is Err ==> r matches Err(FetchError::NoResult),
            proof_accepts(target@) ==> (r matches Ok(o) ==> ({
                let l = linked(target@, body.ids@.last().proofs@);
                let kr = kept(target@, body.ids@.last().proofs@);
                &&& crate::engine::views(o.next@) == l
                &&& o.facts@.len() == l.len()
                &&& kr.len() == l.len()
                &&& forall|k: int| 0 <= k < l.len() ==> proof_fact(#[trigger] o.facts@[k], kr[k], now)
                &&& forall|k: int| 0 <= k < l.len() ==> link_keys(#[trigger] o.facts@[k])
                    == Some((key_of_target(target@), key_of_target(l[k]), RelationKey::Proof(DataSource::NextID)))
            })),
    {
        if !Self::can_fetch(target) {
            return Ok(Outcome::empty());
        }
        if body.pagination.total == 0 {
            return Err(FetchError::NoResult);
        }
        let mut ids = body.ids;
        let persona = match ids.pop() {
            Some(p) => p,
            None => {
                return Err(FetchError::NoResult);
            },
        };
        let (tp, tid) = match target {
            Target::Identity(p, s) => (*p, s),
            Target::NFT(..) => {
                return Ok(Outcome::empty());
            },
        };
        let ghost t = target@;
        let ghost rs = persona.proofs@;
        let mut facts: Vec<Fact> = Vec::new();
        let mut next: Vec<Target> = Vec::new();
        let mut i: usize = 0;
        while i < persona.proofs.len()
            invariant
                t == target@,
                t == TargetView::Identity(tp, tid@),
                rs == persona.proofs@,
                i <= rs.len(),
                crate::engine::views(next@) == linked(t, rs.take(i as int)),
                facts@.len() == next@.len(),
                kept(t, rs.take(i as int)).len() == facts@.len(),
                forall|k: int| 0 <= k < facts@.len() ==> proof_fact(#[trigger] facts@[k], kept(t, rs.take(i as int))[k], now),
                forall|k: int| 0 <= k < facts@.len() ==> link_keys(#[trigger] facts@[k])
                    == Some((key_of_target(t), key_of_target(next@[k]@), RelationKey::Proof(DataSource::NextID))),
            decreases rs.len() - i,
        {
            let rec = &persona.proofs[i];
            proof {
                assert(rs.take(i + 1).drop_last() =~= rs.take(i as int));
                assert(rs.take(i + 1).last() == *rec);
            }
            match Platform::from_name(rec.platform.as_str()) {
                Some(p) => {
                    if !(p == tp && str_eq(rec.identity.as_str(), tid.as_str())) {
                        let created = parse_timestamp(rec.created_at.as_str());
                        let from = new_identity(tp, tid.clone(), None, None, now);
                        let to = new_identity(p, rec.identity.clone(), Some(rec.identity.clone()), created, now);
                        let pf = Proof { uuid: new_uuid(), source: DataSource::NextID, record_id: None, created_at: created, last_fetched_at: now };
                        let ghost next_before = next@;
                        facts.push(Fact::Link(Node::Identity(from), Node::Identity(to), Relation::Proof(pf)));
                        next.push(Target::Identity(p, rec.identity.clone()));
                        proof {
                            assert(crate::engine::views(next@) =~= crate::engine::views(next_before).push(
                                TargetView::Identity(p, rec.identity@)));
                        }
                    }
                },
                None => {},
            }
            i = i + 1;
        }
        assert(rs.take(i as int) =~= rs);
        assert(body.ids@.last() == persona);
        Ok(Outcome { facts, next })
    }
}

/// A proof that the service reports is stored as exactly one proof edge of the
/// service from the target to the linked identity, and both are stored.
pub proof fn one_proof_edge_per_link(g: GraphView, facts: Seq<Fact>, k: int, a: KeyView, b: KeyView)
    requires
        g.wf(),
        0 <= k < facts.len(),
        link_keys(facts[k]) == Some((a, b, RelationKey::Proof(DataSource::NextID))),
    ensures
        ({
            let g2 = g.apply_all(facts);
            &&& g2.has_node(a)
            &&& g2.has_node(b)
            &&& relation_count(g2.edges, a, b, RelationKind::Proof, DataSource::NextID) == 1
        }),
{
    links_are_stored(g, facts, k);
    let g2 = g.apply_all(facts);
    let key = (a, b, RelationKey::Proof(DataSource::NextID));
    assert(g2.has_edge(key));
    let i = choose|i: int| 0 <= i < g2.edges.len() && edge_key(g2.edges[i]) == key;
    assert(g2.has_node(g2.edges[i].from@));
    assert(g2.has_node(g2.edges[i].to@));
    proof_edges_are_unique(g2, a, b, DataSource::NextID);
}

} // verus!
