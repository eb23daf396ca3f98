use vstd::prelude::*;
use vstd::string::*;
use crate::graph::{node_key, relation_key, Fact, Identity, KeyView, Node, Relation, RelationKey};
use crate::model::{Platform, Target};
use crate::util::new_uuid;

pub mod ens_reverse;
pub mod space_id;
pub mod sybil_list;
pub mod proof_client;
pub mod the_graph;

verus! {

/// Why a fetch failed.
#[derive(Debug)]
pub enum FetchError {
    /// The source definitively has nothing for the target.
    NoResult,
    /// The source answered with a non-success HTTP status.
    UpstreamHttpError(u16, String),
    /// The source answered with an error code and message of its own.
    UpstreamRejected(i32, String),
    /// The source did not answer in time.
    TransportTimeout,
    /// The source could not be reached.
    TransportError(String),
    /// The body did not have the expected shape.
    MalformedResponse,
    /// No well-formed request could be built.
    ParamError,
    /// A write to the graph store failed.
    StorageError,
}

/// What a successful fetch found: the facts to write and the targets to visit next.
#[derive(Debug)]
pub struct Outcome {
    pub facts: Vec<Fact>,
    pub next: Vec<Target>,
}

impl Outcome {
    /// Nothing found.
    pub fn empty() -> (r: Outcome)
        ensures
            r.facts@.len() == 0,
            r.next@.len() == 0,
    {
        Outcome { facts: Vec::new(), next: Vec::new() }
    }
}

/// http's `Uri`, carried opaquely from request building to the client.
#[verifier::external_type_specification]
#[verifier::external_body]
pub struct ExUri(http::Uri);

/// http's error for text that is not a URI.
#[verifier::external_type_specification]
#[verifier::external_body]
pub struct ExInvalidUri(http::uri::InvalidUri);

/// Whether `http::Uri` accepts the text as a URI.
pub uninterp spec fn is_valid_uri(s: Seq<char>) -> bool;

/// Relies on http's `FromStr for Uri`: it parses the text, and fails exactly
/// where the text is not a URI.
#[verifier::external_body]
fn parse_uri(s: &str) -> (r: Result<http::Uri, http::uri::InvalidUri>)
    ensures
        r is Ok <==> is_valid_uri(s@),
{
    s.parse::<http::Uri>()
}

/// The URI written as `s`, or a parameter error where `s` is not one.
pub fn make_uri(s: &str) -> (r: Result<http::Uri, FetchError>)
    ensures
        r is Ok <==> is_valid_uri(s@),
        r is Err ==> r->Err_0 is ParamError,
{
    match parse_uri(s) {
        Ok(u) => Ok(u),
        Err(_) => Err(FetchError::ParamError),
    }
}

/// Checks the HTTP status of an answer: only 2xx is success.
pub fn check_status(status: u16, message: String) -> (r: Result<(), FetchError>)
    ensures
        r is Ok <==> 200 <= status < 300,
        r is Err ==> (r->Err_0 matches FetchError::UpstreamHttpError(s, m) && s == status && m == message),
{
    if 200 <= status && status < 300 {
        Ok(())
    } else {
        Err(FetchError::UpstreamHttpError(status, message))
    }
}

/// The characters of an optional string.
pub open spec fn opt_view(o: Option<String>) -> Option<Seq<char>> {
    match o {
        Some(s) => Some(s@),
        None => None,
    }
}

/// `v` is a newly observed identity record of the given key and display name,
/// written at `now`.
pub open spec fn fresh_identity(
    v: Identity,
    platform: Platform,
    identity: Seq<char>,
    display: Option<Seq<char>>,
    created: Option<i64>,
    now: i64,
) -> bool {
    &&& v.platform == platform
    &&& v.identity@ == identity
    &&& opt_view(v.display_name) == display
    &&& v.avatar_url is None
    &&& v.profile_url is None
    &&& v.created_at == created
    &&& v.added_at == now
    &&& v.updated_at == now
}

/// A newly observed identity record.
pub fn new_identity(
    platform: Platform,
    identity: String,
    display_name: Option<String>,
    created_at: Option<i64>,
    now: i64,
) -> (r: Identity)
    ensures
        fresh_identity(r, platform, identity@, opt_view(display_name), created_at, now),
        r.identity == identity,
{
    Identity {
        uuid: Some(new_uuid()),
        platform,
        identity,
        display_name,
        avatar_url: None,
        profile_url: None,
        created_at,
        added_at: now,
        updated_at: now,
    }
}

/// `s` followed by `t`.
pub fn join(s: &str, t: &str) -> (r: String)
    ensures
        r@ == s@ + t@,
{
    String::from_str(s).concat(t)
}

/// A vertex fact for an identity.
pub open spec fn identity_vertex(f: Fact) -> Option<Identity> {
    match f {
        Fact::Vertex(Node::Identity(v)) => Some(v),
        _ => None,
    }
}

/// The keys of a link fact: its two endpoints and its relation.
pub open spec fn link_keys(f: Fact) -> Option<(KeyView, KeyView, RelationKey)> {
    match f {
        Fact::Link(a, b, r) => Some((node_key(a), node_key(b), relation_key(r))),
        _ => None,
    }
}

/// The key of an identity, as plain values.
pub open spec fn ident(p: Platform, s: Seq<char>) -> KeyView {
    KeyView::Identity(p, s)
}

/// Both ends of a link are newly observed identities written at `now`, with
/// the given display names and creation times.
pub open spec fn ends_fresh(
    f: Fact,
    display_a: Option<Seq<char>>,
    created_a: Option<i64>,
    display_b: Option<Seq<char>>,
    created_b: Option<i64>,
    now: i64,
) -> bool {
    match f {
        Fact::Link(Node::Identity(a), Node::Identity(b), _) => fresh_identity(a, a.platform, a.identity@, display_a, created_a, now)
            && fresh_identity(b, b.platform, b.identity@, display_b, created_b, now),
        _ => false,
    }
}

/// A link is a proof with this evidence and claimed creation time, fetched at `now`.
pub open spec fn proof_written(f: Fact, record_id: Option<Seq<char>>, created: Option<i64>, now: i64) -> bool {
    f matches Fact::Link(_, _, Relation::Proof(p)) && opt_view(p.record_id) == record_id && p.created_at == created
        && p.last_fetched_at == now
}

/// A link is a hold with this transaction and creation time, written at `now`.
pub open spec fn hold_written(f: Fact, transaction: Option<Seq<char>>, created: Option<i64>, now: i64) -> bool {
    f matches Fact::Link(_, _, Relation::Hold(h)) && opt_view(h.transaction) == transaction && h.created_at == created
        && h.updated_at == now
}

/// A link is a resolution of `name`, written at `now`.
pub open spec fn resolve_written(f: Fact, name: Seq<char>, now: i64) -> bool {
    f matches Fact::Link(_, _, Relation::Resolve(r)) && r.name@ == name && r.updated_at == now
}

} // verus!
