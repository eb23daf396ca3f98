use vstd::prelude::*;
use crate::graph::{identity_index, identity_key, refresh_strictly_advances, Fact, GraphView, Identity, Node};
use crate::model::{Platform, Target, TargetView};
use crate::upstream::{fresh_identity, ident, identity_vertex, join, make_uri, new_identity, is_valid_uri, opt_view, FetchError, Outcome};
use crate::util::{lower_of, lowercase};

verus! {

/// The reverse-ENS service's answer for one address.
#[derive(Debug)]
pub struct Response {
    pub reverse_record: Option<String>,
    pub domains: Vec<String>,
}

/// Looks up the primary ENS name that an Ethereum address has set.
#[derive(Clone, Debug)]
pub struct ENSReverseLookup {}

/// The name a reverse record stands for: a cleared record is the empty name.
pub open spec fn reverse_name(r: Option<String>) -> Seq<char> {
    match r {
        Some(s) => s@,
        None => Seq::empty(),
    }
}

/// Only Ethereum identities have reverse records.
pub open spec fn ens_reverse_accepts(t: TargetView) -> bool {
    t matches TargetView::Identity(p, _) && p == Platform::Ethereum
}

impl ENSReverseLookup {
    /// Only Ethereum identities have reverse records.
    pub fn can_fetch(target: &Target) -> (r: bool)
        ensures
            r == ens_reverse_accepts(target@),
    {
        target.in_platform_supported(vec![Platform::Ethereum])
    }

    /// The request for the reverse record of a wallet: the service's base
    /// followed by the lower-cased address.
    pub fn request_uri(base: &str, wallet: &str) -> (r: Result<http::Uri, FetchError>)
        ensures
            r is Ok <==> is_valid_uri(base@ + lower_of(wallet@)),
            r is Err ==> r->Err_0 is ParamError,
    {
        let w = lowercase(wallet);
        let url = join(base, w.as_str());
        make_uri(url.as_str())
    }

    /// Records the answer: the wallet's display name becomes the reverse
    /// record, and a cleared record overwrites it with the empty name.
    /// Discovers no targets.
    pub fn process(target: &Target, response: Response, now: i64) -> (r: Outcome)
        ensures
            r.next@.len() == 0,
            !ens_reverse_accepts(target@) ==> r.facts@.len() == 0,
            ens_reverse_accepts(target@) ==> r.facts@.len() == 1,
            ens_reverse_accepts(target@) ==> (identity_vertex(r.facts@[0]) matches Some(v)
                && target@ matches TargetView::Identity(_, w)
                && fresh_identity(v, Platform::Ethereum, lower_of(w), Some(reverse_name(response.reverse_record)), None, now)),
    {
        if !Self::can_fetch(target) {
            return Outcome::empty();
        }
        match target {
            Target::Identity(_, wallet) => {
                let w = lowercase(wallet.as_str());
                let name = match response.reverse_record {
                    Some(s) => s,
                    None => String::new(),
                };
                let v = new_identity(Platform::Ethereum, w, Some(name), None, now);
                let mut facts: Vec<Fact> = Vec::new();
                facts.push(Fact::Vertex(Node::Identity(v)));
                Outcome { facts, next: Vec::new() }
            },
            Target::NFT(..) => Outcome::empty(),
        }
    }
}

/// Looking an address up again later keeps its one vertex, strictly advances
/// its update time (where no stored time lies after the first lookup), and
/// leaves the latest reverse record as its display name.
pub proof fn second_lookup_refreshes(
    g: GraphView,
    wallet: Seq<char>,
    v1: Identity,
    v2: Identity,
    name2: Seq<char>,
    t1: i64,
    t2: i64,
)
    requires
        g.wf(),
        t1 < t2,
        forall|j: int| 0 <= j < g.identities.len() ==> #[trigger] g.identities[j].updated_at <= t1,
        fresh_identity(v1, Platform::Ethereum, lower_of(wallet), opt_view(v1.display_name), None, t1),
        fresh_identity(v2, Platform::Ethereum, lower_of(wallet), Some(name2), None, t2),
    ensures
        ({
            let k = ident(Platform::Ethereum, lower_of(wallet));
            let g1 = g.apply_all(seq![Fact::Vertex(Node::Identity(v1))]);
            let g2 = g1.apply_all(seq![Fact::Vertex(Node::Identity(v2))]);
            let i = identity_index(g1.identities, k);
            &&& g2.wf()
            &&& g2.identities.len() == g1.identities.len()
            &&& 0 <= i < g2.identities.len()
            &&& identity_key(g2.identities[i]) == k
            &&& forall|j: int| 0 <= j < g2.identities.len() && identity_key(g2.identities[j]) == k ==> j == i
            &&& g1.identities[i].updated_at < g2.identities[i].updated_at
            &&& g2.identities[i].updated_at == t2
            &&& opt_view(g2.identities[i].display_name) == Some(name2)
        }),
{
    let f1 = seq![Fact::Vertex(Node::Identity(v1))];
    let f2 = seq![Fact::Vertex(Node::Identity(v2))];
    assert(f1.drop_last() =~= Seq::<Fact>::empty());
    assert(f2.drop_last() =~= Seq::<Fact>::empty());
    let g1 = g.apply_all(f1);
    assert(g.apply_all(f1.drop_last()) == g);
    assert(g1 == g.apply_all(f1.drop_last()).apply(f1.last()));
    assert(g1 == g.upsert_node(Node::Identity(v1)));
    assert(g1.apply_all(f2.drop_last()) == g1);
    assert(g1.apply_all(f2) == g1.apply_all(f2.drop_last()).apply(f2.last()));
    assert(g1.apply_all(f2) == g1.upsert_node(Node::Identity(v2)));
    refresh_strictly_advances(g, v1, v2);
}

} // verus!
