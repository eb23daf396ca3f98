use vstd::prelude::*;
use crate::graph::{Fact, Node, Proof, Relation, RelationKey};
use crate::model::{DataSource, Platform, Target, TargetView};
use crate::upstream::{ends_fresh, ident, link_keys, new_identity, proof_written, FetchError, Outcome};
use crate::util::{lower_of, lowercase, new_uuid, str_eq};

verus! {

/// One row of the curated list.
#[derive(Debug)]
pub struct SybilListItem {
    pub twitter_name: String,
    pub eth_addr: String,
    pub timestamp: i64,
}

/// The verification record of one address in the curated list.
#[derive(Debug)]
pub struct VerifiedItem {
    pub twitter: TwitterItem,
}

/// The tweet that links an address to a Twitter handle.
#[derive(Debug)]
pub struct TwitterItem {
    pub timestamp: i64,
    pub tweet_id: String,
    pub handle: String,
}

/// The curated list's error answer.
#[derive(Debug)]
pub struct ErrorResponse {
    pub message: String,
}

/// A curated allow-list of addresses and the Twitter handles that vouch for them.
pub struct SybilList {}

pub open spec fn sybil_accepts(t: TargetView) -> bool {
    t matches TargetView::Identity(p, _) && p == Platform::Ethereum
}

/// The handles that the list links to the (lower-cased) address `w`, in order.
pub open spec fn handles_of(w: Seq<char>, entries: Seq<(String, VerifiedItem)>) -> Seq<TargetView>
    decreases entries.len(),
{
    if entries.len() == 0 {
        Seq::empty()
    } else {
        let prev = handles_of(w, entries.drop_last());
        let e = entries.last();
        if lower_of(e.0@) == w {
            prev.push(TargetView::Identity(Platform::Twitter, e.1.twitter.handle@))
        } else {
            prev
        }
    }
}

/// The fact written for one entry: a proof evidenced by its tweet, claimed at
/// the tweet's time and fetched at `now`, between identities written at `now`
/// that display their own names.
pub open spec fn sybil_fact(f: Fact, e: (String, VerifiedItem), now: i64) -> bool {
    &&& proof_written(f, Some(e.1.twitter.tweet_id@), Some(e.1.twitter.timestamp), now)
    &&& ends_fresh(f, Some(lower_of(e.0@)), None, Some(e.1.twitter.handle@), None, now)
}

impl SybilList {
    pub fn can_fetch(target: &Target) -> (r: bool)
        ensures
            r == sybil_accepts(target@),
    {
        target.in_platform_supported(vec![Platform::Ethereum])
    }

    /// The platforms the list links.
    pub fn ability() -> (r: Vec<(Platform, Vec<Platform>)>)
        ensures
            r@.len() == 1,
            r@[0].0 == Platform::Ethereum,
            r@[0].1@ == seq![Platform::Twitter],
    {
        let mut v = Vec::new();
        v.push((Platform::Ethereum, vec![Platform::Twitter]));
        v
    }

    /// The error for a non-success answer.
    pub fn error_of(status: u16, body: ErrorResponse) -> (r: FetchError)
        ensures
            r == FetchError::UpstreamHttpError(status, body.message),
    {
        FetchError::UpstreamHttpError(status, body.message)
    }

    /// Records the whole list: a proof edge, evidenced by its tweet, from each
    /// (lower-cased) address to its Twitter handle. The handles that vouch for
    /// the target's own address are visited next.
    pub fn process(target: &Target, entries: Vec<(String, VerifiedItem)>, now: i64) -> (r: Outcome)
        ensures
            !sybil_accepts(target@) ==> r.facts@.len() == 0 && r.next@.len() == 0,
            sybil_accepts(target@) ==> ({
                &&& r.facts@.len() == entries@.len()
                &&& forall|k: int| 0 <= k < entries@.len() ==> link_keys(#[trigger] r.facts@[k]) == Some((
                    ident(Platform::Ethereum, lower_of(entries@[k].0@)),
                    ident(Platform::Twitter, entries@[k].1.twitter.handle@),
                    RelationKey::Proof(DataSource::SybilList),
                ))
                &&& forall|k: int| 0 <= k < entries@.len() ==> sybil_fact(#[trigger] r.facts@[k], entries@[k], now)
                &&& target@ matches TargetView::Identity(_, w)
                &&& crate::engine::views(r.next@) == handles_of(lower_of(w), entries@)
            }),
    {
        if !Self::can_fetch(target) {
            return Outcome::empty();
        }
        let w = match target {
            Target::Identity(_, s) => lowercase(s.as_str()),
            Target::NFT(..) => {
                return Outcome::empty();
            },
        };
        let ghost es = entries@;
        let mut facts: Vec<Fact> = Vec::new();
        let mut next: Vec<Target> = Vec::new();
        let mut i: usize = 0;
        while i < entries.len()
            invariant
                es == entries@,
                i <= es.len(),
                facts@.len() == i,
                forall|k: int| 0 <= k < i ==> sybil_fact(#[trigger] facts@[k], es[k], now),
                forall|k: int| 0 <= k < i ==> link_keys(#[trigger] facts@[k]) == Some((
                    ident(Platform::Ethereum, lower_of(es[k].0@)),
                    ident(Platform::Twitter, es[k].1.twitter.handle@),
                    RelationKey::Proof(DataSource::SybilList),
                )),
                crate::engine::views(next@) == handles_of(w@, es.take(i as int)),
            decreases es.len() - i,
        {
            let (addr, item) = &entries[i];
            proof {
                assert(es.take(i + 1).drop_last() =~= es.take(i as int));
                assert(es.take(i + 1).last() == es[i as int]);
            }
            let a = lowercase(addr.as_str());
            let handle = &item.twitter.handle;
            if str_eq(a.as_str(), w.as_str()) {
                let ghost next_before = next@;
                next.push(Target::Identity(Platform::Twitter, handle.clone()));
                proof {
                    assert(crate::engine::views(next@) =~= crate::engine::views(next_before).push(
                        TargetView::Identity(Platform::Twitter, handle@)));
                }
            }
            let from = new_identity(Platform::Ethereum, a.clone(), Some(a), None, now);
            let to = new_identity(Platform::Twitter, handle.clone(), Some(handle.clone()), None, now);
            let pf = Proof {
                uuid: new_uuid(),
                source: DataSource::SybilList,
                record_id: Some(item.twitter.tweet_id.clone()),
                created_at: Some(item.twitter.timestamp),
                last_fetched_at: now,
            };
            facts.push(Fact::Link(Node::Identity(from), Node::Identity(to), Relation::Proof(pf)));
            i = i + 1;
        }
        assert(es.take(i as int) =~= es);
        Outcome { facts, next }
    }
}

} // verus!
