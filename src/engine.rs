use vstd::prelude::*;
use crate::model::{Platform, Target, TargetView};
use crate::upstream::{FetchError, Outcome};
use crate::graph::{apply_all_concat, Fact, GraphStore};
use crate::upstream::ens_reverse::{ens_reverse_accepts, ENSReverseLookup};
use crate::upstream::proof_client::{proof_accepts, ProofClient};
use crate::upstream::space_id::{space_id_accepts, SpaceId};
use crate::upstream::sybil_list::{sybil_accepts, SybilList};
use crate::upstream::the_graph::{the_graph_accepts, TheGraph};
use crate::util::{lower_of, lowercase};

verus! {

/// How a round ended: every fetch succeeded, or some failed.
#[derive(Clone, Copy, Debug, PartialEq, Eq, Structural)]
pub enum RoundStatus {
    Completed,
    PartiallyFailed,
}

/// Ethereum addresses are case-insensitive and are kept lower-cased.
pub open spec fn normalized(t: TargetView) -> TargetView {
    match t {
        TargetView::Identity(p, s) => if p == Platform::Ethereum {
            TargetView::Identity(p, lower_of(s))
        } else {
            t
        },
        _ => t,
    }
}

/// A target in normal form.
pub fn normalize(t: &Target) -> (r: Target)
    ensures
        r@ == normalized(t@),
{
    match t {
        Target::Identity(p, s) => {
            if *p == Platform::Ethereum {
                Target::Identity(*p, lowercase(s.as_str()))
            } else {
                t.copy()
            }
        },
        _ => t.copy(),
    }
}

pub open spec fn views(s: Seq<Target>) -> Seq<TargetView> {
    s.map_values(|t: Target| t@)
}

pub open spec fn norm_views(s: Seq<Target>) -> Seq<TargetView> {
    s.map_values(|t: Target| normalized(t@))
}

/// The targets a round dispatches from `frontier`, in order: each one not
/// visited before and not dispatched earlier in the round, while the visited
/// set stays within `max`.
pub open spec fn dispatched(visited: Seq<TargetView>, frontier: Seq<TargetView>, max: nat) -> Seq<TargetView>
    decreases frontier.len(),
{
    if frontier.len() == 0 {
        Seq::empty()
    } else {
        let d = dispatched(visited, frontier.drop_last(), max);
        let t = frontier.last();
        if !(visited + d).contains(t) && visited.len() + d.len() < max {
            d.push(t)
        } else {
            d
        }
    }
}

/// The targets that the successful fetches of a round discovered, normalised,
/// in order; failed fetches contribute nothing.
pub open spec fn discovered(results: Seq<Result<Vec<Target>, FetchError>>) -> Seq<TargetView>
    decreases results.len(),
{
    if results.len() == 0 {
        Seq::empty()
    } else {
        discovered(results.drop_last()) + match results.last() {
            Ok(v) => norm_views(v@),
            Err(_) => Seq::empty(),
        }
    }
}

/// The facts that the successful answers of a round found, in order.
pub open spec fn ok_facts(answers: Seq<Result<Outcome, FetchError>>) -> Seq<Fact>
    decreases answers.len(),
{
    if answers.len() == 0 {
        Seq::empty()
    } else {
        ok_facts(answers.drop_last()) + answer_facts(answers.last())
    }
}

/// The facts of one answer: none for a failure.
pub open spec fn answer_facts(a: Result<Outcome, FetchError>) -> Seq<Fact> {
    match a {
        Ok(o) => o.facts@,
        Err(_) => Seq::empty(),
    }
}

/// What an answer hands on to the crawl: its next targets, or its error.
pub open spec fn next_of(a: Result<Outcome, FetchError>) -> Result<Vec<Target>, FetchError> {
    match a {
        Ok(o) => Ok(o.next),
        Err(e) => Err(e),
    }
}

pub open spec fn nexts(answers: Seq<Result<Outcome, FetchError>>) -> Seq<Result<Vec<Target>, FetchError>> {
    answers.map_values(|a: Result<Outcome, FetchError>| next_of(a))
}

/// The state of one crawl: the targets already dispatched, and those
/// discovered but not yet dispatched.
pub struct Crawl {
    visited: Vec<Target>,
    frontier: Vec<Target>,
    max_visited: usize,
}

/// A crawl as plain values.
pub struct CrawlView {
    pub visited: Seq<TargetView>,
    pub frontier: Seq<TargetView>,
    pub max_visited: nat,
}

impl CrawlView {
    /// No target is visited twice, and no more are visited than the bound allows.
    pub open spec fn wf(self) -> bool {
        &&& self.visited.no_duplicates()
        &&& self.visited.len() <= self.max_visited
    }
}

impl View for Crawl {
    type V = CrawlView;

    closed spec fn view(&self) -> CrawlView {
        CrawlView { visited: views(self.visited@), frontier: views(self.frontier@), max_visited: self.max_visited as nat }
    }
}

fn seen(v: &Vec<Target>, t: &Target) -> (r: bool)
    ensures
        r == views(v@).contains(t@),
{
    let mut i: usize = 0;
    while i < v.len()
        invariant
            i <= v@.len(),
            forall|j: int| 0 <= j < i ==> v@[j]@ != t@,
        decreases v@.len() - i,
    {
        if v[i].same(t) {
            assert(views(v@)[i as int] == t@);
            return true;
        }
        i = i + 1;
    }
    assert(!views(v@).contains(t@)) by {
        if views(v@).contains(t@) {
            let k = choose|k: int| 0 <= k < views(v@).len() && views(v@)[k] == t@;
            assert(v@[k]@ == t@);
        }
    }
    false
}

impl Crawl {
    /// A crawl from `seed` that visits at most `max_visited` targets.
    pub fn new(seed: &Target, max_visited: usize) -> (r: Crawl)
        ensures
            r@.wf(),
            r@.visited.len() == 0,
            r@.frontier == seq![normalized(seed@)],
            r@.max_visited == max_visited,
    {
        let mut frontier: Vec<Target> = Vec::new();
        frontier.push(normalize(seed));
        let r = Crawl { visited: Vec::new(), frontier, max_visited };
        assert(r@.frontier =~= seq![normalized(seed@)]);
        assert(r@.visited =~= Seq::<TargetView>::empty());
        r
    }

    /// Whether nothing is left to dispatch.
    pub fn is_done(&self) -> (r: bool)
        ensures
            r == (self@.frontier.len() == 0),
    {
        self.frontier.len() == 0
    }

    /// The number of targets dispatched so far.
    pub fn visited_count(&self) -> (r: usize)
        ensures
            r == self@.visited.len(),
    {
        self.visited.len()
    }

    /// Starts a round: takes the whole frontier, skips what was visited or
    /// repeats, marks the rest visited up to the bound, and returns it for
    /// dispatch.
    pub fn next_round(&mut self) -> (r: Vec<Target>)
        requires
            old(self)@.wf(),
        ensures
            final(self)@.wf(),
            views(r@) == dispatched(old(self)@.visited, old(self)@.frontier, old(self)@.max_visited),
            final(self)@.visited == old(self)@.visited + views(r@),
            final(self)@.frontier.len() == 0,
            final(self)@.max_visited == old(self)@.max_visited,
    {
        let ghost v0 = views(self.visited@);
        let ghost f0 = views(self.frontier@);
        let ghost max = self.max_visited as nat;
        let mut out: Vec<Target> = Vec::new();
        let mut i: usize = 0;
        while i < self.frontier.len()
            invariant
                i <= self.frontier@.len(),
                views(self.frontier@) == f0,
                self.max_visited == max,
                views(out@) == dispatched(v0, f0.take(i as int), max),
                views(self.visited@) == v0 + views(out@),
            decreases self.frontier@.len() - i,
        {
            let t = &self.frontier[i];
            proof {
                assert(f0.take(i + 1).drop_last() =~= f0.take(i as int));
                assert(f0.take(i + 1).last() == t@);
            }
            if !seen(&self.visited, t) && self.visited.len() < self.max_visited {
                let a = t.copy();
                let b = t.copy();
                let ghost vis_before = self.visited@;
                let ghost out_before = out@;
                self.visited.push(a);
                out.push(b);
                proof {
                    assert(views(self.visited@) =~= views(vis_before).push(t@));
                    assert(views(out@) =~= views(out_before).push(t@));
                    assert(views(out@) =~= dispatched(v0, f0.take(i as int), max).push(t@));
                    assert(views(self.visited@) =~= v0 + views(out@));
                }
            }
            i = i + 1;
        }
        assert(f0.take(i as int) =~= f0);
        proof {
            round_progress(v0, f0, max);
            let d = views(out@);
            assert((v0 + d).no_duplicates()) by {
                assert forall|a: int, b: int| 0 <= a < (v0 + d).len() && 0 <= b < (v0 + d).len() && a != b
                    implies (v0 + d)[a] != (v0 + d)[b] by {
                    if a < v0.len() && b >= v0.len() {
                        assert(!v0.contains(d[b - v0.len()]));
                    } else if b < v0.len() && a >= v0.len() {
                        assert(!v0.contains(d[a - v0.len()]));
                    }
                }
            }
        }
        self.frontier = Vec::new();
        proof {
            assert(views(self.frontier@) =~= Seq::<TargetView>::empty());
        }
        out
    }

    /// Ends a round: enqueues, normalised and in order, what every successful
    /// fetch discovered; a failed fetch does not stop the others.
    pub fn absorb(&mut self, results: Vec<Result<Vec<Target>, FetchError>>) -> (r: RoundStatus)
        ensures
            old(self)@.wf() ==> final(self)@.wf(),
            final(self)@.frontier == old(self)@.frontier + discovered(results@),
            final(self)@.visited == old(self)@.visited,
            final(self)@.max_visited == old(self)@.max_visited,
            r == (if exists|i: int| 0 <= i < results@.len() && results@[i] is Err {
                RoundStatus::PartiallyFailed
            } else {
                RoundStatus::Completed
            }),
    {
        let ghost fr0 = views(self.frontier@);
        let mut failed = false;
        let mut i: usize = 0;
        while i < results.len()
            invariant
                i <= results@.len(),
                views(self.frontier@) == fr0 + discovered(results@.take(i as int)),
                views(self.visited@) == old(self)@.visited,
                self.max_visited == old(self).max_visited,
                failed == exists|j: int| 0 <= j < i && results@[j] is Err,
            decreases results@.len() - i,
        {
            proof {
                assert(results@.take(i + 1).drop_last() =~= results@.take(i as int));
                assert(results@.take(i + 1).last() == results@[i as int]);
            }
            match &results[i] {
                Ok(v) => {
                    let ghost base = views(self.frontier@);
                    let mut j: usize = 0;
                    while j < v.len()
                        invariant
                            j <= v@.len(),
                            views(self.frontier@) == base + norm_views(v@.take(j as int)),
                            views(self.visited@) == old(self)@.visited,
                            self.max_visited == old(self).max_visited,
                        decreases v@.len() - j,
                    {
                        let n = normalize(&v[j]);
                        let ghost fr_before = self.frontier@;
                        self.frontier.push(n);
                        proof {
                            assert(views(self.frontier@) =~= views(fr_before).push(n@));
                            assert(norm_views(v@.take(j + 1)) =~= norm_views(v@.take(j as int)).push(normalized(v@[j as int]@)));
                            assert(views(self.frontier@) =~= base + norm_views(v@.take(j + 1)));
                        }
                        j = j + 1;
                    }
                    assert(v@.take(j as int) =~= v@);
                    assert(views(self.frontier@) =~= fr0 + discovered(results@.take(i + 1)));
                },
                Err(_) => {
                    failed = true;
                    assert(views(self.frontier@) =~= fr0 + discovered(results@.take(i + 1)));
                },
            }
            i = i + 1;
        }
        assert(results@.take(i as int) =~= results@);
        if failed {
            RoundStatus::PartiallyFailed
        } else {
            RoundStatus::Completed
        }
    }
}

/// The registered upstream sources.
#[derive(Clone, Copy, Debug, PartialEq, Eq, Structural)]
pub enum Source {
    EnsReverse,
    ProofService,
    SpaceId,
    SybilList,
    TheGraph,
}

/// Whether a source recognises a target.
pub open spec fn source_accepts(s: Source, t: TargetView) -> bool {
    match s {
        Source::EnsReverse => ens_reverse_accepts(t),
        Source::ProofService => proof_accepts(t),
        Source::SpaceId => space_id_accepts(t),
        Source::SybilList => sybil_accepts(t),
        Source::TheGraph => the_graph_accepts(t),
    }
}

impl Source {
    /// Whether this source recognises the target; no I/O.
    pub fn can_fetch(&self, target: &Target) -> (r: bool)
        ensures
            r == source_accepts(*self, target@),
    {
        match self {
            Source::EnsReverse => ENSReverseLookup::can_fetch(target),
            Source::ProofService => ProofClient::can_fetch(target),
            Source::SpaceId => SpaceId::can_fetch(target),
            Source::SybilList => SybilList::can_fetch(target),
            Source::TheGraph => TheGraph::can_fetch(target),
        }
    }
}

/// The sources to dispatch a target to: exactly those that recognise it, each once.
pub fn capable_sources(target: &Target) -> (r: Vec<Source>)
    ensures
        forall|s: Source| r@.contains(s) <==> source_accepts(s, target@),
        r@.no_duplicates(),
{
    let all = [Source::EnsReverse, Source::ProofService, Source::SpaceId, Source::SybilList, Source::TheGraph];
    let mut r: Vec<Source> = Vec::new();
    let mut i: usize = 0;
    while i < 5
        invariant
            i <= 5,
            all@ == seq![Source::EnsReverse, Source::ProofService, Source::SpaceId, Source::SybilList, Source::TheGraph],
            forall|s: Source| r@.contains(s) <==> (source_accepts(s, target@)
                && exists|j: int| 0 <= j < i && all@[j] == s),
            r@.no_duplicates(),
        decreases 5 - i,
    {
        let s = all[i];
        if s.can_fetch(target) {
            let ghost before = r@;
            r.push(s);
            proof {
                assert(r@ == before.push(s));
                assert forall|x: Source| r@.contains(x) <==> (source_accepts(x, target@)
                    && exists|j: int| 0 <= j < i + 1 && all@[j] == x) by {
                    if x == s {
                        assert(r@[before.len() as int] == x);
                        assert(all@[i as int] == x);
                    } else {
                        if r@.contains(x) {
                            let m = choose|m: int| 0 <= m < r@.len() && r@[m] == x;
                            assert(before[m] == x);
                            assert(before.contains(x));
                        }
                        if before.contains(x) {
                            let m = choose|m: int| 0 <= m < before.len() && before[m] == x;
                            assert(r@[m] == x);
                        }
                        if exists|j: int| 0 <= j < i + 1 && all@[j] == x {
                            let j = choose|j: int| 0 <= j < i + 1 && all@[j] == x;
                            assert(j != i);
                        }
                    }
                }
            }
        } else {
            assert forall|x: Source| r@.contains(x) <==> (source_accepts(x, target@)
                && exists|j: int| 0 <= j < i + 1 && all@[j] == x) by {
                if exists|j: int| 0 <= j < i + 1 && all@[j] == x {
                    let j = choose|j: int| 0 <= j < i + 1 && all@[j] == x;
                    if j == i {
                        assert(x == s);
                    }
                }
            }
        }
        i = i + 1;
    }
    assert forall|s: Source| source_accepts(s, target@) implies r@.contains(s) by {
        match s {
            Source::EnsReverse => assert(all@[0] == s),
            Source::ProofService => assert(all@[1] == s),
            Source::SpaceId => assert(all@[2] == s),
            Source::SybilList => assert(all@[3] == s),
            Source::TheGraph => assert(all@[4] == s),
        }
    }
    r
}

/// A round never dispatches a target twice, nor one visited before, and keeps
/// the visited set within its bound; every frontier target ends up visited
/// unless the bound is reached. Each round that dispatches something thus
/// grows the visited set, so a crawl ends even where the sources' links form
/// a cycle: a target met again is skipped.
pub proof fn round_progress(visited: Seq<TargetView>, frontier: Seq<TargetView>, max: nat)
    requires
        visited.len() <= max,
    ensures
        ({
            let d = dispatched(visited, frontier, max);
            &&& d.no_duplicates()
            &&& forall|i: int| 0 <= i < d.len() ==> !visited.contains(#[trigger] d[i])
            &&& forall|i: int| 0 <= i < d.len() ==> frontier.contains(#[trigger] d[i])
            &&& visited.len() + d.len() <= max
            &&& forall|i: int| 0 <= i < frontier.len() ==> (visited + d).contains(#[trigger] frontier[i])
                || visited.len() + d.len() == max
        }),
    decreases frontier.len(),
{
    if frontier.len() > 0 {
        let pre = frontier.drop_last();
        round_progress(visited, pre, max);
        let d0 = dispatched(visited, pre, max);
        let t = frontier.last();
        let d = dispatched(visited, frontier, max);
        assert forall|i: int| 0 <= i < pre.len() implies frontier.contains(#[trigger] pre[i]) by {
            assert(frontier[i] == pre[i]);
        }
        if !(visited + d0).contains(t) && visited.len() + d0.len() < max {
            assert(d == d0.push(t));
            assert forall|i: int| 0 <= i < d.len() implies !visited.contains(#[trigger] d[i]) by {
                if i == d0.len() {
                    if visited.contains(t) {
                        let m = choose|m: int| 0 <= m < visited.len() && visited[m] == t;
                        assert((visited + d0)[m] == t);
                    }
                } else {
                    assert(d[i] == d0[i]);
                }
            }
            assert forall|i: int| 0 <= i < d.len() implies frontier.contains(#[trigger] d[i]) by {
                if i == d0.len() {
                    assert(frontier[frontier.len() - 1] == t);
                } else {
                    assert(d[i] == d0[i]);
                }
            }
            assert(d.no_duplicates()) by {
                assert forall|i: int, j: int| 0 <= i < d.len() && 0 <= j < d.len() && i != j implies d[i] != d[j] by {
                    if i == d0.len() || j == d0.len() {
                        let other = if i == d0.len() { j } else { i };
                        assert(d[other] == d0[other]);
                        if d[other] == t {
                            assert((visited + d0)[visited.len() as int + other] == t);
                        }
                    } else {
                        assert(d[i] == d0[i] && d[j] == d0[j]);
                    }
                }
            }
            assert forall|i: int| 0 <= i < frontier.len() implies (visited + d).contains(#[trigger] frontier[i])
                || visited.len() + d.len() == max by {
                if i == frontier.len() - 1 {
                    assert((visited + d)[visited.len() + d0.len() as int] == t);
                } else {
                    assert(pre[i] == frontier[i]);
                    assert((visited + d0).contains(pre[i]));
                    let m = choose|m: int| 0 <= m < (visited + d0).len() && (visited + d0)[m] == pre[i];
                    assert((visited + d)[m] == (visited + d0)[m]);
                }
            }
        } else {
            assert(d == d0);
            assert forall|i: int| 0 <= i < frontier.len() implies (visited + d).contains(#[trigger] frontier[i])
                || visited.len() + d.len() == max by {
                if i < frontier.len() - 1 {
                    assert(pre[i] == frontier[i]);
                }
            }
        }
    }
}

/// A failed fetch does not hide what the others found: every target that a
/// successful fetch of the round returned is enqueued.
pub proof fn failures_are_isolated(results: Seq<Result<Vec<Target>, FetchError>>, j: int, k: int)
    requires
        0 <= j < results.len(),
        results[j] is Ok,
        0 <= k < results[j]->Ok_0@.len(),
    ensures
        discovered(results).contains(normalized(results[j]->Ok_0@[k]@)),
    decreases results.len(),
{
    let x = normalized(results[j]->Ok_0@[k]@);
    let pre = results.drop_last();
    if j < results.len() - 1 {
        assert(pre[j] == results[j]);
        failures_are_isolated(pre, j, k);
        let m = choose|m: int| 0 <= m < discovered(pre).len() && discovered(pre)[m] == x;
        assert(discovered(results)[m] == x);
    } else {
        let v = results[j]->Ok_0;
        assert(norm_views(v@)[k] == x);
        assert(discovered(results)[discovered(pre).len() + k] == x);
    }
}

impl Crawl {
    /// Ends a round with the sources' answers: writes the facts of every
    /// successful answer, in order, and enqueues its targets; a failed answer
    /// writes nothing and does not stop the others.
    pub fn complete_round(&mut self, store: &mut GraphStore, answers: Vec<Result<Outcome, FetchError>>) -> (r: RoundStatus)
        requires
            old(store)@.wf(),
        ensures
            final(store)@.wf(),
            final(store)@ == old(store)@.apply_all(ok_facts(answers@)),
            final(self)@.frontier == old(self)@.frontier + discovered(nexts(answers@)),
            final(self)@.visited == old(self)@.visited,
            final(self)@.max_visited == old(self)@.max_visited,
            old(self)@.wf() ==> final(self)@.wf(),
            r == (if exists|i: int| 0 <= i < answers@.len() && answers@[i] is Err {
                RoundStatus::PartiallyFailed
            } else {
                RoundStatus::Completed
            }),
    {
        let ghost g0 = store@;
        let ghost all = answers@;
        let n = answers.len();
        let mut rest = answers;
        let mut results: Vec<Result<Vec<Target>, FetchError>> = Vec::new();
        let mut k: usize = 0;
        while rest.len() > 0
            invariant
                store@.wf(),
                k <= all.len(),
                all.len() == n,
                rest@ == all.skip(k as int),
                store@ == g0.apply_all(ok_facts(all.take(k as int))),
                results@ == nexts(all.take(k as int)),
            decreases rest@.len(),
        {
            let a = rest.remove(0);
            proof {
                assert(all[k as int] == a);
                assert(all.take(k + 1).drop_last() =~= all.take(k as int));
                assert(rest@ =~= all.skip(k + 1));
            }
            let ghost facts_k = answer_facts(a);
            proof {
                apply_all_concat(g0, ok_facts(all.take(k as int)), facts_k);
                assert(ok_facts(all.take(k + 1)) == ok_facts(all.take(k as int)) + facts_k);
            }
            match a {
                Ok(o) => {
                    let Outcome { facts, next } = o;
                    store.apply_all(facts);
                    results.push(Ok(next));
                },
                Err(e) => {
                    assert(store@.apply_all(Seq::<Fact>::empty()) == store@);
                    results.push(Err(e));
                },
            }
            proof {
                assert(results@ =~= nexts(all.take(k + 1)));
            }
            k = k + 1;
        }
        assert(all.take(k as int) =~= all);
        proof {
            assert forall|i: int| 0 <= i < all.len() implies (results@[i] is Err <==> #[trigger] all[i] is Err) by {
                assert(results@[i] == next_of(all[i]));
            }
            if exists|i: int| 0 <= i < all.len() && all[i] is Err {
                let i = choose|i: int| 0 <= i < all.len() && all[i] is Err;
                assert(results@[i] is Err);
            }
            if exists|i: int| 0 <= i < results@.len() && results@[i] is Err {
                let i = choose|i: int| 0 <= i < results@.len() && results@[i] is Err;
                assert(all[i] is Err);
            }
        }
        self.absorb(results)
    }
}

/// A failed answer changes nothing else in its round: leaving it out writes
/// the same facts and enqueues the same targets.
pub proof fn failed_answer_changes_nothing(answers: Seq<Result<Outcome, FetchError>>, i: int)
    requires
        0 <= i < answers.len(),
        answers[i] is Err,
    ensures
        ok_facts(answers) == ok_facts(answers.remove(i)),
        discovered(nexts(answers)) == discovered(nexts(answers.remove(i))),
    decreases answers.len(),
{
    let pre = answers.drop_last();
    if i == answers.len() - 1 {
        assert(answers.remove(i) =~= pre);
        assert(ok_facts(answers) =~= ok_facts(pre));
        assert(nexts(answers).drop_last() =~= nexts(pre));
        assert(discovered(nexts(answers)) =~= discovered(nexts(pre)));
    } else {
        failed_answer_changes_nothing(pre, i);
        let r = answers.remove(i);
        assert(r.drop_last() =~= pre.remove(i));
        assert(r.last() == answers.last());
        assert(nexts(answers).drop_last() =~= nexts(pre));
        assert(nexts(r).drop_last() =~= nexts(pre.remove(i)));
        assert(nexts(r).last() == nexts(answers).last());
    }
}

/// A cycle closes: when every target that a round takes from the frontier was
/// visited before, the round dispatches nothing, and the crawl is done.
pub proof fn revisits_dispatch_nothing(visited: Seq<TargetView>, frontier: Seq<TargetView>, max: nat)
    requires
        forall|i: int| 0 <= i < frontier.len() ==> visited.contains(#[trigger] frontier[i]),
    ensures
        dispatched(visited, frontier, max).len() == 0,
    decreases frontier.len(),
{
    if frontier.len() > 0 {
        let pre = frontier.drop_last();
        assert forall|i: int| 0 <= i < pre.len() implies visited.contains(#[trigger] pre[i]) by {
            assert(pre[i] == frontier[i]);
        }
        revisits_dispatch_nothing(visited, pre, max);
        let d0 = dispatched(visited, pre, max);
        let t = frontier.last();
        assert(visited.contains(frontier[frontier.len() - 1]));
        let m = choose|m: int| 0 <= m < visited.len() && visited[m] == t;
        assert((visited + d0)[m] == t);
    }
}

} // verus!
