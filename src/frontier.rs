use vstd::prelude::*;

use crate::outcome::{with_expanded, with_expanded_spec, UrlState};
use crate::worker::{admitted_links, expands, select_links, should_expand, views_of};
use crate::web_url::opt_chars;

verus! {

/// The state that all workers of one crawl share: the URLs pending a visit,
/// the URLs already claimed, how many workers are mid-flight, and how many
/// pages were expanded. Each method is one critical section.
pub struct Crawler {
    frontier: Vec<String>,
    visited: Vec<String>,
    active: usize,
    parsed: usize,
    workers: usize,
    seen: Ghost<Set<Seq<char>>>,
    claimed: Ghost<Set<Seq<char>>>,
}

/// Whether `url` is one of the strings of `v`.
fn holds(v: &Vec<String>, url: &String) -> (r: bool)
    ensures
        r == views_of(v@).contains(url@),
{
    let ghost views = views_of(v@);
    let mut k: usize = 0;
    while k < v.len()
        invariant
            views == views_of(v@),
            k <= v@.len(),
            forall|t: int| 0 <= t < k ==> views[t] != url@,
        decreases v@.len() - k,
    {
        if v[k].eq(url) {
            assert(views[k as int] == url@);
            return true;
        }
        k = k + 1;
    }
    false
}

proof fn lemma_push_to_set(s: Seq<Seq<char>>, x: Seq<char>)
    ensures
        s.push(x).to_set() == s.to_set().insert(x),
{
    broadcast use vstd::set::group_set_axioms;
    assert forall|a: Seq<char>| s.push(x).contains(a) <==> (s.contains(a) || a == x) by {
        if s.contains(a) {
            let i = choose|i: int| 0 <= i < s.len() && s[i] == a;
            assert(s.push(x)[i] == a);
        }
        if a == x {
            assert(s.push(x)[s.len() as int] == a);
        }
        if s.push(x).contains(a) {
            let i = choose|i: int| 0 <= i < s.push(x).len() && s.push(x)[i] == a;
            if i < s.len() {
                assert(s[i] == a);
            }
        }
    }
    assert forall|a: Seq<char>| #[trigger] s.push(x).to_set().contains(a) == s.to_set().insert(x).contains(a) by {
        assert(s.push(x).to_set().contains(a) == s.push(x).contains(a));
        assert(s.to_set().contains(a) == s.contains(a));
    }
    assert(s.push(x).to_set() =~= s.to_set().insert(x));
}

/// What a worker does after trying to claim a URL.
#[derive(Debug, PartialEq, Eq)]
pub enum ClaimStep {
    /// It claimed this URL and is now active.
    Claimed(String),
    /// Nothing is pending but another worker is mid-flight: try again.
    Wait,
    /// Nothing is pending and nobody is active: the worker stops.
    Done,
}

/// What the consumer of results does after one attempt to receive.
#[derive(Debug, PartialEq, Eq)]
pub enum StreamStep {
    /// A result arrived: hand it out.
    Yield(UrlState),
    /// The crawl reached its fixed point: the stream ends.
    Finished,
    /// Work is still in flight: try again.
    Retry,
}

impl Crawler {
    /// The URLs pending a visit; the last one is claimed next.
    pub closed spec fn pending(&self) -> Seq<Seq<char>> {
        views_of(self.frontier@)
    }

    /// Every URL ever put on the frontier, the seed included.
    pub closed spec fn seen_set(&self) -> Set<Seq<char>> {
        self.seen@
    }

    /// Every URL ever handed out by a claim.
    pub closed spec fn claimed_set(&self) -> Set<Seq<char>> {
        self.claimed@
    }

    /// The URLs marked visited so far.
    pub closed spec fn visited_set(&self) -> Set<Seq<char>> {
        views_of(self.visited@).to_set()
    }

    /// How many URLs were claimed so far.
    pub closed spec fn visited_len(&self) -> nat {
        self.visited@.len()
    }

    /// Workers between a claim and its release.
    pub closed spec fn active_spec(&self) -> nat {
        self.active as nat
    }

    /// Pages that were expanded.
    pub closed spec fn parsed_spec(&self) -> nat {
        self.parsed as nat
    }

    /// The size of the worker pool.
    pub closed spec fn workers_spec(&self) -> nat {
        self.workers as nat
    }

    /// The pool has at least one worker, at most all of them are active, and
    /// no more pages were expanded than URLs claimed.
    pub closed spec fn wf(&self) -> bool {
        &&& 0 < self.workers
        &&& self.active <= self.workers
        &&& self.parsed <= self.visited@.len()
        &&& views_of(self.frontier@).to_set().subset_of(self.seen@)
        &&& self.claimed@.subset_of(self.seen@)
        &&& self.seen@.subset_of(self.claimed@.union(views_of(self.frontier@).to_set()))
    }

    /// A fresh crawl of `workers` workers whose frontier holds only `seed`.
    pub fn new(seed: String, workers: usize) -> (r: Crawler)
        requires
            workers > 0,
        ensures
            r.wf(),
            r.pending() == seq![seed@],
            r.visited_set() == Set::<Seq<char>>::empty(),
            r.visited_len() == 0,
            r.active_spec() == 0,
            r.parsed_spec() == 0,
            r.workers_spec() == workers,
            r.seen_set() == Set::<Seq<char>>::empty().insert(seed@),
            r.claimed_set() == Set::<Seq<char>>::empty(),
    {
        let mut frontier: Vec<String> = Vec::new();
        let ghost first = seed@;
        frontier.push(seed);
        proof {
            lemma_push_to_set(Seq::empty(), first);
            assert(Seq::<Seq<char>>::empty().to_set() =~= Set::empty());
            assert(views_of(frontier@) =~= Seq::<Seq<char>>::empty().push(first));
        }
        let r = Crawler {
            frontier,
            visited: Vec::new(),
            active: 0,
            parsed: 0,
            workers,
            seen: Ghost(Set::empty().insert(first)),
            claimed: Ghost(Set::empty()),
        };
        assert(r.pending() =~= seq![seed@]);
        assert(r.visited_set() =~= Set::<Seq<char>>::empty());
        r
    }

    /// Adds a candidate URL to the frontier, duplicates included.
    pub fn push(&mut self, url: String)
        requires
            old(self).wf(),
        ensures
            final(self).wf(),
            final(self).pending() == old(self).pending().push(url@),
            final(self).seen_set() == old(self).seen_set().insert(url@),
            final(self).claimed_set() == old(self).claimed_set(),
            final(self).visited_set() == old(self).visited_set(),
            final(self).visited_len() == old(self).visited_len(),
            final(self).active_spec() == old(self).active_spec(),
            final(self).parsed_spec() == old(self).parsed_spec(),
            final(self).workers_spec() == old(self).workers_spec(),
    {
        let ghost before = self.frontier@;
        let ghost u = url@;
        self.frontier.push(url);
        assert(views_of(self.frontier@) =~= views_of(before).push(u));
        proof {
            lemma_push_to_set(views_of(before), u);
            self.seen@ = self.seen@.insert(u);
        }
    }

    /// Claims a pending URL: pops one and counts its worker as active, in one
    /// step. Nothing is claimed when the frontier is empty. The caller holds
    /// no other claim, so at least one worker is idle.
    pub fn try_claim(&mut self) -> (r: Option<String>)
        requires
            old(self).wf(),
            old(self).active_spec() < old(self).workers_spec(),
        ensures
            final(self).wf(),
            old(self).pending().len() == 0 ==> r is None && *final(self) == *old(self),
            old(self).pending().len() > 0 ==> {
                &&& r matches Some(u) && u@ == old(self).pending().last()
                &&& final(self).pending() == old(self).pending().drop_last()
                &&& final(self).active_spec() == old(self).active_spec() + 1
                &&& final(self).claimed_set() == old(self).claimed_set().insert(old(self).pending().last())
            },
            final(self).seen_set() == old(self).seen_set(),
            final(self).visited_set() == old(self).visited_set(),
            final(self).visited_len() == old(self).visited_len(),
            final(self).parsed_spec() == old(self).parsed_spec(),
            final(self).workers_spec() == old(self).workers_spec(),
    {
        if self.frontier.len() == 0 {
            return None;
        }
        let ghost before = self.frontier@;
        match self.frontier.pop() {
            Some(url) => {
                self.active = self.active + 1;
                assert(views_of(self.frontier@) =~= views_of(before).drop_last());
                proof {
                    let all = views_of(before);
                    assert(all =~= all.drop_last().push(all.last()));
                    lemma_push_to_set(all.drop_last(), all.last());
                    assert(all.last() == url@);
                    self.claimed@ = self.claimed@.insert(url@);
                }
                Some(url)
            },
            None => None,
        }
    }

    /// Ends the claim of one active worker.
    pub fn release(&mut self)
        requires
            old(self).wf(),
            old(self).active_spec() > 0,
        ensures
            final(self).seen_set() == old(self).seen_set(),
            final(self).claimed_set() == old(self).claimed_set(),
            final(self).wf(),
            final(self).active_spec() == old(self).active_spec() - 1,
            final(self).pending() == old(self).pending(),
            final(self).visited_set() == old(self).visited_set(),
            final(self).visited_len() == old(self).visited_len(),
            final(self).parsed_spec() == old(self).parsed_spec(),
            final(self).workers_spec() == old(self).workers_spec(),
    {
        self.active = self.active - 1;
    }

    /// Tests and sets membership of `url` in the visited set in one step:
    /// true exactly when it was not there before.
    pub fn mark_visited(&mut self, url: &String) -> (r: bool)
        requires
            old(self).wf(),
        ensures
            final(self).seen_set() == old(self).seen_set(),
            final(self).claimed_set() == old(self).claimed_set(),
            final(self).wf(),
            r == !old(self).visited_set().contains(url@),
            final(self).visited_set() == old(self).visited_set().insert(url@),
            final(self).visited_len() >= old(self).visited_len(),
            final(self).pending() == old(self).pending(),
            final(self).active_spec() == old(self).active_spec(),
            final(self).parsed_spec() == old(self).parsed_spec(),
            final(self).workers_spec() == old(self).workers_spec(),
    {
        let ghost views = views_of(self.visited@);
        if holds(&self.visited, url) {
            assert(self.visited_set() =~= self.visited_set().insert(url@));
            return false;
        }
        self.visited.push(url.clone());
        assert(views_of(self.visited@) =~= views.push(url@));
        proof {
            lemma_push_to_set(views, url@);
        }
        true
    }

    /// The crawl has reached its fixed point: nothing pending, nobody
    /// active.
    pub fn is_finished(&self) -> (r: bool)
        ensures
            r == (self.pending().len() == 0 && self.active_spec() == 0),
    {
        self.frontier.len() == 0 && self.active == 0
    }

    /// Workers between a claim and its release.
    pub fn active_count(&self) -> (r: usize)
        ensures
            r == self.active_spec(),
    {
        self.active
    }

    /// Pages that were expanded.
    pub fn parsed_count(&self) -> (r: usize)
        ensures
            r == self.parsed_spec(),
    {
        self.parsed
    }

    /// URLs pending a visit, duplicates included.
    pub fn pending_count(&self) -> (r: usize)
        ensures
            r == self.pending().len(),
    {
        self.frontier.len()
    }

    /// The size of the worker pool.
    pub fn worker_count(&self) -> (r: usize)
        ensures
            r == self.workers_spec(),
    {
        self.workers
    }

    /// Counts one expanded page. The count never passes the number of URLs
    /// claimed, which each page expanded is.
    pub fn record_expanded(&mut self)
        requires
            old(self).wf(),
        ensures
            final(self).seen_set() == old(self).seen_set(),
            final(self).claimed_set() == old(self).claimed_set(),
            final(self).wf(),
            final(self).parsed_spec() == if old(self).parsed_spec() < old(self).visited_len() {
                old(self).parsed_spec() + 1
            } else {
                old(self).parsed_spec()
            },
            final(self).pending() == old(self).pending(),
            final(self).visited_set() == old(self).visited_set(),
            final(self).visited_len() == old(self).visited_len(),
            final(self).active_spec() == old(self).active_spec(),
            final(self).workers_spec() == old(self).workers_spec(),
    {
        if self.parsed < self.visited.len() {
            self.parsed = self.parsed + 1;
        }
    }

    /// Finishes the claim of a worker that classified its URL as `state`.
    /// Where the page is expanded, counts it and pushes the admitted links
    /// among `links` (the page's outbound links) onto the frontier; then
    /// releases the worker. Returns the state to publish, its expansion flag
    /// set to whether the page was expanded.
    pub fn complete(
        &mut self,
        state: UrlState,
        links: &Vec<String>,
        domain: &str,
        blacklist: &Vec<String>,
        marker: &Option<String>,
    ) -> (r: UrlState)
        requires
            old(self).wf(),
            old(self).active_spec() > 0,
        ensures
            final(self).claimed_set() == old(self).claimed_set(),
            final(self).seen_set() == if expands(state, domain@, views_of(blacklist@)) {
                old(self).seen_set() + admitted_links(domain@, views_of(links@), opt_chars(*marker)).to_set()
            } else {
                old(self).seen_set()
            },
            final(self).wf(),
            r == with_expanded_spec(state, expands(state, domain@, views_of(blacklist@))),
            final(self).pending() == if expands(state, domain@, views_of(blacklist@)) {
                old(self).pending() + admitted_links(domain@, views_of(links@), opt_chars(*marker))
            } else {
                old(self).pending()
            },
            final(self).parsed_spec() == if expands(state, domain@, views_of(blacklist@))
                && old(self).parsed_spec() < old(self).visited_len() {
                old(self).parsed_spec() + 1
            } else {
                old(self).parsed_spec()
            },
            final(self).active_spec() == old(self).active_spec() - 1,
            final(self).visited_set() == old(self).visited_set(),
            final(self).visited_len() == old(self).visited_len(),
            final(self).workers_spec() == old(self).workers_spec(),
    {
        let expand = should_expand(&state, domain, blacklist);
        if expand {
            self.record_expanded();
            let chosen = select_links(domain, links, marker);
            let ghost start = self.pending();
            proof {
                assert(views_of(chosen@).take(0) =~= Seq::<Seq<char>>::empty());
                assert(Seq::<Seq<char>>::empty().to_set() =~= Set::<Seq<char>>::empty());
                assert(self.seen_set() + Set::<Seq<char>>::empty() =~= self.seen_set());
            }
            let mut i: usize = 0;
            while i < chosen.len()
                invariant
                    self.wf(),
                    i <= chosen@.len(),
                    self.pending() == start + views_of(chosen@).take(i as int),
                    self.active_spec() == old(self).active_spec(),
                    self.parsed_spec() == if old(self).parsed_spec() < old(self).visited_len() {
                        old(self).parsed_spec() + 1
                    } else {
                        old(self).parsed_spec()
                    },
                    self.visited_set() == old(self).visited_set(),
                    self.visited_len() == old(self).visited_len(),
                    self.workers_spec() == old(self).workers_spec(),
                    self.claimed_set() == old(self).claimed_set(),
                    self.seen_set() == old(self).seen_set() + views_of(chosen@).take(i as int).to_set(),
                decreases chosen@.len() - i,
            {
                self.push(chosen[i].clone());
                assert(views_of(chosen@).take(i as int + 1) =~= views_of(chosen@).take(i as int).push(
                    chosen@[i as int]@,
                ));
                assert(start + views_of(chosen@).take(i as int + 1) =~= (start + views_of(
                    chosen@,
                ).take(i as int)).push(chosen@[i as int]@));
                proof {
                    lemma_push_to_set(views_of(chosen@).take(i as int), chosen@[i as int]@);
                    assert(old(self).seen_set() + views_of(chosen@).take(i as int + 1).to_set() =~= (
                    old(self).seen_set() + views_of(chosen@).take(i as int).to_set()).insert(
                        chosen@[i as int]@,
                    ));
                }
                i = i + 1;
            }
            assert(views_of(chosen@).take(chosen@.len() as int) =~= views_of(chosen@));
        }
        self.release();
        with_expanded(state, expand)
    }

    /// Step 1 of a worker: claim a URL, or learn whether to wait or stop.
    pub fn claim_step(&mut self) -> (r: ClaimStep)
        requires
            old(self).wf(),
            old(self).active_spec() < old(self).workers_spec(),
        ensures
            final(self).seen_set() == old(self).seen_set(),
            final(self).wf(),
            old(self).pending().len() > 0 ==> {
                &&& r matches ClaimStep::Claimed(u) && u@ == old(self).pending().last()
                &&& final(self).pending() == old(self).pending().drop_last()
                &&& final(self).active_spec() == old(self).active_spec() + 1
                &&& final(self).claimed_set() == old(self).claimed_set().insert(old(self).pending().last())
            },
            old(self).pending().len() == 0 ==> {
                &&& *final(self) == *old(self)
                &&& r == if old(self).active_spec() > 0 {
                    ClaimStep::Wait
                } else {
                    ClaimStep::Done
                }
            },
            final(self).visited_set() == old(self).visited_set(),
            final(self).visited_len() == old(self).visited_len(),
            final(self).parsed_spec() == old(self).parsed_spec(),
            final(self).workers_spec() == old(self).workers_spec(),
    {
        match self.try_claim() {
            Some(url) => ClaimStep::Claimed(url),
            None => if self.active > 0 {
                ClaimStep::Wait
            } else {
                ClaimStep::Done
            },
        }
    }

    /// Step 2 of a worker that claimed `url`: mark it visited. A URL visited
    /// before is abandoned at once, the worker released, and false returned.
    pub fn begin_visit(&mut self, url: &String) -> (r: bool)
        requires
            old(self).wf(),
            old(self).active_spec() > 0,
        ensures
            final(self).seen_set() == old(self).seen_set(),
            final(self).claimed_set() == old(self).claimed_set(),
            final(self).wf(),
            r == !old(self).visited_set().contains(url@),
            final(self).visited_set() == old(self).visited_set().insert(url@),
            final(self).visited_len() >= old(self).visited_len(),
            final(self).active_spec() == if r {
                old(self).active_spec()
            } else {
                (old(self).active_spec() - 1) as nat
            },
            final(self).pending() == old(self).pending(),
            final(self).parsed_spec() == old(self).parsed_spec(),
            final(self).workers_spec() == old(self).workers_spec(),
    {
        let fresh = self.mark_visited(url);
        if !fresh {
            self.release();
        }
        fresh
    }

    /// One pull of the result stream, given what a non-blocking receive
    /// returned: a result is handed out; without one, the stream ends only
    /// at the fixed point.
    pub fn stream_step(&self, received: Option<UrlState>) -> (r: StreamStep)
        ensures
            received matches Some(s) ==> r == StreamStep::Yield(s),
            received is None ==> r == if self.pending().len() == 0 && self.active_spec() == 0 {
                StreamStep::Finished
            } else {
                StreamStep::Retry
            },
    {
        match received {
            Some(s) => StreamStep::Yield(s),
            None => if self.is_finished() {
                StreamStep::Finished
            } else {
                StreamStep::Retry
            },
        }
    }
}

/// ActiveCount stays within `[0, WorkerCount]` in every well-formed state,
/// and every method of `Crawler` keeps its state well formed.
pub proof fn lemma_active_bounded(c: Crawler)
    requires
        c.wf(),
    ensures
        0 <= c.active_spec() <= c.workers_spec(),
        c.workers_spec() > 0,
{
}

/// At the crawl's fixed point nothing is left behind: every URL that was
/// ever put on the frontier has been claimed by some worker.
pub proof fn lemma_finished_all_claimed(c: Crawler)
    requires
        c.wf(),
        c.pending().len() == 0,
    ensures
        c.seen_set() == c.claimed_set(),
{
    broadcast use vstd::set::group_set_axioms;
    assert(c.pending().to_set() =~= Set::<Seq<char>>::empty());
    assert(c.seen_set() =~= c.claimed_set());
}

/// The visited set after `mark_visited` was called on each of the first `k`
/// of `claims`, starting from `start`.
pub open spec fn visited_after(start: Set<Seq<char>>, claims: Seq<Seq<char>>, k: int) -> Set<Seq<char>> {
    start + claims.take(k).to_set()
}

/// Whether call `k` of that run granted the visit (returned true).
pub open spec fn grants_visit(start: Set<Seq<char>>, claims: Seq<Seq<char>>, k: int) -> bool {
    !visited_after(start, claims, k).contains(claims[k])
}

/// Each `mark_visited` call of a run takes the visited set one step further,
/// as `mark_visited` states.
pub proof fn lemma_visited_after_step(start: Set<Seq<char>>, claims: Seq<Seq<char>>, k: int)
    requires
        0 <= k < claims.len(),
    ensures
        visited_after(start, claims, k).insert(claims[k]) == visited_after(start, claims, k + 1),
{
    broadcast use vstd::set::group_set_axioms;
    assert(claims.take(k + 1) =~= claims.take(k).push(claims[k]));
    lemma_push_to_set(claims.take(k), claims[k]);
    assert(visited_after(start, claims, k).insert(claims[k]) =~= visited_after(start, claims, k + 1));
}

/// Dedup is exact: over any run of claims, however the workers interleave,
/// a URL is granted for fetching at most once.
pub proof fn lemma_visit_granted_once(start: Set<Seq<char>>, claims: Seq<Seq<char>>, i: int, j: int)
    requires
        0 <= i < j < claims.len(),
        claims[i] == claims[j],
    ensures
        !(grants_visit(start, claims, i) && grants_visit(start, claims, j)),
{
    broadcast use vstd::set::group_set_axioms;
    assert(claims.take(j)[i] == claims[j]);
    assert(claims.take(j).contains(claims[j]));
    assert(claims.take(j).to_set().contains(claims[j]));
}

} // verus!
