//! The crawl orchestrator: the visited set with its serialized
//! check-and-claim step, the round-based frontier walk, and the packaging
//! of the final result.
//!
//! Page bodies reach the orchestrator as values: a [`PageStore`] maps URLs
//! to the body a fetch of them yields, with an absent entry standing for a
//! fetch failure.  A live front end drives the same [`Crawler`] steps
//! round by round, fetching each claimed URL over the network and handing
//! the body back; every claim decision then goes through the one
//! verified [`Crawler::claim`] step, which is what bounds fetches to one
//! per distinct URL however the fetches themselves are scheduled.

use vstd::prelude::*;

use crate::domain::Domain;
use crate::json::UrlsJson;
use crate::parsing::{hrefs_of, parse_html_links, resolved_links};
use crate::urls::{in_domain, views_of};

verus! {

/// Whether `a` and `b` hold the same characters.
fn str_eq(a: &str, b: &str) -> (r: bool)
    ensures
        r == (a@ == b@),
{
    let n = a.unicode_len();
    if n != b.unicode_len() {
        return false;
    }
    let mut i: usize = 0;
    while i < n
        invariant
            i <= n,
            n == a@.len(),
            n == b@.len(),
            forall|j: int| 0 <= j < i ==> a@[j] == b@[j],
        decreases n - i,
    {
        if a.get_char(i) != b.get_char(i) {
            return false;
        }
        i = i + 1;
    }
    proof {
        assert(a@ =~= b@);
    }
    true
}

/// The set of URL strings already claimed for fetching: a vector that
/// never holds the same string twice, in claim order.
pub struct UrlSet {
    items: Vec<String>,
}

impl View for UrlSet {
    type V = Seq<Seq<char>>;

    closed spec fn view(&self) -> Seq<Seq<char>> {
        views_of(self.items@)
    }
}

impl UrlSet {
    /// No URL stands in the set twice.
    #[verifier::type_invariant]
    pub open spec fn wf(&self) -> bool {
        self@.no_duplicates()
    }

    /// The empty set.
    pub fn new() -> (s: Self)
        ensures
            s@ == Seq::<Seq<char>>::empty(),
    {
        let s = UrlSet { items: Vec::new() };
        proof {
            assert(s@ =~= Seq::<Seq<char>>::empty());
        }
        s
    }

    /// How many URLs have been claimed.
    pub fn len(&self) -> (n: usize)
        ensures
            n == self@.len(),
    {
        self.items.len()
    }

    /// Whether `url` has been claimed already.
    pub fn contains(&self, url: &str) -> (r: bool)
        ensures
            r == self@.contains(url@),
    {
        let mut i: usize = 0;
        while i < self.items.len()
            invariant
                i <= self.items@.len(),
                forall|j: int| 0 <= j < i ==> self@[j] != url@,
            decreases self.items@.len() - i,
        {
            if str_eq(self.items[i].as_str(), url) {
                proof {
                    assert(self@[i as int] == url@);
                }
                return true;
            }
            i = i + 1;
        }
        proof {
            assert(forall|j: int| 0 <= j < self@.len() ==> self@[j] != url@);
        }
        false
    }

    /// Adds `url` unless it is already present; reports whether it was
    /// added.
    pub fn insert(&mut self, url: &str) -> (added: bool)
        ensures
            added == !old(self)@.contains(url@),
            added ==> final(self)@ == old(self)@.push(url@),
            !added ==> final(self)@ == old(self)@,
    {
        proof {
            use_type_invariant(&*self);
        }
        if self.contains(url) {
            false
        } else {
            let mut items: Vec<String> = Vec::new();
            core::mem::swap(&mut items, &mut self.items);
            items.push(String::from_str(url));
            proof {
                let v0 = old(self)@;
                assert(views_of(items@) =~= v0.push(url@));
                assert forall|a: int, b: int|
                    0 <= a < v0.push(url@).len() && 0 <= b < v0.push(url@).len() && a
                        != b implies v0.push(url@)[a] != v0.push(url@)[b] by {
                    if a < v0.len() && b < v0.len() {
                        assert(v0[a] != v0[b]);
                    } else if b == v0.len() {
                        assert(v0.push(url@)[a] == v0[a]);
                        if v0[a] == url@ {
                            assert(v0.contains(url@));
                        }
                    } else {
                        assert(v0.push(url@)[b] == v0[b]);
                        if v0[b] == url@ {
                            assert(v0.contains(url@));
                        }
                    }
                }
                assert(v0.push(url@).no_duplicates());
            }
            core::mem::swap(&mut items, &mut self.items);
            proof {
                assert(self@ =~= old(self)@.push(url@));
            }
            true
        }
    }

    /// Moves the claimed URLs out, in claim order.
    pub fn into_vec(self) -> (v: Vec<String>)
        ensures
            views_of(v@) == self@,
    {
        self.items
    }
}

/// The body that a fetch of `url` yields under `entries`: the first entry
/// for `url`, or `None` where the fetch fails.
pub open spec fn lookup_spec(entries: Seq<(Seq<char>, Seq<char>)>, url: Seq<char>) -> Option<
    Seq<char>,
>
    decreases entries.len(),
{
    if entries.len() == 0 {
        None
    } else if entries[0].0 == url {
        Some(entries[0].1)
    } else {
        lookup_spec(entries.drop_first(), url)
    }
}

/// The page-fetch collaborator as a value: each entry maps a URL to the
/// body text its fetch returns; a URL without an entry fails to fetch.
pub struct PageStore {
    pages: Vec<(String, String)>,
}

impl View for PageStore {
    type V = Seq<(Seq<char>, Seq<char>)>;

    closed spec fn view(&self) -> Seq<(Seq<char>, Seq<char>)> {
        self.pages@.map_values(|p: (String, String)| (p.0@, p.1@))
    }
}

impl PageStore {
    /// A web with no reachable pages.
    pub fn new() -> (s: Self)
        ensures
            s@ == Seq::<(Seq<char>, Seq<char>)>::empty(),
    {
        let s = PageStore { pages: Vec::new() };
        proof {
            assert(s@ =~= Seq::<(Seq<char>, Seq<char>)>::empty());
        }
        s
    }

    /// Records that fetching `url` yields `body`.
    pub fn add_page(&mut self, url: &str, body: &str)
        ensures
            final(self)@ == old(self)@.push((url@, body@)),
    {
        self.pages.push((String::from_str(url), String::from_str(body)));
        proof {
            assert(self@ =~= old(self)@.push((url@, body@)));
        }
    }

    /// Fetches `url`: the recorded body, or `None` where the fetch fails.
    pub fn fetch(&self, url: &str) -> (r: Option<String>)
        ensures
            match r {
                Some(body) => lookup_spec(self@, url@) == Some(body@),
                None => lookup_spec(self@, url@) is None,
            },
    {
        let mut i: usize = 0;
        proof {
            assert(self@.skip(0) =~= self@);
        }
        while i < self.pages.len()
            invariant
                i <= self.pages@.len(),
                lookup_spec(self@, url@) == lookup_spec(self@.skip(i as int), url@),
            decreases self.pages@.len() - i,
        {
            proof {
                assert(self@.skip(i as int).drop_first() =~= self@.skip(i as int + 1));
                assert(self@.skip(i as int)[0] == self@[i as int]);
            }
            if str_eq(self.pages[i].0.as_str(), url) {
                return Some(self.pages[i].1.clone());
            }
            i = i + 1;
        }
        proof {
            assert(self@.skip(i as int) =~= Seq::<(Seq<char>, Seq<char>)>::empty());
        }
        None
    }
}

/// What one claim attempt decides for a URL.
#[derive(Clone, Copy, Debug, PartialEq, Eq, Structural)]
pub enum Verdict {
    /// The visited set has reached the limit; the branch is a no-op.
    LimitReached,
    /// The URL's host is not the crawl's domain; the branch is a no-op.
    OutsideDomain,
    /// The URL was claimed earlier; the branch is a no-op.
    AlreadyVisited,
    /// The URL is claimed now, and its page is to be fetched.
    Claimed,
}

/// The claim decision over the visited set's current contents: the
/// size check, the scope check and the membership check, in that order,
/// decide whether a URL is claimed.
pub open spec fn claim_spec(
    visited: Seq<Seq<char>>,
    limit: nat,
    name: Seq<char>,
    url: Seq<char>,
) -> Verdict {
    if visited.len() >= limit {
        Verdict::LimitReached
    } else if !in_domain(name, url) {
        Verdict::OutsideDomain
    } else if visited.contains(url) {
        Verdict::AlreadyVisited
    } else {
        Verdict::Claimed
    }
}

/// One crawl invocation's shared state: the target domain, the visited-set
/// cap, and the visited set itself.  Claim attempts go through `claim` one at
/// a time, so no two of them can both claim one URL.
pub struct Crawler {
    domain: Domain,
    limit: usize,
    visited: UrlSet,
}

impl Crawler {
    /// The claimed URLs, in claim order.
    pub closed spec fn spec_visited(&self) -> Seq<Seq<char>> {
        self.visited@
    }

    /// The domain name the crawl stays inside.
    pub closed spec fn spec_name(&self) -> Seq<char> {
        self.domain.spec_name()
    }

    /// The seed URL that anchors the crawl.
    pub closed spec fn spec_base(&self) -> Seq<char> {
        self.domain.spec_url()
    }

    /// The visited-set cap.
    pub closed spec fn spec_limit(&self) -> usize {
        self.limit
    }

    /// Every claimed URL is in scope, and the cap is respected.
    #[verifier::type_invariant]
    pub open spec fn wf(&self) -> bool {
        &&& self.spec_visited().len() <= self.spec_limit()
        &&& forall|k: int|
            0 <= k < self.spec_visited().len() ==> in_domain(
                self.spec_name(),
                #[trigger] self.spec_visited()[k],
            )
    }

    /// A fresh crawl over `domain`, capped at `limit`, with nothing
    /// visited yet.
    pub fn new(domain: Domain, limit: usize) -> (c: Self)
        ensures
            c.spec_visited() == Seq::<Seq<char>>::empty(),
            c.spec_name() == domain.spec_name(),
            c.spec_base() == domain.spec_url(),
            c.spec_limit() == limit,
    {
        Crawler { domain, limit, visited: UrlSet::new() }
    }

    /// The serialized check-and-claim step: decides what one frontier URL
    /// contributes, and claims it when it is new, in scope and under the
    /// cap.  The three checks and the insertion happen against one state,
    /// so no later attempt on the same URL can claim it again.
    pub fn claim(&mut self, url: &str) -> (v: Verdict)
        ensures
            v == claim_spec(
                old(self).spec_visited(),
                old(self).spec_limit() as nat,
                old(self).spec_name(),
                url@,
            ),
            v is Claimed ==> final(self).spec_visited() == old(self).spec_visited().push(url@),
            !(v is Claimed) ==> final(self).spec_visited() == old(self).spec_visited(),
            old(self).spec_visited().is_prefix_of(final(self).spec_visited()),
            final(self).spec_name() == old(self).spec_name(),
            final(self).spec_base() == old(self).spec_base(),
            final(self).spec_limit() == old(self).spec_limit(),
    {
        proof {
            use_type_invariant(&*self);
        }
        if self.visited.len() >= self.limit {
            Verdict::LimitReached
        } else if !self.domain.is_in_domain(url) {
            Verdict::OutsideDomain
        } else if self.visited.contains(url) {
            Verdict::AlreadyVisited
        } else {
            let mut visited = UrlSet::new();
            core::mem::swap(&mut visited, &mut self.visited);
            visited.insert(url);
            proof {
                let v0 = old(self).spec_visited();
                assert forall|k: int| 0 <= k < v0.push(url@).len() implies in_domain(
                    old(self).spec_name(),
                    #[trigger] v0.push(url@)[k],
                ) by {
                    if k < v0.len() {
                        assert(v0.push(url@)[k] == v0[k]);
                    }
                }
            }
            core::mem::swap(&mut visited, &mut self.visited);
            Verdict::Claimed
        }
    }

    /// Consumes the crawl and moves the visited set out; nothing can be
    /// claimed afterwards.
    pub fn into_visited(self) -> (s: UrlSet)
        ensures
            s@ == self.spec_visited(),
    {
        self.visited
    }
}

/// Whether fetching `v` yields a page among whose resolved links, against
/// the seed `base`, stands `u`.
pub open spec fn page_yields(
    web: Seq<(Seq<char>, Seq<char>)>,
    base: Seq<char>,
    v: Seq<char>,
    u: Seq<char>,
) -> bool {
    match lookup_spec(web, v) {
        Some(body) => resolved_links(base, hrefs_of(body)).contains(u),
        None => false,
    }
}

/// Whether `u` is the seed or reachable from it within `n` link steps,
/// each step following a link of a fetched in-domain page.
pub open spec fn reaches_in(
    web: Seq<(Seq<char>, Seq<char>)>,
    name: Seq<char>,
    base: Seq<char>,
    u: Seq<char>,
    n: nat,
) -> bool
    decreases n,
{
    if n == 0 {
        u == base
    } else {
        reaches_in(web, name, base, u, (n - 1) as nat) || exists|v: Seq<char>|
            reaches_in(web, name, base, v, (n - 1) as nat) && in_domain(name, v) && #[trigger] page_yields(
                web,
                base,
                v,
                u,
            )
    }
}

/// Whether `u` is the seed or reachable from it via a chain of links of
/// fetched in-domain pages.
pub open spec fn reachable(
    web: Seq<(Seq<char>, Seq<char>)>,
    name: Seq<char>,
    base: Seq<char>,
    u: Seq<char>,
) -> bool {
    exists|n: nat| reaches_in(web, name, base, u, n)
}

/// A link of a reachable fetched in-domain page is itself reachable.
proof fn lemma_link_reachable(
    web: Seq<(Seq<char>, Seq<char>)>,
    name: Seq<char>,
    base: Seq<char>,
    v: Seq<char>,
    u: Seq<char>,
)
    requires
        reachable(web, name, base, v),
        in_domain(name, v),
        page_yields(web, base, v, u),
    ensures
        reachable(web, name, base, u),
{
    let n = choose|n: nat| reaches_in(web, name, base, v, n);
    let m: nat = n + 1;
    assert(reaches_in(web, name, base, v, (m - 1) as nat));
    assert(exists|w: Seq<char>|
        reaches_in(web, name, base, w, (m - 1) as nat) && in_domain(name, w) && #[trigger] page_yields(
            web,
            base,
            w,
            u,
        ));
    assert(reaches_in(web, name, base, u, m));
}

/// Whether the seed's own page either fails to fetch or links only to
/// out-of-scope URLs.
pub open spec fn only_external_links(
    web: Seq<(Seq<char>, Seq<char>)>,
    name: Seq<char>,
    base: Seq<char>,
) -> bool {
    match lookup_spec(web, base) {
        Some(body) => forall|k: int|
            0 <= k < resolved_links(base, hrefs_of(body)).len() ==> !in_domain(
                name,
                #[trigger] resolved_links(base, hrefs_of(body))[k],
            ),
        None => true,
    }
}

/// Once a claim attempt takes `url`, the visited set holds it, and any
/// attempt on `url` against a visited set that holds it is rejected:
/// across one crawl, at most one attempt per URL succeeds, so the page
/// behind `url` is fetched at most once however many frontier branches
/// carry it.
pub proof fn lemma_claim_is_exclusive(
    v1: Seq<Seq<char>>,
    limit: nat,
    name: Seq<char>,
    url: Seq<char>,
    v2: Seq<Seq<char>>,
)
    requires
        claim_spec(v1, limit, name, url) is Claimed,
        v2.contains(url),
    ensures
        v1.push(url).contains(url),
        !(claim_spec(v2, limit, name, url) is Claimed),
{
    assert(v1.push(url)[v1.len() as int] == url);
}

/// Crawls `domain` breadth-first from its seed URL, one synchronous round
/// per frontier, claiming each accepted URL exactly once and capping the
/// visited set at `limit`; a cached result set short-circuits the walk.
///
/// The result holds only in-scope URLs, each the seed or reachable from it
/// through links of fetched in-domain pages, without duplicates and never
/// more than `limit` of them; with a positive cap it holds the seed, and/// One frontier branch preserves the round invariants: the visited set
/// stays within the cap, everything visited or queued stays reachable,
/// with a positive cap the seed is or becomes visited, and under a seed
/// page with only out-of-scope links the crawl never grows past the seed.
#[verifier::rlimit(30)]
proof fn lemma_round_step(
    web: Seq<(Seq<char>, Seq<char>)>,
    name: Seq<char>,
    base: Seq<char>,
    limit: usize,
    visited0: Seq<Seq<char>>,
    pre_visited: Seq<Seq<char>>,
    pre_next: Seq<String>,
    frontier: Seq<String>,
    i: int,
    verdict: Verdict,
    now_visited: Seq<Seq<char>>,
    now_next: Seq<String>,
)
    requires
        in_domain(name, base),
        0 <= i < frontier.len(),
        pre_visited.len() <= limit,
        visited0.is_prefix_of(pre_visited),
        pre_visited.len() == visited0.len() ==> pre_visited == visited0 && pre_next.len() == 0,
        forall|k: int|
            0 <= k < pre_visited.len() ==> reachable(web, name, base, #[trigger] pre_visited[k]),
        forall|k: int| 0 <= k < frontier.len() ==> reachable(web, name, base, #[trigger] frontier[k]@),
        forall|k: int| 0 <= k < pre_next.len() ==> reachable(web, name, base, #[trigger] pre_next[k]@),
        limit >= 1 ==> pre_visited.contains(base) || (pre_visited.len() == 0 && frontier.len() == 1
            && frontier[0]@ == base && i == 0),
        limit >= 1 && only_external_links(web, name, base) ==> (pre_visited.len() == 0
            && frontier.len() == 1 && frontier[0]@ == base && i == 0 && pre_next.len() == 0) || (
        pre_visited == seq![base] && (forall|k: int|
            0 <= k < frontier.len() ==> !in_domain(name, #[trigger] frontier[k]@) || frontier[k]@
                == base) && (forall|k: int|
            0 <= k < pre_next.len() ==> !in_domain(name, #[trigger] pre_next[k]@))),
        verdict == claim_spec(pre_visited, limit as nat, name, frontier[i]@),
        verdict is Claimed ==> now_visited == pre_visited.push(frontier[i]@),
        !(verdict is Claimed) ==> now_visited == pre_visited && now_next == pre_next,
        pre_next.is_prefix_of(now_next),
        verdict is Claimed ==> match lookup_spec(web, frontier[i]@) {
            Some(body) => views_of(now_next.skip(pre_next.len() as int)) == resolved_links(
                base,
                hrefs_of(body),
            ),
            None => now_next == pre_next,
        },
    ensures
        now_visited.len() <= limit,
        visited0.is_prefix_of(now_visited),
        now_visited.len() == visited0.len() ==> now_visited == visited0 && now_next.len() == 0,
        forall|k: int|
            0 <= k < now_visited.len() ==> reachable(web, name, base, #[trigger] now_visited[k]),
        forall|k: int| 0 <= k < now_next.len() ==> reachable(web, name, base, #[trigger] now_next[k]@),
        limit >= 1 ==> now_visited.contains(base) || (now_visited.len() == 0 && frontier.len() == 1
            && frontier[0]@ == base && i + 1 == 0),
        limit >= 1 && only_external_links(web, name, base) ==> (now_visited.len() == 0
            && frontier.len() == 1 && frontier[0]@ == base && i + 1 == 0 && now_next.len() == 0)
            || (now_visited == seq![base] && (forall|k: int|
            0 <= k < frontier.len() ==> !in_domain(name, #[trigger] frontier[k]@) || frontier[k]@
                == base) && (forall|k: int|
            0 <= k < now_next.len() ==> !in_domain(name, #[trigger] now_next[k]@))),
{
    let u = frontier[i]@;
    if verdict is Claimed {
        assert(pre_visited.len() < limit);
        assert(in_domain(name, u));
        assert(!pre_visited.contains(u));
        assert(now_visited.subrange(0, visited0.len() as int) =~= pre_visited.subrange(
            0,
            visited0.len() as int,
        ));
        assert forall|k: int| 0 <= k < now_visited.len() implies reachable(
            web,
            name,
            base,
            #[trigger] now_visited[k],
        ) by {
            if k < pre_visited.len() {
                assert(now_visited[k] == pre_visited[k]);
            } else {
                assert(now_visited[k] == u);
            }
        }
        match lookup_spec(web, u) {
            Some(body) => {
                let fresh = now_next.skip(pre_next.len() as int);
                assert forall|k: int| 0 <= k < now_next.len() implies reachable(
                    web,
                    name,
                    base,
                    #[trigger] now_next[k]@,
                ) by {
                    if k < pre_next.len() {
                        assert(now_next[k] == pre_next[k]);
                    } else {
                        assert(fresh[k - pre_next.len()] == now_next[k]);
                        assert(views_of(fresh)[k - pre_next.len()] == now_next[k]@);
                        assert(resolved_links(base, hrefs_of(body)).contains(now_next[k]@));
                        assert(page_yields(web, base, u, now_next[k]@));
                        lemma_link_reachable(web, name, base, u, now_next[k]@);
                    }
                }
            },
            None => {
                assert forall|k: int| 0 <= k < now_next.len() implies reachable(
                    web,
                    name,
                    base,
                    #[trigger] now_next[k]@,
                ) by {
                    assert(now_next[k] == pre_next[k]);
                }
            },
        }
    }
    if limit >= 1 {
        if pre_visited.contains(base) {
            let j = choose|j: int| 0 <= j < pre_visited.len() && pre_visited[j] == base;
            assert(now_visited[j] == base);
            assert(now_visited.contains(base));
        } else {
            assert(pre_visited.len() == 0 && frontier.len() == 1 && frontier[0]@ == base && i
                == 0);
            assert(u == base);
            assert(verdict is Claimed);
            assert(now_visited[0] == base);
            assert(now_visited.contains(base));
        }
    }
    if limit >= 1 && only_external_links(web, name, base) {
        if pre_visited.len() == 0 {
            assert(u == base);
            assert(verdict is Claimed);
            assert(now_visited =~= seq![base]);
            assert forall|k: int| 0 <= k < now_next.len() implies !in_domain(
                name,
                #[trigger] now_next[k]@,
            ) by {
                let fresh = now_next.skip(pre_next.len() as int);
                match lookup_spec(web, base) {
                    Some(body) => {
                        assert(fresh[k - pre_next.len()] == now_next[k]);
                        assert(views_of(fresh)[k - pre_next.len()] == now_next[k]@);
                        assert(!in_domain(name, resolved_links(base, hrefs_of(body))[k
                            - pre_next.len()]));
                    },
                    None => {
                        assert(false);
                    },
                }
            }
        } else {
            assert(pre_visited == seq![base]);
            if verdict is Claimed {
                assert(pre_visited[0] == base);
                assert(in_domain(name, u));
                assert(u == base);
                assert(pre_visited.contains(u));
                assert(false);
            }
            assert(now_visited == seq![base]);
            assert(now_next == pre_next);
        }
    }
}

/// One frontier branch: the claim decision for `url` and, when it is
/// claimed, the fetch of its page and the contribution of that page's
/// resolved links to the next frontier.  A fetch failure, like every
/// rejected claim, contributes nothing.
fn process_candidate(
    crawler: &mut Crawler,
    domain: &Domain,
    pages: &PageStore,
    url: &str,
    next: &mut Vec<String>,
) -> (v: Verdict)
    requires
        old(crawler).spec_name() == domain.spec_name(),
        old(crawler).spec_base() == domain.spec_url(),
    ensures
        v == claim_spec(
            old(crawler).spec_visited(),
            old(crawler).spec_limit() as nat,
            old(crawler).spec_name(),
            url@,
        ),
        v is Claimed ==> final(crawler).spec_visited() == old(crawler).spec_visited().push(url@),
        !(v is Claimed) ==> final(crawler).spec_visited() == old(crawler).spec_visited()
            && final(next)@ == old(next)@,
        final(crawler).spec_name() == old(crawler).spec_name(),
        final(crawler).spec_base() == old(crawler).spec_base(),
        final(crawler).spec_limit() == old(crawler).spec_limit(),
        old(next)@.is_prefix_of(final(next)@),
        v is Claimed ==> match lookup_spec(pages@, url@) {
            Some(body) => views_of(final(next)@.skip(old(next)@.len() as int)) == resolved_links(
                domain.spec_url(),
                hrefs_of(body),
            ),
            None => final(next)@ == old(next)@,
        },
{
    let ghost next0 = next@;
    let verdict = crawler.claim(url);
    match verdict {
        Verdict::Claimed => {
            match pages.fetch(url) {
                Some(body) => {
                    let links = parse_html_links(domain, body.as_str());
                    let mut k: usize = 0;
                    while k < links.len()
                        invariant
                            k <= links@.len(),
                            next@ == next0 + links@.subrange(0, k as int),
                        decreases links@.len() - k,
                    {
                        next.push(links[k].clone());
                        proof {
                            assert(next@ =~= next0 + links@.subrange(0, k as int + 1));
                        }
                        k = k + 1;
                    }
                    proof {
                        assert(next@ =~= next0 + links@);
                        assert(next@.skip(next0.len() as int) =~= links@);
                    }
                },
                None => {},
            }
        },
        _ => {},
    }
    proof {
        assert(next@.subrange(0, next0.len() as int) =~= next0);
    }
    verdict
}

pub fn crawl(domain: &Domain, limit: usize, cached: Option<UrlSet>, pages: &PageStore) -> (r:
    UrlsJson)
    ensures
        r.domain_crawled@ == domain.spec_name(),
        r.nb_urls == r.urls@.len(),
        views_of(r.urls@).no_duplicates(),
        cached matches Some(s) ==> views_of(r.urls@) == s@,
        cached is None ==> {
            &&& r.urls@.len() <= limit
            &&& forall|k: int|
                0 <= k < r.urls@.len() ==> in_domain(domain.spec_name(), views_of(r.urls@)[k])
            &&& forall|k: int|
                0 <= k < r.urls@.len() ==> reachable(
                    pages@,
                    domain.spec_name(),
                    domain.spec_url(),
                    views_of(r.urls@)[k],
                )
            &&& limit >= 1 ==> views_of(r.urls@).contains(domain.spec_url())
            &&& limit >= 1 && only_external_links(pages@, domain.spec_name(), domain.spec_url())
                ==> r.urls@.len() == 1
        },
{
    let name_string = domain.get_name();
    match cached {
        Some(set) => UrlsJson::new(name_string.as_str(), set),
        None => crawl_rounds(domain, limit, pages, name_string),
    }
}

/// The round loop of a fresh crawl: starting from the seed frontier, every
/// round claims what it can of the current frontier, fetches the claimed
/// pages, and seeds the next round with their resolved links, until a
/// round contributes nothing.
fn crawl_rounds(domain: &Domain, limit: usize, pages: &PageStore, name_string: String) -> (r:
    UrlsJson)
    requires
        name_string@ == domain.spec_name(),
    ensures
        r.domain_crawled@ == domain.spec_name(),
        r.nb_urls == r.urls@.len(),
        views_of(r.urls@).no_duplicates(),
        r.urls@.len() <= limit,
        forall|k: int|
            0 <= k < r.urls@.len() ==> in_domain(domain.spec_name(), views_of(r.urls@)[k]),
        forall|k: int|
            0 <= k < r.urls@.len() ==> reachable(
                pages@,
                domain.spec_name(),
                domain.spec_url(),
                views_of(r.urls@)[k],
            ),
        limit >= 1 ==> views_of(r.urls@).contains(domain.spec_url()),
        limit >= 1 && only_external_links(pages@, domain.spec_name(), domain.spec_url())
            ==> r.urls@.len() == 1,
{
    let ghost name = domain.spec_name();
    let ghost base = domain.spec_url();
    let ghost web = pages@;
    proof {
        use_type_invariant(domain);
    }
    let mut crawler = Crawler::new(domain.clone(), limit);
    let mut frontier: Vec<String> = Vec::new();
    frontier.push(String::from_str(domain.get_original_url()));
    proof {
        assert(reaches_in(web, name, base, base, 0));
        assert(frontier@[0]@ == base);
    }
    while frontier.len() != 0
        invariant
            name == domain.spec_name(),
            base == domain.spec_url(),
            web == pages@,
            in_domain(name, base),
            crawler.spec_name() == name,
            crawler.spec_base() == base,
            crawler.spec_limit() == limit,
            crawler.spec_visited().len() <= limit,
            forall|k: int|
                0 <= k < crawler.spec_visited().len() ==> reachable(
                    web,
                    name,
                    base,
                    #[trigger] crawler.spec_visited()[k],
                ),
            forall|k: int|
                0 <= k < frontier@.len() ==> reachable(web, name, base, #[trigger] frontier@[k]@),
            limit >= 1 ==> crawler.spec_visited().contains(base) || (crawler.spec_visited().len()
                == 0 && frontier@.len() == 1 && frontier@[0]@ == base),
            limit >= 1 && only_external_links(web, name, base) ==> (crawler.spec_visited().len()
                == 0 && frontier@.len() == 1 && frontier@[0]@ == base) || (crawler.spec_visited()
                == seq![base] && forall|k: int|
                0 <= k < frontier@.len() ==> !in_domain(name, #[trigger] frontier@[k]@)
                    || frontier@[k]@ == base),
        decreases limit - crawler.spec_visited().len(), frontier@.len(),
    {
        let ghost visited0 = crawler.spec_visited();
        let ghost frontier0 = frontier@;
        let mut next: Vec<String> = Vec::new();
        let mut i: usize = 0;
        while i < frontier.len()
            invariant
                i <= frontier@.len(),
                frontier@ == frontier0,
                name == domain.spec_name(),
                base == domain.spec_url(),
                web == pages@,
                in_domain(name, base),
                crawler.spec_name() == name,
                crawler.spec_base() == base,
                crawler.spec_limit() == limit,
                crawler.spec_visited().len() <= limit,
                visited0.is_prefix_of(crawler.spec_visited()),
                crawler.spec_visited().len() == visited0.len() ==> (crawler.spec_visited()
                    == visited0 && next@.len() == 0),
                forall|k: int|
                    0 <= k < crawler.spec_visited().len() ==> reachable(
                        web,
                        name,
                        base,
                        #[trigger] crawler.spec_visited()[k],
                    ),
                forall|k: int|
                    0 <= k < frontier@.len() ==> reachable(
                        web,
                        name,
                        base,
                        #[trigger] frontier@[k]@,
                    ),
                forall|k: int|
                    0 <= k < next@.len() ==> reachable(web, name, base, #[trigger] next@[k]@),
                limit >= 1 ==> crawler.spec_visited().contains(base) || (
                crawler.spec_visited().len() == 0 && frontier@.len() == 1 && frontier@[0]@ == base
                    && i == 0),
                limit >= 1 && only_external_links(web, name, base) ==> (
                crawler.spec_visited().len() == 0 && frontier@.len() == 1 && frontier@[0]@ == base
                    && i == 0 && next@.len() == 0) || (crawler.spec_visited() == seq![base] && (
                forall|k: int|
                    0 <= k < frontier@.len() ==> !in_domain(name, #[trigger] frontier@[k]@)
                        || frontier@[k]@ == base) && (forall|k: int|
                    0 <= k < next@.len() ==> !in_domain(name, #[trigger] next@[k]@))),
            decreases frontier@.len() - i,
        {
            let ghost pre_visited = crawler.spec_visited();
            let ghost pre_next = next@;
            let url: &String = &frontier[i];
            let verdict = process_candidate(&mut crawler, domain, pages, url.as_str(), &mut next);
            proof {
                lemma_round_step(
                    web,
                    name,
                    base,
                    limit,
                    visited0,
                    pre_visited,
                    pre_next,
                    frontier@,
                    i as int,
                    verdict,
                    crawler.spec_visited(),
                    next@,
                );
            }
            i = i + 1;
        }
        frontier = next;
    }
    proof {
        use_type_invariant(&crawler);
    }
    let visited = crawler.into_visited();
    UrlsJson::new(name_string.as_str(), visited)
}

} // verus!
