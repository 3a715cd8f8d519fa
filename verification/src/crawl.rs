//! The crawl: from one requested package to every package that it
//! re-exports, directly or through others.
//!
//! A crawl proceeds in waves. The caller takes the pending wave, finds a
//! version for each request that names none, and asks which of the resolved
//! packages are worth fetching. It then fetches and indexes those, in any
//! order, and commits each result: the package is stored, and the names it
//! re-exports join the next wave unless they were queued before. The crawl
//! is done when a wave is empty. Downloads and parsing are the caller's
//! part; every decision is taken here, and [`Crawl::step`] takes them one
//! at a time: the caller reports what happened and is told what to do.

use crate::database::{
    contains_text, has_key, rejection, replaced, stored_keys, Database, PackageView, StorageError,
};
use crate::indexer::IndexResult;
use crate::storage::{make_key, package_key, row_views};
use crate::text::{copy_str, texts};
use vstd::prelude::*;

verus! {

/// Bounds on a crawl, each optional: how many re-export steps may lie
/// between the requested package and a queued one, and how many names may
/// be queued in all.
#[derive(Debug, Clone, Copy, PartialEq, Eq, Structural)]
pub struct Limits {
    pub max_depth: Option<usize>,
    pub max_packages: Option<usize>,
}

impl Limits {
    /// No bound.
    pub fn none() -> (r: Limits)
        ensures
            r == (Limits { max_depth: None, max_packages: None }),
    {
        Limits { max_depth: None, max_packages: None }
    }

    /// At most five re-export steps and fifty names.
    pub fn bounded() -> (r: Limits)
        ensures
            r == (Limits { max_depth: Some(5usize), max_packages: Some(50usize) }),
    {
        Limits { max_depth: Some(5), max_packages: Some(50) }
    }

    /// Whether a name at `depth` steps from the requested package may be
    /// queued when `queued` names are queued already.
    pub open spec fn allows(self, depth: usize, queued: nat) -> bool {
        &&& self.max_depth matches Some(d) ==> depth <= d
        &&& self.max_packages matches Some(m) ==> queued < m
    }

    /// Whether a name at `depth` steps from the requested package may be
    /// queued when `queued` names are queued already.
    pub fn permits(&self, depth: usize, queued: usize) -> (r: bool)
        ensures
            r == self.allows(depth, queued as nat),
    {
        let depth_ok = match self.max_depth {
            Some(d) => depth <= d,
            None => true,
        };
        let count_ok = match self.max_packages {
            Some(m) => queued < m,
            None => true,
        };
        depth_ok && count_ok
    }
}

/// A package to index: a name and, where the caller asked for one, a
/// version.
#[derive(Debug, Clone, PartialEq, Eq)]
pub struct Request {
    pub name: String,
    pub version: Option<String>,
}

/// What a [`Request`] holds, as plain values.
pub struct RequestView {
    pub name: Seq<char>,
    pub version: Option<Seq<char>>,
}

impl View for Request {
    type V = RequestView;

    open spec fn view(&self) -> RequestView {
        RequestView { name: self.name@, version: crate::storage::opt_text(self.version) }
    }
}

/// A package to fetch: its name, its version and its key.
#[derive(Debug, Clone, PartialEq, Eq)]
pub struct Target {
    pub name: String,
    pub version: String,
    pub key: String,
}

/// What a [`Target`] holds, as plain values.
pub struct TargetView {
    pub name: Seq<char>,
    pub version: Seq<char>,
    pub key: Seq<char>,
}

impl View for Target {
    type V = TargetView;

    open spec fn view(&self) -> TargetView {
        TargetView { name: self.name@, version: self.version@, key: self.key@ }
    }
}

/// The state of a crawl, as plain values.
pub struct CrawlView {
    /// Every name that was ever queued, the requested one first.
    pub queued: Seq<Seq<char>>,
    /// The requests of the pending wave.
    pub frontier: Seq<RequestView>,
    /// How many re-export steps lie between the requested package and the
    /// names that are queued next.
    pub depth: usize,
    pub limits: Limits,
}

/// The names of a sequence of requests.
pub open spec fn request_names(requests: Seq<RequestView>) -> Seq<Seq<char>> {
    requests.map_values(|r: RequestView| r.name)
}

/// The state after the re-exported name `name` has been considered: it
/// joins the queue and the pending wave unless the limits forbid it or it
/// was queued before. What is stored plays no part: a name whose package
/// is stored is dropped when its wave is resolved.
pub open spec fn enqueue(s: CrawlView, name: Seq<char>) -> CrawlView {
    if s.limits.allows(s.depth, s.queued.len()) && !s.queued.contains(name) {
        CrawlView {
            queued: s.queued.push(name),
            frontier: s.frontier.push(RequestView { name: name, version: None }),
            ..s
        }
    } else {
        s
    }
}

/// The state after the re-exported names `names` have been considered in
/// order.
pub open spec fn enqueue_all(s: CrawlView, names: Seq<Seq<char>>) -> CrawlView
    decreases names.len(),
{
    if names.len() == 0 {
        s
    } else {
        enqueue(enqueue_all(s, names.drop_last()), names.last())
    }
}

/// The version that request `i` of a wave is resolved to: the version it
/// asked for, else the latest version found for it, if one was found.
pub open spec fn resolved_version(
    batch: Seq<RequestView>,
    latest: Seq<Option<Seq<char>>>,
    i: int,
) -> Option<Seq<char>> {
    match batch[i].version {
        Some(v) => Some(v),
        None => if i < latest.len() {
            latest[i]
        } else {
            None
        },
    }
}

/// The keys of a sequence of targets.
pub open spec fn target_keys(targets: Seq<TargetView>) -> Seq<Seq<char>> {
    targets.map_values(|t: TargetView| t.key)
}

/// The packages of a wave that are worth fetching, in the order of their
/// first request: a request without a version is dropped, and so is one
/// whose key is stored or was asked for earlier in the wave.
pub open spec fn wave_targets(
    keys: Seq<Seq<char>>,
    batch: Seq<RequestView>,
    latest: Seq<Option<Seq<char>>>,
    n: int,
) -> Seq<TargetView>
    decreases n,
{
    if n <= 0 {
        Seq::empty()
    } else {
        let rest = wave_targets(keys, batch, latest, n - 1);
        match resolved_version(batch, latest, n - 1) {
            Some(version) => {
                let name = batch[n - 1].name;
                let key = package_key(name, version);
                if keys.contains(key) || target_keys(rest).contains(key) {
                    rest
                } else {
                    rest.push(TargetView { name: name, version: version, key: key })
                }
            },
            None => rest,
        }
    }
}

/// The state after the pending wave has been handed out: no request is
/// pending, and the names queued from now on lie one step further from the
/// requested package.
pub open spec fn taken(s: CrawlView) -> CrawlView {
    CrawlView {
        frontier: Seq::empty(),
        depth: if s.depth < usize::MAX {
            (s.depth + 1) as usize
        } else {
            s.depth
        },
        ..s
    }
}

/// What happened outside the crawl.
#[derive(Debug, Clone, Copy, PartialEq, Eq)]
pub enum Event<'a> {
    /// The crawl is told to begin, or the results of a wave have all been
    /// committed.
    WaveDone,
    /// The latest versions of the requests of `batch` have been looked up:
    /// `latest` holds them in the order of the requests, with nothing for
    /// a request whose version could not be found or was not looked for.
    Resolved { batch: &'a Vec<Request>, latest: &'a Vec<Option<String>> },
    /// The package `key` has been fetched to `path` and indexed.
    Indexed { key: &'a str, path: &'a str, result: &'a IndexResult },
}

/// What the caller is to do next.
#[derive(Debug, PartialEq, Eq)]
pub enum Action {
    /// Look up the latest version of each request that names none, then
    /// report [`Event::Resolved`].
    Resolve(Vec<Request>),
    /// Fetch and index each target, report [`Event::Indexed`] for each
    /// that succeeds, then report [`Event::WaveDone`].
    Fetch(Vec<Target>),
    /// Go on with the results of the wave.
    Continue,
    /// Nothing is left to do.
    Finished,
}

/// What an [`Action`] holds, as plain values.
pub enum ActionView {
    Resolve(Seq<RequestView>),
    Fetch(Seq<TargetView>),
    Continue,
    Finished,
}

impl View for Action {
    type V = ActionView;

    open spec fn view(&self) -> ActionView {
        match self {
            Action::Resolve(batch) => ActionView::Resolve(row_views(batch@)),
            Action::Fetch(targets) => ActionView::Fetch(row_views(targets@)),
            Action::Continue => ActionView::Continue,
            Action::Finished => ActionView::Finished,
        }
    }
}

/// The state and the action when a wave is over: with nothing pending the
/// crawl is finished; otherwise the pending wave is handed out to be
/// resolved.
pub open spec fn next_wave(s: CrawlView) -> (CrawlView, ActionView) {
    if s.frontier.len() == 0 {
        (s, ActionView::Finished)
    } else {
        (taken(s), ActionView::Resolve(s.frontier))
    }
}

/// No name is queued twice, and every pending request was queued.
pub open spec fn crawl_wf(s: CrawlView) -> bool {
    &&& s.queued.no_duplicates()
    &&& forall|i: int|
        0 <= i < s.frontier.len() ==> s.queued.contains(#[trigger] s.frontier[i].name)
    &&& request_names(s.frontier).no_duplicates()
}

/// Considering a re-exported name keeps the queue free of repetitions, and
/// what joins the pending wave is exactly what joins the queue.
pub proof fn lemma_enqueue(s: CrawlView, name: Seq<char>)
    requires
        crawl_wf(s),
    ensures
        crawl_wf(enqueue(s, name)),
        enqueue(s, name).depth == s.depth,
        enqueue(s, name).limits == s.limits,
        s.queued.len() <= enqueue(s, name).queued.len(),
        enqueue(s, name).frontier.len() - s.frontier.len() == enqueue(
            s,
            name,
        ).queued.len() - s.queued.len(),
        s.queued == enqueue(s, name).queued.take(s.queued.len() as int),
        s.frontier == enqueue(s, name).frontier.take(s.frontier.len() as int),
        request_names(enqueue(s, name).frontier.skip(s.frontier.len() as int)) == enqueue(
            s,
            name,
        ).queued.skip(s.queued.len() as int),
{
    let t = enqueue(s, name);
    if t != s {
        assert(t.queued == s.queued.push(name));
        assert(t.frontier == s.frontier.push(RequestView { name: name, version: None }));
        assert forall|i: int, j: int|
            0 <= i < t.queued.len() && 0 <= j < t.queued.len() && i != j implies t.queued[i]
            != t.queued[j] by {
            if i == s.queued.len() {
                assert(s.queued[j] != name);
            } else if j == s.queued.len() {
                assert(s.queued[i] != name);
            }
        }
        assert forall|i: int| 0 <= i < t.frontier.len() implies t.queued.contains(
            #[trigger] t.frontier[i].name,
        ) by {
            if i < s.frontier.len() {
                let k = choose|k: int| 0 <= k < s.queued.len() && s.queued[k] == s.frontier[i].name;
                assert(t.queued[k] == s.frontier[i].name);
            } else {
                assert(t.queued[s.queued.len() as int] == name);
            }
        }
        let fn_t = request_names(t.frontier);
        assert forall|i: int, j: int|
            0 <= i < fn_t.len() && 0 <= j < fn_t.len() && i != j implies fn_t[i] != fn_t[j] by {
            let fn_s = request_names(s.frontier);
            if i < s.frontier.len() && j < s.frontier.len() {
                assert(fn_s[i] != fn_s[j]);
            } else if i < s.frontier.len() {
                assert(s.queued.contains(s.frontier[i].name));
            } else {
                assert(s.queued.contains(s.frontier[j].name));
            }
        }
        assert(s.queued =~= t.queued.take(s.queued.len() as int));
        assert(s.frontier =~= t.frontier.take(s.frontier.len() as int));
        assert(request_names(t.frontier.skip(s.frontier.len() as int)) =~= t.queued.skip(
            s.queued.len() as int,
        ));
    } else {
        assert(s.queued =~= t.queued.take(s.queued.len() as int));
        assert(s.frontier =~= t.frontier.take(s.frontier.len() as int));
        assert(request_names(t.frontier.skip(s.frontier.len() as int)) =~= t.queued.skip(
            s.queued.len() as int,
        ));
    }
}

/// However many packages re-export a name, and however often, the name is
/// queued at most once in a crawl: considering re-exported names never
/// repeats a name in the queue, and the requests that join the pending
/// wave are exactly the names that join the queue.
pub proof fn law_queued_at_most_once(s: CrawlView, names: Seq<Seq<char>>)
    requires
        crawl_wf(s),
    ensures
        crawl_wf(enqueue_all(s, names)),
        enqueue_all(s, names).depth == s.depth,
        enqueue_all(s, names).limits == s.limits,
        s.queued.len() <= enqueue_all(s, names).queued.len(),
        enqueue_all(s, names).frontier.len() - s.frontier.len() == enqueue_all(
            s,
            names,
        ).queued.len() - s.queued.len(),
        s.queued == enqueue_all(s, names).queued.take(s.queued.len() as int),
        s.frontier == enqueue_all(s, names).frontier.take(s.frontier.len() as int),
        request_names(enqueue_all(s, names).frontier.skip(s.frontier.len() as int))
            == enqueue_all(s, names).queued.skip(s.queued.len() as int),
    decreases names.len(),
{
    let t = enqueue_all(s, names);
    if names.len() == 0 {
        assert(s.queued =~= t.queued.take(s.queued.len() as int));
        assert(s.frontier =~= t.frontier.take(s.frontier.len() as int));
        assert(request_names(t.frontier.skip(s.frontier.len() as int)) =~= t.queued.skip(
            s.queued.len() as int,
        ));
    } else {
        let m = enqueue_all(s, names.drop_last());
        law_queued_at_most_once(s, names.drop_last());
        lemma_enqueue(m, names.last());
        assert(s.queued =~= t.queued.take(s.queued.len() as int));
        assert(s.frontier =~= t.frontier.take(s.frontier.len() as int));
        let a = request_names(t.frontier.skip(s.frontier.len() as int));
        let b = t.queued.skip(s.queued.len() as int);
        let am = request_names(m.frontier.skip(s.frontier.len() as int));
        let bm = m.queued.skip(s.queued.len() as int);
        let at = request_names(t.frontier.skip(m.frontier.len() as int));
        let bt = t.queued.skip(m.queued.len() as int);
        assert(am.len() == bm.len());
        assert(at.len() == bt.len());
        assert(a.len() == b.len());
        assert forall|i: int| 0 <= i < a.len() implies a[i] == b[i] by {
            let fi = s.frontier.len() + i;
            let qi = s.queued.len() + i;
            assert(a[i] == t.frontier[fi].name);
            assert(b[i] == t.queued[qi]);
            if i < am.len() {
                assert(m.frontier[fi] == m.frontier.take(m.frontier.len() as int)[fi]);
                assert(t.frontier.take(m.frontier.len() as int)[fi] == t.frontier[fi]);
                assert(t.queued.take(m.queued.len() as int)[qi] == t.queued[qi]);
                assert(am[i] == m.frontier[fi].name);
                assert(bm[i] == m.queued[qi]);
            } else {
                assert(at[i - am.len()] == t.frontier[fi].name);
                assert(bt[i - bm.len()] == t.queued[qi]);
            }
        }
        assert(a =~= b);
    }
}

/// What was queued stays queued.
pub proof fn lemma_enqueue_all_keeps(s: CrawlView, names: Seq<Seq<char>>, name: Seq<char>)
    requires
        s.queued.contains(name),
    ensures
        enqueue_all(s, names).queued.contains(name),
    decreases names.len(),
{
    if names.len() > 0 {
        lemma_enqueue_all_keeps(s, names.drop_last(), name);
        let m = enqueue_all(s, names.drop_last());
        let k = choose|k: int| 0 <= k < m.queued.len() && m.queued[k] == name;
        assert(enqueue(m, names.last()).queued[k] == name);
    }
}

/// Without limits every re-exported name is queued once it has been
/// considered, whatever the catalog holds: if it was not queued before, it
/// is queued now. No package that the requested one reaches through
/// re-exports is left out of the crawl.
pub proof fn law_every_reexport_is_queued(s: CrawlView, names: Seq<Seq<char>>, i: int)
    requires
        s.limits.max_depth.is_none(),
        s.limits.max_packages.is_none(),
        0 <= i < names.len(),
    ensures
        enqueue_all(s, names).queued.contains(names[i]),
    decreases names.len(),
{
    let m = enqueue_all(s, names.drop_last());
    let t = enqueue_all(s, names);
    if i < names.len() - 1 {
        law_every_reexport_is_queued(s, names.drop_last(), i);
        let k = choose|k: int| 0 <= k < m.queued.len() && m.queued[k] == names.drop_last()[i];
        assert(t.queued[k] == names[i]);
    } else {
        lemma_limits_kept(s, names.drop_last());
        if m.queued.contains(names.last()) {
            assert(t == m);
        } else {
            assert(t.queued[m.queued.len() as int] == names.last());
        }
    }
}

/// Considering re-exported names changes neither the limits nor the depth.
pub proof fn lemma_limits_kept(s: CrawlView, names: Seq<Seq<char>>)
    ensures
        enqueue_all(s, names).limits == s.limits,
        enqueue_all(s, names).depth == s.depth,
    decreases names.len(),
{
    if names.len() > 0 {
        lemma_limits_kept(s, names.drop_last());
    }
}

/// Once a limit is reached, considering re-exported names changes nothing:
/// beyond the depth limit, or with as many names queued as the size limit
/// allows, no name joins the queue.
pub proof fn law_limits_stop_expansion(s: CrawlView, names: Seq<Seq<char>>)
    requires
        !s.limits.allows(s.depth, s.queued.len()),
    ensures
        enqueue_all(s, names) == s,
    decreases names.len(),
{
    if names.len() > 0 {
        law_limits_stop_expansion(s, names.drop_last());
    }
}

/// Under a size limit the queue never grows beyond the limit, whatever is
/// re-exported.
pub proof fn law_size_limit_bounds_queue(
    s: CrawlView,
    names: Seq<Seq<char>>,
    limit: usize,
)
    requires
        s.limits.max_packages == Some(limit),
        s.queued.len() <= limit || s.queued.len() <= 1,
    ensures
        enqueue_all(s, names).queued.len() <= limit || enqueue_all(s, names).queued.len()
            <= 1,
        enqueue_all(s, names).limits == s.limits,
        enqueue_all(s, names).depth == s.depth,
    decreases names.len(),
{
    if names.len() > 0 {
        law_size_limit_bounds_queue(s, names.drop_last(), limit);
    }
}

/// The packages of a wave that are worth fetching have distinct keys, none
/// of them stored.
pub proof fn law_targets_are_new(
    keys: Seq<Seq<char>>,
    batch: Seq<RequestView>,
    latest: Seq<Option<Seq<char>>>,
    n: int,
)
    ensures
        target_keys(wave_targets(keys, batch, latest, n)).no_duplicates(),
        forall|i: int|
            0 <= i < wave_targets(keys, batch, latest, n).len() ==> !keys.contains(
                #[trigger] wave_targets(keys, batch, latest, n)[i].key,
            ),
    decreases n,
{
    if n > 0 {
        law_targets_are_new(keys, batch, latest, n - 1);
        let rest = wave_targets(keys, batch, latest, n - 1);
        let all = wave_targets(keys, batch, latest, n);
        if all != rest {
            let tk = target_keys(all);
            let rk = target_keys(rest);
            assert forall|i: int, j: int|
                0 <= i < tk.len() && 0 <= j < tk.len() && i != j implies tk[i] != tk[j] by {
                if i < rest.len() && j < rest.len() {
                    assert(rk[i] != rk[j]);
                } else if i < rest.len() {
                    assert(rk[i] == tk[i]);
                } else {
                    assert(rk[j] == tk[j]);
                }
            }
        }
    }
}

/// A crawl in progress.
pub struct Crawl {
    queued: Vec<String>,
    frontier: Vec<Request>,
    depth: usize,
    limits: Limits,
}

impl View for Crawl {
    type V = CrawlView;

    closed spec fn view(&self) -> CrawlView {
        CrawlView {
            queued: texts(self.queued@),
            frontier: row_views(self.frontier@),
            depth: self.depth,
            limits: self.limits,
        }
    }
}

impl Crawl {
    /// What holds of every crawl: no name is queued twice, and every
    /// pending request was queued.
    pub open spec fn wf(&self) -> bool {
        crawl_wf(self@)
    }

    #[verifier::type_invariant]
    spec fn inv(&self) -> bool {
        crawl_wf(
            CrawlView {
                queued: texts(self.queued@),
                frontier: row_views(self.frontier@),
                depth: self.depth,
                limits: self.limits,
            },
        )
    }

    /// A crawl that starts from the package `name`, at `version` where one
    /// is given and at its latest version otherwise.
    pub fn new(name: &str, version: Option<&str>, limits: Limits) -> (r: Crawl)
        ensures
            r.wf(),
            r@ == (CrawlView {
                queued: seq![name@],
                frontier: seq![
                    RequestView {
                        name: name@,
                        version: match version {
                            Some(v) => Some(v@),
                            None => None,
                        },
                    },
                ],
                depth: 0,
                limits: limits,
            }),
    {
        let mut queued: Vec<String> = Vec::new();
        queued.push(copy_str(name));
        let mut frontier: Vec<Request> = Vec::new();
        let version = match version {
            Some(v) => Some(copy_str(v)),
            None => None,
        };
        frontier.push(Request { name: copy_str(name), version });
        proof {
            assert(texts(queued@) =~= seq![name@]);
            assert(row_views(frontier@) =~= seq![
                RequestView {
                    name: name@,
                    version: match version {
                        Some(v) => Some(v@),
                        None => None,
                    },
                },
            ]);
            assert(texts(queued@).contains(row_views(frontier@)[0].name)) by {
                assert(texts(queued@)[0] == name@);
            }
            assert(request_names(row_views(frontier@)) =~= seq![name@]);
        }
        Crawl { queued, frontier, depth: 0, limits }
    }

    /// Whether no request is pending: the crawl has nothing left to do.
    pub fn is_done(&self) -> (r: bool)
        ensures
            self.wf(),
            r == (self@.frontier.len() == 0),
    {
        proof {
            use_type_invariant(&*self);
        }
        self.frontier.len() == 0
    }

    /// How many names were queued so far.
    pub fn queued_count(&self) -> (r: usize)
        ensures
            r == self@.queued.len(),
    {
        self.queued.len()
    }

    /// Hands out the pending wave. The names queued from now on lie one
    /// step further from the requested package.
    pub fn take_wave(&mut self) -> (r: Vec<Request>)
        ensures
            old(self).wf(),
            final(self).wf(),
            row_views(r@) == old(self)@.frontier,
            final(self)@ == taken(old(self)@),
    {
        proof {
            use_type_invariant(&*self);
        }
        let mut batch: Vec<Request> = Vec::new();
        assert(row_views(batch@) =~= Seq::<RequestView>::empty());
        assert(request_names(row_views(batch@)) =~= Seq::<Seq<char>>::empty());
        std::mem::swap(&mut batch, &mut self.frontier);
        if self.depth < usize::MAX {
            self.depth = self.depth + 1;
        }
        batch
    }

    /// Considers the re-exported name `name`.
    fn consider(&mut self, name: &str)
        ensures
            final(self)@ == enqueue(old(self)@, name@),
    {
        proof {
            use_type_invariant(&*self);
            lemma_enqueue(self@, name@);
        }
        if !self.limits.permits(self.depth, self.queued.len()) {
            return ;
        }
        if contains_text(&self.queued, name) {
            return ;
        }
        let mut frontier: Vec<Request> = Vec::new();
        let mut queued: Vec<String> = Vec::new();
        assert(row_views(frontier@) =~= Seq::<RequestView>::empty());
        assert(request_names(row_views(frontier@)) =~= Seq::<Seq<char>>::empty());
        assert(texts(queued@) =~= Seq::<Seq<char>>::empty());
        std::mem::swap(&mut frontier, &mut self.frontier);
        std::mem::swap(&mut queued, &mut self.queued);
        let ghost q = queued@;
        let ghost f = frontier@;
        queued.push(copy_str(name));
        frontier.push(Request { name: copy_str(name), version: None });
        assert(texts(queued@) =~= texts(q).push(name@));
        assert(row_views(frontier@) =~= row_views(f).push(
            RequestView { name: name@, version: None },
        ));
        self.queued = queued;
        self.frontier = frontier;
    }

    /// Commits one indexed package: the names it re-exports are considered
    /// for the next wave, in order, each joining it unless it was queued
    /// before in this crawl; then the package is stored under `key`, in
    /// place of whatever was stored there. Where the catalog refuses the package, nothing is stored and
    /// the crawl is to be given up.
    pub fn commit(&mut self, db: &mut Database, key: &str, path: &str, result: &IndexResult) -> (r:
        Result<(), StorageError>)
        ensures
            final(self).wf(),
            final(db).wf(),
            final(self)@ == enqueue_all(old(self)@, texts(result.reexported_crates@)),
            match rejection(old(db)@, key@, result.items@, texts(result.reexported_crates@)) {
                Some(e) => r == Err::<(), StorageError>(e) && final(db)@ == old(db)@,
                None => r.is_ok() && final(db)@ == replaced(
                    old(db)@,
                    PackageView {
                        key: key@,
                        path: path@,
                        items: result.items@,
                        reexports: texts(result.reexported_crates@),
                    },
                ),
            },
    {
        proof {
            use_type_invariant(&*self);
        }
        let names = &result.reexported_crates;
        let mut i: usize = 0;
        assert(texts(names@).take(0) =~= Seq::<Seq<char>>::empty());
        while i < names.len()
            invariant
                i <= names.len(),
                self@ == enqueue_all(old(self)@, texts(names@).take(i as int)),
            decreases names.len() - i,
        {
            let ghost n = texts(names@);
            assert(n.take(i + 1).drop_last() == n.take(i as int));
            assert(n.take(i + 1).last() == names@[i as int]@);
            self.consider(names[i].as_str());
            i += 1;
        }
        assert(texts(names@).take(names.len() as int) == texts(names@));
        proof {
            law_queued_at_most_once(old(self)@, texts(names@));
        }
        db.add_crate(key, path, &result.items, result.reexported_crates.as_slice())
    }
}

impl Crawl {
    /// The action when a wave is over.
    fn begin_wave(&mut self) -> (r: Action)
        ensures
            final(self).wf(),
            (final(self)@, r@) == next_wave(old(self)@),
    {
        if self.is_done() {
            Action::Finished
        } else {
            Action::Resolve(self.take_wave())
        }
    }

    /// One step of the crawl: takes what happened outside and says what to
    /// do next.
    ///
    /// When a wave is over, the pending wave is handed out to be resolved,
    /// or the crawl is finished. When a wave has been resolved, the
    /// packages worth fetching are handed out; with none, the wave is over.
    /// When a package has been indexed, it is committed as by
    /// [`Crawl::commit`]; a package that the catalog refuses ends the crawl
    /// with the catalog's error.
    pub fn step(&mut self, db: &mut Database, event: Event<'_>) -> (r: Result<
        Action,
        StorageError,
    >)
        ensures
            final(self).wf(),
            final(db).wf(),
            match event {
                Event::WaveDone => final(db)@ == old(db)@ && r.is_ok() && (final(self)@, r.unwrap()@)
                    == next_wave(old(self)@),
                Event::Resolved { batch, latest } => {
                    let targets = wave_targets(
                        stored_keys(old(db)@),
                        row_views(batch@),
                        latest@.map_values(|o: Option<String>| crate::storage::opt_text(o)),
                        batch@.len() as int,
                    );
                    final(db)@ == old(db)@ && r.is_ok() && if targets.len() > 0 {
                        final(self)@ == old(self)@ && r.unwrap()@ == ActionView::Fetch(targets)
                    } else {
                        (final(self)@, r.unwrap()@) == next_wave(old(self)@)
                    }
                },
                Event::Indexed { key, path, result } => {
                    &&& final(self)@ == enqueue_all(old(self)@, texts(result.reexported_crates@))
                    &&& match rejection(
                        old(db)@,
                        key@,
                        result.items@,
                        texts(result.reexported_crates@),
                    ) {
                        Some(e) => r == Err::<Action, StorageError>(e) && final(db)@ == old(db)@,
                        None => r == Ok::<Action, StorageError>(Action::Continue) && final(db)@
                            == replaced(
                            old(db)@,
                            PackageView {
                                key: key@,
                                path: path@,
                                items: result.items@,
                                reexports: texts(result.reexported_crates@),
                            },
                        ),
                    }
                },
            },
    {
        proof {
            use_type_invariant(&*self);
            use_type_invariant(&*db);
            db.lemma_inv();
        }
        match event {
            Event::WaveDone => Ok(self.begin_wave()),
            Event::Resolved { batch, latest } => {
                let targets = resolve_wave(db, batch, latest);
                if targets.len() > 0 {
                    Ok(Action::Fetch(targets))
                } else {
                    Ok(self.begin_wave())
                }
            },
            Event::Indexed { key, path, result } => {
                match self.commit(db, key, path, result) {
                    Ok(()) => Ok(Action::Continue),
                    Err(e) => Err(e),
                }
            },
        }
    }
}

/// The key of each target, if `key` is among them.
fn has_target(targets: &Vec<Target>, key: &str) -> (r: bool)
    ensures
        r == target_keys(row_views(targets@)).contains(key@),
{
    let mut i: usize = 0;
    while i < targets.len()
        invariant
            i <= targets.len(),
            forall|k: int| 0 <= k < i ==> target_keys(row_views(targets@))[k] != key@,
        decreases targets.len() - i,
    {
        if *targets[i].key.as_str() == *key {
            assert(target_keys(row_views(targets@))[i as int] == key@);
            return true;
        }
        i += 1;
    }
    false
}

/// The packages of the wave `batch` that are worth fetching. `latest`
/// holds, for each request in turn, the latest version found for its name,
/// or nothing where none was found or none was looked for. A request
/// without a version is dropped; so is one whose key is stored in `db`, and
/// one whose key was asked for earlier in the wave.
pub fn resolve_wave(db: &Database, batch: &Vec<Request>, latest: &Vec<Option<String>>) -> (r: Vec<
    Target,
>)
    ensures
        row_views(r@) == wave_targets(
            stored_keys(db@),
            row_views(batch@),
            latest@.map_values(|o: Option<String>| crate::storage::opt_text(o)),
            batch@.len() as int,
        ),
{
    let ghost keys = stored_keys(db@);
    let ghost b = row_views(batch@);
    let ghost l = latest@.map_values(|o: Option<String>| crate::storage::opt_text(o));
    let mut out: Vec<Target> = Vec::new();
    let mut i: usize = 0;
    assert(row_views(out@) =~= wave_targets(keys, b, l, 0));
    while i < batch.len()
        invariant
            i <= batch.len(),
            keys == stored_keys(db@),
            b == row_views(batch@),
            l == latest@.map_values(|o: Option<String>| crate::storage::opt_text(o)),
            row_views(out@) == wave_targets(keys, b, l, i as int),
        decreases batch.len() - i,
    {
        let version: Option<String> = match &batch[i].version {
            Some(v) => Some(v.clone()),
            None => if i < latest.len() {
                match &latest[i] {
                    Some(v) => Some(v.clone()),
                    None => None,
                }
            } else {
                None
            },
        };
        assert(crate::storage::opt_text(version) == resolved_version(b, l, i as int));
        match version {
            Some(v) => {
                let key = make_key(batch[i].name.as_str(), v.as_str());
                let stored = db.contains_key(key.as_str());
                proof {
                    if has_key(db@, key@) {
                        let c = choose|c: int| 0 <= c < db@.len() && #[trigger] db@[c].key == key@;
                        assert(keys[c] == key@);
                    }
                    if keys.contains(key@) {
                        let c = choose|c: int| 0 <= c < keys.len() && keys[c] == key@;
                        assert(db@[c].key == key@);
                    }
                }
                if !stored && !has_target(&out, key.as_str()) {
                    let ghost before = out@;
                    let t = Target { name: batch[i].name.clone(), version: v, key };
                    out.push(t);
                    assert(row_views(out@) =~= row_views(before).push(t@));
                }
            },
            None => {},
        }
        i += 1;
    }
    out
}

} // verus!
