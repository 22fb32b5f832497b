//! The set of open tabs: which of them hold a live content webview, which
//! one is active, their least-recently-used order, their URLs and which of
//! them have developer tools open.
use std::collections::HashMap;
use std::collections::HashSet;
use std::collections::VecDeque;
use vstd::prelude::*;
use vstd::std_specs::iter::IteratorSpec;
use crate::order::{without, option_set, used_before, lemma_without_contains, lemma_without_empty, lemma_without_without, lemma_without_take_next, lemma_used_before_without};
use crate::platform::Platform;

verus! {

broadcast use {
    vstd::std_specs::hash::group_hash_axioms,
    vstd::std_specs::vecdeque::group_vec_dequeue_axioms,
    vstd::string::group_string_axioms,
    vstd::seq_lib::group_seq_properties,
};

/// Most tabs that may be open at once.
pub const MAX_TABS: usize = 10;

/// Most background tabs (tabs other than the active one) that keep a live
/// webview: beyond this, the least recently used of them lose theirs.
pub const LRU_THRESHOLD: usize = 3;

/// What a pool holds, as mathematical values.
pub struct PoolView {
    pub platform: Platform,
    /// Tabs whose embedded content webview is alive.
    pub webviews: Set<i32>,
    pub active: Option<i32>,
    /// Least recently used first, most recently used last.
    pub lru: Seq<i32>,
    pub urls: Map<i32, Seq<char>>,
    pub devtools: Set<i32>,
}

impl PoolView {
    /// Finitely many webviews, none at all on Linux, and each of them
    /// placed in the LRU order.
    pub open spec fn wf_core(self) -> bool {
        &&& self.webviews.finite()
        &&& self.urls.dom().finite()
        &&& self.platform.spec_is_linux() ==> self.webviews.is_empty()
        &&& forall|id: i32| #[trigger] self.webviews.contains(id) ==> self.lru.contains(id)
    }

    /// What every public operation of the pool keeps: `wf_core`, and never
    /// more live webviews than `LRU_THRESHOLD` background ones and the
    /// active tab's.
    pub open spec fn wf(self) -> bool {
        &&& self.wf_core()
        &&& self.webviews.len() <= LRU_THRESHOLD + 1
    }

    /// The tabs other than the active one that hold a live webview.
    pub open spec fn background(self) -> Set<i32> {
        self.webviews.difference(option_set(self.active))
    }

    /// A tab whose webview may be destroyed to make room: it has one and
    /// it is not the active tab.
    pub open spec fn evictable(self, id: i32) -> bool {
        self.webviews.contains(id) && self.active != Some(id)
    }

    /// The same pool with another LRU order.
    pub open spec fn with_lru(self, lru: Seq<i32>) -> PoolView {
        PoolView { lru, ..self }
    }
}

/// `post` is `pre` after destroying the webviews `gone`, the least recently
/// used ones that are not active, until at most `LRU_THRESHOLD` background
/// webviews are left.
pub open spec fn evicts(pre: PoolView, post: PoolView, gone: Seq<i32>) -> bool {
    &&& post.platform == pre.platform
    &&& post.active == pre.active
    &&& post.urls == pre.urls
    &&& post.devtools == pre.devtools
    &&& gone.no_duplicates()
    &&& gone.to_set() == pre.webviews.difference(post.webviews)
    &&& post.webviews.subset_of(pre.webviews)
    &&& post.lru == without(pre.lru, gone.to_set())
    &&& pre.background().len() <= LRU_THRESHOLD ==> post.webviews == pre.webviews
    &&& pre.background().len() > LRU_THRESHOLD ==> post.background().len() == LRU_THRESHOLD
    &&& forall|r: i32| #[trigger] gone.contains(r) ==> pre.active != Some(r)
    &&& forall|r: i32, k: i32|
        #[trigger] gone.contains(r) && #[trigger] post.evictable(k) ==> used_before(pre.lru, r, k)
    &&& forall|i: int, j: int|
        0 <= i < j < gone.len() ==> used_before(pre.lru, #[trigger] gone[i], #[trigger] gone[j])
}

/// The URL map with each URL taken by its characters.
pub open spec fn url_view(m: Map<i32, String>) -> Map<i32, Seq<char>> {
    m.map_values(|s: String| s@)
}

/// The tabs of the browser window and their webviews.
pub struct WebViewPool {
    platform: Platform,
    webviews: HashSet<i32>,
    active_tab_id: Option<i32>,
    lru_order: VecDeque<i32>,
    tab_urls: HashMap<i32, String>,
    devtools_open: HashSet<i32>,
}

impl View for WebViewPool {
    type V = PoolView;

    closed spec fn view(&self) -> PoolView {
        PoolView {
            platform: self.platform,
            webviews: self.webviews@,
            active: self.active_tab_id,
            lru: self.lru_order@,
            urls: url_view(self.tab_urls@),
            devtools: self.devtools_open@,
        }
    }
}

/// `q` without any occurrence of `id`.
fn without_id(q: &VecDeque<i32>, id: i32) -> (r: VecDeque<i32>)
    ensures
        r@ == without(q@, set![id]),
{
    let mut r: VecDeque<i32> = VecDeque::new();
    let n = q.len();
    let mut j: usize = 0;
    while j < n
        invariant
            n == q@.len(),
            j <= n,
            r@ == without(q@.take(j as int), set![id]),
        decreases n - j,
    {
        let x = q[j];
        proof {
            lemma_without_take_next(q@, set![id], j as int);
        }
        if x != id {
            r.push_back(x);
        }
        j += 1;
    }
    proof {
        assert(q@.take(n as int) =~= q@);
    }
    r
}

/// A finite set of at least two ids holds one that differs from `a`.
proof fn lemma_other_member(s: Set<i32>, a: i32)
    requires
        s.finite(),
        s.len() >= 2,
    ensures
        exists|k: i32| s.contains(k) && k != a,
{
    if forall|k: i32| s.contains(k) ==> k == a {
        assert(s.subset_of(set![a]));
        vstd::set_lib::lemma_len_subset(s, set![a]);
    }
}

/// A finite set has at most one element more than its part outside `option_set(a)`.
proof fn lemma_background_len(s: Set<i32>, a: Option<i32>)
    requires
        s.finite(),
    ensures
        s.difference(option_set(a)).finite(),
        s.difference(option_set(a)).len() <= s.len() <= s.difference(option_set(a)).len() + 1,
        (a is Some && s.contains(a->0)) ==> s.difference(option_set(a)) == s.remove(a->0),
        !(a is Some && s.contains(a->0)) ==> s.difference(option_set(a)) == s,
{
    if a is Some && s.contains(a->0) {
        assert(s.difference(option_set(a)) =~= s.remove(a->0));
    } else {
        assert(s.difference(option_set(a)) =~= s);
    }
}

impl WebViewPool {
    /// An empty pool for `platform`.
    pub fn new(platform: Platform) -> (pool: Self)
        ensures
            pool@.wf(),
            pool@ == (PoolView {
                platform,
                webviews: Set::empty(),
                active: None,
                lru: Seq::empty(),
                urls: Map::empty(),
                devtools: Set::empty(),
            }),
    {
        let pool = WebViewPool {
            platform,
            webviews: HashSet::with_capacity(MAX_TABS),
            active_tab_id: None,
            lru_order: VecDeque::with_capacity(MAX_TABS),
            tab_urls: HashMap::with_capacity(MAX_TABS),
            devtools_open: HashSet::new(),
        };
        assert(url_view(pool.tab_urls@) =~= Map::empty());
        pool
    }

    pub fn platform(&self) -> (p: Platform)
        ensures
            p == self@.platform,
    {
        self.platform
    }

    pub fn active_tab_id(&self) -> (a: Option<i32>)
        ensures
            a == self@.active,
    {
        self.active_tab_id
    }

    /// Makes `active` the active tab, nothing else changes.
    pub(crate) fn set_active_tab_id(&mut self, active: Option<i32>)
        requires
            old(self)@.wf(),
        ensures
            final(self)@ == (PoolView { active, ..old(self)@ }),
            final(self)@.wf(),
    {
        self.active_tab_id = active;
    }

    /// The LRU order, least recently used first.
    pub fn lru_order(&self) -> (v: Vec<i32>)
        ensures
            v@ == self@.lru,
    {
        let mut v: Vec<i32> = Vec::new();
        let n = self.lru_order.len();
        let mut j: usize = 0;
        while j < n
            invariant
                n == self@.lru.len(),
                j <= n,
                v@ == self@.lru.take(j as int),
            decreases n - j,
        {
            v.push(self.lru_order[j]);
            j += 1;
            assert(v@ =~= self@.lru.take(j as int));
        }
        assert(self@.lru.take(n as int) =~= self@.lru);
        v
    }

    /// Whether `id` occurs in the LRU order.
    pub(crate) fn lru_contains(&self, id: i32) -> (b: bool)
        ensures
            b == self@.lru.contains(id),
    {
        let n = self.lru_order.len();
        let mut j: usize = 0;
        while j < n
            invariant
                n == self@.lru.len(),
                j <= n,
                forall|i: int| 0 <= i < j ==> self@.lru[i] != id,
            decreases n - j,
        {
            if self.lru_order[j] == id {
                return true;
            }
            j += 1;
        }
        false
    }

    /// The most recently used tab of the LRU order, if any.
    pub(crate) fn lru_back(&self) -> (b: Option<i32>)
        ensures
            b == (if self@.lru.len() == 0 {
                None::<i32>
            } else {
                Some(self@.lru.last())
            }),
    {
        let n = self.lru_order.len();
        if n == 0 {
            None
        } else {
            Some(self.lru_order[n - 1])
        }
    }

    /// The URL recorded for tab `id`.
    pub fn tab_url(&self, id: i32) -> (u: Option<String>)
        ensures
            match u {
                Some(s) => self@.urls.contains_key(id) && s@ == self@.urls[id],
                None => !self@.urls.contains_key(id),
            },
    {
        match self.tab_urls.get(&id) {
            Some(s) => Some(s.clone()),
            None => None,
        }
    }

    /// Whether tab `id` has a URL recorded, that is, is open.
    pub fn has_tab(&self, id: i32) -> (b: bool)
        ensures
            b == self@.urls.contains_key(id),
    {
        self.tab_urls.contains_key(&id)
    }

    /// How many tabs have a URL recorded.
    pub fn tab_count(&self) -> (n: usize)
        ensures
            n == self@.urls.len(),
    {
        assert(url_view(self.tab_urls@).dom() =~= self.tab_urls@.dom());
        self.tab_urls.len()
    }

    pub fn is_devtools_open(&self, id: i32) -> (b: bool)
        ensures
            b == self@.devtools.contains(id),
    {
        self.devtools_open.contains(&id)
    }

    /// Whether tab `id` has a live content webview.
    pub fn has_webview(&self, id: i32) -> (b: bool)
        ensures
            b == self@.webviews.contains(id),
    {
        self.webviews.contains(&id)
    }

    /// How many content webviews are alive.
    pub fn len(&self) -> (n: usize)
        ensures
            n == self@.webviews.len(),
    {
        self.webviews.len()
    }

    /// Records a tab with a live webview: it gets its URL and becomes the
    /// most recently used. The caller then evicts (`evict_lru`).
    pub(crate) fn insert(&mut self, tab_id: i32, url: &str)
        requires
            old(self)@.wf(),
            !old(self)@.platform.spec_is_linux(),
        ensures
            final(self)@.wf_core(),
            final(self)@ == (PoolView {
                webviews: old(self)@.webviews.insert(tab_id),
                urls: old(self)@.urls.insert(tab_id, url@),
                lru: old(self)@.lru.push(tab_id),
                ..old(self)@
            }),
    {
        let ghost m = self.tab_urls@;
        let u = url.to_string();
        self.webviews.insert(tab_id);
        self.tab_urls.insert(tab_id, u);
        self.lru_order.push_back(tab_id);
        assert(url_view(self.tab_urls@) =~= url_view(m).insert(tab_id, url@));
        assert(self.lru_order@.contains(tab_id)) by {
            assert(self.lru_order@[self.lru_order@.len() - 1] == tab_id);
        }
        assert forall|id: i32| #[trigger] self.webviews@.contains(id) implies self.lru_order@.contains(id) by {
            if id != tab_id {
                let i = choose|i: int| 0 <= i < old(self)@.lru.len() && old(self)@.lru[i] == id;
                assert(self.lru_order@[i] == id);
            }
        }
    }

    /// Records a tab without a webview (the Linux way): it gets its URL and
    /// becomes the most recently used.
    pub fn insert_tab_only(&mut self, tab_id: i32, url: &str)
        requires
            old(self)@.wf(),
        ensures
            final(self)@.wf(),
            final(self)@ == (PoolView {
                urls: old(self)@.urls.insert(tab_id, url@),
                lru: old(self)@.lru.push(tab_id),
                ..old(self)@
            }),
    {
        let ghost m = self.tab_urls@;
        let u = url.to_string();
        self.tab_urls.insert(tab_id, u);
        self.lru_order.push_back(tab_id);
        assert(url_view(self.tab_urls@) =~= url_view(m).insert(tab_id, url@));
        assert forall|id: i32| #[trigger] self.webviews@.contains(id) implies self.lru_order@.contains(id) by {
            let i = choose|i: int| 0 <= i < old(self)@.lru.len() && old(self)@.lru[i] == id;
            assert(self.lru_order@[i] == id);
        }
    }

    /// Records `url` as the URL of tab `tab_id`.
    pub(crate) fn set_tab_url(&mut self, tab_id: i32, url: &str)
        requires
            old(self)@.wf(),
        ensures
            final(self)@.wf(),
            final(self)@ == (PoolView { urls: old(self)@.urls.insert(tab_id, url@), ..old(self)@ }),
    {
        let ghost m = self.tab_urls@;
        let u = url.to_string();
        self.tab_urls.insert(tab_id, u);
        assert(url_view(self.tab_urls@) =~= url_view(m).insert(tab_id, url@));
    }

    /// Adds `tab_id` at the most recently used end of the LRU order.
    pub(crate) fn push_lru(&mut self, tab_id: i32)
        requires
            old(self)@.wf(),
        ensures
            final(self)@.wf(),
            final(self)@ == old(self)@.with_lru(old(self)@.lru.push(tab_id)),
    {
        self.lru_order.push_back(tab_id);
        assert forall|id: i32| #[trigger] self.webviews@.contains(id) implies self.lru_order@.contains(id) by {
            let i = choose|i: int| 0 <= i < old(self)@.lru.len() && old(self)@.lru[i] == id;
            assert(self.lru_order@[i] == id);
        }
        assert(self@ =~= old(self)@.with_lru(old(self)@.lru.push(tab_id)));
    }

    /// Records that tab `tab_id` has its developer tools open.
    pub(crate) fn open_devtools_record(&mut self, tab_id: i32)
        requires
            old(self)@.wf(),
        ensures
            final(self)@.wf(),
            final(self)@ == (PoolView { devtools: old(self)@.devtools.insert(tab_id), ..old(self)@ }),
    {
        self.devtools_open.insert(tab_id);
    }

    /// Records that tab `tab_id` has its developer tools closed.
    pub(crate) fn close_devtools_record(&mut self, tab_id: i32)
        requires
            old(self)@.wf(),
        ensures
            final(self)@.wf(),
            final(self)@ == (PoolView { devtools: old(self)@.devtools.remove(tab_id), ..old(self)@ }),
    {
        self.devtools_open.remove(&tab_id);
    }

    /// Forgets the URL of tab `tab_id` and takes it out of the LRU order; its
    /// webview, if any, stays.
    pub(crate) fn forget_tab(&mut self, tab_id: i32)
        requires
            old(self)@.wf(),
            old(self)@.platform.spec_is_linux(),
        ensures
            final(self)@.wf(),
            final(self)@ == (PoolView {
                urls: old(self)@.urls.remove(tab_id),
                lru: without(old(self)@.lru, set![tab_id]),
                ..old(self)@
            }),
    {
        let ghost m = self.tab_urls@;
        self.tab_urls.remove(&tab_id);
        self.lru_order = without_id(&self.lru_order, tab_id);
        assert(url_view(self.tab_urls@) =~= url_view(m).remove(tab_id));
    }

    /// Closes tab `tab_id` for good: it leaves every record of the pool,
    /// and stops being the active tab. Tells whether it had a webview.
    pub fn remove(&mut self, tab_id: i32) -> (had_webview: bool)
        requires
            old(self)@.wf(),
        ensures
            final(self)@.wf(),
            had_webview == old(self)@.webviews.contains(tab_id),
            final(self)@ == (PoolView {
                platform: old(self)@.platform,
                webviews: old(self)@.webviews.remove(tab_id),
                active: if old(self)@.active == Some(tab_id) {
                    None
                } else {
                    old(self)@.active
                },
                lru: without(old(self)@.lru, set![tab_id]),
                urls: old(self)@.urls.remove(tab_id),
                devtools: old(self)@.devtools.remove(tab_id),
            }),
    {
        let ghost m = self.tab_urls@;
        match self.active_tab_id {
            Some(a) => {
                if a == tab_id {
                    self.active_tab_id = None;
                }
            },
            None => {},
        }
        self.lru_order = without_id(&self.lru_order, tab_id);
        self.tab_urls.remove(&tab_id);
        self.devtools_open.remove(&tab_id);
        let had = self.webviews.remove(&tab_id);
        assert(url_view(self.tab_urls@) =~= url_view(m).remove(tab_id));
        assert forall|id: i32| #[trigger] self.webviews@.contains(id) implies self.lru_order@.contains(id) by {
            lemma_without_contains(old(self)@.lru, set![tab_id], id);
        }
        had
    }

    /// Marks tab `tab_id` as the most recently used.
    pub fn touch_lru(&mut self, tab_id: i32)
        requires
            old(self)@.wf(),
        ensures
            final(self)@.wf(),
            final(self)@ == old(self)@.with_lru(without(old(self)@.lru, set![tab_id]).push(tab_id)),
    {
        self.lru_order = without_id(&self.lru_order, tab_id);
        self.lru_order.push_back(tab_id);
        assert forall|id: i32| #[trigger] self.webviews@.contains(id) implies self.lru_order@.contains(id) by {
            lemma_without_contains(old(self)@.lru, set![tab_id], id);
            if id == tab_id {
                assert(self.lru_order@[self.lru_order@.len() - 1] == id);
            } else {
                let w = without(old(self)@.lru, set![tab_id]);
                let i = choose|i: int| 0 <= i < w.len() && w[i] == id;
                assert(self.lru_order@[i] == id);
            }
        }
        assert(self@ =~= old(self)@.with_lru(without(old(self)@.lru, set![tab_id]).push(tab_id)));
    }

    /// How many background tabs hold a live webview.
    fn background_len(&self) -> (n: usize)
        requires
            self@.webviews.finite(),
        ensures
            n == self@.background().len(),
    {
        proof {
            lemma_background_len(self@.webviews, self@.active);
        }
        let n = self.webviews.len();
        match self.active_tab_id {
            Some(a) => {
                if self.webviews.contains(&a) {
                    n - 1
                } else {
                    n
                }
            },
            None => n,
        }
    }

    /// Index of the first tab of the LRU order whose webview may be destroyed.
    fn first_evictable(&self) -> (r: Option<usize>)
        ensures
            match r {
                Some(i) => {
                    &&& i < self@.lru.len()
                    &&& self@.evictable(self@.lru[i as int])
                    &&& forall|j: int| 0 <= j < i ==> !self@.evictable(#[trigger] self@.lru[j])
                },
                None => forall|j: int| 0 <= j < self@.lru.len() ==> !self@.evictable(#[trigger] self@.lru[j]),
            },
    {
        let n = self.lru_order.len();
        let mut j: usize = 0;
        while j < n
            invariant
                n == self@.lru.len(),
                j <= n,
                forall|i: int| 0 <= i < j ==> !self@.evictable(#[trigger] self@.lru[i]),
            decreases n - j,
        {
            let id = self.lru_order[j];
            let is_active = match self.active_tab_id {
                Some(a) => a == id,
                None => false,
            };
            if !is_active && self.webviews.contains(&id) {
                return Some(j);
            }
            j += 1;
        }
        None
    }

    /// Destroys the webviews of the least recently used tabs other than the
    /// active one until at most `LRU_THRESHOLD` of them are alive. Returns the tabs
    /// whose webview is to be closed, in the order they were chosen.
    pub fn evict_lru(&mut self) -> (gone: Vec<i32>)
        requires
            old(self)@.wf_core(),
        ensures
            final(self)@.wf(),
            evicts(old(self)@, final(self)@, gone@),
    {
        let ghost pre = self@;
        let mut gone: Vec<i32> = Vec::new();
        proof {
            lemma_without_empty(pre.lru);
            assert(gone@.to_set() =~= Set::empty());
            assert(gone@.to_set() =~= pre.webviews.difference(self@.webviews));
        }
        while self.background_len() > LRU_THRESHOLD
            invariant
                self@.wf_core(),
                pre.wf_core(),
                self@.platform == pre.platform,
                self@.active == pre.active,
                self@.urls == pre.urls,
                self@.devtools == pre.devtools,
                gone@.no_duplicates(),
                gone@.to_set() == pre.webviews.difference(self@.webviews),
                self@.webviews.subset_of(pre.webviews),
                self@.lru == without(pre.lru, gone@.to_set()),
                pre.background().len() <= LRU_THRESHOLD ==> self@.webviews == pre.webviews,
                pre.background().len() > LRU_THRESHOLD ==> self@.background().len() >= LRU_THRESHOLD,
                forall|r: i32| #[trigger] gone@.contains(r) ==> pre.active != Some(r),
                forall|r: i32, k: i32|
                    #[trigger] gone@.contains(r) && #[trigger] self@.evictable(k) ==> used_before(pre.lru, r, k),
                forall|i: int, j: int|
                    0 <= i < j < gone@.len() ==> used_before(pre.lru, #[trigger] gone@[i], #[trigger] gone@[j]),
            ensures
                self@.wf_core(),
                self@.platform == pre.platform,
                self@.active == pre.active,
                self@.urls == pre.urls,
                self@.devtools == pre.devtools,
                gone@.no_duplicates(),
                gone@.to_set() == pre.webviews.difference(self@.webviews),
                self@.webviews.subset_of(pre.webviews),
                self@.lru == without(pre.lru, gone@.to_set()),
                pre.background().len() <= LRU_THRESHOLD ==> self@.webviews == pre.webviews,
                pre.background().len() > LRU_THRESHOLD ==> self@.background().len() >= LRU_THRESHOLD,
                self@.background().len() <= LRU_THRESHOLD,
                forall|r: i32| #[trigger] gone@.contains(r) ==> pre.active != Some(r),
                forall|r: i32, k: i32|
                    #[trigger] gone@.contains(r) && #[trigger] self@.evictable(k) ==> used_before(pre.lru, r, k),
                forall|i: int, j: int|
                    0 <= i < j < gone@.len() ==> used_before(pre.lru, #[trigger] gone@[i], #[trigger] gone@[j]),
            decreases self@.webviews.len(),
        {
            proof {
                if pre.background().len() <= LRU_THRESHOLD {
                    vstd::set_lib::lemma_len_subset(self@.background(), pre.background());
                }
            }
            let found = self.first_evictable();
            match found {
                Some(i) => {
                    let id = self.lru_order[i];
                    let ghost cur = self@;
                    let ghost e = gone@.to_set();
                    proof {
                        assert forall|k: i32| #[trigger] cur.evictable(k) && k != id implies used_before(pre.lru, id, k) by {
                            assert(cur.lru.contains(k));
                            assert(!cur.lru.take(i as int).contains(k)) by {
                                if cur.lru.take(i as int).contains(k) {
                                    let m = choose|m: int| 0 <= m < i && cur.lru.take(i as int)[m] == k;
                                    assert(cur.lru[m] == k);
                                }
                            }
                            assert(used_before(cur.lru, id, k));
                            lemma_used_before_without(pre.lru, e, id, k);
                        }
                        lemma_without_without(pre.lru, e, set![id]);
                        assert(e.union(set![id]) =~= e.insert(id));
                    }
                    let ghost old_gone = gone@;
                    self.webviews.remove(&id);
                    self.lru_order = without_id(&self.lru_order, id);
                    gone.push(id);
                    proof {
                        assert(self@.background() =~= cur.background().remove(id));
                        assert(gone@.to_set() =~= e.insert(id));
                        assert(gone@.to_set() =~= pre.webviews.difference(self@.webviews));
                        assert forall|k: i32| #[trigger] self@.webviews.contains(k) implies self@.lru.contains(k) by {
                            lemma_without_contains(cur.lru, set![id], k);
                        }
                        assert forall|r: i32| #[trigger] gone@.contains(r) implies pre.active != Some(r) by {
                            if r != id {
                                assert(gone@.drop_last().contains(r)) by {
                                    let m = choose|m: int| 0 <= m < gone@.len() && gone@[m] == r;
                                    assert(gone@.drop_last()[m] == r);
                                }
                            }
                        }
                        assert forall|r: i32, k: i32|
                            #[trigger] gone@.contains(r) && #[trigger] self@.evictable(k) implies used_before(pre.lru, r, k) by {
                            assert(cur.evictable(k));
                            if r != id {
                                let m = choose|m: int| 0 <= m < gone@.len() && gone@[m] == r;
                                assert(gone@.drop_last()[m] == r);
                                assert(gone@.drop_last().contains(r));
                            }
                        }
                        assert forall|a: int, b: int|
                            0 <= a < b < gone@.len() implies used_before(pre.lru, #[trigger] gone@[a], #[trigger] gone@[b]) by {
                            assert(old_gone[a] == gone@[a]);
                            if b < gone@.len() - 1 {
                                assert(old_gone[b] == gone@[b]);
                            } else {
                                assert(old_gone.contains(old_gone[a]));
                                assert(cur.evictable(id));
                            }
                        }
                        assert(gone@.no_duplicates()) by {
                            assert(!gone@.drop_last().contains(id)) by {
                                if gone@.drop_last().contains(id) {
                                    assert(e.contains(id));
                                }
                            }
                        }
                    }
                },
                None => {
                    proof {
                        if self@.background().len() > LRU_THRESHOLD {
                            lemma_background_len(self@.webviews, self@.active);
                            lemma_other_member(self@.background(), 0);
                            let k = choose|k: i32| self@.background().contains(k) && k != 0;
                            assert(self@.evictable(k));
                            assert(self@.lru.contains(k));
                            let j = choose|j: int| 0 <= j < self@.lru.len() && self@.lru[j] == k;
                            assert(!self@.evictable(self@.lru[j]));
                        }
                    }
                    break;
                },
            }
        }
        proof {
            lemma_background_len(self@.webviews, self@.active);
        }
        gone
    }

    /// The tabs that have a live webview, each once.
    pub fn webview_ids(&self) -> (ids: Vec<i32>)
        ensures
            ids@.no_duplicates(),
            ids@.to_set() == self@.webviews,
    {
        let mut ids: Vec<i32> = Vec::new();
        let ghost keys = vstd::std_specs::hash::spec_hash_keys_iter(&self.webviews).remaining();
        for id in it: self.webviews.iter()
            invariant
                it.seq() == keys,
                ids@.len() == it.index(),
                forall|i: int| 0 <= i < it.index() ==> ids@[i] == *it.seq()[i],
        {
            ids.push(*id);
        }
        assert(ids@ =~= keys.unref());
        ids
    }
}

} // verus!
