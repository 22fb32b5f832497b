//! What each browser command decides, given the pool: how the pool
//! changes, and which window work the application is to do.
use vstd::prelude::*;
use vstd::string::StringExecFns;
use crate::order::{without, option_set, ids_without, lemma_without_contains, lemma_without_no_duplicates};
use crate::pool::{evicts, PoolView, WebViewPool, MAX_TABS};
use crate::text::{concat, decimal, escape_quotes, i32_decimal, push_escaped, same_text};
use crate::web_url::{parse_url, url_parse_outcome};

verus! {

/// Error text when no more tabs may be created.
pub open spec fn tab_limit_message() -> Seq<char> {
    "达到最大标签数量限制 ("@ + i32_decimal(MAX_TABS as i32) + ")"@
}

/// Error text when the URL of a new tab does not parse.
pub open spec fn url_error_message(error: Seq<char>) -> Seq<char> {
    "URL 解析失败: "@ + error
}

/// The label of the embedded webview of tab `tab_id`.
pub open spec fn webview_label(tab_id: i32) -> Seq<char> {
    "content-"@ + i32_decimal(tab_id)
}

/// The script that sends a webview to `url`.
pub open spec fn navigation_script(url: Seq<char>) -> Seq<char> {
    "window.location.href = '"@ + escape_quotes(url) + "';"@
}

/// Whether a recorded URL is worth navigating to: neither empty nor the
/// blank page.
pub open spec fn is_real_page(url: Seq<char>) -> bool {
    url.len() != 0 && url != "about:blank"@
}

/// The URL recorded for `id`, the empty text when there is none.
pub open spec fn url_or_empty(v: PoolView, id: i32) -> Seq<char> {
    if v.urls.contains_key(id) {
        v.urls[id]
    } else {
        Seq::empty()
    }
}

/// Builds the script that sends a webview to `url`.
pub fn make_navigation_script(url: &str) -> (s: String)
    ensures
        s@ == navigation_script(url@),
{
    let mut s = String::from_str("window.location.href = '");
    push_escaped(&mut s, url);
    s.append("';");
    s
}

fn tab_limit_error() -> (m: String)
    ensures
        m@ == tab_limit_message(),
{
    let n = decimal(MAX_TABS as i32);
    let mut m = String::from_str("达到最大标签数量限制 (");
    m.append(n.as_str());
    m.append(")");
    m
}

/// What creating a tab asks of the application.
pub enum CreatePlan {
    /// The tab was recorded without a webview (Linux); nothing to embed.
    Stored,
    /// Embed a new webview labelled `label` that loads `url`, then hand it
    /// to `WebViewPool::attach_webview`.
    Embed { label: String, url: String },
}

/// What activating a tab answers the front end.
#[derive(Clone, Copy, Debug, PartialEq, Eq, Structural)]
pub struct ActivateResult {
    pub tab_id: i32,
    pub needs_recreate: bool,
    pub exists: bool,
}

/// What activating a tab asks of the application.
pub struct ActivatePlan {
    pub result: ActivateResult,
    /// Hide the webview of this tab.
    pub hide_tab: Option<i32>,
    /// Close the developer tools of this tab's webview, now hidden.
    pub close_devtools: Option<i32>,
    /// Place, show and focus the webview of this tab.
    pub show: Option<i32>,
    /// Open the developer tools of this tab's webview, shown again.
    pub open_devtools: Option<i32>,
    /// Evaluate this script in the main webview.
    pub main_script: Option<String>,
}

/// How a navigation reaches its page.
pub enum NavigatePlan {
    /// Evaluate `script` in the main webview (Linux).
    MainWebview { script: String },
    /// Navigate the tab's own webview; create it first when
    /// `needs_recreate`, then ask `WebViewPool::navigation_target`.
    TabWebview { needs_recreate: bool },
}

/// Where a script for a tab is to be evaluated.
#[derive(Clone, Copy, Debug, PartialEq, Eq, Structural)]
pub enum ScriptTarget {
    MainWebview,
    TabWebview(i32),
    Nowhere,
}

/// What toggling the developer tools asks of the application.
#[derive(Clone, Copy, Debug, PartialEq, Eq, Structural)]
pub enum DevtoolsAction {
    /// Open the developer tools of the main webview.
    OpenMain,
    Open(i32),
    Close(i32),
    Nothing,
}

/// Where browsing data is to be cleared.
pub enum ClearTarget {
    MainWebview,
    TabWebviews(Vec<i32>),
}

/// One tab as the toolbar shows it.
#[derive(Debug)]
pub struct TabInfo {
    pub id: i32,
    pub url: String,
}

/// The tabs and the active tab, as the toolbar shows them.
#[derive(Debug)]
pub struct ToolbarState {
    pub tabs: Vec<TabInfo>,
    pub active_tab_id: i32,
}

/// What a change of the content area asks of the application.
pub enum ResizePlan {
    Nothing,
    /// Hide this tab's webview and keep the stored content area.
    HideActive(i32),
    /// Store the new content area; place, show and focus `show`, hide each
    /// of `hide_tabs`.
    Layout { show: Option<i32>, hide_tabs: Vec<i32> },
}

pub open spec fn tab_info_view(t: TabInfo) -> (i32, Seq<char>) {
    (t.id, t.url@)
}

/// The tabs of the LRU order that have a URL, each with it, in that order.
pub open spec fn listed_tabs(lru: Seq<i32>, urls: Map<i32, Seq<char>>) -> Seq<(i32, Seq<char>)>
    decreases lru.len(),
{
    if lru.len() == 0 {
        Seq::empty()
    } else {
        let rest = listed_tabs(lru.drop_last(), urls);
        if urls.contains_key(lru.last()) {
            rest.push((lru.last(), urls[lru.last()]))
        } else {
            rest
        }
    }
}

/// The active tab's id, 0 when there is none.
pub open spec fn active_or_zero(v: PoolView) -> i32 {
    match v.active {
        Some(a) => a,
        None => 0,
    }
}

/// `v` after tab `id` is recorded with a webview, before any eviction.
pub open spec fn inserted(v: PoolView, id: i32, url: Seq<char>) -> PoolView {
    PoolView {
        webviews: v.webviews.insert(id),
        urls: v.urls.insert(id, url),
        lru: v.lru.push(id),
        ..v
    }
}

/// Whether a new tab `id` is refused: `MAX_TABS` tabs are open already and
/// `id` is not one of them.
pub open spec fn tab_limit_reached(v: PoolView, id: i32) -> bool {
    v.urls.len() >= MAX_TABS && !v.urls.contains_key(id)
}

/// A parse outcome with each text taken by its characters.
pub open spec fn text_result(r: Result<String, String>) -> Result<Seq<char>, Seq<char>> {
    match r {
        Ok(s) => Ok(s@),
        Err(e) => Err(e@),
    }
}

/// `r` is what creating tab `tab_id` answers once the URL parse gave
/// `parsed`: embed a webview labelled for the tab at the parsed URL, or the
/// parse error's text after the error prefix.
pub open spec fn embeds(tab_id: i32, parsed: Result<Seq<char>, Seq<char>>, r: Result<CreatePlan, String>) -> bool {
    match parsed {
        Ok(u) => r matches Ok(CreatePlan::Embed { label, url }) && label@ == webview_label(tab_id) && url@ == u,
        Err(e) => r matches Err(m) && m@ == url_error_message(e),
    }
}

/// What creating tab `tab_id` answers, given what parsing its URL gave.
pub fn embed_plan(tab_id: i32, parsed: Result<String, String>) -> (r: Result<CreatePlan, String>)
    ensures
        embeds(tab_id, text_result(parsed), r),
{
    match parsed {
        Ok(u) => {
            let n = decimal(tab_id);
            let label = concat("content-", n.as_str());
            Ok(CreatePlan::Embed { label, url: u })
        },
        Err(e) => Err(concat("URL 解析失败: ", e.as_str())),
    }
}

impl WebViewPool {
    /// Whether the limit of open tabs refuses a new tab `tab_id`.
    fn limit_reached(&self, tab_id: i32) -> (b: bool)
        ensures
            b == tab_limit_reached(self@, tab_id),
    {
        self.tab_count() >= MAX_TABS && !self.has_tab(tab_id)
    }

    /// First half of creating tab `tab_id` at `url`. Refused when
    /// `MAX_TABS` other tabs are open. On Linux the tab is recorded at once;
    /// elsewhere the URL is parsed and the application is asked to embed a
    /// webview.
    pub fn create_tab(&mut self, tab_id: i32, url: &str) -> (r: Result<CreatePlan, String>)
        requires
            old(self)@.wf(),
        ensures
            final(self)@.wf(),
            tab_limit_reached(old(self)@, tab_id) ==> {
                &&& final(self)@ == old(self)@
                &&& r matches Err(m) && m@ == tab_limit_message()
            },
            !tab_limit_reached(old(self)@, tab_id) && old(self)@.platform.spec_is_linux() ==> {
                &&& final(self)@ == (PoolView {
                    urls: old(self)@.urls.insert(tab_id, url@),
                    lru: old(self)@.lru.push(tab_id),
                    ..old(self)@
                })
                &&& r matches Ok(CreatePlan::Stored)
            },
            !tab_limit_reached(old(self)@, tab_id) && !old(self)@.platform.spec_is_linux() ==> {
                &&& final(self)@ == old(self)@
                &&& embeds(tab_id, url_parse_outcome(url@), r)
            },
    {
        if self.limit_reached(tab_id) {
            return Err(tab_limit_error());
        }
        if self.platform().is_linux() {
            self.insert_tab_only(tab_id, url);
            return Ok(CreatePlan::Stored);
        }
        let parsed = parse_url(url);
        embed_plan(tab_id, parsed)
    }

    /// Second half of creating tab `tab_id`: its webview has been embedded.
    /// Refused when the tab limit was reached meanwhile (the application
    /// then closes the new webview). Otherwise the tab is recorded with its
    /// webview and the least recently used background webviews beyond the
    /// threshold are destroyed: the result lists the tabs whose webview the
    /// application closes.
    pub fn attach_webview(&mut self, tab_id: i32, url: &str) -> (r: Result<Vec<i32>, String>)
        requires
            old(self)@.wf(),
            !old(self)@.platform.spec_is_linux(),
        ensures
            final(self)@.wf(),
            tab_limit_reached(old(self)@, tab_id) ==> {
                &&& final(self)@ == old(self)@
                &&& r matches Err(m) && m@ == tab_limit_message()
            },
            !tab_limit_reached(old(self)@, tab_id) ==> (r matches Ok(gone) && evicts(inserted(old(self)@, tab_id, url@), final(self)@, gone@)),
    {
        if self.limit_reached(tab_id) {
            return Err(tab_limit_error());
        }
        self.insert(tab_id, url);
        let gone = self.evict_lru();
        Ok(gone)
    }

    /// Makes `tab_id` the active tab. On Linux the main webview is sent to
    /// the tab's page, if it has a real one. Elsewhere the previously active
    /// tab's webview is hidden, and its developer tools with it (they stay
    /// recorded as open); the new tab's webview is shown, with its developer
    /// tools if they are recorded as open, and becomes the most recently
    /// used, or, when it has none, the front end is told to create it again.
    pub fn activate_tab(&mut self, tab_id: i32) -> (plan: ActivatePlan)
        requires
            old(self)@.wf(),
        ensures
            final(self)@.wf(),
            final(self)@.active == Some(tab_id),
            final(self)@.platform == old(self)@.platform,
            final(self)@.webviews == old(self)@.webviews,
            final(self)@.urls == old(self)@.urls,
            final(self)@.devtools == old(self)@.devtools,
            old(self)@.platform.spec_is_linux() ==> {
                &&& final(self)@ == (PoolView { active: Some(tab_id), ..old(self)@ })
                &&& plan.result == (ActivateResult { tab_id, needs_recreate: false, exists: true })
                &&& plan.hide_tab is None && plan.close_devtools is None && plan.show is None
                &&& plan.open_devtools is None
                &&& if is_real_page(url_or_empty(old(self)@, tab_id)) {
                    plan.main_script matches Some(s) && s@ == navigation_script(url_or_empty(old(self)@, tab_id))
                } else {
                    plan.main_script is None
                }
            },
            !old(self)@.platform.spec_is_linux() ==> {
                let pre = old(self)@;
                let switching = pre.active is Some && pre.active->0 != tab_id;
                let prev = pre.active->0;
                &&& plan.main_script is None
                &&& plan.hide_tab == (if switching && pre.webviews.contains(prev) { Some(prev) } else { None::<i32> })
                &&& plan.close_devtools == (if switching && pre.webviews.contains(prev) && pre.devtools.contains(prev) {
                    Some(prev)
                } else {
                    None::<i32>
                })
                &&& if pre.webviews.contains(tab_id) {
                    &&& final(self)@.lru == without(pre.lru, set![tab_id]).push(tab_id)
                    &&& plan.show == Some(tab_id)
                    &&& plan.open_devtools == (if pre.devtools.contains(tab_id) { Some(tab_id) } else { None::<i32> })
                    &&& plan.result == (ActivateResult { tab_id, needs_recreate: false, exists: true })
                } else {
                    &&& final(self)@.lru == pre.lru
                    &&& plan.show is None
                    &&& plan.open_devtools is None
                    &&& plan.result == (ActivateResult { tab_id, needs_recreate: true, exists: false })
                }
            },
    {
        let prev = self.active_tab_id();
        self.set_active_tab_id(Some(tab_id));
        if self.platform().is_linux() {
            let url = match self.tab_url(tab_id) {
                Some(u) => u,
                None => String::new(),
            };
            let main_script = if url.as_str().unicode_len() != 0 && !same_text(url.as_str(), "about:blank") {
                Some(make_navigation_script(url.as_str()))
            } else {
                None
            };
            return ActivatePlan {
                result: ActivateResult { tab_id, needs_recreate: false, exists: true },
                hide_tab: None,
                close_devtools: None,
                show: None,
                open_devtools: None,
                main_script,
            };
        }
        let mut hide_tab: Option<i32> = None;
        let mut close_devtools: Option<i32> = None;
        match prev {
            Some(p) => {
                if p != tab_id {
                    if self.has_webview(p) {
                        hide_tab = Some(p);
                    }
                    if self.is_devtools_open(p) && self.has_webview(p) {
                        close_devtools = Some(p);
                    }
                }
            },
            None => {},
        }
        if !self.has_webview(tab_id) {
            return ActivatePlan {
                result: ActivateResult { tab_id, needs_recreate: true, exists: false },
                hide_tab,
                close_devtools,
                show: None,
                open_devtools: None,
                main_script: None,
            };
        }
        self.touch_lru(tab_id);
        let open_devtools = if self.is_devtools_open(tab_id) { Some(tab_id) } else { None };
        ActivatePlan {
            result: ActivateResult { tab_id, needs_recreate: false, exists: true },
            hide_tab,
            close_devtools,
            show: Some(tab_id),
            open_devtools,
            main_script: None,
        }
    }

    /// Closes tab `tab_id`, unless it is the last tab with a URL. Tells
    /// whether the application is to close a webview of that tab.
    pub fn close_tab(&mut self, tab_id: i32) -> (close_webview: bool)
        requires
            old(self)@.wf(),
        ensures
            final(self)@.wf(),
            old(self)@.urls.len() <= 1 ==> final(self)@ == old(self)@ && !close_webview,
            old(self)@.urls.len() >= 1 ==> final(self)@.urls.len() >= 1,
            old(self)@.urls.len() > 1 ==> {
                &&& close_webview == old(self)@.webviews.contains(tab_id)
                &&& final(self)@ == (PoolView {
                    platform: old(self)@.platform,
                    webviews: old(self)@.webviews.remove(tab_id),
                    active: if old(self)@.active == Some(tab_id) {
                        None
                    } else {
                        old(self)@.active
                    },
                    lru: without(old(self)@.lru, set![tab_id]),
                    urls: old(self)@.urls.remove(tab_id),
                    devtools: old(self)@.devtools.remove(tab_id),
                })
            },
    {
        if self.tab_count() <= 1 {
            return false;
        }
        self.remove(tab_id)
    }

    /// Records `url` as the page of tab `tab_id` and says how to go there.
    /// On Linux the tab also becomes active and joins the LRU order if it is
    /// not in it yet.
    pub fn navigate_to_url(&mut self, tab_id: i32, url: &str) -> (plan: NavigatePlan)
        requires
            old(self)@.wf(),
        ensures
            final(self)@.wf(),
            old(self)@.platform.spec_is_linux() ==> {
                &&& final(self)@ == (PoolView {
                    urls: old(self)@.urls.insert(tab_id, url@),
                    active: Some(tab_id),
                    lru: if old(self)@.lru.contains(tab_id) {
                        old(self)@.lru
                    } else {
                        old(self)@.lru.push(tab_id)
                    },
                    ..old(self)@
                })
                &&& plan matches NavigatePlan::MainWebview { script } && script@ == navigation_script(url@)
            },
            !old(self)@.platform.spec_is_linux() ==> {
                &&& final(self)@ == (PoolView { urls: old(self)@.urls.insert(tab_id, url@), ..old(self)@ })
                &&& plan matches NavigatePlan::TabWebview { needs_recreate }
                &&& needs_recreate == !old(self)@.webviews.contains(tab_id)
            },
    {
        self.set_tab_url(tab_id, url);
        if self.platform().is_linux() {
            self.set_active_tab_id(Some(tab_id));
            if !self.lru_contains(tab_id) {
                self.push_lru(tab_id);
            }
            return NavigatePlan::MainWebview { script: make_navigation_script(url) };
        }
        NavigatePlan::TabWebview { needs_recreate: !self.has_webview(tab_id) }
    }

    /// The URL that the webview of tab `tab_id` is to load, when it has a
    /// webview and `url` parses.
    pub fn navigation_target(&self, tab_id: i32, url: &str) -> (target: Option<String>)
        ensures
            match target {
                Some(u) => self@.webviews.contains(tab_id) && url_parse_outcome(url@) == Ok::<Seq<char>, Seq<char>>(u@),
                None => !self@.webviews.contains(tab_id) || url_parse_outcome(url@) is Err,
            },
    {
        if !self.has_webview(tab_id) {
            return None;
        }
        match parse_url(url) {
            Ok(u) => Some(u),
            Err(_) => None,
        }
    }

    /// Where reloading, going back or going forward in tab `tab_id` runs
    /// its script.
    pub fn script_target(&self, tab_id: i32) -> (t: ScriptTarget)
        ensures
            t == (if self@.platform.spec_is_linux() {
                ScriptTarget::MainWebview
            } else if self@.webviews.contains(tab_id) {
                ScriptTarget::TabWebview(tab_id)
            } else {
                ScriptTarget::Nowhere
            }),
    {
        if self.platform().is_linux() {
            ScriptTarget::MainWebview
        } else if self.has_webview(tab_id) {
            ScriptTarget::TabWebview(tab_id)
        } else {
            ScriptTarget::Nowhere
        }
    }

    /// Opens the developer tools of tab `tab_id` when they are closed and
    /// closes them when open. On Linux the main webview's are opened.
    pub fn toggle_devtools(&mut self, tab_id: i32) -> (a: DevtoolsAction)
        requires
            old(self)@.wf(),
        ensures
            final(self)@.wf(),
            old(self)@.platform.spec_is_linux() ==> final(self)@ == old(self)@ && a == DevtoolsAction::OpenMain,
            !old(self)@.platform.spec_is_linux() && old(self)@.devtools.contains(tab_id) ==> {
                &&& final(self)@ == (PoolView { devtools: old(self)@.devtools.remove(tab_id), ..old(self)@ })
                &&& a == if old(self)@.webviews.contains(tab_id) {
                    DevtoolsAction::Close(tab_id)
                } else {
                    DevtoolsAction::Nothing
                }
            },
            !old(self)@.platform.spec_is_linux() && !old(self)@.devtools.contains(tab_id) ==> {
                &&& final(self)@ == (PoolView { devtools: old(self)@.devtools.insert(tab_id), ..old(self)@ })
                &&& a == if old(self)@.webviews.contains(tab_id) {
                    DevtoolsAction::Open(tab_id)
                } else {
                    DevtoolsAction::Nothing
                }
            },
    {
        if self.platform().is_linux() {
            return DevtoolsAction::OpenMain;
        }
        if self.is_devtools_open(tab_id) {
            self.close_devtools_record(tab_id);
            if self.has_webview(tab_id) {
                DevtoolsAction::Close(tab_id)
            } else {
                DevtoolsAction::Nothing
            }
        } else {
            self.open_devtools_record(tab_id);
            if self.has_webview(tab_id) {
                DevtoolsAction::Open(tab_id)
            } else {
                DevtoolsAction::Nothing
            }
        }
    }

    /// Where browsing data is to be cleared: every live tab webview, or the
    /// main webview on Linux.
    pub fn clear_targets(&self) -> (t: ClearTarget)
        ensures
            self@.platform.spec_is_linux() ==> t is MainWebview,
            !self@.platform.spec_is_linux() ==> (t matches ClearTarget::TabWebviews(ids) && ids@.no_duplicates() && ids@.to_set() == self@.webviews),
    {
        if self.platform().is_linux() {
            ClearTarget::MainWebview
        } else {
            ClearTarget::TabWebviews(self.webview_ids())
        }
    }

    /// The tabs for the toolbar and the active tab (0 when there is none).
    /// On Linux: the tabs of the LRU order that have a URL, with it. Elsewhere:
    /// each tab with a live webview once, with an empty URL.
    pub fn toolbar_state(&self) -> (st: ToolbarState)
        ensures
            st.active_tab_id == active_or_zero(self@),
            self@.platform.spec_is_linux() ==> st.tabs@.map_values(|t: TabInfo| tab_info_view(t)) == listed_tabs(self@.lru, self@.urls),
            !self@.platform.spec_is_linux() ==> {
                let ids = st.tabs@.map_values(|t: TabInfo| t.id);
                &&& ids.no_duplicates()
                &&& ids.to_set() == self@.webviews
                &&& forall|i: int| 0 <= i < st.tabs@.len() ==> (#[trigger] st.tabs@[i]).url@.len() == 0
            },
    {
        let active_tab_id = match self.active_tab_id() {
            Some(a) => a,
            None => 0,
        };
        if self.platform().is_linux() {
            return ToolbarState { tabs: self.listed_tab_infos(), active_tab_id };
        }
        let ids = self.webview_ids();
        let mut tabs: Vec<TabInfo> = Vec::new();
        let n = ids.len();
        let mut j: usize = 0;
        while j < n
            invariant
                n == ids@.len(),
                j <= n,
                tabs@.len() == j,
                forall|i: int| 0 <= i < j ==> (#[trigger] tabs@[i]).id == ids@[i],
                forall|i: int| 0 <= i < tabs@.len() ==> (#[trigger] tabs@[i]).url@.len() == 0,
            decreases n - j,
        {
            tabs.push(TabInfo { id: ids[j], url: String::new() });
            j += 1;
        }
        assert(tabs@.map_values(|t: TabInfo| t.id) =~= ids@);
        ToolbarState { tabs, active_tab_id }
    }

    /// The tabs of the LRU order that have a URL, with it, in that order.
    pub fn listed_tab_infos(&self) -> (tabs: Vec<TabInfo>)
        ensures
            tabs@.map_values(|t: TabInfo| tab_info_view(t)) == listed_tabs(self@.lru, self@.urls),
    {
        let lru = self.lru_order();
        let mut tabs: Vec<TabInfo> = Vec::new();
        let n = lru.len();
        let mut j: usize = 0;
        while j < n
            invariant
                n == lru@.len(),
                lru@ == self@.lru,
                j <= n,
                tabs@.map_values(|t: TabInfo| tab_info_view(t)) == listed_tabs(lru@.take(j as int), self@.urls),
            decreases n - j,
        {
            let id = lru[j];
            assert(lru@.take(j + 1).drop_last() =~= lru@.take(j as int));
            match self.tab_url(id) {
                Some(u) => {
                    tabs.push(TabInfo { id, url: u });
                },
                None => {},
            }
            j += 1;
            assert(tabs@.map_values(|t: TabInfo| tab_info_view(t)) =~= listed_tabs(lru@.take(j as int), self@.urls));
        }
        assert(lru@.take(n as int) =~= lru@);
        tabs
    }

    /// How the webviews follow a change of the content area. A zero or
    /// negative size (`hide_request`) hides the active tab's webview;
    /// otherwise the active tab's webview is shown in the new area and all
    /// others are hidden. Nothing on Linux.
    pub fn resize_content_area(&self, hide_request: bool) -> (plan: ResizePlan)
        requires
            self@.wf(),
        ensures
            self@.platform.spec_is_linux() ==> plan is Nothing,
            !self@.platform.spec_is_linux() && hide_request ==> plan == (match self@.active {
                Some(a) => if self@.webviews.contains(a) { ResizePlan::HideActive(a) } else { ResizePlan::Nothing },
                None => ResizePlan::Nothing,
            }),
            !self@.platform.spec_is_linux() && !hide_request ==> (plan matches ResizePlan::Layout { show, hide_tabs } && {
                &&& show == (match self@.active {
                    Some(a) => if self@.webviews.contains(a) { Some(a) } else { None::<i32> },
                    None => None::<i32>,
                })
                &&& hide_tabs@.no_duplicates()
                &&& hide_tabs@.to_set() == self@.webviews.difference(option_set(self@.active))
            }),
    {
        if self.platform().is_linux() {
            return ResizePlan::Nothing;
        }
        let active = self.active_tab_id();
        if hide_request {
            return match active {
                Some(a) => if self.has_webview(a) { ResizePlan::HideActive(a) } else { ResizePlan::Nothing },
                None => ResizePlan::Nothing,
            };
        }
        let ids = self.webview_ids();
        let show = match active {
            Some(a) => if self.has_webview(a) { Some(a) } else { None },
            None => None,
        };
        let hide_tabs = ids_without(&ids, active);
        proof {
            lemma_without_no_duplicates(ids@, option_set(active));
            assert forall|x: i32| hide_tabs@.to_set().contains(x) <==> self@.webviews.difference(option_set(active)).contains(x) by {
                lemma_without_contains(ids@, option_set(active), x);
            }
            assert(hide_tabs@.to_set() =~= self@.webviews.difference(option_set(active)));
        }
        ResizePlan::Layout { show, hide_tabs }
    }
}

} // verus!
