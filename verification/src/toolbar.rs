//! The toolbar that Linux draws over each page of its single webview, and
//! the tab commands that the toolbar sends back as blank-page URLs.
use vstd::prelude::*;
use crate::commands::{listed_tabs, navigation_script, is_real_page, url_or_empty, active_or_zero, make_navigation_script, TabInfo, tab_info_view};
use crate::order::without;
use crate::pool::{PoolView, WebViewPool};
use crate::text::{chars_of, field_after, find, first_field, has_prefix, i32_decimal, decimal, parse_i32, spec_find, spec_parse_i32, starts_with, lemma_find_from_occurs};
use vstd::string::StringExecFns;

verus! {

/// The toolbar (tab strip, navigation bar, welcome page) injected into each
/// page on Linux. It reads its tabs from `window.__MB_INLINE_TABS` and
/// `window.__MB_INLINE_ACTIVE`, and asks for tab changes by loading
/// `about:blank?__mb_new=...`, `__mb_close=<id>`, `__mb_switch=<id>` or
/// `__mb_devtools=<id>`.
pub const TOOLBAR_SCRIPT: &'static str = r#";(function(){
    try{
    if(document.getElementById('__mb_tb'))return;
    var L=window.location.href;
    if(L&&(L.startsWith('http://localhost')||L.startsWith('tauri://')||L.startsWith('https://tauri')))return;
    // Intercept target=_blank links
    document.addEventListener('click',function(e){var a=e.target.closest('a');if(a&&a.target==='_blank'){e.preventDefault();window.location.href=a.href}},true);
    // Tab state from inline data (set by Rust plugin callback)
    var tabs=window.__MB_INLINE_TABS||[];
    var activeId=window.__MB_INLINE_ACTIVE||0;
    window.__mb_active_tab_id=activeId;
    function nav(u){if(!u)return;if(!u.match(/^https?:\/\//)){u=u.includes('.')?'https://'+u:'https://www.google.com/search?q='+encodeURIComponent(u)}window.location.href=u}
    // Cleanup inline data
    try{delete window.__MB_INLINE_TABS;delete window.__MB_INLINE_ACTIVE}catch(e){}
    buildUI(tabs,activeId);
    function buildUI(tabs,activeId){
    var d=document.createElement('div');d.id='__mb_tb';d.style.cssText='position:fixed;top:0;left:0;right:0;z-index:2147483647;background:#1a1a2e;border-bottom:1px solid #2d2d4a;font:13px system-ui,sans-serif;color:#e8e8f0;box-shadow:0 2px 8px rgba(0,0,0,0.4);';
    // Tab bar
    var tb=document.createElement('div');tb.style.cssText='display:flex;align-items:center;gap:2px;padding:2px 8px;border-bottom:1px solid #2d2d4a;';
    tabs.forEach(function(t){
        var t2=document.createElement('div');t2.style.cssText='display:flex;align-items:center;gap:4px;padding:4px 6px;border-radius:6px;cursor:pointer;min-width:60px;max-width:140px;height:26px;font-size:12px;flex-shrink:0;color:#e8e8f0;background:'+(t.id===activeId?'#2d2d52':'transparent')+';';
        t2.onmouseenter=function(){this.style.background='#2d2d52'};
        t2.onmouseleave=function(){this.style.background=t.id===activeId?'#2d2d52':'transparent'};
        t2.onclick=function(){if(t.id!==activeId){window.location.href='about:blank?__mb_switch='+t.id}};
        var sp=document.createElement('span');sp.style.cssText='overflow:hidden;text-overflow:ellipsis;white-space:nowrap;flex:1;';sp.textContent=t.url&&t.url!=='about:blank'?t.url:'新标签页';
        t2.appendChild(sp);
        var cx=document.createElement('span');cx.textContent='×';cx.style.cssText='width:16px;height:16px;border-radius:4px;display:flex;align-items:center;justify-content:center;font-size:12px;color:#606080;cursor:pointer;flex-shrink:0;';
        cx.onmouseenter=function(){this.style.background='#3d3d62'};cx.onmouseleave=function(){this.style.background='transparent'};
        cx.onclick=function(e){e.stopPropagation();window.location.href='about:blank?__mb_close='+t.id};
        t2.appendChild(cx);tb.appendChild(t2);
    });
    var nt=document.createElement('button');nt.textContent='+';nt.style.cssText='width:24px;height:24px;border:none;background:transparent;color:#a0a0c0;border-radius:6px;cursor:pointer;font-size:16px;display:flex;align-items:center;justify-content:center;flex-shrink:0;margin-left:2px;';
    nt.onmouseenter=function(){this.style.background='#2d2d52'};nt.onmouseleave=function(){this.style.background='transparent'};
    nt.onclick=function(){window.location.href='about:blank?__mb_new='+Date.now()};
    tb.appendChild(nt);d.appendChild(tb);
    // Navigation bar
    var nb=document.createElement('div');nb.style.cssText='display:flex;align-items:center;gap:4px;padding:6px 10px;';
    function bt(t,f){var b=document.createElement('button');b.textContent=t;b.style.cssText='width:28px;height:28px;border:none;background:transparent;color:#a0a0c0;border-radius:6px;cursor:pointer;font-size:14px;display:flex;align-items:center;justify-content:center;flex-shrink:0;';b.onmouseenter=function(){this.style.background='#2d2d52'};b.onmouseleave=function(){this.style.background='transparent'};b.onclick=f;return b;}
    nb.appendChild(bt('←',function(){window.history.back()}));
    nb.appendChild(bt('→',function(){window.history.forward()}));
    nb.appendChild(bt('↻',function(){window.location.reload()}));
    var u=document.createElement('input');u.style.cssText='flex:1;height:32px;border:1.5px solid #2d2d4a;border-radius:8px;background:#0f0f1a;color:#e8e8f0;padding:0 10px;font-size:13px;outline:none;min-width:0;';u.value=L.startsWith('about:blank')?'':L;
    u.placeholder='输入网址或搜索...';
    u.onfocus=function(){this.select()};
    u.onkeydown=function(e){if(e.key==='Enter'){var v=u.value.trim();if(v)nav(v)}};
    nb.appendChild(u);
    var gb=document.createElement('button');gb.textContent='→';gb.style.cssText='width:28px;height:28px;border:none;background:#6366f1;color:#fff;border-radius:6px;cursor:pointer;font-size:14px;display:flex;align-items:center;justify-content:center;flex-shrink:0;';
    gb.onclick=function(){var v=u.value.trim();if(v)nav(v)};
    nb.appendChild(gb);
    nb.appendChild(bt('🔧',function(){window.location.href='about:blank?__mb_devtools='+activeId;}));
    d.appendChild(nb);
    // Welcome page for about:blank (including about:blank?__mb_new=... and __mb_close=...)
    if(L.startsWith('about:blank')){
        var w=document.createElement('div');w.id='__mb_welcome';w.style.cssText='display:flex;align-items:center;justify-content:center;height:calc(100vh - 80px);background:#0f0f1a;';
        var wc=document.createElement('div');wc.style.cssText='text-align:center;color:#606080;';
        wc.innerHTML='<div style="font-size:48px;opacity:0.4;margin-bottom:16px;">🌐</div><h2 style="font-size:18px;font-weight:600;margin-bottom:8px;color:#e8e8f0;">迷你浏览器</h2><p>输入网址开始浏览</p>';
        w.appendChild(wc);d.appendChild(w);
    }
    document.body.prepend(d);
    var p=function(){var e=document.getElementById('__mb_tb');if(e){var h=e.offsetHeight;document.body.style.paddingTop=Math.max(parseInt(document.body.style.paddingTop)||0,h)+'px'}};
    setTimeout(p,50);
    setInterval(function(){var a=u.value,b=window.location.href;if(a!==b&&b&&!b.startsWith('about:blank'))u.value=b},500);
    } // buildUI end
    }catch(e){}
})();"#;

/// The script that injects the toolbar, given the tab list already in
/// JSON and the active tab.
pub open spec fn toolbar_injection(tabs_json: Seq<char>, active_id: i32) -> Seq<char> {
    ";(function(){try{window.__MB_INLINE_TABS="@ + tabs_json + ";window.__MB_INLINE_ACTIVE="@
        + i32_decimal(active_id) + ";"@ + TOOLBAR_SCRIPT@ + "}catch(e){}})();"@
}

/// Builds the script that injects the toolbar.
pub fn toolbar_injection_script(tabs_json: &str, active_id: i32) -> (s: String)
    ensures
        s@ == toolbar_injection(tabs_json@, active_id),
{
    let mut s = String::from_str(";(function(){try{window.__MB_INLINE_TABS=");
    s.append(tabs_json);
    s.append(";window.__MB_INLINE_ACTIVE=");
    let a = decimal(active_id);
    s.append(a.as_str());
    s.append(";");
    s.append(TOOLBAR_SCRIPT);
    s.append("}catch(e){}})();");
    s
}

/// Hands out the ids of tabs opened from the toolbar, counting up from
/// 1000 (and wrapping around).
pub struct TabIdAllocator {
    next: i32,
}

impl View for TabIdAllocator {
    type V = i32;

    closed spec fn view(&self) -> i32 {
        self.next
    }
}

impl TabIdAllocator {
    pub fn new() -> (a: Self)
        ensures
            a@ == 1000,
    {
        TabIdAllocator { next: 1000 }
    }

    /// The next id.
    pub fn next_id(&mut self) -> (id: i32)
        ensures
            id == old(self)@,
            final(self)@ == old(self)@.wrapping_add(1),
    {
        let id = self.next;
        self.next = self.next.wrapping_add(1);
        id
    }
}

/// What the toolbar asks of the application after a page has loaded.
pub enum ToolbarAction {
    /// Nothing to do.
    Skip,
    /// Evaluate `script` in the page's webview.
    Navigate { script: String },
    /// Open the main webview's developer tools and go back one page.
    OpenDevtools,
    /// Inject the toolbar showing `tabs`, with `active_tab_id` active.
    Inject { tabs: Vec<TabInfo>, active_tab_id: i32 },
}

/// A toolbar action as mathematical values.
pub enum ToolbarEffect {
    Skip,
    Navigate(Seq<char>),
    OpenDevtools,
    Inject(Seq<(i32, Seq<char>)>, i32),
}

pub open spec fn toolbar_action_view(a: ToolbarAction) -> ToolbarEffect {
    match a {
        ToolbarAction::Skip => ToolbarEffect::Skip,
        ToolbarAction::Navigate { script } => ToolbarEffect::Navigate(script@),
        ToolbarAction::OpenDevtools => ToolbarEffect::OpenDevtools,
        ToolbarAction::Inject { tabs, active_tab_id } => ToolbarEffect::Inject(
            tabs@.map_values(|t: TabInfo| tab_info_view(t)),
            active_tab_id,
        ),
    }
}

/// The id that follows `key` in `url`: the first occurrence of `key`, then
/// everything up to the next `&`, read as an `i32`.
pub open spec fn url_param(url: Seq<char>, key: Seq<char>) -> Option<i32> {
    match spec_find(url, key) {
        Some(p) => spec_parse_i32(first_field(url.skip(p + key.len()))),
        None => None,
    }
}

/// A page that the toolbar leaves alone: the application's own pages.
pub open spec fn is_app_page(url: Seq<char>) -> bool {
    starts_with(url, "http://localhost"@) || starts_with(url, "tauri://"@)
}

/// `v` with a new blank tab `id`, made active.
pub open spec fn with_new_tab(v: PoolView, id: i32) -> PoolView {
    PoolView { urls: v.urls.insert(id, "about:blank"@), lru: v.lru.push(id), active: Some(id), ..v }
}

/// `v` without tab `id`; when it was active, the most recently used tab
/// left becomes active.
pub open spec fn without_tab(v: PoolView, id: i32) -> PoolView {
    let lru = without(v.lru, set![id]);
    PoolView {
        urls: v.urls.remove(id),
        lru,
        active: if v.active == Some(id) {
            if lru.len() == 0 {
                None
            } else {
                Some(lru.last())
            }
        } else {
            v.active
        },
        ..v
    }
}

/// The toolbar for `v`.
pub open spec fn injection_of(v: PoolView) -> ToolbarEffect {
    ToolbarEffect::Inject(listed_tabs(v.lru, v.urls), active_or_zero(v))
}

/// The pool after the new-tab and close commands of a blank-page `url`,
/// with `next` the id a new tab gets.
pub open spec fn after_tab_commands(v: PoolView, url: Seq<char>, next: i32) -> PoolView {
    let v1 = if spec_find(url, "__mb_new="@) is Some { with_new_tab(v, next) } else { v };
    match url_param(url, "__mb_close="@) {
        Some(c) => without_tab(v1, c),
        None => v1,
    }
}

/// The pool after all the commands of a blank-page `url`.
pub open spec fn after_commands(v: PoolView, url: Seq<char>, next: i32) -> PoolView {
    let v2 = after_tab_commands(v, url, next);
    match url_param(url, "__mb_switch="@) {
        Some(w) => PoolView { active: Some(w), ..v2 },
        None => v2,
    }
}

/// What the toolbar does for the blank-page `url` once the pool is `v3`.
pub open spec fn command_effect(v3: PoolView, url: Seq<char>) -> ToolbarEffect {
    if url_param(url, "__mb_switch="@) is Some && is_real_page(url_or_empty(v3, v3.active->0)) {
        ToolbarEffect::Navigate(navigation_script(url_or_empty(v3, v3.active->0)))
    } else if url_param(url, "__mb_devtools="@) is Some {
        ToolbarEffect::OpenDevtools
    } else {
        injection_of(v3)
    }
}

impl WebViewPool {
    /// What the toolbar makes of a page that finished loading at `url`
    /// (Linux only; `load_finished` is false for a page that only started).
    /// A blank page carries tab commands: open a new tab (its id from
    /// `ids`), close, switch to, or open the developer tools of a tab. Any
    /// other page becomes the URL of the active tab. Unless a command sends
    /// the webview elsewhere, the toolbar is then injected with the tabs.
    pub fn handle_toolbar_page(&mut self, ids: &mut TabIdAllocator, url: &str, load_finished: bool) -> (a: ToolbarAction)
        requires
            old(self)@.wf(),
        ensures
            final(self)@.wf(),
            !old(self)@.platform.spec_is_linux() || !load_finished || is_app_page(url@) ==> {
                &&& final(self)@ == old(self)@
                &&& final(ids)@ == old(ids)@
                &&& a is Skip
            },
            old(self)@.platform.spec_is_linux() && load_finished && !is_app_page(url@) ==> {
                if starts_with(url@, "about:blank"@) {
                    &&& final(ids)@ == (if spec_find(url@, "__mb_new="@) is Some { old(ids)@.wrapping_add(1) } else { old(ids)@ })
                    &&& final(self)@ == after_commands(old(self)@, url@, old(ids)@)
                    &&& toolbar_action_view(a) == command_effect(final(self)@, url@)
                } else {
                    &&& final(ids)@ == old(ids)@
                    &&& final(self)@ == (match old(self)@.active {
                        Some(x) => PoolView { urls: old(self)@.urls.insert(x, url@), ..old(self)@ },
                        None => old(self)@,
                    })
                    &&& toolbar_action_view(a) == injection_of(final(self)@)
                }
            },
    {
        if !self.platform().is_linux() || !load_finished {
            return ToolbarAction::Skip;
        }
        let s = chars_of(url);
        let localhost = chars_of("http://localhost");
        let tauri = chars_of("tauri://");
        if has_prefix(s.as_slice(), localhost.as_slice()) || has_prefix(s.as_slice(), tauri.as_slice()) {
            return ToolbarAction::Skip;
        }
        let blank = chars_of("about:blank");
        if has_prefix(s.as_slice(), blank.as_slice()) {
            let new_key = chars_of("__mb_new=");
            if find(s.as_slice(), new_key.as_slice()).is_some() {
                let id = ids.next_id();
                self.insert_tab_only(id, "about:blank");
                self.set_active_tab_id(Some(id));
            }
            let close_id = self.param(s.as_slice(), "__mb_close=");
            match close_id {
                Some(c) => {
                    let was_active = match self.active_tab_id() {
                        Some(x) => x == c,
                        None => false,
                    };
                    self.forget_tab(c);
                    if was_active {
                        let back = self.lru_back();
                        self.set_active_tab_id(back);
                    }
                },
                None => {},
            }
            let switch_id = self.param(s.as_slice(), "__mb_switch=");
            match switch_id {
                Some(w) => {
                    self.set_active_tab_id(Some(w));
                    let tab_url = match self.tab_url(w) {
                        Some(u) => u,
                        None => String::new(),
                    };
                    if tab_url.as_str().unicode_len() != 0 && !crate::text::same_text(tab_url.as_str(), "about:blank") {
                        return ToolbarAction::Navigate { script: make_navigation_script(tab_url.as_str()) };
                    }
                },
                None => {},
            }
            let devtools_id = self.param(s.as_slice(), "__mb_devtools=");
            if devtools_id.is_some() {
                return ToolbarAction::OpenDevtools;
            }
        } else {
            match self.active_tab_id() {
                Some(x) => self.set_tab_url(x, url),
                None => {},
            }
        }
        let tabs = self.listed_tab_infos();
        let active_tab_id = match self.active_tab_id() {
            Some(x) => x,
            None => 0,
        };
        ToolbarAction::Inject { tabs, active_tab_id }
    }

    /// The id that follows `key` in the characters `s`.
    fn param(&self, s: &[char], key: &str) -> (r: Option<i32>)
        ensures
            r == url_param(s@, key@),
    {
        let k = chars_of(key);
        match find(s, k.as_slice()) {
            Some(p) => {
                proof {
                    lemma_find_from_occurs(s@, k@, 0);
                }
                assert(p + k@.len() <= s@.len());
                assert(s@.len() == s.len());
                let v = field_after(s, p + k.len());
                parse_i32(v.as_slice())
            },
            None => None,
        }
    }
}

} // verus!
