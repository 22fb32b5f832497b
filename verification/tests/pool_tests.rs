use mini_browser::commands::{
    embed_plan, ActivateResult, ClearTarget, CreatePlan, DevtoolsAction, NavigatePlan, ResizePlan, ScriptTarget,
};
use mini_browser::platform::Platform;
use mini_browser::pool::{WebViewPool, LRU_THRESHOLD, MAX_TABS};

/// Creates tab `id` on a desktop pool the way the application does:
/// plan, embed, attach. Returns the tabs whose webview was destroyed.
fn open(pool: &mut WebViewPool, id: i32, url: &str) -> Vec<i32> {
    match pool.create_tab(id, url).unwrap() {
        CreatePlan::Embed { .. } => pool.attach_webview(id, url).unwrap(),
        CreatePlan::Stored => panic!("desktop pools embed webviews"),
    }
}

#[test]
fn new_pool_is_empty() {
    let pool = WebViewPool::new(Platform::Windows);
    assert_eq!(pool.len(), 0);
    assert_eq!(pool.active_tab_id(), None);
    assert!(pool.lru_order().is_empty());
    assert_eq!(pool.tab_count(), 0);
    assert_eq!(MAX_TABS, 10);
    assert_eq!(LRU_THRESHOLD, 3);
}

#[test]
fn create_tab_parses_and_labels() {
    let mut pool = WebViewPool::new(Platform::MacOs);
    match pool.create_tab(5, "https://example.com").unwrap() {
        CreatePlan::Embed { label, url } => {
            assert_eq!(label, "content-5");
            // the url crate normalizes: the path "/" is added
            assert_eq!(url, "https://example.com/");
        }
        CreatePlan::Stored => panic!("expected an embedded webview"),
    }
    // nothing is recorded before the webview is attached
    assert_eq!(pool.tab_count(), 0);
    assert_eq!(pool.create_tab(-2, "HTTPS://Example.COM/a/../b").ok().map(|p| match p {
        CreatePlan::Embed { label, url } => (label, url),
        CreatePlan::Stored => (String::new(), String::new()),
    }), Some(("content--2".to_string(), "https://example.com/b".to_string())));
}

#[test]
fn create_tab_reports_bad_urls() {
    let mut pool = WebViewPool::new(Platform::Windows);
    match pool.create_tab(1, "example.com") {
        Err(e) => assert_eq!(e, "URL 解析失败: relative URL without a base"),
        Ok(_) => panic!("a URL without a scheme does not parse"),
    }
    match pool.create_tab(1, "http://[::1") {
        Err(e) => assert_eq!(e, "URL 解析失败: invalid IPv6 address"),
        Ok(_) => panic!("a broken IPv6 host does not parse"),
    }
}

#[test]
fn linux_records_tabs_without_webviews() {
    let mut pool = WebViewPool::new(Platform::Linux);
    assert!(matches!(pool.create_tab(1, "about:blank"), Ok(CreatePlan::Stored)));
    assert!(matches!(pool.create_tab(2, "not even a url"), Ok(CreatePlan::Stored)));
    assert_eq!(pool.len(), 0);
    assert_eq!(pool.tab_count(), 2);
    assert_eq!(pool.lru_order(), vec![1, 2]);
    assert_eq!(pool.tab_url(2).as_deref(), Some("not even a url"));
}

#[test]
fn eviction_keeps_three_background_webviews() {
    let mut pool = WebViewPool::new(Platform::Windows);
    assert!(open(&mut pool, 1, "https://a.test/").is_empty());
    pool.activate_tab(1);
    assert!(open(&mut pool, 2, "https://b.test/").is_empty());
    assert!(open(&mut pool, 3, "https://c.test/").is_empty());
    // three background webviews (2, 3, 4) besides the active tab's: all stay
    assert!(open(&mut pool, 4, "https://d.test/").is_empty());
    assert_eq!(pool.len(), 4);
    // a fourth background webview: tab 1 is the least recently used but
    // active, so tab 2 goes
    assert_eq!(open(&mut pool, 5, "https://e.test/"), vec![2]);
    assert_eq!(pool.len(), 4);
    assert!(pool.has_webview(1) && !pool.has_webview(2) && pool.has_webview(3));
    assert!(pool.has_webview(4) && pool.has_webview(5));
    assert_eq!(pool.lru_order(), vec![1, 3, 4, 5]);
    // the evicted tab stays open, with its URL
    assert_eq!(pool.tab_url(2).as_deref(), Some("https://b.test/"));
    pool.activate_tab(5);
    assert_eq!(open(&mut pool, 6, "https://f.test/"), vec![1]);
    assert_eq!(pool.lru_order(), vec![3, 4, 5, 6]);
}

#[test]
fn without_an_active_tab_every_webview_counts_as_background() {
    let mut pool = WebViewPool::new(Platform::MacOs);
    assert!(open(&mut pool, 1, "https://a.test/").is_empty());
    assert!(open(&mut pool, 2, "https://b.test/").is_empty());
    assert!(open(&mut pool, 3, "https://c.test/").is_empty());
    assert_eq!(open(&mut pool, 4, "https://d.test/"), vec![1]);
    assert_eq!(pool.len(), 3);
}

#[test]
fn activate_shows_new_hides_previous() {
    let mut pool = WebViewPool::new(Platform::Windows);
    open(&mut pool, 1, "https://a.test/");
    open(&mut pool, 2, "https://b.test/");
    let first = pool.activate_tab(1);
    assert_eq!(first.result, ActivateResult { tab_id: 1, needs_recreate: false, exists: true });
    assert_eq!(first.hide_tab, None);
    assert_eq!(first.show, Some(1));
    assert_eq!(pool.lru_order(), vec![2, 1]);
    assert_eq!(pool.toggle_devtools(1), DevtoolsAction::Open(1));
    let second = pool.activate_tab(2);
    assert_eq!(second.hide_tab, Some(1));
    assert_eq!(second.close_devtools, Some(1));
    assert_eq!(second.show, Some(2));
    assert_eq!(second.open_devtools, None);
    assert!(second.main_script.is_none());
    // the developer tools of tab 1 are hidden with it, not forgotten
    assert!(pool.is_devtools_open(1));
    assert_eq!(pool.active_tab_id(), Some(2));
    assert_eq!(pool.lru_order(), vec![1, 2]);
    let back = pool.activate_tab(1);
    assert_eq!(back.hide_tab, Some(2));
    assert_eq!(back.close_devtools, None);
    assert_eq!(back.show, Some(1));
    assert_eq!(back.open_devtools, Some(1));
}

#[test]
fn activating_a_tab_without_webview_asks_to_recreate() {
    let mut pool = WebViewPool::new(Platform::MacOs);
    let plan = pool.activate_tab(9);
    assert_eq!(plan.result, ActivateResult { tab_id: 9, needs_recreate: true, exists: false });
    assert_eq!(plan.show, None);
    assert_eq!(pool.active_tab_id(), Some(9));
}

#[test]
fn linux_activation_navigates_main_webview() {
    let mut pool = WebViewPool::new(Platform::Linux);
    pool.create_tab(1, "https://it's.test/").unwrap();
    pool.create_tab(2, "about:blank").unwrap();
    let plan = pool.activate_tab(1);
    assert_eq!(plan.result, ActivateResult { tab_id: 1, needs_recreate: false, exists: true });
    assert_eq!(plan.main_script.as_deref(), Some("window.location.href = 'https://it\\'s.test/';"));
    assert!(pool.activate_tab(2).main_script.is_none());
    assert!(pool.activate_tab(3).main_script.is_none());
    assert_eq!(pool.active_tab_id(), Some(3));
}

#[test]
fn close_tab_never_closes_the_last_tab() {
    let mut pool = WebViewPool::new(Platform::Windows);
    open(&mut pool, 1, "https://a.test/");
    assert!(!pool.close_tab(1));
    assert_eq!(pool.tab_count(), 1);
    assert!(pool.has_webview(1));
    open(&mut pool, 2, "https://b.test/");
    pool.activate_tab(2);
    assert!(pool.close_tab(2));
    assert_eq!(pool.active_tab_id(), None);
    assert_eq!(pool.tab_count(), 1);
    assert_eq!(pool.lru_order(), vec![1]);
    assert!(!pool.has_webview(2));
}

#[test]
fn navigation_on_desktop_and_linux() {
    let mut pool = WebViewPool::new(Platform::Windows);
    open(&mut pool, 1, "https://a.test/");
    assert!(matches!(pool.navigate_to_url(1, "https://b.test"), NavigatePlan::TabWebview { needs_recreate: false }));
    assert_eq!(pool.tab_url(1).as_deref(), Some("https://b.test"));
    assert_eq!(pool.navigation_target(1, "https://b.test").as_deref(), Some("https://b.test/"));
    assert_eq!(pool.navigation_target(1, "b.test"), None);
    assert!(matches!(pool.navigate_to_url(7, "https://c.test/"), NavigatePlan::TabWebview { needs_recreate: true }));
    assert_eq!(pool.navigation_target(7, "https://c.test/"), None);

    let mut linux = WebViewPool::new(Platform::Linux);
    match linux.navigate_to_url(4, "https://d.test/") {
        NavigatePlan::MainWebview { script } => assert_eq!(script, "window.location.href = 'https://d.test/';"),
        NavigatePlan::TabWebview { .. } => panic!("Linux navigates its main webview"),
    }
    assert_eq!(linux.active_tab_id(), Some(4));
    assert_eq!(linux.lru_order(), vec![4]);
    linux.navigate_to_url(4, "https://e.test/");
    assert_eq!(linux.lru_order(), vec![4]);
}

#[test]
fn scripts_devtools_and_clearing_targets() {
    let mut pool = WebViewPool::new(Platform::Windows);
    open(&mut pool, 1, "https://a.test/");
    assert_eq!(pool.script_target(1), ScriptTarget::TabWebview(1));
    assert_eq!(pool.script_target(2), ScriptTarget::Nowhere);
    assert_eq!(pool.toggle_devtools(2), DevtoolsAction::Nothing);
    assert!(pool.is_devtools_open(2));
    assert_eq!(pool.toggle_devtools(2), DevtoolsAction::Nothing);
    assert!(!pool.is_devtools_open(2));
    assert_eq!(pool.toggle_devtools(1), DevtoolsAction::Open(1));
    assert_eq!(pool.toggle_devtools(1), DevtoolsAction::Close(1));
    match pool.clear_targets() {
        ClearTarget::TabWebviews(ids) => assert_eq!(ids, vec![1]),
        ClearTarget::MainWebview => panic!("desktop clears each tab webview"),
    }
    let mut linux = WebViewPool::new(Platform::Linux);
    assert_eq!(linux.script_target(1), ScriptTarget::MainWebview);
    assert_eq!(linux.toggle_devtools(1), DevtoolsAction::OpenMain);
    assert!(matches!(linux.clear_targets(), ClearTarget::MainWebview));
}

#[test]
fn toolbar_state_lists_tabs() {
    let mut linux = WebViewPool::new(Platform::Linux);
    linux.create_tab(3, "https://c.test/").unwrap();
    linux.create_tab(1, "about:blank").unwrap();
    linux.activate_tab(1);
    let st = linux.toolbar_state();
    assert_eq!(st.active_tab_id, 1);
    let tabs: Vec<(i32, String)> = st.tabs.into_iter().map(|t| (t.id, t.url)).collect();
    assert_eq!(tabs, vec![(3, "https://c.test/".to_string()), (1, "about:blank".to_string())]);

    let mut pool = WebViewPool::new(Platform::Windows);
    open(&mut pool, 5, "https://a.test/");
    open(&mut pool, 6, "https://b.test/");
    let st = pool.toolbar_state();
    assert_eq!(st.active_tab_id, 0);
    let mut ids: Vec<i32> = st.tabs.iter().map(|t| t.id).collect();
    ids.sort();
    assert_eq!(ids, vec![5, 6]);
    assert!(st.tabs.iter().all(|t| t.url.is_empty()));
}

#[test]
fn resizing_shows_active_and_hides_the_rest() {
    let mut pool = WebViewPool::new(Platform::Windows);
    open(&mut pool, 1, "https://a.test/");
    open(&mut pool, 2, "https://b.test/");
    open(&mut pool, 3, "https://c.test/");
    assert!(matches!(pool.resize_content_area(true), ResizePlan::Nothing));
    pool.activate_tab(2);
    assert!(matches!(pool.resize_content_area(true), ResizePlan::HideActive(2)));
    match pool.resize_content_area(false) {
        ResizePlan::Layout { show, hide_tabs } => {
            assert_eq!(show, Some(2));
            let mut h = hide_tabs.clone();
            h.sort();
            assert_eq!(h, vec![1, 3]);
        }
        _ => panic!("expected a layout"),
    }
    let linux = WebViewPool::new(Platform::Linux);
    assert!(matches!(linux.resize_content_area(false), ResizePlan::Nothing));
}

#[test]
fn tab_limit_refuses_an_eleventh_tab() {
    let mut linux = WebViewPool::new(Platform::Linux);
    for id in 1..=10 {
        assert!(matches!(linux.create_tab(id, "about:blank"), Ok(CreatePlan::Stored)));
    }
    match linux.create_tab(11, "https://a.com") {
        Err(e) => assert_eq!(e, "达到最大标签数量限制 (10)"),
        Ok(_) => panic!("an eleventh tab is refused"),
    }
    assert_eq!(linux.tab_count(), 10);
    assert!(!linux.has_tab(11));
    assert_eq!(linux.lru_order(), (1..=10).collect::<Vec<i32>>());

    let mut pool = WebViewPool::new(Platform::Windows);
    for id in 1..=10 {
        open(&mut pool, id, "https://x.test/");
    }
    assert_eq!(pool.tab_count(), 10);
    match pool.create_tab(11, "https://a.com") {
        Err(e) => assert_eq!(e, "达到最大标签数量限制 (10)"),
        Ok(_) => panic!("an eleventh tab is refused"),
    }
    assert_eq!(pool.attach_webview(11, "https://a.com"), Err("达到最大标签数量限制 (10)".to_string()));
    assert_eq!(pool.tab_count(), 10);
    // an open tab whose webview was evicted can still get one back
    assert!(!pool.has_webview(1));
    assert!(matches!(pool.create_tab(1, "https://x.test/"), Ok(CreatePlan::Embed { .. })));
    assert!(pool.attach_webview(1, "https://x.test/").is_ok());
    assert!(pool.has_webview(1));
}

#[test]
fn embed_plan_labels_and_reports() {
    match embed_plan(12, Ok("https://a.test/".to_string())) {
        Ok(CreatePlan::Embed { label, url }) => {
            assert_eq!(label, "content-12");
            assert_eq!(url, "https://a.test/");
        }
        _ => panic!("a parsed URL is embedded"),
    }
    match embed_plan(12, Err("empty host".to_string())) {
        Err(e) => assert_eq!(e, "URL 解析失败: empty host"),
        Ok(_) => panic!("a parse error is reported"),
    }
}
