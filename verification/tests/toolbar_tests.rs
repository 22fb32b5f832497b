use mini_browser::commands::CreatePlan;
use mini_browser::platform::Platform;
use mini_browser::pool::WebViewPool;
use mini_browser::toolbar::{TabIdAllocator, ToolbarAction};

fn listed(a: &ToolbarAction) -> (Vec<(i32, String)>, i32) {
    match a {
        ToolbarAction::Inject { tabs, active_tab_id } => {
            (tabs.iter().map(|t| (t.id, t.url.clone())).collect(), *active_tab_id)
        }
        _ => panic!("expected the toolbar to be injected"),
    }
}

fn linux_pool() -> WebViewPool {
    let mut pool = WebViewPool::new(Platform::Linux);
    assert!(matches!(pool.create_tab(1, "https://a.test/"), Ok(CreatePlan::Stored)));
    pool.activate_tab(1);
    pool
}

#[test]
fn app_pages_and_other_platforms_are_skipped() {
    let mut ids = TabIdAllocator::new();
    let mut pool = linux_pool();
    assert!(matches!(pool.handle_toolbar_page(&mut ids, "http://localhost:1421/", true), ToolbarAction::Skip));
    assert!(matches!(pool.handle_toolbar_page(&mut ids, "tauri://localhost", true), ToolbarAction::Skip));
    assert!(matches!(pool.handle_toolbar_page(&mut ids, "https://b.test/", false), ToolbarAction::Skip));
    let mut desk = WebViewPool::new(Platform::MacOs);
    assert!(matches!(desk.handle_toolbar_page(&mut ids, "https://b.test/", true), ToolbarAction::Skip));
    assert_eq!(pool.tab_url(1).as_deref(), Some("https://a.test/"));
}

#[test]
fn a_normal_page_becomes_the_active_tab_url() {
    let mut ids = TabIdAllocator::new();
    let mut pool = linux_pool();
    let a = pool.handle_toolbar_page(&mut ids, "https://b.test/page", true);
    assert_eq!(listed(&a), (vec![(1, "https://b.test/page".to_string())], 1));
}

#[test]
fn new_tab_command_opens_a_blank_tab() {
    let mut ids = TabIdAllocator::new();
    let mut pool = linux_pool();
    let a = pool.handle_toolbar_page(&mut ids, "about:blank?__mb_new=1700000000000", true);
    assert_eq!(
        listed(&a),
        (vec![(1, "https://a.test/".to_string()), (1000, "about:blank".to_string())], 1000)
    );
    let b = pool.handle_toolbar_page(&mut ids, "about:blank?__mb_new=1700000000001", true);
    assert_eq!(listed(&b).1, 1001);
    assert_eq!(ids.next_id(), 1002);
}

#[test]
fn close_command_falls_back_to_most_recent_tab() {
    let mut ids = TabIdAllocator::new();
    let mut pool = linux_pool();
    pool.handle_toolbar_page(&mut ids, "about:blank?__mb_new=1", true);
    pool.handle_toolbar_page(&mut ids, "about:blank?__mb_new=2", true);
    // tabs 1, 1000, 1001; 1001 active
    let a = pool.handle_toolbar_page(&mut ids, "about:blank?__mb_close=1001", true);
    assert_eq!(
        listed(&a),
        (vec![(1, "https://a.test/".to_string()), (1000, "about:blank".to_string())], 1000)
    );
    // closing a tab that is not active leaves the active tab alone
    let b = pool.handle_toolbar_page(&mut ids, "about:blank?__mb_close=1&junk=2", true);
    assert_eq!(listed(&b), (vec![(1000, "about:blank".to_string())], 1000));
    // an id that does not parse closes nothing
    let c = pool.handle_toolbar_page(&mut ids, "about:blank?__mb_close=x", true);
    assert_eq!(listed(&c), (vec![(1000, "about:blank".to_string())], 1000));
}

#[test]
fn closing_the_last_tab_leaves_no_active_tab() {
    let mut ids = TabIdAllocator::new();
    let mut pool = linux_pool();
    let a = pool.handle_toolbar_page(&mut ids, "about:blank?__mb_close=1", true);
    assert_eq!(listed(&a), (vec![], 0));
    assert_eq!(pool.active_tab_id(), None);
}

#[test]
fn switch_command_navigates_to_a_real_page() {
    let mut ids = TabIdAllocator::new();
    let mut pool = linux_pool();
    pool.handle_toolbar_page(&mut ids, "about:blank?__mb_new=1", true);
    match pool.handle_toolbar_page(&mut ids, "about:blank?__mb_switch=1", true) {
        ToolbarAction::Navigate { script } => assert_eq!(script, "window.location.href = 'https://a.test/';"),
        _ => panic!("switching to a tab with a page navigates there"),
    }
    assert_eq!(pool.active_tab_id(), Some(1));
    // switching to a blank tab injects the toolbar instead
    let a = pool.handle_toolbar_page(&mut ids, "about:blank?__mb_switch=1000", true);
    assert_eq!(listed(&a).1, 1000);
}

#[test]
fn devtools_command() {
    let mut ids = TabIdAllocator::new();
    let mut pool = linux_pool();
    assert!(matches!(pool.handle_toolbar_page(&mut ids, "about:blank?__mb_devtools=1", true), ToolbarAction::OpenDevtools));
    let a = pool.handle_toolbar_page(&mut ids, "about:blank?__mb_devtools=", true);
    assert_eq!(listed(&a).1, 1);
}

#[test]
fn written_ids_come_back_from_command_urls() {
    let mut ids = TabIdAllocator::new();
    let mut pool = WebViewPool::new(Platform::Linux);
    for id in [-5, 0, 42, i32::MAX] {
        pool.create_tab(id, "about:blank").unwrap();
    }
    for id in [-5, 0, 42, i32::MAX] {
        let url = format!("about:blank?__mb_switch={}", mini_browser::text::decimal(id));
        pool.handle_toolbar_page(&mut ids, &url, true);
        assert_eq!(pool.active_tab_id(), Some(id));
    }
}
