use mini_browser::commands::make_navigation_script;
use mini_browser::platform::{user_agent, Platform};
use mini_browser::text::{chars_of, decimal, field_after, find, has_prefix, parse_i32, same_text};
use mini_browser::toolbar::{toolbar_injection_script, TabIdAllocator, TOOLBAR_SCRIPT};

fn parse(s: &str) -> Option<i32> {
    let v = chars_of(s);
    parse_i32(v.as_slice())
}

#[test]
fn user_agent_names_each_platform() {
    assert_eq!(
        user_agent(Platform::MacOs),
        "Mozilla/5.0 (Macintosh; Intel Mac OS X 10_15_7) AppleWebKit/605.1.15 (KHTML, like Gecko) Safari/603.1 Chrome/79.0.0.0 Firefox/72.0 moowcharnfu"
    );
    assert_eq!(
        user_agent(Platform::Windows),
        "Mozilla/5.0 (Windows NT 10.0; Win64; x64) AppleWebKit/605.1.15 (KHTML, like Gecko) Safari/603.1 Chrome/79.0.0.0 Firefox/72.0 moowcharnfu"
    );
    assert_eq!(
        user_agent(Platform::Linux),
        "Mozilla/5.0 (X11; Linux x86_64) AppleWebKit/605.1.15 (KHTML, like Gecko) Safari/603.1 Chrome/79.0.0.0 Firefox/72.0 moowcharnfu"
    );
}

#[test]
fn decimal_writes_like_format() {
    for n in [0, 7, 10, 1000, -1, -305, i32::MAX, i32::MIN] {
        assert_eq!(decimal(n), format!("{}", n));
    }
}

#[test]
fn parse_matches_std_parse() {
    let cases = [
        "0", "42", "+42", "-42", "-0", "007", "", "+", "-", "12a", " 1", "1 ", "2147483647",
        "2147483648", "-2147483648", "-2147483649", "99999999999999999999", "١٢",
    ];
    for c in cases {
        assert_eq!(parse(c), c.parse::<i32>().ok(), "input {:?}", c);
    }
}

#[test]
fn ids_survive_decimal_round_trip() {
    for n in [0, 1, 999, 1000, -17, i32::MAX, i32::MIN] {
        let s = decimal(n);
        assert_eq!(parse(&s), Some(n));
    }
}

#[test]
fn find_gives_first_occurrence_in_characters() {
    let s = chars_of("about:blank?__mb_close=12&__mb_close=13");
    let k = chars_of("__mb_close=");
    assert_eq!(find(&s, &k), Some(12));
    let none = chars_of("__mb_switch=");
    assert_eq!(find(&s, &none), None);
    let wide = chars_of("标签a=1");
    let a = chars_of("a=");
    assert_eq!(find(&wide, &a), Some(2));
}

#[test]
fn prefix_and_field() {
    let s = chars_of("about:blank?__mb_switch=1001&x=2");
    assert!(has_prefix(&s, &chars_of("about:blank")));
    assert!(!has_prefix(&s, &chars_of("http://localhost")));
    let f: String = field_after(&s, 24).into_iter().collect();
    assert_eq!(f, "1001");
    let t = chars_of("k=55");
    let g: String = field_after(&t, 2).into_iter().collect();
    assert_eq!(g, "55");
    let e: String = field_after(&t, 4).into_iter().collect();
    assert_eq!(e, "");
}

#[test]
fn same_text_compares_characters() {
    assert!(same_text("about:blank", "about:blank"));
    assert!(!same_text("about:blank", "about:blank?"));
}

#[test]
fn navigation_script_escapes_single_quotes() {
    assert_eq!(
        make_navigation_script("https://example.com/"),
        "window.location.href = 'https://example.com/';"
    );
    assert_eq!(
        make_navigation_script("https://e.com/?q=it's"),
        "window.location.href = 'https://e.com/?q=it\\'s';"
    );
    let url = "https://e.com/it's";
    let expected = format!("window.location.href = '{}';", url.replace('\'', "\\'"));
    assert_eq!(make_navigation_script(url), expected);
}

#[test]
fn injection_script_frames_tabs_and_active_id() {
    let s = toolbar_injection_script("[{\"id\":1000,\"url\":\"about:blank\"}]", 1000);
    let expected = format!(
        ";(function(){{try{{window.__MB_INLINE_TABS={};window.__MB_INLINE_ACTIVE={};{}}}catch(e){{}}}})();",
        "[{\"id\":1000,\"url\":\"about:blank\"}]", 1000, TOOLBAR_SCRIPT
    );
    assert_eq!(s, expected);
    let t = toolbar_injection_script("[]", -3);
    assert!(t.starts_with(";(function(){try{window.__MB_INLINE_TABS=[];window.__MB_INLINE_ACTIVE=-3;"));
}

#[test]
fn tab_ids_count_up_from_1000_and_wrap() {
    let mut a = TabIdAllocator::new();
    assert_eq!(a.next_id(), 1000);
    assert_eq!(a.next_id(), 1001);
    assert_eq!(a.next_id(), 1002);
}
