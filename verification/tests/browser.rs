use minis::browser::actions::{BrowserAction, BrowserActionInput, BrowserActionResult, ScrollDirection};
use minis::browser::auth_router::GoogleAuthRouter;
use minis::browser::cookie::{Cookie, CookieStore};
use minis::browser::history::BrowserHistory;
use minis::browser::js::{js_string, Js};
use minis::browser::tab_pool::TabPool;
use minis::browser::user_agent::UserAgentProfile;
use minis::time::Timestamp;

#[test]
fn test_action_from_str() {
    assert_eq!(BrowserAction::from_str("navigate"), Some(BrowserAction::Navigate));
    assert_eq!(BrowserAction::from_str("screenshot"), Some(BrowserAction::Screenshot));
    assert_eq!(BrowserAction::from_str("invalid"), None);
}

#[test]
fn test_action_as_str() {
    assert_eq!(BrowserAction::Navigate.as_str(), "navigate");
    assert_eq!(BrowserAction::ScrollAndCollect.as_str(), "scroll_and_collect");
}

#[test]
fn test_opens_new_page() {
    assert!(BrowserAction::Navigate.opens_new_page());
    assert!(!BrowserAction::Click.opens_new_page());
    assert!(!BrowserAction::Screenshot.opens_new_page());
}

#[test]
fn test_visual_change() {
    assert!(BrowserAction::Navigate.is_visual_change());
    assert!(BrowserAction::Click.is_visual_change());
    assert!(!BrowserAction::GetText.is_visual_change());
}

#[test]
fn test_all_values() {
    let vals = BrowserAction::all_values();
    assert_eq!(vals.len(), 22);
    assert!(vals.contains(&"navigate"));
    assert!(vals.contains(&"wait_for_dom_stable"));
}

#[test]
fn test_scroll_direction() {
    assert_eq!(ScrollDirection::from_str("up"), Some(ScrollDirection::Up));
    assert_eq!(ScrollDirection::from_str("down"), Some(ScrollDirection::Down));
    assert_eq!(ScrollDirection::from_str("sideways"), None);
}

#[test]
fn test_input_validate_navigate_ok() {
    let input = BrowserActionInput {
        action: "navigate".into(),
        url: Some("https://example.com".into()),
        ..Default::default()
    };
    assert!(input.validate().is_ok());
}

#[test]
fn test_input_validate_navigate_missing_url() {
    let input = BrowserActionInput { action: "navigate".into(), ..Default::default() };
    assert!(input.validate().is_err());
}

#[test]
fn test_input_validate_type_missing_text() {
    let input = BrowserActionInput {
        action: "type".into(),
        selector: Some("#input".into()),
        ..Default::default()
    };
    assert!(input.validate().is_err());
}

#[test]
fn test_input_validate_scroll_missing_direction() {
    let input = BrowserActionInput { action: "scroll".into(), ..Default::default() };
    assert!(input.validate().is_err());
}

#[test]
fn test_input_validate_unknown_action() {
    let input = BrowserActionInput { action: "frobnicate".into(), ..Default::default() };
    assert!(input.validate().is_err());
}

#[test]
fn test_input_validate_click_with_coords() {
    let input = BrowserActionInput {
        action: "click".into(),
        coordinate_x: Some(100),
        coordinate_y: Some(200),
        ..Default::default()
    };
    assert!(input.validate().is_ok());
}

#[test]
fn test_result_ok() {
    let r = BrowserActionResult::ok("done".into());
    assert!(r.success);
    assert_eq!(r.text, "done");
}

#[test]
fn test_result_error() {
    let r = BrowserActionResult::error("failed");
    assert!(!r.success);
    assert!(r.text.contains("failed"));
}

#[test]
fn test_result_screenshot() {
    let r = BrowserActionResult::screenshot(
        "captured".into(),
        "base64".into(),
        "/tmp/shot.jpg".into(),
        "minis://browser/shot.jpg".into(),
    );
    assert!(r.success);
    assert_eq!(r.minis_url.as_deref(), Some("minis://browser/shot.jpg"));
    assert!(r.base64_image.is_some());
}

#[test]
fn test_action_names_round_trip() {
    for name in BrowserAction::all_values() {
        let action = BrowserAction::from_str(name).unwrap();
        assert_eq!(action.as_str(), name);
    }
}

#[test]
fn test_scroll_direction_round_trip() {
    for d in [ScrollDirection::Up, ScrollDirection::Down] {
        assert_eq!(ScrollDirection::from_str(d.as_str()), Some(d));
    }
}

#[test]
fn test_google_auth_url() {
    assert!(GoogleAuthRouter::is_google_auth_url("https://accounts.google.com/signin"));
    assert!(GoogleAuthRouter::is_google_auth_url("https://signin.google.com/"));
    assert!(GoogleAuthRouter::is_google_auth_url("https://oauth2.googleapis.com/token"));
    assert!(GoogleAuthRouter::is_google_auth_url("https://sub.accounts.google.com/login"));
}

#[test]
fn test_non_google_url() {
    assert!(!GoogleAuthRouter::is_google_auth_url("https://example.com"));
    assert!(!GoogleAuthRouter::is_google_auth_url("https://github.com/login"));
    assert!(!GoogleAuthRouter::is_google_auth_url("https://google.com/search"));
}

#[test]
fn test_google_auth_url_ignores_case_and_port() {
    assert!(GoogleAuthRouter::is_google_auth_url("https://Accounts.Google.COM:443/x"));
    assert!(!GoogleAuthRouter::is_google_auth_url("HTTPS://accounts.google.com/x"));
    assert!(!GoogleAuthRouter::is_google_auth_url("https://"));
    assert!(!GoogleAuthRouter::is_google_auth_url("https://evilaccounts.google.com.example/"));
}

#[test]
fn test_disallowed_useragent() {
    assert!(GoogleAuthRouter::is_disallowed_useragent("Error: disallowed_useragent"));
    assert!(GoogleAuthRouter::is_disallowed_useragent("403 browser is not secure"));
    assert!(!GoogleAuthRouter::is_disallowed_useragent("normal page content"));
}

#[test]
fn test_extract_host() {
    assert_eq!(GoogleAuthRouter::extract_host("https://example.com/path"), Some("example.com"));
    assert_eq!(GoogleAuthRouter::extract_host("http://localhost:8080"), Some("localhost"));
    assert_eq!(GoogleAuthRouter::extract_host("not-a-url"), Some("not-a-url"));
    assert_eq!(GoogleAuthRouter::extract_host("https:///path"), None);
}

#[test]
fn test_click_selector() {
    let js = Js::click_selector("#button");
    assert!(js.contains("querySelector"));
    assert!(js.contains("#button"));
}

#[test]
fn test_click_coords() {
    let js = Js::click_coords(100, 200);
    assert!(js.contains("100"));
    assert!(js.contains("200"));
    assert!(js.contains("elementFromPoint"));
}

#[test]
fn test_type_text() {
    let js = Js::type_text("#input", "hello");
    assert!(js.contains("#input"));
    assert!(js.contains("hello"));
    assert!(js.contains("dispatchEvent"));
}

#[test]
fn test_get_text() {
    let js = Js::get_text(".content");
    assert!(js.contains("textContent"));
}

#[test]
fn test_scroll() {
    let js = Js::scroll("down", 500);
    assert!(js.contains("500"));
    assert!(js.contains("scrollBy"));
}

#[test]
fn test_scroll_up() {
    let js = Js::scroll("up", 300);
    assert!(js.contains("-300"));
}

#[test]
fn test_get_page_info() {
    let js = Js::get_page_info();
    assert!(js.contains("location.href"));
    assert!(js.contains("document.title"));
}

#[test]
fn test_get_readable() {
    let js = Js::get_readable();
    assert!(js.contains("article"));
    assert!(js.contains("innerText"));
}

#[test]
fn test_get_backbone() {
    let js = Js::get_backbone(3);
    assert!(js.contains("3"));
    assert!(js.contains("tagName"));
}

#[test]
fn test_js_string_escape() {
    let s = js_string("it's a test");
    assert!(s.contains("\\'"));
}

#[test]
fn test_js_string_exact() {
    assert_eq!(js_string("a'b\\c\nd"), "'a\\'b\\\\c\\nd'");
    assert_eq!(js_string(""), "''");
}

#[test]
fn test_find_elements() {
    let js = Js::find_elements("div.card");
    assert!(js.contains("querySelectorAll"));
    assert!(js.contains("div.card"));
}

#[test]
fn test_hover() {
    let js = Js::hover("#menu-item");
    assert!(js.contains("mouseover"));
}

#[test]
fn test_from_str() {
    assert_eq!(UserAgentProfile::from_str("mobile_chrome"), Some(UserAgentProfile::MobileChrome));
    assert_eq!(UserAgentProfile::from_str("desktop_chrome"), Some(UserAgentProfile::DesktopChrome));
    assert_eq!(UserAgentProfile::from_str("invalid"), None);
}

#[test]
fn test_user_agent_string() {
    assert!(UserAgentProfile::MobileChrome.user_agent_string().unwrap().contains("Android"));
    assert!(UserAgentProfile::DesktopChrome.user_agent_string().unwrap().contains("Linux x86_64"));
    assert_eq!(UserAgentProfile::Custom.user_agent_string(), None);
}

#[test]
fn test_viewport_size() {
    assert_eq!(UserAgentProfile::DesktopChrome.viewport_size(), (1280, 800));
    assert_eq!(UserAgentProfile::MobileChrome.viewport_size(), (412, 915));
}

#[test]
fn test_profile_names_round_trip() {
    for p in [UserAgentProfile::MobileChrome, UserAgentProfile::DesktopChrome, UserAgentProfile::Custom] {
        assert_eq!(UserAgentProfile::from_str(p.as_str()), Some(p));
    }
    assert_eq!(UserAgentProfile::Custom.display_name(), "Custom");
}

fn cookie(name: &str, domain: &str) -> Cookie {
    Cookie {
        name: name.into(),
        value: "v".into(),
        domain: domain.into(),
        path: "/".into(),
        secure: false,
        http_only: false,
        expires: None,
    }
}

#[test]
fn test_cookie_load_after_save() {
    let mut store = CookieStore::new();
    store.save("a.com", vec![cookie("x", "a.com")]);
    store.save("b.com", vec![cookie("y", "b.com"), cookie("z", "b.com")]);
    store.save("a.com", vec![cookie("w", "a.com")]);
    let a = store.load("a.com");
    assert_eq!(a.len(), 1);
    assert_eq!(a[0].name, "w");
    assert_eq!(store.load("b.com").len(), 2);
    assert!(store.load("c.com").is_empty());
}

#[test]
fn test_cookie_clear_domain() {
    let mut store = CookieStore::default();
    store.save("a.com", vec![cookie("x", "a.com")]);
    store.save("b.com", vec![cookie("y", "b.com")]);
    store.clear_domain("a.com");
    assert!(store.load("a.com").is_empty());
    assert_eq!(store.load("b.com").len(), 1);
}

#[test]
fn test_tab_pool_limits() {
    let mut pool = TabPool::new(2);
    let a = pool.create_tab("https://a").unwrap();
    let b = pool.create_tab("https://b").unwrap();
    assert_ne!(a, b);
    assert!(pool.create_tab("https://c").is_none());
    assert_eq!(pool.list_tabs().len(), 2);
    pool.close_tab(a);
    assert!(pool.get_tab(a).is_none());
    assert_eq!(pool.get_tab(b).unwrap().url, "https://b");
    let c = pool.create_tab("https://c").unwrap();
    assert!(c != a && c != b);
}

#[test]
fn test_tab_pool_default_holds_three() {
    let mut pool = TabPool::default();
    assert!(pool.create_tab("1").is_some());
    assert!(pool.create_tab("2").is_some());
    assert!(pool.create_tab("3").is_some());
    assert!(pool.create_tab("4").is_none());
}

#[test]
fn test_history_keeps_latest() {
    let mut h = BrowserHistory::new(2);
    let t = Timestamp { secs: 0, nanos: 0 };
    h.add("u1", "t1", t);
    h.add("u2", "t2", t);
    h.add("u3", "t3", t);
    let l = h.list();
    assert_eq!(l.len(), 2);
    assert_eq!(l[0].url, "u2");
    assert_eq!(l[1].url, "u3");
}

#[test]
fn test_history_add_records_now() {
    let mut h = BrowserHistory::default();
    let t = Timestamp { secs: 1_700_000_000, nanos: 5 };
    h.add("https://x", "X", t);
    assert_eq!(h.list().len(), 1);
    assert_eq!(h.list()[0].title, "X");
    assert_eq!(h.list()[0].visited_at, t);
}

#[test]
fn test_google_auth_host() {
    assert!(GoogleAuthRouter::is_google_auth_host("accounts.youtube.com"));
    assert!(GoogleAuthRouter::is_google_auth_host("x.myaccount.google.com"));
    assert!(!GoogleAuthRouter::is_google_auth_host("Accounts.Google.com"));
    assert!(!GoogleAuthRouter::is_google_auth_host("notaccounts.google.com"));
}

#[test]
fn test_tab_ids_not_reused_after_close() {
    let mut pool = TabPool::new(2);
    let a = pool.create_tab("https://a.example").unwrap();
    let b = pool.create_tab("https://b.example").unwrap();
    assert_eq!(pool.create_tab("https://c.example"), None);
    pool.close_tab(a);
    pool.close_tab(b);
    let c = pool.create_tab("https://c.example").unwrap();
    assert!(c != a && c != b);
    assert_eq!(c, 2);
}
