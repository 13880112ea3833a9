use serde_json::Value;
use webprobe::auth::CookieEntry;
use webprobe::crawler::audit::{
    collected_text, dom_is_ready, navigation_is_fatal, read_collected, read_page, EMPTY_RESULT,
};
use webprobe::crawler::collectors::JsCollector;
use webprobe::crawler::cookies::{assignment, driver_cookie, failure_note, fallback_script};
use webprobe::crawler::element::{discover_links, links_in};
use webprobe::crawler::script::build_collect_js;
use webprobe::issues::{IssueCategory, Severity};

fn json(text: &str) -> Value {
    serde_json::from_str(text).unwrap()
}

#[test]
fn fatal_navigations() {
    assert!(navigation_is_fatal("unknown error: net::ERR_CONNECTION_REFUSED"));
    assert!(navigation_is_fatal("net::ERR_NAME_NOT_RESOLVED at x"));
    assert!(navigation_is_fatal("about:neterror NS_ERROR_CONNECTION_REFUSED"));
    assert!(!navigation_is_fatal("net::ERR_ABORTED"));
}

#[test]
fn documents_become_ready() {
    assert!(dom_is_ready(Some(&json("\"complete\""))));
    assert!(dom_is_ready(Some(&json("\"interactive\""))));
    assert!(!dom_is_ready(Some(&json("\"loading\""))));
    assert!(!dom_is_ready(Some(&json("1"))) && !dom_is_ready(None));
}

#[test]
fn missing_collection_is_empty() {
    assert_eq!(collected_text(None), EMPTY_RESULT);
    assert_eq!(collected_text(Some(&json("5"))), EMPTY_RESULT);
    assert_eq!(collected_text(Some(&json("\"{}\""))), "{}");
    for reply in [None, Some(json("\"no json\"")), Some(json("null"))] {
        let found = read_collected(reply.as_ref(), "http://h");
        assert!(found.issues.is_empty() && found.links.is_empty());
        assert!(found.perf.fcp_ms.is_none() && found.network.resource_count == 0);
        assert_eq!(found.interactions.page_url, "http://h");
    }
}

#[test]
fn collected_values_are_read() {
    let text = r##"{
        "issues": [
            {"sev":"error","cat":"console_error","msg":"boom","el":"#a"},
            {"sev":"uncaught","cat":"accessibility","msg":"u"},
            {"sev":"rejection","cat":"seo"},
            {"sev":"warning","cat":"security","msg":"w"},
            {"cat":"other"}, 7],
        "links": ["http://h/a", 3, "http://h/b"],
        "perf": {"fcp": 410, "tti": 24.5, "dcl": -1, "load": 12},
        "lcp": 880.25, "cls": "no",
        "net": {"dns":1,"tcp":2,"tls":3,"ttfb":4,"download":5,"resource_count":6,
                "failed_resource_count":1,"failed_resource_urls":["/x.js"],
                "total_transfer_kb":12.5,"slowest_ms":99,"slowest_url":"/y.js"},
        "interactive": [
            {"kind":"link","label":"  Home \n","href":"/home"},
            {"label":"  ","href":"javascript:void(0)","input_type":"text"}]
    }"##;
    let found = read_collected(Some(&Value::from(text)), "http://h/p");
    let issues: Vec<(Severity, IssueCategory, &str, Option<&str>)> = found
        .issues
        .iter()
        .map(|i| (i.severity, i.category, i.message.as_str(), i.element.as_deref()))
        .collect();
    assert_eq!(
        issues,
        vec![
            (Severity::Error, IssueCategory::ConsoleError, "boom", Some("#a")),
            (Severity::Error, IssueCategory::Accessibility, "u", None),
            (Severity::Error, IssueCategory::Seo, "", None),
            (Severity::Warning, IssueCategory::Security, "w", None),
            (Severity::Info, IssueCategory::ConsoleError, "", None),
            (Severity::Info, IssueCategory::ConsoleError, "", None),
        ]
    );
    assert_eq!(found.links, vec!["http://h/a", "http://h/b"]);
    let number = |d: Option<webprobe::double::Double>| d.map(|x| f64::from_bits(x.bits));
    assert_eq!(number(found.perf.fcp_ms), Some(410.0));
    assert_eq!(number(found.perf.lcp_ms), Some(880.25));
    assert_eq!(number(found.perf.tti_ms), Some(24.5));
    assert_eq!(number(found.perf.cls_score), None);
    assert_eq!(number(found.perf.dom_content_loaded_ms), Some(-1.0));
    assert_eq!(number(found.perf.load_ms), Some(12.0));
    let n = &found.network;
    assert_eq!(number(n.dns_ms), Some(1.0));
    assert_eq!(number(n.tcp_connect_ms), Some(2.0));
    assert_eq!(number(n.tls_ms), Some(3.0));
    assert_eq!(number(n.ttfb_ms), Some(4.0));
    assert_eq!(number(n.download_ms), Some(5.0));
    assert_eq!((n.resource_count, n.failed_resource_count), (6, 1));
    assert_eq!(n.failed_resource_urls, vec!["/x.js"]);
    assert_eq!(f64::from_bits(n.total_transfer_kb.bits), 12.5);
    assert_eq!(number(n.slowest_resource_ms), Some(99.0));
    assert_eq!(n.slowest_resource_url.as_deref(), Some("/y.js"));
    let e = &found.interactions.elements;
    assert_eq!(found.interactions.elements_found, 2);
    assert_eq!((e[0].kind.as_str(), e[0].label.as_deref()), ("link", Some("Home")));
    assert_eq!(e[0].href.as_deref(), Some("/home"));
    assert_eq!((e[1].kind.as_str(), e[1].label.as_deref()), ("unknown", None));
    assert_eq!((e[1].href.as_deref(), e[1].input_type.as_deref()), (None, Some("text")));
}

#[test]
fn large_whole_numbers_become_the_nearest_double() {
    let found = read_page(&json(r#"{"lcp":18446744073709551615,"cls":-9007199254740993}"#), "u");
    assert_eq!(f64::from_bits(found.perf.lcp_ms.unwrap().bits), 18446744073709551615_u64 as f64);
    assert_eq!(f64::from_bits(found.perf.cls_score.unwrap().bits), -9007199254740993_i64 as f64);
}

#[test]
fn collection_script_is_filled_in() {
    let all = build_collect_js("localhost", true, None);
    assert!(all.contains("if (true) {"));
    assert!(all.contains("document.querySelectorAll('a[href]').forEach(function(el) {"));
    assert!(all.contains("\"localhost\") return;"));
    let part = build_collect_js("a\"b\\\u{1}\n", false, Some("nav[x=\"1\"]"));
    assert!(part.contains("if (false) {"));
    assert!(part.contains(
        "(document.querySelector(\"nav[x=\\\"1\\\"]\") || document).querySelectorAll('a[href]').forEach("
    ));
    assert!(part.contains("\"a\\\"b\\\\\\u0001\\n\") return;"));
    assert!(all.trim_end().ends_with("})(arguments[arguments.length - 1]);"));
    assert!(!all.contains("{{") && !all.contains("}}"));
}

#[test]
fn collector_listens_before_page_scripts() {
    let source = JsCollector::source();
    assert!(source.contains("window.__wp_errors = [];"));
    assert!(source.contains("largest-contentful-paint") && source.contains("longtask"));
}

#[test]
fn links_come_from_a_list_of_texts() {
    assert_eq!(links_in(Some(&json(r#"["a","b"]"#))), vec!["a", "b"]);
    assert!(links_in(Some(&json(r#"["a",1]"#))).is_empty());
    assert!(links_in(Some(&json("{}"))).is_empty() && links_in(None).is_empty());
    assert_eq!(discover_links(Some(&Value::from(r#"["http://h/a"]"#))), vec!["http://h/a"]);
    assert!(discover_links(Some(&Value::from("["))).is_empty());
    assert!(discover_links(Some(&json("[\"x\"]"))).is_empty());
    assert!(discover_links(None).is_empty());
}

fn entry(path: Option<&str>, domain: Option<&str>) -> CookieEntry {
    CookieEntry {
        name: "session".to_string(),
        value: "a\"b".to_string(),
        path: path.map(|s| s.to_string()),
        domain: domain.map(|s| s.to_string()),
        secure: Some(true),
        http_only: None,
    }
}

#[test]
fn cookies_are_given_to_the_driver() {
    let c = driver_cookie(&entry(Some("/p"), Some("..example.com")));
    assert_eq!((c.name.as_str(), c.value.as_str()), ("session", "a\"b"));
    assert_eq!(c.path.as_deref(), Some("/p"));
    assert_eq!(c.domain.as_deref(), Some("example.com"));
    assert!(c.secure && !c.http_only);
    let bare = driver_cookie(&CookieEntry { secure: Some(false), http_only: Some(true), ..entry(None, None) });
    assert!(bare.path.is_none() && bare.domain.is_none() && !bare.secure && bare.http_only);
}

#[test]
fn pages_set_cookies_themselves() {
    assert_eq!(assignment(&entry(None, None)), "session=a\"b");
    assert_eq!(assignment(&entry(Some("/p"), None)), "session=a\"b; path=/p");
    let e = entry(Some("/p"), None);
    assert_eq!(fallback_script(&e), r#"document.cookie = "session=a\"b; path=/p";"#);
    assert_eq!(failure_note(0, 3), None);
    assert_eq!(failure_note(1, 3).as_deref(), Some("1 of 3 cookies failed to inject"));
}
