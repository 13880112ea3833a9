use webprobe::crawler::audit::{flag_measurements, read_page, ShownMetrics};
use webprobe::crawler::frontier::{
    base_host, crawl_summary, follows_links, session_count, skips_link, skips_path, start_error, Crawl,
    LoginPage, PageFindings, StartError,
};
use webprobe::crawler::state::StateTracker;
use webprobe::double::Double;
use webprobe::issues::{Issue, IssueCategory, Severity};
use webprobe::page::{normalize_url, PageState};
use webprobe::report::{InteractiveElement, NetworkStats, PageInteractions, PerfMetrics};

fn texts(list: &[&str]) -> Vec<String> {
    list.iter().map(|s| s.to_string()).collect()
}

fn findings(url: &str, links: &[&str], elements: usize) -> PageFindings {
    let empty = serde_json::from_str("{}").unwrap();
    let mut found = read_page(&empty, url);
    found.links = texts(links);
    found.issues.push(Issue {
        severity: Severity::Info,
        category: IssueCategory::Seo,
        message: "m".to_string(),
        page_urls: vec![url.to_string()],
        affected_pages_count: None,
        element: None,
        action_path: vec![],
    });
    for _ in 0..elements {
        found.interactions.elements.push(InteractiveElement {
            kind: "link".to_string(),
            label: None,
            href: None,
            input_type: None,
        });
    }
    found.interactions.elements_found = elements;
    found
}

fn urls(pages: &[PageState]) -> Vec<&str> {
    pages.iter().map(|p| p.url.as_str()).collect()
}

#[test]
fn pages_are_marked_once() {
    let mut tracker = StateTracker::new();
    assert_eq!(tracker.count(), 0);
    assert!(tracker.visit("http://a"));
    assert!(!tracker.visit("http://a"));
    assert!(tracker.visit("http://b"));
    assert!(tracker.is_visited("http://a") && !tracker.is_visited("http://c"));
    assert_eq!(tracker.count(), 2);
    let mut fresh = StateTracker::default();
    assert_eq!(fresh.count(), 0);
    let new: Vec<bool> = ["a", "b", "a", "c", "b", "a"].iter().map(|t| fresh.visit(t)).collect();
    assert_eq!(new, vec![true, true, false, true, false, false]);
    assert_eq!(fresh.count(), 3);
}

#[test]
fn urls_are_normalized() {
    assert_eq!(normalize_url("http://a/b/"), "http://a/b");
    assert_eq!(normalize_url("http://a//"), "http://a");
    assert_eq!(normalize_url("http://a/b/?q=1#c"), "http://a/b/?q=1#c");
    assert_eq!(normalize_url("http://"), "http://");
    assert_eq!(normalize_url("/"), "/");
    assert_eq!(normalize_url("//"), "");
    assert_eq!(normalize_url("é/"), "é");
    let once = normalize_url("http://a/x///");
    assert_eq!(normalize_url(&once), once);
    let child = PageState::new("http://a/").child("http://a/b/", "link").child("http://a/c", "link");
    assert_eq!((child.url.as_str(), child.depth), ("http://a/c", 2));
    assert_eq!(child.action_path.len(), 2);
}

#[test]
fn paths_are_skipped_with_what_is_below() {
    let skip = texts(&["/map", "/logout"]);
    assert!(skips_path("/map", &skip) && skips_path("/map/1", &skip) && skips_path("/logout", &skip));
    assert!(!skips_path("/mapping", &skip) && !skips_path("/", &skip) && !skips_path("/a/map", &skip));
    assert!(skips_link("http://h:3000/map?x=1#y", &skip));
    assert!(skips_link("HTTP://H/./map/a", &skip));
    assert!(!skips_link("http://h/home", &skip));
    assert!(!skips_link("/map", &skip));
    assert!(!skips_link("http://h/map", &vec![]));
}

#[test]
fn start_url_needs_a_host() {
    assert_eq!(base_host("http://LocalHost:3000/a"), Ok("localhost".to_string()));
    assert_eq!(base_host("no url"), Err(StartError::InvalidUrl("relative URL without a base".to_string())));
    assert_eq!(base_host("http://"), Err(StartError::InvalidUrl("empty host".to_string())));
    assert_eq!(base_host("mailto:a@b"), Err(StartError::NoHost));
    assert_eq!(base_host("file:///etc"), Err(StartError::NoHost));
    assert_eq!(start_error(&StartError::NoHost, "mailto:a"), "Start URL has no host: mailto:a");
    let invalid = base_host("x").unwrap_err();
    assert_eq!(start_error(&invalid, "x"), "relative URL without a base");
    assert_eq!((session_count(0), session_count(1), session_count(4)), (1, 1, 4));
    assert!(follows_links(4, 5) && !follows_links(5, 5));
}

#[test]
fn crawl_visits_each_page_once() {
    let skip = texts(&["/skip"]);
    let (mut crawl, pages) = Crawl::begin("http://h/", 5, &skip, None);
    assert_eq!(urls(&pages), vec!["http://h"]);
    let links = ["http://h/b", "http://h/a/", "http://h/", "http://h/skip/x", "http://h/a"];
    let (new, over) = crawl.page_audited(&pages[0], findings("http://h", &links, 2), &skip);
    assert_eq!(urls(&new), vec!["http://h/b", "http://h/a"]);
    assert_eq!((new[0].depth, new[0].action_path.len()), (1, 1));
    assert!(!over);
    assert!(!crawl.page_failed());
    let (none, over) = crawl.page_audited(&new[1], findings("http://h/a", &["http://h/b"], 1), &skip);
    assert!(none.is_empty() && over);
    let result = crawl.finish(Double { bits: 1.5_f64.to_bits() });
    assert_eq!(result.stats.pages_visited, 2);
    assert_eq!((result.perf_metrics.len(), result.network_stats.len(), result.interactions.len()), (2, 2, 2));
    assert_eq!(result.stats.elements_interacted, 3);
    assert_eq!(f64::from_bits(result.stats.duration_secs.bits), 1.5);
    assert_eq!(result.stats.crawled_urls, vec!["http://h", "http://h/a"]);
    assert_eq!(result.discovered_urls, vec!["http://h", "http://h/a", "http://h/b"]);
    assert_eq!(result.issues.len(), 2);
    assert_eq!(
        crawl_summary(&result),
        "Crawled 2 pages  │  3 interactive elements  │  2 issues"
    );
}

#[test]
fn crawl_of_one_failed_page_is_over() {
    let (mut crawl, _) = Crawl::begin("http://h", 5, &vec![], None);
    assert!(crawl.page_failed());
    let result = crawl.finish(Double { bits: 0 });
    assert_eq!(result.stats.pages_visited, 0);
    assert!(result.discovered_urls.is_empty());
    assert_eq!(crawl_summary(&result), "Crawled 0 pages  │  0 interactive elements  │  0 issues");
}

#[test]
fn crawl_starts_from_the_login_too() {
    let skip = texts(&["/logout"]);
    let login = LoginPage {
        findings: findings("http://h/login", &["http://h/home", "http://h/logout", "http://h"], 1),
        landed: Some("http://h/dash/".to_string()),
    };
    let (crawl, pages) = Crawl::begin("http://h/", 5, &skip, Some(login));
    assert_eq!(urls(&pages), vec!["http://h", "http://h/dash", "http://h/home"]);
    assert_eq!(pages.iter().map(|p| p.depth).collect::<Vec<_>>(), vec![0, 0, 1]);
    assert_eq!(crawl.pending, 3);
    let result = crawl.finish(Double { bits: 0 });
    assert_eq!(result.stats.crawled_urls, vec!["http://h/dash/"]);
    assert_eq!(result.discovered_urls, vec!["http://h", "http://h/dash/", "http://h/home"]);
    assert_eq!(crawl_summary(&result), "Crawled 0 pages  │  1 interactive element  │  1 issue");
}

#[test]
fn skipped_paths_are_never_visited() {
    let skip = texts(&["/logout", "/dash"]);
    let login = || LoginPage {
        findings: findings("http://h/login", &["http://h/dash/x", "http://h/home"], 1),
        landed: Some("http://h/dash/".to_string()),
    };
    let (crawl, pages) = Crawl::begin("http://h/", 5, &skip, Some(login()));
    assert_eq!(urls(&pages), vec!["http://h", "http://h/home"]);
    let result = crawl.finish(Double { bits: 0 });
    assert!(result.stats.crawled_urls.is_empty());
    assert_eq!(result.discovered_urls, vec!["http://h/home"]);
    assert_eq!((result.issues.len(), result.stats.elements_interacted), (1, 1));

    let (crawl, pages) = Crawl::begin("http://h/logout/", 5, &skip, None);
    assert!(pages.is_empty());
    assert_eq!(crawl.pending, 0);
    assert!(crawl.finish(Double { bits: 0 }).stats.crawled_urls.is_empty());

    let (_, pages) = Crawl::begin("http://h/logout", 5, &skip, Some(login()));
    assert_eq!(urls(&pages), vec!["http://h/home"]);

    let (mut crawl, pages) = Crawl::begin("http://h", 5, &texts(&["/a/"]), None);
    let (new, _) =
        crawl.page_audited(&pages[0], findings("http://h", &["http://h/a/"], 0), &texts(&["/a/"]));
    assert!(new.is_empty());
}

#[test]
fn pages_lie_no_deeper_than_asked_for() {
    let none = vec![];
    let (mut crawl, pages) = Crawl::begin("http://h", 1, &none, None);
    let (new, over) = crawl.page_audited(&pages[0], findings("http://h", &["http://h/a"], 0), &none);
    assert_eq!((urls(&new), new[0].depth, over), (vec!["http://h/a"], 1, false));
    let (deeper, over) = crawl.page_audited(&new[0], findings("http://h/a", &["http://h/b"], 0), &none);
    assert!(deeper.is_empty() && over);
    assert_eq!(crawl.discovered, vec!["http://h/a"]);

    let login = LoginPage {
        findings: findings("http://h/login", &["http://h/home"], 0),
        landed: Some("http://h/dash".to_string()),
    };
    let (mut crawl, pages) = Crawl::begin("http://h", 0, &none, Some(login));
    assert_eq!(urls(&pages), vec!["http://h", "http://h/dash"]);
    assert!(crawl.discovered.is_empty());
    let (new, _) = crawl.page_audited(&pages[0], findings("http://h", &["http://h/a"], 0), &none);
    assert!(new.is_empty());
}

#[test]
fn landing_on_the_start_page_adds_nothing() {
    let login = LoginPage { findings: findings("http://h/login", &[], 0), landed: Some("http://h".to_string()) };
    let (crawl, pages) = Crawl::begin("http://h/", 5, &vec![], Some(login));
    assert_eq!(urls(&pages), vec!["http://h"]);
    assert_eq!(crawl.pending, 1);
    let lost = LoginPage { findings: findings("http://h/login", &["http://h/x"], 0), landed: None };
    let (crawl, pages) = Crawl::begin("http://h/", 5, &vec![], Some(lost));
    assert_eq!(urls(&pages), vec!["http://h"]);
    assert_eq!(crawl.crawled, vec![""]);
    assert!(crawl.discovered.is_empty());
}

#[test]
fn results_are_sorted_by_url() {
    let (mut crawl, pages) = Crawl::begin("http://h", 5, &vec![], None);
    let (new, _) = crawl.page_audited(&pages[0], findings("http://h/z", &["http://h/b", "http://h/a"], 1), &vec![]);
    for page in &new {
        crawl.page_audited(page, findings(&page.url, &[], 2), &vec![]);
    }
    let result = crawl.finish(Double { bits: 0 });
    let order: Vec<&str> = result.interactions.iter().map(|p| p.page_url.as_str()).collect();
    assert_eq!(order, vec!["http://h/a", "http://h/b", "http://h/z"]);
    assert_eq!(result.stats.crawled_urls, vec!["http://h", "http://h/a", "http://h/b"]);
}

fn shown() -> ShownMetrics {
    ShownMetrics {
        fcp: "F".to_string(),
        lcp: "L".to_string(),
        tti: "T".to_string(),
        cls: "C".to_string(),
        load: "D".to_string(),
        ttfb: "B".to_string(),
    }
}

fn measured(set: impl Fn(&mut PerfMetrics, &mut NetworkStats)) -> Vec<(Severity, String)> {
    let mut found = read_page(&serde_json::Value::Null, "http://h");
    set(&mut found.perf, &mut found.network);
    let flagged = flag_measurements(found, "http://h", &shown());
    flagged.issues.into_iter().map(|i| (i.severity, i.message)).collect()
}

fn some(x: f64) -> Option<Double> {
    Some(Double { bits: x.to_bits() })
}

#[test]
fn times_are_graded() {
    let error = |m: &str| vec![(Severity::Error, m.to_string())];
    let warning = |m: &str| vec![(Severity::Warning, m.to_string())];
    assert!(measured(|p, _| p.fcp_ms = some(1799.9)).is_empty());
    assert_eq!(measured(|p, _| p.fcp_ms = some(1800.0)), warning("FCP is slow: Fms (warn > 1.8s)"));
    assert_eq!(measured(|p, _| p.fcp_ms = some(3000.0)), warning("FCP is slow: Fms (warn > 1.8s)"));
    assert_eq!(measured(|p, _| p.fcp_ms = some(3000.1)), error("FCP is very slow: Fms (error > 3s)"));
    assert!(measured(|p, _| p.lcp_ms = some(2499.0)).is_empty());
    assert_eq!(measured(|p, _| p.lcp_ms = some(2500.0)), warning("LCP is slow: Lms (warn > 2.5s)"));
    assert_eq!(measured(|p, _| p.lcp_ms = some(4000.5)), error("LCP is very slow: Lms (error > 4s)"));
    assert!(measured(|p, _| p.tti_ms = some(3799.0)).is_empty());
    assert_eq!(measured(|p, _| p.tti_ms = some(3800.0)), warning("TTI is slow: Tms (warn > 3.8s)"));
    assert_eq!(measured(|p, _| p.tti_ms = some(7300.0)), error("TTI is very slow: Tms (error > 7.3s)"));
    assert!(measured(|p, _| p.cls_score = some(0.099)).is_empty());
    assert_eq!(measured(|p, _| p.cls_score = some(0.1)), warning("CLS is high: C (warn > 0.1)"));
    assert_eq!(measured(|p, _| p.cls_score = some(0.25)), error("CLS is extremely high: C (error > 0.25)"));
    assert!(measured(|p, _| p.load_ms = some(1999.0)).is_empty());
    assert_eq!(measured(|p, _| p.load_ms = some(2000.0)), warning("Page load is slow: Dms (warn > 2s)"));
    assert_eq!(measured(|p, _| p.load_ms = some(4001.0)), error("Page load is very slow: Dms (error > 4s)"));
    assert!(measured(|_, n| n.ttfb_ms = some(199.0)).is_empty());
    assert_eq!(measured(|_, n| n.ttfb_ms = some(600.0)), warning("TTFB is slow: Bms (warn > 200ms)"));
    assert_eq!(measured(|_, n| n.ttfb_ms = some(601.0)), error("TTFB is very slow: Bms (error > 600ms)"));
    assert!(measured(|p, _| p.fcp_ms = some(f64::NAN)).is_empty());
    assert!(measured(|p, _| p.dom_content_loaded_ms = some(1e9)).is_empty());
}

#[test]
fn whole_times_are_read_and_graded() {
    let severities = |text: &str| -> Vec<Severity> {
        let v = serde_json::from_str(text).unwrap();
        let flagged = flag_measurements(read_page(&v, "http://h"), "http://h", &shown());
        flagged.issues.iter().map(|i| i.severity).collect()
    };
    let v = serde_json::from_str(r#"{"perf":{"fcp":1800,"load":9007199254740992},"lcp":-3}"#).unwrap();
    let perf = read_page(&v, "http://h").perf;
    assert_eq!(perf.fcp_ms, some(1800.0));
    assert_eq!(perf.load_ms, some(9007199254740992.0));
    assert_eq!(perf.lcp_ms, some(-3.0));
    assert!(severities(r#"{"perf":{"fcp":1799}}"#).is_empty());
    assert_eq!(severities(r#"{"perf":{"fcp":1800}}"#), vec![Severity::Warning]);
    assert_eq!(severities(r#"{"perf":{"fcp":3000}}"#), vec![Severity::Warning]);
    assert_eq!(severities(r#"{"perf":{"fcp":3001}}"#), vec![Severity::Error]);
    assert_eq!(severities(r#"{"perf":{"tti":7300}}"#), vec![Severity::Error]);
    assert_eq!(severities(r#"{"net":{"ttfb":600}}"#), vec![Severity::Warning]);
    assert!(severities(r#"{"perf":{"fcp":-1,"tti":-9},"lcp":-5,"cls":-1}"#).is_empty());
}

#[test]
fn failed_resources_are_named() {
    let list = measured(|_, n| {
        n.failed_resource_count = 2;
        n.failed_resource_urls = texts(&["/a.js", "/b.css"]);
    });
    assert_eq!(list, vec![(Severity::Error, "2 resources failed to load — /a.js, /b.css".to_string())]);
    let one = measured(|_, n| n.failed_resource_count = 1);
    assert_eq!(one, vec![(Severity::Error, "1 resource failed to load".to_string())]);
}

#[test]
fn flagged_issues_come_after_reported_ones() {
    let v = serde_json::from_str(r#"{"issues":[{"sev":"info","cat":"seo","msg":"x"}]}"#).unwrap();
    let mut found = read_page(&v, "http://h");
    found.perf.load_ms = some(5000.0);
    found.network.ttfb_ms = some(300.0);
    let flagged = flag_measurements(found, "http://h", &shown());
    let categories: Vec<IssueCategory> = flagged.issues.iter().map(|i| i.category).collect();
    assert_eq!(
        categories,
        vec![IssueCategory::Seo, IssueCategory::Performance, IssueCategory::NetworkError]
    );
    for issue in &flagged.issues {
        assert_eq!(issue.page_urls, vec!["http://h"]);
        assert!(issue.action_path.is_empty() && issue.affected_pages_count.is_none());
    }
    let _: PageInteractions = flagged.interactions;
}
