use webprobe::crawler::audit::read_page;
use webprobe::crawler::frontier::CrawlResult;
use webprobe::double::Double;
use webprobe::issues::{deduplicate_issues, Issue, IssueCategory, Severity};
use webprobe::report::{CrawlStats, LoadTestResult, PerfMetrics, Report, ReportSummary};
use webprobe::results::{report_crawl, separate, ReportLimits};

fn texts(list: &[&str]) -> Vec<String> {
    list.iter().map(|s| s.to_string()).collect()
}

fn issue(severity: Severity, category: IssueCategory, message: &str, url: &str) -> Issue {
    Issue {
        severity,
        category,
        message: message.to_string(),
        page_urls: vec![url.to_string()],
        affected_pages_count: None,
        element: None,
        action_path: vec!["link".to_string()],
    }
}

fn result() -> CrawlResult {
    CrawlResult {
        issues: vec![
            issue(Severity::Info, IssueCategory::Seo, "i", "a"),
            issue(Severity::Error, IssueCategory::Security, "e", "a"),
            issue(Severity::Error, IssueCategory::Security, "e", "b"),
            issue(Severity::Warning, IssueCategory::Seo, "w", "b"),
        ],
        perf_metrics: vec![],
        network_stats: vec![],
        stats: CrawlStats {
            pages_visited: 3,
            duration_secs: Double { bits: 2.5_f64.to_bits() },
            elements_interacted: 7,
            crawled_urls: texts(&["a", "b", "c"]),
        },
        discovered_urls: texts(&["c", "a", "d", "b", "a"]),
        interactions: vec![],
    }
}

fn limits() -> ReportLimits {
    ReportLimits {
        pages_per_issue: 20,
        min_severity: Severity::Info,
        max_total_issues: None,
        max_discovered: None,
    }
}

fn load_test() -> LoadTestResult {
    let zero = Double { bits: 0 };
    LoadTestResult {
        url: "http://t".to_string(),
        users: 1,
        duration_secs: 30,
        total_requests: 10,
        successful_requests: 9,
        failed_requests: 1,
        error_rate_pct: zero,
        throughput_rps: zero,
        latency_p50_ms: zero,
        latency_p90_ms: zero,
        latency_p95_ms: zero,
        latency_p99_ms: zero,
        latency_min_ms: zero,
        latency_max_ms: zero,
        latency_mean_ms: zero,
    }
}

#[test]
fn report_holds_what_the_crawl_brought() {
    let blank = Report::stamped("http://t", "now".to_string());
    let (report, found) = report_crawl(blank, result(), &limits());
    assert_eq!(found, vec!["a", "b", "c", "d"]);
    assert_eq!(report.discovered_urls, found);
    assert_eq!((report.timestamp.as_str(), report.target_url.as_str()), ("now", "http://t"));
    assert_eq!(report.crawl_stats.pages_visited, 3);
    assert_eq!(report.crawl_stats.elements_interacted, 7);
    assert_eq!(f64::from_bits(report.crawl_stats.duration_secs.bits), 2.5);
    assert_eq!(report.crawl_stats.crawled_urls, vec!["a", "b", "c"]);
    let messages: Vec<&str> = report.issues.iter().map(|i| i.message.as_str()).collect();
    assert_eq!(messages, vec!["e", "w", "i"]);
    assert_eq!(report.issues[0].affected_pages_count, Some(2));
    assert_eq!(
        report.summary,
        ReportSummary { critical: 0, errors: 1, warnings: 1, infos: 1, total: 3 }
    );
    assert!(report.pages.is_empty() && report.load_test.is_none());
}

fn speed(url: &str, load: f64) -> PerfMetrics {
    let mut perf = read_page(&serde_json::Value::Null, url).perf;
    perf.load_ms = Some(Double { bits: load.to_bits() });
    perf
}

#[test]
fn report_has_a_page_for_each_url() {
    let mut crawl = result();
    crawl.perf_metrics = vec![speed("b", 1.0), speed("a", 2.0), speed("b", 3.0)];
    let mut network = read_page(&serde_json::Value::Null, "a").network;
    network.resource_count = 4;
    network.failed_resource_urls = texts(&["x", "y"]);
    crawl.network_stats = vec![network];
    crawl.interactions = vec![read_page(&serde_json::Value::Null, "c").interactions];
    let (report, _) = report_crawl(Report::new("http://t"), crawl, &limits());
    let urls: Vec<&str> = report.pages.iter().map(|p| p.url.as_str()).collect();
    assert_eq!(urls, vec!["a", "b", "c"]);
    let load = |i: usize| report.pages[i].perf_metrics.as_ref().map(|p| p.load_ms.unwrap().bits);
    assert_eq!((load(0), load(1), load(2)), (Some(2.0_f64.to_bits()), Some(1.0_f64.to_bits()), None));
    let stats = report.pages[0].network_stats.as_ref().unwrap();
    assert_eq!((stats.page_url.as_str(), stats.resource_count), ("a", 4));
    assert_eq!(stats.failed_resource_urls, vec!["x", "y"]);
    assert!(report.pages[1].network_stats.is_none() && report.pages[1].interactions.is_none());
    assert_eq!(report.pages[2].interactions.as_ref().unwrap().page_url, "c");
}

#[test]
fn report_keeps_to_its_limits() {
    let tight = ReportLimits {
        pages_per_issue: 1,
        min_severity: Severity::Warning,
        max_total_issues: Some(1),
        max_discovered: Some(2),
    };
    let (report, found) = report_crawl(Report::new("http://t"), result(), &tight);
    assert_eq!(found.len(), 4);
    assert_eq!(report.discovered_urls, vec!["a", "b"]);
    assert_eq!(report.crawl_stats.crawled_urls, vec!["a", "b"]);
    assert_eq!(report.issues.len(), 1);
    assert_eq!(report.issues[0].page_urls, vec!["a"]);
    assert_eq!(report.summary.total, 1);
}

#[test]
fn report_carries_the_moment_it_was_made() {
    let mut whole = Report::stamped("http://t", "then".to_string());
    whole.load_test = Some(load_test());
    let parts = separate(whole);
    for report in [Report::new("http://t"), parts.crawl, parts.pentest, parts.load.unwrap()] {
        let made: Vec<char> = report.timestamp.chars().collect();
        assert_eq!(made.last(), Some(&'Z'));
        for (i, c) in made.iter().take(19).enumerate() {
            match i {
                4 | 7 => assert_eq!(*c, '-'),
                10 => assert_eq!(*c, 'T'),
                13 | 16 => assert_eq!(*c, ':'),
                _ => assert!(c.is_ascii_digit()),
            }
        }
    }
}

#[test]
fn report_is_parted() {
    let (mut report, _) = report_crawl(Report::new("http://t"), result(), &limits());
    report.load_test = Some(load_test());
    let whole = report.summary;
    let parts = separate(report);
    let messages = |r: &Report| r.issues.iter().map(|i| i.message.clone()).collect::<Vec<_>>();
    assert_eq!(messages(&parts.crawl), vec!["w", "i"]);
    assert_eq!(messages(&parts.pentest), vec!["e"]);
    assert_eq!(parts.crawl.summary.total + parts.pentest.summary.total, whole.total);
    assert_eq!(parts.pentest.summary.errors, 1);
    assert_eq!((parts.crawl.crawl_stats.pages_visited, parts.pentest.crawl_stats.pages_visited), (3, 0));
    assert!(parts.crawl.crawl_stats.crawled_urls.is_empty() && parts.crawl.discovered_urls.is_empty());
    assert!(parts.crawl.load_test.is_none() && parts.pentest.load_test.is_none());
    let load = parts.load.unwrap();
    assert_eq!(load.load_test.unwrap().total_requests, 10);
    assert!(load.issues.is_empty());
    assert_eq!(load.target_url, "http://t");
    assert!(separate(Report::new("http://t")).load.is_none());
}

#[test]
fn order_of_issues_does_not_matter() {
    let all = result().issues;
    let mut reversed = all.clone();
    reversed.reverse();
    let a = deduplicate_issues(all, 5);
    let b = deduplicate_issues(reversed, 5);
    let key = |i: &Issue| (i.severity, i.category, i.message.clone(), i.page_urls.clone(), i.affected_pages_count);
    assert_eq!(a.iter().map(key).collect::<Vec<_>>(), b.iter().map(key).collect::<Vec<_>>());
    assert!(a.iter().all(|i| i.action_path.is_empty()));
}

#[test]
fn page_limit_only_cuts_the_lists() {
    let few = deduplicate_issues(result().issues, 1);
    let many = deduplicate_issues(result().issues, 9);
    assert_eq!(few.len(), many.len());
    for (a, b) in few.iter().zip(&many) {
        assert_eq!((&a.message, a.affected_pages_count), (&b.message, b.affected_pages_count));
        assert_eq!(a.page_urls, b.page_urls[..1]);
    }
    assert_eq!(many[0].page_urls, vec!["a", "b"]);
}

#[test]
fn graver_issues_and_those_on_more_pages_come_first() {
    let list = deduplicate_issues(
        vec![
            issue(Severity::Warning, IssueCategory::Seo, "b", "1"),
            issue(Severity::Warning, IssueCategory::Seo, "a", "1"),
            issue(Severity::Warning, IssueCategory::Seo, "c", "1"),
            issue(Severity::Warning, IssueCategory::Seo, "c", "2"),
            issue(Severity::Critical, IssueCategory::LoadTest, "z", "1"),
        ],
        0,
    );
    let messages: Vec<&str> = list.iter().map(|i| i.message.as_str()).collect();
    assert_eq!(messages, vec!["z", "c", "a", "b"]);
    assert!(list.iter().all(|i| i.page_urls.is_empty()));
    assert_eq!(list[1].affected_pages_count, Some(2));
}

#[test]
fn severities_and_categories_are_labelled() {
    let labels: Vec<&str> =
        [Severity::Info, Severity::Warning, Severity::Error, Severity::Critical].iter().map(|s| s.label()).collect();
    assert_eq!(labels, vec!["INFO", "WARN", "ERROR", "CRITICAL"]);
    let categories: Vec<&str> = [
        IssueCategory::ConsoleError,
        IssueCategory::NetworkError,
        IssueCategory::BrokenLink,
        IssueCategory::FailedResource,
        IssueCategory::Accessibility,
        IssueCategory::Performance,
        IssueCategory::Security,
        IssueCategory::Seo,
        IssueCategory::LoadTest,
        IssueCategory::UnhandledRejection,
    ]
    .iter()
    .map(|c| c.label())
    .collect();
    assert_eq!(
        categories,
        vec![
            "Console Error", "Network Error", "Broken Link", "Failed Resource", "Accessibility",
            "Performance", "Security", "SEO", "Load Test", "Unhandled Rejection",
        ]
    );
}
