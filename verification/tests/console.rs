use webprobe::console::{
    format_report, plural_ending, render_report, severity_style, truncate_path, ShownReport, RULE,
};
use webprobe::double::Double;
use webprobe::issues::{Issue, IssueCategory, Severity};
use webprobe::report::{LoadTestResult, Report};

#[test]
fn test_truncate_urls_removes_common_prefix() {
    let target = "http://localhost:3000";
    let urls = vec![
        "http://localhost:3000/",
        "http://localhost:3000/dashboard",
        "http://localhost:3000/settings",
    ];
    let mut result = Vec::new();
    for url in &urls {
        result.push(truncate_path(url, target));
    }
    assert_eq!(result, vec!["", "dashboard", "settings"]);
}

#[test]
fn test_truncate_urls_removes_trailing_slash() {
    let target = "http://localhost:3000/";
    let urls = vec!["http://localhost:3000/", "http://localhost:3000/dashboard"];
    let mut result = Vec::new();
    for url in &urls {
        result.push(truncate_path(url, target));
    }
    assert_eq!(result, vec!["", "dashboard"]);
}

#[test]
fn other_urls_are_not_truncated() {
    assert_eq!(truncate_path("http://example.com/a", "http://localhost:3000"), "http://example.com/a");
    assert_eq!(truncate_path("http://localhost:30001/a", "http://localhost:3000"), "1/a");
    assert_eq!(truncate_path("http://x", "http://"), "x");
}

fn shown() -> ShownReport {
    ShownReport {
        duration: "6.4".to_string(),
        throughput: "2044.2".to_string(),
        error_rate: "0.0".to_string(),
        mean: "0".to_string(),
        p50: "0".to_string(),
        p90: "1".to_string(),
        p95: "1".to_string(),
        p99: "3".to_string(),
        max: "84".to_string(),
    }
}

fn issue(severity: Severity, message: &str, urls: &[&str], count: Option<usize>) -> Issue {
    Issue {
        severity,
        category: IssueCategory::Accessibility,
        message: message.to_string(),
        page_urls: urls.iter().map(|u| u.to_string()).collect(),
        affected_pages_count: count,
        element: None,
        action_path: vec![],
    }
}

#[test]
fn empty_report_is_rendered() {
    let mut report = Report::new("http://localhost:5173");
    report.crawl_stats.pages_visited = 3;
    let text = render_report(&report, &shown(), false);
    let expected = format!(
        "\n{RULE}\n  webprobe v0.1.0\n  Target : http://localhost:5173\n  Crawled: 3 pages  |  6.4s\n{RULE}\n\
         \n  ✓ No issues found!\n\n\
         \n{RULE}\n  Summary  0 critical  0 errors  0 warnings  0 info\n{RULE}\n\n"
    );
    assert_eq!(text, expected);
}

#[test]
fn issues_are_rendered_gravest_first() {
    let target = "http://localhost";
    let mut report = Report::new(target);
    report.crawl_stats.pages_visited = 1;
    let urls: Vec<String> = (0..7).map(|i| format!("{target}/p{}", 6 - i)).collect();
    let refs: Vec<&str> = urls.iter().map(|s| s.as_str()).collect();
    let mut first = issue(Severity::Warning, "few", &["http://localhost/x"], Some(1));
    first.element = Some("<img>".to_string());
    report.issues = vec![
        first,
        issue(Severity::Warning, "many", &refs, Some(9)),
        issue(Severity::Critical, "worst", &[], None),
    ];
    report.compute_summary();
    let text = render_report(&report, &shown(), false);
    let start = text.find("\n  ── Issues").unwrap();
    let end = text.rfind("  Summary").unwrap();
    let body = &text[start..end];
    assert_eq!(
        body,
        format!(
            "\n  ── Issues ──────────────────────────────────────────────────\n\
             {}\n{}\n{}\n{}\n{}\n{}\n{}\n{}\n{}\n{}\n{}\n\n{RULE}\n",
            "  ● CRITICAL [Accessibility] worst (0 pages)",
            "  ◆ WARN     [Accessibility] many (9 pages)",
            "    p0",
            "    p1",
            "    p2",
            "    p3",
            "    p4",
            "    · 2 more",
            "  ◆ WARN     [Accessibility] few (1 pages)",
            "       ↳ <img>",
            "    x",
        )
    );
    assert!(text.contains("  Summary  1 critical  0 errors  2 warnings  0 info\n"));
}

#[test]
fn load_test_is_rendered() {
    let zero = Double { bits: 0 };
    let mut report = Report::new("http://localhost");
    report.load_test = Some(LoadTestResult {
        url: "http://localhost".to_string(),
        users: 1,
        duration_secs: 30,
        total_requests: 61326,
        successful_requests: 61320,
        failed_requests: 6,
        error_rate_pct: zero,
        throughput_rps: zero,
        latency_p50_ms: zero,
        latency_p90_ms: zero,
        latency_p95_ms: zero,
        latency_p99_ms: zero,
        latency_min_ms: zero,
        latency_max_ms: zero,
        latency_mean_ms: zero,
    });
    let text = render_report(&report, &shown(), false);
    assert!(text.contains(
        "\n  ── Load Test ─────────────────────────────────────────────\n\
         \x20 1 users  ×  30s  →  2044.2 req/s\n\
         \x20 Requests: 61326 total  61320 ok  6 failed  (0.0% error rate)\n\
         \x20 Latency  mean:0ms  p50:0ms  p90:1ms  p95:1ms  p99:3ms  max:84ms\n"
    ));
}

#[test]
fn styles_stand_between_codes() {
    let (icon, word) = severity_style(&Severity::Critical, true);
    assert_eq!(icon, console::Style::new().red().bold().force_styling(true).apply_to("●").to_string());
    assert_eq!(icon, "\x1b[31m\x1b[1m●\x1b[0m");
    assert_eq!(word, "\x1b[31m\x1b[1mCRITICAL\x1b[0m");
    assert_eq!(severity_style(&Severity::Error, true).1, "\x1b[31mERROR   \x1b[0m");
    assert_eq!(severity_style(&Severity::Warning, true).0, "\x1b[33m◆\x1b[0m");
    assert_eq!(severity_style(&Severity::Info, true).1, "\x1b[2mINFO    \x1b[0m");
    assert_eq!(severity_style(&Severity::Info, false).1, "INFO    ");
    let report = Report::new("http://t");
    let text = render_report(&report, &shown(), true);
    assert!(text.contains("\x1b[36m\x1b[1mwebprobe\x1b[0m \x1b[2mv0.1.0\x1b[0m"));
    assert!(text.contains("\x1b[4mhttp://t\x1b[0m"));
    assert!(text.contains("\x1b[32m\x1b[1m✓\x1b[0m No issues found!"));
    assert!(text.starts_with(&format!("\n\x1b[36m{RULE}\x1b[0m\n")));
}

#[test]
fn formatted_report_is_rendered_either_way() {
    let report = Report::new("http://t");
    let text = format_report(&report, &shown());
    let plain = render_report(&report, &shown(), false);
    let colored = render_report(&report, &shown(), true);
    assert!(text == plain || text == colored);
    assert_eq!(text == colored, console::colors_enabled());
}

#[test]
fn plural_endings() {
    assert_eq!(plural_ending(0), "s");
    assert_eq!(plural_ending(1), "");
    assert_eq!(plural_ending(2), "s");
}
