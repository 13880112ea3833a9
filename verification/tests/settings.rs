use std::path::PathBuf;
use webprobe::issues::{Issue, IssueCategory, Severity};
use webprobe::report::{Report, ReportSummary};
use webprobe::settings::{
    limit_urls, load_targets, named_severity, normalize_url, output_name, pages_per_issue,
    parse_severity, parse_skip_paths, part_security, read_skip_paths, resolve_output, runs_load_test,
    select_issues, suffixed_name, OutputFormat,
};

#[test]
fn targets_become_full_urls() {
    assert_eq!(normalize_url("3000"), "http://localhost:3000");
    assert_eq!(normalize_url(" 5173\n"), "http://localhost:5173");
    assert_eq!(normalize_url("localhost:3000"), "http://localhost:3000");
    assert_eq!(normalize_url("http://x/y"), "http://x/y");
    assert_eq!(normalize_url("https://x"), "https://x");
    assert_eq!(normalize_url("ftp://x"), "http://ftp://x");
    assert_eq!(normalize_url(""), "http://localhost:");
    let once = normalize_url(" example.com ");
    assert_eq!(normalize_url(&once), once);
}

#[test]
fn skip_paths_need_a_slash() {
    assert_eq!(parse_skip_paths("/map,/logout"), vec!["/map", "/logout"]);
    let list = read_skip_paths(" /a , b,, /c ,d/e");
    assert_eq!(list.paths, vec!["/a", "/c"]);
    assert_eq!(list.refused, vec!["b", "d/e"]);
    assert!(parse_skip_paths("").is_empty());
    let joined = read_skip_paths(" /a , b,, /c ,d/e,/map,/logout");
    assert_eq!(joined.paths, vec!["/a", "/c", "/map", "/logout"]);
    assert_eq!(joined.refused, vec!["b", "d/e"]);
}

#[test]
fn formats_are_parsed() {
    assert_eq!(OutputFormat::parse("JSON"), Ok(OutputFormat::Json));
    assert_eq!(OutputFormat::parse("MsgPack"), Ok(OutputFormat::Msgpack));
    assert_eq!(
        OutputFormat::parse("Xml"),
        Err("Unsupported output format: Xml. Use 'json' or 'msgpack'.".to_string())
    );
    assert_eq!(OutputFormat::named(OutputFormat::Json.extension()), Some(OutputFormat::Json));
    assert_eq!(OutputFormat::named("JSON"), None);
}

#[test]
fn severities_are_parsed() {
    assert_eq!(parse_severity("Info"), Ok(Severity::Info));
    assert_eq!(parse_severity("WARN"), Ok(Severity::Warning));
    assert_eq!(parse_severity("warning"), Ok(Severity::Warning));
    assert_eq!(parse_severity("error"), Ok(Severity::Error));
    assert_eq!(parse_severity("crit"), Ok(Severity::Critical));
    assert_eq!(parse_severity("critical"), Ok(Severity::Critical));
    assert_eq!(
        parse_severity("Bad"),
        Err("Invalid severity 'Bad'. Use: info, warning, error, critical".to_string())
    );
    assert_eq!(named_severity("err"), None);
}

#[test]
fn output_paths() {
    assert_eq!(output_name("report", "20260304-182011", OutputFormat::Json), "report-20260304-182011.json");
    let given = resolve_output(Some(PathBuf::from("my.json")), "report", OutputFormat::Msgpack);
    assert_eq!(given, PathBuf::from("my.json"));
    let made = resolve_output(None, "load", OutputFormat::Msgpack);
    let name = made.to_str().unwrap();
    assert!(name.starts_with("load-") && name.ends_with(".msgpack"));
    assert_eq!(name.len(), "load-20260304-182011.msgpack".len());
    let stamp: Vec<char> = name[5..20].chars().collect();
    assert_eq!(stamp[8], '-');
    assert!(stamp.iter().enumerate().all(|(i, c)| i == 8 || c.is_ascii_digit()));
    assert_eq!(suffixed_name(Some("report"), "crawl", Some("json"), OutputFormat::Msgpack), "report.crawl.json");
    assert_eq!(suffixed_name(None, "load", None, OutputFormat::Msgpack), "report.load.msgpack");
}

fn issue(severity: Severity, category: IssueCategory, message: &str, url: &str) -> Issue {
    Issue {
        severity,
        category,
        message: message.to_string(),
        page_urls: vec![url.to_string()],
        affected_pages_count: None,
        element: None,
        action_path: vec![],
    }
}

#[test]
fn selection_keeps_the_gravest() {
    let seo = IssueCategory::Seo;
    let issues = vec![
        issue(Severity::Info, seo, "i", "a"),
        issue(Severity::Error, seo, "e", "a"),
        issue(Severity::Warning, seo, "w", "b"),
        issue(Severity::Error, seo, "e", "b"),
        issue(Severity::Error, seo, "f", "b"),
    ];
    let all = select_issues(issues.clone(), 1, Severity::Info, None);
    let messages: Vec<&str> = all.iter().map(|i| i.message.as_str()).collect();
    assert_eq!(messages, vec!["e", "f", "w", "i"]);
    assert_eq!(all[0].page_urls, vec!["a"]);
    assert_eq!(all[0].affected_pages_count, Some(2));
    let grave = select_issues(issues.clone(), 20, Severity::Warning, None);
    assert_eq!(grave.len(), 3);
    let few = select_issues(issues.clone(), 20, Severity::Warning, Some(2));
    assert_eq!(few.iter().map(|i| i.message.as_str()).collect::<Vec<_>>(), vec!["e", "f"]);
    assert!(select_issues(issues, 20, Severity::Critical, Some(9)).is_empty());
    assert_eq!(pages_per_issue(None, false), 20);
    assert_eq!(pages_per_issue(None, true), 100);
    assert_eq!(pages_per_issue(Some(3), true), 3);
}

#[test]
fn security_is_parted() {
    let issues = vec![
        issue(Severity::Info, IssueCategory::Seo, "1", "a"),
        issue(Severity::Info, IssueCategory::Security, "2", "a"),
        issue(Severity::Info, IssueCategory::Performance, "3", "a"),
    ];
    let (others, security) = part_security(&issues);
    assert_eq!(others.iter().map(|i| i.message.as_str()).collect::<Vec<_>>(), vec!["1", "3"]);
    assert_eq!(security.iter().map(|i| i.message.as_str()).collect::<Vec<_>>(), vec!["2"]);
}

#[test]
fn load_is_put_on_what_was_found() {
    assert!(runs_load_test(false, 1) && !runs_load_test(true, 1) && !runs_load_test(false, 0));
    assert_eq!(load_targets("t", vec![]), vec!["t"]);
    assert_eq!(load_targets("t", vec!["a".to_string()]), vec!["a"]);
    let urls = vec!["a".to_string(), "b".to_string()];
    assert_eq!(limit_urls(urls.clone(), Some(1)), vec!["a"]);
    assert_eq!(limit_urls(urls.clone(), Some(5)), urls);
    assert_eq!(limit_urls(urls.clone(), None), urls);
}

#[test]
fn summary_counts_by_severity() {
    let mut report = Report::new("http://t");
    assert_eq!(report.tool, "webprobe");
    assert_eq!(report.version, "0.1.0");
    assert!(report.timestamp.ends_with('Z') && report.timestamp.contains('T'));
    report.issues = vec![
        issue(Severity::Critical, IssueCategory::Seo, "", ""),
        issue(Severity::Error, IssueCategory::Seo, "", ""),
        issue(Severity::Error, IssueCategory::Seo, "", ""),
        issue(Severity::Info, IssueCategory::Seo, "", ""),
    ];
    report.compute_summary();
    assert_eq!(
        report.summary,
        ReportSummary { critical: 1, errors: 2, warnings: 0, infos: 1, total: 4 }
    );
    let stamped = Report::stamped("http://t", "2026-03-04T18:20:11Z".to_string());
    assert_eq!(stamped.timestamp, "2026-03-04T18:20:11Z");
}
