use webprobe::issues::{deduplicate_issues, Issue, IssueCategory, Severity};
use webprobe::page::PageState;

#[test]
fn test_page_state_fingerprint_deduplication() {
    let mut state1 = PageState::new("http://example.com/login");
    let mut state2 = PageState::new("http://example.com/login");

    state1.action_path = vec![];
    state2.action_path = vec!["link".to_string(), "button_click".to_string()];

    assert_eq!(
        state1.fingerprint(),
        state2.fingerprint(),
        "Fingerprints must match ignoring action path to prevent infinite ping-ponging across cross-linked pages"
    );

    assert_eq!(PageState::new("http://example.com").fingerprint(), "http://example.com");
    assert_eq!(PageState::new("http://example.com/").fingerprint(), "http://example.com");
    assert_eq!(PageState::new("http://example.com/path").fingerprint(), "http://example.com/path");
    assert_eq!(PageState::new("http://example.com/path/").fingerprint(), "http://example.com/path");
}

#[test]
fn test_deduplicate_issues() {
    let issue1 = Issue {
        severity: Severity::Error,
        category: IssueCategory::ConsoleError,
        message: "Uncaught TypeError".to_string(),
        page_urls: vec![
            "http://localhost/".to_string(),
            "http://localhost/page1".to_string(),
        ],
        element: Some("#root".to_string()),
        action_path: vec!["click".to_string()],
        affected_pages_count: None,
    };
    let issue2 = Issue {
        severity: Severity::Error,
        category: IssueCategory::ConsoleError,
        message: "Uncaught TypeError".to_string(),
        page_urls: vec!["http://localhost/page2".to_string()],
        element: Some("#root".to_string()),
        action_path: vec!["link".to_string()],
        affected_pages_count: None,
    };
    let issue3 = Issue {
        severity: Severity::Warning,
        category: IssueCategory::Performance,
        message: "Slow resource".to_string(),
        page_urls: vec!["http://localhost/".to_string()],
        element: None,
        action_path: vec![],
        affected_pages_count: None,
    };
    let input = vec![issue1.clone(), issue2, issue3, issue1.clone()];
    let result = deduplicate_issues(input, 100);

    assert_eq!(result.len(), 2);

    let error_issue = result
        .iter()
        .find(|i| matches!(i.severity, Severity::Error))
        .unwrap();
    assert_eq!(error_issue.message, "Uncaught TypeError");
    assert_eq!(error_issue.category, IssueCategory::ConsoleError);
    assert_eq!(error_issue.element, Some("#root".to_string()));
    let mut urls = error_issue.page_urls.clone();
    urls.sort();
    assert_eq!(
        urls,
        vec![
            "http://localhost/".to_string(),
            "http://localhost/page1".to_string(),
            "http://localhost/page2".to_string()
        ]
    );
    assert!(error_issue.action_path.is_empty());

    let warning_issue = result
        .iter()
        .find(|i| matches!(i.severity, Severity::Warning))
        .unwrap();
    assert_eq!(warning_issue.message, "Slow resource");
    assert_eq!(warning_issue.page_urls, vec!["http://localhost/".to_string()]);
    assert!(warning_issue.action_path.is_empty());
}

#[test]
fn test_deduplicate_issues_truncates_large_url_sets() {
    let mut many_urls = Vec::new();
    for i in 0..150 {
        many_urls.push(format!("http://localhost/page{}", i));
    }
    let issue = Issue {
        severity: Severity::Warning,
        category: IssueCategory::ConsoleError,
        message: "Many pages".to_string(),
        page_urls: many_urls.clone(),
        element: None,
        action_path: vec![],
        affected_pages_count: None,
    };
    let result = deduplicate_issues(vec![issue], 100);

    assert_eq!(result.len(), 1);
    let deduped = &result[0];
    assert_eq!(deduped.page_urls.len(), 100);
    assert_eq!(deduped.affected_pages_count, Some(150));
    let mut expected_sample = many_urls;
    expected_sample.sort();
    expected_sample.truncate(100);
    assert_eq!(deduped.page_urls, expected_sample);
}
