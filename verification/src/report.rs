//! What a run reports: measurements per page, totals, issues and their summary.

use vstd::prelude::*;

use crate::double::Double;
use crate::issues::{issue_views, Issue, IssueView, Severity};
use crate::text::{copied, opt_view, views};

verus! {

/// How fast a page came up.
#[derive(Debug)]
pub struct PerfMetrics {
    pub page_url: String,
    /// First Contentful Paint (ms).
    pub fcp_ms: Option<Double>,
    /// Largest Contentful Paint (ms).
    pub lcp_ms: Option<Double>,
    /// Time to Interactive (ms).
    pub tti_ms: Option<Double>,
    /// Cumulative Layout Shift score.
    pub cls_score: Option<Double>,
    /// DOM Content Loaded (ms).
    pub dom_content_loaded_ms: Option<Double>,
    /// Load event (ms).
    pub load_ms: Option<Double>,
}

/// How fast a page came up.
pub ghost struct PerfView {
    pub page_url: Seq<char>,
    pub fcp_ms: Option<Double>,
    pub lcp_ms: Option<Double>,
    pub tti_ms: Option<Double>,
    pub cls_score: Option<Double>,
    pub dom_content_loaded_ms: Option<Double>,
    pub load_ms: Option<Double>,
}

impl View for PerfMetrics {
    type V = PerfView;

    open spec fn view(&self) -> PerfView {
        PerfView {
            page_url: self.page_url@,
            fcp_ms: self.fcp_ms,
            lcp_ms: self.lcp_ms,
            tti_ms: self.tti_ms,
            cls_score: self.cls_score,
            dom_content_loaded_ms: self.dom_content_loaded_ms,
            load_ms: self.load_ms,
        }
    }
}

impl Clone for PerfMetrics {
    fn clone(&self) -> (r: Self)
        ensures
            r@ == self@,
    {
        PerfMetrics {
            page_url: self.page_url.clone(),
            fcp_ms: self.fcp_ms,
            lcp_ms: self.lcp_ms,
            tti_ms: self.tti_ms,
            cls_score: self.cls_score,
            dom_content_loaded_ms: self.dom_content_loaded_ms,
            load_ms: self.load_ms,
        }
    }
}

/// How fast several pages came up.
pub open spec fn perf_views(list: Seq<PerfMetrics>) -> Seq<PerfView> {
    list.map_values(|p: PerfMetrics| p@)
}

/// What a load test measured.
#[derive(Debug, Clone)]
pub struct LoadTestResult {
    pub url: String,
    pub users: u32,
    pub duration_secs: u64,
    pub total_requests: u64,
    pub successful_requests: u64,
    pub failed_requests: u64,
    pub error_rate_pct: Double,
    pub throughput_rps: Double,
    pub latency_p50_ms: Double,
    pub latency_p90_ms: Double,
    pub latency_p95_ms: Double,
    pub latency_p99_ms: Double,
    pub latency_min_ms: Double,
    pub latency_max_ms: Double,
    pub latency_mean_ms: Double,
}

/// Network timing of one page.
#[derive(Debug)]
pub struct NetworkStats {
    pub page_url: String,
    /// DNS lookup time of the main document (ms).
    pub dns_ms: Option<Double>,
    /// TCP connection setup time (ms).
    pub tcp_connect_ms: Option<Double>,
    /// TLS negotiation time (ms).
    pub tls_ms: Option<Double>,
    /// Time To First Byte (ms).
    pub ttfb_ms: Option<Double>,
    /// Download time of the response body (ms).
    pub download_ms: Option<Double>,
    /// Number of sub-resources loaded.
    pub resource_count: usize,
    /// Number of sub-resources that appear to have failed.
    pub failed_resource_count: usize,
    /// URLs of the sub-resources that failed to load.
    pub failed_resource_urls: Vec<String>,
    /// Estimated transfer size of all resources (KB).
    pub total_transfer_kb: Double,
    /// Duration of the slowest sub-resource (ms).
    pub slowest_resource_ms: Option<Double>,
    /// URL of the slowest sub-resource.
    pub slowest_resource_url: Option<String>,
}

/// Network timing of one page.
pub ghost struct NetworkView {
    pub page_url: Seq<char>,
    pub dns_ms: Option<Double>,
    pub tcp_connect_ms: Option<Double>,
    pub tls_ms: Option<Double>,
    pub ttfb_ms: Option<Double>,
    pub download_ms: Option<Double>,
    pub resource_count: usize,
    pub failed_resource_count: usize,
    pub failed_resource_urls: Seq<Seq<char>>,
    pub total_transfer_kb: Double,
    pub slowest_resource_ms: Option<Double>,
    pub slowest_resource_url: Option<Seq<char>>,
}

impl View for NetworkStats {
    type V = NetworkView;

    open spec fn view(&self) -> NetworkView {
        NetworkView {
            page_url: self.page_url@,
            dns_ms: self.dns_ms,
            tcp_connect_ms: self.tcp_connect_ms,
            tls_ms: self.tls_ms,
            ttfb_ms: self.ttfb_ms,
            download_ms: self.download_ms,
            resource_count: self.resource_count,
            failed_resource_count: self.failed_resource_count,
            failed_resource_urls: views(self.failed_resource_urls@),
            total_transfer_kb: self.total_transfer_kb,
            slowest_resource_ms: self.slowest_resource_ms,
            slowest_resource_url: opt_view(self.slowest_resource_url),
        }
    }
}

impl Clone for NetworkStats {
    fn clone(&self) -> (r: Self)
        ensures
            r@ == self@,
    {
        NetworkStats {
            page_url: self.page_url.clone(),
            dns_ms: self.dns_ms,
            tcp_connect_ms: self.tcp_connect_ms,
            tls_ms: self.tls_ms,
            ttfb_ms: self.ttfb_ms,
            download_ms: self.download_ms,
            resource_count: self.resource_count,
            failed_resource_count: self.failed_resource_count,
            failed_resource_urls: copied(&self.failed_resource_urls),
            total_transfer_kb: self.total_transfer_kb,
            slowest_resource_ms: self.slowest_resource_ms,
            slowest_resource_url: self.slowest_resource_url.clone(),
        }
    }
}

/// Network timing of several pages.
pub open spec fn network_views(list: Seq<NetworkStats>) -> Seq<NetworkView> {
    list.map_values(|n: NetworkStats| n@)
}

/// An element of a page that a user can act on.
#[derive(Debug)]
pub struct InteractiveElement {
    /// "link", "button", "input", "select" or "textarea".
    pub kind: String,
    /// Visible label, accessible name or placeholder text.
    pub label: Option<String>,
    /// Target, of links.
    pub href: Option<String>,
    /// Type attribute, of inputs.
    pub input_type: Option<String>,
}

/// The contents of an interactive element.
pub ghost struct ElementView {
    pub kind: Seq<char>,
    pub label: Option<Seq<char>>,
    pub href: Option<Seq<char>>,
    pub input_type: Option<Seq<char>>,
}

impl View for InteractiveElement {
    type V = ElementView;

    open spec fn view(&self) -> ElementView {
        ElementView {
            kind: self.kind@,
            label: opt_view(self.label),
            href: opt_view(self.href),
            input_type: opt_view(self.input_type),
        }
    }
}

impl Clone for InteractiveElement {
    fn clone(&self) -> (r: Self)
        ensures
            r@ == self@,
    {
        InteractiveElement {
            kind: self.kind.clone(),
            label: self.label.clone(),
            href: self.href.clone(),
            input_type: self.input_type.clone(),
        }
    }
}

/// The contents of a list of interactive elements.
pub open spec fn element_views(list: Seq<InteractiveElement>) -> Seq<ElementView> {
    list.map_values(|e: InteractiveElement| e@)
}

/// The interactive elements of one page.
#[derive(Debug)]
pub struct PageInteractions {
    pub page_url: String,
    /// Number of interactive elements found.
    pub elements_found: usize,
    pub elements: Vec<InteractiveElement>,
}

/// The contents of the interactive elements of one page.
pub ghost struct InteractionsView {
    pub page_url: Seq<char>,
    pub elements_found: usize,
    pub elements: Seq<ElementView>,
}

impl View for PageInteractions {
    type V = InteractionsView;

    open spec fn view(&self) -> InteractionsView {
        InteractionsView {
            page_url: self.page_url@,
            elements_found: self.elements_found,
            elements: element_views(self.elements@),
        }
    }
}

impl Clone for PageInteractions {
    fn clone(&self) -> (r: Self)
        ensures
            r@ == self@,
    {
        let mut elements: Vec<InteractiveElement> = Vec::new();
        let mut i: usize = 0;
        while i < self.elements.len()
            invariant
                i <= self.elements.len(),
                element_views(elements@) =~= element_views(self.elements@).take(i as int),
            decreases self.elements.len() - i,
        {
            let ghost before = element_views(elements@);
            elements.push(self.elements[i].clone());
            proof {
                assert(element_views(elements@) =~= before.push(self.elements@[i as int]@));
            }
            i += 1;
        }
        proof {
            assert(element_views(elements@) =~= element_views(self.elements@));
        }
        PageInteractions {
            page_url: self.page_url.clone(),
            elements_found: self.elements_found,
            elements,
        }
    }
}

/// The contents of the interactive elements of several pages.
pub open spec fn interaction_views(list: Seq<PageInteractions>) -> Seq<InteractionsView> {
    list.map_values(|p: PageInteractions| p@)
}

/// Totals of a crawl.
#[derive(Debug, Clone)]
pub struct CrawlStats {
    pub pages_visited: usize,
    pub duration_secs: Double,
    /// Number of interactive elements on all pages.
    pub elements_interacted: usize,
    /// Every URL that was audited.
    pub crawled_urls: Vec<String>,
}

impl Default for CrawlStats {
    fn default() -> (r: Self)
        ensures
            r.pages_visited == 0,
            r.duration_secs.bits == 0,
            r.elements_interacted == 0,
            r.crawled_urls@ == Seq::<String>::empty(),
    {
        CrawlStats {
            pages_visited: 0,
            duration_secs: Double { bits: 0 },
            elements_interacted: 0,
            crawled_urls: Vec::new(),
        }
    }
}

/// What was collected on one page.
#[derive(Debug, Clone)]
pub struct PageReport {
    pub url: String,
    pub perf_metrics: Option<PerfMetrics>,
    pub network_stats: Option<NetworkStats>,
    pub interactions: Option<PageInteractions>,
}

/// What was collected on one page.
pub ghost struct PageView {
    pub url: Seq<char>,
    pub perf_metrics: Option<PerfView>,
    pub network_stats: Option<NetworkView>,
    pub interactions: Option<InteractionsView>,
}

impl View for PageReport {
    type V = PageView;

    open spec fn view(&self) -> PageView {
        PageView {
            url: self.url@,
            perf_metrics: match self.perf_metrics {
                Some(p) => Some(p@),
                None => None,
            },
            network_stats: match self.network_stats {
                Some(n) => Some(n@),
                None => None,
            },
            interactions: match self.interactions {
                Some(i) => Some(i@),
                None => None,
            },
        }
    }
}

/// What was collected on several pages.
pub open spec fn report_views(list: Seq<PageReport>) -> Seq<PageView> {
    list.map_values(|p: PageReport| p@)
}

/// Issue counts by severity.
#[derive(Debug, Clone, Copy, PartialEq, Eq, Structural)]
pub struct ReportSummary {
    pub critical: usize,
    pub errors: usize,
    pub warnings: usize,
    pub infos: usize,
    pub total: usize,
}

impl Default for ReportSummary {
    fn default() -> (r: Self)
        ensures
            r == (ReportSummary { critical: 0, errors: 0, warnings: 0, infos: 0, total: 0 }),
    {
        ReportSummary { critical: 0, errors: 0, warnings: 0, infos: 0, total: 0 }
    }
}

/// The report of one run.
#[derive(Debug)]
pub struct Report {
    pub tool: String,
    pub version: String,
    /// When the report was made, in RFC 3339 form.
    pub timestamp: String,
    pub target_url: String,
    pub issues: Vec<Issue>,
    pub pages: Vec<PageReport>,
    pub crawl_stats: CrawlStats,
    /// All URLs of the site that were found, crawled or not.
    pub discovered_urls: Vec<String>,
    pub load_test: Option<LoadTestResult>,
    pub summary: ReportSummary,
}

/// How many of the issues have that severity.
pub open spec fn severity_count(issues: Seq<IssueView>, severity: Severity) -> nat
    decreases issues.len(),
{
    if issues.len() == 0 {
        0
    } else {
        severity_count(issues.drop_last(), severity) + if issues.last().severity == severity {
            1nat
        } else {
            0
        }
    }
}

/// `summary` counts `issues` by severity and in all.
pub open spec fn summarizes(summary: ReportSummary, issues: Seq<IssueView>) -> bool {
    &&& summary.critical == severity_count(issues, Severity::Critical)
    &&& summary.errors == severity_count(issues, Severity::Error)
    &&& summary.warnings == severity_count(issues, Severity::Warning)
    &&& summary.infos == severity_count(issues, Severity::Info)
    &&& summary.total == issues.len()
}

/// The four counts of a summary add up to its total.
pub proof fn summary_adds_up(issues: Seq<IssueView>)
    ensures
        severity_count(issues, Severity::Critical) + severity_count(issues, Severity::Error)
            + severity_count(issues, Severity::Warning) + severity_count(issues, Severity::Info)
            == issues.len(),
    decreases issues.len(),
{
    if issues.len() > 0 {
        summary_adds_up(issues.drop_last());
    }
}

/// `report` is for `target_url` and holds nothing yet.
pub open spec fn is_blank(report: Report, target_url: Seq<char>) -> bool {
    &&& report.tool@ == "webprobe"@
    &&& report.version@ == "0.1.0"@
    &&& report.target_url@ == target_url
    &&& report.issues@ == Seq::<Issue>::empty()
    &&& report.pages@ == Seq::<PageReport>::empty()
    &&& report.crawl_stats.pages_visited == 0
    &&& report.crawl_stats.duration_secs.bits == 0
    &&& report.crawl_stats.elements_interacted == 0
    &&& report.crawl_stats.crawled_urls@ == Seq::<String>::empty()
    &&& report.discovered_urls@ == Seq::<String>::empty()
    &&& report.load_test == None::<LoadTestResult>
    &&& report.summary == (ReportSummary {
        critical: 0,
        errors: 0,
        warnings: 0,
        infos: 0,
        total: 0,
    })
}

/// A decimal digit.
pub open spec fn is_digit(c: char) -> bool {
    '0' <= c <= '9'
}

/// In `s` a date stands before position `t`, as in `2024-01-31`, and a time of day behind it,
/// as in `23:59:59`.
pub open spec fn parts_at(s: Seq<char>, t: int) -> bool {
    &&& 10 <= t && t + 10 <= s.len()
    &&& s[t] == 'T'
    &&& s[t - 6] == '-' && s[t - 3] == '-'
    &&& is_digit(s[t - 10]) && is_digit(s[t - 9]) && is_digit(s[t - 8]) && is_digit(s[t - 7])
    &&& is_digit(s[t - 5]) && is_digit(s[t - 4]) && is_digit(s[t - 2]) && is_digit(s[t - 1])
    &&& s[t + 3] == ':' && s[t + 6] == ':'
    &&& is_digit(s[t + 1]) && is_digit(s[t + 2]) && is_digit(s[t + 4]) && is_digit(s[t + 5])
    &&& is_digit(s[t + 7]) && is_digit(s[t + 8])
}

/// `s` is a date and a time of day in UTC, as in `2024-01-31T23:59:59.5Z`.
pub open spec fn is_moment(s: Seq<char>) -> bool {
    &&& s.len() > 0 && s.last() == 'Z'
    &&& exists|t: int| parts_at(s, t)
}

/// `chrono::Utc::now` reads the clock; `DateTime::to_rfc3339_opts` writes the moment down.
/// Which moment that is depends on the time of the call: stated is the form alone.
#[verifier::external_body]
fn utc_now() -> (r: String)
    ensures
        is_moment(r@),
{
    chrono::Utc::now().to_rfc3339_opts(chrono::SecondsFormat::AutoSi, true)
}

impl Report {
    /// An empty report on `target_url`, made now.
    pub fn new(target_url: &str) -> (r: Self)
        ensures
            is_blank(r, target_url@),
            is_moment(r.timestamp@),
    {
        Report::stamped(target_url, utc_now())
    }

    /// An empty report on `target_url` that carries the given moment.
    pub fn stamped(target_url: &str, timestamp: String) -> (r: Self)
        ensures
            is_blank(r, target_url@),
            r.timestamp@ == timestamp@,
    {
        Report {
            tool: "webprobe".to_string(),
            version: "0.1.0".to_string(),
            timestamp,
            target_url: target_url.to_string(),
            issues: Vec::new(),
            pages: Vec::new(),
            crawl_stats: CrawlStats::default(),
            discovered_urls: Vec::new(),
            load_test: None,
            summary: ReportSummary::default(),
        }
    }

    /// Counts the issues by severity.
    pub fn compute_summary(&mut self)
        ensures
            summarizes(final(self).summary, issue_views(old(self).issues@)),
            final(self).tool == old(self).tool,
            final(self).version == old(self).version,
            final(self).timestamp == old(self).timestamp,
            final(self).target_url == old(self).target_url,
            final(self).issues == old(self).issues,
            final(self).pages == old(self).pages,
            final(self).crawl_stats == old(self).crawl_stats,
            final(self).discovered_urls == old(self).discovered_urls,
            final(self).load_test == old(self).load_test,
    {
        self.summary = summarize(&self.issues);
    }
}

/// Issue counts by severity.
pub fn summarize(issues: &Vec<Issue>) -> (s: ReportSummary)
    ensures
        summarizes(s, issue_views(issues@)),
{
    let mut s = ReportSummary::default();
    let mut i: usize = 0;
    while i < issues.len()
        invariant
            i <= issues.len(),
            s.total == i,
            summarizes(s, issue_views(issues@).take(i as int)),
            s.critical <= i,
            s.errors <= i,
            s.warnings <= i,
            s.infos <= i,
        decreases issues.len() - i,
    {
        proof {
            let all = issue_views(issues@);
            assert(all.take(i + 1).drop_last() =~= all.take(i as int));
        }
        match issues[i].severity {
            Severity::Critical => s.critical += 1,
            Severity::Error => s.errors += 1,
            Severity::Warning => s.warnings += 1,
            Severity::Info => s.infos += 1,
        }
        s.total += 1;
        i += 1;
    }
    proof {
        assert(issue_views(issues@).take(i as int) =~= issue_views(issues@));
    }
    s
}

/// The issues of a severity in two lists are those in the one and those in the other; a single
/// issue counts for its own severity and no other.
pub proof fn severity_counts_add_up(
    a: Seq<IssueView>,
    b: Seq<IssueView>,
    issue: IssueView,
    severity: Severity,
)
    ensures
        severity_count(a + b, severity) == severity_count(a, severity) + severity_count(b, severity),
        issue.severity == severity ==> severity_count(seq![issue], severity) == 1,
        issue.severity != severity ==> severity_count(seq![issue], severity) == 0,
    decreases b.len(),
{
    assert(seq![issue].drop_last() =~= Seq::<IssueView>::empty());
    assert(severity_count(Seq::<IssueView>::empty(), severity) == 0);
    if b.len() == 0 {
        assert(a + b =~= a);
    } else {
        severity_counts_add_up(a, b.drop_last(), issue, severity);
        assert((a + b).drop_last() =~= a + b.drop_last());
        assert((a + b).last() == b.last());
    }
}

/// A summary counts each issue once, under its own severity.
pub proof fn summary_counts_every_issue(summary: ReportSummary, issues: Seq<IssueView>)
    requires
        summarizes(summary, issues),
    ensures
        summary.critical == severity_count(issues, Severity::Critical),
        summary.errors == severity_count(issues, Severity::Error),
        summary.warnings == severity_count(issues, Severity::Warning),
        summary.infos == severity_count(issues, Severity::Info),
        summary.total == issues.len(),
        summary.critical + summary.errors + summary.warnings + summary.infos == summary.total,
{
    summary_adds_up(issues);
}

/// The contents of the speed of a page are all that its fields hold.
pub proof fn speed_is_what_it_holds(perf: PerfMetrics)
    ensures
        perf@.page_url == perf.page_url@,
        perf@.fcp_ms == perf.fcp_ms,
        perf@.lcp_ms == perf.lcp_ms,
        perf@.tti_ms == perf.tti_ms,
        perf@.cls_score == perf.cls_score,
        perf@.dom_content_loaded_ms == perf.dom_content_loaded_ms,
        perf@.load_ms == perf.load_ms,
{
}

/// The contents of a network timing are all that its fields hold.
pub proof fn network_timing_is_what_it_holds(net: NetworkStats)
    ensures
        net@.page_url == net.page_url@,
        net@.dns_ms == net.dns_ms,
        net@.tcp_connect_ms == net.tcp_connect_ms,
        net@.tls_ms == net.tls_ms,
        net@.ttfb_ms == net.ttfb_ms,
        net@.download_ms == net.download_ms,
        net@.resource_count == net.resource_count,
        net@.failed_resource_count == net.failed_resource_count,
        net@.total_transfer_kb == net.total_transfer_kb,
        net@.slowest_resource_ms == net.slowest_resource_ms,
        net@.failed_resource_urls.len() == net.failed_resource_urls@.len(),
        forall|i: int| 0 <= i < net.failed_resource_urls@.len() ==> #[trigger] net@.failed_resource_urls[i] == net.failed_resource_urls@[i]@,
        net.slowest_resource_url is Some ==> net@.slowest_resource_url == Some(net.slowest_resource_url->0@),
        net.slowest_resource_url is None ==> net@.slowest_resource_url is None,
{
}

/// The contents of an element are all that its fields hold.
pub proof fn element_is_what_it_holds(e: InteractiveElement)
    ensures
        e@.kind == e.kind@,
        e.label is Some ==> e@.label == Some(e.label->0@),
        e.label is None ==> e@.label is None,
        e.href is Some ==> e@.href == Some(e.href->0@),
        e.href is None ==> e@.href is None,
        e.input_type is Some ==> e@.input_type == Some(e.input_type->0@),
        e.input_type is None ==> e@.input_type is None,
{
}

/// The contents of the elements of a page are all that its fields hold.
pub proof fn interactions_are_what_they_hold(page: PageInteractions)
    ensures
        page@.page_url == page.page_url@,
        page@.elements_found == page.elements_found,
        page@.elements.len() == page.elements@.len(),
        forall|i: int| 0 <= i < page.elements@.len() ==> #[trigger] page@.elements[i] == page.elements@[i]@,
{
}

/// The contents of a page of a report are all that its fields hold.
pub proof fn page_report_is_what_it_holds(page: PageReport)
    ensures
        page@.url == page.url@,
        page.perf_metrics is Some ==> page@.perf_metrics == Some(page.perf_metrics->0@),
        page.perf_metrics is None ==> page@.perf_metrics is None,
        page.network_stats is Some ==> page@.network_stats == Some(page.network_stats->0@),
        page.network_stats is None ==> page@.network_stats is None,
        page.interactions is Some ==> page@.interactions == Some(page.interactions->0@),
        page.interactions is None ==> page@.interactions is None,
{
}

/// The contents of lists of measurements are those of each of them, in order.
pub proof fn measurements_are_listed_in_order(
    perf: Seq<PerfMetrics>,
    network: Seq<NetworkStats>,
    interactions: Seq<PageInteractions>,
    pages: Seq<PageReport>,
)
    ensures
        perf_views(perf).len() == perf.len(),
        forall|i: int| 0 <= i < perf.len() ==> #[trigger] perf_views(perf)[i] == perf[i]@,
        network_views(network).len() == network.len(),
        forall|i: int| 0 <= i < network.len() ==> #[trigger] network_views(network)[i] == network[i]@,
        interaction_views(interactions).len() == interactions.len(),
        forall|i: int|
            0 <= i < interactions.len() ==> #[trigger] interaction_views(interactions)[i]
                == interactions[i]@,
        report_views(pages).len() == pages.len(),
        forall|i: int| 0 <= i < pages.len() ==> #[trigger] report_views(pages)[i] == pages[i]@,
{
}

} // verus!
