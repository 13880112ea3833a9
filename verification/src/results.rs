//! What the reports of a run hold.

use vstd::prelude::*;

use crate::crawler::frontier::CrawlResult;
use crate::issues::{issue_views, Issue, IssueView, Severity};
use crate::order::{sort_distinct, strictly_sorted};
use crate::report::{
    interaction_views, is_moment, network_views, perf_views, report_views, summarize, summarizes, CrawlStats,
    InteractionsView, NetworkStats, NetworkView, PageInteractions, PageReport, PageView,
    PerfMetrics, PerfView, Report,
};
use crate::settings::{
    is_selection, issues_about, limit_urls, limited, part_security, select_issues,
};
use crate::text::{copied, same_text, views};

verus! {

/// How much of a crawl its report keeps.
#[derive(Debug, Clone, Copy, PartialEq, Eq, Structural)]
pub struct ReportLimits {
    /// How many pages of an issue are listed.
    pub pages_per_issue: usize,
    /// Issues that are less grave are left out.
    pub min_severity: Severity,
    pub max_total_issues: Option<usize>,
    /// How many URLs are listed, of those crawled and of those discovered.
    pub max_discovered: Option<usize>,
}

/// `a` and `b` are of the same run: tool, version, moment and target.
pub open spec fn same_run(a: Report, b: Report) -> bool {
    &&& a.tool == b.tool
    &&& a.version == b.version
    &&& a.timestamp == b.timestamp
    &&& a.target_url == b.target_url
}

/// The pages whose speed was measured.
pub open spec fn perf_urls(list: Seq<PerfView>) -> Seq<Seq<char>> {
    list.map_values(|p: PerfView| p.page_url)
}

/// The pages whose network timing was measured.
pub open spec fn network_urls(list: Seq<NetworkView>) -> Seq<Seq<char>> {
    list.map_values(|n: NetworkView| n.page_url)
}

/// The pages whose interactive elements were listed.
pub open spec fn interaction_urls(list: Seq<InteractionsView>) -> Seq<Seq<char>> {
    list.map_values(|p: InteractionsView| p.page_url)
}

/// Place `i` of `urls` is the first that holds `url`.
pub open spec fn is_first_place(urls: Seq<Seq<char>>, url: Seq<char>, i: int) -> bool {
    &&& 0 <= i < urls.len()
    &&& urls[i] == url
    &&& forall|j: int| 0 <= j < i ==> #[trigger] urls[j] != url
}

/// `item` is the first of `list` on page `url`, if one is; `urls` are the pages of `list`.
pub open spec fn is_first_on<A>(
    list: Seq<A>,
    urls: Seq<Seq<char>>,
    url: Seq<char>,
    item: Option<A>,
) -> bool {
    match item {
        Some(x) => exists|i: int| #[trigger] is_first_place(urls, url, i) && x == list[i],
        None => !urls.contains(url),
    }
}

/// Page `page` holds what was first collected on it.
pub open spec fn reports_page(result: CrawlResult, page: PageView) -> bool {
    let perf = perf_views(result.perf_metrics@);
    let network = network_views(result.network_stats@);
    let interactions = interaction_views(result.interactions@);
    &&& is_first_on(perf, perf_urls(perf), page.url, page.perf_metrics)
    &&& is_first_on(network, network_urls(network), page.url, page.network_stats)
    &&& is_first_on(
        interactions,
        interaction_urls(interactions),
        page.url,
        page.interactions,
    )
}

/// `pages` holds one page for each URL on which something was collected, in the order of the
/// URLs, with what was first collected there.
pub open spec fn reports_pages(result: CrawlResult, pages: Seq<PageView>) -> bool {
    let urls = pages.map_values(|p: PageView| p.url);
    &&& strictly_sorted(urls)
    &&& forall|t: Seq<char>| #[trigger]
        urls.contains(t) == (perf_urls(perf_views(result.perf_metrics@)).contains(t)
            || network_urls(network_views(result.network_stats@)).contains(t)
            || interaction_urls(interaction_views(result.interactions@)).contains(t))
    &&& forall|i: int| 0 <= i < pages.len() ==> reports_page(result, #[trigger] pages[i])
}

/// The first place of `urls` that holds `url`, if one does.
fn first_place(urls: &Vec<String>, url: &str) -> (r: Option<usize>)
    ensures
        match r {
            Some(i) => is_first_place(views(urls@), url@, i as int),
            None => !views(urls@).contains(url@),
        },
{
    let mut i: usize = 0;
    while i < urls.len()
        invariant
            i <= urls.len(),
            forall|j: int| 0 <= j < i ==> #[trigger] views(urls@)[j] != url@,
        decreases urls.len() - i,
    {
        if same_text(urls[i].as_str(), url) {
            return Some(i);
        }
        i += 1;
    }
    None
}

/// The pages whose speed was measured.
fn perf_pages(list: &Vec<PerfMetrics>) -> (r: Vec<String>)
    ensures
        views(r@) == perf_urls(perf_views(list@)),
{
    let mut out: Vec<String> = Vec::new();
    let mut i: usize = 0;
    while i < list.len()
        invariant
            i <= list.len(),
            views(out@) =~= perf_urls(perf_views(list@)).take(i as int),
        decreases list.len() - i,
    {
        let ghost before = views(out@);
        out.push(list[i].page_url.clone());
        proof {
            assert(views(out@) =~= before.push(list@[i as int].page_url@));
        }
        i += 1;
    }
    proof {
        assert(views(out@) =~= perf_urls(perf_views(list@)));
    }
    out
}

/// The pages whose network timing was measured.
fn network_pages(list: &Vec<NetworkStats>) -> (r: Vec<String>)
    ensures
        views(r@) == network_urls(network_views(list@)),
{
    let mut out: Vec<String> = Vec::new();
    let mut i: usize = 0;
    while i < list.len()
        invariant
            i <= list.len(),
            views(out@) =~= network_urls(network_views(list@)).take(i as int),
        decreases list.len() - i,
    {
        let ghost before = views(out@);
        out.push(list[i].page_url.clone());
        proof {
            assert(views(out@) =~= before.push(list@[i as int].page_url@));
        }
        i += 1;
    }
    proof {
        assert(views(out@) =~= network_urls(network_views(list@)));
    }
    out
}

/// The pages whose interactive elements were listed.
fn interaction_pages(list: &Vec<PageInteractions>) -> (r: Vec<String>)
    ensures
        views(r@) == interaction_urls(interaction_views(list@)),
{
    let mut out: Vec<String> = Vec::new();
    let mut i: usize = 0;
    while i < list.len()
        invariant
            i <= list.len(),
            views(out@) =~= interaction_urls(interaction_views(list@)).take(i as int),
        decreases list.len() - i,
    {
        let ghost before = views(out@);
        out.push(list[i].page_url.clone());
        proof {
            assert(views(out@) =~= before.push(list@[i as int].page_url@));
        }
        i += 1;
    }
    proof {
        assert(views(out@) =~= interaction_urls(interaction_views(list@)));
    }
    out
}

/// What a crawl collected, page by page.
pub fn page_reports(result: &CrawlResult) -> (r: Vec<PageReport>)
    ensures
        reports_pages(*result, report_views(r@)),
{
    let perf = perf_pages(&result.perf_metrics);
    let network = network_pages(&result.network_stats);
    let interactions = interaction_pages(&result.interactions);
    let mut every = copied(&perf);
    let mut more = copied(&network);
    let mut rest = copied(&interactions);
    let ghost (a, b, c) = (views(perf@), views(network@), views(interactions@));
    every.append(&mut more);
    every.append(&mut rest);
    proof {
        assert(views(every@) =~= a + b + c);
        lemma_contains_part(a, b, c);
    }
    let urls = sort_distinct(&every);
    let mut pages: Vec<PageReport> = Vec::new();
    let mut i: usize = 0;
    while i < urls.len()
        invariant
            i <= urls.len(),
            pages.len() == i,
            views(perf@) == perf_urls(perf_views(result.perf_metrics@)),
            views(network@) == network_urls(network_views(result.network_stats@)),
            views(interactions@) == interaction_urls(interaction_views(result.interactions@)),
            forall|j: int| 0 <= j < i ==> (#[trigger] pages@[j])@.url == views(urls@)[j],
            forall|j: int| 0 <= j < i ==> reports_page(*result, (#[trigger] pages@[j])@),
        decreases urls.len() - i,
    {
        let url = urls[i].as_str();
        let page = PageReport {
            url: urls[i].clone(),
            perf_metrics: match first_place(&perf, url) {
                Some(k) => Some(result.perf_metrics[k].clone()),
                None => None,
            },
            network_stats: match first_place(&network, url) {
                Some(k) => Some(result.network_stats[k].clone()),
                None => None,
            },
            interactions: match first_place(&interactions, url) {
                Some(k) => Some(result.interactions[k].clone()),
                None => None,
            },
        };
        pages.push(page);
        i += 1;
    }
    proof {
        let shown = report_views(pages@);
        assert(shown.map_values(|p: PageView| p.url) =~= views(urls@));
        assert forall|k: int| 0 <= k < shown.len() implies reports_page(
            *result,
            #[trigger] shown[k],
        ) by {
            assert(shown[k] == pages@[k]@);
        }
    }
    pages
}

/// Three lists in a row hold what one of them holds.
proof fn lemma_contains_part(a: Seq<Seq<char>>, b: Seq<Seq<char>>, c: Seq<Seq<char>>)
    ensures
        forall|t: Seq<char>| #[trigger]
            (a + b + c).contains(t) == (a.contains(t) || b.contains(t) || c.contains(t)),
{
    let all = a + b + c;
    assert forall|t: Seq<char>| #[trigger] all.contains(t) == (a.contains(t) || b.contains(t)
        || c.contains(t)) by {
        if a.contains(t) {
            let k = choose|k: int| 0 <= k < a.len() && a[k] == t;
            assert(all[k] == t);
        }
        if b.contains(t) {
            let k = choose|k: int| 0 <= k < b.len() && b[k] == t;
            assert(all[a.len() + k] == t);
        }
        if c.contains(t) {
            let k = choose|k: int| 0 <= k < c.len() && c[k] == t;
            assert(all[a.len() + b.len() + k] == t);
        }
        if all.contains(t) {
            let k = choose|k: int| 0 <= k < all.len() && all[k] == t;
            if k < a.len() {
                assert(a[k] == t);
            } else if k < a.len() + b.len() {
                assert(b[k - a.len()] == t);
            } else {
                assert(c[k - a.len() - b.len()] == t);
            }
        }
    }
}

/// `r` is the report `blank` once it holds what a crawl brought; `found` are all URLs that
/// were discovered.
pub open spec fn reports_crawl(
    blank: Report,
    result: CrawlResult,
    limits: ReportLimits,
    found: Seq<Seq<char>>,
    r: Report,
) -> bool {
    &&& same_run(blank, r)
    &&& is_selection(
        issue_views(result.issues@),
        limits.pages_per_issue as nat,
        limits.min_severity,
        limits.max_total_issues,
        issue_views(r.issues@),
    )
    &&& summarizes(r.summary, issue_views(r.issues@))
    &&& reports_pages(result, report_views(r.pages@))
    &&& r.load_test == blank.load_test
    &&& r.crawl_stats.pages_visited == result.stats.pages_visited
    &&& r.crawl_stats.duration_secs == result.stats.duration_secs
    &&& r.crawl_stats.elements_interacted == result.stats.elements_interacted
    &&& r.crawl_stats.crawled_urls@ == limited(result.stats.crawled_urls@, limits.max_discovered)
    &&& views(r.discovered_urls@) == limited(found, limits.max_discovered)
}

/// `found` are the URLs of `urls`, in order and each once.
pub open spec fn are_distinct_urls(urls: Seq<Seq<char>>, found: Seq<Seq<char>>) -> bool {
    &&& strictly_sorted(found)
    &&& forall|t: Seq<char>| #[trigger] found.contains(t) == urls.contains(t)
}

/// Puts what a crawl brought into its report. Returns the report, and all URLs that were
/// discovered, in order and each once.
pub fn report_crawl(blank: Report, result: CrawlResult, limits: &ReportLimits) -> (r: (
    Report,
    Vec<String>,
))
    ensures
        reports_crawl(blank, result, *limits, views(r.1@), r.0),
        are_distinct_urls(views(result.discovered_urls@), views(r.1@)),
{
    let pages = page_reports(&result);
    let found = sort_distinct(&result.discovered_urls);
    let issues = select_issues(
        result.issues,
        limits.pages_per_issue,
        limits.min_severity,
        limits.max_total_issues,
    );
    let summary = summarize(&issues);
    let listed = copied(&found);
    let ghost all = views(listed@);
    let listed = limit_urls(listed, limits.max_discovered);
    proof {
        assert(all =~= views(found@));
        assert(views(listed@) =~= limited(all, limits.max_discovered));
    }
    let report = Report {
        tool: blank.tool,
        version: blank.version,
        timestamp: blank.timestamp,
        target_url: blank.target_url,
        issues,
        pages,
        crawl_stats: CrawlStats {
            pages_visited: result.stats.pages_visited,
            duration_secs: result.stats.duration_secs,
            elements_interacted: result.stats.elements_interacted,
            crawled_urls: limit_urls(result.stats.crawled_urls, limits.max_discovered),
        },
        discovered_urls: listed,
        load_test: blank.load_test,
        summary,
    };
    (report, found)
}

/// The report of a run in parts.
#[derive(Debug)]
pub struct SeparateReports {
    /// The crawl, with the issues that are not about security.
    pub crawl: Report,
    /// The issues about security.
    pub pentest: Report,
    /// The load test, if there was one.
    pub load: Option<Report>,
}

/// `part` holds `issues` and their counts, on the same target as `whole`, and carries the
/// moment it was made.
pub open spec fn holds_issues(whole: Report, issues: Seq<IssueView>, part: Report) -> bool {
    &&& part.tool@ == "webprobe"@
    &&& part.version@ == "0.1.0"@
    &&& is_moment(part.timestamp@)
    &&& part.target_url@ == whole.target_url@
    &&& issue_views(part.issues@) == issues
    &&& summarizes(part.summary, issues)
    &&& part.pages@ == Seq::<PageReport>::empty()
    &&& part.discovered_urls@ == Seq::<String>::empty()
    &&& part.crawl_stats.crawled_urls@ == Seq::<String>::empty()
}

/// `part` is the report of the crawl of `whole`: its totals, without the lists of URLs, and
/// the issues that are not about security.
pub open spec fn is_crawl_part(whole: Report, part: Report) -> bool {
    &&& holds_issues(whole, issues_about(issue_views(whole.issues@), false), part)
    &&& part.crawl_stats.pages_visited == whole.crawl_stats.pages_visited
    &&& part.crawl_stats.duration_secs == whole.crawl_stats.duration_secs
    &&& part.crawl_stats.elements_interacted == whole.crawl_stats.elements_interacted
    &&& part.load_test is None
}

/// `part` has no totals of a crawl.
pub open spec fn is_without_crawl(part: Report) -> bool {
    &&& part.crawl_stats.pages_visited == 0
    &&& part.crawl_stats.duration_secs.bits == 0
    &&& part.crawl_stats.elements_interacted == 0
}

/// `part` is the report of the issues of `whole` that are about security.
pub open spec fn is_pentest_part(whole: Report, part: Report) -> bool {
    &&& holds_issues(whole, issues_about(issue_views(whole.issues@), true), part)
    &&& is_without_crawl(part)
    &&& part.load_test is None
}

/// `part` is the report of the load test of `whole`.
pub open spec fn is_load_part(whole: Report, part: Report) -> bool {
    &&& holds_issues(whole, Seq::empty(), part)
    &&& is_without_crawl(part)
    &&& part.load_test == whole.load_test
}

/// A report on `target_url`, made now, that holds these issues and nothing else.
fn issue_report(target_url: &str, issues: Vec<Issue>) -> (r: Report)
    ensures
        r.tool@ == "webprobe"@,
        r.version@ == "0.1.0"@,
        is_moment(r.timestamp@),
        r.target_url@ == target_url@,
        r.issues == issues,
        summarizes(r.summary, issue_views(issues@)),
        r.pages@ == Seq::<PageReport>::empty(),
        r.discovered_urls@ == Seq::<String>::empty(),
        r.crawl_stats.crawled_urls@ == Seq::<String>::empty(),
        is_without_crawl(r),
        r.load_test is None,
{
    let mut r = Report::new(target_url);
    r.issues = issues;
    r.compute_summary();
    r
}

/// Parts a report into one for the crawl, one for the issues about security, and one for the
/// load test, each made now.
pub fn separate(whole: Report) -> (r: SeparateReports)
    ensures
        is_crawl_part(whole, r.crawl),
        is_pentest_part(whole, r.pentest),
        match r.load {
            Some(part) => whole.load_test is Some && is_load_part(whole, part),
            None => whole.load_test is None,
        },
{
    let (others, security) = part_security(&whole.issues);
    let mut crawl = issue_report(whole.target_url.as_str(), others);
    crawl.crawl_stats = CrawlStats {
        pages_visited: whole.crawl_stats.pages_visited,
        duration_secs: whole.crawl_stats.duration_secs,
        elements_interacted: whole.crawl_stats.elements_interacted,
        crawled_urls: Vec::new(),
    };
    let pentest = issue_report(whole.target_url.as_str(), security);
    let load = match whole.load_test {
        Some(result) => {
            let none: Vec<Issue> = Vec::new();
            proof {
                assert(issue_views(none@) =~= Seq::<IssueView>::empty());
            }
            let mut part = issue_report(whole.target_url.as_str(), none);
            part.load_test = Some(result);
            Some(part)
        },
        None => None,
    };
    SeparateReports { crawl, pentest, load }
}

/// The issues of a report and their counts are parted between those of its crawl and those
/// about security: none is lost and none is made up.
pub proof fn separate_is_complete(whole: Report, crawl: Report, pentest: Report)
    requires
        is_crawl_part(whole, crawl),
        is_pentest_part(whole, pentest),
        summarizes(whole.summary, issue_views(whole.issues@)),
    ensures
        crawl.summary.critical + pentest.summary.critical == whole.summary.critical,
        crawl.summary.errors + pentest.summary.errors == whole.summary.errors,
        crawl.summary.warnings + pentest.summary.warnings == whole.summary.warnings,
        crawl.summary.infos + pentest.summary.infos == whole.summary.infos,
        crawl.summary.total + pentest.summary.total == whole.summary.total,
        forall|x: IssueView| #[trigger]
            issue_views(whole.issues@).contains(x) == (issue_views(crawl.issues@).contains(x)
                || issue_views(pentest.issues@).contains(x)),
{
    let all = issue_views(whole.issues@);
    lemma_counts_part(all, Severity::Critical);
    lemma_counts_part(all, Severity::Error);
    lemma_counts_part(all, Severity::Warning);
    lemma_counts_part(all, Severity::Info);
    assert forall|x: IssueView| #[trigger] all.contains(x) == (issue_views(
        crawl.issues@,
    ).contains(x) || issue_views(pentest.issues@).contains(x)) by {
        crate::settings::parting_is_complete(all, x);
    }
    if all.len() > 0 {
        crate::settings::parting_is_complete(all, all[0]);
    }
}

/// The issues of a severity are parted between those about security and the others.
proof fn lemma_counts_part(list: Seq<IssueView>, severity: Severity)
    ensures
        crate::report::severity_count(issues_about(list, false), severity)
            + crate::report::severity_count(issues_about(list, true), severity)
            == crate::report::severity_count(list, severity),
    decreases list.len(),
{
    if list.len() > 0 {
        let front = list.drop_last();
        lemma_counts_part(front, severity);
        let security = list.last().category == crate::issues::IssueCategory::Security;
        let before = issues_about(front, security);
        assert(before.push(list.last()).drop_last() =~= before);
    }
}

/// Whatever was measured of a page's speed stands in the report: the page has an entry, with what
/// was first measured of it.
pub proof fn speed_is_reported(result: CrawlResult, pages: Seq<PageView>, i: int) -> (k: int)
    requires
        reports_pages(result, pages),
        0 <= i < result.perf_metrics@.len(),
    ensures
        0 <= k < pages.len(),
        pages[k].url == result.perf_metrics@[i]@.page_url,
        pages[k].perf_metrics is Some,
        pages[k].perf_metrics->0.page_url == pages[k].url,
        (forall|j: int|
            0 <= j < i ==> (#[trigger] result.perf_metrics@[j])@.page_url != pages[k].url)
            ==> pages[k].perf_metrics == Some(result.perf_metrics@[i]@),
{
    let list = perf_views(result.perf_metrics@);
    let urls = perf_urls(list);
    let shown = pages.map_values(|p: PageView| p.url);
    let url = result.perf_metrics@[i]@.page_url;
    assert(urls[i] == url);
    assert(urls.contains(url));
    assert(shown.contains(url));
    let k = choose|k: int| 0 <= k < shown.len() && shown[k] == url;
    assert(reports_page(result, pages[k]));
    assert(is_first_on(list, urls, url, pages[k].perf_metrics));
    let first = choose|n: int| #[trigger]
        is_first_place(urls, url, n) && pages[k].perf_metrics->0 == list[n];
    assert(urls[first] == list[first].page_url);
    if forall|j: int| 0 <= j < i ==> (#[trigger] result.perf_metrics@[j])@.page_url != url {
        if first < i {
            assert(result.perf_metrics@[first]@.page_url == urls[first]);
        }
        if i < first {
            assert(urls[i] != url);
        }
    }
    k
}

/// Whatever was measured of a page's network timing stands in the report: the page has an entry, with what
/// was first measured of it.
pub proof fn network_timing_is_reported(result: CrawlResult, pages: Seq<PageView>, i: int) -> (k: int)
    requires
        reports_pages(result, pages),
        0 <= i < result.network_stats@.len(),
    ensures
        0 <= k < pages.len(),
        pages[k].url == result.network_stats@[i]@.page_url,
        pages[k].network_stats is Some,
        pages[k].network_stats->0.page_url == pages[k].url,
        (forall|j: int|
            0 <= j < i ==> (#[trigger] result.network_stats@[j])@.page_url != pages[k].url)
            ==> pages[k].network_stats == Some(result.network_stats@[i]@),
{
    let list = network_views(result.network_stats@);
    let urls = network_urls(list);
    let shown = pages.map_values(|p: PageView| p.url);
    let url = result.network_stats@[i]@.page_url;
    assert(urls[i] == url);
    assert(urls.contains(url));
    assert(shown.contains(url));
    let k = choose|k: int| 0 <= k < shown.len() && shown[k] == url;
    assert(reports_page(result, pages[k]));
    assert(is_first_on(list, urls, url, pages[k].network_stats));
    let first = choose|n: int| #[trigger]
        is_first_place(urls, url, n) && pages[k].network_stats->0 == list[n];
    assert(urls[first] == list[first].page_url);
    if forall|j: int| 0 <= j < i ==> (#[trigger] result.network_stats@[j])@.page_url != url {
        if first < i {
            assert(result.network_stats@[first]@.page_url == urls[first]);
        }
        if i < first {
            assert(urls[i] != url);
        }
    }
    k
}

/// Whatever was measured of a page's interactive elements stands in the report: the page has an entry, with what
/// was first measured of it.
pub proof fn interaction_is_reported(result: CrawlResult, pages: Seq<PageView>, i: int) -> (k: int)
    requires
        reports_pages(result, pages),
        0 <= i < result.interactions@.len(),
    ensures
        0 <= k < pages.len(),
        pages[k].url == result.interactions@[i]@.page_url,
        pages[k].interactions is Some,
        pages[k].interactions->0.page_url == pages[k].url,
        (forall|j: int|
            0 <= j < i ==> (#[trigger] result.interactions@[j])@.page_url != pages[k].url)
            ==> pages[k].interactions == Some(result.interactions@[i]@),
{
    let list = interaction_views(result.interactions@);
    let urls = interaction_urls(list);
    let shown = pages.map_values(|p: PageView| p.url);
    let url = result.interactions@[i]@.page_url;
    assert(urls[i] == url);
    assert(urls.contains(url));
    assert(shown.contains(url));
    let k = choose|k: int| 0 <= k < shown.len() && shown[k] == url;
    assert(reports_page(result, pages[k]));
    assert(is_first_on(list, urls, url, pages[k].interactions));
    let first = choose|n: int| #[trigger]
        is_first_place(urls, url, n) && pages[k].interactions->0 == list[n];
    assert(urls[first] == list[first].page_url);
    if forall|j: int| 0 <= j < i ==> (#[trigger] result.interactions@[j])@.page_url != url {
        if first < i {
            assert(result.interactions@[first]@.page_url == urls[first]);
        }
        if i < first {
            assert(urls[i] != url);
        }
    }
    k
}

/// The report of a crawl has its totals as they are, and of the URLs that were crawled and
/// discovered the first ones, up to the limit; the issues are a selection of those found.
pub proof fn report_tells_of_the_crawl(
    blank: Report,
    result: CrawlResult,
    limits: ReportLimits,
    found: Seq<Seq<char>>,
    r: Report,
)
    requires
        reports_crawl(blank, result, limits, found, r),
    ensures
        r.tool == blank.tool && r.version == blank.version && r.timestamp == blank.timestamp
            && r.target_url == blank.target_url && r.load_test == blank.load_test,
        r.crawl_stats.pages_visited == result.stats.pages_visited,
        r.crawl_stats.duration_secs == result.stats.duration_secs,
        r.crawl_stats.elements_interacted == result.stats.elements_interacted,
        limits.max_discovered is None ==> r.crawl_stats.crawled_urls@
            == result.stats.crawled_urls@ && views(r.discovered_urls@) == found,
        limits.max_discovered is Some ==> {
            &&& r.crawl_stats.crawled_urls@.len() <= limits.max_discovered->0
            &&& r.discovered_urls@.len() <= limits.max_discovered->0
        },
        result.stats.crawled_urls@.take(r.crawl_stats.crawled_urls@.len() as int)
            == r.crawl_stats.crawled_urls@,
        found.take(r.discovered_urls@.len() as int) == views(r.discovered_urls@),
        is_selection(
            issue_views(result.issues@),
            limits.pages_per_issue as nat,
            limits.min_severity,
            limits.max_total_issues,
            issue_views(r.issues@),
        ),
        summarizes(r.summary, issue_views(r.issues@)),
        reports_pages(result, report_views(r.pages@)),
{
    crate::settings::limit_keeps_the_beginning(result.stats.crawled_urls@, limits.max_discovered);
    crate::settings::limit_keeps_the_beginning(found, limits.max_discovered);
    assert(views(r.discovered_urls@).len() == r.discovered_urls@.len());
}

/// A separated report has in each part what belongs there: the issues about security in the one,
/// the others with the totals of the crawl in the other, and the load test in the third, all on
/// the same target.
pub proof fn parts_hold_what_is_theirs(whole: Report, crawl: Report, pentest: Report, load: Report)
    requires
        is_crawl_part(whole, crawl),
        is_pentest_part(whole, pentest),
        is_load_part(whole, load),
    ensures
        forall|i: int|
            0 <= i < crawl.issues@.len() ==> (#[trigger] crawl.issues@[i])@.category
                != crate::issues::IssueCategory::Security,
        forall|i: int|
            0 <= i < pentest.issues@.len() ==> (#[trigger] pentest.issues@[i])@.category
                == crate::issues::IssueCategory::Security,
        load.issues@.len() == 0,
        crawl.issues@.len() + pentest.issues@.len() == whole.issues@.len(),
        crawl.crawl_stats.pages_visited == whole.crawl_stats.pages_visited,
        crawl.crawl_stats.duration_secs == whole.crawl_stats.duration_secs,
        crawl.crawl_stats.elements_interacted == whole.crawl_stats.elements_interacted,
        load.load_test == whole.load_test,
        crawl.load_test is None && pentest.load_test is None,
        crawl.target_url@ == whole.target_url@ && pentest.target_url@ == whole.target_url@
            && load.target_url@ == whole.target_url@,
        is_moment(crawl.timestamp@) && is_moment(pentest.timestamp@) && is_moment(load.timestamp@),
{
    let all = issue_views(whole.issues@);
    lemma_about(all, false);
    lemma_about(all, true);
    assert forall|i: int| 0 <= i < crawl.issues@.len() implies (
    #[trigger] crawl.issues@[i])@.category != crate::issues::IssueCategory::Security by {
        assert(issue_views(crawl.issues@)[i] == crawl.issues@[i]@);
    }
    assert forall|i: int| 0 <= i < pentest.issues@.len() implies (
    #[trigger] pentest.issues@[i])@.category == crate::issues::IssueCategory::Security by {
        assert(issue_views(pentest.issues@)[i] == pentest.issues@[i]@);
    }
    if all.len() > 0 {
        crate::settings::parting_is_complete(all, all[0]);
    }
    assert(issue_views(load.issues@).len() == load.issues@.len());
    assert(issue_views(crawl.issues@).len() == crawl.issues@.len());
    assert(issue_views(pentest.issues@).len() == pentest.issues@.len());
}

/// The issues about security are about it, the others are not.
proof fn lemma_about(list: Seq<IssueView>, security: bool)
    ensures
        forall|i: int|
            0 <= i < issues_about(list, security).len() ==> ((#[trigger] issues_about(
                list,
                security,
            )[i]).category == crate::issues::IssueCategory::Security) == security,
    decreases list.len(),
{
    if list.len() > 0 {
        lemma_about(list.drop_last(), security);
    }
}

} // verus!
