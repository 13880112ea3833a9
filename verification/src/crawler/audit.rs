//! What is read on a page, and what is flagged there.

use vstd::arithmetic::power2::{lemma2_to64_rest, lemma_pow2_pos, pow2};
use vstd::prelude::*;

use crate::crawler::frontier::PageFindings;
use crate::double::{lemma_whole, whole_units, Double};
use crate::issues::{issue_views, Issue, IssueCategory, IssueView, Severity};
use crate::json::{
    json_get, json_null, json_str, json_view, json_views, keeps_whole, member_double, member_list,
    member_text, member_u64, parse_json, parsed_json, JsonView, NumberView, LARGEST_WHOLE,
};
use crate::report::{
    element_views, ElementView, InteractionsView, InteractiveElement, NetworkStats,
    PageInteractions, PerfMetrics,
};
use crate::text::{
    contains, decimal, has_part, join, joined, numeral, opt_view, same_text, starts_with, trim,
    trimmed, views,
};

verus! {

/// The error of a navigation that no page can come of.
pub open spec fn is_fatal_navigation(message: Seq<char>) -> bool {
    ||| has_part(message, "net::ERR_CONNECTION_REFUSED"@)
    ||| has_part(message, "net::ERR_NAME_NOT_RESOLVED"@)
    ||| has_part(message, "NS_ERROR_CONNECTION_REFUSED"@)
}

/// A navigation that failed with `message` leads to no page; after any other failure the
/// page is audited nevertheless.
pub fn navigation_is_fatal(message: &str) -> (r: bool)
    ensures
        r == is_fatal_navigation(message@),
{
    contains(message, "net::ERR_CONNECTION_REFUSED") || contains(
        message,
        "net::ERR_NAME_NOT_RESOLVED",
    ) || contains(message, "NS_ERROR_CONNECTION_REFUSED")
}

/// The value that a reply holds is `complete` or `interactive`.
pub open spec fn is_ready_state(reply: Option<JsonView>) -> bool {
    match reply {
        Some(v) => v.text() == Some("complete"@) || v.text() == Some("interactive"@),
        None => false,
    }
}

/// The document says that it is ready; `reply` is what the browser gave back, if it did.
pub fn dom_is_ready(reply: Option<&serde_json::Value>) -> (r: bool)
    ensures
        r == is_ready_state(
            match reply {
                Some(v) => Some(json_view(*v)),
                None => None,
            },
        ),
{
    match reply {
        Some(v) => match json_str(v) {
            Some(s) => same_text(s, "complete") || same_text(s, "interactive"),
            None => false,
        },
        None => false,
    }
}

/// What is read where the collection script brought no text.
pub const EMPTY_RESULT: &'static str =
    r#"{"issues":[],"links":[],"perf":{},"net":{},"lcp":null,"cls":null}"#;

/// The text that the collection script brought.
pub open spec fn collected(reply: Option<JsonView>) -> Seq<char> {
    match reply {
        Some(v) => match v.text() {
            Some(s) => s,
            None => EMPTY_RESULT@,
        },
        None => EMPTY_RESULT@,
    }
}

/// The text that the collection script brought; `reply` is what the browser gave back, if
/// it did.
pub fn collected_text(reply: Option<&serde_json::Value>) -> (r: String)
    ensures
        r@ == collected(
            match reply {
                Some(v) => Some(json_view(*v)),
                None => None,
            },
        ),
{
    match reply {
        Some(v) => match json_str(v) {
            Some(s) => s.to_string(),
            None => EMPTY_RESULT.to_string(),
        },
        None => EMPTY_RESULT.to_string(),
    }
}

impl JsonView {
    /// The member of that name, and null where there is none.
    pub open spec fn at(self, key: Seq<char>) -> JsonView {
        match self.member(key) {
            Some(m) => m,
            None => JsonView::Null,
        }
    }
}

/// An issue on one page.
pub open spec fn issue_on(
    url: Seq<char>,
    severity: Severity,
    category: IssueCategory,
    message: Seq<char>,
    element: Option<Seq<char>>,
) -> IssueView {
    IssueView {
        severity,
        category,
        message,
        page_urls: seq![url],
        affected_pages_count: None,
        element,
        action_path: Seq::empty(),
    }
}

/// An issue on one page.
fn new_issue(
    url: &str,
    severity: Severity,
    category: IssueCategory,
    message: String,
    element: Option<String>,
) -> (r: Issue)
    ensures
        r@ == issue_on(url@, severity, category, message@, opt_view(element)),
{
    let mut page_urls: Vec<String> = Vec::new();
    page_urls.push(url.to_string());
    let r = Issue {
        severity,
        category,
        message,
        page_urls,
        affected_pages_count: None,
        element,
        action_path: Vec::new(),
    };
    proof {
        assert(r@.page_urls =~= seq![url@]);
        assert(r@.action_path =~= Seq::<Seq<char>>::empty());
    }
    r
}

/// The severity that the collection script reports by `word`.
pub open spec fn reported_severity(word: Option<Seq<char>>) -> Severity {
    if word == Some("error"@) || word == Some("uncaught"@) || word == Some("rejection"@) {
        Severity::Error
    } else if word == Some("warning"@) {
        Severity::Warning
    } else {
        Severity::Info
    }
}

/// The category that the collection script reports by `word`.
pub open spec fn reported_category(word: Option<Seq<char>>) -> IssueCategory {
    if word == Some("accessibility"@) {
        IssueCategory::Accessibility
    } else if word == Some("seo"@) {
        IssueCategory::Seo
    } else if word == Some("security"@) {
        IssueCategory::Security
    } else {
        IssueCategory::ConsoleError
    }
}

/// The severity that the collection script reports by `word`.
fn severity_of(word: Option<&str>) -> (r: Severity)
    ensures
        r == reported_severity(
            match word {
                Some(w) => Some(w@),
                None => None,
            },
        ),
{
    match word {
        Some(w) => if same_text(w, "error") || same_text(w, "uncaught") || same_text(
            w,
            "rejection",
        ) {
            Severity::Error
        } else if same_text(w, "warning") {
            Severity::Warning
        } else {
            Severity::Info
        },
        None => Severity::Info,
    }
}

/// The category that the collection script reports by `word`.
fn category_of(word: Option<&str>) -> (r: IssueCategory)
    ensures
        r == reported_category(
            match word {
                Some(w) => Some(w@),
                None => None,
            },
        ),
{
    match word {
        Some(w) => if same_text(w, "accessibility") {
            IssueCategory::Accessibility
        } else if same_text(w, "seo") {
            IssueCategory::Seo
        } else if same_text(w, "security") {
            IssueCategory::Security
        } else {
            IssueCategory::ConsoleError
        },
        None => IssueCategory::ConsoleError,
    }
}

/// The text, or another one where there is none.
pub open spec fn text_or(s: Option<Seq<char>>, other: Seq<char>) -> Seq<char> {
    match s {
        Some(t) => t,
        None => other,
    }
}

/// The issue that an item of the collected list reports.
pub open spec fn reported_issue(item: JsonView, url: Seq<char>) -> IssueView {
    issue_on(
        url,
        reported_severity(item.text_of("sev"@)),
        reported_category(item.text_of("cat"@)),
        text_or(item.text_of("msg"@), Seq::empty()),
        item.text_of("el"@),
    )
}

/// The issues that the collected value reports.
pub open spec fn reported_issues(v: JsonView, url: Seq<char>) -> Seq<IssueView> {
    match v.list_of("issues"@) {
        Some(items) => items.map_values(|item: JsonView| reported_issue(item, url)),
        None => Seq::empty(),
    }
}

/// The texts among `items`.
pub open spec fn texts_in(items: Seq<JsonView>) -> Seq<Seq<char>>
    decreases items.len(),
{
    if items.len() == 0 {
        Seq::empty()
    } else {
        let before = texts_in(items.drop_last());
        match items.last().text() {
            Some(s) => before.push(s),
            None => before,
        }
    }
}

/// The texts in the list of that name.
pub open spec fn texts_of(v: JsonView, key: Seq<char>) -> Seq<Seq<char>> {
    match v.list_of(key) {
        Some(items) => texts_in(items),
        None => Seq::empty(),
    }
}

/// The text, unless there is none or it is empty.
pub open spec fn non_empty(s: Option<Seq<char>>) -> Option<Seq<char>> {
    match s {
        Some(t) => if t.len() > 0 {
            Some(t)
        } else {
            None
        },
        None => None,
    }
}

/// The label that an item of the collected list gives: without white space around it.
pub open spec fn collected_label(item: JsonView) -> Option<Seq<char>> {
    match item.text_of("label"@) {
        Some(s) => non_empty(Some(trimmed(s))),
        None => None,
    }
}

/// The target that an item of the collected list gives, unless it is a script.
pub open spec fn collected_href(item: JsonView) -> Option<Seq<char>> {
    match non_empty(item.text_of("href"@)) {
        Some(s) => if "javascript"@.is_prefix_of(s) {
            None
        } else {
            Some(s)
        },
        None => None,
    }
}

/// The interactive element that an item of the collected list describes.
pub open spec fn collected_element(item: JsonView) -> ElementView {
    ElementView {
        kind: text_or(item.text_of("kind"@), "unknown"@),
        label: collected_label(item),
        href: collected_href(item),
        input_type: item.text_of("input_type"@),
    }
}

/// The interactive elements that the collected value lists.
pub open spec fn collected_elements(v: JsonView) -> Seq<ElementView> {
    match v.list_of("interactive"@) {
        Some(items) => items.map_values(|item: JsonView| collected_element(item)),
        None => Seq::empty(),
    }
}

/// `perf` is what the collected value says of the speed of the page at `url`.
pub open spec fn reads_perf(v: JsonView, url: Seq<char>, perf: PerfMetrics) -> bool {
    &&& perf.page_url@ == url
    &&& v.at("perf"@).gives_double("fcp"@, perf.fcp_ms)
    &&& v.gives_double("lcp"@, perf.lcp_ms)
    &&& v.at("perf"@).gives_double("tti"@, perf.tti_ms)
    &&& v.gives_double("cls"@, perf.cls_score)
    &&& v.at("perf"@).gives_double("dcl"@, perf.dom_content_loaded_ms)
    &&& v.at("perf"@).gives_double("load"@, perf.load_ms)
}

/// The natural number, or zero, as a count.
pub open spec fn count_or_zero(n: Option<u64>) -> usize {
    match n {
        Some(k) => k as usize,
        None => 0,
    }
}

/// `net` is what the collected value says of the network timing of the page at `url`.
pub open spec fn reads_network(v: JsonView, url: Seq<char>, net: NetworkStats) -> bool {
    let n = v.at("net"@);
    &&& net.page_url@ == url
    &&& n.gives_double("dns"@, net.dns_ms)
    &&& n.gives_double("tcp"@, net.tcp_connect_ms)
    &&& n.gives_double("tls"@, net.tls_ms)
    &&& n.gives_double("ttfb"@, net.ttfb_ms)
    &&& n.gives_double("download"@, net.download_ms)
    &&& net.resource_count == count_or_zero(n.natural_of("resource_count"@))
    &&& net.failed_resource_count == count_or_zero(n.natural_of("failed_resource_count"@))
    &&& views(net.failed_resource_urls@) == texts_of(n, "failed_resource_urls"@)
    &&& net.total_transfer_kb == match n.double_of("total_transfer_kb"@) {
        Some(x) => x,
        None => Double { bits: 0 },
    }
    &&& n.double_of("total_transfer_kb"@) is Some ==> n.gives_double(
        "total_transfer_kb"@,
        Some(net.total_transfer_kb),
    )
    &&& n.gives_double("slowest_ms"@, net.slowest_resource_ms)
    &&& opt_view(net.slowest_resource_url) == n.text_of("slowest_url"@)
}

/// `found` is what the collected value says of the page at `url`.
pub open spec fn reads_page(v: JsonView, url: Seq<char>, found: PageFindings) -> bool {
    &&& issue_views(found.issues@) == reported_issues(v, url)
    &&& views(found.links@) == texts_of(v, "links"@)
    &&& reads_perf(v, url, found.perf)
    &&& reads_network(v, url, found.network)
    &&& found.interactions@ == (InteractionsView {
        page_url: url,
        elements_found: collected_elements(v).len() as usize,
        elements: collected_elements(v),
    })
    &&& collected_elements(v).len() <= usize::MAX
}

/// The text as a string of its own.
fn owned(s: Option<&str>) -> (r: Option<String>)
    ensures
        match s {
            Some(t) => r is Some && r->0@ == t@,
            None => r is None,
        },
{
    match s {
        Some(t) => Some(t.to_string()),
        None => None,
    }
}

/// The text, or another one where there is none.
fn owned_or(s: Option<&str>, other: &str) -> (r: String)
    ensures
        r@ == text_or(
            match s {
                Some(t) => Some(t@),
                None => None,
            },
            other@,
        ),
{
    match s {
        Some(t) => t.to_string(),
        None => other.to_string(),
    }
}

/// The issues that the collected value reports.
fn read_issues(v: &serde_json::Value, url: &str) -> (r: Vec<Issue>)
    ensures
        issue_views(r@) == reported_issues(json_view(*v), url@),
{
    let mut out: Vec<Issue> = Vec::new();
    let ghost model = json_view(*v);
    match member_list(v, "issues") {
        Some(items) => {
            let mut i: usize = 0;
            while i < items.len()
                invariant
                    i <= items.len(),
                    issue_views(out@) =~= json_views(items@).map_values(
                        |item: JsonView| reported_issue(item, url@),
                    ).take(i as int),
                decreases items.len() - i,
            {
                let item = &items[i];
                let severity = severity_of(member_text(item, "sev"));
                let category = category_of(member_text(item, "cat"));
                let message = owned_or(member_text(item, "msg"), "");
                let element = owned(member_text(item, "el"));
                let issue = new_issue(url, severity, category, message, element);
                proof {
                    reveal_strlit("");
                    assert(""@ =~= Seq::<char>::empty());
                    assert(issue@ == reported_issue(json_view(*item), url@));
                }
                let ghost before = issue_views(out@);
                out.push(issue);
                proof {
                    assert(issue_views(out@) =~= before.push(issue@));
                }
                i += 1;
            }
            proof {
                assert(issue_views(out@) =~= reported_issues(model, url@));
            }
        },
        None => {
            proof {
                assert(issue_views(out@) =~= Seq::<IssueView>::empty());
            }
        },
    }
    out
}

/// The texts in the list of that name.
fn read_texts(v: &serde_json::Value, key: &str) -> (r: Vec<String>)
    ensures
        views(r@) == texts_of(json_view(*v), key@),
{
    match member_list(v, key) {
        Some(items) => text_items(items),
        None => {
            let r: Vec<String> = Vec::new();
            proof {
                assert(views(r@) =~= Seq::<Seq<char>>::empty());
            }
            r
        },
    }
}

/// The texts among `items`.
pub(crate) fn text_items(items: &Vec<serde_json::Value>) -> (r: Vec<String>)
    ensures
        views(r@) == texts_in(json_views(items@)),
{
    let mut out: Vec<String> = Vec::new();
    let mut i: usize = 0;
    proof {
        assert(json_views(items@).take(0) =~= Seq::<JsonView>::empty());
        assert(views(out@) =~= Seq::<Seq<char>>::empty());
    }
    while i < items.len()
        invariant
            i <= items.len(),
            views(out@) == texts_in(json_views(items@).take(i as int)),
        decreases items.len() - i,
    {
        proof {
            let all = json_views(items@);
            assert(all.take(i + 1).drop_last() =~= all.take(i as int));
        }
        match json_str(&items[i]) {
            Some(s) => {
                let ghost before = views(out@);
                out.push(s.to_string());
                proof {
                    assert(views(out@) =~= before.push(s@));
                }
            },
            None => {},
        }
        i += 1;
    }
    proof {
        assert(json_views(items@).take(i as int) =~= json_views(items@));
    }
    out
}

/// The double in a member of the member of that name.
fn inner_double(v: &serde_json::Value, outer: &str, inner: &str) -> (r: Option<Double>)
    ensures
        json_view(*v).at(outer@).gives_double(inner@, r),
{
    match json_get(v, outer) {
        Some(m) => member_double(m, inner),
        None => None,
    }
}

/// What the collected value says of the speed of the page.
fn read_perf(v: &serde_json::Value, url: &str) -> (r: PerfMetrics)
    ensures
        reads_perf(json_view(*v), url@, r),
{
    PerfMetrics {
        page_url: url.to_string(),
        fcp_ms: inner_double(v, "perf", "fcp"),
        lcp_ms: member_double(v, "lcp"),
        tti_ms: inner_double(v, "perf", "tti"),
        cls_score: member_double(v, "cls"),
        dom_content_loaded_ms: inner_double(v, "perf", "dcl"),
        load_ms: inner_double(v, "perf", "load"),
    }
}

/// The count in a member of the member of that name.
fn inner_count(v: &serde_json::Value, outer: &str, inner: &str) -> (r: usize)
    ensures
        r == count_or_zero(json_view(*v).at(outer@).natural_of(inner@)),
{
    match json_get(v, outer) {
        Some(m) => match member_u64(m, inner) {
            Some(n) => n as usize,
            None => 0,
        },
        None => 0,
    }
}

/// What the collected value says of the network timing of the page.
fn read_network(v: &serde_json::Value, url: &str) -> (r: NetworkStats)
    ensures
        reads_network(json_view(*v), url@, r),
{
    let (failed_resource_urls, slowest_resource_url) = match json_get(v, "net") {
        Some(n) => (read_texts(n, "failed_resource_urls"), owned(member_text(n, "slowest_url"))),
        None => {
            let none: Vec<String> = Vec::new();
            proof {
                assert(views(none@) =~= Seq::<Seq<char>>::empty());
            }
            (none, None)
        },
    };
    NetworkStats {
        page_url: url.to_string(),
        dns_ms: inner_double(v, "net", "dns"),
        tcp_connect_ms: inner_double(v, "net", "tcp"),
        tls_ms: inner_double(v, "net", "tls"),
        ttfb_ms: inner_double(v, "net", "ttfb"),
        download_ms: inner_double(v, "net", "download"),
        resource_count: inner_count(v, "net", "resource_count"),
        failed_resource_count: inner_count(v, "net", "failed_resource_count"),
        failed_resource_urls,
        total_transfer_kb: match inner_double(v, "net", "total_transfer_kb") {
            Some(x) => x,
            None => Double { bits: 0 },
        },
        slowest_resource_ms: inner_double(v, "net", "slowest_ms"),
        slowest_resource_url,
    }
}

/// The interactive element that an item of the collected list describes.
fn read_element(item: &serde_json::Value) -> (r: InteractiveElement)
    ensures
        r@ == collected_element(json_view(*item)),
{
    let label = match member_text(item, "label") {
        Some(s) => {
            let t = trim(s);
            if t.as_str().unicode_len() > 0 {
                Some(t)
            } else {
                None
            }
        },
        None => None,
    };
    let href = match member_text(item, "href") {
        Some(s) => if s.unicode_len() > 0 && !starts_with(s, "javascript") {
            Some(s.to_string())
        } else {
            None
        },
        None => None,
    };
    InteractiveElement {
        kind: owned_or(member_text(item, "kind"), "unknown"),
        label,
        href,
        input_type: owned(member_text(item, "input_type")),
    }
}

/// The interactive elements of the page.
fn read_interactions(v: &serde_json::Value, url: &str) -> (r: PageInteractions)
    ensures
        r@ == (InteractionsView {
            page_url: url@,
            elements_found: collected_elements(json_view(*v)).len() as usize,
            elements: collected_elements(json_view(*v)),
        }),
        collected_elements(json_view(*v)).len() <= usize::MAX,
{
    let mut out: Vec<InteractiveElement> = Vec::new();
    let ghost model = json_view(*v);
    match member_list(v, "interactive") {
        Some(items) => {
            let mut i: usize = 0;
            while i < items.len()
                invariant
                    i <= items.len(),
                    element_views(out@) =~= json_views(items@).map_values(
                        |item: JsonView| collected_element(item),
                    ).take(i as int),
                decreases items.len() - i,
            {
                let element = read_element(&items[i]);
                let ghost before = element_views(out@);
                out.push(element);
                proof {
                    assert(element_views(out@) =~= before.push(element@));
                }
                i += 1;
            }
        },
        None => {},
    }
    proof {
        assert(element_views(out@) =~= collected_elements(model));
    }
    PageInteractions { page_url: url.to_string(), elements_found: out.len(), elements: out }
}

/// What the collected value says of the page at `url`.
pub fn read_page(v: &serde_json::Value, url: &str) -> (r: PageFindings)
    ensures
        reads_page(json_view(*v), url@, r),
{
    PageFindings {
        issues: read_issues(v, url),
        perf: read_perf(v, url),
        network: read_network(v, url),
        links: read_texts(v, "links"),
        interactions: read_interactions(v, url),
    }
}

/// The value that a text from the page stands for, and null where it stands for none.
pub open spec fn collected_value(text: Seq<char>) -> JsonView {
    match parsed_json(text) {
        Some(v) => v,
        None => JsonView::Null,
    }
}

/// What the collection script brought from the page at `url`; `reply` is what the browser
/// gave back, if it did.
pub fn read_collected(reply: Option<&serde_json::Value>, url: &str) -> (r: PageFindings)
    ensures
        reads_page(
            collected_value(
                collected(
                    match reply {
                        Some(v) => Some(json_view(*v)),
                        None => None,
                    },
                ),
            ),
            url@,
            r,
        ),
{
    let text = collected_text(reply);
    let value = match parse_json(text.as_str()) {
        Some(v) => v,
        None => json_null(),
    };
    read_page(&value, url)
}

/// The bit pattern of the double 200.
const DOUBLE_200: u64 = 0x4069_0000_0000_0000;

/// The bit pattern of the double 600.
const DOUBLE_600: u64 = 0x4082_c000_0000_0000;

/// The bit pattern of the double 1800.
const DOUBLE_1800: u64 = 0x409c_2000_0000_0000;

/// The bit pattern of the double 2000.
const DOUBLE_2000: u64 = 0x409f_4000_0000_0000;

/// The bit pattern of the double 2500.
const DOUBLE_2500: u64 = 0x40a3_8800_0000_0000;

/// The bit pattern of the double 3000.
const DOUBLE_3000: u64 = 0x40a7_7000_0000_0000;

/// The bit pattern of the double 3800.
const DOUBLE_3800: u64 = 0x40ad_b000_0000_0000;

/// The bit pattern of the double 4000.
const DOUBLE_4000: u64 = 0x40af_4000_0000_0000;

/// The bit pattern of the double 7300.
const DOUBLE_7300: u64 = 0x40bc_8400_0000_0000;

/// The bit pattern of the double nearest to one tenth.
pub const TENTH: u64 = 0x3fb9_9999_9999_999a;

/// The bit pattern of the double one quarter.
pub const QUARTER: u64 = 0x3fd0_0000_0000_0000;

/// The limits are the whole numbers that they are named after.
proof fn lemma_limits()
    ensures
        (Double { bits: DOUBLE_200 }).is_whole(200),
        (Double { bits: DOUBLE_600 }).is_whole(600),
        (Double { bits: DOUBLE_1800 }).is_whole(1800),
        (Double { bits: DOUBLE_2000 }).is_whole(2000),
        (Double { bits: DOUBLE_2500 }).is_whole(2500),
        (Double { bits: DOUBLE_3000 }).is_whole(3000),
        (Double { bits: DOUBLE_3800 }).is_whole(3800),
        (Double { bits: DOUBLE_4000 }).is_whole(4000),
        (Double { bits: DOUBLE_7300 }).is_whole(7300),
{
    lemma2_to64_rest();
    lemma_whole(Double { bits: DOUBLE_200 }, 200, 45);
    lemma_whole(Double { bits: DOUBLE_600 }, 600, 43);
    lemma_whole(Double { bits: DOUBLE_1800 }, 1800, 42);
    lemma_whole(Double { bits: DOUBLE_2000 }, 2000, 42);
    lemma_whole(Double { bits: DOUBLE_2500 }, 2500, 41);
    lemma_whole(Double { bits: DOUBLE_3000 }, 3000, 41);
    lemma_whole(Double { bits: DOUBLE_3800 }, 3800, 41);
    lemma_whole(Double { bits: DOUBLE_4000 }, 4000, 41);
    lemma_whole(Double { bits: DOUBLE_7300 }, 7300, 40);
}

/// How grave a time is that should stay below `warn` and must not be above `error`.
pub open spec fn time_grade(value: Option<Double>, warn: nat, error: nat) -> Option<Severity> {
    match value {
        Some(x) => if x.exceeds_whole(error) {
            Some(Severity::Error)
        } else if x.reaches_whole(warn) {
            Some(Severity::Warning)
        } else {
            None
        },
        None => None,
    }
}

/// How grave a Time to Interactive is: an error from 7300 ms on, a warning from 3800 ms on.
pub open spec fn tti_grade(value: Option<Double>) -> Option<Severity> {
    match value {
        Some(x) => if x.reaches_whole(7300) {
            Some(Severity::Error)
        } else if x.reaches_whole(3800) {
            Some(Severity::Warning)
        } else {
            None
        },
        None => None,
    }
}

/// How grave a layout shift score is: an error from one quarter on, a warning from one
/// tenth on.
pub open spec fn cls_grade(value: Option<Double>) -> Option<Severity> {
    match value {
        Some(x) => if x.reaches(Double { bits: QUARTER }) {
            Some(Severity::Error)
        } else if x.reaches(Double { bits: TENTH }) {
            Some(Severity::Warning)
        } else {
            None
        },
        None => None,
    }
}

/// How grave a time is that should stay below `warn` and must not be above `error`.
fn grade_time(
    value: Option<Double>,
    warn: Double,
    error: Double,
    Ghost(w): Ghost<nat>,
    Ghost(e): Ghost<nat>,
) -> (r: Option<Severity>)
    requires
        warn.is_whole(w),
        error.is_whole(e),
    ensures
        r == time_grade(value, w, e),
{
    match value {
        Some(x) => if x.above(error) {
            Some(Severity::Error)
        } else if x.at_least(warn) {
            Some(Severity::Warning)
        } else {
            None
        },
        None => None,
    }
}

/// How grave a value is that should stay below `warn` and must stay below `error`.
fn grade_below(value: Option<Double>, warn: Double, error: Double) -> (r: Option<Severity>)
    requires
        warn.is_non_negative(),
        error.is_non_negative(),
    ensures
        r == match value {
            Some(x) => if x.reaches(error) {
                Some(Severity::Error)
            } else if x.reaches(warn) {
                Some(Severity::Warning)
            } else {
                None
            },
            None => None,
        },
{
    match value {
        Some(x) => if x.at_least(error) {
            Some(Severity::Error)
        } else if x.at_least(warn) {
            Some(Severity::Warning)
        } else {
            None
        },
        None => None,
    }
}

/// How the measurements of a page are written: times in whole milliseconds, the layout
/// shift score with three decimals.
#[derive(Debug)]
pub struct ShownMetrics {
    pub fcp: String,
    pub lcp: String,
    pub tti: String,
    pub cls: String,
    pub load: String,
    pub ttfb: String,
}

/// The issue for a measurement of that grade, if it has one: `very` says that it is an
/// error, `slow` that it is a warning.
pub open spec fn graded_issue(
    url: Seq<char>,
    grade: Option<Severity>,
    category: IssueCategory,
    very: Seq<char>,
    slow: Seq<char>,
) -> Seq<IssueView> {
    match grade {
        Some(s) => seq![
            issue_on(
                url,
                s,
                category,
                if s == Severity::Error {
                    very
                } else {
                    slow
                },
                None,
            ),
        ],
        None => Seq::empty(),
    }
}

/// The issues for the measured speed of a page.
pub open spec fn speed_issues(url: Seq<char>, perf: PerfMetrics, shown: ShownMetrics) -> Seq<IssueView> {
    let category = IssueCategory::Performance;
    graded_issue(
        url,
        time_grade(perf.fcp_ms, 1800, 3000),
        category,
        "FCP is very slow: "@ + shown.fcp@ + "ms (error > 3s)"@,
        "FCP is slow: "@ + shown.fcp@ + "ms (warn > 1.8s)"@,
    ) + graded_issue(
        url,
        time_grade(perf.lcp_ms, 2500, 4000),
        category,
        "LCP is very slow: "@ + shown.lcp@ + "ms (error > 4s)"@,
        "LCP is slow: "@ + shown.lcp@ + "ms (warn > 2.5s)"@,
    ) + graded_issue(
        url,
        tti_grade(perf.tti_ms),
        category,
        "TTI is very slow: "@ + shown.tti@ + "ms (error > 7.3s)"@,
        "TTI is slow: "@ + shown.tti@ + "ms (warn > 3.8s)"@,
    ) + graded_issue(
        url,
        cls_grade(perf.cls_score),
        category,
        "CLS is extremely high: "@ + shown.cls@ + " (error > 0.25)"@,
        "CLS is high: "@ + shown.cls@ + " (warn > 0.1)"@,
    ) + graded_issue(
        url,
        time_grade(perf.load_ms, 2000, 4000),
        category,
        "Page load is very slow: "@ + shown.load@ + "ms (error > 4s)"@,
        "Page load is slow: "@ + shown.load@ + "ms (warn > 2s)"@,
    )
}

/// What is said of resources that failed to load.
pub open spec fn failed_message(count: nat, urls: Seq<Seq<char>>) -> Seq<char> {
    numeral(count) + " resource"@ + (if count == 1 {
        ""@
    } else {
        "s"@
    }) + " failed to load"@ + (if urls.len() == 0 {
        ""@
    } else {
        " — "@ + joined(urls, ", "@)
    })
}

/// The issues for the network timing of a page.
pub open spec fn network_issues(url: Seq<char>, net: NetworkStats, shown: ShownMetrics) -> Seq<
    IssueView,
> {
    graded_issue(
        url,
        time_grade(net.ttfb_ms, 200, 600),
        IssueCategory::NetworkError,
        "TTFB is very slow: "@ + shown.ttfb@ + "ms (error > 600ms)"@,
        "TTFB is slow: "@ + shown.ttfb@ + "ms (warn > 200ms)"@,
    ) + (if net.failed_resource_count > 0 {
        seq![
            issue_on(
                url,
                Severity::Error,
                IssueCategory::FailedResource,
                failed_message(net.failed_resource_count as nat, views(net.failed_resource_urls@)),
                None,
            ),
        ]
    } else {
        Seq::empty()
    })
}

/// `before`, `middle` and `after` one after the other.
fn glue(before: &str, middle: &str, after: &str) -> (r: String)
    ensures
        r@ == before@ + middle@ + after@,
{
    let mut s = before.to_string();
    s.append(middle);
    s.append(after);
    s
}

/// Appends the issue for a measurement of that grade, if it has one.
fn push_graded(
    issues: &mut Vec<Issue>,
    url: &str,
    grade: Option<Severity>,
    category: IssueCategory,
    very: String,
    slow: String,
)
    ensures
        issue_views(final(issues)@) == issue_views(old(issues)@) + graded_issue(
            url@,
            grade,
            category,
            very@,
            slow@,
        ),
{
    let ghost before = issue_views(issues@);
    match grade {
        Some(s) => {
            let message = if s == Severity::Error {
                very
            } else {
                slow
            };
            let issue = new_issue(url, s, category, message, None);
            issues.push(issue);
            proof {
                assert(issue_views(issues@) =~= before.push(issue@));
                assert(before.push(issue@) =~= before + seq![issue@]);
            }
        },
        None => {
            proof {
                assert(before =~= before + Seq::<IssueView>::empty());
            }
        },
    }
}

/// Appends the issues for the measured speed of a page.
fn flag_speed(issues: &mut Vec<Issue>, url: &str, perf: &PerfMetrics, shown: &ShownMetrics)
    ensures
        issue_views(final(issues)@) == issue_views(old(issues)@) + speed_issues(url@, *perf, *shown),
{
    let ghost start = issue_views(issues@);
    let category = IssueCategory::Performance;
    proof {
        lemma_limits();
    }
    let fcp = grade_time(
        perf.fcp_ms,
        Double { bits: DOUBLE_1800 },
        Double { bits: DOUBLE_3000 },
        Ghost(1800),
        Ghost(3000),
    );
    push_graded(
        issues,
        url,
        fcp,
        category,
        glue("FCP is very slow: ", shown.fcp.as_str(), "ms (error > 3s)"),
        glue("FCP is slow: ", shown.fcp.as_str(), "ms (warn > 1.8s)"),
    );
    let lcp = grade_time(
        perf.lcp_ms,
        Double { bits: DOUBLE_2500 },
        Double { bits: DOUBLE_4000 },
        Ghost(2500),
        Ghost(4000),
    );
    push_graded(
        issues,
        url,
        lcp,
        category,
        glue("LCP is very slow: ", shown.lcp.as_str(), "ms (error > 4s)"),
        glue("LCP is slow: ", shown.lcp.as_str(), "ms (warn > 2.5s)"),
    );
    let tti = grade_below(perf.tti_ms, Double { bits: DOUBLE_3800 }, Double { bits: DOUBLE_7300 });
    push_graded(
        issues,
        url,
        tti,
        category,
        glue("TTI is very slow: ", shown.tti.as_str(), "ms (error > 7.3s)"),
        glue("TTI is slow: ", shown.tti.as_str(), "ms (warn > 3.8s)"),
    );
    let cls = grade_below(perf.cls_score, Double { bits: TENTH }, Double { bits: QUARTER });
    push_graded(
        issues,
        url,
        cls,
        category,
        glue("CLS is extremely high: ", shown.cls.as_str(), " (error > 0.25)"),
        glue("CLS is high: ", shown.cls.as_str(), " (warn > 0.1)"),
    );
    let load = grade_time(
        perf.load_ms,
        Double { bits: DOUBLE_2000 },
        Double { bits: DOUBLE_4000 },
        Ghost(2000),
        Ghost(4000),
    );
    push_graded(
        issues,
        url,
        load,
        category,
        glue("Page load is very slow: ", shown.load.as_str(), "ms (error > 4s)"),
        glue("Page load is slow: ", shown.load.as_str(), "ms (warn > 2s)"),
    );
    proof {
        let a = graded_issue(
            url@,
            fcp,
            category,
            "FCP is very slow: "@ + shown.fcp@ + "ms (error > 3s)"@,
            "FCP is slow: "@ + shown.fcp@ + "ms (warn > 1.8s)"@,
        );
        let b = graded_issue(
            url@,
            lcp,
            category,
            "LCP is very slow: "@ + shown.lcp@ + "ms (error > 4s)"@,
            "LCP is slow: "@ + shown.lcp@ + "ms (warn > 2.5s)"@,
        );
        let c = graded_issue(
            url@,
            tti,
            category,
            "TTI is very slow: "@ + shown.tti@ + "ms (error > 7.3s)"@,
            "TTI is slow: "@ + shown.tti@ + "ms (warn > 3.8s)"@,
        );
        let d = graded_issue(
            url@,
            cls,
            category,
            "CLS is extremely high: "@ + shown.cls@ + " (error > 0.25)"@,
            "CLS is high: "@ + shown.cls@ + " (warn > 0.1)"@,
        );
        let e = graded_issue(
            url@,
            load,
            category,
            "Page load is very slow: "@ + shown.load@ + "ms (error > 4s)"@,
            "Page load is slow: "@ + shown.load@ + "ms (warn > 2s)"@,
        );
        assert(issue_views(issues@) == start + a + b + c + d + e);
        lemma_regroup(start, a, b, c, d, e);
        assert(speed_issues(url@, *perf, *shown) == a + b + c + d + e);
    }
}

/// Appending lists one by one appends them all.
proof fn lemma_regroup<A>(start: Seq<A>, a: Seq<A>, b: Seq<A>, c: Seq<A>, d: Seq<A>, e: Seq<A>)
    ensures
        start + a + b + c + d + e == start + (a + b + c + d + e),
{
    assert(start + a + b + c + d + e =~= start + (a + b + c + d + e));
}

/// What is said of resources that failed to load.
fn failed_text(count: usize, urls: &Vec<String>) -> (r: String)
    ensures
        r@ == failed_message(count as nat, views(urls@)),
{
    let mut s = decimal(count as u64);
    s.append(" resource");
    s.append(if count == 1 {
        ""
    } else {
        "s"
    });
    s.append(" failed to load");
    if urls.len() == 0 {
        s.append("");
    } else {
        let mut detail = " — ".to_string();
        let list = join(urls, ", ");
        detail.append(list.as_str());
        s.append(detail.as_str());
    }
    s
}

/// Appends the issues for the network timing of a page.
fn flag_network(issues: &mut Vec<Issue>, url: &str, net: &NetworkStats, shown: &ShownMetrics)
    ensures
        issue_views(final(issues)@) == issue_views(old(issues)@) + network_issues(
            url@,
            *net,
            *shown,
        ),
{
    let ghost start = issue_views(issues@);
    proof {
        lemma_limits();
    }
    let ttfb = grade_time(
        net.ttfb_ms,
        Double { bits: DOUBLE_200 },
        Double { bits: DOUBLE_600 },
        Ghost(200),
        Ghost(600),
    );
    push_graded(
        issues,
        url,
        ttfb,
        IssueCategory::NetworkError,
        glue("TTFB is very slow: ", shown.ttfb.as_str(), "ms (error > 600ms)"),
        glue("TTFB is slow: ", shown.ttfb.as_str(), "ms (warn > 200ms)"),
    );
    if net.failed_resource_count > 0 {
        let message = failed_text(net.failed_resource_count, &net.failed_resource_urls);
        let issue = new_issue(url, Severity::Error, IssueCategory::FailedResource, message, None);
        let ghost before = issue_views(issues@);
        issues.push(issue);
        proof {
            assert(issue_views(issues@) =~= before.push(issue@));
        }
    }
    proof {
        assert(issue_views(issues@) =~= start + network_issues(url@, *net, *shown));
    }
}

/// The issues of a page: those that the collection script reported, then those for its
/// speed, then those for its network timing.
pub open spec fn page_issues(url: Seq<char>, found: PageFindings, shown: ShownMetrics) -> Seq<IssueView> {
    issue_views(found.issues@) + speed_issues(url, found.perf, shown) + network_issues(
        url,
        found.network,
        shown,
    )
}

/// Flags slow times, layout shifts and failed resources of the page at `url`; `shown` has
/// its measurements as they are to be written.
pub fn flag_measurements(found: PageFindings, url: &str, shown: &ShownMetrics) -> (r: PageFindings)
    ensures
        issue_views(r.issues@) == page_issues(url@, found, *shown),
        r.perf == found.perf,
        r.network == found.network,
        r.links == found.links,
        r.interactions == found.interactions,
{
    let mut issues = found.issues;
    flag_speed(&mut issues, url, &found.perf, shown);
    flag_network(&mut issues, url, &found.network, shown);
    PageFindings {
        issues,
        perf: found.perf,
        network: found.network,
        links: found.links,
        interactions: found.interactions,
    }
}

/// Every issue of a page that was read names this page and no other, and was reached by no
/// action.
pub proof fn issues_name_their_page(
    v: JsonView,
    url: Seq<char>,
    found: PageFindings,
    shown: ShownMetrics,
    i: int,
)
    requires
        reads_page(v, url, found),
        0 <= i < page_issues(url, found, shown).len(),
    ensures
        page_issues(url, found, shown)[i].page_urls == seq![url],
        page_issues(url, found, shown)[i].action_path.len() == 0,
        page_issues(url, found, shown)[i].affected_pages_count is None,
{
    lemma_issues_on_page(v, url, found, shown, i);
}

/// The issues of a page name that page.
proof fn lemma_issues_on_page(
    v: JsonView,
    url: Seq<char>,
    found: PageFindings,
    shown: ShownMetrics,
    i: int,
)
    requires
        issue_views(found.issues@) == reported_issues(v, url),
        0 <= i < page_issues(url, found, shown).len(),
    ensures
        is_on(page_issues(url, found, shown)[i], url),
{
    let reported = issue_views(found.issues@);
    let speed = speed_issues(url, found.perf, shown);
    let network = network_issues(url, found.network, shown);
    if i < reported.len() {
        assert(page_issues(url, found, shown)[i] == reported[i]);
        let items = v.list_of("issues"@)->0;
        assert(reported[i] == reported_issue(items[i], url));
    } else if i < reported.len() + speed.len() {
        assert(page_issues(url, found, shown)[i] == speed[i - reported.len()]);
        lemma_on_page(
            graded_issue(
                url,
                time_grade(found.perf.fcp_ms, 1800, 3000),
                IssueCategory::Performance,
                "FCP is very slow: "@ + shown.fcp@ + "ms (error > 3s)"@,
                "FCP is slow: "@ + shown.fcp@ + "ms (warn > 1.8s)"@,
            ),
            graded_issue(
                url,
                time_grade(found.perf.lcp_ms, 2500, 4000),
                IssueCategory::Performance,
                "LCP is very slow: "@ + shown.lcp@ + "ms (error > 4s)"@,
                "LCP is slow: "@ + shown.lcp@ + "ms (warn > 2.5s)"@,
            ),
            graded_issue(
                url,
                tti_grade(found.perf.tti_ms),
                IssueCategory::Performance,
                "TTI is very slow: "@ + shown.tti@ + "ms (error > 7.3s)"@,
                "TTI is slow: "@ + shown.tti@ + "ms (warn > 3.8s)"@,
            ),
            graded_issue(
                url,
                cls_grade(found.perf.cls_score),
                IssueCategory::Performance,
                "CLS is extremely high: "@ + shown.cls@ + " (error > 0.25)"@,
                "CLS is high: "@ + shown.cls@ + " (warn > 0.1)"@,
            ),
            graded_issue(
                url,
                time_grade(found.perf.load_ms, 2000, 4000),
                IssueCategory::Performance,
                "Page load is very slow: "@ + shown.load@ + "ms (error > 4s)"@,
                "Page load is slow: "@ + shown.load@ + "ms (warn > 2s)"@,
            ),
            url,
            i - reported.len(),
        );
    } else {
        assert(page_issues(url, found, shown)[i] == network[i - reported.len() - speed.len()]);
    }
}

/// The issue is on that page alone.
spec fn is_on(issue: IssueView, url: Seq<char>) -> bool {
    issue.page_urls == seq![url] && issue.action_path.len() == 0 && issue.affected_pages_count
        is None
}

/// Lists of issues on one page make a list of issues on that page.
proof fn lemma_on_page(
    a: Seq<IssueView>,
    b: Seq<IssueView>,
    c: Seq<IssueView>,
    d: Seq<IssueView>,
    e: Seq<IssueView>,
    url: Seq<char>,
    i: int,
)
    requires
        forall|k: int| 0 <= k < a.len() ==> is_on(#[trigger] a[k], url),
        forall|k: int| 0 <= k < b.len() ==> is_on(#[trigger] b[k], url),
        forall|k: int| 0 <= k < c.len() ==> is_on(#[trigger] c[k], url),
        forall|k: int| 0 <= k < d.len() ==> is_on(#[trigger] d[k], url),
        forall|k: int| 0 <= k < e.len() ==> is_on(#[trigger] e[k], url),
        0 <= i < (a + b + c + d + e).len(),
    ensures
        is_on((a + b + c + d + e)[i], url),
{
    let (p, q, r) = (a.len() as int, (a + b).len() as int, (a + b + c).len() as int);
    let s = (a + b + c + d).len() as int;
    if i < p {
        assert((a + b + c + d + e)[i] == a[i]);
    } else if i < q {
        assert((a + b + c + d + e)[i] == b[i - p]);
    } else if i < r {
        assert((a + b + c + d + e)[i] == c[i - q]);
    } else if i < s {
        assert((a + b + c + d + e)[i] == d[i - r]);
    } else {
        assert((a + b + c + d + e)[i] == e[i - s]);
    }
}

/// How grave a grade is; no issue is the mildest.
pub open spec fn grade_level(grade: Option<Severity>) -> int {
    match grade {
        Some(s) => s.level(),
        None => -1,
    }
}

/// A time that is not shorter is graded no milder.
pub proof fn slower_is_graver(a: Double, b: Double, warn: nat, error: nat)
    requires
        a.is_non_negative(),
        b.is_non_negative(),
        a.value() <= b.value(),
    ensures
        grade_level(time_grade(Some(a), warn, error)) <= grade_level(
            time_grade(Some(b), warn, error),
        ),
        grade_level(tti_grade(Some(a))) <= grade_level(tti_grade(Some(b))),
        grade_level(cls_grade(Some(a))) <= grade_level(cls_grade(Some(b))),
{
}

/// A whole number of milliseconds that a page reports as `v` is graded as it compares with
/// the limits; one below zero is no issue.
pub proof fn whole_times_are_graded(v: JsonView, d: Option<Double>, warn: nat, error: nat)
    requires
        keeps_whole(v, d),
    ensures
        match v {
            JsonView::Number(NumberView::Natural(n)) => n <= LARGEST_WHOLE ==> {
                &&& time_grade(d, warn, error) == (if n > error {
                    Some(Severity::Error)
                } else if n >= warn {
                    Some(Severity::Warning)
                } else {
                    None
                })
                &&& tti_grade(d) == (if n >= 7300 {
                    Some(Severity::Error)
                } else if n >= 3800 {
                    Some(Severity::Warning)
                } else {
                    None
                })
            },
            JsonView::Number(NumberView::Negative(_)) => {
                &&& time_grade(d, warn, error) is None
                &&& tti_grade(d) is None
                &&& cls_grade(d) is None
            },
            _ => true,
        },
{
    if let JsonView::Number(NumberView::Natural(n)) = v {
        lemma_units_compare(n as nat, warn);
        lemma_units_compare(n as nat, error);
        lemma_units_compare(n as nat, 7300);
        lemma_units_compare(n as nat, 3800);
    }
}

/// Whole numbers compare as their units do.
proof fn lemma_units_compare(a: nat, b: nat)
    ensures
        (whole_units(a) > whole_units(b)) == (a > b),
        (whole_units(a) >= whole_units(b)) == (a >= b),
{
    let p = pow2(1074);
    lemma_pow2_pos(1074);
    assert((a * p > b * p) == (a > b)) by (nonlinear_arith)
        requires
            p > 0,
    ;
    assert((a * p >= b * p) == (a >= b)) by (nonlinear_arith)
        requires
            p > 0,
    ;
}

/// The lists of issues that make up those of a page, and where each of them starts.
proof fn lemma_page_issues(url: Seq<char>, found: PageFindings, shown: ShownMetrics) -> (at: Seq<int>)
    ensures
        ({
            let all = page_issues(url, found, shown);
            let parts = measured_issues(url, found, shown);
            &&& at.len() == 7
            &&& forall|p: int, k: int|
                #![trigger parts[p][k]]
                0 <= p < 7 && 0 <= k < parts[p].len() ==> 0 <= at[p] && at[p] + k < all.len()
                    && all[at[p] + k] == parts[p][k]
            &&& all.len() == found.issues@.len() + parts[0].len() + parts[1].len()
                + parts[2].len() + parts[3].len() + parts[4].len() + parts[5].len()
                + parts[6].len()
            &&& forall|i: int|
                #![trigger found.issues@[i]]
                0 <= i < found.issues@.len() ==> all[i] == found.issues@[i]@
        }),
{
    reveal(measured_issues);
    let all = page_issues(url, found, shown);
    let parts = measured_issues(url, found, shown);
    let (a, b, c, d, e) = (parts[0], parts[1], parts[2], parts[3], parts[4]);
    let reported = issue_views(found.issues@);
    let speed = a + b + c + d + e;
    let network = parts[5] + parts[6];
    assert(all == reported + speed + network);
    let n = reported.len() as int;
    let at = seq![
        n,
        n + a.len(),
        n + a.len() + b.len(),
        n + a.len() + b.len() + c.len(),
        n + a.len() + b.len() + c.len() + d.len(),
        n + speed.len(),
        n + speed.len() + parts[5].len(),
    ];
    assert forall|p: int, k: int|
        #![trigger parts[p][k]]
        0 <= p < 7 && 0 <= k < parts[p].len() implies 0 <= at[p] && at[p] + k < all.len()
        && all[at[p] + k] == parts[p][k] by {
        if p == 0 {
            assert(speed[k] == a[k]);
        } else if p == 1 {
            assert(speed[a.len() + k] == b[k]);
        } else if p == 2 {
            assert(speed[a.len() + b.len() + k] == c[k]);
        } else if p == 3 {
            assert(speed[a.len() + b.len() + c.len() + k] == d[k]);
        } else if p == 4 {
            assert(speed[a.len() + b.len() + c.len() + d.len() + k] == e[k]);
        } else if p == 5 {
            assert(network[k] == parts[5][k]);
        } else {
            assert(network[parts[5].len() + k] == parts[6][k]);
        }
    }
    assert forall|i: int|
        #![trigger found.issues@[i]]
        0 <= i < found.issues@.len() implies all[i] == found.issues@[i]@ by {
        assert(reported[i] == found.issues@[i]@);
    }
    at
}

/// The issues for each of the measurements of a page.
#[verifier::opaque]
spec fn measured_issues(url: Seq<char>, found: PageFindings, shown: ShownMetrics) -> Seq<
    Seq<IssueView>,
> {
    let category = IssueCategory::Performance;
    seq![
        graded_issue(
            url,
            time_grade(found.perf.fcp_ms, 1800, 3000),
            category,
            "FCP is very slow: "@ + shown.fcp@ + "ms (error > 3s)"@,
            "FCP is slow: "@ + shown.fcp@ + "ms (warn > 1.8s)"@,
        ),
        graded_issue(
            url,
            time_grade(found.perf.lcp_ms, 2500, 4000),
            category,
            "LCP is very slow: "@ + shown.lcp@ + "ms (error > 4s)"@,
            "LCP is slow: "@ + shown.lcp@ + "ms (warn > 2.5s)"@,
        ),
        graded_issue(
            url,
            tti_grade(found.perf.tti_ms),
            category,
            "TTI is very slow: "@ + shown.tti@ + "ms (error > 7.3s)"@,
            "TTI is slow: "@ + shown.tti@ + "ms (warn > 3.8s)"@,
        ),
        graded_issue(
            url,
            cls_grade(found.perf.cls_score),
            category,
            "CLS is extremely high: "@ + shown.cls@ + " (error > 0.25)"@,
            "CLS is high: "@ + shown.cls@ + " (warn > 0.1)"@,
        ),
        graded_issue(
            url,
            time_grade(found.perf.load_ms, 2000, 4000),
            category,
            "Page load is very slow: "@ + shown.load@ + "ms (error > 4s)"@,
            "Page load is slow: "@ + shown.load@ + "ms (warn > 2s)"@,
        ),
        graded_issue(
            url,
            time_grade(found.network.ttfb_ms, 200, 600),
            IssueCategory::NetworkError,
            "TTFB is very slow: "@ + shown.ttfb@ + "ms (error > 600ms)"@,
            "TTFB is slow: "@ + shown.ttfb@ + "ms (warn > 200ms)"@,
        ),
        if found.network.failed_resource_count > 0 {
            seq![
                issue_on(
                    url,
                    Severity::Error,
                    IssueCategory::FailedResource,
                    failed_message(
                        found.network.failed_resource_count as nat,
                        views(found.network.failed_resource_urls@),
                    ),
                    None,
                ),
            ]
        } else {
            Seq::empty()
        },
    ]
}

/// The First Contentful Paint of a page is flagged by its own value, whatever else was measured: it is
/// an error beyond the one limit, and a warning from the other one on.
pub proof fn fcp_is_flagged(url: Seq<char>, found: PageFindings, shown: ShownMetrics)
    ensures
        ({
            let all = page_issues(url, found, shown);
            &&& found.perf.fcp_ms is Some && found.perf.fcp_ms->0.exceeds_whole(3000) ==> exists|k: int|
                #![trigger all[k]]
                0 <= k < all.len() && all[k].severity == Severity::Error && all[k].category
                    == IssueCategory::Performance && all[k].message == "FCP is very slow: "@
                    + shown.fcp@ + "ms (error > 3s)"@ && all[k].page_urls == seq![url]
            &&& found.perf.fcp_ms is Some && found.perf.fcp_ms->0.reaches_whole(1800) && !(found.perf.fcp_ms is Some && found.perf.fcp_ms->0.exceeds_whole(3000)) ==> exists|k: int|
                #![trigger all[k]]
                0 <= k < all.len() && all[k].severity == Severity::Warning && all[k].category
                    == IssueCategory::Performance && all[k].message == "FCP is slow: "@
                    + shown.fcp@ + "ms (warn > 1.8s)"@ && all[k].page_urls == seq![url]
        }),
{
    let at = lemma_page_issues(url, found, shown);
    reveal(measured_issues);
    let part = measured_issues(url, found, shown)[0];
    let all = page_issues(url, found, shown);
    if part.len() > 0 {
        assert(all[at[0] + 0] == part[0]);
    }
}

/// The Largest Contentful Paint of a page is flagged by its own value, whatever else was measured: it is
/// an error beyond the one limit, and a warning from the other one on.
pub proof fn lcp_is_flagged(url: Seq<char>, found: PageFindings, shown: ShownMetrics)
    ensures
        ({
            let all = page_issues(url, found, shown);
            &&& found.perf.lcp_ms is Some && found.perf.lcp_ms->0.exceeds_whole(4000) ==> exists|k: int|
                #![trigger all[k]]
                0 <= k < all.len() && all[k].severity == Severity::Error && all[k].category
                    == IssueCategory::Performance && all[k].message == "LCP is very slow: "@
                    + shown.lcp@ + "ms (error > 4s)"@ && all[k].page_urls == seq![url]
            &&& found.perf.lcp_ms is Some && found.perf.lcp_ms->0.reaches_whole(2500) && !(found.perf.lcp_ms is Some && found.perf.lcp_ms->0.exceeds_whole(4000)) ==> exists|k: int|
                #![trigger all[k]]
                0 <= k < all.len() && all[k].severity == Severity::Warning && all[k].category
                    == IssueCategory::Performance && all[k].message == "LCP is slow: "@
                    + shown.lcp@ + "ms (warn > 2.5s)"@ && all[k].page_urls == seq![url]
        }),
{
    let at = lemma_page_issues(url, found, shown);
    reveal(measured_issues);
    let part = measured_issues(url, found, shown)[1];
    let all = page_issues(url, found, shown);
    if part.len() > 0 {
        assert(all[at[1] + 0] == part[0]);
    }
}

/// The Time to Interactive of a page is flagged by its own value, whatever else was measured: it is
/// an error beyond the one limit, and a warning from the other one on.
pub proof fn tti_is_flagged(url: Seq<char>, found: PageFindings, shown: ShownMetrics)
    ensures
        ({
            let all = page_issues(url, found, shown);
            &&& found.perf.tti_ms is Some && found.perf.tti_ms->0.reaches_whole(7300) ==> exists|k: int|
                #![trigger all[k]]
                0 <= k < all.len() && all[k].severity == Severity::Error && all[k].category
                    == IssueCategory::Performance && all[k].message == "TTI is very slow: "@
                    + shown.tti@ + "ms (error > 7.3s)"@ && all[k].page_urls == seq![url]
            &&& found.perf.tti_ms is Some && found.perf.tti_ms->0.reaches_whole(3800) && !(found.perf.tti_ms is Some && found.perf.tti_ms->0.reaches_whole(7300)) ==> exists|k: int|
                #![trigger all[k]]
                0 <= k < all.len() && all[k].severity == Severity::Warning && all[k].category
                    == IssueCategory::Performance && all[k].message == "TTI is slow: "@
                    + shown.tti@ + "ms (warn > 3.8s)"@ && all[k].page_urls == seq![url]
        }),
{
    let at = lemma_page_issues(url, found, shown);
    reveal(measured_issues);
    let part = measured_issues(url, found, shown)[2];
    let all = page_issues(url, found, shown);
    if part.len() > 0 {
        assert(all[at[2] + 0] == part[0]);
    }
}

/// The layout shift score of a page is flagged by its own value, whatever else was measured: it is
/// an error beyond the one limit, and a warning from the other one on.
pub proof fn cls_is_flagged(url: Seq<char>, found: PageFindings, shown: ShownMetrics)
    ensures
        ({
            let all = page_issues(url, found, shown);
            &&& found.perf.cls_score is Some && found.perf.cls_score->0.reaches(Double { bits: 0x3fd0_0000_0000_0000 }) ==> exists|k: int|
                #![trigger all[k]]
                0 <= k < all.len() && all[k].severity == Severity::Error && all[k].category
                    == IssueCategory::Performance && all[k].message == "CLS is extremely high: "@
                    + shown.cls@ + " (error > 0.25)"@ && all[k].page_urls == seq![url]
            &&& found.perf.cls_score is Some && found.perf.cls_score->0.reaches(Double { bits: 0x3fb9_9999_9999_999a }) && !(found.perf.cls_score is Some && found.perf.cls_score->0.reaches(Double { bits: 0x3fd0_0000_0000_0000 })) ==> exists|k: int|
                #![trigger all[k]]
                0 <= k < all.len() && all[k].severity == Severity::Warning && all[k].category
                    == IssueCategory::Performance && all[k].message == "CLS is high: "@
                    + shown.cls@ + " (warn > 0.1)"@ && all[k].page_urls == seq![url]
        }),
{
    let at = lemma_page_issues(url, found, shown);
    reveal(measured_issues);
    let part = measured_issues(url, found, shown)[3];
    let all = page_issues(url, found, shown);
    if part.len() > 0 {
        assert(all[at[3] + 0] == part[0]);
    }
}

/// The load time of a page is flagged by its own value, whatever else was measured: it is
/// an error beyond the one limit, and a warning from the other one on.
pub proof fn load_is_flagged(url: Seq<char>, found: PageFindings, shown: ShownMetrics)
    ensures
        ({
            let all = page_issues(url, found, shown);
            &&& found.perf.load_ms is Some && found.perf.load_ms->0.exceeds_whole(4000) ==> exists|k: int|
                #![trigger all[k]]
                0 <= k < all.len() && all[k].severity == Severity::Error && all[k].category
                    == IssueCategory::Performance && all[k].message == "Page load is very slow: "@
                    + shown.load@ + "ms (error > 4s)"@ && all[k].page_urls == seq![url]
            &&& found.perf.load_ms is Some && found.perf.load_ms->0.reaches_whole(2000) && !(found.perf.load_ms is Some && found.perf.load_ms->0.exceeds_whole(4000)) ==> exists|k: int|
                #![trigger all[k]]
                0 <= k < all.len() && all[k].severity == Severity::Warning && all[k].category
                    == IssueCategory::Performance && all[k].message == "Page load is slow: "@
                    + shown.load@ + "ms (warn > 2s)"@ && all[k].page_urls == seq![url]
        }),
{
    let at = lemma_page_issues(url, found, shown);
    reveal(measured_issues);
    let part = measured_issues(url, found, shown)[4];
    let all = page_issues(url, found, shown);
    if part.len() > 0 {
        assert(all[at[4] + 0] == part[0]);
    }
}

/// The time to the first byte of a page is flagged by its own value, whatever else was measured: it is
/// an error beyond the one limit, and a warning from the other one on.
pub proof fn ttfb_is_flagged(url: Seq<char>, found: PageFindings, shown: ShownMetrics)
    ensures
        ({
            let all = page_issues(url, found, shown);
            &&& found.network.ttfb_ms is Some && found.network.ttfb_ms->0.exceeds_whole(600) ==> exists|k: int|
                #![trigger all[k]]
                0 <= k < all.len() && all[k].severity == Severity::Error && all[k].category
                    == IssueCategory::NetworkError && all[k].message == "TTFB is very slow: "@
                    + shown.ttfb@ + "ms (error > 600ms)"@ && all[k].page_urls == seq![url]
            &&& found.network.ttfb_ms is Some && found.network.ttfb_ms->0.reaches_whole(200) && !(found.network.ttfb_ms is Some && found.network.ttfb_ms->0.exceeds_whole(600)) ==> exists|k: int|
                #![trigger all[k]]
                0 <= k < all.len() && all[k].severity == Severity::Warning && all[k].category
                    == IssueCategory::NetworkError && all[k].message == "TTFB is slow: "@
                    + shown.ttfb@ + "ms (warn > 200ms)"@ && all[k].page_urls == seq![url]
        }),
{
    let at = lemma_page_issues(url, found, shown);
    reveal(measured_issues);
    let part = measured_issues(url, found, shown)[5];
    let all = page_issues(url, found, shown);
    if part.len() > 0 {
        assert(all[at[5] + 0] == part[0]);
    }
}

/// Resources of a page that failed to load are one issue, which says how many there are and
/// names them.
pub proof fn failed_resources_are_flagged(url: Seq<char>, found: PageFindings, shown: ShownMetrics)
    ensures
        ({
            let all = page_issues(url, found, shown);
            let n = found.network.failed_resource_count as nat;
            let names = views(found.network.failed_resource_urls@);
            let many = if n == 1 {
                " resource failed to load"@
            } else {
                " resources failed to load"@
            };
            n > 0 ==> exists|k: int|
                #![trigger all[k]]
                0 <= k < all.len() && all[k].severity == Severity::Error && all[k].category
                    == IssueCategory::FailedResource && all[k].page_urls == seq![url]
                    && all[k].message == numeral(n) + many + (if names.len() == 0 {
                    Seq::empty()
                } else {
                    " — "@ + joined(names, ", "@)
                })
        }),
{
    let at = lemma_page_issues(url, found, shown);
    reveal(measured_issues);
    let part = measured_issues(url, found, shown)[6];
    let all = page_issues(url, found, shown);
    let n = found.network.failed_resource_count as nat;
    let names = views(found.network.failed_resource_urls@);
    if n > 0 {
        assert(all[at[6] + 0] == part[0]);
        lemma_failed_message(n, names);
    }
}

/// What is said of resources that failed to load, in two parts.
proof fn lemma_failed_message(n: nat, names: Seq<Seq<char>>)
    ensures
        failed_message(n, names) == numeral(n) + (if n == 1 {
            " resource failed to load"@
        } else {
            " resources failed to load"@
        }) + (if names.len() == 0 {
            Seq::empty()
        } else {
            " — "@ + joined(names, ", "@)
        }),
{
    reveal_strlit("");
    reveal_strlit("s");
    reveal_strlit(" resource");
    reveal_strlit(" failed to load");
    reveal_strlit(" resource failed to load");
    reveal_strlit(" resources failed to load");
    assert(" resource"@ + ""@ + " failed to load"@ =~= " resource failed to load"@);
    assert(" resource"@ + "s"@ + " failed to load"@ =~= " resources failed to load"@);
    let many = if n == 1 {
        " resource failed to load"@
    } else {
        " resources failed to load"@
    };
    let end: Seq<char> = if names.len() == 0 {
        Seq::empty()
    } else {
        " — "@ + joined(names, ", "@)
    };
    let ending = if n == 1 {
        ""@
    } else {
        "s"@
    };
    assert(numeral(n) + " resource"@ + ending + " failed to load"@ =~= numeral(n) + many);
    assert(failed_message(n, names) =~= numeral(n) + many + end);
}

/// How many issues each of the measurements of a page makes.
#[verifier::spinoff_prover]
proof fn lemma_measured_counts(url: Seq<char>, found: PageFindings, shown: ShownMetrics)
    ensures
        measured_issues(url, found, shown)[0].len() == (if found.perf.fcp_ms is Some && found.perf.fcp_ms->0.reaches_whole(1800) || (found.perf.fcp_ms is Some && found.perf.fcp_ms->0.exceeds_whole(3000)) {
            1int
        } else {
            0
        }),
        measured_issues(url, found, shown)[1].len() == (if found.perf.lcp_ms is Some && found.perf.lcp_ms->0.reaches_whole(2500) || (found.perf.lcp_ms is Some && found.perf.lcp_ms->0.exceeds_whole(4000)) {
            1int
        } else {
            0
        }),
        measured_issues(url, found, shown)[2].len() == (if found.perf.tti_ms is Some && found.perf.tti_ms->0.reaches_whole(3800) || (found.perf.tti_ms is Some && found.perf.tti_ms->0.reaches_whole(7300)) {
            1int
        } else {
            0
        }),
        measured_issues(url, found, shown)[3].len() == (if found.perf.cls_score is Some && found.perf.cls_score->0.reaches(Double { bits: 0x3fb9_9999_9999_999a }) || (found.perf.cls_score is Some && found.perf.cls_score->0.reaches(Double { bits: 0x3fd0_0000_0000_0000 })) {
            1int
        } else {
            0
        }),
        measured_issues(url, found, shown)[4].len() == (if found.perf.load_ms is Some && found.perf.load_ms->0.reaches_whole(2000) || (found.perf.load_ms is Some && found.perf.load_ms->0.exceeds_whole(4000)) {
            1int
        } else {
            0
        }),
        measured_issues(url, found, shown)[5].len() == (if found.network.ttfb_ms is Some && found.network.ttfb_ms->0.reaches_whole(200) || (found.network.ttfb_ms is Some && found.network.ttfb_ms->0.exceeds_whole(600)) {
            1int
        } else {
            0
        }),
        measured_issues(url, found, shown)[6].len() == (if found.network.failed_resource_count > 0 {
            1int
        } else {
            0
        }),
{
    reveal(measured_issues);
}

/// A page has the issues that were reported of it, in their order, and beyond them one for each
/// measurement that is over its limit and one for its failed resources, and no other.
pub proof fn page_has_no_other_issues(url: Seq<char>, found: PageFindings, shown: ShownMetrics)
    ensures
        ({
            let all = page_issues(url, found, shown);
            &&& forall|i: int|
                #![trigger found.issues@[i]]
                0 <= i < found.issues@.len() ==> all[i] == found.issues@[i]@
            &&& all.len() == found.issues@.len() + (if found.perf.fcp_ms is Some && found.perf.fcp_ms->0.reaches_whole(1800) || (found.perf.fcp_ms is Some && found.perf.fcp_ms->0.exceeds_whole(3000)) {
                1int
            } else {
                0
            }) + (if found.perf.lcp_ms is Some && found.perf.lcp_ms->0.reaches_whole(2500) || (found.perf.lcp_ms is Some && found.perf.lcp_ms->0.exceeds_whole(4000)) {
                1int
            } else {
                0
            }) + (if found.perf.tti_ms is Some && found.perf.tti_ms->0.reaches_whole(3800) || (found.perf.tti_ms is Some && found.perf.tti_ms->0.reaches_whole(7300)) {
                1int
            } else {
                0
            }) + (if found.perf.cls_score is Some && found.perf.cls_score->0.reaches(Double { bits: 0x3fb9_9999_9999_999a }) || (found.perf.cls_score is Some && found.perf.cls_score->0.reaches(Double { bits: 0x3fd0_0000_0000_0000 })) {
                1int
            } else {
                0
            }) + (if found.perf.load_ms is Some && found.perf.load_ms->0.reaches_whole(2000) || (found.perf.load_ms is Some && found.perf.load_ms->0.exceeds_whole(4000)) {
                1int
            } else {
                0
            }) + (if found.network.ttfb_ms is Some && found.network.ttfb_ms->0.reaches_whole(200) || (found.network.ttfb_ms is Some && found.network.ttfb_ms->0.exceeds_whole(600)) {
                1int
            } else {
                0
            }) + (if found.network.failed_resource_count > 0 {
                1int
            } else {
                0
            })
        }),
{
    let at = lemma_page_issues(url, found, shown);
    lemma_measured_counts(url, found, shown);
}

/// What the collection script reports is read item by item: the message and the element as they
/// are given, the severity and the category by their words, on the page at `url`.
pub proof fn reported_items_are_read(v: JsonView, items: Seq<JsonView>, url: Seq<char>, i: int)
    requires
        v.list_of("issues"@) == Some(items),
        0 <= i < items.len(),
    ensures
        reported_issues(v, url).len() == items.len(),
        ({
            let issue = reported_issues(v, url)[i];
            let sev = items[i].text_of("sev"@);
            let cat = items[i].text_of("cat"@);
            &&& issue.page_urls == seq![url]
            &&& issue.element == items[i].text_of("el"@)
            &&& items[i].text_of("msg"@) is Some ==> issue.message == items[i].text_of("msg"@)->0
            &&& items[i].text_of("msg"@) is None ==> issue.message.len() == 0
            &&& issue.affected_pages_count is None && issue.action_path.len() == 0
            &&& issue.severity == Severity::Error <==> sev == Some("error"@) || sev == Some(
                "uncaught"@,
            ) || sev == Some("rejection"@)
            &&& issue.severity == Severity::Warning <==> sev == Some("warning"@)
            &&& issue.severity != Severity::Critical
            &&& issue.category == IssueCategory::Accessibility <==> cat == Some("accessibility"@)
            &&& issue.category == IssueCategory::Seo <==> cat == Some("seo"@)
            &&& issue.category == IssueCategory::Security <==> cat == Some("security"@)
            &&& issue.category == IssueCategory::Accessibility || issue.category
                == IssueCategory::Seo || issue.category == IssueCategory::Security
                || issue.category == IssueCategory::ConsoleError
        }),
{
    reveal_strlit("error");
    reveal_strlit("uncaught");
    reveal_strlit("rejection");
    reveal_strlit("warning");
    reveal_strlit("accessibility");
    reveal_strlit("seo");
    reveal_strlit("security");
    assert("error"@.len() == 5 && "uncaught"@.len() == 8 && "rejection"@.len() == 9
        && "warning"@.len() == 7 && "accessibility"@.len() == 13 && "seo"@.len() == 3
        && "security"@.len() == 8);
}

/// The texts of a list are read in their order, and what is no text is left out.
pub proof fn texts_are_read_in_order(a: Seq<JsonView>, b: Seq<JsonView>, item: JsonView)
    ensures
        texts_in(a + b) == texts_in(a) + texts_in(b),
        item.text() is Some ==> texts_in(seq![item]) == seq![item.text()->0],
        item.text() is None ==> texts_in(seq![item]).len() == 0,
    decreases b.len(),
{
    assert(seq![item].drop_last() =~= Seq::<JsonView>::empty());
    assert(texts_in(Seq::empty()) =~= Seq::<Seq<char>>::empty());
    if item.text() is Some {
        assert(texts_in(seq![item]) =~= seq![item.text()->0]);
    }
    if b.len() == 0 {
        assert(a + b =~= a);
    } else {
        texts_are_read_in_order(a, b.drop_last(), item);
        assert((a + b).drop_last() =~= a + b.drop_last());
        assert((a + b).last() == b.last());
    }
    assert(texts_in(a + b) =~= texts_in(a) + texts_in(b));
}

/// The interactive elements of a page are read item by item, all of them; a label is without the
/// white space around it, and a link to a script has no target.
pub proof fn elements_are_read(v: JsonView, items: Seq<JsonView>, i: int)
    requires
        v.list_of("interactive"@) == Some(items),
        0 <= i < items.len(),
    ensures
        collected_elements(v).len() == items.len(),
        ({
            let e = collected_elements(v)[i];
            let label = items[i].text_of("label"@);
            let href = items[i].text_of("href"@);
            &&& items[i].text_of("kind"@) is Some ==> e.kind == items[i].text_of("kind"@)->0
            &&& items[i].text_of("kind"@) is None ==> e.kind == "unknown"@
            &&& e.input_type == items[i].text_of("input_type"@)
            &&& label is Some && trimmed(label->0).len() > 0 ==> e.label == Some(trimmed(label->0))
            &&& label is None || trimmed(label->0).len() == 0 ==> e.label is None
            &&& href is Some && href->0.len() > 0 && !"javascript"@.is_prefix_of(href->0)
                ==> e.href == href
            &&& href is None || href->0.len() == 0 || "javascript"@.is_prefix_of(href->0)
                ==> e.href is None
        }),
{
}

/// A page is read member by member: a measurement that the collected value gives is the one of
/// the page, and one that it does not give is none.
pub proof fn measurements_are_read(v: JsonView, url: Seq<char>, found: PageFindings, x: Double)
    requires
        reads_page(v, url, found),
    ensures
        found.perf.page_url@ == url && found.network.page_url@ == url
            && found.interactions.page_url@ == url,
        views(found.links@) == texts_of(v, "links"@),
        found.interactions@.elements == collected_elements(v),
        found.interactions.elements_found == collected_elements(v).len(),
        v.at("perf"@).member("fcp"@) == Some(JsonView::Number(NumberView::Float(x))) ==> found.perf.fcp_ms == Some(x),
        v.at("perf"@).member("fcp"@) is None ==> found.perf.fcp_ms is None,
        v.member("lcp"@) == Some(JsonView::Number(NumberView::Float(x))) ==> found.perf.lcp_ms == Some(x),
        v.member("lcp"@) is None ==> found.perf.lcp_ms is None,
        v.at("perf"@).member("tti"@) == Some(JsonView::Number(NumberView::Float(x))) ==> found.perf.tti_ms == Some(x),
        v.at("perf"@).member("tti"@) is None ==> found.perf.tti_ms is None,
        v.member("cls"@) == Some(JsonView::Number(NumberView::Float(x))) ==> found.perf.cls_score == Some(x),
        v.member("cls"@) is None ==> found.perf.cls_score is None,
        v.at("perf"@).member("dcl"@) == Some(JsonView::Number(NumberView::Float(x))) ==> found.perf.dom_content_loaded_ms == Some(x),
        v.at("perf"@).member("dcl"@) is None ==> found.perf.dom_content_loaded_ms is None,
        v.at("perf"@).member("load"@) == Some(JsonView::Number(NumberView::Float(x))) ==> found.perf.load_ms == Some(x),
        v.at("perf"@).member("load"@) is None ==> found.perf.load_ms is None,
        v.at("net"@).member("dns"@) == Some(JsonView::Number(NumberView::Float(x))) ==> found.network.dns_ms == Some(x),
        v.at("net"@).member("dns"@) is None ==> found.network.dns_ms is None,
        v.at("net"@).member("tcp"@) == Some(JsonView::Number(NumberView::Float(x))) ==> found.network.tcp_connect_ms == Some(x),
        v.at("net"@).member("tcp"@) is None ==> found.network.tcp_connect_ms is None,
        v.at("net"@).member("tls"@) == Some(JsonView::Number(NumberView::Float(x))) ==> found.network.tls_ms == Some(x),
        v.at("net"@).member("tls"@) is None ==> found.network.tls_ms is None,
        v.at("net"@).member("ttfb"@) == Some(JsonView::Number(NumberView::Float(x))) ==> found.network.ttfb_ms == Some(x),
        v.at("net"@).member("ttfb"@) is None ==> found.network.ttfb_ms is None,
        v.at("net"@).member("download"@) == Some(JsonView::Number(NumberView::Float(x))) ==> found.network.download_ms == Some(x),
        v.at("net"@).member("download"@) is None ==> found.network.download_ms is None,
        v.at("net"@).member("slowest_ms"@) == Some(JsonView::Number(NumberView::Float(x))) ==> found.network.slowest_resource_ms == Some(x),
        v.at("net"@).member("slowest_ms"@) is None ==> found.network.slowest_resource_ms is None,
        v.at("net"@).natural_of("resource_count"@) is Some && v.at("net"@).natural_of("resource_count"@)->0
            <= usize::MAX ==> found.network.resource_count == v.at("net"@).natural_of("resource_count"@)->0,
        v.at("net"@).natural_of("resource_count"@) is None ==> found.network.resource_count == 0,
        v.at("net"@).natural_of("failed_resource_count"@) is Some && v.at("net"@).natural_of("failed_resource_count"@)->0
            <= usize::MAX ==> found.network.failed_resource_count == v.at("net"@).natural_of("failed_resource_count"@)->0,
        v.at("net"@).natural_of("failed_resource_count"@) is None ==> found.network.failed_resource_count == 0,
        views(found.network.failed_resource_urls@) == texts_of(
            v.at("net"@),
            "failed_resource_urls"@,
        ),
        opt_view(found.network.slowest_resource_url) == v.at("net"@).text_of("slowest_url"@),
        v.at("net"@).member("total_transfer_kb"@) == Some(JsonView::Number(NumberView::Float(x)))
            ==> found.network.total_transfer_kb == x,
{
}

/// A navigation leads to no page exactly if its error, around which anything may stand, says
/// that the connection was refused or the name is unknown.
pub proof fn fatal_navigations_are_known(a: Seq<char>, b: Seq<char>, message: Seq<char>)
    ensures
        is_fatal_navigation(a + "net::ERR_CONNECTION_REFUSED"@ + b),
        is_fatal_navigation(a + "net::ERR_NAME_NOT_RESOLVED"@ + b),
        is_fatal_navigation(a + "NS_ERROR_CONNECTION_REFUSED"@ + b),
        is_fatal_navigation(message) ==> has_part(message, "net::ERR_CONNECTION_REFUSED"@)
            || has_part(message, "net::ERR_NAME_NOT_RESOLVED"@) || has_part(
            message,
            "NS_ERROR_CONNECTION_REFUSED"@,
        ),
{
    let (x, y, z) = (
        "net::ERR_CONNECTION_REFUSED"@,
        "net::ERR_NAME_NOT_RESOLVED"@,
        "NS_ERROR_CONNECTION_REFUSED"@,
    );
    crate::text::part_stands_between(a + x + b, x);
    crate::text::part_stands_between(a + y + b, y);
    crate::text::part_stands_between(a + z + b, z);
    assert(a + x + b == ((a + x) + b));
    assert(a + y + b == ((a + y) + b));
    assert(a + z + b == ((a + z) + b));
}

/// A document is ready exactly if it says that it is complete or interactive, and what the
/// collection script brought is the text that it gave.
pub proof fn replies_are_taken_as_texts(v: JsonView, s: Seq<char>)
    ensures
        is_ready_state(Some(JsonView::Text("complete"@))),
        is_ready_state(Some(JsonView::Text("interactive"@))),
        is_ready_state(Some(v)) ==> v == JsonView::Text("complete"@) || v == JsonView::Text(
            "interactive"@,
        ),
        !is_ready_state(None),
        collected(Some(JsonView::Text(s))) == s,
        !(v is Text) ==> collected(Some(v)) == EMPTY_RESULT@,
        collected(None) == EMPTY_RESULT@,
{
}

} // verus!
