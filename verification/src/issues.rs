//! Issues found on pages, and how duplicates are merged and ranked.

use vstd::prelude::*;

use crate::order::{
    is_listing, is_stable_order, ranks_before, sort_distinct, stable_order, strictly_sorted,
    text_at_most, text_le, Ordered,
};
use crate::text::{opt_view, same_option, same_text, views};

verus! {

/// How grave an issue is, from the mildest to the gravest.
#[derive(Debug, Clone, Copy, PartialEq, Eq, PartialOrd, Ord, Structural)]
pub enum Severity {
    Info,
    Warning,
    Error,
    Critical,
}

impl Severity {
    /// The place among the severities, the mildest first.
    pub open spec fn level(self) -> int {
        match self {
            Severity::Info => 0,
            Severity::Warning => 1,
            Severity::Error => 2,
            Severity::Critical => 3,
        }
    }

    /// The word shown for the severity.
    pub open spec fn word(self) -> Seq<char> {
        match self {
            Severity::Info => "INFO"@,
            Severity::Warning => "WARN"@,
            Severity::Error => "ERROR"@,
            Severity::Critical => "CRITICAL"@,
        }
    }

    /// The word shown for the severity.
    pub fn label(&self) -> (r: &'static str)
        ensures
            r@ == self.word(),
    {
        match self {
            Severity::Info => "INFO",
            Severity::Warning => "WARN",
            Severity::Error => "ERROR",
            Severity::Critical => "CRITICAL",
        }
    }

    /// The place among the severities, the mildest first.
    pub fn rank(&self) -> (r: u8)
        ensures
            r == self.level(),
    {
        match self {
            Severity::Info => 0,
            Severity::Warning => 1,
            Severity::Error => 2,
            Severity::Critical => 3,
        }
    }
}

/// What an issue is about.
#[derive(Debug, Clone, Copy, PartialEq, Eq, PartialOrd, Ord, Structural)]
pub enum IssueCategory {
    ConsoleError,
    NetworkError,
    BrokenLink,
    FailedResource,
    Accessibility,
    Performance,
    Security,
    Seo,
    LoadTest,
    UnhandledRejection,
}

impl IssueCategory {
    /// The place among the categories.
    pub open spec fn place(self) -> int {
        match self {
            IssueCategory::ConsoleError => 0,
            IssueCategory::NetworkError => 1,
            IssueCategory::BrokenLink => 2,
            IssueCategory::FailedResource => 3,
            IssueCategory::Accessibility => 4,
            IssueCategory::Performance => 5,
            IssueCategory::Security => 6,
            IssueCategory::Seo => 7,
            IssueCategory::LoadTest => 8,
            IssueCategory::UnhandledRejection => 9,
        }
    }

    /// The name shown for the category.
    pub open spec fn title(self) -> Seq<char> {
        match self {
            IssueCategory::ConsoleError => "Console Error"@,
            IssueCategory::NetworkError => "Network Error"@,
            IssueCategory::BrokenLink => "Broken Link"@,
            IssueCategory::FailedResource => "Failed Resource"@,
            IssueCategory::Accessibility => "Accessibility"@,
            IssueCategory::Performance => "Performance"@,
            IssueCategory::Security => "Security"@,
            IssueCategory::Seo => "SEO"@,
            IssueCategory::LoadTest => "Load Test"@,
            IssueCategory::UnhandledRejection => "Unhandled Rejection"@,
        }
    }

    /// The name shown for the category.
    pub fn label(&self) -> (r: &'static str)
        ensures
            r@ == self.title(),
    {
        match self {
            IssueCategory::ConsoleError => "Console Error",
            IssueCategory::NetworkError => "Network Error",
            IssueCategory::BrokenLink => "Broken Link",
            IssueCategory::FailedResource => "Failed Resource",
            IssueCategory::Accessibility => "Accessibility",
            IssueCategory::Performance => "Performance",
            IssueCategory::Security => "Security",
            IssueCategory::Seo => "SEO",
            IssueCategory::LoadTest => "Load Test",
            IssueCategory::UnhandledRejection => "Unhandled Rejection",
        }
    }

    /// The place among the categories.
    pub fn rank(&self) -> (r: u8)
        ensures
            r == self.place(),
    {
        match self {
            IssueCategory::ConsoleError => 0,
            IssueCategory::NetworkError => 1,
            IssueCategory::BrokenLink => 2,
            IssueCategory::FailedResource => 3,
            IssueCategory::Accessibility => 4,
            IssueCategory::Performance => 5,
            IssueCategory::Security => 6,
            IssueCategory::Seo => 7,
            IssueCategory::LoadTest => 8,
            IssueCategory::UnhandledRejection => 9,
        }
    }
}

/// Something wrong on one or more pages.
#[derive(Debug)]
pub struct Issue {
    pub severity: Severity,
    pub category: IssueCategory,
    pub message: String,
    /// Sample of the affected pages; `affected_pages_count` has the total.
    pub page_urls: Vec<String>,
    /// Number of distinct pages affected, once duplicates are merged.
    pub affected_pages_count: Option<usize>,
    /// The element that triggered the issue, if there is one.
    pub element: Option<String>,
    /// The actions taken to reach the page.
    pub action_path: Vec<String>,
}

/// The contents of an issue.
pub ghost struct IssueView {
    pub severity: Severity,
    pub category: IssueCategory,
    pub message: Seq<char>,
    pub page_urls: Seq<Seq<char>>,
    pub affected_pages_count: Option<usize>,
    pub element: Option<Seq<char>>,
    pub action_path: Seq<Seq<char>>,
}

/// What two issues share when they are the same problem.
pub ghost struct IssueKey {
    pub severity: Severity,
    pub category: IssueCategory,
    pub message: Seq<char>,
    pub element: Option<Seq<char>>,
}

impl IssueView {
    pub open spec fn key(self) -> IssueKey {
        IssueKey {
            severity: self.severity,
            category: self.category,
            message: self.message,
            element: self.element,
        }
    }
}

impl View for Issue {
    type V = IssueView;

    open spec fn view(&self) -> IssueView {
        IssueView {
            severity: self.severity,
            category: self.category,
            message: self.message@,
            page_urls: views(self.page_urls@),
            affected_pages_count: self.affected_pages_count,
            element: opt_view(self.element),
            action_path: views(self.action_path@),
        }
    }
}

impl Clone for Issue {
    fn clone(&self) -> (r: Self)
        ensures
            r@ == self@,
    {
        let r = Issue {
            severity: self.severity,
            category: self.category,
            message: self.message.clone(),
            page_urls: self.page_urls.clone(),
            affected_pages_count: self.affected_pages_count,
            element: self.element.clone(),
            action_path: self.action_path.clone(),
        };
        proof {
            assert(views(r.page_urls@) =~= views(self.page_urls@));
            assert(views(r.action_path@) =~= views(self.action_path@));
        }
        r
    }
}

/// The contents of a list of issues.
pub open spec fn issue_views(list: Seq<Issue>) -> Seq<IssueView> {
    list.map_values(|i: Issue| i@)
}

/// The order of problems: by severity, category, message and element.
pub open spec fn key_le(a: IssueKey, b: IssueKey) -> bool {
    if a.severity != b.severity {
        a.severity.level() < b.severity.level()
    } else if a.category != b.category {
        a.category.place() < b.category.place()
    } else if a.message != b.message {
        text_le(a.message, b.message)
    } else {
        match (a.element, b.element) {
            (None, _) => true,
            (Some(_), None) => false,
            (Some(x), Some(y)) => text_le(x, y),
        }
    }
}

proof fn lemma_key_le_total(a: IssueKey, b: IssueKey)
    ensures
        key_le(a, b) || key_le(b, a),
{
    crate::order::lemma_text_le_total(a.message, b.message);
    if a.element is Some && b.element is Some {
        crate::order::lemma_text_le_total(a.element->0, b.element->0);
    }
}

proof fn lemma_key_le_antisymmetric(a: IssueKey, b: IssueKey)
    requires
        key_le(a, b),
        key_le(b, a),
    ensures
        a == b,
{
    if text_le(a.message, b.message) && text_le(b.message, a.message) {
        crate::order::lemma_text_le_antisymmetric(a.message, b.message);
    }
    if a.element is Some && b.element is Some && text_le(a.element->0, b.element->0) && text_le(
        b.element->0,
        a.element->0,
    ) {
        crate::order::lemma_text_le_antisymmetric(a.element->0, b.element->0);
    }
}

proof fn lemma_key_le_transitive(a: IssueKey, b: IssueKey, c: IssueKey)
    requires
        key_le(a, b),
        key_le(b, c),
    ensures
        key_le(a, c),
{
    if a.severity == b.severity && b.severity == c.severity && a.category == b.category
        && b.category == c.category {
        if a.message != b.message && b.message != c.message {
            crate::order::lemma_text_le_transitive(a.message, b.message, c.message);
            if a.message == c.message {
                crate::order::lemma_text_le_antisymmetric(a.message, b.message);
            }
        }
        if a.message == b.message && b.message == c.message && a.element is Some && b.element is Some
            && c.element is Some {
            crate::order::lemma_text_le_transitive(a.element->0, b.element->0, c.element->0);
        }
    }
}

/// An issue as it is grouped: only its key counts.
struct Grouped<'a> {
    issue: &'a Issue,
}

impl<'a> Ordered for Grouped<'a> {
    closed spec fn at_most(&self, other: &Self) -> bool {
        key_le(self.issue@.key(), other.issue@.key())
    }

    proof fn total(a: &Self, b: &Self) {
        lemma_key_le_total(a.issue@.key(), b.issue@.key());
    }

    proof fn transitive(a: &Self, b: &Self, c: &Self) {
        lemma_key_le_transitive(a.issue@.key(), b.issue@.key(), c.issue@.key());
    }

    fn is_at_most(&self, other: &Self) -> (r: bool) {
        let a = self.issue;
        let b = other.issue;
        if a.severity != b.severity {
            a.severity.rank() < b.severity.rank()
        } else if a.category != b.category {
            a.category.rank() < b.category.rank()
        } else if !same_text(a.message.as_str(), b.message.as_str()) {
            text_at_most(a.message.as_str(), b.message.as_str())
        } else {
            match (&a.element, &b.element) {
                (None, _) => true,
                (Some(_), None) => false,
                (Some(x), Some(y)) => text_at_most(x.as_str(), y.as_str()),
            }
        }
    }
}

/// The place of an optional count; no count comes first.
pub open spec fn count_place(count: Option<usize>) -> int {
    match count {
        Some(n) => n as int,
        None => -1,
    }
}

/// What decides where an issue stands in a report.
#[derive(Clone, Copy)]
pub struct Standing {
    pub severity: Severity,
    pub pages: Option<usize>,
}

impl Ordered for Standing {
    /// Graver issues come first; among equally grave ones, those on more pages.
    open spec fn at_most(&self, other: &Self) -> bool {
        if self.severity != other.severity {
            self.severity.level() > other.severity.level()
        } else {
            count_place(self.pages) >= count_place(other.pages)
        }
    }

    proof fn total(a: &Self, b: &Self) {
    }

    proof fn transitive(a: &Self, b: &Self, c: &Self) {
    }

    fn is_at_most(&self, other: &Self) -> (r: bool) {
        if self.severity != other.severity {
            self.severity.rank() > other.severity.rank()
        } else {
            match (self.pages, other.pages) {
                (_, None) => true,
                (None, Some(_)) => false,
                (Some(x), Some(y)) => x >= y,
            }
        }
    }
}

/// The standings of a list of issues.
pub open spec fn standings(list: Seq<IssueView>) -> Seq<Standing> {
    list.map_values(
        |i: IssueView| Standing { severity: i.severity, pages: i.affected_pages_count },
    )
}

/// The positions of `issues` in the order of a report: graver issues first, then those
/// on more pages; issues that tie keep their order.
pub fn report_order(issues: &Vec<Issue>) -> (order: Vec<usize>)
    ensures
        is_stable_order(standings(issue_views(issues@)), order@),
{
    let mut keys: Vec<Standing> = Vec::new();
    let mut i: usize = 0;
    while i < issues.len()
        invariant
            i <= issues.len(),
            keys@ =~= standings(issue_views(issues@)).take(i as int),
        decreases issues.len() - i,
    {
        keys.push(
            Standing { severity: issues[i].severity, pages: issues[i].affected_pages_count },
        );
        i += 1;
    }
    proof {
        assert(keys@ =~= standings(issue_views(issues@)));
    }
    stable_order(&keys)
}

/// The problem `key` was seen on page `url`.
pub open spec fn seen_on(issues: Seq<IssueView>, key: IssueKey, url: Seq<char>) -> bool {
    exists|i: int|
        0 <= i < issues.len() && #[trigger] issues[i].key() == key && issues[i].page_urls.contains(
            url,
        )
}

/// `pages` lists the distinct pages on which the problem `key` was seen, in order.
pub open spec fn pages_of(issues: Seq<IssueView>, key: IssueKey, pages: Seq<Seq<char>>) -> bool {
    &&& strictly_sorted(pages)
    &&& forall|url: Seq<char>| #[trigger] pages.contains(url) == seen_on(issues, key, url)
}

/// The first `max` of `pages`, or all of them.
pub open spec fn sample(pages: Seq<Seq<char>>, max: nat) -> Seq<Seq<char>> {
    if pages.len() > max {
        pages.take(max as int)
    } else {
        pages
    }
}

/// `merged` stands for all of `issues` with its key: it counts their distinct pages,
/// lists the first `max` of them and has no action path.
pub open spec fn merges(issues: Seq<IssueView>, max: nat, merged: IssueView) -> bool {
    &&& exists|pages: Seq<Seq<char>>| #[trigger]
        pages_of(issues, merged.key(), pages) && merged.page_urls == sample(pages, max)
            && merged.affected_pages_count == Some(pages.len() as usize) && pages.len()
            <= usize::MAX
    &&& merged.action_path == Seq::<Seq<char>>::empty()
}

/// `a` stands before `b` in a merged list: it is graver, or as grave and on more pages,
/// or ties in both and has the smaller category, message or element.
pub open spec fn merged_before(a: IssueView, b: IssueView) -> bool {
    if a.severity != b.severity {
        a.severity.level() > b.severity.level()
    } else if a.affected_pages_count != b.affected_pages_count {
        count_place(a.affected_pages_count) > count_place(b.affected_pages_count)
    } else {
        key_le(a.key(), b.key()) && a.key() != b.key()
    }
}

/// `list` has an issue with key `key`.
pub open spec fn has_key(list: Seq<IssueView>, key: IssueKey) -> bool {
    exists|i: int| 0 <= i < list.len() && #[trigger] list[i].key() == key
}

/// `merged` is `issues` with duplicates merged: it has each problem of `issues` once,
/// and nothing else, in the order of `merged_before`.
pub open spec fn is_deduplicated(
    issues: Seq<IssueView>,
    max: nat,
    merged: Seq<IssueView>,
) -> bool {
    &&& forall|key: IssueKey| #[trigger] has_key(merged, key) == has_key(issues, key)
    &&& forall|i: int| 0 <= i < merged.len() ==> merges(issues, max, #[trigger] merged[i])
    &&& forall|i: int, j: int|
        0 <= i < j < merged.len() ==> merged_before(#[trigger] merged[i], #[trigger] merged[j])
}

/// The two issues are the same problem.
fn same_problem(a: &Issue, b: &Issue) -> (r: bool)
    ensures
        r == (a@.key() == b@.key()),
{
    a.severity == b.severity && a.category == b.category && same_text(
        a.message.as_str(),
        b.message.as_str(),
    ) && same_option(&a.element, &b.element)
}

/// One of the issues at the positions `order[from .. to]` was seen on page `url`.
spec fn stands_in(
    issues: Seq<IssueView>,
    order: Seq<usize>,
    from: int,
    to: int,
    url: Seq<char>,
) -> bool {
    exists|j: int|
        from <= j < to && issues[(#[trigger] order[j]) as int].page_urls.contains(url)
}

/// Appends the pages of one issue.
fn gather(all: &mut Vec<String>, urls: &Vec<String>)
    ensures
        forall|url: Seq<char>| #[trigger]
            views(final(all)@).contains(url) == (views(old(all)@).contains(url) || views(
                urls@,
            ).contains(url)),
{
    let ghost start = views(all@);
    let mut i: usize = 0;
    proof {
        assert(start + views(urls@).take(0) =~= start);
    }
    while i < urls.len()
        invariant
            i <= urls.len(),
            views(all@) == start + views(urls@).take(i as int),
        decreases urls.len() - i,
    {
        let ghost before = views(all@);
        all.push(urls[i].clone());
        proof {
            assert(views(all@) =~= before.push(urls@[i as int]@));
            assert(views(urls@).take(i + 1) =~= views(urls@).take(i as int).push(
                urls@[i as int]@,
            ));
            assert(views(all@) =~= start + views(urls@).take(i + 1));
        }
        i += 1;
    }
    proof {
        assert(views(urls@).take(i as int) =~= views(urls@));
        assert forall|url: Seq<char>| #[trigger] views(all@).contains(url) == (start.contains(url)
            || views(urls@).contains(url)) by {
            if start.contains(url) {
                let k = choose|k: int| 0 <= k < start.len() && start[k] == url;
                assert(views(all@)[k] == url);
            }
            if views(urls@).contains(url) {
                let k = choose|k: int| 0 <= k < urls.len() && views(urls@)[k] == url;
                assert(views(all@)[start.len() + k] == url);
            }
        }
    }
}

/// In a sorted listing, what stands between two issues of one problem is of that problem.
proof fn lemma_between(all: Seq<IssueView>, ord: Seq<usize>, i: int, m: int, j: int)
    requires
        0 <= i <= m <= j < ord.len(),
        forall|x: int, y: int|
            0 <= x < y < ord.len() ==> key_le(
                all[(#[trigger] ord[x]) as int].key(),
                all[(#[trigger] ord[y]) as int].key(),
            ),
        all[ord[i] as int].key() == all[ord[j] as int].key(),
    ensures
        all[ord[m] as int].key() == all[ord[i] as int].key(),
{
    if i < m && m < j {
        lemma_key_le_antisymmetric(all[ord[i] as int].key(), all[ord[m] as int].key());
    }
}

/// One issue for each problem of `issues`, in the order of the problems.
fn merge_groups(issues: &Vec<Issue>, max_pages_per_issue: usize) -> (merged: Vec<Issue>)
    ensures
        forall|key: IssueKey| #[trigger]
            has_key(issue_views(merged@), key) == has_key(issue_views(issues@), key),
        forall|i: int|
            0 <= i < merged.len() ==> merges(
                issue_views(issues@),
                max_pages_per_issue as nat,
                (#[trigger] merged@[i])@,
            ),
        forall|i: int, j: int|
            0 <= i < j < merged.len() ==> key_le(
                (#[trigger] merged@[i])@.key(),
                (#[trigger] merged@[j])@.key(),
            ) && merged@[i]@.key() != merged@[j]@.key(),
{
    let ghost all = issue_views(issues@);
    let mut keys: Vec<Grouped> = Vec::new();
    let mut k: usize = 0;
    while k < issues.len()
        invariant
            k <= issues.len(),
            keys.len() == k,
            forall|i: int| 0 <= i < k ==> (#[trigger] keys@[i]).issue == &issues@[i],
        decreases issues.len() - k,
    {
        keys.push(Grouped { issue: &issues[k] });
        k += 1;
    }
    let order = stable_order(&keys);
    let ghost ord = order@;
    proof {
        assert forall|i: int, j: int| 0 <= i < j < ord.len() implies key_le(
            all[(#[trigger] ord[i]) as int].key(),
            all[(#[trigger] ord[j]) as int].key(),
        ) by {
            assert(ranks_before(keys@, ord[i], ord[j]));
        }
    }
    let mut merged: Vec<Issue> = Vec::new();
    let mut start: usize = 0;
    while start < order.len()
        invariant
            all == issue_views(issues@),
            ord == order@,
            is_listing(ord, all.len()),
            forall|i: int, j: int|
                0 <= i < j < ord.len() ==> key_le(
                    all[(#[trigger] ord[i]) as int].key(),
                    all[(#[trigger] ord[j]) as int].key(),
                ),
            start <= order.len(),
            0 < start < order.len() ==> all[ord[start - 1] as int].key()
                != all[ord[start as int] as int].key(),
            merged.len() > 0 ==> start > 0 && merged@.last()@.key() == all[ord[start - 1] as int].key(),
            merged.len() == 0 ==> start == 0,
            forall|i: int|
                0 <= i < start ==> has_key(
                    issue_views(merged@),
                    all[(#[trigger] ord[i]) as int].key(),
                ),
            forall|i: int|
                0 <= i < merged.len() ==> has_key(all, (#[trigger] merged@[i])@.key()),
            forall|i: int|
                0 <= i < merged.len() ==> merges(
                    all,
                    max_pages_per_issue as nat,
                    (#[trigger] merged@[i])@,
                ),
            forall|i: int, j: int|
                0 <= i < j < merged.len() ==> key_le(
                    (#[trigger] merged@[i])@.key(),
                    (#[trigger] merged@[j])@.key(),
                ) && merged@[i]@.key() != merged@[j]@.key(),
        decreases order.len() - start,
    {
        let first: &Issue = &issues[order[start]];
        let ghost key = first@.key();
        let mut urls: Vec<String> = Vec::new();
        let mut end: usize = start;
        while end < order.len() && same_problem(&issues[order[end]], first)
            invariant
                all == issue_views(issues@),
                ord == order@,
                is_listing(ord, all.len()),
                start < order.len(),
                start <= end <= order.len(),
                first == &issues@[ord[start as int] as int],
                key == first@.key(),
                forall|i: int|
                    start <= i < end ==> all[(#[trigger] ord[i]) as int].key() == key,
                forall|url: Seq<char>| #[trigger]
                    views(urls@).contains(url) == stands_in(
                        all,
                        ord,
                        start as int,
                        end as int,
                        url,
                    ),
            decreases order.len() - end,
        {
            let ghost before = views(urls@);
            proof {
                assert(all[ord[end as int] as int] == issues@[ord[end as int] as int]@);
            }
            gather(&mut urls, &issues[order[end]].page_urls);
            proof {
                assert forall|url: Seq<char>| #[trigger] views(urls@).contains(url) == stands_in(
                    all,
                    ord,
                    start as int,
                    end + 1,
                    url,
                ) by {
                    assert(before.contains(url) == stands_in(
                        all,
                        ord,
                        start as int,
                        end as int,
                        url,
                    ));
                    if stands_in(all, ord, start as int, end + 1, url) && !before.contains(url) {
                        let j = choose|j: int|
                            start <= j < end + 1 && all[(
                            #[trigger] ord[j]) as int].page_urls.contains(url);
                        assert(j == end);
                    }
                    if before.contains(url) {
                        let j = choose|j: int|
                            start <= j < end && all[(
                            #[trigger] ord[j]) as int].page_urls.contains(url);
                        assert(all[ord[j] as int].page_urls.contains(url));
                    }
                    if views(issues@[ord[end as int] as int].page_urls@).contains(url) {
                        assert(all[ord[end as int] as int].page_urls.contains(url));
                    }
                }
            }
            end += 1;
        }
        proof {
            if end == start {
                assert(all[ord[start as int] as int].key() == key);
            }
        }
        let mut pages = sort_distinct(&urls);
        let total: usize = pages.len();
        let ghost full = views(pages@);
        if pages.len() > max_pages_per_issue {
            pages.truncate(max_pages_per_issue);
        }
        let next = Issue {
            severity: first.severity,
            category: first.category,
            message: first.message.clone(),
            page_urls: pages,
            affected_pages_count: Some(total),
            element: first.element.clone(),
            action_path: Vec::new(),
        };
        let ghost before = merged@;
        proof {
            assert(next@.key() == key);
            assert(next@.page_urls =~= sample(full, max_pages_per_issue as nat));
            assert(next@.action_path =~= Seq::<Seq<char>>::empty());
            assert forall|url: Seq<char>| #[trigger] full.contains(url) == seen_on(
                all,
                key,
                url,
            ) by {
                assert(full.contains(url) == views(urls@).contains(url));
                if seen_on(all, key, url) {
                    let i = choose|i: int|
                        0 <= i < all.len() && #[trigger] all[i].key() == key
                            && all[i].page_urls.contains(url);
                    assert(ord.contains(i as usize));
                    let j = choose|j: int| 0 <= j < ord.len() && ord[j] == i as usize;
                    if j < start {
                        lemma_between(all, ord, j, start - 1, start as int);
                    }
                    if j >= end {
                        lemma_between(all, ord, start as int, end as int, j);
                    }
                    assert(all[ord[j] as int].page_urls.contains(url));
                }
                if stands_in(all, ord, start as int, end as int, url) {
                    let j = choose|j: int|
                        start <= j < end && all[(#[trigger] ord[j]) as int].page_urls.contains(url);
                    assert(all[ord[j] as int].key() == key);
                }
            }
            assert(pages_of(all, key, full));
            assert(merges(all, max_pages_per_issue as nat, next@));
            assert(all[ord[start as int] as int].key() == key);
            assert(has_key(all, key));
        }
        merged.push(next);
        proof {
            let after = merged@;
            assert forall|i: int| 0 <= i < end implies has_key(
                issue_views(after),
                all[(#[trigger] ord[i]) as int].key(),
            ) by {
                if i < start {
                    let m = choose|m: int|
                        0 <= m < before.len() && #[trigger] issue_views(before)[m].key()
                            == all[ord[i] as int].key();
                    assert(issue_views(after)[m].key() == all[ord[i] as int].key());
                } else {
                    assert(issue_views(after)[before.len() as int].key() == key);
                }
            }
            assert forall|i: int, j: int| 0 <= i < j < after.len() implies key_le(
                (#[trigger] after[i])@.key(),
                (#[trigger] after[j])@.key(),
            ) && after[i]@.key() != after[j]@.key() by {
                if j == before.len() {
                    let last = before.last()@.key();
                    assert(last == all[ord[start - 1] as int].key());
                    assert(key_le(last, key));
                    if i < before.len() - 1 {
                        assert(key_le(before[i]@.key(), before[before.len() - 1]@.key()));
                        lemma_key_le_transitive(before[i]@.key(), last, key);
                        if before[i]@.key() == key {
                            lemma_key_le_antisymmetric(last, key);
                        }
                    }
                }
            }
        }
        start = end;
    }
    proof {
        assert forall|key: IssueKey| #[trigger] has_key(issue_views(merged@), key) == has_key(
            all,
            key,
        ) by {
            if has_key(issue_views(merged@), key) {
                let m = choose|m: int|
                    0 <= m < merged.len() && #[trigger] issue_views(merged@)[m].key() == key;
                assert(merged@[m]@.key() == key);
            }
            if has_key(all, key) {
                let i = choose|i: int| 0 <= i < all.len() && #[trigger] all[i].key() == key;
                assert(ord.contains(i as usize));
                let j = choose|j: int| 0 <= j < ord.len() && ord[j] == i as usize;
                assert(has_key(issue_views(merged@), all[ord[j] as int].key()));
            }
        }
    }
    merged
}

/// Merges issues with the same severity, category, message and element into one.
///
/// The merged issue counts the distinct pages of its group, lists the first
/// `max_pages_per_issue` of them in order and drops the action paths. Graver issues come
/// first, then those on more pages.
pub fn deduplicate_issues(issues: Vec<Issue>, max_pages_per_issue: usize) -> (r: Vec<Issue>)
    ensures
        is_deduplicated(issue_views(issues@), max_pages_per_issue as nat, issue_views(r@)),
{
    let ghost all = issue_views(issues@);
    let merged = merge_groups(&issues, max_pages_per_issue);
    let order = report_order(&merged);
    let ghost from = issue_views(merged@);
    let ghost ord = order@;
    let mut out: Vec<Issue> = Vec::new();
    let mut i: usize = 0;
    while i < order.len()
        invariant
            is_listing(ord, merged@.len()),
            ord == order@,
            from == issue_views(merged@),
            i <= order.len(),
            out.len() == i,
            forall|j: int| 0 <= j < i ==> (#[trigger] out@[j])@ == from[ord[j] as int],
        decreases order.len() - i,
    {
        out.push(merged[order[i]].clone());
        i += 1;
    }
    proof {
        let after = issue_views(out@);
        assert forall|j: int| 0 <= j < after.len() implies #[trigger] after[j] == from[ord[j] as int]
            && merged@[ord[j] as int]@ == after[j] by {
            assert(out@[j]@ == from[ord[j] as int]);
        }
        assert forall|key: IssueKey| #[trigger] has_key(after, key) == has_key(all, key) by {
            assert(has_key(from, key) == has_key(all, key));
            if has_key(after, key) {
                let j = choose|j: int| 0 <= j < after.len() && #[trigger] after[j].key() == key;
                assert(from[ord[j] as int].key() == key);
            }
            if has_key(from, key) {
                let m = choose|m: int| 0 <= m < from.len() && #[trigger] from[m].key() == key;
                assert(ord.contains(m as usize));
                let j = choose|j: int| 0 <= j < ord.len() && ord[j] == m as usize;
                assert(after[j].key() == key);
            }
        }
        assert forall|x: int, y: int| 0 <= x < y < after.len() implies merged_before(
            #[trigger] after[x],
            #[trigger] after[y],
        ) by {
            let p = ord[x];
            let q = ord[y];
            assert(ranks_before(standings(from), p, q));
            assert(standings(from)[p as int] == (Standing {
                severity: from[p as int].severity,
                pages: from[p as int].affected_pages_count,
            }));
            assert(standings(from)[q as int] == (Standing {
                severity: from[q as int].severity,
                pages: from[q as int].affected_pages_count,
            }));
            assert(p != q);
            let a = merged@[p as int];
            let b = merged@[q as int];
            assert(merges(all, max_pages_per_issue as nat, a@));
            assert(merges(all, max_pages_per_issue as nat, b@));
            if p < q {
                assert(key_le(a@.key(), b@.key()));
            } else {
                assert(key_le(b@.key(), a@.key()));
            }
        }
    }
    out
}

/// The order of a merged list goes one way.
proof fn lemma_merged_before_asymmetric(a: IssueView, b: IssueView)
    requires
        merged_before(a, b),
    ensures
        !merged_before(b, a),
{
    if merged_before(b, a) {
        lemma_key_le_antisymmetric(a.key(), b.key());
    }
}

/// Two merged issues of one problem are the same.
proof fn lemma_merged_is_unique(issues: Seq<IssueView>, max: nat, a: IssueView, b: IssueView)
    requires
        merges(issues, max, a),
        merges(issues, max, b),
        a.key() == b.key(),
    ensures
        a == b,
{
    let p = choose|pages: Seq<Seq<char>>| #[trigger]
        pages_of(issues, a.key(), pages) && a.page_urls == sample(pages, max)
            && a.affected_pages_count == Some(pages.len() as usize) && pages.len() <= usize::MAX;
    let q = choose|pages: Seq<Seq<char>>| #[trigger]
        pages_of(issues, b.key(), pages) && b.page_urls == sample(pages, max)
            && b.affected_pages_count == Some(pages.len() as usize) && pages.len() <= usize::MAX;
    assert forall|t: Seq<char>| #[trigger] p.contains(t) == q.contains(t) by {
        assert(p.contains(t) == seen_on(issues, a.key(), t));
        assert(q.contains(t) == seen_on(issues, b.key(), t));
    }
    crate::order::lemma_strictly_sorted_unique(p, q);
}

/// Two lists in the order of merged issues that hold the same issues are equal.
proof fn lemma_same_members(a: Seq<IssueView>, b: Seq<IssueView>)
    requires
        forall|i: int, j: int|
            0 <= i < j < a.len() ==> merged_before(#[trigger] a[i], #[trigger] a[j]),
        forall|i: int, j: int|
            0 <= i < j < b.len() ==> merged_before(#[trigger] b[i], #[trigger] b[j]),
        forall|x: IssueView| #[trigger] a.contains(x) == b.contains(x),
    ensures
        a == b,
    decreases a.len(),
{
    if a.len() == 0 {
        if b.len() > 0 {
            assert(b.contains(b[0]));
            assert(a.contains(b[0]));
        }
        assert(a =~= b);
    } else {
        assert(a.contains(a.last()));
        assert(b.contains(a.last()));
        let j = choose|j: int| 0 <= j < b.len() && b[j] == a.last();
        assert(b.contains(b.last()));
        assert(a.contains(b.last()));
        let i = choose|i: int| 0 <= i < a.len() && a[i] == b.last();
        if j < b.len() - 1 {
            assert(merged_before(b[j], b[b.len() - 1]));
            lemma_merged_before_asymmetric(b[j], b.last());
            if i < a.len() - 1 {
                assert(merged_before(a[i], a[a.len() - 1]));
            }
        }
        assert(a.last() == b.last());
        let x = a.drop_last();
        let y = b.drop_last();
        assert forall|t: IssueView| #[trigger] x.contains(t) == y.contains(t) by {
            if x.contains(t) {
                let k = choose|k: int| 0 <= k < x.len() && x[k] == t;
                assert(merged_before(a[k], a[a.len() - 1]));
                lemma_merged_before_asymmetric(a[k], a.last());
                assert(a.contains(t));
                assert(b.contains(t));
                let m = choose|m: int| 0 <= m < b.len() && b[m] == t;
                assert(m < b.len() - 1);
                assert(y[m] == t);
            }
            if y.contains(t) {
                let k = choose|k: int| 0 <= k < y.len() && y[k] == t;
                assert(merged_before(b[k], b[b.len() - 1]));
                lemma_merged_before_asymmetric(b[k], b.last());
                assert(b.contains(t));
                assert(a.contains(t));
                let m = choose|m: int| 0 <= m < a.len() && a[m] == t;
                assert(m < a.len() - 1);
                assert(x[m] == t);
            }
        }
        assert forall|k: int, m: int| 0 <= k < m < x.len() implies merged_before(
            #[trigger] x[k],
            #[trigger] x[m],
        ) by {
            assert(merged_before(a[k], a[m]));
        }
        assert forall|k: int, m: int| 0 <= k < m < y.len() implies merged_before(
            #[trigger] y[k],
            #[trigger] y[m],
        ) by {
            assert(merged_before(b[k], b[m]));
        }
        lemma_same_members(x, y);
        assert(a =~= x.push(a.last()));
        assert(b =~= y.push(b.last()));
    }
}

/// A list of issues can be deduplicated in one way only.
pub proof fn deduplication_is_unique(
    issues: Seq<IssueView>,
    max: nat,
    a: Seq<IssueView>,
    b: Seq<IssueView>,
)
    requires
        is_deduplicated(issues, max, a),
        is_deduplicated(issues, max, b),
    ensures
        a == b,
{
    assert forall|x: IssueView| #[trigger] a.contains(x) == b.contains(x) by {
        if a.contains(x) {
            let i = choose|i: int| 0 <= i < a.len() && a[i] == x;
            assert(a[i].key() == x.key());
            assert(has_key(a, x.key()));
            assert(has_key(issues, x.key()));
            assert(has_key(b, x.key()));
            let j = choose|j: int| 0 <= j < b.len() && #[trigger] b[j].key() == x.key();
            assert(merges(issues, max, a[i]));
            assert(merges(issues, max, b[j]));
            lemma_merged_is_unique(issues, max, a[i], b[j]);
        }
        if b.contains(x) {
            let i = choose|i: int| 0 <= i < b.len() && b[i] == x;
            assert(b[i].key() == x.key());
            assert(has_key(b, x.key()));
            assert(has_key(issues, x.key()));
            assert(has_key(a, x.key()));
            let j = choose|j: int| 0 <= j < a.len() && #[trigger] a[j].key() == x.key();
            assert(merges(issues, max, b[i]));
            assert(merges(issues, max, a[j]));
            lemma_merged_is_unique(issues, max, b[i], a[j]);
        }
    }
    lemma_same_members(a, b);
}

/// What was seen in a list was seen in any list that has its issues.
proof fn lemma_same_sightings(
    issues: Seq<IssueView>,
    others: Seq<IssueView>,
    key: IssueKey,
    url: Seq<char>,
)
    requires
        forall|x: IssueView| #[trigger] issues.contains(x) ==> others.contains(x),
    ensures
        has_key(issues, key) ==> has_key(others, key),
        seen_on(issues, key, url) ==> seen_on(others, key, url),
{
    if has_key(issues, key) {
        let i = choose|i: int| 0 <= i < issues.len() && #[trigger] issues[i].key() == key;
        assert(issues.contains(issues[i]));
        assert(others.contains(issues[i]));
        let j = choose|j: int| 0 <= j < others.len() && others[j] == issues[i];
        assert(others[j].key() == key);
    }
    if seen_on(issues, key, url) {
        let i = choose|i: int|
            0 <= i < issues.len() && #[trigger] issues[i].key() == key
                && issues[i].page_urls.contains(url);
        assert(issues.contains(issues[i]));
        assert(others.contains(issues[i]));
        let j = choose|j: int| 0 <= j < others.len() && others[j] == issues[i];
        assert(others[j].key() == key);
    }
}

/// The order in which issues were found, and how often one was found, makes no difference
/// to the deduplicated list.
pub proof fn deduplication_ignores_order(
    issues: Seq<IssueView>,
    others: Seq<IssueView>,
    max: nat,
    merged: Seq<IssueView>,
)
    requires
        forall|x: IssueView| #[trigger] issues.contains(x) == others.contains(x),
        is_deduplicated(issues, max, merged),
    ensures
        is_deduplicated(others, max, merged),
{
    assert forall|key: IssueKey| #[trigger] has_key(merged, key) == has_key(others, key) by {
        assert(has_key(merged, key) == has_key(issues, key));
        lemma_same_sightings(issues, others, key, Seq::empty());
        lemma_same_sightings(others, issues, key, Seq::empty());
    }
    assert forall|i: int| 0 <= i < merged.len() implies merges(others, max, #[trigger] merged[i]) by {
        let m = merged[i];
        assert(merges(issues, max, m));
        let p = choose|pages: Seq<Seq<char>>| #[trigger]
            pages_of(issues, m.key(), pages) && m.page_urls == sample(pages, max)
                && m.affected_pages_count == Some(pages.len() as usize) && pages.len()
                <= usize::MAX;
        assert(pages_of(others, m.key(), p)) by {
            assert forall|url: Seq<char>| #[trigger] p.contains(url) == seen_on(
                others,
                m.key(),
                url,
            ) by {
                assert(p.contains(url) == seen_on(issues, m.key(), url));
                lemma_same_sightings(issues, others, m.key(), url);
                lemma_same_sightings(others, issues, m.key(), url);
            }
        }
    }
}

/// A merged issue lists no more pages than it counts and than were asked for, and all of
/// them where that many were asked for.
pub proof fn merged_pages_are_bounded(
    issues: Seq<IssueView>,
    max: nat,
    merged: Seq<IssueView>,
    i: int,
)
    requires
        is_deduplicated(issues, max, merged),
        0 <= i < merged.len(),
    ensures
        merged[i].affected_pages_count is Some,
        merged[i].page_urls.len() <= merged[i].affected_pages_count->0,
        merged[i].page_urls.len() <= max,
        merged[i].affected_pages_count->0 <= max ==> merged[i].page_urls.len()
            == merged[i].affected_pages_count->0,
{
    assert(merges(issues, max, merged[i]));
}

/// A deduplicated list that leaves out no page stays as it is when it is deduplicated again.
pub proof fn deduplication_settles(issues: Seq<IssueView>, max: nat, merged: Seq<IssueView>)
    requires
        is_deduplicated(issues, max, merged),
        forall|i: int|
            0 <= i < merged.len() ==> count_place(
                (#[trigger] merged[i]).affected_pages_count,
            ) <= max,
    ensures
        is_deduplicated(merged, max, merged),
{
    assert forall|i: int| 0 <= i < merged.len() implies merges(merged, max, #[trigger] merged[i]) by {
        let m = merged[i];
        assert(merges(issues, max, m));
        let pages = choose|pages: Seq<Seq<char>>| #[trigger]
            pages_of(issues, m.key(), pages) && m.page_urls == sample(pages, max)
                && m.affected_pages_count == Some(pages.len() as usize) && pages.len()
                <= usize::MAX;
        assert(m.page_urls == pages);
        assert(pages_of(merged, m.key(), pages)) by {
            assert forall|url: Seq<char>| #[trigger] pages.contains(url) == seen_on(
                merged,
                m.key(),
                url,
            ) by {
                if pages.contains(url) {
                    assert(merged[i].key() == m.key());
                }
                if seen_on(merged, m.key(), url) {
                    let j = choose|j: int|
                        0 <= j < merged.len() && #[trigger] merged[j].key() == m.key()
                            && merged[j].page_urls.contains(url);
                    assert(merges(issues, max, merged[j]));
                    lemma_merged_is_unique(issues, max, merged[j], m);
                }
            }
        }
    }
}

/// The issue with its list of pages cut to the first `max`.
pub open spec fn cut_pages(issue: IssueView, max: nat) -> IssueView {
    IssueView { page_urls: sample(issue.page_urls, max), ..issue }
}

/// How many pages of an issue are listed only cuts these lists: which issues there are, how
/// many pages they count and in which order they stand is the same.
pub proof fn page_limit_only_cuts(
    issues: Seq<IssueView>,
    fewer: nat,
    more: nat,
    a: Seq<IssueView>,
    b: Seq<IssueView>,
)
    requires
        fewer <= more,
        is_deduplicated(issues, fewer, a),
        is_deduplicated(issues, more, b),
    ensures
        a == b.map_values(|i: IssueView| cut_pages(i, fewer)),
{
    let c = b.map_values(|i: IssueView| cut_pages(i, fewer));
    assert forall|key: IssueKey| #[trigger] has_key(c, key) == has_key(issues, key) by {
        assert(has_key(b, key) == has_key(issues, key));
        if has_key(b, key) {
            let i = choose|i: int| 0 <= i < b.len() && #[trigger] b[i].key() == key;
            assert(c[i].key() == key);
        }
        if has_key(c, key) {
            let i = choose|i: int| 0 <= i < c.len() && #[trigger] c[i].key() == key;
            assert(b[i].key() == key);
        }
    }
    assert forall|i: int| 0 <= i < c.len() implies merges(issues, fewer, #[trigger] c[i]) by {
        assert(merges(issues, more, b[i]));
        let pages = choose|pages: Seq<Seq<char>>| #[trigger]
            pages_of(issues, b[i].key(), pages) && b[i].page_urls == sample(pages, more)
                && b[i].affected_pages_count == Some(pages.len() as usize) && pages.len()
                <= usize::MAX;
        assert(pages_of(issues, c[i].key(), pages));
        assert(c[i].page_urls =~= sample(pages, fewer));
    }
    assert forall|i: int, j: int| 0 <= i < j < c.len() implies merged_before(
        #[trigger] c[i],
        #[trigger] c[j],
    ) by {
        assert(merged_before(b[i], b[j]));
    }
    deduplication_is_unique(issues, fewer, a, c);
}

/// From the mildest to the gravest: information, warning, error, critical.
pub proof fn severities_are_ranked()
    ensures
        Severity::Info.level() < Severity::Warning.level(),
        Severity::Warning.level() < Severity::Error.level(),
        Severity::Error.level() < Severity::Critical.level(),
{
}

/// Deduplication keeps every problem: each issue stands in the merged list with its own
/// severity, category, message and element.
pub proof fn deduplication_keeps_each_problem(
    issues: Seq<IssueView>,
    max: nat,
    merged: Seq<IssueView>,
    i: int,
) -> (j: int)
    requires
        is_deduplicated(issues, max, merged),
        0 <= i < issues.len(),
    ensures
        0 <= j < merged.len(),
        merged[j].severity == issues[i].severity,
        merged[j].category == issues[i].category,
        merged[j].message == issues[i].message,
        merged[j].element == issues[i].element,
{
    assert(has_key(issues, issues[i].key()));
    assert(has_key(merged, issues[i].key()));
    choose|j: int| 0 <= j < merged.len() && #[trigger] merged[j].key() == issues[i].key()
}

/// Deduplication makes up no problem: each merged issue has the severity, category, message and
/// element of an issue that was found.
pub proof fn deduplication_makes_up_nothing(
    issues: Seq<IssueView>,
    max: nat,
    merged: Seq<IssueView>,
    j: int,
) -> (i: int)
    requires
        is_deduplicated(issues, max, merged),
        0 <= j < merged.len(),
    ensures
        0 <= i < issues.len(),
        merged[j].severity == issues[i].severity,
        merged[j].category == issues[i].category,
        merged[j].message == issues[i].message,
        merged[j].element == issues[i].element,
{
    assert(has_key(merged, merged[j].key()));
    assert(has_key(issues, merged[j].key()));
    choose|i: int| 0 <= i < issues.len() && #[trigger] issues[i].key() == merged[j].key()
}

/// No two merged issues have severity, category, message and element in common.
pub proof fn deduplication_keeps_problems_apart(
    issues: Seq<IssueView>,
    max: nat,
    merged: Seq<IssueView>,
    j: int,
    k: int,
)
    requires
        is_deduplicated(issues, max, merged),
        0 <= j < k < merged.len(),
    ensures
        merged[j].severity != merged[k].severity || merged[j].category != merged[k].category
            || merged[j].message != merged[k].message || merged[j].element != merged[k].element,
{
    if merged[j].severity == merged[k].severity && merged[j].category == merged[k].category
        && merged[j].message == merged[k].message && merged[j].element == merged[k].element {
        assert(merges(issues, max, merged[j]));
        assert(merges(issues, max, merged[k]));
        lemma_merged_is_unique(issues, max, merged[j], merged[k]);
        assert(merged_before(merged[j], merged[k]));
    }
}

/// A merged issue counts the distinct pages on which an issue with its severity, category,
/// message and element was seen, and lists the first of them, in order; it has no way to the
/// page.
pub proof fn merged_issue_counts_its_pages(
    issues: Seq<IssueView>,
    max: nat,
    merged: Seq<IssueView>,
    j: int,
) -> (pages: Seq<Seq<char>>)
    requires
        is_deduplicated(issues, max, merged),
        0 <= j < merged.len(),
    ensures
        merged[j].affected_pages_count == Some(pages.len() as usize),
        pages.len() <= usize::MAX,
        merged[j].page_urls.len() == (if pages.len() <= max {
            pages.len()
        } else {
            max
        }),
        forall|k: int| 0 <= k < merged[j].page_urls.len() ==> merged[j].page_urls[k] == pages[k],
        forall|a: int, b: int|
            0 <= a < b < pages.len() ==> #[trigger] text_le(pages[a], pages[b]) && pages[a]
                != pages[b],
        forall|url: Seq<char>| #[trigger]
            pages.contains(url) <==> exists|i: int|
                #![trigger issues[i]]
                0 <= i < issues.len() && issues[i].severity == merged[j].severity
                    && issues[i].category == merged[j].category && issues[i].message
                    == merged[j].message && issues[i].element == merged[j].element
                    && issues[i].page_urls.contains(url),
        merged[j].action_path.len() == 0,
{
    assert(merges(issues, max, merged[j]));
    let m = merged[j];
    let pages = choose|pages: Seq<Seq<char>>| #[trigger]
        pages_of(issues, m.key(), pages) && m.page_urls == sample(pages, max)
            && m.affected_pages_count == Some(pages.len() as usize) && pages.len() <= usize::MAX;
    assert(pages_of(issues, m.key(), pages));
    assert(strictly_sorted(pages));
    assert forall|a: int, b: int| 0 <= a < b < pages.len() implies #[trigger] text_le(
        pages[a],
        pages[b],
    ) && pages[a] != pages[b] by {
        crate::order::sorted_lists_are_in_order(pages, a, b);
    }
    assert forall|url: Seq<char>| #[trigger] pages.contains(url) <==> exists|i: int|
        #![trigger issues[i]]
        0 <= i < issues.len() && issues[i].severity == m.severity && issues[i].category
            == m.category && issues[i].message == m.message && issues[i].element == m.element
            && issues[i].page_urls.contains(url) by {
        assert(pages.contains(url) == seen_on(issues, m.key(), url));
        if seen_on(issues, m.key(), url) {
            let i = choose|i: int|
                0 <= i < issues.len() && #[trigger] issues[i].key() == m.key()
                    && issues[i].page_urls.contains(url);
            assert(issues[i].severity == m.severity);
        }
        if exists|i: int|
            #![trigger issues[i]]
            0 <= i < issues.len() && issues[i].severity == m.severity && issues[i].category
                == m.category && issues[i].message == m.message && issues[i].element == m.element
                && issues[i].page_urls.contains(url) {
            let i = choose|i: int|
                #![trigger issues[i]]
                0 <= i < issues.len() && issues[i].severity == m.severity && issues[i].category
                    == m.category && issues[i].message == m.message && issues[i].element
                    == m.element && issues[i].page_urls.contains(url);
            assert(issues[i].key() == m.key());
        }
    }
    pages
}

/// A merged list goes from the gravest issues to the mildest, and among equally grave ones from
/// those on the most pages to those on the fewest.
pub proof fn merged_issues_are_ranked(
    issues: Seq<IssueView>,
    max: nat,
    merged: Seq<IssueView>,
    i: int,
    j: int,
)
    requires
        is_deduplicated(issues, max, merged),
        0 <= i < j < merged.len(),
    ensures
        merged[i].severity.level() >= merged[j].severity.level(),
        merged[i].severity == merged[j].severity ==> merged[i].affected_pages_count->0
            >= merged[j].affected_pages_count->0,
        merged[i].severity == merged[j].severity && merged[i].affected_pages_count
            == merged[j].affected_pages_count ==> merged[i].category.place()
            <= merged[j].category.place(),
        merged[i].severity == merged[j].severity && merged[i].affected_pages_count
            == merged[j].affected_pages_count && merged[i].category == merged[j].category
            ==> text_le(merged[i].message, merged[j].message),
{
    assert(merges(issues, max, merged[i]));
    assert(merges(issues, max, merged[j]));
    assert(merged_before(merged[i], merged[j]));
    if merged[i].message == merged[j].message {
        crate::order::lemma_text_le_total(merged[i].message, merged[j].message);
    }
}

/// The contents of an issue are all that its fields hold.
pub proof fn issue_is_what_it_holds(issue: Issue)
    ensures
        issue@.severity == issue.severity,
        issue@.category == issue.category,
        issue@.message == issue.message@,
        issue@.page_urls.len() == issue.page_urls@.len(),
        forall|i: int| 0 <= i < issue.page_urls@.len() ==> #[trigger] issue@.page_urls[i] == issue.page_urls@[i]@,
        issue@.affected_pages_count == issue.affected_pages_count,
        issue.element is Some ==> issue@.element == Some(issue.element->0@),
        issue.element is None ==> issue@.element is None,
        issue@.action_path.len() == issue.action_path@.len(),
        forall|i: int| 0 <= i < issue.action_path@.len() ==> #[trigger] issue@.action_path[i] == issue.action_path@[i]@,
{
}

/// The contents of a list of issues are those of each of them, in order.
pub proof fn issues_are_listed_in_order(list: Seq<Issue>)
    ensures
        issue_views(list).len() == list.len(),
        forall|i: int| 0 <= i < list.len() ==> #[trigger] issue_views(list)[i] == list[i]@,
{
}

/// The categories come in a fixed order.
pub proof fn categories_are_ranked()
    ensures
        IssueCategory::ConsoleError.place() < IssueCategory::NetworkError.place(),
        IssueCategory::NetworkError.place() < IssueCategory::BrokenLink.place(),
        IssueCategory::BrokenLink.place() < IssueCategory::FailedResource.place(),
        IssueCategory::FailedResource.place() < IssueCategory::Accessibility.place(),
        IssueCategory::Accessibility.place() < IssueCategory::Performance.place(),
        IssueCategory::Performance.place() < IssueCategory::Security.place(),
        IssueCategory::Security.place() < IssueCategory::Seo.place(),
        IssueCategory::Seo.place() < IssueCategory::LoadTest.place(),
        IssueCategory::LoadTest.place() < IssueCategory::UnhandledRejection.place(),
{
}

/// Of two merged issues that differ in nothing but their element, the one without comes first,
/// and of two elements the smaller one.
pub proof fn elements_decide_last(
    issues: Seq<IssueView>,
    max: nat,
    merged: Seq<IssueView>,
    i: int,
    j: int,
)
    requires
        is_deduplicated(issues, max, merged),
        0 <= i < j < merged.len(),
        merged[i].severity == merged[j].severity,
        merged[i].affected_pages_count == merged[j].affected_pages_count,
        merged[i].category == merged[j].category,
        merged[i].message == merged[j].message,
    ensures
        merged[j].element is Some,
        merged[i].element is Some ==> text_le(merged[i].element->0, merged[j].element->0),
{
    assert(merged_before(merged[i], merged[j]));
}

} // verus!
