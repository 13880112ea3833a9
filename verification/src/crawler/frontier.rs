//! Which pages a crawl visits, when it ends and what it reports.

use vstd::prelude::*;

use crate::console::{plural, plural_ending};
use crate::crawler::state::StateTracker;
use crate::double::Double;
use crate::issues::{issue_views, Issue, IssueView};
use crate::order::{
    is_listing, is_rearrangement, picked, ranks_before, sort_distinct, sort_texts,
    sorted, stable_order, strictly_sorted,
};
use crate::page::{child_page, normal_url, normalize_url, root_page, PageState, PageStateView};
use crate::report::{
    interaction_views, CrawlStats, InteractionsView, NetworkStats, PageInteractions, PerfMetrics,
};
use crate::text::{
    decimal, numeral, same_text, starts_with, trim_end_matches, views, without_trailing,
};
use crate::web::{parse_url, parsed_url, url_view, UrlParts, UrlView};

verus! {

/// The path is `skip` or lies below it.
pub open spec fn lies_under(path: Seq<char>, skip: Seq<char>) -> bool {
    path == skip || (skip + "/"@).is_prefix_of(path)
}

/// The path is one of `skip` or lies below one of them.
pub open spec fn is_skipped_path(path: Seq<char>, skip: Seq<Seq<char>>) -> bool {
    exists|i: int| 0 <= i < skip.len() && #[trigger] lies_under(path, skip[i])
}

/// The link is a URL whose path is to be skipped.
pub open spec fn is_skipped(link: Seq<char>, skip: Seq<Seq<char>>) -> bool {
    match parsed_url(link) {
        Ok(u) => is_skipped_path(u.path, skip),
        Err(_) => false,
    }
}

/// The URL is not to be visited: its path is to be skipped, or that of its normal form is.
pub open spec fn is_barred(url: Seq<char>, skip: Seq<Seq<char>>) -> bool {
    is_skipped(url, skip) || is_skipped(normal_url(url), skip)
}

/// The path is one of `skip` or lies below one of them.
pub fn skips_path(path: &str, skip: &Vec<String>) -> (r: bool)
    ensures
        r == is_skipped_path(path@, views(skip@)),
{
    let mut i: usize = 0;
    while i < skip.len()
        invariant
            i <= skip.len(),
            forall|j: int| 0 <= j < i ==> !#[trigger] lies_under(path@, views(skip@)[j]),
        decreases skip.len() - i,
    {
        let mut below = skip[i].clone();
        below.append("/");
        if same_text(path, skip[i].as_str()) || starts_with(path, below.as_str()) {
            assert(lies_under(path@, views(skip@)[i as int]));
            return true;
        }
        i += 1;
    }
    false
}

/// The link is a URL whose path is to be skipped.
pub fn skips_link(link: &str, skip: &Vec<String>) -> (r: bool)
    ensures
        r == is_skipped(link@, views(skip@)),
{
    match parse_url(link) {
        Ok(u) => skips_path(u.path.as_str(), skip),
        Err(_) => false,
    }
}

/// The URL is not to be visited.
pub fn bars_url(url: &str, skip: &Vec<String>) -> (r: bool)
    ensures
        r == is_barred(url@, views(skip@)),
{
    let normal = normalize_url(url);
    skips_link(url, skip) || skips_link(normal.as_str(), skip)
}

/// Why a crawl cannot start.
#[derive(Debug, PartialEq, Eq)]
pub enum StartError {
    /// The start URL is no URL; says why.
    InvalidUrl(String),
    /// The start URL has no host.
    NoHost,
}

/// Why a crawl cannot start.
pub ghost enum StartErrorView {
    InvalidUrl(Seq<char>),
    NoHost,
}

impl View for StartError {
    type V = StartErrorView;

    open spec fn view(&self) -> StartErrorView {
        match self {
            StartError::InvalidUrl(why) => StartErrorView::InvalidUrl(why@),
            StartError::NoHost => StartErrorView::NoHost,
        }
    }
}

/// The host of a start URL that was taken apart, or why there is none.
pub open spec fn start_host(parts: Result<UrlView, Seq<char>>) -> Result<Seq<char>, StartErrorView> {
    match parts {
        Ok(u) => match u.host {
            Some(h) if h.len() > 0 => Ok(h),
            _ => Err(StartErrorView::NoHost),
        },
        Err(why) => Err(StartErrorView::InvalidUrl(why)),
    }
}

/// The host of the site to crawl.
pub fn base_host(start_url: &str) -> (r: Result<String, StartError>)
    ensures
        match r {
            Ok(h) => start_host(parsed_url(start_url@)) == Ok::<Seq<char>, StartErrorView>(h@),
            Err(e) => start_host(parsed_url(start_url@)) == Err::<Seq<char>, StartErrorView>(e@),
        },
{
    host_of(parse_url(start_url))
}

/// The host of a start URL that was taken apart.
pub fn host_of(parts: Result<UrlParts, String>) -> (r: Result<String, StartError>)
    ensures
        match r {
            Ok(h) => start_host(url_view(parts)) == Ok::<Seq<char>, StartErrorView>(h@),
            Err(e) => start_host(url_view(parts)) == Err::<Seq<char>, StartErrorView>(e@),
        },
{
    match parts {
        Err(why) => Err(StartError::InvalidUrl(why)),
        Ok(u) => match u.host {
            Some(h) => if h.as_str().unicode_len() > 0 {
                Ok(h)
            } else {
                Err(StartError::NoHost)
            },
            None => Err(StartError::NoHost),
        },
    }
}

/// How many browser sessions crawl at once.
pub fn session_count(concurrency: usize) -> (r: usize)
    ensures
        r == if concurrency == 0 {
            1
        } else {
            concurrency as int
        },
{
    if concurrency == 0 {
        1
    } else {
        concurrency
    }
}

/// Links are followed from a page at that depth.
pub fn follows_links(depth: usize, max_depth: usize) -> (r: bool)
    ensures
        r == (depth < max_depth),
{
    depth < max_depth
}

/// The pages that a list of links adds to a crawl.
pub ghost struct Admission {
    pub seen: Set<Seq<char>>,
    pub pages: Seq<PageStateView>,
}

/// What following `links` from page `from` adds: each page that is not to be skipped and
/// was not seen before, once, in the order of the links.
pub open spec fn admission(
    seen: Set<Seq<char>>,
    from: PageStateView,
    links: Seq<Seq<char>>,
    skip: Seq<Seq<char>>,
) -> Admission
    decreases links.len(),
{
    if links.len() == 0 {
        Admission { seen, pages: Seq::empty() }
    } else {
        let before = admission(seen, from, links.drop_last(), skip);
        let page = child_page(from, links.last(), "link"@);
        if is_barred(links.last(), skip) || before.seen.contains(page.url) {
            before
        } else {
            Admission { seen: before.seen.insert(page.url), pages: before.pages.push(page) }
        }
    }
}

/// The links that are not to be skipped.
pub open spec fn kept_links(links: Seq<Seq<char>>, skip: Seq<Seq<char>>) -> Seq<Seq<char>>
    decreases links.len(),
{
    if links.len() == 0 {
        Seq::empty()
    } else {
        let before = kept_links(links.drop_last(), skip);
        if is_barred(links.last(), skip) {
            before
        } else {
            before.push(links.last())
        }
    }
}

/// The contents of a list of page states.
pub open spec fn page_views(list: Seq<PageState>) -> Seq<PageStateView> {
    list.map_values(|p: PageState| p@)
}

/// The URLs of a list of pages.
pub open spec fn page_urls(list: Seq<PageStateView>) -> Seq<Seq<char>> {
    list.map_values(|p: PageStateView| p.url)
}

/// Follows links from a page: marks the new pages as seen and returns them.
fn follow(seen: &mut StateTracker, from: &PageState, links: &Vec<String>, skip: &Vec<String>) -> (r:
    Vec<PageState>)
    requires
        from.depth < usize::MAX,
    ensures
        final(seen)@ == admission(old(seen)@, from@, views(links@), views(skip@)).seen,
        page_views(r@) == admission(old(seen)@, from@, views(links@), views(skip@)).pages,
        r.len() <= links.len(),
{
    let mut pages: Vec<PageState> = Vec::new();
    let ghost start = seen@;
    let mut i: usize = 0;
    proof {
        assert(views(links@).take(0) =~= Seq::<Seq<char>>::empty());
        assert(page_views(pages@) =~= Seq::<PageStateView>::empty());
    }
    while i < links.len()
        invariant
            from.depth < usize::MAX,
            i <= links.len(),
            pages.len() <= i,
            seen@ == admission(start, from@, views(links@).take(i as int), views(skip@)).seen,
            page_views(pages@) == admission(
                start,
                from@,
                views(links@).take(i as int),
                views(skip@),
            ).pages,
        decreases links.len() - i,
    {
        let ghost all = views(links@);
        proof {
            assert(all.take(i + 1).drop_last() =~= all.take(i as int));
            crate::page::fingerprint_is_url(from@, links@[i as int]@, "link"@);
        }
        if !bars_url(links[i].as_str(), skip) {
            let child = from.child(links[i].as_str(), "link");
            let fingerprint = child.fingerprint();
            let ghost before = seen@;
            if seen.visit(fingerprint.as_str()) {
                let ghost earlier = page_views(pages@);
                pages.push(child);
                proof {
                    assert(page_views(pages@) =~= earlier.push(child@));
                }
            } else {
                proof {
                    assert(before.insert(fingerprint@) =~= before);
                }
            }
        }
        i += 1;
    }
    proof {
        assert(views(links@).take(i as int) =~= views(links@));
    }
    pages
}

/// The links that are not to be skipped.
fn keep_links(links: &Vec<String>, skip: &Vec<String>) -> (r: Vec<String>)
    ensures
        views(r@) == kept_links(views(links@), views(skip@)),
{
    let mut out: Vec<String> = Vec::new();
    let mut i: usize = 0;
    proof {
        assert(views(links@).take(0) =~= Seq::<Seq<char>>::empty());
        assert(views(out@) =~= Seq::<Seq<char>>::empty());
    }
    while i < links.len()
        invariant
            i <= links.len(),
            views(out@) == kept_links(views(links@).take(i as int), views(skip@)),
        decreases links.len() - i,
    {
        proof {
            assert(views(links@).take(i + 1).drop_last() =~= views(links@).take(i as int));
        }
        if !bars_url(links[i].as_str(), skip) {
            let ghost before = views(out@);
            out.push(links[i].clone());
            proof {
                assert(views(out@) =~= before.push(links@[i as int]@));
            }
        }
        i += 1;
    }
    proof {
        assert(views(links@).take(i as int) =~= views(links@));
    }
    out
}

/// What was found on an audited page.
#[derive(Debug)]
pub struct PageFindings {
    pub issues: Vec<Issue>,
    pub perf: PerfMetrics,
    pub network: NetworkStats,
    pub links: Vec<String>,
    pub interactions: PageInteractions,
}

/// What a successful login brought.
#[derive(Debug)]
pub struct LoginPage {
    /// What was found on the login page.
    pub findings: PageFindings,
    /// Where the browser was after the login, if it could say.
    pub landed: Option<String>,
}

/// A crawl in progress.
pub struct Crawl {
    pub seen: StateTracker,
    /// How deep the deepest pages lie that are visited.
    pub max_depth: usize,
    /// How many pages are queued or being audited.
    pub pending: usize,
    pub pages_visited: usize,
    pub issues: Vec<Issue>,
    pub perf: Vec<PerfMetrics>,
    pub network: Vec<NetworkStats>,
    pub crawled: Vec<String>,
    pub discovered: Vec<String>,
    pub interactions: Vec<PageInteractions>,
}

/// The contents of a crawl in progress.
pub ghost struct CrawlView {
    pub seen: Set<Seq<char>>,
    pub max_depth: usize,
    pub pending: int,
    pub pages_visited: int,
    pub issues: Seq<IssueView>,
    pub perf: Seq<PerfMetrics>,
    pub network: Seq<NetworkStats>,
    pub crawled: Seq<Seq<char>>,
    pub discovered: Seq<Seq<char>>,
    pub interactions: Seq<InteractionsView>,
}

impl View for Crawl {
    type V = CrawlView;

    open spec fn view(&self) -> CrawlView {
        CrawlView {
            seen: self.seen@,
            max_depth: self.max_depth,
            pending: self.pending as int,
            pages_visited: self.pages_visited as int,
            issues: issue_views(self.issues@),
            perf: self.perf@,
            network: self.network@,
            crawled: views(self.crawled@),
            discovered: views(self.discovered@),
            interactions: interaction_views(self.interactions@),
        }
    }
}

/// The page that the browser landed on after the login, where it is to be crawled besides
/// the start page.
pub open spec fn extra_start(start_url: Seq<char>, landed: Option<Seq<char>>) -> Option<Seq<char>> {
    match landed {
        Some(url) => if without_trailing(url, '/') != without_trailing(start_url, '/') {
            Some(url)
        } else {
            None
        },
        None => None,
    }
}

/// The page at that URL, unless it is not to be visited.
pub open spec fn seed(url: Seq<char>, skip: Seq<Seq<char>>) -> Seq<PageStateView> {
    if is_barred(url, skip) {
        Seq::empty()
    } else {
        seq![root_page(url)]
    }
}

/// The start page, and the page the browser landed on where that is another one; without
/// those that are not to be visited.
pub open spec fn start_pages(
    start_url: Seq<char>,
    landed: Option<Seq<char>>,
    skip: Seq<Seq<char>>,
) -> Seq<PageStateView> {
    seed(start_url, skip) + match extra_start(start_url, landed) {
        Some(url) => if normal_url(url) != normal_url(start_url) {
            seed(url, skip)
        } else {
            Seq::empty()
        },
        None => Seq::empty(),
    }
}

/// The URLs of a list of pages as a set.
pub open spec fn url_set(pages: Seq<PageStateView>) -> Set<Seq<char>> {
    page_urls(pages).to_set()
}

/// The URL of the page that was audited at login; empty where the browser could not say.
pub open spec fn login_page_url(landed: Option<Seq<char>>) -> Seq<char> {
    match landed {
        Some(url) => url,
        None => Seq::empty(),
    }
}

/// What a crawl is to do.
pub ghost struct CrawlPlan {
    pub start_url: Seq<char>,
    pub max_depth: usize,
    pub skip: Seq<Seq<char>>,
    pub login: Option<LoginPage>,
}

/// Where the browser was after the login, if there was one and it could say.
pub open spec fn landing(login: Option<LoginPage>) -> Option<Seq<char>> {
    match login {
        Some(l) => crate::text::opt_view(l.landed),
        None => None,
    }
}

impl CrawlPlan {
    /// The pages that a crawl starts with whatever the login page links to.
    pub open spec fn seeds(self) -> Seq<PageStateView> {
        start_pages(self.start_url, landing(self.login), self.skip)
    }

    /// The links of the login page are followed: it is the page at a URL, and links are
    /// followed at all.
    pub open spec fn follows_login(self) -> bool {
        self.max_depth > 0 && self.login is Some && parsed_url(
            login_page_url(landing(self.login)),
        ) is Ok
    }

    /// What the links of the login page add to the start pages.
    pub open spec fn login_admission(self) -> Admission {
        if self.follows_login() {
            admission(
                url_set(self.seeds()),
                root_page(login_page_url(landing(self.login))),
                views(self.login->0.findings.links@),
                self.skip,
            )
        } else {
            Admission { seen: url_set(self.seeds()), pages: Seq::empty() }
        }
    }

    /// The pages a crawl starts with.
    pub open spec fn first_pages(self) -> Seq<PageStateView> {
        self.seeds() + self.login_admission().pages
    }

    /// A crawl at its start. It has what was found on the login page, which counts as crawled
    /// under the URL where the browser landed, unless that is not to be visited.
    pub open spec fn start(self) -> CrawlView {
        let blank = CrawlView {
            seen: self.login_admission().seen,
            max_depth: self.max_depth,
            pending: self.first_pages().len() as int,
            pages_visited: 0,
            issues: Seq::empty(),
            perf: Seq::empty(),
            network: Seq::empty(),
            crawled: Seq::empty(),
            discovered: Seq::empty(),
            interactions: Seq::empty(),
        };
        match self.login {
            Some(l) => CrawlView {
                issues: issue_views(l.findings.issues@),
                perf: seq![l.findings.perf],
                network: seq![l.findings.network],
                crawled: if is_barred(login_page_url(landing(self.login)), self.skip) {
                    Seq::empty()
                } else {
                    seq![login_page_url(landing(self.login))]
                },
                discovered: if self.follows_login() {
                    kept_links(views(l.findings.links@), self.skip)
                } else {
                    Seq::empty()
                },
                interactions: seq![l.findings.interactions@],
                ..blank
            },
            None => blank,
        }
    }
}

/// The links that are followed from a page: none from one that lies as deep as is visited.
pub open spec fn followed_links(crawl: CrawlView, page: PageStateView, found: PageFindings) -> Seq<
    Seq<char>,
> {
    if page.depth < crawl.max_depth {
        views(found.links@)
    } else {
        Seq::empty()
    }
}

/// What following the links of page `page` adds to a crawl.
pub open spec fn page_admission(
    crawl: CrawlView,
    page: PageStateView,
    found: PageFindings,
    skip: Seq<Seq<char>>,
) -> Admission {
    admission(crawl.seen, page, followed_links(crawl, page, found), skip)
}

/// The crawl after page `page` was audited.
pub open spec fn after_audit(
    crawl: CrawlView,
    page: PageStateView,
    found: PageFindings,
    skip: Seq<Seq<char>>,
) -> CrawlView {
    let new = page_admission(crawl, page, found, skip);
    CrawlView {
        seen: new.seen,
        max_depth: crawl.max_depth,
        pending: crawl.pending + new.pages.len() - 1,
        pages_visited: crawl.pages_visited + 1,
        issues: crawl.issues + issue_views(found.issues@),
        perf: crawl.perf.push(found.perf),
        network: crawl.network.push(found.network),
        crawled: crawl.crawled.push(page.url),
        discovered: crawl.discovered + page_urls(new.pages),
        interactions: crawl.interactions.push(found.interactions@),
    }
}

/// The crawl after a page could not be audited.
pub open spec fn after_failure(crawl: CrawlView) -> CrawlView {
    CrawlView { pending: crawl.pending - 1, ..crawl }
}

/// How many elements a list of pages has in all.
pub open spec fn element_total(pages: Seq<InteractionsView>) -> nat
    decreases pages.len(),
{
    if pages.len() == 0 {
        0
    } else {
        element_total(pages.drop_last()) + pages.last().elements_found as nat
    }
}

/// Where the browser landed after the login, if that page is to be crawled besides the
/// start page.
fn extra_url(start_url: &str, landed: &Option<String>) -> (r: Option<String>)
    ensures
        crate::text::opt_view(r) == extra_start(start_url@, crate::text::opt_view(*landed)),
{
    match landed {
        Some(url) => {
            let a = trim_end_matches(url.as_str(), '/');
            let b = trim_end_matches(start_url, '/');
            if same_text(a.as_str(), b.as_str()) {
                None
            } else {
                Some(url.clone())
            }
        },
        None => None,
    }
}

/// Marks the page at that URL as seen and adds it to `pages`, unless it is not to be visited
/// or was seen before.
fn add_seed(seen: &mut StateTracker, pages: &mut Vec<PageState>, url: &str, skip: &Vec<String>)
    requires
        url_set(page_views(old(pages)@)) == old(seen)@,
    ensures
        url_set(page_views(final(pages)@)) == final(seen)@,
        page_views(final(pages)@) == page_views(old(pages)@) + if old(seen)@.contains(
            normal_url(url@),
        ) {
            Seq::empty()
        } else {
            seed(url@, views(skip@))
        },
{
    let ghost before = page_views(pages@);
    let ghost was = seen@;
    if !bars_url(url, skip) {
        let page = PageState::new(url);
        let fingerprint = page.fingerprint();
        let ghost new = page@;
        proof {
            crate::page::normal_url_idempotent(url@);
        }
        if seen.visit(fingerprint.as_str()) {
            pages.push(page);
            proof {
                let after = page_views(pages@);
                assert(after =~= before.push(new));
                assert(after =~= before + seed(url@, views(skip@)));
                lemma_url_set_push(before, new);
            }
        } else {
            proof {
                assert(was.insert(fingerprint@) =~= was);
                assert(before + Seq::<PageStateView>::empty() =~= before);
            }
        }
    } else {
        proof {
            assert(before + Seq::<PageStateView>::empty() =~= before);
        }
    }
}

/// One more page has one more URL.
proof fn lemma_url_set_push(pages: Seq<PageStateView>, page: PageStateView)
    ensures
        url_set(pages.push(page)) == url_set(pages).insert(page.url),
{
    let (a, b) = (page_urls(pages), page_urls(pages.push(page)));
    assert(b =~= a.push(page.url));
    assert forall|t: Seq<char>| b.to_set().contains(t) == a.to_set().insert(page.url).contains(
        t,
    ) by {
        if a.contains(t) {
            let k = choose|k: int| 0 <= k < a.len() && a[k] == t;
            assert(b[k] == t);
        }
        assert(b[a.len() as int] == page.url);
        if b.contains(t) {
            let k = choose|k: int| 0 <= k < b.len() && b[k] == t;
            if k < a.len() {
                assert(a[k] == t);
            }
        }
    }
    assert(url_set(pages.push(page)) =~= url_set(pages).insert(page.url));
}

/// The pages that a crawl starts with, marked as seen.
fn seed_pages(seen: &mut StateTracker, start_url: &str, landed: &Option<String>, skip: &Vec<
    String,
>) -> (r: Vec<PageState>)
    requires
        old(seen)@ == Set::<Seq<char>>::empty(),
    ensures
        page_views(r@) == start_pages(start_url@, crate::text::opt_view(*landed), views(skip@)),
        final(seen)@ == url_set(page_views(r@)),
{
    let ghost sk = views(skip@);
    let mut pages: Vec<PageState> = Vec::new();
    proof {
        assert(page_views(pages@) =~= Seq::<PageStateView>::empty());
        assert(page_urls(page_views(pages@)) =~= Seq::<Seq<char>>::empty());
        assert(url_set(page_views(pages@)) =~= Set::<Seq<char>>::empty());
    }
    add_seed(seen, &mut pages, start_url, skip);
    let ghost first = seed(start_url@, sk);
    proof {
        assert(page_views(pages@) =~= first);
        assert(first + Seq::<PageStateView>::empty() =~= first);
        let urls = page_urls(first);
        assert forall|t: Seq<char>| #[trigger] seen@.contains(t) == (first.len() > 0 && t
            == normal_url(start_url@)) by {
            assert(seen@.contains(t) == urls.contains(t));
            if first.len() > 0 {
                assert(urls[0] == normal_url(start_url@));
            }
        }
    }
    match extra_url(start_url, landed) {
        Some(url) => {
            let normal = normalize_url(url.as_str());
            let start = normalize_url(start_url);
            if !same_text(normal.as_str(), start.as_str()) {
                add_seed(seen, &mut pages, url.as_str(), skip);
            }
        },
        None => {},
    }
    pages
}

impl Crawl {
    /// A crawl that has seen `seen` and found nothing yet.
    fn blank(seen: StateTracker, max_depth: usize, pending: usize) -> (r: Crawl)
        ensures
            r@ == (CrawlView {
                seen: seen@,
                max_depth,
                pending: pending as int,
                pages_visited: 0,
                issues: Seq::empty(),
                perf: Seq::empty(),
                network: Seq::empty(),
                crawled: Seq::empty(),
                discovered: Seq::empty(),
                interactions: Seq::empty(),
            }),
    {
        let crawl = Crawl {
            seen,
            max_depth,
            pending,
            pages_visited: 0,
            issues: Vec::new(),
            perf: Vec::new(),
            network: Vec::new(),
            crawled: Vec::new(),
            discovered: Vec::new(),
            interactions: Vec::new(),
        };
        proof {
            assert(crawl@.issues =~= Seq::<IssueView>::empty());
            assert(crawl@.crawled =~= Seq::<Seq<char>>::empty());
            assert(crawl@.discovered =~= Seq::<Seq<char>>::empty());
            assert(crawl@.interactions =~= Seq::<InteractionsView>::empty());
        }
        crawl
    }

    /// Starts a crawl of `start_url`. Returns it with the pages to queue: the start page,
    /// the page the browser landed on after the login and those that the login page links
    /// to, without those that are not to be visited. Where none is left, the crawl is over.
    pub fn begin(start_url: &str, max_depth: usize, skip: &Vec<String>, login: Option<LoginPage>) -> (r:
        (Crawl, Vec<PageState>))
        ensures
            ({
                let plan = CrawlPlan { start_url: start_url@, max_depth, skip: views(skip@), login };
                r.0@ == plan.start() && page_views(r.1@) == plan.first_pages()
            }),
    {
        let ghost plan = CrawlPlan { start_url: start_url@, max_depth, skip: views(skip@), login };
        let mut seen = StateTracker::new();
        match login {
            None => {
                let pages = seed_pages(&mut seen, start_url, &None, skip);
                let crawl = Crawl::blank(seen, max_depth, pages.len());
                proof {
                    assert(plan.seeds() + Seq::<PageStateView>::empty() =~= plan.seeds());
                    assert(pages.len() == page_views(pages@).len());
                }
                (crawl, pages)
            },
            Some(l) => {
                let ghost given = l;
                let mut pages = seed_pages(&mut seen, start_url, &l.landed, skip);
                let url = match &l.landed {
                    Some(u) => u.clone(),
                    None => String::new(),
                };
                let ghost before = page_views(pages@);
                let mut findings = l.findings;
                let follows = max_depth > 0 && parse_url(url.as_str()).is_ok();
                let mut discovered: Vec<String> = Vec::new();
                proof {
                    assert(views(discovered@) =~= Seq::<Seq<char>>::empty());
                    assert(before + Seq::<PageStateView>::empty() =~= before);
                }
                if follows {
                    let from = PageState::new(url.as_str());
                    let mut new_pages = follow(&mut seen, &from, &findings.links, skip);
                    let ghost added = page_views(new_pages@);
                    pages.append(&mut new_pages);
                    discovered = keep_links(&findings.links, skip);
                    proof {
                        assert(page_views(pages@) =~= before + added);
                    }
                }
                let mut crawl = Crawl::blank(seen, max_depth, pages.len());
                crawl.discovered = discovered;
                let ghost start = crawl@;
                crawl.issues.append(&mut findings.issues);
                crawl.perf.push(findings.perf);
                crawl.network.push(findings.network);
                let ghost interactions = findings.interactions@;
                crawl.interactions.push(findings.interactions);
                let barred = bars_url(url.as_str(), skip);
                if !barred {
                    crawl.crawled.push(url);
                }
                proof {
                    assert(pages.len() == page_views(pages@).len());
                    let want = plan.start();
                    assert(crawl@.issues =~= start.issues + issue_views(given.findings.issues@));
                    assert(crawl@.issues =~= want.issues);
                    assert(crawl@.perf =~= want.perf);
                    assert(crawl@.network =~= want.network);
                    assert(crawl@.crawled =~= want.crawled);
                    assert(crawl@.interactions =~= start.interactions.push(interactions));
                    assert(crawl@.interactions =~= want.interactions);
                }
                (crawl, pages)
            },
        }
    }

    /// Takes in what was found on an audited page. Returns the new pages to queue, and
    /// whether the crawl is over.
    pub fn page_audited(&mut self, page: &PageState, found: PageFindings, skip: &Vec<String>) -> (r: (
        Vec<PageState>,
        bool,
    ))
        requires
            old(self).pending >= 1,
            old(self).pending + found.links.len() <= usize::MAX,
            old(self).pages_visited < usize::MAX,
        ensures
            final(self)@ == after_audit(old(self)@, page@, found, views(skip@)),
            page_views(r.0@) == page_admission(old(self)@, page@, found, views(skip@)).pages,
            r.1 == (final(self)@.pending == 0),
            page.depth < old(self).max_depth ==> forall|i: int|
                #![trigger found.links@[i]]
                0 <= i < found.links@.len() && !is_skipped(found.links@[i]@, views(skip@))
                    && !is_skipped(normal_url(found.links@[i]@), views(skip@))
                    ==> final(self)@.seen.contains(normal_url(found.links@[i]@)),
    {
        let ghost before = self@;
        let ghost new = page_admission(before, page@, found, views(skip@));
        let new_pages = if page.depth < self.max_depth {
            follow(&mut self.seen, page, &found.links, skip)
        } else {
            Vec::new()
        };
        proof {
            if page.depth >= before.max_depth {
                assert(page_views(new_pages@) =~= Seq::<PageStateView>::empty());
            }
        }
        self.pending = self.pending + new_pages.len() - 1;
        self.pages_visited = self.pages_visited + 1;
        let ghost given = found;
        let mut issues = found.issues;
        self.issues.append(&mut issues);
        self.perf.push(found.perf);
        self.network.push(found.network);
        self.crawled.push(page.url.clone());
        self.interactions.push(found.interactions);
        let mut i: usize = 0;
        proof {
            assert(new_pages.len() == page_views(new_pages@).len());
            assert(page_urls(new.pages).take(0) =~= Seq::<Seq<char>>::empty());
            assert(self@.discovered =~= before.discovered + page_urls(new.pages).take(0));
        }
        let ghost middle = self@;
        while i < new_pages.len()
            invariant
                i <= new_pages.len(),
                page_views(new_pages@) == new.pages,
                self@ == (CrawlView {
                    discovered: before.discovered + page_urls(new.pages).take(i as int),
                    ..middle
                }),
            decreases new_pages.len() - i,
        {
            let ghost earlier = self@.discovered;
            self.discovered.push(new_pages[i].url.clone());
            proof {
                let urls = page_urls(new.pages);
                assert(urls[i as int] == page_views(new_pages@)[i as int].url);
                assert(self@.discovered =~= earlier.push(urls[i as int]));
                assert(urls.take(i + 1) =~= urls.take(i as int).push(urls[i as int]));
                assert(self@.discovered =~= before.discovered + urls.take(i + 1));
            }
            i += 1;
        }
        proof {
            assert(page_urls(new.pages).take(i as int) =~= page_urls(new.pages));
            let want = after_audit(before, page@, given, views(skip@));
            every_link_is_followed(before, page@, given, views(skip@));
            assert(self@.issues =~= want.issues);
            assert(self@.perf =~= want.perf);
            assert(self@.network =~= want.network);
            assert(self@.crawled =~= want.crawled);
            assert(self@.interactions =~= want.interactions);
        }
        let over = self.pending == 0;
        (new_pages, over)
    }

    /// Takes in that a page could not be audited. Returns whether the crawl is over.
    pub fn page_failed(&mut self) -> (r: bool)
        requires
            old(self).pending >= 1,
        ensures
            final(self)@ == after_failure(old(self)@),
            r == (final(self)@.pending == 0),
    {
        self.pending = self.pending - 1;
        self.pending == 0
    }

    /// The results of the crawl, which took `duration_secs`.
    pub fn finish(self, duration_secs: Double) -> (r: CrawlResult)
        requires
            element_total(self@.interactions) <= usize::MAX,
        ensures
            is_result(self@, duration_secs, r),
    {
        let mut total: usize = 0;
        let mut i: usize = 0;
        let ghost pages = interaction_views(self.interactions@);
        proof {
            assert(pages.take(0) =~= Seq::<InteractionsView>::empty());
        }
        while i < self.interactions.len()
            invariant
                pages == interaction_views(self.interactions@),
                element_total(pages) <= usize::MAX,
                i <= self.interactions.len(),
                total == element_total(pages.take(i as int)),
            decreases self.interactions.len() - i,
        {
            proof {
                assert(pages.take(i + 1).drop_last() =~= pages.take(i as int));
                lemma_total_grows(pages, i + 1);
            }
            total = total + self.interactions[i].elements_found;
            i += 1;
        }
        proof {
            assert(pages.take(i as int) =~= pages);
        }
        let interactions = sort_interactions(&self.interactions);
        let crawled = sort_texts(&self.crawled);
        let mut all = self.discovered;
        let mut more = self.crawled;
        let ghost found = views(all@);
        let ghost seen = views(more@);
        all.append(&mut more);
        let discovered = sort_distinct(&all);
        proof {
            assert(views(all@) =~= found + seen);
            assert forall|t: Seq<char>| #[trigger] views(discovered@).contains(t) == (
            found.contains(t) || seen.contains(t)) by {
                let both = found + seen;
                assert(views(discovered@).contains(t) == both.contains(t));
                if found.contains(t) {
                    let k = choose|k: int| 0 <= k < found.len() && found[k] == t;
                    assert(both[k] == t);
                }
                if seen.contains(t) {
                    let k = choose|k: int| 0 <= k < seen.len() && seen[k] == t;
                    assert(both[found.len() + k] == t);
                }
            }
        }
        CrawlResult {
            issues: self.issues,
            perf_metrics: self.perf,
            network_stats: self.network,
            stats: CrawlStats {
                pages_visited: self.pages_visited,
                duration_secs,
                elements_interacted: total,
                crawled_urls: crawled,
            },
            discovered_urls: discovered,
            interactions,
        }
    }
}

/// The results of a crawl.
#[derive(Debug)]
pub struct CrawlResult {
    pub issues: Vec<Issue>,
    pub perf_metrics: Vec<PerfMetrics>,
    pub network_stats: Vec<NetworkStats>,
    pub stats: CrawlStats,
    pub discovered_urls: Vec<String>,
    pub interactions: Vec<PageInteractions>,
}

/// `b` holds the pages of `a` sorted by URL; pages with one URL keep their order.
pub open spec fn is_sorted_by_url(a: Seq<InteractionsView>, b: Seq<InteractionsView>) -> bool {
    exists|order: Seq<usize>| #[trigger] is_url_order(a, order) && b == picked(a, order)
}

/// `order` lists the positions of `pages` by URL; positions with one URL keep their order.
pub open spec fn is_url_order(pages: Seq<InteractionsView>, order: Seq<usize>) -> bool {
    &&& is_listing(order, pages.len())
    &&& forall|i: int, j: int|
        0 <= i < j < order.len() ==> url_before(pages, #[trigger] order[i], #[trigger] order[j])
}

/// Position `p` of `pages` stands before position `q`.
pub open spec fn url_before(pages: Seq<InteractionsView>, p: usize, q: usize) -> bool {
    let a = pages[p as int].page_url;
    let b = pages[q as int].page_url;
    crate::order::text_le(a, b) && (a == b ==> p < q)
}

/// `r` is what a crawl that ends as `crawl` reports.
pub open spec fn is_result(crawl: CrawlView, duration_secs: Double, r: CrawlResult) -> bool {
    &&& issue_views(r.issues@) == crawl.issues
    &&& r.perf_metrics@ == crawl.perf
    &&& r.network_stats@ == crawl.network
    &&& r.stats.pages_visited == crawl.pages_visited
    &&& r.stats.duration_secs == duration_secs
    &&& r.stats.elements_interacted == element_total(crawl.interactions)
    &&& sorted(views(r.stats.crawled_urls@))
    &&& is_rearrangement(crawl.crawled, views(r.stats.crawled_urls@))
    &&& is_sorted_by_url(crawl.interactions, interaction_views(r.interactions@))
    &&& strictly_sorted(views(r.discovered_urls@))
    &&& forall|t: Seq<char>| #[trigger]
        views(r.discovered_urls@).contains(t) == (crawl.discovered.contains(t)
            || crawl.crawled.contains(t))
}

/// The total grows with the pages.
proof fn lemma_total_grows(pages: Seq<InteractionsView>, n: int)
    requires
        0 <= n <= pages.len(),
    ensures
        element_total(pages.take(n)) <= element_total(pages),
    decreases pages.len(),
{
    if n == pages.len() {
        assert(pages.take(n) =~= pages);
    } else {
        lemma_total_grows(pages.drop_last(), n);
        assert(pages.drop_last().take(n) =~= pages.take(n));
    }
}

/// The pages sorted by URL.
fn sort_interactions(pages: &Vec<PageInteractions>) -> (r: Vec<PageInteractions>)
    ensures
        is_sorted_by_url(interaction_views(pages@), interaction_views(r@)),
{
    let ghost all = interaction_views(pages@);
    let mut urls: Vec<String> = Vec::new();
    let mut i: usize = 0;
    while i < pages.len()
        invariant
            i <= pages.len(),
            urls.len() == i,
            forall|j: int| 0 <= j < i ==> (#[trigger] urls@[j])@ == pages@[j]@.page_url,
        decreases pages.len() - i,
    {
        urls.push(pages[i].page_url.clone());
        i += 1;
    }
    let order = stable_order(&urls);
    let mut out: Vec<PageInteractions> = Vec::new();
    let mut k: usize = 0;
    while k < order.len()
        invariant
            is_listing(order@, pages@.len()),
            k <= order.len(),
            out.len() == k,
            forall|j: int| 0 <= j < k ==> (#[trigger] out@[j])@ == pages@[order@[j] as int]@,
        decreases order.len() - k,
    {
        out.push(pages[order[k]].clone());
        k += 1;
    }
    proof {
        assert forall|a: int, b: int| 0 <= a < b < order@.len() implies url_before(
            all,
            #[trigger] order@[a],
            #[trigger] order@[b],
        ) by {
            let (p, q) = (order@[a], order@[b]);
            assert(ranks_before(urls@, p, q));
            assert(urls@[p as int]@ == all[p as int].page_url);
            assert(urls@[q as int]@ == all[q as int].page_url);
            crate::order::lemma_text_le_total(all[p as int].page_url, all[q as int].page_url);
        }
        assert(is_url_order(all, order@));
        assert(interaction_views(out@) =~= picked(all, order@));
    }
    out
}

/// Following links queues only pages that were not seen before, each once, that are to be
/// visited and lie one step deeper; afterwards exactly these are seen besides those seen
/// before.
pub proof fn following_links(
    seen: Set<Seq<char>>,
    from: PageStateView,
    links: Seq<Seq<char>>,
    skip: Seq<Seq<char>>,
)
    ensures
        ({
            let new = admission(seen, from, links, skip);
            &&& page_urls(new.pages).no_duplicates()
            &&& forall|t: Seq<char>| #[trigger]
                new.seen.contains(t) == (seen.contains(t) || page_urls(new.pages).contains(t))
            &&& forall|i: int|
                0 <= i < new.pages.len() ==> !seen.contains((#[trigger] new.pages[i]).url)
                    && !is_skipped(new.pages[i].url, skip) && new.pages[i].depth == (from.depth
                    + 1) as usize
            &&& new.pages.len() <= links.len()
        }),
    decreases links.len(),
{
    let new = admission(seen, from, links, skip);
    if links.len() > 0 {
        following_links(seen, from, links.drop_last(), skip);
        let before = admission(seen, from, links.drop_last(), skip);
        let page = child_page(from, links.last(), "link"@);
        if !is_barred(links.last(), skip) && !before.seen.contains(page.url) {
            let (a, b) = (page_urls(before.pages), page_urls(new.pages));
            assert(b =~= a.push(page.url));
            assert forall|t: Seq<char>| #[trigger] new.seen.contains(t) == (seen.contains(t)
                || b.contains(t)) by {
                assert(before.seen.contains(t) == (seen.contains(t) || a.contains(t)));
                if a.contains(t) {
                    let k = choose|k: int| 0 <= k < a.len() && a[k] == t;
                    assert(b[k] == t);
                }
                if b.contains(t) {
                    let k = choose|k: int| 0 <= k < b.len() && b[k] == t;
                    if k < a.len() {
                        assert(a[k] == t);
                    }
                }
                assert(b[a.len() as int] == page.url);
            }
            assert(!a.contains(page.url));
            assert forall|i: int, j: int| 0 <= i < b.len() && 0 <= j < b.len() && i != j implies b[i]
                != b[j] by {
                if i < a.len() && j < a.len() {
                    assert(a[i] != a[j]);
                } else if i < a.len() {
                    assert(a.contains(a[i]));
                } else {
                    assert(a.contains(a[j]));
                }
            }
            assert forall|i: int| 0 <= i < new.pages.len() implies !seen.contains(
                (#[trigger] new.pages[i]).url,
            ) && !is_skipped(new.pages[i].url, skip) && new.pages[i].depth == (from.depth
                + 1) as usize by {
                if i < before.pages.len() {
                    assert(new.pages[i] == before.pages[i]);
                } else {
                    assert(new.pages[i] == page);
                }
            }
        }
    }
}

/// Something that happened to a queued page.
pub ghost enum CrawlEvent {
    /// The page was audited.
    Audited(PageStateView, PageFindings),
    /// The page could not be audited.
    Failed,
}

/// A crawl and the pages that were queued since its start.
pub ghost struct History {
    pub crawl: CrawlView,
    pub queued: Seq<PageStateView>,
}

/// A crawl after `events`.
pub open spec fn history(plan: CrawlPlan, events: Seq<CrawlEvent>) -> History
    decreases events.len(),
{
    if events.len() == 0 {
        History { crawl: plan.start(), queued: plan.first_pages() }
    } else {
        let before = history(plan, events.drop_last());
        match events.last() {
            CrawlEvent::Audited(page, found) => History {
                crawl: after_audit(before.crawl, page, found, plan.skip),
                queued: before.queued + page_admission(before.crawl, page, found, plan.skip).pages,
            },
            CrawlEvent::Failed => History { crawl: after_failure(before.crawl), ..before },
        }
    }
}

/// The pages queued have distinct URLs, which are exactly those seen.
pub open spec fn is_tracked(seen: Set<Seq<char>>, queued: Seq<PageStateView>) -> bool {
    &&& page_urls(queued).no_duplicates()
    &&& forall|t: Seq<char>| #[trigger] seen.contains(t) == page_urls(queued).contains(t)
}

/// Queueing what links add keeps track of the pages.
proof fn lemma_tracked(
    seen: Set<Seq<char>>,
    queued: Seq<PageStateView>,
    from: PageStateView,
    links: Seq<Seq<char>>,
    skip: Seq<Seq<char>>,
)
    requires
        is_tracked(seen, queued),
    ensures
        is_tracked(
            admission(seen, from, links, skip).seen,
            queued + admission(seen, from, links, skip).pages,
        ),
{
    following_links(seen, from, links, skip);
    let new = admission(seen, from, links, skip);
    let all = page_urls(queued + new.pages);
    let (a, b) = (page_urls(queued), page_urls(new.pages));
    assert(all =~= a + b);
    assert forall|t: Seq<char>| #[trigger] new.seen.contains(t) == all.contains(t) by {
        assert(seen.contains(t) == a.contains(t));
        if a.contains(t) {
            let k = choose|k: int| 0 <= k < a.len() && a[k] == t;
            assert(all[k] == t);
        }
        if b.contains(t) {
            let k = choose|k: int| 0 <= k < b.len() && b[k] == t;
            assert(all[a.len() + k] == t);
        }
    }
    assert forall|i: int, j: int| 0 <= i < all.len() && 0 <= j < all.len() && i != j implies all[i]
        != all[j] by {
        if i < a.len() && j < a.len() {
            assert(a[i] != a[j]);
        } else if i >= a.len() && j >= a.len() {
            assert(b[i - a.len()] != b[j - a.len()]);
        } else if i < a.len() {
            assert(a.contains(a[i]));
            assert(seen.contains(a[i]));
            assert(!seen.contains(new.pages[j - a.len()].url));
        } else {
            assert(a.contains(a[j]));
            assert(seen.contains(a[j]));
            assert(!seen.contains(new.pages[i - a.len()].url));
        }
    }
}

/// The start pages are tracked, are to be visited and lie at the top.
proof fn lemma_seeds(start_url: Seq<char>, landed: Option<Seq<char>>, skip: Seq<Seq<char>>)
    ensures
        ({
            let pages = start_pages(start_url, landed, skip);
            &&& is_tracked(url_set(pages), pages)
            &&& forall|i: int|
                0 <= i < pages.len() ==> !is_skipped((#[trigger] pages[i]).url, skip)
                    && pages[i].depth == 0
        }),
{
    let pages = start_pages(start_url, landed, skip);
    let urls = page_urls(pages);
    let first = seed(start_url, skip);
    assert forall|i: int| 0 <= i < pages.len() implies !is_skipped(
        (#[trigger] pages[i]).url,
        skip,
    ) && pages[i].depth == 0 by {
        if i < first.len() {
            assert(pages[i] == first[i]);
        } else {
            let url = extra_start(start_url, landed)->0;
            assert(pages[i] == seed(url, skip)[i - first.len()]);
        }
    }
    assert forall|i: int, j: int| 0 <= i < urls.len() && 0 <= j < urls.len() && i != j implies urls[i]
        != urls[j] by {
        assert(first.len() == 1);
        let url = extra_start(start_url, landed)->0;
        assert(pages[0] == root_page(start_url));
        assert(pages[1] == seed(url, skip)[0]);
        assert(urls[0] == pages[0].url);
        assert(urls[1] == pages[1].url);
    }
}

/// However a crawl goes, no page is queued twice, the pages seen are those queued, and the
/// pages pending are those queued for which nothing has happened yet. So a crawl is over
/// exactly when each queued page was audited or failed.
pub proof fn crawl_queues_once(plan: CrawlPlan, events: Seq<CrawlEvent>)
    ensures
        ({
            let h = history(plan, events);
            &&& is_tracked(h.crawl.seen, h.queued)
            &&& h.crawl.pending == h.queued.len() - events.len()
        }),
    decreases events.len(),
{
    if events.len() == 0 {
        let pages = plan.seeds();
        lemma_seeds(plan.start_url, landing(plan.login), plan.skip);
        if plan.follows_login() {
            lemma_tracked(
                url_set(pages),
                pages,
                root_page(login_page_url(landing(plan.login))),
                views(plan.login->0.findings.links@),
                plan.skip,
            );
        } else {
            assert(pages + Seq::<PageStateView>::empty() =~= pages);
        }
    } else {
        crawl_queues_once(plan, events.drop_last());
        let before = history(plan, events.drop_last());
        match events.last() {
            CrawlEvent::Audited(page, found) => {
                lemma_tracked(
                    before.crawl.seen,
                    before.queued,
                    page,
                    followed_links(before.crawl, page, found),
                    plan.skip,
                );
            },
            CrawlEvent::Failed => {},
        }
    }
}

/// However a crawl goes, no page is queued whose path is to be skipped.
pub proof fn crawl_skips(plan: CrawlPlan, events: Seq<CrawlEvent>)
    ensures
        forall|i: int|
            0 <= i < history(plan, events).queued.len() ==> !is_skipped(
                (#[trigger] history(plan, events).queued[i]).url,
                plan.skip,
            ),
    decreases events.len(),
{
    let h = history(plan, events);
    if events.len() == 0 {
        let pages = plan.seeds();
        let new = plan.login_admission();
        lemma_seeds(plan.start_url, landing(plan.login), plan.skip);
        if plan.follows_login() {
            following_links(
                url_set(pages),
                root_page(login_page_url(landing(plan.login))),
                views(plan.login->0.findings.links@),
                plan.skip,
            );
        }
        assert forall|i: int| 0 <= i < h.queued.len() implies !is_skipped(
            (#[trigger] h.queued[i]).url,
            plan.skip,
        ) by {
            if i < pages.len() {
                assert(h.queued[i] == pages[i]);
            } else {
                assert(h.queued[i] == new.pages[i - pages.len()]);
            }
        }
    } else {
        crawl_skips(plan, events.drop_last());
        let before = history(plan, events.drop_last());
        match events.last() {
            CrawlEvent::Audited(page, found) => {
                let new = page_admission(before.crawl, page, found, plan.skip);
                following_links(
                    before.crawl.seen,
                    page,
                    followed_links(before.crawl, page, found),
                    plan.skip,
                );
                assert forall|i: int| 0 <= i < h.queued.len() implies !is_skipped(
                    (#[trigger] h.queued[i]).url,
                    plan.skip,
                ) by {
                    if i < before.queued.len() {
                        assert(h.queued[i] == before.queued[i]);
                    } else {
                        assert(h.queued[i] == new.pages[i - before.queued.len()]);
                    }
                }
            },
            CrawlEvent::Failed => {},
        }
    }
}

/// Each audited page was queued before.
pub open spec fn audits_queued(plan: CrawlPlan, events: Seq<CrawlEvent>) -> bool
    decreases events.len(),
{
    events.len() == 0 || {
        &&& audits_queued(plan, events.drop_last())
        &&& match events.last() {
            CrawlEvent::Audited(page, _) => history(
                plan,
                events.drop_last(),
            ).queued.contains(page),
            CrawlEvent::Failed => true,
        }
    }
}

/// A crawl that audits what it queued crawls no URL whose path is to be skipped.
pub proof fn skipped_is_not_crawled(plan: CrawlPlan, events: Seq<CrawlEvent>)
    requires
        audits_queued(plan, events),
    ensures
        forall|i: int|
            0 <= i < history(plan, events).crawl.crawled.len() ==> !is_skipped(
                #[trigger] history(plan, events).crawl.crawled[i],
                plan.skip,
            ),
    decreases events.len(),
{
    if events.len() > 0 {
        skipped_is_not_crawled(plan, events.drop_last());
        let before = history(plan, events.drop_last());
        let h = history(plan, events);
        match events.last() {
            CrawlEvent::Audited(page, _) => {
                crawl_skips(plan, events.drop_last());
                let k = choose|k: int| 0 <= k < before.queued.len() && before.queued[k] == page;
                assert(!is_skipped(before.queued[k].url, plan.skip));
                assert forall|i: int| 0 <= i < h.crawl.crawled.len() implies !is_skipped(
                    #[trigger] h.crawl.crawled[i],
                    plan.skip,
                ) by {
                    if i < before.crawl.crawled.len() {
                        assert(h.crawl.crawled[i] == before.crawl.crawled[i]);
                    }
                }
            },
            CrawlEvent::Failed => {},
        }
    }
}

/// What a crawl reports as crawled has no path that is to be skipped.
pub proof fn skipped_is_not_reported(
    plan: CrawlPlan,
    events: Seq<CrawlEvent>,
    duration_secs: Double,
    r: CrawlResult,
    i: int,
)
    requires
        audits_queued(plan, events),
        is_result(history(plan, events).crawl, duration_secs, r),
        0 <= i < r.stats.crawled_urls.len(),
    ensures
        !is_skipped(r.stats.crawled_urls@[i]@, plan.skip),
{
    skipped_is_not_crawled(plan, events);
    let crawled = history(plan, events).crawl.crawled;
    let urls = views(r.stats.crawled_urls@);
    assert(is_rearrangement(crawled, urls));
    let order = choose|order: Seq<usize>| #[trigger]
        is_listing(order, crawled.len()) && urls == picked(crawled, order);
    assert(urls.len() == r.stats.crawled_urls@.len());
    assert(is_listing(order, crawled.len()));
    assert(order[i] < crawled.len());
    assert(urls[i] == crawled[order[i] as int]);
    assert(urls[i] == r.stats.crawled_urls@[i]@);
}

/// A crawl that audits what it queued queues no page that lies deeper than is visited.
pub proof fn crawl_is_bounded(plan: CrawlPlan, events: Seq<CrawlEvent>)
    requires
        audits_queued(plan, events),
    ensures
        history(plan, events).crawl.max_depth == plan.max_depth,
        forall|i: int|
            0 <= i < history(plan, events).queued.len() ==> (#[trigger] history(
                plan,
                events,
            ).queued[i]).depth <= plan.max_depth,
    decreases events.len(),
{
    let h = history(plan, events);
    if events.len() == 0 {
        let pages = plan.seeds();
        let new = plan.login_admission();
        lemma_seeds(plan.start_url, landing(plan.login), plan.skip);
        if plan.follows_login() {
            following_links(
                url_set(pages),
                root_page(login_page_url(landing(plan.login))),
                views(plan.login->0.findings.links@),
                plan.skip,
            );
        }
        assert forall|i: int| 0 <= i < h.queued.len() implies (#[trigger] h.queued[i]).depth
            <= plan.max_depth by {
            if i < pages.len() {
                assert(h.queued[i] == pages[i]);
            } else {
                assert(h.queued[i] == new.pages[i - pages.len()]);
            }
        }
    } else {
        crawl_is_bounded(plan, events.drop_last());
        let before = history(plan, events.drop_last());
        match events.last() {
            CrawlEvent::Audited(page, found) => {
                let new = page_admission(before.crawl, page, found, plan.skip);
                following_links(
                    before.crawl.seen,
                    page,
                    followed_links(before.crawl, page, found),
                    plan.skip,
                );
                assert forall|i: int| 0 <= i < h.queued.len() implies (#[trigger] h.queued[i]).depth
                    <= plan.max_depth by {
                    if i < before.queued.len() {
                        assert(h.queued[i] == before.queued[i]);
                    } else {
                        assert(h.queued[i] == new.pages[i - before.queued.len()]);
                    }
                }
            },
            CrawlEvent::Failed => {},
        }
    }
}

/// In a crawl that audits what it queued, a page lies as deep as there are actions on the
/// way to it.
pub proof fn depth_counts_actions(plan: CrawlPlan, events: Seq<CrawlEvent>)
    requires
        audits_queued(plan, events),
    ensures
        forall|i: int|
            0 <= i < history(plan, events).queued.len() ==> (#[trigger] history(
                plan,
                events,
            ).queued[i]).depth == history(plan, events).queued[i].action_path.len(),
    decreases events.len(),
{
    let h = history(plan, events);
    let (before, new): (Seq<PageStateView>, Seq<PageStateView>) = if events.len() == 0 {
        (plan.seeds(), plan.login_admission().pages)
    } else {
        let past = history(plan, events.drop_last());
        match events.last() {
            CrawlEvent::Audited(page, found) => (
                past.queued,
                page_admission(past.crawl, page, found, plan.skip).pages,
            ),
            CrawlEvent::Failed => (past.queued, Seq::empty()),
        }
    };
    if events.len() == 0 {
        if plan.follows_login() {
            lemma_actions_follow(
                url_set(plan.seeds()),
                root_page(login_page_url(landing(plan.login))),
                views(plan.login->0.findings.links@),
                plan.skip,
            );
        }
    } else {
        let past = history(plan, events.drop_last());
        depth_counts_actions(plan, events.drop_last());
        crawl_is_bounded(plan, events.drop_last());
        if let CrawlEvent::Audited(page, found) = events.last() {
            let k = choose|k: int| 0 <= k < past.queued.len() && past.queued[k] == page;
            assert(past.queued[k].depth == page.action_path.len());
            if page.depth < past.crawl.max_depth {
                lemma_actions_follow(past.crawl.seen, page, views(found.links@), plan.skip);
            }
        }
    }
    assert(h.queued =~= before + new);
    assert forall|i: int| 0 <= i < h.queued.len() implies (#[trigger] h.queued[i]).depth
        == h.queued[i].action_path.len() by {
        if i < before.len() {
            assert(h.queued[i] == before[i]);
        } else {
            assert(h.queued[i] == new[i - before.len()]);
        }
    }
}

/// The pages that links lead to are one action farther than the page with the links.
proof fn lemma_actions_follow(
    seen: Set<Seq<char>>,
    from: PageStateView,
    links: Seq<Seq<char>>,
    skip: Seq<Seq<char>>,
)
    requires
        from.depth == from.action_path.len(),
        from.depth < usize::MAX,
    ensures
        forall|i: int|
            0 <= i < admission(seen, from, links, skip).pages.len() ==> (#[trigger] admission(
                seen,
                from,
                links,
                skip,
            ).pages[i]).depth == admission(seen, from, links, skip).pages[i].action_path.len(),
    decreases links.len(),
{
    if links.len() > 0 {
        let new = admission(seen, from, links, skip);
        let before = admission(seen, from, links.drop_last(), skip);
        lemma_actions_follow(seen, from, links.drop_last(), skip);
        assert forall|i: int| 0 <= i < new.pages.len() implies (#[trigger] new.pages[i]).depth
            == new.pages[i].action_path.len() by {
            if i < before.pages.len() {
                assert(new.pages[i] == before.pages[i]);
            }
        }
    }
}

/// How many of the events were audits.
pub open spec fn audits(events: Seq<CrawlEvent>) -> nat
    decreases events.len(),
{
    if events.len() == 0 {
        0
    } else {
        audits(events.drop_last()) + if events.last() is Audited {
            1nat
        } else {
            0
        }
    }
}

/// However a crawl goes, its counts agree: it visited as many pages as were audited, it holds
/// the measurements of each of them and of the login page, if there was one, and it lists each
/// of them as crawled, and the landing page too unless that is not to be visited.
pub proof fn crawl_counts_agree(plan: CrawlPlan, events: Seq<CrawlEvent>)
    ensures
        ({
            let crawl = history(plan, events).crawl;
            let login: nat = if plan.login is Some {
                1
            } else {
                0
            };
            &&& crawl.pages_visited == audits(events)
            &&& crawl.perf.len() == audits(events) + login
            &&& crawl.network.len() == audits(events) + login
            &&& crawl.interactions.len() == audits(events) + login
            &&& crawl.crawled.len() == audits(events) + if plan.login is Some && !is_barred(
                login_page_url(landing(plan.login)),
                plan.skip,
            ) {
                1nat
            } else {
                0
            }
        }),
    decreases events.len(),
{
    if events.len() > 0 {
        crawl_counts_agree(plan, events.drop_last());
    }
}

/// Every URL that was crawled is among those discovered.
pub proof fn discovered_has_crawled(crawl: CrawlView, duration_secs: Double, r: CrawlResult, t: Seq<char>)
    requires
        is_result(crawl, duration_secs, r),
        views(r.stats.crawled_urls@).contains(t),
    ensures
        views(r.discovered_urls@).contains(t),
{
    let sorted_urls = views(r.stats.crawled_urls@);
    let order = choose|order: Seq<usize>| #[trigger]
        is_listing(order, crawl.crawled.len()) && sorted_urls == picked(crawl.crawled, order);
    let k = choose|k: int| 0 <= k < sorted_urls.len() && sorted_urls[k] == t;
    assert(crawl.crawled[order[k] as int] == t);
}

/// What is said where a crawl cannot start.
pub fn start_error(error: &StartError, start_url: &str) -> (r: String)
    ensures
        r@ == match error@ {
            StartErrorView::InvalidUrl(why) => why,
            StartErrorView::NoHost => "Start URL has no host: "@ + start_url@,
        },
{
    match error {
        StartError::InvalidUrl(why) => why.clone(),
        StartError::NoHost => {
            let mut s = "Start URL has no host: ".to_string();
            s.append(start_url);
            s
        },
    }
}

/// What is said at the end of a crawl.
pub open spec fn crawl_note(pages: nat, elements: nat, issues: nat) -> Seq<char> {
    "Crawled "@ + numeral(pages) + " page"@ + plural(pages) + "  │  "@ + numeral(elements)
        + " interactive element"@ + plural(elements) + "  │  "@ + numeral(issues) + " issue"@
        + plural(issues)
}

/// What is said at the end of a crawl.
pub fn crawl_summary(result: &CrawlResult) -> (r: String)
    ensures
        r@ == crawl_note(
            result.stats.pages_visited as nat,
            result.stats.elements_interacted as nat,
            result.issues.len() as nat,
        ),
{
    let pages: u64 = result.stats.pages_visited as u64;
    let elements: u64 = result.stats.elements_interacted as u64;
    let issues: u64 = result.issues.len() as u64;
    let mut s = "Crawled ".to_string();
    let a = decimal(pages);
    s.append(a.as_str());
    s.append(" page");
    s.append(plural_ending(pages));
    s.append("  │  ");
    let b = decimal(elements);
    s.append(b.as_str());
    s.append(" interactive element");
    s.append(plural_ending(elements));
    s.append("  │  ");
    let c = decimal(issues);
    s.append(c.as_str());
    s.append(" issue");
    s.append(plural_ending(issues));
    s
}

/// A path is skipped exactly if one of the paths to skip is the path itself, or its beginning
/// up to a slash; a link is skipped exactly if it is a URL whose path is.
pub proof fn skipping_goes_by_path(path: Seq<char>, link: Seq<char>, skip: Seq<Seq<char>>)
    ensures
        is_skipped_path(path, skip) <==> exists|i: int|
            #![trigger skip[i]]
            0 <= i < skip.len() && (path == skip[i] || (path.len() > skip[i].len()
                && path[skip[i].len() as int] == '/' && path.take(skip[i].len() as int)
                == skip[i])),
        parsed_url(link) is Err ==> !is_skipped(link, skip),
        parsed_url(link) is Ok ==> is_skipped(link, skip) == is_skipped_path(
            parsed_url(link)->Ok_0.path,
            skip,
        ),
{
    reveal_strlit("/");
    assert("/"@.len() == 1 && "/"@[0] == '/');
    if is_skipped_path(path, skip) {
        let i = choose|i: int| 0 <= i < skip.len() && #[trigger] lies_under(path, skip[i]);
        if path != skip[i] {
            let below = skip[i] + "/"@;
            assert(path.subrange(0, below.len() as int) == below);
            assert(path[skip[i].len() as int] == below[skip[i].len() as int]);
            assert(path.take(skip[i].len() as int) =~= skip[i]) by {
                assert forall|k: int| 0 <= k < skip[i].len() implies path[k] == skip[i][k] by {
                    assert(path.subrange(0, below.len() as int)[k] == below[k]);
                }
            }
        }
        assert(0 <= i < skip.len());
    }
    if exists|i: int|
        #![trigger skip[i]]
        0 <= i < skip.len() && (path == skip[i] || (path.len() > skip[i].len()
            && path[skip[i].len() as int] == '/' && path.take(skip[i].len() as int) == skip[i])) {
        let i = choose|i: int|
            #![trigger skip[i]]
            0 <= i < skip.len() && (path == skip[i] || (path.len() > skip[i].len()
                && path[skip[i].len() as int] == '/' && path.take(skip[i].len() as int)
                == skip[i]));
        if path != skip[i] {
            let below = skip[i] + "/"@;
            assert forall|k: int| 0 <= k < below.len() implies path[k] == below[k] by {
                if k < skip[i].len() {
                    assert(path.take(skip[i].len() as int)[k] == skip[i][k]);
                }
            }
            assert(path.subrange(0, below.len() as int) =~= below);
        }
        assert(lies_under(path, skip[i]));
    }
}

/// A URL is barred exactly if it is skipped as it is written or in its normal form.
pub proof fn barring_goes_by_both_forms(url: Seq<char>, skip: Seq<Seq<char>>)
    ensures
        is_barred(url, skip) <==> is_skipped(url, skip) || is_skipped(normal_url(url), skip),
{
}

/// One link that is not to be skipped and leads to a page that was not seen adds this page,
/// one step deeper; any other link adds nothing. A list of links adds what its first part
/// adds, and then what the rest adds to that.
pub proof fn links_add_pages_in_order(
    seen: Set<Seq<char>>,
    from: PageStateView,
    link: Seq<char>,
    a: Seq<Seq<char>>,
    b: Seq<Seq<char>>,
    skip: Seq<Seq<char>>,
)
    requires
        from.depth < usize::MAX,
    ensures
        ({
            let one = admission(seen, from, seq![link], skip);
            let url = normal_url(link);
            if is_skipped(link, skip) || is_skipped(url, skip) || seen.contains(url) {
                one.pages.len() == 0 && one.seen == seen
            } else {
                &&& one.pages.len() == 1
                &&& one.pages[0].url == url
                &&& one.pages[0].depth == from.depth + 1
                &&& one.pages[0].action_path == from.action_path.push("link"@)
                &&& one.seen == seen.insert(url)
            }
        }),
        admission(seen, from, Seq::empty(), skip).pages.len() == 0,
        admission(seen, from, Seq::empty(), skip).seen == seen,
        ({
            let first = admission(seen, from, a, skip);
            let then = admission(first.seen, from, b, skip);
            let both = admission(seen, from, a + b, skip);
            both.pages == first.pages + then.pages && both.seen == then.seen
        }),
    decreases b.len(),
{
    assert(seq![link].drop_last() =~= Seq::<Seq<char>>::empty());
    assert(seq![link].last() == link);
    assert(admission(seen, from, seq![link].drop_last(), skip) == (Admission {
        seen,
        pages: Seq::empty(),
    }));
    assert(admission(seen, from, seq![link], skip).pages.len() <= 1);
    let first = admission(seen, from, a, skip);
    if b.len() == 0 {
        assert(a + b =~= a);
        assert(first.pages + Seq::<PageStateView>::empty() =~= first.pages);
    } else {
        links_add_pages_in_order(seen, from, link, a, b.drop_last(), skip);
        assert((a + b).drop_last() =~= a + b.drop_last());
        assert((a + b).last() == b.last());
        let then = admission(first.seen, from, b, skip);
        let both = admission(seen, from, a + b, skip);
        assert(both.pages =~= first.pages + then.pages);
    }
}

/// What links add: each link that is not to be skipped leads to a page that was seen before or
/// is added, and each page that is added is where such a link leads.
proof fn lemma_links_and_pages(
    seen: Set<Seq<char>>,
    from: PageStateView,
    links: Seq<Seq<char>>,
    skip: Seq<Seq<char>>,
)
    requires
        from.depth < usize::MAX,
    ensures
        ({
            let new = admission(seen, from, links, skip);
            &&& forall|i: int|
                #![trigger links[i]]
                0 <= i < links.len() && !is_skipped(links[i], skip) && !is_skipped(
                    normal_url(links[i]),
                    skip,
                ) ==> new.seen.contains(normal_url(links[i]))
            &&& forall|t: Seq<char>| #[trigger]
                new.seen.contains(t) ==> seen.contains(t) || exists|k: int|
                    0 <= k < new.pages.len() && (#[trigger] new.pages[k]).url == t
            &&& forall|k: int|
                #![trigger new.pages[k]]
                0 <= k < new.pages.len() ==> {
                    &&& new.pages[k].depth == from.depth + 1
                    &&& new.pages[k].action_path == from.action_path.push("link"@)
                    &&& !seen.contains(new.pages[k].url)
                    &&& exists|i: int|
                        0 <= i < links.len() && !is_skipped(#[trigger] links[i], skip)
                            && !is_skipped(normal_url(links[i]), skip) && new.pages[k].url
                            == normal_url(links[i])
                }
        }),
    decreases links.len(),
{
    if links.len() > 0 {
        let front = links.drop_last();
        lemma_links_and_pages(seen, from, front, skip);
        let before = admission(seen, from, front, skip);
        let new = admission(seen, from, links, skip);
        let page = child_page(from, links.last(), "link"@);
        following_links(seen, from, front, skip);
        assert forall|i: int|
            #![trigger links[i]]
            0 <= i < links.len() && !is_skipped(links[i], skip) && !is_skipped(
                normal_url(links[i]),
                skip,
            ) implies new.seen.contains(normal_url(links[i])) by {
            if i < front.len() {
                assert(front[i] == links[i]);
            }
        }
        assert forall|t: Seq<char>| #[trigger] new.seen.contains(t) implies seen.contains(t)
            || exists|k: int| 0 <= k < new.pages.len() && (#[trigger] new.pages[k]).url == t by {
            if before.seen.contains(t) {
                if !seen.contains(t) {
                    let k = choose|k: int|
                        0 <= k < before.pages.len() && (#[trigger] before.pages[k]).url == t;
                    assert(new.pages[k].url == t);
                }
            } else {
                assert(new.pages[before.pages.len() as int].url == t);
            }
        }
        assert forall|k: int|
            #![trigger new.pages[k]]
            0 <= k < new.pages.len() implies {
            &&& new.pages[k].depth == from.depth + 1
            &&& new.pages[k].action_path == from.action_path.push("link"@)
            &&& !seen.contains(new.pages[k].url)
            &&& exists|i: int|
                0 <= i < links.len() && !is_skipped(#[trigger] links[i], skip) && !is_skipped(
                    normal_url(links[i]),
                    skip,
                ) && new.pages[k].url == normal_url(links[i])
        } by {
            if k < before.pages.len() {
                assert(new.pages[k] == before.pages[k]);
                let i = choose|i: int|
                    0 <= i < front.len() && !is_skipped(#[trigger] front[i], skip) && !is_skipped(
                        normal_url(front[i]),
                        skip,
                    ) && before.pages[k].url == normal_url(front[i]);
                assert(links[i] == front[i]);
            } else {
                assert(new.pages[k] == page);
                assert(links[links.len() - 1] == links.last());
            }
        }
    }
}

/// Every link of an audited page above the greatest depth is followed: unless it is to be
/// skipped, the page that it leads to was seen before, or it is queued now, one step deeper,
/// and listed as discovered. Nothing else is queued, and nothing at all from a page at the
/// greatest depth.
pub proof fn every_link_is_followed(
    crawl: CrawlView,
    page: PageStateView,
    found: PageFindings,
    skip: Seq<Seq<char>>,
)
    ensures
        ({
            let after = after_audit(crawl, page, found, skip);
            let new = page_admission(crawl, page, found, skip).pages;
            &&& page.depth < crawl.max_depth ==> forall|i: int|
                #![trigger found.links@[i]]
                0 <= i < found.links@.len() && !is_skipped(found.links@[i]@, skip) && !is_skipped(
                    normal_url(found.links@[i]@),
                    skip,
                ) ==> {
                    let url = normal_url(found.links@[i]@);
                    &&& after.seen.contains(url)
                    &&& crawl.seen.contains(url) || after.discovered.contains(url)
                    &&& crawl.seen.contains(url) || exists|k: int|
                        0 <= k < new.len() && (#[trigger] new[k]).url == url
                }
            &&& forall|k: int|
                #![trigger new[k]]
                0 <= k < new.len() ==> {
                    &&& page.depth < crawl.max_depth
                    &&& new[k].depth == page.depth + 1
                    &&& new[k].action_path == page.action_path.push("link"@)
                    &&& !crawl.seen.contains(new[k].url)
                    &&& exists|i: int|
                        0 <= i < found.links@.len() && new[k].url == normal_url(
                            (#[trigger] found.links@[i])@,
                        )
                }
            &&& page.depth >= crawl.max_depth ==> new.len() == 0 && after.seen == crawl.seen
                && after.discovered == crawl.discovered
        }),
{
    let after = after_audit(crawl, page, found, skip);
    let new = page_admission(crawl, page, found, skip).pages;
    let links = views(found.links@);
    if page.depth < crawl.max_depth {
        lemma_links_and_pages(crawl.seen, page, links, skip);
        assert forall|i: int|
            #![trigger found.links@[i]]
            0 <= i < found.links@.len() && !is_skipped(found.links@[i]@, skip) && !is_skipped(
                normal_url(found.links@[i]@),
                skip,
            ) implies {
            let url = normal_url(found.links@[i]@);
            &&& after.seen.contains(url)
            &&& crawl.seen.contains(url) || after.discovered.contains(url)
            &&& crawl.seen.contains(url) || exists|k: int|
                0 <= k < new.len() && (#[trigger] new[k]).url == url
        } by {
            let url = normal_url(found.links@[i]@);
            assert(links[i] == found.links@[i]@);
            if !crawl.seen.contains(url) {
                let k = choose|k: int| 0 <= k < new.len() && (#[trigger] new[k]).url == url;
                assert(after.discovered[crawl.discovered.len() + k] == url);
            }
        }
        assert forall|k: int|
            #![trigger new[k]]
            0 <= k < new.len() implies {
            &&& page.depth < crawl.max_depth
            &&& new[k].depth == page.depth + 1
            &&& new[k].action_path == page.action_path.push("link"@)
            &&& !crawl.seen.contains(new[k].url)
            &&& exists|i: int|
                0 <= i < found.links@.len() && new[k].url == normal_url(
                    (#[trigger] found.links@[i])@,
                )
        } by {
            let i = choose|i: int|
                0 <= i < links.len() && !is_skipped(#[trigger] links[i], skip) && !is_skipped(
                    normal_url(links[i]),
                    skip,
                ) && new[k].url == normal_url(links[i]);
            assert(found.links@[i]@ == links[i]);
        }
    } else {
        assert(after.discovered =~= crawl.discovered);
    }
}

/// An audit adds what was found to what the crawl has, keeps the rest as it is, and takes one
/// page off those pending for each one it adds. A page that could not be audited is only taken
/// off.
pub proof fn audit_takes_findings_in(
    crawl: CrawlView,
    page: PageStateView,
    found: PageFindings,
    skip: Seq<Seq<char>>,
)
    ensures
        ({
            let after = after_audit(crawl, page, found, skip);
            let new = page_admission(crawl, page, found, skip).pages;
            &&& after.pending == crawl.pending - 1 + new.len()
            &&& after.pages_visited == crawl.pages_visited + 1
            &&& after.max_depth == crawl.max_depth
            &&& after.issues.len() == crawl.issues.len() + found.issues@.len()
            &&& after.issues.take(crawl.issues.len() as int) == crawl.issues
            &&& forall|i: int|
                0 <= i < found.issues@.len() ==> after.issues[crawl.issues.len() + i] == (
                #[trigger] found.issues@[i])@
            &&& after.perf.len() == crawl.perf.len() + 1 && after.perf.last() == found.perf
                && after.perf.drop_last() == crawl.perf
            &&& after.network.len() == crawl.network.len() + 1 && after.network.last()
                == found.network && after.network.drop_last() == crawl.network
            &&& after.interactions.len() == crawl.interactions.len() + 1
                && after.interactions.last() == found.interactions@
                && after.interactions.drop_last() == crawl.interactions
            &&& after.crawled.len() == crawl.crawled.len() + 1 && after.crawled.last() == page.url
                && after.crawled.drop_last() == crawl.crawled
            &&& after.discovered.len() == crawl.discovered.len() + new.len()
            &&& after.discovered.take(crawl.discovered.len() as int) == crawl.discovered
            &&& forall|k: int|
                0 <= k < new.len() ==> after.discovered[crawl.discovered.len() + k] == (
                #[trigger] new[k]).url
        }),
        after_failure(crawl) == (CrawlView { pending: crawl.pending - 1, ..crawl }),
{
    let after = after_audit(crawl, page, found, skip);
    let new = page_admission(crawl, page, found, skip).pages;
    assert(after.issues.take(crawl.issues.len() as int) =~= crawl.issues);
    assert(after.perf.drop_last() =~= crawl.perf);
    assert(after.network.drop_last() =~= crawl.network);
    assert(after.interactions.drop_last() =~= crawl.interactions);
    assert(after.crawled.drop_last() =~= crawl.crawled);
    assert(after.discovered.take(crawl.discovered.len() as int) =~= crawl.discovered);
    assert forall|i: int| 0 <= i < found.issues@.len() implies after.issues[crawl.issues.len() + i]
        == (#[trigger] found.issues@[i])@ by {
        assert(issue_views(found.issues@)[i] == found.issues@[i]@);
    }
    assert forall|k: int| 0 <= k < new.len() implies after.discovered[crawl.discovered.len() + k]
        == (#[trigger] new[k]).url by {
        assert(page_urls(new)[k] == new[k].url);
    }
}

/// However a crawl goes, it reaches every page that it finds a link to: each link of a page
/// that was audited above the greatest depth leads to a page that is queued, unless the link
/// is to be skipped.
pub proof fn crawl_reaches_every_link(plan: CrawlPlan, events: Seq<CrawlEvent>, n: int, i: int)
    requires
        0 <= n < events.len(),
        events[n] is Audited,
        0 <= i < events[n]->Audited_1.links@.len(),
    ensures
        ({
            let link = events[n]->Audited_1.links@[i]@;
            events[n]->Audited_0.depth < plan.max_depth && !is_skipped(link, plan.skip)
                && !is_skipped(normal_url(link), plan.skip) ==> exists|k: int|
                0 <= k < history(plan, events).queued.len() && (#[trigger] history(
                    plan,
                    events,
                ).queued[k]).url == normal_url(link)
        }),
    decreases events.len(),
{
    let link = events[n]->Audited_1.links@[i]@;
    let page = events[n]->Audited_0;
    let found = events[n]->Audited_1;
    let front = events.drop_last();
    let past = history(plan, front);
    let h = history(plan, events);
    if page.depth < plan.max_depth && !is_skipped(link, plan.skip) && !is_skipped(
        normal_url(link),
        plan.skip,
    ) {
        lemma_depth_stays(plan, front);
        if n == events.len() - 1 {
            every_link_is_followed(past.crawl, page, found, plan.skip);
            crawl_queues_once(plan, front);
            let new = page_admission(past.crawl, page, found, plan.skip).pages;
            let url = normal_url(found.links@[i]@);
            if past.crawl.seen.contains(url) {
                assert(page_urls(past.queued).contains(url));
                let k = choose|k: int|
                    0 <= k < page_urls(past.queued).len() && page_urls(past.queued)[k] == url;
                assert(h.queued[k] == past.queued[k]);
            } else {
                let k = choose|k: int| 0 <= k < new.len() && (#[trigger] new[k]).url == url;
                assert(h.queued[past.queued.len() + k] == new[k]);
            }
        } else {
            assert(front[n] == events[n]);
            crawl_reaches_every_link(plan, front, n, i);
            let k = choose|k: int|
                0 <= k < past.queued.len() && (#[trigger] past.queued[k]).url == normal_url(link);
            assert(h.queued[k] == past.queued[k]);
        }
    }
}

/// The greatest depth of a crawl stays as it is.
proof fn lemma_depth_stays(plan: CrawlPlan, events: Seq<CrawlEvent>)
    ensures
        history(plan, events).crawl.max_depth == plan.max_depth,
    decreases events.len(),
{
    if events.len() > 0 {
        lemma_depth_stays(plan, events.drop_last());
    }
}

/// A crawl starts with its start page, first and at the top, and then with the page on which
/// the browser landed, unless these are to be skipped; where links are followed, each link of
/// the login page leads to a page that is queued, unless it is to be skipped. A crawl starts
/// with nothing else, and all that it starts with is pending.
pub proof fn crawl_starts_with_its_pages(plan: CrawlPlan)
    ensures
        ({
            let first = plan.first_pages();
            let start = normal_url(plan.start_url);
            let barred = is_skipped(plan.start_url, plan.skip) || is_skipped(start, plan.skip);
            &&& plan.start().pending == first.len()
            &&& plan.start().max_depth == plan.max_depth
            &&& plan.start().pages_visited == 0
            &&& !barred ==> first.len() > 0 && first[0].url == start && first[0].depth == 0
                && first[0].action_path.len() == 0
            &&& plan.login is None ==> first.len() == (if barred {
                0int
            } else {
                1
            })
            &&& plan.login is Some && plan.login->0.landed is Some ==> {
                let found = plan.login->0.findings;
                let u = plan.login->0.landed->0@;
                &&& without_trailing(u, '/') != without_trailing(plan.start_url, '/') && normal_url(
                    u,
                ) != start && !is_skipped(u, plan.skip) && !is_skipped(normal_url(u), plan.skip)
                    ==> exists|k: int|
                    0 <= k < first.len() && (#[trigger] first[k]).url == normal_url(u)
                        && first[k].depth == 0
                &&& parsed_url(u) is Ok && plan.max_depth > 0 ==> forall|i: int|
                    #![trigger found.links@[i]]
                    0 <= i < found.links@.len() && !is_skipped(found.links@[i]@, plan.skip)
                        && !is_skipped(normal_url(found.links@[i]@), plan.skip) ==> {
                        &&& plan.start().discovered.contains(found.links@[i]@)
                        &&& exists|k: int|
                            0 <= k < first.len() && (#[trigger] first[k]).url == normal_url(
                                found.links@[i]@,
                            )
                    }
            }
        }),
{
    let seeds = plan.seeds();
    let new = plan.login_admission().pages;
    let first = plan.first_pages();
    let start = normal_url(plan.start_url);
    assert(first == seeds + new);
    if !is_barred(plan.start_url, plan.skip) {
        assert(seed(plan.start_url, plan.skip)[0] == root_page(plan.start_url));
        assert(first[0] == root_page(plan.start_url));
    }
    if plan.login is Some && plan.login->0.landed is Some {
        let u = plan.login->0.landed->0@;
        if without_trailing(u, '/') != without_trailing(plan.start_url, '/') && normal_url(u)
            != start && !is_barred(u, plan.skip) {
            let k = seed(plan.start_url, plan.skip).len() as int;
            assert(seeds[k] == root_page(u));
            assert(first[k] == root_page(u));
        }
        let found = plan.login->0.findings;
        let links = views(found.links@);
        if parsed_url(u) is Ok && plan.max_depth > 0 {
            lemma_links_and_pages(url_set(seeds), root_page(u), links, plan.skip);
            assert forall|i: int|
                #![trigger found.links@[i]]
                0 <= i < found.links@.len() && !is_skipped(found.links@[i]@, plan.skip)
                    && !is_skipped(normal_url(found.links@[i]@), plan.skip) implies {
                &&& plan.start().discovered.contains(found.links@[i]@)
                &&& exists|k: int|
                    0 <= k < first.len() && (#[trigger] first[k]).url == normal_url(
                        found.links@[i]@,
                    )
            } by {
                assert(links[i] == found.links@[i]@);
                lemma_kept(links, plan.skip, i);
                let url = normal_url(links[i]);
                if url_set(seeds).contains(url) {
                    let k = choose|k: int|
                        0 <= k < page_urls(seeds).len() && page_urls(seeds)[k] == url;
                    assert(first[k] == seeds[k]);
                } else {
                    let k = choose|k: int| 0 <= k < new.len() && (#[trigger] new[k]).url == url;
                    assert(first[seeds.len() + k] == new[k]);
                }
            }
        }
    }
}

/// A link that is not to be skipped is kept.
proof fn lemma_kept(links: Seq<Seq<char>>, skip: Seq<Seq<char>>, i: int)
    requires
        0 <= i < links.len(),
        !is_barred(links[i], skip),
    ensures
        kept_links(links, skip).contains(links[i]),
    decreases links.len(),
{
    let kept = kept_links(links, skip);
    if i == links.len() - 1 {
        assert(kept[kept.len() - 1] == links[i]);
    } else {
        let before = kept_links(links.drop_last(), skip);
        assert(links.drop_last()[i] == links[i]);
        lemma_kept(links.drop_last(), skip, i);
        let k = choose|k: int| 0 <= k < before.len() && before[k] == links[i];
        assert(kept[k] == links[i]);
    }
}

/// A crawl that starts with a login has what was found on the login page and nothing else; one
/// without has nothing yet.
pub proof fn login_findings_are_kept(plan: CrawlPlan)
    ensures
        match plan.login {
            Some(l) => {
                &&& plan.start().issues.len() == l.findings.issues@.len()
                &&& forall|i: int|
                    0 <= i < l.findings.issues@.len() ==> plan.start().issues[i] == (
                    #[trigger] l.findings.issues@[i])@
                &&& plan.start().perf == seq![l.findings.perf]
                &&& plan.start().network == seq![l.findings.network]
                &&& plan.start().interactions == seq![l.findings.interactions@]
                &&& l.landed is Some && !is_skipped(l.landed->0@, plan.skip) && !is_skipped(
                    normal_url(l.landed->0@),
                    plan.skip,
                ) ==> plan.start().crawled == seq![l.landed->0@]
            },
            None => {
                &&& plan.start().issues.len() == 0
                &&& plan.start().perf.len() == 0
                &&& plan.start().network.len() == 0
                &&& plan.start().interactions.len() == 0
                &&& plan.start().crawled.len() == 0
                &&& plan.start().discovered.len() == 0
            },
        },
{
}

/// The elements of two lists of pages are those of the first and those of the second; a single
/// page has those that were found on it.
pub proof fn element_totals_add_up(a: Seq<InteractionsView>, b: Seq<InteractionsView>, page: InteractionsView)
    ensures
        element_total(a + b) == element_total(a) + element_total(b),
        element_total(seq![page]) == page.elements_found,
    decreases b.len(),
{
    assert(seq![page].drop_last() =~= Seq::<InteractionsView>::empty());
    assert(element_total(Seq::<InteractionsView>::empty()) == 0);
    if b.len() == 0 {
        assert(a + b =~= a);
    } else {
        element_totals_add_up(a, b.drop_last(), page);
        assert((a + b).drop_last() =~= a + b.drop_last());
        assert((a + b).last() == b.last());
    }
}

/// The result of a crawl holds every issue, measurement and URL that the crawl has, and no
/// other.
pub proof fn result_holds_the_crawl(crawl: CrawlView, duration_secs: Double, r: CrawlResult)
    requires
        is_result(crawl, duration_secs, r),
    ensures
        r.issues@.len() == crawl.issues.len(),
        forall|i: int| 0 <= i < r.issues@.len() ==> (#[trigger] r.issues@[i])@ == crawl.issues[i],
        r.perf_metrics@ == crawl.perf,
        r.network_stats@ == crawl.network,
        r.stats.pages_visited == crawl.pages_visited,
        r.stats.duration_secs == duration_secs,
        r.stats.elements_interacted == element_total(crawl.interactions),
        r.stats.crawled_urls@.len() == crawl.crawled.len(),
        forall|t: Seq<char>| #[trigger]
            views(r.stats.crawled_urls@).contains(t) == crawl.crawled.contains(t),
        forall|t: Seq<char>| #[trigger]
            views(r.discovered_urls@).contains(t) == (crawl.discovered.contains(t)
                || crawl.crawled.contains(t)),
        r.interactions@.len() == crawl.interactions.len(),
        forall|p: InteractionsView| #[trigger]
            interaction_views(r.interactions@).contains(p) == crawl.interactions.contains(p),
{
    assert forall|i: int| 0 <= i < r.issues@.len() implies (#[trigger] r.issues@[i])@
        == crawl.issues[i] by {
        assert(issue_views(r.issues@)[i] == r.issues@[i]@);
    }
    let urls = views(r.stats.crawled_urls@);
    assert(is_rearrangement(crawl.crawled, urls));
    let a = choose|order: Seq<usize>| #[trigger]
        is_listing(order, crawl.crawled.len()) && urls == picked(crawl.crawled, order);
    lemma_picked_same(crawl.crawled, a);
    let pages = interaction_views(r.interactions@);
    assert(is_sorted_by_url(crawl.interactions, pages));
    let b = choose|order: Seq<usize>| #[trigger]
        is_url_order(crawl.interactions, order) && pages == picked(crawl.interactions, order);
    assert(is_listing(b, crawl.interactions.len()));
    lemma_picked_same(crawl.interactions, b);
}

/// What a listing picks is what there is.
proof fn lemma_picked_same<A>(s: Seq<A>, order: Seq<usize>)
    requires
        is_listing(order, s.len()),
    ensures
        picked(s, order).len() == s.len(),
        forall|t: A| #[trigger] picked(s, order).contains(t) == s.contains(t),
{
    let p = picked(s, order);
    crate::order::lemma_listing_fits(order, s.len());
    assert forall|t: A| #[trigger] p.contains(t) == s.contains(t) by {
        if p.contains(t) {
            let k = choose|k: int| 0 <= k < p.len() && p[k] == t;
            assert(s[order[k] as int] == t);
        }
        if s.contains(t) {
            let k = choose|k: int| 0 <= k < s.len() && s[k] == t;
            assert(order.contains(k as usize));
            let m = choose|m: int| 0 <= m < order.len() && order[m] == k as usize;
            assert(p[m] == t);
        }
    }
}

/// A start URL has a host exactly if it is a URL with a host that is not empty; a text that is
/// no URL is refused with what is said of it.
pub proof fn start_needs_a_host(parts: Result<UrlView, Seq<char>>)
    ensures
        match parts {
            Err(why) => start_host(parts) == Err::<Seq<char>, StartErrorView>(
                StartErrorView::InvalidUrl(why),
            ),
            Ok(u) => {
                &&& u.host is Some && u.host->0.len() > 0 ==> start_host(parts) == Ok::<
                    Seq<char>,
                    StartErrorView,
                >(u.host->0)
                &&& u.host is None || u.host->0.len() == 0 ==> start_host(parts) == Err::<
                    Seq<char>,
                    StartErrorView,
                >(StartErrorView::NoHost)
            },
        },
{
}

/// The contents of a crawl are all that its fields hold.
pub proof fn crawl_is_what_it_holds(crawl: Crawl)
    ensures
        crawl@.seen == crawl.seen@,
        crawl@.max_depth == crawl.max_depth,
        crawl@.pending == crawl.pending,
        crawl@.pages_visited == crawl.pages_visited,
        crawl@.issues.len() == crawl.issues@.len(),
        forall|i: int| 0 <= i < crawl.issues@.len() ==> #[trigger] crawl@.issues[i]
            == crawl.issues@[i]@,
        crawl@.perf == crawl.perf@,
        crawl@.network == crawl.network@,
        crawl@.crawled.len() == crawl.crawled@.len(),
        forall|i: int| 0 <= i < crawl.crawled@.len() ==> #[trigger] crawl@.crawled[i]
            == crawl.crawled@[i]@,
        crawl@.discovered.len() == crawl.discovered@.len(),
        forall|i: int| 0 <= i < crawl.discovered@.len() ==> #[trigger] crawl@.discovered[i]
            == crawl.discovered@[i]@,
        crawl@.interactions.len() == crawl.interactions@.len(),
        forall|i: int| 0 <= i < crawl.interactions@.len() ==> #[trigger] crawl@.interactions[i]
            == crawl.interactions@[i]@,
{
}

/// The contents of a list of pages are those of each of them, in order.
pub proof fn pages_are_listed_in_order(list: Seq<PageState>)
    ensures
        page_views(list).len() == list.len(),
        forall|i: int| 0 <= i < list.len() ==> #[trigger] page_views(list)[i] == list[i]@,
{
}

/// The URLs of a result are sorted, those discovered without repetition, and its pages are
/// sorted by URL.
pub proof fn result_is_sorted(crawl: CrawlView, duration_secs: Double, r: CrawlResult, i: int, j: int)
    requires
        is_result(crawl, duration_secs, r),
        0 <= i < j,
    ensures
        j < r.stats.crawled_urls@.len() ==> crate::order::text_le(
            r.stats.crawled_urls@[i]@,
            r.stats.crawled_urls@[j]@,
        ),
        j < r.discovered_urls@.len() ==> crate::order::text_le(
            r.discovered_urls@[i]@,
            r.discovered_urls@[j]@,
        ) && r.discovered_urls@[i]@ != r.discovered_urls@[j]@,
        j < r.interactions@.len() ==> crate::order::text_le(
            r.interactions@[i]@.page_url,
            r.interactions@[j]@.page_url,
        ),
{
    let urls = views(r.stats.crawled_urls@);
    let found = views(r.discovered_urls@);
    if j < urls.len() {
        crate::order::sorted_lists_are_in_order(urls, i, j);
    }
    if j < found.len() {
        crate::order::sorted_lists_are_in_order(found, i, j);
    }
    let pages = interaction_views(r.interactions@);
    if j < pages.len() {
        let order = choose|order: Seq<usize>| #[trigger]
            is_url_order(crawl.interactions, order) && pages == picked(crawl.interactions, order);
        assert(url_before(crawl.interactions, order[i], order[j]));
        assert(pages[i] == r.interactions@[i]@ && pages[j] == r.interactions@[j]@);
    }
}

/// What is said at the end of a crawl has its numbers, and each word in the right number.
pub proof fn end_of_a_crawl_is_told(pages: nat, elements: nat, issues: nat)
    ensures
        crawl_note(pages, elements, issues) == "Crawled "@ + numeral(pages) + " page"@ + (
        if pages == 1 {
            ""@
        } else {
            "s"@
        }) + "  │  "@ + numeral(elements) + " interactive element"@ + (if elements == 1 {
            ""@
        } else {
            "s"@
        }) + "  │  "@ + numeral(issues) + " issue"@ + (if issues == 1 {
            ""@
        } else {
            "s"@
        }),
{
}

} // verus!
