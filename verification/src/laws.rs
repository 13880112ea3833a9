//! What the operations of the library do, stated of their calls.

use vstd::prelude::*;

use crate::auth::{
    answer, answers_are_taken, confirms, edited, edited_secret, parse_count, pick_profile,
    profile_holds_what_was_given, profile_is_used_for_gaps, profile_name, refresh_profile,
    refresh_takes_what_is_given, refreshed, save_profile, says_yes, secret,
    settings_are_what_they_hold, AuthConfig, CookieEntry,
};
use crate::cdp::{
    attachment_is_what_it_holds, clear_script, click_script, cookie_pairs, cookies_in,
    element_sources, elements_are_given_by_their_text, find_all_script, find_script, hear_navigation, hear_reply, navigation_ends_by_event_or_answer, numbers_follow_one_another,
    quoted_selector, quoted_text, read_cookies, read_cookies_belong_here, read_element,
    read_elements, replies_answer_their_command, send_keys_script, value_text, Attachment, CdpSession, Cookie,
    Element, Navigation, NavigationView, Reply, ReplyView,
};
use crate::console::{
    issue_text, issue_text_tells_of_the_issue, painted, render_report, report_shows_every_issue,
    severity_style, ShownReport,
};
use crate::crawler::audit::{
    collected_text, dom_is_ready, fcp_is_flagged, flag_measurements, lcp_is_flagged,
    page_has_no_other_issues, page_issues, replies_are_taken_as_texts, texts_in,
    ShownMetrics,
};
use crate::crawler::browser::{
    search_goes_on_to_the_next_choice, search_starts_with_what_is_there, BrowserStep, DriverKind,
    DriverProcess, Installed,
};
use crate::crawler::cookies::{
    assignment, driver_cookie, driver_gets_the_cookie, failure_note, script_sets_the_cookie,
    DriverCookie,
};
use crate::crawler::element::{links_are_read_from_texts, links_in};
use crate::crawler::frontier::{
    audit_takes_findings_in, barring_goes_by_both_forms, bars_url, base_host,
    crawl_is_what_it_holds, crawl_starts_with_its_pages, element_total, every_link_is_followed,
    follows_links, is_skipped, login_findings_are_kept, page_admission, page_views,
    pages_are_listed_in_order, result_holds_the_crawl, result_is_sorted, session_count, skips_link,
    start_error, start_needs_a_host, Crawl, CrawlPlan, CrawlResult, LoginPage, PageFindings,
    StartError,
};
use crate::crawler::login::{
    credentials_are_typed, found_elements_are_used, given_selectors_are_used, host_or_localhost,
    landing_settle_ms, login_succeeds, login_works_with_what_it_holds,
    other_pages_end_the_login_well, reply_is_true, reply_text, Action, Event, Login,
};
use crate::crawler::state::StateTracker;
use crate::double::{doubles_compare_by_value, is_zero_f64, Double};
use crate::issues::{
    deduplicate_issues, deduplication_keeps_each_problem, deduplication_keeps_problems_apart,
    deduplication_makes_up_nothing, issue_is_what_it_holds, issue_views, issues_are_listed_in_order,
    is_deduplicated, merged_issues_are_ranked, merged_pages_are_bounded, report_order,
    severities_are_ranked, Issue, IssueCategory, IssueView, Severity,
};
use crate::json::{json_view, parsed_json, JsonView};
use crate::load::{
    gather, latencies_count_as_measured, load_result, load_result_says_what_was_counted, recorded,
    slot, users_add_up, users_start_apart, Figures, Latencies, LoadConfig, Spread, Tally,
    Worker,
};
use crate::order::{sorted_lists_are_in_order, text_le};
use crate::page::{
    normal_url, page_is_what_it_holds, pages_lie_where_they_are_reached, PageState,
};
use crate::profiles::{lists_under, lowercase, ref_views, AuthProfile, ProfileStore};
use crate::report::{
    interactions_are_what_they_hold, measurements_are_listed_in_order,
    network_timing_is_what_it_holds, page_report_is_what_it_holds, report_views, severity_count,
    severity_counts_add_up, speed_is_what_it_holds, LoadTestResult, PageReport, PageView, Report,
};
use crate::results::{
    interaction_is_reported, network_timing_is_reported, page_reports, report_crawl,
    report_tells_of_the_crawl, reports_page, reports_pages, separate, speed_is_reported,
    ReportLimits, SeparateReports,
};
use crate::settings::{
    grave_issues, is_selection, issues_about, limit_keeps_the_beginning, limit_urls, limited,
    load_targets, pages_per_issue, parse_severity, parse_skip_paths, part_security,
    parting_goes_by_category, parting_is_complete, read_skip_paths, resolve_output, runs_load_test,
    select_issues, selection_keeps_gravest, selection_leaves_out_little,
    skip_entries_are_sorted_out, skip_paths_start_with_slash, words_name_settings, OutputFormat,
    SkipList,
};
use crate::text::{
    has_part, numeral, opt_view, part_stands_between, text_pieces, texts_are_what_they_hold,
    trimmed, views, without_trailing,
};
use crate::web::parsed_url;

verus! {

/// A crawl begins with its start page, first and at the top, unless that is to be skipped. What
/// it begins with is pending, and without a login there is nothing else.
pub proof fn crawl_begins(
    start_url: &str,
    max_depth: usize,
    skip: &Vec<String>,
    login: Option<LoginPage>,
    r: (Crawl, Vec<PageState>),
)
    requires
        call_ensures(Crawl::begin, (start_url, max_depth, skip, login), r),
    ensures
        r.0.max_depth == max_depth,
        r.0.pages_visited == 0,
        r.0.pending == r.1@.len(),
        ({
            let barred = is_skipped(start_url@, views(skip@)) || is_skipped(
                normal_url(start_url@),
                views(skip@),
            );
            &&& !barred ==> r.1@.len() > 0 && r.1@[0].url@ == normal_url(start_url@)
                && r.1@[0].depth == 0 && r.1@[0].action_path@.len() == 0
            &&& login is None ==> r.1@.len() == if barred {
                0int
            } else {
                1
            }
        }),
        login is None ==> r.0.issues@.len() == 0 && r.0.perf@.len() == 0 && r.0.network@.len() == 0
            && r.0.crawled@.len() == 0 && r.0.discovered@.len() == 0 && r.0.interactions@.len()
            == 0,
{
    let plan = CrawlPlan { start_url: start_url@, max_depth, skip: views(skip@), login };
    crawl_starts_with_its_pages(plan);
    login_findings_are_kept(plan);
    crawl_is_what_it_holds(r.0);
    pages_are_listed_in_order(r.1@);
    if r.1@.len() > 0 {
        page_is_what_it_holds(r.1@[0]);
        assert(page_views(r.1@)[0] == r.1@[0]@);
    }
}

/// After a login, what was found behind it is kept, the page that the browser landed on is
/// queued, and so is each page that it links to where links are followed at all; pages to be
/// skipped are left out.
pub proof fn crawl_begins_behind_the_login(
    start_url: &str,
    max_depth: usize,
    skip: &Vec<String>,
    login: LoginPage,
    r: (Crawl, Vec<PageState>),
    i: int,
)
    requires
        call_ensures(Crawl::begin, (start_url, max_depth, skip, Some(login)), r),
    ensures
        r.0.issues@.len() == login.findings.issues@.len(),
        0 <= i < login.findings.issues@.len() ==> r.0.issues@[i]@ == login.findings.issues@[i]@,
        r.0.perf@ == seq![login.findings.perf],
        r.0.network@ == seq![login.findings.network],
        r.0.interactions@.len() == 1 && r.0.interactions@[0]@ == login.findings.interactions@,
        login.landed is Some && without_trailing(login.landed->0@, '/') != without_trailing(
            start_url@,
            '/',
        ) && normal_url(login.landed->0@) != normal_url(start_url@) && !is_skipped(
            login.landed->0@,
            views(skip@),
        ) && !is_skipped(normal_url(login.landed->0@), views(skip@)) ==> exists|k: int|
            0 <= k < r.1@.len() && (#[trigger] r.1@[k]).url@ == normal_url(login.landed->0@)
                && r.1@[k].depth == 0,
        login.landed is Some && parsed_url(login.landed->0@) is Ok && max_depth > 0 && 0 <= i
            < login.findings.links@.len() && !is_skipped(
            login.findings.links@[i]@,
            views(skip@),
        ) && !is_skipped(normal_url(login.findings.links@[i]@), views(skip@)) ==> exists|k: int|
            0 <= k < r.1@.len() && (#[trigger] r.1@[k]).url@ == normal_url(
                login.findings.links@[i]@,
            ),
{
    let plan = CrawlPlan {
        start_url: start_url@,
        max_depth,
        skip: views(skip@),
        login: Some(login),
    };
    crawl_starts_with_its_pages(plan);
    login_findings_are_kept(plan);
    crawl_is_what_it_holds(r.0);
    pages_are_listed_in_order(r.1@);
    let first = plan.first_pages();
    assert forall|k: int| 0 <= k < first.len() implies first[k].url == (#[trigger] r.1@[k]).url@
        && first[k].depth == r.1@[k].depth by {
        page_is_what_it_holds(r.1@[k]);
        assert(page_views(r.1@)[k] == r.1@[k]@);
    }
    if 0 <= i < login.findings.issues@.len() {
        assert(r.0@.issues[i] == r.0.issues@[i]@);
        assert(plan.start().issues[i] == login.findings.issues@[i]@);
    }
    assert(r.0@.interactions[0] == r.0.interactions@[0]@);
    if login.landed is Some {
        let u = normal_url(login.landed->0@);
        if exists|k: int| 0 <= k < first.len() && (#[trigger] first[k]).url == u && first[k].depth
            == 0 {
            let k = choose|k: int|
                0 <= k < first.len() && (#[trigger] first[k]).url == u && first[k].depth == 0;
            assert(r.1@[k].url@ == u);
        }
        if 0 <= i < login.findings.links@.len() {
            let v = normal_url(login.findings.links@[i]@);
            if exists|k: int| 0 <= k < first.len() && (#[trigger] first[k]).url == v {
                let k = choose|k: int| 0 <= k < first.len() && (#[trigger] first[k]).url == v;
                assert(r.1@[k].url@ == v);
            }
        }
    }
}

/// From a page above the greatest depth, however deep, every link is followed: it leads to a page
/// that was seen before or to one that is queued now, one step deeper, and is listed as
/// discovered. From a page at the greatest depth no link is.
pub proof fn audited_page_has_its_links_followed(
    crawl: &mut Crawl,
    page: &PageState,
    found: PageFindings,
    skip: &Vec<String>,
    r: (Vec<PageState>, bool),
    i: int,
)
    requires
        call_ensures(Crawl::page_audited, (crawl, page, found, skip), r),
    ensures
        page.depth < old(crawl).max_depth && 0 <= i < found.links@.len() && !is_skipped(
            found.links@[i]@,
            views(skip@),
        ) && !is_skipped(normal_url(found.links@[i]@), views(skip@)) ==> {
            let url = normal_url(found.links@[i]@);
            ||| old(crawl).seen@.contains(url)
            ||| exists|k: int|
                0 <= k < r.0@.len() && (#[trigger] r.0@[k]).url@ == url && r.0@[k].depth
                    == page.depth + 1
        },
        page.depth >= old(crawl).max_depth ==> r.0@.len() == 0,
        0 <= i < r.0@.len() ==> exists|n: int|
            0 <= n < found.links@.len() && r.0@[i].url@ == normal_url(
                (#[trigger] found.links@[n])@,
            ),
{
    let (before, after) = (*old(crawl), *final(crawl));
    crawl_is_what_it_holds(before);
    pages_are_listed_in_order(r.0@);
    every_link_is_followed(before@, page@, found, views(skip@));
    page_is_what_it_holds(*page);
    let new = page_admission(before@, page@, found, views(skip@)).pages;
    assert forall|k: int| 0 <= k < new.len() implies new[k].url == (#[trigger] r.0@[k]).url@
        && new[k].depth == r.0@[k].depth by {
        page_is_what_it_holds(r.0@[k]);
        assert(page_views(r.0@)[k] == r.0@[k]@);
    }
    if 0 <= i < found.links@.len() {
        let url = normal_url(found.links@[i]@);
        if exists|k: int| 0 <= k < new.len() && (#[trigger] new[k]).url == url {
            let k = choose|k: int| 0 <= k < new.len() && (#[trigger] new[k]).url == url;
            assert(r.0@[k].url@ == url);
        }
    }
    if 0 <= i < r.0@.len() {
        assert(new[i].url == r.0@[i].url@);
    }
}

/// What was found on an audited page is kept, behind what was kept before, and the crawl is over
/// exactly if nothing is pending any more.
pub proof fn audited_page_is_kept(
    crawl: &mut Crawl,
    page: &PageState,
    found: PageFindings,
    skip: &Vec<String>,
    r: (Vec<PageState>, bool),
    i: int,
)
    requires
        call_ensures(Crawl::page_audited, (crawl, page, found, skip), r),
    ensures
        final(crawl).max_depth == old(crawl).max_depth,
        final(crawl).pending == old(crawl).pending + r.0@.len() - 1,
        r.1 == (final(crawl).pending == 0),
        final(crawl).pages_visited == old(crawl).pages_visited + 1,
        final(crawl).perf@ == old(crawl).perf@.push(found.perf),
        final(crawl).network@ == old(crawl).network@.push(found.network),
        final(crawl).issues@.len() == old(crawl).issues@.len() + found.issues@.len(),
        0 <= i < old(crawl).issues@.len() ==> final(crawl).issues@[i]@ == old(crawl).issues@[i]@,
        0 <= i < found.issues@.len() ==> final(crawl).issues@[old(crawl).issues@.len() + i]@
            == found.issues@[i]@,
        final(crawl).crawled@.len() == old(crawl).crawled@.len() + 1,
        final(crawl).crawled@.last()@ == page.url@,
        0 <= i < old(crawl).crawled@.len() ==> final(crawl).crawled@[i]@ == old(crawl).crawled@[i]@,
        final(crawl).interactions@.len() == old(crawl).interactions@.len() + 1,
        final(crawl).interactions@.last()@ == found.interactions@,
        0 <= i < old(crawl).interactions@.len() ==> final(crawl).interactions@[i]@
            == old(crawl).interactions@[i]@,
        final(crawl).discovered@.len() == old(crawl).discovered@.len() + r.0@.len(),
        0 <= i < old(crawl).discovered@.len() ==> final(crawl).discovered@[i]@
            == old(crawl).discovered@[i]@,
        0 <= i < r.0@.len() ==> final(crawl).discovered@[old(crawl).discovered@.len() + i]@
            == r.0@[i].url@,
{
    let (before, after) = (*old(crawl), *final(crawl));
    crawl_is_what_it_holds(before);
    crawl_is_what_it_holds(after);
    pages_are_listed_in_order(r.0@);
    audit_takes_findings_in(before@, page@, found, views(skip@));
    page_is_what_it_holds(*page);
    let new = page_admission(before@, page@, found, views(skip@)).pages;
    assert(after.perf@ =~= before.perf@.push(found.perf)) by {
        assert(after.perf@ =~= after.perf@.drop_last().push(after.perf@.last()));
    }
    assert(after.network@ =~= before.network@.push(found.network)) by {
        assert(after.network@ =~= after.network@.drop_last().push(after.network@.last()));
    }
    assert(after@.crawled[after.crawled@.len() - 1] == after.crawled@.last()@);
    assert(after@.interactions[after.interactions@.len() - 1] == after.interactions@.last()@);
    if 0 <= i < before.issues@.len() {
        assert(after@.issues.take(before@.issues.len() as int)[i] == before@.issues[i]);
        assert(after@.issues[i] == after.issues@[i]@);
    }
    if 0 <= i < found.issues@.len() {
        let n = before.issues@.len() + i;
        assert(after@.issues[n] == found.issues@[i]@);
        assert(after@.issues[n] == after.issues@[n]@);
    }
    if 0 <= i < before.crawled@.len() {
        assert(after@.crawled.drop_last()[i] == before@.crawled[i]);
        assert(after@.crawled[i] == after.crawled@[i]@);
    }
    if 0 <= i < before.interactions@.len() {
        assert(after@.interactions.drop_last()[i] == before@.interactions[i]);
        assert(after@.interactions[i] == after.interactions@[i]@);
    }
    if 0 <= i < before.discovered@.len() {
        assert(after@.discovered.take(before@.discovered.len() as int)[i] == before@.discovered[i]);
        assert(after@.discovered[i] == after.discovered@[i]@);
    }
    if 0 <= i < r.0@.len() {
        let n = before.discovered@.len() + i;
        assert(page_views(r.0@)[i] == r.0@[i]@);
        page_is_what_it_holds(r.0@[i]);
        assert(after@.discovered[n] == new[i].url);
        assert(after@.discovered[n] == after.discovered@[n]@);
    }
}

/// A page that could not be audited is no longer pending; what was kept before stays.
pub proof fn failed_page_is_done_with(crawl: &mut Crawl, r: bool, i: int)
    requires
        call_ensures(Crawl::page_failed, (crawl,), r),
    ensures
        final(crawl).pending == old(crawl).pending - 1,
        r == (final(crawl).pending == 0),
        final(crawl).seen@ == old(crawl).seen@,
        final(crawl).max_depth == old(crawl).max_depth,
        final(crawl).pages_visited == old(crawl).pages_visited,
        final(crawl).perf@ == old(crawl).perf@,
        final(crawl).network@ == old(crawl).network@,
        final(crawl).issues@.len() == old(crawl).issues@.len(),
        0 <= i < old(crawl).issues@.len() ==> final(crawl).issues@[i]@ == old(crawl).issues@[i]@,
        final(crawl).crawled@.len() == old(crawl).crawled@.len(),
        0 <= i < old(crawl).crawled@.len() ==> final(crawl).crawled@[i]@ == old(crawl).crawled@[i]@,
        final(crawl).discovered@.len() == old(crawl).discovered@.len(),
        0 <= i < old(crawl).discovered@.len() ==> final(crawl).discovered@[i]@
            == old(crawl).discovered@[i]@,
        final(crawl).interactions@.len() == old(crawl).interactions@.len(),
        0 <= i < old(crawl).interactions@.len() ==> final(crawl).interactions@[i]@
            == old(crawl).interactions@[i]@,
{
    let (before, after) = (*old(crawl), *final(crawl));
    crawl_is_what_it_holds(before);
    crawl_is_what_it_holds(after);
    if 0 <= i < before.issues@.len() {
        assert(after@.issues[i] == after.issues@[i]@ && before@.issues[i] == before.issues@[i]@);
    }
    if 0 <= i < before.crawled@.len() {
        assert(after@.crawled[i] == after.crawled@[i]@);
        assert(before@.crawled[i] == before.crawled@[i]@);
    }
    if 0 <= i < before.discovered@.len() {
        assert(after@.discovered[i] == after.discovered@[i]@);
        assert(before@.discovered[i] == before.discovered@[i]@);
    }
    if 0 <= i < before.interactions@.len() {
        assert(after@.interactions[i] == after.interactions@[i]@);
        assert(before@.interactions[i] == before.interactions@[i]@);
    }
}

/// The result of a crawl has all that the crawl kept: the issues and measurements in their order,
/// the URLs sorted.
pub proof fn finished_crawl_gives_what_it_kept(
    crawl: Crawl,
    duration_secs: Double,
    r: CrawlResult,
    i: int,
    j: int,
)
    requires
        call_ensures(Crawl::finish, (crawl, duration_secs), r),
    ensures
        r.issues@.len() == crawl.issues@.len(),
        0 <= i < r.issues@.len() ==> r.issues@[i]@ == crawl.issues@[i]@,
        r.perf_metrics@ == crawl.perf@,
        r.network_stats@ == crawl.network@,
        r.stats.pages_visited == crawl.pages_visited,
        r.stats.duration_secs == duration_secs,
        r.stats.elements_interacted == element_total(crawl@.interactions),
        r.stats.crawled_urls@.len() == crawl.crawled@.len(),
        forall|t: Seq<char>| #[trigger]
            views(r.stats.crawled_urls@).contains(t) == views(crawl.crawled@).contains(t),
        forall|t: Seq<char>| #[trigger]
            views(r.discovered_urls@).contains(t) == (views(crawl.discovered@).contains(t) || views(
                crawl.crawled@,
            ).contains(t)),
        r.interactions@.len() == crawl.interactions@.len(),
        0 <= i < j < r.stats.crawled_urls@.len() ==> text_le(
            r.stats.crawled_urls@[i]@,
            r.stats.crawled_urls@[j]@,
        ),
        0 <= i < j < r.discovered_urls@.len() ==> text_le(
            r.discovered_urls@[i]@,
            r.discovered_urls@[j]@,
        ) && r.discovered_urls@[i]@ != r.discovered_urls@[j]@,
        0 <= i < j < r.interactions@.len() ==> text_le(
            r.interactions@[i]@.page_url,
            r.interactions@[j]@.page_url,
        ),
{
    result_holds_the_crawl(crawl@, duration_secs, r);
    crawl_is_what_it_holds(crawl);
    if 0 <= i < r.issues@.len() {
        assert(crawl@.issues[i] == crawl.issues@[i]@);
    }
    assert(crawl@.crawled =~= views(crawl.crawled@));
    assert(crawl@.discovered =~= views(crawl.discovered@));
    if 0 <= i < j {
        result_is_sorted(crawl@, duration_secs, r, i, j);
    }
}

/// A crawl has one session at least, follows links above the greatest depth only, and starts at a
/// URL with a host.
pub proof fn crawl_is_set_up(
    concurrency: usize,
    sessions: usize,
    depth: usize,
    max_depth: usize,
    follows: bool,
    url: &str,
    host: Result<String, StartError>,
    skip: &Vec<String>,
    skipped: bool,
    barred: bool,
)
    requires
        call_ensures(session_count, (concurrency,), sessions),
        call_ensures(follows_links, (depth, max_depth), follows),
        call_ensures(base_host, (url,), host),
        call_ensures(skips_link, (url, skip), skipped),
        call_ensures(bars_url, (url, skip), barred),
    ensures
        concurrency >= 1 ==> sessions == concurrency,
        sessions >= 1,
        concurrency <= 1 ==> sessions == 1,
        follows <==> depth < max_depth,
        match host {
            Ok(h) => parsed_url(url@) is Ok && parsed_url(url@)->Ok_0.host == Some(h@) && h@.len()
                > 0,
            Err(StartError::InvalidUrl(why)) => parsed_url(url@) is Err && parsed_url(url@)->Err_0
                == why@,
            Err(StartError::NoHost) => parsed_url(url@) is Ok && (parsed_url(url@)->Ok_0.host
                is None || parsed_url(url@)->Ok_0.host->0.len() == 0),
        },
        skipped == is_skipped(url@, views(skip@)),
        barred == (is_skipped(url@, views(skip@)) || is_skipped(normal_url(url@), views(skip@))),
{
    start_needs_a_host(parsed_url(url@));
    barring_goes_by_both_forms(url@, views(skip@));
}

/// Where a crawl cannot start, that is said with what is wrong about the URL.
pub proof fn start_errors_are_told(
    invalid: StartError,
    hostless: StartError,
    url: &str,
    a: String,
    b: String,
)
    requires
        call_ensures(start_error, (&invalid, url), a),
        call_ensures(start_error, (&hostless, url), b),
        invalid is InvalidUrl,
        hostless is NoHost,
    ensures
        a@ == invalid->InvalidUrl_0@,
        b@ == "Start URL has no host: "@ + url@,
{
}

/// A login begins by waiting for the form, with the credentials and the selectors that it was
/// given.
pub proof fn login_begins(auth: AuthConfig, login_url: String, login: Login)
    requires
        call_ensures(Login::begin, (&auth, login_url), login),
    ensures
        login.stage is AwaitForm,
        login.login_url@ == login_url@,
        auth.username is Some ==> login.username@ == auth.username->0@,
        auth.username is None ==> login.username@.len() == 0,
        auth.password is Some ==> login.password@ == auth.password->0@,
        auth.password is None ==> login.password@.len() == 0,
        login.username_selector is Some <==> auth.username_selector is Some,
        login.username_selector is Some ==> login.username_selector->0@
            == auth.username_selector->0@,
        login.password_selector is Some <==> auth.password_selector is Some,
        login.password_selector is Some ==> login.password_selector->0@
            == auth.password_selector->0@,
        login.submit_selector is Some <==> auth.submit_selector is Some,
        login.submit_selector is Some ==> login.submit_selector->0@ == auth.submit_selector->0@,
{
    settings_are_what_they_hold(auth);
    login_works_with_what_it_holds(login);
}

/// A login types its user name into the field found for that, and its password into the field
/// found for that; it types nowhere else. It looks for its own selectors where it has them, and
/// presses what was found.
pub proof fn login_acts(login: Login, action: Action)
    requires
        call_ensures(Login::action, (&login,), action),
        login.is_valid(),
    ensures
        login.stage is TypeUsername ==> action is Type && action->Type_0@ == login.username@,
        login.stage is TypePassword ==> action is Type && action->Type_0@ == login.password@,
        action is Type ==> login.stage is TypeUsername || login.stage is TypePassword,
        login.stage is FindUsername && login.username_selector is Some ==> action is Find
            && action->Find_0 is Css && action->Find_0->Css_0@ == login.username_selector->0@,
        login.stage is FindPassword && login.password_selector is Some ==> action is Find
            && action->Find_0 is Css && action->Find_0->Css_0@ == login.password_selector->0@,
        login.stage is FindSubmit && login.submit_selector is Some ==> action is Find
            && action->Find_0 is Css && action->Find_0->Css_0@ == login.submit_selector->0@,
        login.stage is PressSubmit || login.stage is PressNext ==> action is Press,
        login.stage is PressEnter ==> action is PressEnter,
        login.stage is Done ==> action is Succeed,
        login.stage is Failed ==> action is Fail && action->Fail_0@ == login.stage->Failed_0@,
{
    let plan = login.plan();
    login_works_with_what_it_holds(login);
    credentials_are_typed(plan, login.stage@);
    if login.stage is FindUsername && login.username_selector is Some {
        given_selectors_are_used(plan, login.stage->FindUsername_0, login.username_selector->0@);
    }
    if login.stage is FindPassword && login.password_selector is Some {
        given_selectors_are_used(plan, login.stage->FindPassword_0, login.password_selector->0@);
    }
    if login.stage is FindSubmit && login.submit_selector is Some {
        given_selectors_are_used(plan, login.stage->FindSubmit_0, login.submit_selector->0@);
    }
    found_elements_are_used(plan, 0, Seq::empty());
    if login.stage is Failed {
        other_pages_end_the_login_well(plan, Seq::empty(), login.stage->Failed_0@);
    } else {
        other_pages_end_the_login_well(plan, Seq::empty(), Seq::empty());
    }
}

/// A login goes on with what it began with, through its stages in their order, and is done only
/// once the page it landed on was read.
pub proof fn login_advances(login: &mut Login, event: Event)
    requires
        call_ensures(Login::advance, (login, event), ()),
    ensures
        final(login).login_url@ == old(login).login_url@,
        final(login).username@ == old(login).username@,
        final(login).password@ == old(login).password@,
        old(login).stage is TypeUsername && event is Yes ==> final(login).stage is CheckPassword,
        old(login).stage is TypePassword && event is Yes ==> final(login).stage is FindSubmit,
        old(login).stage is FindUsername && event is Yes ==> final(login).stage is TypeUsername,
        old(login).stage is FindPassword && event is Yes ==> final(login).stage is TypePassword,
        old(login).stage is FindSubmit && event is Yes ==> final(login).stage is PressSubmit,
        old(login).stage is PressSubmit && event is Yes ==> final(login).stage is AwaitLanding,
        old(login).stage is TypeUsername && event is No ==> final(login).stage is Failed,
        old(login).stage is TypePassword && event is No ==> final(login).stage is Failed,
        final(login).stage is Done && !(old(login).stage is Done) ==> old(login).stage is ReadBody
            && event is Reply,
{
    let (before, after) = (*old(login), *final(login));
    login_works_with_what_it_holds(before);
    login_works_with_what_it_holds(after);
    if !(before.stage is Done) {
        login_succeeds(before.plan(), before.stage@, event@);
    }
}

/// Where the browser landed is told as it was seen; where it cannot say where it is, it is not
/// taken to be at the login page.
pub proof fn landing_is_told(login: Login, url: Option<String>, visible: bool, late: bool, event: Event)
    requires
        call_ensures(Login::landing, (&login, url, visible, late), event),
    ensures
        event is Landing,
        event->password_visible == visible,
        event->Landing_late == late,
        event->Landing_url is Some <==> url is Some,
        url is Some ==> event->Landing_url->0@ == url->0@,
        url is None ==> !event->at_login,
{
}

/// The browser is given half a second at least to settle, and a host is at hand for cookies even
/// where the URL has none.
pub proof fn login_has_its_defaults(asked: u64, settle: u64, url: &str, host: String)
    requires
        call_ensures(landing_settle_ms, (asked,), settle),
        call_ensures(host_or_localhost, (url,), host),
    ensures
        settle >= 500,
        settle >= asked,
        settle == 500 || settle == asked,
        parsed_url(url@) is Ok && parsed_url(url@)->Ok_0.host is Some ==> host@ == parsed_url(
            url@,
        )->Ok_0.host->0,
        parsed_url(url@) is Err || parsed_url(url@)->Ok_0.host is None ==> host@ == "localhost"@,
{
}

/// Merging loses no problem and makes none up: what two issues share in severity, category,
/// message and element is one problem, whatever the category, and each problem is there once, the
/// gravest first.
pub proof fn issues_are_merged_by_problem(
    issues: Vec<Issue>,
    max: usize,
    r: Vec<Issue>,
    i: int,
    j: int,
)
    requires
        call_ensures(deduplicate_issues, (issues, max), r),
    ensures
        0 <= i < issues@.len() ==> exists|k: int|
            0 <= k < r@.len() && (#[trigger] r@[k])@.severity == issues@[i]@.severity
                && r@[k]@.category == issues@[i]@.category && r@[k]@.message
                == issues@[i]@.message && r@[k]@.element == issues@[i]@.element,
        0 <= i < r@.len() ==> exists|k: int|
            0 <= k < issues@.len() && (#[trigger] issues@[k])@.severity == r@[i]@.severity
                && issues@[k]@.category == r@[i]@.category && issues@[k]@.message
                == r@[i]@.message && issues@[k]@.element == r@[i]@.element,
        0 <= i < j < r@.len() ==> r@[i]@.severity != r@[j]@.severity || r@[i]@.category
            != r@[j]@.category || r@[i]@.message != r@[j]@.message || r@[i]@.element
            != r@[j]@.element,
        0 <= i < j < r@.len() ==> r@[i].severity.level() >= r@[j].severity.level(),
        0 <= i < r@.len() ==> r@[i].affected_pages_count is Some && r@[i].page_urls@.len() <= max
            && r@[i].page_urls@.len() <= r@[i].affected_pages_count->0,
{
    let (from, to) = (issue_views(issues@), issue_views(r@));
    issues_are_listed_in_order(issues@);
    issues_are_listed_in_order(r@);
    if 0 <= i < issues@.len() {
        let k = deduplication_keeps_each_problem(from, max as nat, to, i);
        assert(to[k] == r@[k]@ && from[i] == issues@[i]@);
    }
    if 0 <= i < r@.len() {
        let k = deduplication_makes_up_nothing(from, max as nat, to, i);
        assert(from[k] == issues@[k]@ && to[i] == r@[i]@);
        merged_pages_are_bounded(from, max as nat, to, i);
        issue_is_what_it_holds(r@[i]);
    }
    if 0 <= i < j < r@.len() {
        deduplication_keeps_problems_apart(from, max as nat, to, i, j);
        merged_issues_are_ranked(from, max as nat, to, i, j);
        assert(to[i] == r@[i]@ && to[j] == r@[j]@);
        issue_is_what_it_holds(r@[i]);
        issue_is_what_it_holds(r@[j]);
    }
}

/// The paint of a page is flagged by each of its two marks alone: what the one is does not keep
/// the other from being told. What was found stays, and stays in front.
pub proof fn slow_paint_is_flagged(
    found: PageFindings,
    url: &str,
    shown: ShownMetrics,
    r: PageFindings,
    i: int,
)
    requires
        call_ensures(flag_measurements, (found, url, &shown), r),
    ensures
        r.perf == found.perf,
        r.network == found.network,
        r.links == found.links,
        r.interactions == found.interactions,
        r.issues@.len() >= found.issues@.len(),
        0 <= i < found.issues@.len() ==> r.issues@[i]@ == found.issues@[i]@,
        found.perf.lcp_ms is Some && found.perf.lcp_ms->0.exceeds_whole(4000) ==> exists|k: int|
            0 <= k < r.issues@.len() && (#[trigger] r.issues@[k])@.severity == Severity::Error
                && r.issues@[k]@.message == "LCP is very slow: "@ + shown.lcp@ + "ms (error > 4s)"@,
        found.perf.lcp_ms is Some && found.perf.lcp_ms->0.reaches_whole(2500)
            && !found.perf.lcp_ms->0.exceeds_whole(4000) ==> exists|k: int|
            0 <= k < r.issues@.len() && (#[trigger] r.issues@[k])@.severity == Severity::Warning
                && r.issues@[k]@.message == "LCP is slow: "@ + shown.lcp@ + "ms (warn > 2.5s)"@,
        found.perf.fcp_ms is Some && found.perf.fcp_ms->0.exceeds_whole(3000) ==> exists|k: int|
            0 <= k < r.issues@.len() && (#[trigger] r.issues@[k])@.severity == Severity::Error
                && r.issues@[k]@.message == "FCP is very slow: "@ + shown.fcp@ + "ms (error > 3s)"@,
        found.perf.fcp_ms is Some && found.perf.fcp_ms->0.reaches_whole(1800)
            && !found.perf.fcp_ms->0.exceeds_whole(3000) ==> exists|k: int|
            0 <= k < r.issues@.len() && (#[trigger] r.issues@[k])@.severity == Severity::Warning
                && r.issues@[k]@.message == "FCP is slow: "@ + shown.fcp@ + "ms (warn > 1.8s)"@,
{
    let all = page_issues(url@, found, shown);
    issues_are_listed_in_order(r.issues@);
    assert(all =~= issue_views(r.issues@));
    assert(forall|k: int| 0 <= k < all.len() ==> #[trigger] all[k] == r.issues@[k]@);
    page_has_no_other_issues(url@, found, shown);
    lcp_is_flagged(url@, found, shown);
    fcp_is_flagged(url@, found, shown);
    if 0 <= i < found.issues@.len() {
        assert(all[i] == found.issues@[i]@);
    }
}

/// What is gathered of two groups of users is what is gathered of each, put together: no user's
/// requests, failures or latencies are left out, whichever user comes last.
pub proof fn groups_of_users_add_up(
    a: Vec<Worker>,
    b: Vec<Worker>,
    both: Vec<Worker>,
    x: Option<(Tally, Latencies)>,
    y: Option<(Tally, Latencies)>,
    z: Option<(Tally, Latencies)>,
)
    requires
        call_ensures(gather, (&a,), x),
        call_ensures(gather, (&b,), y),
        call_ensures(gather, (&both,), z),
        both@ == a@ + b@,
    ensures
        x is Some && y is Some && z is Some,
        z->Some_0.0@.total == x->Some_0.0@.total + y->Some_0.0@.total,
        z->Some_0.0@.failed == x->Some_0.0@.failed + y->Some_0.0@.failed,
        recorded(z->Some_0.1) == recorded(x->Some_0.1).add(recorded(y->Some_0.1)),
{
    if a@.len() > 0 {
        users_add_up(a@, b@, a@[0]);
    } else {
        assert(a@ + b@ =~= b@);
        assert(a@ =~= Seq::<Worker>::empty());
    }
}

/// What is gathered of one user is what that user counted, and of nobody nothing.
pub proof fn one_user_counts(
    one: Vec<Worker>,
    none: Vec<Worker>,
    x: Option<(Tally, Latencies)>,
    y: Option<(Tally, Latencies)>,
)
    requires
        call_ensures(gather, (&one,), x),
        call_ensures(gather, (&none,), y),
        one@.len() == 1,
        none@.len() == 0,
    ensures
        x is Some && y is Some,
        x->Some_0.0@.total == one@[0].tally@.total,
        x->Some_0.0@.failed == one@[0].tally@.failed,
        recorded(x->Some_0.1) == recorded(one@[0].latencies),
        y->Some_0.0@.total == 0,
        y->Some_0.0@.failed == 0,
        recorded(y->Some_0.1).len() == 0,
{
    users_add_up(one@, none@, one@[0]);
    assert(one@ =~= seq![one@[0]]);
    assert(none@ =~= Seq::<Worker>::empty());
}

/// A user's answer is counted once, as a failure exactly if it is one, and its latency is
/// recorded; the user's turn does not move.
pub proof fn answers_are_counted(worker: &mut Worker, succeeded: bool, elapsed_us: u64)
    requires
        call_ensures(Worker::answered, (worker, succeeded, elapsed_us), ()),
    ensures
        final(worker).tally@.total == old(worker).tally@.total + 1,
        succeeded ==> final(worker).tally@.failed == old(worker).tally@.failed,
        !succeeded ==> final(worker).tally@.failed == old(worker).tally@.failed + 1,
        recorded(final(worker).latencies).len() == recorded(old(worker).latencies).len() + 1,
        0 < elapsed_us < 2048 ==> recorded(final(worker).latencies).count(elapsed_us) == recorded(
            old(worker).latencies,
        ).count(elapsed_us) + 1,
        final(worker).turn == old(worker).turn,
        final(worker).urls == old(worker).urls,
{
    latencies_count_as_measured(elapsed_us);
    if 0 < elapsed_us < 2048 {
        assert(slot(elapsed_us as nat) == elapsed_us);
    }
}

/// A user takes the URLs in turn, from the first again after the last.
pub proof fn urls_are_taken_in_turn(worker: &mut Worker, r: usize)
    requires
        call_ensures(Worker::next_url, (worker,), r),
        old(worker).turn.at < old(worker).urls,
    ensures
        r == old(worker).turn.at,
        r + 1 < old(worker).urls ==> final(worker).turn.at == r + 1,
        r + 1 == old(worker).urls ==> final(worker).turn.at == 0,
        final(worker).urls == old(worker).urls,
        final(worker).tally == old(worker).tally,
        final(worker).latencies == old(worker).latencies,
{
    if r + 1 < old(worker).urls {
        vstd::arithmetic::div_mod::lemma_small_mod((r + 1) as nat, old(worker).urls as nat);
    } else {
        vstd::arithmetic::div_mod::lemma_mod_self_0(old(worker).urls as int);
    }
}

/// A user that has requested nothing starts at the URL of its own number, and users whose numbers
/// are as far apart as there are URLs start at the same one.
pub proof fn users_begin_apart(user: u32, urls: usize, r: Option<Worker>)
    requires
        call_ensures(Worker::new, (user, urls), r),
        urls > 0,
    ensures
        r is Some,
        r->0.urls == urls,
        r->0.turn.at < urls,
        user < urls ==> r->0.turn.at == user,
        exists|k: nat| user == #[trigger] (k * urls) + r->0.turn.at,
        r->0.tally@.total == 0 && r->0.tally@.failed == 0,
        recorded(r->0.latencies).len() == 0,
{
    users_start_apart(user as nat, 0, urls as nat);
    vstd::arithmetic::div_mod::lemma_fundamental_div_mod(user as int, urls as int);
    vstd::arithmetic::mul::lemma_mul_is_commutative(urls as int, user as int / urls as int);
    let k = (user as int / urls as int) as nat;
    vstd::arithmetic::div_mod::lemma_div_pos_is_pos(user as int, urls as int);
    assert(user == k * urls + r->0.turn.at);
}

/// One tally takes over another by adding up; a request is counted once.
pub proof fn tallies_add_up(
    tally: &mut Tally,
    other: &Tally,
    total: u64,
    failed: u64,
    successful: u64,
)
    requires
        call_ensures(Tally::take_over, (tally, other), ()),
        call_ensures(Tally::total, (other,), total),
        call_ensures(Tally::failed, (other,), failed),
        call_ensures(Tally::successful, (other,), successful),
    ensures
        final(tally)@.total == old(tally)@.total + total,
        final(tally)@.failed == old(tally)@.failed + failed,
        successful + failed == total,
{
}

/// A request is counted once, and as a failure exactly if it is one.
pub proof fn requests_are_counted(tally: &mut Tally, succeeded: bool)
    requires
        call_ensures(Tally::count, (tally, succeeded), ()),
    ensures
        final(tally)@.total == old(tally)@.total + 1,
        succeeded ==> final(tally)@.failed == old(tally)@.failed,
        !succeeded ==> final(tally)@.failed == old(tally)@.failed + 1,
{
}

/// A load test is of its URLs, users and seconds, and what was counted and measured stands in its
/// result; without a URL there is none.
pub proof fn load_test_is_reported(
    config: LoadConfig,
    tally: Tally,
    figures: Figures,
    r: Option<LoadTestResult>,
)
    requires
        call_ensures(load_result, (&config, &tally, &figures), r),
    ensures
        r is None <==> config.urls@.len() == 0,
        r is Some ==> {
            &&& r->0.url@ == config.urls@[0]@
            &&& r->0.users == config.users && r->0.duration_secs == config.duration_secs
            &&& r->0.total_requests == tally@.total && r->0.failed_requests == tally@.failed
            &&& r->0.successful_requests == tally@.total - tally@.failed
            &&& r->0.error_rate_pct == figures.error_rate_pct
            &&& r->0.throughput_rps == figures.throughput_rps
            &&& r->0.latency_p50_ms == figures.p50_ms && r->0.latency_p90_ms == figures.p90_ms
            &&& r->0.latency_p95_ms == figures.p95_ms && r->0.latency_p99_ms == figures.p99_ms
            &&& r->0.latency_min_ms == figures.min_ms && r->0.latency_max_ms == figures.max_ms
            &&& r->0.latency_mean_ms == figures.mean_ms
        },
{
    if r is Some {
        load_result_says_what_was_counted(config, tally@, figures, r->0);
    }
}

/// A page is known by its URL in normal form; a page reached from another lies one step deeper,
/// with the action that led there behind those before.
pub proof fn pages_are_reached(page: PageState, url: &str, action: &str, root: PageState, child: PageState, mark: String)
    requires
        call_ensures(PageState::new, (url,), root),
        call_ensures(PageState::child, (&page, url, action), child),
        call_ensures(PageState::fingerprint, (&page,), mark),
        page.depth < usize::MAX,
    ensures
        root.url@ == normal_url(url@),
        root.depth == 0,
        root.action_path@.len() == 0,
        child.url@ == normal_url(url@),
        child.depth == page.depth + 1,
        child.action_path@.len() == page.action_path@.len() + 1,
        child.action_path@.last()@ == action@,
        mark@ == normal_url(page.url@),
{
    page_is_what_it_holds(page);
    page_is_what_it_holds(root);
    page_is_what_it_holds(child);
    pages_lie_where_they_are_reached(page@, url@, action@);
    assert(child@.action_path[child.action_path@.len() - 1] == child.action_path@.last()@);
}

/// A page is new to a tracker the first time it is visited and known from then on; no other page
/// becomes known by that.
pub proof fn visits_are_remembered(
    tracker: &mut StateTracker,
    mark: &str,
    first: bool,
    other: &str,
    before: bool,
    after: bool,
)
    requires
        call_ensures(StateTracker::visit, (tracker, mark), first),
        call_ensures(StateTracker::is_visited, (&*old(tracker), other), before),
        call_ensures(StateTracker::is_visited, (&*final(tracker), other), after),
    ensures
        other@ == mark@ ==> after && first == !before,
        other@ != mark@ ==> after == before,
{
}

/// A new report names the tool, its version, the target and the moment, and is empty.
pub proof fn reports_begin_empty(target_url: &str, timestamp: String, r: Report, now: Report)
    requires
        call_ensures(Report::stamped, (target_url, timestamp), r),
        call_ensures(Report::new, (target_url,), now),
    ensures
        r.tool@ == "webprobe"@ && now.tool@ == "webprobe"@,
        r.version@ == "0.1.0"@ && now.version@ == "0.1.0"@,
        r.target_url@ == target_url@ && now.target_url@ == target_url@,
        r.timestamp@ == timestamp@,
        now.timestamp@.last() == 'Z',
        r.issues@.len() == 0 && r.pages@.len() == 0 && r.discovered_urls@.len() == 0,
        now.issues@.len() == 0 && now.pages@.len() == 0 && now.discovered_urls@.len() == 0,
        r.load_test is None && now.load_test is None,
        r.crawl_stats.pages_visited == 0 && r.crawl_stats.crawled_urls@.len() == 0,
        r.crawl_stats.elements_interacted == 0,
        r.summary.total == 0 && now.summary.total == 0,
        r.summary.critical == 0 && r.summary.errors == 0 && r.summary.warnings == 0
            && r.summary.infos == 0,
{
}

/// The summary counts each issue once, under its severity; the rest of the report stays.
pub proof fn summaries_count_issues(report: &mut Report, issue: Issue, rest: Seq<Issue>)
    requires
        call_ensures(Report::compute_summary, (report,), ()),
        old(report).issues@ == seq![issue] + rest,
    ensures
        final(report).summary.total == rest.len() + 1,
        final(report).summary.critical == severity_count(issue_views(rest), Severity::Critical) + (
        if issue.severity == Severity::Critical {
            1int
        } else {
            0
        }),
        final(report).summary.errors == severity_count(issue_views(rest), Severity::Error) + (
        if issue.severity == Severity::Error {
            1int
        } else {
            0
        }),
        final(report).summary.warnings == severity_count(issue_views(rest), Severity::Warning) + (
        if issue.severity == Severity::Warning {
            1int
        } else {
            0
        }),
        final(report).summary.infos == severity_count(issue_views(rest), Severity::Info) + (
        if issue.severity == Severity::Info {
            1int
        } else {
            0
        }),
        final(report).issues == old(report).issues,
        final(report).pages == old(report).pages,
        final(report).crawl_stats == old(report).crawl_stats,
        final(report).discovered_urls == old(report).discovered_urls,
        final(report).load_test == old(report).load_test,
        final(report).timestamp == old(report).timestamp,
        final(report).target_url == old(report).target_url,
{
    let views = issue_views(old(report).issues@);
    assert(views =~= seq![issue@] + issue_views(rest));
    issue_is_what_it_holds(issue);
    severity_counts_add_up(seq![issue@], issue_views(rest), issue@, Severity::Critical);
    severity_counts_add_up(seq![issue@], issue_views(rest), issue@, Severity::Error);
    severity_counts_add_up(seq![issue@], issue_views(rest), issue@, Severity::Warning);
    severity_counts_add_up(seq![issue@], issue_views(rest), issue@, Severity::Info);
}

/// The report of a crawl carries its totals, keeps no issue that is too mild, and leaves out a
/// problem that is grave enough only where a limit is reached. The discovered URLs come back in
/// order, each once.
pub proof fn crawl_is_reported(
    blank: Report,
    result: CrawlResult,
    limits: ReportLimits,
    r: (Report, Vec<String>),
    i: int,
    j: int,
)
    requires
        call_ensures(report_crawl, (blank, result, &limits), r),
    ensures
        r.0.target_url == blank.target_url && r.0.timestamp == blank.timestamp,
        r.0.crawl_stats.pages_visited == result.stats.pages_visited,
        r.0.crawl_stats.duration_secs == result.stats.duration_secs,
        r.0.crawl_stats.elements_interacted == result.stats.elements_interacted,
        r.0.summary.total == r.0.issues@.len(),
        0 <= i < r.0.issues@.len() ==> r.0.issues@[i].severity.level()
            >= limits.min_severity.level(),
        limits.max_total_issues is Some ==> r.0.issues@.len() <= limits.max_total_issues->0,
        0 <= i < result.issues@.len() && result.issues@[i].severity.level()
            >= limits.min_severity.level() && (limits.max_total_issues is None || r.0.issues@.len()
            < limits.max_total_issues->0) ==> exists|k: int|
            0 <= k < r.0.issues@.len() && (#[trigger] r.0.issues@[k])@.severity
                == result.issues@[i]@.severity && r.0.issues@[k]@.category
                == result.issues@[i]@.category && r.0.issues@[k]@.message
                == result.issues@[i]@.message && r.0.issues@[k]@.element
                == result.issues@[i]@.element,
        forall|t: Seq<char>| #[trigger]
            views(r.1@).contains(t) == views(result.discovered_urls@).contains(t),
        0 <= i < j < r.1@.len() ==> text_le(r.1@[i]@, r.1@[j]@) && r.1@[i]@ != r.1@[j]@,
        limits.max_discovered is None ==> views(r.0.discovered_urls@) == views(r.1@),
        limits.max_discovered is None ==> r.0.crawl_stats.crawled_urls@
            == result.stats.crawled_urls@,
        limits.max_discovered is Some ==> r.0.discovered_urls@.len() <= limits.max_discovered->0,
{
    let found = views(r.1@);
    report_tells_of_the_crawl(blank, result, limits, found, r.0);
    let (from, to) = (issue_views(result.issues@), issue_views(r.0.issues@));
    let max = limits.pages_per_issue as nat;
    selected_issues_are_grave(
        from,
        max,
        limits.min_severity,
        limits.max_total_issues,
        to,
        i,
    );
    issues_are_listed_in_order(result.issues@);
    issues_are_listed_in_order(r.0.issues@);
    if 0 <= i < r.0.issues@.len() {
        assert(to[i] == r.0.issues@[i]@);
    }
    if 0 <= i < result.issues@.len() {
        assert(from[i] == result.issues@[i]@);
        assert(forall|k: int| 0 <= k < to.len() ==> #[trigger] to[k] == r.0.issues@[k]@);
    }
    if 0 <= i < j < r.1@.len() {
        sorted_lists_are_in_order(found, i, j);
        assert(found[i] == r.1@[i]@ && found[j] == r.1@[j]@);
    }
}

/// A selection holds no issue that is too mild and no more than the limit, and each problem that
/// is grave enough unless the limit is reached.
proof fn selected_issues_are_grave(
    issues: Seq<IssueView>,
    max_pages: nat,
    min: Severity,
    limit: Option<usize>,
    r: Seq<IssueView>,
    i: int,
)
    requires
        is_selection(issues, max_pages, min, limit, r),
    ensures
        0 <= i < r.len() ==> r[i].severity.level() >= min.level(),
        limit is Some ==> r.len() <= limit->0,
        0 <= i < issues.len() && issues[i].severity.level() >= min.level() && (limit is None
            || r.len() < limit->0) ==> exists|k: int|
            0 <= k < r.len() && (#[trigger] r[k]).severity == issues[i].severity && r[k].category
                == issues[i].category && r[k].message == issues[i].message && r[k].element
                == issues[i].element,
{
    let merged = choose|merged: Seq<IssueView>| #[trigger]
        is_deduplicated(issues, max_pages, merged) && r == limited(
            grave_issues(merged, min),
            limit,
        );
    selection_keeps_gravest(issues, max_pages, min, limit, merged, r);
    selection_leaves_out_little(issues, max_pages, min, limit, merged, r);
    if 0 <= i < issues.len() && issues[i].severity.level() >= min.level() && (limit is None
        || r.len() < limit->0) {
        let k = deduplication_keeps_each_problem(issues, max_pages, merged, i);
        assert(merged[k].severity.level() >= min.level());
        assert(k < r.len());
        assert(r[k] == merged[k]);
    }
}

/// Issues are selected by severity and number: a problem that is grave enough is left out only
/// where the limit is reached.
pub proof fn issues_are_selected(
    issues: Vec<Issue>,
    max_pages: usize,
    min: Severity,
    limit: Option<usize>,
    r: Vec<Issue>,
    i: int,
)
    requires
        call_ensures(select_issues, (issues, max_pages, min, limit), r),
    ensures
        0 <= i < r@.len() ==> r@[i].severity.level() >= min.level(),
        limit is Some ==> r@.len() <= limit->0,
        0 <= i < issues@.len() && issues@[i].severity.level() >= min.level() && (limit is None
            || r@.len() < limit->0) ==> exists|k: int|
            0 <= k < r@.len() && (#[trigger] r@[k])@.severity == issues@[i]@.severity
                && r@[k]@.category == issues@[i]@.category && r@[k]@.message
                == issues@[i]@.message && r@[k]@.element == issues@[i]@.element,
{
    let (from, to) = (issue_views(issues@), issue_views(r@));
    selected_issues_are_grave(from, max_pages as nat, min, limit, to, i);
    issues_are_listed_in_order(issues@);
    issues_are_listed_in_order(r@);
    if 0 <= i < r@.len() {
        assert(to[i] == r@[i]@);
    }
    if 0 <= i < issues@.len() {
        assert(from[i] == issues@[i]@);
        assert(forall|k: int| 0 <= k < to.len() ==> #[trigger] to[k] == r@[k]@);
    }
}

/// A report is parted by what it is about: issues about security go to one part, all others to
/// another, none is lost, and the load test has a part of its own if there was one.
pub proof fn reports_are_parted(whole: Report, r: SeparateReports, i: int)
    requires
        call_ensures(separate, (whole,), r),
    ensures
        0 <= i < r.crawl.issues@.len() ==> r.crawl.issues@[i].category != IssueCategory::Security,
        0 <= i < r.pentest.issues@.len() ==> r.pentest.issues@[i].category
            == IssueCategory::Security,
        r.crawl.issues@.len() + r.pentest.issues@.len() == whole.issues@.len(),
        0 <= i < whole.issues@.len() && whole.issues@[i].category == IssueCategory::Security
            ==> issue_views(r.pentest.issues@).contains(whole.issues@[i]@),
        0 <= i < whole.issues@.len() && whole.issues@[i].category != IssueCategory::Security
            ==> issue_views(r.crawl.issues@).contains(whole.issues@[i]@),
        r.crawl.summary.total == r.crawl.issues@.len(),
        r.pentest.summary.total == r.pentest.issues@.len(),
        r.crawl.target_url@ == whole.target_url@ && r.pentest.target_url@ == whole.target_url@,
        r.crawl.crawl_stats.pages_visited == whole.crawl_stats.pages_visited,
        r.crawl.crawl_stats.duration_secs == whole.crawl_stats.duration_secs,
        r.crawl.crawl_stats.elements_interacted == whole.crawl_stats.elements_interacted,
        r.pentest.crawl_stats.pages_visited == 0,
        r.crawl.pages@.len() == 0 && r.pentest.pages@.len() == 0,
        r.crawl.discovered_urls@.len() == 0 && r.pentest.discovered_urls@.len() == 0,
        r.crawl.load_test is None && r.pentest.load_test is None,
        r.crawl.tool@ == "webprobe"@ && r.pentest.tool@ == "webprobe"@,
        r.crawl.version@ == "0.1.0"@ && r.pentest.version@ == "0.1.0"@,
        r.pentest.crawl_stats.duration_secs.bits == 0,
        r.pentest.crawl_stats.elements_interacted == 0,
        r.crawl.crawl_stats.crawled_urls@.len() == 0,
        r.pentest.crawl_stats.crawled_urls@.len() == 0,
        r.load is Some ==> r.load->0.tool@ == "webprobe"@ && r.load->0.version@ == "0.1.0"@
            && r.load->0.crawl_stats.pages_visited == 0
            && r.load->0.crawl_stats.duration_secs.bits == 0
            && r.load->0.crawl_stats.elements_interacted == 0 && r.load->0.pages@.len() == 0
            && r.load->0.summary.total == 0,
        r.load is Some <==> whole.load_test is Some,
        r.load is Some ==> r.load->0.load_test == whole.load_test && r.load->0.issues@.len() == 0
            && r.load->0.target_url@ == whole.target_url@,
{
    let all = issue_views(whole.issues@);
    let (others, grave) = (issue_views(r.crawl.issues@), issue_views(r.pentest.issues@));
    issues_are_listed_in_order(whole.issues@);
    issues_are_listed_in_order(r.crawl.issues@);
    issues_are_listed_in_order(r.pentest.issues@);
    if all.len() > 0 {
        parting_is_complete(all, all[0]);
    } else {
        assert(issues_about(all, true).len() == 0 && issues_about(all, false).len() == 0);
    }
    lemma_about_category(all, true);
    lemma_about_category(all, false);
    if 0 <= i < r.crawl.issues@.len() {
        assert(others[i] == r.crawl.issues@[i]@);
    }
    if 0 <= i < r.pentest.issues@.len() {
        assert(grave[i] == r.pentest.issues@[i]@);
    }
    if 0 <= i < whole.issues@.len() {
        let x = all[i];
        assert(x == whole.issues@[i]@);
        assert(all.contains(x));
        parting_is_complete(all, x);
    }
    if r.load is Some {
        issues_are_listed_in_order(r.load->0.issues@);
    }
}

/// The issues about security, and those that are not, are so.
proof fn lemma_about_category(list: Seq<IssueView>, security: bool)
    ensures
        forall|i: int|
            0 <= i < issues_about(list, security).len() ==> ((#[trigger] issues_about(
                list,
                security,
            )[i]).category == IssueCategory::Security) == security,
    decreases list.len(),
{
    if list.len() > 0 {
        lemma_about_category(list.drop_last(), security);
        parting_goes_by_category(
            list.drop_last(),
            seq![list.last()],
            list.last(),
            security,
        );
        assert(list =~= list.drop_last() + seq![list.last()]);
    }
}

/// Paths to skip start with a slash, and what is refused does not; reading only the paths gives
/// the same paths.
pub proof fn skip_paths_are_read(input: &str, list: SkipList, paths: Vec<String>, i: int)
    requires
        call_ensures(read_skip_paths, (input,), list),
        call_ensures(parse_skip_paths, (input,), paths),
    ensures
        views(paths@) == views(list.paths@),
        0 <= i < list.paths@.len() ==> list.paths@[i]@.len() > 0 && list.paths@[i]@[0] == '/',
        0 <= i < list.refused@.len() ==> list.refused@[i]@.len() > 0 && list.refused@[i]@[0]
            != '/',
        !input@.contains(',') && trimmed(input@).len() > 0 ==> list.paths@.len()
            + list.refused@.len() == 1,
        !input@.contains(',') && trimmed(input@).len() > 0 && trimmed(input@)[0] == '/'
            ==> list.paths@.len() == 1 && list.paths@[0]@ == trimmed(input@),
{
    skip_paths_start_with_slash(input@);
    texts_are_listed(list.paths@);
    texts_are_listed(list.refused@);
    if 0 <= i < list.paths@.len() {
        assert(views(list.paths@)[i] == list.paths@[i]@);
    }
    if 0 <= i < list.refused@.len() {
        assert(views(list.refused@)[i] == list.refused@[i]@);
    }
    if !input@.contains(',') {
        skip_entries_are_sorted_out(input@);
        if list.paths@.len() == 1 {
            assert(views(list.paths@)[0] == list.paths@[0]@);
        }
    }
}

/// Texts are listed one by one.
proof fn texts_are_listed(list: Seq<String>)
    ensures
        views(list).len() == list.len(),
        forall|i: int| 0 <= i < list.len() ==> #[trigger] views(list)[i] == list[i]@,
{
    if list.len() > 0 {
        texts_are_what_they_hold(list, list[0]);
    } else {
        assert(views(list).len() == list.len());
    }
}

/// A word in lower case names a format or a severity, or it is said which words do.
pub proof fn words_are_parsed(
    s: &str,
    format: Result<OutputFormat, String>,
    severity: Result<Severity, String>,
)
    requires
        call_ensures(OutputFormat::parse, (s,), format),
        call_ensures(parse_severity, (s,), severity),
    ensures
        lowercase(s@) == "json"@ ==> format == Ok::<OutputFormat, String>(OutputFormat::Json),
        lowercase(s@) == "msgpack"@ ==> format == Ok::<OutputFormat, String>(OutputFormat::Msgpack),
        format is Err <==> lowercase(s@) != "json"@ && lowercase(s@) != "msgpack"@,
        format is Err ==> format->Err_0@ == "Unsupported output format: "@ + s@
            + ". Use 'json' or 'msgpack'."@,
        lowercase(s@) == "info"@ ==> severity == Ok::<Severity, String>(Severity::Info),
        lowercase(s@) == "warning"@ ==> severity == Ok::<Severity, String>(Severity::Warning),
        lowercase(s@) == "error"@ ==> severity == Ok::<Severity, String>(Severity::Error),
        lowercase(s@) == "critical"@ ==> severity == Ok::<Severity, String>(Severity::Critical),
        severity is Err ==> severity->Err_0@ == "Invalid severity '"@ + s@
            + "'. Use: info, warning, error, critical"@,
        severity is Err <==> lowercase(s@) != "info"@ && lowercase(s@) != "warning"@ && lowercase(
            s@,
        ) != "warn"@ && lowercase(s@) != "error"@ && lowercase(s@) != "critical"@ && lowercase(s@)
            != "crit"@,
{
    words_name_settings(lowercase(s@));
}

/// How many pages of an issue are listed is what was asked for, or more where more is to be said;
/// a load test is run by some users only, and of the target where nothing else was found.
pub proof fn settings_have_their_defaults(
    asked: usize,
    verbose: bool,
    given: usize,
    much: usize,
    little: usize,
    no_load: bool,
    users: u32,
    runs: bool,
    target: &str,
    discovered: Vec<String>,
    targets: Vec<String>,
)
    requires
        call_ensures(pages_per_issue, (Some(asked), verbose), given),
        call_ensures(pages_per_issue, (None, true), much),
        call_ensures(pages_per_issue, (None, false), little),
        call_ensures(runs_load_test, (no_load, users), runs),
        call_ensures(load_targets, (target, discovered), targets),
    ensures
        given == asked,
        much == 100 && little == 20,
        runs <==> !no_load && users > 0,
        targets@.len() > 0,
        discovered@.len() == 0 ==> targets@.len() == 1 && targets@[0]@ == target@,
        discovered@.len() > 0 ==> views(targets@) == views(discovered@),
{
    texts_are_listed(targets@);
    texts_are_listed(discovered@);
    if discovered@.len() == 0 {
        assert(views(targets@)[0] == targets@[0]@);
    }
}

/// A limit keeps the first URLs; a path that was given for a report is used as it is.
pub proof fn limits_and_paths_are_kept(
    urls: Vec<String>,
    limit: usize,
    few: Vec<String>,
    all: Vec<String>,
    path: std::path::PathBuf,
    prefix: &str,
    format: OutputFormat,
    used: std::path::PathBuf,
)
    requires
        call_ensures(limit_urls, (urls, Some(limit)), few),
        call_ensures(limit_urls, (urls, None), all),
        call_ensures(resolve_output, (Some(path), prefix, format), used),
    ensures
        all@ == urls@,
        few@.len() <= limit,
        few@ == urls@.take(few@.len() as int),
        few@.len() < limit ==> few@ == urls@,
        used == path,
{
    limit_keeps_the_beginning(urls@, Some(limit));
    limit_keeps_the_beginning(urls@, None);
    assert(urls@.take(urls@.len() as int) =~= urls@);
}

/// The issues about security are parted from the others.
pub proof fn security_is_parted(issues: Vec<Issue>, r: (Vec<Issue>, Vec<Issue>), i: int)
    requires
        call_ensures(part_security, (&issues,), r),
    ensures
        r.0@.len() + r.1@.len() == issues@.len(),
        0 <= i < r.0@.len() ==> r.0@[i].category != IssueCategory::Security,
        0 <= i < r.1@.len() ==> r.1@[i].category == IssueCategory::Security,
{
    let all = issue_views(issues@);
    issues_are_listed_in_order(issues@);
    issues_are_listed_in_order(r.0@);
    issues_are_listed_in_order(r.1@);
    if all.len() > 0 {
        parting_is_complete(all, all[0]);
    } else {
        assert(issues_about(all, true).len() == 0 && issues_about(all, false).len() == 0);
    }
    lemma_about_category(all, true);
    lemma_about_category(all, false);
    if 0 <= i < r.0@.len() {
        assert(issue_views(r.0@)[i] == r.0@[i]@);
    }
    if 0 <= i < r.1@.len() {
        assert(issue_views(r.1@)[i] == r.1@[i]@);
    }
}

/// The environment and then a profile fill in what is not set, and change nothing that is.
pub proof fn gaps_are_filled(
    auth: AuthConfig,
    username: Option<String>,
    password: Option<String>,
    a: AuthConfig,
    profile: AuthProfile,
    b: AuthConfig,
)
    requires
        call_ensures(AuthConfig::apply_environment, (auth, username, password), a),
        call_ensures(AuthConfig::apply_profile, (auth, &profile), b),
    ensures
        auth.username is Some ==> a@.username == auth@.username && b@.username == auth@.username,
        auth.username is None ==> a@.username == opt_view(username) && b@.username
            == profile@.username,
        auth.password is Some ==> a@.password == auth@.password && b@.password == auth@.password,
        auth.password is None ==> a@.password == opt_view(password) && b@.password
            == profile@.password,
        a@.login_url == auth@.login_url,
        a@.username_selector == auth@.username_selector,
        a@.password_selector == auth@.password_selector,
        a@.submit_selector == auth@.submit_selector,
        a.cookies_file == auth.cookies_file && b.cookies_file == auth.cookies_file,
        auth.login_url is Some ==> b@.login_url == auth@.login_url,
        auth.login_url is None ==> b@.login_url == profile@.login_url,
        auth.username_selector is Some ==> b@.username_selector == auth@.username_selector,
        auth.username_selector is None ==> b@.username_selector == profile@.username_selector,
        auth.password_selector is Some ==> b@.password_selector == auth@.password_selector,
        auth.password_selector is None ==> b@.password_selector == profile@.password_selector,
        auth.submit_selector is Some ==> b@.submit_selector == auth@.submit_selector,
        auth.submit_selector is None ==> b@.submit_selector == profile@.submit_selector,
{
    settings_are_what_they_hold(auth);
    settings_are_what_they_hold(a);
    settings_are_what_they_hold(b);
    profile_is_used_for_gaps(auth@, profile@);
}

/// What is asked of the user follows from what is set: nothing of one who gave no login at all,
/// the login page where only credentials are there, the rest where only the page is.
pub proof fn gaps_are_noticed(
    auth: AuthConfig,
    open: bool,
    no_url: bool,
    no_selectors: bool,
    manual: bool,
    worth: bool,
)
    requires
        call_ensures(AuthConfig::is_open, (&auth,), open),
        call_ensures(AuthConfig::lacks_login_url, (&auth,), no_url),
        call_ensures(AuthConfig::lacks_selectors, (&auth,), no_selectors),
        call_ensures(AuthConfig::is_manual, (&auth,), manual),
        call_ensures(AuthConfig::is_worth_saving, (&auth,), worth),
    ensures
        open <==> auth.login_url is None && auth.username is None && auth.password is None
            && auth.cookies_file is None,
        no_url ==> auth.login_url is None,
        auth.login_url is None && auth.username is Some ==> no_url,
        auth.login_url is None && auth.password is Some ==> no_url,
        auth.username is None && auth.password is None ==> !no_url,
        !no_selectors <==> auth.username_selector is Some && auth.password_selector is Some
            && auth.submit_selector is Some,
        manual ==> !open && !no_url,
        manual <==> auth.login_url is Some && auth.username is None && auth.password is None,
        auth.username is Some ==> worth,
        auth.password is Some ==> worth,
        auth.username_selector is Some ==> worth,
        auth.username is None && auth.password is None && auth.username_selector is None ==> !worth,
        !(open && no_url),
{
    settings_are_what_they_hold(auth);
}

/// Without its credentials a login keeps its page and its cookies.
pub proof fn credentials_are_dropped(auth: AuthConfig, r: AuthConfig)
    requires
        call_ensures(AuthConfig::without_credentials, (auth,), r),
    ensures
        r.username is None && r.password is None,
        r.username_selector is None && r.password_selector is None && r.submit_selector is None,
        r@.login_url == auth@.login_url,
        r.cookies_file == auth.cookies_file,
{
    settings_are_what_they_hold(r);
    settings_are_what_they_hold(auth);
}

/// A profile that was saved is found under its name, however that is written, and holds what was
/// given; other profiles stay.
pub proof fn saved_profile_is_found(
    store: &mut ProfileStore,
    name: &str,
    login_url: Option<String>,
    captured: AuthConfig,
    asked: &str,
    r: Option<&AuthProfile>,
)
    requires
        call_ensures(save_profile, (store, name, login_url, &captured), ()),
        call_ensures(ProfileStore::get, (&*final(store), asked), r),
    ensures
        lowercase(asked@) == lowercase(name@) ==> r is Some && r->0@.name == name@
            && r->0@.login_url == opt_view(login_url) && r->0@.username == captured@.username
            && r->0@.password == captured@.password && r->0@.username_selector
            == captured@.username_selector && r->0@.password_selector
            == captured@.password_selector && r->0@.submit_selector == captured@.submit_selector,
        lowercase(asked@) != lowercase(name@) ==> (r is Some <==> old(store)@.contains_key(
            lowercase(asked@),
        )) && (r is Some ==> r->0@ == old(store)@[lowercase(asked@)]),
{
    profile_holds_what_was_given(name@, opt_view(login_url), captured@);
}

/// A profile that was put in is found under its name, and one that was taken out is not; what is
/// found is what was put in.
pub proof fn profiles_are_put_in(
    store: &mut ProfileStore,
    profile: AuthProfile,
    asked: &str,
    r: Option<&AuthProfile>,
)
    requires
        call_ensures(ProfileStore::upsert, (store, profile), ()),
        call_ensures(ProfileStore::get, (&*final(store), asked), r),
    ensures
        lowercase(asked@) == lowercase(profile.name@) ==> r is Some && r->0@ == profile@,
        lowercase(asked@) != lowercase(profile.name@) ==> (r is Some <==> old(
            store,
        )@.contains_key(lowercase(asked@))),
{
}

/// A profile that is deleted is gone, and no other is; that is told exactly if there was one.
pub proof fn profiles_are_deleted(
    store: &mut ProfileStore,
    name: &str,
    deleted: bool,
    asked: &str,
    before: Option<&AuthProfile>,
    after: Option<&AuthProfile>,
)
    requires
        call_ensures(ProfileStore::get, (&*old(store), asked), before),
        call_ensures(ProfileStore::delete, (store, name), deleted),
        call_ensures(ProfileStore::get, (&*final(store), asked), after),
    ensures
        lowercase(asked@) == lowercase(name@) ==> after is None && deleted == (before is Some),
        lowercase(asked@) != lowercase(name@) ==> (after is Some <==> before is Some) && (after
            is Some ==> after->0@ == before->0@),
{
}

/// Every profile of a store is listed, nothing else is, and the list goes by name.
pub proof fn profiles_are_listed(store: ProfileStore, r: Vec<&AuthProfile>, key: Seq<char>, i: int, j: int)
    requires
        call_ensures(ProfileStore::list, (&store,), r),
    ensures
        store@.contains_key(key) ==> exists|k: int|
            0 <= k < r@.len() && (#[trigger] r@[k])@ == store@[key],
        0 <= i < r@.len() ==> exists|k: Seq<char>| #[trigger]
            store@.contains_key(k) && store@[k] == r@[i]@,
        0 <= i < j < r@.len() ==> text_le(r@[i]@.name, r@[j]@.name),
        r@.len() == store@.dom().len(),
{
    let listed = ref_views(r@);
    let keys = choose|keys: Seq<Seq<char>>| #[trigger] lists_under(store@, listed, keys);
    assert(forall|k: int| 0 <= k < listed.len() ==> #[trigger] listed[k] == r@[k]@);
    keys.unique_seq_to_set();
    assert forall|k: Seq<char>| keys.to_set().contains(k) == store@.dom().contains(k) by {
        assert(keys.contains(k) == store@.contains_key(k));
    }
    assert(keys.to_set() =~= store@.dom());
    if store@.contains_key(key) {
        assert(keys.contains(key));
        let k = choose|k: int| 0 <= k < keys.len() && keys[k] == key;
        assert(listed[k] == store@[keys[k]]);
        assert(r@[k]@ == store@[key]);
    }
    if 0 <= i < r@.len() {
        assert(keys.contains(keys[i]));
        assert(store@.contains_key(keys[i]) && store@[keys[i]] == listed[i]);
    }
}

/// What a store is saved as gives the store back.
pub proof fn store_survives_saving(
    store: ProfileStore,
    entries: Vec<(String, AuthProfile)>,
    loaded: ProfileStore,
    empty: bool,
    key: Seq<char>,
)
    requires
        call_ensures(ProfileStore::to_entries, (&store,), entries),
        call_ensures(ProfileStore::from_entries, (entries,), loaded),
        call_ensures(ProfileStore::is_empty, (&store,), empty),
    ensures
        loaded@ == store@,
        empty ==> !store@.contains_key(key),
{
}

/// A profile is refreshed with the page and the selectors that a login used, under its own name;
/// where those are what it holds already, nothing is written.
pub proof fn profiles_are_refreshed(
    store: &mut ProfileStore,
    name: &str,
    auth: AuthConfig,
    written: bool,
)
    requires
        call_ensures(refresh_profile, (store, name, &auth), written),
    ensures
        !old(store)@.contains_key(lowercase(name@)) ==> !written,
        !written ==> final(store)@ == old(store)@,
        ({
            let was = old(store)@[lowercase(name@)];
            let key = lowercase(was.name);
            &&& old(store)@.contains_key(lowercase(name@)) && auth.login_url is Some
                && auth@.login_url != was.login_url ==> written
            &&& old(store)@.contains_key(lowercase(name@)) && auth.username_selector is Some
                && auth@.username_selector != was.username_selector ==> written
            &&& old(store)@.contains_key(lowercase(name@)) && auth.password_selector is Some
                && auth@.password_selector != was.password_selector ==> written
            &&& old(store)@.contains_key(lowercase(name@)) && auth.submit_selector is Some
                && auth@.submit_selector != was.submit_selector ==> written
            &&& written ==> {
                let now = final(store)@[key];
                &&& final(store)@.contains_key(key)
                &&& now.name == was.name
                &&& auth.login_url is Some ==> now.login_url == auth@.login_url
                &&& auth.login_url is None ==> now.login_url == was.login_url
                &&& auth.username is Some ==> now.username == auth@.username
                &&& auth.password is Some ==> now.password == auth@.password
                &&& auth.username_selector is Some ==> now.username_selector
                    == auth@.username_selector
                &&& auth.username_selector is None ==> now.username_selector
                    == was.username_selector
                &&& auth.password_selector is Some ==> now.password_selector
                    == auth@.password_selector
                &&& auth.submit_selector is Some ==> now.submit_selector == auth@.submit_selector
            }
        }),
{
    settings_are_what_they_hold(auth);
    let was = old(store)@[lowercase(name@)];
    refresh_takes_what_is_given(was, auth@, refreshed(was, auth@));
}

/// An answer is taken without the white space around it, and an empty one is none; a secret is
/// taken as it was typed.
pub proof fn answers_are_read(
    line: &str,
    a: Option<String>,
    typed: String,
    b: Option<String>,
    name: String,
    yes: bool,
    sure: bool,
)
    requires
        call_ensures(answer, (line,), a),
        call_ensures(secret, (typed,), b),
        call_ensures(profile_name, (line,), name),
        call_ensures(says_yes, (line,), yes),
        call_ensures(confirms, (line,), sure),
    ensures
        a is Some <==> trimmed(line@).len() > 0,
        a is Some ==> a->0@ == trimmed(line@),
        b is Some <==> typed@.len() > 0,
        b is Some ==> b->0@ == typed@,
        a is Some ==> name@ == a->0@,
        a is None ==> name@ == "default"@,
        yes <==> trimmed(line@) == "y"@ || trimmed(line@) == "Y"@,
        sure <==> lowercase(trimmed(line@)) == "y"@,
{
    answers_are_taken(line@, None, Seq::empty());
}

/// An entry takes the place of what was there; an empty one leaves it, and a dash takes it away.
pub proof fn entries_are_edited(
    current: Option<String>,
    line: &str,
    typed: String,
    a: Option<String>,
    b: Option<String>,
)
    requires
        call_ensures(edited, (&current, line), a),
        call_ensures(edited_secret, (&current, typed), b),
    ensures
        trimmed(line@).len() == 0 ==> opt_view(a) == opt_view(current),
        trimmed(line@) == "-"@ ==> a is None,
        trimmed(line@).len() > 0 && trimmed(line@) != "-"@ ==> a is Some && a->0@ == trimmed(line@),
        typed@.len() == 0 ==> opt_view(b) == opt_view(current),
        typed@ == "-"@ ==> b is None,
        typed@.len() > 0 && typed@ != "-"@ ==> b is Some && b->0@ == typed@,
{
    answers_are_taken(line@, opt_view(current), trimmed(line@));
    answers_are_taken(line@, opt_view(current), typed@);
    assert(trimmed(line@).len() == 0 ==> trimmed(line@) =~= Seq::empty());
    assert(typed@.len() == 0 ==> typed@ =~= Seq::empty());
    if current is Some {
        texts_are_what_they_hold(Seq::empty(), current->0);
    }
}

/// A profile is picked by its number in the list, counted from one, or else by its name.
pub proof fn profiles_are_picked<'a>(
    store: &'a ProfileStore,
    listed: &Vec<&'a AuthProfile>,
    pick: &str,
    n: Option<usize>,
    r: Option<&'a AuthProfile>,
    named: Option<&'a AuthProfile>,
)
    requires
        call_ensures(parse_count, (pick,), n),
        call_ensures(pick_profile, (store, listed, pick), r),
        call_ensures(ProfileStore::get, (store, pick), named),
    ensures
        n is Some && 1 <= n->0 <= listed@.len() ==> r == Some(listed@[n->0 - 1]),
        n is Some && n->0 > listed@.len() && n->0 > 1 ==> r is None,
        n is None ==> (r is Some <==> named is Some) && (r is Some ==> r->0@ == named->0@),
{
}

/// A driver is reached on its port of this machine.
pub proof fn drivers_are_reached(driver: DriverProcess, url: String, status: String, late: String)
    requires
        call_ensures(DriverProcess::url, (&driver,), url),
        call_ensures(DriverProcess::status_url, (&driver,), status),
        call_ensures(DriverProcess::not_ready, (&driver,), late),
    ensures
        url@ == "http://127.0.0.1:"@ + numeral(driver.port as nat),
        status@ == url@ + "/status"@,
        driver.kind == DriverKind::Gecko ==> late@ == "geckodriver"@
            + " did not become ready within 20s"@,
        driver.kind == DriverKind::Chrome ==> late@ == "chromedriver"@
            + " did not become ready within 20s"@,
        driver.kind == DriverKind::Safari ==> late@ == "safaridriver"@
            + " did not become ready within 20s"@,
{
}

/// The browser search starts with what is there and goes on to the next choice where one fails.
pub proof fn browsers_are_chosen(
    found: Installed,
    first: BrowserStep,
    step: BrowserStep,
    next: BrowserStep,
    why: &str,
)
    requires
        call_ensures(Installed::first, (found,), first),
        call_ensures(Installed::later, (found, step, false), next),
        call_ensures(Installed::safari_reason, (found,), why),
    ensures
        found.firefox && found.geckodriver ==> first == BrowserStep::Spawn(DriverKind::Gecko),
        !(found.firefox && found.geckodriver) && found.chrome && found.chromedriver ==> first
            == BrowserStep::Spawn(DriverKind::Chrome),
        !found.firefox && !found.chrome ==> first == BrowserStep::ProbeSafari,
        step == BrowserStep::InstallChromedriver ==> next == BrowserStep::ProbeSafari,
        step == BrowserStep::ProbeSafari ==> next == BrowserStep::InstallFirefox,
        step == BrowserStep::InstallFirefox ==> next == BrowserStep::GiveUp,
        step == BrowserStep::InstallGeckodriverLast ==> next == BrowserStep::GiveUp,
        !found.firefox && !found.chrome ==> why@ == "Firefox/Chrome not installed"@,
        found.firefox || found.chrome ==> why@ == "driver not found"@,
{
    search_starts_with_what_is_there(found);
    search_goes_on_to_the_next_choice(found);
}

/// A cookie is set as it was given; where some could not be set, that is said with their number.
pub proof fn cookies_are_set(
    entry: CookieEntry,
    cookie: DriverCookie,
    text: String,
    failed: usize,
    total: usize,
    note: Option<String>,
)
    requires
        call_ensures(driver_cookie, (&entry,), cookie),
        call_ensures(assignment, (&entry,), text),
        call_ensures(failure_note, (failed, total), note),
    ensures
        cookie.name@ == entry.name@ && cookie.value@ == entry.value@,
        cookie.secure <==> entry.secure == Some(true),
        cookie.http_only <==> entry.http_only == Some(true),
        (entry.name@ + "="@ + entry.value@).is_prefix_of(text@),
        note is Some <==> failed > 0,
        note is Some ==> note->0@ == numeral(failed as nat) + " of "@ + numeral(total as nat)
            + " cookies failed to inject"@,
{
    driver_gets_the_cookie(entry, cookie);
    script_sets_the_cookie(entry);
}

/// Commands of a session are numbered one after another, from one on, and leave it as it is.
pub proof fn commands_are_numbered(
    session: &mut CdpSession,
    id: u64,
    ws_url: String,
    session_id: String,
    fresh: CdpSession,
)
    requires
        call_ensures(CdpSession::take_id, (session,), id),
        call_ensures(CdpSession::new, (ws_url, session_id), fresh),
    ensures
        id == old(session).next_id,
        id < u64::MAX ==> final(session).next_id == id + 1,
        final(session).ws_url == old(session).ws_url,
        final(session).session_id == old(session).session_id,
        fresh.next_id == 1 && fresh.ws_url == ws_url && fresh.session_id == session_id,
{
    numbers_follow_one_another(id);
}

/// A message that is no JSON answers nothing; one that is answers as it reads.
pub proof fn messages_are_heard(text: &str, id: u64, method: &str, a: Reply, b: Navigation)
    requires
        call_ensures(hear_reply, (text, id, method), a),
        call_ensures(hear_navigation, (text, id), b),
    ensures
        parsed_json(text@) is None ==> a@ == ReplyView::Other && b@ == NavigationView::Pending,
        parsed_json(text@) is Some ==> {
            let message = parsed_json(text@)->0;
            &&& message.natural_of("id"@) != Some(id) ==> a@ == ReplyView::Other
            &&& message.natural_of("id"@) == Some(id) && message.member("error"@) is None
                && message.member("result"@) is Some ==> a@ == ReplyView::Result(
                message.member("result"@)->0,
            )
            &&& message.text_of("method"@) == Some("Page.loadEventFired"@) ==> b@
                == NavigationView::Arrived
            &&& message.text_of("method"@) != Some("Page.loadEventFired"@) && message.natural_of(
                "id"@,
            ) != Some(id) ==> b@ == NavigationView::Pending
        },
{
    if parsed_json(text@) is Some {
        replies_answer_their_command(parsed_json(text@)->0, id, method@);
        navigation_ends_by_event_or_answer(parsed_json(text@)->0, id);
    }
}

/// A session comes of an attachment that has learned its target and its session.
pub proof fn attachments_end_in_sessions(
    attachment: Attachment,
    ws_url: &str,
    r: Result<CdpSession, &'static str>,
)
    requires
        call_ensures(Attachment::finish, (attachment, ws_url), r),
    ensures
        r is Ok <==> attachment.target_id is Some && attachment.session_id is Some,
        r is Ok ==> r->Ok_0.session_id@ == attachment.session_id->0@ && r->Ok_0.ws_url@ == ws_url@
            && r->Ok_0.next_id == 1,
{
    attachment_is_what_it_holds(attachment);
}

/// Scripts work on the element that the selector names, and a text is typed as it is.
pub proof fn scripts_name_their_element(
    selector: &str,
    text: &str,
    find: String,
    all: String,
    click: String,
    clear: String,
    keys: String,
)
    requires
        call_ensures(find_script, (selector,), find),
        call_ensures(find_all_script, (selector,), all),
        call_ensures(click_script, (selector,), click),
        call_ensures(clear_script, (selector,), clear),
        call_ensures(send_keys_script, (selector, text), keys),
    ensures
        ("(function() { var el = document.querySelector('"@ + quoted_selector(
            selector@,
        )).is_prefix_of(find@),
        ("(function() { return Array.from(document.querySelectorAll('"@ + quoted_selector(
            selector@,
        )).is_prefix_of(all@),
        ("(function() { var el = document.querySelector('"@ + quoted_selector(
            selector@,
        )).is_prefix_of(click@),
        ("(function() { var el = document.querySelector('"@ + quoted_selector(
            selector@,
        )).is_prefix_of(clear@),
        ("(function() { var el = document.querySelector('"@ + quoted_selector(selector@)
            + "'); if (el) { el.focus(); el.value = '"@ + quoted_text(text@)).is_prefix_of(keys@),
        "'); if (!el) return null; return el.outerHTML; })()"@.is_suffix_of(find@),
        "')).map(el => el.outerHTML); })()"@.is_suffix_of(all@),
        "'); if (el) el.click(); })()"@.is_suffix_of(click@),
{
}

/// A value counts as at least a limit or above it by size; nothing and both zeros are zero.
pub proof fn doubles_are_compared(
    d: Double,
    limit: Double,
    least: bool,
    above: bool,
    zero: bool,
    none: bool,
    some: bool,
)
    requires
        call_ensures(Double::at_least, (d, limit), least),
        call_ensures(Double::above, (d, limit), above),
        call_ensures(Double::is_zero, (d,), zero),
        call_ensures(is_zero_f64, (&None,), none),
        call_ensures(is_zero_f64, (&Some(d),), some),
        limit.is_non_negative(),
    ensures
        d.is_non_negative() ==> least == (d.bits >= limit.bits) && above == (d.bits > limit.bits),
        above ==> least,
        zero <==> d.bits == 0 || d.bits == 0x8000_0000_0000_0000,
        none,
        some == zero,
{
    doubles_compare_by_value(d, limit, 0, 0);
}

/// Severities are shown by a mark and a word, both in the colour of the severity.
pub proof fn severities_are_painted(
    colored: bool,
    critical: (String, String),
    error: (String, String),
    warning: (String, String),
    info: (String, String),
)
    requires
        call_ensures(severity_style, (&Severity::Critical, colored), critical),
        call_ensures(severity_style, (&Severity::Error, colored), error),
        call_ensures(severity_style, (&Severity::Warning, colored), warning),
        call_ensures(severity_style, (&Severity::Info, colored), info),
    ensures
        critical.0@ == painted("●"@, "red.bold"@, colored),
        critical.1@ == painted("CRITICAL"@, "red.bold"@, colored),
        error.0@ == painted("●"@, "red"@, colored),
        error.1@ == painted("ERROR   "@, "red"@, colored),
        warning.0@ == painted("◆"@, "yellow"@, colored),
        warning.1@ == painted("WARN    "@, "yellow"@, colored),
        info.0@ == painted("·"@, "dim"@, colored),
        info.1@ == painted("INFO    "@, "dim"@, colored),
{
}

/// The text of a report shows each of its issues.
pub proof fn reports_are_rendered(
    report: Report,
    shown: ShownReport,
    colored: bool,
    r: String,
    order: Vec<usize>,
    i: int,
)
    requires
        call_ensures(render_report, (&report, &shown, colored), r),
        call_ensures(report_order, (&report.issues,), order),
    ensures
        0 <= i < report.issues@.len() ==> has_part(r@, report.issues@[i].message@),
        0 <= i < report.issues@.len() && report.issues@[i].element is Some ==> has_part(
            r@,
            report.issues@[i].element->0@,
        ),
{
    if 0 <= i < report.issues@.len() {
        let issue = report.issues@[i];
        let text = issue_text(issue@, report.target_url@, colored);
        report_shows_every_issue(report, shown, colored, order@, i);
        issue_text_tells_of_the_issue(issue@, report.target_url@, colored);
        issue_is_what_it_holds(issue);
        lemma_part_of_part(r@, text, issue.message@);
        if issue.element is Some {
            lemma_part_of_part(r@, text, issue.element->0@);
        }
    }
}

/// A part of a part is a part.
proof fn lemma_part_of_part(s: Seq<char>, t: Seq<char>, part: Seq<char>)
    requires
        has_part(s, t),
        has_part(t, part),
    ensures
        has_part(s, part),
{
    part_stands_between(s, t);
    part_stands_between(t, part);
    part_stands_between(s, part);
    let (a, b) = choose|a: Seq<char>, b: Seq<char>| s == #[trigger] ((a + t) + b);
    let (c, d) = choose|c: Seq<char>, d: Seq<char>| t == #[trigger] ((c + part) + d);
    assert(s =~= ((a + c) + part) + (d + b));
}

/// A reply is yes only if it is the truth itself, and its text is there only if it is a text.
pub proof fn replies_are_read(v: serde_json::Value, yes: bool, no: bool, text: Option<String>, none: Option<String>)
    requires
        call_ensures(reply_is_true, (Some(&v),), yes),
        call_ensures(reply_is_true, (None,), no),
        call_ensures(reply_text, (Some(&v),), text),
        call_ensures(reply_text, (None,), none),
    ensures
        yes <==> json_view(v) == JsonView::Bool(true),
        !no,
        text is Some <==> json_view(v) is Text,
        text is Some ==> json_view(v) == JsonView::Text(text->0@),
        none is None,
{
}

/// Each page that was measured in some way has one report, the reports go by URL, and a report
/// holds nothing of another page.
pub proof fn pages_are_reported(result: CrawlResult, r: Vec<PageReport>, i: int, j: int)
    requires
        call_ensures(page_reports, (&result,), r),
    ensures
        0 <= i < result.perf_metrics@.len() ==> exists|k: int|
            0 <= k < r@.len() && (#[trigger] r@[k]).url@ == result.perf_metrics@[i].page_url@
                && r@[k].perf_metrics is Some,
        0 <= i < result.network_stats@.len() ==> exists|k: int|
            0 <= k < r@.len() && (#[trigger] r@[k]).url@ == result.network_stats@[i].page_url@
                && r@[k].network_stats is Some,
        0 <= i < result.interactions@.len() ==> exists|k: int|
            0 <= k < r@.len() && (#[trigger] r@[k]).url@ == result.interactions@[i].page_url@
                && r@[k].interactions is Some,
        0 <= i < r@.len() ==> r@[i].perf_metrics is Some || r@[i].network_stats is Some
            || r@[i].interactions is Some,
        0 <= i < r@.len() && r@[i].perf_metrics is Some ==> r@[i].perf_metrics->0.page_url@
            == r@[i].url@,
        0 <= i < r@.len() && r@[i].network_stats is Some ==> r@[i].network_stats->0.page_url@
            == r@[i].url@,
        0 <= i < r@.len() && r@[i].interactions is Some ==> r@[i].interactions->0.page_url@
            == r@[i].url@,
        0 <= i < j < r@.len() ==> text_le(r@[i].url@, r@[j].url@) && r@[i].url@ != r@[j].url@,
{
    let pages = report_views(r@);
    let urls = pages.map_values(|p: PageView| p.url);
    measurements_are_listed_in_order(
        result.perf_metrics@,
        result.network_stats@,
        result.interactions@,
        r@,
    );
    assert forall|k: int| 0 <= k < pages.len() implies #[trigger] urls[k] == r@[k].url@
        && pages[k].url == r@[k].url@ by {
        page_report_is_what_it_holds(r@[k]);
        assert(pages[k] == r@[k]@);
    }
    if 0 <= i < result.perf_metrics@.len() {
        let k = speed_is_reported(result, pages, i);
        assert(pages[k] == r@[k]@ && urls[k] == r@[k].url@);
        page_report_is_what_it_holds(r@[k]);
        speed_is_what_it_holds(result.perf_metrics@[i]);
    }
    if 0 <= i < result.network_stats@.len() {
        let k = network_timing_is_reported(result, pages, i);
        assert(pages[k] == r@[k]@ && urls[k] == r@[k].url@);
        page_report_is_what_it_holds(r@[k]);
        network_timing_is_what_it_holds(result.network_stats@[i]);
    }
    if 0 <= i < result.interactions@.len() {
        let k = interaction_is_reported(result, pages, i);
        assert(pages[k] == r@[k]@ && urls[k] == r@[k].url@);
        page_report_is_what_it_holds(r@[k]);
        interactions_are_what_they_hold(result.interactions@[i]);
    }
    if 0 <= i < r@.len() {
        assert(pages[i] == r@[i]@ && urls[i] == r@[i].url@);
        assert(urls.contains(urls[i]));
        page_report_is_what_it_holds(r@[i]);
        lemma_page_is_of_its_url(result, pages, i);
        if r@[i].perf_metrics is Some {
            speed_is_what_it_holds(r@[i].perf_metrics->0);
        }
        if r@[i].network_stats is Some {
            network_timing_is_what_it_holds(r@[i].network_stats->0);
        }
        if r@[i].interactions is Some {
            interactions_are_what_they_hold(r@[i].interactions->0);
        }
    }
    if 0 <= i < j < r@.len() {
        sorted_lists_are_in_order(urls, i, j);
        assert(urls[i] == r@[i].url@ && urls[j] == r@[j].url@);
    }
}

/// What a report on a page holds is of that page, and it holds something.
proof fn lemma_page_is_of_its_url(result: CrawlResult, pages: Seq<PageView>, i: int)
    requires
        reports_pages(result, pages),
        0 <= i < pages.len(),
    ensures
        pages[i].perf_metrics is Some ==> pages[i].perf_metrics->0.page_url == pages[i].url,
        pages[i].network_stats is Some ==> pages[i].network_stats->0.page_url == pages[i].url,
        pages[i].interactions is Some ==> pages[i].interactions->0.page_url == pages[i].url,
        pages[i].perf_metrics is Some || pages[i].network_stats is Some || pages[i].interactions
            is Some,
{
    let urls = pages.map_values(|p: PageView| p.url);
    assert(urls[i] == pages[i].url);
    assert(urls.contains(urls[i]));
    assert(reports_page(result, pages[i]));
}

/// What the browser gave back is read as it is: a text as that text, an element by its source, a
/// list of links or elements item by item.
pub proof fn values_are_read(
    v: serde_json::Value,
    text: String,
    element: Option<Element>,
    elements: Vec<Element>,
    links: Vec<String>,
    no_links: Vec<String>,
    s: Seq<char>,
)
    requires
        call_ensures(value_text, (&v,), text),
        call_ensures(read_element, (&v,), element),
        call_ensures(read_elements, (&v,), elements),
        call_ensures(links_in, (Some(&v),), links),
        call_ensures(links_in, (None,), no_links),
    ensures
        json_view(v).text_of("value"@) == Some(s) ==> text@ == s,
        json_view(v).text_of("value"@) is None ==> text@.len() == 0,
        json_view(v).text_of("value"@) == Some(s) && s.len() > 0 && s != "null"@ ==> element is Some
            && element->0.html@ == s,
        json_view(v).text_of("value"@) is None ==> element is None,
        json_view(v).list_of("value"@) is Some ==> element_sources(elements@) == texts_in(
            json_view(v).list_of("value"@)->0,
        ),
        json_view(v).list_of("value"@) is None ==> elements@.len() == 0,
        no_links@.len() == 0,
        !(json_view(v) is List) ==> links@.len() == 0,
        json_view(v) is List && (forall|i: int|
            0 <= i < json_view(v)->List_0.len() ==> (#[trigger] json_view(v)->List_0[i]).text()
                is Some) ==> views(links@) == texts_in(json_view(v)->List_0),
{
    elements_are_given_by_their_text(json_view(v), s);
    if json_view(v) is List {
        links_are_read_from_texts(json_view(v)->List_0, json_view(v), s);
    } else {
        links_are_read_from_texts(Seq::empty(), json_view(v), s);
    }
    texts_are_listed(links@);
    texts_are_listed(no_links@);
    assert(element_sources(elements@).len() == elements@.len());
}

/// The cookies of a page are read from its text, one by one, whichever way the text came.
pub proof fn page_cookies_are_read(
    v: serde_json::Value,
    text: &str,
    a: Vec<Cookie>,
    b: Vec<Cookie>,
    i: int,
)
    requires
        call_ensures(cookies_in, (&v,), a),
        call_ensures(read_cookies, (text,), b),
        json_view(v).text_of("value"@) == Some(text@),
    ensures
        a@.len() == b@.len(),
        0 <= i < a@.len() ==> a@[i].name@ == b@[i].name@ && a@[i].value@ == b@[i].value@,
        0 <= i < a@.len() ==> a@[i].domain@ == "localhost"@,
{
    let pairs = cookie_pairs(text_pieces(text@, "; "@));
    if 0 <= i < pairs.len() {
        read_cookies_belong_here(a@, pairs, i);
        read_cookies_belong_here(b@, pairs, i);
    }
}

/// A page is ready when it says so, and what it collected is what it gave as a text.
pub proof fn pages_say_when_they_are_ready(
    v: serde_json::Value,
    ready: bool,
    silent: bool,
    text: String,
)
    requires
        call_ensures(dom_is_ready, (Some(&v),), ready),
        call_ensures(dom_is_ready, (None,), silent),
        call_ensures(collected_text, (Some(&v),), text),
    ensures
        ready <==> json_view(v) == JsonView::Text("complete"@) || json_view(v) == JsonView::Text(
            "interactive"@,
        ),
        !silent,
        json_view(v) is Text ==> text@ == json_view(v)->Text_0,
{
    replies_are_taken_as_texts(json_view(v), Seq::empty());
}

/// Latencies are recorded one by one and put together without loss; the percentiles of their
/// spread are those that can be asked for.
pub proof fn latencies_are_recorded(
    latencies: &mut Latencies,
    other: Latencies,
    spread: Spread,
    p50: u64,
    p90: u64,
    p95: u64,
    p99: u64,
    n: u64,
)
    requires
        call_ensures(Latencies::merge, (latencies, &other), ()),
        call_ensures(Latencies::spread, (&other,), spread),
        call_ensures(Latencies::percentile, (&other, 50u32), p50),
        call_ensures(Latencies::percentile, (&other, 90u32), p90),
        call_ensures(Latencies::percentile, (&other, 95u32), p95),
        call_ensures(Latencies::percentile, (&other, 99u32), p99),
        call_ensures(Latencies::len, (&other,), n),
    ensures
        recorded(*final(latencies)).len() == recorded(*old(latencies)).len() + n,
        forall|m: u64| #[trigger]
            recorded(*final(latencies)).count(m) == recorded(*old(latencies)).count(m) + recorded(
                other,
            ).count(m),
        spread.p50 == p50 && spread.p90 == p90 && spread.p95 == p95 && spread.p99 == p99,
        n == 0 ==> spread.min == 0 && spread.max == 0,
{
}

/// Severities go by the words that are shown for them.
pub proof fn severities_are_labelled(critical: &str, error: &str, warning: &str, info: &str)
    requires
        call_ensures(Severity::label, (&Severity::Critical,), critical),
        call_ensures(Severity::label, (&Severity::Error,), error),
        call_ensures(Severity::label, (&Severity::Warning,), warning),
        call_ensures(Severity::label, (&Severity::Info,), info),
    ensures
        critical@ == "CRITICAL"@,
        error@ == "ERROR"@,
        warning@ == "WARN"@,
        info@ == "INFO"@,
{
}

/// Categories go by the words that are shown for them.
pub proof fn categories_are_labelled(category: IssueCategory, label: &str)
    requires
        call_ensures(IssueCategory::label, (&category,), label),
    ensures
        category == IssueCategory::ConsoleError ==> label@ == "Console Error"@,
        category == IssueCategory::NetworkError ==> label@ == "Network Error"@,
        category == IssueCategory::BrokenLink ==> label@ == "Broken Link"@,
        category == IssueCategory::FailedResource ==> label@ == "Failed Resource"@,
        category == IssueCategory::Accessibility ==> label@ == "Accessibility"@,
        category == IssueCategory::Performance ==> label@ == "Performance"@,
        category == IssueCategory::Security ==> label@ == "Security"@,
        category == IssueCategory::Seo ==> label@ == "SEO"@,
        category == IssueCategory::LoadTest ==> label@ == "Load Test"@,
        category == IssueCategory::UnhandledRejection ==> label@ == "Unhandled Rejection"@,
{
}

/// Drivers go by their own names and those of their browsers; where one does not start, it is
/// said how to get it.
pub proof fn drivers_are_named(kind: DriverKind, label: &str, name: &str, failure: &str)
    requires
        call_ensures(DriverKind::label, (kind,), label),
        call_ensures(DriverKind::driver_name, (kind,), name),
        call_ensures(DriverKind::start_failure, (kind,), failure),
    ensures
        kind == DriverKind::Safari ==> label@ == "Safari (safaridriver)"@ && name@
            == "safaridriver"@ && failure@
            == "Failed to start safaridriver.\nEnable it with: safaridriver --enable"@,
        kind == DriverKind::Gecko ==> label@ == "Firefox (geckodriver)"@ && name@ == "geckodriver"@
            && failure@ == "Failed to start geckodriver — run: brew install geckodriver"@,
        kind == DriverKind::Chrome ==> label@ == "Chrome (chromedriver)"@ && name@
            == "chromedriver"@ && failure@
            == "Failed to start chromedriver — run: brew install chromedriver"@,
{
}

/// A worse severity has a higher rank.
pub proof fn severities_rank(a: Severity, b: Severity, x: u8, y: u8)
    requires
        call_ensures(Severity::rank, (&a,), x),
        call_ensures(Severity::rank, (&b,), y),
    ensures
        x == y <==> a == b,
        a == Severity::Info && b != Severity::Info ==> x < y,
        a == Severity::Warning && (b == Severity::Error || b == Severity::Critical) ==> x < y,
        a == Severity::Error && b == Severity::Critical ==> x < y,
{
    severities_are_ranked();
}

} // verus!
