//! The report as it is shown on a terminal.

use vstd::prelude::*;

use crate::issues::{issue_views, report_order, standings, Issue, IssueView, Severity};
use crate::order::{
    in_order, is_rearrangement, is_stable_order, lemma_in_order, picked, sort_texts, sorted,
    stable_order_is_unique,
};
use crate::page::{normal_url, normalize_url};
use crate::report::{LoadTestResult, Report, ReportSummary};
use crate::text::{
    chars_of, decimal, has_part, numeral, part_stands_between, starts_with, text_of, views,
};

verus! {

/// A style of text, by its name: a colour, an emphasis, or both.
pub open spec fn is_style(style: Seq<char>) -> bool {
    ||| style == "cyan"@
    ||| style == "cyan.bold"@
    ||| style == "green"@
    ||| style == "green.bold"@
    ||| style == "red"@
    ||| style == "red.bold"@
    ||| style == "yellow"@
    ||| style == "dim"@
    ||| style == "underlined"@
}

/// The codes that switch a style on.
pub open spec fn style_codes(style: Seq<char>) -> Seq<char> {
    if style == "cyan"@ {
        "\x1b[36m"@
    } else if style == "cyan.bold"@ {
        "\x1b[36m\x1b[1m"@
    } else if style == "green"@ {
        "\x1b[32m"@
    } else if style == "green.bold"@ {
        "\x1b[32m\x1b[1m"@
    } else if style == "red"@ {
        "\x1b[31m"@
    } else if style == "red.bold"@ {
        "\x1b[31m\x1b[1m"@
    } else if style == "yellow"@ {
        "\x1b[33m"@
    } else if style == "dim"@ {
        "\x1b[2m"@
    } else {
        "\x1b[4m"@
    }
}

/// A text in a style: between the codes that switch it on and off, or plain where there are
/// no colours.
pub open spec fn painted(text: Seq<char>, style: Seq<char>, colored: bool) -> Seq<char> {
    if colored {
        style_codes(style) + text + "\x1b[0m"@
    } else {
        text
    }
}

/// `console::Style`: the text in the style that `from_dotted_str` reads from its name. With
/// `force_styling` it stands between the codes of the colour and of the attributes, in this
/// order, and the code that resets them, or it stands alone. Only the styles that are named
/// here are admitted.
#[verifier::external_body]
fn paint(text: &str, style: &str, colored: bool) -> (r: String)
    requires
        is_style(style@),
    ensures
        r@ == painted(text@, style@, colored),
{
    console::Style::from_dotted_str(style).force_styling(colored).apply_to(text).to_string()
}

/// `console::colors_enabled`: whether text on standard output is shown in colours. Nothing
/// is stated of it: it depends on the terminal and the environment.
#[verifier::external_body]
fn colors_enabled() -> (r: bool)
{
    console::colors_enabled()
}

/// What is left of a URL once the target is gone from its front, and the slash after it.
pub open spec fn short_path(url: Seq<char>, target_url: Seq<char>) -> Seq<char> {
    let target = normal_url(target_url);
    if target.is_prefix_of(url) {
        let rest = url.skip(target.len() as int);
        if target.len() > 0 && target.last() == '/' {
            rest
        } else if rest.len() > 0 && rest[0] == '/' {
            rest.skip(1)
        } else {
            rest
        }
    } else {
        url
    }
}

/// What is left of a URL once the target is gone from its front.
pub fn truncate_path(url: &str, target_url: &str) -> (r: String)
    ensures
        r@ == short_path(url@, target_url@),
{
    let target = normalize_url(target_url);
    if starts_with(url, target.as_str()) {
        let x = chars_of(url);
        let t = chars_of(target.as_str());
        let mut from: usize = t.len();
        let ghost rest = url@.skip(t.len() as int);
        if t.len() > 0 && t[t.len() - 1] == '/' {
        } else if from < x.len() && x[from] == '/' {
            assert(rest[0] == '/');
            from = from + 1;
        }
        let r = text_of(&x, from, x.len());
        proof {
            assert(r@ =~= url@.skip(from as int));
            if t.len() < url@.len() {
                assert(rest.skip(1) =~= url@.skip(t.len() + 1));
            }
        }
        r
    } else {
        url.to_string()
    }
}

/// What lies below the target is shown by its path below it.
pub proof fn path_below_target(target_url: Seq<char>, path: Seq<char>)
    requires
        normal_url(target_url).len() > 0 ==> normal_url(target_url).last() != '/',
    ensures
        short_path(normal_url(target_url) + "/"@ + path, target_url) == path,
{
    reveal_strlit("/");
    let target = normal_url(target_url);
    let url = target + "/"@ + path;
    assert(url.subrange(0, target.len() as int) =~= target);
    assert(target.is_prefix_of(url));
    assert(url.skip(target.len() as int) =~= "/"@ + path);
    assert(("/"@ + path).skip(1) =~= path);
}

/// The sign, the word in eight columns and the style of a severity.
pub open spec fn severity_marks(s: Severity) -> (Seq<char>, Seq<char>, Seq<char>) {
    match s {
        Severity::Critical => ("●"@, "CRITICAL"@, "red.bold"@),
        Severity::Error => ("●"@, "ERROR   "@, "red"@),
        Severity::Warning => ("◆"@, "WARN    "@, "yellow"@),
        Severity::Info => ("·"@, "INFO    "@, "dim"@),
    }
}

/// The sign and the word of a severity in its style.
pub fn severity_style(s: &Severity, colored: bool) -> (r: (String, String))
    ensures
        r.0@ == painted(severity_marks(*s).0, severity_marks(*s).2, colored),
        r.1@ == painted(severity_marks(*s).1, severity_marks(*s).2, colored),
{
    match s {
        Severity::Critical => (paint("●", "red.bold", colored), paint("CRITICAL", "red.bold", colored)),
        Severity::Error => (paint("●", "red", colored), paint("ERROR   ", "red", colored)),
        Severity::Warning => (paint("◆", "yellow", colored), paint("WARN    ", "yellow", colored)),
        Severity::Info => (paint("·", "dim", colored), paint("INFO    ", "dim", colored)),
    }
}

/// The ending that tells one from many.
pub open spec fn plural(n: nat) -> Seq<char> {
    if n == 1 {
        ""@
    } else {
        "s"@
    }
}

/// The ending that tells one from many.
pub fn plural_ending(n: u64) -> (r: &'static str)
    ensures
        r@ == plural(n as nat),
{
    if n == 1 {
        ""
    } else {
        "s"
    }
}

/// How the measurements of a report are written: the duration, the throughput and the error
/// rate with one decimal, the latencies in whole milliseconds.
#[derive(Debug)]
pub struct ShownReport {
    pub duration: String,
    pub throughput: String,
    pub error_rate: String,
    pub mean: String,
    pub p50: String,
    pub p90: String,
    pub p95: String,
    pub p99: String,
    pub max: String,
}

/// The line across the report.
pub const RULE: &'static str = "━━━━━━━━━━━━━━━━━━━━━━━━━━━━━━━━━━━━━━━━━━━━━━━━━━━━━━━━━";

/// The line above the issues.
pub const ISSUES_RULE: &'static str = "  ── Issues ──────────────────────────────────────────────────";

/// The line above the load test.
pub const LOAD_RULE: &'static str = "  ── Load Test ─────────────────────────────────────────────";

/// The line across the report, in its style.
pub open spec fn rule_line(colored: bool) -> Seq<char> {
    painted(RULE@, "cyan"@, colored) + "\n"@
}

/// The head of the report.
pub open spec fn head_text(report: Report, shown: ShownReport, colored: bool) -> Seq<char> {
    "\n"@ + rule_line(colored) + "  "@ + painted("webprobe"@, "cyan.bold"@, colored) + " "@ + painted(
        "v"@ + report.version@,
        "dim"@,
        colored,
    ) + "\n  Target : "@ + painted(report.target_url@, "underlined"@, colored) + "\n  Crawled: "@
        + numeral(report.crawl_stats.pages_visited as nat) + " page"@ + plural(
        report.crawl_stats.pages_visited as nat,
    ) + "  |  "@ + shown.duration@ + "s\n"@ + rule_line(colored)
}

/// The pages of an issue as they are shown, in order.
pub open spec fn shown_pages(issue: IssueView, target_url: Seq<char>) -> Seq<Seq<char>> {
    in_order(issue.page_urls.map_values(|u: Seq<char>| short_path(u, target_url)))
}

/// The lines for a list of pages.
pub open spec fn page_lines(pages: Seq<Seq<char>>, colored: bool) -> Seq<char>
    decreases pages.len(),
{
    if pages.len() == 0 {
        Seq::empty()
    } else {
        page_lines(pages.drop_last(), colored) + "    "@ + painted(pages.last(), "dim"@, colored)
            + "\n"@
    }
}

/// How many pages an issue is on.
pub open spec fn page_total(issue: IssueView) -> nat {
    match issue.affected_pages_count {
        Some(n) => n as nat,
        None => issue.page_urls.len(),
    }
}

/// The first five items, or all of them.
pub open spec fn first_five(pages: Seq<Seq<char>>) -> Seq<Seq<char>> {
    if pages.len() > 5 {
        pages.take(5)
    } else {
        pages
    }
}

/// The first line of an issue.
pub open spec fn issue_line(issue: IssueView, colored: bool) -> Seq<char> {
    let marks = severity_marks(issue.severity);
    "  "@ + painted(marks.0, marks.2, colored) + " "@ + painted(marks.1, marks.2, colored) + " "@
        + painted("["@ + issue.category.title() + "]"@, "dim"@, colored) + " "@ + issue.message
        + " ("@ + numeral(page_total(issue)) + " pages)\n"@
}

/// The line for the element of an issue, if it has one.
pub open spec fn element_line(issue: IssueView, colored: bool) -> Seq<char> {
    match issue.element {
        Some(el) => "       "@ + painted("↳ "@ + el, "dim"@, colored) + "\n"@,
        None => ""@,
    }
}

/// The line that tells how many more pages there are, if there are any.
pub open spec fn more_line(total: nat, listed: nat, colored: bool) -> Seq<char> {
    if total > listed {
        "    "@ + painted("·"@, "dim"@, colored) + " "@ + painted(
            numeral((total - listed) as nat),
            "dim"@,
            colored,
        ) + " more\n"@
    } else {
        ""@
    }
}

/// The lines for an issue: what it is, its element, up to five of its pages and how many
/// more there are than are listed.
pub open spec fn issue_text(issue: IssueView, target_url: Seq<char>, colored: bool) -> Seq<char> {
    issue_line(issue, colored) + element_line(issue, colored) + page_lines(
        first_five(shown_pages(issue, target_url)),
        colored,
    ) + more_line(page_total(issue), issue.page_urls.len(), colored)
}

/// The lines for a list of issues.
pub open spec fn issue_list_text(issues: Seq<IssueView>, target_url: Seq<char>, colored: bool) -> Seq<char>
    decreases issues.len(),
{
    if issues.len() == 0 {
        Seq::empty()
    } else {
        issue_list_text(issues.drop_last(), target_url, colored) + issue_text(
            issues.last(),
            target_url,
            colored,
        )
    }
}

/// The issues in the order of a report: graver ones first, then those on more pages; issues
/// that tie keep their order.
pub open spec fn report_sequence(issues: Seq<IssueView>) -> Seq<IssueView> {
    picked(issues, choose|order: Seq<usize>| is_stable_order(standings(issues), order))
}

/// The part of the report that lists the issues.
pub open spec fn issues_text(issues: Seq<IssueView>, target_url: Seq<char>, colored: bool) -> Seq<char> {
    if issues.len() == 0 {
        "\n  "@ + painted("✓"@, "green.bold"@, colored) + " No issues found!\n\n"@
    } else {
        "\n"@ + painted(ISSUES_RULE@, "dim"@, colored) + "\n"@ + issue_list_text(
            report_sequence(issues),
            target_url,
            colored,
        )
    }
}

/// The part of the report on the load test, if there was one.
pub open spec fn load_text(load: Option<LoadTestResult>, shown: ShownReport, colored: bool) -> Seq<char> {
    match load {
        Some(lt) => "\n"@ + painted(LOAD_RULE@, "dim"@, colored) + "\n  "@ + numeral(
            lt.users as nat,
        ) + " users  ×  "@ + numeral(lt.duration_secs as nat) + "s  →  "@ + shown.throughput@
            + " req/s\n  Requests: "@ + numeral(lt.total_requests as nat) + " total  "@ + painted(
            numeral(lt.successful_requests as nat),
            "green"@,
            colored,
        ) + " ok  "@ + painted(numeral(lt.failed_requests as nat), "red"@, colored) + " failed  ("@
            + shown.error_rate@ + "% error rate)\n  Latency  mean:"@ + shown.mean@ + "ms  p50:"@
            + shown.p50@ + "ms  p90:"@ + shown.p90@ + "ms  p95:"@ + shown.p95@ + "ms  p99:"@
            + shown.p99@ + "ms  max:"@ + shown.max@ + "ms\n"@,
        None => ""@,
    }
}

/// The part of the report that counts the issues.
pub open spec fn summary_text(summary: ReportSummary, colored: bool) -> Seq<char> {
    "\n"@ + rule_line(colored) + "  Summary  "@ + painted(
        numeral(summary.critical as nat),
        "red.bold"@,
        colored,
    ) + " critical  "@ + painted(numeral(summary.errors as nat), "red"@, colored) + " errors  "@
        + painted(numeral(summary.warnings as nat), "yellow"@, colored) + " warnings  "@ + painted(
        numeral(summary.infos as nat),
        "dim"@,
        colored,
    ) + " info\n"@ + rule_line(colored) + "\n"@
}

/// The report as it is shown.
pub open spec fn report_text(report: Report, shown: ShownReport, colored: bool) -> Seq<char> {
    head_text(report, shown, colored) + issues_text(
        issue_views(report.issues@),
        report.target_url@,
        colored,
    ) + load_text(report.load_test, shown, colored) + summary_text(report.summary, colored)
}

/// Appends a text in a style.
fn append_painted(out: &mut String, text: &str, style: &str, colored: bool)
    requires
        is_style(style@),
    ensures
        final(out)@ == old(out)@ + painted(text@, style@, colored),
{
    let s = paint(text, style, colored);
    out.append(s.as_str());
}

/// Appends a number.
fn append_number(out: &mut String, n: u64)
    ensures
        final(out)@ == old(out)@ + numeral(n as nat),
{
    let s = decimal(n);
    out.append(s.as_str());
}

/// Appends a number in a style.
fn append_painted_number(out: &mut String, n: u64, style: &str, colored: bool)
    requires
        is_style(style@),
    ensures
        final(out)@ == old(out)@ + painted(numeral(n as nat), style@, colored),
{
    let s = decimal(n);
    append_painted(out, s.as_str(), style, colored);
}

/// The line across the report.
fn rule(colored: bool) -> (r: String)
    ensures
        r@ == rule_line(colored),
{
    let mut s = paint(RULE, "cyan", colored);
    s.append("\n");
    s
}

/// The head of the report.
fn head(report: &Report, shown: &ShownReport, colored: bool) -> (r: String)
    ensures
        r@ == head_text(*report, *shown, colored),
{
    let line = rule(colored);
    let mut version = "v".to_string();
    version.append(report.version.as_str());
    let mut s = "\n".to_string();
    s.append(line.as_str());
    s.append("  ");
    append_painted(&mut s, "webprobe", "cyan.bold", colored);
    s.append(" ");
    append_painted(&mut s, version.as_str(), "dim", colored);
    s.append("\n  Target : ");
    append_painted(&mut s, report.target_url.as_str(), "underlined", colored);
    s.append("\n  Crawled: ");
    append_number(&mut s, report.crawl_stats.pages_visited as u64);
    s.append(" page");
    s.append(plural_ending(report.crawl_stats.pages_visited as u64));
    s.append("  |  ");
    s.append(shown.duration.as_str());
    s.append("s\n");
    s.append(line.as_str());
    s
}

/// The pages of an issue as they are shown, in order.
fn pages_to_show(issue: &Issue, target_url: &str) -> (r: Vec<String>)
    ensures
        views(r@) == shown_pages(issue@, target_url@),
        r.len() == issue.page_urls.len(),
{
    let mut paths: Vec<String> = Vec::new();
    let ghost want = issue@.page_urls.map_values(|u: Seq<char>| short_path(u, target_url@));
    let mut i: usize = 0;
    while i < issue.page_urls.len()
        invariant
            want == issue@.page_urls.map_values(|u: Seq<char>| short_path(u, target_url@)),
            i <= issue.page_urls.len(),
            views(paths@) =~= want.take(i as int),
        decreases issue.page_urls.len() - i,
    {
        let ghost before = views(paths@);
        let path = truncate_path(issue.page_urls[i].as_str(), target_url);
        paths.push(path);
        proof {
            assert(views(paths@) =~= before.push(path@));
        }
        i += 1;
    }
    proof {
        assert(views(paths@) =~= want);
    }
    let r = sort_texts(&paths);
    proof {
        assert(views(r@).len() == views(paths@).len());
    }
    r
}

/// The lines for up to five pages.
fn list_pages(pages: &Vec<String>, colored: bool) -> (r: String)
    ensures
        r@ == page_lines(first_five(views(pages@)), colored),
{
    let mut out = String::new();
    let ghost all = first_five(views(pages@));
    let n: usize = if pages.len() > 5 {
        5
    } else {
        pages.len()
    };
    let mut i: usize = 0;
    proof {
        assert(all.take(0) =~= Seq::<Seq<char>>::empty());
    }
    while i < n
        invariant
            n <= pages.len(),
            n == all.len(),
            all == first_five(views(pages@)),
            i <= n,
            out@ == page_lines(all.take(i as int), colored),
        decreases n - i,
    {
        proof {
            assert(all.take(i + 1).drop_last() =~= all.take(i as int));
            assert(all.take(i + 1).last() == pages@[i as int]@);
        }
        out.append("    ");
        append_painted(&mut out, pages[i].as_str(), "dim", colored);
        out.append("\n");
        i += 1;
    }
    proof {
        assert(all.take(i as int) =~= all);
    }
    out
}

/// The lines for an issue.
fn issue_lines(issue: &Issue, target_url: &str, colored: bool) -> (r: String)
    ensures
        r@ == issue_text(issue@, target_url@, colored),
{
    let pages = pages_to_show(issue, target_url);
    let total: usize = match issue.affected_pages_count {
        Some(n) => n,
        None => issue.page_urls.len(),
    };
    let (icon, word) = severity_style(&issue.severity, colored);
    let mut category = "[".to_string();
    category.append(issue.category.label());
    category.append("]");
    let mut s = "  ".to_string();
    s.append(icon.as_str());
    s.append(" ");
    s.append(word.as_str());
    s.append(" ");
    append_painted(&mut s, category.as_str(), "dim", colored);
    s.append(" ");
    s.append(issue.message.as_str());
    s.append(" (");
    append_number(&mut s, total as u64);
    s.append(" pages)\n");
    proof {
        assert(s@ == issue_line(issue@, colored));
    }
    let element = match &issue.element {
        Some(el) => {
            let mut arrow = "↳ ".to_string();
            arrow.append(el.as_str());
            let mut line = "       ".to_string();
            append_painted(&mut line, arrow.as_str(), "dim", colored);
            line.append("\n");
            line
        },
        None => "".to_string(),
    };
    s.append(element.as_str());
    let list = list_pages(&pages, colored);
    s.append(list.as_str());
    if total > pages.len() {
        let mut line = "    ".to_string();
        append_painted(&mut line, "·", "dim", colored);
        line.append(" ");
        append_painted_number(&mut line, (total - pages.len()) as u64, "dim", colored);
        line.append(" more\n");
        s.append(line.as_str());
    } else {
        s.append("");
    }
    s
}

/// The part of the report that lists the issues.
fn list_issues(issues: &Vec<Issue>, target_url: &str, colored: bool) -> (r: String)
    ensures
        r@ == issues_text(issue_views(issues@), target_url@, colored),
{
    if issues.len() == 0 {
        let mut s = "\n  ".to_string();
        append_painted(&mut s, "✓", "green.bold", colored);
        s.append(" No issues found!\n\n");
        return s;
    }
    let order = report_order(issues);
    let ghost all = issue_views(issues@);
    let ghost ranked = report_sequence(all);
    proof {
        let chosen = choose|order: Seq<usize>| is_stable_order(standings(all), order);
        stable_order_is_unique(standings(all), order@, chosen);
    }
    let mut lines = String::new();
    let mut i: usize = 0;
    proof {
        assert(ranked.take(0) =~= Seq::<IssueView>::empty());
    }
    while i < order.len()
        invariant
            is_stable_order(standings(all), order@),
            all == issue_views(issues@),
            ranked == picked(all, order@),
            i <= order.len(),
            lines@ == issue_list_text(ranked.take(i as int), target_url@, colored),
        decreases order.len() - i,
    {
        proof {
            assert(order@[i as int] < standings(all).len());
            assert(ranked.take(i + 1).drop_last() =~= ranked.take(i as int));
            assert(ranked.take(i + 1).last() == issues@[order@[i as int] as int]@);
        }
        let text = issue_lines(&issues[order[i]], target_url, colored);
        lines.append(text.as_str());
        i += 1;
    }
    proof {
        assert(ranked.take(i as int) =~= ranked);
    }
    let mut s = "\n".to_string();
    append_painted(&mut s, ISSUES_RULE, "dim", colored);
    s.append("\n");
    s.append(lines.as_str());
    s
}

/// The part of the report on the load test.
fn load_part(load: &Option<LoadTestResult>, shown: &ShownReport, colored: bool) -> (r: String)
    ensures
        r@ == load_text(*load, *shown, colored),
{
    match load {
        Some(lt) => {
            let mut s = "\n".to_string();
            append_painted(&mut s, LOAD_RULE, "dim", colored);
            s.append("\n  ");
            append_number(&mut s, lt.users as u64);
            s.append(" users  ×  ");
            append_number(&mut s, lt.duration_secs);
            s.append("s  →  ");
            s.append(shown.throughput.as_str());
            s.append(" req/s\n  Requests: ");
            append_number(&mut s, lt.total_requests);
            s.append(" total  ");
            append_painted_number(&mut s, lt.successful_requests, "green", colored);
            s.append(" ok  ");
            append_painted_number(&mut s, lt.failed_requests, "red", colored);
            s.append(" failed  (");
            s.append(shown.error_rate.as_str());
            s.append("% error rate)\n  Latency  mean:");
            s.append(shown.mean.as_str());
            s.append("ms  p50:");
            s.append(shown.p50.as_str());
            s.append("ms  p90:");
            s.append(shown.p90.as_str());
            s.append("ms  p95:");
            s.append(shown.p95.as_str());
            s.append("ms  p99:");
            s.append(shown.p99.as_str());
            s.append("ms  max:");
            s.append(shown.max.as_str());
            s.append("ms\n");
            s
        },
        None => "".to_string(),
    }
}

/// The part of the report that counts the issues.
fn summary_part(summary: &ReportSummary, colored: bool) -> (r: String)
    ensures
        r@ == summary_text(*summary, colored),
{
    let line = rule(colored);
    let mut s = "\n".to_string();
    s.append(line.as_str());
    s.append("  Summary  ");
    append_painted_number(&mut s, summary.critical as u64, "red.bold", colored);
    s.append(" critical  ");
    append_painted_number(&mut s, summary.errors as u64, "red", colored);
    s.append(" errors  ");
    append_painted_number(&mut s, summary.warnings as u64, "yellow", colored);
    s.append(" warnings  ");
    append_painted_number(&mut s, summary.infos as u64, "dim", colored);
    s.append(" info\n");
    s.append(line.as_str());
    s.append("\n");
    s
}

/// The report as it is shown with or without colours: the issues, the load test and the
/// counts; `shown` has its measurements as they are to be written.
pub fn render_report(report: &Report, shown: &ShownReport, colored: bool) -> (r: String)
    ensures
        r@ == report_text(*report, *shown, colored),
{
    let mut s = head(report, shown, colored);
    let issues = list_issues(&report.issues, report.target_url.as_str(), colored);
    s.append(issues.as_str());
    let load = load_part(&report.load_test, shown, colored);
    s.append(load.as_str());
    let summary = summary_part(&report.summary, colored);
    s.append(summary.as_str());
    s
}

/// The report as it is shown on this terminal, in colours where it has them.
pub fn format_report(report: &Report, shown: &ShownReport) -> (r: String)
    ensures
        exists|colored: bool| r@ == #[trigger] report_text(*report, *shown, colored),
{
    let colored = colors_enabled();
    render_report(report, shown, colored)
}

/// A URL below the target is shown from there on, any other as it is.
pub proof fn foreign_urls_are_shown_whole(url: Seq<char>, target_url: Seq<char>)
    ensures
        !normal_url(target_url).is_prefix_of(url) ==> short_path(url, target_url) == url,
        short_path(normal_url(target_url), target_url).len() == 0,
{
    let target = normal_url(target_url);
    assert(target.subrange(0, target.len() as int) =~= target);
}

/// Without colours a text is shown as it is; with them it stands between codes.
pub proof fn painting_keeps_the_text(text: Seq<char>, style: Seq<char>, colored: bool)
    ensures
        painted(text, style, false) == text,
        painted(text, style, true) == style_codes(style) + text + "\x1b[0m"@,
        has_part(painted(text, style, colored), text),
{
    part_stands_between(painted(text, style, colored), text);
    if colored {
        assert(painted(text, style, true) == ((style_codes(style) + text) + "\x1b[0m"@));
    } else {
        let none = Seq::<char>::empty();
        assert(text =~= ((none + text) + none));
    }
}

/// What is a part of a part is a part of the whole.
proof fn lemma_part_within(a: Seq<char>, middle: Seq<char>, b: Seq<char>, part: Seq<char>)
    requires
        has_part(middle, part),
    ensures
        has_part(a + middle + b, part),
        has_part(a + middle, part),
        has_part(middle + b, part),
{
    part_stands_between(middle, part);
    let (x, y) = choose|x: Seq<char>, y: Seq<char>| middle == #[trigger] ((x + part) + y);
    let none = Seq::<char>::empty();
    assert(a + middle + b =~= (((a + x) + part) + (y + b)));
    part_stands_between(a + middle + b, part);
    assert(a + middle =~= (((a + x) + part) + y));
    part_stands_between(a + middle, part);
    assert(middle + b =~= ((x + part) + (y + b)));
    part_stands_between(middle + b, part);
}

/// A text is a part of itself.
proof fn lemma_part_of_itself(s: Seq<char>)
    ensures
        has_part(s, s),
{
    let none = Seq::<char>::empty();
    part_stands_between(s, s);
    assert(s =~= ((none + s) + none));
}

/// The text of a list of issues has the text of each of them.
proof fn lemma_list_has_issue(issues: Seq<IssueView>, target_url: Seq<char>, colored: bool, i: int)
    requires
        0 <= i < issues.len(),
    ensures
        has_part(
            issue_list_text(issues, target_url, colored),
            issue_text(issues[i], target_url, colored),
        ),
    decreases issues.len(),
{
    let front = issue_list_text(issues.drop_last(), target_url, colored);
    let last = issue_text(issues.last(), target_url, colored);
    if i == issues.len() - 1 {
        lemma_part_of_itself(last);
        lemma_part_within(front, last, Seq::empty(), last);
    } else {
        lemma_list_has_issue(issues.drop_last(), target_url, colored, i);
        assert(issues.drop_last()[i] == issues[i]);
        lemma_part_within(Seq::empty(), front, last, issue_text(issues[i], target_url, colored));
    }
}

/// The text of an issue has its message and its element, whatever the colours, and its number of
/// pages is the one that was counted, or else that of the pages it lists.
pub proof fn issue_text_tells_of_the_issue(issue: IssueView, target_url: Seq<char>, colored: bool)
    ensures
        has_part(issue_text(issue, target_url, colored), issue.message),
        issue.element is Some ==> has_part(
            issue_text(issue, target_url, colored),
            issue.element->0,
        ),
        issue.affected_pages_count is Some ==> page_total(issue) == issue.affected_pages_count->0,
        issue.affected_pages_count is None ==> page_total(issue) == issue.page_urls.len(),
{
    let line = issue_line(issue, colored);
    let element = element_line(issue, colored);
    let pages = page_lines(first_five(shown_pages(issue, target_url)), colored);
    let more = more_line(page_total(issue), issue.page_urls.len(), colored);
    lemma_line_has_message(issue, colored);
    lemma_four_parts(line, element, pages, more, issue.message);
    if issue.element is Some {
        lemma_line_has_element(issue, colored);
        lemma_four_parts(line, element, pages, more, issue.element->0);
    }
}

/// What is a part of one of four texts in a row is a part of the whole.
proof fn lemma_four_parts(a: Seq<char>, b: Seq<char>, c: Seq<char>, d: Seq<char>, part: Seq<char>)
    ensures
        has_part(a, part) || has_part(b, part) ==> has_part(a + b + c + d, part),
{
    if has_part(a, part) {
        lemma_part_within(a, a, b, part);
    }
    if has_part(b, part) {
        lemma_part_within(a, b, c, part);
    }
    if has_part(a, part) || has_part(b, part) {
        lemma_part_within(a, a + b, c, part);
        lemma_part_within(a, a + b + c, d, part);
    }
}

/// The line of an issue has its message.
proof fn lemma_line_has_message(issue: IssueView, colored: bool)
    ensures
        has_part(issue_line(issue, colored), issue.message),
{
    let marks = severity_marks(issue.severity);
    let m = issue.message;
    let front = "  "@ + painted(marks.0, marks.2, colored) + " "@ + painted(
        marks.1,
        marks.2,
        colored,
    ) + " "@ + painted("["@ + issue.category.title() + "]"@, "dim"@, colored) + " "@;
    lemma_part_of_itself(m);
    lemma_part_within(front, m, " ("@, m);
    lemma_part_within(m, front + m, " ("@, m);
    lemma_part_within(m, front + m + " ("@, numeral(page_total(issue)), m);
    lemma_part_within(m, front + m + " ("@ + numeral(page_total(issue)), " pages)\n"@, m);
}

/// The line for the element of an issue has it.
proof fn lemma_line_has_element(issue: IssueView, colored: bool)
    requires
        issue.element is Some,
    ensures
        has_part(element_line(issue, colored), issue.element->0),
{
    let el = issue.element->0;
    let marked = "↳ "@ + el;
    let shown = painted(marked, "dim"@, colored);
    lemma_part_of_itself(el);
    lemma_part_within("↳ "@, el, el, el);
    if colored {
        lemma_part_within(style_codes("dim"@), marked, "\x1b[0m"@, el);
    }
    lemma_part_within("       "@, shown, "\n"@, el);
}

/// Without colours, the line of an issue has the mark and the word of its severity, its category,
/// its message and its number of pages, in this order.
pub proof fn issue_line_goes_in_order(issue: IssueView)
    ensures
        issue_line(issue, false) == "  "@ + (if issue.severity == Severity::Critical
            || issue.severity == Severity::Error {
            "●"@
        } else if issue.severity == Severity::Warning {
            "◆"@
        } else {
            "·"@
        }) + " "@ + (match issue.severity {
            Severity::Critical => "CRITICAL"@,
            Severity::Error => "ERROR   "@,
            Severity::Warning => "WARN    "@,
            Severity::Info => "INFO    "@,
        }) + " "@ + ("["@ + issue.category.title() + "]"@) + " "@ + issue.message + " ("@ + numeral(
            page_total(issue),
        ) + " pages)\n"@,
{
}

/// The report that is shown has the text of every issue of the report; `order` is that in which
/// they are shown.
pub proof fn report_shows_every_issue(
    report: Report,
    shown: ShownReport,
    colored: bool,
    order: Seq<usize>,
    i: int,
)
    requires
        is_stable_order(standings(issue_views(report.issues@)), order),
        0 <= i < report.issues@.len(),
    ensures
        has_part(
            report_text(report, shown, colored),
            issue_text(report.issues@[i]@, report.target_url@, colored),
        ),
{
    let issues = issue_views(report.issues@);
    let target = report.target_url@;
    let chosen = choose|o: Seq<usize>| is_stable_order(standings(issues), o);
    assert(standings(issues).len() == issues.len());
    let sequence = report_sequence(issues);
    crate::order::lemma_listing_fits(chosen, issues.len());
    assert(chosen.contains(i as usize));
    let k = choose|k: int| 0 <= k < chosen.len() && chosen[k] == i as usize;
    assert(sequence[k] == issues[i]);
    assert(issues[i] == report.issues@[i]@);
    lemma_list_has_issue(sequence, target, colored, k);
    let part = issue_text(issues[i], target, colored);
    let list = issue_list_text(sequence, target, colored);
    let start = "\n"@ + painted(ISSUES_RULE@, "dim"@, colored) + "\n"@;
    lemma_part_within(start, list, Seq::empty(), part);
    assert(issues_text(issues, target, colored) == start + list);
    let head = head_text(report, shown, colored);
    let rest = load_text(report.load_test, shown, colored) + summary_text(report.summary, colored);
    lemma_part_within(head, issues_text(issues, target, colored), rest, part);
    assert(report_text(report, shown, colored) =~= head + issues_text(issues, target, colored)
        + rest);
}

/// The report that is shown starts with its version, its target, how many pages were crawled and
/// how long it took, and ends with how many issues of each severity there are; in between stand
/// the issues and the load test. Where there is no issue, it says so.
pub proof fn report_shows_its_parts(report: Report, shown: ShownReport, colored: bool)
    ensures
        report_text(report, shown, colored) == head_text(report, shown, colored) + issues_text(
            issue_views(report.issues@),
            report.target_url@,
            colored,
        ) + load_text(report.load_test, shown, colored) + summary_text(report.summary, colored),
        head_text(report, shown, false) == "\n"@ + (RULE@ + "\n"@) + "  "@ + "webprobe"@ + " "@ + (
        "v"@ + report.version@) + "\n  Target : "@ + report.target_url@ + "\n  Crawled: "@
            + numeral(report.crawl_stats.pages_visited as nat) + " page"@ + (
        if report.crawl_stats.pages_visited == 1 {
            ""@
        } else {
            "s"@
        }) + "  |  "@ + shown.duration@ + "s\n"@ + (RULE@ + "\n"@),
        report.issues@.len() == 0 ==> issues_text(
            issue_views(report.issues@),
            report.target_url@,
            false,
        ) == "\n  "@ + "✓"@ + " No issues found!\n\n"@,
        summary_text(report.summary, false) == "\n"@ + (RULE@ + "\n"@) + "  Summary  "@ + numeral(
            report.summary.critical as nat,
        ) + " critical  "@ + numeral(report.summary.errors as nat) + " errors  "@ + numeral(
            report.summary.warnings as nat,
        ) + " warnings  "@ + numeral(report.summary.infos as nat) + " info\n"@ + (RULE@ + "\n"@)
            + "\n"@,
{
    assert(issue_views(report.issues@).len() == report.issues@.len());
}

/// The load test that is shown has its numbers and its latencies, each under its own name.
pub proof fn report_shows_the_load_test(load: LoadTestResult, shown: ShownReport)
    ensures
        load_text(Some(load), shown, false) == "\n"@ + LOAD_RULE@ + "\n  "@ + numeral(
            load.users as nat,
        ) + " users  ×  "@ + numeral(load.duration_secs as nat) + "s  →  "@ + shown.throughput@
            + " req/s\n  Requests: "@ + numeral(load.total_requests as nat) + " total  "@ + numeral(
            load.successful_requests as nat,
        ) + " ok  "@ + numeral(load.failed_requests as nat) + " failed  ("@ + shown.error_rate@
            + "% error rate)\n  Latency  mean:"@ + shown.mean@ + "ms  p50:"@ + shown.p50@
            + "ms  p90:"@ + shown.p90@ + "ms  p95:"@ + shown.p95@ + "ms  p99:"@ + shown.p99@
            + "ms  max:"@ + shown.max@ + "ms\n"@,
        load_text(None, shown, true).len() == 0,
{
    reveal_strlit("");
}

/// Up to five pages of an issue are listed, and how many more there are is said exactly if some
/// are not listed at all.
pub proof fn five_pages_are_shown(pages: Seq<Seq<char>>, total: nat, listed: nat)
    ensures
        first_five(pages) == pages.take(first_five(pages).len() as int),
        first_five(pages).len() == if pages.len() > 5 {
            5int
        } else {
            pages.len() as int
        },
        total > listed ==> more_line(total, listed, false) == "    "@ + "·"@ + " "@ + numeral(
            (total - listed) as nat,
        ) + " more\n"@,
        total <= listed ==> more_line(total, listed, false).len() == 0,
        plural(1).len() == 0,
        total != 1 ==> plural(total) == "s"@,
{
    reveal_strlit("");
    assert(pages.take(pages.len() as int) =~= pages);
}

/// The issues are shown from the gravest to the mildest, and among equally grave ones from those
/// on the most pages to those on the fewest; issues that tie keep their order.
pub proof fn gravest_issues_are_shown_first(issues: Seq<IssueView>, order: Seq<usize>, i: int, j: int)
    requires
        is_stable_order(standings(issues), order),
        0 <= i < j < issues.len(),
    ensures
        report_sequence(issues).len() == issues.len(),
        forall|k: int|
            0 <= k < issues.len() ==> #[trigger] report_sequence(issues)[k]
                == issues[order[k] as int],
        ({
            let (a, b) = (report_sequence(issues)[i], report_sequence(issues)[j]);
            &&& a.severity.level() >= b.severity.level()
            &&& a.severity == b.severity && a.affected_pages_count is Some
                && b.affected_pages_count is Some ==> a.affected_pages_count->0
                >= b.affected_pages_count->0
            &&& a.severity == b.severity && a.affected_pages_count == b.affected_pages_count
                ==> order[i] < order[j]
        }),
{
    let keys = standings(issues);
    let chosen = choose|o: Seq<usize>| is_stable_order(keys, o);
    stable_order_is_unique(keys, order, chosen);
    assert(keys.len() == issues.len());
    assert(crate::order::ranks_before(keys, order[i], order[j]));
    assert(keys[order[i] as int].severity == issues[order[i] as int].severity);
    assert(keys[order[j] as int].severity == issues[order[j] as int].severity);
}

/// The lines of two lists of pages are those of the one and those of the other; a page has a
/// line of its own.
pub proof fn each_page_has_its_line(a: Seq<Seq<char>>, b: Seq<Seq<char>>, page: Seq<char>, colored: bool)
    ensures
        page_lines(a + b, colored) == page_lines(a, colored) + page_lines(b, colored),
        page_lines(seq![page], false) == "    "@ + page + "\n"@,
    decreases b.len(),
{
    assert(seq![page].drop_last() =~= Seq::<Seq<char>>::empty());
    assert(page_lines(Seq::empty(), false) =~= Seq::<char>::empty());
    assert(page_lines(seq![page], false) =~= "    "@ + page + "\n"@);
    if b.len() == 0 {
        assert(a + b =~= a);
        assert(page_lines(a, colored) + page_lines(b, colored) =~= page_lines(a, colored));
    } else {
        each_page_has_its_line(a, b.drop_last(), page, colored);
        assert((a + b).drop_last() =~= a + b.drop_last());
        assert((a + b).last() == b.last());
        let (x, y) = (page_lines(a, colored), page_lines(b.drop_last(), colored));
        let line = painted(b.last(), "dim"@, colored);
        assert((x + y) + "    "@ + line + "\n"@ =~= x + (y + "    "@ + line + "\n"@));
    }
}

/// The lines of an issue go in order: what it is, its element, the first five of its pages, and
/// how many more it is on than are listed; the pages are shown by their paths, in order.
pub proof fn issue_text_goes_in_order(issue: IssueView, target_url: Seq<char>, pages: Seq<Seq<char>>)
    requires
        sorted(pages),
        is_rearrangement(
            issue.page_urls.map_values(|u: Seq<char>| short_path(u, target_url)),
            pages,
        ),
    ensures
        issue_text(issue, target_url, false) == issue_line(issue, false) + (match issue.element {
            Some(element) => "       "@ + ("↳ "@ + element) + "\n"@,
            None => ""@,
        }) + page_lines(
            if pages.len() > 5 {
                pages.take(5)
            } else {
                pages
            },
            false,
        ) + (if page_total(issue) > issue.page_urls.len() {
            "    "@ + "·"@ + " "@ + numeral((page_total(issue) - issue.page_urls.len()) as nat)
                + " more\n"@
        } else {
            ""@
        }),
{
    lemma_in_order(
        issue.page_urls.map_values(|u: Seq<char>| short_path(u, target_url)),
        pages,
    );
}

/// In colour, the mark and the word of an issue have the colour of its severity, and its category
/// is dim; the text is the same.
pub proof fn issue_line_is_painted(issue: IssueView, colored: bool)
    ensures
        ({
            let style = match issue.severity {
                Severity::Critical => "red.bold"@,
                Severity::Error => "red"@,
                Severity::Warning => "yellow"@,
                Severity::Info => "dim"@,
            };
            let mark = match issue.severity {
                Severity::Critical => "●"@,
                Severity::Error => "●"@,
                Severity::Warning => "◆"@,
                Severity::Info => "·"@,
            };
            let word = match issue.severity {
                Severity::Critical => "CRITICAL"@,
                Severity::Error => "ERROR   "@,
                Severity::Warning => "WARN    "@,
                Severity::Info => "INFO    "@,
            };
            issue_line(issue, colored) == "  "@ + painted(mark, style, colored) + " "@ + painted(
                word,
                style,
                colored,
            ) + " "@ + painted("["@ + issue.category.title() + "]"@, "dim"@, colored) + " "@
                + issue.message + " ("@ + numeral(page_total(issue)) + " pages)\n"@
        }),
{
}

/// Each style has its own codes: the colour first, then the emphasis. Rules are cyan.
pub proof fn styles_have_their_codes(colored: bool)
    ensures
        style_codes("cyan"@) == "\x1b[36m"@,
        style_codes("green"@) == "\x1b[32m"@,
        style_codes("red"@) == "\x1b[31m"@,
        style_codes("yellow"@) == "\x1b[33m"@,
        style_codes("dim"@) == "\x1b[2m"@,
        rule_line(colored) == painted(RULE@, "cyan"@, colored) + "\n"@,
{
    reveal_strlit("cyan");
    reveal_strlit("cyan.bold");
    reveal_strlit("green");
    reveal_strlit("green.bold");
    reveal_strlit("red");
    reveal_strlit("red.bold");
    reveal_strlit("yellow");
    reveal_strlit("dim");
    assert("cyan"@[0] == 'c' && "cyan.bold"@[0] == 'c');
    assert("green"@[0] == 'g' && "green.bold"@[0] == 'g');
    assert("red"@[0] == 'r' && "red.bold"@[0] == 'r');
    assert("yellow"@[0] == 'y' && "dim"@[0] == 'd');
    assert("green"@.len() == 5 && "green.bold"@.len() == 10);
    assert("red"@.len() == 3 && "red.bold"@.len() == 8);
}

} // verus!
