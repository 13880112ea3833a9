//! What the user asks for on the command line.

use vstd::prelude::*;

use crate::issues::{
    deduplicate_issues, is_deduplicated, issue_views, merged_before, Issue, IssueCategory, IssueView, Severity,
};
use crate::profiles::{folds_ascii, lowercase, to_lowercase};
use crate::text::{
    chars_of, is_space, pieces, same_text, split, starts_with, trim, trimmed, views,
    without_leading_space, without_trailing_space,
};

verus! {

/// Every character of `s` is an ASCII digit.
pub open spec fn all_digits(s: Seq<char>) -> bool {
    forall|i: int| 0 <= i < s.len() ==> '0' <= #[trigger] s[i] <= '9'
}

/// The URL that a target stands for: a port number of this machine, a full URL, or a host
/// with or without a port.
pub open spec fn target_url(input: Seq<char>) -> Seq<char> {
    let t = trimmed(input);
    if all_digits(t) {
        "http://localhost:"@ + t
    } else if "http://"@.is_prefix_of(t) || "https://"@.is_prefix_of(t) {
        t
    } else {
        "http://"@ + t
    }
}

/// Every character of `s` is an ASCII digit.
fn has_digits_only(s: &str) -> (r: bool)
    ensures
        r == all_digits(s@),
{
    let x = chars_of(s);
    let mut i: usize = 0;
    while i < x.len()
        invariant
            x@ == s@,
            i <= x.len(),
            forall|j: int| 0 <= j < i ==> '0' <= #[trigger] x@[j] <= '9',
        decreases x.len() - i,
    {
        if x[i] < '0' || x[i] > '9' {
            assert(!('0' <= s@[i as int] <= '9'));
            return false;
        }
        i += 1;
    }
    true
}

/// Accepts a port number, a host with or without a port, or a full URL; returns a full URL.
pub fn normalize_url(input: &str) -> (r: String)
    ensures
        r@ == target_url(input@),
{
    let t = trim(input);
    if has_digits_only(t.as_str()) {
        let mut s = "http://localhost:".to_string();
        s.append(t.as_str());
        s
    } else if starts_with(t.as_str(), "http://") || starts_with(t.as_str(), "https://") {
        t
    } else {
        let mut s = "http://".to_string();
        s.append(t.as_str());
        s
    }
}

/// The entries of a comma-separated list that satisfy `keep`, without white space around
/// them.
pub open spec fn entries_where(list: Seq<Seq<char>>, keep: spec_fn(Seq<char>) -> bool) -> Seq<
    Seq<char>,
>
    decreases list.len(),
{
    if list.len() == 0 {
        Seq::empty()
    } else {
        let before = entries_where(list.drop_last(), keep);
        let entry = trimmed(list.last());
        if keep(entry) {
            before.push(entry)
        } else {
            before
        }
    }
}

/// The paths to skip that a comma-separated list names: its entries that start with a
/// slash.
pub open spec fn skip_paths(input: Seq<char>) -> Seq<Seq<char>> {
    entries_where(pieces(input, ','), |e: Seq<char>| e.len() > 0 && e[0] == '/')
}

/// The entries of a comma-separated list that name no path: those that are not empty and do
/// not start with a slash.
pub open spec fn bad_paths(input: Seq<char>) -> Seq<Seq<char>> {
    entries_where(pieces(input, ','), |e: Seq<char>| e.len() > 0 && e[0] != '/')
}

/// The paths of a list to skip, and the entries that were refused.
#[derive(Debug)]
pub struct SkipList {
    pub paths: Vec<String>,
    pub refused: Vec<String>,
}

/// Reads a comma-separated list of paths to skip. An entry must start with a slash; one
/// that does not is refused, and the user is to be warned.
pub fn read_skip_paths(input: &str) -> (r: SkipList)
    ensures
        views(r.paths@) == skip_paths(input@),
        views(r.refused@) == bad_paths(input@),
{
    let list = split(input, ',');
    let ghost all = pieces(input@, ',');
    let ghost good = |e: Seq<char>| e.len() > 0 && e[0] == '/';
    let ghost bad = |e: Seq<char>| e.len() > 0 && e[0] != '/';
    let mut paths: Vec<String> = Vec::new();
    let mut refused: Vec<String> = Vec::new();
    let mut i: usize = 0;
    proof {
        assert(all.take(0) =~= Seq::<Seq<char>>::empty());
        assert(views(paths@) =~= Seq::<Seq<char>>::empty());
        assert(views(refused@) =~= Seq::<Seq<char>>::empty());
    }
    while i < list.len()
        invariant
            all == views(list@),
            good == (|e: Seq<char>| e.len() > 0 && e[0] == '/'),
            bad == (|e: Seq<char>| e.len() > 0 && e[0] != '/'),
            i <= list.len(),
            views(paths@) == entries_where(all.take(i as int), good),
            views(refused@) == entries_where(all.take(i as int), bad),
        decreases list.len() - i,
    {
        let entry = trim(list[i].as_str());
        proof {
            assert(all.take(i + 1).drop_last() =~= all.take(i as int));
            assert(all.take(i + 1).last() == list@[i as int]@);
        }
        let x = chars_of(entry.as_str());
        if x.len() > 0 {
            let ghost e = entry@;
            if x[0] == '/' {
                let ghost before = views(paths@);
                paths.push(entry);
                proof {
                    assert(views(paths@) =~= before.push(e));
                }
            } else {
                let ghost before = views(refused@);
                refused.push(entry);
                proof {
                    assert(views(refused@) =~= before.push(e));
                }
            }
        }
        i += 1;
    }
    proof {
        assert(all.take(i as int) =~= all);
    }
    SkipList { paths, refused }
}

/// The paths to skip that a comma-separated list names.
pub fn parse_skip_paths(input: &str) -> (r: Vec<String>)
    ensures
        views(r@) == skip_paths(input@),
{
    read_skip_paths(input).paths
}

/// How a report is written.
#[derive(Debug, Clone, Copy, PartialEq, Eq, Structural)]
pub enum OutputFormat {
    Json,
    Msgpack,
}

/// The format with that name in lower case.
pub open spec fn format_named(word: Seq<char>) -> Option<OutputFormat> {
    if word == "json"@ {
        Some(OutputFormat::Json)
    } else if word == "msgpack"@ {
        Some(OutputFormat::Msgpack)
    } else {
        None
    }
}

/// The severity with that name in lower case.
pub open spec fn severity_named(word: Seq<char>) -> Option<Severity> {
    if word == "info"@ {
        Some(Severity::Info)
    } else if word == "warning"@ || word == "warn"@ {
        Some(Severity::Warning)
    } else if word == "error"@ {
        Some(Severity::Error)
    } else if word == "critical"@ || word == "crit"@ {
        Some(Severity::Critical)
    } else {
        None
    }
}

/// What a format that is not supported is answered.
pub open spec fn bad_format(given: Seq<char>) -> Seq<char> {
    "Unsupported output format: "@ + given + ". Use 'json' or 'msgpack'."@
}

/// What a severity that is none is answered.
pub open spec fn bad_severity(given: Seq<char>) -> Seq<char> {
    "Invalid severity '"@ + given + "'. Use: info, warning, error, critical"@
}

impl OutputFormat {
    /// The file name extension of the format.
    pub open spec fn ending(self) -> Seq<char> {
        match self {
            OutputFormat::Json => "json"@,
            OutputFormat::Msgpack => "msgpack"@,
        }
    }

    /// The format with that name in lower case.
    pub fn named(word: &str) -> (r: Option<OutputFormat>)
        ensures
            r == format_named(word@),
    {
        if same_text(word, "json") {
            Some(OutputFormat::Json)
        } else if same_text(word, "msgpack") {
            Some(OutputFormat::Msgpack)
        } else {
            None
        }
    }

    /// The format with that name in any case, or what to answer.
    pub fn parse(s: &str) -> (r: Result<OutputFormat, String>)
        ensures
            match format_named(lowercase(s@)) {
                Some(f) => r == Ok::<OutputFormat, String>(f),
                None => r is Err && r->Err_0@ == bad_format(s@),
            },
            folds_ascii(s@),
    {
        let word = to_lowercase(s);
        match OutputFormat::named(word.as_str()) {
            Some(f) => Ok(f),
            None => {
                let mut m = "Unsupported output format: ".to_string();
                m.append(s);
                m.append(". Use 'json' or 'msgpack'.");
                Err(m)
            },
        }
    }

    /// The file name extension of the format.
    pub fn extension(self) -> (r: &'static str)
        ensures
            r@ == self.ending(),
    {
        match self {
            OutputFormat::Json => "json",
            OutputFormat::Msgpack => "msgpack",
        }
    }
}

/// The severity with that name in lower case.
pub fn named_severity(word: &str) -> (r: Option<Severity>)
    ensures
        r == severity_named(word@),
{
    if same_text(word, "info") {
        Some(Severity::Info)
    } else if same_text(word, "warning") || same_text(word, "warn") {
        Some(Severity::Warning)
    } else if same_text(word, "error") {
        Some(Severity::Error)
    } else if same_text(word, "critical") || same_text(word, "crit") {
        Some(Severity::Critical)
    } else {
        None
    }
}

/// The severity with that name in any case, or what to answer.
pub fn parse_severity(s: &str) -> (r: Result<Severity, String>)
    ensures
        match severity_named(lowercase(s@)) {
            Some(x) => r == Ok::<Severity, String>(x),
            None => r is Err && r->Err_0@ == bad_severity(s@),
        },
        folds_ascii(s@),
{
    let word = to_lowercase(s);
    match named_severity(word.as_str()) {
        Some(x) => Ok(x),
        None => {
            let mut m = "Invalid severity '".to_string();
            m.append(s);
            m.append("'. Use: info, warning, error, critical");
            Err(m)
        },
    }
}

/// The name of a report file made at the moment `stamp`.
pub open spec fn stamped_name(prefix: Seq<char>, stamp: Seq<char>, format: OutputFormat) -> Seq<char> {
    prefix + "-"@ + stamp + "."@ + format.ending()
}

/// The name of a report file made at the moment `stamp`.
pub fn output_name(prefix: &str, stamp: &str, format: OutputFormat) -> (r: String)
    ensures
        r@ == stamped_name(prefix@, stamp@, format),
{
    let mut s = prefix.to_string();
    s.append("-");
    s.append(stamp);
    s.append(".");
    s.append(format.extension());
    s
}

/// `s` ends in a date and a time of day, as in `20240131-235959`; before them stand more
/// digits of the year or its sign, if it has any.
pub open spec fn is_stamp(s: Seq<char>) -> bool {
    &&& s.len() >= 15
    &&& s[s.len() - 7] == '-'
    &&& forall|i: int|
        s.len() - 15 <= i < s.len() && i != s.len() - 7 ==> '0' <= #[trigger] s[i] <= '9'
}

/// `chrono::Local::now` reads the clock and the time zone; `format` writes the moment down
/// as `YYYYMMDD-HHMMSS`. Which moment that is depends on the time of the call: stated is the
/// form alone.
#[verifier::external_body]
fn local_stamp() -> (r: String)
    ensures
        is_stamp(r@),
{
    chrono::Local::now().format("%Y%m%d-%H%M%S").to_string()
}

/// The path that a text names.
pub uninterp spec fn named_path(text: Seq<char>) -> std::path::PathBuf;

/// `std::path::PathBuf` from a text: the path of that name.
#[verifier::external_body]
fn path_of(text: String) -> (r: std::path::PathBuf)
    ensures
        r == named_path(text@),
{
    std::path::PathBuf::from(text)
}

/// The path to write a report to: the one that was given, or else a name made of `prefix`
/// and the current moment.
pub fn resolve_output(path: Option<std::path::PathBuf>, prefix: &str, format: OutputFormat) -> (r:
    std::path::PathBuf)
    ensures
        match path {
            Some(p) => r == p,
            None => exists|stamp: Seq<char>|
                is_stamp(stamp) && r == named_path(
                    #[trigger] stamped_name(prefix@, stamp, format),
                ),
        },
{
    match path {
        Some(p) => p,
        None => {
            let stamp = local_stamp();
            let name = output_name(prefix, stamp.as_str(), format);
            path_of(name)
        },
    }
}

/// The name of one of several report files: `suffix` stands before the extension, which is
/// that of the given name or else that of the format. A name without a stem is `report`.
pub open spec fn suffixed(
    stem: Option<Seq<char>>,
    suffix: Seq<char>,
    extension: Option<Seq<char>>,
    format: OutputFormat,
) -> Seq<char> {
    (match stem {
        Some(s) => s,
        None => "report"@,
    }) + "."@ + suffix + "."@ + (match extension {
        Some(e) => e,
        None => format.ending(),
    })
}

/// The name of one of several report files.
pub fn suffixed_name(stem: Option<&str>, suffix: &str, extension: Option<&str>, format: OutputFormat) -> (r:
    String)
    ensures
        r@ == suffixed(
            match stem {
                Some(s) => Some(s@),
                None => None,
            },
            suffix@,
            match extension {
                Some(e) => Some(e@),
                None => None,
            },
            format,
        ),
{
    let mut s = match stem {
        Some(s) => s.to_string(),
        None => "report".to_string(),
    };
    s.append(".");
    s.append(suffix);
    s.append(".");
    s.append(match extension {
        Some(e) => e,
        None => format.extension(),
    });
    s
}

/// How many pages of an issue a report lists: as many as were asked for, or else 20, or 100
/// in a verbose report.
pub fn pages_per_issue(asked: Option<usize>, verbose: bool) -> (r: usize)
    ensures
        r == match asked {
            Some(n) => n,
            None => if verbose {
                100
            } else {
                20
            },
        },
{
    match asked {
        Some(n) => n,
        None => if verbose {
            100
        } else {
            20
        },
    }
}

/// The issues of `list` that are at least as grave as `min`.
pub open spec fn grave_issues(list: Seq<IssueView>, min: Severity) -> Seq<IssueView>
    decreases list.len(),
{
    if list.len() == 0 {
        Seq::empty()
    } else {
        let before = grave_issues(list.drop_last(), min);
        if list.last().severity.level() >= min.level() {
            before.push(list.last())
        } else {
            before
        }
    }
}

/// The first `limit` items, or all of them.
pub open spec fn limited<A>(list: Seq<A>, limit: Option<usize>) -> Seq<A> {
    match limit {
        Some(n) => if list.len() > n {
            list.take(n as int)
        } else {
            list
        },
        None => list,
    }
}

/// `r` is what a report keeps of `issues`: without duplicates, at least as grave as `min`,
/// and no more than `limit` of them.
pub open spec fn is_selection(
    issues: Seq<IssueView>,
    max_pages: nat,
    min: Severity,
    limit: Option<usize>,
    r: Seq<IssueView>,
) -> bool {
    exists|merged: Seq<IssueView>| #[trigger]
        is_deduplicated(issues, max_pages, merged) && r == limited(grave_issues(merged, min), limit)
}

/// The issues that a report keeps: without duplicates, at least as grave as `min`, and the
/// first `limit` of them.
pub fn select_issues(issues: Vec<Issue>, max_pages: usize, min: Severity, limit: Option<usize>) -> (r:
    Vec<Issue>)
    ensures
        is_selection(issue_views(issues@), max_pages as nat, min, limit, issue_views(r@)),
{
    let ghost given = issue_views(issues@);
    let merged = deduplicate_issues(issues, max_pages);
    let ghost all = issue_views(merged@);
    let mut out: Vec<Issue> = Vec::new();
    let mut i: usize = 0;
    proof {
        assert(all.take(0) =~= Seq::<IssueView>::empty());
        assert(issue_views(out@) =~= Seq::<IssueView>::empty());
    }
    while i < merged.len()
        invariant
            all == issue_views(merged@),
            i <= merged.len(),
            issue_views(out@) == grave_issues(all.take(i as int), min),
        decreases merged.len() - i,
    {
        proof {
            assert(all.take(i + 1).drop_last() =~= all.take(i as int));
            assert(all.take(i + 1).last() == merged@[i as int]@);
        }
        if merged[i].severity.rank() >= min.rank() {
            let ghost before = issue_views(out@);
            out.push(merged[i].clone());
            proof {
                assert(issue_views(out@) =~= before.push(merged@[i as int]@));
            }
        }
        i += 1;
    }
    proof {
        assert(all.take(i as int) =~= all);
    }
    let ghost kept = issue_views(out@);
    match limit {
        Some(n) => if out.len() > n {
            out.truncate(n);
            proof {
                assert(issue_views(out@) =~= kept.take(n as int));
            }
        },
        None => {},
    }
    out
}

/// The grave issues of a list are among its issues and keep their order.
proof fn lemma_grave_issues(list: Seq<IssueView>, min: Severity)
    ensures
        forall|i: int|
            0 <= i < grave_issues(list, min).len() ==> list.contains(
                #[trigger] grave_issues(list, min)[i],
            ) && grave_issues(list, min)[i].severity.level() >= min.level(),
        forall|x: IssueView| #[trigger]
            list.contains(x) && x.severity.level() >= min.level() ==> grave_issues(
                list,
                min,
            ).contains(x),
    decreases list.len(),
{
    let kept = grave_issues(list, min);
    if list.len() > 0 {
        let front = list.drop_last();
        lemma_grave_issues(front, min);
        let before = grave_issues(front, min);
        assert forall|i: int| 0 <= i < kept.len() implies list.contains(#[trigger] kept[i])
            && kept[i].severity.level() >= min.level() by {
            if i < before.len() {
                assert(kept[i] == before[i]);
                assert(front.contains(before[i]));
                let k = choose|k: int| 0 <= k < front.len() && front[k] == before[i];
                assert(list[k] == before[i]);
            } else {
                assert(list[list.len() - 1] == list.last());
            }
        }
        assert forall|x: IssueView| #[trigger] list.contains(x) && x.severity.level()
            >= min.level() implies kept.contains(x) by {
            let k = choose|k: int| 0 <= k < list.len() && list[k] == x;
            if k < front.len() {
                assert(front[k] == x);
                assert(front.contains(x));
                assert(before.contains(x));
                let m = choose|m: int| 0 <= m < before.len() && before[m] == x;
                assert(kept[m] == x);
            } else {
                assert(kept[kept.len() - 1] == x);
            }
        }
    }
}

/// In a list in report order, the grave issues are its first ones.
proof fn lemma_grave_is_prefix(merged: Seq<IssueView>, min: Severity)
    requires
        forall|i: int, j: int|
            0 <= i < j < merged.len() ==> merged_before(#[trigger] merged[i], #[trigger] merged[j]),
    ensures
        grave_issues(merged, min) == merged.take(grave_issues(merged, min).len() as int),
        grave_issues(merged, min).len() <= merged.len(),
    decreases merged.len(),
{
    if merged.len() > 0 {
        let front = merged.drop_last();
        assert forall|i: int, j: int| 0 <= i < j < front.len() implies merged_before(
            #[trigger] front[i],
            #[trigger] front[j],
        ) by {
            assert(merged_before(merged[i], merged[j]));
        }
        lemma_grave_is_prefix(front, min);
        let before = grave_issues(front, min);
        if merged.last().severity.level() >= min.level() {
            if before.len() < front.len() {
                lemma_grave_all(front, min);
                let k = choose|k: int|
                    0 <= k < front.len() && (#[trigger] front[k]).severity.level() < min.level();
                assert(merged_before(merged[k], merged[merged.len() - 1]));
            }
            assert(before =~= front);
            assert(grave_issues(merged, min) =~= merged);
            assert(merged.take(merged.len() as int) =~= merged);
        } else {
            assert(merged.take(before.len() as int) =~= front.take(before.len() as int));
        }
    } else {
        assert(merged.take(0) =~= grave_issues(merged, min));
    }
}

/// Only a list with an issue that is not grave enough loses one.
proof fn lemma_grave_all(list: Seq<IssueView>, min: Severity)
    ensures
        grave_issues(list, min).len() <= list.len(),
        grave_issues(list, min).len() < list.len() ==> exists|k: int|
            0 <= k < list.len() && (#[trigger] list[k]).severity.level() < min.level(),
    decreases list.len(),
{
    if list.len() > 0 {
        let front = list.drop_last();
        lemma_grave_all(front, min);
        if list.last().severity.level() < min.level() {
            assert(list[list.len() - 1].severity.level() < min.level());
        } else if grave_issues(front, min).len() < front.len() {
            let k = choose|k: int|
                0 <= k < front.len() && (#[trigger] front[k]).severity.level() < min.level();
            assert(list[k].severity.level() < min.level());
        }
    }
}

/// What a report keeps are the first issues of the deduplicated list, so that whatever the
/// limits drop is less grave, or as grave and on no more pages, than all that is kept.
pub proof fn selection_keeps_gravest(
    issues: Seq<IssueView>,
    max_pages: nat,
    min: Severity,
    limit: Option<usize>,
    merged: Seq<IssueView>,
    r: Seq<IssueView>,
)
    requires
        is_deduplicated(issues, max_pages, merged),
        is_selection(issues, max_pages, min, limit, r),
    ensures
        r.len() <= merged.len(),
        r == merged.take(r.len() as int),
        forall|i: int| 0 <= i < r.len() ==> (#[trigger] r[i]).severity.level() >= min.level(),
        limit is Some ==> r.len() <= limit->0,
        forall|i: int, j: int|
            0 <= i < r.len() <= j < merged.len() ==> merged_before(
                #[trigger] r[i],
                #[trigger] merged[j],
            ),
{
    let other = choose|m: Seq<IssueView>| #[trigger]
        is_deduplicated(issues, max_pages, m) && r == limited(grave_issues(m, min), limit);
    crate::issues::deduplication_is_unique(issues, max_pages, merged, other);
    lemma_grave_is_prefix(merged, min);
    lemma_grave_issues(merged, min);
    let kept = grave_issues(merged, min);
    assert(r =~= merged.take(r.len() as int));
    assert forall|i: int| 0 <= i < r.len() implies (#[trigger] r[i]).severity.level()
        >= min.level() by {
        assert(r[i] == kept[i]);
    }
    assert forall|i: int, j: int| 0 <= i < r.len() <= j < merged.len() implies merged_before(
        #[trigger] r[i],
        #[trigger] merged[j],
    ) by {
        assert(r[i] == merged[i]);
    }
}

/// The issues of `list` about security, or those about anything else.
pub open spec fn issues_about(list: Seq<IssueView>, security: bool) -> Seq<IssueView>
    decreases list.len(),
{
    if list.len() == 0 {
        Seq::empty()
    } else {
        let before = issues_about(list.drop_last(), security);
        if (list.last().category == IssueCategory::Security) == security {
            before.push(list.last())
        } else {
            before
        }
    }
}

/// Parts the issues about security from the others; each part keeps its order. Returns the
/// others first.
pub fn part_security(issues: &Vec<Issue>) -> (r: (Vec<Issue>, Vec<Issue>))
    ensures
        issue_views(r.0@) == issues_about(issue_views(issues@), false),
        issue_views(r.1@) == issues_about(issue_views(issues@), true),
{
    let ghost all = issue_views(issues@);
    let mut others: Vec<Issue> = Vec::new();
    let mut security: Vec<Issue> = Vec::new();
    let mut i: usize = 0;
    proof {
        assert(all.take(0) =~= Seq::<IssueView>::empty());
        assert(issue_views(others@) =~= Seq::<IssueView>::empty());
        assert(issue_views(security@) =~= Seq::<IssueView>::empty());
    }
    while i < issues.len()
        invariant
            all == issue_views(issues@),
            i <= issues.len(),
            issue_views(others@) == issues_about(all.take(i as int), false),
            issue_views(security@) == issues_about(all.take(i as int), true),
        decreases issues.len() - i,
    {
        proof {
            assert(all.take(i + 1).drop_last() =~= all.take(i as int));
            assert(all.take(i + 1).last() == issues@[i as int]@);
        }
        let issue = issues[i].clone();
        if issue.category == IssueCategory::Security {
            let ghost before = issue_views(security@);
            security.push(issue);
            proof {
                assert(issue_views(security@) =~= before.push(issues@[i as int]@));
            }
        } else {
            let ghost before = issue_views(others@);
            others.push(issue);
            proof {
                assert(issue_views(others@) =~= before.push(issues@[i as int]@));
            }
        }
        i += 1;
    }
    proof {
        assert(all.take(i as int) =~= all);
    }
    (others, security)
}

/// Parting loses no issue and makes none up.
pub proof fn parting_is_complete(list: Seq<IssueView>, x: IssueView)
    ensures
        issues_about(list, false).len() + issues_about(list, true).len() == list.len(),
        list.contains(x) == (issues_about(list, false).contains(x) || issues_about(
            list,
            true,
        ).contains(x)),
    decreases list.len(),
{
    if list.len() > 0 {
        let front = list.drop_last();
        parting_is_complete(front, x);
        let security = list.last().category == IssueCategory::Security;
        let before = issues_about(front, security);
        let after = issues_about(list, security);
        assert(after == before.push(list.last()));
        assert(list =~= front.push(list.last()));
        if list.contains(x) {
            let k = choose|k: int| 0 <= k < list.len() && list[k] == x;
            if k < front.len() {
                assert(front[k] == x);
                if before.contains(x) {
                    let m = choose|m: int| 0 <= m < before.len() && before[m] == x;
                    assert(after[m] == x);
                }
            } else {
                assert(after[before.len() as int] == x);
            }
        }
        if after.contains(x) {
            let m = choose|m: int| 0 <= m < after.len() && after[m] == x;
            if m < before.len() {
                assert(before[m] == x);
                assert(front.contains(x));
                let k = choose|k: int| 0 <= k < front.len() && front[k] == x;
                assert(list[k] == x);
            } else {
                assert(list[list.len() - 1] == x);
            }
        }
        if issues_about(list, !security).contains(x) {
            assert(front.contains(x));
            let k = choose|k: int| 0 <= k < front.len() && front[k] == x;
            assert(list[k] == x);
        }
    }
}

/// A load test is to be run.
pub fn runs_load_test(no_load: bool, users: u32) -> (r: bool)
    ensures
        r == (!no_load && users > 0),
{
    !no_load && users > 0
}

/// The URLs to put under load: those that were discovered, or the target where there are
/// none.
pub fn load_targets(target: &str, discovered: Vec<String>) -> (r: Vec<String>)
    ensures
        views(r@) == if discovered.len() == 0 {
            seq![target@]
        } else {
            views(discovered@)
        },
{
    if discovered.len() == 0 {
        let mut r: Vec<String> = Vec::new();
        r.push(target.to_string());
        proof {
            assert(views(r@) =~= seq![target@]);
        }
        r
    } else {
        discovered
    }
}

/// The first `limit` URLs, or all of them.
pub fn limit_urls(urls: Vec<String>, limit: Option<usize>) -> (r: Vec<String>)
    ensures
        r@ == limited(urls@, limit),
{
    let mut urls = urls;
    match limit {
        Some(n) => if urls.len() > n {
            urls.truncate(n);
        },
        None => {},
    }
    urls
}

/// An entry that is kept satisfies what was asked.
proof fn lemma_entries_where(list: Seq<Seq<char>>, keep: spec_fn(Seq<char>) -> bool, i: int)
    requires
        0 <= i < entries_where(list, keep).len(),
    ensures
        keep(entries_where(list, keep)[i]),
    decreases list.len(),
{
    if list.len() > 0 && i < entries_where(list.drop_last(), keep).len() {
        lemma_entries_where(list.drop_last(), keep, i);
    }
}

/// Every path to skip starts with a slash, and no entry that was refused does.
pub proof fn skip_paths_start_with_slash(input: Seq<char>)
    ensures
        forall|i: int|
            0 <= i < skip_paths(input).len() ==> (#[trigger] skip_paths(input)[i]).len() > 0
                && skip_paths(input)[i][0] == '/',
        forall|i: int|
            0 <= i < bad_paths(input).len() ==> (#[trigger] bad_paths(input)[i]).len() > 0
                && bad_paths(input)[i][0] != '/',
{
    let good = |e: Seq<char>| e.len() > 0 && e[0] == '/';
    let bad = |e: Seq<char>| e.len() > 0 && e[0] != '/';
    assert forall|i: int| 0 <= i < skip_paths(input).len() implies (
    #[trigger] skip_paths(input)[i]).len() > 0 && skip_paths(input)[i][0] == '/' by {
        lemma_entries_where(pieces(input, ','), good, i);
    }
    assert forall|i: int| 0 <= i < bad_paths(input).len() implies (
    #[trigger] bad_paths(input)[i]).len() > 0 && bad_paths(input)[i][0] != '/' by {
        lemma_entries_where(pieces(input, ','), bad, i);
    }
}

/// A format is found again by its file name extension.
pub proof fn extension_names_format(format: OutputFormat)
    ensures
        format_named(format.ending()) == Some(format),
{
    reveal_strlit("json");
    reveal_strlit("msgpack");
    assert("json"@.len() == 4 && "msgpack"@.len() == 7);
}

/// A target is a full URL: it starts with `http://` or `https://`, and taken as a target it
/// stands for itself.
pub proof fn target_is_full_url(input: Seq<char>)
    ensures
        "http://"@.is_prefix_of(target_url(input)) || "https://"@.is_prefix_of(target_url(input)),
        target_url(target_url(input)) == target_url(input),
{
    reveal_strlit("http://");
    reveal_strlit("https://");
    reveal_strlit("http://localhost:");
    let t = trimmed(input);
    let r = target_url(input);
    lemma_trimmed(input);
    assert("http://"@.is_prefix_of(r) || "https://"@.is_prefix_of(r)) by {
        if all_digits(t) {
            assert(r.subrange(0, 7) =~= "http://"@);
        } else if !("http://"@.is_prefix_of(t) || "https://"@.is_prefix_of(t)) {
            assert(r.subrange(0, 7) =~= "http://"@);
        }
    }
    assert(r[0] == 'h') by {
        if "http://"@.is_prefix_of(r) {
            assert(r.subrange(0, 7)[0] == 'h');
        } else {
            assert(r.subrange(0, 8)[0] == 'h');
        }
    }
    assert(!all_digits(r)) by {
        assert(!('0' <= r[0] <= '9'));
    }
    assert(!is_space(r.last())) by {
        if all_digits(t) {
            if t.len() > 0 {
                assert(r.last() == t.last());
            } else {
                assert(r.last() == ':');
            }
        } else {
            assert(t.len() > 0);
            assert(r.last() == t.last());
        }
    }
    lemma_trimmed_is_same(r);
}

/// Trimmed text has no white space at its ends.
proof fn lemma_trimmed(s: Seq<char>)
    ensures
        trimmed(s).len() > 0 ==> !is_space(trimmed(s)[0]) && !is_space(trimmed(s).last()),
{
    lemma_leading(s);
    lemma_trailing(without_leading_space(s));
}

/// Trimming the front leaves a front without white space.
proof fn lemma_leading(s: Seq<char>)
    ensures
        without_leading_space(s).len() > 0 ==> !is_space(without_leading_space(s)[0]),
    decreases s.len(),
{
    if s.len() > 0 && is_space(s[0]) {
        lemma_leading(s.drop_first());
    }
}

/// Trimming the end leaves an end without white space, and the front where it was.
proof fn lemma_trailing(s: Seq<char>)
    ensures
        without_trailing_space(s).len() > 0 ==> !is_space(without_trailing_space(s).last())
            && without_trailing_space(s)[0] == s[0],
        without_trailing_space(s).len() <= s.len(),
    decreases s.len(),
{
    if s.len() > 0 && is_space(s.last()) {
        lemma_trailing(s.drop_last());
    }
}

/// A text without white space at its ends is its own trimmed form.
proof fn lemma_trimmed_is_same(s: Seq<char>)
    requires
        s.len() > 0,
        !is_space(s[0]),
        !is_space(s.last()),
    ensures
        trimmed(s) == s,
{
}

/// Report files of different moments have different names.
pub proof fn stamps_part_reports(
    prefix: Seq<char>,
    a: Seq<char>,
    b: Seq<char>,
    format: OutputFormat,
)
    requires
        stamped_name(prefix, a, format) == stamped_name(prefix, b, format),
    ensures
        a == b,
{
    let x = stamped_name(prefix, a, format);
    let y = stamped_name(prefix, b, format);
    let (front, back) = (prefix + "-"@, "."@.len() + format.ending().len());
    assert(x.len() == front.len() + a.len() + back);
    assert(y.len() == front.len() + b.len() + back);
    assert(x.subrange(front.len() as int, (front.len() + a.len()) as int) =~= a);
    assert(y.subrange(front.len() as int, (front.len() + b.len()) as int) =~= b);
}

/// The pieces of two texts with the separator between them are those of the first and those
/// of the second.
proof fn lemma_pieces_join(a: Seq<char>, b: Seq<char>, sep: char)
    ensures
        pieces(a + seq![sep] + b, sep) == pieces(a, sep) + pieces(b, sep),
        pieces(b, sep).len() > 0,
    decreases b.len(),
{
    let all = a + seq![sep] + b;
    if b.len() == 0 {
        assert(all.drop_last() =~= a);
        assert(pieces(all, sep) =~= pieces(a, sep) + pieces(b, sep));
    } else {
        let front = b.drop_last();
        lemma_pieces_join(a, front, sep);
        assert(all.drop_last() =~= a + seq![sep] + front);
        assert(all.last() == b.last());
        assert(pieces(all, sep) =~= pieces(a, sep) + pieces(b, sep));
    }
}

/// The entries of two lists in a row are those of the first and those of the second.
proof fn lemma_entries_join(
    a: Seq<Seq<char>>,
    b: Seq<Seq<char>>,
    keep: spec_fn(Seq<char>) -> bool,
)
    ensures
        entries_where(a + b, keep) == entries_where(a, keep) + entries_where(b, keep),
    decreases b.len(),
{
    if b.len() == 0 {
        assert(a + b =~= a);
    } else {
        lemma_entries_join(a, b.drop_last(), keep);
        assert((a + b).drop_last() =~= a + b.drop_last());
    }
    assert(entries_where(a + b, keep) =~= entries_where(a, keep) + entries_where(b, keep));
}

/// Two lists of paths to skip with a comma between them name the paths of the first and then
/// those of the second; so it is with the entries that are refused.
pub proof fn skip_lists_join(a: Seq<char>, b: Seq<char>)
    ensures
        skip_paths(a + seq![','] + b) == skip_paths(a) + skip_paths(b),
        bad_paths(a + seq![','] + b) == bad_paths(a) + bad_paths(b),
{
    let (x, y) = (pieces(a, ','), pieces(b, ','));
    lemma_pieces_join(a, b, ',');
    lemma_entries_join(x, y, |e: Seq<char>| e.len() > 0 && e[0] == '/');
    lemma_entries_join(x, y, |e: Seq<char>| e.len() > 0 && e[0] != '/');
}

/// A selection leaves out only what is too mild or over the limit: of the merged issues that
/// are not in it each is milder than asked for, unless the limit is reached.
pub proof fn selection_leaves_out_little(
    issues: Seq<IssueView>,
    max_pages: nat,
    min: Severity,
    limit: Option<usize>,
    merged: Seq<IssueView>,
    r: Seq<IssueView>,
)
    requires
        is_deduplicated(issues, max_pages, merged),
        is_selection(issues, max_pages, min, limit, r),
    ensures
        r.len() <= merged.len(),
        forall|i: int| 0 <= i < r.len() ==> #[trigger] r[i] == merged[i],
        forall|j: int|
            r.len() <= j < merged.len() ==> (#[trigger] merged[j]).severity.level() < min.level()
                || (limit is Some && r.len() == limit->0),
{
    selection_keeps_gravest(issues, max_pages, min, limit, merged, r);
    let other = choose|m: Seq<IssueView>| #[trigger]
        is_deduplicated(issues, max_pages, m) && r == limited(grave_issues(m, min), limit);
    crate::issues::deduplication_is_unique(issues, max_pages, merged, other);
    let grave = grave_issues(merged, min);
    assert forall|i: int| 0 <= i < r.len() implies #[trigger] r[i] == merged[i] by {
        assert(merged.take(r.len() as int)[i] == merged[i]);
    }
    assert forall|j: int| r.len() <= j < merged.len() implies (
    #[trigger] merged[j]).severity.level() < min.level() || (limit is Some && r.len()
        == limit->0) by {
        if merged[j].severity.level() >= min.level() && r == grave {
            lemma_grave_count(merged, min, j);
        }
    }
}

/// In a list that goes from grave to mild, the issues up to a grave one are all grave.
proof fn lemma_grave_count(merged: Seq<IssueView>, min: Severity, j: int)
    requires
        0 <= j < merged.len(),
        merged[j].severity.level() >= min.level(),
        forall|a: int, b: int|
            0 <= a < b < merged.len() ==> merged_before(#[trigger] merged[a], #[trigger] merged[b]),
    ensures
        grave_issues(merged, min).len() >= j + 1,
    decreases merged.len(),
{
    let front = merged.drop_last();
    assert forall|a: int, b: int| 0 <= a < b < front.len() implies merged_before(
        #[trigger] front[a],
        #[trigger] front[b],
    ) by {
        assert(merged_before(merged[a], merged[b]));
    }
    if j < front.len() {
        lemma_grave_count(front, min, j);
    } else if j > 0 {
        assert(merged_before(merged[j - 1], merged[j]));
        lemma_grave_count(front, min, j - 1);
    }
}

/// The issues about security are those of that category, the others the rest; each list keeps
/// the order of the issues.
pub proof fn parting_goes_by_category(
    a: Seq<IssueView>,
    b: Seq<IssueView>,
    x: IssueView,
    security: bool,
)
    ensures
        issues_about(a + b, security) == issues_about(a, security) + issues_about(b, security),
        x.category == IssueCategory::Security ==> issues_about(seq![x], true) == seq![x]
            && issues_about(seq![x], false).len() == 0,
        x.category != IssueCategory::Security ==> issues_about(seq![x], false) == seq![x]
            && issues_about(seq![x], true).len() == 0,
    decreases b.len(),
{
    assert(seq![x].drop_last() =~= Seq::<IssueView>::empty());
    assert(issues_about(Seq::empty(), true) =~= Seq::<IssueView>::empty());
    assert(issues_about(Seq::empty(), false) =~= Seq::<IssueView>::empty());
    assert(issues_about(seq![x], true) =~= if x.category == IssueCategory::Security {
        seq![x]
    } else {
        Seq::empty()
    });
    assert(issues_about(seq![x], false) =~= if x.category == IssueCategory::Security {
        Seq::empty()
    } else {
        seq![x]
    });
    if b.len() == 0 {
        assert(a + b =~= a);
    } else {
        parting_goes_by_category(a, b.drop_last(), x, security);
        assert((a + b).drop_last() =~= a + b.drop_last());
        assert((a + b).last() == b.last());
    }
    assert(issues_about(a + b, security) =~= issues_about(a, security) + issues_about(b, security));
}

/// A limit keeps the beginning of a list, as long as the limit where the list is longer.
pub proof fn limit_keeps_the_beginning<A>(list: Seq<A>, limit: Option<usize>)
    ensures
        limited(list, limit).len() <= list.len(),
        limited(list, limit) == list.take(limited(list, limit).len() as int),
        limit is None ==> limited(list, limit).len() == list.len(),
        limit is Some ==> limited(list, limit).len() == if list.len() > limit->0 {
            limit->0 as int
        } else {
            list.len() as int
        },
{
    assert(list.take(list.len() as int) =~= list);
}

/// A target that is a number stands for that port of this machine, one that starts like a URL
/// for itself, and any other for the host of that name; white space around it does not count.
pub proof fn target_is_completed(t: Seq<char>)
    requires
        trimmed(t) == t,
    ensures
        all_digits(t) ==> target_url(t) == "http://localhost:"@ + t,
        !all_digits(t) && ("http://"@.is_prefix_of(t) || "https://"@.is_prefix_of(t)) ==> target_url(
            t,
        ) == t,
        !all_digits(t) && !"http://"@.is_prefix_of(t) && !"https://"@.is_prefix_of(t)
            ==> target_url(t) == "http://"@ + t,
{
}

/// A target means the same without the white space around it.
pub proof fn target_ignores_space(input: Seq<char>)
    ensures
        target_url(trimmed(input)) == target_url(input),
{
    crate::text::trimming_takes_space(input);
    let t = trimmed(input);
    crate::text::trimming_takes_space(t);
    if t.len() > 0 {
        lemma_trimmed_is_same(t);
    } else {
        assert(t =~= Seq::<char>::empty());
    }
}

/// A single entry of a list of paths to skip is kept without the white space around it if it
/// starts with a slash, and refused if it is any other text.
pub proof fn skip_entries_are_sorted_out(entry: Seq<char>)
    requires
        !entry.contains(','),
    ensures
        trimmed(entry).len() > 0 && trimmed(entry)[0] == '/' ==> skip_paths(entry) == seq![
            trimmed(entry),
        ] && bad_paths(entry).len() == 0,
        trimmed(entry).len() > 0 && trimmed(entry)[0] != '/' ==> bad_paths(entry) == seq![
            trimmed(entry),
        ] && skip_paths(entry).len() == 0,
        trimmed(entry).len() == 0 ==> skip_paths(entry).len() == 0 && bad_paths(entry).len() == 0,
{
    lemma_one_piece(entry, ',');
    let list = pieces(entry, ',');
    let good = |e: Seq<char>| e.len() > 0 && e[0] == '/';
    let bad = |e: Seq<char>| e.len() > 0 && e[0] != '/';
    assert(list.drop_last() =~= Seq::<Seq<char>>::empty());
    assert(entries_where(list.drop_last(), good) =~= Seq::<Seq<char>>::empty());
    assert(entries_where(list.drop_last(), bad) =~= Seq::<Seq<char>>::empty());
    if trimmed(entry).len() > 0 {
        assert(Seq::<Seq<char>>::empty().push(trimmed(entry)) =~= seq![trimmed(entry)]);
    }
}

/// A text without the separator is one piece.
proof fn lemma_one_piece(s: Seq<char>, sep: char)
    requires
        !s.contains(sep),
    ensures
        pieces(s, sep) == seq![s],
    decreases s.len(),
{
    if s.len() > 0 {
        let front = s.drop_last();
        if front.contains(sep) {
            let k = choose|k: int| 0 <= k < front.len() && front[k] == sep;
            assert(s[k] == sep);
        }
        lemma_one_piece(front, sep);
        assert(s[s.len() - 1] == s.last());
        assert(front.push(s.last()) =~= s);
        let before = pieces(front, sep);
        assert(before.last() == front);
        assert(pieces(s, sep) == before.drop_last().push(before.last().push(s.last())));
        assert(pieces(s, sep) =~= seq![s]);
    } else {
        assert(s =~= Seq::<char>::empty());
        assert(pieces(s, sep) =~= seq![s]);
    }
}

/// The words for severities and formats, and no others, name them.
pub proof fn words_name_settings(word: Seq<char>)
    ensures
        severity_named("info"@) == Some(Severity::Info),
        severity_named("warning"@) == Some(Severity::Warning),
        severity_named("warn"@) == Some(Severity::Warning),
        severity_named("error"@) == Some(Severity::Error),
        severity_named("critical"@) == Some(Severity::Critical),
        severity_named("crit"@) == Some(Severity::Critical),
        severity_named(word) is Some ==> word == "info"@ || word == "warning"@ || word == "warn"@
            || word == "error"@ || word == "critical"@ || word == "crit"@,
        format_named("json"@) == Some(OutputFormat::Json),
        format_named("msgpack"@) == Some(OutputFormat::Msgpack),
        format_named(word) is Some ==> word == "json"@ || word == "msgpack"@,
{
    reveal_strlit("info");
    reveal_strlit("warning");
    reveal_strlit("warn");
    reveal_strlit("error");
    reveal_strlit("critical");
    reveal_strlit("crit");
    reveal_strlit("json");
    reveal_strlit("msgpack");
    assert("info"@[0] != "warn"@[0] && "info"@[0] != "crit"@[0] && "warn"@[0] != "crit"@[0]);
    assert("info"@.len() == 4 && "warning"@.len() == 7 && "warn"@.len() == 4 && "error"@.len() == 5
        && "critical"@.len() == 8 && "crit"@.len() == 4);
    assert("json"@.len() == 4 && "msgpack"@.len() == 7);
}

/// The name of a report file starts with its prefix, goes on with the moment, and ends with the
/// extension of its format; that of a part has its suffix before the extension.
pub proof fn report_names_are_put_together(
    prefix: Seq<char>,
    stamp: Seq<char>,
    stem: Seq<char>,
    suffix: Seq<char>,
    extension: Seq<char>,
    format: OutputFormat,
)
    ensures
        stamped_name(prefix, stamp, OutputFormat::Json) == prefix + "-"@ + stamp + ".json"@,
        stamped_name(prefix, stamp, OutputFormat::Msgpack) == prefix + "-"@ + stamp + ".msgpack"@,
        suffixed(Some(stem), suffix, Some(extension), format) == stem + "."@ + suffix + "."@
            + extension,
        suffixed(Some(stem), suffix, None, OutputFormat::Json) == stem + "."@ + suffix + ".json"@,
        suffixed(Some(stem), suffix, None, OutputFormat::Msgpack) == stem + "."@ + suffix
            + ".msgpack"@,
        suffixed(None, suffix, Some(extension), format) == "report."@ + suffix + "."@ + extension,
{
    reveal_strlit(".");
    reveal_strlit("json");
    reveal_strlit("msgpack");
    reveal_strlit(".json");
    reveal_strlit(".msgpack");
    reveal_strlit("report");
    reveal_strlit("report.");
    assert("."@ + "json"@ =~= ".json"@);
    assert("."@ + "msgpack"@ =~= ".msgpack"@);
    assert("report"@ + "."@ =~= "report."@);
    let a = prefix + "-"@ + stamp;
    assert(a + "."@ + "json"@ =~= a + ".json"@);
    assert(a + "."@ + "msgpack"@ =~= a + ".msgpack"@);
    let b = stem + "."@ + suffix;
    assert(b + "."@ + "json"@ =~= b + ".json"@);
    assert(b + "."@ + "msgpack"@ =~= b + ".msgpack"@);
}

} // verus!
