//! Cookies from a file, as they are given to the browser.

use vstd::prelude::*;

use crate::auth::CookieEntry;
use crate::text::{decimal, numeral, opt_view, trim_start_matches, without_leading};

verus! {

/// A cookie as it is given to the driver.
#[derive(Debug)]
pub struct DriverCookie {
    pub name: String,
    pub value: String,
    pub path: Option<String>,
    /// The domain without leading dots, which drivers do not take.
    pub domain: Option<String>,
    pub secure: bool,
    pub http_only: bool,
}

/// `cookie` is what the driver is given for `entry`.
pub open spec fn is_driver_cookie(entry: CookieEntry, cookie: DriverCookie) -> bool {
    &&& cookie.name@ == entry.name@
    &&& cookie.value@ == entry.value@
    &&& opt_view(cookie.path) == opt_view(entry.path)
    &&& opt_view(cookie.domain) == match opt_view(entry.domain) {
        Some(d) => Some(without_leading(d, '.')),
        None => None,
    }
    &&& cookie.secure == (entry.secure == Some(true))
    &&& cookie.http_only == (entry.http_only == Some(true))
}

/// What the driver is given for an entry of a cookie file.
pub fn driver_cookie(entry: &CookieEntry) -> (r: DriverCookie)
    ensures
        is_driver_cookie(*entry, r),
{
    DriverCookie {
        name: entry.name.clone(),
        value: entry.value.clone(),
        path: entry.path.clone(),
        domain: match &entry.domain {
            Some(d) => Some(trim_start_matches(d.as_str(), '.')),
            None => None,
        },
        secure: match entry.secure {
            Some(b) => b,
            None => false,
        },
        http_only: match entry.http_only {
            Some(b) => b,
            None => false,
        },
    }
}

/// A text between quotation marks, escaped as Rust shows it for debugging.
pub uninterp spec fn debug_quoted(s: Seq<char>) -> Seq<char>;

/// `Debug` of `str`: the text between quotation marks, escaped. Which characters are escaped
/// goes by tables of Unicode; it is named, not stated.
#[verifier::external_body]
fn debug_text(s: &str) -> (r: String)
    ensures
        r@ == debug_quoted(s@),
{
    format!("{:?}", s)
}

/// What a page is told to set the cookie of `entry` itself.
pub open spec fn cookie_assignment(entry: CookieEntry) -> Seq<char> {
    entry.name@ + "="@ + entry.value@ + (match opt_view(entry.path) {
        Some(p) => "; path="@ + p,
        None => ""@,
    })
}

/// What a page is told to set the cookie of `entry` itself.
pub fn assignment(entry: &CookieEntry) -> (r: String)
    ensures
        r@ == cookie_assignment(*entry),
{
    let mut s = entry.name.clone();
    s.append("=");
    s.append(entry.value.as_str());
    match &entry.path {
        Some(p) => {
            let mut tail = "; path=".to_string();
            tail.append(p.as_str());
            s.append(tail.as_str());
        },
        None => {
            s.append("");
        },
    }
    s
}

/// The script by which the page sets the cookie where the driver would not.
pub fn fallback_script(entry: &CookieEntry) -> (r: String)
    ensures
        r@ == "document.cookie = "@ + debug_quoted(cookie_assignment(*entry)) + ";"@,
{
    let mut js = "document.cookie = ".to_string();
    let parts = assignment(entry);
    let quoted = debug_text(parts.as_str());
    js.append(quoted.as_str());
    js.append(";");
    js
}

/// What is said where cookies could be set in neither way; nothing where all were set.
pub fn failure_note(failed: usize, total: usize) -> (r: Option<String>)
    ensures
        opt_view(r) == if failed > 0 {
            Some(
                numeral(failed as nat) + " of "@ + numeral(total as nat)
                    + " cookies failed to inject"@,
            )
        } else {
            None
        },
{
    if failed > 0 {
        let mut s = decimal(failed as u64);
        s.append(" of ");
        let n = decimal(total as u64);
        s.append(n.as_str());
        s.append(" cookies failed to inject");
        Some(s)
    } else {
        None
    }
}

/// A driver is given the cookie with its name, value and path, and with its domain from the
/// first character on that is no dot; it is safe, or hidden from scripts, only where the entry
/// says so.
pub proof fn driver_gets_the_cookie(entry: CookieEntry, cookie: DriverCookie)
    requires
        is_driver_cookie(entry, cookie),
    ensures
        cookie.name@ == entry.name@ && cookie.value@ == entry.value@,
        entry.path is Some ==> cookie.path is Some && cookie.path->0@ == entry.path->0@,
        entry.path is None ==> cookie.path is None,
        entry.domain is None ==> cookie.domain is None,
        entry.domain is Some ==> cookie.domain is Some && ({
            let (given, kept) = (entry.domain->0@, cookie.domain->0@);
            &&& kept.len() <= given.len()
            &&& kept == given.skip(given.len() - kept.len())
            &&& forall|i: int| 0 <= i < given.len() - kept.len() ==> #[trigger] given[i] == '.'
            &&& kept.len() > 0 ==> kept[0] != '.'
        }),
        cookie.secure <==> entry.secure == Some(true),
        cookie.http_only <==> entry.http_only == Some(true),
{
    if entry.domain is Some {
        crate::text::leading_are_taken(entry.domain->0@, '.');
    }
}

/// A script sets a cookie by its name and value, and by its path where it has one.
pub proof fn script_sets_the_cookie(entry: CookieEntry)
    ensures
        (entry.name@ + "="@ + entry.value@).is_prefix_of(cookie_assignment(entry)),
        entry.path is None ==> cookie_assignment(entry) == entry.name@ + "="@ + entry.value@,
        entry.path is Some ==> cookie_assignment(entry) == entry.name@ + "="@ + entry.value@
            + "; path="@ + entry.path->0@,
{
    reveal_strlit("");
    let front = entry.name@ + "="@ + entry.value@;
    assert(front + ""@ =~= front);
    if entry.path is Some {
        assert(front + ("; path="@ + entry.path->0@) =~= front + "; path="@ + entry.path->0@);
    }
    assert(cookie_assignment(entry).subrange(0, front.len() as int) =~= front);
}

} // verus!
