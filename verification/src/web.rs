//! URLs, taken apart by the `url` crate.

use vstd::prelude::*;

use crate::text::opt_view;

verus! {

/// The parts of an absolute URL.
#[derive(Debug)]
pub struct UrlParts {
    pub scheme: String,
    pub host: Option<String>,
    /// The port, unless it is the default one of the scheme.
    pub port: Option<u16>,
    pub path: String,
}

/// The contents of the parts of a URL.
pub ghost struct UrlView {
    pub scheme: Seq<char>,
    pub host: Option<Seq<char>>,
    pub port: Option<u16>,
    pub path: Seq<char>,
}

impl View for UrlParts {
    type V = UrlView;

    open spec fn view(&self) -> UrlView {
        UrlView {
            scheme: self.scheme@,
            host: opt_view(self.host),
            port: self.port,
            path: self.path@,
        }
    }
}

/// The contents of the parts of a URL, or of what is said of a text that is none.
pub open spec fn url_view(parts: Result<UrlParts, String>) -> Result<UrlView, Seq<char>> {
    match parts {
        Ok(p) => Ok(p@),
        Err(why) => Err(why@),
    }
}

/// The parts of the URL that a text stands for, as `url::Url::parse` reads it; where it
/// refuses the text, what it says.
pub uninterp spec fn parsed_url(text: Seq<char>) -> Result<UrlView, Seq<char>>;

/// `url::Url::parse`: the URL that a text stands for, given as its parts, or the message of
/// the error where the text is refused. The reading is named, not stated.
#[verifier::external_body]
pub(crate) fn parse_url(text: &str) -> (r: Result<UrlParts, String>)
    ensures
        url_view(r) == parsed_url(text@),
{
    let url = url::Url::parse(text).map_err(|e| e.to_string())?;
    Ok(UrlParts {
        scheme: url.scheme().to_string(),
        host: url.host_str().map(|h| h.to_string()),
        port: url.port(),
        path: url.path().to_string(),
    })
}

/// A URL without query and fragment.
#[derive(Debug)]
pub struct BareUrl {
    pub text: String,
    pub path: String,
}

/// The contents of a URL without query and fragment.
pub ghost struct BareView {
    pub text: Seq<char>,
    pub path: Seq<char>,
}

/// The contents of an optional URL without query and fragment.
pub open spec fn opt_bare_view(url: Option<BareUrl>) -> Option<BareView> {
    match url {
        Some(u) => Some(BareView { text: u.text@, path: u.path@ }),
        None => None,
    }
}

/// The URL that a text stands for once `set_query` and `set_fragment` of `url::Url` have
/// taken away its query and its fragment; `None` where the text is refused.
pub uninterp spec fn bared_url(text: Seq<char>) -> Option<BareView>;

/// `url::Url::set_query` and `url::Url::set_fragment` with nothing: the URL that a text
/// stands for without query and fragment, as a text and by its path. What is left is named,
/// not stated; nothing where the text is refused.
#[verifier::external_body]
pub(crate) fn bare_url(text: &str) -> (r: Option<BareUrl>)
    ensures
        opt_bare_view(r) == bared_url(text@),
{
    let mut url = url::Url::parse(text).ok()?;
    url.set_query(None);
    url.set_fragment(None);
    Some(BareUrl { text: url.as_str().to_string(), path: url.path().to_string() })
}

/// The contents of the parts of a URL are all that its fields hold.
pub proof fn url_is_what_it_holds(parts: UrlParts)
    ensures
        parts@.scheme == parts.scheme@,
        parts.host is Some ==> parts@.host == Some(parts.host->0@),
        parts.host is None ==> parts@.host is None,
        parts@.port == parts.port,
        parts@.path == parts.path@,
{
}

} // verus!
