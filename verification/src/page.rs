//! Pages as the crawl reaches them.

use vstd::prelude::*;

use crate::text::{ends_with, trim_end_matches, views, without_trailing};

verus! {

/// The form of a URL under which a page is known: without trailing slashes, unless the
/// slashes are the whole text or end the scheme.
pub open spec fn normal_url(raw: Seq<char>) -> Seq<char> {
    if raw.len() > 1 && raw.last() == '/' && !"://"@.is_suffix_of(raw) {
        without_trailing(raw, '/')
    } else {
        raw
    }
}

/// The form of a URL under which a page is known.
pub fn normalize_url(raw: &str) -> (r: String)
    ensures
        r@ == normal_url(raw@),
{
    proof {
        reveal_strlit("/");
        reveal_strlit("://");
        assert("/"@ =~= seq!['/']);
        assert("/"@.is_suffix_of(raw@) == (raw@.len() > 0 && raw@.last() == '/')) by {
            if raw@.len() > 0 {
                let tail = raw@.subrange(raw@.len() - 1, raw@.len() as int);
                assert(tail[0] == raw@.last());
                assert((tail =~= "/"@) == (raw@.last() == '/'));
            }
        }
    }
    if ends_with(raw, "/") && raw.unicode_len() > 1 && !ends_with(raw, "://") {
        trim_end_matches(raw, '/')
    } else {
        raw.to_string()
    }
}

/// Trimming leaves no trailing `c`.
proof fn lemma_without_trailing(s: Seq<char>, c: char)
    ensures
        without_trailing(s, c).len() > 0 ==> without_trailing(s, c).last() != c,
    decreases s.len(),
{
    if s.len() > 0 && s.last() == c {
        lemma_without_trailing(s.drop_last(), c);
    }
}

/// The normal form of a normal form is itself.
pub proof fn normal_url_idempotent(raw: Seq<char>)
    ensures
        normal_url(normal_url(raw)) == normal_url(raw),
{
    lemma_without_trailing(raw, '/');
}

/// A page on the crawl: where it is and how it was reached.
#[derive(Debug)]
pub struct PageState {
    pub url: String,
    /// The actions taken to arrive here, in order.
    pub action_path: Vec<String>,
    pub depth: usize,
}

/// The contents of a page state.
pub ghost struct PageStateView {
    pub url: Seq<char>,
    pub action_path: Seq<Seq<char>>,
    pub depth: usize,
}

impl View for PageState {
    type V = PageStateView;

    open spec fn view(&self) -> PageStateView {
        PageStateView {
            url: self.url@,
            action_path: views(self.action_path@),
            depth: self.depth,
        }
    }
}

/// The page a crawl starts from.
pub open spec fn root_page(url: Seq<char>) -> PageStateView {
    PageStateView { url: normal_url(url), action_path: Seq::empty(), depth: 0 }
}

/// The page reached from `from` by `action`.
pub open spec fn child_page(from: PageStateView, url: Seq<char>, action: Seq<char>) -> PageStateView {
    PageStateView {
        url: normal_url(url),
        action_path: from.action_path.push(action),
        depth: (from.depth + 1) as usize,
    }
}

impl PageState {
    /// A page that was not reached from another one.
    pub fn new(url: &str) -> (r: Self)
        ensures
            r@ == root_page(url@),
    {
        let r = PageState { url: normalize_url(url), action_path: Vec::new(), depth: 0 };
        proof {
            assert(r@.action_path =~= Seq::<Seq<char>>::empty());
        }
        r
    }

    /// What identifies the page: its URL in normal form, however it was reached.
    pub fn fingerprint(&self) -> (r: String)
        ensures
            r@ == normal_url(self@.url),
    {
        normalize_url(self.url.as_str())
    }

    /// The page reached from this one by `action`.
    pub fn child(&self, url: &str, action: &str) -> (r: Self)
        requires
            self.depth < usize::MAX,
        ensures
            r@ == child_page(self@, url@, action@),
    {
        let mut action_path = self.action_path.clone();
        action_path.push(action.to_string());
        let r = PageState { url: normalize_url(url), action_path, depth: self.depth + 1 };
        proof {
            assert(r@.action_path =~= self@.action_path.push(action@));
        }
        r
    }
}

impl Clone for PageState {
    fn clone(&self) -> (r: Self)
        ensures
            r@ == self@,
    {
        let r = PageState {
            url: self.url.clone(),
            action_path: self.action_path.clone(),
            depth: self.depth,
        };
        proof {
            assert(views(r.action_path@) =~= views(self.action_path@));
        }
        r
    }
}

/// The fingerprint of a page built from a URL is the page's own URL.
pub proof fn fingerprint_is_url(from: PageStateView, url: Seq<char>, action: Seq<char>)
    ensures
        normal_url(root_page(url).url) == root_page(url).url,
        normal_url(child_page(from, url, action).url) == child_page(from, url, action).url,
{
    normal_url_idempotent(url);
}

/// The normal form of a URL is the URL without the slashes at its end. One that is a single
/// character, or ends with the two slashes of its scheme, stays as it is.
pub proof fn normal_url_takes_slashes(raw: Seq<char>)
    ensures
        normal_url(raw).len() <= raw.len(),
        normal_url(raw) == raw.take(normal_url(raw).len() as int),
        forall|i: int| normal_url(raw).len() <= i < raw.len() ==> #[trigger] raw[i] == '/',
        raw.len() <= 1 || (raw.len() >= 3 && raw[raw.len() - 3] == ':' && raw[raw.len() - 2] == '/'
            && raw[raw.len() - 1] == '/') ==> normal_url(raw) == raw,
        raw.len() > 1 && !(raw.len() >= 3 && raw[raw.len() - 3] == ':' && raw[raw.len() - 2] == '/'
            && raw[raw.len() - 1] == '/') && normal_url(raw).len() > 0 ==> normal_url(raw).last()
            != '/',
{
    crate::text::trailing_are_taken(raw, '/');
    reveal_strlit("://");
    let mark = "://"@;
    assert(mark.len() == 3 && mark[0] == ':' && mark[1] == '/' && mark[2] == '/');
    if raw.len() >= 3 {
        let end = raw.subrange(raw.len() - 3, raw.len() as int);
        if raw[raw.len() - 3] == ':' && raw[raw.len() - 2] == '/' && raw[raw.len() - 1] == '/' {
            assert(end =~= mark);
            assert(mark.is_suffix_of(raw));
        }
        if mark.is_suffix_of(raw) {
            assert(end[0] == mark[0] && end[1] == mark[1] && end[2] == mark[2]);
        }
    }
    assert(raw.take(raw.len() as int) =~= raw);
}

/// A page is where its URL says, at the top with no action on the way; a page reached from it
/// by an action lies one step deeper, with this action at the end of the way.
pub proof fn pages_lie_where_they_are_reached(from: PageStateView, url: Seq<char>, action: Seq<char>)
    requires
        from.depth < usize::MAX,
    ensures
        root_page(url).url == normal_url(url),
        root_page(url).depth == 0,
        root_page(url).action_path.len() == 0,
        child_page(from, url, action).url == normal_url(url),
        child_page(from, url, action).depth == from.depth + 1,
        child_page(from, url, action).action_path.len() == from.action_path.len() + 1,
        child_page(from, url, action).action_path.last() == action,
        child_page(from, url, action).action_path.drop_last() == from.action_path,
{
    assert(child_page(from, url, action).action_path.drop_last() =~= from.action_path);
}

/// The contents of a page state are all that its fields hold.
pub proof fn page_is_what_it_holds(page: PageState)
    ensures
        page@.url == page.url@,
        page@.action_path.len() == page.action_path@.len(),
        forall|i: int| 0 <= i < page.action_path@.len() ==> #[trigger] page@.action_path[i] == page.action_path@[i]@,
        page@.depth == page.depth,
{
}

} // verus!
