//! How a login goes: which page, which fields, what counts as success.

use vstd::prelude::*;

use crate::auth::AuthConfig;
use crate::json::{json_bool, json_str, json_view};
use crate::profiles::{lowercase, to_lowercase};
use crate::text::{
    contains, decimal, has_part, numeral, opt_view, pieces, same_text, split, starts_with,
    trim_end_matches, trim_start_matches, views, without_leading, without_trailing,
};
use crate::web::{
    bare_url, bared_url, opt_bare_view, parse_url, parsed_url, url_view, BareUrl, BareView, UrlParts,
    UrlView,
};

verus! {

/// Scheme, host and port of a URL; a URL that is none counts as this machine.
pub open spec fn origin(base: Result<UrlView, Seq<char>>) -> Seq<char> {
    match base {
        Ok(u) => u.scheme + "://"@ + (match u.host {
            Some(h) => h,
            None => "localhost"@,
        }) + (match u.port {
            Some(p) => ":"@ + numeral(p as nat),
            None => ""@,
        }),
        Err(_) => "http://localhost"@,
    }
}

/// The login page that `given` names on the site at `base_url`: a full URL stands for
/// itself, a path that starts with a slash is taken from the root of the site, any other
/// path from `base_url`.
pub open spec fn login_address(
    given: Seq<char>,
    base_url: Seq<char>,
    base: Result<UrlView, Seq<char>>,
) -> Seq<char> {
    if "http://"@.is_prefix_of(given) || "https://"@.is_prefix_of(given) {
        given
    } else if given.len() > 0 && given[0] == '/' {
        origin(base) + given
    } else {
        without_trailing(base_url, '/') + "/"@ + without_leading(given, '/')
    }
}

/// Scheme, host and port of a URL.
fn origin_of(base: &Result<UrlParts, String>) -> (r: String)
    ensures
        r@ == origin(url_view(*base)),
{
    match base {
        Ok(u) => {
            let mut s = u.scheme.clone();
            s.append("://");
            match &u.host {
                Some(h) => s.append(h.as_str()),
                None => s.append("localhost"),
            }
            match u.port {
                Some(p) => {
                    let mut tail = ":".to_string();
                    let digits = decimal(p as u64);
                    tail.append(digits.as_str());
                    s.append(tail.as_str());
                },
                None => s.append(""),
            }
            s
        },
        Err(_) => "http://localhost".to_string(),
    }
}

/// The login page that `given` names on the site at `base_url`, which was taken apart.
pub fn address_of(given: &str, base_url: &str, base: &Result<UrlParts, String>) -> (r: String)
    ensures
        r@ == login_address(given@, base_url@, url_view(*base)),
{
    if starts_with(given, "http://") || starts_with(given, "https://") {
        return given.to_string();
    }
    proof {
        reveal_strlit("/");
        assert("/"@ =~= seq!['/']);
        assert("/"@.is_prefix_of(given@) == (given@.len() > 0 && given@[0] == '/')) by {
            if given@.len() > 0 {
                let head = given@.subrange(0, 1);
                assert(head[0] == given@[0]);
                assert((head =~= "/"@) == (given@[0] == '/'));
            }
        }
    }
    if starts_with(given, "/") {
        let mut s = origin_of(base);
        s.append(given);
        s
    } else {
        let mut s = trim_end_matches(base_url, '/');
        s.append("/");
        let path = trim_start_matches(given, '/');
        s.append(path.as_str());
        s
    }
}

/// The login page that the settings name on the site at `base_url`; nothing where they name
/// none.
pub fn resolve_login_url(login_url: Option<&str>, base_url: &str) -> (r: Option<String>)
    ensures
        match login_url {
            Some(given) => r is Some && r->0@ == login_address(
                given@,
                base_url@,
                parsed_url(base_url@),
            ),
            None => r is None,
        },
{
    match login_url {
        Some(given) => Some(address_of(given, base_url, &parse_url(base_url))),
        None => None,
    }
}

/// The host of the site at `base_url`; this machine where there is none.
pub fn host_or_localhost(base_url: &str) -> (r: String)
    ensures
        r@ == match parsed_url(base_url@) {
            Ok(u) => match u.host {
                Some(h) => h,
                None => "localhost"@,
            },
            Err(_) => "localhost"@,
        },
{
    match parse_url(base_url) {
        Ok(u) => match u.host {
            Some(h) => h,
            None => "localhost".to_string(),
        },
        Err(_) => "localhost".to_string(),
    }
}

/// A part of a path that is typical of a login page.
pub open spec fn is_login_segment(segment: Seq<char>) -> bool {
    ||| segment == "login"@
    ||| segment == "signin"@
    ||| segment == "sign-in"@
    ||| segment == "auth"@
    ||| segment == "authenticate"@
}

/// A path, in lower case, of which a part is typical of a login page.
pub open spec fn is_login_path(path: Seq<char>) -> bool {
    exists|i: int| 0 <= i < pieces(path, '/').len() && is_login_segment(#[trigger] pieces(path, '/')[i])
}

/// A path, in lower case, of which a part is typical of a login page.
pub fn looks_like_login_path(path: &str) -> (r: bool)
    ensures
        r == is_login_path(path@),
{
    let parts = split(path, '/');
    let mut i: usize = 0;
    while i < parts.len()
        invariant
            views(parts@) == pieces(path@, '/'),
            i <= parts.len(),
            forall|j: int| 0 <= j < i ==> !is_login_segment(#[trigger] pieces(path@, '/')[j]),
        decreases parts.len() - i,
    {
        let part = parts[i].as_str();
        proof {
            assert(views(parts@)[i as int] == part@);
        }
        if same_text(part, "login") || same_text(part, "signin") || same_text(part, "sign-in")
            || same_text(part, "auth") || same_text(part, "authenticate") {
            assert(is_login_segment(pieces(path@, '/')[i as int]));
            return true;
        }
        i += 1;
    }
    false
}

/// The browser, at the URL `current`, which is `bare` without query and fragment, seems to be
/// on the login page still: it is there, query and fragment aside, or the path is typical of
/// a login page. A URL that is none is no login page.
pub open spec fn shows_login_page(
    current: Result<UrlView, Seq<char>>,
    bare: Option<BareView>,
    login: Option<BareView>,
) -> bool {
    match (current, bare) {
        (Ok(c), Some(b)) => match login {
            Some(l) => b.text == l.text || is_login_path(lowercase(b.path)),
            None => is_login_path(lowercase(c.path)),
        },
        _ => false,
    }
}

/// The browser, at `current`, seems to be on the login page at `login_url` still.
pub open spec fn at_login_page(current: Seq<char>, login_url: Seq<char>) -> bool {
    shows_login_page(parsed_url(current), bared_url(current), bared_url(login_url))
}

/// The browser, at the URL `current`, which is `bare` without query and fragment, seems to be
/// on the login page still.
pub fn is_still_login(
    current: &Result<UrlParts, String>,
    bare: &Option<BareUrl>,
    login: &Option<BareUrl>,
) -> (r: bool)
    ensures
        r == shows_login_page(url_view(*current), opt_bare_view(*bare), opt_bare_view(*login)),
{
    match (current, bare) {
        (Ok(c), Some(b)) => {
            let path = match login {
                Some(l) => {
                    if same_text(b.text.as_str(), l.text.as_str()) {
                        return true;
                    }
                    to_lowercase(b.path.as_str())
                },
                None => to_lowercase(c.path.as_str()),
            };
            looks_like_login_path(path.as_str())
        },
        _ => false,
    }
}

/// The browser, at `current`, seems to be on the login page still.
pub fn url_indicates_login_page(current: &str, login_url: &str) -> (r: bool)
    ensures
        r == at_login_page(current@, login_url@),
{
    is_still_login(&parse_url(current), &bare_url(current), &bare_url(login_url))
}

/// The text of a page names a challenge that keeps robots out.
pub open spec fn shows_bot_check(body: Seq<char>) -> bool {
    ||| has_part(body, "cf-turnstile"@)
    ||| has_part(body, "cloudflare"@)
    ||| has_part(body, "recaptcha"@)
    ||| has_part(body, "hcaptcha"@)
    ||| has_part(body, "datadome"@)
    ||| has_part(body, "security check"@)
    ||| has_part(body, "verify you are human"@)
    ||| has_part(body, "pardon our interruption"@)
}

/// The text of a page says that a login was refused.
pub open spec fn shows_refusal(body: Seq<char>) -> bool {
    ||| has_part(body, "forbidden"@)
    ||| has_part(body, "unauthorized"@)
    ||| has_part(body, "invalid credentials"@)
    ||| has_part(body, "incorrect password"@)
    ||| has_part(body, "wrong password"@)
    ||| has_part(body, "invalid email"@)
    ||| has_part(body, "incorrect email"@)
    ||| has_part(body, "login failed"@)
    ||| has_part(body, "authentication failed"@)
}

/// The text of a page names a challenge that keeps robots out.
pub fn indicates_bot_check(body: &str) -> (r: bool)
    ensures
        r == shows_bot_check(body@),
{
    contains(body, "cf-turnstile") || contains(body, "cloudflare") || contains(body, "recaptcha")
        || contains(body, "hcaptcha") || contains(body, "datadome") || contains(
        body,
        "security check",
    ) || contains(body, "verify you are human") || contains(body, "pardon our interruption")
}

/// The text of a page says that a login was refused.
pub fn indicates_error(body: &str) -> (r: bool)
    ensures
        r == shows_refusal(body@),
{
    contains(body, "forbidden") || contains(body, "unauthorized") || contains(
        body,
        "invalid credentials",
    ) || contains(body, "incorrect password") || contains(body, "wrong password") || contains(
        body,
        "invalid email",
    ) || contains(body, "incorrect email") || contains(body, "login failed") || contains(
        body,
        "authentication failed",
    )
}

/// A button that goes on to the next step of a login.
pub const NEXT_BUTTON: &'static str = "//button[contains(translate(normalize-space(.), 'ABCDEFGHIJKLMNOPQRSTUVWXYZ', 'abcdefghijklmnopqrstuvwxyz'), 'continue')] | //button[contains(translate(normalize-space(.), 'ABCDEFGHIJKLMNOPQRSTUVWXYZ', 'abcdefghijklmnopqrstuvwxyz'), 'next')] | //input[@type='button' and contains(translate(@value, 'ABCDEFGHIJKLMNOPQRSTUVWXYZ', 'abcdefghijklmnopqrstuvwxyz'), 'continue')] | //input[@type='button' and contains(translate(@value, 'ABCDEFGHIJKLMNOPQRSTUVWXYZ', 'abcdefghijklmnopqrstuvwxyz'), 'next')]";

/// A button whose text or label says that it logs in or goes on.
pub const LOGIN_BUTTON: &'static str = "//button[contains(translate(normalize-space(.), 'ABCDEFGHIJKLMNOPQRSTUVWXYZ', 'abcdefghijklmnopqrstuvwxyz'), 'sign in')] | //button[contains(translate(normalize-space(.), 'ABCDEFGHIJKLMNOPQRSTUVWXYZ', 'abcdefghijklmnopqrstuvwxyz'), 'sign-in')] | //button[contains(translate(normalize-space(.), 'ABCDEFGHIJKLMNOPQRSTUVWXYZ', 'abcdefghijklmnopqrstuvwxyz'), 'log in')] | //button[contains(translate(normalize-space(.), 'ABCDEFGHIJKLMNOPQRSTUVWXYZ', 'abcdefghijklmnopqrstuvwxyz'), 'login')] | //button[contains(translate(normalize-space(.), 'ABCDEFGHIJKLMNOPQRSTUVWXYZ', 'abcdefghijklmnopqrstuvwxyz'), 'continue')] | //button[contains(translate(normalize-space(.), 'ABCDEFGHIJKLMNOPQRSTUVWXYZ', 'abcdefghijklmnopqrstuvwxyz'), 'next')] | //button[contains(translate(normalize-space(.), 'ABCDEFGHIJKLMNOPQRSTUVWXYZ', 'abcdefghijklmnopqrstuvwxyz'), 'submit')] | //*[@role='button' and contains(translate(normalize-space(.), 'ABCDEFGHIJKLMNOPQRSTUVWXYZ', 'abcdefghijklmnopqrstuvwxyz'), 'sign in')] | //*[@role='button' and contains(translate(normalize-space(.), 'ABCDEFGHIJKLMNOPQRSTUVWXYZ', 'abcdefghijklmnopqrstuvwxyz'), 'log in')] | //*[@role='button' and contains(translate(normalize-space(.), 'ABCDEFGHIJKLMNOPQRSTUVWXYZ', 'abcdefghijklmnopqrstuvwxyz'), 'login')] | //input[@type='button' and contains(translate(@value, 'ABCDEFGHIJKLMNOPQRSTUVWXYZ', 'abcdefghijklmnopqrstuvwxyz'), 'login')] | //input[@type='button' and contains(translate(@value, 'ABCDEFGHIJKLMNOPQRSTUVWXYZ', 'abcdefghijklmnopqrstuvwxyz'), 'sign in')] | //button[contains(translate(@aria-label, 'ABCDEFGHIJKLMNOPQRSTUVWXYZ', 'abcdefghijklmnopqrstuvwxyz'), 'sign in')] | //button[contains(translate(@aria-label, 'ABCDEFGHIJKLMNOPQRSTUVWXYZ', 'abcdefghijklmnopqrstuvwxyz'), 'log in')] | //button[contains(translate(@aria-label, 'ABCDEFGHIJKLMNOPQRSTUVWXYZ', 'abcdefghijklmnopqrstuvwxyz'), 'login')]";

/// The buttons of a page, those of its forms first.
pub const ANY_BUTTON: &'static str = "form button, form [role='button'], button, [role='button']";

/// Tells whether a password field can be seen; one that is only in the document does not count.
pub const PASSWORD_VISIBLE_JS: &'static str = r#"var el = document.querySelector("input[type='password']"); return !!(el && el.offsetParent !== null && el.offsetWidth > 0 && el.offsetHeight > 0);"#;

/// Tells the page that the field in focus was changed.
pub const NOTIFY_CHANGE_JS: &'static str = "if (document.activeElement) { document.activeElement.dispatchEvent(new Event('input', { bubbles: true })); document.activeElement.dispatchEvent(new Event('change', { bubbles: true })); }";

/// Reads the text of the page in lower case.
pub const BODY_TEXT_JS: &'static str = "return document.body ? document.body.innerText.toLowerCase() : '';";

/// Finds the input whose label, name or surroundings best fit a user name, and gives a selector
/// for it.
pub const GUESS_USERNAME_JS: &'static str = r#"
(function() {
    var keywords = ['email', 'username', 'user name', 'e-mail', 'login', 'account'];
    var inputs = Array.from(document.querySelectorAll(
        'input:not([type="hidden"]):not([type="submit"]):not([type="button"])' +
        ':not([type="checkbox"]):not([type="radio"]):not([type="password"])'));
    var best = null, bestScore = 0;
    inputs.forEach(function(el) {
        var r = el.getBoundingClientRect();
        if (r.width === 0 || r.height === 0 || el.disabled) return;
        var texts = [
            el.getAttribute('aria-label') || '',
            el.getAttribute('placeholder') || '',
            el.getAttribute('title') || '',
            el.getAttribute('name') || '',
            el.getAttribute('id') || ''
        ];
        if (el.id) {
            var lbl = document.querySelector('label[for="' + el.id + '"]');
            if (lbl) texts.push(lbl.textContent);
        }
        var labelled = el.getAttribute('aria-labelledby');
        if (labelled) {
            labelled.split(' ').forEach(function(id) {
                var n = document.getElementById(id);
                if (n) texts.push(n.textContent);
            });
        }
        var combined = texts.join(' ').toLowerCase();
        for (var i = 0; i < keywords.length; i++) {
            if (combined.indexOf(keywords[i]) >= 0) {
                var score = keywords.length - i;
                if (score > bestScore) { bestScore = score; best = el; }
                break;
            }
        }
    });
    if (!best) return null;
    if (best.id) return '[id="' + best.id.replace(/"/g, '\\"') + '"]';
    if (best.name) return 'input[name="' + best.name.replace(/"/g, '\\"') + '"]';
    return null;
})()
"#;

/// The selectors of fields for a user name, the likeliest first.
pub open spec fn username_selectors() -> Seq<Seq<char>> {
    seq![
        "input[type='email']"@,
        "input[autocomplete='email']"@,
        "input[autocomplete='username']"@,
        "input[name*='email' i]"@,
        "input[name*='username' i]"@,
        "input[name*='login' i]"@,
        "input[name*='user' i]"@,
        "input[id*='email' i]"@,
        "input[id*='user' i]"@,
        "input[id*='login' i]"@,
        "input[aria-label*='email' i]"@,
        "input[aria-label*='user' i]"@,
        "input[aria-label*='login' i]"@,
        "input[title*='email' i]"@,
        "input[title*='user' i]"@,
        "input[placeholder*='email' i]"@,
        "input[placeholder*='user' i]"@,
        "input[placeholder*='login' i]"@,
    ]
}

/// The selectors of fields for a password, the likeliest first.
pub open spec fn password_selectors() -> Seq<Seq<char>> {
    seq![
        "input[type='password']"@,
        "input[autocomplete='current-password']"@,
        "input[autocomplete='new-password']"@,
        "input[aria-label*='password' i]"@,
        "input[title*='password' i]"@,
        "input[placeholder*='password' i]"@,
        "input[name*='password' i]"@,
        "input[id*='password' i]"@,
        "input[name*='pass' i]"@,
        "input[id*='pass' i]"@,
    ]
}

/// The selector of that rank for a user name.
fn username_selector(rank: usize) -> (r: &'static str)
    requires
        rank < 18,
    ensures
        r@ == username_selectors()[rank as int],
{
    match rank {
        0 => "input[type='email']",
        1 => "input[autocomplete='email']",
        2 => "input[autocomplete='username']",
        3 => "input[name*='email' i]",
        4 => "input[name*='username' i]",
        5 => "input[name*='login' i]",
        6 => "input[name*='user' i]",
        7 => "input[id*='email' i]",
        8 => "input[id*='user' i]",
        9 => "input[id*='login' i]",
        10 => "input[aria-label*='email' i]",
        11 => "input[aria-label*='user' i]",
        12 => "input[aria-label*='login' i]",
        13 => "input[title*='email' i]",
        14 => "input[title*='user' i]",
        15 => "input[placeholder*='email' i]",
        16 => "input[placeholder*='user' i]",
        _ => "input[placeholder*='login' i]",
    }
}

/// The selector of that rank for a password.
fn password_selector(rank: usize) -> (r: &'static str)
    requires
        rank < 10,
    ensures
        r@ == password_selectors()[rank as int],
{
    match rank {
        0 => "input[type='password']",
        1 => "input[autocomplete='current-password']",
        2 => "input[autocomplete='new-password']",
        3 => "input[aria-label*='password' i]",
        4 => "input[title*='password' i]",
        5 => "input[placeholder*='password' i]",
        6 => "input[name*='password' i]",
        7 => "input[id*='password' i]",
        8 => "input[name*='pass' i]",
        _ => "input[id*='pass' i]",
    }
}

/// How an element is looked for.
#[derive(Debug)]
pub enum Lookup {
    /// The first element that a CSS selector matches.
    Css(String),
    /// The first element that an XPath expression matches.
    XPath(String),
    /// The last element that a CSS selector matches.
    LastCss(String),
}

/// What an element is looked for by.
pub ghost enum LookupView {
    Css(Seq<char>),
    XPath(Seq<char>),
    LastCss(Seq<char>),
}

impl View for Lookup {
    type V = LookupView;

    open spec fn view(&self) -> LookupView {
        match self {
            Lookup::Css(s) => LookupView::Css(s@),
            Lookup::XPath(s) => LookupView::XPath(s@),
            Lookup::LastCss(s) => LookupView::LastCss(s@),
        }
    }
}

/// Where a login stands.
#[derive(Debug)]
pub enum Stage {
    /// Waits for an input to appear.
    AwaitForm,
    /// Looks for the field for the user name, by the lookup of that rank.
    FindUsername(usize),
    /// Asks the page for a selector of that field.
    GuessUsername,
    /// Looks for that field by the selector the page gave.
    FindGuessed(String),
    /// Looks for any text field.
    FindTextField,
    /// Types the user name.
    TypeUsername,
    /// Checks whether the password field can be seen.
    CheckPassword,
    /// Looks for the button to the next step, by the lookup of that rank.
    FindNext(usize),
    /// Presses that button.
    PressNext,
    /// Waits for the password field to show.
    AwaitPassword,
    /// Looks for the field for the password, by the lookup of that rank.
    FindPassword(usize),
    /// Types the password.
    TypePassword,
    /// Looks for the button that logs in, by the lookup of that rank.
    FindSubmit(usize),
    /// Presses that button.
    PressSubmit,
    /// Presses the enter key in the password field.
    PressEnter,
    /// Waits for the browser to leave the login page; has where it was last and whether
    /// that was the login page still.
    AwaitLanding(String, bool),
    /// Reads the text of the page it landed on.
    ReadBody(String, bool),
    /// The login succeeded.
    Done,
    /// The login failed; says why.
    Failed(String),
}

/// Where a login stands.
pub ghost enum StageView {
    AwaitForm,
    FindUsername(usize),
    GuessUsername,
    FindGuessed(Seq<char>),
    FindTextField,
    TypeUsername,
    CheckPassword,
    FindNext(usize),
    PressNext,
    AwaitPassword,
    FindPassword(usize),
    TypePassword,
    FindSubmit(usize),
    PressSubmit,
    PressEnter,
    AwaitLanding(Seq<char>, bool),
    ReadBody(Seq<char>, bool),
    Done,
    Failed(Seq<char>),
}

impl View for Stage {
    type V = StageView;

    open spec fn view(&self) -> StageView {
        match self {
            Stage::AwaitForm => StageView::AwaitForm,
            Stage::FindUsername(i) => StageView::FindUsername(*i),
            Stage::GuessUsername => StageView::GuessUsername,
            Stage::FindGuessed(s) => StageView::FindGuessed(s@),
            Stage::FindTextField => StageView::FindTextField,
            Stage::TypeUsername => StageView::TypeUsername,
            Stage::CheckPassword => StageView::CheckPassword,
            Stage::FindNext(i) => StageView::FindNext(*i),
            Stage::PressNext => StageView::PressNext,
            Stage::AwaitPassword => StageView::AwaitPassword,
            Stage::FindPassword(i) => StageView::FindPassword(*i),
            Stage::TypePassword => StageView::TypePassword,
            Stage::FindSubmit(i) => StageView::FindSubmit(*i),
            Stage::PressSubmit => StageView::PressSubmit,
            Stage::PressEnter => StageView::PressEnter,
            Stage::AwaitLanding(url, still) => StageView::AwaitLanding(url@, *still),
            Stage::ReadBody(url, still) => StageView::ReadBody(url@, *still),
            Stage::Done => StageView::Done,
            Stage::Failed(why) => StageView::Failed(why@),
        }
    }
}

/// What came of an action.
#[derive(Debug)]
pub enum Event {
    /// It worked: the element was found, typed into or pressed, or can be seen.
    Yes,
    /// It did not.
    No,
    /// It did not, and there is no time left to wait.
    Late,
    /// The page gave this text, or none.
    Reply(Option<String>),
    /// The browser is at `url`, if it can say, which seems to be the login page or not, and
    /// the password field can be seen or not; there may be no time left to wait.
    Landing { url: Option<String>, at_login: bool, password_visible: bool, late: bool },
}

/// What came of an action.
pub ghost enum EventView {
    Yes,
    No,
    Late,
    Reply(Option<Seq<char>>),
    Landing { url: Option<Seq<char>>, at_login: bool, password_visible: bool, late: bool },
}

impl View for Event {
    type V = EventView;

    open spec fn view(&self) -> EventView {
        match self {
            Event::Yes => EventView::Yes,
            Event::No => EventView::No,
            Event::Late => EventView::Late,
            Event::Reply(s) => EventView::Reply(opt_view(*s)),
            Event::Landing { url, at_login, password_visible, late } => EventView::Landing {
                url: opt_view(*url),
                at_login: *at_login,
                password_visible: *password_visible,
                late: *late,
            },
        }
    }
}

/// A login in progress.
#[derive(Debug)]
pub struct Login {
    pub login_url: String,
    pub username: String,
    pub password: String,
    pub username_selector: Option<String>,
    pub password_selector: Option<String>,
    pub submit_selector: Option<String>,
    pub stage: Stage,
}

/// What a login works with.
pub ghost struct LoginPlan {
    pub login_url: Seq<char>,
    pub username: Seq<char>,
    pub password: Seq<char>,
    pub username_selector: Option<Seq<char>>,
    pub password_selector: Option<Seq<char>>,
    pub submit_selector: Option<Seq<char>>,
}

impl LoginPlan {
    /// The lookups for the user name field, in order.
    pub open spec fn username_lookups(self) -> Seq<LookupView> {
        match self.username_selector {
            Some(sel) => seq![LookupView::Css(sel)],
            None => username_selectors().map_values(|s: Seq<char>| LookupView::Css(s)),
        }
    }

    /// The lookups for the password field, in order.
    pub open spec fn password_lookups(self) -> Seq<LookupView> {
        match self.password_selector {
            Some(sel) => seq![LookupView::Css(sel)],
            None => password_selectors().map_values(|s: Seq<char>| LookupView::Css(s)),
        }
    }

    /// The lookups for the button to the next step, in order.
    pub open spec fn next_lookups(self) -> Seq<LookupView> {
        seq![
            LookupView::XPath(NEXT_BUTTON@),
            LookupView::Css("button[type='submit']"@),
            LookupView::Css("input[type='submit']"@),
            LookupView::XPath(LOGIN_BUTTON@),
        ]
    }

    /// The lookups for the button that logs in, in order.
    pub open spec fn submit_lookups(self) -> Seq<LookupView> {
        match self.submit_selector {
            Some(sel) => seq![LookupView::Css(sel)],
            None => seq![
                LookupView::Css("button[type='submit']"@),
                LookupView::Css("input[type='submit']"@),
                LookupView::Css("input[type='image']"@),
                LookupView::XPath(LOGIN_BUTTON@),
                LookupView::LastCss(ANY_BUTTON@),
            ],
        }
    }

    /// The ranks of a stage are within its lookups.
    pub open spec fn admits(self, stage: StageView) -> bool {
        match stage {
            StageView::FindUsername(i) => i < self.username_lookups().len(),
            StageView::FindNext(i) => i < self.next_lookups().len(),
            StageView::FindPassword(i) => i < self.password_lookups().len(),
            StageView::FindSubmit(i) => i < self.submit_lookups().len(),
            _ => true,
        }
    }

    /// What is said where no input appeared.
    pub open spec fn no_form(self) -> Seq<char> {
        "Navigated to "@ + self.login_url
            + " but no <input> elements appeared within 10s.\nIs that the correct login URL?"@
    }

    /// The stage after the user name field was not found by the lookup of rank `i`.
    pub open spec fn username_missed(self, i: usize) -> StageView {
        if i + 1 < self.username_lookups().len() {
            StageView::FindUsername((i + 1) as usize)
        } else {
            match self.username_selector {
                Some(sel) => StageView::Failed(
                    "Username selector '"@ + sel + "' matched nothing"@,
                ),
                None => StageView::GuessUsername,
            }
        }
    }

    /// The stage after the password field was not found by the lookup of rank `i`.
    pub open spec fn password_missed(self, i: usize) -> StageView {
        if i + 1 < self.password_lookups().len() {
            StageView::FindPassword((i + 1) as usize)
        } else {
            match self.password_selector {
                Some(sel) => StageView::Failed(
                    "Password selector '"@ + sel + "' matched nothing"@,
                ),
                None => StageView::Failed("Could not find a password field on the login page"@),
            }
        }
    }

    /// The stage that follows `stage` upon `event`; an event that answers something else
    /// changes nothing.
    pub open spec fn next(self, stage: StageView, event: EventView) -> StageView {
        match (stage, event) {
            (StageView::AwaitForm, EventView::Yes) => StageView::FindUsername(0),
            (StageView::AwaitForm, EventView::Late) => StageView::Failed(self.no_form()),
            (StageView::FindUsername(_), EventView::Yes) => StageView::TypeUsername,
            (StageView::FindUsername(i), EventView::No) => self.username_missed(i),
            (StageView::GuessUsername, EventView::Reply(reply)) => match reply {
                Some(sel) => if sel.len() > 0 {
                    StageView::FindGuessed(sel)
                } else {
                    StageView::FindTextField
                },
                None => StageView::FindTextField,
            },
            (StageView::FindGuessed(_), EventView::Yes) => StageView::TypeUsername,
            (StageView::FindGuessed(_), EventView::No) => StageView::Failed(
                "Could not find a username/email field on the login page"@,
            ),
            (StageView::FindTextField, EventView::Yes) => StageView::TypeUsername,
            (StageView::FindTextField, EventView::No) => StageView::Failed(
                "Could not find a username/email field on the login page"@,
            ),
            (StageView::TypeUsername, EventView::Yes) => StageView::CheckPassword,
            (StageView::TypeUsername, EventView::No) => StageView::Failed(
                "Failed to type into username field"@,
            ),
            (StageView::CheckPassword, EventView::Yes) => StageView::FindPassword(0),
            (StageView::CheckPassword, EventView::No) => StageView::FindNext(0),
            (StageView::FindNext(_), EventView::Yes) => StageView::PressNext,
            (StageView::FindNext(i), EventView::No) => if i + 1 < self.next_lookups().len() {
                StageView::FindNext((i + 1) as usize)
            } else {
                StageView::FindPassword(0)
            },
            (StageView::PressNext, EventView::Yes) => StageView::AwaitPassword,
            (StageView::PressNext, EventView::No) => StageView::AwaitPassword,
            (StageView::AwaitPassword, EventView::Yes) => StageView::FindPassword(0),
            (StageView::AwaitPassword, EventView::Late) => StageView::FindPassword(0),
            (StageView::FindPassword(_), EventView::Yes) => StageView::TypePassword,
            (StageView::FindPassword(i), EventView::No) => self.password_missed(i),
            (StageView::TypePassword, EventView::Yes) => StageView::FindSubmit(0),
            (StageView::TypePassword, EventView::No) => StageView::Failed(
                "Failed to type into password field"@,
            ),
            (StageView::FindSubmit(_), EventView::Yes) => StageView::PressSubmit,
            (StageView::FindSubmit(i), EventView::No) => if i + 1 < self.submit_lookups().len() {
                StageView::FindSubmit((i + 1) as usize)
            } else {
                StageView::PressEnter
            },
            (StageView::PressSubmit, EventView::Yes) => StageView::AwaitLanding(Seq::empty(), true),
            (StageView::PressSubmit, EventView::No) => StageView::Failed(
                "Failed to click sign-in button"@,
            ),
            (StageView::PressEnter, EventView::Yes) => StageView::AwaitLanding(Seq::empty(), true),
            (StageView::PressEnter, EventView::No) => StageView::Failed(
                "Failed to send Enter key to password field as a fallback submit"@,
            ),
            (
                StageView::AwaitLanding(last, was),
                EventView::Landing { url, at_login, password_visible, late },
            ) => {
                let place = match url {
                    Some(u) => u,
                    None => last,
                };
                let still = match url {
                    Some(_) => at_login && password_visible,
                    None => was,
                };
                if late || (url is Some && !still) {
                    StageView::ReadBody(place, still)
                } else {
                    StageView::AwaitLanding(place, still)
                }
            },
            (StageView::ReadBody(place, still), EventView::Reply(reply)) => {
                let body = match reply {
                    Some(s) => s,
                    None => Seq::empty(),
                };
                if shows_bot_check(body) {
                    StageView::Failed(BOT_CHECK@)
                } else if still || shows_refusal(body) {
                    StageView::Failed(STILL_THERE@ + place)
                } else {
                    StageView::Done
                }
            },
            _ => stage,
        }
    }
}

/// What is said where a challenge keeps robots out.
pub const BOT_CHECK: &'static str = "⚠ Login blocked by an anti-bot challenge (CAPTCHA/Cloudflare). The crawler cannot proceed.";

/// What is said, before the place, where the login was refused.
pub const STILL_THERE: &'static str = "⚠ Login failed — still on login page or received error: ";

/// How many milliseconds to wait for an input to appear.
pub const FORM_WAIT_MS: u64 = 10_000;

/// How many milliseconds to wait for the password field after the first step.
pub const PASSWORD_WAIT_MS: u64 = 5_000;

/// How many milliseconds to wait for the browser to leave the login page.
pub const LANDING_WAIT_MS: u64 = 10_000;

/// The enter key, as a driver takes it.
pub const ENTER_KEY: &'static str = "\u{e007}";

/// What to do next.
#[derive(Debug)]
pub enum Action {
    /// Look for an element until it appears or the time is up.
    Await(Lookup),
    /// Look for an element.
    Find(Lookup),
    /// Run a script and give back its text.
    Ask(String),
    /// Press the element that was found, clear it and type the text.
    Type(String),
    /// Run a script and tell whether it says yes.
    Check(String),
    /// Run a script until it says yes or the time is up.
    AwaitCheck(String),
    /// Press the element that was found.
    Press,
    /// Type the enter key into the password field.
    PressEnter,
    /// Tell where the browser is, and whether the script says yes.
    Watch(String),
    /// Let the page settle, run a script and give back its text.
    SettleAndAsk(String),
    /// The login succeeded.
    Succeed,
    /// The login failed.
    Fail(String),
}

/// What to do next.
pub ghost enum ActionView {
    Await(LookupView),
    Find(LookupView),
    Ask(Seq<char>),
    Type(Seq<char>),
    Check(Seq<char>),
    AwaitCheck(Seq<char>),
    Press,
    PressEnter,
    Watch(Seq<char>),
    SettleAndAsk(Seq<char>),
    Succeed,
    Fail(Seq<char>),
}

impl View for Action {
    type V = ActionView;

    open spec fn view(&self) -> ActionView {
        match self {
            Action::Await(l) => ActionView::Await(l@),
            Action::Find(l) => ActionView::Find(l@),
            Action::Ask(s) => ActionView::Ask(s@),
            Action::Type(s) => ActionView::Type(s@),
            Action::Check(s) => ActionView::Check(s@),
            Action::AwaitCheck(s) => ActionView::AwaitCheck(s@),
            Action::Press => ActionView::Press,
            Action::PressEnter => ActionView::PressEnter,
            Action::Watch(s) => ActionView::Watch(s@),
            Action::SettleAndAsk(s) => ActionView::SettleAndAsk(s@),
            Action::Succeed => ActionView::Succeed,
            Action::Fail(s) => ActionView::Fail(s@),
        }
    }
}

impl LoginPlan {
    /// What to do at a stage.
    pub open spec fn action(self, stage: StageView) -> ActionView {
        match stage {
            StageView::AwaitForm => ActionView::Await(LookupView::Css("input"@)),
            StageView::FindUsername(i) => ActionView::Find(self.username_lookups()[i as int]),
            StageView::GuessUsername => ActionView::Ask(GUESS_USERNAME_JS@),
            StageView::FindGuessed(sel) => ActionView::Find(LookupView::Css(sel)),
            StageView::FindTextField => ActionView::Find(LookupView::Css("input[type='text']"@)),
            StageView::TypeUsername => ActionView::Type(self.username),
            StageView::CheckPassword => ActionView::Check(PASSWORD_VISIBLE_JS@),
            StageView::FindNext(i) => ActionView::Find(self.next_lookups()[i as int]),
            StageView::PressNext => ActionView::Press,
            StageView::AwaitPassword => ActionView::AwaitCheck(PASSWORD_VISIBLE_JS@),
            StageView::FindPassword(i) => ActionView::Find(self.password_lookups()[i as int]),
            StageView::TypePassword => ActionView::Type(self.password),
            StageView::FindSubmit(i) => ActionView::Find(self.submit_lookups()[i as int]),
            StageView::PressSubmit => ActionView::Press,
            StageView::PressEnter => ActionView::PressEnter,
            StageView::AwaitLanding(_, _) => ActionView::Watch(PASSWORD_VISIBLE_JS@),
            StageView::ReadBody(_, _) => ActionView::SettleAndAsk(BODY_TEXT_JS@),
            StageView::Done => ActionView::Succeed,
            StageView::Failed(why) => ActionView::Fail(why),
        }
    }
}

/// A lookup by CSS selector.
fn css(selector: &str) -> (r: Lookup)
    ensures
        r@ == LookupView::Css(selector@),
{
    Lookup::Css(selector.to_string())
}

/// The failure with that message.
fn failed(why: &str) -> (r: Stage)
    ensures
        r@ == StageView::Failed(why@),
{
    Stage::Failed(why.to_string())
}

/// The failure whose message has `middle` between the two parts.
fn failed_about(before: &str, middle: &str, after: &str) -> (r: Stage)
    ensures
        r@ == StageView::Failed(before@ + middle@ + after@),
{
    let mut s = before.to_string();
    s.append(middle);
    s.append(after);
    Stage::Failed(s)
}

/// The text, or an empty one.
fn text_or_empty(s: &Option<String>) -> (r: String)
    ensures
        r@ == match opt_view(*s) {
            Some(t) => t,
            None => Seq::<char>::empty(),
        },
{
    match s {
        Some(t) => t.clone(),
        None => String::new(),
    }
}

impl Login {
    /// What the login works with.
    pub open spec fn plan(&self) -> LoginPlan {
        LoginPlan {
            login_url: self.login_url@,
            username: self.username@,
            password: self.password@,
            username_selector: opt_view(self.username_selector),
            password_selector: opt_view(self.password_selector),
            submit_selector: opt_view(self.submit_selector),
        }
    }

    /// The ranks of the stage are within its lookups.
    pub open spec fn is_valid(&self) -> bool {
        self.plan().admits(self.stage@)
    }

    /// A login on the page at `login_url`, which is loaded. A user name or password that
    /// was not given is empty.
    pub fn begin(auth: &AuthConfig, login_url: String) -> (r: Login)
        ensures
            r.is_valid(),
            r.stage@ == StageView::AwaitForm,
            r.plan() == (LoginPlan {
                login_url: login_url@,
                username: match auth@.username {
                    Some(s) => s,
                    None => Seq::empty(),
                },
                password: match auth@.password {
                    Some(s) => s,
                    None => Seq::empty(),
                },
                username_selector: auth@.username_selector,
                password_selector: auth@.password_selector,
                submit_selector: auth@.submit_selector,
            }),
    {
        Login {
            login_url,
            username: text_or_empty(&auth.username),
            password: text_or_empty(&auth.password),
            username_selector: auth.username_selector.clone(),
            password_selector: auth.password_selector.clone(),
            submit_selector: auth.submit_selector.clone(),
            stage: Stage::AwaitForm,
        }
    }

    /// The lookup of that rank for the button to the next step.
    fn next_lookup(&self, rank: usize) -> (r: Lookup)
        requires
            rank < 4,
        ensures
            r@ == self.plan().next_lookups()[rank as int],
    {
        match rank {
            0 => Lookup::XPath(NEXT_BUTTON.to_string()),
            1 => css("button[type='submit']"),
            2 => css("input[type='submit']"),
            _ => Lookup::XPath(LOGIN_BUTTON.to_string()),
        }
    }

    /// The lookup of that rank for the button that logs in.
    fn submit_lookup(&self, rank: usize) -> (r: Lookup)
        requires
            rank < self.plan().submit_lookups().len(),
        ensures
            r@ == self.plan().submit_lookups()[rank as int],
    {
        match &self.submit_selector {
            Some(sel) => css(sel.as_str()),
            None => match rank {
                0 => css("button[type='submit']"),
                1 => css("input[type='submit']"),
                2 => css("input[type='image']"),
                3 => Lookup::XPath(LOGIN_BUTTON.to_string()),
                _ => Lookup::LastCss(ANY_BUTTON.to_string()),
            },
        }
    }

    /// What to do next.
    pub fn action(&self) -> (r: Action)
        requires
            self.is_valid(),
        ensures
            r@ == self.plan().action(self.stage@),
            self.stage is TypeUsername ==> r@ == ActionView::Type(self.username@),
            self.stage is TypePassword ==> r@ == ActionView::Type(self.password@),
    {
        match &self.stage {
            Stage::AwaitForm => Action::Await(css("input")),
            Stage::FindUsername(i) => match &self.username_selector {
                Some(sel) => Action::Find(css(sel.as_str())),
                None => Action::Find(css(username_selector(*i))),
            },
            Stage::GuessUsername => Action::Ask(GUESS_USERNAME_JS.to_string()),
            Stage::FindGuessed(sel) => Action::Find(css(sel.as_str())),
            Stage::FindTextField => Action::Find(css("input[type='text']")),
            Stage::TypeUsername => Action::Type(self.username.clone()),
            Stage::CheckPassword => Action::Check(PASSWORD_VISIBLE_JS.to_string()),
            Stage::FindNext(i) => Action::Find(self.next_lookup(*i)),
            Stage::PressNext => Action::Press,
            Stage::AwaitPassword => Action::AwaitCheck(PASSWORD_VISIBLE_JS.to_string()),
            Stage::FindPassword(i) => match &self.password_selector {
                Some(sel) => Action::Find(css(sel.as_str())),
                None => Action::Find(css(password_selector(*i))),
            },
            Stage::TypePassword => Action::Type(self.password.clone()),
            Stage::FindSubmit(i) => Action::Find(self.submit_lookup(*i)),
            Stage::PressSubmit => Action::Press,
            Stage::PressEnter => Action::PressEnter,
            Stage::AwaitLanding(_, _) => Action::Watch(PASSWORD_VISIBLE_JS.to_string()),
            Stage::ReadBody(_, _) => Action::SettleAndAsk(BODY_TEXT_JS.to_string()),
            Stage::Done => Action::Succeed,
            Stage::Failed(why) => Action::Fail(why.clone()),
        }
    }

    /// The stage after the user name field was not found by the lookup of that rank.
    fn username_missed(&self, i: usize) -> (r: Stage)
        requires
            i < self.plan().username_lookups().len(),
        ensures
            r@ == self.plan().username_missed(i),
    {
        match &self.username_selector {
            Some(sel) => failed_about("Username selector '", sel.as_str(), "' matched nothing"),
            None => if i + 1 < 18 {
                Stage::FindUsername(i + 1)
            } else {
                Stage::GuessUsername
            },
        }
    }

    /// The stage after the password field was not found by the lookup of that rank.
    fn password_missed(&self, i: usize) -> (r: Stage)
        requires
            i < self.plan().password_lookups().len(),
        ensures
            r@ == self.plan().password_missed(i),
    {
        match &self.password_selector {
            Some(sel) => failed_about("Password selector '", sel.as_str(), "' matched nothing"),
            None => if i + 1 < 10 {
                Stage::FindPassword(i + 1)
            } else {
                failed("Could not find a password field on the login page")
            },
        }
    }

    /// The stage after the button that logs in was not found by the lookup of that rank.
    fn submit_missed(&self, i: usize) -> (r: Stage)
        requires
            i < self.plan().submit_lookups().len(),
        ensures
            r@ == self.plan().next(StageView::FindSubmit(i), EventView::No),
    {
        match &self.submit_selector {
            Some(_) => Stage::PressEnter,
            None => if i + 1 < 5 {
                Stage::FindSubmit(i + 1)
            } else {
                Stage::PressEnter
            },
        }
    }

    /// What was seen while waiting for the browser to leave the login page: where it is, if
    /// it can say, and whether the password field can be seen.
    pub fn landing(&self, url: Option<String>, password_visible: bool, late: bool) -> (r: Event)
        ensures
            r@ == (EventView::Landing {
                url: opt_view(url),
                at_login: match opt_view(url) {
                    Some(u) => at_login_page(u, self.login_url@),
                    None => false,
                },
                password_visible,
                late,
            }),
    {
        let at_login = match &url {
            Some(u) => url_indicates_login_page(u.as_str(), self.login_url.as_str()),
            None => false,
        };
        Event::Landing { url, at_login, password_visible, late }
    }

    /// Takes in what came of the action.
    pub fn advance(&mut self, event: Event)
        requires
            old(self).is_valid(),
        ensures
            final(self).plan() == old(self).plan(),
            final(self).stage@ == old(self).plan().next(old(self).stage@, event@),
            final(self).is_valid(),
    {
        let mut stage = Stage::Done;
        std::mem::swap(&mut stage, &mut self.stage);
        self.stage = match (stage, event) {
            (Stage::AwaitForm, Event::Yes) => Stage::FindUsername(0),
            (Stage::AwaitForm, Event::Late) => failed_about(
                "Navigated to ",
                self.login_url.as_str(),
                " but no <input> elements appeared within 10s.\nIs that the correct login URL?",
            ),
            (Stage::FindUsername(_), Event::Yes) => Stage::TypeUsername,
            (Stage::FindUsername(i), Event::No) => self.username_missed(i),
            (Stage::GuessUsername, Event::Reply(reply)) => match reply {
                Some(sel) => if sel.as_str().unicode_len() > 0 {
                    Stage::FindGuessed(sel)
                } else {
                    Stage::FindTextField
                },
                None => Stage::FindTextField,
            },
            (Stage::FindGuessed(_), Event::Yes) => Stage::TypeUsername,
            (Stage::FindGuessed(_), Event::No) => failed(
                "Could not find a username/email field on the login page",
            ),
            (Stage::FindTextField, Event::Yes) => Stage::TypeUsername,
            (Stage::FindTextField, Event::No) => failed(
                "Could not find a username/email field on the login page",
            ),
            (Stage::TypeUsername, Event::Yes) => Stage::CheckPassword,
            (Stage::TypeUsername, Event::No) => failed("Failed to type into username field"),
            (Stage::CheckPassword, Event::Yes) => Stage::FindPassword(0),
            (Stage::CheckPassword, Event::No) => Stage::FindNext(0),
            (Stage::FindNext(_), Event::Yes) => Stage::PressNext,
            (Stage::FindNext(i), Event::No) => if i + 1 < 4 {
                Stage::FindNext(i + 1)
            } else {
                Stage::FindPassword(0)
            },
            (Stage::PressNext, Event::Yes) => Stage::AwaitPassword,
            (Stage::PressNext, Event::No) => Stage::AwaitPassword,
            (Stage::AwaitPassword, Event::Yes) => Stage::FindPassword(0),
            (Stage::AwaitPassword, Event::Late) => Stage::FindPassword(0),
            (Stage::FindPassword(_), Event::Yes) => Stage::TypePassword,
            (Stage::FindPassword(i), Event::No) => self.password_missed(i),
            (Stage::TypePassword, Event::Yes) => Stage::FindSubmit(0),
            (Stage::TypePassword, Event::No) => failed("Failed to type into password field"),
            (Stage::FindSubmit(_), Event::Yes) => Stage::PressSubmit,
            (Stage::FindSubmit(i), Event::No) => self.submit_missed(i),
            (Stage::PressSubmit, Event::Yes) => Stage::AwaitLanding(String::new(), true),
            (Stage::PressSubmit, Event::No) => failed("Failed to click sign-in button"),
            (Stage::PressEnter, Event::Yes) => Stage::AwaitLanding(String::new(), true),
            (Stage::PressEnter, Event::No) => failed(
                "Failed to send Enter key to password field as a fallback submit",
            ),
            (
                Stage::AwaitLanding(last, was),
                Event::Landing { url, at_login, password_visible, late },
            ) => {
                let (place, still, left) = match url {
                    Some(u) => {
                        let still = at_login && password_visible;
                        (u, still, !still)
                    },
                    None => (last, was, false),
                };
                if late || left {
                    Stage::ReadBody(place, still)
                } else {
                    Stage::AwaitLanding(place, still)
                }
            },
            (Stage::ReadBody(place, still), Event::Reply(reply)) => {
                let body = text_or_empty(&reply);
                if indicates_bot_check(body.as_str()) {
                    failed(BOT_CHECK)
                } else if still || indicates_error(body.as_str()) {
                    let mut why = STILL_THERE.to_string();
                    why.append(place.as_str());
                    Stage::Failed(why)
                } else {
                    Stage::Done
                }
            },
            (stage, _) => stage,
        };
    }
}

/// How far a login is.
pub open spec fn progress(stage: StageView) -> int {
    match stage {
        StageView::AwaitForm => 0,
        StageView::FindUsername(i) => 1 + i,
        StageView::GuessUsername => 20,
        StageView::FindGuessed(_) => 21,
        StageView::FindTextField => 21,
        StageView::TypeUsername => 22,
        StageView::CheckPassword => 23,
        StageView::FindNext(i) => 24 + i,
        StageView::PressNext => 30,
        StageView::AwaitPassword => 31,
        StageView::FindPassword(i) => 32 + i,
        StageView::TypePassword => 50,
        StageView::FindSubmit(i) => 51 + i,
        StageView::PressSubmit => 60,
        StageView::PressEnter => 60,
        StageView::AwaitLanding(_, _) => 61,
        StageView::ReadBody(_, _) => 62,
        StageView::Done => 63,
        StageView::Failed(_) => 63,
    }
}

/// The event answers what is done at the stage.
pub open spec fn answers(stage: StageView, event: EventView) -> bool {
    match stage {
        StageView::AwaitForm | StageView::AwaitPassword => event is Yes || event is No || event is Late,
        StageView::GuessUsername | StageView::ReadBody(_, _) => event is Reply,
        StageView::AwaitLanding(_, _) => event is Landing,
        StageView::Done | StageView::Failed(_) => false,
        _ => event is Yes || event is No,
    }
}

/// The event tells to wait on.
pub open spec fn waits(stage: StageView, event: EventView) -> bool {
    match stage {
        StageView::AwaitForm | StageView::AwaitPassword => event is No,
        StageView::AwaitLanding(_, _) => match event {
            EventView::Landing { url, at_login, password_visible, late } => !late && (url is None
                || (at_login && password_visible)),
            _ => false,
        },
        _ => false,
    }
}

/// Each answer takes a login forward, unless it tells to wait on; so a login ends after a
/// bounded number of answers that are no waiting.
pub proof fn login_goes_forward(plan: LoginPlan, stage: StageView, event: EventView)
    requires
        plan.admits(stage),
        answers(stage, event),
    ensures
        plan.admits(plan.next(stage, event)),
        0 <= progress(stage) <= progress(plan.next(stage, event)) <= 63,
        waits(stage, event) ==> progress(plan.next(stage, event)) == progress(stage),
        !waits(stage, event) ==> progress(plan.next(stage, event)) > progress(stage),
{
}

/// A login presses no button to log in and no enter key before the password was typed, and
/// types no password before the user name was typed.
pub proof fn login_keeps_order(plan: LoginPlan, stage: StageView, event: EventView)
    requires
        plan.admits(stage),
    ensures
        plan.next(stage, event) is FindSubmit ==> stage is FindSubmit || (stage is TypePassword
            && event is Yes),
        plan.next(stage, event) is PressSubmit && !(stage is PressSubmit) ==> stage is FindSubmit,
        plan.next(stage, event) is PressEnter && !(stage is PressEnter) ==> stage is FindSubmit,
        plan.next(stage, event) is CheckPassword && !(stage is CheckPassword) ==> stage
            is TypeUsername && event is Yes,
        progress(stage) <= 23 && progress(plan.next(stage, event)) > 23 && !(plan.next(
            stage,
            event,
        ) is Failed) ==> stage is CheckPassword,
        progress(stage) <= 50 && progress(plan.next(stage, event)) > 50 && !(plan.next(
            stage,
            event,
        ) is Failed) ==> stage is TypePassword && event is Yes,
{
}

/// A login succeeds exactly when the page it landed on is not the login page still and its
/// text names neither a challenge nor a refusal.
pub proof fn login_succeeds(plan: LoginPlan, stage: StageView, event: EventView)
    requires
        !(stage is Done),
    ensures
        plan.next(stage, event) is Done <==> ({
            &&& stage matches StageView::ReadBody(_, still)
            &&& !still
            &&& event matches EventView::Reply(reply)
            &&& ({
                let body = match reply {
                    Some(s) => s,
                    None => Seq::<char>::empty(),
                };
                !shows_bot_check(body) && !shows_refusal(body)
            })
        }),
{
}

/// The stage reached from `stage` where exactly the lookups that `matches` tells are
/// answered by an element, after `steps` lookups.
pub open spec fn search(
    plan: LoginPlan,
    stage: StageView,
    matches: spec_fn(LookupView) -> bool,
    steps: nat,
) -> StageView
    decreases steps,
{
    if steps == 0 {
        stage
    } else {
        match plan.action(stage) {
            ActionView::Find(l) => search(
                plan,
                plan.next(
                    stage,
                    if matches(l) {
                        EventView::Yes
                    } else {
                        EventView::No
                    },
                ),
                matches,
                (steps - 1) as nat,
            ),
            _ => stage,
        }
    }
}

/// The lookups for the user name are tried in their order: where the one of rank `hit` is
/// the first that matches, it is the one whose element is typed into.
pub proof fn username_search_is_ranked(
    plan: LoginPlan,
    matches: spec_fn(LookupView) -> bool,
    from: usize,
    hit: usize,
)
    requires
        from <= hit < plan.username_lookups().len(),
        matches(plan.username_lookups()[hit as int]),
        forall|i: int| from <= i < hit ==> !matches(#[trigger] plan.username_lookups()[i]),
    ensures
        search(plan, StageView::FindUsername(from), matches, (hit - from) as nat)
            == StageView::FindUsername(hit),
        search(plan, StageView::FindUsername(from), matches, (hit - from + 1) as nat)
            == StageView::TypeUsername,
    decreases hit - from,
{
    if from < hit {
        assert(!matches(plan.username_lookups()[from as int]));
        username_search_is_ranked(plan, matches, (from + 1) as usize, hit);
    } else {
        reveal_with_fuel(search, 2);
    }
}

/// The lookups for the password are tried in their order: where the one of rank `hit` is
/// the first that matches, it is the one whose element is typed into.
pub proof fn password_search_is_ranked(
    plan: LoginPlan,
    matches: spec_fn(LookupView) -> bool,
    from: usize,
    hit: usize,
)
    requires
        from <= hit < plan.password_lookups().len(),
        matches(plan.password_lookups()[hit as int]),
        forall|i: int| from <= i < hit ==> !matches(#[trigger] plan.password_lookups()[i]),
    ensures
        search(plan, StageView::FindPassword(from), matches, (hit - from) as nat)
            == StageView::FindPassword(hit),
        search(plan, StageView::FindPassword(from), matches, (hit - from + 1) as nat)
            == StageView::TypePassword,
    decreases hit - from,
{
    if from < hit {
        assert(!matches(plan.password_lookups()[from as int]));
        password_search_is_ranked(plan, matches, (from + 1) as usize, hit);
    } else {
        reveal_with_fuel(search, 2);
    }
}

/// The lookups for the button that logs in are tried in their order: where the one of rank
/// `hit` is the first that matches, it is the one whose element is pressed.
pub proof fn submit_search_is_ranked(
    plan: LoginPlan,
    matches: spec_fn(LookupView) -> bool,
    from: usize,
    hit: usize,
)
    requires
        from <= hit < plan.submit_lookups().len(),
        matches(plan.submit_lookups()[hit as int]),
        forall|i: int| from <= i < hit ==> !matches(#[trigger] plan.submit_lookups()[i]),
    ensures
        search(plan, StageView::FindSubmit(from), matches, (hit - from) as nat)
            == StageView::FindSubmit(hit),
        search(plan, StageView::FindSubmit(from), matches, (hit - from + 1) as nat)
            == StageView::PressSubmit,
    decreases hit - from,
{
    if from < hit {
        assert(!matches(plan.submit_lookups()[from as int]));
        submit_search_is_ranked(plan, matches, (from + 1) as usize, hit);
    } else {
        reveal_with_fuel(search, 2);
    }
}

/// How many milliseconds the page that a login landed on is given to settle.
pub fn landing_settle_ms(settle_ms: u64) -> (r: u64)
    ensures
        r == if settle_ms < 500 {
            500
        } else {
            settle_ms as int
        },
{
    if settle_ms < 500 {
        500
    } else {
        settle_ms
    }
}

/// The value that a script gave is true; anything else, and no value, counts as false.
pub fn reply_is_true(reply: Option<&serde_json::Value>) -> (r: bool)
    ensures
        r == match reply {
            Some(v) => json_view(*v).truth() == Some(true),
            None => false,
        },
{
    match reply {
        Some(v) => match json_bool(v) {
            Some(b) => b,
            None => false,
        },
        None => false,
    }
}

/// The text that a script gave, if it gave one.
pub fn reply_text(reply: Option<&serde_json::Value>) -> (r: Option<String>)
    ensures
        opt_view(r) == match reply {
            Some(v) => json_view(*v).text(),
            None => None,
        },
{
    match reply {
        Some(v) => match json_str(v) {
            Some(s) => Some(s.to_string()),
            None => None,
        },
        None => None,
    }
}

/// What is typed are the credentials: the user name where the field for it was found, the
/// password where the field for that was, whatever the selectors are, and nothing is typed
/// anywhere else.
pub proof fn credentials_are_typed(plan: LoginPlan, stage: StageView)
    ensures
        plan.action(StageView::TypeUsername) == ActionView::Type(plan.username),
        plan.action(StageView::TypePassword) == ActionView::Type(plan.password),
        plan.action(stage) is Type <==> stage is TypeUsername || stage is TypePassword,
{
}

/// A selector that was given is what the field or the button is looked for by, and nothing
/// else is tried: where it matches nothing the login fails and names it, and without a button
/// the enter key is pressed.
pub proof fn given_selectors_are_used(plan: LoginPlan, i: usize, selector: Seq<char>)
    ensures
        plan.username_selector == Some(selector) && plan.admits(StageView::FindUsername(i)) ==> {
            &&& plan.action(StageView::FindUsername(i)) == ActionView::Find(
                LookupView::Css(selector),
            )
            &&& plan.next(StageView::FindUsername(i), EventView::No) == StageView::Failed(
                "Username selector '"@ + selector + "' matched nothing"@,
            )
        },
        plan.password_selector == Some(selector) && plan.admits(StageView::FindPassword(i)) ==> {
            &&& plan.action(StageView::FindPassword(i)) == ActionView::Find(
                LookupView::Css(selector),
            )
            &&& plan.next(StageView::FindPassword(i), EventView::No) == StageView::Failed(
                "Password selector '"@ + selector + "' matched nothing"@,
            )
        },
        plan.submit_selector == Some(selector) && plan.admits(StageView::FindSubmit(i)) ==> {
            &&& plan.action(StageView::FindSubmit(i)) == ActionView::Find(
                LookupView::Css(selector),
            )
            &&& plan.next(StageView::FindSubmit(i), EventView::No) == StageView::PressEnter
        },
        plan.admits(StageView::FindUsername(0)),
        plan.admits(StageView::FindPassword(0)),
        plan.admits(StageView::FindSubmit(0)),
        plan.admits(StageView::FindNext(0)),
{
}

/// Without a selector of its own, the field for the user name is looked for by type, purpose,
/// name, label and hint, in this order; one lookup that matches nothing leads to the next one,
/// and the last to a guess.
pub proof fn username_field_is_guessed(plan: LoginPlan, i: usize)
    ensures
        plan.username_selector is None ==> {
            &&& plan.action(StageView::FindUsername(0)) == ActionView::Find(LookupView::Css("input[type='email']"@))
            &&& plan.action(StageView::FindUsername(1)) == ActionView::Find(LookupView::Css("input[autocomplete='email']"@))
            &&& plan.action(StageView::FindUsername(2)) == ActionView::Find(LookupView::Css("input[autocomplete='username']"@))
            &&& plan.action(StageView::FindUsername(3)) == ActionView::Find(LookupView::Css("input[name*='email' i]"@))
            &&& plan.action(StageView::FindUsername(4)) == ActionView::Find(LookupView::Css("input[name*='username' i]"@))
            &&& plan.action(StageView::FindUsername(5)) == ActionView::Find(LookupView::Css("input[name*='login' i]"@))
            &&& plan.action(StageView::FindUsername(6)) == ActionView::Find(LookupView::Css("input[name*='user' i]"@))
            &&& plan.action(StageView::FindUsername(7)) == ActionView::Find(LookupView::Css("input[id*='email' i]"@))
            &&& plan.action(StageView::FindUsername(8)) == ActionView::Find(LookupView::Css("input[id*='user' i]"@))
            &&& plan.action(StageView::FindUsername(9)) == ActionView::Find(LookupView::Css("input[id*='login' i]"@))
            &&& plan.action(StageView::FindUsername(10)) == ActionView::Find(LookupView::Css("input[aria-label*='email' i]"@))
            &&& plan.action(StageView::FindUsername(11)) == ActionView::Find(LookupView::Css("input[aria-label*='user' i]"@))
            &&& plan.action(StageView::FindUsername(12)) == ActionView::Find(LookupView::Css("input[aria-label*='login' i]"@))
            &&& plan.action(StageView::FindUsername(13)) == ActionView::Find(LookupView::Css("input[title*='email' i]"@))
            &&& plan.action(StageView::FindUsername(14)) == ActionView::Find(LookupView::Css("input[title*='user' i]"@))
            &&& plan.action(StageView::FindUsername(15)) == ActionView::Find(LookupView::Css("input[placeholder*='email' i]"@))
            &&& plan.action(StageView::FindUsername(16)) == ActionView::Find(LookupView::Css("input[placeholder*='user' i]"@))
            &&& plan.action(StageView::FindUsername(17)) == ActionView::Find(LookupView::Css("input[placeholder*='login' i]"@))
            &&& i + 1 < 18 ==> plan.next(StageView::FindUsername(i), EventView::No)
                == StageView::FindUsername((i + 1) as usize)
            &&& plan.next(StageView::FindUsername(17), EventView::No) == StageView::GuessUsername
        },
{
}

/// Without a selector of its own, the field for the password is looked for by type, purpose,
/// label, hint and name, in this order; one lookup that matches nothing leads to the next one,
/// and the last to failure.
pub proof fn password_field_is_guessed(plan: LoginPlan, i: usize)
    ensures
        plan.password_selector is None ==> {
            &&& plan.action(StageView::FindPassword(0)) == ActionView::Find(LookupView::Css("input[type='password']"@))
            &&& plan.action(StageView::FindPassword(1)) == ActionView::Find(LookupView::Css("input[autocomplete='current-password']"@))
            &&& plan.action(StageView::FindPassword(2)) == ActionView::Find(LookupView::Css("input[autocomplete='new-password']"@))
            &&& plan.action(StageView::FindPassword(3)) == ActionView::Find(LookupView::Css("input[aria-label*='password' i]"@))
            &&& plan.action(StageView::FindPassword(4)) == ActionView::Find(LookupView::Css("input[title*='password' i]"@))
            &&& plan.action(StageView::FindPassword(5)) == ActionView::Find(LookupView::Css("input[placeholder*='password' i]"@))
            &&& plan.action(StageView::FindPassword(6)) == ActionView::Find(LookupView::Css("input[name*='password' i]"@))
            &&& plan.action(StageView::FindPassword(7)) == ActionView::Find(LookupView::Css("input[id*='password' i]"@))
            &&& plan.action(StageView::FindPassword(8)) == ActionView::Find(LookupView::Css("input[name*='pass' i]"@))
            &&& plan.action(StageView::FindPassword(9)) == ActionView::Find(LookupView::Css("input[id*='pass' i]"@))
            &&& i + 1 < 10 ==> plan.next(StageView::FindPassword(i), EventView::No)
                == StageView::FindPassword((i + 1) as usize)
            &&& plan.next(StageView::FindPassword(9), EventView::No) == StageView::Failed(
                "Could not find a password field on the login page"@,
            )
        },
{
}

/// Without a selector of its own, the button that logs in is looked for as the one that submits
/// the form, then by what it says, and last as any button; where none is there, the enter key
/// is pressed. The button to the next step is looked for by what it says first.
pub proof fn buttons_are_guessed(plan: LoginPlan)
    ensures
        plan.submit_selector is None ==> {
            &&& plan.action(StageView::FindSubmit(0)) == ActionView::Find(
                LookupView::Css("button[type='submit']"@),
            )
            &&& plan.action(StageView::FindSubmit(1)) == ActionView::Find(
                LookupView::Css("input[type='submit']"@),
            )
            &&& plan.action(StageView::FindSubmit(2)) == ActionView::Find(
                LookupView::Css("input[type='image']"@),
            )
            &&& plan.action(StageView::FindSubmit(3)) == ActionView::Find(
                LookupView::XPath(LOGIN_BUTTON@),
            )
            &&& plan.action(StageView::FindSubmit(4)) == ActionView::Find(
                LookupView::LastCss(ANY_BUTTON@),
            )
            &&& plan.next(StageView::FindSubmit(0), EventView::No) == StageView::FindSubmit(1)
            &&& plan.next(StageView::FindSubmit(1), EventView::No) == StageView::FindSubmit(2)
            &&& plan.next(StageView::FindSubmit(2), EventView::No) == StageView::FindSubmit(3)
            &&& plan.next(StageView::FindSubmit(3), EventView::No) == StageView::FindSubmit(4)
            &&& plan.next(StageView::FindSubmit(4), EventView::No) == StageView::PressEnter
        },
        plan.action(StageView::FindNext(0)) == ActionView::Find(LookupView::XPath(NEXT_BUTTON@)),
        plan.action(StageView::FindNext(1)) == ActionView::Find(
            LookupView::Css("button[type='submit']"@),
        ),
        plan.action(StageView::FindNext(2)) == ActionView::Find(
            LookupView::Css("input[type='submit']"@),
        ),
        plan.action(StageView::FindNext(3)) == ActionView::Find(LookupView::XPath(LOGIN_BUTTON@)),
        plan.next(StageView::FindNext(0), EventView::No) == StageView::FindNext(1),
        plan.next(StageView::FindNext(1), EventView::No) == StageView::FindNext(2),
        plan.next(StageView::FindNext(2), EventView::No) == StageView::FindNext(3),
        plan.next(StageView::FindNext(3), EventView::No) == StageView::FindPassword(0),
{
}

/// What is found is used at once: a field is typed into, a button is pressed.
pub proof fn found_elements_are_used(plan: LoginPlan, i: usize, selector: Seq<char>)
    ensures
        plan.next(StageView::FindUsername(i), EventView::Yes) == StageView::TypeUsername,
        plan.next(StageView::FindGuessed(selector), EventView::Yes) == StageView::TypeUsername,
        plan.next(StageView::FindTextField, EventView::Yes) == StageView::TypeUsername,
        plan.next(StageView::FindPassword(i), EventView::Yes) == StageView::TypePassword,
        plan.next(StageView::FindNext(i), EventView::Yes) == StageView::PressNext,
        plan.next(StageView::FindSubmit(i), EventView::Yes) == StageView::PressSubmit,
        plan.action(StageView::PressNext) == ActionView::Press,
        plan.action(StageView::PressSubmit) == ActionView::Press,
        plan.action(StageView::PressEnter) == ActionView::PressEnter,
{
}

/// The page is asked for a field where none of the usual ones is there. The selector that it
/// gives is used; where it gives none, any text field will do.
pub proof fn guess_of_the_page_is_used(plan: LoginPlan, reply: Option<Seq<char>>, selector: Seq<char>)
    ensures
        plan.action(StageView::GuessUsername) == ActionView::Ask(GUESS_USERNAME_JS@),
        reply is Some && reply->0.len() > 0 ==> {
            let next = plan.next(StageView::GuessUsername, EventView::Reply(reply));
            plan.action(next) == ActionView::Find(LookupView::Css(reply->0))
        },
        reply is None || reply->0.len() == 0 ==> {
            let next = plan.next(StageView::GuessUsername, EventView::Reply(reply));
            plan.action(next) == ActionView::Find(LookupView::Css("input[type='text']"@))
        },
        plan.next(StageView::FindGuessed(selector), EventView::No) == StageView::Failed(
            "Could not find a username/email field on the login page"@,
        ),
        plan.next(StageView::FindTextField, EventView::No) == StageView::Failed(
            "Could not find a username/email field on the login page"@,
        ),
{
}

/// A login waits for an input first. Once the user name was typed, it looks whether the
/// password field can be seen: if so, it looks for that field; if not, it goes to the next step
/// first and waits for the field, but not for ever.
pub proof fn login_takes_its_steps(plan: LoginPlan, event: EventView)
    ensures
        plan.action(StageView::AwaitForm) == ActionView::Await(LookupView::Css("input"@)),
        plan.next(StageView::AwaitForm, EventView::Yes) == StageView::FindUsername(0),
        plan.next(StageView::AwaitForm, EventView::No) == StageView::AwaitForm,
        plan.next(StageView::AwaitForm, EventView::Late) == StageView::Failed(
            "Navigated to "@ + plan.login_url
                + " but no <input> elements appeared within 10s.\nIs that the correct login URL?"@,
        ),
        plan.next(StageView::TypeUsername, EventView::Yes) == StageView::CheckPassword,
        plan.next(StageView::TypeUsername, EventView::No) == StageView::Failed(
            "Failed to type into username field"@,
        ),
        plan.action(StageView::CheckPassword) == ActionView::Check(PASSWORD_VISIBLE_JS@),
        plan.next(StageView::CheckPassword, EventView::Yes) == StageView::FindPassword(0),
        plan.next(StageView::CheckPassword, EventView::No) == StageView::FindNext(0),
        event is Yes || event is No ==> plan.next(StageView::PressNext, event)
            == StageView::AwaitPassword,
        plan.action(StageView::AwaitPassword) == ActionView::AwaitCheck(PASSWORD_VISIBLE_JS@),
        plan.next(StageView::AwaitPassword, EventView::No) == StageView::AwaitPassword,
        event is Yes || event is Late ==> plan.next(StageView::AwaitPassword, event)
            == StageView::FindPassword(0),
        plan.next(StageView::TypePassword, EventView::Yes) == StageView::FindSubmit(0),
        plan.next(StageView::TypePassword, EventView::No) == StageView::Failed(
            "Failed to type into password field"@,
        ),
        plan.next(StageView::PressSubmit, EventView::Yes) == StageView::AwaitLanding(
            Seq::empty(),
            true,
        ),
        plan.next(StageView::PressEnter, EventView::Yes) == StageView::AwaitLanding(
            Seq::empty(),
            true,
        ),
        plan.next(StageView::PressSubmit, EventView::No) == StageView::Failed(
            "Failed to click sign-in button"@,
        ),
        plan.next(StageView::PressEnter, EventView::No) == StageView::Failed(
            "Failed to send Enter key to password field as a fallback submit"@,
        ),
{
}

/// After the form was sent, the browser is watched until it leaves the login page or the time
/// is up. It is there still exactly while its URL seems to be that of the login page and the
/// password field can be seen; where it cannot say, what was seen last holds.
pub proof fn landing_is_watched(
    plan: LoginPlan,
    last: Seq<char>,
    was: bool,
    url: Option<Seq<char>>,
    at_login: bool,
    password_visible: bool,
    late: bool,
)
    ensures
        plan.action(StageView::AwaitLanding(last, was)) == ActionView::Watch(PASSWORD_VISIBLE_JS@),
        plan.action(StageView::ReadBody(last, was)) == ActionView::SettleAndAsk(BODY_TEXT_JS@),
        ({
            let next = plan.next(
                StageView::AwaitLanding(last, was),
                EventView::Landing { url, at_login, password_visible, late },
            );
            match url {
                Some(u) => {
                    &&& !at_login || !password_visible ==> next == StageView::ReadBody(u, false)
                    &&& at_login && password_visible && late ==> next == StageView::ReadBody(
                        u,
                        true,
                    )
                    &&& at_login && password_visible && !late ==> next == StageView::AwaitLanding(
                        u,
                        true,
                    )
                },
                None => {
                    &&& late ==> next == StageView::ReadBody(last, was)
                    &&& !late ==> next == StageView::AwaitLanding(last, was)
                },
            }
        }),
{
}

/// A page whose text, around which anything may stand, names a challenge that keeps robots out
/// ends the login, and so does one that says that the login was refused.
pub proof fn refusals_are_noticed(plan: LoginPlan, place: Seq<char>, still: bool, a: Seq<char>, b: Seq<char>)
    ensures
        plan.next(StageView::ReadBody(place, still), EventView::Reply(Some(a + "cf-turnstile"@ + b)))
            == StageView::Failed(BOT_CHECK@),
        plan.next(StageView::ReadBody(place, still), EventView::Reply(Some(a + "cloudflare"@ + b)))
            == StageView::Failed(BOT_CHECK@),
        plan.next(StageView::ReadBody(place, still), EventView::Reply(Some(a + "recaptcha"@ + b)))
            == StageView::Failed(BOT_CHECK@),
        plan.next(StageView::ReadBody(place, still), EventView::Reply(Some(a + "hcaptcha"@ + b)))
            == StageView::Failed(BOT_CHECK@),
        plan.next(StageView::ReadBody(place, still), EventView::Reply(Some(a + "datadome"@ + b)))
            == StageView::Failed(BOT_CHECK@),
        plan.next(StageView::ReadBody(place, still), EventView::Reply(Some(a + "security check"@ + b)))
            == StageView::Failed(BOT_CHECK@),
        plan.next(StageView::ReadBody(place, still), EventView::Reply(Some(a + "verify you are human"@ + b)))
            == StageView::Failed(BOT_CHECK@),
        plan.next(StageView::ReadBody(place, still), EventView::Reply(Some(a + "pardon our interruption"@ + b)))
            == StageView::Failed(BOT_CHECK@),
        ({
            let body = a + "forbidden"@ + b;
            let next = plan.next(StageView::ReadBody(place, still), EventView::Reply(Some(body)));
            next == StageView::Failed(STILL_THERE@ + place) || next == StageView::Failed(BOT_CHECK@)
        }),
        ({
            let body = a + "unauthorized"@ + b;
            let next = plan.next(StageView::ReadBody(place, still), EventView::Reply(Some(body)));
            next == StageView::Failed(STILL_THERE@ + place) || next == StageView::Failed(BOT_CHECK@)
        }),
        ({
            let body = a + "invalid credentials"@ + b;
            let next = plan.next(StageView::ReadBody(place, still), EventView::Reply(Some(body)));
            next == StageView::Failed(STILL_THERE@ + place) || next == StageView::Failed(BOT_CHECK@)
        }),
        ({
            let body = a + "incorrect password"@ + b;
            let next = plan.next(StageView::ReadBody(place, still), EventView::Reply(Some(body)));
            next == StageView::Failed(STILL_THERE@ + place) || next == StageView::Failed(BOT_CHECK@)
        }),
        ({
            let body = a + "wrong password"@ + b;
            let next = plan.next(StageView::ReadBody(place, still), EventView::Reply(Some(body)));
            next == StageView::Failed(STILL_THERE@ + place) || next == StageView::Failed(BOT_CHECK@)
        }),
        ({
            let body = a + "invalid email"@ + b;
            let next = plan.next(StageView::ReadBody(place, still), EventView::Reply(Some(body)));
            next == StageView::Failed(STILL_THERE@ + place) || next == StageView::Failed(BOT_CHECK@)
        }),
        ({
            let body = a + "incorrect email"@ + b;
            let next = plan.next(StageView::ReadBody(place, still), EventView::Reply(Some(body)));
            next == StageView::Failed(STILL_THERE@ + place) || next == StageView::Failed(BOT_CHECK@)
        }),
        ({
            let body = a + "login failed"@ + b;
            let next = plan.next(StageView::ReadBody(place, still), EventView::Reply(Some(body)));
            next == StageView::Failed(STILL_THERE@ + place) || next == StageView::Failed(BOT_CHECK@)
        }),
        ({
            let body = a + "authentication failed"@ + b;
            let next = plan.next(StageView::ReadBody(place, still), EventView::Reply(Some(body)));
            next == StageView::Failed(STILL_THERE@ + place) || next == StageView::Failed(BOT_CHECK@)
        }),
{
    lemma_part_between(a, "cf-turnstile"@, b);
    lemma_part_between(a, "cloudflare"@, b);
    lemma_part_between(a, "recaptcha"@, b);
    lemma_part_between(a, "hcaptcha"@, b);
    lemma_part_between(a, "datadome"@, b);
    lemma_part_between(a, "security check"@, b);
    lemma_part_between(a, "verify you are human"@, b);
    lemma_part_between(a, "pardon our interruption"@, b);
    lemma_part_between(a, "forbidden"@, b);
    lemma_part_between(a, "unauthorized"@, b);
    lemma_part_between(a, "invalid credentials"@, b);
    lemma_part_between(a, "incorrect password"@, b);
    lemma_part_between(a, "wrong password"@, b);
    lemma_part_between(a, "invalid email"@, b);
    lemma_part_between(a, "incorrect email"@, b);
    lemma_part_between(a, "login failed"@, b);
    lemma_part_between(a, "authentication failed"@, b);
}

/// A part that stands between two texts is a part of the whole.
proof fn lemma_part_between(a: Seq<char>, part: Seq<char>, b: Seq<char>)
    ensures
        has_part(a + part + b, part),
{
    crate::text::part_stands_between(a + part + b, part);
    assert(a + part + b == (a + part) + b);
}

/// A login off the login page ends well exactly if the text of the page has none of the words
/// of a challenge or a refusal; one that is on the login page still never does.
pub proof fn other_pages_end_the_login_well(plan: LoginPlan, place: Seq<char>, body: Seq<char>)
    ensures
        ({
            let end = plan.next(StageView::ReadBody(place, false), EventView::Reply(Some(body)));
            &&& !(has_part(body, "cf-turnstile"@)
                || has_part(body, "cloudflare"@)
                || has_part(body, "recaptcha"@)
                || has_part(body, "hcaptcha"@)
                || has_part(body, "datadome"@)
                || has_part(body, "security check"@)
                || has_part(body, "verify you are human"@)
                || has_part(body, "pardon our interruption"@)
                || has_part(body, "forbidden"@)
                || has_part(body, "unauthorized"@)
                || has_part(body, "invalid credentials"@)
                || has_part(body, "incorrect password"@)
                || has_part(body, "wrong password"@)
                || has_part(body, "invalid email"@)
                || has_part(body, "incorrect email"@)
                || has_part(body, "login failed"@)
                || has_part(body, "authentication failed"@)) ==> end
                == StageView::Done
            &&& end == StageView::Done || end is Failed
        }),
        plan.next(StageView::ReadBody(place, false), EventView::Reply(None)) == plan.next(
            StageView::ReadBody(place, false),
            EventView::Reply(Some(Seq::empty())),
        ),
        plan.next(StageView::ReadBody(place, true), EventView::Reply(Some(body))) is Failed,
        plan.action(StageView::Done) == ActionView::Succeed,
        plan.action(StageView::Failed(body)) == ActionView::Fail(body),
{
}

/// The browser is on the login page still exactly if it is at the URL of that page, query and
/// fragment aside, or if a part of the path, in lower case, is one of the usual names.
pub proof fn login_page_is_known_by_place(
    current: Result<UrlView, Seq<char>>,
    bare: Option<BareView>,
    login: Option<BareView>,
    path: Seq<char>,
)
    ensures
        current is Err || bare is None ==> !shows_login_page(current, bare, login),
        current is Ok && bare is Some && login is Some ==> shows_login_page(current, bare, login)
            == (bare->0.text == login->0.text || is_login_path(lowercase(bare->0.path))),
        current is Ok && bare is Some && login is None ==> shows_login_page(current, bare, login)
            == is_login_path(lowercase(current->Ok_0.path)),
        is_login_path(path) <==> pieces(path, '/').contains("login"@)
            || pieces(path, '/').contains("signin"@)
            || pieces(path, '/').contains("sign-in"@)
            || pieces(path, '/').contains("auth"@)
            || pieces(path, '/').contains("authenticate"@),
{
    let parts = pieces(path, '/');
    if is_login_path(path) {
        let i = choose|i: int| 0 <= i < parts.len() && is_login_segment(#[trigger] parts[i]);
        assert(parts.contains(parts[i]));
    }
    if parts.contains("login"@) {
        let i = choose|i: int| 0 <= i < parts.len() && parts[i] == "login"@;
        assert(is_login_segment(parts[i]));
    }
    if parts.contains("signin"@) {
        let i = choose|i: int| 0 <= i < parts.len() && parts[i] == "signin"@;
        assert(is_login_segment(parts[i]));
    }
    if parts.contains("sign-in"@) {
        let i = choose|i: int| 0 <= i < parts.len() && parts[i] == "sign-in"@;
        assert(is_login_segment(parts[i]));
    }
    if parts.contains("auth"@) {
        let i = choose|i: int| 0 <= i < parts.len() && parts[i] == "auth"@;
        assert(is_login_segment(parts[i]));
    }
    if parts.contains("authenticate"@) {
        let i = choose|i: int| 0 <= i < parts.len() && parts[i] == "authenticate"@;
        assert(is_login_segment(parts[i]));
    }
}

/// A login page that is given as a full URL stands for itself; a path from the root stands
/// behind scheme, host and port of the site; any other path behind the site, with one slash
/// between them.
pub proof fn login_address_is_on_the_site(
    rest: Seq<char>,
    given: Seq<char>,
    base_url: Seq<char>,
    base: Result<UrlView, Seq<char>>,
)
    ensures
        login_address("http://"@ + rest, base_url, base) == "http://"@ + rest,
        login_address("https://"@ + rest, base_url, base) == "https://"@ + rest,
        base is Ok && base->Ok_0.host is Some && base->Ok_0.port is None ==> login_address(
            "/"@ + rest,
            base_url,
            base,
        ) == base->Ok_0.scheme + "://"@ + base->Ok_0.host->0 + "/"@ + rest,
        base is Ok && base->Ok_0.host is Some && base->Ok_0.port is Some ==> login_address(
            "/"@ + rest,
            base_url,
            base,
        ) == base->Ok_0.scheme + "://"@ + base->Ok_0.host->0 + ":"@ + numeral(
            base->Ok_0.port->0 as nat,
        ) + "/"@ + rest,
        base is Ok && base->Ok_0.host is None && base->Ok_0.port is None ==> login_address(
            "/"@ + rest,
            base_url,
            base,
        ) == base->Ok_0.scheme + "://"@ + "localhost"@ + "/"@ + rest,
        base is Err ==> login_address("/"@ + rest, base_url, base) == "http://localhost/"@ + rest,
        given.len() > 0 && given[0] != '/' && !"http://"@.is_prefix_of(given)
            && !"https://"@.is_prefix_of(given) ==> login_address(given, base_url, base)
            == without_trailing(base_url, '/') + "/"@ + given,
{
    reveal_strlit("http://");
    reveal_strlit("https://");
    reveal_strlit("/");
    reveal_strlit("");
    reveal_strlit("http://localhost");
    reveal_strlit("http://localhost/");
    let (a, b, c) = ("http://"@ + rest, "https://"@ + rest, "/"@ + rest);
    assert(a.subrange(0, "http://"@.len() as int) =~= "http://"@);
    assert(b.subrange(0, "https://"@.len() as int) =~= "https://"@);
    assert(c[0] == '/');
    if "http://"@.is_prefix_of(c) {
        assert(c.subrange(0, "http://"@.len() as int)[0] == 'h');
    }
    if "https://"@.is_prefix_of(c) {
        assert(c.subrange(0, "https://"@.len() as int)[0] == 'h');
    }
    if base is Ok && base->Ok_0.host is Some {
        let u = base->Ok_0;
        let front = u.scheme + "://"@ + u.host->0;
        if u.port is None {
            assert(origin(base) =~= front);
            assert(origin(base) + c =~= front + "/"@ + rest);
        } else {
            let port = ":"@ + numeral(u.port->0 as nat);
            assert(origin(base) == front + port);
            assert((front + port) + c =~= front + ":"@ + numeral(u.port->0 as nat) + "/"@ + rest);
        }
    }
    if base is Ok && base->Ok_0.host is None && base->Ok_0.port is None {
        let front = base->Ok_0.scheme + "://"@ + "localhost"@;
        assert(origin(base) =~= front);
        assert(origin(base) + c =~= front + "/"@ + rest);
    }
    if base is Err {
        assert(origin(base) + c =~= "http://localhost/"@ + rest);
    }
}

/// A login works with all that its fields hold.
pub proof fn login_works_with_what_it_holds(login: Login)
    ensures
        login.plan().login_url == login.login_url@,
        login.plan().username == login.username@,
        login.plan().password == login.password@,
        login.username_selector is Some ==> login.plan().username_selector == Some(login.username_selector->0@),
        login.username_selector is None ==> login.plan().username_selector is None,
        login.password_selector is Some ==> login.plan().password_selector == Some(login.password_selector->0@),
        login.password_selector is None ==> login.plan().password_selector is None,
        login.submit_selector is Some ==> login.plan().submit_selector == Some(login.submit_selector->0@),
        login.submit_selector is None ==> login.plan().submit_selector is None,
{
}

/// What a login does and what it hears of are told as they are.
pub proof fn actions_and_events_are_what_they_hold(s: String, lookup: Lookup, url: Option<String>, a: bool, b: bool, c: bool)
    ensures
        Action::Type(s)@ == ActionView::Type(s@),
        Action::Find(lookup)@ == ActionView::Find(lookup@),
        Action::Await(lookup)@ == ActionView::Await(lookup@),
        Action::Ask(s)@ == ActionView::Ask(s@),
        Action::Check(s)@ == ActionView::Check(s@),
        Action::AwaitCheck(s)@ == ActionView::AwaitCheck(s@),
        Action::Watch(s)@ == ActionView::Watch(s@),
        Action::SettleAndAsk(s)@ == ActionView::SettleAndAsk(s@),
        Action::Fail(s)@ == ActionView::Fail(s@),
        Action::Press@ == ActionView::Press,
        Action::PressEnter@ == ActionView::PressEnter,
        Action::Succeed@ == ActionView::Succeed,
        Lookup::Css(s)@ == LookupView::Css(s@),
        Lookup::XPath(s)@ == LookupView::XPath(s@),
        Lookup::LastCss(s)@ == LookupView::LastCss(s@),
        Event::Yes@ == EventView::Yes,
        Event::No@ == EventView::No,
        Event::Late@ == EventView::Late,
        Event::Reply(url)@ == EventView::Reply(opt_view(url)),
        (Event::Landing { url, at_login: a, password_visible: b, late: c })@ == (
        EventView::Landing { url: opt_view(url), at_login: a, password_visible: b, late: c }),
        Stage::AwaitLanding(s, a)@ == StageView::AwaitLanding(s@, a),
        Stage::ReadBody(s, a)@ == StageView::ReadBody(s@, a),
        Stage::FindGuessed(s)@ == StageView::FindGuessed(s@),
        Stage::Failed(s)@ == StageView::Failed(s@),
{
}

} // verus!
