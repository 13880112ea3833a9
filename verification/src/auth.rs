//! How a run logs in: settings, cookies and the profiles they are saved in.

use vstd::prelude::*;

use crate::profiles::{
    folds_ascii, lowercase, to_lowercase, AuthProfile, AuthProfileView, ProfileStore,
};
use crate::text::{chars_of, numeral, opt_view, same_option, same_text, trim, trimmed};

verus! {

/// `std::path::PathBuf`: a path of the file system.
#[verifier::external_type_specification]
#[verifier::external_body]
pub struct ExPathBuf(std::path::PathBuf);

/// How to log in before a crawl.
#[derive(Debug)]
pub struct AuthConfig {
    /// The login page: a path like `/login` or a full URL.
    pub login_url: Option<String>,
    /// The user name or email to type in.
    pub username: Option<String>,
    /// The password to type in.
    pub password: Option<String>,
    /// CSS selector of the field for the user name.
    pub username_selector: Option<String>,
    /// CSS selector of the field for the password.
    pub password_selector: Option<String>,
    /// CSS selector of the button to press.
    pub submit_selector: Option<String>,
    /// A JSON file of cookies to set before the crawl.
    pub cookies_file: Option<std::path::PathBuf>,
}

/// The contents of login settings.
pub ghost struct AuthView {
    pub login_url: Option<Seq<char>>,
    pub username: Option<Seq<char>>,
    pub password: Option<Seq<char>>,
    pub username_selector: Option<Seq<char>>,
    pub password_selector: Option<Seq<char>>,
    pub submit_selector: Option<Seq<char>>,
    pub cookies_file: Option<std::path::PathBuf>,
}

impl View for AuthConfig {
    type V = AuthView;

    open spec fn view(&self) -> AuthView {
        AuthView {
            login_url: opt_view(self.login_url),
            username: opt_view(self.username),
            password: opt_view(self.password),
            username_selector: opt_view(self.username_selector),
            password_selector: opt_view(self.password_selector),
            submit_selector: opt_view(self.submit_selector),
            cookies_file: self.cookies_file,
        }
    }
}

impl Default for AuthConfig {
    fn default() -> (r: Self)
        ensures
            r@ == (AuthView {
                login_url: None,
                username: None,
                password: None,
                username_selector: None,
                password_selector: None,
                submit_selector: None,
                cookies_file: None,
            }),
    {
        AuthConfig {
            login_url: None,
            username: None,
            password: None,
            username_selector: None,
            password_selector: None,
            submit_selector: None,
            cookies_file: None,
        }
    }
}

/// A cookie of a cookie file.
#[derive(Debug)]
pub struct CookieEntry {
    pub name: String,
    pub value: String,
    pub domain: Option<String>,
    pub path: Option<String>,
    pub secure: Option<bool>,
    pub http_only: Option<bool>,
}

/// The first of the two that is there.
pub open spec fn either(a: Option<Seq<char>>, b: Option<Seq<char>>) -> Option<Seq<char>> {
    match a {
        Some(_) => a,
        None => b,
    }
}

/// The first of the two that is there.
fn first_given(a: Option<String>, b: &Option<String>) -> (r: Option<String>)
    ensures
        opt_view(r) == either(opt_view(a), opt_view(*b)),
{
    match a {
        Some(s) => Some(s),
        None => b.clone(),
    }
}

/// `auth` with what it leaves open filled in from a profile.
pub open spec fn with_profile(auth: AuthView, profile: AuthProfileView) -> AuthView {
    AuthView {
        login_url: either(auth.login_url, profile.login_url),
        username: either(auth.username, profile.username),
        password: either(auth.password, profile.password),
        username_selector: either(auth.username_selector, profile.username_selector),
        password_selector: either(auth.password_selector, profile.password_selector),
        submit_selector: either(auth.submit_selector, profile.submit_selector),
        cookies_file: auth.cookies_file,
    }
}

impl AuthConfig {
    /// Fills in from a profile what was not given explicitly.
    pub fn apply_profile(self, profile: &AuthProfile) -> (r: Self)
        ensures
            r@ == with_profile(self@, profile@),
    {
        AuthConfig {
            login_url: first_given(self.login_url, &profile.login_url),
            username: first_given(self.username, &profile.username),
            password: first_given(self.password, &profile.password),
            username_selector: first_given(self.username_selector, &profile.username_selector),
            password_selector: first_given(self.password_selector, &profile.password_selector),
            submit_selector: first_given(self.submit_selector, &profile.submit_selector),
            cookies_file: self.cookies_file,
        }
    }

    /// Fills in user name and password from the environment where they were not given.
    pub fn apply_environment(self, username: Option<String>, password: Option<String>) -> (r: Self)
        ensures
            r@ == (AuthView {
                username: either(self@.username, opt_view(username)),
                password: either(self@.password, opt_view(password)),
                ..self@
            }),
    {
        AuthConfig {
            username: first_given(self.username, &username),
            password: first_given(self.password, &password),
            ..self
        }
    }

    /// Nothing tells how to log in, so the user is asked.
    pub fn is_open(&self) -> (r: bool)
        ensures
            r == (self@.login_url is None && self@.username is None && self@.password is None
                && self@.cookies_file is None),
    {
        self.login_url.is_none() && self.username.is_none() && self.password.is_none()
            && self.cookies_file.is_none()
    }

    /// There are credentials but no page to use them on, so the user is asked for it.
    pub fn lacks_login_url(&self) -> (r: bool)
        ensures
            r == (self@.login_url is None && (self@.username is Some || self@.password is Some)),
    {
        self.login_url.is_none() && (self.username.is_some() || self.password.is_some())
    }

    /// There is a login page but a selector is open, so the user is told how to find one.
    pub fn lacks_selectors(&self) -> (r: bool)
        ensures
            r == (self@.username_selector is None || self@.password_selector is None
                || self@.submit_selector is None),
    {
        self.username_selector.is_none() || self.password_selector.is_none()
            || self.submit_selector.is_none()
    }

    /// There is a login page but nobody to log in as: the user logs in by hand.
    pub fn is_manual(&self) -> (r: bool)
        ensures
            r == (self@.login_url is Some && self@.username is None && self@.password is None),
    {
        self.login_url.is_some() && self.username.is_none() && self.password.is_none()
    }

    /// Forgets who logs in and how, but not where.
    pub fn without_credentials(self) -> (r: Self)
        ensures
            r@ == (AuthView {
                username: None,
                password: None,
                username_selector: None,
                password_selector: None,
                submit_selector: None,
                ..self@
            }),
    {
        AuthConfig {
            login_url: self.login_url,
            username: None,
            password: None,
            username_selector: None,
            password_selector: None,
            submit_selector: None,
            cookies_file: self.cookies_file,
        }
    }

    /// There is something worth saving as a profile.
    pub fn is_worth_saving(&self) -> (r: bool)
        ensures
            r == (self@.username is Some || self@.password is Some || self@.username_selector
                is Some),
    {
        self.username.is_some() || self.password.is_some() || self.username_selector.is_some()
    }
}

/// The profile of that name that holds `auth`, with `login_url` as its login page.
pub open spec fn profile_of(name: Seq<char>, login_url: Option<Seq<char>>, auth: AuthView) -> AuthProfileView {
    AuthProfileView {
        name,
        login_url,
        username: auth.username,
        password: auth.password,
        username_selector: auth.username_selector,
        password_selector: auth.password_selector,
        submit_selector: auth.submit_selector,
    }
}

/// Saves `captured` in the store under `name`, with `login_url` as its login page.
pub fn save_profile(
    store: &mut ProfileStore,
    name: &str,
    login_url: Option<String>,
    captured: &AuthConfig,
)
    ensures
        final(store)@ == old(store)@.insert(
            lowercase(name@),
            profile_of(name@, opt_view(login_url), captured@),
        ),
{
    store.upsert(
        AuthProfile {
            name: name.to_string(),
            login_url,
            username: captured.username.clone(),
            password: captured.password.clone(),
            username_selector: captured.username_selector.clone(),
            password_selector: captured.password_selector.clone(),
            submit_selector: captured.submit_selector.clone(),
        },
    );
}

/// The profile `existing` with what `auth` gives in place of its own fields.
pub open spec fn refreshed(existing: AuthProfileView, auth: AuthView) -> AuthProfileView {
    AuthProfileView {
        name: existing.name,
        login_url: either(auth.login_url, existing.login_url),
        username: either(auth.username, existing.username),
        password: either(auth.password, existing.password),
        username_selector: either(auth.username_selector, existing.username_selector),
        password_selector: either(auth.password_selector, existing.password_selector),
        submit_selector: either(auth.submit_selector, existing.submit_selector),
    }
}

/// The login page or one of the selectors differs. Other credentials alone are no reason
/// to save a profile again.
pub open spec fn needs_saving(existing: AuthProfileView, updated: AuthProfileView) -> bool {
    ||| updated.login_url != existing.login_url
    ||| updated.username_selector != existing.username_selector
    ||| updated.password_selector != existing.password_selector
    ||| updated.submit_selector != existing.submit_selector
}

/// Saves back into the profile of that name what `auth` has and the profile lacked or had
/// otherwise. Returns whether the store changed.
pub fn refresh_profile(store: &mut ProfileStore, name: &str, auth: &AuthConfig) -> (r: bool)
    ensures
        ({
            let key = lowercase(name@);
            let before = old(store)@;
            if before.contains_key(key) && needs_saving(before[key], refreshed(before[key], auth@)) {
                r && final(store)@ == before.insert(
                    lowercase(before[key].name),
                    refreshed(before[key], auth@),
                )
            } else {
                !r && final(store)@ == before
            }
        }),
{
    let updated = match store.get(name) {
        None => {
            return false;
        },
        Some(existing) => {
            let updated = AuthProfile {
                name: existing.name.clone(),
                login_url: first_given(auth.login_url.clone(), &existing.login_url),
                username: first_given(auth.username.clone(), &existing.username),
                password: first_given(auth.password.clone(), &existing.password),
                username_selector: first_given(
                    auth.username_selector.clone(),
                    &existing.username_selector,
                ),
                password_selector: first_given(
                    auth.password_selector.clone(),
                    &existing.password_selector,
                ),
                submit_selector: first_given(
                    auth.submit_selector.clone(),
                    &existing.submit_selector,
                ),
            };
            if same_option(&updated.login_url, &existing.login_url) && same_option(
                &updated.username_selector,
                &existing.username_selector,
            ) && same_option(&updated.password_selector, &existing.password_selector)
                && same_option(&updated.submit_selector, &existing.submit_selector) {
                return false;
            }
            updated
        },
    };
    store.upsert(updated);
    true
}

/// The answer that a line of input gives: nothing where it is blank.
pub open spec fn answered(line: Seq<char>) -> Option<Seq<char>> {
    if trimmed(line).len() == 0 {
        None
    } else {
        Some(trimmed(line))
    }
}

/// The answer that a line of input gives.
pub fn answer(line: &str) -> (r: Option<String>)
    ensures
        opt_view(r) == answered(line@),
{
    let t = trim(line);
    if t.as_str().unicode_len() == 0 {
        None
    } else {
        Some(t)
    }
}

/// The secret that was typed: nothing where it is empty. White space counts.
pub fn secret(typed: String) -> (r: Option<String>)
    ensures
        opt_view(r) == if typed@.len() == 0 {
            None
        } else {
            Some(typed@)
        },
{
    if typed.as_str().unicode_len() == 0 {
        None
    } else {
        Some(typed)
    }
}

/// The value of a field after an edit: no entry keeps the value, a dash clears it.
pub open spec fn edited_value(current: Option<Seq<char>>, entry: Seq<char>) -> Option<Seq<char>> {
    if entry.len() == 0 {
        current
    } else if entry == "-"@ {
        None
    } else {
        Some(entry)
    }
}

/// The value of a field after an edit by a line of input.
pub fn edited(current: &Option<String>, line: &str) -> (r: Option<String>)
    ensures
        opt_view(r) == edited_value(opt_view(*current), trimmed(line@)),
{
    edited_secret(current, trim(line))
}

/// The value of a secret after an edit. White space counts.
pub fn edited_secret(current: &Option<String>, typed: String) -> (r: Option<String>)
    ensures
        opt_view(r) == edited_value(opt_view(*current), typed@),
{
    if typed.as_str().unicode_len() == 0 {
        current.clone()
    } else if same_text(typed.as_str(), "-") {
        None
    } else {
        Some(typed)
    }
}

/// The line says yes: it is the letter y, in either case.
pub open spec fn is_yes(line: Seq<char>) -> bool {
    trimmed(line) == "y"@ || trimmed(line) == "Y"@
}

/// The line says yes.
pub fn says_yes(line: &str) -> (r: bool)
    ensures
        r == is_yes(line@),
{
    let t = trim(line);
    same_text(t.as_str(), "y") || same_text(t.as_str(), "Y")
}

/// The line confirms: it is the letter y once in lower case.
pub fn confirms(line: &str) -> (r: bool)
    ensures
        r == (lowercase(trimmed(line@)) == "y"@),
        folds_ascii(trimmed(line@)),
{
    let t = trim(line);
    let low = to_lowercase(t.as_str());
    same_text(low.as_str(), "y")
}

/// The name to save a profile under: the one that was typed, or `default`.
pub fn profile_name(line: &str) -> (r: String)
    ensures
        r@ == match answered(line@) {
            Some(name) => name,
            None => "default"@,
        },
{
    match answer(line) {
        Some(name) => name,
        None => "default".to_string(),
    }
}

/// `s` is made of decimal digits and has at least one.
pub open spec fn is_digits(s: Seq<char>) -> bool {
    s.len() > 0 && forall|i: int| 0 <= i < s.len() ==> '0' <= #[trigger] s[i] <= '9'
}

/// The number that decimal digits stand for.
pub open spec fn digits_value(s: Seq<char>) -> nat
    decreases s.len(),
{
    if s.len() == 0 {
        0
    } else {
        digits_value(s.drop_last()) * 10 + (s.last() as u32 - '0' as u32) as nat
    }
}

/// The digits of a count: what follows a leading plus sign, or the whole text.
pub open spec fn count_digits(s: Seq<char>) -> Seq<char> {
    if s.len() > 0 && s[0] == '+' {
        s.skip(1)
    } else {
        s
    }
}

/// The number that a text gives: decimal digits, perhaps after a plus sign, of a value that
/// fits.
pub open spec fn counted(s: Seq<char>) -> Option<usize> {
    let digits = count_digits(s);
    if is_digits(digits) && digits_value(digits) <= usize::MAX {
        Some(digits_value(digits) as usize)
    } else {
        None
    }
}

/// The value of digits grows with their number.
proof fn lemma_digits_grow(s: Seq<char>, n: int)
    requires
        is_digits(s),
        0 <= n <= s.len(),
    ensures
        digits_value(s.take(n)) <= digits_value(s),
    decreases s.len(),
{
    if n == s.len() {
        assert(s.take(n) =~= s);
    } else if s.len() > 1 {
        let front = s.drop_last();
        assert forall|i: int| 0 <= i < front.len() implies '0' <= #[trigger] front[i] <= '9' by {
            assert(front[i] == s[i]);
        }
        lemma_digits_grow(front, n);
        assert(front.take(n) =~= s.take(n));
    } else {
        assert(s.take(n) =~= Seq::<char>::empty());
    }
}

/// The number that a text gives.
pub fn parse_count(s: &str) -> (r: Option<usize>)
    ensures
        r == counted(s@),
{
    let x = chars_of(s);
    let start: usize = if x.len() > 0 && x[0] == '+' {
        1
    } else {
        0
    };
    let ghost digits = count_digits(s@);
    proof {
        if start == 0 {
            assert(x@.skip(0) =~= digits);
        }
    }
    if start == x.len() {
        return None;
    }
    let mut value: usize = 0;
    let mut i: usize = start;
    proof {
        assert(digits.take(0) =~= Seq::<char>::empty());
    }
    while i < x.len()
        invariant
            x@ == s@,
            digits == x@.skip(start as int),
            digits == count_digits(s@),
            start < x.len(),
            start <= i <= x.len(),
            value == digits_value(digits.take(i - start)),
            forall|k: int| 0 <= k < i - start ==> '0' <= #[trigger] digits[k] <= '9',
        decreases x.len() - i,
    {
        let c = x[i];
        proof {
            assert(digits[i - start] == c);
            assert(digits.take(i - start + 1).drop_last() =~= digits.take(i - start));
            assert(digits.take(i - start + 1).last() == c);
        }
        if c < '0' || c > '9' {
            return None;
        }
        let d: u32 = c as u32 - '0' as u32;
        proof {
            if is_digits(digits) {
                lemma_digits_grow(digits, i - start + 1);
            }
        }
        value = match value.checked_mul(10) {
            Some(v) => match v.checked_add(d as usize) {
                Some(w) => w,
                None => {
                    return None;
                },
            },
            None => {
                return None;
            },
        };
        i += 1;
    }
    proof {
        assert(digits.take(i - start) =~= digits);
    }
    Some(value)
}

/// A numeral is made of digits that stand for its number.
proof fn lemma_numeral_value(n: nat)
    ensures
        is_digits(numeral(n)),
        digits_value(numeral(n)) == n,
    decreases n,
{
    reveal_with_fuel(digits_value, 2);
    if n < 10 {
        assert(numeral(n).drop_last() =~= Seq::<char>::empty());
    } else {
        lemma_numeral_value(n / 10);
        assert(numeral(n).drop_last() =~= numeral(n / 10));
    }
}

/// The number that is shown beside a profile, written as a numeral, is read as that number.
pub proof fn shown_number_is_read(n: usize)
    ensures
        counted(numeral(n as nat)) == Some(n),
{
    lemma_numeral_value(n as nat);
    assert('0' <= numeral(n as nat)[0] <= '9');
    assert(count_digits(numeral(n as nat)) == numeral(n as nat));
}

/// The profile that the user picked: by its place in the list, counted from one, or by name.
pub fn pick_profile<'a>(
    store: &'a ProfileStore,
    listed: &Vec<&'a AuthProfile>,
    pick: &str,
) -> (r: Option<&'a AuthProfile>)
    ensures
        match counted(pick@) {
            Some(n) => {
                let place = if n == 0 {
                    0
                } else {
                    n - 1
                };
                if place < listed.len() {
                    r == Some(listed@[place])
                } else {
                    r is None
                }
            },
            None => match r {
                Some(p) => store@.contains_key(lowercase(pick@)) && store@[lowercase(pick@)] == p@,
                None => !store@.contains_key(lowercase(pick@)),
            },
        },
{
    match parse_count(pick) {
        Some(n) => {
            let place: usize = if n == 0 {
                0
            } else {
                n - 1
            };
            if place < listed.len() {
                Some(listed[place])
            } else {
                None
            }
        },
        None => store.get(pick),
    }
}

/// A profile fills in exactly what was left open: what was given explicitly stays, and
/// applying a profile a second time changes nothing.
pub proof fn profile_fills_gaps(auth: AuthView, profile: AuthProfileView)
    ensures
        auth.login_url is Some ==> with_profile(auth, profile).login_url == auth.login_url,
        auth.username is Some ==> with_profile(auth, profile).username == auth.username,
        auth.password is Some ==> with_profile(auth, profile).password == auth.password,
        auth.username_selector is Some ==> with_profile(auth, profile).username_selector
            == auth.username_selector,
        auth.password_selector is Some ==> with_profile(auth, profile).password_selector
            == auth.password_selector,
        auth.submit_selector is Some ==> with_profile(auth, profile).submit_selector
            == auth.submit_selector,
        with_profile(with_profile(auth, profile), profile) == with_profile(auth, profile),
{
}

/// Applying a saved profile to settings that give nothing restores what was saved, except
/// for the cookie file, which no profile has.
pub proof fn saved_profile_restores(name: Seq<char>, auth: AuthView, blank: AuthView)
    requires
        blank == (AuthView {
            login_url: None,
            username: None,
            password: None,
            username_selector: None,
            password_selector: None,
            submit_selector: None,
            cookies_file: auth.cookies_file,
        }),
    ensures
        with_profile(blank, profile_of(name, auth.login_url, auth)) == auth,
{
}

/// A profile that was refreshed needs no further saving for the same settings.
pub proof fn refresh_settles(existing: AuthProfileView, auth: AuthView)
    ensures
        !needs_saving(refreshed(existing, auth), refreshed(refreshed(existing, auth), auth)),
{
}

/// A profile is used for what was not given, and only for that.
pub proof fn profile_is_used_for_gaps(auth: AuthView, profile: AuthProfileView)
    ensures
        auth.login_url is None ==> with_profile(auth, profile).login_url == profile.login_url,
        auth.login_url is Some ==> with_profile(auth, profile).login_url == auth.login_url,
        auth.username is None ==> with_profile(auth, profile).username == profile.username,
        auth.username is Some ==> with_profile(auth, profile).username == auth.username,
        auth.password is None ==> with_profile(auth, profile).password == profile.password,
        auth.password is Some ==> with_profile(auth, profile).password == auth.password,
        auth.username_selector is None ==> with_profile(auth, profile).username_selector == profile.username_selector,
        auth.username_selector is Some ==> with_profile(auth, profile).username_selector == auth.username_selector,
        auth.password_selector is None ==> with_profile(auth, profile).password_selector == profile.password_selector,
        auth.password_selector is Some ==> with_profile(auth, profile).password_selector == auth.password_selector,
        auth.submit_selector is None ==> with_profile(auth, profile).submit_selector == profile.submit_selector,
        auth.submit_selector is Some ==> with_profile(auth, profile).submit_selector == auth.submit_selector,
        with_profile(auth, profile).cookies_file == auth.cookies_file,
{
}

/// A profile is refreshed with what was given; what was not given stays, and so does its name.
/// It is to be saved again exactly if the login page or a selector changed.
pub proof fn refresh_takes_what_is_given(existing: AuthProfileView, auth: AuthView, updated: AuthProfileView)
    ensures
        refreshed(existing, auth).name == existing.name,
        auth.login_url is Some ==> refreshed(existing, auth).login_url == auth.login_url,
        auth.login_url is None ==> refreshed(existing, auth).login_url == existing.login_url,
        auth.username is Some ==> refreshed(existing, auth).username == auth.username,
        auth.username is None ==> refreshed(existing, auth).username == existing.username,
        auth.password is Some ==> refreshed(existing, auth).password == auth.password,
        auth.password is None ==> refreshed(existing, auth).password == existing.password,
        auth.username_selector is Some ==> refreshed(existing, auth).username_selector == auth.username_selector,
        auth.username_selector is None ==> refreshed(existing, auth).username_selector == existing.username_selector,
        auth.password_selector is Some ==> refreshed(existing, auth).password_selector == auth.password_selector,
        auth.password_selector is None ==> refreshed(existing, auth).password_selector == existing.password_selector,
        auth.submit_selector is Some ==> refreshed(existing, auth).submit_selector == auth.submit_selector,
        auth.submit_selector is None ==> refreshed(existing, auth).submit_selector == existing.submit_selector,
        needs_saving(existing, updated) <==> updated.login_url != existing.login_url
            || updated.username_selector != existing.username_selector || updated.password_selector
            != existing.password_selector || updated.submit_selector != existing.submit_selector,
{
}

/// A profile is saved with everything that was given, under its name.
pub proof fn profile_holds_what_was_given(name: Seq<char>, login_url: Option<Seq<char>>, auth: AuthView)
    ensures
        profile_of(name, login_url, auth).name == name,
        profile_of(name, login_url, auth).login_url == login_url,
        profile_of(name, login_url, auth).username == auth.username,
        profile_of(name, login_url, auth).password == auth.password,
        profile_of(name, login_url, auth).username_selector == auth.username_selector,
        profile_of(name, login_url, auth).password_selector == auth.password_selector,
        profile_of(name, login_url, auth).submit_selector == auth.submit_selector,
{
}

/// An answer is what was typed, without the white space around it, and none where nothing was;
/// in an edit nothing keeps what is there, a hyphen takes it away and anything else replaces it.
pub proof fn answers_are_taken(line: Seq<char>, current: Option<Seq<char>>, entry: Seq<char>)
    ensures
        trimmed(line).len() > 0 ==> answered(line) == Some(trimmed(line)),
        trimmed(line).len() == 0 ==> answered(line) is None,
        edited_value(current, Seq::empty()) == current,
        edited_value(current, "-"@) is None,
        entry.len() > 0 && entry != "-"@ ==> edited_value(current, entry) == Some(entry),
        is_yes(line) <==> trimmed(line) == "y"@ || trimmed(line) == "Y"@,
{
    reveal_strlit("-");
}

/// A count is read from digits alone, behind a plus sign or not, by their value.
pub proof fn counts_are_read_from_digits(s: Seq<char>, d: char)
    ensures
        counted(s) is Some ==> count_digits(s).len() > 0 && forall|i: int|
            0 <= i < count_digits(s).len() ==> '0' <= #[trigger] count_digits(s)[i] <= '9',
        '0' <= d <= '9' && is_digits(s) ==> digits_value(s.push(d)) == digits_value(s) * 10 + (
        d as u32 - '0' as u32),
        is_digits(s) && digits_value(s) <= usize::MAX ==> counted(s) == Some(
            digits_value(s) as usize,
        ) && counted(seq!['+'] + s) == Some(digits_value(s) as usize),
        is_digits(s) && digits_value(s) > usize::MAX ==> counted(s) is None,
{
    assert(s.push(d).drop_last() =~= s);
    assert((seq!['+'] + s).skip(1) =~= s);
}

/// The contents of login settings are all that their fields hold.
pub proof fn settings_are_what_they_hold(auth: AuthConfig)
    ensures
        auth.login_url is Some ==> auth@.login_url == Some(auth.login_url->0@),
        auth.login_url is None ==> auth@.login_url is None,
        auth.username is Some ==> auth@.username == Some(auth.username->0@),
        auth.username is None ==> auth@.username is None,
        auth.password is Some ==> auth@.password == Some(auth.password->0@),
        auth.password is None ==> auth@.password is None,
        auth.username_selector is Some ==> auth@.username_selector == Some(auth.username_selector->0@),
        auth.username_selector is None ==> auth@.username_selector is None,
        auth.password_selector is Some ==> auth@.password_selector == Some(auth.password_selector->0@),
        auth.password_selector is None ==> auth@.password_selector is None,
        auth.submit_selector is Some ==> auth@.submit_selector == Some(auth.submit_selector->0@),
        auth.submit_selector is None ==> auth@.submit_selector is None,
        auth@.cookies_file == auth.cookies_file,
{
}

} // verus!
