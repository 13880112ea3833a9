use webprobe::auth::AuthConfig;
use webprobe::crawler::login::{
    host_or_localhost, indicates_bot_check, indicates_error, is_still_login, landing_settle_ms,
    looks_like_login_path, reply_is_true, reply_text, resolve_login_url, url_indicates_login_page, Action, Event, Login,
    Lookup, ANY_BUTTON, BODY_TEXT_JS, BOT_CHECK, ENTER_KEY, GUESS_USERNAME_JS, LOGIN_BUTTON,
    NEXT_BUTTON, PASSWORD_VISIBLE_JS,
};
use webprobe::web::{BareUrl, UrlParts};

fn text(s: &str) -> Option<String> {
    Some(s.to_string())
}

#[test]
fn login_urls_are_resolved() {
    let resolve = |given: &str, base: &str| resolve_login_url(Some(given), base).unwrap();
    assert_eq!(resolve("https://x/l", "http://h"), "https://x/l");
    assert_eq!(resolve("/login", "http://localhost:3000/app"), "http://localhost:3000/login");
    assert_eq!(resolve("/login", "http://h:80/app"), "http://h/login");
    assert_eq!(resolve("/login", "nonsense"), "http://localhost/login");
    assert_eq!(resolve("login", "http://h/app/"), "http://h/app/login");
    assert_eq!(resolve("", "http://h"), "http://h/");
    assert_eq!(resolve_login_url(None, "http://h"), None);
    assert_eq!(host_or_localhost("http://Example.com/x"), "example.com");
    assert_eq!(host_or_localhost("nonsense"), "localhost");
    assert_eq!(host_or_localhost("mailto:a@b"), "localhost");
}

#[test]
fn login_pages_are_recognized() {
    assert!(looks_like_login_path("/login") && looks_like_login_path("/a/sign-in/b"));
    assert!(!looks_like_login_path("/logins") && !looks_like_login_path("/"));
    assert!(url_indicates_login_page("http://h/enter?next=1#x", "http://h/enter"));
    assert!(url_indicates_login_page("http://h/SignIn", "http://h/enter"));
    assert!(url_indicates_login_page("http://h/auth/x", "nonsense"));
    assert!(!url_indicates_login_page("http://h/home", "http://h/login"));
    assert!(!url_indicates_login_page("nonsense", "http://h/login"));
}

#[test]
fn login_pages_are_told_by_their_parts() {
    let parts = |path: &str| {
        Ok(UrlParts {
            scheme: "http".to_string(),
            host: text("h"),
            port: None,
            path: path.to_string(),
        })
    };
    let bare = |path: &str| Some(BareUrl { text: format!("http://h{path}"), path: path.to_string() });
    assert!(is_still_login(&parts("/login"), &bare("/login"), &bare("/enter")));
    assert!(is_still_login(&parts("/enter"), &bare("/enter"), &bare("/enter")));
    assert!(!is_still_login(&parts("/home"), &bare("/home"), &bare("/enter")));
    assert!(!is_still_login(&Err("refused".to_string()), &None, &bare("/enter")));
    assert!(!is_still_login(&parts("/home"), &bare("/home"), &None));
}

#[test]
fn page_texts_are_judged() {
    for s in [
        "cf-turnstile", "cloudflare", "recaptcha", "hcaptcha", "datadome", "security check",
        "verify you are human", "pardon our interruption",
    ] {
        assert!(indicates_bot_check(&format!("x {s} y")));
    }
    assert!(!indicates_bot_check("welcome") && !indicates_error("welcome"));
    for s in [
        "forbidden", "unauthorized", "invalid credentials", "incorrect password", "wrong password",
        "invalid email", "incorrect email", "login failed", "authentication failed",
    ] {
        assert!(indicates_error(&format!("x {s} y")));
    }
}

#[test]
fn replies_of_scripts() {
    let json = |s: &str| -> serde_json::Value { serde_json::from_str(s).unwrap() };
    assert!(reply_is_true(Some(&json("true"))));
    assert!(!reply_is_true(Some(&json("false"))) && !reply_is_true(Some(&json("1"))) && !reply_is_true(None));
    assert_eq!(reply_text(Some(&json("\"a\""))), text("a"));
    assert_eq!(reply_text(Some(&json("null"))), None);
    assert_eq!(reply_text(None), None);
    assert_eq!((landing_settle_ms(0), landing_settle_ms(500), landing_settle_ms(900)), (500, 500, 900));
    assert_eq!(ENTER_KEY, "\u{e007}");
}

fn auth() -> AuthConfig {
    AuthConfig { username: text("me"), password: text("pw"), ..AuthConfig::default() }
}

fn start(auth: &AuthConfig) -> Login {
    Login::begin(auth, "http://h/login".to_string())
}

fn finds(login: &Login, css: &str) -> bool {
    matches!(login.action(), Action::Find(Lookup::Css(s)) if s == css)
}

fn fails(login: &Login, why: &str) -> bool {
    matches!(login.action(), Action::Fail(s) if s == why)
}

#[test]
fn login_on_one_page() {
    let mut login = start(&auth());
    assert!(matches!(login.action(), Action::Await(Lookup::Css(s)) if s == "input"));
    login.advance(Event::No);
    assert!(matches!(login.action(), Action::Await(_)));
    login.advance(Event::Yes);
    assert!(finds(&login, "input[type='email']"));
    login.advance(Event::No);
    assert!(finds(&login, "input[autocomplete='email']"));
    login.advance(Event::Yes);
    assert!(matches!(login.action(), Action::Type(s) if s == "me"));
    login.advance(Event::Yes);
    assert!(matches!(login.action(), Action::Check(s) if s == PASSWORD_VISIBLE_JS));
    login.advance(Event::Yes);
    assert!(finds(&login, "input[type='password']"));
    login.advance(Event::Yes);
    assert!(matches!(login.action(), Action::Type(s) if s == "pw"));
    login.advance(Event::Yes);
    assert!(finds(&login, "button[type='submit']"));
    login.advance(Event::Yes);
    assert!(matches!(login.action(), Action::Press));
    login.advance(Event::Yes);
    assert!(matches!(login.action(), Action::Watch(s) if s == PASSWORD_VISIBLE_JS));
    login.advance(login.landing(None, true, false));
    assert!(matches!(login.action(), Action::Watch(_)));
    login.advance(login.landing(text("http://h/login?x"), true, false));
    assert!(matches!(login.action(), Action::Watch(_)));
    login.advance(login.landing(text("http://h/home"), true, false));
    assert!(matches!(login.action(), Action::SettleAndAsk(s) if s == BODY_TEXT_JS));
    login.advance(Event::Reply(text("welcome back")));
    assert!(matches!(login.action(), Action::Succeed));
    login.advance(Event::Yes);
    assert!(matches!(login.action(), Action::Succeed));
}

#[test]
fn login_in_two_steps() {
    let mut login = start(&auth());
    for event in [Event::Yes, Event::Yes, Event::Yes, Event::No] {
        login.advance(event);
    }
    assert!(matches!(login.action(), Action::Find(Lookup::XPath(s)) if s == NEXT_BUTTON));
    login.advance(Event::No);
    assert!(finds(&login, "button[type='submit']"));
    login.advance(Event::No);
    assert!(finds(&login, "input[type='submit']"));
    login.advance(Event::No);
    assert!(matches!(login.action(), Action::Find(Lookup::XPath(s)) if s == LOGIN_BUTTON));
    login.advance(Event::Yes);
    assert!(matches!(login.action(), Action::Press));
    login.advance(Event::No);
    assert!(matches!(login.action(), Action::AwaitCheck(s) if s == PASSWORD_VISIBLE_JS));
    login.advance(Event::No);
    login.advance(Event::Late);
    assert!(finds(&login, "input[type='password']"));
}

#[test]
fn buttons_are_looked_for_before_enter_is_pressed() {
    let mut login = start(&auth());
    for event in [Event::Yes, Event::Yes, Event::Yes, Event::Yes, Event::Yes, Event::Yes] {
        login.advance(event);
    }
    for css in ["button[type='submit']", "input[type='submit']", "input[type='image']"] {
        assert!(finds(&login, css));
        login.advance(Event::No);
    }
    assert!(matches!(login.action(), Action::Find(Lookup::XPath(s)) if s == LOGIN_BUTTON));
    login.advance(Event::No);
    assert!(matches!(login.action(), Action::Find(Lookup::LastCss(s)) if s == ANY_BUTTON));
    login.advance(Event::No);
    assert!(matches!(login.action(), Action::PressEnter));
    login.advance(Event::No);
    assert!(fails(&login, "Failed to send Enter key to password field as a fallback submit"));
}

#[test]
fn user_name_field_is_guessed_last() {
    let guessing = || {
        let mut login = start(&auth());
        login.advance(Event::Yes);
        for _ in 0..18 {
            assert!(matches!(login.action(), Action::Find(Lookup::Css(_))));
            login.advance(Event::No);
        }
        assert!(matches!(login.action(), Action::Ask(s) if s == GUESS_USERNAME_JS));
        login
    };
    let mut login = guessing();
    login.advance(Event::Reply(text("[id=\"u\"]")));
    assert!(finds(&login, "[id=\"u\"]"));
    login.advance(Event::Yes);
    assert!(matches!(login.action(), Action::Type(_)));
    for reply in [None, text("")] {
        let mut login = guessing();
        login.advance(Event::Reply(reply));
        assert!(finds(&login, "input[type='text']"));
        login.advance(Event::No);
        assert!(fails(&login, "Could not find a username/email field on the login page"));
    }
}

#[test]
fn given_selectors_are_the_only_ones() {
    let config = AuthConfig {
        username_selector: text("#u"),
        password_selector: text("#p"),
        submit_selector: text("#s"),
        ..AuthConfig::default()
    };
    let mut login = start(&config);
    login.advance(Event::Yes);
    assert!(finds(&login, "#u"));
    let mut lost = start(&config);
    lost.advance(Event::Yes);
    lost.advance(Event::No);
    assert!(fails(&lost, "Username selector '#u' matched nothing"));
    login.advance(Event::Yes);
    assert!(matches!(login.action(), Action::Type(s) if s.is_empty()));
    login.advance(Event::Yes);
    login.advance(Event::Yes);
    assert!(finds(&login, "#p"));
    login.advance(Event::Yes);
    login.advance(Event::Yes);
    assert!(finds(&login, "#s"));
    login.advance(Event::No);
    assert!(matches!(login.action(), Action::PressEnter));
    let mut lost = start(&config);
    for event in [Event::Yes, Event::Yes, Event::Yes, Event::Yes, Event::No] {
        lost.advance(event);
    }
    assert!(fails(&lost, "Password selector '#p' matched nothing"));
}

#[test]
fn failures_are_told() {
    let mut login = start(&auth());
    login.advance(Event::Late);
    assert!(fails(
        &login,
        "Navigated to http://h/login but no <input> elements appeared within 10s.\nIs that the correct login URL?"
    ));
    let mut login = start(&auth());
    for event in [Event::Yes, Event::Yes, Event::No] {
        login.advance(event);
    }
    assert!(fails(&login, "Failed to type into username field"));
    let mut login = start(&auth());
    for event in [Event::Yes, Event::Yes, Event::Yes, Event::Yes] {
        login.advance(event);
    }
    for _ in 0..10 {
        login.advance(Event::No);
    }
    assert!(fails(&login, "Could not find a password field on the login page"));
    let mut login = start(&auth());
    for event in [Event::Yes, Event::Yes, Event::Yes, Event::Yes, Event::Yes, Event::No] {
        login.advance(event);
    }
    assert!(fails(&login, "Failed to type into password field"));
    let mut login = start(&auth());
    for _ in 0..7 {
        login.advance(Event::Yes);
    }
    login.advance(Event::No);
    assert!(fails(&login, "Failed to click sign-in button"));
}

#[test]
fn landing_decides() {
    let landed = |url: Option<&str>, visible: bool, body: Option<&str>| {
        let mut login = start(&auth());
        for _ in 0..8 {
            login.advance(Event::Yes);
        }
        login.advance(login.landing(url.map(|s| s.to_string()), visible, true));
        login.advance(Event::Reply(body.map(|s| s.to_string())));
        login
    };
    assert!(matches!(landed(Some("http://h/login"), false, None).action(), Action::Succeed));
    assert!(fails(
        &landed(Some("http://h/login"), true, Some("")),
        "⚠ Login failed — still on login page or received error: http://h/login"
    ));
    assert!(fails(
        &landed(None, false, Some("")),
        "⚠ Login failed — still on login page or received error: "
    ));
    assert!(fails(
        &landed(Some("http://h/home"), false, Some("access forbidden")),
        "⚠ Login failed — still on login page or received error: http://h/home"
    ));
    assert!(fails(&landed(Some("http://h/home"), false, Some("recaptcha forbidden")), BOT_CHECK));
}
