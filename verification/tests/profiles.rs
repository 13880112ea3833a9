use webprobe::auth::{
    answer, confirms, edited, edited_secret, parse_count, pick_profile, profile_name,
    refresh_profile, save_profile, says_yes, secret, AuthConfig,
};
use webprobe::profiles::{AuthProfile, ProfileStore};

fn text(s: &str) -> Option<String> {
    Some(s.to_string())
}

fn profile(name: &str, login_url: Option<&str>) -> AuthProfile {
    AuthProfile {
        name: name.to_string(),
        login_url: login_url.map(|s| s.to_string()),
        ..AuthProfile::default()
    }
}

#[test]
fn profiles_are_found_in_any_case() {
    let mut store = ProfileStore::default();
    assert!(store.is_empty());
    store.upsert(profile("MyApp", Some("/login")));
    store.upsert(profile("ÄPFEL", None));
    assert!(!store.is_empty());
    assert_eq!(store.get("myAPP").unwrap().name, "MyApp");
    assert_eq!(store.get("äpfel").unwrap().name, "ÄPFEL");
    assert!(store.get("other").is_none());
    store.upsert(profile("MYAPP", Some("/signin")));
    assert_eq!(store.list().len(), 2);
    assert_eq!(store.get("myapp").unwrap().login_url, text("/signin"));
    assert!(store.delete("MyApp"));
    assert!(!store.delete("MyApp"));
    assert!(store.get("myapp").is_none());
    assert_eq!(store.get("Äpfel").unwrap().name, "ÄPFEL");
}

#[test]
fn profiles_are_listed_by_name() {
    let mut store = ProfileStore::default();
    for name in ["b", "a", "C"] {
        store.upsert(profile(name, None));
    }
    let names: Vec<&str> = store.list().iter().map(|p| p.name.as_str()).collect();
    assert_eq!(names, vec!["C", "a", "b"]);
}

#[test]
fn saved_entries_load_again_in_any_order() {
    let mut store = ProfileStore::default();
    for name in ["One", "Two", "Three"] {
        store.upsert(profile(name, Some("/in")));
    }
    let mut entries = store.to_entries();
    entries.reverse();
    let loaded = ProfileStore::from_entries(entries);
    for name in ["one", "two", "three"] {
        assert_eq!(loaded.get(name).unwrap().name.to_lowercase(), name);
    }
    assert_eq!(loaded.list().len(), 3);
    let twice = vec![
        ("k".to_string(), profile("first", None)),
        ("k".to_string(), profile("second", None)),
    ];
    assert_eq!(ProfileStore::from_entries(twice).get("K").unwrap().name, "second");
}

#[test]
fn explicit_settings_win_over_profile() {
    let given = AuthConfig { username: text("me"), ..AuthConfig::default() };
    let saved = AuthProfile {
        name: "p".to_string(),
        login_url: text("/login"),
        username: text("other"),
        password: text("secret"),
        ..AuthProfile::default()
    };
    let auth = given.apply_profile(&saved);
    assert_eq!(auth.login_url, text("/login"));
    assert_eq!(auth.username, text("me"));
    assert_eq!(auth.password, text("secret"));
    assert_eq!(auth.submit_selector, None);
    let auth = auth.apply_environment(text("env"), text("env"));
    assert_eq!(auth.username, text("me"));
    let auth = AuthConfig::default().apply_environment(text("u"), None);
    assert_eq!(auth.username, text("u"));
    assert_eq!(auth.password, None);
}

#[test]
fn missing_settings_are_told() {
    assert!(AuthConfig::default().is_open());
    let cookies = AuthConfig { cookies_file: Some("c.json".into()), ..AuthConfig::default() };
    assert!(!cookies.is_open());
    let user = AuthConfig { username: text("u"), ..AuthConfig::default() };
    assert!(user.lacks_login_url() && !user.is_open() && user.is_worth_saving());
    let manual = AuthConfig { login_url: text("/l"), ..AuthConfig::default() };
    assert!(manual.is_manual() && manual.lacks_selectors() && !manual.lacks_login_url());
    assert!(!manual.is_worth_saving());
    let full = AuthConfig {
        username: text("u"),
        username_selector: text("#u"),
        password_selector: text("#p"),
        submit_selector: text("#s"),
        ..manual
    };
    assert!(!full.is_manual() && !full.lacks_selectors());
    let bare = full.without_credentials();
    assert_eq!(bare.login_url, text("/l"));
    assert!(bare.username.is_none() && bare.submit_selector.is_none());
}

#[test]
fn captured_settings_are_saved() {
    let mut store = ProfileStore::default();
    let captured = AuthConfig {
        username: text("u"),
        password: text("p"),
        submit_selector: text("#go"),
        ..AuthConfig::default()
    };
    save_profile(&mut store, "Mine", text("/login"), &captured);
    let saved = store.get("mine").unwrap();
    assert_eq!(saved.name, "Mine");
    assert_eq!(saved.login_url, text("/login"));
    assert_eq!(saved.username, text("u"));
    assert_eq!(saved.password, text("p"));
    assert_eq!(saved.username_selector, None);
    assert_eq!(saved.submit_selector, text("#go"));
    let restored = AuthConfig::default().apply_profile(saved);
    assert_eq!(restored.username, captured.username);
}

#[test]
fn profile_is_refreshed_only_for_new_places() {
    let mut store = ProfileStore::default();
    store.upsert(profile("App", Some("/login")));
    let password = AuthConfig { password: text("new"), ..AuthConfig::default() };
    assert!(!refresh_profile(&mut store, "app", &password));
    assert_eq!(store.get("app").unwrap().password, None);
    let selector = AuthConfig { password_selector: text("#p"), password: text("new"), ..AuthConfig::default() };
    assert!(refresh_profile(&mut store, "APP", &selector));
    let p = store.get("app").unwrap();
    assert_eq!(p.name, "App");
    assert_eq!(p.login_url, text("/login"));
    assert_eq!(p.password, text("new"));
    assert_eq!(p.password_selector, text("#p"));
    assert!(!refresh_profile(&mut store, "app", &selector));
    assert!(!refresh_profile(&mut store, "none", &selector));
}

#[test]
fn answers_are_read() {
    assert_eq!(answer("  \n"), None);
    assert_eq!(answer(" /login \n"), text("/login"));
    assert_eq!(secret(String::new()), None);
    assert_eq!(secret(" ".to_string()), text(" "));
    assert_eq!(edited(&text("old"), "\n"), text("old"));
    assert_eq!(edited(&text("old"), " - \n"), None);
    assert_eq!(edited(&text("old"), " new\n"), text("new"));
    assert_eq!(edited_secret(&text("old"), " - ".to_string()), text(" - "));
    assert_eq!(edited_secret(&None, "-".to_string()), None);
    assert!(says_yes(" y\n") && says_yes("Y") && !says_yes("yes") && !says_yes(""));
    assert!(confirms("Y\n") && confirms("y") && !confirms("n"));
    assert_eq!(profile_name(" \n"), "default");
    assert_eq!(profile_name("x\n"), "x");
}

#[test]
fn counts_are_parsed_as_std_does() {
    for s in ["", "0", "1", "+7", "007", "+", "-1", "1a", "++1", "18446744073709551615", "18446744073709551616", "٣"] {
        assert_eq!(parse_count(s), s.parse::<usize>().ok(), "{s}");
    }
}

#[test]
fn profile_is_picked_by_place_or_name() {
    let mut store = ProfileStore::default();
    store.upsert(profile("alpha", None));
    store.upsert(profile("beta", None));
    let listed = store.list();
    let pick = |s: &str| pick_profile(&store, &listed, s).map(|p| p.name.clone());
    assert_eq!(pick("1"), text("alpha"));
    assert_eq!(pick("0"), text("alpha"));
    assert_eq!(pick("+2"), text("beta"));
    assert_eq!(pick("3"), None);
    assert_eq!(pick("BETA"), text("beta"));
    assert_eq!(pick("gamma"), None);
}
