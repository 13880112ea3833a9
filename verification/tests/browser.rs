use webprobe::crawler::browser::{
    chrome_probes, firefox_probes, safari_probes, session_capabilities, session_error, BrowserStep,
    DriverKind, DriverProcess, Installed, Probe, NO_BROWSER,
};

fn found(geckodriver: bool, firefox: bool, chromedriver: bool, chrome: bool) -> Installed {
    Installed { geckodriver, firefox, chromedriver, chrome }
}

#[test]
fn complete_pairs_are_preferred() {
    assert_eq!(found(true, true, true, true).first(), BrowserStep::Spawn(DriverKind::Gecko));
    assert_eq!(found(false, true, true, true).first(), BrowserStep::Spawn(DriverKind::Chrome));
    assert_eq!(found(true, false, true, true).first(), BrowserStep::Spawn(DriverKind::Chrome));
    assert_eq!(found(false, true, true, false).first(), BrowserStep::InstallGeckodriver);
    assert_eq!(found(true, false, false, true).first(), BrowserStep::InstallChromedriver);
    assert_eq!(found(true, false, true, false).first(), BrowserStep::ProbeSafari);
    assert_eq!(found(false, false, false, false).first(), BrowserStep::ProbeSafari);
}

#[test]
fn search_goes_on_until_a_browser_is_there() {
    let f = found(false, true, false, true);
    let mut step = f.first();
    let mut taken = vec![step];
    for _ in 0..5 {
        step = f.later(step, false);
        taken.push(step);
    }
    assert_eq!(
        taken,
        vec![
            BrowserStep::InstallGeckodriver,
            BrowserStep::InstallChromedriver,
            BrowserStep::ProbeSafari,
            BrowserStep::InstallFirefox,
            BrowserStep::GiveUp,
            BrowserStep::GiveUp,
        ]
    );
    assert_eq!(f.later(BrowserStep::InstallGeckodriver, true), BrowserStep::Spawn(DriverKind::Gecko));
    assert_eq!(f.later(BrowserStep::InstallChromedriver, true), BrowserStep::Spawn(DriverKind::Chrome));
    assert_eq!(f.later(BrowserStep::ProbeSafari, true), BrowserStep::Spawn(DriverKind::Safari));
    assert_eq!(f.later(BrowserStep::InstallFirefox, true), BrowserStep::InstallGeckodriverLast);
    assert_eq!(f.later(BrowserStep::InstallGeckodriverLast, true), BrowserStep::Spawn(DriverKind::Gecko));
    assert_eq!(f.later(BrowserStep::InstallGeckodriverLast, false), BrowserStep::GiveUp);
    assert_eq!(found(false, true, true, false).later(BrowserStep::InstallGeckodriver, false), BrowserStep::ProbeSafari);
    assert_eq!(f.safari_reason(), "driver not found");
    assert_eq!(found(true, false, true, false).safari_reason(), "Firefox/Chrome not installed");
}

#[test]
fn drivers_are_named() {
    assert_eq!(DriverKind::Gecko.label(), "Firefox (geckodriver)");
    assert_eq!(DriverKind::Chrome.label(), "Chrome (chromedriver)");
    assert_eq!(DriverKind::Safari.label(), "Safari (safaridriver)");
    assert_eq!(DriverKind::Chrome.driver_name(), "chromedriver");
    assert_eq!(DriverKind::Gecko.start_failure(), "Failed to start geckodriver — run: brew install geckodriver");
    let driver = DriverProcess { port: 4444, kind: DriverKind::Safari };
    assert_eq!(driver.url(), "http://127.0.0.1:4444");
    assert_eq!(driver.status_url(), "http://127.0.0.1:4444/status");
    assert_eq!(driver.not_ready(), "safaridriver did not become ready within 20s");
    assert!(NO_BROWSER.starts_with("No supported browser found.\n"));
}

#[test]
fn signs_of_installed_browsers() {
    assert_eq!(firefox_probes().len(), 3);
    assert_eq!(chrome_probes().len(), 4);
    assert!(matches!(firefox_probes()[1], Probe::File("/usr/bin/firefox")));
    assert!(matches!(chrome_probes()[2], Probe::Command("google-chrome")));
    assert!(matches!(safari_probes()[0], Probe::Command("safaridriver")));
}

#[test]
fn sessions_are_requested() {
    let json = |s: &str| -> serde_json::Value { serde_json::from_str(s).unwrap() };
    assert_eq!(
        session_capabilities(DriverKind::Gecko, true),
        json(r#"{"pageLoadStrategy":"eager","moz:firefoxOptions":{"args":["-headless"]}}"#)
    );
    assert_eq!(
        session_capabilities(DriverKind::Gecko, false),
        json(r#"{"pageLoadStrategy":"eager","moz:firefoxOptions":{"args":[]}}"#)
    );
    assert_eq!(
        session_capabilities(DriverKind::Chrome, true),
        json(
            r#"{"pageLoadStrategy":"eager","goog:chromeOptions":{"args":["--no-sandbox",
                "--disable-dev-shm-usage","--disable-gpu","--window-size=1920,1080","--headless"]}}"#
        )
    );
    assert_eq!(
        session_capabilities(DriverKind::Safari, true),
        json(r#"{"pageLoadStrategy":"eager","browserName":"safari"}"#)
    );
}

#[test]
fn session_errors_give_a_hint() {
    assert_eq!(
        session_error(DriverKind::Chrome, "session not created"),
        "Failed to create Chrome (chromedriver) session: session not created\n\
         Hint: Chrome and chromedriver versions must match. Run: brew upgrade chromedriver"
    );
    assert_eq!(
        session_error(DriverKind::Chrome, "refused"),
        "Failed to create Chrome (chromedriver) session: refused"
    );
    assert_eq!(
        session_error(DriverKind::Gecko, "bad version"),
        "Failed to create Firefox (geckodriver) session: bad version"
    );
}
