//! Which browser and driver a crawl uses, and what it asks of them.

use vstd::prelude::*;

use crate::json::{
    json_object, json_of_list, json_of_text, json_put, json_view, json_views, JsonView,
};
use crate::text::{contains, decimal, has_part, numeral};

verus! {

/// The driver that runs the browser.
#[derive(Debug, Clone, Copy, PartialEq, Eq, Structural)]
pub enum DriverKind {
    /// safaridriver, which is part of macOS. It has no headless mode.
    Safari,
    /// geckodriver, which runs Firefox.
    Gecko,
    /// chromedriver, which runs Chrome.
    Chrome,
}

impl DriverKind {
    /// The name shown for browser and driver.
    pub open spec fn title(self) -> Seq<char> {
        match self {
            DriverKind::Safari => "Safari (safaridriver)"@,
            DriverKind::Gecko => "Firefox (geckodriver)"@,
            DriverKind::Chrome => "Chrome (chromedriver)"@,
        }
    }

    /// The name of the driver.
    pub open spec fn driver(self) -> Seq<char> {
        match self {
            DriverKind::Safari => "safaridriver"@,
            DriverKind::Gecko => "geckodriver"@,
            DriverKind::Chrome => "chromedriver"@,
        }
    }

    /// The name shown for browser and driver.
    pub fn label(self) -> (r: &'static str)
        ensures
            r@ == self.title(),
    {
        match self {
            DriverKind::Safari => "Safari (safaridriver)",
            DriverKind::Gecko => "Firefox (geckodriver)",
            DriverKind::Chrome => "Chrome (chromedriver)",
        }
    }

    /// The name of the driver.
    pub fn driver_name(self) -> (r: &'static str)
        ensures
            r@ == self.driver(),
    {
        match self {
            DriverKind::Safari => "safaridriver",
            DriverKind::Gecko => "geckodriver",
            DriverKind::Chrome => "chromedriver",
        }
    }

    /// What is said where the driver cannot be started.
    pub fn start_failure(self) -> (r: &'static str)
        ensures
            r@ == match self {
                DriverKind::Safari =>
                    "Failed to start safaridriver.\nEnable it with: safaridriver --enable"@,
                DriverKind::Gecko =>
                    "Failed to start geckodriver — run: brew install geckodriver"@,
                DriverKind::Chrome =>
                    "Failed to start chromedriver — run: brew install chromedriver"@,
            },
    {
        match self {
            DriverKind::Safari => "Failed to start safaridriver.\nEnable it with: safaridriver --enable",
            DriverKind::Gecko => "Failed to start geckodriver — run: brew install geckodriver",
            DriverKind::Chrome => "Failed to start chromedriver — run: brew install chromedriver",
        }
    }
}

/// A driver that listens on a port of this machine.
#[derive(Debug, Clone, Copy, PartialEq, Eq, Structural)]
pub struct DriverProcess {
    pub port: u16,
    pub kind: DriverKind,
}

/// The address of a port of this machine.
pub open spec fn local_address(port: u16) -> Seq<char> {
    "http://127.0.0.1:"@ + numeral(port as nat)
}

impl DriverProcess {
    /// The address of the driver.
    pub fn url(&self) -> (r: String)
        ensures
            r@ == local_address(self.port),
    {
        let mut s = "http://127.0.0.1:".to_string();
        let digits = decimal(self.port as u64);
        s.append(digits.as_str());
        s
    }

    /// The address at which the driver tells whether it is ready.
    pub fn status_url(&self) -> (r: String)
        ensures
            r@ == local_address(self.port) + "/status"@,
    {
        let mut s = self.url();
        s.append("/status");
        s
    }

    /// What is said where the driver does not become ready.
    pub fn not_ready(&self) -> (r: String)
        ensures
            r@ == self.kind.driver() + " did not become ready within 20s"@,
    {
        let mut s = self.kind.driver_name().to_string();
        s.append(" did not become ready within 20s");
        s
    }
}

/// A sign that a program is installed.
#[derive(Debug)]
pub enum Probe {
    /// The file exists.
    File(&'static str),
    /// The command is on the search path.
    Command(&'static str),
}

/// A sign that a program is installed.
pub ghost enum ProbeView {
    File(Seq<char>),
    Command(Seq<char>),
}

impl View for Probe {
    type V = ProbeView;

    open spec fn view(&self) -> ProbeView {
        match self {
            Probe::File(s) => ProbeView::File(s@),
            Probe::Command(s) => ProbeView::Command(s@),
        }
    }
}

/// The contents of a list of signs.
pub open spec fn probe_views(list: Seq<Probe>) -> Seq<ProbeView> {
    list.map_values(|p: Probe| p@)
}

/// The signs that Firefox is installed; one is enough.
pub fn firefox_probes() -> (r: Vec<Probe>)
    ensures
        probe_views(r@) == seq![
            ProbeView::File("/Applications/Firefox.app/Contents/MacOS/firefox"@),
            ProbeView::File("/usr/bin/firefox"@),
            ProbeView::Command("firefox"@),
        ],
{
    let mut r: Vec<Probe> = Vec::new();
    r.push(Probe::File("/Applications/Firefox.app/Contents/MacOS/firefox"));
    r.push(Probe::File("/usr/bin/firefox"));
    r.push(Probe::Command("firefox"));
    proof {
        assert(probe_views(r@) =~= seq![
            ProbeView::File("/Applications/Firefox.app/Contents/MacOS/firefox"@),
            ProbeView::File("/usr/bin/firefox"@),
            ProbeView::Command("firefox"@),
        ]);
    }
    r
}

/// The signs that Chrome is installed; one is enough.
pub fn chrome_probes() -> (r: Vec<Probe>)
    ensures
        probe_views(r@) == seq![
            ProbeView::File("/Applications/Google Chrome.app/Contents/MacOS/Google Chrome"@),
            ProbeView::File("/Applications/Chromium.app/Contents/MacOS/Chromium"@),
            ProbeView::Command("google-chrome"@),
            ProbeView::Command("chromium"@),
        ],
{
    let mut r: Vec<Probe> = Vec::new();
    r.push(Probe::File("/Applications/Google Chrome.app/Contents/MacOS/Google Chrome"));
    r.push(Probe::File("/Applications/Chromium.app/Contents/MacOS/Chromium"));
    r.push(Probe::Command("google-chrome"));
    r.push(Probe::Command("chromium"));
    proof {
        assert(probe_views(r@) =~= seq![
            ProbeView::File("/Applications/Google Chrome.app/Contents/MacOS/Google Chrome"@),
            ProbeView::File("/Applications/Chromium.app/Contents/MacOS/Chromium"@),
            ProbeView::Command("google-chrome"@),
            ProbeView::Command("chromium"@),
        ]);
    }
    r
}

/// The signs that the driver of Safari is installed; one is enough.
pub fn safari_probes() -> (r: Vec<Probe>)
    ensures
        probe_views(r@) == seq![
            ProbeView::Command("safaridriver"@),
            ProbeView::File("/usr/bin/safaridriver"@),
        ],
{
    let mut r: Vec<Probe> = Vec::new();
    r.push(Probe::Command("safaridriver"));
    r.push(Probe::File("/usr/bin/safaridriver"));
    proof {
        assert(probe_views(r@) =~= seq![
            ProbeView::Command("safaridriver"@),
            ProbeView::File("/usr/bin/safaridriver"@),
        ]);
    }
    r
}

/// What is installed at the start.
#[derive(Debug, Clone, Copy, PartialEq, Eq, Structural)]
pub struct Installed {
    pub geckodriver: bool,
    pub firefox: bool,
    pub chromedriver: bool,
    pub chrome: bool,
}

/// The next step in finding a browser.
#[derive(Debug, Clone, Copy, PartialEq, Eq, Structural)]
pub enum BrowserStep {
    /// Start this driver.
    Spawn(DriverKind),
    /// Install geckodriver for the Firefox that is there.
    InstallGeckodriver,
    /// Install chromedriver for the Chrome that is there.
    InstallChromedriver,
    /// See whether the driver of Safari is there.
    ProbeSafari,
    /// Install Firefox.
    InstallFirefox,
    /// Install geckodriver for the Firefox that was just installed.
    InstallGeckodriverLast,
    /// There is no browser to use.
    GiveUp,
}

/// What to do once Firefox is out of the question: install the driver of Chrome if only
/// that is missing, or else see about Safari.
pub open spec fn chrome_or_safari(found: Installed) -> BrowserStep {
    if found.chrome && !found.chromedriver {
        BrowserStep::InstallChromedriver
    } else {
        BrowserStep::ProbeSafari
    }
}

/// The first step: what is complete is started, Firefox before Chrome; where only a driver
/// is missing, it is installed.
pub open spec fn first_step(found: Installed) -> BrowserStep {
    if found.geckodriver && found.firefox {
        BrowserStep::Spawn(DriverKind::Gecko)
    } else if found.chromedriver && found.chrome {
        BrowserStep::Spawn(DriverKind::Chrome)
    } else if found.firefox && !found.geckodriver {
        BrowserStep::InstallGeckodriver
    } else {
        chrome_or_safari(found)
    }
}

/// The step after `step`, which worked or not.
pub open spec fn later_step(found: Installed, step: BrowserStep, worked: bool) -> BrowserStep {
    match step {
        BrowserStep::InstallGeckodriver => if worked {
            BrowserStep::Spawn(DriverKind::Gecko)
        } else {
            chrome_or_safari(found)
        },
        BrowserStep::InstallChromedriver => if worked {
            BrowserStep::Spawn(DriverKind::Chrome)
        } else {
            BrowserStep::ProbeSafari
        },
        BrowserStep::ProbeSafari => if worked {
            BrowserStep::Spawn(DriverKind::Safari)
        } else {
            BrowserStep::InstallFirefox
        },
        BrowserStep::InstallFirefox => if worked {
            BrowserStep::InstallGeckodriverLast
        } else {
            BrowserStep::GiveUp
        },
        BrowserStep::InstallGeckodriverLast => if worked {
            BrowserStep::Spawn(DriverKind::Gecko)
        } else {
            BrowserStep::GiveUp
        },
        BrowserStep::Spawn(_) | BrowserStep::GiveUp => step,
    }
}

impl Installed {
    /// What to do once Firefox is out of the question.
    fn without_firefox(self) -> (r: BrowserStep)
        ensures
            r == chrome_or_safari(self),
    {
        if self.chrome && !self.chromedriver {
            BrowserStep::InstallChromedriver
        } else {
            BrowserStep::ProbeSafari
        }
    }

    /// The first step in finding a browser.
    pub fn first(self) -> (r: BrowserStep)
        ensures
            r == first_step(self),
    {
        if self.geckodriver && self.firefox {
            BrowserStep::Spawn(DriverKind::Gecko)
        } else if self.chromedriver && self.chrome {
            BrowserStep::Spawn(DriverKind::Chrome)
        } else if self.firefox && !self.geckodriver {
            BrowserStep::InstallGeckodriver
        } else {
            self.without_firefox()
        }
    }

    /// The step after `step`, which worked or not.
    pub fn later(self, step: BrowserStep, worked: bool) -> (r: BrowserStep)
        ensures
            r == later_step(self, step, worked),
    {
        match step {
            BrowserStep::InstallGeckodriver => if worked {
                BrowserStep::Spawn(DriverKind::Gecko)
            } else {
                self.without_firefox()
            },
            BrowserStep::InstallChromedriver => if worked {
                BrowserStep::Spawn(DriverKind::Chrome)
            } else {
                BrowserStep::ProbeSafari
            },
            BrowserStep::ProbeSafari => if worked {
                BrowserStep::Spawn(DriverKind::Safari)
            } else {
                BrowserStep::InstallFirefox
            },
            BrowserStep::InstallFirefox => if worked {
                BrowserStep::InstallGeckodriverLast
            } else {
                BrowserStep::GiveUp
            },
            BrowserStep::InstallGeckodriverLast => if worked {
                BrowserStep::Spawn(DriverKind::Gecko)
            } else {
                BrowserStep::GiveUp
            },
            BrowserStep::Spawn(_) | BrowserStep::GiveUp => step,
        }
    }

    /// Why Safari is used.
    pub fn safari_reason(self) -> (r: &'static str)
        ensures
            r@ == if !self.firefox && !self.chrome {
                "Firefox/Chrome not installed"@
            } else {
                "driver not found"@
            },
    {
        if !self.firefox && !self.chrome {
            "Firefox/Chrome not installed"
        } else {
            "driver not found"
        }
    }
}

/// The steps taken where the n-th one works if `worked[n]` holds.
pub open spec fn step_after(found: Installed, worked: Seq<bool>) -> BrowserStep
    decreases worked.len(),
{
    if worked.len() == 0 {
        first_step(found)
    } else {
        later_step(found, step_after(found, worked.drop_last()), worked.last())
    }
}

/// The search for a browser is over.
pub open spec fn is_settled(step: BrowserStep) -> bool {
    step is Spawn || step is GiveUp
}

/// How many steps are left at most.
pub open spec fn steps_left(step: BrowserStep) -> nat {
    match step {
        BrowserStep::InstallGeckodriver => 5,
        BrowserStep::InstallChromedriver => 4,
        BrowserStep::ProbeSafari => 3,
        BrowserStep::InstallFirefox => 2,
        BrowserStep::InstallGeckodriverLast => 1,
        BrowserStep::Spawn(_) | BrowserStep::GiveUp => 0,
    }
}

/// The search for a browser is over after five steps at the latest, however they turn out.
pub proof fn browser_search_ends(found: Installed, worked: Seq<bool>)
    ensures
        steps_left(step_after(found, worked)) + worked.len() <= 5 || is_settled(
            step_after(found, worked),
        ),
        worked.len() >= 5 ==> is_settled(step_after(found, worked)),
    decreases worked.len(),
{
    if worked.len() > 0 {
        browser_search_ends(found, worked.drop_last());
    }
}

/// A browser and a driver that are both there are used as they are, Firefox before Chrome,
/// and then nothing is installed.
pub proof fn complete_pair_is_used(found: Installed, worked: Seq<bool>)
    ensures
        found.geckodriver && found.firefox ==> step_after(found, worked) == BrowserStep::Spawn(
            DriverKind::Gecko,
        ),
        !(found.geckodriver && found.firefox) && found.chromedriver && found.chrome
            ==> step_after(found, worked) == BrowserStep::Spawn(DriverKind::Chrome),
    decreases worked.len(),
{
    if worked.len() > 0 {
        complete_pair_is_used(found, worked.drop_last());
    }
}

/// The step `what` was taken, and it worked.
pub open spec fn installed_by(found: Installed, worked: Seq<bool>, what: BrowserStep) -> bool {
    exists|n: int|
        0 <= n < worked.len() && worked[n] && #[trigger] step_after(found, worked.take(n)) == what
}

/// What an earlier step installed is still installed.
proof fn lemma_stays_installed(found: Installed, worked: Seq<bool>, what: BrowserStep)
    requires
        worked.len() > 0,
        installed_by(found, worked.drop_last(), what),
    ensures
        installed_by(found, worked, what),
{
    let front = worked.drop_last();
    let n = choose|n: int|
        0 <= n < front.len() && front[n] && #[trigger] step_after(found, front.take(n)) == what;
    assert(front.take(n) =~= worked.take(n));
    assert(step_after(found, worked.take(n)) == what);
}

/// What the last step installed is installed.
proof fn lemma_just_installed(found: Installed, worked: Seq<bool>, what: BrowserStep)
    requires
        worked.len() > 0,
        worked.last(),
        step_after(found, worked.drop_last()) == what,
    ensures
        installed_by(found, worked, what),
{
    let n = worked.len() - 1;
    assert(worked.take(n) =~= worked.drop_last());
    assert(step_after(found, worked.take(n)) == what);
}

/// A driver is started only where it and its browser are there: from the start, or because
/// a step that worked installed them. Safari is started only where its driver was found.
pub proof fn started_driver_is_there(found: Installed, worked: Seq<bool>)
    ensures
        step_after(found, worked) == BrowserStep::Spawn(DriverKind::Gecko) ==> {
            &&& found.geckodriver || installed_by(
                found,
                worked,
                BrowserStep::InstallGeckodriver,
            ) || installed_by(found, worked, BrowserStep::InstallGeckodriverLast)
            &&& found.firefox || installed_by(found, worked, BrowserStep::InstallFirefox)
        },
        step_after(found, worked) == BrowserStep::Spawn(DriverKind::Chrome) ==> {
            &&& found.chromedriver || installed_by(found, worked, BrowserStep::InstallChromedriver)
            &&& found.chrome
        },
        step_after(found, worked) == BrowserStep::Spawn(DriverKind::Safari) ==> installed_by(
            found,
            worked,
            BrowserStep::ProbeSafari,
        ),
        step_after(found, worked) == BrowserStep::InstallGeckodriver ==> found.firefox,
        step_after(found, worked) == BrowserStep::InstallChromedriver ==> found.chrome,
        step_after(found, worked) == BrowserStep::InstallGeckodriverLast ==> installed_by(
            found,
            worked,
            BrowserStep::InstallFirefox,
        ),
    decreases worked.len(),
{
    if worked.len() > 0 {
        let front = worked.drop_last();
        started_driver_is_there(found, front);
        let step = step_after(found, front);
        if worked.last() {
            lemma_just_installed(found, worked, step);
        }
        if installed_by(found, front, BrowserStep::InstallGeckodriver) {
            lemma_stays_installed(found, worked, BrowserStep::InstallGeckodriver);
        }
        if installed_by(found, front, BrowserStep::InstallGeckodriverLast) {
            lemma_stays_installed(found, worked, BrowserStep::InstallGeckodriverLast);
        }
        if installed_by(found, front, BrowserStep::InstallFirefox) {
            lemma_stays_installed(found, worked, BrowserStep::InstallFirefox);
        }
        if installed_by(found, front, BrowserStep::InstallChromedriver) {
            lemma_stays_installed(found, worked, BrowserStep::InstallChromedriver);
        }
        if installed_by(found, front, BrowserStep::ProbeSafari) {
            lemma_stays_installed(found, worked, BrowserStep::ProbeSafari);
        }
    }
}

/// The step `what` was taken, and it did not work.
pub open spec fn tried_in_vain(found: Installed, worked: Seq<bool>, what: BrowserStep) -> bool {
    exists|n: int|
        0 <= n < worked.len() && !worked[n] && #[trigger] step_after(found, worked.take(n)) == what
}

/// One step later, what was tried in vain still was.
proof fn lemma_stays_in_vain(found: Installed, worked: Seq<bool>, what: BrowserStep)
    requires
        worked.len() > 0,
        tried_in_vain(found, worked.drop_last(), what) || (!worked.last() && step_after(
            found,
            worked.drop_last(),
        ) == what),
    ensures
        tried_in_vain(found, worked, what),
{
    let front = worked.drop_last();
    if tried_in_vain(found, front, what) {
        let n = choose|n: int|
            0 <= n < front.len() && !front[n] && #[trigger] step_after(found, front.take(n))
                == what;
        assert(front.take(n) =~= worked.take(n));
        assert(step_after(found, worked.take(n)) == what);
    } else {
        let n = worked.len() - 1;
        assert(worked.take(n) =~= front);
        assert(step_after(found, worked.take(n)) == what);
    }
}

/// Nothing is left to be done with the browsers that were there from the start.
pub open spec fn own_browsers_fail(found: Installed, worked: Seq<bool>) -> bool {
    &&& !(found.geckodriver && found.firefox)
    &&& !(found.chromedriver && found.chrome)
    &&& found.firefox ==> tried_in_vain(found, worked, BrowserStep::InstallGeckodriver)
    &&& found.chrome ==> tried_in_vain(found, worked, BrowserStep::InstallChromedriver)
}

/// Safari is the last choice: it is looked for and started only where no browser has its
/// driver, and where the missing driver of each browser that is there could not be installed.
pub proof fn safari_is_last_choice(found: Installed, worked: Seq<bool>)
    ensures
        step_after(found, worked) == BrowserStep::ProbeSafari ==> own_browsers_fail(found, worked),
        step_after(found, worked) == BrowserStep::Spawn(DriverKind::Safari) ==> own_browsers_fail(
            found,
            worked,
        ),
{
    lemma_choices_fail(found, worked);
}

/// What failed by the time a step is taken.
proof fn lemma_choices_fail(found: Installed, worked: Seq<bool>)
    ensures
        step_after(found, worked) == BrowserStep::ProbeSafari || step_after(found, worked)
            == BrowserStep::Spawn(DriverKind::Safari) ==> own_browsers_fail(found, worked),
        step_after(found, worked) == BrowserStep::InstallChromedriver ==> {
            &&& !(found.geckodriver && found.firefox)
            &&& !found.chromedriver
            &&& found.firefox ==> tried_in_vain(found, worked, BrowserStep::InstallGeckodriver)
        },
        step_after(found, worked) == BrowserStep::InstallGeckodriver ==> {
            &&& !found.geckodriver
            &&& !(found.chromedriver && found.chrome)
        },
    decreases worked.len(),
{
    if worked.len() > 0 {
        let front = worked.drop_last();
        lemma_choices_fail(found, front);
        let step = step_after(found, front);
        let (gecko, chrome) = (BrowserStep::InstallGeckodriver, BrowserStep::InstallChromedriver);
        if tried_in_vain(found, front, gecko) || (step == gecko && !worked.last()) {
            lemma_stays_in_vain(found, worked, gecko);
        }
        if tried_in_vain(found, front, chrome) || (step == chrome && !worked.last()) {
            lemma_stays_in_vain(found, worked, chrome);
        }
    }
}

/// What is said where there is no browser to use.
pub const NO_BROWSER: &'static str =
    "No supported browser found.\nFastest fix — uses Safari which is already on your Mac:\n\t• safaridriver --enable\n\nFor headless support (pick one):\n\t• brew install --cask google-chrome && brew install chromedriver\n\t• brew install --cask firefox      && brew install geckodriver";

/// The arguments that a browser is started with.
pub open spec fn browser_args(kind: DriverKind, headless: bool) -> Seq<Seq<char>> {
    match kind {
        DriverKind::Gecko => if headless {
            seq!["-headless"@]
        } else {
            Seq::empty()
        },
        DriverKind::Chrome => {
            let fixed = seq![
                "--no-sandbox"@,
                "--disable-dev-shm-usage"@,
                "--disable-gpu"@,
                "--window-size=1920,1080"@,
            ];
            if headless {
                fixed.push("--headless"@)
            } else {
                fixed
            }
        },
        DriverKind::Safari => Seq::empty(),
    }
}

/// An object with the one member `args`.
pub open spec fn args_object(args: Seq<Seq<char>>) -> JsonView {
    JsonView::Object(
        Map::empty().insert("args"@, JsonView::List(args.map_values(|s: Seq<char>| JsonView::Text(s)))),
    )
}

/// What is asked of the driver of a new session: a page counts as loaded once its document
/// is, and the browser is told its arguments. Safari takes none and has no headless mode.
pub open spec fn session_request(kind: DriverKind, headless: bool) -> JsonView {
    let eager = Map::empty().insert("pageLoadStrategy"@, JsonView::Text("eager"@));
    JsonView::Object(
        match kind {
            DriverKind::Gecko => eager.insert(
                "moz:firefoxOptions"@,
                args_object(browser_args(kind, headless)),
            ),
            DriverKind::Chrome => eager.insert(
                "goog:chromeOptions"@,
                args_object(browser_args(kind, headless)),
            ),
            DriverKind::Safari => eager.insert("browserName"@, JsonView::Text("safari"@)),
        },
    )
}

/// The arguments that a browser is started with.
fn arguments(kind: DriverKind, headless: bool) -> (r: Vec<serde_json::Value>)
    ensures
        json_views(r@) == browser_args(kind, headless).map_values(
            |s: Seq<char>| JsonView::Text(s),
        ),
{
    let mut r: Vec<serde_json::Value> = Vec::new();
    match kind {
        DriverKind::Gecko => {
            if headless {
                r.push(json_of_text("-headless"));
            }
        },
        DriverKind::Chrome => {
            r.push(json_of_text("--no-sandbox"));
            r.push(json_of_text("--disable-dev-shm-usage"));
            r.push(json_of_text("--disable-gpu"));
            r.push(json_of_text("--window-size=1920,1080"));
            if headless {
                r.push(json_of_text("--headless"));
            }
        },
        DriverKind::Safari => {},
    }
    proof {
        assert(json_views(r@) =~= browser_args(kind, headless).map_values(
            |s: Seq<char>| JsonView::Text(s),
        ));
    }
    r
}

/// What is asked of the driver of a new session.
pub fn session_capabilities(kind: DriverKind, headless: bool) -> (r: serde_json::Value)
    ensures
        json_view(r) == session_request(kind, headless),
{
    let mut caps = json_object();
    json_put(&mut caps, "pageLoadStrategy", json_of_text("eager"));
    match kind {
        DriverKind::Gecko => {
            let mut options = json_object();
            json_put(&mut options, "args", json_of_list(arguments(kind, headless)));
            json_put(&mut caps, "moz:firefoxOptions", options);
        },
        DriverKind::Chrome => {
            let mut options = json_object();
            json_put(&mut options, "args", json_of_list(arguments(kind, headless)));
            json_put(&mut caps, "goog:chromeOptions", options);
        },
        DriverKind::Safari => {
            json_put(&mut caps, "browserName", json_of_text("safari"));
        },
    }
    caps
}

/// The error tells that Chrome and its driver do not fit together.
pub open spec fn is_version_trouble(kind: DriverKind, error: Seq<char>) -> bool {
    kind == DriverKind::Chrome && (has_part(error, "version"@) || has_part(
        error,
        "session not created"@,
    ) || has_part(error, "Chrome version must be"@))
}

/// What is said where a session cannot be opened.
pub open spec fn session_failure(kind: DriverKind, error: Seq<char>) -> Seq<char> {
    "Failed to create "@ + kind.title() + " session: "@ + error + (if is_version_trouble(
        kind,
        error,
    ) {
        "\nHint: Chrome and chromedriver versions must match. Run: brew upgrade chromedriver"@
    } else {
        ""@
    })
}

/// What is said where a session cannot be opened.
pub fn session_error(kind: DriverKind, error: &str) -> (r: String)
    ensures
        r@ == session_failure(kind, error@),
{
    let mut s = "Failed to create ".to_string();
    s.append(kind.label());
    s.append(" session: ");
    s.append(error);
    if kind == DriverKind::Chrome && (contains(error, "version") || contains(
        error,
        "session not created",
    ) || contains(error, "Chrome version must be")) {
        s.append(
            "\nHint: Chrome and chromedriver versions must match. Run: brew upgrade chromedriver",
        );
    } else {
        s.append("");
    }
    s
}

/// A session waits for the document alone, and its browser shows no window exactly if none is
/// asked for; Safari cannot do without one.
pub proof fn sessions_are_asked_for_as_set(kind: DriverKind, headless: bool)
    ensures
        session_request(kind, headless).text_of("pageLoadStrategy"@) == Some("eager"@),
        session_request(DriverKind::Gecko, headless).member("moz:firefoxOptions"@) is Some,
        session_request(DriverKind::Gecko, headless).member("moz:firefoxOptions"@)->0.list_of(
            "args"@,
        ) == Some(
            if headless {
                seq![JsonView::Text("-headless"@)]
            } else {
                Seq::empty()
            },
        ),
        session_request(DriverKind::Chrome, headless).member("goog:chromeOptions"@) is Some,
        ({
            let args = session_request(DriverKind::Chrome, headless).member(
                "goog:chromeOptions"@,
            )->0.list_of("args"@);
            &&& args is Some
            &&& args->0.len() == if headless {
                5int
            } else {
                4
            }
            &&& args->0[0] == JsonView::Text("--no-sandbox"@)
            &&& args->0[1] == JsonView::Text("--disable-dev-shm-usage"@)
            &&& args->0[2] == JsonView::Text("--disable-gpu"@)
            &&& args->0[3] == JsonView::Text("--window-size=1920,1080"@)
            &&& headless ==> args->0[4] == JsonView::Text("--headless"@)
        }),
        session_request(DriverKind::Safari, headless).text_of("browserName"@) == Some("safari"@),
        session_request(DriverKind::Safari, headless) == session_request(
            DriverKind::Safari,
            !headless,
        ),
{
    reveal_strlit("pageLoadStrategy");
    reveal_strlit("moz:firefoxOptions");
    reveal_strlit("goog:chromeOptions");
    reveal_strlit("browserName");
    assert("pageLoadStrategy"@.len() == 16 && "moz:firefoxOptions"@.len() == 18
        && "goog:chromeOptions"@.len() == 18 && "browserName"@.len() == 11);
    let gecko = browser_args(DriverKind::Gecko, headless).map_values(
        |s: Seq<char>| JsonView::Text(s),
    );
    if headless {
        assert(gecko =~= seq![JsonView::Text("-headless"@)]);
    } else {
        assert(gecko =~= Seq::<JsonView>::empty());
    }
}

/// What is said where a session cannot be opened names the browser and the error; that versions
/// must match is added for Chrome alone, and only where the error is about that.
pub proof fn session_failures_name_the_error(kind: DriverKind, a: Seq<char>, b: Seq<char>, error: Seq<char>)
    ensures
        ("Failed to create "@ + kind.title() + " session: "@ + error).is_prefix_of(
            session_failure(kind, error),
        ),
        kind != DriverKind::Chrome ==> session_failure(kind, error) == "Failed to create "@
            + kind.title() + " session: "@ + error,
        is_version_trouble(DriverKind::Chrome, a + "version"@ + b),
        is_version_trouble(DriverKind::Chrome, a + "session not created"@ + b),
        is_version_trouble(kind, error) ==> kind == DriverKind::Chrome && (has_part(
            error,
            "version"@,
        ) || has_part(error, "session not created"@) || has_part(error, "Chrome version must be"@)),
{
    reveal_strlit("");
    let front = "Failed to create "@ + kind.title() + " session: "@ + error;
    assert(front + ""@ =~= front);
    assert(session_failure(kind, error).subrange(0, front.len() as int) =~= front);
    let (x, y) = ("version"@, "session not created"@);
    crate::text::part_stands_between(a + x + b, x);
    crate::text::part_stands_between(a + y + b, y);
    assert(a + x + b == ((a + x) + b));
    assert(a + y + b == ((a + y) + b));
}

/// The first step goes by what is there, Firefox before Chrome, complete pairs before those
/// whose driver is missing.
pub proof fn search_starts_with_what_is_there(found: Installed)
    ensures
        found.firefox && found.geckodriver ==> first_step(found) == BrowserStep::Spawn(
            DriverKind::Gecko,
        ),
        !(found.firefox && found.geckodriver) && found.chrome && found.chromedriver ==> first_step(
            found,
        ) == BrowserStep::Spawn(DriverKind::Chrome),
        found.firefox && !found.geckodriver && !(found.chrome && found.chromedriver) ==> first_step(
            found,
        ) == BrowserStep::InstallGeckodriver,
        !found.firefox && found.chrome && !found.chromedriver ==> first_step(found)
            == BrowserStep::InstallChromedriver,
        !found.firefox && !found.chrome ==> first_step(found) == BrowserStep::ProbeSafari,
{
}

/// A step that works leads to the driver that it is about; one that does not leads to the next
/// choice, and after the last one the search is given up.
pub proof fn search_goes_on_to_the_next_choice(found: Installed)
    ensures
        later_step(found, BrowserStep::InstallGeckodriver, true) == BrowserStep::Spawn(
            DriverKind::Gecko,
        ),
        later_step(found, BrowserStep::InstallChromedriver, true) == BrowserStep::Spawn(
            DriverKind::Chrome,
        ),
        later_step(found, BrowserStep::ProbeSafari, true) == BrowserStep::Spawn(DriverKind::Safari),
        later_step(found, BrowserStep::InstallFirefox, true) == BrowserStep::InstallGeckodriverLast,
        later_step(found, BrowserStep::InstallGeckodriverLast, true) == BrowserStep::Spawn(
            DriverKind::Gecko,
        ),
        found.chrome && !found.chromedriver ==> later_step(
            found,
            BrowserStep::InstallGeckodriver,
            false,
        ) == BrowserStep::InstallChromedriver,
        !found.chrome || found.chromedriver ==> later_step(
            found,
            BrowserStep::InstallGeckodriver,
            false,
        ) == BrowserStep::ProbeSafari,
        later_step(found, BrowserStep::InstallChromedriver, false) == BrowserStep::ProbeSafari,
        later_step(found, BrowserStep::ProbeSafari, false) == BrowserStep::InstallFirefox,
        later_step(found, BrowserStep::InstallFirefox, false) == BrowserStep::GiveUp,
        later_step(found, BrowserStep::InstallGeckodriverLast, false) == BrowserStep::GiveUp,
{
}

} // verus!
