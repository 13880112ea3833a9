//! The protocol of Chrome's developer tools: messages, replies and the scripts of a page.

use vstd::prelude::*;

use crate::json::{
    json_array, json_clone, json_get, json_null, json_object, json_of_bool, json_of_text,
    json_of_u64, json_put, json_to_string, json_u64, json_view, member_text, parse_json,
    parsed_json, written_json, JsonView, NumberView,
};
use crate::text::{
    chars_of, decimal, find, first_at, numeral, opt_view, replace, replaced, same_option,
    same_text, split_text, text_of, text_pieces, trim, trimmed, views,
};

verus! {

/// A target of the browser.
#[derive(Debug, Clone)]
pub struct TargetInfo {
    pub id: String,
    pub target_type: String,
    pub url: String,
    pub title: Option<String>,
    pub ws_url: Option<String>,
}

/// What the browser says of itself.
#[allow(non_snake_case)]
#[derive(Debug, Clone)]
pub struct VersionInfo {
    pub Browser: String,
    pub protocol_version: String,
    pub user_agent: String,
    pub ws_debugger_url: String,
}

/// A cookie of a page.
#[derive(Debug, Clone)]
pub struct Cookie {
    pub name: String,
    pub value: String,
    pub domain: String,
    pub path: Option<String>,
    pub secure: Option<bool>,
    pub http_only: Option<bool>,
}

/// An element of a page.
#[derive(Debug, Clone)]
pub struct Element {
    pub html: String,
}

/// A session with one target of the browser.
#[derive(Debug)]
pub struct CdpSession {
    pub ws_url: String,
    pub session_id: String,
    /// The number of the next command.
    pub next_id: u64,
}

/// The number after `n`; after the last one comes zero.
pub open spec fn following(n: u64) -> u64 {
    if n == u64::MAX {
        0
    } else {
        (n + 1) as u64
    }
}

/// The number to use now; the counter goes on to the following one.
pub fn next_id(counter: &mut u64) -> (r: u64)
    ensures
        r == *old(counter),
        *final(counter) == following(*old(counter)),
{
    let n: u64 = *counter;
    *counter = if n == u64::MAX {
        0
    } else {
        n + 1
    };
    n
}

impl CdpSession {
    /// A session in which no command was sent yet.
    pub fn new(ws_url: String, session_id: String) -> (r: Self)
        ensures
            r.ws_url == ws_url,
            r.session_id == session_id,
            r.next_id == 1,
    {
        CdpSession { ws_url, session_id, next_id: 1 }
    }

    /// The number of the command to send now.
    pub fn take_id(&mut self) -> (r: u64)
        ensures
            r == old(self).next_id,
            final(self).next_id == following(old(self).next_id),
            final(self).ws_url == old(self).ws_url,
            final(self).session_id == old(self).session_id,
    {
        next_id(&mut self.next_id)
    }

    /// The command of that number, for this session.
    pub fn command(&self, id: u64, method: &str, params: serde_json::Value) -> (r: String)
        ensures
            r@ == written_json(session_command(id, method@, json_view(params), self.session_id@)),
    {
        let mut v = request(id, method, params);
        json_put(&mut v, "sessionId", json_of_text(self.session_id.as_str()));
        json_to_string(&v)
    }
}

/// A request of that number.
pub open spec fn plain_request(id: u64, method: Seq<char>, params: JsonView) -> Map<
    Seq<char>,
    JsonView,
> {
    Map::empty().insert("id"@, JsonView::Number(NumberView::Natural(id))).insert(
        "method"@,
        JsonView::Text(method),
    ).insert("params"@, params)
}

/// A command of that number for a session.
pub open spec fn session_command(
    id: u64,
    method: Seq<char>,
    params: JsonView,
    session_id: Seq<char>,
) -> JsonView {
    JsonView::Object(
        plain_request(id, method, params).insert("sessionId"@, JsonView::Text(session_id)),
    )
}

/// A request of that number.
fn request(id: u64, method: &str, params: serde_json::Value) -> (r: serde_json::Value)
    ensures
        json_view(r) == JsonView::Object(plain_request(id, method@, json_view(params))),
{
    let mut v = json_object();
    json_put(&mut v, "id", json_of_u64(id));
    json_put(&mut v, "method", json_of_text(method));
    json_put(&mut v, "params", params);
    v
}

/// An object with one text.
pub open spec fn text_member(key: Seq<char>, text: Seq<char>) -> JsonView {
    JsonView::Object(Map::empty().insert(key, JsonView::Text(text)))
}

/// The request for a new target.
pub fn create_target_request(id: u64) -> (r: String)
    ensures
        r@ == written_json(
            JsonView::Object(
                plain_request(
                    id,
                    "Target.createTarget"@,
                    text_member("url"@, "about:blank"@),
                ),
            ),
        ),
{
    let v = request(id, "Target.createTarget", url_params("about:blank"));
    json_to_string(&v)
}

/// The parameters of a navigation.
pub fn url_params(url: &str) -> (r: serde_json::Value)
    ensures
        json_view(r) == text_member("url"@, url@),
{
    let mut v = json_object();
    json_put(&mut v, "url", json_of_text(url));
    v
}

/// No parameters.
pub fn no_params() -> (r: serde_json::Value)
    ensures
        json_view(r) == JsonView::Object(Map::empty()),
{
    json_object()
}

/// The parameters by which a script is run for its value.
pub open spec fn evaluation(script: Seq<char>) -> Map<Seq<char>, JsonView> {
    Map::empty().insert("expression"@, JsonView::Text(script)).insert(
        "returnByValue"@,
        JsonView::Bool(true),
    )
}

/// The parameters by which a script is run for its value.
pub fn evaluate_params(script: &str) -> (r: serde_json::Value)
    ensures
        json_view(r) == JsonView::Object(evaluation(script@)),
{
    let mut v = json_object();
    json_put(&mut v, "expression", json_of_text(script));
    json_put(&mut v, "returnByValue", json_of_bool(true));
    v
}

/// A script as the body of an asynchronous function that is called.
pub open spec fn async_script(script: Seq<char>) -> Seq<char> {
    "(async () => { "@ + script + " })()"@
}

/// The parameters by which a script is run until its promise is kept, for as long as that
/// may take.
pub fn evaluate_async_params(script: &str, timeout_ms: u64) -> (r: serde_json::Value)
    requires
        timeout_ms * 1_000_000 <= u64::MAX,
    ensures
        json_view(r) == JsonView::Object(
            evaluation(async_script(script@)).insert("awaitPromise"@, JsonView::Bool(true)).insert(
                "timeout"@,
                JsonView::Number(NumberView::Natural((timeout_ms * 1_000_000) as u64)),
            ),
        ),
{
    let mut body = "(async () => { ".to_string();
    body.append(script);
    body.append(" })()");
    let mut v = evaluate_params(body.as_str());
    json_put(&mut v, "awaitPromise", json_of_bool(true));
    json_put(&mut v, "timeout", json_of_u64(timeout_ms * 1_000_000));
    v
}

/// What a message says about a command.
#[derive(Debug)]
pub enum Reply {
    /// It is not about the command.
    Other,
    /// The command failed.
    Failed(String),
    /// The command gave this value.
    Result(serde_json::Value),
}

/// What a message says about a command.
pub ghost enum ReplyView {
    Other,
    Failed(Seq<char>),
    Result(JsonView),
}

impl View for Reply {
    type V = ReplyView;

    open spec fn view(&self) -> ReplyView {
        match self {
            Reply::Other => ReplyView::Other,
            Reply::Failed(why) => ReplyView::Failed(why@),
            Reply::Result(v) => ReplyView::Result(json_view(*v)),
        }
    }
}

/// The message answers the command of that number.
pub open spec fn answers_to(message: JsonView, id: u64) -> bool {
    message.natural_of("id"@) == Some(id)
}

/// What a message says about the command of that number: its error, or else its result,
/// which is null where there is none.
pub open spec fn reply_in(message: JsonView, id: u64, method: Seq<char>) -> ReplyView {
    if !answers_to(message, id) {
        ReplyView::Other
    } else {
        match message.member("error"@) {
            Some(e) => ReplyView::Failed("CDP error: "@ + written_json(e) + " method="@ + method),
            None => ReplyView::Result(
                match message.member("result"@) {
                    Some(v) => v,
                    None => JsonView::Null,
                },
            ),
        }
    }
}

/// The message answers the command of that number.
fn is_answer(message: &serde_json::Value, id: u64) -> (r: bool)
    ensures
        r == answers_to(json_view(*message), id),
{
    match json_get(message, "id") {
        Some(v) => match json_u64(v) {
            Some(n) => n == id,
            None => false,
        },
        None => false,
    }
}

/// What a message says about the command of that number.
pub fn read_reply(message: &serde_json::Value, id: u64, method: &str) -> (r: Reply)
    ensures
        r@ == reply_in(json_view(*message), id, method@),
{
    if !is_answer(message, id) {
        return Reply::Other;
    }
    match json_get(message, "error") {
        Some(e) => {
            let mut s = "CDP error: ".to_string();
            let text = json_to_string(e);
            s.append(text.as_str());
            s.append(" method=");
            s.append(method);
            Reply::Failed(s)
        },
        None => match json_get(message, "result") {
            Some(v) => Reply::Result(json_clone(v)),
            None => Reply::Result(json_null()),
        },
    }
}

/// What a message, given as text, says about the command of that number; a text that is no
/// JSON says nothing.
pub fn hear_reply(text: &str, id: u64, method: &str) -> (r: Reply)
    ensures
        r@ == match parsed_json(text@) {
            Some(message) => reply_in(message, id, method@),
            None => ReplyView::Other,
        },
{
    match parse_json(text) {
        Some(message) => read_reply(&message, id, method),
        None => Reply::Other,
    }
}

/// What is said where no answer comes.
pub fn reply_timeout(method: &str, id: u64) -> (r: String)
    ensures
        r@ == "CDP response timeout for "@ + method@ + " id="@ + numeral(id as nat),
{
    let mut s = "CDP response timeout for ".to_string();
    s.append(method);
    s.append(" id=");
    let n = decimal(id);
    s.append(n.as_str());
    s
}

/// What a message says about a navigation.
#[derive(Debug)]
pub enum Navigation {
    /// It goes on.
    Pending,
    /// The page is there.
    Arrived,
    /// It failed.
    Failed(String),
}

/// What a message says about a navigation.
pub ghost enum NavigationView {
    Pending,
    Arrived,
    Failed(Seq<char>),
}

impl View for Navigation {
    type V = NavigationView;

    open spec fn view(&self) -> NavigationView {
        match self {
            Navigation::Pending => NavigationView::Pending,
            Navigation::Arrived => NavigationView::Arrived,
            Navigation::Failed(why) => NavigationView::Failed(why@),
        }
    }
}

/// What a message says about the navigation of that number: it arrived once a page was
/// loaded or the command was answered without an error.
pub open spec fn navigation_in(message: JsonView, id: u64) -> NavigationView {
    if message.text_of("method"@) == Some("Page.loadEventFired"@) {
        NavigationView::Arrived
    } else if answers_to(message, id) {
        match message.member("error"@) {
            Some(e) => NavigationView::Failed("Page navigation error: "@ + written_json(e)),
            None => NavigationView::Arrived,
        }
    } else {
        NavigationView::Pending
    }
}

/// The message announces that.
fn announces(message: &serde_json::Value, method: &str) -> (r: bool)
    ensures
        r == (json_view(*message).text_of("method"@) == Some(method@)),
{
    match member_text(message, "method") {
        Some(m) => same_text(m, method),
        None => false,
    }
}

/// What a message says about the navigation of that number.
pub fn read_navigation(message: &serde_json::Value, id: u64) -> (r: Navigation)
    ensures
        r@ == navigation_in(json_view(*message), id),
{
    if announces(message, "Page.loadEventFired") {
        return Navigation::Arrived;
    }
    if !is_answer(message, id) {
        return Navigation::Pending;
    }
    match json_get(message, "error") {
        Some(e) => {
            let mut s = "Page navigation error: ".to_string();
            let text = json_to_string(e);
            s.append(text.as_str());
            Navigation::Failed(s)
        },
        None => Navigation::Arrived,
    }
}

/// What a message, given as text, says about the navigation of that number.
pub fn hear_navigation(text: &str, id: u64) -> (r: Navigation)
    ensures
        r@ == match parsed_json(text@) {
            Some(message) => navigation_in(message, id),
            None => NavigationView::Pending,
        },
{
    match parse_json(text) {
        Some(message) => read_navigation(&message, id),
        None => Navigation::Pending,
    }
}

/// A new target and the session with it, as far as they are known.
#[derive(Debug)]
pub struct Attachment {
    /// The number of the request for the target.
    pub id: u64,
    pub target_id: Option<String>,
    pub session_id: Option<String>,
}

/// A new target and the session with it, as far as they are known.
pub ghost struct AttachmentView {
    pub id: u64,
    pub target_id: Option<Seq<char>>,
    pub session_id: Option<Seq<char>>,
}

impl View for Attachment {
    type V = AttachmentView;

    open spec fn view(&self) -> AttachmentView {
        AttachmentView {
            id: self.id,
            target_id: opt_view(self.target_id),
            session_id: opt_view(self.session_id),
        }
    }
}

/// The target that a message is about.
pub open spec fn target_in(message: JsonView) -> Option<Seq<char>> {
    match message.member("params"@) {
        Some(p) => match p.member("targetInfo"@) {
            Some(t) => t.text_of("targetId"@),
            None => None,
        },
        None => None,
    }
}

/// The text `inner` in the object `outer` of a message.
pub open spec fn text_within(message: JsonView, outer: Seq<char>, inner: Seq<char>) -> Option<
    Seq<char>,
> {
    match message.member(outer) {
        Some(m) => m.text_of(inner),
        None => None,
    }
}

/// The first target that was created is the one to use.
pub open spec fn with_created(a: AttachmentView, message: JsonView) -> AttachmentView {
    if message.text_of("method"@) == Some("Target.targetCreated"@) && a.target_id is None {
        AttachmentView { target_id: target_in(message), ..a }
    } else {
        a
    }
}

/// The session is the one attached to that target.
pub open spec fn with_attached(a: AttachmentView, message: JsonView) -> AttachmentView {
    if message.text_of("method"@) == Some("Target.attachedToTarget"@) && target_in(message)
        == a.target_id {
        AttachmentView { session_id: text_within(message, "params"@, "sessionId"@), ..a }
    } else {
        a
    }
}

/// Where no target was announced, it is the one that the answer names.
pub open spec fn with_answer(a: AttachmentView, message: JsonView) -> AttachmentView {
    if answers_to(message, a.id) && a.target_id is None {
        AttachmentView { target_id: text_within(message, "result"@, "targetId"@), ..a }
    } else {
        a
    }
}

/// What is known after a message.
pub open spec fn after_message(a: AttachmentView, message: JsonView) -> AttachmentView {
    with_answer(with_attached(with_created(a, message), message), message)
}

/// The text `inner` in the object `outer` of a message.
fn read_within(message: &serde_json::Value, outer: &str, inner: &str) -> (r: Option<String>)
    ensures
        opt_view(r) == text_within(json_view(*message), outer@, inner@),
{
    match json_get(message, outer) {
        Some(m) => match member_text(m, inner) {
            Some(s) => Some(s.to_string()),
            None => None,
        },
        None => None,
    }
}

/// The target that a message is about.
fn read_target(message: &serde_json::Value) -> (r: Option<String>)
    ensures
        opt_view(r) == target_in(json_view(*message)),
{
    match json_get(message, "params") {
        Some(p) => match json_get(p, "targetInfo") {
            Some(t) => match member_text(t, "targetId") {
                Some(s) => Some(s.to_string()),
                None => None,
            },
            None => None,
        },
        None => None,
    }
}

/// What is said where there is no new target.
pub const NO_TARGET: &'static str = "Target.createTarget failed";

/// What is said where there is no session with it.
pub const NO_SESSION: &'static str = "No sessionId from Target.attachedToTarget";

impl Attachment {
    /// Nothing is known yet.
    pub fn begin(id: u64) -> (r: Attachment)
        ensures
            r@ == (AttachmentView { id, target_id: None, session_id: None }),
    {
        Attachment { id, target_id: None, session_id: None }
    }

    /// Takes in a message.
    pub fn read(&mut self, message: &serde_json::Value)
        ensures
            final(self)@ == after_message(old(self)@, json_view(*message)),
    {
        if announces(message, "Target.targetCreated") && self.target_id.is_none() {
            self.target_id = read_target(message);
        }
        if announces(message, "Target.attachedToTarget") {
            let target = read_target(message);
            if same_option(&target, &self.target_id) {
                self.session_id = read_within(message, "params", "sessionId");
            }
        }
        if is_answer(message, self.id) && self.target_id.is_none() {
            self.target_id = read_within(message, "result", "targetId");
        }
    }

    /// Takes in a message given as text. Returns whether target and session are known then;
    /// a text that is no JSON changes nothing and ends nothing.
    pub fn hear(&mut self, text: &str) -> (r: bool)
        ensures
            match parsed_json(text@) {
                Some(message) => final(self)@ == after_message(old(self)@, message) && r == (
                final(self)@.target_id is Some && final(self)@.session_id is Some),
                None => final(self)@ == old(self)@ && !r,
            },
    {
        match parse_json(text) {
            Some(message) => {
                self.read(&message);
                self.target_id.is_some() && self.session_id.is_some()
            },
            None => false,
        }
    }

    /// The session at `ws_url`, or what is missing.
    pub fn finish(self, ws_url: &str) -> (r: Result<CdpSession, &'static str>)
        ensures
            match r {
                Ok(s) => self@.target_id is Some && self@.session_id == Some(s.session_id@)
                    && s.ws_url@ == ws_url@ && s.next_id == 1,
                Err(why) => if self@.target_id is None {
                    why@ == NO_TARGET@
                } else {
                    self@.session_id is None && why@ == NO_SESSION@
                },
            },
    {
        if self.target_id.is_none() {
            return Err(NO_TARGET);
        }
        match self.session_id {
            Some(s) => Ok(CdpSession::new(ws_url.to_string(), s)),
            None => Err(NO_SESSION),
        }
    }
}

/// A target that is known stays the same whatever messages come.
pub proof fn target_stays(a: AttachmentView, message: JsonView)
    requires
        a.target_id is Some,
    ensures
        after_message(a, message).target_id == a.target_id,
        after_message(a, message).id == a.id,
{
}

/// The session of a known target changes only by a message that attaches to this very
/// target, and is then the one that the message names.
pub proof fn session_is_of_target(a: AttachmentView, message: JsonView)
    requires
        a.target_id is Some,
        after_message(a, message).session_id != a.session_id,
    ensures
        message.text_of("method"@) == Some("Target.attachedToTarget"@),
        target_in(message) == a.target_id,
        after_message(a, message).session_id == text_within(message, "params"@, "sessionId"@),
{
}

/// The address at which a browser tells about itself.
pub fn version_url(base_url: &str) -> (r: String)
    ensures
        r@ == base_url@ + "/json/version"@,
{
    let mut s = base_url.to_string();
    s.append("/json/version");
    s
}

/// The text that a script gave, and an empty one where it gave none.
pub fn value_text(result: &serde_json::Value) -> (r: String)
    ensures
        r@ == match json_view(*result).text_of("value"@) {
            Some(s) => s,
            None => Seq::<char>::empty(),
        },
{
    match member_text(result, "value") {
        Some(s) => s.to_string(),
        None => String::new(),
    }
}

/// A selector as it stands between single quotation marks in a script.
pub open spec fn quoted_selector(selector: Seq<char>) -> Seq<char> {
    replaced(selector, '\'', "\\'"@)
}

/// A text as it stands between single quotation marks in a script.
pub open spec fn quoted_text(text: Seq<char>) -> Seq<char> {
    replaced(replaced(replaced(text, '\\', "\\\\"@), '\'', "\\'"@), '\n', "\\n"@)
}

/// The script that gives the first element that a selector matches.
pub fn find_script(selector: &str) -> (r: String)
    ensures
        r@ == "(function() { var el = document.querySelector('"@ + quoted_selector(selector@)
            + "'); if (!el) return null; return el.outerHTML; })()"@,
{
    let mut s = "(function() { var el = document.querySelector('".to_string();
    let escaped = replace(selector, '\'', "\\'");
    s.append(escaped.as_str());
    s.append("'); if (!el) return null; return el.outerHTML; })()");
    s
}

/// The script that gives all elements that a selector matches.
pub fn find_all_script(selector: &str) -> (r: String)
    ensures
        r@ == "(function() { return Array.from(document.querySelectorAll('"@ + quoted_selector(
            selector@,
        ) + "')).map(el => el.outerHTML); })()"@,
{
    let mut s = "(function() { return Array.from(document.querySelectorAll('".to_string();
    let escaped = replace(selector, '\'', "\\'");
    s.append(escaped.as_str());
    s.append("')).map(el => el.outerHTML); })()");
    s
}

/// The script that presses the first element that a selector matches.
pub fn click_script(selector: &str) -> (r: String)
    ensures
        r@ == "(function() { var el = document.querySelector('"@ + quoted_selector(selector@)
            + "'); if (el) el.click(); })()"@,
{
    let mut s = "(function() { var el = document.querySelector('".to_string();
    let escaped = replace(selector, '\'', "\\'");
    s.append(escaped.as_str());
    s.append("'); if (el) el.click(); })()");
    s
}

/// The script that clears the first element that a selector matches.
pub fn clear_script(selector: &str) -> (r: String)
    ensures
        r@ == "(function() { var el = document.querySelector('"@ + quoted_selector(selector@)
            + "'); if (el) { el.value = ''; el.dispatchEvent(new Event('input', {bubbles:true})); } })()"@,
{
    let mut s = "(function() { var el = document.querySelector('".to_string();
    let escaped = replace(selector, '\'', "\\'");
    s.append(escaped.as_str());
    s.append(
        "'); if (el) { el.value = ''; el.dispatchEvent(new Event('input', {bubbles:true})); } })()",
    );
    s
}

/// The script that types a text into the first element that a selector matches.
pub fn send_keys_script(selector: &str, text: &str) -> (r: String)
    ensures
        r@ == "(function() { var el = document.querySelector('"@ + quoted_selector(selector@)
            + "'); if (el) { el.focus(); el.value = '"@ + quoted_text(text@)
            + "'; el.dispatchEvent(new Event('input', {bubbles:true})); el.dispatchEvent(new Event('change', {bubbles:true})); } })()"@,
{
    let mut s = "(function() { var el = document.querySelector('".to_string();
    let escaped = replace(selector, '\'', "\\'");
    s.append(escaped.as_str());
    s.append("'); if (el) { el.focus(); el.value = '");
    let slashes = replace(text, '\\', "\\\\");
    let quotes = replace(slashes.as_str(), '\'', "\\'");
    let lines = replace(quotes.as_str(), '\n', "\\n");
    s.append(lines.as_str());
    s.append(
        "'; el.dispatchEvent(new Event('input', {bubbles:true})); el.dispatchEvent(new Event('change', {bubbles:true})); } })()",
    );
    s
}

/// The element that a script gave, if it gave one.
pub open spec fn element_in(result: JsonView) -> Option<Seq<char>> {
    match result.text_of("value"@) {
        Some(s) => if s.len() == 0 || s == "null"@ {
            None
        } else {
            Some(s)
        },
        None => None,
    }
}

/// The element that a script gave, if it gave one.
pub fn read_element(result: &serde_json::Value) -> (r: Option<Element>)
    ensures
        match r {
            Some(e) => element_in(json_view(*result)) == Some(e.html@),
            None => element_in(json_view(*result)) is None,
        },
{
    match member_text(result, "value") {
        Some(s) => if s.unicode_len() == 0 || same_text(s, "null") {
            None
        } else {
            Some(Element { html: s.to_string() })
        },
        None => None,
    }
}

/// The elements that a script gave.
pub open spec fn elements_in(result: JsonView) -> Seq<Seq<char>> {
    crate::crawler::audit::texts_of(result, "value"@)
}

/// The sources of a list of elements.
pub open spec fn element_sources(list: Seq<Element>) -> Seq<Seq<char>> {
    list.map_values(|e: Element| e.html@)
}

/// The elements that a script gave.
pub fn read_elements(result: &serde_json::Value) -> (r: Vec<Element>)
    ensures
        element_sources(r@) == elements_in(json_view(*result)),
{
    let mut out: Vec<Element> = Vec::new();
    let items = match json_get(result, "value") {
        Some(v) => json_array(v),
        None => None,
    };
    match items {
        Some(items) => {
            let texts = crate::crawler::audit::text_items(items);
            let ghost all = views(texts@);
            let mut i: usize = 0;
            while i < texts.len()
                invariant
                    all == views(texts@),
                    i <= texts.len(),
                    element_sources(out@) =~= all.take(i as int),
                decreases texts.len() - i,
            {
                let ghost before = element_sources(out@);
                out.push(Element { html: texts[i].clone() });
                proof {
                    assert(element_sources(out@) =~= before.push(all[i as int]));
                }
                i += 1;
            }
            proof {
                assert(element_sources(out@) =~= all);
            }
        },
        None => {
            proof {
                assert(element_sources(out@) =~= Seq::<Seq<char>>::empty());
            }
        },
    }
    out
}

/// Name and value of a cookie: what stands before and after the first equals sign; a text
/// without one is no cookie.
pub open spec fn cookie_pair(text: Seq<char>) -> Option<(Seq<char>, Seq<char>)> {
    match first_at(text, "="@, 0) {
        Some(i) => Some((trimmed(text.take(i)), text.skip(i + 1))),
        None => None,
    }
}

/// Names and values of the cookies in a list of texts.
pub open spec fn cookie_pairs(list: Seq<Seq<char>>) -> Seq<(Seq<char>, Seq<char>)>
    decreases list.len(),
{
    if list.len() == 0 {
        Seq::empty()
    } else {
        let before = cookie_pairs(list.drop_last());
        match cookie_pair(list.last()) {
            Some(p) => before.push(p),
            None => before,
        }
    }
}

/// `list` are the cookies of those names and values, on this machine.
pub open spec fn are_cookies(list: Seq<Cookie>, pairs: Seq<(Seq<char>, Seq<char>)>) -> bool {
    &&& list.len() == pairs.len()
    &&& forall|i: int|
        0 <= i < list.len() ==> {
            &&& (#[trigger] list[i]).name@ == pairs[i].0
            &&& list[i].value@ == pairs[i].1
            &&& list[i].domain@ == "localhost"@
            &&& opt_view(list[i].path) == Some("/"@)
            &&& list[i].secure is None
            &&& list[i].http_only is None
        }
}

/// The cookie that a text gives, if it gives one.
fn read_cookie(text: &str) -> (r: Option<Cookie>)
    ensures
        match cookie_pair(text@) {
            Some(p) => r is Some && are_cookies(seq![r->0], seq![p]),
            None => r is None,
        },
{
    match find(text, "=") {
        Some(i) => {
            let x = chars_of(text);
            proof {
                reveal_strlit("=");
                assert("="@.len() == 1);
            }
            let head = text_of(&x, 0, i);
            let value = text_of(&x, i + 1, x.len());
            proof {
                assert(head@ =~= text@.take(i as int));
                assert(value@ =~= text@.skip(i + 1));
            }
            Some(
                Cookie {
                    name: trim(head.as_str()),
                    value,
                    domain: "localhost".to_string(),
                    path: Some("/".to_string()),
                    secure: None,
                    http_only: None,
                },
            )
        },
        None => None,
    }
}

/// The cookies that a page gives as one text.
pub fn read_cookies(text: &str) -> (r: Vec<Cookie>)
    ensures
        are_cookies(r@, cookie_pairs(text_pieces(text@, "; "@))),
{
    proof {
        reveal_strlit("; ");
    }
    let parts = split_text(text, "; ");
    let ghost all = text_pieces(text@, "; "@);
    let mut out: Vec<Cookie> = Vec::new();
    let mut i: usize = 0;
    proof {
        assert(all.take(0) =~= Seq::<Seq<char>>::empty());
    }
    while i < parts.len()
        invariant
            all == views(parts@),
            i <= parts.len(),
            are_cookies(out@, cookie_pairs(all.take(i as int))),
        decreases parts.len() - i,
    {
        proof {
            assert(all.take(i + 1).drop_last() =~= all.take(i as int));
            assert(all.take(i + 1).last() == parts@[i as int]@);
        }
        let ghost before = out@;
        let ghost pairs = cookie_pairs(all.take(i as int));
        match read_cookie(parts[i].as_str()) {
            Some(c) => {
                out.push(c);
                proof {
                    let p = cookie_pair(parts@[i as int]@)->0;
                    assert(are_cookies(seq![c], seq![p]));
                    assert(seq![c][0] == c);
                    assert(are_cookies(out@, pairs.push(p))) by {
                        assert forall|k: int| 0 <= k < out@.len() implies {
                            &&& (#[trigger] out@[k]).name@ == pairs.push(p)[k].0
                            &&& out@[k].value@ == pairs.push(p)[k].1
                            &&& out@[k].domain@ == "localhost"@
                            &&& opt_view(out@[k].path) == Some("/"@)
                            &&& out@[k].secure is None
                            &&& out@[k].http_only is None
                        } by {
                            if k < before.len() {
                                assert(out@[k] == before[k]);
                            } else {
                                assert(out@[k] == c);
                            }
                        }
                    }
                }
            },
            None => {},
        }
        i += 1;
    }
    proof {
        assert(all.take(i as int) =~= all);
    }
    out
}

/// The cookies of a page; `result` is what the script that reads them gave.
pub fn cookies_in(result: &serde_json::Value) -> (r: Vec<Cookie>)
    ensures
        are_cookies(
            r@,
            cookie_pairs(
                text_pieces(
                    match json_view(*result).text_of("value"@) {
                        Some(s) => s,
                        None => Seq::<char>::empty(),
                    },
                    "; "@,
                ),
            ),
        ),
{
    let text = value_text(result);
    read_cookies(text.as_str())
}

/// What the characters between single quotation marks stand for in a script; nothing where
/// they do not make up one literal.
pub open spec fn literal_text(s: Seq<char>) -> Option<Seq<char>>
    decreases s.len(),
{
    if s.len() == 0 {
        Some(Seq::empty())
    } else if s[0] == '\'' || s[0] == '\n' || s[0] == '\r' || (s[0] == '\\' && s.len() < 2) {
        None
    } else if s[0] == '\\' {
        match literal_text(s.skip(2)) {
            Some(t) => Some(
                seq![if s[1] == 'n' {
                    '\n'
                } else {
                    s[1]
                }] + t,
            ),
            None => None,
        }
    } else {
        match literal_text(s.skip(1)) {
            Some(t) => Some(seq![s[0]] + t),
            None => None,
        }
    }
}

/// Replacing a character goes part by part.
proof fn lemma_replaced_parts(a: Seq<char>, b: Seq<char>, from: char, to: Seq<char>)
    ensures
        replaced(a + b, from, to) == replaced(a, from, to) + replaced(b, from, to),
    decreases b.len(),
{
    if b.len() == 0 {
        assert(a + b =~= a);
        assert(replaced(a, from, to) + replaced(b, from, to) =~= replaced(a, from, to));
    } else {
        lemma_replaced_parts(a, b.drop_last(), from, to);
        assert((a + b).drop_last() =~= a + b.drop_last());
        assert(replaced(a + b, from, to) =~= replaced(a, from, to) + replaced(b, from, to));
    }
}

/// One character, replaced or not.
proof fn lemma_replaced_one(c: char, from: char, to: Seq<char>)
    ensures
        replaced(seq![c], from, to) == if c == from {
            to
        } else {
            seq![c]
        },
{
    reveal_with_fuel(replaced, 2);
    assert(seq![c].drop_last() =~= Seq::<char>::empty());
    assert(replaced(seq![c], from, to) =~= if c == from {
        to
    } else {
        seq![c]
    });
}

/// Two characters, neither of which is replaced.
proof fn lemma_replaced_none(a: char, b: char, from: char, to: Seq<char>)
    requires
        a != from,
        b != from,
    ensures
        replaced(seq![a, b], from, to) == seq![a, b],
{
    lemma_replaced_parts(seq![a], seq![b], from, to);
    lemma_replaced_one(a, from, to);
    lemma_replaced_one(b, from, to);
    assert(seq![a] + seq![b] =~= seq![a, b]);
}

/// How a text is escaped: its first character, then the rest.
proof fn lemma_quoted_text(c: char, rest: Seq<char>)
    ensures
        quoted_text(seq![c] + rest) == (if c == '\\' {
            seq!['\\', '\\']
        } else if c == '\'' {
            seq!['\\', '\'']
        } else if c == '\n' {
            seq!['\\', 'n']
        } else {
            seq![c]
        }) + quoted_text(rest),
{
    reveal_strlit("\\\\");
    reveal_strlit("\\'");
    reveal_strlit("\\n");
    let (b, q, n) = ("\\\\"@, "\\'"@, "\\n"@);
    assert(b =~= seq!['\\', '\\']);
    assert(q =~= seq!['\\', '\'']);
    assert(n =~= seq!['\\', 'n']);
    let one = seq![c];
    let b1 = replaced(one, '\\', b);
    let q1 = replaced(b1, '\'', q);
    lemma_replaced_parts(one, rest, '\\', b);
    lemma_replaced_parts(b1, replaced(rest, '\\', b), '\'', q);
    lemma_replaced_parts(q1, replaced(replaced(rest, '\\', b), '\'', q), '\n', n);
    lemma_replaced_one(c, '\\', b);
    lemma_replaced_one(c, '\'', q);
    lemma_replaced_one(c, '\n', n);
    lemma_replaced_none('\\', '\\', '\'', q);
    lemma_replaced_none('\\', '\\', '\n', n);
    lemma_replaced_none('\\', '\'', '\n', n);
}

/// A text that is typed by a script is the text that was given: between its quotation marks
/// it makes up one literal, which stands for it. A carriage return is not escaped.
pub proof fn typed_text_is_given(text: Seq<char>)
    requires
        !text.contains('\r'),
    ensures
        literal_text(quoted_text(text)) == Some(text),
    decreases text.len(),
{
    if text.len() == 0 {
        assert(text =~= Seq::<char>::empty());
        assert(quoted_text(text) =~= Seq::<char>::empty());
    } else {
        let (c, rest) = (text[0], text.skip(1));
        assert(text =~= seq![c] + rest);
        assert(!rest.contains('\r')) by {
            if rest.contains('\r') {
                let k = choose|k: int| 0 <= k < rest.len() && rest[k] == '\r';
                assert(text[k + 1] == '\r');
            }
        }
        typed_text_is_given(rest);
        lemma_quoted_text(c, rest);
        let q = quoted_text(text);
        let tail = quoted_text(rest);
        assert(text.contains(c));
        if c == '\\' || c == '\'' || c == '\n' {
            assert(q.skip(2) =~= tail);
        } else {
            assert(q.skip(1) =~= tail);
        }
    }
}

/// A command carries its number, its method, its parameters and its session, and an evaluation
/// carries its script and asks for the value itself.
pub proof fn commands_carry_what_is_asked(
    id: u64,
    method: Seq<char>,
    params: JsonView,
    session_id: Seq<char>,
    script: Seq<char>,
    key: Seq<char>,
)
    ensures
        session_command(id, method, params, session_id).natural_of("id"@) == Some(id),
        session_command(id, method, params, session_id).text_of("method"@) == Some(method),
        session_command(id, method, params, session_id).member("params"@) == Some(params),
        session_command(id, method, params, session_id).text_of("sessionId"@) == Some(session_id),
        JsonView::Object(plain_request(id, method, params)).natural_of("id"@) == Some(id),
        JsonView::Object(plain_request(id, method, params)).text_of("method"@) == Some(method),
        JsonView::Object(plain_request(id, method, params)).member("params"@) == Some(params),
        JsonView::Object(plain_request(id, method, params)).member("sessionId"@) is None,
        JsonView::Object(evaluation(script)).text_of("expression"@) == Some(script),
        JsonView::Object(evaluation(script)).member("returnByValue"@) == Some(JsonView::Bool(true)),
        text_member(key, script).text_of(key) == Some(script),
        async_script(script) == "(async () => { "@ + script + " })()"@,
{
    reveal_strlit("id");
    reveal_strlit("method");
    reveal_strlit("params");
    reveal_strlit("sessionId");
    reveal_strlit("expression");
    reveal_strlit("returnByValue");
    assert("id"@.len() == 2 && "method"@.len() == 6 && "params"@.len() == 6 && "sessionId"@.len()
        == 9 && "expression"@.len() == 10 && "returnByValue"@.len() == 13);
    assert("method"@[0] == 'm' && "params"@[0] == 'p');
}

/// Commands are numbered one after the other.
pub proof fn numbers_follow_one_another(n: u64)
    ensures
        n < u64::MAX ==> following(n) == n + 1,
        following(n) != n,
{
}

/// A message answers a command exactly if it has its number. It says that the command failed
/// exactly if it has an error, and gives the result otherwise; a message about anything else is
/// passed over.
pub proof fn replies_answer_their_command(message: JsonView, id: u64, method: Seq<char>)
    ensures
        answers_to(message, id) <==> message.natural_of("id"@) == Some(id),
        message.natural_of("id"@) != Some(id) ==> reply_in(message, id, method) == ReplyView::Other,
        message.natural_of("id"@) == Some(id) && message.member("error"@) is Some ==> reply_in(
            message,
            id,
            method,
        ) == ReplyView::Failed(
            "CDP error: "@ + written_json(message.member("error"@)->0) + " method="@ + method,
        ),
        message.natural_of("id"@) == Some(id) && message.member("error"@) is None
            && message.member("result"@) is Some ==> reply_in(message, id, method)
            == ReplyView::Result(message.member("result"@)->0),
        message.natural_of("id"@) == Some(id) && message.member("error"@) is None
            && message.member("result"@) is None ==> reply_in(message, id, method)
            == ReplyView::Result(JsonView::Null),
{
}

/// A page is there once the browser says that it was loaded, or answers the command without an
/// error; it is not to be had where the answer has one. Any other message says nothing.
pub proof fn navigation_ends_by_event_or_answer(message: JsonView, id: u64)
    ensures
        message.text_of("method"@) == Some("Page.loadEventFired"@) ==> navigation_in(message, id)
            == NavigationView::Arrived,
        message.text_of("method"@) != Some("Page.loadEventFired"@) && message.natural_of("id"@)
            == Some(id) && message.member("error"@) is None ==> navigation_in(message, id)
            == NavigationView::Arrived,
        message.text_of("method"@) != Some("Page.loadEventFired"@) && message.natural_of("id"@)
            == Some(id) && message.member("error"@) is Some ==> navigation_in(message, id)
            == NavigationView::Failed(
            "Page navigation error: "@ + written_json(message.member("error"@)->0),
        ),
        message.text_of("method"@) != Some("Page.loadEventFired"@) && message.natural_of("id"@)
            != Some(id) ==> navigation_in(message, id) == NavigationView::Pending,
{
}

/// The first target that is announced is taken, or else the one that the answer to the request
/// names; the session is the one that is attached to this target. A message that says neither
/// changes nothing.
pub proof fn attachment_learns_target_and_session(a: AttachmentView, message: JsonView)
    ensures
        after_message(a, message).id == a.id,
        a.target_id is None && message.text_of("method"@) == Some("Target.targetCreated"@)
            && target_in(message) is Some ==> after_message(a, message).target_id == target_in(
            message,
        ),
        a.target_id is None && message.text_of("method"@) != Some("Target.targetCreated"@)
            && message.natural_of("id"@) == Some(a.id) ==> after_message(a, message).target_id
            == text_within(message, "result"@, "targetId"@),
        a.target_id is Some && message.text_of("method"@) == Some("Target.attachedToTarget"@)
            && target_in(message) == a.target_id ==> after_message(a, message).session_id
            == text_within(message, "params"@, "sessionId"@),
        message.text_of("method"@) != Some("Target.targetCreated"@) && message.text_of("method"@)
            != Some("Target.attachedToTarget"@) && message.natural_of("id"@) != Some(a.id)
            ==> after_message(a, message) == a,
        message.text_of("method"@) == Some("Target.attachedToTarget"@) && target_in(message)
            != a.target_id ==> after_message(a, message).session_id == a.session_id,
{
    reveal_strlit("Target.targetCreated");
    reveal_strlit("Target.attachedToTarget");
    assert("Target.targetCreated"@.len() == 20 && "Target.attachedToTarget"@.len() == 23);
}

/// What a message is about stands in its parameters.
pub proof fn messages_name_their_target(
    message: JsonView,
    params: JsonView,
    info: JsonView,
    outer: Seq<char>,
    inner: Seq<char>,
)
    ensures
        message.member("params"@) == Some(params) && params.member("targetInfo"@) == Some(info)
            ==> target_in(message) == info.text_of("targetId"@),
        message.member("params"@) is None ==> target_in(message) is None,
        message.member(outer) == Some(params) ==> text_within(message, outer, inner)
            == params.text_of(inner),
        message.member(outer) is None ==> text_within(message, outer, inner) is None,
{
}

/// A cookie is split at its first equals sign: what stands before it, without the white space
/// around it, is the name, and all that stands behind it the value. What has no such sign is no
/// cookie.
pub proof fn cookies_are_split_at_the_first_sign(name: Seq<char>, value: Seq<char>, text: Seq<char>)
    requires
        !name.contains('='),
    ensures
        cookie_pair(name + seq!['='] + value) == Some((trimmed(name), value)),
        !text.contains('=') ==> cookie_pair(text) is None,
{
    reveal_strlit("=");
    let whole = name + seq!['='] + value;
    assert("="@ =~= seq!['=']);
    lemma_first_sign(whole, 0, name.len() as int);
    assert(whole.take(name.len() as int) =~= name);
    assert(whole.skip(name.len() as int + 1) =~= value);
    if !text.contains('=') {
        lemma_no_sign(text, 0);
    }
}

proof fn lemma_first_sign(whole: Seq<char>, from: int, at: int)
    requires
        0 <= from <= at < whole.len(),
        whole[at] == '=',
        forall|i: int| from <= i < at ==> #[trigger] whole[i] != '=',
    ensures
        first_at(whole, seq!['='], from) == Some(at),
    decreases at - from,
{
    let part = whole.subrange(from, from + 1);
    assert(part[0] == whole[from]);
    if from < at {
        assert(part[0] != '=');
        lemma_first_sign(whole, from + 1, at);
    } else {
        assert(part =~= seq!['=']);
    }
}

proof fn lemma_no_sign(text: Seq<char>, from: int)
    requires
        0 <= from <= text.len(),
        !text.contains('='),
    ensures
        first_at(text, seq!['='], from) is None,
    decreases text.len() - from,
{
    if from < text.len() {
        let part = text.subrange(from, from + 1);
        assert(part[0] == text[from]);
        assert(text[from] != '=');
        lemma_no_sign(text, from + 1);
    }
}

/// An element is found exactly if the page gives its text, one that is not empty and not `null`.
pub proof fn elements_are_given_by_their_text(result: JsonView, s: Seq<char>)
    ensures
        result.text_of("value"@) == Some(s) && s.len() > 0 && s != "null"@ ==> element_in(result)
            == Some(s),
        result.text_of("value"@) is None || result.text_of("value"@) == Some("null"@)
            ==> element_in(result) is None,
        result.text_of("value"@) is Some && result.text_of("value"@)->0.len() == 0 ==> element_in(
            result,
        ) is None,
{
}

/// The contents of an attachment are all that its fields hold.
pub proof fn attachment_is_what_it_holds(a: Attachment)
    ensures
        a@.id == a.id,
        a.target_id is Some ==> a@.target_id == Some(a.target_id->0@),
        a.target_id is None ==> a@.target_id is None,
        a.session_id is Some ==> a@.session_id == Some(a.session_id->0@),
        a.session_id is None ==> a@.session_id is None,
{
}

/// The cookies of a list are read in their order, and what is no cookie is left out.
pub proof fn cookies_are_read_in_order(a: Seq<Seq<char>>, b: Seq<Seq<char>>, text: Seq<char>)
    ensures
        cookie_pairs(a + b) == cookie_pairs(a) + cookie_pairs(b),
        cookie_pair(text) is Some ==> cookie_pairs(seq![text]) == seq![cookie_pair(text)->0],
        cookie_pair(text) is None ==> cookie_pairs(seq![text]).len() == 0,
    decreases b.len(),
{
    assert(seq![text].drop_last() =~= Seq::<Seq<char>>::empty());
    assert(cookie_pairs(Seq::empty()) =~= Seq::<(Seq<char>, Seq<char>)>::empty());
    if cookie_pair(text) is Some {
        assert(cookie_pairs(seq![text]) =~= seq![cookie_pair(text)->0]);
    }
    if b.len() == 0 {
        assert(a + b =~= a);
    } else {
        cookies_are_read_in_order(a, b.drop_last(), text);
        assert((a + b).drop_last() =~= a + b.drop_last());
        assert((a + b).last() == b.last());
    }
    assert(cookie_pairs(a + b) =~= cookie_pairs(a) + cookie_pairs(b));
}

/// A cookie that was read has its name and value, and belongs to the root of this machine.
pub proof fn read_cookies_belong_here(list: Seq<Cookie>, pairs: Seq<(Seq<char>, Seq<char>)>, i: int)
    requires
        are_cookies(list, pairs),
        0 <= i < pairs.len(),
    ensures
        list.len() == pairs.len(),
        list[i].name@ == pairs[i].0 && list[i].value@ == pairs[i].1,
        list[i].domain@ == "localhost"@,
        list[i].path is Some && list[i].path->0@ == "/"@,
        list[i].secure is None && list[i].http_only is None,
{
    assert(list[i].name@ == pairs[i].0);
}

/// A selector stands in a script with its quotation marks escaped, and a text with its
/// backslashes, quotation marks and line breaks escaped; the rest stands as it is.
pub proof fn quoting_escapes_marks(a: Seq<char>, b: Seq<char>, c: char)
    ensures
        quoted_selector(a + b) == quoted_selector(a) + quoted_selector(b),
        quoted_selector(seq!['\'']) == "\\'"@,
        c != '\'' ==> quoted_selector(seq![c]) == seq![c],
        c != '\'' && c != '\\' && c != '\n' ==> quoted_text(seq![c]) == seq![c],
{
    crate::text::replacing_goes_by_character(a, b, c, '\'', "\\'"@);
    if c != '\'' && c != '\\' && c != '\n' {
        crate::text::replacing_goes_by_character(a, b, c, '\\', "\\\\"@);
        crate::text::replacing_goes_by_character(a, b, c, '\n', "\\n"@);
    }
}

} // verus!
