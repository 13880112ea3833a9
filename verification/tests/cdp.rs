use serde_json::Value;
use webprobe::cdp::{
    clear_script, click_script, cookies_in, create_target_request, evaluate_async_params,
    evaluate_params, find_all_script, find_script, hear_navigation, hear_reply, next_id, no_params,
    read_cookies, read_element, read_elements, reply_timeout, send_keys_script, url_params,
    value_text, version_url, Attachment, CdpSession, Navigation, Reply, NO_SESSION, NO_TARGET,
};

fn json(text: &str) -> Value {
    serde_json::from_str(text).unwrap()
}

#[test]
fn numbers_follow_one_another() {
    let mut n = 1;
    assert_eq!((next_id(&mut n), next_id(&mut n), n), (1, 2, 3));
    let mut last = u64::MAX;
    assert_eq!((next_id(&mut last), last), (u64::MAX, 0));
    let mut session = CdpSession::new("ws://b".to_string(), "S1".to_string());
    assert_eq!((session.take_id(), session.take_id()), (1, 2));
}

#[test]
fn commands_carry_the_session() {
    let session = CdpSession::new("ws://b".to_string(), "S1".to_string());
    assert_eq!(
        session.command(7, "Page.navigate", url_params("http://x/\"q\"")),
        r#"{"id":7,"method":"Page.navigate","params":{"url":"http://x/\"q\""},"sessionId":"S1"}"#
    );
    assert_eq!(
        json(&session.command(1, "Page.enable", no_params())),
        json(r#"{"id":1,"method":"Page.enable","params":{},"sessionId":"S1"}"#)
    );
    assert_eq!(
        json(&create_target_request(3)),
        json(r#"{"id":3,"method":"Target.createTarget","params":{"url":"about:blank"}}"#)
    );
}

#[test]
fn scripts_are_evaluated_by_value() {
    assert_eq!(evaluate_params("1+1"), json(r#"{"expression":"1+1","returnByValue":true}"#));
    assert_eq!(
        evaluate_async_params("await f();", 5000),
        json(
            r#"{"expression":"(async () => { await f(); })()","returnByValue":true,
                "awaitPromise":true,"timeout":5000000000}"#
        )
    );
}

#[test]
fn replies_are_heard() {
    assert!(matches!(hear_reply("no json", 4, "M"), Reply::Other));
    assert!(matches!(hear_reply(r#"{"id":5,"result":{}}"#, 4, "M"), Reply::Other));
    assert!(matches!(hear_reply(r#"{"id":"4"}"#, 4, "M"), Reply::Other));
    match hear_reply(r#"{"id":4,"result":{"value":true}}"#, 4, "M") {
        Reply::Result(v) => assert_eq!(v, json(r#"{"value":true}"#)),
        other => panic!("{other:?}"),
    }
    match hear_reply(r#"{"id":4}"#, 4, "M") {
        Reply::Result(v) => assert_eq!(v, Value::Null),
        other => panic!("{other:?}"),
    }
    match hear_reply(r#"{"id":4,"result":1,"error":{"code":-1}}"#, 4, "Page.x") {
        Reply::Failed(why) => assert_eq!(why, "CDP error: {\"code\":-1} method=Page.x"),
        other => panic!("{other:?}"),
    }
    assert_eq!(reply_timeout("Page.x", 12), "CDP response timeout for Page.x id=12");
}

#[test]
fn navigation_arrives_or_fails() {
    assert!(matches!(hear_navigation("{", 2), Navigation::Pending));
    assert!(matches!(hear_navigation(r#"{"method":"Page.x"}"#, 2), Navigation::Pending));
    assert!(matches!(hear_navigation(r#"{"method":"Page.loadEventFired"}"#, 2), Navigation::Arrived));
    assert!(matches!(hear_navigation(r#"{"id":2,"result":{}}"#, 2), Navigation::Arrived));
    match hear_navigation(r#"{"id":2,"error":"gone"}"#, 2) {
        Navigation::Failed(why) => assert_eq!(why, "Page navigation error: \"gone\""),
        other => panic!("{other:?}"),
    }
}

#[test]
fn target_and_session_are_found() {
    let mut a = Attachment::begin(1);
    assert!(!a.hear("?"));
    assert!(!a.hear(r#"{"method":"Target.targetCreated","params":{"targetInfo":{"targetId":"T"}}}"#));
    assert!(!a.hear(r#"{"method":"Target.targetCreated","params":{"targetInfo":{"targetId":"U"}}}"#));
    assert_eq!(a.target_id.as_deref(), Some("T"));
    assert!(!a.hear(
        r#"{"method":"Target.attachedToTarget","params":{"sessionId":"X","targetInfo":{"targetId":"U"}}}"#
    ));
    assert!(a.session_id.is_none());
    assert!(a.hear(
        r#"{"method":"Target.attachedToTarget","params":{"sessionId":"S","targetInfo":{"targetId":"T"}}}"#
    ));
    let session = a.finish("ws://b").unwrap();
    assert_eq!((session.session_id.as_str(), session.ws_url.as_str()), ("S", "ws://b"));
}

#[test]
fn missing_target_or_session_is_told() {
    assert_eq!(Attachment::begin(1).finish("ws://b").unwrap_err(), NO_TARGET);
    let mut a = Attachment::begin(1);
    assert!(!a.hear(r#"{"id":2,"result":{"targetId":"Z"}}"#));
    assert!(!a.hear(r#"{"id":1,"result":{"targetId":"T"}}"#));
    assert_eq!(a.target_id.as_deref(), Some("T"));
    assert_eq!(a.finish("ws://b").unwrap_err(), NO_SESSION);
}

#[test]
fn page_scripts() {
    assert_eq!(
        find_script("a[title='x']"),
        r"(function() { var el = document.querySelector('a[title=\'x\']'); if (!el) return null; return el.outerHTML; })()"
    );
    assert_eq!(
        find_all_script("p"),
        "(function() { return Array.from(document.querySelectorAll('p')).map(el => el.outerHTML); })()"
    );
    assert_eq!(
        click_script("#b"),
        "(function() { var el = document.querySelector('#b'); if (el) el.click(); })()"
    );
    assert_eq!(
        clear_script("#b"),
        "(function() { var el = document.querySelector('#b'); if (el) { el.value = ''; el.dispatchEvent(new Event('input', {bubbles:true})); } })()"
    );
    assert_eq!(
        send_keys_script("#b", "it's\\\n"),
        r"(function() { var el = document.querySelector('#b'); if (el) { el.focus(); el.value = 'it\'s\\\n'; el.dispatchEvent(new Event('input', {bubbles:true})); el.dispatchEvent(new Event('change', {bubbles:true})); } })()"
    );
    assert_eq!(version_url("http://127.0.0.1:9222"), "http://127.0.0.1:9222/json/version");
}

#[test]
fn values_are_read() {
    assert_eq!(value_text(&json(r#"{"value":"u"}"#)), "u");
    assert_eq!(value_text(&json(r#"{"value":1}"#)), "");
    assert_eq!(value_text(&Value::Null), "");
    assert_eq!(read_element(&json(r#"{"value":"<p>"}"#)).unwrap().html, "<p>");
    for none in [r#"{"value":""}"#, r#"{"value":"null"}"#, r#"{"value":null}"#, "{}"] {
        assert!(read_element(&json(none)).is_none());
    }
    let list = read_elements(&json(r#"{"value":["<a>",1,"<b>"]}"#));
    assert_eq!(list.iter().map(|e| e.html.as_str()).collect::<Vec<_>>(), vec!["<a>", "<b>"]);
    assert!(read_elements(&json("{}")).is_empty());
}

#[test]
fn cookies_are_read() {
    let list = read_cookies("a=1;  b =x=y; nothing; =z");
    let pairs: Vec<(&str, &str)> = list.iter().map(|c| (c.name.as_str(), c.value.as_str())).collect();
    assert_eq!(pairs, vec![("a", "1"), ("b", "x=y"), ("", "z")]);
    assert_eq!(list[0].domain, "localhost");
    assert_eq!(list[0].path.as_deref(), Some("/"));
    assert!(list[0].secure.is_none() && list[0].http_only.is_none());
    assert!(read_cookies("").is_empty());
    assert_eq!(cookies_in(&json(r#"{"value":"k=v"}"#)).len(), 1);
    assert!(cookies_in(&json("{}")).is_empty());
}
