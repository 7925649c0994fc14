use khora::error::KhoraError;
use khora::json::{get, JsonNumber, JsonValue};
use khora::page::{
    attribute_reply, clip_reply, click_script, content_url, element_reply, fallback_page,
    find_elements_script, first_content_page, found_reply, get_attribute_script,
    navigation_poll, text_reply, type_text_script, wait_for_script, wait_gone_script, wait_poll, Poll,
    CLICK_0, CLICK_1,
};

fn obj(members: Vec<(&str, JsonValue)>) -> JsonValue {
    JsonValue::Object(members.into_iter().map(|(k, v)| (k.to_string(), v)).collect())
}

fn s(x: &str) -> JsonValue {
    JsonValue::Str(x.to_string())
}

fn n(x: u64) -> JsonValue {
    JsonValue::Number(JsonNumber {
        as_u64: Some(x),
        text: x.to_string(),
    })
}

#[test]
fn scripts_embed_json_literals() {
    let sel = "a[href=\"x\"]";
    assert_eq!(
        click_script(sel),
        format!("{}{}{}", CLICK_0, "\"a[href=\\\"x\\\"]\"", CLICK_1)
    );
    assert!(find_elements_script("li").contains("document.querySelectorAll(\"li\")"));
    let typed = type_text_script("#q", "he said \"hi\"\n");
    assert_eq!(typed.matches("\"he said \\\"hi\\\"\\n\"").count(), 2);
    assert!(get_attribute_script("img", "src").contains("el.getAttribute(\"src\")"));
}

#[test]
fn scripts_quote_the_selector() {
    let script = wait_for_script("abc");
    assert!(script.contains("querySelector(\"abc\")"));
    assert!(!script.contains("querySelector(abc)"));
    assert!(wait_gone_script("a\"b").contains("querySelector(\"a\\\"b\")"));
}

#[test]
fn object_member_lookup() {
    let v = obj(vec![("found", JsonValue::Bool(true)), ("value", s("v"))]);
    assert!(matches!(get(&v, "found"), Some(JsonValue::Bool(true))));
    assert!(get(&v, "missing").is_none());
    assert!(get(&s("x"), "found").is_none());
}

#[test]
fn element_reply_reads_items() {
    let items = JsonValue::Array(vec![
        obj(vec![
            ("tag_name", s("button")),
            ("text", s("Go")),
            ("visible", JsonValue::Bool(true)),
            ("match_count", n(2)),
            ("match_index", n(0)),
        ]),
        obj(vec![("text", JsonValue::Null)]),
    ]);
    let els = element_reply(&items, "button").unwrap();
    assert_eq!(els.len(), 2);
    assert_eq!(els[0].selector, "button");
    assert_eq!(els[0].tag_name, "button");
    assert_eq!(els[0].text.as_deref(), Some("Go"));
    assert!(els[0].visible);
    assert_eq!(els[0].match_count, 2);
    assert_eq!(els[1].tag_name, "unknown");
    assert_eq!(els[1].text, None);
    assert!(!els[1].visible);
    assert_eq!(els[1].match_count, 0);
    assert_eq!(els[1].match_index, 0);
}

#[test]
fn element_reply_failures() {
    match element_reply(&JsonValue::Array(vec![]), "div") {
        Err(KhoraError::ElementNotFound(sel)) => assert_eq!(sel, "div"),
        other => panic!("unexpected {other:?}"),
    }
    match element_reply(&obj(vec![("error", s("bad"))]), "##") {
        Err(KhoraError::JavaScriptError(m)) => assert_eq!(m, "invalid selector \"##\": bad"),
        other => panic!("unexpected {other:?}"),
    }
    assert!(matches!(
        element_reply(&obj(vec![]), "div"),
        Err(KhoraError::ElementNotFound(_))
    ));
    assert!(matches!(
        element_reply(&JsonValue::Null, "div"),
        Err(KhoraError::ElementNotFound(_))
    ));
}

#[test]
fn found_and_attribute_replies() {
    assert!(found_reply(&obj(vec![("found", JsonValue::Bool(true))]), "a").is_ok());
    assert!(matches!(
        found_reply(&obj(vec![("found", JsonValue::Bool(false))]), "a"),
        Err(KhoraError::ElementNotFound(_))
    ));
    assert!(matches!(
        found_reply(
            &obj(vec![("found", JsonValue::Bool(false)), ("error", s("x"))]),
            "a"
        ),
        Err(KhoraError::JavaScriptError(_))
    ));
    let found_with = obj(vec![("found", JsonValue::Bool(true)), ("value", s("/home"))]);
    assert_eq!(attribute_reply(&found_with, "a").unwrap(), Some("/home".to_string()));
    let found_null = obj(vec![("found", JsonValue::Bool(true)), ("value", JsonValue::Null)]);
    assert_eq!(attribute_reply(&found_null, "a").unwrap(), None);
    assert!(attribute_reply(&obj(vec![]), "a").is_err());
}

#[test]
fn text_reply_cases() {
    let arr = JsonValue::Array(vec![s("a"), n(3), s("b")]);
    assert_eq!(text_reply(&arr, "p").unwrap(), vec!["a".to_string(), "b".to_string()]);
    assert!(matches!(
        text_reply(&JsonValue::Null, "p"),
        Err(KhoraError::ElementNotFound(_))
    ));
    assert!(matches!(
        text_reply(&obj(vec![("error", s("bad"))]), "p"),
        Err(KhoraError::JavaScriptError(_))
    ));
    assert_eq!(text_reply(&JsonValue::Bool(true), "p").unwrap(), vec!["true".to_string()]);
    assert_eq!(text_reply(&n(42), "p").unwrap(), vec!["42".to_string()]);
    assert_eq!(text_reply(&s("q\""), "p").unwrap(), vec!["\"q\\\"\"".to_string()]);
}

#[test]
fn clip_reply_cases() {
    assert!(clip_reply(&JsonValue::Array(vec![obj(vec![])]), "x").is_ok());
    assert!(matches!(
        clip_reply(&JsonValue::Array(vec![]), "x"),
        Err(KhoraError::ElementNotFound(_))
    ));
    assert!(matches!(
        clip_reply(&obj(vec![("error", s("e"))]), "x"),
        Err(KhoraError::JavaScriptError(_))
    ));
}

#[test]
fn wait_poll_rounds() {
    let found = obj(vec![("found", JsonValue::Bool(true))]);
    let not_found = obj(vec![("found", JsonValue::Bool(false))]);
    assert!(matches!(wait_poll(&found, "a", false, 9999, 10), Poll::Done(Ok(()))));
    assert!(matches!(wait_poll(&not_found, "a", false, 5, 10), Poll::Again));
    assert!(matches!(
        wait_poll(&not_found, "a", false, 10, 10),
        Poll::Done(Err(KhoraError::Timeout(10)))
    ));
    let gone = obj(vec![("gone", JsonValue::Bool(true))]);
    assert!(matches!(wait_poll(&gone, "a", true, 0, 10), Poll::Done(Ok(()))));
    assert!(matches!(wait_poll(&gone, "a", false, 0, 10), Poll::Again));
    let bad = obj(vec![("error", s("nope"))]);
    match wait_poll(&bad, "##", false, 0, 10) {
        Poll::Done(Err(KhoraError::JavaScriptError(m))) => {
            assert_eq!(m, "invalid selector \"##\": nope")
        }
        other => panic!("unexpected {other:?}"),
    }
}

#[test]
fn navigation_poll_rounds() {
    assert!(matches!(navigation_poll("complete", 0, 10), Poll::Done(Ok(()))));
    assert!(matches!(navigation_poll("interactive", 99, 10), Poll::Done(Ok(()))));
    assert!(matches!(navigation_poll("loading", 3, 10), Poll::Again));
    match navigation_poll("", 10, 10) {
        Poll::Done(Err(KhoraError::NavigationFailed(m))) => {
            assert_eq!(m, "timed out waiting for page load")
        }
        other => panic!("unexpected {other:?}"),
    }
}

#[test]
fn page_choice() {
    assert!(content_url("https://example.com"));
    assert!(!content_url("about:blank"));
    assert!(!content_url(""));
    assert!(!content_url("chrome://newtab/"));
    assert!(content_url("chrome:/x"));
    let urls = vec![
        Some("about:blank".to_string()),
        None,
        Some("https://a.test".to_string()),
        Some("https://b.test".to_string()),
    ];
    assert_eq!(first_content_page(&urls), Some(2));
    assert_eq!(first_content_page(&vec![Some("about:blank".to_string())]), None);
    assert_eq!(fallback_page(&vec![None, Some("about:blank".to_string())]), 0);
    assert_eq!(
        fallback_page(&vec![Some("about:blank".to_string()), Some("http://x".to_string())]),
        1
    );
}

#[test]
fn scripts_escape_every_character_class() {
    let sel = "a\"b\\c\u{8}\t\n\u{c}\r\u{1}\u{1f}é";
    let expected = "\"a\\\"b\\\\c\\b\\t\\n\\f\\r\\u0001\\u001fé\"";
    assert_eq!(click_script(sel), format!("{}{}{}", CLICK_0, expected, CLICK_1));
    // A selector that tries to close the literal stays inside it.
    let hostile = "\"); alert(1); (\"";
    let script = click_script(hostile);
    assert!(script.contains("querySelector(\"\\\"); alert(1); (\\\"\")"));
}
