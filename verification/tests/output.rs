use khora::element::{ConsoleMessage, ElementInfo, NetworkRequest, RoundedBox};
use khora::output::{
    format_console, format_elements, format_network, format_session, format_sessions,
    format_text, OutputFormat,
};
use khora::session::SessionInfo;

fn sample_session() -> SessionInfo {
    SessionInfo {
        id: "abc123".to_string(),
        ws_url: "ws://127.0.0.1:9222/devtools/browser/abc".to_string(),
        pid: 12345,
        headless: true,
        created_at: 1700000000,
        data_dir: None,
    }
}

fn rounded(x: &str, y: &str, width: &str, height: &str) -> RoundedBox {
    RoundedBox {
        x: x.to_string(),
        y: y.to_string(),
        width: width.to_string(),
        height: height.to_string(),
    }
}

#[test]
fn test_format_session_text() {
    let output = format_session(&sample_session(), OutputFormat::Text).unwrap();
    assert!(output.contains("abc123"));
    assert!(output.contains("12345"));
    assert!(output.contains("true"));
}

#[test]
fn format_session_text_exact() {
    assert_eq!(
        format_session(&sample_session(), OutputFormat::Text).unwrap(),
        "Session: abc123\nPID: 12345\nHeadless: true\nWebSocket: ws://127.0.0.1:9222/devtools/browser/abc"
    );
    assert!(format_session(&sample_session(), OutputFormat::Json).is_none());
}

#[test]
fn test_format_sessions_empty() {
    assert_eq!(
        format_sessions(&vec![], OutputFormat::Text).unwrap(),
        "No active sessions."
    );
}

#[test]
fn format_sessions_table() {
    let mut second = sample_session();
    second.id = "a-much-longer-session-id".to_string();
    second.pid = 7;
    second.headless = false;
    let out = format_sessions(&vec![sample_session(), second], OutputFormat::Text).unwrap();
    let expected = format!(
        "{:<12} {:<8} {:<10} {}\n{:<12} {:<8} {:<10} {}\n{:<12} {:<8} {:<10} {}",
        "SESSION",
        "PID",
        "HEADLESS",
        "WEBSOCKET",
        "abc123",
        12345,
        true,
        "ws://127.0.0.1:9222/devtools/browser/abc",
        "a-much-longer-session-id",
        7,
        false,
        "ws://127.0.0.1:9222/devtools/browser/abc"
    );
    assert_eq!(out, expected);
    assert!(format_sessions(&vec![sample_session()], OutputFormat::Json).is_none());
}

#[test]
fn test_format_elements_text_empty() {
    assert_eq!(
        format_elements(&vec![], OutputFormat::Text).unwrap(),
        "No elements found."
    );
}

#[test]
fn test_format_elements_text() {
    let elements = vec![ElementInfo {
        selector: "button.submit".to_string(),
        tag_name: "button".to_string(),
        text: Some("Submit".to_string()),
        bounding_box: Some(rounded("10", "20", "100", "40")),
        visible: true,
        match_count: 1,
        match_index: 0,
    }];
    let output = format_elements(&elements, OutputFormat::Text).unwrap();
    assert!(output.contains("<button>"));
    assert!(output.contains("\"Submit\""));
    assert!(output.contains("100x40 at 10,20"));
}

#[test]
fn format_elements_lines_exact() {
    let long = "a".repeat(70);
    let elements = vec![
        ElementInfo {
            selector: "li".to_string(),
            tag_name: "li".to_string(),
            text: Some(long.clone()),
            bounding_box: None,
            visible: false,
            match_count: 3,
            match_index: 0,
        },
        ElementInfo {
            selector: "li".to_string(),
            tag_name: "li".to_string(),
            text: Some(String::new()),
            bounding_box: Some(rounded("0", "-5", "12", "8")),
            visible: true,
            match_count: 3,
            match_index: 2,
        },
        ElementInfo {
            selector: "li".to_string(),
            tag_name: "li".to_string(),
            text: Some("é".repeat(30)),
            bounding_box: None,
            visible: true,
            match_count: 1,
            match_index: 0,
        },
    ];
    let out = format_elements(&elements, OutputFormat::Text).unwrap();
    let expected = format!(
        "<li> \"{}...\" [1/3]\n<li> [3/3] (12x8 at 0,-5)\n<li> \"{}\"",
        "a".repeat(57),
        "é".repeat(30)
    );
    assert_eq!(out, expected);
    assert!(format_elements(&elements, OutputFormat::Json).is_none());
}

#[test]
fn test_format_console_empty() {
    assert_eq!(
        format_console(&vec![], OutputFormat::Text).unwrap(),
        "No console messages."
    );
}

#[test]
fn test_format_console_text() {
    let messages = vec![ConsoleMessage {
        level: "error".to_string(),
        text: "Uncaught TypeError".to_string(),
    }];
    let output = format_console(&messages, OutputFormat::Text).unwrap();
    assert!(output.contains("[error]"));
    assert!(output.contains("Uncaught TypeError"));
}

#[test]
fn format_console_two_lines() {
    let messages = vec![
        ConsoleMessage {
            level: "log".to_string(),
            text: "a".to_string(),
        },
        ConsoleMessage {
            level: "warn".to_string(),
            text: "b c".to_string(),
        },
    ];
    assert_eq!(
        format_console(&messages, OutputFormat::Text).unwrap(),
        "[log] a\n[warn] b c"
    );
    assert!(format_console(&messages, OutputFormat::Json).is_none());
}

#[test]
fn test_format_network_empty() {
    assert_eq!(
        format_network(&vec![], OutputFormat::Text).unwrap(),
        "No network requests."
    );
}

#[test]
fn test_format_network_text() {
    let requests = vec![NetworkRequest {
        url: "https://example.com/api".to_string(),
        method: "GET".to_string(),
        status: Some(200),
        resource_type: Some("fetch".to_string()),
    }];
    let output = format_network(&requests, OutputFormat::Text).unwrap();
    assert!(output.contains("GET"));
    assert!(output.contains("200"));
    assert!(output.contains("https://example.com/api"));
}

#[test]
fn format_network_table_exact() {
    let requests = vec![
        NetworkRequest {
            url: "https://example.com/api".to_string(),
            method: "GET".to_string(),
            status: Some(200),
            resource_type: Some("fetch".to_string()),
        },
        NetworkRequest {
            url: "/submit".to_string(),
            method: "OPTIONS".to_string(),
            status: None,
            resource_type: None,
        },
    ];
    let out = format_network(&requests, OutputFormat::Text).unwrap();
    assert_eq!(
        out,
        "METHOD STATUS TYPE         URL\nGET    200    fetch        https://example.com/api\nOPTIONS -      -            /submit"
    );
}

#[test]
fn test_format_text_items() {
    let texts = vec!["Hello".to_string(), "World".to_string()];
    assert_eq!(format_text(&texts, OutputFormat::Text), "Hello\nWorld");
}

#[test]
fn format_text_empty_and_json() {
    assert_eq!(format_text(&vec![], OutputFormat::Text), "");
    assert_eq!(format_text(&vec![], OutputFormat::Json), "[]");
    assert_eq!(
        format_text(&vec!["a\"b".to_string(), "c".to_string()], OutputFormat::Json),
        "[\n  \"a\\\"b\",\n  \"c\"\n]"
    );
}

#[test]
fn test_format_text_json() {
    let texts = vec!["Hello".to_string()];
    let output = format_text(&texts, OutputFormat::Json);
    let parsed: serde_json::Value = serde_json::from_str(&output).unwrap();
    assert!(parsed.is_array());
    assert_eq!(parsed[0], "Hello");
}

#[test]
fn format_text_json_escapes_and_lays_out() {
    let texts = vec!["tab\there".to_string(), "\u{1}".to_string(), "é".to_string()];
    assert_eq!(
        format_text(&texts, OutputFormat::Json),
        "[\n  \"tab\\there\",\n  \"\\u0001\",\n  \"é\"\n]"
    );
}
