use khora::error::KhoraError;

#[test]
fn test_exit_code_chrome_not_found() {
    assert_eq!(KhoraError::ChromeNotFound.exit_code(), 2);
}

#[test]
fn test_exit_code_timeout() {
    assert_eq!(KhoraError::Timeout(5000).exit_code(), 3);
}

#[test]
fn test_exit_code_session_not_found() {
    assert_eq!(KhoraError::SessionNotFound("abc".into()).exit_code(), 4);
}

#[test]
fn test_exit_code_session_dead() {
    assert_eq!(KhoraError::SessionDead("abc".into()).exit_code(), 4);
}

#[test]
fn test_exit_code_defaults_to_1() {
    assert_eq!(KhoraError::ElementNotFound("x".into()).exit_code(), 1);
    assert_eq!(KhoraError::NavigationFailed("x".into()).exit_code(), 1);
    assert_eq!(KhoraError::LaunchFailed("x".into()).exit_code(), 1);
    assert_eq!(KhoraError::ScreenshotFailed("x".into()).exit_code(), 1);
    assert_eq!(KhoraError::JavaScriptError("x".into()).exit_code(), 1);
    assert_eq!(KhoraError::Cdp("x".into()).exit_code(), 1);
}

#[test]
fn test_display_messages() {
    assert_eq!(
        KhoraError::ElementNotFound("div.btn".into()).to_string(),
        "element not found: div.btn"
    );
    assert_eq!(
        KhoraError::Timeout(3000).to_string(),
        "timed out after 3000ms"
    );
    assert_eq!(
        KhoraError::ChromeNotFound.to_string(),
        "Chrome not found — install Chrome or set CHROME_PATH"
    );
}

#[test]
fn other_error_messages_and_codes() {
    assert_eq!(
        KhoraError::SessionNotFound("s1".into()).to_string(),
        "session not found: s1"
    );
    assert_eq!(
        KhoraError::SessionDead("s1".into()).to_string(),
        "session expired or Chrome process died: s1"
    );
    assert_eq!(KhoraError::Io("file missing".into()).to_string(), "file missing");
    assert_eq!(KhoraError::Io("x".into()).exit_code(), 1);
    assert_eq!(
        KhoraError::Serialization("bad".into()).to_string(),
        "serialization error: bad"
    );
    assert_eq!(KhoraError::Serialization("bad".into()).exit_code(), 1);
    assert_eq!(
        KhoraError::InvalidKeyCombo("k".into()).to_string(),
        "invalid key combo: k"
    );
    assert_eq!(KhoraError::InvalidKeyCombo("k".into()).exit_code(), 1);
    assert_eq!(KhoraError::Timeout(0).to_string(), "timed out after 0ms");
    assert_eq!(KhoraError::Cdp("boom".into()).to_string(), "CDP error: boom");
}

#[test]
fn test_io_error_conversion() {
    let io_err = std::io::Error::new(std::io::ErrorKind::NotFound, "file missing");
    let khora_err = KhoraError::Io(io_err.to_string());
    assert_eq!(khora_err.exit_code(), 1);
    assert!(khora_err.to_string().contains("file missing"));
}
