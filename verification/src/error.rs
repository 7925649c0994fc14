use vstd::prelude::*;
use vstd::string::*;
use crate::text::{dec, push_dec};

verus! {

/// Every failure a command can end with. Each carries the text that the
/// message shows after its fixed prefix.
#[derive(Debug)]
pub enum KhoraError {
    ElementNotFound(String),
    SessionNotFound(String),
    SessionDead(String),
    NavigationFailed(String),
    Timeout(u64),
    ScreenshotFailed(String),
    JavaScriptError(String),
    ChromeNotFound,
    LaunchFailed(String),
    InvalidKeyCombo(String),
    Cdp(String),
    /// An operating-system I/O failure; the text is the system's own message.
    Io(String),
    Serialization(String),
}

/// The process exit status for an error: 2 when Chrome cannot be found, 3 on a
/// timeout, 4 when the session is missing or dead, 1 otherwise.
pub open spec fn exit_code_of(e: KhoraError) -> i32 {
    match e {
        KhoraError::ChromeNotFound => 2,
        KhoraError::Timeout(_) => 3,
        KhoraError::SessionNotFound(_) => 4,
        KhoraError::SessionDead(_) => 4,
        _ => 1,
    }
}

/// The human-readable message of an error.
pub open spec fn message_of(e: KhoraError) -> Seq<char> {
    match e {
        KhoraError::ElementNotFound(s) => "element not found: "@ + s@,
        KhoraError::SessionNotFound(s) => "session not found: "@ + s@,
        KhoraError::SessionDead(s) => "session expired or Chrome process died: "@ + s@,
        KhoraError::NavigationFailed(s) => "navigation failed: "@ + s@,
        KhoraError::Timeout(ms) => "timed out after "@ + dec(ms as nat) + "ms"@,
        KhoraError::ScreenshotFailed(s) => "screenshot failed: "@ + s@,
        KhoraError::JavaScriptError(s) => "JavaScript error: "@ + s@,
        KhoraError::ChromeNotFound => "Chrome not found — install Chrome or set CHROME_PATH"@,
        KhoraError::LaunchFailed(s) => "Chrome launch failed: "@ + s@,
        KhoraError::InvalidKeyCombo(s) => "invalid key combo: "@ + s@,
        KhoraError::Cdp(s) => "CDP error: "@ + s@,
        KhoraError::Io(s) => s@,
        KhoraError::Serialization(s) => "serialization error: "@ + s@,
    }
}

/// `prefix` followed by `s`, as a new `String`.
fn prefixed(prefix: &str, s: &String) -> (r: String)
    ensures
        r@ == prefix@ + s@,
{
    let mut r = String::from_str(prefix);
    r.append(s.as_str());
    r
}

impl KhoraError {
    /// The process exit status for this error.
    pub fn exit_code(&self) -> (code: i32)
        ensures
            code == exit_code_of(*self),
            1 <= code <= 4,
    {
        match self {
            KhoraError::ChromeNotFound => 2,
            KhoraError::Timeout(_) => 3,
            KhoraError::SessionNotFound(_) | KhoraError::SessionDead(_) => 4,
            _ => 1,
        }
    }

    /// The human-readable message for this error.
    pub fn to_string(&self) -> (r: String)
        ensures
            r@ == message_of(*self),
    {
        match self {
            KhoraError::ElementNotFound(s) => prefixed("element not found: ", s),
            KhoraError::SessionNotFound(s) => prefixed("session not found: ", s),
            KhoraError::SessionDead(s) => prefixed("session expired or Chrome process died: ", s),
            KhoraError::NavigationFailed(s) => prefixed("navigation failed: ", s),
            KhoraError::Timeout(ms) => {
                let mut r = String::from_str("timed out after ");
                push_dec(&mut r, *ms as u128);
                r.append("ms");
                r
            },
            KhoraError::ScreenshotFailed(s) => prefixed("screenshot failed: ", s),
            KhoraError::JavaScriptError(s) => prefixed("JavaScript error: ", s),
            KhoraError::ChromeNotFound => String::from_str(
                "Chrome not found — install Chrome or set CHROME_PATH",
            ),
            KhoraError::LaunchFailed(s) => prefixed("Chrome launch failed: ", s),
            KhoraError::InvalidKeyCombo(s) => prefixed("invalid key combo: ", s),
            KhoraError::Cdp(s) => prefixed("CDP error: ", s),
            KhoraError::Io(s) => s.clone(),
            KhoraError::Serialization(s) => prefixed("serialization error: ", s),
        }
    }
}

/// Results whose failures are `KhoraError`s.
pub type KhoraResult<T> = Result<T, KhoraError>;

} // verus!
