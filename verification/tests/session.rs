use khora::error::KhoraError;
use khora::session::{
    age_threshold, load_and_verify, reap_action, reap_stale_sessions, session_file_name,
    ReapAction, SessionInfo,
};

fn make_session(id: &str, pid: u32, created_at: u64) -> SessionInfo {
    SessionInfo {
        id: id.to_string(),
        ws_url: "ws://127.0.0.1:9999/devtools/browser/test".to_string(),
        pid,
        headless: true,
        created_at,
        data_dir: None,
    }
}

#[test]
fn test_generate_id_not_empty() {
    let id = SessionInfo::generate_id();
    assert!(!id.is_empty());
}

#[test]
fn test_generate_id_unique() {
    let id1 = SessionInfo::generate_id();
    // Wait a couple of milliseconds so the clock moves on.
    let start = std::time::Instant::now();
    while start.elapsed() < std::time::Duration::from_millis(2) {}
    let id2 = SessionInfo::generate_id();
    assert_ne!(id1, id2);
}

#[test]
fn id_for_time_is_low_32_bits_then_suffix_in_hex() {
    assert_eq!(SessionInfo::id_for_time(0, 0), "00000");
    assert_eq!(SessionInfo::id_for_time(255, 0xab), "ff00ab");
    assert_eq!(SessionInfo::id_for_time(0x1_0000_0000, 0xffff), "0ffff");
    assert_eq!(SessionInfo::id_for_time(0x18c_4d2f_9a0b, 0x1234), "4d2f9a0b1234");
    assert_ne!(
        SessionInfo::id_for_time(1700000000000, 7),
        SessionInfo::id_for_time(1700000000001, 7)
    );
    assert_ne!(SessionInfo::id_for_time(1700000000000, 7), SessionInfo::id_for_time(1700000000000, 8));
}

#[test]
fn generated_ids_have_a_random_suffix() {
    let id = SessionInfo::generate_id();
    assert!(id.len() >= 5 && id.len() <= 12);
    assert!(id.chars().all(|c| c.is_ascii_digit() || ('a'..='f').contains(&c)));
    let ids: std::collections::HashSet<String> = (0..20).map(|_| SessionInfo::generate_id()).collect();
    assert!(ids.len() > 1, "ids made within one millisecond still differ");
}

#[test]
fn session_file_names() {
    assert_eq!(session_file_name("abc"), "abc.json");
}

#[test]
fn load_and_verify_cases() {
    let live = load_and_verify("s1", Ok(make_session("s1", 42, 0)), true).unwrap();
    assert_eq!(live.id, "s1");
    match load_and_verify("s1", Ok(make_session("s1", 42, 0)), false) {
        Err(KhoraError::SessionDead(id)) => assert_eq!(id, "s1"),
        other => panic!("unexpected {other:?}"),
    }
    assert!(load_and_verify("s1", Ok(make_session("s1", 0, 0)), false).is_ok());
    match load_and_verify("zz", Err(KhoraError::SessionNotFound("zz".into())), true) {
        Err(KhoraError::SessionNotFound(id)) => assert_eq!(id, "zz"),
        other => panic!("unexpected {other:?}"),
    }
}

#[test]
fn auto_reap_picks_dead_sessions() {
    let sessions = vec![
        make_session("live", 10, 0),
        make_session("dead", 11, 0),
        make_session("unknown", 0, 0),
        make_session("dead2", 12, 0),
    ];
    let alive = vec![true, false, false, false];
    let reaped = reap_stale_sessions(&sessions, &alive);
    let ids: Vec<&str> = reaped.iter().map(|s| s.id.as_str()).collect();
    assert_eq!(ids, vec!["dead", "dead2"]);
    assert!(reap_stale_sessions(&sessions, &vec![true; 4]).is_empty());
}

#[test]
fn reap_decisions() {
    let s = make_session("a", 10, 100);
    assert_eq!(reap_action(&s, true, false, None), ReapAction::Keep);
    assert_eq!(reap_action(&s, false, false, None), ReapAction::Discard);
    assert_eq!(reap_action(&s, true, true, None), ReapAction::Close);
    assert_eq!(reap_action(&s, true, false, Some(100)), ReapAction::Close);
    assert_eq!(reap_action(&s, true, false, Some(99)), ReapAction::Keep);
    let unknown = make_session("b", 0, 100);
    assert_eq!(reap_action(&unknown, false, false, None), ReapAction::Keep);
    assert_eq!(age_threshold(1000, Some(0)), Some(1000));
    assert_eq!(age_threshold(1000, Some(7200)), Some(0));
    assert_eq!(age_threshold(1000, None), None);
}

#[test]
fn auto_reap_removes_dead_pid_session() {
    // The process behind the session has exited.
    let session = make_session("test-dead-reap", 4242, 0);
    let reaped = reap_stale_sessions(&vec![session], &vec![false]);
    assert_eq!(reaped.len(), 1, "dead-pid session should have been reaped");
    assert_eq!(reaped[0].id, "test-dead-reap");
}

#[test]
fn auto_reap_preserves_live_pid_session() {
    let session = make_session("test-live-reap", 4243, 0);
    let reaped = reap_stale_sessions(&vec![session], &vec![true]);
    assert!(reaped.is_empty(), "live-pid session should be preserved");
}
