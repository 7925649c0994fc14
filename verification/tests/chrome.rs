use khora::chrome::{
    chrome_binary_names, data_dir_name, find_chrome, first_present, launch_flags,
    platform_chrome_candidates, platform_chrome_path, select_chrome, windows_chrome_suffixes,
    Platform,
};
use khora::error::KhoraError;

fn strings(v: &[&str]) -> Vec<String> {
    v.iter().map(|s| s.to_string()).collect()
}

#[test]
fn test_chrome_binary_names_not_empty() {
    assert!(!chrome_binary_names().is_empty());
}

#[test]
fn test_platform_chrome_path_macos() {
    // Just verify the lookup runs.
    let candidates = strings(&platform_chrome_candidates(Platform::MacOs));
    let _result = platform_chrome_path(&candidates);
}

#[test]
fn candidate_lists() {
    assert_eq!(
        platform_chrome_candidates(Platform::Linux)[0],
        "/usr/bin/google-chrome"
    );
    assert_eq!(platform_chrome_candidates(Platform::MacOs).len(), 5);
    assert!(platform_chrome_candidates(Platform::Windows).is_empty());
    assert!(platform_chrome_candidates(Platform::Other).is_empty());
    assert_eq!(
        windows_chrome_suffixes()[0],
        "Google\\Chrome\\Application\\chrome.exe"
    );
    assert_eq!(chrome_binary_names()[4], "chrome");
}

#[test]
fn platform_path_finds_existing_file() {
    let exe = "/".to_string();
    let candidates = vec!["/nonexistent/chrome/path/xyz".to_string(), exe.clone()];
    assert_eq!(platform_chrome_path(&candidates), Some(exe));
    assert_eq!(
        platform_chrome_path(&vec!["/nonexistent/chrome/path/xyz".to_string()]),
        None
    );
}

#[test]
fn first_present_order() {
    let c = strings(&["a", "b", "c"]);
    assert_eq!(first_present(&c, &vec![false, true, true]), Some("b".to_string()));
    assert_eq!(first_present(&c, &vec![false, false, false]), None);
}

#[test]
fn select_chrome_order() {
    assert_eq!(
        select_chrome(Some("env".into()), true, Some("inst".into()), &vec![Some("w".into())]).unwrap(),
        "env"
    );
    assert_eq!(
        select_chrome(Some("env".into()), false, Some("inst".into()), &vec![]).unwrap(),
        "inst"
    );
    assert_eq!(
        select_chrome(None, false, None, &vec![None, Some("w".into())]).unwrap(),
        "w"
    );
    assert!(matches!(
        select_chrome(Some("env".into()), false, None, &vec![None]),
        Err(KhoraError::ChromeNotFound)
    ));
}

#[test]
fn test_find_chrome_respects_env_var() {
    // A path that exists on every Unix system stands in for the binary.
    let test_path = "/".to_string();
    let result = find_chrome(Some(test_path.clone()), &vec![]);
    assert!(result.is_ok());
    assert_eq!(result.unwrap(), test_path);
}

#[test]
fn test_find_chrome_ignores_nonexistent_env() {
    let result = find_chrome(Some("/nonexistent/chrome/path/xyz".to_string()), &vec![]);
    // Either some other Chrome is found or none is; the missing path is never used.
    if let Ok(path) = &result {
        assert_ne!(path, "/nonexistent/chrome/path/xyz");
    }
}

#[test]
fn launch_settings() {
    assert_eq!(launch_flags().len(), 6);
    assert_eq!(launch_flags()[0], "--disable-extensions");
    assert_eq!(launch_flags()[5], "--disable-backgrounding-occluded-windows");
    assert_eq!(data_dir_name(0), "khora-chrome-0");
    assert_eq!(
        data_dir_name(1_700_000_000_123_456_789),
        "khora-chrome-1700000000123456789"
    );
}

#[test]
fn path_lookup_finds_a_binary_name() {
    if let Ok(p) = find_chrome(None, &vec![]) {
        let lower = p.to_ascii_lowercase();
        assert!(chrome_binary_names().iter().any(|n| lower.contains(n)));
    }
}
