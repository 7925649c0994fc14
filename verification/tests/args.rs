use khora::args::{duration_overflows, parse_duration, WindowSize};
use std::str::FromStr;
use std::time::Duration;

#[test]
fn parse_duration_seconds() {
    assert_eq!(
        Duration::from_secs(parse_duration("0s").unwrap()),
        Duration::from_secs(0)
    );
    assert_eq!(
        Duration::from_secs(parse_duration("30s").unwrap()),
        Duration::from_secs(30)
    );
}

#[test]
fn parse_duration_minutes() {
    assert_eq!(
        Duration::from_secs(parse_duration("30m").unwrap()),
        Duration::from_secs(1800)
    );
}

#[test]
fn parse_duration_hours() {
    assert_eq!(
        Duration::from_secs(parse_duration("2h").unwrap()),
        Duration::from_secs(7200)
    );
    assert_eq!(
        Duration::from_secs(parse_duration("24h").unwrap()),
        Duration::from_secs(86400)
    );
}

#[test]
fn parse_duration_rejects_bad_input() {
    assert!(parse_duration("").is_err());
    assert!(parse_duration("30").is_err());
    assert!(parse_duration("abcm").is_err());
    assert!(parse_duration("30d").is_err());
}

#[test]
fn parse_duration_error_messages() {
    assert_eq!(parse_duration("").unwrap_err(), "empty duration");
    assert_eq!(
        parse_duration("30d").unwrap_err(),
        "unsupported unit in \"30d\" — use s, m, or h"
    );
    assert_eq!(
        parse_duration("abcm").unwrap_err(),
        "invalid number \"abc\" in duration \"abcm\""
    );
    assert_eq!(
        parse_duration("m").unwrap_err(),
        "invalid number \"\" in duration \"m\""
    );
}

#[test]
fn parse_duration_accepts_plus_and_leading_zeros() {
    assert_eq!(parse_duration("+5s").unwrap(), 5);
    assert_eq!(parse_duration("007m").unwrap(), 420);
    assert!(parse_duration("-5s").is_err());
    assert!(parse_duration("+s").is_err());
}

#[test]
fn parse_duration_round_trips_every_unit() {
    for n in [0u64, 1, 9, 10, 59, 12345] {
        assert_eq!(parse_duration(&format!("{n}s")).unwrap(), n);
        assert_eq!(parse_duration(&format!("{n}m")).unwrap(), n * 60);
        assert_eq!(parse_duration(&format!("{n}h")).unwrap(), n * 3600);
    }
}

#[test]
fn duration_overflow_is_detected() {
    assert!(!duration_overflows("30m"));
    assert!(!duration_overflows("18446744073709551615s"));
    assert!(duration_overflows("18446744073709551615m"));
    assert!(duration_overflows("5124095576030432h"));
    assert!(!duration_overflows("5124095576030431h"));
    assert!(!duration_overflows("99999999999999999999999s"));
    assert!(!duration_overflows("xyz"));
    assert_eq!(
        parse_duration("5124095576030431h").unwrap(),
        5124095576030431 * 3600
    );
}

#[test]
fn parse_window_size_valid() {
    assert_eq!(
        WindowSize::from_str("1920x1080").unwrap(),
        WindowSize {
            width: 1920,
            height: 1080
        }
    );
    assert_eq!(
        WindowSize::from_str("800x600").unwrap(),
        WindowSize {
            width: 800,
            height: 600
        }
    );
    assert_eq!(
        WindowSize::from_str("1x1").unwrap(),
        WindowSize {
            width: 1,
            height: 1
        }
    );
}

#[test]
fn parse_window_size_rejects_missing_x() {
    assert!(WindowSize::from_str("1920").is_err());
}

#[test]
fn parse_window_size_rejects_non_numeric() {
    assert!(WindowSize::from_str("abc").is_err());
    assert!(WindowSize::from_str("1920xabc").is_err());
    assert!(WindowSize::from_str("abcx1080").is_err());
}

#[test]
fn parse_window_size_rejects_empty() {
    assert!(WindowSize::from_str("").is_err());
}

#[test]
fn parse_window_size_rejects_zero() {
    assert!(WindowSize::from_str("0x0").is_err());
    assert!(WindowSize::from_str("1920x0").is_err());
    assert!(WindowSize::from_str("0x1080").is_err());
}

#[test]
fn parse_window_size_rejects_wrong_separator() {
    assert!(WindowSize::from_str("1920X1080").is_err()); // capital X
    assert!(WindowSize::from_str("1920*1080").is_err());
    assert!(WindowSize::from_str("1920,1080").is_err());
}

#[test]
fn parse_window_size_error_messages() {
    assert_eq!(
        WindowSize::parse("1920").unwrap_err(),
        "expected WxH (e.g. 1920x1080), got: 1920"
    );
    assert_eq!(WindowSize::parse("abcx1080").unwrap_err(), "invalid width: abc");
    assert_eq!(WindowSize::parse("1920xabc").unwrap_err(), "invalid height: abc");
    assert_eq!(
        WindowSize::parse("0x0").unwrap_err(),
        "dimensions must be > 0, got: 0x0"
    );
    assert_eq!(
        WindowSize::parse("4294967296x1").unwrap_err(),
        "invalid width: 4294967296"
    );
    assert_eq!(
        WindowSize::parse("1x2x3").unwrap_err(),
        "invalid height: 2x3"
    );
}

#[test]
fn parse_window_size_largest() {
    assert_eq!(
        WindowSize::parse("4294967295x+7").unwrap(),
        WindowSize {
            width: u32::MAX,
            height: 7
        }
    );
}

#[test]
fn display_window_size_round_trip() {
    let w = WindowSize {
        width: 1920,
        height: 1080,
    };
    assert_eq!(w.to_string(), "1920x1080");
    assert_eq!(WindowSize::from_str(&w.to_string()).unwrap(), w);
}

#[test]
fn window_size_round_trip_many() {
    for (width, height) in [(1, 1), (10, 100), (390, 844), (u32::MAX, 1), (65536, 9)] {
        let w = WindowSize { width, height };
        assert_eq!(WindowSize::parse(&w.to_string()).unwrap(), w);
    }
}
