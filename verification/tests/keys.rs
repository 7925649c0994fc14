use khora::error::KhoraError;
use khora::keys::{key_event, key_info, parse_key_combo};

fn combo_error(combo: &str) -> String {
    match parse_key_combo(combo) {
        Err(KhoraError::InvalidKeyCombo(m)) => m,
        other => panic!("expected InvalidKeyCombo, got {other:?}"),
    }
}

#[test]
fn parse_key_combo_modifier_bits() {
    assert_eq!(parse_key_combo("Cmd+D").unwrap(), (4, "D".to_string()));
    assert_eq!(parse_key_combo("Ctrl+Shift+I").unwrap(), (10, "I".to_string()));
    assert_eq!(parse_key_combo("Escape").unwrap(), (0, "Escape".to_string()));
    assert_eq!(
        parse_key_combo("alt+option+control+command+meta+shift+x").unwrap(),
        (15, "x".to_string())
    );
    assert_eq!(parse_key_combo(" Cmd + Shift + D ").unwrap(), (12, "D".to_string()));
    assert_eq!(parse_key_combo("Cmd++D").unwrap(), (4, "D".to_string()));
}

#[test]
fn parse_key_combo_errors() {
    assert_eq!(combo_error(""), "empty combo: \"\"");
    assert_eq!(combo_error(" + "), "empty combo: \" + \"");
    assert_eq!(combo_error("Hyper+D"), "unknown modifier \"hyper\" in \"Hyper+D\"");
    assert_eq!(
        combo_error("Foo+Bar+D"),
        "unknown modifier \"foo\" in \"Foo+Bar+D\""
    );
}

#[test]
fn key_info_letters_digits_and_named_keys() {
    assert_eq!(
        key_info("D").unwrap(),
        ("d".to_string(), "KeyD".to_string(), 68)
    );
    assert_eq!(
        key_info("d").unwrap(),
        ("d".to_string(), "KeyD".to_string(), 68)
    );
    assert_eq!(
        key_info("7").unwrap(),
        ("7".to_string(), "Digit7".to_string(), 55)
    );
    assert_eq!(
        key_info("Space").unwrap(),
        (" ".to_string(), "Space".to_string(), 32)
    );
    assert_eq!(
        key_info("ESC").unwrap(),
        ("Escape".to_string(), "Escape".to_string(), 27)
    );
    assert_eq!(
        key_info("left").unwrap(),
        ("ArrowLeft".to_string(), "ArrowLeft".to_string(), 37)
    );
    assert_eq!(
        key_info("PageDown").unwrap(),
        ("PageDown".to_string(), "PageDown".to_string(), 34)
    );
    assert!(key_info("F1").is_none());
    assert!(key_info("/").is_none());
    assert!(key_info("é").is_none());
}

#[test]
fn key_event_shift_uppercases_letters_only() {
    let ev = key_event("Shift+d").unwrap();
    assert_eq!(ev.modifiers, 8);
    assert_eq!(ev.key, "D");
    assert_eq!(ev.code, "KeyD");
    assert_eq!(ev.virtual_key, 68);

    let ev = key_event("Cmd+D").unwrap();
    assert_eq!(ev.modifiers, 4);
    assert_eq!(ev.key, "d");

    let ev = key_event("Shift+1").unwrap();
    assert_eq!(ev.key, "1");
    assert_eq!(ev.code, "Digit1");

    let ev = key_event("Shift+Space").unwrap();
    assert_eq!(ev.key, " ");

    let ev = key_event("Enter").unwrap();
    assert_eq!(ev.modifiers, 0);
    assert_eq!(ev.key, "Enter");
    assert_eq!(ev.virtual_key, 13);
}

#[test]
fn key_event_unsupported_key() {
    match key_event("Ctrl+F13") {
        Err(KhoraError::InvalidKeyCombo(m)) => {
            assert_eq!(m, "unsupported key \"F13\" in \"Ctrl+F13\"")
        }
        other => panic!("expected InvalidKeyCombo, got {other:?}"),
    }
}

#[test]
fn key_event_ignores_letter_case() {
    for (a, b) in [
        ("CMD+SHIFT+D", "cmd+shift+d"),
        ("Ctrl+Enter", "CTRL+ENTER"),
        ("Alt+PageUp", "alt+pageup"),
    ] {
        let x = key_event(a).unwrap();
        let y = key_event(b).unwrap();
        assert_eq!(
            (x.modifiers, x.key, x.code, x.virtual_key),
            (y.modifiers, y.key, y.code, y.virtual_key)
        );
    }
}

#[test]
fn modifier_order_and_repeats_do_not_matter() {
    for combo in ["Ctrl+Shift+I", "Shift+Ctrl+I", "Shift+Ctrl+Shift+I", "control+SHIFT+ctrl+I"] {
        assert_eq!(parse_key_combo(combo).unwrap(), (10, "I".to_string()), "{combo}");
        let ev = key_event(combo).unwrap();
        assert_eq!((ev.modifiers, ev.key.as_str(), ev.code.as_str()), (10, "I", "KeyI"));
    }
    assert_eq!(parse_key_combo("Ctrl+Ctrl+I").unwrap(), (2, "I".to_string()));
}
