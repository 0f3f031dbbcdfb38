use kapollo::modes::{detect_mode, ModeEvent};

#[test]
fn detects_alt_screen_enter_and_exit() {
    assert_eq!(detect_mode(b"\x1b[?1049h"), vec![ModeEvent::AltScreenEnter]);
    assert_eq!(detect_mode(b"\x1b[?1049l"), vec![ModeEvent::AltScreenExit]);
}

#[test]
fn detects_legacy_alt_screen_modes() {
    assert_eq!(detect_mode(b"\x1b[?47h"), vec![ModeEvent::AltScreenEnter]);
    assert_eq!(detect_mode(b"\x1b[?1047l"), vec![ModeEvent::AltScreenExit]);
}

#[test]
fn detects_mouse_modes() {
    assert_eq!(detect_mode(b"\x1b[?1000h"), vec![ModeEvent::MouseEnable(1000)]);
    assert_eq!(detect_mode(b"\x1b[?1006l"), vec![ModeEvent::MouseDisable(1006)]);
}

#[test]
fn detects_multiple_params_in_one_sequence() {
    assert_eq!(
        detect_mode(b"\x1b[?1002;1006h"),
        vec![ModeEvent::MouseEnable(1002), ModeEvent::MouseEnable(1006)]
    );
}

#[test]
fn detects_events_interleaved_with_text() {
    let stream = b"hello\x1b[?1049hworld\x1b[?1000h\x1b[?1049lbye";
    assert_eq!(
        detect_mode(stream),
        vec![
            ModeEvent::AltScreenEnter,
            ModeEvent::MouseEnable(1000),
            ModeEvent::AltScreenExit,
        ]
    );
}

#[test]
fn ignores_non_private_and_unknown_modes() {
    assert_eq!(detect_mode(b"\x1b[2J"), vec![]);
    assert_eq!(detect_mode(b"\x1b[?25h"), vec![]);
    assert_eq!(detect_mode(b"plain text"), vec![]);
}

#[test]
fn ignores_truncated_sequences() {
    assert_eq!(detect_mode(b"\x1b[?1049"), vec![]);
    assert_eq!(detect_mode(b"\x1b[?"), vec![]);
    assert_eq!(detect_mode(b"\x1b"), vec![]);
}

#[test]
fn oversized_and_empty_fields_are_skipped() {
    assert_eq!(detect_mode(b"\x1b[?70000;;1003h"), vec![ModeEvent::MouseEnable(1003)]);
    assert_eq!(detect_mode(b"\x1b[?0001049h"), vec![ModeEvent::AltScreenEnter]);
}
