use kapollo::action::{KeyCode, KeyEvent, KeyModifiers, MouseButton, MouseEvent, MouseEventKind};
use kapollo::config::Color;
use kapollo::term::{color_to_sgr, encode_key, encode_mouse, shell_single_quote, synthetic_bytes};

#[test]
fn color_to_sgr_maps_named_and_special() {
    assert_eq!(color_to_sgr(Color::Red), "\x1b[31m");
    assert_eq!(color_to_sgr(Color::LightBlue), "\x1b[94m");
    assert_eq!(color_to_sgr(Color::Indexed(200)), "\x1b[38;5;200m");
    assert_eq!(color_to_sgr(Color::Rgb(1, 2, 3)), "\x1b[38;2;1;2;3m");
    assert_eq!(color_to_sgr(Color::Reset), "");
}

#[test]
fn synthetic_bytes_echoes_prompt_and_output_with_crlf() {
    let bytes = synthetic_bytes('λ', Color::Red, false, true, "/help", "line1\nline2");
    let s = String::from_utf8(bytes).unwrap();
    assert_eq!(s, "λ /help\r\nline1\r\nline2\r\n");
}

#[test]
fn synthetic_bytes_prepends_newline_when_not_at_col0() {
    let bytes = synthetic_bytes('λ', Color::Red, false, false, "/x", "out");
    let s = String::from_utf8(bytes).unwrap();
    assert_eq!(s, "\r\nλ /x\r\nout\r\n");
}

#[test]
fn synthetic_bytes_styles_prompt_when_color_enabled() {
    let bytes = synthetic_bytes('λ', Color::Red, true, true, "/help", "out");
    let s = String::from_utf8(bytes).unwrap();
    assert_eq!(s, "\x1b[31mλ\x1b[0m /help\r\nout\r\n");
}

#[test]
fn synthetic_bytes_normalizes_trailing_newlines() {
    let bytes = synthetic_bytes('λ', Color::Red, false, true, "/help", "out\n\n");
    let s = String::from_utf8(bytes).unwrap();
    assert_eq!(s, "λ /help\r\nout\r\n");
}

#[test]
fn synthetic_bytes_with_empty_output_has_one_empty_line() {
    let s = String::from_utf8(synthetic_bytes('>', Color::Reset, false, true, "c", "")).unwrap();
    assert_eq!(s, "> c\r\n\r\n");
}

#[test]
fn app_keys_encode_like_a_terminal() {
    let k = |code, mods| encode_key(KeyEvent::new(code, mods));
    assert_eq!(k(KeyCode::Char('c'), KeyModifiers::control()), Some(vec![3]));
    assert_eq!(k(KeyCode::Char('Z'), KeyModifiers::control()), Some(vec![26]));
    assert_eq!(k(KeyCode::Char('1'), KeyModifiers::control()), Some(b"1".to_vec()));
    assert_eq!(k(KeyCode::Char('é'), KeyModifiers::none()), Some("é".as_bytes().to_vec()));
    assert_eq!(k(KeyCode::Enter, KeyModifiers::none()), Some(vec![b'\r']));
    assert_eq!(k(KeyCode::PageDown, KeyModifiers::none()), Some(b"\x1b[6~".to_vec()));
    assert_eq!(k(KeyCode::Insert, KeyModifiers::none()), None);
}

#[test]
fn mouse_events_become_sgr_reports() {
    let m = |kind, column, row| MouseEvent { kind, column, row, modifiers: KeyModifiers::none() };
    assert_eq!(encode_mouse(m(MouseEventKind::Down(MouseButton::Left), 0, 0)), Some(b"\x1b[<0;1;1M".to_vec()));
    assert_eq!(encode_mouse(m(MouseEventKind::Up(MouseButton::Right), 9, 4)), Some(b"\x1b[<2;10;5m".to_vec()));
    assert_eq!(encode_mouse(m(MouseEventKind::Drag(MouseButton::Middle), 1, 2)), Some(b"\x1b[<33;2;3M".to_vec()));
    assert_eq!(encode_mouse(m(MouseEventKind::ScrollDown, 65535, 0)), Some(b"\x1b[<65;65536;1M".to_vec()));
    assert_eq!(encode_mouse(m(MouseEventKind::Moved, 1, 1)), None);
}

#[test]
fn single_quote_escapes_quotes() {
    assert_eq!(shell_single_quote("/tmp/a b"), "'/tmp/a b'");
    assert_eq!(shell_single_quote("it's"), "'it'\\''s'");
    assert_eq!(shell_single_quote(""), "''");
}
