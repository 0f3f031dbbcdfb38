use kapollo::action::{KeyCode, KeyEvent, KeyModifiers};
use kapollo::input::pad::InputPad;
use kapollo::input::selection::InputSelection;
use kapollo::session::Block;
use kapollo::ui::divider::rule;
use kapollo::ui::input_pad::input_lines;
use kapollo::ui::passthrough::{encode_key, forward_stdin, reset_bytes};
use kapollo::ui::transcript::{expand_tabs, lines};
use kapollo::ui::input_pad_height;

fn key(code: KeyCode) -> KeyEvent {
    KeyEvent::new(code, KeyModifiers::none())
}

#[test]
fn printable_chars_pass_through_verbatim() {
    assert_eq!(encode_key(key(KeyCode::Char('q'))), Some(b"q".to_vec()));
}

#[test]
fn enter_becomes_carriage_return() {
    assert_eq!(encode_key(key(KeyCode::Enter)), Some(vec![b'\r']));
}

#[test]
fn arrows_become_csi_sequences() {
    assert_eq!(encode_key(key(KeyCode::Up)), Some(b"\x1b[A".to_vec()));
    assert_eq!(encode_key(key(KeyCode::Left)), Some(b"\x1b[D".to_vec()));
}

#[test]
fn ctrl_letters_become_control_bytes() {
    let ctrl_c = KeyEvent::new(KeyCode::Char('c'), KeyModifiers::control());
    assert_eq!(encode_key(ctrl_c), Some(vec![0x03]));
}

#[test]
fn passthrough_extras() {
    assert_eq!(encode_key(key(KeyCode::BackTab)), Some(b"\x1b[Z".to_vec()));
    assert_eq!(encode_key(key(KeyCode::Insert)), Some(b"\x1b[2~".to_vec()));
    assert_eq!(encode_key(key(KeyCode::F(1))), None);
    assert_eq!(forward_stdin(b"\x1b]11;rgb:0/0/0\x07"), b"\x1b]11;rgb:0/0/0\x07");
    assert_eq!(reset_bytes(), b"\x1b[0m\x1b[?25h".to_vec());
}

#[test]
fn rule_fills_the_width() {
    assert_eq!(rule(3), "───");
    assert_eq!(rule(0), "");
}

#[test]
fn tabs_expand_to_the_next_stop() {
    assert_eq!(expand_tabs("a\tb", 0), "a       b");
    assert_eq!(expand_tabs("\t", 2), "      ");
    assert_eq!(expand_tabs("ab", 5), "ab");
    assert_eq!(expand_tabs("\t\t", 8), "                ");
}

#[test]
fn pad_height_is_clamped() {
    let mut pad = InputPad::new();
    assert_eq!(input_pad_height(&pad), 1);
    pad.set_contents("a\nb\nc");
    assert_eq!(input_pad_height(&pad), 3);
    pad.set_contents(&"x\n".repeat(30));
    assert_eq!(input_pad_height(&pad), 10);
}

#[test]
fn transcript_lines_show_command_output_and_markers() {
    let mut a = Block::new(1, "echo\thi".to_string(), 0, 0);
    a.push_output(b"hi\r\n\tx\n");
    let mut b = Block::new(2, "vim".to_string(), 2, 0);
    b.push_output(b"abc");
    b.state = kapollo::session::BlockState::Interactive;
    let ls = lines(&[a, b], 'λ');
    let texts: Vec<(Option<char>, String)> = ls.into_iter().map(|l| (l.prompt, l.text)).collect();
    assert_eq!(
        texts,
        vec![
            (Some('λ'), "echo  hi".to_string()),
            (None, "hi".to_string()),
            (None, "        x".to_string()),
            (None, String::new()),
            (Some('λ'), "vim".to_string()),
            (None, "… output truncated …".to_string()),
            (None, "bc".to_string()),
            (None, "[interactive program]".to_string()),
        ]
    );
}

#[test]
fn input_lines_split_around_the_selection() {
    let sel = InputSelection { anchor: 5, caret: 2 };
    let ls = input_lines("abc\ndef", Some(sel));
    let v: Vec<(String, String, String)> = ls.into_iter().map(|l| (l.before, l.selected, l.after)).collect();
    assert_eq!(
        v,
        vec![
            ("ab".to_string(), "c".to_string(), String::new()),
            (String::new(), "d".to_string(), "ef".to_string()),
        ]
    );
    let none = input_lines("abc", Some(InputSelection { anchor: 1, caret: 1 }));
    assert_eq!(none[0].before, "abc");
    assert_eq!(none[0].selected, "");
}
