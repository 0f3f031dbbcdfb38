use kapollo::input::{
    InputHistory, InputMode, InputPad, InputSelection, InputSnapshot, LaatOutcome, LaatState,
};

#[test]
fn edge_recall_stashes_draft_and_restores_it() {
    let mut history = InputHistory::new();
    history.push("old");
    assert_eq!(history.edge_recall_older("draft"), Some("old"));
    assert_eq!(history.stash(), Some("draft"));
    assert_eq!(history.edge_recall_newer().as_deref(), Some("draft"));
    assert_eq!(history.stash(), None);
}

#[test]
fn edge_recall_older_walks_without_re_stashing() {
    let mut history = InputHistory::new();
    history.push("first");
    history.push("second");
    assert_eq!(history.edge_recall_older("draft"), Some("second"));
    assert_eq!(history.edge_recall_older("ignored"), Some("first"));
    assert_eq!(history.stash(), Some("draft"));
}

#[test]
fn edge_recall_older_on_empty_history_is_none() {
    let mut history = InputHistory::new();
    assert_eq!(history.edge_recall_older("draft"), None);
    assert_eq!(history.stash(), None);
}

#[test]
fn edge_recall_newer_when_not_recalling_is_none() {
    let mut history = InputHistory::new();
    history.push("old");
    assert_eq!(history.edge_recall_newer(), None);
}

#[test]
fn newline_does_not_submit_and_grows_lines() {
    let mut pad = InputPad::new();
    pad.insert_char('a');
    pad.insert_newline();
    pad.insert_char('b');
    assert_eq!(pad.as_str(), "a\nb");
    assert_eq!(pad.line_count(), 2);
}

#[test]
fn cursor_insertion_and_backspace() {
    let mut pad = InputPad::new();
    for c in "abc".chars() {
        pad.insert_char(c);
    }
    pad.move_left();
    pad.insert_char('X');
    assert_eq!(pad.as_str(), "abXc");
    pad.backspace();
    assert_eq!(pad.as_str(), "abc");
}

#[test]
fn take_submit_returns_buffer_and_clears() {
    let mut pad = InputPad::new();
    pad.set_contents("line1\nline2");
    assert_eq!(pad.take_submit(), "line1\nline2");
    assert!(pad.is_empty());
}

#[test]
fn history_recall_walks_older_then_newer() {
    let mut history = InputHistory::new();
    history.push("first");
    history.push("second");
    assert_eq!(history.recall_older(), Some("second"));
    assert_eq!(history.recall_older(), Some("first"));
    assert_eq!(history.recall_older(), Some("first"));
    assert_eq!(history.recall_newer(), Some("second"));
    assert_eq!(history.recall_newer(), Some(""));
    assert_eq!(history.recall_newer(), None);
}

#[test]
fn empty_history_recall_is_none() {
    let mut history = InputHistory::new();
    assert_eq!(history.recall_older(), None);
    assert_eq!(history.recall_newer(), None);
}

#[test]
fn mode_labels_are_the_status_strings() {
    assert_eq!(InputMode::Norm.label(), "norm");
    assert_eq!(InputMode::Mult.label(), "Mult");
    assert_eq!(InputMode::Laat.label(), "1T");
}

#[test]
fn toggle_mult_laat_transitions() {
    assert_eq!(InputMode::Norm.toggled_mult_laat(false), InputMode::Mult);
    assert_eq!(InputMode::Mult.toggled_mult_laat(true), InputMode::Laat);
    assert_eq!(InputMode::Laat.toggled_mult_laat(true), InputMode::Mult);
    assert_eq!(InputMode::Mult.toggled_mult_laat(false), InputMode::Mult);
}

#[test]
fn caret_line_up_down_preserve_column_and_clamp() {
    let mut pad = InputPad::new();
    pad.set_contents("abc\nde\nfghi");
    assert!(pad.caret_on_last_line());
    pad.caret_line_up();
    assert_eq!(pad.cursor_row_col(), (1, 2));
    pad.caret_line_up();
    assert_eq!(pad.cursor_row_col(), (0, 2));
    assert!(pad.caret_on_first_line());
    pad.caret_line_up();
    assert_eq!(pad.cursor_row_col(), (0, 2));
}

#[test]
fn caret_motion_does_not_touch_history_or_buffer() {
    let mut pad = InputPad::new();
    pad.set_contents("a\nb");
    assert!(pad.caret_on_last_line());
    pad.caret_line_up();
    assert_eq!(pad.cursor_row_col(), (0, 1));
    assert_eq!(pad.as_str(), "a\nb");
}

#[test]
fn laat_exit_zero_advances_and_clears_flag() {
    let mut laat = LaatState::new();
    assert_eq!(laat.highlight, 0);
    laat.failed_lines.insert(1);
    laat.submit_line(1);
    assert_eq!(laat.apply_exit_code(Some(0)), Some(LaatOutcome::Advance));
    assert_eq!(laat.highlight, 2);
    assert!(!laat.is_failed(1));
    assert_eq!(laat.pending, None);
}

#[test]
fn laat_nonzero_flags_and_keeps_highlight() {
    let mut laat = LaatState::new();
    laat.highlight = 1;
    laat.submit_line(1);
    assert_eq!(laat.apply_exit_code(Some(7)), Some(LaatOutcome::Flag));
    assert_eq!(laat.highlight, 1);
    assert!(laat.is_failed(1));
    assert_eq!(laat.pending, None);
}

#[test]
fn laat_apply_with_nothing_pending_is_none() {
    let mut laat = LaatState::new();
    assert_eq!(laat.apply_exit_code(Some(0)), None);
}

#[test]
fn laat_missing_exit_code_advances() {
    let mut laat = LaatState::new();
    laat.submit_line(3);
    assert_eq!(laat.apply_exit_code(None), Some(LaatOutcome::Advance));
    assert_eq!(laat.highlight, 4);
}

#[test]
fn home_end_and_word_motion_stay_on_the_line() {
    let mut pad = InputPad::new();
    pad.set_contents("echo foo.bar\nls -la");
    pad.line_move_start();
    assert_eq!(pad.cursor(), 13);
    pad.line_move_end();
    assert_eq!(pad.cursor(), 19);
    pad.word_move_left();
    assert_eq!(pad.cursor(), 17);
    pad.caret_line_up();
    pad.word_move_left();
    assert_eq!(pad.cursor_row_col(), (0, 0));
    pad.word_move_right();
    assert_eq!(pad.cursor(), 4);
}

#[test]
fn kills_and_rubout_edit_the_current_line_only() {
    let mut pad = InputPad::new();
    pad.set_contents("one two\nthree four");
    pad.delete_word_before();
    assert_eq!(pad.as_str(), "one two\nthree ");
    pad.kill_to_line_start();
    assert_eq!(pad.as_str(), "one two\n");
    pad.caret_line_up();
    pad.kill_to_line_end();
    assert_eq!(pad.as_str(), "\n");
    let mut pad = InputPad::new();
    pad.set_contents("a\nbc\nd");
    pad.caret_line_up();
    pad.clear_current_line();
    assert_eq!(pad.as_str(), "a\n\nd");
    assert_eq!(pad.cursor(), 2);
}

#[test]
fn shift_selection_extends_and_copies() {
    let mut pad = InputPad::new();
    pad.set_contents("hello world");
    pad.select_word_left();
    pad.select_char_left();
    assert!(pad.has_selection());
    assert_eq!(pad.selected_text().as_deref(), Some(" world"));
    assert_eq!(pad.selection(), Some(InputSelection { anchor: 11, caret: 5 }));
    pad.select_char_right();
    assert_eq!(pad.selected_text().as_deref(), Some("world"));
    pad.move_left();
    assert!(!pad.has_selection());
    assert_eq!(pad.selected_text(), None);
}

#[test]
fn paste_normalizes_line_endings_without_submitting() {
    let mut pad = InputPad::new();
    pad.set_contents("[]");
    pad.move_left();
    pad.insert_paste("a\r\nb\rc");
    assert_eq!(pad.as_str(), "[a\nb\nc]");
    assert_eq!(pad.cursor(), 6);
    pad.insert_paste("");
    assert_eq!(pad.as_str(), "[a\nb\nc]");
}

#[test]
fn take_submit_strips_trailing_blank_lines_only() {
    let mut pad = InputPad::new();
    pad.set_contents("a\n\nb\n  \n\t");
    assert_eq!(pad.take_submit(), "a\n\nb");
    pad.set_contents("single  ");
    assert_eq!(pad.take_submit(), "single  ");
    pad.set_contents(" \n ");
    assert_eq!(pad.take_submit(), " ");
}

#[test]
fn line_text_and_caret_line_start() {
    let mut pad = InputPad::new();
    pad.set_contents("ab\ncd\nef");
    assert_eq!(pad.line_text(1), "cd");
    assert_eq!(pad.line_text(5), "");
    pad.set_caret_line_start(2);
    assert_eq!(pad.cursor(), 6);
    pad.set_caret_line_start(9);
    assert_eq!(pad.cursor(), 8);
    assert_eq!(pad.offset_row_col(4), (1, 1));
}

#[test]
fn snapshot_round_trip_restores_buffer_and_caret() {
    let mut pad = InputPad::new();
    pad.set_contents("draft\ntext");
    pad.caret_line_up();
    let snap = InputSnapshot::capture(&pad, InputMode::Mult, Some("x".to_string()), None);
    pad.clear();
    let (mode, stash, laat) = snap.restore(&mut pad);
    assert_eq!(pad.as_str(), "draft\ntext");
    assert_eq!(pad.cursor(), 4);
    assert_eq!(mode, InputMode::Mult);
    assert_eq!(stash.as_deref(), Some("x"));
    assert_eq!(laat, None);
}
