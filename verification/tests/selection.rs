use kapollo::selection::{extract_text, highlight_spans, last_nonblank_line, LeftPress, SelState, SelectionController, Trigger};

#[test]
fn mod_left_press_starts_drag_and_release_activates() {
    let mut s = SelectionController::new();
    assert_eq!(s.left_press((10, 2), false), LeftPress::StartedDrag);
    assert_eq!(s.state(), SelState::Dragging);
    s.drag_to((12, 5));
    s.release();
    assert_eq!(s.state(), SelState::Active);
    assert_eq!(s.range(), Some(((10, 2), (12, 5))));
}

#[test]
fn second_click_clears_active_selection() {
    let mut s = SelectionController::new();
    s.left_press((1, 1), false);
    s.release();
    assert!(s.is_active());
    assert_eq!(s.left_press((1, 1), false), LeftPress::Cancelled);
    assert_eq!(s.range(), None);
}

#[test]
fn on_command_submit_clears() {
    let mut s = SelectionController::new();
    s.left_press((2, 0), false);
    s.drag_to((2, 9));
    s.release();
    assert!(s.is_active());
    s.on_command_submit();
    assert_eq!(s.state(), SelState::Idle);
    assert_eq!(s.range(), None);
}

#[test]
fn mod_shift_forwards_to_child() {
    let mut s = SelectionController::new();
    assert_eq!(s.left_press((0, 0), true), LeftPress::ForwardToChild);
    assert_eq!(s.state(), SelState::Idle);
}

#[test]
fn reversed_drag_normalizes() {
    let mut s = SelectionController::new();
    s.left_press((9, 3), false);
    s.drag_to((4, 7));
    assert_eq!(s.range(), Some(((4, 7), (9, 3))));
}

#[test]
fn extract_text_single_row_is_char_exact() {
    let rows = vec![vec![
        "h".into(),
        "e".into(),
        "l".into(),
        "l".into(),
        "o".into(),
    ]];
    let text = extract_text(&rows, 100, (100, 1), (100, 3));
    assert_eq!(text, "ell");
}

#[test]
fn extract_text_multi_row_join_has_no_off_by_one() {
    let rows = vec![
        vec!["a".into(), "b".into(), "c".into()],
        vec!["d".into(), "e".into(), "f".into()],
        vec!["g".into(), "h".into(), "i".into()],
    ];
    let text = extract_text(&rows, 0, (0, 1), (2, 1));
    assert_eq!(text, "bc\ndef\ngh");
}

#[test]
fn extract_text_trims_and_skips_wide_continuations() {
    let rows = vec![vec!["世".into(), "".into(), "x".into(), " ".into(), " ".into()]];
    assert_eq!(extract_text(&rows, 0, (0, 0), (0, 4)), "世x");
    assert_eq!(extract_text(&Vec::<Vec<String>>::new(), 0, (0, 0), (0, 0)), "");
}

#[test]
fn ctrl_c_and_right_press_copy_then_deselect() {
    let mut s = SelectionController::new();
    assert_eq!(s.right_press(), Trigger::ContextMenu);
    s.left_press((3, 4), false);
    s.drag_to((1, 0));
    s.release();
    assert_eq!(s.ctrl_c(), Trigger::Copy((1, 0), (3, 4)));
    assert_eq!(s.ctrl_c(), Trigger::Sigint);
}

#[test]
fn highlight_spans_cover_the_visible_part() {
    assert_eq!(
        highlight_spans(3, 10, 5, (6, 2), (7, 20)),
        vec![None, Some((2, 9)), Some((0, 9))]
    );
    assert_eq!(
        highlight_spans(3, 10, 5, (1, 2), (6, 3)),
        vec![Some((0, 9)), Some((0, 3)), None]
    );
    assert_eq!(highlight_spans(2, 10, 5, (9, 0), (9, 3)), vec![None, None]);
}

#[test]
fn extract_text_takes_the_visible_part_of_an_off_screen_range() {
    let rows = vec![
        vec!["a".to_string(), "b".to_string(), "c".to_string()],
        vec!["d".to_string(), "e".to_string(), "f".to_string()],
    ];
    // starts above the viewport: the first row from column 0
    assert_eq!(extract_text(&rows, 10, (9, 2), (10, 0)), "a");
    // ends below it: the last row to its end
    assert_eq!(extract_text(&rows, 10, (11, 1), (12, 0)), "ef");
    // a reversed range on one row yields nothing
    assert_eq!(extract_text(&rows, 10, (10, 2), (10, 0)), "");
}

#[test]
fn last_nonblank_line_is_the_newest_row_with_text() {
    let row = |cells: &[&str]| cells.iter().map(|c| c.to_string()).collect::<Vec<String>>();
    let rows = vec![row(&["a", "b"]), row(&["c", " "]), row(&[" ", " "]), row(&[])];
    assert_eq!(last_nonblank_line(&rows), Some("c ".to_string()));
    assert_eq!(last_nonblank_line(&[row(&[" "]), row(&[])]), None);
    assert_eq!(last_nonblank_line(&[]), None);
}
