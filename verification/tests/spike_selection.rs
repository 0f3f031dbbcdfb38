use kapollo::spike::selection::{LeftPress, SelState, SelectionController, Trigger};
use kapollo::spike::{osc_args, row_col_span, Clipboard, Routing};
use kapollo::modes::ModeEvent;

#[test]
fn selection_left_press_starts_drag_and_release_activates() {
    let mut s = SelectionController::new();
    assert_eq!(s.left_press((10, 2), false), LeftPress::StartedDrag);
    assert_eq!(s.state(), SelState::Dragging);
    s.drag_to((12, 5));
    s.release();
    assert_eq!(s.state(), SelState::Active);
    assert_eq!(s.range(), Some(((10, 2), (12, 5))));
}

#[test]
fn release_does_not_copy() {
    let mut s = SelectionController::new();
    s.left_press((1, 1), false);
    s.release();
    assert!(s.is_active());
    assert!(s.range().is_some());
}

#[test]
fn second_left_press_cancels_active() {
    let mut s = SelectionController::new();
    s.left_press((1, 1), false);
    s.release();
    assert_eq!(s.left_press((4, 4), false), LeftPress::Cancelled);
    assert_eq!(s.state(), SelState::Idle);
    assert_eq!(s.range(), None);
}

#[test]
fn selection_shift_forwards_to_child() {
    let mut s = SelectionController::new();
    assert_eq!(s.left_press((0, 0), true), LeftPress::ForwardToChild);
    assert_eq!(s.state(), SelState::Idle);
}

#[test]
fn ctrl_c_sigint_when_idle_copy_when_active() {
    let mut s = SelectionController::new();
    assert_eq!(s.ctrl_c(), Trigger::Sigint);
    s.left_press((2, 0), false);
    s.drag_to((2, 9));
    s.release();
    assert_eq!(s.ctrl_c(), Trigger::Copy((2, 0), (2, 9)));
    assert_eq!(s.state(), SelState::Idle);
}

#[test]
fn right_press_menu_when_idle_copy_when_active() {
    let mut s = SelectionController::new();
    assert_eq!(s.right_press(), Trigger::ContextMenu);
    s.left_press((5, 1), false);
    s.release();
    assert_eq!(s.right_press(), Trigger::Copy((5, 1), (5, 1)));
    assert_eq!(s.state(), SelState::Idle);
}

#[test]
fn drag_with_reversed_endpoints_normalizes() {
    let mut s = SelectionController::new();
    s.left_press((9, 3), false);
    s.drag_to((4, 7));
    assert_eq!(s.range(), Some(((4, 7), (9, 3))));
}

#[test]
fn esc_cancels() {
    let mut s = SelectionController::new();
    s.left_press((1, 1), false);
    s.release();
    assert!(s.cancel());
    assert_eq!(s.state(), SelState::Idle);
    assert!(!s.cancel());
}

#[test]
fn routing_follows_the_last_transition() {
    let mut r = Routing::default();
    assert!(!r.override_active());
    r.apply(&[ModeEvent::AltScreenEnter, ModeEvent::MouseEnable(1000), ModeEvent::AltScreenExit]);
    assert!(!r.alt_screen);
    assert!(r.child_mouse);
    assert!(r.override_active());
    r.apply(&[ModeEvent::MouseDisable(1000)]);
    assert!(!r.override_active());
}

#[test]
fn row_col_span_clamps_to_width() {
    assert_eq!(row_col_span((2, 3), (4, 50), 2, 10), (3, 9));
    assert_eq!(row_col_span((2, 3), (4, 5), 3, 10), (0, 9));
    assert_eq!(row_col_span((2, 3), (4, 5), 4, 10), (0, 5));
    assert_eq!(row_col_span((2, 3), (2, 5), 2, 0), (0, 0));
}

#[test]
fn keyboard_copy_path_uses_osc52() {
    let a = osc_args();
    assert!(a.shell.is_empty());
    assert_eq!(a.clipboard, Clipboard::Osc52);
}
