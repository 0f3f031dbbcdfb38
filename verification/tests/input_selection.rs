use kapollo::input::selection::{esc_action, ActiveSelection, EscAction};
use kapollo::input::InputSelection;

#[test]
fn range_is_normalized() {
    let mut s = InputSelection::new(5);
    s.caret = 2;
    assert_eq!(s.range(), (2, 5));
    s.caret = 9;
    assert_eq!(s.range(), (5, 9));
}

#[test]
fn fresh_selection_is_empty() {
    assert!(InputSelection::new(3).is_empty());
}

#[test]
fn active_selection_is_structurally_exclusive() {
    let none = ActiveSelection::Neither;
    assert!(none.is_none() && !none.is_active());
    assert_eq!(none.input(), None);

    let input = ActiveSelection::Input(InputSelection::new(2));
    assert!(input.is_active());
    assert_eq!(input.input(), Some(InputSelection::new(2)));
    assert_eq!(input.transcript(), None);

    let transcript = ActiveSelection::Transcript((1, 0), (1, 4));
    assert!(transcript.is_active());
    assert_eq!(transcript.transcript(), Some(((1, 0), (1, 4))));
    assert_eq!(transcript.input(), None);
}

#[test]
fn esc_action_follows_fr029_precedence() {
    assert_eq!(esc_action(false, true, false), EscAction::CancelSelection);
    assert_eq!(esc_action(false, false, false), EscAction::ClearCurrentLine);
    assert_eq!(esc_action(false, false, true), EscAction::ClearCurrentLine);
    assert_eq!(esc_action(true, false, true), EscAction::ClearWholeBuffer);
    assert_eq!(esc_action(true, false, false), EscAction::Noop);
}
