use kapollo::action::{
    listing, resolve, Action, Binding, KeyChord, KeyCode, KeyModifiers, KeyParseReason, KeySpec,
    Keymap, Keymaps,
};

fn chord(code: KeyCode, mods: KeyModifiers) -> KeySpec {
    KeySpec::Single(KeyChord::new(code, mods))
}

#[test]
fn reserved_and_gesture_actions_are_unbound() {
    let map = Keymap::default_map();
    for unbound in [
        Action::ClearStatusMessage,
        Action::MultilineMoveStartBuffer,
        Action::MultilineMoveEndBuffer,
    ] {
        assert!(
            !listing().iter().any(|(name, keys)| name == unbound.name() && keys != "Esc Esc"),
            "{} must have no default binding",
            unbound.name()
        );
        assert!(!map.listing().iter().any(|(name, keys)| name == unbound.name() && keys != "Esc Esc"));
    }
}

#[test]
fn resolve_masks_incidental_modifiers() {
    let chord = KeyChord { code: KeyCode::Home, mods: KeyModifiers::none() };
    assert_eq!(resolve(chord), Some(Action::LineMoveStart));
    let noisy = KeyModifiers { shift: false, control: false, alt: false, super_key: true, hyper: true, meta: false };
    assert_eq!(resolve(KeyChord { code: KeyCode::Home, mods: noisy }), Some(Action::LineMoveStart));
}

#[test]
fn listing_is_stable_and_includes_clear_status_message() {
    let l = listing();
    assert_eq!(l.len(), 17 + 1);
    assert!(l.iter().any(|(name, keys)| name == "clear_status_message" && keys == "Esc Esc"));
    assert_eq!(l[0].0, "line_move_start");
}

#[test]
fn unbound_chord_resolves_none() {
    assert_eq!(resolve(KeyChord::new(KeyCode::Char('z'), KeyModifiers::none())), None);
}

#[test]
fn names_round_trip() {
    for a in [Action::LineMoveStart, Action::DeleteWordBefore, Action::ToggleMultLaat, Action::PushInput] {
        assert_eq!(Action::from_name(a.name()), Some(a));
    }
    assert_eq!(Action::from_name("nope"), None);
    assert_eq!(Action::ScrollToBottom.name(), "scroll_to_bottom");
}

#[test]
fn chord_display_names_modifiers_then_key() {
    assert_eq!(KeyChord::new(KeyCode::Left, KeyModifiers::control()).display(), "Ctrl+Left");
    assert_eq!(KeyChord::new(KeyCode::Home, KeyModifiers::shift()).display(), "Shift+Home");
    assert_eq!(KeyChord::new(KeyCode::Char('y'), KeyModifiers::control_alt()).display(), "Ctrl+Alt+Y");
    assert_eq!(KeyChord::new(KeyCode::F(5), KeyModifiers::none()).display(), "F(5)");
    assert_eq!(KeyChord::new(KeyCode::Enter, KeyModifiers::none()).display(), "Enter");
}

#[test]
fn key_strings_parse() {
    assert_eq!(KeySpec::parse("ctrl+left"), Ok(chord(KeyCode::Left, KeyModifiers::control())));
    assert_eq!(KeySpec::parse(" Shift+Ctrl+Right "), Ok(chord(KeyCode::Right, KeyModifiers::shift_control())));
    assert_eq!(KeySpec::parse("ALT+y"), Ok(chord(KeyCode::Char('y'), KeyModifiers::alt())));
    assert_eq!(KeySpec::parse("space"), Ok(chord(KeyCode::Char(' '), KeyModifiers::none())));
    assert_eq!(KeySpec::parse("ctrl+1"), Ok(chord(KeyCode::Char('1'), KeyModifiers::control())));
    let esc = KeyChord::new(KeyCode::Esc, KeyModifiers::none());
    assert_eq!(KeySpec::parse("esc  Esc"), Ok(KeySpec::Chord(esc, esc)));
}

#[test]
fn key_string_errors() {
    assert_eq!(KeySpec::parse("   ").unwrap_err().reason, KeyParseReason::Empty);
    assert_eq!(KeySpec::parse("   ").unwrap_err().input, "   ");
    assert_eq!(KeySpec::parse("meta+x").unwrap_err().reason, KeyParseReason::UnknownModifier);
    assert_eq!(KeySpec::parse("ctrl+foo").unwrap_err().reason, KeyParseReason::UnknownKey);
    assert_eq!(KeySpec::parse("a b").unwrap_err().reason, KeyParseReason::UnsupportedChord);
    assert_eq!(KeySpec::parse("esc esc esc").unwrap_err().reason, KeyParseReason::UnsupportedChord);
    assert_eq!(
        KeySpec::parse("ctrl+foo").unwrap_err().message(),
        "unknown key name: \"ctrl+foo\""
    );
}

#[test]
fn spec_display_round_trips_through_parse() {
    for s in ["ctrl+left", "shift+home", "alt+y", "ctrl+alt+enter", "esc esc", "pagedown"] {
        let k = KeySpec::parse(s).unwrap();
        assert_eq!(KeySpec::parse(&k.display()), Ok(k));
    }
}

#[test]
fn default_map_binds_primary_and_alternate() {
    let map = Keymap::default_map();
    assert_eq!(map.resolve(chord(KeyCode::Enter, KeyModifiers::shift())), Some(Action::InsertNewline));
    assert_eq!(map.resolve(chord(KeyCode::Enter, KeyModifiers::alt())), Some(Action::InsertNewline));
    assert_eq!(map.resolve(chord(KeyCode::Char('y'), KeyModifiers::control())), Some(Action::CopyCurrentLine));
    assert_eq!(map.resolve(chord(KeyCode::Home, KeyModifiers::none())), Some(Action::LineMoveStart));
    assert_eq!(map.resolve(chord(KeyCode::Char('z'), KeyModifiers::none())), None);
    assert!(map.conflicts().is_empty());
}

#[test]
fn overrides_rebind_unbind_and_win_conflicts() {
    let base = Keymap::default_map();
    let ctrl_home = chord(KeyCode::Home, KeyModifiers::control());
    let home = chord(KeyCode::Home, KeyModifiers::none());
    let map = Keymap::with_overrides(
        &base,
        &[
            (Action::LineMoveStart, Binding::single(ctrl_home)),
            (Action::ScrollToTop, Binding::single(home)),
            (Action::LineMoveEnd, Binding::cleared()),
        ],
    );
    assert_eq!(map.resolve(ctrl_home), Some(Action::LineMoveStart));
    assert_eq!(map.resolve(home), Some(Action::ScrollToTop));
    assert_eq!(map.resolve(chord(KeyCode::End, KeyModifiers::none())), None);
    assert!(map.listing().iter().any(|(n, k)| n == "line_move_end" && k == "(unbound)"));
    let clash = Keymap::with_overrides(&base, &[(Action::ScrollToTop, Binding::single(ctrl_home)), (Action::PushInput, Binding::single(ctrl_home))]);
    assert_eq!(clash.conflicts(), vec![(ctrl_home, Action::ScrollToTop, Action::PushInput)]);
    assert_eq!(clash.resolve(ctrl_home), Some(Action::PushInput));
}

#[test]
fn binding_from_specs_keeps_two() {
    let a = chord(KeyCode::Up, KeyModifiers::none());
    let b = chord(KeyCode::Down, KeyModifiers::none());
    assert_eq!(Binding::from_specs(&[]), Binding::cleared());
    assert_eq!(Binding::from_specs(&[a]), Binding::single(a));
    assert_eq!(Binding::from_specs(&[a, b, a]), Binding::pair(a, b));
}

#[test]
fn keymaps_fall_back_to_the_default() {
    let d = Keymap::default_map();
    let other = Keymap::with_overrides(&d, &[(Action::PushInput, Binding::cleared())]);
    let maps = Keymaps::new(d.clone(), vec![("vi".to_string(), other.clone())]);
    assert_eq!(maps.for_mode("vi"), &other);
    assert_eq!(maps.for_mode("norm"), &d);
    assert_eq!(maps.default(), &d);
}

fn default_rows() -> Vec<(KeyCode, KeyModifiers, Action)> {
    let m = KeyModifiers::none;
    vec![
        (KeyCode::Home, m(), Action::LineMoveStart),
        (KeyCode::End, m(), Action::LineMoveEnd),
        (KeyCode::Left, KeyModifiers::control(), Action::WordMoveLeft),
        (KeyCode::Right, KeyModifiers::control(), Action::WordMoveRight),
        (KeyCode::Left, KeyModifiers::shift(), Action::SelectCharLeft),
        (KeyCode::Right, KeyModifiers::shift(), Action::SelectCharRight),
        (KeyCode::Left, KeyModifiers::shift_control(), Action::SelectWordLeft),
        (KeyCode::Right, KeyModifiers::shift_control(), Action::SelectWordRight),
        (KeyCode::Char('u'), KeyModifiers::control(), Action::KillToLineStart),
        (KeyCode::Char('k'), KeyModifiers::control(), Action::KillToLineEnd),
        (KeyCode::Char('w'), KeyModifiers::control(), Action::DeleteWordBefore),
        (KeyCode::PageUp, m(), Action::ScrollPageUp),
        (KeyCode::PageDown, m(), Action::ScrollPageDown),
        (KeyCode::PageUp, KeyModifiers::shift(), Action::ScrollLineUp),
        (KeyCode::PageDown, KeyModifiers::shift(), Action::ScrollLineDown),
        (KeyCode::Home, KeyModifiers::shift(), Action::ScrollToTop),
        (KeyCode::End, KeyModifiers::shift(), Action::ScrollToBottom),
    ]
}

#[test]
fn every_binding_resolves_to_its_action() {
    for (code, mods, action) in default_rows() {
        assert_eq!(resolve(KeyChord::new(code, mods)), Some(action));
    }
}

#[test]
fn no_two_bindings_share_a_chord() {
    let rows = default_rows();
    for (i, a) in rows.iter().enumerate() {
        for b in &rows[i + 1..] {
            assert!(!(a.0 == b.0 && a.1 == b.1), "duplicate chord: {:?}+{:?}", a.0, a.1);
        }
    }
    let l = listing();
    for (i, (name, keys)) in l.iter().take(rows.len()).enumerate() {
        assert_eq!(name, rows[i].2.name());
        assert_eq!(keys, &KeyChord::new(rows[i].0, rows[i].1).display());
    }
}
