use kapollo::action::{KeyCode, KeyEvent, KeyModifiers, Keymap, Keymaps};
use kapollo::app::{cell_at, App, CopyFailure, Effect, ReloadOutcome};
use kapollo::config::Config;
use kapollo::input::InputMode;
use kapollo::output::parser::{Boundary, ProcessorEvent};
use kapollo::pty::BoundaryMode;
use kapollo::selection::SelState;
use kapollo::session::BlockState;

fn app() -> App {
    App::new(
        Config::default(),
        Keymaps::new(Keymap::default_map(), Vec::new()),
        "/home/user".to_string(),
        BoundaryMode::Osc133,
        "",
    )
}

fn key(code: KeyCode) -> KeyEvent {
    KeyEvent::new(code, KeyModifiers::none())
}

fn type_text(app: &mut App, text: &str) {
    for c in text.chars() {
        let effects = app.on_key(key(KeyCode::Char(c)));
        assert!(effects.is_empty());
    }
}

fn enter(app: &mut App) -> Vec<Effect> {
    app.on_key(key(KeyCode::Enter))
}

#[test]
fn app_typed_line_runs_as_a_shell_command_in_a_new_block() {
    let mut a = app();
    type_text(&mut a, "ls -l");
    assert_eq!(a.input.as_str(), "ls -l");
    let effects = enter(&mut a);
    assert_eq!(effects, vec![Effect::SendCommand("ls -l".to_string())]);
    assert_eq!(a.input.as_str(), "");
    let blocks = a.transcript.blocks();
    assert_eq!(blocks.len(), 1);
    assert_eq!(blocks[0].command, "ls -l");
    assert_eq!(a.store.len(), 1);
    assert_eq!(a.store.last().unwrap().cwd, Some("/home/user".to_string()));
}

#[test]
fn app_empty_enter_only_advances_the_prompt() {
    let mut a = app();
    let effects = enter(&mut a);
    assert_eq!(effects, vec![Effect::WriteInput(vec![b'\n'])]);
    assert!(a.transcript.blocks().is_empty());
}

#[test]
fn app_help_paints_a_synthetic_block_with_the_help_text() {
    let mut a = app();
    type_text(&mut a, "/help");
    let effects = enter(&mut a);
    let help = kapollo::slash::builtins::help_text('/');
    assert_eq!(
        effects,
        vec![Effect::PaintSynthetic { command: "/help".to_string(), output: help.clone() }]
    );
    let blocks = a.transcript.blocks();
    assert_eq!(blocks.len(), 1);
    assert_eq!(blocks[0].command, "/help");
    assert_eq!(blocks[0].state, BlockState::Closed);
    assert_eq!(blocks[0].exit_code, Some(0));
    assert_eq!(blocks[0].output.to_vec(), help.as_bytes().to_vec());
}

#[test]
fn app_unknown_slash_command_reports_its_name() {
    let mut a = app();
    type_text(&mut a, "/frobnicate now");
    let effects = enter(&mut a);
    assert_eq!(
        effects,
        vec![Effect::PaintSynthetic {
            command: "/frobnicate".to_string(),
            output: "Unknown command '/frobnicate'. Try '/help'.".to_string(),
        }]
    );
}

#[test]
fn app_doubled_leader_sends_the_line_to_the_shell() {
    let mut a = app();
    type_text(&mut a, "//tmp");
    let effects = enter(&mut a);
    assert_eq!(effects, vec![Effect::SendCommand("/tmp".to_string())]);
}

#[test]
fn app_quit_and_clear_and_reload() {
    let mut a = app();
    type_text(&mut a, "echo hi");
    enter(&mut a);
    type_text(&mut a, "/clear");
    assert_eq!(enter(&mut a), vec![Effect::ClearGrid]);
    assert!(a.transcript.blocks().is_empty());
    type_text(&mut a, "/reload-config");
    assert_eq!(enter(&mut a), vec![Effect::ReloadConfig]);
    assert!(!a.should_quit());
    type_text(&mut a, "/exit");
    assert!(enter(&mut a).is_empty());
    assert!(a.should_quit());
}

#[test]
fn app_status_toggles_the_status_bar() {
    let mut a = app();
    let was = a.config.status.enabled;
    type_text(&mut a, "/status");
    let effects = enter(&mut a);
    assert_eq!(a.config.status.enabled, !was);
    let body = if was { "Status bar disabled.\n" } else { "Status bar enabled.\n" };
    assert_eq!(
        effects,
        vec![Effect::PaintSynthetic { command: "/status".to_string(), output: body.to_string() }]
    );
}

#[test]
fn app_keys_lists_the_bindings() {
    let mut a = app();
    type_text(&mut a, "/keys");
    let effects = enter(&mut a);
    match &effects[..] {
        [Effect::PaintSynthetic { command, output }] => {
            assert_eq!(command, "/keys");
            assert!(output.starts_with("Active key bindings:\n\n"));
            assert!(output.contains("  Esc Esc         clear_status_message\n"));
            assert!(output.contains("scroll_page_up"));
        }
        other => panic!("unexpected effects {other:?}"),
    }
}

#[test]
fn app_ctrl_c_without_selection_interrupts() {
    let mut a = app();
    type_text(&mut a, "abc");
    let effects = a.on_key(KeyEvent::new(KeyCode::Char('c'), KeyModifiers::control()));
    assert_eq!(effects, vec![Effect::SendInterrupt]);
    assert_eq!(a.input.as_str(), "abc");
}

#[test]
fn app_ctrl_c_copies_the_input_selection_over_osc52() {
    let mut a = app();
    a.config.clipboard.osc52 = true;
    type_text(&mut a, "hello");
    a.on_key(KeyEvent::new(KeyCode::Left, KeyModifiers::shift()));
    a.on_key(KeyEvent::new(KeyCode::Left, KeyModifiers::shift()));
    let effects = a.on_key(KeyEvent::new(KeyCode::Char('c'), KeyModifiers::control()));
    assert_eq!(
        effects,
        vec![Effect::EmitToTerminal(kapollo::clipboard::osc52_frame(b"lo"))]
    );
    assert_eq!(a.notice.as_deref(), Some("copied selection"));
    assert!(!a.input.has_selection());
    a.copy_failed(CopyFailure::TerminalWrite);
    assert_eq!(a.notice.as_deref(), Some("copy failed: could not write to terminal"));
}

#[test]
fn app_copy_with_no_method_enabled_says_so() {
    let mut a = app();
    a.config.clipboard.osc52 = false;
    a.config.clipboard.local_fallback = false;
    assert!(a.copy_text("text".to_string()).is_empty());
    assert_eq!(a.notice.as_deref(), Some("copy failed: no clipboard available"));
    a.config.clipboard.local_fallback = true;
    assert_eq!(a.copy_text("text".to_string()), vec![Effect::CopyLocal("text".to_string())]);
    assert_eq!(a.notice, None);
}

#[test]
fn app_copy_line_trims_and_reports() {
    let mut a = app();
    a.config.clipboard.osc52 = false;
    a.config.clipboard.local_fallback = true;
    assert_eq!(
        a.copy_line(Some("last line   ".to_string())),
        vec![Effect::CopyLocal("last line".to_string())]
    );
    assert_eq!(a.notice.as_deref(), Some("copied line"));
    assert!(a.copy_line(None).is_empty());
    assert_eq!(a.notice.as_deref(), Some("copy failed: no visible line"));
}

#[test]
fn app_copy_current_line_outside_the_viewport_does_nothing() {
    let mut a = app();
    a.config.clipboard.osc52 = false;
    a.config.clipboard.local_fallback = true;
    assert!(a.copy_current_line(None).is_empty());
    assert_eq!(a.notice, None);
    assert_eq!(
        a.copy_current_line(Some("  row \t".to_string())),
        vec![Effect::CopyLocal("  row".to_string())]
    );
    assert_eq!(a.notice.as_deref(), Some("copied line"));
}

#[test]
fn app_alt_enter_inserts_a_newline_and_enters_mult() {
    let mut a = app();
    type_text(&mut a, "a");
    a.on_key(KeyEvent::new(KeyCode::Enter, KeyModifiers::alt()));
    type_text(&mut a, "b");
    assert_eq!(a.input.as_str(), "a\nb");
    assert_eq!(a.mode, InputMode::Mult);
    a.on_key(key(KeyCode::Backspace));
    a.on_key(key(KeyCode::Backspace));
    assert_eq!(a.input.as_str(), "a");
    assert_eq!(a.mode, InputMode::Norm);
}

#[test]
fn app_double_esc_clears_a_multiline_buffer_and_the_notice() {
    let mut a = app();
    type_text(&mut a, "one");
    a.on_key(KeyEvent::new(KeyCode::Enter, KeyModifiers::alt()));
    type_text(&mut a, "two");
    a.notice = Some("note".to_string());
    a.on_key(key(KeyCode::Esc));
    // The first Esc clears only the caret's line.
    assert_eq!(a.input.as_str(), "one\n");
    assert_eq!(a.notice.as_deref(), Some("note"));
    a.on_key(key(KeyCode::Esc));
    assert_eq!(a.input.as_str(), "");
    assert_eq!(a.notice, None);
    assert_eq!(a.mode, InputMode::Norm);
}

#[test]
fn app_up_recalls_history_in_norm() {
    let mut a = app();
    type_text(&mut a, "first");
    enter(&mut a);
    type_text(&mut a, "second");
    enter(&mut a);
    a.on_key(key(KeyCode::Up));
    assert_eq!(a.input.as_str(), "second");
    a.on_key(key(KeyCode::Up));
    assert_eq!(a.input.as_str(), "first");
    a.on_key(key(KeyCode::Down));
    assert_eq!(a.input.as_str(), "second");
    a.on_key(key(KeyCode::Down));
    assert_eq!(a.input.as_str(), "");
}

#[test]
fn app_pushed_input_comes_back_after_the_next_submit() {
    let mut a = app();
    type_text(&mut a, "draft");
    // Ctrl+Alt+Enter pushes the input in the default keymap.
    let chord = KeyEvent::new(KeyCode::Enter, KeyModifiers::control_alt());
    a.on_key(chord);
    assert_eq!(a.input.as_str(), "");
    type_text(&mut a, "pwd");
    let effects = enter(&mut a);
    assert_eq!(effects, vec![Effect::SendCommand("pwd".to_string())]);
    assert_eq!(a.input.as_str(), "draft");
    assert_eq!(a.input.cursor(), 5);
}

#[test]
fn app_output_closes_blocks_and_seals_the_store() {
    let mut a = app();
    type_text(&mut a, "make");
    enter(&mut a);
    let events = vec![
        ProcessorEvent::Boundary(Boundary::OutputStart),
        ProcessorEvent::Output(b"built\n".to_vec()),
        ProcessorEvent::Boundary(Boundary::CommandEnd { exit_code: Some(2) }),
        ProcessorEvent::Boundary(Boundary::Cwd("/tmp".to_string())),
    ];
    a.on_output(events, 7);
    assert_eq!(a.last_exit, Some(2));
    assert_eq!(a.cwd, "/tmp");
    let block = &a.transcript.blocks()[0];
    assert_eq!(block.state, BlockState::Closed);
    assert_eq!(block.output.to_vec(), b"built\n".to_vec());
    let stored = a.store.last().unwrap();
    assert_eq!(stored.exit_code, Some(2));
    assert_eq!(stored.output.to_vec(), b"built\n".to_vec());
    assert_eq!(stored.row_range, 7..7);
}

#[test]
fn app_shell_exit_ends_the_session() {
    let mut a = app();
    a.on_shell_exit(Some(3));
    assert!(a.should_quit());
    assert_eq!(a.last_exit, Some(3));
}

#[test]
fn app_paste_goes_to_the_pad_or_the_full_screen_program() {
    let mut a = app();
    assert!(a.on_paste("a\r\nb").is_empty());
    assert_eq!(a.input.as_str(), "a\nb");
    a.after_drain(true, 0, 0);
    assert!(a.is_passthrough());
    assert_eq!(a.on_paste("xy"), vec![Effect::WriteInput(b"xy".to_vec())]);
}

#[test]
fn app_scrolled_back_view_follows_new_history() {
    let mut a = app();
    a.transcript.set_scroll_offset(5);
    a.after_drain(false, 10, 13);
    assert_eq!(a.transcript.scroll_offset(), 8);
    a.transcript.set_scroll_offset(0);
    a.after_drain(false, 10, 13);
    assert_eq!(a.transcript.scroll_offset(), 0);
}

#[test]
fn app_wheel_and_drag_scroll_within_the_scrollback() {
    let mut a = app();
    a.config.scroll.wheel_lines = 3;
    a.on_wheel(true, 4);
    assert_eq!(a.transcript.scroll_offset(), 3);
    a.on_wheel(true, 4);
    assert_eq!(a.transcript.scroll_offset(), 4);
    a.on_wheel(false, 4);
    assert_eq!(a.transcript.scroll_offset(), 1);
    assert_eq!(a.on_drag(0, 10, 4), 0);
    assert_eq!(a.transcript.scroll_offset(), 2);
    assert_eq!(a.on_drag(12, 10, 4), 9);
    assert_eq!(a.transcript.scroll_offset(), 1);
}

#[test]
fn app_mouse_selection_copies_on_right_press() {
    let mut a = app();
    a.on_left_press(cell_at(100, 2, 4));
    a.on_drag_to(cell_at(100, 1, 0));
    a.on_left_release();
    assert_eq!(a.selection.state(), SelState::Active);
    let effects = a.on_right_press((0, 0));
    assert_eq!(effects, vec![Effect::CopyCells((101, 0), (102, 4))]);
    assert_eq!(a.selection.state(), SelState::Idle);
    // With nothing selected, a right press copies the block under it.
    assert!(a.on_right_press((5, 0)).is_empty());
    assert_eq!(a.notice.as_deref(), Some("copy failed: block unavailable"));
}

#[test]
fn app_reload_reports_the_outcome() {
    let mut a = app();
    let effects = a.finish_reload(ReloadOutcome::NoFile);
    assert_eq!(
        effects,
        vec![Effect::PaintSynthetic {
            command: "/reload-config".to_string(),
            output: "No configuration file to reload; running on defaults.\n".to_string(),
        }]
    );
    let mut cfg = Config::default();
    cfg.leader_char = ':';
    cfg.shell = Some("zsh".to_string());
    a.finish_reload(ReloadOutcome::Loaded { config: cfg, path: "/etc/k.toml".to_string() });
    assert_eq!(a.config.leader_char, ':');
    assert_eq!(a.config.shell, None);
    let effects = a.finish_reload(ReloadOutcome::Failed("bad".to_string()));
    assert_eq!(
        effects,
        vec![Effect::PaintSynthetic {
            command: ":reload-config".to_string(),
            output: "Reload failed: bad\nKeeping the previous configuration.\n".to_string(),
        }]
    );
}

#[test]
fn app_sentinel_scan_reports_command_ends() {
    let mut a = App::new(
        Config::default(),
        Keymaps::new(Keymap::default_map(), Vec::new()),
        "/".to_string(),
        BoundaryMode::Sentinel,
        "NONCE",
    );
    assert!(!a.uses_osc133());
    let events = a.scan_sentinel(b"out\nNONCE;0\n");
    assert_eq!(
        events,
        vec![
            ProcessorEvent::Output(b"out\n".to_vec()),
            ProcessorEvent::Boundary(Boundary::CommandEnd { exit_code: Some(0) }),
        ]
    );
    assert_eq!(
        a.scan_sentinel(b"NONCE\n"),
        vec![ProcessorEvent::Boundary(Boundary::CommandEnd { exit_code: None })]
    );
}

#[test]
fn app_block_copies_use_the_store() {
    let mut a = app();
    a.config.clipboard.osc52 = false;
    a.config.clipboard.local_fallback = true;
    type_text(&mut a, "make");
    enter(&mut a);
    a.on_output(vec![ProcessorEvent::Boundary(Boundary::OutputStart)], 3);
    a.on_output(
        vec![
            ProcessorEvent::Output(b"built\n".to_vec()),
            ProcessorEvent::Boundary(Boundary::CommandEnd { exit_code: Some(0) }),
        ],
        5,
    );
    assert_eq!(a.store.last().unwrap().row_range, 3..5);
    assert_eq!(
        a.copy_block_with_command(4),
        vec![Effect::CopyLocal("make\nbuilt\n".to_string())]
    );
    assert_eq!(a.notice.as_deref(), Some("copied block (with command)"));
    // Alt+y copies the newest block's output.
    let effects = a.on_key(KeyEvent::new(KeyCode::Char('y'), KeyModifiers::alt()));
    assert_eq!(effects, vec![Effect::CopyLocal("built\n".to_string())]);
    assert_eq!(a.notice.as_deref(), Some("copied block output"));
    assert!(a.copy_block_without_command(99).is_empty());
    assert_eq!(a.notice.as_deref(), Some("copy failed: block unavailable"));
}

#[test]
fn app_pane_rows_leave_room_for_the_chrome() {
    let mut a = app();
    // pad (1) + status bar + rule
    assert_eq!(a.pane_rows(24), 21);
    // too short for the status bar: pad + rule
    assert_eq!(a.pane_rows(5), 3);
    // never below one row
    assert_eq!(a.pane_rows(2), 1);
    type_text(&mut a, "a");
    a.on_key(KeyEvent::new(KeyCode::Enter, KeyModifiers::alt()));
    assert_eq!(a.pane_rows(24), 20);
    a.after_drain(true, 0, 0);
    assert_eq!(a.pane_rows(24), 24);
}

#[test]
fn app_page_keys_keep_the_configured_overlap() {
    let mut a = app();
    a.transcript.record_view(10, 100);
    a.on_key(key(KeyCode::PageUp));
    assert_eq!(a.transcript.scroll_offset(), 7);
    a.config.scroll.context_lines = 0;
    a.on_key(key(KeyCode::PageUp));
    assert_eq!(a.transcript.scroll_offset(), 17);
    a.on_key(key(KeyCode::PageDown));
    assert_eq!(a.transcript.scroll_offset(), 7);
}
