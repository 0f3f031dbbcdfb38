use kapollo::pty::shell::{choose_shell, needs_rcfile, shell_args, ShellKind, FISH_HOOK};
use kapollo::pty::{boundary_mode_for, command_text_for, BoundaryMode};

#[test]
fn detects_shells_by_file_name() {
    assert_eq!(ShellKind::detect("/usr/bin/fish"), ShellKind::Fish);
    assert_eq!(ShellKind::detect("/bin/bash"), ShellKind::Bash);
    assert_eq!(ShellKind::detect("/bin/zsh"), ShellKind::Other);
    assert_eq!(ShellKind::detect("bash"), ShellKind::Bash);
    assert_eq!(ShellKind::detect("/opt/fish/bin/sh"), ShellKind::Other);
    assert_eq!(ShellKind::detect(""), ShellKind::Other);
}

#[test]
fn hooked_shells_use_osc133() {
    assert_eq!(boundary_mode_for(ShellKind::Fish), BoundaryMode::Osc133);
    assert_eq!(boundary_mode_for(ShellKind::Bash), BoundaryMode::Osc133);
    assert_eq!(boundary_mode_for(ShellKind::Other), BoundaryMode::Sentinel);
}

#[test]
fn sentinel_mode_wraps_the_command() {
    assert_eq!(command_text_for(BoundaryMode::Osc133, "ls", "N"), "ls\n");
    assert_eq!(
        command_text_for(BoundaryMode::Sentinel, "ls", "N"),
        "ls\nprintf '%s;%d\\n' 'N' \"$?\"\n"
    );
}

#[test]
fn shell_choice_prefers_override_then_env() {
    assert_eq!(choose_shell(Some("/bin/fish"), Some("/bin/bash".to_string())), "/bin/fish");
    assert_eq!(choose_shell(None, Some("/bin/bash".to_string())), "/bin/bash");
    assert_eq!(choose_shell(None, None), "/bin/sh");
}

#[test]
fn shell_args_install_the_hook_for_fish_and_bash_only() {
    assert_eq!(
        shell_args(ShellKind::Fish, BoundaryMode::Osc133, None),
        vec!["--init-command".to_string(), FISH_HOOK.to_string()]
    );
    assert_eq!(
        shell_args(ShellKind::Bash, BoundaryMode::Osc133, Some("/tmp/rc")),
        vec!["--rcfile".to_string(), "/tmp/rc".to_string(), "-i".to_string()]
    );
    assert!(shell_args(ShellKind::Other, BoundaryMode::Sentinel, None).is_empty());
    assert!(needs_rcfile(ShellKind::Bash, BoundaryMode::Osc133));
    assert!(!needs_rcfile(ShellKind::Fish, BoundaryMode::Osc133));
    assert!(FISH_HOOK.contains("133;D"));
}
