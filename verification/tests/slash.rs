use kapollo::slash::builtins::{help_text, unknown_text};
use kapollo::slash::{dispatch, Dispatch, SlashCommand};

#[test]
fn dispatches_known_commands() {
    assert_eq!(dispatch("help"), Dispatch::Command(SlashCommand::Help));
    assert_eq!(dispatch("clear"), Dispatch::Command(SlashCommand::Clear));
    assert_eq!(dispatch("quit"), Dispatch::Command(SlashCommand::Quit));
    assert_eq!(dispatch("status"), Dispatch::Command(SlashCommand::Status));
    assert_eq!(dispatch("keys"), Dispatch::Command(SlashCommand::Keys));
}

#[test]
fn dispatches_reload_config() {
    assert_eq!(dispatch("reload-config"), Dispatch::Command(SlashCommand::ReloadConfig));
}

#[test]
fn unknown_command_reports_its_name() {
    assert_eq!(dispatch("bogus"), Dispatch::Unknown("bogus".to_string()));
    assert_eq!(dispatch("Help"), Dispatch::Unknown("Help".to_string()));
}

#[test]
fn exit_is_an_alias_for_quit() {
    assert_eq!(dispatch("exit"), Dispatch::Command(SlashCommand::Quit));
}

#[test]
fn surrounding_whitespace_is_ignored() {
    assert_eq!(dispatch("  help \t"), Dispatch::Command(SlashCommand::Help));
}

#[test]
fn unknown_reports_only_the_first_token() {
    assert_eq!(dispatch("  save out.txt "), Dispatch::Unknown("save".to_string()));
    assert_eq!(dispatch("   "), Dispatch::Unknown("".to_string()));
    assert_eq!(dispatch("help me"), Dispatch::Unknown("help".to_string()));
}

#[test]
fn help_text_mentions_each_command() {
    let text = help_text('/');
    assert!(text.contains("/help"));
    assert!(text.contains("/clear"));
    assert!(text.contains("/quit"));
}

#[test]
fn help_text_mentions_reload_config() {
    assert!(help_text('/').contains("/reload-config"));
}

#[test]
fn help_text_follows_the_leader() {
    let text = help_text(':');
    assert!(text.starts_with("kapollo slash commands (leader ':'):\n  :help     Show this help.\n"));
    assert!(text.ends_with("double it (e.g. '::path')."));
    assert!(!text.contains("/help"));
}

#[test]
fn unknown_text_names_the_command_and_suggests_help() {
    let text = unknown_text("bogus", '/');
    assert!(text.contains("/bogus"));
    assert!(text.contains("/help"));
}

#[test]
fn unknown_text_exact() {
    assert_eq!(unknown_text("bogus", ':'), "Unknown command ':bogus'. Try ':help'.");
}
