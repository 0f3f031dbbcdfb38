//! User-facing text of the built-in slash commands. The state changes they
//! cause (clearing the transcript, quitting) are applied by the event loop.

use vstd::prelude::*;
use crate::text::string_push;

verus! {

/// The `/help` body for leader `l`.
pub open spec fn help_spec(l: char) -> Seq<char> {
    "kapollo slash commands (leader '"@ + seq![l] + "'):\n  "@ + seq![l]
        + "help     Show this help.\n  "@ + seq![l]
        + "clear    Clear the visible transcript.\n  "@ + seq![l]
        + "status   Toggle the fixed status bar.\n  "@ + seq![l]
        + "keys     List the active key bindings.\n  "@ + seq![l]
        + "reload-config  Re-read the config file (keymap included).\n  "@ + seq![l]
        + "quit     Exit kapollo and restore the terminal.\n  "@ + seq![l]
        + "exit     Alias for "@ + seq![l] + "quit.\n\nKeys (run '"@ + seq![l]
        + "keys' for the full list):\n  Enter            Submit the current input.\n  Ctrl-C           Interrupt the running command (not kapollo).\n  PageUp/PageDown  Scroll the transcript a page at a time.\n  Shift+Home/End   Jump to the oldest / newest output.\n\nTo send literal input beginning with '"@ + seq![l] + "', double it (e.g. '"@ + seq![l, l] + "path')."@
}

/// The `/help` body, written with the active leader char so it stays
/// accurate when the leader is remapped.
pub fn help_text(leader: char) -> (s: String)
    ensures
        s@ == help_spec(leader),
{
    let mut s = String::new();
    s.append("kapollo slash commands (leader '");
    string_push(&mut s, leader);
    s.append("'):\n  ");
    string_push(&mut s, leader);
    s.append("help     Show this help.\n  ");
    string_push(&mut s, leader);
    s.append("clear    Clear the visible transcript.\n  ");
    string_push(&mut s, leader);
    s.append("status   Toggle the fixed status bar.\n  ");
    string_push(&mut s, leader);
    s.append("keys     List the active key bindings.\n  ");
    string_push(&mut s, leader);
    s.append("reload-config  Re-read the config file (keymap included).\n  ");
    string_push(&mut s, leader);
    s.append("quit     Exit kapollo and restore the terminal.\n  ");
    string_push(&mut s, leader);
    s.append("exit     Alias for ");
    string_push(&mut s, leader);
    s.append("quit.\n\nKeys (run '");
    string_push(&mut s, leader);
    s.append("keys' for the full list):\n  Enter            Submit the current input.\n  Ctrl-C           Interrupt the running command (not kapollo).\n  PageUp/PageDown  Scroll the transcript a page at a time.\n  Shift+Home/End   Jump to the oldest / newest output.\n\nTo send literal input beginning with '");
    string_push(&mut s, leader);
    s.append("', double it (e.g. '");
    string_push(&mut s, leader);
    string_push(&mut s, leader);
    s.append("path').");
    assert(s@ =~= help_spec(leader));
    s
}

/// The error body for an unknown command `name` under leader `l`.
pub open spec fn unknown_spec(name: Seq<char>, l: char) -> Seq<char> {
    "Unknown command '"@ + seq![l] + name + "'. Try '"@ + seq![l] + "help'."@
}

/// The error body shown when an unknown slash command is entered.
pub fn unknown_text(name: &str, leader: char) -> (s: String)
    ensures
        s@ == unknown_spec(name@, leader),
{
    let mut s = String::new();
    s.append("Unknown command '");
    string_push(&mut s, leader);
    s.append(name);
    s.append("'. Try '");
    string_push(&mut s, leader);
    s.append("help'.");
    assert(s@ =~= unknown_spec(name@, leader));
    s
}

/// `needle` occurs in `hay`.
pub open spec fn contains_seq(hay: Seq<char>, needle: Seq<char>) -> bool {
    exists|i: int| 0 <= i <= hay.len() - needle.len() && #[trigger] hay.subrange(i, i + needle.len()) == needle
}

/// The unknown-command text names the command under the leader and points
/// to the leader's `help`.
pub proof fn lemma_unknown_names_command(name: Seq<char>, l: char)
    ensures
        contains_seq(unknown_spec(name, l), seq![l] + name),
        contains_seq(unknown_spec(name, l), seq![l, 'h', 'e', 'l', 'p']),
{
    reveal_strlit("Unknown command '");
    reveal_strlit("'. Try '");
    reveal_strlit("help'.");
    let s = unknown_spec(name, l);
    let a = 17int;
    assert(s.subrange(a, a + (seq![l] + name).len()) =~= seq![l] + name);
    let b: int = 26 + name.len() as int;
    assert(s.subrange(b, b + seq![l, 'h', 'e', 'l', 'p'].len()) =~= seq![l, 'h', 'e', 'l', 'p']);
}

/// The help text names every built-in command under the active leader.
pub proof fn lemma_help_names_commands(l: char)
    ensures
        contains_seq(help_spec(l), seq![l, 'h', 'e', 'l', 'p']),
        contains_seq(help_spec(l), seq![l, 'c', 'l', 'e', 'a', 'r']),
        contains_seq(help_spec(l), seq![l, 's', 't', 'a', 't', 'u', 's']),
        contains_seq(help_spec(l), seq![l, 'k', 'e', 'y', 's']),
        contains_seq(help_spec(l), seq![l, 'r', 'e', 'l', 'o', 'a', 'd', '-', 'c', 'o', 'n', 'f', 'i', 'g']),
        contains_seq(help_spec(l), seq![l, 'q', 'u', 'i', 't']),
{
    reveal_strlit("kapollo slash commands (leader '");
    reveal_strlit("'):\n  ");
    reveal_strlit("help     Show this help.\n  ");
    reveal_strlit("clear    Clear the visible transcript.\n  ");
    reveal_strlit("status   Toggle the fixed status bar.\n  ");
    reveal_strlit("keys     List the active key bindings.\n  ");
    reveal_strlit("reload-config  Re-read the config file (keymap included).\n  ");
    reveal_strlit("quit     Exit kapollo and restore the terminal.\n  ");
    let s = help_spec(l);
    assert(s.subrange(39int, 39int + seq![l, 'h', 'e', 'l', 'p'].len()) =~= seq![l, 'h', 'e', 'l', 'p']);
    assert(s.subrange(67int, 67int + seq![l, 'c', 'l', 'e', 'a', 'r'].len()) =~= seq![l, 'c', 'l', 'e', 'a', 'r']);
    assert(s.subrange(109int, 109int + seq![l, 's', 't', 'a', 't', 'u', 's'].len()) =~= seq![l, 's', 't', 'a', 't', 'u', 's']);
    assert(s.subrange(150int, 150int + seq![l, 'k', 'e', 'y', 's'].len()) =~= seq![l, 'k', 'e', 'y', 's']);
    assert(s.subrange(192int, 192int + seq![l, 'r', 'e', 'l', 'o', 'a', 'd', '-', 'c', 'o', 'n', 'f', 'i', 'g'].len()) =~= seq![l, 'r', 'e', 'l', 'o', 'a', 'd', '-', 'c', 'o', 'n', 'f', 'i', 'g']);
    assert(s.subrange(253int, 253int + seq![l, 'q', 'u', 'i', 't'].len()) =~= seq![l, 'q', 'u', 'i', 't']);
}

} // verus!
