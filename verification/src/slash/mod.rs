//! Slash commands: exact-match dispatch of the leader-prefixed commands that
//! the input router intercepts. Unknown names are reported back so the
//! caller can suggest `/help`.

pub mod builtins;

use vstd::prelude::*;
use crate::text::{chars_eq, chars_of, is_space, lemma_trim_end_prefix, string_from_chars, trim,
    trim_end_len, trim_start_len, char_is_whitespace};

verus! {

/// A recognized built-in slash command.
#[derive(Debug, Clone, Copy, PartialEq, Eq, Structural)]
pub enum SlashCommand {
    /// `/help`: show the available commands and basic usage.
    Help,
    /// `/clear`: clear the visible transcript.
    Clear,
    /// `/quit` (or `/exit`): leave kapollo cleanly.
    Quit,
    /// `/status`: toggle the fixed status bar.
    Status,
    /// `/keys`: list the active key bindings.
    Keys,
    /// `/reload-config`: re-read the configuration.
    ReloadConfig,
}

/// The result of dispatching a slash-command string (leader stripped).
#[derive(Debug, Clone, PartialEq, Eq)]
pub enum Dispatch {
    /// A recognized command.
    Command(SlashCommand),
    /// An unknown command name: the first whitespace-delimited token.
    Unknown(String),
}

/// The command a trimmed name spells, matched exactly and case-sensitively.
pub open spec fn command_named(name: Seq<char>) -> Option<SlashCommand> {
    if name == seq!['h', 'e', 'l', 'p'] {
        Some(SlashCommand::Help)
    } else if name == seq!['c', 'l', 'e', 'a', 'r'] {
        Some(SlashCommand::Clear)
    } else if name == seq!['q', 'u', 'i', 't'] || name == seq!['e', 'x', 'i', 't'] {
        Some(SlashCommand::Quit)
    } else if name == seq!['s', 't', 'a', 't', 'u', 's'] {
        Some(SlashCommand::Status)
    } else if name == seq!['k', 'e', 'y', 's'] {
        Some(SlashCommand::Keys)
    } else if name == seq!['r', 'e', 'l', 'o', 'a', 'd', '-', 'c', 'o', 'n', 'f', 'i', 'g'] {
        Some(SlashCommand::ReloadConfig)
    } else {
        None
    }
}

/// `t` is the first whitespace-delimited token of `s`, which starts with no
/// whitespace: the longest prefix of `s` free of whitespace.
pub open spec fn is_first_token(t: Seq<char>, s: Seq<char>) -> bool {
    &&& t.len() <= s.len()
    &&& t == s.subrange(0, t.len() as int)
    &&& forall|k: int| 0 <= k < t.len() ==> !is_space(#[trigger] t[k])
    &&& t.len() < s.len() ==> is_space(s[t.len() as int])
}

/// What [`dispatch`] answers for `command`.
pub open spec fn dispatch_spec(command: Seq<char>, r: Dispatch) -> bool {
    match command_named(trim(command)) {
        Some(c) => r == Dispatch::Command(c),
        None => r matches Dispatch::Unknown(t) && is_first_token(t@, trim(command)),
    }
}

/// Dispatch a slash-command string (without the leader char). Surrounding
/// whitespace is ignored; matching is exact and case-sensitive. Anything else
/// is [`Dispatch::Unknown`] with its first token.
pub fn dispatch(command: &str) -> (r: Dispatch)
    ensures
        dispatch_spec(command@, r),
{
    let chars = chars_of(command);
    let n = chars.len();
    let start = trim_start_len(chars.as_slice(), 0, n);
    let end = trim_end_len(chars.as_slice(), start, n);
    proof {
        assert(chars@.subrange(0, n as int) =~= chars@);
        lemma_trim_end_prefix(chars@.subrange(start as int, n as int));
        assert(trim(command@) =~= chars@.subrange(start as int, end as int));
    }
    let c = chars.as_slice();
    if chars_eq(c, start, end, &['h', 'e', 'l', 'p']) {
        return Dispatch::Command(SlashCommand::Help);
    }
    if chars_eq(c, start, end, &['c', 'l', 'e', 'a', 'r']) {
        return Dispatch::Command(SlashCommand::Clear);
    }
    if chars_eq(c, start, end, &['q', 'u', 'i', 't']) || chars_eq(c, start, end, &['e', 'x', 'i', 't']) {
        return Dispatch::Command(SlashCommand::Quit);
    }
    if chars_eq(c, start, end, &['s', 't', 'a', 't', 'u', 's']) {
        return Dispatch::Command(SlashCommand::Status);
    }
    if chars_eq(c, start, end, &['k', 'e', 'y', 's']) {
        return Dispatch::Command(SlashCommand::Keys);
    }
    if chars_eq(
        c,
        start,
        end,
        &['r', 'e', 'l', 'o', 'a', 'd', '-', 'c', 'o', 'n', 'f', 'i', 'g'],
    ) {
        return Dispatch::Command(SlashCommand::ReloadConfig);
    }
    let ghost name = chars@.subrange(start as int, end as int);
    let mut i = start;
    while i < end && !char_is_whitespace(c[i])
        invariant
            start <= i <= end <= c@.len(),
            name == c@.subrange(start as int, end as int),
            forall|k: int| start <= k < i ==> !is_space(#[trigger] c@[k]),
        decreases end - i,
    {
        i = i + 1;
    }
    let t = string_from_chars(c, start, i);
    proof {
        let tv = t@;
        assert(tv =~= name.subrange(0, tv.len() as int));
        assert forall|k: int| 0 <= k < tv.len() implies !is_space(#[trigger] tv[k]) by {
            assert(tv[k] == c@[start + k]);
        }
        if tv.len() < name.len() {
            assert(name[tv.len() as int] == c@[i as int]);
        }
    }
    Dispatch::Unknown(t)
}

} // verus!
