//! Shell detection: which shell is wrapped decides the integration hook.

use vstd::prelude::*;
use std::path::Path;
use crate::text::{chars_of, string_from_str};
use crate::pty::BoundaryMode;

verus! {

/// Which shell kapollo is wrapping.
#[derive(Debug, Clone, Copy, PartialEq, Eq, Structural)]
pub enum ShellKind {
    Fish,
    Bash,
    Other,
}

/// Index of the last `/` in `p`, or -1 when there is none.
pub open spec fn last_slash(p: Seq<char>) -> int
    decreases p.len(),
{
    if p.len() == 0 {
        -1
    } else if p.last() == '/' {
        p.len() - 1
    } else {
        last_slash(p.drop_last())
    }
}

/// The text of `p` after its last `/` (all of it when it has none).
pub open spec fn after_last_slash(p: Seq<char>) -> Seq<char> {
    p.subrange(last_slash(p) + 1, p.len() as int)
}

/// `t` names a normal path component: non-empty, and neither `.` nor `..`
/// (`t` holds no `/` where it is used).
pub open spec fn normal_name(t: Seq<char>) -> bool {
    &&& t.len() > 0
    &&& !(t.len() <= 2 && t[0] == '.' && t[t.len() - 1] == '.')
}

/// The final component of the path `p`, as `Path::file_name` reads it.
pub uninterp spec fn file_name_spec(p: Seq<char>) -> Option<Seq<char>>;

/// The final component of the path `path` (`Path::file_name`), or `None` when
/// the path ends in `..` or has no components. When the text after the last
/// `/` is a normal name (not empty, `.` or `..`), that text is the file name.
#[verifier::external_body]
fn file_name_of(path: &str) -> (r: Option<String>)
    ensures
        r is None <==> file_name_spec(path@) is None,
        r matches Some(s) ==> file_name_spec(path@) == Some(s@),
        normal_name(after_last_slash(path@)) ==> r is Some && r->0@ == after_last_slash(path@),
{
    Path::new(path).file_name().and_then(|n| n.to_str()).map(|s| s.to_string())
}

/// `needle` occurs in `hay`.
pub open spec fn contains_chars(hay: Seq<char>, needle: Seq<char>) -> bool {
    exists|i: int|
        0 <= i <= hay.len() - needle.len() && #[trigger] hay.subrange(i, i + needle.len())
            == needle
}

/// Whether `needle` occurs in `hay`.
fn has_substring(hay: &[char], needle: &[char]) -> (b: bool)
    ensures
        b == contains_chars(hay@, needle@),
{
    let hl = hay.len();
    let nl = needle.len();
    if nl > hl {
        return false;
    }
    let last = hl - nl;
    let mut i: usize = 0;
    loop
        invariant
            hl == hay@.len(),
            nl == needle@.len(),
            last + nl == hl,
            i <= last,
            forall|k: int| 0 <= k < i ==> #[trigger] hay@.subrange(k, k + needle@.len()) != needle@,
        decreases last - i,
    {
        if crate::text::chars_eq(hay, i, i + nl, needle) {
            return true;
        }
        if i == last {
            return false;
        }
        i = i + 1;
    }
}

/// The shell a file name names: `fish` anywhere in it, else `bash` anywhere
/// in it, else some other shell.
pub open spec fn kind_of_name(name: Seq<char>) -> ShellKind {
    if contains_chars(name, seq!['f', 'i', 's', 'h']) {
        ShellKind::Fish
    } else if contains_chars(name, seq!['b', 'a', 's', 'h']) {
        ShellKind::Bash
    } else {
        ShellKind::Other
    }
}

impl ShellKind {
    /// Classify a shell from its executable path, by its file name.
    pub fn detect(path: &str) -> (k: ShellKind)
        ensures
            k == kind_of_name(
                match file_name_spec(path@) {
                    Some(n) => n,
                    None => Seq::<char>::empty(),
                },
            ),
            normal_name(after_last_slash(path@)) ==> k == kind_of_name(after_last_slash(path@)),
    {
        let name = match file_name_of(path) {
            Some(n) => n,
            None => String::new(),
        };
        let chars = chars_of(name.as_str());
        if has_substring(chars.as_slice(), &['f', 'i', 's', 'h']) {
            ShellKind::Fish
        } else if has_substring(chars.as_slice(), &['b', 'a', 's', 'h']) {
            ShellKind::Bash
        } else {
            ShellKind::Other
        }
    }
}

/// The shell to wrap: the explicit override, then the `SHELL` environment
/// value, then `/bin/sh`.
pub fn choose_shell(shell_override: Option<&str>, env_shell: Option<String>) -> (s: String)
    ensures
        s@ == match shell_override {
            Some(o) => o@,
            None => match env_shell {
                Some(e) => e@,
                None => "/bin/sh"@,
            },
        },
{
    match shell_override {
        Some(o) => string_from_str(o),
        None => match env_shell {
            Some(e) => e,
            None => string_from_str("/bin/sh"),
        },
    }
}

/// fish integration, run by `--init-command` after the user's config:
/// `fish_preexec`/`fish_postexec` hooks that emit OSC 133 `C` (output start)
/// and `D;<status>` (command end with its exit code), and a `fish_prompt`
/// hook that reports the working directory with OSC 7.
pub const FISH_HOOK: &'static str = "function __kapollo_preexec --on-event fish_preexec; printf '\\e]133;C\\e\\\\'; end; function __kapollo_postexec --on-event fish_postexec; set -l __kapollo_status $status; printf '\\e]133;D;%s\\e\\\\' $__kapollo_status; end; function __kapollo_cwd --on-event fish_prompt; printf '\\e]7;file://%s%s\\e\\\\' (hostname) \"$PWD\"; end";

/// bash integration, sourced from a generated rcfile: it keeps the user's
/// `~/.bashrc`, emits OSC 133 `C` from `PS0` (after a command is read,
/// before it runs), and `D;<exit>` plus OSC 7 from `PROMPT_COMMAND`.
pub const BASH_HOOK: &'static str = "[ -f ~/.bashrc ] && . ~/.bashrc\n__kapollo_cmd_end() { local __kapollo_e=$?; printf '\\e]133;D;%s\\e\\\\' \"$__kapollo_e\"; printf '\\e]7;file://%s%s\\e\\\\' \"${HOSTNAME:-localhost}\" \"$PWD\"; }\nPS0=$'\\e]133;C\\e\\\\'\ncase \"${PROMPT_COMMAND:-}\" in\n  *__kapollo_cmd_end*) ;;\n  *) PROMPT_COMMAND=\"__kapollo_cmd_end${PROMPT_COMMAND:+; $PROMPT_COMMAND}\" ;;\nesac\n";

/// Whether the shell needs a generated rcfile holding [`BASH_HOOK`]: bash
/// with OSC 133 boundaries.
pub fn needs_rcfile(kind: ShellKind, mode: BoundaryMode) -> (b: bool)
    ensures
        b == (kind == ShellKind::Bash && mode == BoundaryMode::Osc133),
{
    match (kind, mode) {
        (ShellKind::Bash, BoundaryMode::Osc133) => true,
        _ => false,
    }
}

/// The arguments the wrapped shell starts with: with OSC 133 boundaries,
/// fish gets [`FISH_HOOK`] as an init command and bash the rcfile at
/// `rcfile` (interactive); otherwise none.
pub open spec fn shell_args_spec(kind: ShellKind, mode: BoundaryMode, rcfile: Option<Seq<char>>) -> Seq<Seq<char>> {
    if mode == BoundaryMode::Osc133 {
        match kind {
            ShellKind::Fish => seq!["--init-command"@, FISH_HOOK@],
            ShellKind::Bash => match rcfile {
                Some(p) => seq!["--rcfile"@, p, "-i"@],
                None => seq![],
            },
            ShellKind::Other => seq![],
        }
    } else {
        seq![]
    }
}

/// The arguments the wrapped shell starts with (see [`shell_args_spec`]).
pub fn shell_args(kind: ShellKind, mode: BoundaryMode, rcfile: Option<&str>) -> (v: Vec<String>)
    ensures
        v@.map_values(|a: String| a@) == shell_args_spec(
            kind,
            mode,
            match rcfile {
                Some(p) => Some(p@),
                None => None,
            },
        ),
{
    let mut v: Vec<String> = Vec::new();
    match mode {
        BoundaryMode::Osc133 => match kind {
            ShellKind::Fish => {
                v.push(string_from_str("--init-command"));
                v.push(string_from_str(FISH_HOOK));
            },
            ShellKind::Bash => match rcfile {
                Some(p) => {
                    v.push(string_from_str("--rcfile"));
                    v.push(string_from_str(p));
                    v.push(string_from_str("-i"));
                },
                None => {},
            },
            ShellKind::Other => {},
        },
        BoundaryMode::Sentinel => {},
    }
    proof {
        let r = match rcfile {
            Some(p) => Some(p@),
            None => None,
        };
        assert(v@.map_values(|a: String| a@) =~= shell_args_spec(kind, mode, r));
    }
    v
}

} // verus!
