//! Input router: whether a submitted line is a slash command or shell input,
//! and where a mouse event goes.

use vstd::prelude::*;

verus! {

/// The routing decision for a submitted line.
#[derive(Debug, Clone, PartialEq, Eq)]
pub enum Routed {
    /// A slash command, with its leader stripped (`/help` → `help`).
    Slash(String),
    /// Literal input for the wrapped shell.
    Shell(String),
}

/// The view of a routing decision: `(is_slash, text)`.
pub open spec fn routed_view(r: Routed) -> (bool, Seq<char>) {
    match r {
        Routed::Slash(s) => (true, s@),
        Routed::Shell(s) => (false, s@),
    }
}

/// The routing rule: a leading leader makes a slash command with one leader
/// stripped, unless the leader is doubled, which escapes to literal shell
/// input with one leader stripped; anything else goes to the shell as is.
pub open spec fn route_spec(line: Seq<char>, leader: char) -> (bool, Seq<char>) {
    if line.len() == 0 || line[0] != leader {
        (false, line)
    } else if line.len() >= 2 && line[1] == leader {
        (false, line.subrange(1, line.len() as int))
    } else {
        (true, line.subrange(1, line.len() as int))
    }
}

/// Route `line` according to `leader`.
pub fn route(line: &str, leader: char) -> (r: Routed)
    ensures
        routed_view(r) == route_spec(line@, leader),
{
    let chars = crate::text::chars_of(line);
    let n = chars.len();
    if n == 0 || chars[0] != leader {
        return Routed::Shell(crate::text::string_from_str(line));
    }
    let rest = crate::text::string_from_chars(&chars, 1, n);
    if n >= 2 && chars[1] == leader {
        Routed::Shell(rest)
    } else {
        Routed::Slash(rest)
    }
}

/// Where a mouse event goes.
#[derive(Debug, Clone, Copy, PartialEq, Eq, Structural)]
pub enum MouseRoute {
    /// Forward to the wrapped child program.
    ToChild,
    /// kapollo consumes it for selection or scrollback.
    Consumed,
    /// Leave it to the host terminal (Shift-held native selection).
    Bypass,
}

/// Shift always goes to the host; otherwise a full-screen or mouse-tracking
/// child owns the mouse; otherwise kapollo consumes the event.
pub fn route_mouse(shift: bool, alt_screen: bool, child_mouse: bool) -> (r: MouseRoute)
    ensures
        r == if shift {
            MouseRoute::Bypass
        } else if alt_screen || child_mouse {
            MouseRoute::ToChild
        } else {
            MouseRoute::Consumed
        },
{
    if shift {
        MouseRoute::Bypass
    } else if alt_screen || child_mouse {
        MouseRoute::ToChild
    } else {
        MouseRoute::Consumed
    }
}

/// A doubled leader always reaches the shell with exactly one leader
/// stripped, whatever follows it.
pub proof fn lemma_doubled_leader_escapes(rest: Seq<char>, leader: char)
    ensures
        route_spec(seq![leader, leader] + rest, leader) == (false, seq![leader] + rest),
{
    let line = seq![leader, leader] + rest;
    assert(line.subrange(1, line.len() as int) =~= seq![leader] + rest);
}

/// A line starting with a single leader is a slash command naming the rest.
pub proof fn lemma_single_leader_is_slash(rest: Seq<char>, leader: char)
    requires
        rest.len() == 0 || rest[0] != leader,
    ensures
        route_spec(seq![leader] + rest, leader) == (true, rest),
{
    let line = seq![leader] + rest;
    assert(line.subrange(1, line.len() as int) =~= rest);
}

} // verus!
