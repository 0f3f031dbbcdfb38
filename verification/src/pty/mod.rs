//! The wrapped shell: how block boundaries are detected for it and how a
//! command line is handed to it. Spawning the PTY, the reader thread and the
//! byte I/O live in the application around this library.

pub mod shell;

pub use shell::ShellKind;

use vstd::prelude::*;

verus! {

/// How block boundaries are detected for a session.
#[derive(Debug, Clone, Copy, PartialEq, Eq, Structural)]
pub enum BoundaryMode {
    /// OSC 133 semantic prompt marks (fish/bash hook installed).
    Osc133,
    /// Sentinel-nonce fallback for shells without a hook.
    Sentinel,
}

/// An event produced by the wrapped shell, delivered to the event loop.
#[derive(Debug)]
pub enum PtyEvent {
    /// Raw bytes read from the PTY master.
    Output(Vec<u8>),
    /// The wrapped shell exited, with its exit code when known.
    Exited(Option<i32>),
}

/// The boundary mode for a shell: fish and bash get the OSC 133 hook, any
/// other shell the sentinel fallback.
pub open spec fn mode_for_spec(kind: ShellKind) -> BoundaryMode {
    match kind {
        ShellKind::Fish | ShellKind::Bash => BoundaryMode::Osc133,
        ShellKind::Other => BoundaryMode::Sentinel,
    }
}

/// The boundary mode a session on a shell of `kind` uses.
pub fn boundary_mode_for(kind: ShellKind) -> (m: BoundaryMode)
    ensures
        m == mode_for_spec(kind),
{
    match kind {
        ShellKind::Fish | ShellKind::Bash => BoundaryMode::Osc133,
        ShellKind::Other => BoundaryMode::Sentinel,
    }
}

/// The text written to the shell to run `line`: in OSC 133 mode the line and
/// a newline; in sentinel mode the line followed by a POSIX `printf` that
/// prints the nonce, `;`, the exit status and a newline.
pub open spec fn command_text(mode: BoundaryMode, line: Seq<char>, nonce: Seq<char>) -> Seq<char> {
    match mode {
        BoundaryMode::Osc133 => line + seq!['\n'],
        BoundaryMode::Sentinel => line + "\nprintf '%s;%d\\n' '"@ + nonce + "' \"$?\"\n"@,
    }
}

/// The text to write to the shell to submit `line`.
pub fn command_text_for(mode: BoundaryMode, line: &str, nonce: &str) -> (s: String)
    ensures
        s@ == command_text(mode, line@, nonce@),
{
    let mut s = crate::text::string_from_str(line);
    match mode {
        BoundaryMode::Osc133 => {
            crate::text::string_push(&mut s, '\n');
        },
        BoundaryMode::Sentinel => {
            s.append("\nprintf '%s;%d\\n' '");
            s.append(nonce);
            s.append("' \"$?\"\n");
        },
    }
    s
}

} // verus!
