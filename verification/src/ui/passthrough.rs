//! Full-screen passthrough: while the wrapped program owns the alternate
//! screen, its output goes straight to the terminal and keystrokes go to it
//! verbatim. The terminal I/O itself lives in the application.

use vstd::prelude::*;
use crate::action::{KeyCode, KeyEvent};
use crate::term::key_bytes_spec;

verus! {

/// Raw terminal input forwarded to the program during passthrough, as is:
/// no decoding, so terminal query replies reach it intact.
pub fn forward_stdin(raw: &[u8]) -> (r: &[u8])
    ensures
        r@ == raw@,
{
    raw
}

/// The reset written when a full-screen program leaves the alternate
/// screen: an SGR reset, then show-cursor.
pub open spec fn reset_sequence() -> Seq<u8> {
    seq![27u8, 91, 48, 109, 27, 91, 63, 50, 53, 104]
}

/// The bytes of [`reset_sequence`].
pub fn reset_bytes() -> (b: Vec<u8>)
    ensures
        b@ == reset_sequence(),
{
    let v = vec![27u8, 91, 48, 109, 27, 91, 63, 50, 53, 104];
    assert(v@ =~= reset_sequence());
    v
}

/// The bytes forwarded for a key press during passthrough: as
/// [`key_bytes_spec`], plus Shift-Tab and Insert.
pub open spec fn passthrough_bytes(code: KeyCode, ctrl: bool) -> Option<Seq<u8>> {
    match code {
        KeyCode::BackTab => Some(seq![27u8, 91, 90]),
        KeyCode::Insert => Some(seq![27u8, 91, 50, 126]),
        _ => key_bytes_spec(code, ctrl),
    }
}

/// Encode a key press into the bytes a terminal would send the program.
/// `None` for keys with no passthrough mapping.
pub fn encode_key(key: KeyEvent) -> (r: Option<Vec<u8>>)
    ensures
        match passthrough_bytes(key.code, key.modifiers.control) {
            Some(b) => r matches Some(v) && v@ == b,
            None => r is None,
        },
{
    match key.code {
        KeyCode::BackTab => {
            let v = vec![27u8, 91, 90];
            assert(v@ =~= seq![27u8, 91, 90]);
            Some(v)
        },
        KeyCode::Insert => {
            let v = vec![27u8, 91, 50, 126];
            assert(v@ =~= seq![27u8, 91, 50, 126]);
            Some(v)
        },
        _ => crate::term::encode_key(key),
    }
}

} // verus!
