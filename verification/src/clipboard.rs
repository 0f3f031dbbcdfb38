//! Clipboard: OSC 52 framing for terminal-mediated copy (the default path,
//! which also works over SSH) and the choice between it and the local OS
//! clipboard.

use vstd::prelude::*;
use base64::Engine;

verus! {

/// The base64 alphabet: `A`–`Z`, `a`–`z`, `0`–`9`, `+`, `/` for the six-bit
/// values 0 to 63.
pub open spec fn base64_digit(v: int) -> char {
    if v < 26 {
        (65 + v) as char
    } else if v < 52 {
        (97 + v - 26) as char
    } else if v < 62 {
        (48 + v - 52) as char
    } else if v == 62 {
        '+'
    } else {
        '/'
    }
}

/// The standard (RFC 4648, padded) base64 text of `data`: each group of
/// three bytes becomes four digits of six bits each, and a last group of one
/// or two bytes becomes two or three digits padded with `=` to four.
pub open spec fn base64_of(data: Seq<u8>) -> Seq<char>
    decreases data.len(),
{
    if data.len() == 0 {
        seq![]
    } else if data.len() == 1 {
        let b0 = data[0] as int;
        seq![base64_digit(b0 / 4), base64_digit((b0 % 4) * 16), '=', '=']
    } else if data.len() == 2 {
        let b0 = data[0] as int;
        let b1 = data[1] as int;
        seq![base64_digit(b0 / 4), base64_digit((b0 % 4) * 16 + b1 / 16), base64_digit((b1 % 16) * 4), '=']
    } else {
        let b0 = data[0] as int;
        let b1 = data[1] as int;
        let b2 = data[2] as int;
        seq![
            base64_digit(b0 / 4),
            base64_digit((b0 % 4) * 16 + b1 / 16),
            base64_digit((b1 % 16) * 4 + b2 / 64),
            base64_digit(b2 % 64),
        ] + base64_of(data.subrange(3, data.len() as int))
    }
}

/// The length of the padded base64 text of `n` bytes.
pub open spec fn base64_len(n: nat) -> nat {
    (n + 2) / 3 * 4
}

/// Encode `data` as standard padded base64
/// (`base64::engine::general_purpose::STANDARD.encode`). Four output chars
/// per started group of three input bytes; nothing for nothing. The crate
/// panics when that length overflows `usize`, which `requires` rules out.
#[verifier::external_body]
fn base64_standard(data: &[u8]) -> (s: String)
    requires
        base64_len(data@.len()) <= usize::MAX,
    ensures
        s@ == base64_of(data@),
        s@.len() == base64_len(data@.len()),
{
    base64::engine::general_purpose::STANDARD.encode(data)
}

/// The OSC 52 clipboard-set sequence for `data`:
/// `ESC ] 52 ; c ; <base64> ESC \`, targeting the system clipboard.
pub open spec fn osc52_spec(data: Seq<u8>) -> Seq<char> {
    "\x1b]52;c;"@ + base64_of(data) + "\x1b\\"@
}

/// Frame arbitrary bytes as an OSC 52 clipboard-set sequence.
pub fn osc52_frame(data: &[u8]) -> (s: String)
    requires
        base64_len(data@.len()) <= usize::MAX,
    ensures
        s@ == osc52_spec(data@),
{
    let encoded = base64_standard(data);
    let mut s = String::new();
    s.append("\x1b]52;c;");
    s.append(encoded.as_str());
    s.append("\x1b\\");
    s
}

/// How a copy is carried out.
#[derive(Debug, Clone, PartialEq, Eq)]
pub enum CopyMethod {
    /// Write these bytes to the terminal to set the clipboard via OSC 52.
    Osc52(String),
    /// Place the text on the local OS clipboard.
    Local,
}

/// Why a copy cannot be made.
#[derive(Debug, Clone, PartialEq, Eq)]
pub enum CopyError {
    /// Neither OSC 52 nor the local clipboard is enabled.
    NoMethodEnabled,
}

/// Choose how to copy `text`: OSC 52 when enabled (the frame to write is
/// returned), else the local clipboard when the fallback is enabled, else an
/// error, so that a copy is never dropped silently.
pub fn copy(text: &str, osc52: bool, local_fallback: bool) -> (r: Result<CopyMethod, CopyError>)
    requires
        osc52 ==> base64_len(vstd::utf8::encode_utf8(text@).len()) <= usize::MAX,
    ensures
        osc52 ==> (r matches Ok(CopyMethod::Osc52(f)) && f@ == osc52_spec(
            vstd::utf8::encode_utf8(text@),
        )),
        !osc52 && local_fallback ==> r == Ok::<CopyMethod, CopyError>(CopyMethod::Local),
        !osc52 && !local_fallback ==> r == Err::<CopyMethod, CopyError>(CopyError::NoMethodEnabled),
{
    if osc52 {
        return Ok(CopyMethod::Osc52(osc52_frame(text.as_bytes())));
    }
    if local_fallback {
        return Ok(CopyMethod::Local);
    }
    Err(CopyError::NoMethodEnabled)
}

} // verus!
