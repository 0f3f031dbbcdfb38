//! Layout and rendering helpers for the split-pad UI that need no terminal:
//! the status bar, the dividing rule, the transcript and input pad text, and
//! full-screen passthrough encodings.

pub mod divider;
pub mod input_pad;
pub mod passthrough;
pub mod status;
pub mod transcript;

use vstd::prelude::*;
use crate::input::pad::{count_nl, InputPad};

verus! {

/// Maximum input-pad content height in lines before it scrolls internally.
pub const MAX_INPUT_LINES: u16 = 10;

/// The input pad's height for `lines` lines of content: the count clamped
/// to `[1, MAX_INPUT_LINES]`.
pub open spec fn pad_height_spec(lines: nat) -> u16 {
    if lines < 1 {
        1
    } else if lines > MAX_INPUT_LINES {
        MAX_INPUT_LINES
    } else {
        lines as u16
    }
}

/// The input pad's content height in lines, clamped to `[1, MAX_INPUT_LINES]`.
pub fn input_pad_height(input: &InputPad) -> (h: u16)
    requires
        input.wf(),
    ensures
        h == pad_height_spec(count_nl(input@.0) + 1),
        1 <= h <= MAX_INPUT_LINES,
{
    let n = input.line_count();
    if n < 1 {
        1
    } else if n > MAX_INPUT_LINES as usize {
        MAX_INPUT_LINES
    } else {
        n as u16
    }
}

} // verus!
