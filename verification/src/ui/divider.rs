//! The cosmetic dividing rule between the output pad and the input pad: a
//! single horizontal line.

use vstd::prelude::*;
use crate::text::{push_repeat, repeat};

verus! {

/// The glyph the rule is drawn with (U+2500 BOX DRAWINGS LIGHT HORIZONTAL).
pub const RULE: char = '─';

/// The rule's text, filling exactly `width` columns.
pub fn rule(width: usize) -> (s: String)
    ensures
        s@ == repeat(RULE, width as nat),
{
    let mut s = String::new();
    push_repeat(&mut s, RULE, width);
    s
}

} // verus!
