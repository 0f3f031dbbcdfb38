//! OSC 8 hyperlink framing.

use vstd::prelude::*;

verus! {

/// The OSC 8 sequence that makes `text` a link to `url`:
/// `ESC ] 8 ; ; url ST text ESC ] 8 ; ; ST`, with `ST` = `ESC \`.
pub open spec fn osc8_spec(url: Seq<char>, text: Seq<char>) -> Seq<char> {
    seq!['\x1b', ']', '8', ';', ';'] + url + seq!['\x1b', '\\'] + text + seq![
        '\x1b',
        ']',
        '8',
        ';',
        ';',
        '\x1b',
        '\\',
    ]
}

/// Frame `text` as an OSC 8 hyperlink pointing at `url`.
pub fn osc8(url: &str, text: &str) -> (s: String)
    ensures
        s@ == osc8_spec(url@, text@),
{
    let mut s = String::new();
    crate::text::push_all(&mut s, &['\x1b', ']', '8', ';', ';']);
    s.append(url);
    crate::text::push_all(&mut s, &['\x1b', '\\']);
    s.append(text);
    crate::text::push_all(&mut s, &['\x1b', ']', '8', ';', ';', '\x1b', '\\']);
    assert(s@ =~= osc8_spec(url@, text@));
    s
}

} // verus!
