//! The input pad's text: each line of the buffer, split around the part the
//! selection covers so that part can be drawn highlighted.

use vstd::prelude::*;
use crate::action::{pieces_view, split_on};
use crate::input::selection::{sel_range, InputSelection};

verus! {

/// One line of the pad: the text before the selection, the selected text
/// (empty when the selection does not reach this line), and the text after.
#[derive(Debug, Clone, PartialEq, Eq)]
pub struct LineSpans {
    pub before: String,
    pub selected: String,
    pub after: String,
}

/// The view of a line's spans.
pub open spec fn spans_view(l: LineSpans) -> (Seq<char>, Seq<char>, Seq<char>) {
    (l.before@, l.selected@, l.after@)
}

/// The spans of line `p`, which starts at offset `g` of the buffer, for the
/// selected range `sel` (`start..end`).
pub open spec fn line_spans(p: Seq<char>, g: int, sel: Option<(int, int)>) -> (Seq<char>, Seq<char>, Seq<char>) {
    match sel {
        Some((s, e)) => {
            let a = if s > g {
                s
            } else {
                g
            };
            let b = if e < g + p.len() {
                e
            } else {
                g + p.len()
            };
            if a < b {
                (p.subrange(0, a - g), p.subrange(a - g, b - g), p.subrange(b - g, p.len() as int))
            } else {
                (p, seq![], seq![])
            }
        },
        None => (p, seq![], seq![]),
    }
}

/// The spans of each line of `ps`, the first starting at offset `g`; each
/// line is followed by its `\n`.
pub open spec fn spans_from(ps: Seq<Seq<char>>, g: int, sel: Option<(int, int)>) -> Seq<(Seq<char>, Seq<char>, Seq<char>)>
    decreases ps.len(),
{
    if ps.len() == 0 {
        seq![]
    } else {
        seq![line_spans(ps[0], g, sel)] + spans_from(ps.drop_first(), g + ps[0].len() + 1, sel)
    }
}

/// The selected range, when the selection is non-empty.
pub open spec fn active_range(sel: Option<InputSelection>) -> Option<(int, int)> {
    match sel {
        Some(s) => if s.anchor == s.caret {
            None
        } else {
            Some((sel_range(s).0 as int, sel_range(s).1 as int))
        },
        None => None,
    }
}

/// The pad's lines, each split around the selected range.
pub fn input_lines(buffer: &str, selection: Option<InputSelection>) -> (out: Vec<LineSpans>)
    ensures
        out@.map_values(|l: LineSpans| spans_view(l)) == spans_from(
            split_on(buffer@, '\n'),
            0,
            active_range(selection),
        ),
{
    let sel: Option<(usize, usize)> = match selection {
        Some(s) => if s.is_empty() {
            None
        } else {
            Some(s.range())
        },
        None => None,
    };
    let ghost sr = active_range(selection);
    let chars = crate::text::chars_of(buffer);
    let lines = crate::action::split_lines_on(chars.as_slice(), '\n');
    let ghost pv = pieces_view(lines@);
    let mut out: Vec<LineSpans> = Vec::new();
    let mut global: u128 = 0;
    let mut i: usize = 0;
    assert(pv.subrange(0, pv.len() as int) =~= pv);
    while i < lines.len()
        invariant
            i <= lines@.len(),
            pv == pieces_view(lines@),
            pv == split_on(buffer@, '\n'),
            global <= i * 0x1_0000_0000_0000_0001,
            sr == match sel {
                Some((a, b)) => Some((a as int, b as int)),
                None => None::<(int, int)>,
            },
            spans_from(pv, 0, sr) == out@.map_values(|l: LineSpans| spans_view(l)) + spans_from(
                pv.subrange(i as int, pv.len() as int),
                global as int,
                sr,
            ),
        decreases lines.len() - i,
    {
        let line = &lines[i];
        let n = line.len();
        let ghost rest = pv.subrange(i as int, pv.len() as int);
        assert(rest[0] == line@);
        assert(rest.drop_first() =~= pv.subrange(i + 1, pv.len() as int));
        let spans = match sel {
            Some((s, e)) => {
                let a: u128 = if s as u128 > global { s as u128 } else { global };
                let b: u128 = if (e as u128) < global + n as u128 { e as u128 } else { global + n as u128 };
                if a < b {
                    let la = (a - global) as usize;
                    let lb = (b - global) as usize;
                    LineSpans {
                        before: crate::text::string_from_chars(line.as_slice(), 0, la),
                        selected: crate::text::string_from_chars(line.as_slice(), la, lb),
                        after: crate::text::string_from_chars(line.as_slice(), lb, n),
                    }
                } else {
                    LineSpans {
                        before: crate::text::string_of(line.as_slice()),
                        selected: String::new(),
                        after: String::new(),
                    }
                }
            },
            None => LineSpans {
                before: crate::text::string_of(line.as_slice()),
                selected: String::new(),
                after: String::new(),
            },
        };
        assert(spans_view(spans) == line_spans(line@, global as int, sr));
        let ghost prev = out@;
        out.push(spans);
        assert(out@.map_values(|l: LineSpans| spans_view(l)) =~= prev.map_values(
            |l: LineSpans| spans_view(l),
        ).push(spans_view(spans)));
        global = global + n as u128 + 1;
        i = i + 1;
    }
    assert(pv.subrange(i as int, pv.len() as int) =~= Seq::<Seq<char>>::empty());
    assert(out@.map_values(|l: LineSpans| spans_view(l)) + Seq::<(Seq<char>, Seq<char>, Seq<char>)>::empty()
        =~= out@.map_values(|l: LineSpans| spans_view(l)));
    out
}

} // verus!
