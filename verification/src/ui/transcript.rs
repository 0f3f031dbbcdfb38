//! The transcript pad's text: each block as its prompt-prefixed command line
//! followed by its output, a blank line between blocks, and markers for
//! truncated output and interactive programs. Tabs are expanded to spaces so
//! no raw tab ever reaches the terminal.

use vstd::prelude::*;
use crate::session::block::{lossy_utf8, Block, BlockState};
use crate::text::{chars_of, repeat, string_push};
use crate::action::split_on;

verus! {

/// Display tab stop width.
pub const TAB_WIDTH: usize = 8;

/// `s` with each tab expanded to spaces up to the next tab stop, given the
/// column's offset `r` past the last tab stop (`0 <= r < 8`).
pub open spec fn expand_from(s: Seq<char>, r: nat) -> Seq<char>
    decreases s.len(),
{
    if s.len() == 0 {
        seq![]
    } else if s[0] == '\t' {
        repeat(' ', (8 - r) as nat) + expand_from(s.drop_first(), 0)
    } else {
        seq![s[0]] + expand_from(s.drop_first(), (r + 1) % 8)
    }
}

/// `text`, starting at display column `start_col`, with tabs expanded.
pub open spec fn expand_tabs_spec(text: Seq<char>, start_col: nat) -> Seq<char> {
    expand_from(text, start_col % 8)
}

proof fn lemma_expand_split(s: Seq<char>, r: nat, i: int)
    requires
        0 <= i < s.len(),
        r < 8,
    ensures
        expand_from(s.subrange(i, s.len() as int), r) == (if s[i] == '\t' {
            repeat(' ', (8 - r) as nat) + expand_from(s.subrange(i + 1, s.len() as int), 0)
        } else {
            seq![s[i]] + expand_from(s.subrange(i + 1, s.len() as int), (r + 1) % 8)
        }),
{
    let t = s.subrange(i, s.len() as int);
    assert(t.drop_first() =~= s.subrange(i + 1, s.len() as int));
    assert(t[0] == s[i]);
}

/// Expand tab characters in `text` to spaces, advancing to the next multiple
/// of [`TAB_WIDTH`] from `start_col`, the display column where `text` begins.
pub fn expand_tabs(text: &str, start_col: usize) -> (out: String)
    ensures
        out@ == expand_tabs_spec(text@, start_col as nat),
{
    let chars = chars_of(text);
    let mut out = String::new();
    let mut r: usize = start_col % TAB_WIDTH;
    let mut i: usize = 0;
    assert(chars@.subrange(0, chars@.len() as int) =~= chars@);
    while i < chars.len()
        invariant
            i <= chars@.len(),
            r < 8,
            chars@ == text@,
            expand_tabs_spec(text@, start_col as nat) == out@ + expand_from(
                chars@.subrange(i as int, chars@.len() as int),
                r as nat,
            ),
        decreases chars.len() - i,
    {
        let ch = chars[i];
        proof {
            lemma_expand_split(chars@, r as nat, i as int);
        }
        if ch == '\t' {
            crate::text::push_repeat(&mut out, ' ', TAB_WIDTH - r);
            r = 0;
        } else {
            string_push(&mut out, ch);
            r = (r + 1) % TAB_WIDTH;
        }
        i = i + 1;
    }
    assert(chars@.subrange(i as int, chars@.len() as int) =~= Seq::<char>::empty());
    assert(out@ + Seq::<char>::empty() =~= out@);
    out
}

/// One display line of the transcript: the prompt glyph it starts with (the
/// command echo's), if any, and its text.
#[derive(Debug, Clone, PartialEq, Eq)]
pub struct TextLine {
    pub prompt: Option<char>,
    pub text: String,
}

/// The view of a display line.
pub open spec fn line_view(l: TextLine) -> (Option<char>, Seq<char>) {
    (l.prompt, l.text@)
}

/// `p` without one trailing carriage return.
pub open spec fn strip_cr(p: Seq<char>) -> Seq<char> {
    if p.len() > 0 && p.last() == '\r' {
        p.drop_last()
    } else {
        p
    }
}

/// The lines of `s` (`str::lines`): split at `\n` (a `\r` right before a
/// `\n` belongs to the line ending), with no empty last line after a final
/// line ending.
pub open spec fn text_lines(s: Seq<char>) -> Seq<Seq<char>> {
    let pieces = split_on(s, '\n');
    if s.len() == 0 {
        seq![]
    } else if s.last() == '\n' {
        pieces.drop_last().map_values(|p: Seq<char>| strip_cr(p))
    } else {
        pieces.drop_last().map_values(|p: Seq<char>| strip_cr(p)).push(pieces.last())
    }
}

/// The display lines of one block.
pub open spec fn block_lines(b: Block, prompt_char: char) -> Seq<(Option<char>, Seq<char>)> {
    seq![(Some(prompt_char), expand_tabs_spec(b.command@, 2))] + (if b.output@.1 {
        seq![(None::<char>, "… output truncated …"@)]
    } else {
        seq![]
    }) + text_lines(lossy_utf8(b.output@.0)).map_values(
        |l: Seq<char>| (None::<char>, expand_tabs_spec(l, 0)),
    ) + (if b.state == BlockState::Interactive {
        seq![(None::<char>, "[interactive program]"@)]
    } else {
        seq![]
    })
}

/// The display lines of `bs`, a blank line between consecutive blocks.
pub open spec fn transcript_lines(bs: Seq<Block>, prompt_char: char) -> Seq<(Option<char>, Seq<char>)>
    decreases bs.len(),
{
    if bs.len() == 0 {
        seq![]
    } else {
        transcript_lines(bs.drop_last(), prompt_char) + (if bs.len() > 1 {
            seq![(None::<char>, Seq::<char>::empty())]
        } else {
            seq![]
        }) + block_lines(bs.last(), prompt_char)
    }
}

/// The lines of `s`, as [`text_lines`].
fn split_text_lines(s: &[char]) -> (ls: Vec<Vec<char>>)
    ensures
        crate::action::pieces_view(ls@) == text_lines(s@),
{
    let pieces = crate::action::split_lines_on(s, '\n');
    let ghost pv = crate::action::pieces_view(pieces@);
    let mut ls: Vec<Vec<char>> = Vec::new();
    if s.len() == 0 {
        assert(crate::action::pieces_view(ls@) =~= text_lines(s@));
        return ls;
    }
    proof {
        crate::action::lemma_split_nonempty(s@, '\n');
    }
    let n = pieces.len();
    let mut i: usize = 0;
    while i + 1 < n
        invariant
            n == pieces@.len(),
            n >= 1,
            i + 1 <= n,
            pv == crate::action::pieces_view(pieces@),
            crate::action::pieces_view(ls@) == pv.subrange(0, i as int).map_values(
                |p: Seq<char>| strip_cr(p),
            ),
        decreases n - i,
    {
        let p = &pieces[i];
        let len = p.len();
        let stripped = if len > 0 && p[len - 1] == '\r' {
            crate::text::chars_vec_range(p.as_slice(), 0, len - 1)
        } else {
            crate::text::chars_vec_range(p.as_slice(), 0, len)
        };
        proof {
            assert(pv[i as int] == p@);
            assert(p@.drop_last() =~= p@.subrange(0, p@.len() - 1));
            assert(p@.subrange(0, p@.len() as int) =~= p@);
        }
        let ghost before = ls@;
        ls.push(stripped);
        proof {
            assert(pv.subrange(0, i + 1) =~= pv.subrange(0, i as int).push(pv[i as int]));
            assert(crate::action::pieces_view(ls@) =~= crate::action::pieces_view(before).push(
                stripped@,
            ));
            assert(pv.subrange(0, i + 1).map_values(|p: Seq<char>| strip_cr(p)) =~= pv.subrange(
                0,
                i as int,
            ).map_values(|p: Seq<char>| strip_cr(p)).push(strip_cr(pv[i as int])));
        }
        i = i + 1;
    }
    assert(pv.subrange(0, i as int) =~= pv.drop_last());
    if s[s.len() - 1] != '\n' {
        let last = crate::text::chars_vec_range(pieces[n - 1].as_slice(), 0, pieces[n - 1].len());
        let ghost before = ls@;
        ls.push(last);
        proof {
            assert(pieces[n - 1]@.subrange(0, pieces[n - 1]@.len() as int) =~= pieces[n - 1]@);
            assert(pv.last() == pieces@[n - 1]@);
            assert(crate::action::pieces_view(ls@) =~= crate::action::pieces_view(before).push(
                last@,
            ));
        }
    }
    ls
}

/// The transcript's display lines: for each block, its prompt-prefixed
/// command echo, a truncation marker when output was dropped, its output
/// lines and an interactive-program marker while it runs one; a blank line
/// separates consecutive blocks. Tabs are expanded throughout.
pub fn lines(blocks: &[Block], prompt_char: char) -> (out: Vec<TextLine>)
    ensures
        out@.map_values(|l: TextLine| line_view(l)) == transcript_lines(blocks@, prompt_char),
{
    let mut out: Vec<TextLine> = Vec::new();
    let mut index: usize = 0;
    while index < blocks.len()
        invariant
            index <= blocks@.len(),
            out@.map_values(|l: TextLine| line_view(l)) == transcript_lines(
                blocks@.subrange(0, index as int),
                prompt_char,
            ),
        decreases blocks.len() - index,
    {
        let block = &blocks[index];
        let ghost sub = blocks@.subrange(0, index + 1);
        assert(sub.drop_last() =~= blocks@.subrange(0, index as int));
        assert(sub.last() == *block);
        let ghost before = out@.map_values(|l: TextLine| line_view(l));
        if index > 0 {
            out.push(TextLine { prompt: None, text: String::new() });
        }
        let ghost sep: Seq<(Option<char>, Seq<char>)> = if index > 0 {
            seq![(None::<char>, Seq::<char>::empty())]
        } else {
            seq![]
        };
        assert(out@.map_values(|l: TextLine| line_view(l)) =~= before + sep);
        let ghost v0 = out@;
        let cmd = expand_tabs(block.command.as_str(), 2);
        out.push(TextLine { prompt: Some(prompt_char), text: cmd });
        assert(out@.map_values(|l: TextLine| line_view(l)) =~= v0.map_values(|l: TextLine| line_view(l)).push((Some(prompt_char), cmd@)));
        let ghost trunc: Seq<(Option<char>, Seq<char>)> = if block.output@.1 {
            seq![(None::<char>, "… output truncated …"@)]
        } else {
            seq![]
        };
        let ghost v1 = out@;
        if block.truncated() {
            let t = crate::text::string_from_str("… output truncated …");
            out.push(TextLine { prompt: None, text: t });
            assert(out@.map_values(|l: TextLine| line_view(l)) =~= v1.map_values(|l: TextLine| line_view(l)).push((None::<char>, t@)));
        }
        assert(out@.map_values(|l: TextLine| line_view(l)) =~= before + sep + seq![(Some(prompt_char), expand_tabs_spec(block.command@, 2))] + trunc);
        let output = block.output_lossy();
        let out_chars = chars_of(output.as_str());
        let ls = split_text_lines(out_chars.as_slice());
        let ghost lv = crate::action::pieces_view(ls@);
        let ghost head = out@.map_values(|l: TextLine| line_view(l));
        let mut k: usize = 0;
        while k < ls.len()
            invariant
                k <= ls@.len(),
                lv == crate::action::pieces_view(ls@),
                out@.map_values(|l: TextLine| line_view(l)) == head + lv.subrange(0, k as int).map_values(
                    |l: Seq<char>| (None::<char>, expand_tabs_spec(l, 0)),
                ),
            decreases ls.len() - k,
        {
            let s = crate::text::string_of(ls[k].as_slice());
            let t = expand_tabs(s.as_str(), 0);
            let ghost prev = out@;
            out.push(TextLine { prompt: None, text: t });
            proof {
                assert(lv[k as int] == ls@[k as int]@);
                assert(out@.map_values(|l: TextLine| line_view(l)) =~= prev.map_values(
                    |l: TextLine| line_view(l),
                ).push((None::<char>, t@)));
                assert(lv.subrange(0, k + 1).map_values(
                    |l: Seq<char>| (None::<char>, expand_tabs_spec(l, 0)),
                ) =~= lv.subrange(0, k as int).map_values(
                    |l: Seq<char>| (None::<char>, expand_tabs_spec(l, 0)),
                ).push((None::<char>, expand_tabs_spec(lv[k as int], 0))));
            }
            k = k + 1;
        }
        assert(lv.subrange(0, lv.len() as int) =~= lv);
        assert(lv == text_lines(lossy_utf8(block.output@.0)));
        let ghost inter: Seq<(Option<char>, Seq<char>)> = if block.state == BlockState::Interactive {
            seq![(None::<char>, "[interactive program]"@)]
        } else {
            seq![]
        };
        let ghost v2 = out@;
        if block.state == BlockState::Interactive {
            let t = crate::text::string_from_str("[interactive program]");
            out.push(TextLine { prompt: None, text: t });
            assert(out@.map_values(|l: TextLine| line_view(l)) =~= v2.map_values(|l: TextLine| line_view(l)).push((None::<char>, t@)));
        }
        proof {
            let bl = block_lines(*block, prompt_char);
            assert(bl =~= seq![(Some(prompt_char), expand_tabs_spec(block.command@, 2))] + trunc
                + lv.map_values(|l: Seq<char>| (None::<char>, expand_tabs_spec(l, 0))) + inter);
            assert(out@.map_values(|l: TextLine| line_view(l)) =~= before + sep + bl);
            assert(transcript_lines(sub, prompt_char) == transcript_lines(sub.drop_last(), prompt_char) + sep + block_lines(sub.last(), prompt_char));
        }
        index = index + 1;
    }
    assert(blocks@.subrange(0, blocks@.len() as int) =~= blocks@);
    out
}

} // verus!
