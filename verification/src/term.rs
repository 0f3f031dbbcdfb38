//! Terminal byte encodings: SGR colors, the bytes of a synthetic block
//! injected into the terminal grid, and the key and mouse encodings sent to a
//! full-screen program that owns the screen.

use vstd::prelude::*;
use crate::action::{KeyCode, KeyModifiers};
use crate::config::Color;
use crate::text::{nat_decimal, push_decimal_u64, string_push};

verus! {

/// The SGR parameter of a foreground color; `None` for the terminal default.
pub open spec fn sgr_code(c: Color) -> Option<Seq<char>> {
    match c {
        Color::Reset => None,
        Color::Black => Some("30"@),
        Color::Red => Some("31"@),
        Color::Green => Some("32"@),
        Color::Yellow => Some("33"@),
        Color::Blue => Some("34"@),
        Color::Magenta => Some("35"@),
        Color::Cyan => Some("36"@),
        Color::Gray => Some("37"@),
        Color::DarkGray => Some("90"@),
        Color::LightRed => Some("91"@),
        Color::LightGreen => Some("92"@),
        Color::LightYellow => Some("93"@),
        Color::LightBlue => Some("94"@),
        Color::LightMagenta => Some("95"@),
        Color::LightCyan => Some("96"@),
        Color::White => Some("97"@),
        Color::Indexed(n) => Some("38;5;"@ + nat_decimal(n as nat)),
        Color::Rgb(r, g, b) => Some("38;2;"@ + nat_decimal(r as nat) + ";"@ + nat_decimal(g as nat)
            + ";"@ + nat_decimal(b as nat)),
    }
}

/// The SGR foreground escape for a color: `ESC [ <code> m`, or nothing for
/// the terminal default.
pub open spec fn sgr_spec(c: Color) -> Seq<char> {
    match sgr_code(c) {
        Some(code) => "\x1b["@ + code + "m"@,
        None => Seq::<char>::empty(),
    }
}

/// The SGR foreground-color escape for `color` (empty for `Reset`).
pub fn color_to_sgr(color: Color) -> (s: String)
    ensures
        s@ == sgr_spec(color),
{
    let mut s = String::new();
    if let Color::Reset = color {
        return s;
    }
    s.append("\x1b[");
    match color {
        Color::Reset => {},
        Color::Black => s.append("30"),
        Color::Red => s.append("31"),
        Color::Green => s.append("32"),
        Color::Yellow => s.append("33"),
        Color::Blue => s.append("34"),
        Color::Magenta => s.append("35"),
        Color::Cyan => s.append("36"),
        Color::Gray => s.append("37"),
        Color::DarkGray => s.append("90"),
        Color::LightRed => s.append("91"),
        Color::LightGreen => s.append("92"),
        Color::LightYellow => s.append("93"),
        Color::LightBlue => s.append("94"),
        Color::LightMagenta => s.append("95"),
        Color::LightCyan => s.append("96"),
        Color::White => s.append("97"),
        Color::Indexed(n) => {
            s.append("38;5;");
            push_decimal_u64(&mut s, n as u64);
        },
        Color::Rgb(r, g, b) => {
            s.append("38;2;");
            push_decimal_u64(&mut s, r as u64);
            s.append(";");
            push_decimal_u64(&mut s, g as u64);
            s.append(";");
            push_decimal_u64(&mut s, b as u64);
        },
    }
    s.append("m");
    assert(s@ =~= sgr_spec(color));
    s
}

/// `s` without its trailing newlines.
pub open spec fn trim_newlines_end(s: Seq<char>) -> Seq<char>
    decreases s.len(),
{
    if s.len() > 0 && s.last() == '\n' {
        trim_newlines_end(s.drop_last())
    } else {
        s
    }
}

/// Each line followed by CRLF.
pub open spec fn crlf_lines(lines: Seq<Seq<char>>) -> Seq<char>
    decreases lines.len(),
{
    if lines.len() == 0 {
        seq![]
    } else {
        crlf_lines(lines.drop_last()) + lines.last() + "\r\n"@
    }
}

/// The text of a synthetic block: a fresh row unless the cursor is at column
/// 0, the prompt glyph (in its color when color is on), a space and the
/// command, then each output line (trailing newlines dropped) with CRLF.
pub open spec fn synthetic_text(
    prompt_char: char,
    prompt_color: Color,
    color: bool,
    at_col0: bool,
    command: Seq<char>,
    output: Seq<char>,
) -> Seq<char> {
    (if at_col0 {
        Seq::<char>::empty()
    } else {
        "\r\n"@
    }) + (if color {
        sgr_spec(prompt_color)
    } else {
        Seq::<char>::empty()
    }) + seq![prompt_char] + (if color {
        "\x1b[0m"@
    } else {
        Seq::<char>::empty()
    }) + " "@ + command + "\r\n"@ + crlf_lines(
        crate::action::split_on(trim_newlines_end(output), '\n'),
    )
}

/// The terminal bytes of a synthetic block (a block kapollo itself writes,
/// such as a slash command's reply).
pub fn synthetic_bytes(
    prompt_char: char,
    prompt_color: Color,
    color: bool,
    at_col0: bool,
    command: &str,
    output: &str,
) -> (b: Vec<u8>)
    ensures
        b@ == vstd::utf8::encode_utf8(
            synthetic_text(prompt_char, prompt_color, color, at_col0, command@, output@),
        ),
{
    let mut s = String::new();
    if !at_col0 {
        s.append("\r\n");
    }
    if color {
        let sgr = color_to_sgr(prompt_color);
        s.append(sgr.as_str());
    }
    string_push(&mut s, prompt_char);
    if color {
        s.append("\x1b[0m");
    }
    s.append(" ");
    s.append(command);
    s.append("\r\n");
    let out = crate::text::chars_of(output);
    let mut end = out.len();
    assert(out@.subrange(0, out@.len() as int) =~= out@);
    while end > 0 && out[end - 1] == '\n'
        invariant
            end <= out@.len(),
            trim_newlines_end(out@.subrange(0, end as int)) == trim_newlines_end(out@),
        decreases end,
    {
        assert(out@.subrange(0, end as int).drop_last() =~= out@.subrange(0, end - 1));
        end = end - 1;
    }
    assert(trim_newlines_end(out@.subrange(0, end as int)) == out@.subrange(0, end as int));
    let trimmed = crate::text::chars_vec_range(out.as_slice(), 0, end);
    assert(trimmed@ == trim_newlines_end(output@));
    let lines = crate::action::split_lines_on(trimmed.as_slice(), '\n');
    let ghost lv = crate::action::pieces_view(lines@);
    let ghost prefix = s@;
    let mut i: usize = 0;
    while i < lines.len()
        invariant
            i <= lines@.len(),
            lv == crate::action::pieces_view(lines@),
            s@ == prefix + crlf_lines(lv.subrange(0, i as int)),
        decreases lines.len() - i,
    {
        crate::text::push_all(&mut s, lines[i].as_slice());
        s.append("\r\n");
        proof {
            assert(lv.subrange(0, i + 1).drop_last() =~= lv.subrange(0, i as int));
            assert(lv[i as int] == lines@[i as int]@);
            assert(s@ =~= prefix + crlf_lines(lv.subrange(0, i + 1)));
        }
        i = i + 1;
    }
    assert(lv.subrange(0, lv.len() as int) =~= lv);
    assert(s@ =~= synthetic_text(prompt_char, prompt_color, color, at_col0, command@, output@));
    let bytes = s.as_str().as_bytes();
    crate::text::bytes_vec(bytes)
}

/// Quote `s` for a shell command line: wrap it in single quotes, writing
/// each embedded single quote as `'\''`.
pub open spec fn single_quoted(s: Seq<char>) -> Seq<char>
    decreases s.len(),
{
    if s.len() == 0 {
        "''"@
    } else {
        let inner = single_quoted(s.drop_last());
        inner.drop_last() + (if s.last() == '\'' {
            "'\\''"@
        } else {
            seq![s.last()]
        }) + "'"@
    }
}

/// Single-quote a path's text for safe use in a shell command line.
pub fn shell_single_quote(s: &str) -> (q: String)
    ensures
        q@ == single_quoted(s@),
{
    let chars = crate::text::chars_of(s);
    let mut q = String::new();
    string_push(&mut q, '\'');
    let mut i: usize = 0;
    proof {
        reveal_strlit("''");
        reveal_strlit("'");
        reveal_strlit("'\\''");
        assert(single_quoted(Seq::<char>::empty()) =~= seq!['\'', '\'']);
    }
    while i < chars.len()
        invariant
            i <= chars@.len(),
            chars@ == s@,
            q@ + seq!['\''] == single_quoted(chars@.subrange(0, i as int)),
        decreases chars.len() - i,
    {
        let c = chars[i];
        let ghost before = q@;
        if c == '\'' {
            q.append("'\\''");
        } else {
            string_push(&mut q, c);
        }
        proof {
            let sub = chars@.subrange(0, i + 1);
            assert(sub.drop_last() =~= chars@.subrange(0, i as int));
            assert(sub.last() == c);
            reveal_strlit("'\\''");
            reveal_strlit("'");
            let inner = single_quoted(chars@.subrange(0, i as int));
            assert(inner.drop_last() =~= before);
            assert(q@ + seq!['\''] =~= single_quoted(sub));
        }
        i = i + 1;
    }
    string_push(&mut q, '\'');
    assert(chars@.subrange(0, chars@.len() as int) =~= chars@);
    q
}

} // verus!

verus! {

/// `c` upper-cased if it is an ASCII small letter.
pub open spec fn ascii_upper(c: char) -> char {
    if 'a' <= c <= 'z' {
        ((c as u32) - 32) as char
    } else {
        c
    }
}

/// `c` is an ASCII letter.
pub open spec fn ascii_letter(c: char) -> bool {
    ('a' <= c <= 'z') || ('A' <= c <= 'Z')
}

/// The fixed escape sequences of the navigation keys.
pub open spec fn nav_bytes(code: KeyCode) -> Option<Seq<u8>> {
    match code {
        KeyCode::Enter => Some(seq![13u8]),
        KeyCode::Tab => Some(seq![9u8]),
        KeyCode::Backspace => Some(seq![127u8]),
        KeyCode::Esc => Some(seq![27u8]),
        KeyCode::Left => Some(seq![27u8, 91, 68]),
        KeyCode::Right => Some(seq![27u8, 91, 67]),
        KeyCode::Up => Some(seq![27u8, 91, 65]),
        KeyCode::Down => Some(seq![27u8, 91, 66]),
        KeyCode::Home => Some(seq![27u8, 91, 72]),
        KeyCode::End => Some(seq![27u8, 91, 70]),
        KeyCode::PageUp => Some(seq![27u8, 91, 53, 126]),
        KeyCode::PageDown => Some(seq![27u8, 91, 54, 126]),
        KeyCode::Delete => Some(seq![27u8, 91, 51, 126]),
        _ => None,
    }
}

/// The bytes a terminal sends for a key press: Ctrl with a letter is its
/// control byte (Ctrl-A is 1 ... Ctrl-Z is 26), any other char its UTF-8
/// bytes, and the navigation keys their escape sequences.
pub open spec fn key_bytes_spec(code: KeyCode, ctrl: bool) -> Option<Seq<u8>> {
    match code {
        KeyCode::Char(c) => if ctrl && ascii_letter(c) {
            Some(seq![((ascii_upper(c) as u32) - 64) as u8])
        } else {
            Some(vstd::utf8::encode_utf8(seq![c]))
        },
        _ => nav_bytes(code),
    }
}

/// No two navigation keys share an encoding: a full-screen program can tell
/// every forwarded navigation key (Enter, Tab, Backspace, Esc, the arrows,
/// Home/End, PageUp/PageDown, Delete) from every other.
pub proof fn lemma_nav_encodings_distinct(a: KeyCode, b: KeyCode, ctrl_a: bool, ctrl_b: bool)
    requires
        !(a is Char),
        !(b is Char),
        a != b,
        key_bytes_spec(a, ctrl_a) is Some,
        key_bytes_spec(b, ctrl_b) is Some,
    ensures
        key_bytes_spec(a, ctrl_a) != key_bytes_spec(b, ctrl_b),
{
    let sa = nav_bytes(a)->0;
    let sb = nav_bytes(b)->0;
    if sa == sb {
        assert(sa.len() == sb.len());
        assert(sa[sa.len() - 1] == sb[sb.len() - 1]);
        if sa.len() >= 2 {
            assert(sa[sa.len() - 2] == sb[sb.len() - 2]);
        }
        if sa.len() == 4 {
            assert(sa[2] == sb[2]);
        }
    }
}

/// The arrow keys are the ANSI cursor-movement sequences `ESC [ A` (up),
/// `ESC [ B` (down), `ESC [ C` (right) and `ESC [ D` (left), whatever the
/// modifiers.
pub proof fn lemma_arrow_sequences(ctrl: bool)
    ensures
        key_bytes_spec(KeyCode::Up, ctrl) == Some(seq![0x1bu8, '[' as u8, 'A' as u8]),
        key_bytes_spec(KeyCode::Down, ctrl) == Some(seq![0x1bu8, '[' as u8, 'B' as u8]),
        key_bytes_spec(KeyCode::Right, ctrl) == Some(seq![0x1bu8, '[' as u8, 'C' as u8]),
        key_bytes_spec(KeyCode::Left, ctrl) == Some(seq![0x1bu8, '[' as u8, 'D' as u8]),
{
}

/// The escape sequence of a navigation key.
fn nav_key_bytes(code: KeyCode) -> (r: Option<Vec<u8>>)
    ensures
        match nav_bytes(code) {
            Some(b) => r matches Some(v) && v@ == b,
            None => r is None,
        },
{
    let v: Vec<u8> = match code {
        KeyCode::Enter => vec![13u8],
        KeyCode::Tab => vec![9u8],
        KeyCode::Backspace => vec![127u8],
        KeyCode::Esc => vec![27u8],
        KeyCode::Left => vec![27u8, 91, 68],
        KeyCode::Right => vec![27u8, 91, 67],
        KeyCode::Up => vec![27u8, 91, 65],
        KeyCode::Down => vec![27u8, 91, 66],
        KeyCode::Home => vec![27u8, 91, 72],
        KeyCode::End => vec![27u8, 91, 70],
        KeyCode::PageUp => vec![27u8, 91, 53, 126],
        KeyCode::PageDown => vec![27u8, 91, 54, 126],
        KeyCode::Delete => vec![27u8, 91, 51, 126],
        _ => {
            return None;
        },
    };
    assert(nav_bytes(code) matches Some(b) && v@ =~= b);
    Some(v)
}

/// Encode a key press into the bytes a terminal emits, for forwarding to a
/// full-screen program that owns the screen. `None` for keys with no
/// terminal encoding.
pub fn encode_key(key: crate::action::KeyEvent) -> (r: Option<Vec<u8>>)
    ensures
        match key_bytes_spec(key.code, key.modifiers.control) {
            Some(b) => r matches Some(v) && v@ == b,
            None => r is None,
        },
{
    match key.code {
        KeyCode::Char(c) => {
            if key.modifiers.control && (('a' <= c && c <= 'z') || ('A' <= c && c <= 'Z')) {
                let upper = if 'a' <= c && c <= 'z' { (c as u32) - 32 } else { c as u32 };
                let v = vec![(upper - 64) as u8];
                assert(v@ =~= seq![((ascii_upper(c) as u32) - 64) as u8]);
                Some(v)
            } else {
                Some(crate::text::utf8_of_char(c))
            }
        },
        _ => nav_key_bytes(key.code),
    }
}

/// The SGR button number of a mouse button.
pub open spec fn button_number(b: crate::action::MouseButton) -> nat {
    match b {
        crate::action::MouseButton::Left => 0,
        crate::action::MouseButton::Middle => 1,
        crate::action::MouseButton::Right => 2,
    }
}

/// The SGR (1006) report of a mouse event: `ESC [ < btn ; col ; row M|m`,
/// with one-based cells, `m` for a release, drags offset by 32 and wheel
/// up/down as 64/65. `None` for moves and horizontal scrolls.
pub open spec fn mouse_report(m: crate::action::MouseEvent) -> Option<Seq<char>> {
    let btn_kind: Option<(nat, char)> = match m.kind {
        crate::action::MouseEventKind::Down(b) => Some((button_number(b), 'M')),
        crate::action::MouseEventKind::Up(b) => Some((button_number(b), 'm')),
        crate::action::MouseEventKind::Drag(b) => Some((button_number(b) + 32, 'M')),
        crate::action::MouseEventKind::ScrollUp => Some((64nat, 'M')),
        crate::action::MouseEventKind::ScrollDown => Some((65nat, 'M')),
        _ => None,
    };
    match btn_kind {
        Some((btn, kind)) => Some("\x1b[<"@ + nat_decimal(btn) + ";"@ + nat_decimal((m.column + 1) as nat) + ";"@
            + nat_decimal((m.row + 1) as nat) + seq![kind]),
        None => None,
    }
}

/// Encode a mouse event as an SGR mouse report for a mouse-grabbing
/// program.
pub fn encode_mouse(m: crate::action::MouseEvent) -> (r: Option<Vec<u8>>)
    ensures
        match mouse_report(m) {
            Some(t) => r matches Some(v) && v@ == vstd::utf8::encode_utf8(t),
            None => r is None,
        },
{
    let (btn, kind): (u64, char) = match m.kind {
        crate::action::MouseEventKind::Down(b) => (mouse_btn(b), 'M'),
        crate::action::MouseEventKind::Up(b) => (mouse_btn(b), 'm'),
        crate::action::MouseEventKind::Drag(b) => (mouse_btn(b) + 32, 'M'),
        crate::action::MouseEventKind::ScrollUp => (64, 'M'),
        crate::action::MouseEventKind::ScrollDown => (65, 'M'),
        _ => {
            return None;
        },
    };
    let mut s = String::new();
    s.append("\x1b[<");
    push_decimal_u64(&mut s, btn);
    s.append(";");
    push_decimal_u64(&mut s, m.column as u64 + 1);
    s.append(";");
    push_decimal_u64(&mut s, m.row as u64 + 1);
    string_push(&mut s, kind);
    assert(mouse_report(m) matches Some(t) && s@ =~= t);
    let bytes = s.as_str().as_bytes();
    Some(crate::text::bytes_vec(bytes))
}

/// The SGR button number of a mouse button.
fn mouse_btn(b: crate::action::MouseButton) -> (n: u64)
    ensures
        n == button_number(b),
{
    match b {
        crate::action::MouseButton::Left => 0,
        crate::action::MouseButton::Middle => 1,
        crate::action::MouseButton::Right => 2,
    }
}

} // verus!
