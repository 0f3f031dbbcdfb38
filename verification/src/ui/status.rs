//! Fixed status bar: a single non-wrapping row beneath the input pad holding
//! the mode, the working directory, a transient message and the last exit
//! code, laid out as `mode | cwd<pad>| message | exit`.
//!
//! The mode field is always four columns followed by `" | "`. A greedy pad
//! pushes the right cluster against the right edge. Under width pressure the
//! message is truncated first (trailing ellipsis), then the cwd (middle
//! ellipsis keeping its tail); mode and exit are never broken.

use vstd::prelude::*;
use crate::text::{repeat, trim_end, int_decimal};

verus! {

/// The ellipsis char used when shortening text.
pub const ELLIPSIS: char = '…';

/// The default mode label.
pub const DEFAULT_MODE: &'static str = "norm";

/// Below this terminal height the bar is hidden.
pub const MIN_ROWS_FOR_BAR: u16 = 10;

/// Whether the status bar is shown: enabled by config and the terminal is
/// at least [`MIN_ROWS_FOR_BAR`] rows tall.
pub fn is_visible(enabled: bool, rows: u16) -> (b: bool)
    ensures
        b == (enabled && rows >= MIN_ROWS_FOR_BAR),
{
    enabled && rows >= MIN_ROWS_FOR_BAR
}

pub open spec fn sat_sub(a: int, b: int) -> int {
    if a >= b { a - b } else { 0 }
}

/// The mode normalized to exactly four columns.
pub open spec fn fit_mode_spec(mode: Seq<char>) -> Seq<char> {
    let t = if mode.len() <= 4 { mode } else { mode.subrange(0, 4) };
    t + repeat(' ', (4 - t.len()) as nat)
}

/// The right cluster: `| msg | exit`, with absent pieces elided; empty when
/// there is neither a message nor an exit code.
pub open spec fn right_text_spec(msg: Seq<char>, exit: Option<Seq<char>>) -> Seq<char> {
    match exit {
        Some(e) => if msg.len() > 0 {
            seq!['|', ' '] + msg + seq![' ', '|', ' '] + e
        } else {
            seq!['|', ' '] + e
        },
        None => if msg.len() > 0 {
            seq!['|', ' '] + msg
        } else {
            seq![]
        },
    }
}

/// `s` cut to at most `max` columns: when shortened, keep `max - 1` chars,
/// drop trailing whitespace from them and add an ellipsis.
pub open spec fn truncate_end_spec(s: Seq<char>, max: int) -> Seq<char> {
    if s.len() <= max {
        s
    } else if max <= 0 {
        seq![]
    } else {
        trim_end(s.subrange(0, max - 1)).push(ELLIPSIS)
    }
}

/// `cwd` cut to at most `max` columns with a middle ellipsis that favours
/// the trailing part (two thirds of the kept columns go to the tail).
pub open spec fn truncate_cwd_middle_spec(cwd: Seq<char>, max: int) -> Seq<char> {
    let n = cwd.len() as int;
    if n <= max {
        cwd
    } else if max <= 1 {
        seq![ELLIPSIS]
    } else {
        let avail = max - 1;
        let tail = avail * 2 / 3;
        let head = avail - tail;
        cwd.subrange(0, head) + seq![ELLIPSIS] + cwd.subrange(n - tail, n)
    }
}

/// One column of separation before a non-empty right cluster.
pub open spec fn pad_min(rw: int) -> int {
    if rw > 0 { 1 } else { 0 }
}

/// Whether the full cwd and right cluster overflow the body width.
pub open spec fn overflows(body: int, cwd_len: int, msg: Seq<char>, e: Option<Seq<char>>) -> bool {
    let rw = right_text_spec(msg, e).len() as int;
    cwd_len + pad_min(rw) + rw > body
}

/// The message after the first shrinking step: cut to the room the full cwd
/// leaves, or dropped when fewer than two columns remain.
pub open spec fn fit_message_spec(body: int, cwd_len: int, msg0: Seq<char>, e: Option<
    Seq<char>,
>) -> Seq<char> {
    if overflows(body, cwd_len, msg0, e) {
        let avail_right = sat_sub(body, cwd_len + 1);
        let msg_max = match e {
            Some(es) => sat_sub(avail_right, 5int + es.len()),
            None => sat_sub(avail_right, 2),
        };
        if msg_max >= 2 {
            truncate_end_spec(msg0, msg_max)
        } else {
            seq![]
        }
    } else {
        msg0
    }
}

/// The cwd after the second shrinking step: middle-truncated only when it
/// still does not fit beside the (already shrunk) right cluster.
pub open spec fn fit_cwd_spec(body: int, cwd: Seq<char>, msg1: Seq<char>, e: Option<Seq<char>>) -> Seq<
    char,
> {
    let rw1 = right_text_spec(msg1, e).len() as int;
    if cwd.len() + pad_min(rw1) + rw1 > body {
        truncate_cwd_middle_spec(cwd, sat_sub(body, pad_min(rw1) + rw1))
    } else {
        cwd
    }
}

/// Lay the pieces out: prefix, cwd, a greedy pad (at least one column before
/// a non-empty right cluster), the right cluster, then cut or space-fill to
/// exactly `width`.
pub open spec fn assemble_spec(width: int, prefix: Seq<char>, cwd1: Seq<char>, right: Seq<char>) -> Seq<
    char,
> {
    let body = sat_sub(width, 7);
    let gap = sat_sub(body, cwd1.len() as int + right.len());
    let pad = if gap >= pad_min(right.len() as int) { gap } else { pad_min(right.len() as int) };
    let out = prefix + cwd1 + repeat(' ', pad as nat) + right;
    if out.len() > width {
        out.subrange(0, width)
    } else {
        out + repeat(' ', (width - out.len()) as nat)
    }
}

/// The status line for the given pieces, exactly `width` columns wide.
pub open spec fn fit_spec(
    width: int,
    mode: Seq<char>,
    cwd: Seq<char>,
    message: Option<Seq<char>>,
    exit: Option<int>,
) -> Seq<char> {
    if width <= 0 {
        seq![]
    } else {
        let prefix = fit_mode_spec(mode) + seq![' ', '|', ' '];
        let e = match exit {
            Some(c) => Some(int_decimal(c)),
            None => None,
        };
        let body = sat_sub(width, 7);
        let msg0 = match message {
            Some(m) => m,
            None => seq![],
        };
        let msg1 = fit_message_spec(body, cwd.len() as int, msg0, e);
        let cwd1 = if overflows(body, cwd.len() as int, msg0, e) {
            fit_cwd_spec(body, cwd, msg1, e)
        } else {
            cwd
        };
        assemble_spec(width, prefix, cwd1, right_text_spec(msg1, e))
    }
}

fn fit_mode(mode: &str) -> (s: String)
    ensures
        s@ == fit_mode_spec(mode@),
{
    let chars = crate::text::chars_of(mode);
    let t = if chars.len() <= 4 { chars.len() } else { 4 };
    let mut s = crate::text::string_from_chars(&chars, 0, t);
    crate::text::push_repeat(&mut s, ' ', 4 - t);
    proof {
        if chars@.len() <= 4 {
            assert(chars@.subrange(0, t as int) =~= mode@);
        }
    }
    s
}

fn right_text(msg: &str, exit: Option<&str>) -> (s: String)
    ensures
        s@ == right_text_spec(msg@, match exit {
            Some(e) => Some(e@),
            None => None,
        }),
{
    let mut s = String::new();
    let has_msg = msg.unicode_len() > 0;
    match exit {
        Some(e) => {
            crate::text::push_all(&mut s, &['|', ' ']);
            if has_msg {
                s.append(msg);
                crate::text::push_all(&mut s, &[' ', '|', ' ']);
            }
            s.append(e);
        },
        None => {
            if has_msg {
                crate::text::push_all(&mut s, &['|', ' ']);
                s.append(msg);
            }
        },
    }
    assert(s@ =~= right_text_spec(msg@, match exit {
        Some(e) => Some(e@),
        None => None,
    }));
    s
}

/// Truncate `s` to at most `max` columns with a trailing ellipsis.
pub fn truncate_end(s: &str, max: usize) -> (out: String)
    ensures
        out@ == truncate_end_spec(s@, max as int),
{
    let chars = crate::text::chars_of(s);
    let n = chars.len();
    if n <= max {
        return crate::text::string_from_str(s);
    }
    if max == 0 {
        return String::new();
    }
    let keep = crate::text::trim_end_len(&chars, 0, max - 1);
    let mut out = crate::text::string_from_chars(&chars, 0, keep);
    crate::text::string_push(&mut out, ELLIPSIS);
    proof {
        crate::text::lemma_trim_end_prefix(chars@.subrange(0, max - 1));
        assert(out@ =~= truncate_end_spec(s@, max as int));
    }
    out
}

/// `floor(2a/3)` computed without overflow.
fn two_thirds(a: usize) -> (t: usize)
    ensures
        t == a * 2 / 3,
{
    let q = a / 3;
    let r = a % 3;
    let t = if r == 2 { q * 2 + 1 } else { q * 2 };
    assert(t == a * 2 / 3) by (nonlinear_arith)
        requires
            q == a / 3,
            r == a % 3,
            t == if r == 2 { q * 2 + 1 } else { q * 2 },
    ;
    t
}

/// Truncate `cwd` to at most `max` columns with a middle ellipsis.
pub fn truncate_cwd_middle(cwd: &str, max: usize) -> (out: String)
    ensures
        out@ == truncate_cwd_middle_spec(cwd@, max as int),
{
    let chars = crate::text::chars_of(cwd);
    let n = chars.len();
    if n <= max {
        return crate::text::string_from_str(cwd);
    }
    if max <= 1 {
        let mut out = String::new();
        crate::text::string_push(&mut out, ELLIPSIS);
        assert(out@ =~= seq![ELLIPSIS]);
        return out;
    }
    let avail = max - 1;
    let tail = two_thirds(avail);
    let head = avail - tail;
    let mut out = crate::text::string_from_chars(&chars, 0, head);
    crate::text::string_push(&mut out, ELLIPSIS);
    let rest = crate::text::string_from_chars(&chars, n - tail, n);
    out.append(rest.as_str());
    assert(out@ =~= truncate_cwd_middle_spec(cwd@, max as int));
    out
}

pub open spec fn view_opt(o: Option<&str>) -> Option<Seq<char>> {
    match o {
        Some(x) => Some(x@),
        None => None,
    }
}

fn as_opt_str(o: &Option<String>) -> (r: Option<&str>)
    ensures
        match o {
            Some(x) => r is Some && r.unwrap()@ == x@,
            None => r is None,
        },
{
    match o {
        Some(x) => Some(x.as_str()),
        None => None,
    }
}

/// Whether the cwd and the right cluster for `msg` overflow `body`.
fn overflow_check(body: usize, cwd_len: usize, msg: &str, exit: Option<&str>) -> (b: bool)
    ensures
        b == overflows(body as int, cwd_len as int, msg@, view_opt(exit)),
{
    let right = right_text(msg, exit);
    let rw = right.unicode_len();
    let pm: usize = if rw > 0 { 1 } else { 0 };
    (cwd_len as u128) + (pm as u128) + (rw as u128) > body as u128
}

fn fit_message(body: usize, cwd_len: usize, msg0: &str, exit: Option<&str>) -> (m: String)
    ensures
        m@ == fit_message_spec(body as int, cwd_len as int, msg0@, view_opt(exit)),
{
    if !overflow_check(body, cwd_len, msg0, exit) {
        return crate::text::string_from_str(msg0);
    }
    let avail_right: usize = if (body as u128) >= (cwd_len as u128) + 1 {
        body - (cwd_len + 1)
    } else {
        0
    };
    let msg_max: usize = match exit {
        Some(es) => {
            let el = es.unicode_len();
            if (avail_right as u128) >= 5 + el as u128 {
                avail_right - (5 + el)
            } else {
                0
            }
        },
        None => if avail_right >= 2 {
            avail_right - 2
        } else {
            0
        },
    };
    if msg_max >= 2 {
        truncate_end(msg0, msg_max)
    } else {
        let m = String::new();
        assert(m@ =~= Seq::<char>::empty());
        m
    }
}

fn fit_cwd(body: usize, cwd: &str, msg1: &str, exit: Option<&str>) -> (c: String)
    ensures
        c@ == fit_cwd_spec(body as int, cwd@, msg1@, view_opt(exit)),
{
    let right = right_text(msg1, exit);
    let rw = right.unicode_len();
    let pm: usize = if rw > 0 { 1 } else { 0 };
    let cwd_len = cwd.unicode_len();
    if (cwd_len as u128) + (pm as u128) + (rw as u128) > body as u128 {
        let cwd_max: usize = if (body as u128) >= (pm as u128) + (rw as u128) {
            body - (pm + rw)
        } else {
            0
        };
        truncate_cwd_middle(cwd, cwd_max)
    } else {
        crate::text::string_from_str(cwd)
    }
}

fn assemble(width: usize, prefix: String, cwd1: &str, right: &str) -> (out: String)
    ensures
        out@ == assemble_spec(width as int, prefix@, cwd1@, right@),
{
    let body: usize = if width >= 7 { width - 7 } else { 0 };
    let rw = right.unicode_len();
    let cwd_len = cwd1.unicode_len();
    let gap: usize = if (body as u128) >= (cwd_len as u128) + (rw as u128) {
        body - (cwd_len + rw)
    } else {
        0
    };
    let pmr: usize = if rw > 0 { 1 } else { 0 };
    let pad = if gap >= pmr { gap } else { pmr };
    let mut out = prefix;
    out.append(cwd1);
    crate::text::push_repeat(&mut out, ' ', pad);
    out.append(right);
    let outlen = out.unicode_len();
    if outlen > width {
        let chars = crate::text::chars_of(out.as_str());
        crate::text::string_from_chars(&chars, 0, width)
    } else {
        crate::text::push_repeat(&mut out, ' ', width - outlen);
        out
    }
}

/// Compose the status bar's single line to exactly `width` columns.
/// `mode` is normalized to four columns; `message` is an optional transient
/// notice; `exit` is shown only when present and is never broken.
pub fn fit(width: usize, mode: &str, cwd: &str, message: Option<&str>, exit: Option<i32>) -> (s:
    String)
    ensures
        s@ == fit_spec(
            width as int,
            mode@,
            cwd@,
            view_opt(message),
            match exit {
                Some(c) => Some(c as int),
                None => None,
            },
        ),
        s@.len() == width,
{
    proof {
        lemma_fit_width(width as int, mode@, cwd@, view_opt(message), match exit {
            Some(c) => Some(c as int),
            None => None,
        });
    }
    if width == 0 {
        let s = String::new();
        assert(s@ =~= Seq::<char>::empty());
        return s;
    }
    let mut prefix = fit_mode(mode);
    crate::text::push_all(&mut prefix, &[' ', '|', ' ']);
    let exit_string: Option<String> = match exit {
        Some(c) => Some(crate::text::i32_to_string(c)),
        None => None,
    };
    let e = as_opt_str(&exit_string);
    let body: usize = if width >= 7 { width - 7 } else { 0 };
    let cwd_len = cwd.unicode_len();
    let msg0: &str = match message {
        Some(m) => m,
        None => "",
    };
    proof {
        reveal_strlit("");
    }
    let msg1 = fit_message(body, cwd_len, msg0, e);
    let cwd1 = if overflow_check(body, cwd_len, msg0, e) {
        fit_cwd(body, cwd, msg1.as_str(), e)
    } else {
        crate::text::string_from_str(cwd)
    };
    let right = right_text(msg1.as_str(), e);
    let out = assemble(width, prefix, cwd1.as_str(), right.as_str());
    assert(view_opt(e) == match exit {
        Some(c) => Some(int_decimal(c as int)),
        None => None::<Seq<char>>,
    });
    out
}

proof fn lemma_assemble_len(width: int, prefix: Seq<char>, cwd1: Seq<char>, right: Seq<char>)
    requires
        width >= 0,
    ensures
        assemble_spec(width, prefix, cwd1, right).len() == width,
{
    let body = sat_sub(width, 7);
    let gap = sat_sub(body, cwd1.len() as int + right.len());
    let pad = if gap >= pad_min(right.len() as int) { gap } else { pad_min(right.len() as int) };
    crate::text::lemma_repeat_len(' ', pad as nat);
    let out = prefix + cwd1 + repeat(' ', pad as nat) + right;
    if out.len() <= width {
        crate::text::lemma_repeat_len(' ', (width - out.len()) as nat);
    }
}

/// The status line is always exactly `width` columns, whatever its pieces.
pub proof fn lemma_fit_width(
    width: int,
    mode: Seq<char>,
    cwd: Seq<char>,
    message: Option<Seq<char>>,
    exit: Option<int>,
)
    requires
        width >= 0,
    ensures
        fit_spec(width, mode, cwd, message, exit).len() == width,
{
    if width > 0 {
        let prefix = fit_mode_spec(mode) + seq![' ', '|', ' '];
        let e = match exit {
            Some(c) => Some(int_decimal(c)),
            None => None,
        };
        let body = sat_sub(width, 7);
        let msg0 = match message {
            Some(m) => m,
            None => seq![],
        };
        let msg1 = fit_message_spec(body, cwd.len() as int, msg0, e);
        let cwd1 = if overflows(body, cwd.len() as int, msg0, e) {
            fit_cwd_spec(body, cwd, msg1, e)
        } else {
            cwd
        };
        lemma_assemble_len(width, prefix, cwd1, right_text_spec(msg1, e));
    }
}

} // verus!

verus! {

proof fn lemma_truncate_end_len(s: Seq<char>, max: int)
    requires
        max >= 0,
    ensures
        truncate_end_spec(s, max).len() <= max,
{
    if s.len() > max && max > 0 {
        crate::text::lemma_trim_end_prefix(s.subrange(0, max - 1));
    }
}

proof fn lemma_truncate_cwd_middle_len(cwd: Seq<char>, max: int)
    requires
        max >= 1,
    ensures
        truncate_cwd_middle_spec(cwd, max).len() <= max,
{
    let n = cwd.len() as int;
    if n > max && max > 1 {
        let avail = max - 1;
        let tail = avail * 2 / 3;
        assert(0 <= tail <= avail) by (nonlinear_arith)
            requires
                avail >= 1,
                tail == avail * 2 / 3,
        ;
    }
}

/// The exit code is never broken: whenever an exit code is shown and the bar
/// has room for the mode field, one column of the directory, one column of
/// padding and `| <exit>`, the line ends with `| ` and the exit code's
/// decimal text, at the right edge, whatever the directory and message.
pub proof fn lemma_fit_keeps_exit(width: int, mode: Seq<char>, cwd: Seq<char>, message: Option<Seq<char>>, code: int)
    requires
        width >= 11 + int_decimal(code).len(),
    ensures
        ({
            let s = fit_spec(width, mode, cwd, message, Some(code));
            let d = int_decimal(code);
            s.subrange(width - d.len() - 2, width) == seq!['|', ' '] + d
        }),
{
    let d = int_decimal(code);
    let e = Some(d);
    let prefix = fit_mode_spec(mode) + seq![' ', '|', ' '];
    let body = sat_sub(width, 7);
    let msg0 = match message {
        Some(m) => m,
        None => seq![],
    };
    let cl = cwd.len() as int;
    let msg1 = fit_message_spec(body, cl, msg0, e);
    let over = overflows(body, cl, msg0, e);
    let cwd1 = if over {
        fit_cwd_spec(body, cwd, msg1, e)
    } else {
        cwd
    };
    let right = right_text_spec(msg1, e);
    // The right cluster ends with `| <exit>`.
    assert(right.subrange(right.len() - d.len() - 2, right.len() as int) =~= seq!['|', ' '] + d);
    // The directory, one column of padding and the right cluster fit the body.
    if over {
        let avail_right = sat_sub(body, cl + 1);
        let msg_max = sat_sub(avail_right, 5int + d.len());
        if msg_max >= 2 {
            lemma_truncate_end_len(msg0, msg_max);
        }
        let rw1 = right.len() as int;
        if cl + pad_min(rw1) + rw1 > body {
            lemma_truncate_cwd_middle_len(cwd, sat_sub(body, pad_min(rw1) + rw1));
        }
    }
    assert(cwd1.len() + 1 + right.len() <= body);
    fit_mode_lemma(mode);
    let gap = sat_sub(body, cwd1.len() as int + right.len());
    crate::text::lemma_repeat_len(' ', gap as nat);
    let out = prefix + cwd1 + repeat(' ', gap as nat) + right;
    assert(out.len() == width);
    assert(fit_spec(width, mode, cwd, message, Some(code)) == out);
    assert(out.subrange(width - d.len() - 2, width) =~= right.subrange(
        right.len() - d.len() - 2,
        right.len() as int,
    ));
}

proof fn fit_mode_lemma(mode: Seq<char>)
    ensures
        fit_mode_spec(mode).len() == 4,
{
    let t = if mode.len() <= 4 { mode } else { mode.subrange(0, 4) };
    crate::text::lemma_repeat_len(' ', (4 - t.len()) as nat);
}

} // verus!
