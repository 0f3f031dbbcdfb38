//! Line-editing helpers over a buffer of chars: the bounds of the line a
//! cursor sits on, punctuation-aware word motion, and the readline
//! whitespace rule for word rubout.

use vstd::prelude::*;
use crate::text::{is_space, is_alnum};

verus! {

/// Character classes for punctuation-aware word motion.
#[derive(Debug, Clone, Copy, PartialEq, Eq, Structural)]
pub enum CharClass {
    Whitespace,
    /// Alphanumeric or `_`.
    Word,
    /// Neither whitespace nor a word char.
    Punctuation,
}

pub open spec fn class_spec(c: char) -> CharClass {
    if is_space(c) {
        CharClass::Whitespace
    } else if is_alnum(c) || c == '_' {
        CharClass::Word
    } else {
        CharClass::Punctuation
    }
}

/// The class of `c`.
pub fn class_of(c: char) -> (k: CharClass)
    ensures
        k == class_spec(c),
{
    if crate::text::char_is_whitespace(c) {
        CharClass::Whitespace
    } else if crate::text::char_is_alphanumeric(c) || c == '_' {
        CharClass::Word
    } else {
        CharClass::Punctuation
    }
}

/// Start of the line containing position `i`: just after the last `\n`
/// before `i`, or 0.
pub open spec fn line_start(s: Seq<char>, i: int) -> int
    decreases i,
{
    if i <= 0 {
        0
    } else if s[i - 1] == '\n' {
        i
    } else {
        line_start(s, i - 1)
    }
}

/// End of the line containing position `i`: the next `\n` at or after `i`,
/// or the length.
pub open spec fn line_end(s: Seq<char>, i: int) -> int
    decreases s.len() - i,
{
    if i >= s.len() {
        s.len() as int
    } else if s[i] == '\n' {
        i
    } else {
        line_end(s, i + 1)
    }
}

/// The start of the line holding position `i`: no newline lies between it and `i`, and a newline lies just before it unless it is the buffer's start.
pub proof fn lemma_line_start(s: Seq<char>, i: int)
    requires
        0 <= i <= s.len(),
    ensures
        0 <= line_start(s, i) <= i,
        line_start(s, i) > 0 ==> s[line_start(s, i) - 1] == '\n',
        forall|k: int| line_start(s, i) <= k < i ==> #[trigger] s[k] != '\n',
    decreases i,
{
    if i > 0 && s[i - 1] != '\n' {
        lemma_line_start(s, i - 1);
    }
}

/// The end of the line holding position `i`: no newline lies between `i` and it, and it is a newline or the buffer's end.
pub proof fn lemma_line_end(s: Seq<char>, i: int)
    requires
        0 <= i <= s.len(),
    ensures
        i <= line_end(s, i) <= s.len(),
        line_end(s, i) < s.len() ==> s[line_end(s, i)] == '\n',
        forall|k: int| i <= k < line_end(s, i) ==> #[trigger] s[k] != '\n',
    decreases s.len() - i,
{
    if i < s.len() && s[i] != '\n' {
        lemma_line_end(s, i + 1);
    }
}

/// The `[start, end)` bounds of the line `cursor` (clamped to the length)
/// sits on within `chars`.
pub fn current_line_bounds(chars: &[char], cursor: usize) -> (r: (usize, usize))
    ensures
        ({
            let c = if cursor <= chars@.len() { cursor as int } else { chars@.len() as int };
            r.0 == line_start(chars@, c) && r.1 == line_end(chars@, c)
        }),
{
    let cursor = if cursor <= chars.len() { cursor } else { chars.len() };
    let mut start = cursor;
    while start > 0 && chars[start - 1] != '\n'
        invariant
            start <= cursor <= chars@.len(),
            line_start(chars@, start as int) == line_start(chars@, cursor as int),
        decreases start,
    {
        start = start - 1;
    }
    let mut end = cursor;
    while end < chars.len() && chars[end] != '\n'
        invariant
            cursor <= end <= chars@.len(),
            line_end(chars@, end as int) == line_end(chars@, cursor as int),
        decreases chars.len() - end,
    {
        end = end + 1;
    }
    (start, end)
}

/// Position after skipping whitespace leftwards from `i`.
pub open spec fn skip_space_left(s: Seq<char>, i: int) -> int
    decreases i,
{
    if i > 0 && is_space(s[i - 1]) {
        skip_space_left(s, i - 1)
    } else {
        i
    }
}

/// Position after skipping leftwards over chars of class `k` from `i`.
pub open spec fn skip_class_left(s: Seq<char>, i: int, k: CharClass) -> int
    decreases i,
{
    if i > 0 && class_spec(s[i - 1]) == k {
        skip_class_left(s, i - 1, k)
    } else {
        i
    }
}

/// Position after skipping non-whitespace leftwards from `i`.
pub open spec fn skip_nonspace_left(s: Seq<char>, i: int) -> int
    decreases i,
{
    if i > 0 && !is_space(s[i - 1]) {
        skip_nonspace_left(s, i - 1)
    } else {
        i
    }
}

/// Position after skipping whitespace rightwards from `i`.
pub open spec fn skip_space_right(s: Seq<char>, i: int) -> int
    decreases s.len() - i,
{
    if 0 <= i < s.len() && is_space(s[i]) {
        skip_space_right(s, i + 1)
    } else {
        i
    }
}

/// Position after skipping rightwards over chars of class `k` from `i`.
pub open spec fn skip_class_right(s: Seq<char>, i: int, k: CharClass) -> int
    decreases s.len() - i,
{
    if 0 <= i < s.len() && class_spec(s[i]) == k {
        skip_class_right(s, i + 1, k)
    } else {
        i
    }
}

pub open spec fn clamp(i: int, n: int) -> int {
    if i <= n { i } else { n }
}

/// Punctuation-aware word motion left: skip the whitespace just left of
/// `from`, then the run of the class now on the left.
pub open spec fn word_left_spec(s: Seq<char>, from: int) -> int {
    let i = skip_space_left(s, clamp(from, s.len() as int));
    if i <= 0 {
        0
    } else {
        skip_class_left(s, i, class_spec(s[i - 1]))
    }
}

/// Punctuation-aware word motion right: skip the whitespace just right of
/// `from`, then the run of the class now on the right.
pub open spec fn word_right_spec(s: Seq<char>, from: int) -> int {
    let i = skip_space_right(s, clamp(from, s.len() as int));
    if i >= s.len() {
        s.len() as int
    } else {
        skip_class_right(s, i, class_spec(s[i]))
    }
}

/// Readline word rubout start: skip whitespace left of `from`, then the
/// preceding non-whitespace run (punctuation included).
pub open spec fn rubout_start_spec(s: Seq<char>, from: int) -> int {
    skip_nonspace_left(s, skip_space_left(s, clamp(from, s.len() as int)))
}

proof fn lemma_skip_left_bounds(s: Seq<char>, i: int, k: CharClass)
    requires
        0 <= i <= s.len(),
    ensures
        0 <= skip_space_left(s, i) <= i,
        0 <= skip_class_left(s, i, k) <= i,
        0 <= skip_nonspace_left(s, i) <= i,
    decreases i,
{
    if i > 0 {
        lemma_skip_left_bounds(s, i - 1, k);
    }
}

proof fn lemma_skip_right_bounds(s: Seq<char>, i: int, k: CharClass)
    requires
        0 <= i <= s.len(),
    ensures
        i <= skip_space_right(s, i) <= s.len(),
        i <= skip_class_right(s, i, k) <= s.len(),
    decreases s.len() - i,
{
    if i < s.len() {
        lemma_skip_right_bounds(s, i + 1, k);
    }
}

/// Word motion to the left within `line`; the result lies in `0..=from`.
pub fn word_boundary_left(line: &[char], from: usize) -> (r: usize)
    ensures
        r == word_left_spec(line@, from as int),
        r <= clamp(from as int, line@.len() as int),
{
    let mut i = if from <= line.len() { from } else { line.len() };
    let ghost i0 = i as int;
    proof {
        lemma_skip_left_bounds(line@, i0, CharClass::Whitespace);
    }
    while i > 0 && crate::text::char_is_whitespace(line[i - 1])
        invariant
            i <= i0 <= line@.len(),
            skip_space_left(line@, i as int) == skip_space_left(line@, i0),
        decreases i,
    {
        i = i - 1;
    }
    if i == 0 {
        return 0;
    }
    let class = class_of(line[i - 1]);
    let ghost i1 = i as int;
    proof {
        lemma_skip_left_bounds(line@, i1, class);
    }
    while i > 0 && class_of(line[i - 1]) == class
        invariant
            i <= i1 <= i0 <= line@.len(),
            skip_class_left(line@, i as int, class) == skip_class_left(line@, i1, class),
        decreases i,
    {
        i = i - 1;
    }
    i
}

/// Word motion to the right within `line`; the result lies in
/// `from..=line.len()`.
pub fn word_boundary_right(line: &[char], from: usize) -> (r: usize)
    ensures
        r == word_right_spec(line@, from as int),
        clamp(from as int, line@.len() as int) <= r <= line@.len(),
{
    let n = line.len();
    let mut i = if from <= n { from } else { n };
    let ghost i0 = i as int;
    proof {
        lemma_skip_right_bounds(line@, i0, CharClass::Whitespace);
    }
    while i < n && crate::text::char_is_whitespace(line[i])
        invariant
            n == line@.len(),
            i0 <= i <= n,
            skip_space_right(line@, i as int) == skip_space_right(line@, i0),
        decreases n - i,
    {
        i = i + 1;
    }
    if i == n {
        return n;
    }
    let class = class_of(line[i]);
    let ghost i1 = i as int;
    proof {
        lemma_skip_right_bounds(line@, i1, class);
    }
    while i < n && class_of(line[i]) == class
        invariant
            n == line@.len(),
            i0 <= i1 <= i <= n,
            skip_class_right(line@, i as int, class) == skip_class_right(line@, i1, class),
        decreases n - i,
    {
        i = i + 1;
    }
    i
}

/// Start of the span `Ctrl+W` deletes before `from` (the span ends at
/// `from`).
pub fn delete_word_before_start(line: &[char], from: usize) -> (r: usize)
    ensures
        r == rubout_start_spec(line@, from as int),
        r <= clamp(from as int, line@.len() as int),
{
    let mut i = if from <= line.len() { from } else { line.len() };
    let ghost i0 = i as int;
    proof {
        lemma_skip_left_bounds(line@, i0, CharClass::Whitespace);
    }
    while i > 0 && crate::text::char_is_whitespace(line[i - 1])
        invariant
            i <= i0 <= line@.len(),
            skip_space_left(line@, i as int) == skip_space_left(line@, i0),
        decreases i,
    {
        i = i - 1;
    }
    let ghost i1 = i as int;
    proof {
        lemma_skip_left_bounds(line@, i1, CharClass::Whitespace);
    }
    while i > 0 && !crate::text::char_is_whitespace(line[i - 1])
        invariant
            i <= i1 <= i0 <= line@.len(),
            i1 == skip_space_left(line@, i0),
            skip_nonspace_left(line@, i as int) == skip_nonspace_left(line@, i1),
        decreases i,
    {
        i = i - 1;
    }
    i
}

} // verus!
