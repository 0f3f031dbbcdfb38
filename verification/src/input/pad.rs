//! The input pad: the editable buffer the user composes in, with a char
//! cursor and an optional selection. Enter submits the whole buffer;
//! Shift+Enter / Alt+Enter insert a newline.

use vstd::prelude::*;
use super::editing::{
    clamp, line_end, line_start, lemma_line_end, lemma_line_start, rubout_start_spec,
    word_left_spec, word_right_spec,
};
use super::selection::{sel_range, InputSelection};
use crate::text::{trim, is_space};

verus! {

/// `t` inserted into `s` at `i`.
pub open spec fn insert_at(s: Seq<char>, i: int, t: Seq<char>) -> Seq<char> {
    s.subrange(0, i) + t + s.subrange(i, s.len() as int)
}

/// `s` without `s[a..b]`.
pub open spec fn remove_range(s: Seq<char>, a: int, b: int) -> Seq<char> {
    if a >= b {
        s
    } else {
        s.subrange(0, a) + s.subrange(b, s.len() as int)
    }
}

/// The number of `\n` in `s`.
pub open spec fn count_nl(s: Seq<char>) -> nat
    decreases s.len(),
{
    if s.len() == 0 {
        0
    } else {
        count_nl(s.drop_last()) + if s.last() == '\n' { 1nat } else { 0nat }
    }
}

/// `(row, column)` of char offset `n` (clamped to the length).
pub open spec fn row_col(s: Seq<char>, n: int) -> (int, int) {
    let m = clamp(n, s.len() as int);
    (count_nl(s.subrange(0, m)) as int, m - line_start(s, m))
}

/// Char offset of `(line, col)` scanning from the line starting at `start`:
/// `col` is clamped to the line's length and a line past the end maps to the
/// buffer's end.
pub open spec fn offset_from(s: Seq<char>, start: int, line: nat, col: int) -> int
    decreases s.len() - start,
{
    let end = line_end(s, start);
    if start < 0 || start > s.len() {
        s.len() as int
    } else if line == 0 {
        start + clamp(col, end - start)
    } else if end >= s.len() {
        s.len() as int
    } else {
        proof {
            lemma_line_end(s, start);
        }
        offset_from(s, end + 1, (line - 1) as nat, col)
    }
}

/// The text of line `row` scanning from the line starting at `start`, or
/// empty when there is no such line.
pub open spec fn line_text_from(s: Seq<char>, start: int, row: nat) -> Seq<char>
    decreases s.len() - start,
{
    let end = line_end(s, start);
    if start < 0 || start > s.len() {
        seq![]
    } else if row == 0 {
        s.subrange(start, end)
    } else if end >= s.len() {
        seq![]
    } else {
        proof {
            lemma_line_end(s, start);
        }
        line_text_from(s, end + 1, (row - 1) as nat)
    }
}

/// `text` with `\r\n` and lone `\r` turned into `\n`.
pub open spec fn normalize_newlines(t: Seq<char>) -> Seq<char>
    decreases t.len(),
{
    if t.len() == 0 {
        seq![]
    } else if t[0] == '\r' && t.len() >= 2 && t[1] == '\n' {
        seq!['\n'] + normalize_newlines(t.subrange(2, t.len() as int))
    } else if t[0] == '\r' {
        seq!['\n'] + normalize_newlines(t.drop_first())
    } else {
        seq![t[0]] + normalize_newlines(t.drop_first())
    }
}

/// Index of the last `\n` in `s`, if any.
pub open spec fn last_nl(s: Seq<char>) -> Option<int>
    decreases s.len(),
{
    if s.len() == 0 {
        None
    } else if s.last() == '\n' {
        Some(s.len() - 1)
    } else {
        last_nl(s.drop_last())
    }
}

/// Drop trailing whitespace-only lines while more than one line remains.
pub open spec fn strip_blank_tail(s: Seq<char>) -> Seq<char>
    decreases s.len(),
{
    match last_nl(s) {
        None => s,
        Some(i) => if 0 <= i < s.len() && trim(s.subrange(i + 1, s.len() as int)).len() == 0 {
            strip_blank_tail(s.subrange(0, i))
        } else {
            s
        },
    }
}

proof fn lemma_last_nl(s: Seq<char>)
    ensures
        last_nl(s) matches Some(i) ==> 0 <= i < s.len() && s[i] == '\n' && forall|k: int|
            i < k < s.len() ==> #[trigger] s[k] != '\n',
        last_nl(s) is None ==> forall|k: int| 0 <= k < s.len() ==> #[trigger] s[k] != '\n',
    decreases s.len(),
{
    if s.len() > 0 && s.last() != '\n' {
        let d = s.drop_last();
        lemma_last_nl(d);
        assert forall|k: int| 0 <= k < s.len() - 1 implies s[k] == #[trigger] d[k] by {}
        if let Some(i) = last_nl(s) {
            assert(last_nl(s) == last_nl(d));
            assert forall|k: int| i < k < s.len() implies #[trigger] s[k] != '\n' by {
                if k < s.len() - 1 {
                    assert(s[k] == d[k]);
                }
            }
        } else {
            assert forall|k: int| 0 <= k < s.len() implies #[trigger] s[k] != '\n' by {
                if k < s.len() - 1 {
                    assert(s[k] == d[k]);
                }
            }
        }
    }
}

/// The editable input buffer with a char cursor and an optional selection.
#[derive(Debug, Default)]
pub struct InputPad {
    buffer: String,
    chars: Vec<char>,
    /// Cursor as a count of chars from the start of the buffer.
    cursor: usize,
    selection: Option<InputSelection>,
}

impl View for InputPad {
    /// `(buffer, cursor, selection)`.
    type V = (Seq<char>, nat, Option<InputSelection>);

    closed spec fn view(&self) -> (Seq<char>, nat, Option<InputSelection>) {
        (self.chars@, self.cursor as nat, self.selection)
    }
}

impl InputPad {
    /// The pad is consistent: its string and chars agree, the cursor lies in
    /// the buffer, and the buffer is shorter than the address space.
    pub closed spec fn wf(&self) -> bool {
        &&& self.buffer@ == self.chars@
        &&& self.cursor <= self.chars@.len()
        &&& self.chars@.len() < usize::MAX
    }

    /// A consistent pad's buffer fits in the address space and its caret
    /// lies within it.
    pub proof fn lemma_wf_bounds(&self)
        requires
            self.wf(),
        ensures
            self@.0.len() < usize::MAX,
            self@.1 <= self@.0.len(),
    {
    }

    /// An empty pad.
    pub fn new() -> (p: Self)
        ensures
            p.wf(),
            p@ == (Seq::<char>::empty(), 0nat, None::<InputSelection>),
    {
        let p = InputPad { buffer: String::new(), chars: Vec::new(), cursor: 0, selection: None };
        assert(p.chars@ =~= Seq::<char>::empty());
        p
    }

    /// Replace the buffer with `chars`, keeping the string in step.
    fn set_chars(&mut self, chars: Vec<char>, cursor: usize)
        requires
            cursor <= chars@.len() < usize::MAX,
        ensures
            final(self).wf(),
            final(self)@ == (chars@, cursor as nat, None::<InputSelection>),
    {
        self.buffer = crate::text::string_of(chars.as_slice());
        self.chars = chars;
        self.cursor = cursor;
        self.selection = None;
    }

    /// A copy of the chars `[a, b)` of the buffer.
    fn chars_range(&self, a: usize, b: usize) -> (v: Vec<char>)
        requires
            a <= b <= self.chars@.len(),
        ensures
            v@ == self.chars@.subrange(a as int, b as int),
    {
        let mut v: Vec<char> = Vec::new();
        let mut i = a;
        while i < b
            invariant
                a <= i <= b <= self.chars@.len(),
                v@ == self.chars@.subrange(a as int, i as int),
            decreases b - i,
        {
            v.push(self.chars[i]);
            i = i + 1;
            assert(v@ =~= self.chars@.subrange(a as int, i as int));
        }
        v
    }

    /// The buffer with `t` inserted at `i`.
    fn spliced(&self, i: usize, t: &[char]) -> (v: Vec<char>)
        requires
            i <= self.chars@.len(),
        ensures
            v@ == insert_at(self.chars@, i as int, t@),
    {
        let mut v = self.chars_range(0, i);
        let mut k: usize = 0;
        while k < t.len()
            invariant
                k <= t@.len(),
                v@ == self.chars@.subrange(0, i as int) + t@.subrange(0, k as int),
            decreases t.len() - k,
        {
            v.push(t[k]);
            k = k + 1;
            assert(v@ =~= self.chars@.subrange(0, i as int) + t@.subrange(0, k as int));
        }
        let mut j = i;
        let n = self.chars.len();
        while j < n
            invariant
                i <= j <= n == self.chars@.len(),
                v@ == self.chars@.subrange(0, i as int) + t@ + self.chars@.subrange(i as int, j as int),
            decreases n - j,
        {
            v.push(self.chars[j]);
            j = j + 1;
            assert(v@ =~= self.chars@.subrange(0, i as int) + t@ + self.chars@.subrange(
                i as int,
                j as int,
            ));
        }
        assert(t@.subrange(0, t@.len() as int) =~= t@);
        v
    }

    /// The buffer without chars `[a, b)`.
    fn without(&self, a: usize, b: usize) -> (v: Vec<char>)
        requires
            a <= b <= self.chars@.len(),
        ensures
            v@ == remove_range(self.chars@, a as int, b as int),
    {
        let mut v = self.chars_range(0, a);
        let mut j = b;
        let n = self.chars.len();
        while j < n
            invariant
                b <= j <= n == self.chars@.len(),
                v@ == self.chars@.subrange(0, a as int) + self.chars@.subrange(b as int, j as int),
            decreases n - j,
        {
            v.push(self.chars[j]);
            j = j + 1;
            assert(v@ =~= self.chars@.subrange(0, a as int) + self.chars@.subrange(
                b as int,
                j as int,
            ));
        }
        if a == b {
            assert(v@ =~= self.chars@);
        }
        v
    }

    /// Insert `c` at the cursor and advance.
    pub fn insert_char(&mut self, c: char)
        requires
            old(self).wf(),
            old(self)@.0.len() + 1 < usize::MAX,
        ensures
            final(self).wf(),
            final(self)@ == (insert_at(old(self)@.0, old(self)@.1 as int, seq![c]), old(self)@.1
                + 1, None::<InputSelection>),
    {
        let v = self.spliced(self.cursor, &[c]);
        let cur = self.cursor + 1;
        self.set_chars(v, cur);
    }

    /// Insert a literal newline at the cursor without submitting.
    pub fn insert_newline(&mut self)
        requires
            old(self).wf(),
            old(self)@.0.len() + 1 < usize::MAX,
        ensures
            final(self).wf(),
            final(self)@ == (insert_at(old(self)@.0, old(self)@.1 as int, seq!['\n']), old(self)@.1
                + 1, None::<InputSelection>),
    {
        self.insert_char('\n');
    }

    /// Delete the char before the cursor.
    pub fn backspace(&mut self)
        requires
            old(self).wf(),
        ensures
            final(self).wf(),
            final(self)@ == if old(self)@.1 == 0 {
                (old(self)@.0, 0nat, None::<InputSelection>)
            } else {
                (remove_range(old(self)@.0, old(self)@.1 - 1, old(self)@.1 as int), (old(self)@.1
                    - 1) as nat, None::<InputSelection>)
            },
    {
        self.selection = None;
        if self.cursor == 0 {
            return;
        }
        let v = self.without(self.cursor - 1, self.cursor);
        let cur = self.cursor - 1;
        self.set_chars(v, cur);
    }

    /// Move the cursor one char left.
    pub fn move_left(&mut self)
        requires
            old(self).wf(),
        ensures
            final(self).wf(),
            final(self)@ == (old(self)@.0, if old(self)@.1 > 0 {
                (old(self)@.1 - 1) as nat
            } else {
                0nat
            }, None::<InputSelection>),
    {
        self.selection = None;
        if self.cursor > 0 {
            self.cursor = self.cursor - 1;
        }
    }

    /// Move the cursor one char right.
    pub fn move_right(&mut self)
        requires
            old(self).wf(),
        ensures
            final(self).wf(),
            final(self)@ == (old(self)@.0, if old(self)@.1 < old(self)@.0.len() {
                old(self)@.1 + 1
            } else {
                old(self)@.1
            }, None::<InputSelection>),
    {
        self.selection = None;
        if self.cursor < self.chars.len() {
            self.cursor = self.cursor + 1;
        }
    }

    /// The `(row, column)` of char offset `n`, for rendering.
    pub fn offset_row_col(&self, n: usize) -> (r: (usize, usize))
        requires
            self.wf(),
        ensures
            (r.0 as int, r.1 as int) == row_col(self@.0, n as int),
    {
        let m = if n <= self.chars.len() { n } else { self.chars.len() };
        let mut row: usize = 0;
        let mut col: usize = 0;
        let mut i: usize = 0;
        while i < m
            invariant
                self.wf(),
                i <= m <= self.chars@.len(),
                row == count_nl(self.chars@.subrange(0, i as int)),
                col == i - line_start(self.chars@, i as int),
                row <= i,
                col <= i,
            decreases m - i,
        {
            assert(self.chars@.subrange(0, i + 1).drop_last() =~= self.chars@.subrange(0, i as int));
            if self.chars[i] == '\n' {
                row = row + 1;
                col = 0;
            } else {
                col = col + 1;
            }
            i = i + 1;
        }
        (row, col)
    }

    /// The cursor's `(row, column)`.
    pub fn cursor_row_col(&self) -> (r: (usize, usize))
        requires
            self.wf(),
        ensures
            (r.0 as int, r.1 as int) == row_col(self@.0, self@.1 as int),
    {
        self.offset_row_col(self.cursor)
    }

    /// Number of lines in the buffer (at least one).
    pub fn line_count(&self) -> (n: usize)
        requires
            self.wf(),
        ensures
            n == count_nl(self@.0) + 1,
    {
        let mut count: usize = 0;
        let mut i: usize = 0;
        while i < self.chars.len()
            invariant
                self.wf(),
                i <= self.chars@.len(),
                count == count_nl(self.chars@.subrange(0, i as int)),
                count <= i,
            decreases self.chars.len() - i,
        {
            assert(self.chars@.subrange(0, i + 1).drop_last() =~= self.chars@.subrange(0, i as int));
            if self.chars[i] == '\n' {
                count = count + 1;
            }
            i = i + 1;
        }
        assert(self.chars@.subrange(0, i as int) =~= self.chars@);
        count + 1
    }

    /// Whether the caret is on the first line.
    pub fn caret_on_first_line(&self) -> (b: bool)
        requires
            self.wf(),
        ensures
            b == (row_col(self@.0, self@.1 as int).0 == 0),
    {
        self.cursor_row_col().0 == 0
    }

    /// Whether the caret is on the last line.
    pub fn caret_on_last_line(&self) -> (b: bool)
        requires
            self.wf(),
        ensures
            b == (row_col(self@.0, self@.1 as int).0 + 1 >= count_nl(self@.0) + 1),
    {
        let (row, _) = self.cursor_row_col();
        row >= self.line_count() - 1
    }

    /// Char offset of `(line, col)`, clamping `col` to the line's length and
    /// a line past the end to the buffer's end.
    fn offset_at_line_col(&self, line: usize, col: usize) -> (o: usize)
        requires
            self.wf(),
        ensures
            o == offset_from(self@.0, 0, line as nat, col as int),
            o <= self@.0.len(),
    {
        let n = self.chars.len();
        let mut start: usize = 0;
        let mut k: usize = line;
        loop
            invariant
                self.wf(),
                n == self.chars@.len(),
                start <= n,
                offset_from(self.chars@, start as int, k as nat, col as int) == offset_from(
                    self.chars@,
                    0,
                    line as nat,
                    col as int,
                ),
            decreases n - start,
        {
            let mut end = start;
            proof {
                lemma_line_end(self.chars@, start as int);
            }
            while end < n && self.chars[end] != '\n'
                invariant
                    start <= end <= n == self.chars@.len(),
                    line_end(self.chars@, end as int) == line_end(self.chars@, start as int),
                decreases n - end,
            {
                end = end + 1;
            }
            if k == 0 {
                let len = end - start;
                return start + if col <= len { col } else { len };
            }
            if end >= n {
                return n;
            }
            start = end + 1;
            k = k - 1;
        }
    }

    /// Move the caret up a line, keeping its column where the target line is
    /// long enough (clamping otherwise); nothing on the first line.
    pub fn caret_line_up(&mut self)
        requires
            old(self).wf(),
        ensures
            final(self).wf(),
            ({
                let (row, col) = row_col(old(self)@.0, old(self)@.1 as int);
                final(self)@ == (old(self)@.0, if row == 0 {
                    old(self)@.1
                } else {
                    offset_from(old(self)@.0, 0, (row - 1) as nat, col) as nat
                }, None::<InputSelection>)
            }),
    {
        self.selection = None;
        let (row, col) = self.cursor_row_col();
        if row == 0 {
            return;
        }
        self.cursor = self.offset_at_line_col(row - 1, col);
    }

    /// Move the caret down a line, keeping its column (clamped); nothing on
    /// the last line.
    pub fn caret_line_down(&mut self)
        requires
            old(self).wf(),
        ensures
            final(self).wf(),
            ({
                let (row, col) = row_col(old(self)@.0, old(self)@.1 as int);
                final(self)@ == (old(self)@.0, if row + 1 >= count_nl(old(self)@.0) + 1 {
                    old(self)@.1
                } else {
                    offset_from(old(self)@.0, 0, (row + 1) as nat, col) as nat
                }, None::<InputSelection>)
            }),
    {
        self.selection = None;
        let (row, col) = self.cursor_row_col();
        if row >= self.line_count() - 1 {
            return;
        }
        self.cursor = self.offset_at_line_col(row + 1, col);
    }

    /// Move the caret to the start of line `row` (a row past the end goes to
    /// the buffer's end).
    pub fn set_caret_line_start(&mut self, row: usize)
        requires
            old(self).wf(),
        ensures
            final(self).wf(),
            final(self)@ == (old(self)@.0, offset_from(old(self)@.0, 0, row as nat, 0) as nat, None::<
                InputSelection,
            >),
    {
        self.selection = None;
        self.cursor = self.offset_at_line_col(row, 0);
    }

    /// Clear the buffer and reset the cursor.
    pub fn clear(&mut self)
        requires
            old(self).wf(),
        ensures
            final(self).wf(),
            final(self)@ == (Seq::<char>::empty(), 0nat, None::<InputSelection>),
    {
        let v: Vec<char> = Vec::new();
        self.set_chars(v, 0);
        assert(self.chars@ =~= Seq::<char>::empty());
    }

    /// Replace the buffer contents, placing the cursor at the end.
    pub fn set_contents(&mut self, text: &str)
        requires
            text@.len() < usize::MAX,
        ensures
            final(self).wf(),
            final(self)@ == (text@, text@.len(), None::<InputSelection>),
    {
        let v = crate::text::chars_of(text);
        let n = v.len();
        self.set_chars(v, n);
    }

    /// The buffer contents.
    pub fn as_str(&self) -> (s: &str)
        requires
            self.wf(),
        ensures
            s@ == self@.0,
            s@.len() < usize::MAX,
    {
        self.buffer.as_str()
    }

    /// The cursor as a count of chars from the buffer start.
    pub fn cursor(&self) -> (c: usize)
        ensures
            c == self@.1,
    {
        self.cursor
    }

    /// Restore a saved buffer and cursor, clamping the cursor to the buffer
    /// and clearing any selection.
    pub fn restore(&mut self, buffer: &str, cursor: usize)
        requires
            buffer@.len() < usize::MAX,
        ensures
            final(self).wf(),
            final(self)@ == (buffer@, if cursor <= buffer@.len() {
                cursor as nat
            } else {
                buffer@.len()
            }, None::<InputSelection>),
    {
        let v = crate::text::chars_of(buffer);
        let c = if cursor <= v.len() { cursor } else { v.len() };
        self.set_chars(v, c);
    }

    /// Whether the buffer is empty.
    pub fn is_empty(&self) -> (b: bool)
        requires
            self.wf(),
        ensures
            b == (self@.0.len() == 0),
    {
        self.chars.len() == 0
    }

    /// The text of line `row`, or empty when out of range.
    pub fn line_text(&self, row: usize) -> (s: String)
        requires
            self.wf(),
        ensures
            s@ == line_text_from(self@.0, 0, row as nat),
            s@.len() <= self@.0.len(),
    {
        let n = self.chars.len();
        let mut start: usize = 0;
        let mut k: usize = row;
        loop
            invariant
                self.wf(),
                n == self.chars@.len(),
                start <= n,
                line_text_from(self.chars@, start as int, k as nat) == line_text_from(
                    self.chars@,
                    0,
                    row as nat,
                ),
            decreases n - start,
        {
            let mut end = start;
            proof {
                lemma_line_end(self.chars@, start as int);
            }
            while end < n && self.chars[end] != '\n'
                invariant
                    start <= end <= n == self.chars@.len(),
                    line_end(self.chars@, end as int) == line_end(self.chars@, start as int),
                decreases n - end,
            {
                end = end + 1;
            }
            if k == 0 {
                return crate::text::string_from_chars(self.chars.as_slice(), start, end);
            }
            if end >= n {
                let s = String::new();
                assert(s@ =~= Seq::<char>::empty());
                return s;
            }
            start = end + 1;
            k = k - 1;
        }
    }

    /// The active selection, if any.
    pub fn selection(&self) -> (s: Option<InputSelection>)
        ensures
            s == self@.2,
    {
        self.selection
    }

    /// Cancel any selection, leaving the cursor where it is.
    pub fn cancel_selection(&mut self)
        requires
            old(self).wf(),
        ensures
            final(self).wf(),
            final(self)@ == (old(self)@.0, old(self)@.1, None::<InputSelection>),
    {
        self.selection = None;
    }

    /// Whether a non-empty selection is active.
    pub fn has_selection(&self) -> (b: bool)
        ensures
            b == (self@.2 matches Some(s) && s.anchor != s.caret),
    {
        match self.selection {
            Some(s) => !s.is_empty(),
            None => false,
        }
    }

    /// The selected text, if a non-empty selection is active.
    pub fn selected_text(&self) -> (t: Option<String>)
        requires
            self.wf(),
        ensures
            match self@.2 {
                Some(s) if s.anchor != s.caret => t matches Some(x) && x@ == self@.0.subrange(
                    clamp(sel_range(s).0 as int, self@.0.len() as int),
                    clamp(sel_range(s).1 as int, self@.0.len() as int),
                ),
                _ => t is None,
            },
    {
        let sel = match self.selection {
            Some(s) => s,
            None => return None,
        };
        if sel.is_empty() {
            return None;
        }
        let (a, b) = sel.range();
        let n = self.chars.len();
        let a = if a <= n { a } else { n };
        let b = if b <= n { b } else { n };
        Some(crate::text::string_from_chars(self.chars.as_slice(), a, b))
    }

    /// The buffer chars plus the current line's `[start, end)` and the
    /// cursor's column in it.
    fn line_context(&self) -> (r: (usize, usize, usize))
        requires
            self.wf(),
        ensures
            r.0 == line_start(self@.0, self@.1 as int),
            r.1 == line_end(self@.0, self@.1 as int),
            r.2 == self@.1 - r.0,
            r.0 <= self@.1 <= r.1 <= self@.0.len(),
    {
        let (start, end) = super::editing::current_line_bounds(self.chars.as_slice(), self.cursor);
        proof {
            lemma_line_start(self.chars@, self.cursor as int);
            lemma_line_end(self.chars@, self.cursor as int);
        }
        (start, end, self.cursor - start)
    }

    /// Move the cursor to the start of its line (Home).
    pub fn line_move_start(&mut self)
        requires
            old(self).wf(),
        ensures
            final(self).wf(),
            final(self)@ == (old(self)@.0, line_start(old(self)@.0, old(self)@.1 as int) as nat, None::<
                InputSelection,
            >),
    {
        self.selection = None;
        let (start, _end, _col) = self.line_context();
        self.cursor = start;
    }

    /// Move the cursor to the end of its line (End).
    pub fn line_move_end(&mut self)
        requires
            old(self).wf(),
        ensures
            final(self).wf(),
            final(self)@ == (old(self)@.0, line_end(old(self)@.0, old(self)@.1 as int) as nat, None::<
                InputSelection,
            >),
    {
        self.selection = None;
        let (_start, end, _col) = self.line_context();
        self.cursor = end;
    }

    /// Where a word motion left lands, within the current line.
    fn word_left_target(&self) -> (t: usize)
        requires
            self.wf(),
        ensures
            ({
                let s = old_line(self@.0, self@.1 as int);
                t == line_start(self@.0, self@.1 as int) + word_left_spec(s, self@.1 - line_start(
                    self@.0,
                    self@.1 as int,
                ))
            }),
            t <= self@.1,
    {
        let (start, end, col) = self.line_context();
        let line = &self.chars.as_slice()[start..end];
        let c = super::editing::word_boundary_left(line, col);
        start + c
    }

    /// Where a word motion right lands, within the current line.
    fn word_right_target(&self) -> (t: usize)
        requires
            self.wf(),
        ensures
            ({
                let s = old_line(self@.0, self@.1 as int);
                t == line_start(self@.0, self@.1 as int) + word_right_spec(s, self@.1 - line_start(
                    self@.0,
                    self@.1 as int,
                ))
            }),
            self@.1 <= t <= line_end(self@.0, self@.1 as int),
    {
        let (start, end, col) = self.line_context();
        let line = &self.chars.as_slice()[start..end];
        let c = super::editing::word_boundary_right(line, col);
        start + c
    }

    /// Move one word left within the current line (Ctrl+Left).
    pub fn word_move_left(&mut self)
        requires
            old(self).wf(),
        ensures
            final(self).wf(),
            final(self)@ == (old(self)@.0, (line_start(old(self)@.0, old(self)@.1 as int)
                + word_left_spec(
                old_line(old(self)@.0, old(self)@.1 as int),
                old(self)@.1 - line_start(old(self)@.0, old(self)@.1 as int),
            )) as nat, None::<InputSelection>),
    {
        self.selection = None;
        self.cursor = self.word_left_target();
    }

    /// Move one word right within the current line (Ctrl+Right).
    pub fn word_move_right(&mut self)
        requires
            old(self).wf(),
        ensures
            final(self).wf(),
            final(self)@ == (old(self)@.0, (line_start(old(self)@.0, old(self)@.1 as int)
                + word_right_spec(
                old_line(old(self)@.0, old(self)@.1 as int),
                old(self)@.1 - line_start(old(self)@.0, old(self)@.1 as int),
            )) as nat, None::<InputSelection>),
    {
        self.selection = None;
        proof {
            lemma_line_end(self.chars@, self.cursor as int);
        }
        self.cursor = self.word_right_target();
    }

    /// Make sure a selection exists (anchored at the cursor), then move the
    /// cursor to `target` and track it as the selection's caret.
    fn extend_selection_to(&mut self, target: usize)
        requires
            old(self).wf(),
            target <= old(self)@.0.len(),
        ensures
            final(self).wf(),
            final(self)@ == (old(self)@.0, target as nat, Some(
                InputSelection {
                    anchor: match old(self)@.2 {
                        Some(s) => s.anchor,
                        None => old(self)@.1 as usize,
                    },
                    caret: target,
                },
            )),
    {
        let mut sel = match self.selection {
            Some(s) => s,
            None => InputSelection::new(self.cursor),
        };
        sel.caret = target;
        self.cursor = target;
        self.selection = Some(sel);
    }

    /// Extend the selection one char left (Shift+Left).
    pub fn select_char_left(&mut self)
        requires
            old(self).wf(),
        ensures
            final(self).wf(),
            ({
                let t: usize = if old(self)@.1 > 0 { (old(self)@.1 - 1) as usize } else { 0 };
                final(self)@ == (old(self)@.0, t as nat, Some(
                    InputSelection {
                        anchor: match old(self)@.2 {
                            Some(s) => s.anchor,
                            None => old(self)@.1 as usize,
                        },
                        caret: t,
                    },
                ))
            }),
    {
        let target = if self.cursor > 0 { self.cursor - 1 } else { 0 };
        self.extend_selection_to(target);
    }

    /// Extend the selection one char right (Shift+Right).
    pub fn select_char_right(&mut self)
        requires
            old(self).wf(),
        ensures
            final(self).wf(),
            ({
                let t: usize = if old(self)@.1 < old(self)@.0.len() {
                    (old(self)@.1 + 1) as usize
                } else {
                    old(self)@.1 as usize
                };
                final(self)@ == (old(self)@.0, t as nat, Some(
                    InputSelection {
                        anchor: match old(self)@.2 {
                            Some(s) => s.anchor,
                            None => old(self)@.1 as usize,
                        },
                        caret: t,
                    },
                ))
            }),
    {
        let target = if self.cursor < self.chars.len() { self.cursor + 1 } else { self.cursor };
        self.extend_selection_to(target);
    }

    /// Extend the selection one word left within the line (Shift+Ctrl+Left).
    pub fn select_word_left(&mut self)
        requires
            old(self).wf(),
        ensures
            final(self).wf(),
            ({
                let t = (line_start(old(self)@.0, old(self)@.1 as int) + word_left_spec(
                    old_line(old(self)@.0, old(self)@.1 as int),
                    old(self)@.1 - line_start(old(self)@.0, old(self)@.1 as int),
                )) as usize;
                final(self)@ == (old(self)@.0, t as nat, Some(
                    InputSelection {
                        anchor: match old(self)@.2 {
                            Some(s) => s.anchor,
                            None => old(self)@.1 as usize,
                        },
                        caret: t,
                    },
                ))
            }),
            0 <= word_left_at(old(self)@.0, old(self)@.1 as int) <= old(self)@.1,
    {
        let t = self.word_left_target();
        self.extend_selection_to(t);
    }

    /// Extend the selection one word right within the line (Shift+Ctrl+Right).
    pub fn select_word_right(&mut self)
        requires
            old(self).wf(),
        ensures
            final(self).wf(),
            ({
                let t = (line_start(old(self)@.0, old(self)@.1 as int) + word_right_spec(
                    old_line(old(self)@.0, old(self)@.1 as int),
                    old(self)@.1 - line_start(old(self)@.0, old(self)@.1 as int),
                )) as usize;
                final(self)@ == (old(self)@.0, t as nat, Some(
                    InputSelection {
                        anchor: match old(self)@.2 {
                            Some(s) => s.anchor,
                            None => old(self)@.1 as usize,
                        },
                        caret: t,
                    },
                ))
            }),
            old(self)@.1 <= word_right_at(old(self)@.0, old(self)@.1 as int) <= old(self)@.0.len(),
    {
        let t = self.word_right_target();
        proof {
            lemma_line_end(self.chars@, self.cursor as int);
        }
        self.extend_selection_to(t);
    }

    /// Delete from the line start to the cursor (Ctrl+U).
    pub fn kill_to_line_start(&mut self)
        requires
            old(self).wf(),
        ensures
            final(self).wf(),
            ({
                let st = line_start(old(self)@.0, old(self)@.1 as int);
                final(self)@ == (remove_range(old(self)@.0, st, old(self)@.1 as int), st as nat, None::<
                    InputSelection,
                >)
            }),
    {
        let (start, _end, _col) = self.line_context();
        let v = self.without(start, self.cursor);
        self.set_chars(v, start);
    }

    /// Delete from the cursor to the line end (Ctrl+K).
    pub fn kill_to_line_end(&mut self)
        requires
            old(self).wf(),
        ensures
            final(self).wf(),
            ({
                let en = line_end(old(self)@.0, old(self)@.1 as int);
                final(self)@ == (remove_range(old(self)@.0, old(self)@.1 as int, en), old(self)@.1, None::<
                    InputSelection,
                >)
            }),
    {
        let (_start, end, _col) = self.line_context();
        let v = self.without(self.cursor, end);
        let c = self.cursor;
        self.set_chars(v, c);
    }

    /// Delete the word before the cursor by the readline whitespace rule
    /// (Ctrl+W).
    pub fn delete_word_before(&mut self)
        requires
            old(self).wf(),
        ensures
            final(self).wf(),
            ({
                let st = line_start(old(self)@.0, old(self)@.1 as int);
                let from = st + rubout_start_spec(
                    old_line(old(self)@.0, old(self)@.1 as int),
                    old(self)@.1 - st,
                );
                final(self)@ == (remove_range(old(self)@.0, from, old(self)@.1 as int), from as nat, None::<
                    InputSelection,
                >)
            }),
    {
        let (start, end, col) = self.line_context();
        let line = &self.chars.as_slice()[start..end];
        let c = super::editing::delete_word_before_start(line, col);
        let from = start + c;
        let v = self.without(from, self.cursor);
        self.set_chars(v, from);
    }

    /// Clear the chars of the caret's line, keeping the other lines and the
    /// line structure (single `Esc` with no selection).
    pub fn clear_current_line(&mut self)
        requires
            old(self).wf(),
        ensures
            final(self).wf(),
            ({
                let st = line_start(old(self)@.0, old(self)@.1 as int);
                let en = line_end(old(self)@.0, old(self)@.1 as int);
                final(self)@ == (remove_range(old(self)@.0, st, en), st as nat, None::<
                    InputSelection,
                >)
            }),
    {
        let (start, end, _col) = self.line_context();
        let v = self.without(start, end);
        self.set_chars(v, start);
    }

    /// Insert pasted text at the cursor as one unit: line endings become
    /// `\n`, nothing is submitted, and the caret lands after the insertion.
    /// An empty paste changes nothing but the selection.
    pub fn insert_paste(&mut self, text: &str)
        requires
            old(self).wf(),
            old(self)@.0.len() + text@.len() + 1 < usize::MAX,
        ensures
            final(self).wf(),
            final(self)@ == (insert_at(old(self)@.0, old(self)@.1 as int, normalize_newlines(
                text@,
            )), old(self)@.1 + normalize_newlines(text@).len(), None::<InputSelection>),
    {
        self.selection = None;
        let t = crate::text::chars_of(text);
        let normalized = normalize_newlines_vec(t.as_slice());
        if t.len() == 0 {
            assert(self.chars@ =~= insert_at(self.chars@, self.cursor as int, normalize_newlines(
                text@,
            )));
            return;
        }
        let v = self.spliced(self.cursor, normalized.as_slice());
        let cur = self.cursor + normalized.len();
        self.set_chars(v, cur);
    }

    /// Take the buffer for submission, leaving the pad empty. Trailing
    /// whitespace-only lines of a multi-line buffer are dropped (interior
    /// blank lines stay; a single-line buffer is returned verbatim).
    pub fn take_submit(&mut self) -> (s: String)
        requires
            old(self).wf(),
        ensures
            final(self).wf(),
            final(self)@ == (Seq::<char>::empty(), 0nat, None::<InputSelection>),
            s@ == strip_blank_tail(old(self)@.0),
            s@.len() <= old(self)@.0.len(),
    {
        let end = strip_end(self.chars.as_slice());
        let s = crate::text::string_from_chars(self.chars.as_slice(), 0, end);
        self.clear();
        s
    }
}

/// The text of the line containing position `i`.
pub open spec fn old_line(s: Seq<char>, i: int) -> Seq<char> {
    s.subrange(line_start(s, i), line_end(s, i))
}

proof fn lemma_normalize_len(t: Seq<char>)
    ensures
        normalize_newlines(t).len() <= t.len(),
    decreases t.len(),
{
    if t.len() > 0 {
        if t[0] == '\r' && t.len() >= 2 && t[1] == '\n' {
            lemma_normalize_len(t.subrange(2, t.len() as int));
        } else {
            lemma_normalize_len(t.drop_first());
        }
    }
}

/// `t` with `\r\n` and lone `\r` turned into `\n`.
fn normalize_newlines_vec(t: &[char]) -> (v: Vec<char>)
    ensures
        v@ == normalize_newlines(t@),
        v@.len() <= t@.len(),
{
    let mut v: Vec<char> = Vec::new();
    let mut i: usize = 0;
    let n = t.len();
    proof {
        lemma_normalize_len(t@);
    }
    assert(t@.subrange(0, n as int) =~= t@);
    while i < n
        invariant
            n == t@.len(),
            i <= n,
            v@ + normalize_newlines(t@.subrange(i as int, n as int)) == normalize_newlines(t@),
        decreases n - i,
    {
        let ghost rest = t@.subrange(i as int, n as int);
        if t[i] == '\r' && i + 1 < n && t[i + 1] == '\n' {
            v.push('\n');
            assert(rest.subrange(2, rest.len() as int) =~= t@.subrange(i + 2, n as int));
            i = i + 2;
        } else if t[i] == '\r' {
            v.push('\n');
            assert(rest.drop_first() =~= t@.subrange(i + 1, n as int));
            i = i + 1;
        } else {
            v.push(t[i]);
            assert(rest.drop_first() =~= t@.subrange(i + 1, n as int));
            i = i + 1;
        }
        assert(v@ + normalize_newlines(t@.subrange(i as int, n as int)) =~= normalize_newlines(t@));
    }
    assert(t@.subrange(n as int, n as int) =~= Seq::<char>::empty());
    assert(v@ =~= normalize_newlines(t@));
    v
}

/// Whether `s[from..to]` holds only whitespace.
fn all_space(s: &[char], from: usize, to: usize) -> (b: bool)
    requires
        from <= to <= s@.len(),
    ensures
        b == (trim(s@.subrange(from as int, to as int)).len() == 0),
{
    let k = crate::text::trim_start_len(s, from, to);
    proof {
        crate::text::lemma_trim_start_suffix(s@.subrange(from as int, to as int));
        crate::text::lemma_trim_end_prefix(s@.subrange(k as int, to as int));
        let t = s@.subrange(k as int, to as int);
        if t.len() > 0 {
            assert(!is_space(t[0]));
            if crate::text::trim_end(t).len() == 0 {
                assert(is_space(t[0]));
            }
        }
    }
    k == to
}

/// The length of the buffer once trailing whitespace-only lines are dropped.
fn strip_end(s: &[char]) -> (n: usize)
    ensures
        n <= s@.len(),
        s@.subrange(0, n as int) == strip_blank_tail(s@),
{
    let mut end = s.len();
    assert(s@.subrange(0, end as int) =~= s@);
    loop
        invariant
            end <= s@.len(),
            strip_blank_tail(s@.subrange(0, end as int)) == strip_blank_tail(s@),
        decreases end,
    {
        let ghost cur = s@.subrange(0, end as int);
        let mut i = end;
        assert(cur.subrange(0, i as int) =~= cur);
        while i > 0 && s[i - 1] != '\n'
            invariant
                i <= end <= s@.len(),
                cur == s@.subrange(0, end as int),
                last_nl(cur.subrange(0, i as int)) == last_nl(cur),
            decreases i,
        {
            assert(cur.subrange(0, i - 1) =~= cur.subrange(0, i as int).drop_last());
            i = i - 1;
        }
        if i == 0 {
            assert(cur.subrange(0, 0) =~= Seq::<char>::empty());
            return end;
        }
        assert(cur.subrange(0, i as int).last() == '\n');
        assert(last_nl(cur) == Some(i - 1));
        assert(cur.subrange(i as int, cur.len() as int) =~= s@.subrange(i as int, end as int));
        if all_space(s, i, end) {
            assert(cur.subrange(0, i - 1) =~= s@.subrange(0, i - 1));
            end = i - 1;
        } else {
            return end;
        }
    }
}


/// The pad's view: `(buffer, cursor, selection)`.
pub type PadView = (Seq<char>, nat, Option<InputSelection>);

/// An editing operation on the pad, as keys and actions request them.
#[derive(Debug, Clone, Copy, PartialEq, Eq, Structural)]
pub enum PadEdit {
    InsertChar(char),
    InsertNewline,
    Backspace,
    MoveLeft,
    MoveRight,
    LineMoveStart,
    LineMoveEnd,
    WordMoveLeft,
    WordMoveRight,
    SelectCharLeft,
    SelectCharRight,
    SelectWordLeft,
    SelectWordRight,
    KillToLineStart,
    KillToLineEnd,
    DeleteWordBefore,
    ClearCurrentLine,
    CancelSelection,
}

/// The word-left target of the caret at `c` in `s`.
pub open spec fn word_left_at(s: Seq<char>, c: int) -> int {
    line_start(s, c) + word_left_spec(old_line(s, c), c - line_start(s, c))
}

/// The word-right target of the caret at `c` in `s`.
pub open spec fn word_right_at(s: Seq<char>, c: int) -> int {
    line_start(s, c) + word_right_spec(old_line(s, c), c - line_start(s, c))
}

/// `p` with the selection extended (or started at the caret) to `t`.
pub open spec fn extended(p: PadView, t: int) -> PadView {
    (p.0, t as nat, Some(
        InputSelection {
            anchor: match p.2 {
                Some(s) => s.anchor,
                None => p.1 as usize,
            },
            caret: t as usize,
        },
    ))
}

/// The pad after applying `e` to `p`. An insertion into a buffer already at
/// the address-space limit leaves it as it is.
pub open spec fn edit_spec(p: PadView, e: PadEdit) -> PadView {
    let (s, c) = (p.0, p.1 as int);
    match e {
        PadEdit::InsertChar(ch) => if s.len() + 1 < usize::MAX {
            (insert_at(s, c, seq![ch]), p.1 + 1, None)
        } else {
            p
        },
        PadEdit::InsertNewline => if s.len() + 1 < usize::MAX {
            (insert_at(s, c, seq!['\n']), p.1 + 1, None)
        } else {
            p
        },
        PadEdit::Backspace => if c == 0 {
            (s, 0nat, None)
        } else {
            (remove_range(s, c - 1, c), (c - 1) as nat, None)
        },
        PadEdit::MoveLeft => (s, if c > 0 { (c - 1) as nat } else { 0nat }, None),
        PadEdit::MoveRight => (s, if c < s.len() { (c + 1) as nat } else { c as nat }, None),
        PadEdit::LineMoveStart => (s, line_start(s, c) as nat, None),
        PadEdit::LineMoveEnd => (s, line_end(s, c) as nat, None),
        PadEdit::WordMoveLeft => (s, word_left_at(s, c) as nat, None),
        PadEdit::WordMoveRight => (s, word_right_at(s, c) as nat, None),
        PadEdit::SelectCharLeft => extended(p, if c > 0 { c - 1 } else { 0 }),
        PadEdit::SelectCharRight => extended(p, if c < s.len() { c + 1 } else { c }),
        PadEdit::SelectWordLeft => extended(p, word_left_at(s, c)),
        PadEdit::SelectWordRight => extended(p, word_right_at(s, c)),
        PadEdit::KillToLineStart => (remove_range(s, line_start(s, c), c), line_start(s, c) as nat, None),
        PadEdit::KillToLineEnd => (remove_range(s, c, line_end(s, c)), p.1, None),
        PadEdit::DeleteWordBefore => {
            let from = line_start(s, c) + rubout_start_spec(old_line(s, c), c - line_start(s, c));
            (remove_range(s, from, c), from as nat, None)
        },
        PadEdit::ClearCurrentLine => (remove_range(s, line_start(s, c), line_end(s, c)), line_start(s, c) as nat, None),
        PadEdit::CancelSelection => (s, p.1, None),
    }
}

impl InputPad {
    /// Insert `c` at the cursor unless the buffer is at the address-space
    /// limit.
    fn insert_char_within_limit(&mut self, c: char)
        requires
            old(self).wf(),
        ensures
            final(self).wf(),
            final(self)@ == if old(self)@.0.len() + 1 < usize::MAX {
                (insert_at(old(self)@.0, old(self)@.1 as int, seq![c]), old(self)@.1 + 1, None::<InputSelection>)
            } else {
                old(self)@
            },
    {
        if self.chars.len() < usize::MAX - 1 {
            self.insert_char(c);
        }
    }

    /// Apply one editing operation.
    pub fn apply_edit(&mut self, e: PadEdit)
        requires
            old(self).wf(),
        ensures
            final(self).wf(),
            final(self)@ == edit_spec(old(self)@, e),
    {
        match e {
            PadEdit::InsertChar(ch) => self.insert_char_within_limit(ch),
            PadEdit::InsertNewline => self.insert_char_within_limit('\n'),
            PadEdit::Backspace => self.backspace(),
            PadEdit::MoveLeft => self.move_left(),
            PadEdit::MoveRight => self.move_right(),
            PadEdit::LineMoveStart => self.line_move_start(),
            PadEdit::LineMoveEnd => self.line_move_end(),
            PadEdit::WordMoveLeft => self.word_move_left(),
            PadEdit::WordMoveRight => self.word_move_right(),
            PadEdit::SelectCharLeft => self.select_char_left(),
            PadEdit::SelectCharRight => self.select_char_right(),
            PadEdit::SelectWordLeft => self.select_word_left(),
            PadEdit::SelectWordRight => self.select_word_right(),
            PadEdit::KillToLineStart => self.kill_to_line_start(),
            PadEdit::KillToLineEnd => self.kill_to_line_end(),
            PadEdit::DeleteWordBefore => self.delete_word_before(),
            PadEdit::ClearCurrentLine => self.clear_current_line(),
            PadEdit::CancelSelection => self.cancel_selection(),
        }
    }
}

} // verus!
