//! Transcript selection: the click-drag-release state machine anchored to
//! content rows (so a selection does not drift as output scrolls under it),
//! text extraction from a viewport cell grid, and the per-row highlight spans.

pub mod coords;

use vstd::prelude::*;
use coords::{cell_le, screen_row_of, Cell};
use crate::text::{concat, join, trim_end};

verus! {

/// States of the click-drag-release machine.
#[derive(Debug, Clone, Copy, PartialEq, Eq, Structural)]
pub enum SelState {
    /// No selection in progress.
    Idle,
    /// A drag is in progress; the end follows the pointer.
    Dragging,
    /// A finalized selection awaiting copy or clear.
    Active,
}

/// Outcome of a left mouse press.
#[derive(Debug, Clone, Copy, PartialEq, Eq, Structural)]
pub enum LeftPress {
    /// A new drag began at the pressed cell.
    StartedDrag,
    /// An active selection was cancelled; nothing copied.
    Cancelled,
    /// Shift was held: the event belongs to the child or host terminal.
    ForwardToChild,
}

/// Outcome of a copy trigger (right press or `Ctrl-C`).
#[derive(Debug, Clone, Copy, PartialEq, Eq)]
pub enum Trigger {
    /// No active selection and `Ctrl-C`: interrupt the child.
    Sigint,
    /// No active selection and a right press: open the context menu.
    ContextMenu,
    /// An active selection: copy this normalized range, then deselect.
    Copy(Cell, Cell),
}

/// The Idle → Dragging → Active machine over content-cell anchors.
#[derive(Debug)]
pub struct SelectionController {
    state: SelState,
    anchor: Cell,
    end: Cell,
}

/// `anchor` and `end` in document order.
pub open spec fn ordered(anchor: Cell, end: Cell) -> (Cell, Cell) {
    if cell_le(anchor, end) {
        (anchor, end)
    } else {
        (end, anchor)
    }
}

impl View for SelectionController {
    /// `(state, anchor, end)`.
    type V = (SelState, Cell, Cell);

    closed spec fn view(&self) -> (SelState, Cell, Cell) {
        (self.state, self.anchor, self.end)
    }
}

impl SelectionController {
    /// An idle controller.
    pub fn new() -> (s: Self)
        ensures
            s@ == (SelState::Idle, (0usize, 0usize), (0usize, 0usize)),
    {
        SelectionController { state: SelState::Idle, anchor: (0, 0), end: (0, 0) }
    }

    /// Current state.
    pub fn state(&self) -> (s: SelState)
        ensures
            s == self@.0,
    {
        self.state
    }

    /// Whether a finalized selection exists.
    pub fn is_active(&self) -> (b: bool)
        ensures
            b == (self@.0 == SelState::Active),
    {
        self.state == SelState::Active
    }

    /// A left press: shift forwards it; a press on an active selection clears
    /// it; otherwise a new drag begins at `cell`.
    pub fn left_press(&mut self, cell: Cell, shift: bool) -> (r: LeftPress)
        ensures
            shift ==> r == LeftPress::ForwardToChild && final(self)@ == old(self)@,
            !shift && old(self)@.0 == SelState::Active ==> r == LeftPress::Cancelled
                && final(self)@ == (SelState::Idle, old(self)@.1, old(self)@.2),
            !shift && old(self)@.0 != SelState::Active ==> r == LeftPress::StartedDrag
                && final(self)@ == (SelState::Dragging, cell, cell),
    {
        if shift {
            return LeftPress::ForwardToChild;
        }
        if self.state == SelState::Active {
            self.state = SelState::Idle;
            return LeftPress::Cancelled;
        }
        self.anchor = cell;
        self.end = cell;
        self.state = SelState::Dragging;
        LeftPress::StartedDrag
    }

    /// Move the drag end to `cell` while dragging; nothing otherwise.
    pub fn drag_to(&mut self, cell: Cell)
        ensures
            final(self)@ == if old(self)@.0 == SelState::Dragging {
                (SelState::Dragging, old(self)@.1, cell)
            } else {
                old(self)@
            },
    {
        if self.state == SelState::Dragging {
            self.end = cell;
        }
    }

    /// Releasing the mouse turns a drag into an active selection (no copy).
    pub fn release(&mut self)
        ensures
            final(self)@ == if old(self)@.0 == SelState::Dragging {
                (SelState::Active, old(self)@.1, old(self)@.2)
            } else {
                old(self)@
            },
    {
        if self.state == SelState::Dragging {
            self.state = SelState::Active;
        }
    }

    /// Cancel a drag or an active selection; returns whether anything was
    /// cancelled.
    pub fn cancel(&mut self) -> (b: bool)
        ensures
            b == (old(self)@.0 != SelState::Idle),
            final(self)@ == (SelState::Idle, old(self)@.1, old(self)@.2),
    {
        if self.state == SelState::Dragging || self.state == SelState::Active {
            self.state = SelState::Idle;
            true
        } else {
            false
        }
    }

    /// A submitted command clears any selection.
    pub fn on_command_submit(&mut self)
        ensures
            final(self)@ == (SelState::Idle, old(self)@.1, old(self)@.2),
    {
        self.state = SelState::Idle;
    }

    /// `Ctrl-C`: copy and deselect when active, else interrupt the child.
    pub fn ctrl_c(&mut self) -> (t: Trigger)
        ensures
            old(self)@.0 == SelState::Active ==> t == Trigger::Copy(
                ordered(old(self)@.1, old(self)@.2).0,
                ordered(old(self)@.1, old(self)@.2).1,
            ) && final(self)@ == (SelState::Idle, old(self)@.1, old(self)@.2),
            old(self)@.0 != SelState::Active ==> t == Trigger::Sigint && final(self)@ == old(
                self,
            )@,
    {
        if self.is_active() {
            let (a, b) = self.normalized();
            self.state = SelState::Idle;
            Trigger::Copy(a, b)
        } else {
            Trigger::Sigint
        }
    }

    /// A right press: copy and deselect when active, else open the menu.
    pub fn right_press(&mut self) -> (t: Trigger)
        ensures
            old(self)@.0 == SelState::Active ==> t == Trigger::Copy(
                ordered(old(self)@.1, old(self)@.2).0,
                ordered(old(self)@.1, old(self)@.2).1,
            ) && final(self)@ == (SelState::Idle, old(self)@.1, old(self)@.2),
            old(self)@.0 != SelState::Active ==> t == Trigger::ContextMenu && final(self)@ == old(
                self,
            )@,
    {
        if self.is_active() {
            let (a, b) = self.normalized();
            self.state = SelState::Idle;
            Trigger::Copy(a, b)
        } else {
            Trigger::ContextMenu
        }
    }

    /// The normalized range while dragging or active, for the highlight.
    pub fn range(&self) -> (r: Option<(Cell, Cell)>)
        ensures
            r == if self@.0 == SelState::Idle {
                None
            } else {
                Some(ordered(self@.1, self@.2))
            },
    {
        match self.state {
            SelState::Idle => None,
            _ => Some(self.normalized()),
        }
    }

    fn normalized(&self) -> (r: (Cell, Cell))
        ensures
            r == ordered(self@.1, self@.2),
    {
        coords::normalize(self.anchor, self.end)
    }
}

/// Every range the controller reports runs top-left to bottom-right.
pub proof fn lemma_ordered_is_ordered(a: Cell, b: Cell)
    ensures
        cell_le(ordered(a, b).0, ordered(a, b).1),
        (ordered(a, b).0 == a && ordered(a, b).1 == b) || (ordered(a, b).0 == b && ordered(a, b).1
            == a),
{
}

/// The first and last visible rows an extraction covers.
pub open spec fn extract_rows(height: int, top_row: int, a: Cell, b: Cell) -> (int, int) {
    let sr = match screen_row_of(top_row, a.0 as int, height) {
        Some(y) => y as int,
        None => 0,
    };
    let er = match screen_row_of(top_row, b.0 as int, height) {
        Some(y) => y as int,
        None => height - 1,
    };
    (sr, er)
}

/// The inclusive column range taken from visible row `sy` (of width `width`):
/// the start row begins at `a`'s column when `a` is visible (column 0
/// otherwise), the end row stops at `b`'s column when `b` is visible (the last
/// column otherwise), and rows between are taken whole.
pub open spec fn extract_cols(sy: int, height: int, top_row: int, width: int, a: Cell, b: Cell) -> (int, int) {
    let (sr, er) = extract_rows(height, top_row, a, b);
    let last = width - 1;
    let c0 = if sy == sr && screen_row_of(top_row, a.0 as int, height) is Some {
        if a.1 <= last { a.1 as int } else { last }
    } else {
        0
    };
    let c1 = if sy == er && screen_row_of(top_row, b.0 as int, height) is Some {
        if b.1 <= last { b.1 as int } else { last }
    } else {
        last
    };
    (c0, c1)
}

/// The text of one extracted row: its covered cells joined, right-trimmed
/// (nothing when the range is empty).
pub open spec fn extract_line(row: Seq<Seq<char>>, sy: int, height: int, top_row: int, a: Cell, b: Cell) -> Seq<
    char,
> {
    if row.len() == 0 {
        seq![]
    } else {
        let (c0, c1) = extract_cols(sy, height, top_row, row.len() as int, a, b);
        if c0 <= c1 {
            trim_end(concat(row.subrange(c0, c1 + 1)))
        } else {
            seq![]
        }
    }
}

/// The selected text: the covered rows' texts joined with `\n`.
pub open spec fn extract_spec(rows: Seq<Seq<Seq<char>>>, top_row: int, a: Cell, b: Cell) -> Seq<
    char,
> {
    let h = rows.len() as int;
    if h == 0 {
        seq![]
    } else {
        let (sr, er) = extract_rows(h, top_row, a, b);
        join(
            Seq::new(
                (if er >= sr { er - sr + 1 } else { 0 }) as nat,
                |i: int| extract_line(rows[sr + i], sr + i, h, top_row, a, b),
            ),
            seq!['\n'],
        )
    }
}

/// Concatenate the cells `row[c0..c1]`.
fn concat_cells(row: &Vec<String>, c0: usize, c1: usize) -> (s: String)
    requires
        c0 <= c1 <= row@.len(),
    ensures
        s@ == concat(row.deep_view().subrange(c0 as int, c1 as int)),
{
    let mut s = String::new();
    let mut i = c0;
    while i < c1
        invariant
            c0 <= i <= c1 <= row@.len(),
            s@ == concat(row.deep_view().subrange(c0 as int, i as int)),
        decreases c1 - i,
    {
        s.append(row[i].as_str());
        let ghost d = row.deep_view();
        assert(d.subrange(c0 as int, i + 1).drop_last() =~= d.subrange(c0 as int, i as int));
        i = i + 1;
    }
    s
}

/// Index of the last row whose cells, joined, hold more than whitespace.
pub open spec fn last_nonblank_row(rows: Seq<Seq<Seq<char>>>) -> Option<int>
    decreases rows.len(),
{
    if rows.len() == 0 {
        None
    } else if trim_end(concat(rows.last())).len() > 0 {
        Some(rows.len() - 1)
    } else {
        last_nonblank_row(rows.drop_last())
    }
}

/// The newest visible line that is not blank: the cells of the last row of
/// `rows` (the viewport, row-major, one string per cell) that holds more
/// than whitespace, joined; `None` when every row is blank.
pub fn last_nonblank_line(rows: &[Vec<String>]) -> (r: Option<String>)
    ensures
        match last_nonblank_row(rows.deep_view()) {
            Some(i) => r matches Some(t) && t@ == concat(rows.deep_view()[i]),
            None => r is None,
        },
{
    let ghost d = rows.deep_view();
    let mut n = rows.len();
    assert(d.subrange(0, n as int) =~= d);
    while n > 0
        invariant
            n <= rows@.len() == d.len(),
            d == rows.deep_view(),
            last_nonblank_row(d) == last_nonblank_row(d.subrange(0, n as int)),
        decreases n,
    {
        let row = &rows[n - 1];
        assert(d[n - 1] == row.deep_view());
        let line = concat_cells(row, 0, row.len());
        assert(row.deep_view().subrange(0, row@.len() as int) =~= row.deep_view());
        let cs = crate::text::chars_of(line.as_str());
        let keep = crate::text::trim_end_len(&cs, 0, cs.len());
        assert(cs@.subrange(0, cs@.len() as int) =~= cs@);
        let ghost sub = d.subrange(0, n as int);
        assert(sub.last() == d[n - 1]);
        assert(sub.drop_last() =~= d.subrange(0, n - 1));
        if keep > 0 {
            return Some(line);
        }
        n = n - 1;
    }
    None
}

/// Slice the selected text out of a viewport cell grid. `rows` is the
/// visible viewport, row-major, one string per cell (wide-cell continuation
/// columns are empty); `top_row` is the content row of `rows[0]`; `a` and `b`
/// are the normalized ends. Each line is right-trimmed; lines are joined
/// with `\n`. Where `a` lies above the viewport the first row is taken from
/// column 0; where `b` lies below it the last row is taken to its end.
pub fn extract_text(rows: &[Vec<String>], top_row: usize, a: Cell, b: Cell) -> (text: String)
    ensures
        text@ == extract_spec(rows.deep_view(), top_row as int, a, b),
{
    let height = rows.len();
    let ghost d = rows.deep_view();
    if height == 0 {
        let s = String::new();
        assert(s@ =~= Seq::<char>::empty());
        return s;
    }
    let a_row = coords::content_to_screen(top_row, a.0, height);
    let b_row = coords::content_to_screen(top_row, b.0, height);
    let a_vis = a_row.is_some();
    let b_vis = b_row.is_some();
    let sr = match a_row {
        Some(y) => y,
        None => 0,
    };
    let er = match b_row {
        Some(y) => y,
        None => height - 1,
    };
    let ghost lines = Seq::new(
        (if er >= sr { er - sr + 1 } else { 0 }) as nat,
        |i: int| extract_line(d[sr + i], sr + i, height as int, top_row as int, a, b),
    );
    if sr > er {
        let s = String::new();
        assert(lines =~= Seq::<Seq<char>>::empty());
        assert(s@ =~= join(lines, seq!['\n']));
        return s;
    }
    let mut out = String::new();
    let mut sy = sr;
    while sy <= er
        invariant
            sr <= er + 1,
            er < height == rows@.len() == d.len(),
            sr <= sy <= er + 1,
            d == rows.deep_view(),
            (sr as int, er as int) == extract_rows(height as int, top_row as int, a, b),
            a_vis == screen_row_of(top_row as int, a.0 as int, height as int) is Some,
            b_vis == screen_row_of(top_row as int, b.0 as int, height as int) is Some,
            lines == Seq::new(
                (if er >= sr { er - sr + 1 } else { 0 }) as nat,
                |i: int| extract_line(d[sr + i], sr + i, height as int, top_row as int, a, b),
            ),
            out@ == join(lines.subrange(0, sy - sr), seq!['\n']),
        decreases er + 1 - sy,
    {
        let row = &rows[sy];
        assert(d[sy as int] == row.deep_view());
        let width = row.len();
        let line: String = if width == 0 {
            String::new()
        } else {
            let last = width - 1;
            let c0 = if sy == sr && a_vis { if a.1 <= last { a.1 } else { last } } else { 0 };
            let c1 = if sy == er && b_vis { if b.1 <= last { b.1 } else { last } } else { last };
            if c0 <= c1 {
                let cells = concat_cells(row, c0, c1 + 1);
                let cs = crate::text::chars_of(cells.as_str());
                let keep = crate::text::trim_end_len(&cs, 0, cs.len());
                assert(cs@.subrange(0, cs@.len() as int) =~= cs@);
                proof {
                    crate::text::lemma_trim_end_prefix(cs@);
                }
                crate::text::string_from_chars(&cs, 0, keep)
            } else {
                let e = String::new();
                assert(e@ =~= Seq::<char>::empty());
                e
            }
        };
        assert(line@ == lines[sy - sr]);
        if sy > sr {
            crate::text::string_push(&mut out, '\n');
        }
        out.append(line.as_str());
        assert(lines.subrange(0, sy - sr + 1).drop_last() =~= lines.subrange(0, sy - sr));
        assert(out@ =~= join(lines.subrange(0, sy - sr + 1), seq!['\n']));
        sy = sy + 1;
    }
    assert(lines.subrange(0, sy - sr) =~= lines);
    out
}

/// The highlight span of visible row `y`: `Some((c0, c1))` inclusive when the
/// selection covers that row.
pub open spec fn span_at(y: int, height: int, cols: int, top_row: int, a: Cell, b: Cell) -> Option<
    (usize, usize),
> {
    let last = if cols >= 1 { cols - 1 } else { 0 };
    let sr = screen_row_of(top_row, a.0 as int, height);
    let er = screen_row_of(top_row, b.0 as int, height);
    let below = a.0 >= top_row + height;
    let above = b.0 < top_row;
    if sr is None && er is None && (below || above) {
        None
    } else {
        let s = match sr {
            Some(v) => v as int,
            None => 0,
        };
        let e = match er {
            Some(v) => v as int,
            None => if height >= 1 { height - 1 } else { 0 },
        };
        if y < s || y > e {
            None
        } else {
            let c0 = if y == s && sr is Some { if a.1 <= last { a.1 as int } else { last } } else { 0 };
            let c1 = if y == e && er is Some { if b.1 <= last { b.1 as int } else { last } } else { last };
            Some((c0 as usize, c1 as usize))
        }
    }
}

/// Per visible row, the inclusive column span the selection `a..=b` covers
/// (`None` for uncovered rows); used to overlay the highlight.
pub fn highlight_spans(height: usize, cols: u16, top_row: usize, a: Cell, b: Cell) -> (spans: Vec<
    Option<(usize, usize)>,
>)
    ensures
        spans@.len() == height,
        forall|y: int|
            0 <= y < height ==> #[trigger] spans@[y] == span_at(
                y,
                height as int,
                cols as int,
                top_row as int,
                a,
                b,
            ),
{
    let last: usize = if cols >= 1 { (cols - 1) as usize } else { 0 };
    let sr = coords::content_to_screen(top_row, a.0, height);
    let er = coords::content_to_screen(top_row, b.0, height);
    let below = a.0 >= top_row && a.0 - top_row >= height;
    let above = b.0 < top_row;
    let off = sr.is_none() && er.is_none() && (below || above);
    let s = match sr {
        Some(v) => v,
        None => 0,
    };
    let e = match er {
        Some(v) => v,
        None => if height >= 1 { height - 1 } else { 0 },
    };
    let mut spans: Vec<Option<(usize, usize)>> = Vec::new();
    let mut y: usize = 0;
    while y < height
        invariant
            y <= height,
            spans@.len() == y,
            forall|k: int|
                0 <= k < y ==> #[trigger] spans@[k] == span_at(
                    k,
                    height as int,
                    cols as int,
                    top_row as int,
                    a,
                    b,
                ),
            off == (sr is None && er is None && (a.0 >= top_row + height || b.0 < top_row)),
            sr == screen_row_of(top_row as int, a.0 as int, height as int),
            er == screen_row_of(top_row as int, b.0 as int, height as int),
            s == match sr {
                Some(v) => v as int,
                None => 0,
            },
            e == match er {
                Some(v) => v as int,
                None => if height >= 1 { height - 1 } else { 0 },
            },
            last == if cols >= 1 { cols - 1 } else { 0 },
        decreases height - y,
    {
        let span = if off || y < s || y > e {
            None
        } else {
            let c0 = if y == s && sr.is_some() { if a.1 <= last { a.1 } else { last } } else { 0 };
            let c1 = if y == e && er.is_some() { if b.1 <= last { b.1 } else { last } } else { last };
            Some((c0, c1))
        };
        spans.push(span);
        y = y + 1;
    }
    spans
}

} // verus!

verus! {

/// `s` holds no `x`.
pub open spec fn free_of(s: Seq<char>, x: char) -> bool {
    forall|i: int| 0 <= i < s.len() ==> #[trigger] s[i] != x
}

proof fn lemma_concat_free_of(parts: Seq<Seq<char>>, x: char)
    requires
        forall|i: int| 0 <= i < parts.len() ==> free_of(#[trigger] parts[i], x),
    ensures
        free_of(concat(parts), x),
    decreases parts.len(),
{
    if parts.len() > 0 {
        let d = parts.drop_last();
        assert forall|i: int| 0 <= i < d.len() implies free_of(#[trigger] d[i], x) by {
            assert(d[i] == parts[i]);
        }
        lemma_concat_free_of(d, x);
        assert(free_of(parts.last(), x));
        let c = concat(parts);
        assert(c == concat(d) + parts.last());
        assert forall|i: int| 0 <= i < c.len() implies #[trigger] c[i] != x by {
            if i < concat(d).len() {
                assert(c[i] == concat(d)[i]);
            } else {
                assert(c[i] == parts.last()[i - concat(d).len()]);
            }
        }
    }
}

/// Copied text never carries trailing whitespace on any line: when no cell
/// holds a line break, the selected text is its lines joined with `\n`, and
/// every line (the last as much as the others) is either empty or ends in a
/// character that is not whitespace.
pub proof fn lemma_extract_lines_trimmed(rows: Seq<Seq<Seq<char>>>, top_row: int, a: Cell, b: Cell)
    requires
        rows.len() <= usize::MAX,
        forall|r: int, c: int|
            0 <= r < rows.len() && 0 <= c < rows[r].len() ==> free_of(#[trigger] rows[r][c], '\n'),
    ensures
        exists|lines: Seq<Seq<char>>|
            #![trigger join(lines, seq!['\n'])]
            extract_spec(rows, top_row, a, b) == join(lines, seq!['\n']) && forall|i: int|
                0 <= i < lines.len() ==> free_of(#[trigger] lines[i], '\n') && (lines[i].len() > 0
                    ==> !crate::text::is_space(lines[i].last())),
{
    let h = rows.len() as int;
    if h == 0 {
        let lines = Seq::<Seq<char>>::empty();
        assert(extract_spec(rows, top_row, a, b) == join(lines, seq!['\n']));
    } else {
        let (sr, er) = extract_rows(h, top_row, a, b);
        let n: nat = (if er >= sr { er - sr + 1 } else { 0 }) as nat;
        let lines = Seq::new(n, |i: int| extract_line(rows[sr + i], sr + i, h, top_row, a, b));
        assert(0 <= sr < h && 0 <= er < h);
        assert forall|i: int| 0 <= i < lines.len() implies free_of(#[trigger] lines[i], '\n') && (
        lines[i].len() > 0 ==> !crate::text::is_space(lines[i].last())) by {
            let row = rows[sr + i];
            if row.len() > 0 {
                let (c0, c1) = extract_cols(sr + i, h, top_row, row.len() as int, a, b);
                if c0 <= c1 {
                    let parts = row.subrange(c0, c1 + 1);
                    assert forall|j: int| 0 <= j < parts.len() implies free_of(#[trigger] parts[j], '\n') by {
                        assert(parts[j] == rows[sr + i][c0 + j]);
                    }
                    lemma_concat_free_of(parts, '\n');
                    let x = concat(parts);
                    crate::text::lemma_trim_end_prefix(x);
                    let t = trim_end(x);
                    assert forall|k: int| 0 <= k < t.len() implies #[trigger] t[k] != '\n' by {
                        assert(t[k] == x[k]);
                    }
                }
            }
        }
        assert(extract_spec(rows, top_row, a, b) == join(lines, seq!['\n']));
    }
}

} // verus!
