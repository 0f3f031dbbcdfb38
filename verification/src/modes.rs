//! Stream-level detection of the DEC private mode changes that drive input
//! routing: alternate-screen enter/exit and child mouse-tracking modes.

use vstd::prelude::*;

verus! {

/// A mode transition observed in the child's output byte stream.
#[derive(Debug, Clone, Copy, PartialEq, Eq)]
pub enum ModeEvent {
    /// Child entered the alternate screen (`?1049h`, legacy `?47h`/`?1047h`).
    AltScreenEnter,
    /// Child left the alternate screen (`?1049l`, legacy `?47l`/`?1047l`).
    AltScreenExit,
    /// Child enabled a mouse-tracking mode (`?1000h`, `?1002h`, `?1003h`, `?1006h`).
    MouseEnable(u16),
    /// Child disabled a mouse-tracking mode.
    MouseDisable(u16),
}

pub open spec fn is_digit(b: u8) -> bool {
    48 <= b <= 57
}

/// A byte that may appear in a DEC private parameter list.
pub open spec fn is_param_byte(b: u8) -> bool {
    is_digit(b) || b == 59
}

/// The decimal value of a run of ASCII digits.
pub open spec fn digits_value(s: Seq<u8>) -> nat
    decreases s.len(),
{
    if s.len() == 0 {
        0
    } else {
        digits_value(s.drop_last()) * 10 + (s.last() - 48) as nat
    }
}

/// The event a single parameter field yields: a known mode number (that fits
/// a `u16`) maps to its event; an empty, oversized or unknown field yields
/// nothing.
pub open spec fn field_events(f: Seq<u8>, set: bool) -> Seq<ModeEvent> {
    let v = digits_value(f);
    if f.len() == 0 || v > 65535 {
        seq![]
    } else if v == 1049 || v == 47 || v == 1047 {
        seq![if set { ModeEvent::AltScreenEnter } else { ModeEvent::AltScreenExit }]
    } else if v == 1000 || v == 1002 || v == 1003 || v == 1006 {
        seq![if set { ModeEvent::MouseEnable(v as u16) } else { ModeEvent::MouseDisable(v as u16) }]
    } else {
        seq![]
    }
}

/// Length of the first `;`-delimited field of `p`.
pub open spec fn field_len(p: Seq<u8>) -> nat
    decreases p.len(),
{
    if p.len() == 0 || p[0] == 59 {
        0
    } else {
        1 + field_len(p.drop_first())
    }
}

/// The events of a whole parameter list, field by field, in order.
pub open spec fn params_events(p: Seq<u8>, set: bool) -> Seq<ModeEvent>
    decreases p.len(),
{
    if p.len() == 0 {
        seq![]
    } else {
        let n = field_len(p);
        let rest = if n < p.len() { p.subrange(n + 1 as int, p.len() as int) } else { seq![] };
        field_events(p.subrange(0, n as int), set) + params_events(rest, set)
    }
}

/// Index of the first byte at or after `j` that is not a parameter byte.
pub open spec fn params_end(b: Seq<u8>, j: int) -> int
    decreases b.len() - j,
{
    if j >= b.len() || !is_param_byte(b[j]) {
        j
    } else {
        params_end(b, j + 1)
    }
}

/// Whether a complete `ESC [ ? params (h|l)` sequence starts at `i`.
pub open spec fn csi_private_at(b: Seq<u8>, i: int) -> bool {
    &&& 0 <= i
    &&& i + 2 < b.len()
    &&& b[i] == 0x1b
    &&& b[i + 1] == 91
    &&& b[i + 2] == 63
    &&& params_end(b, i + 3) < b.len()
    &&& (b[params_end(b, i + 3)] == 104 || b[params_end(b, i + 3)] == 108)
}

/// The mode transitions in `b` from index `i` on, in stream order.
pub open spec fn detect_from(b: Seq<u8>, i: int) -> Seq<ModeEvent>
    decreases b.len() - i,
{
    if i < 0 || i >= b.len() {
        seq![]
    } else if csi_private_at(b, i) {
        proof {
            lemma_params_end_bounds(b, i + 3);
        }
        let k = params_end(b, i + 3);
        params_events(b.subrange(i + 3, k), b[k] == 104) + detect_from(b, k + 1)
    } else {
        detect_from(b, i + 1)
    }
}

/// The end of a run of parameter bytes lies between its start and the end of the input, and every byte before it is a parameter byte.
pub proof fn lemma_params_end_bounds(b: Seq<u8>, j: int)
    requires
        0 <= j <= b.len(),
    ensures
        j <= params_end(b, j) <= b.len(),
        forall|k: int| j <= k < params_end(b, j) ==> is_param_byte(#[trigger] b[k]),
    decreases b.len() - j,
{
    if j < b.len() && is_param_byte(b[j]) {
        lemma_params_end_bounds(b, j + 1);
    }
}

proof fn lemma_field_len(p: Seq<u8>)
    ensures
        field_len(p) <= p.len(),
        field_len(p) < p.len() ==> p[field_len(p) as int] == 59,
        forall|k: int| 0 <= k < field_len(p) ==> #[trigger] p[k] != 59,
    decreases p.len(),
{
    if p.len() > 0 && p[0] != 59 {
        lemma_field_len(p.drop_first());
        assert forall|k: int| 0 <= k < field_len(p) implies #[trigger] p[k] != 59 by {
            if k > 0 {
                assert(p[k] == p.drop_first()[k - 1]);
            }
        }
    }
}

/// The value of one field, capped at 65536 so an oversized field stays
/// recognisably out of range without overflowing.
fn field_value(b: &[u8], from: usize, to: usize) -> (v: u32)
    requires
        from <= to <= b@.len(),
        forall|k: int| from <= k < to ==> is_digit(#[trigger] b@[k]),
    ensures
        v == if digits_value(b@.subrange(from as int, to as int)) > 65535 {
            65536
        } else {
            digits_value(b@.subrange(from as int, to as int))
        },
{
    let mut v: u32 = 0;
    let mut i = from;
    while i < to
        invariant
            from <= i <= to <= b@.len(),
            forall|k: int| from <= k < to ==> is_digit(#[trigger] b@[k]),
            v == if digits_value(b@.subrange(from as int, i as int)) > 65535 {
                65536
            } else {
                digits_value(b@.subrange(from as int, i as int))
            },
        decreases to - i,
    {
        let d = b[i];
        assert(is_digit(b@[i as int]));
        let ghost prev = b@.subrange(from as int, i as int);
        assert(b@.subrange(from as int, i + 1).drop_last() =~= prev);
        assert(b@.subrange(from as int, i + 1).last() == d);
        if v >= 65536 {
            assert(digits_value(b@.subrange(from as int, i + 1)) > 65535) by (nonlinear_arith)
                requires
                    digits_value(prev) > 65535,
                    digits_value(b@.subrange(from as int, i + 1)) == digits_value(prev) * 10 + (d
                        - 48) as nat,
            ;
        } else {
            v = v * 10 + (d - 48) as u32;
            if v > 65535 {
                v = 65536;
            }
        }
        i = i + 1;
    }
    v
}

/// Append the events of the parameter field `b[from..to]` to `events`.
fn push_field_event(events: &mut Vec<ModeEvent>, b: &[u8], from: usize, to: usize, set: bool)
    requires
        from <= to <= b@.len(),
        forall|k: int| from <= k < to ==> is_digit(#[trigger] b@[k]),
    ensures
        final(events)@ == old(events)@ + field_events(b@.subrange(from as int, to as int), set),
{
    let ghost f = b@.subrange(from as int, to as int);
    if from == to {
        assert(events@ =~= old(events)@ + field_events(f, set));
        return ;
    }
    let v = field_value(b, from, to);
    if v == 1049 || v == 47 || v == 1047 {
        events.push(if set { ModeEvent::AltScreenEnter } else { ModeEvent::AltScreenExit });
    } else if v == 1000 || v == 1002 || v == 1003 || v == 1006 {
        let m = v as u16;
        events.push(if set { ModeEvent::MouseEnable(m) } else { ModeEvent::MouseDisable(m) });
    }
    assert(events@ =~= old(events)@ + field_events(f, set));
}

proof fn lemma_params_events_step(p: Seq<u8>, set: bool, n: int)
    requires
        n == field_len(p),
        p.len() > 0,
    ensures
        params_events(p, set) == field_events(p.subrange(0, n), set) + params_events(
            if n < p.len() { p.subrange(n + 1, p.len() as int) } else { seq![] },
            set,
        ),
{
}

/// Append the events of the whole parameter list `b[from..to]` to `events`.
fn push_params_events(events: &mut Vec<ModeEvent>, b: &[u8], from: usize, to: usize, set: bool)
    requires
        from <= to <= b@.len(),
        forall|k: int| from <= k < to ==> is_param_byte(#[trigger] b@[k]),
    ensures
        final(events)@ == old(events)@ + params_events(b@.subrange(from as int, to as int), set),
{
    let mut start = from;
    while start < to
        invariant
            from <= start <= to <= b@.len(),
            forall|k: int| from <= k < to ==> is_param_byte(#[trigger] b@[k]),
            old(events)@ + params_events(b@.subrange(from as int, to as int), set) == events@
                + params_events(b@.subrange(start as int, to as int), set),
        decreases to - start,
    {
        let ghost p = b@.subrange(start as int, to as int);
        proof {
            lemma_field_len(p);
        }
        let mut end = start;
        while end < to && b[end] != 59
            invariant
                start <= end <= to <= b@.len(),
                p == b@.subrange(start as int, to as int),
                forall|k: int| start <= k < end ==> #[trigger] b@[k] != 59,
                end - start <= field_len(p),
                field_len(p) <= p.len(),
                field_len(p) < p.len() ==> p[field_len(p) as int] == 59,
                forall|k: int| 0 <= k < field_len(p) ==> #[trigger] p[k] != 59,
            decreases to - end,
        {
            assert(p[end - start] == b@[end as int]);
            end = end + 1;
        }
        assert(end - start == field_len(p)) by {
            if end < to {
                assert(p[end - start] == b@[end as int]);
            }
        }
        assert forall|k: int| start <= k < end implies is_digit(#[trigger] b@[k]) by {
            assert(is_param_byte(b@[k]));
        }
        push_field_event(events, b, start, end, set);
        proof {
            lemma_params_events_step(p, set, (end - start) as int);
            assert(p.subrange(0, (end - start) as int) =~= b@.subrange(start as int, end as int));
        }
        if end < to {
            assert(p.subrange((end - start) + 1, p.len() as int) =~= b@.subrange(
                end + 1,
                to as int,
            ));
            start = end + 1;
        } else {
            assert(b@.subrange(end as int, to as int) =~= Seq::<u8>::empty());
            assert(params_events(Seq::<u8>::empty(), set) =~= Seq::<ModeEvent>::empty());
            start = end;
        }
    }
    assert(b@.subrange(start as int, to as int) =~= Seq::<u8>::empty());
    assert(events@ =~= old(events)@ + params_events(b@.subrange(from as int, to as int), set));
}

/// Scan a byte stream for alt-screen and mouse-mode transitions, in order.
/// Recognizes DEC private set/reset sequences `ESC [ ? params (h|l)`, where
/// `params` may hold several `;`-separated mode numbers.
pub fn detect_mode(bytes: &[u8]) -> (events: Vec<ModeEvent>)
    ensures
        events@ == detect_from(bytes@, 0),
{
    let mut events: Vec<ModeEvent> = Vec::new();
    let mut i: usize = 0;
    let n = bytes.len();
    while i < n
        invariant
            n == bytes@.len(),
            i <= n,
            events@ + detect_from(bytes@, i as int) == detect_from(bytes@, 0),
        decreases n - i,
    {
        if bytes[i] != 0x1b || i + 1 >= n || bytes[i + 1] != 91 {
            i = i + 1;
            continue;
        }
        let mut j = i + 2;
        if j >= n || bytes[j] != 63 {
            i = i + 1;
            continue;
        }
        j = j + 1;
        let params_start = j;
        proof {
            lemma_params_end_bounds(bytes@, j as int);
        }
        while j < n && (48 <= bytes[j] && bytes[j] <= 57 || bytes[j] == 59)
            invariant
                n == bytes@.len(),
                params_start <= j <= params_end(bytes@, params_start as int) <= n,
                params_end(bytes@, j as int) == params_end(bytes@, params_start as int),
            decreases n - j,
        {
            proof {
                lemma_params_end_bounds(bytes@, j + 1);
            }
            j = j + 1;
        }
        if j >= n || (bytes[j] != 104 && bytes[j] != 108) {
            i = i + 1;
            continue;
        }
        let set = bytes[j] == 104;
        proof {
            lemma_params_end_bounds(bytes@, params_start as int);
        }
        push_params_events(&mut events, bytes, params_start, j, set);
        i = j + 1;
    }
    events
}

} // verus!
