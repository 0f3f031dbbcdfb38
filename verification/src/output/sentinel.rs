//! Sentinel boundary detection, for shells without OSC 133 marks: each
//! command is wrapped so that the shell prints a session-unique nonce, `;`,
//! the exit status and a newline. The scanner watches the byte stream for the
//! nonce, emitting the bytes before it as output and a command-end boundary
//! once the marker line is complete.

use vstd::prelude::*;
use crate::output::parser::{
    events_view, exit_code_spec, first_index_of, lemma_first_index_of, parse_exit_code,
    position_of, Boundary, EventView, ProcessorEvent,
};

verus! {

/// Index of the first occurrence of the non-empty `n` in `h`.
pub open spec fn find_from(h: Seq<u8>, n: Seq<u8>) -> Option<int>
    decreases h.len(),
{
    if n.len() == 0 || h.len() < n.len() {
        None
    } else if h.subrange(0, n.len() as int) == n {
        Some(0)
    } else {
        match find_from(h.drop_first(), n) {
            Some(i) => Some(i + 1),
            None => None,
        }
    }
}

/// `find_from` finds the first occurrence of a non-empty needle, or reports that there is none.
pub proof fn lemma_find_from(h: Seq<u8>, n: Seq<u8>)
    ensures
        find_from(h, n) matches Some(i) ==> n.len() > 0 && 0 <= i <= h.len() - n.len()
            && h.subrange(i, i + n.len()) == n && forall|k: int|
            0 <= k < i ==> #[trigger] h.subrange(k, k + n.len()) != n,
        find_from(h, n) is None ==> n.len() == 0 || forall|k: int|
            0 <= k <= h.len() - n.len() ==> #[trigger] h.subrange(k, k + n.len()) != n,
    decreases h.len(),
{
    if n.len() > 0 && h.len() >= n.len() && h.subrange(0, n.len() as int) != n {
        let d = h.drop_first();
        lemma_find_from(d, n);
        assert forall|k: int| 1 <= k <= h.len() - n.len() implies #[trigger] h.subrange(
            k,
            k + n.len(),
        ) == d.subrange(k - 1, k - 1 + n.len()) by {
            assert(h.subrange(k, k + n.len()) =~= d.subrange(k - 1, k - 1 + n.len()));
        }
        if let Some(i) = find_from(d, n) {
            assert(h.subrange(i + 1, i + 1 + n.len()) == d.subrange(i, i + n.len()));
            assert forall|k: int| 0 <= k < i + 1 implies #[trigger] h.subrange(k, k + n.len())
                != n by {
                if k > 0 {
                    assert(h.subrange(k, k + n.len()) == d.subrange(k - 1, k - 1 + n.len()));
                }
            }
        } else {
            assert forall|k: int| 0 <= k <= h.len() - n.len() implies #[trigger] h.subrange(
                k,
                k + n.len(),
            ) != n by {
                if k > 0 {
                    assert(h.subrange(k, k + n.len()) == d.subrange(k - 1, k - 1 + n.len()));
                }
            }
        }
    }
}

/// What scanning the pending bytes `buf` yields, and what stays pending:
/// output up to the nonce, then for each complete marker line a command-end
/// boundary (with no exit code when the line has no exit field); with no nonce in sight, everything but a tail of
/// `nonce.len() - 1` bytes (which could begin a split nonce) is output.
pub open spec fn scan_spec(buf: Seq<u8>, nonce: Seq<u8>) -> (Seq<EventView>, Seq<u8>)
    decreases buf.len(),
{
    match find_from(buf, nonce) {
        None => {
            let keep: int = if nonce.len() > 0 {
                nonce.len() - 1
            } else {
                0
            };
            if buf.len() > keep {
                (
                    seq![EventView::Output(buf.subrange(0, buf.len() - keep))],
                    buf.subrange(buf.len() - keep, buf.len() as int),
                )
            } else {
                (seq![], buf)
            }
        },
        Some(pos) => {
            let pre: Seq<EventView> = if pos > 0 {
                seq![EventView::Output(buf.subrange(0, pos))]
            } else {
                seq![]
            };
            let after = pos + nonce.len();
            match first_index_of(buf.subrange(after, buf.len() as int), 10) {
                None => (pre, buf.subrange(pos, buf.len() as int)),
                Some(nl) => {
                    proof {
                        lemma_find_from(buf, nonce);
                        lemma_first_index_of(buf.subrange(after, buf.len() as int), 10);
                    }
                    let exit_code = if nl >= 1 {
                        exit_code_spec(buf.subrange(after + 1, after + nl))
                    } else {
                        None
                    };
                    let r = scan_spec(buf.subrange(after + nl + 1, buf.len() as int), nonce);
                    (pre + seq![EventView::Mark(Boundary::CommandEnd { exit_code })] + r.0, r.1)
                },
            }
        },
    }
}

/// Whether `n` occurs in `h` at `i`.
fn matches_at(h: &[u8], i: usize, n: &[u8]) -> (b: bool)
    requires
        i + n@.len() <= h@.len(),
    ensures
        b == (h@.subrange(i as int, i + n@.len()) == n@),
{
    let hl = h.len();
    let mut k: usize = 0;
    while k < n.len()
        invariant
            hl == h@.len(),
            i + n@.len() <= h@.len(),
            k <= n@.len(),
            forall|j: int| 0 <= j < k ==> h@[i + j] == n@[j],
        decreases n.len() - k,
    {
        if h[i + k] != n[k] {
            assert(h@.subrange(i as int, i + n@.len())[k as int] != n@[k as int]);
            return false;
        }
        k = k + 1;
    }
    assert(h@.subrange(i as int, i + n@.len()) =~= n@);
    true
}

/// Index, relative to `from`, of the first occurrence of `n` in `h[from..]`.
fn find(h: &[u8], from: usize, n: &[u8]) -> (r: Option<usize>)
    requires
        from <= h@.len(),
    ensures
        r matches Some(i) ==> find_from(h@.subrange(from as int, h@.len() as int), n@) == Some(
            i as int,
        ),
        r is None ==> find_from(h@.subrange(from as int, h@.len() as int), n@) is None,
{
    let ghost t = h@.subrange(from as int, h@.len() as int);
    proof {
        lemma_find_from(t, n@);
    }
    if n.len() == 0 || h.len() - from < n.len() {
        return None;
    }
    let last = h.len() - n.len();
    let mut i = from;
    while i <= last
        invariant
            from <= i <= last + 1,
            last < usize::MAX,
            last + n@.len() == h@.len(),
            n@.len() > 0,
            t == h@.subrange(from as int, h@.len() as int),
            forall|k: int| 0 <= k < i - from ==> #[trigger] t.subrange(k, k + n@.len()) != n@,
        decreases last + 1 - i,
    {
        assert(t.subrange(i - from, i - from + n@.len()) =~= h@.subrange(i as int, i + n@.len()));
        if matches_at(h, i, n) {
            proof {
                lemma_find_from(t, n@);
                match find_from(t, n@) {
                    Some(j) => {
                        if j < i - from {
                            assert(t.subrange(j, j + n@.len()) != n@);
                        } else if j > i - from {
                            assert(t.subrange(i - from, i - from + n@.len()) == n@);
                        }
                    },
                    None => {
                        assert(t.subrange(i - from, i - from + n@.len()) == n@);
                    },
                }
            }
            return Some(i - from);
        }
        i = i + 1;
    }
    proof {
        lemma_find_from(t, n@);
        if let Some(j) = find_from(t, n@) {
            assert(t.subrange(j, j + n@.len()) != n@);
        }
    }
    None
}

/// A copy of `v[from..to]`.
fn copy_range(v: &[u8], from: usize, to: usize) -> (out: Vec<u8>)
    requires
        from <= to <= v@.len(),
    ensures
        out@ == v@.subrange(from as int, to as int),
{
    let mut out: Vec<u8> = Vec::new();
    let mut i = from;
    while i < to
        invariant
            from <= i <= to <= v@.len(),
            out@ == v@.subrange(from as int, i as int),
        decreases to - i,
    {
        out.push(v[i]);
        i = i + 1;
        assert(out@ =~= v@.subrange(from as int, i as int));
    }
    out
}

/// Scans output bytes for the sentinel nonce and the exit-code line.
#[derive(Debug)]
pub struct SentinelScanner {
    nonce: Vec<u8>,
    buf: Vec<u8>,
}

impl SentinelScanner {
    /// The nonce's bytes.
    pub closed spec fn nonce_spec(&self) -> Seq<u8> {
        self.nonce@
    }

    /// Bytes held back until more input arrives.
    pub closed spec fn pending_spec(&self) -> Seq<u8> {
        self.buf@
    }

    /// A scanner for the given session nonce.
    pub fn new(nonce: &str) -> (s: Self)
        ensures
            s.nonce_spec() == vstd::utf8::encode_utf8(nonce@),
            s.pending_spec() == Seq::<u8>::empty(),
    {
        let bytes = nonce.as_bytes();
        SentinelScanner { nonce: copy_range(bytes, 0, bytes.len()), buf: Vec::new() }
    }

    /// Feed `bytes`, appending the events they complete (in order) to `out`.
    pub fn feed(&mut self, bytes: &[u8], out: &mut Vec<ProcessorEvent>)
        ensures
            ({
                let r = scan_spec(old(self).pending_spec() + bytes@, old(self).nonce_spec());
                &&& events_view(final(out)@) == events_view(old(out)@) + r.0
                &&& final(self).pending_spec() == r.1
            }),
            final(self).nonce_spec() == old(self).nonce_spec(),
    {
        let mut i: usize = 0;
        while i < bytes.len()
            invariant
                i <= bytes@.len(),
                self.nonce@ == old(self).nonce@,
                self.buf@ == old(self).buf@ + bytes@.subrange(0, i as int),
            decreases bytes.len() - i,
        {
            self.buf.push(bytes[i]);
            i = i + 1;
            assert(self.buf@ =~= old(self).buf@ + bytes@.subrange(0, i as int));
        }
        assert(bytes@.subrange(0, bytes@.len() as int) =~= bytes@);
        self.scan(out);
    }

    fn scan(&mut self, out: &mut Vec<ProcessorEvent>)
        ensures
            ({
                let r = scan_spec(old(self).buf@, old(self).nonce@);
                &&& events_view(final(out)@) == events_view(old(out)@) + r.0
                &&& final(self).buf@ == r.1
            }),
            final(self).nonce@ == old(self).nonce@,
    {
        let ghost total = self.buf@;
        let ghost emitted: Seq<EventView> = seq![];
        let mut start: usize = 0;
        assert(total.subrange(0, total.len() as int) =~= total);
        assert(emitted + scan_spec(total, self.nonce@).0 =~= scan_spec(total, self.nonce@).0);
        loop
            invariant
                start <= self.buf@.len(),
                self.buf@ == total,
                self.nonce@ == old(self).nonce@,
                total == old(self).buf@,
                scan_spec(total, self.nonce@) == ({
                    let r = scan_spec(total.subrange(start as int, total.len() as int), self.nonce@);
                    (emitted + r.0, r.1)
                }),
                events_view(out@) == events_view(old(out)@) + emitted,
            decreases total.len() - start,
        {
            let ghost cur = total.subrange(start as int, total.len() as int);
            let n = self.nonce.len();
            let total_len = self.buf.len();
            match find(self.buf.as_slice(), start, self.nonce.as_slice()) {
                None => {
                    let keep = if n > 0 { n - 1 } else { 0 };
                    let len = self.buf.len();
                    if len - start > keep {
                        let emit = len - keep;
                        let chunk = copy_range(self.buf.as_slice(), start, emit);
                        let ghost before = out@;
                        out.push(ProcessorEvent::Output(chunk));
                        proof {
                            assert(cur.subrange(0, cur.len() - keep) =~= total.subrange(
                                start as int,
                                emit as int,
                            ));
                            assert(events_view(out@) =~= events_view(before).push(
                                EventView::Output(chunk@),
                            ));
                        }
                        let tail = self.buf.split_off(emit);
                        self.buf = tail;
                        proof {
                            assert(cur.subrange(cur.len() - keep, cur.len() as int) =~= self.buf@);
                        }
                    } else {
                        let tail = self.buf.split_off(start);
                        self.buf = tail;
                        assert(self.buf@ =~= cur);
                    }
                    return;
                },
                Some(pos) => {
                    proof {
                        lemma_find_from(cur, self.nonce@);
                    }
                    let at = start + pos;
                    if pos > 0 {
                        let chunk = copy_range(self.buf.as_slice(), start, at);
                        let ghost before = out@;
                        out.push(ProcessorEvent::Output(chunk));
                        proof {
                            assert(cur.subrange(0, pos as int) =~= chunk@);
                            assert(events_view(out@) =~= events_view(before).push(
                                EventView::Output(chunk@),
                            ));
                            emitted = emitted.push(EventView::Output(chunk@));
                        }
                    }
                    let after = at + n;
                    proof {
                        assert(cur.subrange(pos + n, cur.len() as int) =~= total.subrange(
                            after as int,
                            total.len() as int,
                        ));
                    }
                    match position_of(self.buf.as_slice(), after, 10) {
                        None => {
                            let tail = self.buf.split_off(at);
                            self.buf = tail;
                            assert(self.buf@ =~= cur.subrange(pos as int, cur.len() as int));
                            return;
                        },
                        Some(nl) => {
                            proof {
                                lemma_first_index_of(
                                    total.subrange(after as int, total.len() as int),
                                    10,
                                );
                            }
                            let exit_code = if nl >= 1 {
                                let field = copy_range(self.buf.as_slice(), after + 1, after + nl);
                                proof {
                                    assert(cur.subrange(pos + n + 1, pos + n + nl) =~= field@);
                                }
                                parse_exit_code(field.as_slice())
                            } else {
                                None
                            };
                            proof {
                                assert(cur.subrange(pos + n + nl + 1, cur.len() as int)
                                    =~= total.subrange(after + nl + 1, total.len() as int));
                            }
                            let ghost before = out@;
                            out.push(ProcessorEvent::Boundary(Boundary::CommandEnd { exit_code }));
                            proof {
                                assert(events_view(out@) =~= events_view(before).push(
                                    EventView::Mark(Boundary::CommandEnd { exit_code }),
                                ));
                                emitted = emitted.push(
                                    EventView::Mark(Boundary::CommandEnd { exit_code }),
                                );
                            }
                            start = after + nl + 1;
                        },
                    }
                },
            }
        }
    }
}

} // verus!
