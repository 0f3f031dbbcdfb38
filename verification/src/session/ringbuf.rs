//! A capped, head-dropping byte buffer for block output: it keeps the tail
//! of what was pushed and records whether anything was dropped.

use vstd::prelude::*;
use std::collections::VecDeque;

verus! {

broadcast use vstd::std_specs::vecdeque::group_vec_dequeue_axioms;

/// The number of `\n` bytes in `s`.
pub open spec fn newlines(s: Seq<u8>) -> nat
    decreases s.len(),
{
    if s.len() == 0 {
        0
    } else {
        newlines(s.drop_last()) + if s.last() == 10 { 1nat } else { 0nat }
    }
}

/// Index of the first `\n` in `s`, if any.
pub open spec fn first_nl(s: Seq<u8>) -> Option<int>
    decreases s.len(),
{
    if s.len() == 0 {
        None
    } else if s[0] == 10 {
        Some(0)
    } else {
        match first_nl(s.drop_first()) {
            Some(p) => Some(p + 1),
            None => None,
        }
    }
}

/// Keep the last `cap` bytes of `s` (all of it when `cap` is 0).
pub open spec fn cut_to_bytes(s: Seq<u8>, cap: nat) -> Seq<u8> {
    if cap > 0 && s.len() > cap {
        s.subrange(s.len() - cap, s.len() as int)
    } else {
        s
    }
}

/// Drop whole leading lines (through their `\n`) while `s` holds more than
/// `cap` newlines (nothing when `cap` is 0).
pub open spec fn drop_lines(s: Seq<u8>, cap: nat) -> Seq<u8>
    decreases s.len(),
{
    if cap > 0 && newlines(s) > cap {
        match first_nl(s) {
            Some(p) => if 0 <= p < s.len() {
                drop_lines(s.subrange(p + 1, s.len() as int), cap)
            } else {
                s
            },
            None => s,
        }
    } else {
        s
    }
}

/// What the buffer retains of `all` under the two caps.
pub open spec fn retained(all: Seq<u8>, cap_bytes: nat, cap_lines: nat) -> Seq<u8> {
    drop_lines(cut_to_bytes(all, cap_bytes), cap_lines)
}

/// `a` is a suffix of `b`.
pub open spec fn is_suffix(a: Seq<u8>, b: Seq<u8>) -> bool {
    a.len() <= b.len() && a == b.subrange(b.len() - a.len(), b.len() as int)
}

/// Newlines count additively over a concatenation.
pub proof fn lemma_newlines_concat(a: Seq<u8>, b: Seq<u8>)
    ensures
        newlines(a + b) == newlines(a) + newlines(b),
    decreases b.len(),
{
    if b.len() > 0 {
        lemma_newlines_concat(a, b.drop_last());
        assert((a + b).drop_last() =~= a + b.drop_last());
    } else {
        assert(a + b =~= a);
    }
}

/// A byte string holds no more newlines than bytes.
pub proof fn lemma_newlines_le_len(s: Seq<u8>)
    ensures
        newlines(s) <= s.len(),
    decreases s.len(),
{
    if s.len() > 0 {
        lemma_newlines_le_len(s.drop_last());
    }
}

proof fn lemma_first_nl(s: Seq<u8>)
    ensures
        first_nl(s) matches Some(p) ==> 0 <= p < s.len() && s[p] == 10 && forall|k: int|
            0 <= k < p ==> #[trigger] s[k] != 10,
        first_nl(s) is None ==> newlines(s) == 0,
    decreases s.len(),
{
    if s.len() > 0 && s[0] != 10 {
        let d = s.drop_first();
        lemma_first_nl(d);
        assert forall|k: int| 0 < k < s.len() implies s[k] == #[trigger] d[k - 1] by {}
        match first_nl(d) {
            Some(q) => {
                assert(first_nl(s) == Some(q + 1));
                assert forall|k: int| 0 <= k < q + 1 implies #[trigger] s[k] != 10 by {
                    if k > 0 {
                        assert(s[k] == d[k - 1]);
                    }
                }
            },
            None => {
                assert(first_nl(s) is None);
                assert(s =~= seq![s[0]] + d);
                lemma_newlines_concat(seq![s[0]], d);
                assert(seq![s[0]].drop_last() =~= Seq::<u8>::empty());
                assert(seq![s[0]].last() == s[0]);
                assert(newlines(seq![s[0]]) == newlines(Seq::<u8>::empty()));
            },
        }
    }
}

/// The newlines before and after a first newline at `p`.
proof fn lemma_split_at_first_nl(s: Seq<u8>, p: int)
    requires
        first_nl(s) == Some(p),
    ensures
        0 <= p < s.len(),
        newlines(s) == 1 + newlines(s.subrange(p + 1, s.len() as int)),
{
    lemma_first_nl(s);
    let pre = s.subrange(0, p + 1);
    let post = s.subrange(p + 1, s.len() as int);
    assert(s =~= pre + post);
    lemma_newlines_concat(pre, post);
    assert(pre.drop_last() =~= s.subrange(0, p));
    lemma_no_newlines(s.subrange(0, p));
}

proof fn lemma_no_newlines(s: Seq<u8>)
    requires
        forall|k: int| 0 <= k < s.len() ==> #[trigger] s[k] != 10,
    ensures
        newlines(s) == 0,
    decreases s.len(),
{
    if s.len() > 0 {
        lemma_no_newlines(s.drop_last());
    }
}

/// Dropping leading lines keeps a suffix within the line cap, and changes nothing when the bytes already fit.
pub proof fn lemma_drop_lines(s: Seq<u8>, cap: nat)
    ensures
        is_suffix(drop_lines(s, cap), s),
        cap > 0 ==> newlines(drop_lines(s, cap)) <= cap,
        newlines(s) <= cap || cap == 0 ==> drop_lines(s, cap) == s,
    decreases s.len(),
{
    if cap > 0 && newlines(s) > cap {
        match first_nl(s) {
            Some(p) => {
                lemma_split_at_first_nl(s, p);
                let rest = s.subrange(p + 1, s.len() as int);
                lemma_drop_lines(rest, cap);
                let d = drop_lines(rest, cap);
                assert(d =~= s.subrange(s.len() - d.len(), s.len() as int));
            },
            None => {
                lemma_first_nl(s);
            },
        }
    } else {
        assert(s =~= s.subrange(0, s.len() as int));
    }
}

/// A byte buffer bounded by a byte cap and a line cap (0 disables a cap).
/// Past a cap the oldest bytes, and whole leading lines for the line cap,
/// are dropped and the buffer is marked truncated.
#[derive(Debug)]
pub struct OutputBuffer {
    bytes: VecDeque<u8>,
    cap_bytes: u64,
    cap_lines: u64,
    truncated: bool,
    /// Running count of `\n` in `bytes`.
    line_count: u64,
}

impl View for OutputBuffer {
    /// `(retained bytes, truncated)`.
    type V = (Seq<u8>, bool);

    closed spec fn view(&self) -> (Seq<u8>, bool) {
        (self.bytes@, self.truncated)
    }
}

impl OutputBuffer {
    /// The byte cap this buffer was made with.
    pub closed spec fn cap_bytes(&self) -> nat {
        self.cap_bytes as nat
    }

    /// The line cap this buffer was made with.
    pub closed spec fn cap_lines(&self) -> nat {
        self.cap_lines as nat
    }

    /// The line count matches the bytes and both caps hold.
    pub closed spec fn wf(&self) -> bool {
        &&& self.line_count == newlines(self.bytes@)
        &&& self.cap_bytes > 0 ==> self.bytes@.len() <= self.cap_bytes
        &&& self.cap_lines > 0 ==> newlines(self.bytes@) <= self.cap_lines
    }

    /// An empty buffer bounded by `cap_bytes` and `cap_lines`.
    pub fn new(cap_bytes: u64, cap_lines: u64) -> (b: Self)
        ensures
            b.wf(),
            b@ == (Seq::<u8>::empty(), false),
            b.cap_bytes() == cap_bytes,
            b.cap_lines() == cap_lines,
    {
        OutputBuffer { bytes: VecDeque::new(), cap_bytes, cap_lines, truncated: false, line_count: 0 }
    }

    /// Append `data`, then enforce the caps: keep the last `cap_bytes`
    /// bytes, then drop whole leading lines while more than `cap_lines`
    /// newlines remain. The buffer is marked truncated when anything was
    /// dropped.
    pub fn push(&mut self, data: &[u8])
        requires
            old(self).wf(),
            old(self)@.0.len() + data@.len() <= usize::MAX,
        ensures
            final(self).wf(),
            final(self).cap_bytes() == old(self).cap_bytes(),
            final(self).cap_lines() == old(self).cap_lines(),
            final(self)@.0 == retained(old(self)@.0 + data@, old(self).cap_bytes(), old(self).cap_lines()),
            final(self)@.1 == (old(self)@.1 || final(self)@.0.len() < old(self)@.0.len() + data@.len()),
    {
        let ghost all = self.bytes@ + data@;
        if self.cap_bytes > 0 && data.len() as u64 >= self.cap_bytes {
            let keep = self.cap_bytes as usize;
            let from = data.len() - keep;
            if self.bytes.len() > 0 || data.len() > keep {
                self.truncated = true;
            }
            self.bytes.clear();
            let mut i = from;
            while i < data.len()
                invariant
                    from <= i <= data@.len(),
                    self.bytes@ == data@.subrange(from as int, i as int),
                    self.cap_bytes == old(self).cap_bytes,
                    self.cap_lines == old(self).cap_lines,
                    self.truncated == (old(self)@.1 || keep < all.len()),
                    keep == self.cap_bytes,
                    from == data@.len() - keep,
                decreases data.len() - i,
            {
                self.bytes.push_back(data[i]);
                i = i + 1;
                assert(self.bytes@ =~= data@.subrange(from as int, i as int));
            }
            let c = count_newlines(data, from);
            self.line_count = c;
            proof {
                assert(all.subrange(all.len() - keep, all.len() as int) =~= data@.subrange(
                    from as int,
                    data@.len() as int,
                ));
                assert(cut_to_bytes(all, self.cap_bytes as nat) == self.bytes@);
            }
            self.enforce_line_cap(Ghost(all));
            return;
        }
        let c = count_newlines(data, 0);
        proof {
            assert(data@.subrange(0, data@.len() as int) =~= data@);
            lemma_newlines_concat(self.bytes@, data@);
            lemma_newlines_le_len(all);
        }
        self.line_count = self.line_count + c;
        assert(self.line_count == newlines(all));
        let mut i: usize = 0;
        while i < data.len()
            invariant
                i <= data@.len(),
                self.bytes@ == old(self).bytes@ + data@.subrange(0, i as int),
                self.line_count == newlines(all),
                self.cap_bytes == old(self).cap_bytes,
                self.cap_lines == old(self).cap_lines,
                self.truncated == old(self).truncated,
                all == old(self).bytes@ + data@,
            decreases data.len() - i,
        {
            self.bytes.push_back(data[i]);
            i = i + 1;
            assert(self.bytes@ =~= old(self).bytes@ + data@.subrange(0, i as int));
        }
        assert(self.bytes@ =~= all);
        self.enforce_caps(Ghost(all));
    }

    /// Whether any bytes have been dropped to honor a cap.
    pub fn truncated(&self) -> (b: bool)
        ensures
            b == self@.1,
    {
        self.truncated
    }

    /// Number of retained bytes.
    pub fn byte_len(&self) -> (n: u64)
        ensures
            n == self@.0.len(),
    {
        self.bytes.len() as u64
    }

    /// Whether nothing is retained.
    pub fn is_empty(&self) -> (b: bool)
        ensures
            b == (self@.0.len() == 0),
    {
        self.bytes.len() == 0
    }

    /// The retained bytes, in order.
    pub fn to_vec(&self) -> (v: Vec<u8>)
        ensures
            v@ == self@.0,
    {
        let mut v: Vec<u8> = Vec::new();
        let mut i: usize = 0;
        while i < self.bytes.len()
            invariant
                i <= self.bytes@.len(),
                v@ == self.bytes@.subrange(0, i as int),
            decreases self.bytes.len() - i,
        {
            v.push(self.bytes[i]);
            i = i + 1;
            assert(v@ =~= self.bytes@.subrange(0, i as int));
        }
        assert(v@ =~= self.bytes@);
        v
    }

    /// Enforce the byte cap on the freshly extended buffer, then the line cap.
    fn enforce_caps(&mut self, Ghost(all): Ghost<Seq<u8>>)
        requires
            old(self).bytes@ == all,
            old(self).line_count == newlines(all),
        ensures
            final(self).wf(),
            final(self).cap_bytes == old(self).cap_bytes,
            final(self).cap_lines == old(self).cap_lines,
            final(self).bytes@ == retained(all, old(self).cap_bytes as nat, old(self).cap_lines as nat),
            final(self).truncated == (old(self).truncated || final(self).bytes@.len() < all.len()),
    {
        if self.cap_bytes > 0 && self.bytes.len() as u64 > self.cap_bytes {
            let overflow = self.bytes.len() - self.cap_bytes as usize;
            let mut dropped: u64 = 0;
            let mut k: usize = 0;
            while k < overflow
                invariant
                    k <= overflow <= self.bytes@.len(),
                    self.bytes@ == all,
                    self.cap_bytes == old(self).cap_bytes,
                    self.cap_lines == old(self).cap_lines,
                    self.line_count == old(self).line_count,
                    self.truncated == old(self).truncated,
                    dropped == newlines(all.subrange(0, k as int)),
                    dropped <= k,
                decreases overflow - k,
            {
                assert(all.subrange(0, k + 1).drop_last() =~= all.subrange(0, k as int));
                if self.bytes[k] == 10 {
                    dropped = dropped + 1;
                }
                k = k + 1;
            }
            let mut j: usize = 0;
            while j < overflow
                invariant
                    j <= overflow <= all.len(),
                    self.bytes@ == all.subrange(j as int, all.len() as int),
                    self.cap_bytes == old(self).cap_bytes,
                    self.cap_lines == old(self).cap_lines,
                    self.line_count == old(self).line_count,
                    self.truncated == old(self).truncated,
                    overflow == all.len() - self.cap_bytes,
                decreases overflow - j,
            {
                self.bytes.pop_front();
                j = j + 1;
                assert(self.bytes@ =~= all.subrange(j as int, all.len() as int));
            }
            proof {
                assert(all =~= all.subrange(0, overflow as int) + self.bytes@);
                lemma_newlines_concat(all.subrange(0, overflow as int), self.bytes@);
            }
            self.line_count = self.line_count - dropped;
            self.truncated = true;
        }
        self.enforce_line_cap(Ghost(all));
    }

    /// Drop whole leading lines while more than `cap_lines` remain.
    fn enforce_line_cap(&mut self, Ghost(all): Ghost<Seq<u8>>)
        requires
            old(self).bytes@ == cut_to_bytes(all, old(self).cap_bytes as nat),
            old(self).line_count == newlines(old(self).bytes@),
            old(self).truncated == (old(self).truncated || old(self).bytes@.len() < all.len()),
        ensures
            final(self).wf(),
            final(self).cap_bytes == old(self).cap_bytes,
            final(self).cap_lines == old(self).cap_lines,
            final(self).bytes@ == retained(all, old(self).cap_bytes as nat, old(self).cap_lines as nat),
            final(self).truncated == (old(self).truncated || final(self).bytes@.len() < all.len()),
    {
        let ghost s1 = self.bytes@;
        proof {
            lemma_drop_lines(s1, self.cap_lines as nat);
        }
        if self.cap_lines == 0 {
            return;
        }
        assert(s1.subrange(0, s1.len() as int) =~= s1);
        while self.line_count > self.cap_lines
            invariant
                self.cap_lines > 0,
                self.cap_lines == old(self).cap_lines,
                self.cap_bytes == old(self).cap_bytes,
                s1 == cut_to_bytes(all, self.cap_bytes as nat),
                self.line_count == newlines(self.bytes@),
                drop_lines(self.bytes@, self.cap_lines as nat) == drop_lines(s1, self.cap_lines as nat),
                is_suffix(self.bytes@, s1),
                s1.len() <= all.len(),
                self.truncated == (old(self).truncated || self.bytes@.len() < all.len()),
            decreases self.bytes@.len(),
        {
            let ghost cur = self.bytes@;
            proof {
                lemma_first_nl(cur);
            }
            let mut pos: usize = 0;
            while pos < self.bytes.len() && self.bytes[pos] != 10
                invariant
                    pos <= self.bytes@.len(),
                    self.bytes@ == cur,
                    forall|k: int| 0 <= k < pos ==> #[trigger] cur[k] != 10,
                decreases self.bytes.len() - pos,
            {
                pos = pos + 1;
            }
            proof {
                if pos >= cur.len() {
                    lemma_no_newlines(cur);
                }
                assert(pos < cur.len());
                if first_nl(cur) != Some(pos as int) {
                    let p = first_nl(cur).unwrap();
                    if p < pos {
                        assert(cur[p] != 10);
                    } else {
                        assert(cur[pos as int] == 10);
                    }
                }
                lemma_split_at_first_nl(cur, pos as int);
            }
            let ghost lc = self.line_count;
            let ghost tr = self.truncated;
            let mut j: usize = 0;
            while j < pos
                invariant
                    j <= pos,
                    pos < cur.len(),
                    self.bytes@ == cur.subrange(j as int, cur.len() as int),
                    self.cap_lines == old(self).cap_lines,
                    self.cap_bytes == old(self).cap_bytes,
                    self.line_count == lc,
                    self.truncated == tr,
                decreases pos + 1 - j,
            {
                self.bytes.pop_front();
                j = j + 1;
                assert(self.bytes@ =~= cur.subrange(j as int, cur.len() as int));
            }
            self.bytes.pop_front();
            assert(self.bytes@ =~= cur.subrange(pos + 1, cur.len() as int));
            self.line_count = self.line_count - 1;
            self.truncated = true;
            proof {
                let b = self.bytes@;
                assert(b =~= s1.subrange(s1.len() - b.len(), s1.len() as int));
            }
        }
        proof {
            lemma_drop_lines(self.bytes@, self.cap_lines as nat);
            lemma_drop_lines(s1, self.cap_lines as nat);
        }
    }
}

/// The number of `\n` bytes in `data[from..]`.
fn count_newlines(data: &[u8], from: usize) -> (n: u64)
    requires
        from <= data@.len(),
    ensures
        n == newlines(data@.subrange(from as int, data@.len() as int)),
{
    let mut n: u64 = 0;
    let mut i = from;
    while i < data.len()
        invariant
            from <= i <= data@.len(),
            n == newlines(data@.subrange(from as int, i as int)),
            n <= i - from,
        decreases data.len() - i,
    {
        assert(data@.subrange(from as int, i + 1).drop_last() =~= data@.subrange(
            from as int,
            i as int,
        ));
        if data[i] == 10 {
            n = n + 1;
        }
        i = i + 1;
    }
    n
}

/// What the buffer keeps is always a tail of everything pushed into it,
/// within both caps; when everything fits, nothing is dropped.
pub proof fn lemma_retains_tail(all: Seq<u8>, cap_bytes: nat, cap_lines: nat)
    ensures
        is_suffix(retained(all, cap_bytes, cap_lines), all),
        cap_bytes > 0 ==> retained(all, cap_bytes, cap_lines).len() <= cap_bytes,
        cap_lines > 0 ==> newlines(retained(all, cap_bytes, cap_lines)) <= cap_lines,
        (cap_bytes == 0 || all.len() <= cap_bytes) && (cap_lines == 0 || newlines(all)
            <= cap_lines) ==> retained(all, cap_bytes, cap_lines) == all,
{
    let s1 = cut_to_bytes(all, cap_bytes);
    lemma_drop_lines(s1, cap_lines);
    let r = drop_lines(s1, cap_lines);
    assert(r =~= all.subrange(all.len() - r.len(), all.len() as int));
}

} // verus!

verus! {

/// Everything pushed, in order: the pushes concatenated.
pub open spec fn pushed_bytes(pushes: Seq<Seq<u8>>) -> Seq<u8>
    decreases pushes.len(),
{
    if pushes.len() == 0 {
        seq![]
    } else {
        pushed_bytes(pushes.drop_last()) + pushes.last()
    }
}

/// The view `(retained bytes, truncated)` of a buffer made with the two caps
/// after `pushes`, each step as [`OutputBuffer::push`] states it.
pub open spec fn after_pushes(pushes: Seq<Seq<u8>>, cap_bytes: nat, cap_lines: nat) -> (Seq<u8>, bool)
    decreases pushes.len(),
{
    if pushes.len() == 0 {
        (seq![], false)
    } else {
        let prev = after_pushes(pushes.drop_last(), cap_bytes, cap_lines);
        let all = prev.0 + pushes.last();
        let kept = retained(all, cap_bytes, cap_lines);
        (kept, prev.1 || kept.len() < all.len())
    }
}

/// Over any sequence of pushes into a fresh buffer, what it keeps is a tail
/// of everything pushed, within the byte cap and the line cap, and it is
/// marked truncated exactly when it no longer holds everything pushed.
pub proof fn lemma_push_history(pushes: Seq<Seq<u8>>, cap_bytes: nat, cap_lines: nat)
    ensures
        ({
            let (kept, truncated) = after_pushes(pushes, cap_bytes, cap_lines);
            let all = pushed_bytes(pushes);
            &&& is_suffix(kept, all)
            &&& cap_bytes > 0 ==> kept.len() <= cap_bytes
            &&& cap_lines > 0 ==> newlines(kept) <= cap_lines
            &&& truncated <==> kept != all
        }),
    decreases pushes.len(),
{
    if pushes.len() > 0 {
        let rest = pushes.drop_last();
        lemma_push_history(rest, cap_bytes, cap_lines);
        let prev = after_pushes(rest, cap_bytes, cap_lines);
        let prev_all = pushed_bytes(rest);
        let d = pushes.last();
        let step = prev.0 + d;
        let kept = retained(step, cap_bytes, cap_lines);
        let all = pushed_bytes(pushes);
        lemma_retains_tail(step, cap_bytes, cap_lines);
        assert(all == prev_all + d);
        // `step` is a tail of `all`, so `kept` is too.
        assert(step =~= all.subrange(all.len() - step.len(), all.len() as int));
        assert(kept =~= all.subrange(all.len() - kept.len(), all.len() as int));
        if prev.1 {
            if prev.0.len() == prev_all.len() {
                assert(prev.0 =~= prev_all);
            }
            assert(prev.0.len() < prev_all.len());
            assert(kept.len() < all.len());
        } else {
            assert(prev.0 =~= prev_all);
            assert(step =~= all);
            if kept.len() == all.len() {
                assert(kept =~= all);
            }
        }
        assert(after_pushes(pushes, cap_bytes, cap_lines) == (kept, prev.1 || kept.len() < step.len()));
    } else {
        let e = pushed_bytes(pushes);
        assert(e.subrange(0, 0) =~= Seq::<u8>::empty());
    }
}

} // verus!
