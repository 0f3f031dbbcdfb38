//! Shell marks in the output stream: what the escape-sequence parser's
//! callbacks decide. The byte-level tokenizing is the `vte` crate's; the
//! decisions it hands back (which OSC or CSI sequence is a block boundary,
//! which control bytes are kept as text, how exit codes and `file://` paths
//! read) are made here.

use vstd::prelude::*;
use crate::session::block::{decode_lossy, lossy_utf8};
use crate::text::{chars_of, parse_i32, parse_i32_spec, str_from_utf8, trim, trim_end_len,
    trim_start_len, lemma_trim_end_prefix, utf8_of_char};

verus! {

/// A block-boundary or screen-mode signal extracted from the byte stream.
#[derive(Debug, Clone, PartialEq, Eq)]
pub enum Boundary {
    /// OSC 133 `A`: prompt start.
    PromptStart,
    /// OSC 133 `B`: command input accepted.
    CommandStart,
    /// OSC 133 `C`: command output starts here.
    OutputStart,
    /// OSC 133 `D;<exit>`: command finished with the given exit code.
    CommandEnd { exit_code: Option<i32> },
    /// Entered the alternate screen; capture suspends.
    AltScreenEnter,
    /// Left the alternate screen; the split UI resumes.
    AltScreenLeave,
    /// OSC 7: the shell reported a new working directory (its path, decoded).
    Cwd(String),
}

/// One unit of parsed output, in stream order.
#[derive(Debug, Clone, PartialEq, Eq)]
pub enum ProcessorEvent {
    /// A span of output bytes belonging to the current block.
    Output(Vec<u8>),
    /// A boundary or mode mark.
    Boundary(Boundary),
}

/// The mathematical view of a [`ProcessorEvent`].
pub ghost enum EventView {
    Output(Seq<u8>),
    Mark(Boundary),
}

impl View for ProcessorEvent {
    type V = EventView;

    open spec fn view(&self) -> EventView {
        match self {
            ProcessorEvent::Output(v) => EventView::Output(v@),
            ProcessorEvent::Boundary(b) => EventView::Mark(*b),
        }
    }
}

/// The views of a sequence of events.
pub open spec fn events_view(s: Seq<ProcessorEvent>) -> Seq<EventView> {
    s.map_values(|e: ProcessorEvent| e@)
}

/// An exit code field: valid UTF-8 that, once trimmed, parses as an `i32`.
pub open spec fn exit_code_spec(b: Seq<u8>) -> Option<i32> {
    if vstd::utf8::valid_utf8(b) {
        parse_i32_spec(trim(vstd::utf8::decode_utf8(b)))
    } else {
        None
    }
}

/// Read an exit code field (`D;<exit>` or the sentinel's `;<exit>`).
pub fn parse_exit_code(bytes: &[u8]) -> (r: Option<i32>)
    ensures
        r == exit_code_spec(bytes@),
{
    match str_from_utf8(bytes) {
        None => None,
        Some(s) => {
            let chars = chars_of(s);
            let n = chars.len();
            let start = trim_start_len(chars.as_slice(), 0, n);
            let end = trim_end_len(chars.as_slice(), start, n);
            proof {
                assert(chars@.subrange(0, n as int) =~= chars@);
                lemma_trim_end_prefix(chars@.subrange(start as int, n as int));
                assert(trim(s@) =~= chars@.subrange(start as int, end as int));
            }
            parse_i32(chars.as_slice(), start, end)
        },
    }
}

/// The value of an ASCII hex digit byte.
pub open spec fn hex_value(b: u8) -> Option<u8> {
    if 48 <= b <= 57 {
        Some((b - 48) as u8)
    } else if 97 <= b <= 102 {
        Some((b - 87) as u8)
    } else if 65 <= b <= 70 {
        Some((b - 55) as u8)
    } else {
        None
    }
}

fn hex_digit(b: u8) -> (r: Option<u8>)
    ensures
        r == hex_value(b),
{
    if 48 <= b && b <= 57 {
        Some(b - 48)
    } else if 97 <= b && b <= 102 {
        Some(b - 87)
    } else if 65 <= b && b <= 70 {
        Some(b - 55)
    } else {
        None
    }
}

/// Percent-decoding: each `%` followed by two hex digits becomes that byte;
/// any other byte, and an invalid or truncated escape, passes through.
pub open spec fn percent_decoded(s: Seq<u8>) -> Seq<u8>
    decreases s.len(),
{
    if s.len() == 0 {
        seq![]
    } else if s.len() >= 3 && s[0] == 37 && hex_value(s[1]) is Some && hex_value(s[2]) is Some {
        seq![(hex_value(s[1]).unwrap() * 16 + hex_value(s[2]).unwrap()) as u8] + percent_decoded(
            s.subrange(3, s.len() as int),
        )
    } else {
        seq![s[0]] + percent_decoded(s.drop_first())
    }
}

/// Percent-decode `bytes[from..]`.
pub fn percent_decode_bytes(bytes: &[u8], from: usize) -> (out: Vec<u8>)
    requires
        from <= bytes@.len(),
    ensures
        out@ == percent_decoded(bytes@.subrange(from as int, bytes@.len() as int)),
{
    let mut out: Vec<u8> = Vec::new();
    let mut i = from;
    while i < bytes.len()
        invariant
            from <= i <= bytes@.len(),
            percent_decoded(bytes@.subrange(from as int, bytes@.len() as int)) == out@
                + percent_decoded(bytes@.subrange(i as int, bytes@.len() as int)),
        decreases bytes.len() - i,
    {
        let ghost rest = bytes@.subrange(i as int, bytes@.len() as int);
        if bytes[i] == 37 && bytes.len() - i > 2 {
            let hi = hex_digit(bytes[i + 1]);
            let lo = hex_digit(bytes[i + 2]);
            if let (Some(h), Some(l)) = (hi, lo) {
                assert(rest.subrange(3, rest.len() as int) =~= bytes@.subrange(
                    i + 3,
                    bytes@.len() as int,
                ));
                out.push(h * 16 + l);
                i = i + 3;
                assert(percent_decoded(bytes@.subrange(from as int, bytes@.len() as int)) =~= out@
                    + percent_decoded(bytes@.subrange(i as int, bytes@.len() as int)));
                continue;
            }
        }
        assert(rest.drop_first() =~= bytes@.subrange(i + 1, bytes@.len() as int));
        out.push(bytes[i]);
        i = i + 1;
        assert(percent_decoded(bytes@.subrange(from as int, bytes@.len() as int)) =~= out@
            + percent_decoded(bytes@.subrange(i as int, bytes@.len() as int)));
    }
    assert(bytes@.subrange(i as int, bytes@.len() as int) =~= Seq::<u8>::empty());
    assert(out@ =~= out@ + Seq::<u8>::empty());
    out
}

/// Percent-decode `s` (`%20` becomes a space, and so on), then read the
/// bytes back as UTF-8, replacing invalid sequences.
pub fn percent_decode(s: &str) -> (r: String)
    ensures
        r@ == lossy_utf8(percent_decoded(vstd::utf8::encode_utf8(s@))),
{
    let bytes = s.as_bytes();
    let out = percent_decode_bytes(bytes, 0);
    assert(bytes@.subrange(0, bytes@.len() as int) =~= bytes@);
    decode_lossy(out.as_slice())
}

/// Index of the first `b` in `s`.
pub open spec fn first_index_of(s: Seq<u8>, b: u8) -> Option<int>
    decreases s.len(),
{
    if s.len() == 0 {
        None
    } else if s[0] == b {
        Some(0)
    } else {
        match first_index_of(s.drop_first(), b) {
            Some(i) => Some(i + 1),
            None => None,
        }
    }
}

/// `first_index_of` finds the first occurrence of `b`, or reports that there is none.
pub proof fn lemma_first_index_of(s: Seq<u8>, b: u8)
    ensures
        first_index_of(s, b) matches Some(i) ==> 0 <= i < s.len() && s[i] == b && forall|k: int|
            0 <= k < i ==> #[trigger] s[k] != b,
        first_index_of(s, b) is None ==> forall|k: int| 0 <= k < s.len() ==> #[trigger] s[k] != b,
    decreases s.len(),
{
    if s.len() > 0 && s[0] != b {
        let d = s.drop_first();
        lemma_first_index_of(d, b);
        assert forall|k: int| 0 < k < s.len() implies s[k] == #[trigger] d[k - 1] by {}
        if let Some(i) = first_index_of(d, b) {
            assert forall|k: int| 0 <= k < i + 1 implies #[trigger] s[k] != b by {
                if k > 0 {
                    assert(s[k] == d[k - 1]);
                }
            }
        } else {
            assert forall|k: int| 0 <= k < s.len() implies #[trigger] s[k] != b by {
                if k > 0 {
                    assert(s[k] == d[k - 1]);
                }
            }
        }
    }
}

/// Index (at or after `from`) of the first `b` in `s[from..]`, relative to
/// `from`.
pub fn position_of(s: &[u8], from: usize, b: u8) -> (r: Option<usize>)
    requires
        from <= s@.len(),
    ensures
        r matches Some(i) ==> first_index_of(s@.subrange(from as int, s@.len() as int), b) == Some(
            i as int,
        ) && from + i < s@.len() && s@[from + i] == b,
        r is None ==> first_index_of(s@.subrange(from as int, s@.len() as int), b) is None,
{
    let ghost t = s@.subrange(from as int, s@.len() as int);
    proof {
        lemma_first_index_of(t, b);
    }
    let mut i = from;
    while i < s.len()
        invariant
            from <= i <= s@.len(),
            t == s@.subrange(from as int, s@.len() as int),
            forall|k: int| from <= k < i ==> #[trigger] s@[k] != b,
        decreases s.len() - i,
    {
        if s[i] == b {
            proof {
                lemma_first_index_of(t, b);
                match first_index_of(t, b) {
                    Some(j) => {
                        assert(t[j] == s@[from + j]);
                        if j < i - from {
                            assert(s@[from + j] != b);
                        } else if j > i - from {
                            assert(t[i - from] == s@[i as int]);
                        }
                    },
                    None => {
                        assert(t[i - from] == s@[i as int]);
                    },
                }
            }
            return Some(i - from);
        }
        i = i + 1;
    }
    proof {
        lemma_first_index_of(t, b);
        if let Some(j) = first_index_of(t, b) {
            assert(t[j] == s@[from + j]);
        }
    }
    None
}

/// The bytes `file://`.
pub open spec fn file_scheme() -> Seq<u8> {
    seq![102, 105, 108, 101, 58, 47, 47]
}

/// The directory an OSC 7 `file://host/abs-path` payload reports: the path
/// from the first `/` after the scheme and optional host, percent-decoded.
/// `None` when the payload is not UTF-8, lacks the scheme, or has no path.
pub open spec fn osc7_path(raw: Seq<u8>) -> Option<Seq<char>> {
    if vstd::utf8::valid_utf8(raw) && raw.len() >= 7 && raw.subrange(0, 7) == file_scheme() {
        match first_index_of(raw.subrange(7, raw.len() as int), 47) {
            Some(k) => Some(lossy_utf8(percent_decoded(raw.subrange(7 + k, raw.len() as int)))),
            None => None,
        }
    } else {
        None
    }
}

/// Parse an OSC 7 `file://host/abs-path` payload into the working directory
/// it reports.
pub fn parse_osc7_cwd(raw: &[u8]) -> (r: Option<String>)
    ensures
        match osc7_path(raw@) {
            Some(p) => r matches Some(s) && s@ == p,
            None => r is None,
        },
{
    let valid = match str_from_utf8(raw) {
        Some(_) => true,
        None => false,
    };
    if !valid {
        return None;
    }
    assert(vstd::utf8::valid_utf8(raw@));
    if raw.len() < 7 || !(raw[0] == 102 && raw[1] == 105 && raw[2] == 108 && raw[3] == 101
        && raw[4] == 58 && raw[5] == 47 && raw[6] == 47) {
        proof {
            if raw@.len() >= 7 && raw@.subrange(0, 7) == file_scheme() {
                assert(raw@.subrange(0, 7)[0] == raw@[0]);
                assert(raw@.subrange(0, 7)[1] == raw@[1]);
                assert(raw@.subrange(0, 7)[2] == raw@[2]);
                assert(raw@.subrange(0, 7)[3] == raw@[3]);
                assert(raw@.subrange(0, 7)[4] == raw@[4]);
                assert(raw@.subrange(0, 7)[5] == raw@[5]);
                assert(raw@.subrange(0, 7)[6] == raw@[6]);
            }
        }
        return None;
    }
    assert(raw@.subrange(0, 7) =~= file_scheme());
    match position_of(raw, 7, 47) {
        None => None,
        Some(k) => {
            let decoded = percent_decode_bytes(raw, 7 + k);
            let path = decode_lossy(decoded.as_slice());
            Some(path)
        },
    }
}

/// The bytes of an ASCII string literal.
pub open spec fn ascii_bytes(s: Seq<char>) -> Seq<u8> {
    s.map_values(|c: char| c as u8)
}

/// The boundary an OSC sequence with these `;`-separated parameters marks,
/// if any: `133;A|B|C|D[;exit]` and `7;file://...`.
pub open spec fn osc_boundary_spec(params: Seq<Seq<u8>>, r: Option<Boundary>) -> bool {
    if params.len() >= 1 && params[0] == seq![49u8, 51, 51] {
        if params.len() >= 2 && params[1] == seq![65u8] {
            r == Some(Boundary::PromptStart)
        } else if params.len() >= 2 && params[1] == seq![66u8] {
            r == Some(Boundary::CommandStart)
        } else if params.len() >= 2 && params[1] == seq![67u8] {
            r == Some(Boundary::OutputStart)
        } else if params.len() >= 2 && params[1] == seq![68u8] {
            r == Some(
                Boundary::CommandEnd {
                    exit_code: if params.len() >= 3 {
                        exit_code_spec(params[2])
                    } else {
                        None
                    },
                },
            )
        } else {
            r is None
        }
    } else if params.len() >= 1 && params[0] == seq![55u8] {
        if params.len() >= 2 && osc7_path(params[1]) is Some {
            r matches Some(Boundary::Cwd(d)) && d@ == osc7_path(params[1])->0
        } else {
            r is None
        }
    } else {
        r is None
    }
}

/// The views of OSC parameters.
pub open spec fn params_view(params: Seq<&[u8]>) -> Seq<Seq<u8>> {
    params.map_values(|p: &[u8]| p@)
}

/// `p` spells exactly the bytes `lit`.
fn bytes_are(p: &[u8], lit: &[u8]) -> (b: bool)
    ensures
        b == (p@ == lit@),
{
    if p.len() != lit.len() {
        return false;
    }
    let mut i: usize = 0;
    while i < p.len()
        invariant
            p@.len() == lit@.len(),
            i <= p@.len(),
            forall|k: int| 0 <= k < i ==> p@[k] == lit@[k],
        decreases p.len() - i,
    {
        if p[i] != lit[i] {
            return false;
        }
        i = i + 1;
    }
    assert(p@ =~= lit@);
    true
}

/// The boundary an OSC sequence marks, from its `;`-separated parameters.
pub fn osc_boundary(params: &[&[u8]]) -> (r: Option<Boundary>)
    ensures
        osc_boundary_spec(params_view(params@), r),
{
    let ghost pv = params_view(params@);
    let osc133: &[u8] = &[49u8, 51, 51];
    let osc7: &[u8] = &[55u8];
    assert(osc133@ =~= seq![49u8, 51, 51] && osc7@ =~= seq![55u8]);
    if params.len() >= 1 && bytes_are(params[0], osc133) {
        assert(pv[0] == seq![49u8, 51, 51]);
        if params.len() >= 2 {
            let p1 = params[1];
            assert(pv[1] == p1@);
            let a: &[u8] = &[65u8];
            let b: &[u8] = &[66u8];
            let c: &[u8] = &[67u8];
            let d: &[u8] = &[68u8];
            assert(a@ =~= seq![65u8] && b@ =~= seq![66u8] && c@ =~= seq![67u8] && d@ =~= seq![68u8]);
            if bytes_are(p1, a) {
                return Some(Boundary::PromptStart);
            } else if bytes_are(p1, b) {
                return Some(Boundary::CommandStart);
            } else if bytes_are(p1, c) {
                return Some(Boundary::OutputStart);
            } else if bytes_are(p1, d) {
                let exit_code = if params.len() >= 3 {
                    assert(pv[2] == params@[2]@);
                    parse_exit_code(params[2])
                } else {
                    None
                };
                return Some(Boundary::CommandEnd { exit_code });
            }
        }
        return None;
    }
    proof {
        if params@.len() >= 1 {
            assert(pv[0] == params@[0]@);
        }
    }
    if params.len() >= 1 && bytes_are(params[0], osc7) {
        if params.len() >= 2 {
            assert(pv[1] == params@[1]@);
            if let Some(path) = parse_osc7_cwd(params[1]) {
                return Some(Boundary::Cwd(path));
            }
        }
        return None;
    }
    None
}

/// The alt-screen switch a private-mode CSI sequence (`CSI ? <mode> h|l`)
/// marks, if any: modes 1049, 1047 and 47.
pub open spec fn csi_boundary_spec(intermediates: Seq<u8>, mode: Option<u16>, c: char) -> Option<Boundary> {
    if intermediates == seq![63u8] && (c == 'h' || c == 'l') && (mode == Some(1049u16) || mode
        == Some(1047u16) || mode == Some(47u16)) {
        if c == 'h' {
            Some(Boundary::AltScreenEnter)
        } else {
            Some(Boundary::AltScreenLeave)
        }
    } else {
        None
    }
}

/// The alt-screen switch a CSI sequence marks, from its intermediates, its
/// first parameter and its final char.
pub fn csi_boundary(intermediates: &[u8], mode: Option<u16>, c: char) -> (r: Option<Boundary>)
    ensures
        r == csi_boundary_spec(intermediates@, mode, c),
{
    let q: &[u8] = &[63u8];
    assert(q@ =~= seq![63u8]);
    if !bytes_are(intermediates, q) || !(c == 'h' || c == 'l') {
        return None;
    }
    match mode {
        Some(m) => {
            if m == 1049 || m == 1047 || m == 47 {
                if c == 'h' {
                    Some(Boundary::AltScreenEnter)
                } else {
                    Some(Boundary::AltScreenLeave)
                }
            } else {
                None
            }
        },
        None => None,
    }
}

/// The control bytes kept as output text: newline and tab. Every other C0
/// control (a bare carriage return included) is dropped.
pub open spec fn keeps_control(b: u8) -> bool {
    b == 10 || b == 9
}

/// Collects the events of one parse: printable text and kept controls are
/// gathered into a pending span, which a boundary (or the end of the parse)
/// flushes as one output event.
#[derive(Debug)]
pub struct Performer {
    out: Vec<ProcessorEvent>,
    pending: Vec<u8>,
}

impl Performer {
    /// `(events so far, pending bytes)`.
    pub closed spec fn state(&self) -> (Seq<EventView>, Seq<u8>) {
        (events_view(self.out@), self.pending@)
    }

    /// A performer with nothing collected.
    pub fn new() -> (p: Self)
        ensures
            p.state() == (Seq::<EventView>::empty(), Seq::<u8>::empty()),
    {
        let p = Performer { out: Vec::new(), pending: Vec::new() };
        assert(events_view(p.out@) =~= Seq::<EventView>::empty());
        p
    }

    /// A printable char: its UTF-8 bytes join the pending span.
    pub fn print(&mut self, c: char)
        ensures
            final(self).state() == (old(self).state().0, old(self).state().1
                + vstd::utf8::encode_utf8(seq![c])),
    {
        let bytes = utf8_of_char(c);
        let mut i: usize = 0;
        while i < bytes.len()
            invariant
                i <= bytes@.len(),
                self.out@ == old(self).out@,
                self.pending@ == old(self).pending@ + bytes@.subrange(0, i as int),
            decreases bytes.len() - i,
        {
            self.pending.push(bytes[i]);
            i = i + 1;
            assert(self.pending@ =~= old(self).pending@ + bytes@.subrange(0, i as int));
        }
        assert(bytes@.subrange(0, bytes@.len() as int) =~= bytes@);
    }

    /// A C0 control byte: kept as text only if it is a newline or a tab.
    pub fn execute(&mut self, byte: u8)
        ensures
            final(self).state() == (old(self).state().0, if keeps_control(byte) {
                old(self).state().1.push(byte)
            } else {
                old(self).state().1
            }),
    {
        if byte == 10 || byte == 9 {
            self.pending.push(byte);
        }
    }

    /// Emit the pending span, if any, as one output event.
    pub fn flush(&mut self)
        ensures
            final(self).state() == (if old(self).state().1.len() > 0 {
                old(self).state().0.push(EventView::Output(old(self).state().1))
            } else {
                old(self).state().0
            }, Seq::<u8>::empty()),
    {
        if self.pending.len() > 0 {
            let mut chunk: Vec<u8> = Vec::new();
            std::mem::swap(&mut chunk, &mut self.pending);
            self.out.push(ProcessorEvent::Output(chunk));
            assert(events_view(self.out@) =~= events_view(old(self).out@).push(
                EventView::Output(old(self).pending@),
            ));
        }
    }

    /// Emit a boundary after flushing the pending span.
    pub fn boundary(&mut self, boundary: Boundary)
        ensures
            final(self).state() == ((if old(self).state().1.len() > 0 {
                old(self).state().0.push(EventView::Output(old(self).state().1))
            } else {
                old(self).state().0
            }).push(EventView::Mark(boundary)), Seq::<u8>::empty()),
    {
        self.flush();
        let ghost mid = self.out@;
        self.out.push(ProcessorEvent::Boundary(boundary));
        assert(events_view(self.out@) =~= events_view(mid).push(EventView::Mark(boundary)));
    }

    /// An OSC sequence: a boundary when it is one of the shell marks.
    pub fn osc_dispatch(&mut self, params: &[&[u8]], bell_terminated: bool)
        ensures
            exists|r: Option<Boundary>|
                osc_boundary_spec(params_view(params@), r) && match r {
                    Some(b) => final(self).state() == ((if old(self).state().1.len() > 0 {
                        old(self).state().0.push(EventView::Output(old(self).state().1))
                    } else {
                        old(self).state().0
                    }).push(EventView::Mark(b)), Seq::<u8>::empty()),
                    None => final(self).state() == old(self).state(),
                },
    {
        let r = osc_boundary(params);
        let ghost rr = r;
        match r {
            Some(b) => self.boundary(b),
            None => {},
        }
        assert(osc_boundary_spec(params_view(params@), rr));
    }

    /// A CSI sequence: an alt-screen boundary for the private modes
    /// 1049/1047/47 set or reset.
    pub fn csi_dispatch(&mut self, mode: Option<u16>, intermediates: &[u8], c: char)
        ensures
            match csi_boundary_spec(intermediates@, mode, c) {
                Some(b) => final(self).state() == ((if old(self).state().1.len() > 0 {
                    old(self).state().0.push(EventView::Output(old(self).state().1))
                } else {
                    old(self).state().0
                }).push(EventView::Mark(b)), Seq::<u8>::empty()),
                None => final(self).state() == old(self).state(),
            },
    {
        if let Some(b) = csi_boundary(intermediates, mode, c) {
            self.boundary(b);
        }
    }

    /// End the parse: flush the pending span and append every collected
    /// event, in order, to `out`.
    pub fn finish(self, out: &mut Vec<ProcessorEvent>)
        ensures
            events_view(final(out)@) == events_view(old(out)@) + (if self.state().1.len() > 0 {
                self.state().0.push(EventView::Output(self.state().1))
            } else {
                self.state().0
            }),
    {
        let mut me = self;
        me.flush();
        let ghost evs = me.out@;
        out.append(&mut me.out);
        proof {
            assert(events_view(old(out)@ + evs) =~= events_view(old(out)@) + events_view(evs));
            assert(events_view(out@) =~= events_view(old(out)@) + (if self.state().1.len() > 0 {
                self.state().0.push(EventView::Output(self.state().1))
            } else {
                self.state().0
            }));
        }
    }
}

} // verus!
