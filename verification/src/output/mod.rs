//! Output processing: boundary detection on the shell's output stream and
//! the capture of block output into the transcript. Output is captured only
//! while a command's output span is open; boundaries close blocks and switch
//! capture off and on around full-screen programs.

pub mod parser;
pub mod sentinel;

pub use parser::{Boundary, ProcessorEvent};
pub use sentinel::SentinelScanner;

use vstd::prelude::*;
use crate::output::parser::{events_view, EventView};
use crate::output::sentinel::scan_spec;
use crate::pty::BoundaryMode;
use crate::session::block::{Block, BlockId, BlockState};
use crate::session::{index_of_id, lemma_index_of_id, lemma_replace_block, lemma_transcript_blocks, Transcript};

verus! {

/// Capture state: `(capturing, in alt screen, current block)`.
pub type CaptureState = (bool, bool, Option<BlockId>);

/// The capture state after one event.
pub open spec fn step_state(st: CaptureState, e: EventView) -> CaptureState {
    match e {
        EventView::Output(_) => st,
        EventView::Mark(b) => match b {
            Boundary::OutputStart => (true, st.1, st.2),
            Boundary::CommandEnd { .. } => (false, st.1, None),
            Boundary::AltScreenEnter => (false, true, st.2),
            Boundary::AltScreenLeave => (true, false, st.2),
            _ => st,
        },
    }
}

/// The capture state after a run of events.
pub open spec fn fold_state(st: CaptureState, es: Seq<EventView>) -> CaptureState
    decreases es.len(),
{
    if es.len() == 0 {
        st
    } else {
        step_state(fold_state(st, es.drop_last()), es.last())
    }
}

/// The boundaries among `es`, in order.
pub open spec fn marks(es: Seq<EventView>) -> Seq<Boundary>
    decreases es.len(),
{
    if es.len() == 0 {
        seq![]
    } else {
        match es.last() {
            EventView::Mark(b) => marks(es.drop_last()).push(b),
            EventView::Output(_) => marks(es.drop_last()),
        }
    }
}

/// `after` is `before` with block `i` replaced and every other block kept.
pub open spec fn only_block_changed(before: Seq<Block>, after: Seq<Block>, i: int) -> bool {
    &&& after.len() == before.len()
    &&& forall|k: int| 0 <= k < before.len() && k != i ==> #[trigger] after[k] == before[k]
}

/// What one event does to the transcript's blocks, given the capture state
/// before it: captured output is appended to the current block (when the
/// block's length allows it), a command end closes the current block, and an
/// alt-screen switch marks it interactive or running again.
pub open spec fn event_effect(before: Seq<Block>, after: Seq<Block>, st: CaptureState, e: EventView) -> bool {
    let target = match st.2 {
        Some(id) => index_of_id(before, id),
        None => None,
    };
    match target {
        None => after == before,
        Some(i) => match e {
            EventView::Output(data) => if st.0 && before[i].output@.0.len() + data.len()
                <= usize::MAX {
                only_block_changed(before, after, i) && before[i].output_pushed(&after[i], data)
            } else {
                after == before
            },
            EventView::Mark(b) => match b {
                Boundary::CommandEnd { exit_code } => only_block_changed(before, after, i)
                    && before[i].closed_as(&after[i], exit_code),
                Boundary::AltScreenEnter => after == before.update(
                    i,
                    Block { state: BlockState::Interactive, ..before[i] },
                ),
                Boundary::AltScreenLeave => after == before.update(
                    i,
                    Block { state: BlockState::Running, ..before[i] },
                ),
                _ => after == before,
            },
        },
    }
}

/// Each step of `trace` is what the matching event does, starting from
/// capture state `st0`, for the first `n` events of `ev`.
#[verifier::opaque]
pub open spec fn trace_ok(trace: Seq<Seq<Block>>, st0: CaptureState, ev: Seq<EventView>, n: int) -> bool {
    forall|k: int|
        0 <= k < n ==> event_effect(
            #[trigger] trace[k],
            trace[k + 1],
            fold_state(st0, ev.subrange(0, k)),
            ev[k],
        )
}

proof fn lemma_trace_push(
    trace: Seq<Seq<Block>>,
    st0: CaptureState,
    ev: Seq<EventView>,
    n: int,
    after: Seq<Block>,
)
    requires
        trace_ok(trace, st0, ev, n),
        trace.len() == n + 1,
        0 <= n < ev.len(),
        event_effect(trace[n], after, fold_state(st0, ev.subrange(0, n)), ev[n]),
    ensures
        trace_ok(trace.push(after), st0, ev, n + 1),
{
    reveal(trace_ok);
    let t2 = trace.push(after);
    assert forall|k: int| 0 <= k < n + 1 implies event_effect(
        #[trigger] t2[k],
        t2[k + 1],
        fold_state(st0, ev.subrange(0, k)),
        ev[k],
    ) by {
        if k < n {
            assert(t2[k] == trace[k]);
            assert(t2[k + 1] == trace[k + 1]);
        }
    }
}

/// Drives block-boundary detection and applies the results to a
/// [`Transcript`].
#[derive(Debug)]
pub struct OutputProcessor {
    mode: BoundaryMode,
    sentinel: Option<SentinelScanner>,
    alt_screen: bool,
    capturing: bool,
}

impl OutputProcessor {
    /// The session's boundary mode.
    pub closed spec fn mode_spec(&self) -> BoundaryMode {
        self.mode
    }

    /// Whether output is being captured into the current block.
    pub closed spec fn capturing_spec(&self) -> bool {
        self.capturing
    }

    /// Whether the wrapped program is in the alternate screen.
    pub closed spec fn alt_screen_spec(&self) -> bool {
        self.alt_screen
    }

    /// The sentinel scanner, in sentinel mode.
    pub closed spec fn sentinel_spec(&self) -> Option<SentinelScanner> {
        self.sentinel
    }

    /// The sentinel scanner exists exactly in sentinel mode.
    pub closed spec fn wf(&self) -> bool {
        (self.mode == BoundaryMode::Sentinel) == self.sentinel is Some
    }

    /// A processor matching the session's boundary mode.
    pub fn for_mode(mode: BoundaryMode, nonce: &str) -> (p: Self)
        ensures
            p.wf(),
            p.mode_spec() == mode,
            !p.alt_screen_spec(),
            p.capturing_spec() == (mode == BoundaryMode::Sentinel),
            mode == BoundaryMode::Sentinel ==> (p.sentinel_spec() matches Some(s)
                && s.nonce_spec() == vstd::utf8::encode_utf8(nonce@) && s.pending_spec()
                == Seq::<u8>::empty()),
    {
        match mode {
            BoundaryMode::Osc133 => Self::osc133(),
            BoundaryMode::Sentinel => Self::sentinel(nonce),
        }
    }

    /// OSC 133 mode: output is captured only between the `C` and `D` marks,
    /// so the echoed command line and the prompt are left out.
    pub fn osc133() -> (p: Self)
        ensures
            p.wf(),
            p.mode_spec() == BoundaryMode::Osc133,
            !p.alt_screen_spec(),
            !p.capturing_spec(),
    {
        OutputProcessor { mode: BoundaryMode::Osc133, sentinel: None, alt_screen: false, capturing: false }
    }

    /// Sentinel mode: with no output-start mark, capture runs over the whole
    /// span between command submit and the nonce.
    pub fn sentinel(nonce: &str) -> (p: Self)
        ensures
            p.wf(),
            p.mode_spec() == BoundaryMode::Sentinel,
            !p.alt_screen_spec(),
            p.capturing_spec(),
            p.sentinel_spec() matches Some(s) && s.nonce_spec() == vstd::utf8::encode_utf8(nonce@)
                && s.pending_spec() == Seq::<u8>::empty(),
    {
        OutputProcessor {
            mode: BoundaryMode::Sentinel,
            sentinel: Some(SentinelScanner::new(nonce)),
            alt_screen: false,
            capturing: true,
        }
    }

    /// The boundary mode.
    pub fn mode(&self) -> (m: BoundaryMode)
        ensures
            m == self.mode_spec(),
    {
        self.mode
    }

    /// Whether the wrapped program is currently in the alternate screen.
    pub fn in_alt_screen(&self) -> (b: bool)
        ensures
            b == self.alt_screen_spec(),
    {
        self.alt_screen
    }

    /// Reset capture for a freshly submitted command: in OSC 133 mode wait
    /// for the `C` mark; in sentinel mode capture at once.
    pub fn begin_command(&mut self)
        requires
            old(self).wf(),
        ensures
            final(self).wf(),
            final(self).capturing_spec() == (old(self).mode_spec() == BoundaryMode::Sentinel),
            final(self).mode_spec() == old(self).mode_spec(),
            final(self).alt_screen_spec() == old(self).alt_screen_spec(),
            final(self).sentinel_spec() == old(self).sentinel_spec(),
    {
        self.capturing = self.sentinel.is_some();
    }

    /// In sentinel mode, scan `bytes` for the nonce and append the events
    /// they complete to `out`. In OSC 133 mode the escape-sequence parser
    /// produces the events instead, and nothing happens here.
    pub fn scan_sentinel(&mut self, bytes: &[u8], out: &mut Vec<ProcessorEvent>)
        requires
            old(self).wf(),
        ensures
            final(self).wf(),
            final(self).mode_spec() == old(self).mode_spec(),
            final(self).capturing_spec() == old(self).capturing_spec(),
            final(self).alt_screen_spec() == old(self).alt_screen_spec(),
            match old(self).sentinel_spec() {
                Some(s) => {
                    let r = scan_spec(s.pending_spec() + bytes@, s.nonce_spec());
                    &&& final(self).sentinel_spec() matches Some(t) && t.pending_spec() == r.1
                        && t.nonce_spec() == s.nonce_spec()
                    &&& events_view(final(out)@) == events_view(old(out)@) + r.0
                },
                None => final(self).sentinel_spec() is None && final(out)@ == old(out)@,
            },
    {
        match &mut self.sentinel {
            Some(s) => s.feed(bytes, out),
            None => {},
        }
    }

    /// Apply one parsed event: capture output into the current block, or
    /// react to a boundary (which is handed back).
    pub fn handle_event(
        &mut self,
        event: ProcessorEvent,
        transcript: &mut Transcript,
        current_block: &mut Option<BlockId>,
    ) -> (r: Option<Boundary>)
        requires
            old(transcript).wf(),
        ensures
            final(transcript).wf(),
            event_effect(
                old(transcript).blocks_seq(),
                final(transcript).blocks_seq(),
                (old(self).capturing_spec(), old(self).alt_screen_spec(), *old(current_block)),
                event@,
            ),
            (final(self).capturing_spec(), final(self).alt_screen_spec(), *final(current_block))
                == step_state(
                (old(self).capturing_spec(), old(self).alt_screen_spec(), *old(current_block)),
                event@,
            ),
            r == match event@ {
                EventView::Mark(b) => Some(b),
                EventView::Output(_) => None,
            },
            final(self).mode_spec() == old(self).mode_spec(),
            final(self).sentinel_spec() == old(self).sentinel_spec(),
            final(transcript).caps_spec() == old(transcript).caps_spec(),
            final(transcript).next_id_spec() == old(transcript).next_id_spec(),
            final(transcript).scroll_spec() == old(transcript).scroll_spec(),
            final(transcript).viewport_spec() == old(transcript).viewport_spec(),
            final(transcript).max_scroll_spec() == old(transcript).max_scroll_spec(),
    {
        let ghost t0 = *transcript;
        proof {
            lemma_transcript_blocks(transcript);
            if let Some(id) = *current_block {
                lemma_index_of_id(transcript.blocks_seq(), id);
            }
        }
        match event {
            ProcessorEvent::Output(data) => {
                if self.capturing {
                    if let Some(id) = *current_block {
                        if let Some(block) = transcript.block_mut(id) {
                            let ghost i = index_of_id(t0.blocks_seq(), id).unwrap();
                            assert(block.wf());
                            if block.output.byte_len() as u128 + data.len() as u128
                                <= usize::MAX as u128 {
                                block.push_output(data.as_slice());
                            } else {
                                assert(t0.blocks_seq().update(i, t0.blocks_seq()[i]) =~= t0.blocks_seq());
                            }
                            proof {
                                lemma_replace_block(&t0, transcript, i);
                            }
                        }
                    }
                }
                None
            },
            ProcessorEvent::Boundary(boundary) => {
                match &boundary {
                    Boundary::OutputStart => {
                        self.capturing = true;
                    },
                    Boundary::CommandEnd { exit_code } => {
                        self.capturing = false;
                        let cur = *current_block;
                        *current_block = None;
                        if let Some(id) = cur {
                            transcript.close_block(id, *exit_code);
                        }
                    },
                    Boundary::AltScreenEnter => {
                        self.alt_screen = true;
                        self.capturing = false;
                        if let Some(id) = *current_block {
                            if let Some(block) = transcript.block_mut(id) {
                                let ghost i = index_of_id(t0.blocks_seq(), id).unwrap();
                                assert(block.wf());
                                block.state = BlockState::Interactive;
                                assert(block.wf());
                                proof {
                                    lemma_replace_block(&t0, transcript, i);
                                }
                            }
                        }
                    },
                    Boundary::AltScreenLeave => {
                        self.alt_screen = false;
                        self.capturing = true;
                        if let Some(id) = *current_block {
                            if let Some(block) = transcript.block_mut(id) {
                                let ghost i = index_of_id(t0.blocks_seq(), id).unwrap();
                                assert(block.wf());
                                block.state = BlockState::Running;
                                assert(block.wf());
                                proof {
                                    lemma_replace_block(&t0, transcript, i);
                                }
                            }
                        }
                    },
                    _ => {},
                }
                Some(boundary)
            },
        }
    }

    /// Apply parsed events, in order, to `transcript` and the
    /// `current_block` cursor. Returns the boundaries observed, newest last.
    pub fn apply(
        &mut self,
        events: Vec<ProcessorEvent>,
        transcript: &mut Transcript,
        current_block: &mut Option<BlockId>,
    ) -> (bounds: Vec<Boundary>)
        requires
            old(transcript).wf(),
        ensures
            final(transcript).wf(),
            bounds@ == marks(events_view(events@)),
            (final(self).capturing_spec(), final(self).alt_screen_spec(), *final(current_block))
                == fold_state(
                (old(self).capturing_spec(), old(self).alt_screen_spec(), *old(current_block)),
                events_view(events@),
            ),
            exists|trace: Seq<Seq<Block>>|
                {
                    &&& trace.len() == events@.len() + 1
                    &&& trace[0] == old(transcript).blocks_seq()
                    &&& trace.last() == final(transcript).blocks_seq()
                    &&& trace_ok(
                        trace,
                        (old(self).capturing_spec(), old(self).alt_screen_spec(), *old(current_block)),
                        events_view(events@),
                        events@.len() as int,
                    )
                },
            final(self).mode_spec() == old(self).mode_spec(),
            final(self).sentinel_spec() == old(self).sentinel_spec(),
            final(transcript).caps_spec() == old(transcript).caps_spec(),
            final(transcript).next_id_spec() == old(transcript).next_id_spec(),
            final(transcript).scroll_spec() == old(transcript).scroll_spec(),
            final(transcript).viewport_spec() == old(transcript).viewport_spec(),
            final(transcript).max_scroll_spec() == old(transcript).max_scroll_spec(),
            final(self).wf() == old(self).wf(),
    {
        let ghost ev = events_view(events@);
        let ghost st0 = (self.capturing, self.alt_screen, *current_block);
        // Reverse once so the events can be moved out front to back.
        let mut events = events;
        let mut rev: Vec<ProcessorEvent> = Vec::new();
        let ghost orig = events@;
        let total = events.len();
        while events.len() > 0
            invariant
                events@.len() + rev@.len() == orig.len(),
                events@ == orig.subrange(0, events@.len() as int),
                forall|k: int| 0 <= k < rev@.len() ==> #[trigger] rev@[k] == orig[orig.len() - 1 - k],
            decreases events@.len(),
        {
            let e = events.pop().unwrap();
            rev.push(e);
            assert(events@ =~= orig.subrange(0, events@.len() as int));
        }
        let mut bounds: Vec<Boundary> = Vec::new();
        let ghost mut trace: Seq<Seq<Block>> = seq![transcript.blocks_seq()];
        let mut done: usize = 0;
        proof {
            reveal(trace_ok);
            assert(ev.subrange(0, 0) =~= Seq::<EventView>::empty());
        }
        while rev.len() > 0
            invariant
                transcript.wf(),
                done + rev@.len() == orig.len(),
                total == orig.len(),
                ev == events_view(orig),
                forall|k: int| 0 <= k < rev@.len() ==> #[trigger] rev@[k] == orig[orig.len() - 1 - k],
                bounds@ == marks(ev.subrange(0, done as int)),
                (self.capturing, self.alt_screen, *current_block) == fold_state(
                    st0,
                    ev.subrange(0, done as int),
                ),
                trace.len() == done + 1,
                trace[0] == old(transcript).blocks_seq(),
                trace.last() == transcript.blocks_seq(),
                trace_ok(trace, st0, ev, done as int),
                self.mode == old(self).mode,
                self.sentinel == old(self).sentinel,
                transcript.caps_spec() == old(transcript).caps_spec(),
                transcript.next_id_spec() == old(transcript).next_id_spec(),
                transcript.scroll_spec() == old(transcript).scroll_spec(),
                transcript.viewport_spec() == old(transcript).viewport_spec(),
                transcript.max_scroll_spec() == old(transcript).max_scroll_spec(),
            decreases rev@.len(),
        {
            let e = rev.pop().unwrap();
            assert(e == orig[done as int]);
            let ghost before = transcript.blocks_seq();
            let ghost st = (self.capturing, self.alt_screen, *current_block);
            let r = self.handle_event(e, transcript, current_block);
            proof {
                assert(ev.subrange(0, done + 1).drop_last() =~= ev.subrange(0, done as int));
                assert(ev[done as int] == e@);
                lemma_trace_push(trace, st0, ev, done as int, transcript.blocks_seq());
                trace = trace.push(transcript.blocks_seq());
            }
            match r {
                Some(b) => bounds.push(b),
                None => {},
            }
            done = done + 1;
        }
        proof {
            assert(ev.subrange(0, done as int) =~= ev);
        }
        bounds
    }
}

} // verus!
