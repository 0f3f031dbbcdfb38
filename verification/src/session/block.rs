//! A block: one submitted command together with its captured output, exit
//! code, wall-clock stamps and the grid rows it covers. The unit of the
//! transcript and of the block store.

use vstd::prelude::*;
use std::time::{Duration, SystemTime};
use crate::session::ringbuf::OutputBuffer;

verus! {

#[verifier::external_type_specification]
#[verifier::external_body]
pub struct ExSystemTime(SystemTime);

/// Monotonically increasing block identifier, unique within a session.
pub type BlockId = u64;

/// A row index into the grid that stays put as the grid scrolls.
pub type StableRowIndex = isize;

/// The wall clock now (`SystemTime::now`). Nothing is promised of the value:
/// it depends on the machine's clock.
#[verifier::external_body]
pub(crate) fn wall_clock_now() -> SystemTime {
    SystemTime::now()
}

/// What `SystemTime::duration_since` gives for `end` measured from `start`:
/// `Some(end - start)`, or `None` when `end` is earlier than `start`.
pub uninterp spec fn elapsed(start: SystemTime, end: SystemTime) -> Option<Duration>;

/// `end - start` as a `Duration` (`SystemTime::duration_since`), or `None`
/// when `end` is earlier than `start`. The result is named, not spelled out:
/// `Duration` and `SystemTime` are opaque here.
#[verifier::external_body]
pub(crate) fn elapsed_between(start: &SystemTime, end: &SystemTime) -> (r: Option<Duration>)
    ensures
        r == elapsed(*start, *end),
{
    end.duration_since(*start).ok()
}

/// What `String::from_utf8_lossy` makes of a byte sequence.
pub uninterp spec fn lossy_utf8(bytes: Seq<u8>) -> Seq<char>;

/// `bytes` are all ASCII.
pub open spec fn all_ascii(bytes: Seq<u8>) -> bool {
    forall|i: int| 0 <= i < bytes.len() ==> #[trigger] bytes[i] < 128
}

/// The characters that ASCII bytes stand for.
pub open spec fn ascii_chars(bytes: Seq<u8>) -> Seq<char> {
    bytes.map_values(|b: u8| b as char)
}

/// Decode `bytes` as UTF-8, replacing invalid sequences with U+FFFD
/// (`String::from_utf8_lossy`). Valid UTF-8 is returned unchanged; for ASCII
/// input that means one char per byte.
#[verifier::external_body]
pub(crate) fn decode_lossy(bytes: &[u8]) -> (s: String)
    ensures
        s@ == lossy_utf8(bytes@),
        all_ascii(bytes@) ==> s@ == ascii_chars(bytes@),
        vstd::utf8::valid_utf8(bytes@) ==> s@ == vstd::utf8::decode_utf8(bytes@),
{
    String::from_utf8_lossy(bytes).into_owned()
}

/// Lifecycle state of a block.
#[derive(Debug, Clone, Copy, PartialEq, Eq, Structural)]
pub enum BlockState {
    /// The command is running and output is being captured.
    Running,
    /// The command has finished; the block is closed.
    Closed,
    /// The command entered an alt-screen program; capture is suspended.
    Interactive,
}

/// One command plus its captured output and exit code.
#[derive(Debug)]
pub struct Block {
    pub id: BlockId,
    pub command: String,
    /// Working directory the command was submitted from, when known.
    pub cwd: Option<String>,
    /// Wall-clock start of the command.
    pub started_at: Option<SystemTime>,
    /// Wall-clock end of the command, once sealed.
    pub ended_at: Option<SystemTime>,
    /// Grid rows the block covers, `start..end`.
    pub row_range: std::ops::Range<StableRowIndex>,
    pub output: OutputBuffer,
    pub exit_code: Option<i32>,
    pub state: BlockState,
    /// Reserved for a privacy feature; always `false` for now.
    pub private: bool,
    /// Reserved for an output-retention feature; `true` for now.
    pub save_output: bool,
}

/// The text a block contributes with its command line: the command, a
/// newline, then the decoded output.
pub open spec fn with_command(command: Seq<char>, output: Seq<u8>) -> Seq<char> {
    command + seq!['\n'] + lossy_utf8(output)
}

impl Block {
    /// The block's output is well formed.
    pub open spec fn wf(&self) -> bool {
        self.output.wf()
    }

    /// `after` is `self` with `data` appended to its output: the output
    /// buffer keeps its caps and retains the capped tail, and every other
    /// field is unchanged.
    pub open spec fn output_pushed(&self, after: &Block, data: Seq<u8>) -> bool {
        &&& after.wf()
        &&& after.output.cap_bytes() == self.output.cap_bytes()
        &&& after.output.cap_lines() == self.output.cap_lines()
        &&& after.output@.0 == crate::session::ringbuf::retained(
            self.output@.0 + data,
            self.output.cap_bytes(),
            self.output.cap_lines(),
        )
        &&& after.output@.1 == (self.output@.1 || after.output@.0.len() < self.output@.0.len()
            + data.len())
        &&& after.id == self.id && after.command == self.command && after.cwd == self.cwd
        &&& after.started_at == self.started_at && after.ended_at == self.ended_at
        &&& after.row_range == self.row_range && after.exit_code == self.exit_code
        &&& after.state == self.state && after.private == self.private
        &&& after.save_output == self.save_output
    }

    /// `after` is `self` closed with `exit_code`: end-stamped, `Closed`, and
    /// otherwise unchanged.
    pub open spec fn closed_as(&self, after: &Block, exit_code: Option<i32>) -> bool {
        &&& after.ended_at is Some
        &&& after.exit_code == exit_code
        &&& after.state == BlockState::Closed
        &&& after.id == self.id && after.command == self.command && after.cwd == self.cwd
        &&& after.started_at == self.started_at && after.row_range == self.row_range
        &&& after.output == self.output && after.private == self.private
        &&& after.save_output == self.save_output
    }

    /// `self` is a just-begun block: `Running`, with no output, no exit code,
    /// no end stamp, no rows, and an output buffer bounded by the given caps.
    pub open spec fn is_fresh(&self, id: BlockId, command: Seq<char>, cap_bytes: nat, cap_lines: nat) -> bool {
        &&& self.wf()
        &&& self.id == id
        &&& self.command@ == command
        &&& self.cwd is None
        &&& self.started_at is Some
        &&& self.ended_at is None
        &&& self.row_range.start == 0 && self.row_range.end == 0
        &&& self.output@ == (Seq::<u8>::empty(), false)
        &&& self.output.cap_bytes() == cap_bytes
        &&& self.output.cap_lines() == cap_lines
        &&& self.exit_code is None
        &&& self.state == BlockState::Running
        &&& !self.private
        &&& self.save_output
    }

    /// A new `Running` block for `command`, with an output buffer bounded by
    /// the given caps, stamped with the current time.
    pub fn new(id: BlockId, command: String, cap_bytes: u64, cap_lines: u64) -> (b: Self)
        ensures
            b.is_fresh(id, command@, cap_bytes as nat, cap_lines as nat),
    {
        Block {
            id,
            command,
            cwd: None,
            started_at: Some(wall_clock_now()),
            ended_at: None,
            row_range: 0..0,
            output: OutputBuffer::new(cap_bytes, cap_lines),
            exit_code: None,
            state: BlockState::Running,
            private: false,
            save_output: true,
        }
    }

    /// Append captured output bytes to this block.
    pub fn push_output(&mut self, data: &[u8])
        requires
            old(self).wf(),
            old(self).output@.0.len() + data@.len() <= usize::MAX,
        ensures
            old(self).output_pushed(&*final(self), data@),
    {
        self.output.push(data);
    }

    /// Close the block: stamp its end time and record its exit code.
    pub fn close(&mut self, exit_code: Option<i32>)
        ensures
            old(self).closed_as(&*final(self), exit_code),
    {
        self.ended_at = Some(wall_clock_now());
        self.exit_code = exit_code;
        self.state = BlockState::Closed;
    }

    /// Whether this block's output was truncated to honor a cap.
    pub fn truncated(&self) -> (t: bool)
        ensures
            t == self.output@.1,
    {
        self.output.truncated()
    }

    /// The captured output decoded lossily as UTF-8.
    pub fn output_lossy(&self) -> (s: String)
        ensures
            s@ == lossy_utf8(self.output@.0),
    {
        let bytes = self.output.to_vec();
        decode_lossy(bytes.as_slice())
    }

    /// The block's output text (the same as [`Block::output_lossy`]).
    pub fn text(&self) -> (s: String)
        ensures
            s@ == lossy_utf8(self.output@.0),
    {
        self.output_lossy()
    }

    /// The command line, a newline, then the output text.
    pub fn text_with_command(&self) -> (s: String)
        ensures
            s@ == with_command(self.command@, self.output@.0),
    {
        let mut s = self.command.clone();
        crate::text::string_push(&mut s, '\n');
        let out = self.output_lossy();
        let out_chars = crate::text::chars_of(out.as_str());
        crate::text::push_all(&mut s, out_chars.as_slice());
        s
    }

    /// The elapsed runtime: what the clock says lies between the two stamps
    /// once both are set, `None` before that.
    pub open spec fn duration_spec(&self) -> Option<Duration> {
        match (self.started_at, self.ended_at) {
            (Some(s), Some(e)) => elapsed(s, e),
            _ => None,
        }
    }

    /// Elapsed runtime, `ended_at - started_at`; `None` until both stamps
    /// are set.
    pub fn duration(&self) -> (d: Option<Duration>)
        ensures
            d == self.duration_spec(),
    {
        match (&self.started_at, &self.ended_at) {
            (Some(s), Some(e)) => elapsed_between(s, e),
            _ => None,
        }
    }
}

} // verus!
