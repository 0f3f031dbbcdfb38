//! Session model: the transcript and its blocks.

pub mod block;
pub mod ringbuf;
pub mod store;

pub use block::{Block, BlockId, BlockState, StableRowIndex};
pub use store::BlockStore;

use vstd::prelude::*;
use crate::config::Caps;

verus! {

/// Total retained output bytes over `bs`.
pub open spec fn total_bytes_of(bs: Seq<Block>) -> nat
    decreases bs.len(),
{
    if bs.len() == 0 {
        0
    } else {
        total_bytes_of(bs.drop_last()) + bs.last().output@.0.len()
    }
}

/// Keep only the newest `max` blocks.
pub open spec fn evict_to_count(bs: Seq<Block>, max: nat) -> Seq<Block> {
    if bs.len() > max {
        bs.subrange(bs.len() - max, bs.len() as int)
    } else {
        bs
    }
}

/// Drop the oldest blocks while the output exceeds `max` bytes, always
/// keeping at least one block.
pub open spec fn evict_to_bytes(bs: Seq<Block>, max: nat) -> Seq<Block>
    decreases bs.len(),
{
    if bs.len() > 1 && total_bytes_of(bs) > max {
        evict_to_bytes(bs.drop_first(), max)
    } else {
        bs
    }
}

/// The transcript caps applied to `bs`: first the block count, then the
/// byte total.
pub open spec fn enforce_transcript_caps(bs: Seq<Block>, caps: Caps) -> Seq<Block> {
    evict_to_bytes(evict_to_count(bs, caps.transcript_blocks as nat), caps.transcript_bytes as nat)
}

/// Block ids strictly increase along `bs` and stay below `next`.
pub open spec fn ids_ordered(bs: Seq<Block>, next: u64) -> bool {
    &&& forall|i: int, j: int| 0 <= i < j < bs.len() ==> bs[i].id < bs[j].id
    &&& forall|i: int| 0 <= i < bs.len() ==> #[trigger] bs[i].id < next
}

/// Index of the block with id `id` in `bs`, if any (the first such).
pub open spec fn index_of_id(bs: Seq<Block>, id: BlockId) -> Option<int>
    decreases bs.len(),
{
    if bs.len() == 0 {
        None
    } else if bs[0].id == id {
        Some(0)
    } else {
        match index_of_id(bs.drop_first(), id) {
            Some(i) => Some(i + 1),
            None => None,
        }
    }
}

/// `index_of_id` finds the first block carrying `id`, or reports that there is none.
pub proof fn lemma_index_of_id(bs: Seq<Block>, id: BlockId)
    ensures
        index_of_id(bs, id) matches Some(i) ==> 0 <= i < bs.len() && bs[i].id == id && forall|
            k: int,
        | 0 <= k < i ==> #[trigger] bs[k].id != id,
        index_of_id(bs, id) is None ==> forall|k: int| 0 <= k < bs.len() ==> #[trigger] bs[k].id
            != id,
    decreases bs.len(),
{
    if bs.len() > 0 && bs[0].id != id {
        let d = bs.drop_first();
        lemma_index_of_id(d, id);
        assert forall|k: int| 0 < k < bs.len() implies bs[k] == #[trigger] d[k - 1] by {}
        if let Some(i) = index_of_id(d, id) {
            assert forall|k: int| 0 <= k < i + 1 implies #[trigger] bs[k].id != id by {
                if k > 0 {
                    assert(bs[k] == d[k - 1]);
                }
            }
        } else {
            assert forall|k: int| 0 <= k < bs.len() implies #[trigger] bs[k].id != id by {
                if k > 0 {
                    assert(bs[k] == d[k - 1]);
                }
            }
        }
    }
}

/// A search that stops at the first block with `id` agrees with
/// [`index_of_id`].
pub proof fn lemma_index_of_id_unique(bs: Seq<Block>, id: BlockId, i: int)
    requires
        0 <= i < bs.len(),
        bs[i].id == id,
        forall|k: int| 0 <= k < i ==> #[trigger] bs[k].id != id,
    ensures
        index_of_id(bs, id) == Some(i),
{
    lemma_index_of_id(bs, id);
    match index_of_id(bs, id) {
        Some(j) => {
            if j < i {
                assert(bs[j].id != id);
            } else if j > i {
                assert(bs[i].id != id);
            }
        },
        None => {
            assert(bs[i].id != id);
        },
    }
}

/// Appending a block adds its output's length to the total.
pub proof fn lemma_total_push(bs: Seq<Block>, b: Block)
    ensures
        total_bytes_of(bs.push(b)) == total_bytes_of(bs) + b.output@.0.len(),
{
    assert(bs.push(b).drop_last() =~= bs);
}

/// The ordered blocks of the running session: the source the UI renders
/// from. Enforces the whole-transcript caps, evicting the oldest blocks
/// first, and keeps the scroll state of the output pad.
#[derive(Debug)]
pub struct Transcript {
    blocks: Vec<Block>,
    caps: Caps,
    scroll_offset: usize,
    /// The viewport height recorded by the last render (the page size).
    viewport: usize,
    /// The maximum scroll offset recorded by the last render.
    max_scroll: usize,
    next_id: BlockId,
}

impl Transcript {
    /// All blocks, oldest first.
    pub closed spec fn blocks_seq(&self) -> Seq<Block> {
        self.blocks@
    }

    /// The caps the transcript was made with.
    pub closed spec fn caps_spec(&self) -> Caps {
        self.caps
    }

    /// Current scroll offset (lines above the newest output).
    pub closed spec fn scroll_spec(&self) -> nat {
        self.scroll_offset as nat
    }

    /// Viewport height recorded by the last render.
    pub closed spec fn viewport_spec(&self) -> nat {
        self.viewport as nat
    }

    /// Maximum scroll offset recorded by the last render.
    pub closed spec fn max_scroll_spec(&self) -> nat {
        self.max_scroll as nat
    }

    /// The id the next block will get.
    pub closed spec fn next_id_spec(&self) -> u64 {
        self.next_id
    }

    /// Every block's output is well formed and ids increase along the
    /// transcript, below the next id.
    pub closed spec fn wf(&self) -> bool {
        &&& forall|i: int| 0 <= i < self.blocks@.len() ==> #[trigger] self.blocks@[i].wf()
        &&& ids_ordered(self.blocks@, self.next_id)
    }

    /// An empty transcript bounded by `caps`.
    pub fn new(caps: Caps) -> (t: Self)
        ensures
            t.wf(),
            t.blocks_seq() == Seq::<Block>::empty(),
            t.caps_spec() == caps,
            t.scroll_spec() == 0,
            t.viewport_spec() == 0,
            t.max_scroll_spec() == 0,
            t.next_id_spec() == 1,
    {
        Transcript { blocks: Vec::new(), caps, scroll_offset: 0, viewport: 0, max_scroll: 0, next_id: 1 }
    }

    /// Begin a new `Running` block for `command` and return its id, then
    /// enforce the transcript caps (which may evict the oldest blocks).
    pub fn begin_block(&mut self, command: String) -> (id: BlockId)
        requires
            old(self).wf(),
            old(self).next_id_spec() < u64::MAX,
        ensures
            final(self).wf(),
            id == old(self).next_id_spec(),
            final(self).next_id_spec() == id + 1,
            exists|b: Block|
                #![trigger b.is_fresh(id, command@, old(self).caps_spec().per_block_bytes as nat, old(self).caps_spec().per_block_lines as nat)]
                b.is_fresh(
                    id,
                    command@,
                    old(self).caps_spec().per_block_bytes as nat,
                    old(self).caps_spec().per_block_lines as nat,
                ) && final(self).blocks_seq() == enforce_transcript_caps(
                    old(self).blocks_seq().push(b),
                    old(self).caps_spec(),
                ),
            forall|k: int| 0 <= k < old(self).blocks_seq().len() ==> #[trigger] old(self).blocks_seq()[k].id < id,
            final(self).blocks_seq().len() <= old(self).caps_spec().transcript_blocks,
            ids_ordered(final(self).blocks_seq(), final(self).next_id_spec()),
            old(self).caps_spec().transcript_blocks >= 1 ==> {
                let bs = final(self).blocks_seq();
                &&& bs.len() >= 1
                &&& bs.last().id == id
                &&& bs.last().command@ == command@
                &&& bs.last().state == BlockState::Running
            },
            final(self).caps_spec() == old(self).caps_spec(),
            final(self).scroll_spec() == old(self).scroll_spec(),
            final(self).viewport_spec() == old(self).viewport_spec(),
            final(self).max_scroll_spec() == old(self).max_scroll_spec(),
    {
        let id = self.next_id;
        self.next_id = self.next_id + 1;
        let b = Block::new(id, command, self.caps.per_block_bytes, self.caps.per_block_lines);
        let ghost fresh = b;
        self.blocks.push(b);
        let ghost pushed = self.blocks@;
        self.enforce_caps();
        proof {
            lemma_transcript_caps(pushed, self.caps);
            let r = self.blocks@;
            if self.caps.transcript_blocks >= 1 {
                assert(r.last() == pushed[pushed.len() - r.len() + (r.len() - 1)]);
                assert(pushed.last() == fresh);
            }
        }
        assert(fresh.is_fresh(
            id,
            command@,
            old(self).caps_spec().per_block_bytes as nat,
            old(self).caps_spec().per_block_lines as nat,
        ) && self.blocks_seq() == enforce_transcript_caps(
            old(self).blocks_seq().push(fresh),
            old(self).caps_spec(),
        ));
        id
    }

    /// Index of the block with `id`, if retained.
    fn find(&self, id: BlockId) -> (r: Option<usize>)
        ensures
            r matches Some(i) ==> i < self.blocks@.len() && self.blocks@[i as int].id == id
                && index_of_id(self.blocks@, id) == Some(i as int),
            r is None ==> index_of_id(self.blocks@, id) is None,
    {
        let mut i: usize = 0;
        while i < self.blocks.len()
            invariant
                i <= self.blocks@.len(),
                forall|k: int| 0 <= k < i ==> #[trigger] self.blocks@[k].id != id,
            decreases self.blocks.len() - i,
        {
            if self.blocks[i].id == id {
                proof {
                    lemma_index_of_id_unique(self.blocks@, id, i as int);
                }
                return Some(i);
            }
            i = i + 1;
        }
        proof {
            lemma_index_of_id(self.blocks@, id);
            if let Some(j) = index_of_id(self.blocks@, id) {
                assert(self.blocks@[j].id != id);
            }
        }
        None
    }

    /// Shared access to the block with `id`, if retained.
    pub fn block(&self, id: BlockId) -> (r: Option<&Block>)
        ensures
            match index_of_id(self.blocks_seq(), id) {
                Some(i) => r == Some(&self.blocks_seq()[i]),
                None => r is None,
            },
    {
        match self.find(id) {
            Some(i) => Some(&self.blocks[i]),
            None => None,
        }
    }

    /// Mutable access to the block with `id`, if retained. Whatever the
    /// caller leaves in the block is what the transcript then holds.
    pub fn block_mut(&mut self, id: BlockId) -> (r: Option<&mut Block>)
        ensures
            match index_of_id(old(self).blocks_seq(), id) {
                Some(i) => r matches Some(b) && *b == old(self).blocks_seq()[i]
                    && final(self).blocks_seq() == old(self).blocks_seq().update(i, *final(b)),
                None => r is None && *final(self) == *old(self),
            },
            final(self).caps_spec() == old(self).caps_spec(),
            final(self).scroll_spec() == old(self).scroll_spec(),
            final(self).viewport_spec() == old(self).viewport_spec(),
            final(self).max_scroll_spec() == old(self).max_scroll_spec(),
            final(self).next_id_spec() == old(self).next_id_spec(),
    {
        match self.find(id) {
            Some(i) => Some(&mut self.blocks[i]),
            None => None,
        }
    }

    /// Close the block with `id` (if retained), recording its exit code.
    pub fn close_block(&mut self, id: BlockId, exit_code: Option<i32>)
        requires
            old(self).wf(),
        ensures
            final(self).wf(),
            match index_of_id(old(self).blocks_seq(), id) {
                Some(i) => {
                    &&& final(self).blocks_seq().len() == old(self).blocks_seq().len()
                    &&& forall|k: int|
                        0 <= k < old(self).blocks_seq().len() && k != i ==> #[trigger] final(self).blocks_seq()[k] == old(self).blocks_seq()[k]
                    &&& old(self).blocks_seq()[i].closed_as(&final(self).blocks_seq()[i], exit_code)
                },
                None => final(self).blocks_seq() == old(self).blocks_seq(),
            },
            final(self).caps_spec() == old(self).caps_spec(),
            final(self).scroll_spec() == old(self).scroll_spec(),
            final(self).viewport_spec() == old(self).viewport_spec(),
            final(self).max_scroll_spec() == old(self).max_scroll_spec(),
            final(self).next_id_spec() == old(self).next_id_spec(),
    {
        if let Some(i) = self.find(id) {
            let mut b = self.blocks.remove(i);
            b.close(exit_code);
            self.blocks.insert(i, b);
            proof {
                let s = self.blocks@;
                let o = old(self).blocks@;
                assert(o[i as int].wf());
                assert forall|k: int| 0 <= k < s.len() implies #[trigger] s[k].wf() by {
                    if k != i {
                        assert(s[k] == o[k]);
                    }
                }
                assert forall|k: int| 0 <= k < s.len() && k != i implies #[trigger] s[k] == o[k] by {}
                assert forall|p: int, q: int| 0 <= p < q < s.len() implies s[p].id < s[q].id by {
                    assert(s[p].id == o[p].id);
                    assert(s[q].id == o[q].id);
                }
                assert forall|p: int| 0 <= p < s.len() implies #[trigger] s[p].id < self.next_id by {
                    assert(s[p].id == o[p].id);
                }
            }
        }
    }

    /// All blocks, oldest first; in a consistent transcript their ids
    /// strictly increase.
    pub fn blocks(&self) -> (bs: &[Block])
        ensures
            bs@ == self.blocks_seq(),
            self.wf() ==> ids_ordered(bs@, self.next_id_spec()),
    {
        self.blocks.as_slice()
    }

    /// Clear the visible transcript and reset the scroll offset.
    pub fn clear(&mut self)
        requires
            old(self).wf(),
        ensures
            final(self).wf(),
            final(self).blocks_seq() == Seq::<Block>::empty(),
            final(self).scroll_spec() == 0,
            final(self).caps_spec() == old(self).caps_spec(),
            final(self).viewport_spec() == old(self).viewport_spec(),
            final(self).max_scroll_spec() == old(self).max_scroll_spec(),
            final(self).next_id_spec() == old(self).next_id_spec(),
    {
        self.blocks.clear();
        self.scroll_offset = 0;
    }

    /// In a consistent transcript every block's id is below the next id.
    pub proof fn lemma_ids_below_next(&self)
        requires
            self.wf(),
        ensures
            forall|k: int| 0 <= k < self.blocks_seq().len() ==> #[trigger] self.blocks_seq()[k].id
                < self.next_id_spec(),
    {
    }

    /// Whether a block id is left for a new block.
    pub fn can_begin(&self) -> (b: bool)
        ensures
            b == (self.next_id_spec() < u64::MAX),
    {
        self.next_id < u64::MAX
    }

    /// Current scroll position.
    pub fn scroll_offset(&self) -> (n: usize)
        ensures
            n == self.scroll_spec(),
    {
        self.scroll_offset
    }

    /// Set the scroll position.
    pub fn set_scroll_offset(&mut self, offset: usize)
        ensures
            final(self).scroll_spec() == offset,
            final(self).blocks_seq() == old(self).blocks_seq(),
            final(self).wf() == old(self).wf(),
            final(self).caps_spec() == old(self).caps_spec(),
            final(self).viewport_spec() == old(self).viewport_spec(),
            final(self).max_scroll_spec() == old(self).max_scroll_spec(),
            final(self).next_id_spec() == old(self).next_id_spec(),
    {
        self.scroll_offset = offset;
    }

    /// Scroll up (toward older output) by `n` lines, saturating.
    pub fn scroll_up(&mut self, n: usize)
        ensures
            final(self).scroll_spec() == sat_add(old(self).scroll_spec(), n as nat),
            final(self).blocks_seq() == old(self).blocks_seq(),
            final(self).wf() == old(self).wf(),
            final(self).caps_spec() == old(self).caps_spec(),
            final(self).viewport_spec() == old(self).viewport_spec(),
            final(self).max_scroll_spec() == old(self).max_scroll_spec(),
            final(self).next_id_spec() == old(self).next_id_spec(),
    {
        self.scroll_offset = self.scroll_offset.saturating_add(n);
    }

    /// Scroll down (toward newer output) by `n` lines, stopping at 0.
    pub fn scroll_down(&mut self, n: usize)
        ensures
            final(self).scroll_spec() == if old(self).scroll_spec() >= n {
                (old(self).scroll_spec() - n) as nat
            } else {
                0
            },
            final(self).blocks_seq() == old(self).blocks_seq(),
            final(self).wf() == old(self).wf(),
            final(self).caps_spec() == old(self).caps_spec(),
            final(self).viewport_spec() == old(self).viewport_spec(),
            final(self).max_scroll_spec() == old(self).max_scroll_spec(),
            final(self).next_id_spec() == old(self).next_id_spec(),
    {
        self.scroll_offset = self.scroll_offset.saturating_sub(n);
    }

    /// Record the view metrics of the last render: the viewport height (the
    /// page size) and the maximum scroll offset (the top of the content).
    pub fn record_view(&mut self, viewport: usize, max_scroll: usize)
        ensures
            final(self).viewport_spec() == viewport,
            final(self).max_scroll_spec() == max_scroll,
            final(self).scroll_spec() == old(self).scroll_spec(),
            final(self).blocks_seq() == old(self).blocks_seq(),
            final(self).wf() == old(self).wf(),
            final(self).caps_spec() == old(self).caps_spec(),
            final(self).next_id_spec() == old(self).next_id_spec(),
    {
        self.viewport = viewport;
        self.max_scroll = max_scroll;
    }

    /// Scroll up by one page (the recorded viewport height, at least 1),
    /// clamped to the top of the content.
    pub fn page_up(&mut self)
        ensures
            final(self).scroll_spec() == min_nat(
                sat_add(old(self).scroll_spec(), page_of(old(self).viewport_spec())),
                old(self).max_scroll_spec(),
            ),
            final(self).blocks_seq() == old(self).blocks_seq(),
            final(self).wf() == old(self).wf(),
            final(self).caps_spec() == old(self).caps_spec(),
            final(self).viewport_spec() == old(self).viewport_spec(),
            final(self).max_scroll_spec() == old(self).max_scroll_spec(),
            final(self).next_id_spec() == old(self).next_id_spec(),
    {
        let page = if self.viewport > 1 { self.viewport } else { 1 };
        let up = self.scroll_offset.saturating_add(page);
        self.scroll_offset = if up < self.max_scroll { up } else { self.max_scroll };
    }

    /// Scroll down by one page, stopping at the newest output.
    pub fn page_down(&mut self)
        ensures
            final(self).scroll_spec() == if old(self).scroll_spec() >= page_of(
                old(self).viewport_spec(),
            ) {
                (old(self).scroll_spec() - page_of(old(self).viewport_spec())) as nat
            } else {
                0
            },
            final(self).blocks_seq() == old(self).blocks_seq(),
            final(self).wf() == old(self).wf(),
            final(self).caps_spec() == old(self).caps_spec(),
            final(self).viewport_spec() == old(self).viewport_spec(),
            final(self).max_scroll_spec() == old(self).max_scroll_spec(),
            final(self).next_id_spec() == old(self).next_id_spec(),
    {
        let page = if self.viewport > 1 { self.viewport } else { 1 };
        self.scroll_offset = self.scroll_offset.saturating_sub(page);
    }

    /// Scroll up by one page less `context` lines of overlap (at least one
    /// line), clamped to the top of the content.
    pub fn scroll_page_up(&mut self, context: u16)
        ensures
            final(self).scroll_spec() == min_nat(
                sat_add(old(self).scroll_spec(), page_step(old(self).viewport_spec(), context as nat)),
                old(self).max_scroll_spec(),
            ),
            final(self).blocks_seq() == old(self).blocks_seq(),
            final(self).wf() == old(self).wf(),
            final(self).caps_spec() == old(self).caps_spec(),
            final(self).viewport_spec() == old(self).viewport_spec(),
            final(self).max_scroll_spec() == old(self).max_scroll_spec(),
            final(self).next_id_spec() == old(self).next_id_spec(),
    {
        let c = context as usize;
        let step = if self.viewport > c && self.viewport - c > 1 { self.viewport - c } else { 1 };
        let up = self.scroll_offset.saturating_add(step);
        self.scroll_offset = if up < self.max_scroll { up } else { self.max_scroll };
    }

    /// Scroll down by one page less `context` lines of overlap (at least one
    /// line), stopping at the newest output.
    pub fn scroll_page_down(&mut self, context: u16)
        ensures
            final(self).scroll_spec() == if old(self).scroll_spec() >= page_step(
                old(self).viewport_spec(),
                context as nat,
            ) {
                (old(self).scroll_spec() - page_step(old(self).viewport_spec(), context as nat)) as nat
            } else {
                0
            },
            final(self).blocks_seq() == old(self).blocks_seq(),
            final(self).wf() == old(self).wf(),
            final(self).caps_spec() == old(self).caps_spec(),
            final(self).viewport_spec() == old(self).viewport_spec(),
            final(self).max_scroll_spec() == old(self).max_scroll_spec(),
            final(self).next_id_spec() == old(self).next_id_spec(),
    {
        let c = context as usize;
        let step = if self.viewport > c && self.viewport - c > 1 { self.viewport - c } else { 1 };
        self.scroll_offset = self.scroll_offset.saturating_sub(step);
    }

    /// Jump to the oldest retained output.
    pub fn scroll_to_top(&mut self)
        ensures
            final(self).scroll_spec() == old(self).max_scroll_spec(),
            final(self).blocks_seq() == old(self).blocks_seq(),
            final(self).wf() == old(self).wf(),
            final(self).caps_spec() == old(self).caps_spec(),
            final(self).viewport_spec() == old(self).viewport_spec(),
            final(self).max_scroll_spec() == old(self).max_scroll_spec(),
            final(self).next_id_spec() == old(self).next_id_spec(),
    {
        self.scroll_offset = self.max_scroll;
    }

    /// Jump back to the newest output.
    pub fn scroll_to_bottom(&mut self)
        ensures
            final(self).scroll_spec() == 0,
            final(self).blocks_seq() == old(self).blocks_seq(),
            final(self).wf() == old(self).wf(),
            final(self).caps_spec() == old(self).caps_spec(),
            final(self).viewport_spec() == old(self).viewport_spec(),
            final(self).max_scroll_spec() == old(self).max_scroll_spec(),
            final(self).next_id_spec() == old(self).next_id_spec(),
    {
        self.scroll_offset = 0;
    }

    /// Total retained output bytes across all blocks (saturating at
    /// `u64::MAX`).
    pub fn total_bytes(&self) -> (n: u64)
        ensures
            n == if total_bytes_of(self.blocks_seq()) > u64::MAX {
                u64::MAX as nat
            } else {
                total_bytes_of(self.blocks_seq())
            },
    {
        let t = total_bytes_exact(&self.blocks);
        if t > u64::MAX as u128 {
            u64::MAX
        } else {
            t as u64
        }
    }

    /// Evict the oldest blocks until both transcript caps hold.
    fn enforce_caps(&mut self)
        requires
            old(self).wf(),
        ensures
            final(self).wf(),
            final(self).blocks@ == enforce_transcript_caps(old(self).blocks@, old(self).caps),
            final(self).caps == old(self).caps,
            final(self).scroll_offset == old(self).scroll_offset,
            final(self).viewport == old(self).viewport,
            final(self).max_scroll == old(self).max_scroll,
            final(self).next_id == old(self).next_id,
    {
        let ghost s = self.blocks@;
        let ghost cap = self.caps.transcript_blocks as nat;
        while self.blocks.len() as u64 > self.caps.transcript_blocks
            invariant
                self.wf(),
                self.caps == old(self).caps,
                self.scroll_offset == old(self).scroll_offset,
                self.viewport == old(self).viewport,
                self.max_scroll == old(self).max_scroll,
                self.next_id == old(self).next_id,
                s == old(self).blocks@,
                cap == self.caps.transcript_blocks,
                self.blocks@ == s.subrange(s.len() - self.blocks@.len(), s.len() as int),
                self.blocks@.len() <= s.len(),
                s.len() > cap ==> self.blocks@.len() >= cap,
                s.len() <= cap ==> self.blocks@ == s,
            decreases self.blocks@.len(),
        {
            let ghost before = self.blocks@;
            self.blocks.remove(0);
            proof {
                assert(self.blocks@ =~= s.subrange(s.len() - self.blocks@.len(), s.len() as int));
                lemma_drop_first_wf(before, self.next_id);
            }
        }
        proof {
            if s.len() > cap {
                assert(self.blocks@ =~= evict_to_count(s, cap));
            }
        }
        let ghost s2 = self.blocks@;
        while total_bytes_exact(&self.blocks) > self.caps.transcript_bytes as u128
            && self.blocks.len() > 1
            invariant
                self.wf(),
                self.caps == old(self).caps,
                self.scroll_offset == old(self).scroll_offset,
                self.viewport == old(self).viewport,
                self.max_scroll == old(self).max_scroll,
                self.next_id == old(self).next_id,
                s2 == evict_to_count(s, cap),
                s == old(self).blocks@,
                cap == self.caps.transcript_blocks,
                evict_to_bytes(self.blocks@, self.caps.transcript_bytes as nat) == evict_to_bytes(
                    s2,
                    self.caps.transcript_bytes as nat,
                ),
            decreases self.blocks@.len(),
        {
            let ghost before = self.blocks@;
            self.blocks.remove(0);
            proof {
                assert(self.blocks@ =~= before.drop_first());
                lemma_drop_first_wf(before, self.next_id);
            }
        }
    }
}

/// `min(a, b)` over naturals.
pub open spec fn min_nat(a: nat, b: nat) -> nat {
    if a < b {
        a
    } else {
        b
    }
}

/// `a + b`, saturating at `usize::MAX`.
pub open spec fn sat_add(a: nat, b: nat) -> nat {
    if a + b > usize::MAX {
        usize::MAX as nat
    } else {
        a + b
    }
}

/// The step of a page scroll over a viewport of height `h` that keeps
/// `context` lines of the previous page in view: `h - context`, at least one
/// line.
pub open spec fn page_step(h: nat, context: nat) -> nat {
    if h > context + 1 {
        (h - context) as nat
    } else {
        1
    }
}

/// The page size for a viewport of height `h`: at least one line.
pub open spec fn page_of(h: nat) -> nat {
    if h > 1 {
        h
    } else {
        1
    }
}

/// Dropping the oldest block keeps every block well formed and the ids ordered.
pub proof fn lemma_drop_first_wf(bs: Seq<Block>, next: u64)
    requires
        bs.len() > 0,
        forall|i: int| 0 <= i < bs.len() ==> #[trigger] bs[i].wf(),
        ids_ordered(bs, next),
    ensures
        forall|i: int| 0 <= i < bs.drop_first().len() ==> #[trigger] bs.drop_first()[i].wf(),
        ids_ordered(bs.drop_first(), next),
{
    let d = bs.drop_first();
    assert forall|i: int| 0 <= i < d.len() implies #[trigger] d[i].wf() by {
        assert(d[i] == bs[i + 1]);
    }
    assert forall|i: int, j: int| 0 <= i < j < d.len() implies d[i].id < d[j].id by {
        assert(d[i] == bs[i + 1]);
        assert(d[j] == bs[j + 1]);
    }
    assert forall|i: int| 0 <= i < d.len() implies #[trigger] d[i].id < next by {
        assert(d[i] == bs[i + 1]);
    }
}

/// The exact total of retained output bytes (no overflow: each block holds
/// at most `usize::MAX` bytes and there are at most `usize::MAX` blocks).
fn total_bytes_exact(blocks: &Vec<Block>) -> (t: u128)
    ensures
        t == total_bytes_of(blocks@),
{
    let mut t: u128 = 0;
    let mut i: usize = 0;
    while i < blocks.len()
        invariant
            i <= blocks@.len(),
            t == total_bytes_of(blocks@.subrange(0, i as int)),
            t <= i * 0x1_0000_0000_0000_0000,
        decreases blocks.len() - i,
    {
        assert(blocks@.subrange(0, i + 1).drop_last() =~= blocks@.subrange(0, i as int));
        let n = blocks[i].output.byte_len();
        t = t + n as u128;
        i = i + 1;
    }
    assert(blocks@.subrange(0, blocks@.len() as int) =~= blocks@);
    t
}

} // verus!

verus! {

proof fn lemma_evict_to_bytes(bs: Seq<Block>, max: nat)
    ensures
        evict_to_bytes(bs, max).len() <= bs.len(),
        evict_to_bytes(bs, max) == bs.subrange(
            bs.len() - evict_to_bytes(bs, max).len(),
            bs.len() as int,
        ),
        bs.len() > 0 ==> evict_to_bytes(bs, max).len() >= 1,
        evict_to_bytes(bs, max).len() <= 1 || total_bytes_of(evict_to_bytes(bs, max)) <= max,
    decreases bs.len(),
{
    if bs.len() > 1 && total_bytes_of(bs) > max {
        let d = bs.drop_first();
        lemma_evict_to_bytes(d, max);
        let r = evict_to_bytes(d, max);
        assert(r =~= bs.subrange(bs.len() - r.len(), bs.len() as int));
    } else {
        assert(bs =~= bs.subrange(0, bs.len() as int));
    }
}

/// The transcript caps keep a tail of the blocks (only the oldest are ever
/// evicted), never more than the block cap, and within the byte cap unless a
/// single block is left; the newest block stays when the block cap allows
/// any; when both caps already hold, nothing is evicted.
pub proof fn lemma_transcript_caps(bs: Seq<Block>, caps: Caps)
    ensures
        ({
            let r = enforce_transcript_caps(bs, caps);
            &&& r.len() <= bs.len()
            &&& r == bs.subrange(bs.len() - r.len(), bs.len() as int)
            &&& r.len() <= caps.transcript_blocks
            &&& r.len() <= 1 || total_bytes_of(r) <= caps.transcript_bytes
            &&& bs.len() > 0 && caps.transcript_blocks >= 1 ==> r.len() >= 1
        }),
        bs.len() <= caps.transcript_blocks && (bs.len() <= 1 || total_bytes_of(bs)
            <= caps.transcript_bytes) ==> enforce_transcript_caps(bs, caps) == bs,
{
    let c = evict_to_count(bs, caps.transcript_blocks as nat);
    lemma_evict_to_bytes(c, caps.transcript_bytes as nat);
    let r = evict_to_bytes(c, caps.transcript_bytes as nat);
    assert(r =~= bs.subrange(bs.len() - r.len(), bs.len() as int));
}

/// A block evicted by the transcript caps is gone for good: with increasing
/// ids, no retained block carries the id of a block that was evicted.
pub proof fn lemma_evicted_id_unknown(bs: Seq<Block>, caps: Caps, next: u64, k: int)
    requires
        ids_ordered(bs, next),
        0 <= k < bs.len() - enforce_transcript_caps(bs, caps).len(),
    ensures
        index_of_id(enforce_transcript_caps(bs, caps), bs[k].id) is None,
{
    lemma_transcript_caps(bs, caps);
    let r = enforce_transcript_caps(bs, caps);
    lemma_index_of_id(r, bs[k].id);
    if let Some(j) = index_of_id(r, bs[k].id) {
        assert(r[j] == bs[bs.len() - r.len() + j]);
    }
}

} // verus!

verus! {

/// Replacing one block by another with the same id and well-formed output
/// keeps a transcript well formed.
pub proof fn lemma_replace_block(t: &Transcript, u: &Transcript, i: int)
    requires
        t.wf(),
        0 <= i < t.blocks_seq().len(),
        u.blocks_seq() == t.blocks_seq().update(i, u.blocks_seq()[i]),
        u.blocks_seq()[i].id == t.blocks_seq()[i].id,
        u.blocks_seq()[i].wf(),
        u.next_id_spec() == t.next_id_spec(),
    ensures
        u.wf(),
{
    let s = u.blocks@;
    let o = t.blocks@;
    assert forall|k: int| 0 <= k < s.len() implies #[trigger] s[k].wf() by {
        if k != i {
            assert(s[k] == o[k]);
        }
    }
    assert forall|p: int, q: int| 0 <= p < q < s.len() implies s[p].id < s[q].id by {
        assert(s[p].id == o[p].id);
        assert(s[q].id == o[q].id);
    }
    assert forall|p: int| 0 <= p < s.len() implies #[trigger] s[p].id < u.next_id by {
        assert(s[p].id == o[p].id);
    }
}

} // verus!

verus! {

/// A well-formed transcript's blocks are each well formed, with ids
/// increasing below the next id.
pub proof fn lemma_transcript_blocks(t: &Transcript)
    requires
        t.wf(),
    ensures
        forall|i: int| 0 <= i < t.blocks_seq().len() ==> #[trigger] t.blocks_seq()[i].wf(),
        ids_ordered(t.blocks_seq(), t.next_id_spec()),
{
}

} // verus!

verus! {

/// One step of a transcript's history: `given` is `Some(id)` when the step
/// was a `begin_block` that handed out `id` (as its contract says, the id is
/// the next id, which then moves past it), `None` for any other operation,
/// all of which keep the next id.
pub open spec fn history_step(t: Transcript, u: Transcript, given: Option<BlockId>) -> bool {
    match given {
        Some(id) => id == t.next_id_spec() && u.next_id_spec() == id + 1,
        None => u.next_id_spec() == t.next_id_spec(),
    }
}

proof fn lemma_next_id_grows(ts: Seq<Transcript>, given: Seq<Option<BlockId>>, i: int, j: int)
    requires
        given.len() + 1 == ts.len(),
        forall|k: int| 0 <= k < given.len() ==> history_step(ts[k], ts[k + 1], #[trigger] given[k]),
        0 <= i <= j < ts.len(),
    ensures
        ts[i].next_id_spec() <= ts[j].next_id_spec(),
    decreases j - i,
{
    if i < j {
        lemma_next_id_grows(ts, given, i, j - 1);
        assert(history_step(ts[j - 1], ts[j], given[j - 1]));
    }
}

/// Block ids are never reused: over any history of transcript operations
/// (with `clear` among them or not), every id `begin_block` hands out is
/// greater than every id it handed out before.
pub proof fn lemma_ids_never_reused(ts: Seq<Transcript>, given: Seq<Option<BlockId>>, i: int, j: int)
    requires
        given.len() + 1 == ts.len(),
        forall|k: int| 0 <= k < given.len() ==> history_step(ts[k], ts[k + 1], #[trigger] given[k]),
        0 <= i < j < given.len(),
        given[i] is Some,
        given[j] is Some,
    ensures
        given[i]->0 < given[j]->0,
{
    assert(history_step(ts[i], ts[i + 1], given[i]));
    assert(history_step(ts[j], ts[j + 1], given[j]));
    lemma_next_id_grows(ts, given, i + 1, j);
}

} // verus!
