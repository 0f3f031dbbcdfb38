//! The block store: the bounded, in-memory, canonical source of block text.
//! Block boundaries come from shell marks: [`BlockStore::begin`] when a
//! command is read, [`BlockStore::set_start_row`] when it starts running,
//! [`BlockStore::seal`] when it finishes.

use vstd::prelude::*;
use std::collections::VecDeque;
use std::ops::Range;
use std::time::Duration;
use crate::config::Caps;
use crate::session::block::{lossy_utf8, with_command, Block, BlockId, StableRowIndex};
use crate::session::{ids_ordered, index_of_id, lemma_index_of_id, lemma_index_of_id_unique};

verus! {

broadcast use vstd::std_specs::vecdeque::group_vec_dequeue_axioms;

/// Keep the newest `cap` blocks when `cap` is non-zero.
pub open spec fn keep_newest(bs: Seq<Block>, cap: nat) -> Seq<Block> {
    if cap > 0 && bs.len() > cap {
        bs.subrange(bs.len() - cap, bs.len() as int)
    } else {
        bs
    }
}

/// `after` is `b` once its command started at grid row `start`: stamped,
/// its rows starting at `start` (and ending no earlier), otherwise unchanged.
pub open spec fn started_at_row(b: Block, after: Block, start: StableRowIndex) -> bool {
    &&& after.started_at is Some
    &&& after.row_range.start == start
    &&& after.row_range.end == if b.row_range.end < start {
        start
    } else {
        b.row_range.end
    }
    &&& after.id == b.id && after.command == b.command && after.cwd == b.cwd
    &&& after.ended_at == b.ended_at && after.output == b.output
    &&& after.exit_code == b.exit_code && after.state == b.state
    &&& after.private == b.private && after.save_output == b.save_output
}

/// `after` is `b` sealed with `exit_code` at grid row `end`: its rows end at
/// `end` (but not before they start), and it is closed.
pub open spec fn sealed_at_row(b: Block, after: Block, exit_code: Option<i32>, end: StableRowIndex) -> bool {
    let mid = Block {
        row_range: Range {
            start: b.row_range.start,
            end: if end < b.row_range.start {
                b.row_range.start
            } else {
                end
            },
        },
        ..b
    };
    mid.closed_as(&after, exit_code)
}

/// Index of the first block whose rows contain `row`.
pub open spec fn index_covering(bs: Seq<Block>, row: StableRowIndex) -> Option<int>
    decreases bs.len(),
{
    if bs.len() == 0 {
        None
    } else if bs[0].row_range.start <= row < bs[0].row_range.end {
        Some(0)
    } else {
        match index_covering(bs.drop_first(), row) {
            Some(i) => Some(i + 1),
            None => None,
        }
    }
}

proof fn lemma_index_covering(bs: Seq<Block>, row: StableRowIndex)
    ensures
        index_covering(bs, row) matches Some(i) ==> 0 <= i < bs.len() && bs[i].row_range.start
            <= row < bs[i].row_range.end && forall|k: int|
            0 <= k < i ==> !(#[trigger] bs[k].row_range.start <= row < bs[k].row_range.end),
        index_covering(bs, row) is None ==> forall|k: int|
            0 <= k < bs.len() ==> !(#[trigger] bs[k].row_range.start <= row
                < bs[k].row_range.end),
    decreases bs.len(),
{
    if bs.len() > 0 && !(bs[0].row_range.start <= row < bs[0].row_range.end) {
        let d = bs.drop_first();
        lemma_index_covering(d, row);
        assert forall|k: int| 0 < k < bs.len() implies bs[k] == #[trigger] d[k - 1] by {}
        if let Some(i) = index_covering(d, row) {
            assert forall|k: int| 0 <= k < i + 1 implies !(#[trigger] bs[k].row_range.start <= row
                < bs[k].row_range.end) by {
                if k > 0 {
                    assert(bs[k] == d[k - 1]);
                    assert(!(d[k - 1].row_range.start <= row < d[k - 1].row_range.end));
                }
            }
        } else {
            assert forall|k: int| 0 <= k < bs.len() implies !(#[trigger] bs[k].row_range.start
                <= row < bs[k].row_range.end) by {
                if k > 0 {
                    assert(bs[k] == d[k - 1]);
                    assert(!(d[k - 1].row_range.start <= row < d[k - 1].row_range.end));
                }
            }
        }
    }
}

/// Replacing block `i` by one with the same id and well-formed output keeps
/// the store's invariant.
proof fn lemma_update_keeps_order(bs: Seq<Block>, i: int, b: Block, next: u64)
    requires
        0 <= i < bs.len(),
        forall|k: int| 0 <= k < bs.len() ==> #[trigger] bs[k].wf(),
        ids_ordered(bs, next),
        b.id == bs[i].id,
        b.wf(),
    ensures
        forall|k: int| 0 <= k < bs.update(i, b).len() ==> #[trigger] bs.update(i, b)[k].wf(),
        ids_ordered(bs.update(i, b), next),
{
    let s = bs.update(i, b);
    assert forall|p: int, q: int| 0 <= p < q < s.len() implies s[p].id < s[q].id by {
        assert(s[p].id == bs[p].id);
        assert(s[q].id == bs[q].id);
    }
    assert forall|p: int| 0 <= p < s.len() implies #[trigger] s[p].id < next by {
        assert(s[p].id == bs[p].id);
    }
}

/// The canonical, bounded, in-memory collection of blocks. Retains at most
/// `cap` blocks (`0` disables the bound); beginning a block past the cap
/// evicts the oldest, whose id then answers `None` everywhere.
#[derive(Debug)]
pub struct BlockStore {
    /// Blocks in insertion order, oldest at the front.
    blocks: VecDeque<Block>,
    cap: usize,
    per_block_bytes: u64,
    per_block_lines: u64,
    next_id: BlockId,
}

impl BlockStore {
    /// Retained blocks, oldest first.
    pub closed spec fn blocks_seq(&self) -> Seq<Block> {
        self.blocks@
    }

    /// Maximum retained blocks (`0`: unbounded).
    pub closed spec fn cap_spec(&self) -> nat {
        self.cap as nat
    }

    /// Byte cap of each new block's output.
    pub closed spec fn per_block_bytes_spec(&self) -> nat {
        self.per_block_bytes as nat
    }

    /// Line cap of each new block's output.
    pub closed spec fn per_block_lines_spec(&self) -> nat {
        self.per_block_lines as nat
    }

    /// The id the next block will get.
    pub closed spec fn next_id_spec(&self) -> u64 {
        self.next_id
    }

    /// Outputs are well formed, ids increase below the next id, and the cap
    /// holds.
    pub closed spec fn wf(&self) -> bool {
        &&& forall|i: int| 0 <= i < self.blocks@.len() ==> #[trigger] self.blocks@[i].wf()
        &&& ids_ordered(self.blocks@, self.next_id)
        &&& self.cap > 0 ==> self.blocks@.len() <= self.cap
    }

    /// An empty store bounded by `caps`.
    pub fn new(caps: &Caps) -> (s: Self)
        ensures
            s.wf(),
            s.blocks_seq() == Seq::<Block>::empty(),
            s.cap_spec() == caps.transcript_blocks as usize,
            s.per_block_bytes_spec() == caps.per_block_bytes,
            s.per_block_lines_spec() == caps.per_block_lines,
            s.next_id_spec() == 1,
    {
        BlockStore {
            blocks: VecDeque::new(),
            cap: caps.transcript_blocks as usize,
            per_block_bytes: caps.per_block_bytes,
            per_block_lines: caps.per_block_lines,
            next_id: 1,
        }
    }

    /// Whether a block id is left for a new block.
    pub fn can_begin(&self) -> (b: bool)
        ensures
            b == (self.next_id_spec() < u64::MAX),
    {
        self.next_id < u64::MAX
    }

    /// Begin a new running block for `command` and return its id, evicting
    /// the oldest block when the cap is exceeded.
    pub fn begin(&mut self, command: String, cwd: Option<String>) -> (id: BlockId)
        requires
            old(self).wf(),
            old(self).next_id_spec() < u64::MAX,
        ensures
            final(self).wf(),
            id == old(self).next_id_spec(),
            final(self).next_id_spec() == id + 1,
            exists|b: Block|
                #![trigger b.is_fresh(id, command@, old(self).per_block_bytes_spec(), old(self).per_block_lines_spec())]
                b.is_fresh(
                    id,
                    command@,
                    old(self).per_block_bytes_spec(),
                    old(self).per_block_lines_spec(),
                ) && final(self).blocks_seq() == keep_newest(
                    old(self).blocks_seq().push(Block { cwd: cwd, ..b }),
                    old(self).cap_spec(),
                ),
            final(self).cap_spec() == old(self).cap_spec(),
            final(self).per_block_bytes_spec() == old(self).per_block_bytes_spec(),
            final(self).per_block_lines_spec() == old(self).per_block_lines_spec(),
    {
        let id = self.next_id;
        self.next_id = id + 1;
        let fresh = Block::new(id, command, self.per_block_bytes, self.per_block_lines);
        let ghost g = fresh;
        let mut block = fresh;
        block.cwd = cwd;
        assert(block == Block { cwd: cwd, ..g });
        self.blocks.push_back(block);
        let ghost s = self.blocks@;
        proof {
            let o = old(self).blocks@;
            assert forall|i: int| 0 <= i < s.len() implies #[trigger] s[i].wf() by {
                if i < o.len() {
                    assert(s[i] == o[i]);
                }
            }
            assert forall|p: int, q: int| 0 <= p < q < s.len() implies s[p].id < s[q].id by {
                assert(s[p] == o[p]);
                if q < o.len() {
                    assert(s[q] == o[q]);
                }
            }
            assert forall|p: int| 0 <= p < s.len() implies #[trigger] s[p].id < self.next_id by {
                if p < o.len() {
                    assert(s[p] == o[p]);
                }
            }
        }
        while self.cap > 0 && self.blocks.len() > self.cap
            invariant
                forall|i: int| 0 <= i < self.blocks@.len() ==> #[trigger] self.blocks@[i].wf(),
                ids_ordered(self.blocks@, self.next_id),
                self.cap == old(self).cap,
                self.next_id == id + 1,
                self.per_block_bytes == old(self).per_block_bytes,
                self.per_block_lines == old(self).per_block_lines,
                self.blocks@ == s.subrange(s.len() - self.blocks@.len(), s.len() as int),
                self.blocks@.len() <= s.len(),
                self.cap > 0 && s.len() > self.cap ==> self.blocks@.len() >= self.cap,
                !(self.cap > 0 && s.len() > self.cap) ==> self.blocks@ == s,
            decreases self.blocks@.len(),
        {
            let ghost before = self.blocks@;
            self.blocks.pop_front();
            proof {
                assert(self.blocks@ =~= before.drop_first());
                crate::session::lemma_drop_first_wf(before, self.next_id);
                assert(self.blocks@ =~= s.subrange(s.len() - self.blocks@.len(), s.len() as int));
            }
        }
        proof {
            if self.cap > 0 && s.len() > self.cap {
                assert(self.blocks@ =~= keep_newest(s, self.cap as nat));
            }
            assert(g.is_fresh(
                id,
                command@,
                old(self).per_block_bytes_spec(),
                old(self).per_block_lines_spec(),
            ) && self.blocks_seq() == keep_newest(
                old(self).blocks_seq().push(Block { cwd: cwd, ..g }),
                old(self).cap_spec(),
            ));
        }
        id
    }

    /// Index of the retained block with `id`.
    fn find(&self, id: BlockId) -> (r: Option<usize>)
        ensures
            r matches Some(i) ==> i < self.blocks@.len() && self.blocks@[i as int].id == id
                && index_of_id(self.blocks@, id) == Some(i as int),
            r is None ==> index_of_id(self.blocks@, id) is None,
    {
        let mut i: usize = 0;
        while i < self.blocks.len()
            invariant
                i <= self.blocks@.len(),
                forall|k: int| 0 <= k < i ==> #[trigger] self.blocks@[k].id != id,
            decreases self.blocks.len() - i,
        {
            if self.blocks[i].id == id {
                proof {
                    lemma_index_of_id_unique(self.blocks@, id, i as int);
                }
                return Some(i);
            }
            i = i + 1;
        }
        proof {
            lemma_index_of_id(self.blocks@, id);
            if let Some(j) = index_of_id(self.blocks@, id) {
                assert(self.blocks@[j].id != id);
            }
        }
        None
    }

    /// Append captured output to the block `id`, if still retained.
    pub fn push_output(&mut self, id: BlockId, data: &[u8])
        requires
            old(self).wf(),
            index_of_id(old(self).blocks_seq(), id) matches Some(i) ==> old(self).blocks_seq()[i].output@.0.len() + data@.len() <= usize::MAX,
        ensures
            final(self).wf(),
            match index_of_id(old(self).blocks_seq(), id) {
                Some(i) => {
                    &&& final(self).blocks_seq().len() == old(self).blocks_seq().len()
                    &&& forall|k: int|
                        0 <= k < old(self).blocks_seq().len() && k != i ==> #[trigger] final(self).blocks_seq()[k] == old(self).blocks_seq()[k]
                    &&& old(self).blocks_seq()[i].output_pushed(&final(self).blocks_seq()[i], data@)
                },
                None => final(self).blocks_seq() == old(self).blocks_seq(),
            },
            final(self).cap_spec() == old(self).cap_spec(),
            final(self).per_block_bytes_spec() == old(self).per_block_bytes_spec(),
            final(self).per_block_lines_spec() == old(self).per_block_lines_spec(),
            final(self).next_id_spec() == old(self).next_id_spec(),
    {
        if let Some(i) = self.find(id) {
            if let Some(mut b) = self.blocks.remove(i) {
                b.push_output(data);
                self.blocks.insert(i, b);
                proof {
                    let o = old(self).blocks@;
                    assert(self.blocks@ =~= o.update(i as int, b));
                    assert(o[i as int].wf());
                    lemma_update_keeps_order(o, i as int, b, self.next_id);
                }
            }
        }
    }

    /// Record the command's start at grid row `start_row`: stamp its start
    /// time and anchor its first row.
    pub fn set_start_row(&mut self, id: BlockId, start_row: StableRowIndex)
        requires
            old(self).wf(),
        ensures
            final(self).wf(),
            match index_of_id(old(self).blocks_seq(), id) {
                Some(i) => {
                    &&& final(self).blocks_seq().len() == old(self).blocks_seq().len()
                    &&& forall|k: int|
                        0 <= k < old(self).blocks_seq().len() && k != i ==> #[trigger] final(self).blocks_seq()[k] == old(self).blocks_seq()[k]
                    &&& started_at_row(old(self).blocks_seq()[i], final(self).blocks_seq()[i], start_row)
                },
                None => final(self).blocks_seq() == old(self).blocks_seq(),
            },
            final(self).cap_spec() == old(self).cap_spec(),
            final(self).per_block_bytes_spec() == old(self).per_block_bytes_spec(),
            final(self).per_block_lines_spec() == old(self).per_block_lines_spec(),
            final(self).next_id_spec() == old(self).next_id_spec(),
    {
        if let Some(i) = self.find(id) {
            if let Some(mut b) = self.blocks.remove(i) {
                let ghost a = b;
                b.started_at = Some(crate::session::block::wall_clock_now());
                b.row_range.start = start_row;
                if b.row_range.end < start_row {
                    b.row_range.end = start_row;
                }
                assert(started_at_row(a, b, start_row));
                self.blocks.insert(i, b);
                proof {
                    let o = old(self).blocks@;
                    assert(self.blocks@ =~= o.update(i as int, b));
                    assert(o[i as int].wf());
                    lemma_update_keeps_order(o, i as int, b, self.next_id);
                }
            }
        }
    }

    /// Seal the block `id`: record its exit code and final grid row, and
    /// stamp its end time.
    pub fn seal(&mut self, id: BlockId, exit_code: Option<i32>, end_row: StableRowIndex)
        requires
            old(self).wf(),
        ensures
            final(self).wf(),
            match index_of_id(old(self).blocks_seq(), id) {
                Some(i) => {
                    &&& final(self).blocks_seq().len() == old(self).blocks_seq().len()
                    &&& forall|k: int|
                        0 <= k < old(self).blocks_seq().len() && k != i ==> #[trigger] final(self).blocks_seq()[k] == old(self).blocks_seq()[k]
                    &&& sealed_at_row(
                        old(self).blocks_seq()[i],
                        final(self).blocks_seq()[i],
                        exit_code,
                        end_row,
                    )
                },
                None => final(self).blocks_seq() == old(self).blocks_seq(),
            },
            final(self).cap_spec() == old(self).cap_spec(),
            final(self).per_block_bytes_spec() == old(self).per_block_bytes_spec(),
            final(self).per_block_lines_spec() == old(self).per_block_lines_spec(),
            final(self).next_id_spec() == old(self).next_id_spec(),
    {
        if let Some(i) = self.find(id) {
            if let Some(mut b) = self.blocks.remove(i) {
                let ghost a = b;
                let start = b.row_range.start;
                b.row_range.end = if end_row < start { start } else { end_row };
                let ghost mid = b;
                b.close(exit_code);
                assert(mid == Block {
                    row_range: Range {
                        start: a.row_range.start,
                        end: if end_row < a.row_range.start {
                            a.row_range.start
                        } else {
                            end_row
                        },
                    },
                    ..a
                });
                self.blocks.insert(i, b);
                proof {
                    let o = old(self).blocks@;
                    assert(self.blocks@ =~= o.update(i as int, b));
                    assert(o[i as int].wf());
                    lemma_update_keeps_order(o, i as int, b, self.next_id);
                }
            }
        }
    }

    /// Shared access to the block `id`, or `None` if unknown or evicted.
    pub fn get(&self, id: BlockId) -> (r: Option<&Block>)
        ensures
            match index_of_id(self.blocks_seq(), id) {
                Some(i) => r == Some(&self.blocks_seq()[i]),
                None => r is None,
            },
    {
        match self.find(id) {
            Some(i) => Some(&self.blocks[i]),
            None => None,
        }
    }

    /// The id of the first block whose rows contain `row`, or `None` for an
    /// evicted or unknown row.
    pub fn block_at_row(&self, row: StableRowIndex) -> (r: Option<BlockId>)
        ensures
            match index_covering(self.blocks_seq(), row) {
                Some(i) => r == Some(self.blocks_seq()[i].id),
                None => r is None,
            },
    {
        let mut i: usize = 0;
        while i < self.blocks.len()
            invariant
                i <= self.blocks@.len(),
                forall|k: int|
                    0 <= k < i ==> !(#[trigger] self.blocks@[k].row_range.start <= row
                        < self.blocks@[k].row_range.end),
            decreases self.blocks.len() - i,
        {
            let b = &self.blocks[i];
            if b.row_range.start <= row && row < b.row_range.end {
                proof {
                    lemma_index_covering(self.blocks@, row);
                    match index_covering(self.blocks@, row) {
                        Some(j) => {
                            if j < i {
                                assert(!(self.blocks@[j].row_range.start <= row
                                    < self.blocks@[j].row_range.end));
                            } else if j > i {
                                assert(!(self.blocks@[i as int].row_range.start <= row
                                    < self.blocks@[i as int].row_range.end));
                            }
                        },
                        None => {
                            assert(!(self.blocks@[i as int].row_range.start <= row
                                < self.blocks@[i as int].row_range.end));
                        },
                    }
                }
                return Some(b.id);
            }
            i = i + 1;
        }
        proof {
            lemma_index_covering(self.blocks@, row);
            if let Some(j) = index_covering(self.blocks@, row) {
                assert(!(self.blocks@[j].row_range.start <= row < self.blocks@[j].row_range.end));
            }
        }
        None
    }

    /// The output text of block `id`.
    pub fn text(&self, id: BlockId) -> (r: Option<String>)
        ensures
            match index_of_id(self.blocks_seq(), id) {
                Some(i) => r matches Some(t) && t@ == lossy_utf8(self.blocks_seq()[i].output@.0),
                None => r is None,
            },
    {
        match self.get(id) {
            Some(b) => Some(b.text()),
            None => None,
        }
    }

    /// The command line plus output text of block `id`.
    pub fn text_with_command(&self, id: BlockId) -> (r: Option<String>)
        ensures
            match index_of_id(self.blocks_seq(), id) {
                Some(i) => r matches Some(t) && t@ == with_command(
                    self.blocks_seq()[i].command@,
                    self.blocks_seq()[i].output@.0,
                ),
                None => r is None,
            },
    {
        match self.get(id) {
            Some(b) => Some(b.text_with_command()),
            None => None,
        }
    }

    /// Elapsed runtime of block `id`, `ended_at - started_at`; `None` until
    /// the block is sealed, or when it is unknown or evicted.
    pub fn duration(&self, id: BlockId) -> (d: Option<Duration>)
        ensures
            match index_of_id(self.blocks_seq(), id) {
                Some(i) => d == self.blocks_seq()[i].duration_spec(),
                None => d is None,
            },
    {
        match self.get(id) {
            Some(b) => b.duration(),
            None => None,
        }
    }

    /// The most recently begun block still retained.
    pub fn last(&self) -> (r: Option<&Block>)
        ensures
            if self.blocks_seq().len() > 0 {
                r == Some(&self.blocks_seq().last())
            } else {
                r is None
            },
    {
        let n = self.blocks.len();
        if n == 0 {
            None
        } else {
            Some(&self.blocks[n - 1])
        }
    }

    /// Number of retained blocks.
    pub fn len(&self) -> (n: usize)
        ensures
            n == self.blocks_seq().len(),
    {
        self.blocks.len()
    }

    /// Whether the store holds no blocks.
    pub fn is_empty(&self) -> (b: bool)
        ensures
            b == (self.blocks_seq().len() == 0),
    {
        self.blocks.len() == 0
    }

    /// The retained blocks in insertion order (oldest first).
    pub fn iter(&self) -> (v: Vec<&Block>)
        ensures
            v@.len() == self.blocks_seq().len(),
            forall|i: int| 0 <= i < v@.len() ==> *#[trigger] v@[i] == self.blocks_seq()[i],
    {
        let mut v: Vec<&Block> = Vec::new();
        let mut i: usize = 0;
        while i < self.blocks.len()
            invariant
                i <= self.blocks@.len(),
                v@.len() == i,
                forall|k: int| 0 <= k < i ==> *#[trigger] v@[k] == self.blocks@[k],
            decreases self.blocks.len() - i,
        {
            v.push(&self.blocks[i]);
            i = i + 1;
        }
        v
    }

    /// Every retained block's id with its grid row range, oldest first.
    pub fn row_ranges(&self) -> (v: Vec<(BlockId, Range<StableRowIndex>)>)
        ensures
            v@.len() == self.blocks_seq().len(),
            forall|i: int|
                0 <= i < v@.len() ==> #[trigger] v@[i] == (
                    self.blocks_seq()[i].id,
                    self.blocks_seq()[i].row_range,
                ),
    {
        let mut v: Vec<(BlockId, Range<StableRowIndex>)> = Vec::new();
        let mut i: usize = 0;
        while i < self.blocks.len()
            invariant
                i <= self.blocks@.len(),
                v@.len() == i,
                forall|k: int|
                    0 <= k < i ==> #[trigger] v@[k] == (
                        self.blocks@[k].id,
                        self.blocks@[k].row_range,
                    ),
            decreases self.blocks.len() - i,
        {
            let b = &self.blocks[i];
            v.push((b.id, b.row_range.start..b.row_range.end));
            i = i + 1;
        }
        v
    }
}

} // verus!

verus! {

/// The store keeps the newest blocks, at most `cap` of them (when `cap` is
/// set), and a block it evicts is unknown afterwards: no retained block
/// carries its id.
pub proof fn lemma_store_keeps_newest(bs: Seq<Block>, cap: nat, next: u64, k: int)
    requires
        ids_ordered(bs, next),
    ensures
        ({
            let r = keep_newest(bs, cap);
            &&& r == bs.subrange(bs.len() - r.len(), bs.len() as int)
            &&& cap > 0 ==> r.len() <= cap
            &&& 0 <= k < bs.len() - r.len() ==> index_of_id(r, bs[k].id) is None
        }),
{
    let r = keep_newest(bs, cap);
    assert(r =~= bs.subrange(bs.len() - r.len(), bs.len() as int));
    if 0 <= k < bs.len() - r.len() {
        lemma_index_of_id(r, bs[k].id);
        if let Some(j) = index_of_id(r, bs[k].id) {
            assert(r[j] == bs[bs.len() - r.len() + j]);
        }
    }
}

} // verus!
