//! The block producer: the append-only log of soft confirmations and the
//! production step that turns a mempool batch and a state-transition result
//! into the next block. Heights are re-derived from the persisted log alone,
//! so a crash between state transition and persistence can neither skip nor
//! double-assign a height. The state-transition function itself is an
//! external collaborator: its result comes in as plain values.

use vstd::prelude::*;
use crate::config::SequencerConfig;
use crate::mempool::{Mempool, Transaction, find_pair, is_valid_batch};
use crate::state_accessor::StateAccessor;

verus! {

/// A sequencer-produced block, not yet anchored to the data-availability
/// layer when `da_ref` is `None`. Immutable once persisted.
#[derive(Clone, Debug)]
pub struct SoftConfirmation {
    /// The block's height; the log's first block has height 1.
    pub height: u64,
    /// The state root the block was built on: the parent's resulting root.
    pub prev_state_root: u64,
    /// The state root after applying the block's transactions.
    pub state_root: u64,
    /// The applied transactions, in execution order.
    pub txs: Vec<Transaction>,
    /// Where the data-availability layer anchors the block, once committed.
    pub da_ref: Option<u64>,
}

/// Some transactions of `b` carry the pair (`sender`, `nonce`).
pub open spec fn batch_contains_pair(b: Seq<Transaction>, sender: u64, nonce: u64) -> bool {
    exists|i: int| 0 <= i < b.len() && b[i].sender == sender && #[trigger] b[i].nonce == nonce
}

/// The persisted block log: append-only, keyed by height. Heights are dense
/// from 1 and each block chains to its parent's state root.
pub struct BlockLog {
    genesis_root: u64,
    blocks: Vec<SoftConfirmation>,
}

impl BlockLog {
    /// The state root block `i` (0-based) was built on.
    pub closed spec fn spec_root_before(&self, i: int) -> u64 {
        if i == 0 {
            self.genesis_root
        } else {
            self.blocks@[i - 1].state_root
        }
    }

    /// Heights are dense from 1 and roots chain; the log leaves room for the
    /// next height to fit in its key type.
    pub closed spec fn wf(&self) -> bool {
        &&& self.blocks@.len() + 1 < u64::MAX
        &&& forall|i: int| 0 <= i < self.blocks@.len() ==> #[trigger] self.blocks@[i].height == i
            + 1
        &&& forall|i: int| 0 <= i < self.blocks@.len() ==> #[trigger] self.blocks@[i].prev_state_root
            == self.spec_root_before(i)
    }

    /// The persisted blocks, in height order.
    pub closed spec fn spec_blocks(&self) -> Seq<SoftConfirmation> {
        self.blocks@
    }

    /// The root of the empty chain.
    pub closed spec fn spec_genesis_root(&self) -> u64 {
        self.genesis_root
    }

    /// The highest persisted height; 0 for an empty log.
    pub open spec fn spec_height(&self) -> int {
        self.spec_blocks().len() as int
    }

    /// The state root the next block builds on.
    pub open spec fn spec_head_root(&self) -> u64 {
        if self.spec_blocks().len() == 0 {
            self.spec_genesis_root()
        } else {
            self.spec_blocks().last().state_root
        }
    }

    /// An empty log on top of the genesis state root.
    pub fn new(genesis_root: u64) -> (r: BlockLog)
        ensures
            r.wf(),
            r.spec_height() == 0,
            r.spec_head_root() == genesis_root,
            r.spec_blocks() == Seq::<SoftConfirmation>::empty(),
    {
        let r = BlockLog { genesis_root, blocks: Vec::new() };
        proof {
            assert(r.blocks@ =~= Seq::<SoftConfirmation>::empty());
        }
        r
    }

    /// Reads the highest persisted height.
    pub fn head_height(&self) -> (r: u64)
        requires
            self.wf(),
        ensures
            r == self.spec_height(),
    {
        self.blocks.len() as u64
    }

    /// Reads the state root the next block builds on.
    pub fn head_root(&self) -> (r: u64)
        requires
            self.wf(),
        ensures
            r == self.spec_head_root(),
    {
        if self.blocks.len() == 0 {
            self.genesis_root
        } else {
            self.blocks[self.blocks.len() - 1].state_root
        }
    }

    /// Reads the block at `height`; `None` outside `1..=head`.
    pub fn get_block(&self, height: u64) -> (r: Option<&SoftConfirmation>)
        requires
            self.wf(),
        ensures
            1 <= height <= self.spec_height() ==> r == Some(
                &self.spec_blocks()[height - 1],
            ),
            !(1 <= height <= self.spec_height()) ==> r is None,
    {
        if height >= 1 && height <= self.blocks.len() as u64 {
            Some(&self.blocks[(height - 1) as usize])
        } else {
            None
        }
    }

    /// Records, once a commitment is confirmed, the data-availability
    /// anchor of every block of `start..=end`; heights, roots and
    /// transactions stay exactly as they were, and blocks outside the range
    /// keep their anchor.
    #[verifier::loop_isolation(false)]
    pub fn record_commitment(&mut self, start: u64, end: u64, da_ref: u64)
        requires
            old(self).wf(),
            1 <= start <= end,
            end <= old(self).spec_height(),
        ensures
            final(self).wf(),
            final(self).spec_height() == old(self).spec_height(),
            final(self).spec_genesis_root() == old(self).spec_genesis_root(),
            final(self).spec_head_root() == old(self).spec_head_root(),
            forall|i: int|
                0 <= i < old(self).spec_blocks().len() ==> {
                    let b0 = old(self).spec_blocks()[i];
                    let b1 = #[trigger] final(self).spec_blocks()[i];
                    &&& b1.height == b0.height
                    &&& b1.prev_state_root == b0.prev_state_root
                    &&& b1.state_root == b0.state_root
                    &&& b1.txs@ == b0.txs@
                    &&& b1.da_ref == (if start <= i + 1 <= end {
                        Some(da_ref)
                    } else {
                        b0.da_ref
                    })
                },
    {
        let mut h: u64 = start;
        while h <= end
            invariant
                start <= h <= end + 1,
                self.blocks@.len() == old(self).blocks@.len(),
                self.genesis_root == old(self).genesis_root,
                forall|i: int|
                    0 <= i < self.blocks@.len() ==> {
                        let b0 = old(self).blocks@[i];
                        let b1 = #[trigger] self.blocks@[i];
                        &&& b1.height == b0.height
                        &&& b1.prev_state_root == b0.prev_state_root
                        &&& b1.state_root == b0.state_root
                        &&& b1.txs@ == b0.txs@
                        &&& b1.da_ref == (if start <= i + 1 < h {
                            Some(da_ref)
                        } else {
                            b0.da_ref
                        })
                    },
            decreases end + 1 - h,
        {
            let len: usize = self.blocks.len();
            let idx: usize = (h - 1) as usize;
            proof {
                assert(h - 1 < len);
                assert(idx as int == h - 1);
            }
            let b = &self.blocks[idx];
            let updated = SoftConfirmation {
                height: b.height,
                prev_state_root: b.prev_state_root,
                state_root: b.state_root,
                txs: copy_txs(&b.txs),
                da_ref: Some(da_ref),
            };
            let ghost prev = self.blocks@;
            self.blocks.set(idx, updated);
            proof {
                assert(self.blocks@ =~= prev.update(idx as int, updated));
                assert(self.blocks@[idx as int] == updated);
                assert forall|i: int| 0 <= i < self.blocks@.len() implies {
                    let b0 = old(self).blocks@[i];
                    let b1 = #[trigger] self.blocks@[i];
                    &&& b1.height == b0.height
                    &&& b1.prev_state_root == b0.prev_state_root
                    &&& b1.state_root == b0.state_root
                    &&& b1.txs@ == b0.txs@
                    &&& b1.da_ref == (if start <= i + 1 < h + 1 {
                        Some(da_ref)
                    } else {
                        b0.da_ref
                    })
                } by {
                    let b0 = old(self).blocks@[i];
                    if i == idx as int {
                        assert(self.blocks@[i] == updated);
                        assert(updated.height == b0.height);
                        assert(updated.prev_state_root == b0.prev_state_root);
                        assert(updated.state_root == b0.state_root);
                        assert(updated.txs@ == b0.txs@);
                        assert(start <= i + 1 < h + 1);
                    } else {
                        assert(self.blocks@[i] == prev[i]);
                        assert(prev[i].height == b0.height);
                        assert(prev[i].prev_state_root == b0.prev_state_root);
                        assert(prev[i].state_root == b0.state_root);
                        assert(prev[i].txs@ == b0.txs@);
                        assert(prev[i].da_ref == (if start <= i + 1 < h {
                            Some(da_ref)
                        } else {
                            b0.da_ref
                        }));
                        assert(i + 1 != h);
                    }
                }
            }
            h = h + 1;
        }
    }

    /// Appends the next block. The caller hands in a block whose height and
    /// parent root were derived from this log, which keeps heights dense and
    /// roots chained.
    pub fn append(&mut self, block: SoftConfirmation)
        requires
            old(self).wf(),
            block.height == old(self).spec_height() + 1,
            block.prev_state_root == old(self).spec_head_root(),
            old(self).spec_blocks().len() + 2 < u64::MAX,
        ensures
            final(self).wf(),
            final(self).spec_blocks() == old(self).spec_blocks().push(block),
            final(self).spec_height() == old(self).spec_height() + 1,
            final(self).spec_head_root() == block.state_root,
            final(self).spec_genesis_root() == old(self).spec_genesis_root(),
    {
        self.blocks.push(block);
    }
}

#[verifier::loop_isolation(false)]
fn copy_txs(src: &Vec<Transaction>) -> (r: Vec<Transaction>)
    ensures
        r@ == src@,
{
    let mut r: Vec<Transaction> = Vec::new();
    proof {
        assert(r@ =~= src@.take(0));
    }
    let mut i: usize = 0;
    while i < src.len()
        invariant
            0 <= i <= src@.len(),
            r@ == src@.take(i as int),
        decreases src@.len() - i,
    {
        r.push(src[i]);
        proof {
            assert(r@ =~= src@.take(i as int + 1));
        }
        i = i + 1;
    }
    proof {
        assert(src@.take(src@.len() as int) =~= src@);
    }
    r
}

/// Law: persisted heights are exactly 1, 2, 3, ...: each block's height is
/// its predecessor's plus one, and no height is skipped or duplicated. The
/// next height is a function of the durable log alone (see
/// [`seal_block`]), so a crash between state transition and persistence —
/// which leaves the log as it was — re-derives the same height on recovery.
pub proof fn lemma_heights_contiguous(log: BlockLog)
    requires
        log.wf(),
    ensures
        forall|i: int|
            0 <= i < log.spec_blocks().len() ==> #[trigger] log.spec_blocks()[i].height == i + 1,
        forall|i: int|
            0 <= i && i + 1 < log.spec_blocks().len() ==> #[trigger] log.spec_blocks()[i
                + 1].height == log.spec_blocks()[i].height + 1,
        forall|i: int, j: int|
            0 <= i < j < log.spec_blocks().len() ==> #[trigger] log.spec_blocks()[i].height
                != #[trigger] log.spec_blocks()[j].height,
{
}

/// Plans the next batch: asks the mempool for an ordered batch under the
/// configured limits, and decides whether this tick produces at all — an
/// empty batch produces a block only where configuration allows empty
/// blocks.
pub fn plan_batch(mempool: &Mempool, state: &StateAccessor, config: &SequencerConfig) -> (r:
    Option<Vec<Transaction>>)
    requires
        mempool.wf(),
        state.wf(),
    ensures
        r matches Some(batch) ==> is_valid_batch(
            mempool.spec_entries(),
            *state,
            batch@,
            config.mempool_conf.max_batch_txs as int,
            config.mempool_conf.max_batch_bytes as int,
        ) && (batch@.len() == 0 ==> config.allow_empty_blocks),
        r is None ==> !config.allow_empty_blocks && is_valid_batch(
            mempool.spec_entries(),
            *state,
            Seq::<Transaction>::empty(),
            config.mempool_conf.max_batch_txs as int,
            config.mempool_conf.max_batch_bytes as int,
        ),
{
    let batch = mempool.next_batch(
        state,
        config.mempool_conf.max_batch_txs,
        config.mempool_conf.max_batch_bytes,
    );
    if batch.len() == 0 && !config.allow_empty_blocks {
        proof {
            assert(batch@ =~= Seq::<Transaction>::empty());
        }
        None
    } else {
        Some(batch)
    }
}

/// Seals the next soft confirmation from the persisted log and the
/// state-transition result. The height and parent root are re-derived from
/// the log alone: two seals over the same log yield the same height, which
/// is what makes a crash before persistence harmless.
pub fn seal_block(log: &BlockLog, new_state_root: u64, applied: Vec<Transaction>) -> (b:
    SoftConfirmation)
    requires
        log.wf(),
    ensures
        b.height == log.spec_height() + 1,
        b.prev_state_root == log.spec_head_root(),
        b.state_root == new_state_root,
        b.txs@ == applied@,
        b.da_ref is None,
{
    SoftConfirmation {
        height: log.head_height() + 1,
        prev_state_root: log.head_root(),
        state_root: new_state_root,
        txs: applied,
        da_ref: None,
    }
}

/// The persistence step: appends the sealed block and evicts from the
/// mempool both what the block applied and what the state transition
/// rejected — and nothing else. Height assignment and eviction follow a
/// single append, the atomicity boundary; a crash before this call leaves
/// every transaction re-collectible.
#[verifier::loop_isolation(false)]
pub fn commit_block(
    log: &mut BlockLog,
    mempool: &mut Mempool,
    block: SoftConfirmation,
    rejected: &Vec<Transaction>,
)
    requires
        old(log).wf(),
        old(mempool).wf(),
        block.height == old(log).spec_height() + 1,
        block.prev_state_root == old(log).spec_head_root(),
        old(log).spec_blocks().len() + 2 < u64::MAX,
    ensures
        final(log).wf(),
        final(mempool).wf(),
        final(log).spec_blocks() == old(log).spec_blocks().push(block),
        final(mempool).spec_clock() == old(mempool).spec_clock(),
        forall|s: u64, n: u64|
            batch_contains_pair(block.txs@, s, n) || batch_contains_pair(rejected@, s, n)
                ==> #[trigger] find_pair(final(mempool).spec_entries(), s, n) is None,
        forall|s: u64, n: u64|
            !batch_contains_pair(block.txs@, s, n) && !batch_contains_pair(rejected@, s, n)
                ==> #[trigger] find_pair(final(mempool).spec_entries(), s, n) == find_pair(
                old(mempool).spec_entries(),
                s,
                n,
            ),
{
    let ghost applied = block.txs@;
    let mut i: usize = 0;
    let n: usize = block.txs.len();
    while i < n
        invariant
            0 <= i <= n,
            mempool.wf(),
            mempool.spec_clock() == old(mempool).spec_clock(),
            forall|s: u64, n2: u64|
                batch_contains_pair(applied.take(i as int), s, n2) ==> #[trigger] find_pair(
                    mempool.spec_entries(),
                    s,
                    n2,
                ) is None,
            forall|s: u64, n2: u64|
                !batch_contains_pair(applied.take(i as int), s, n2) ==> #[trigger] find_pair(
                    mempool.spec_entries(),
                    s,
                    n2,
                ) == find_pair(old(mempool).spec_entries(), s, n2),
        decreases n - i,
    {
        let t = block.txs[i];
        mempool.evict_applied(t.sender, t.nonce);
        proof {
            lemma_take_pair_step(applied, i as int);
        }
        i = i + 1;
    }
    proof {
        assert(applied.take(n as int) =~= applied);
    }
    let ghost mid = mempool.spec_entries();
    let m: usize = rejected.len();
    let mut k: usize = 0;
    while k < m
        invariant
            0 <= k <= m,
            mempool.wf(),
            mempool.spec_clock() == old(mempool).spec_clock(),
            forall|s: u64, n2: u64|
                batch_contains_pair(rejected@.take(k as int), s, n2) ==> #[trigger] find_pair(
                    mempool.spec_entries(),
                    s,
                    n2,
                ) is None,
            forall|s: u64, n2: u64|
                !batch_contains_pair(rejected@.take(k as int), s, n2) ==> #[trigger] find_pair(
                    mempool.spec_entries(),
                    s,
                    n2,
                ) == find_pair(mid, s, n2),
        decreases m - k,
    {
        let t = rejected[k];
        mempool.evict_applied(t.sender, t.nonce);
        proof {
            lemma_take_pair_step(rejected@, k as int);
        }
        k = k + 1;
    }
    proof {
        assert(rejected@.take(m as int) =~= rejected@);
    }
    log.append(block);
}

proof fn lemma_take_pair_step(b: Seq<Transaction>, i: int)
    requires
        0 <= i < b.len(),
    ensures
        forall|s: u64, n: u64|
            #[trigger] batch_contains_pair(b.take(i + 1), s, n) <==> batch_contains_pair(
                b.take(i),
                s,
                n,
            ) || (b[i].sender == s && b[i].nonce == n),
{
    assert forall|s: u64, n: u64| #[trigger] batch_contains_pair(b.take(i + 1), s, n) implies
        batch_contains_pair(b.take(i), s, n) || (b[i].sender == s && b[i].nonce == n) by {
        let j = choose|j: int|
            0 <= j < b.take(i + 1).len() && b.take(i + 1)[j].sender == s && #[trigger] b.take(
                i + 1,
            )[j].nonce == n;
        if j < i {
            assert(b.take(i)[j].sender == s && b.take(i)[j].nonce == n);
        }
    }
    assert forall|s: u64, n: u64|
        batch_contains_pair(b.take(i), s, n) || (b[i].sender == s && b[i].nonce == n) implies
        #[trigger] batch_contains_pair(b.take(i + 1), s, n) by {
        if batch_contains_pair(b.take(i), s, n) {
            let j = choose|j: int|
                0 <= j < b.take(i).len() && b.take(i)[j].sender == s && #[trigger] b.take(
                    i,
                )[j].nonce == n;
            assert(b.take(i + 1)[j].sender == s && b.take(i + 1)[j].nonce == n);
        } else {
            assert(b.take(i + 1)[i].sender == s && b.take(i + 1)[i].nonce == n);
        }
    }
}

} // verus!
