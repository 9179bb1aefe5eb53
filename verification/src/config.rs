//! Configuration of the sequencer node: mempool batch limits, block
//! production policy, and the commitment controller's cadence and retry
//! policy.

use vstd::prelude::*;

verus! {

/// Limits the mempool applies when it selects a batch.
#[derive(Clone, Copy, PartialEq, Eq, Structural, Debug)]
pub struct SequencerMempoolConfig {
    /// Most transactions a single batch may hold.
    pub max_batch_txs: usize,
    /// Most payload bytes a single batch may hold.
    pub max_batch_bytes: u64,
}

/// Configuration of the sequencer node.
#[derive(Clone, Copy, PartialEq, Eq, Structural, Debug)]
pub struct SequencerConfig {
    /// Batch limits for the mempool.
    pub mempool_conf: SequencerMempoolConfig,
    /// Whether a tick with no eligible transactions still produces a block.
    pub allow_empty_blocks: bool,
    /// The production timer's interval, in milliseconds.
    pub block_production_interval_ms: u64,
    /// A commitment is submitted once this many blocks are uncommitted.
    pub min_blocks_per_commitment: u64,
    /// Transient submission failures tolerated before the alert turns fatal.
    pub max_da_attempts: u64,
    /// Base delay of the data-availability retry backoff, in milliseconds.
    pub da_backoff_base_ms: u64,
}

} // verus!
