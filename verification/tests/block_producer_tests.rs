use sequencer::block_producer::{commit_block, plan_batch, seal_block, BlockLog};
use sequencer::config::{SequencerConfig, SequencerMempoolConfig};
use sequencer::mempool::{Mempool, Transaction};
use sequencer::state_accessor::StateAccessor;

fn tx(sender: u64, nonce: u64, fee: u64, size: u64) -> Transaction {
    Transaction { sender, nonce, fee, size }
}

fn config(allow_empty_blocks: bool) -> SequencerConfig {
    SequencerConfig {
        mempool_conf: SequencerMempoolConfig { max_batch_txs: 100, max_batch_bytes: 1_000_000 },
        allow_empty_blocks,
        block_production_interval_ms: 2_000,
        min_blocks_per_commitment: 40,
        max_da_attempts: 5,
        da_backoff_base_ms: 100,
    }
}

#[test]
fn heights_increase_by_exactly_one() {
    let mut log = BlockLog::new(7);
    assert_eq!(log.head_height(), 0);
    assert_eq!(log.head_root(), 7);
    for expected in 1u64..=3 {
        let block = seal_block(&log, 100 + expected, Vec::new());
        assert_eq!(block.height, expected);
        log.append(block);
        assert_eq!(log.head_height(), expected);
    }
    // parent roots chain block to block
    assert_eq!(log.get_block(1).unwrap().prev_state_root, 7);
    assert_eq!(log.get_block(2).unwrap().prev_state_root, 101);
    assert_eq!(log.get_block(3).unwrap().prev_state_root, 102);
    assert!(log.get_block(0).is_none());
    assert!(log.get_block(4).is_none());
}

#[test]
fn crash_before_persistence_rederives_the_same_height() {
    let mut log = BlockLog::new(0);
    log.append(seal_block(&log, 11, Vec::new()));
    // a block is sealed but the process dies before the append
    let lost = seal_block(&log, 22, Vec::new());
    assert_eq!(lost.height, 2);
    drop(lost);
    // after restart the height comes from the persisted log alone:
    // nothing was skipped and nothing is double-assigned
    let retried = seal_block(&log, 22, Vec::new());
    assert_eq!(retried.height, 2);
    log.append(retried);
    assert_eq!(log.head_height(), 2);
    assert_eq!(seal_block(&log, 33, Vec::new()).height, 3);
}

#[test]
fn empty_tick_produces_no_block_unless_allowed() {
    let mp = Mempool::new();
    let st = StateAccessor::new();
    assert!(plan_batch(&mp, &st, &config(false)).is_none());
    let planned = plan_batch(&mp, &st, &config(true));
    assert_eq!(planned, Some(Vec::new()));
}

#[test]
fn commit_evicts_applied_and_rejected_transactions() {
    let mut st = StateAccessor::new();
    st.set_account(1, 1_000_000, 0);
    st.set_account(2, 1_000_000, 0);
    let mut mp = Mempool::new();
    assert!(mp.submit(tx(1, 0, 10, 1), &st, true).is_ok());
    assert!(mp.submit(tx(2, 0, 8, 1), &st, true).is_ok());
    let mut log = BlockLog::new(0);

    let batch = plan_batch(&mp, &st, &config(false)).unwrap();
    assert_eq!(batch.len(), 2);
    // the external state transition applies one and rejects the other
    let applied = vec![batch[0]];
    let rejected = vec![batch[1]];
    let block = seal_block(&log, 55, applied);
    commit_block(&mut log, &mut mp, block, &rejected);

    assert_eq!(log.head_height(), 1);
    assert_eq!(log.head_root(), 55);
    assert!(!mp.contains(1, 0));
    assert!(!mp.contains(2, 0));
    // the rejected transaction never reappears in a later batch
    assert!(mp.next_batch(&st, 100, 1_000_000).is_empty());
}

#[test]
fn sealed_block_carries_the_state_transition_result() {
    let log = BlockLog::new(9);
    let applied = vec![tx(1, 0, 10, 1), tx(2, 0, 8, 1)];
    let block = seal_block(&log, 77, applied.clone());
    assert_eq!(block.height, 1);
    assert_eq!(block.prev_state_root, 9);
    assert_eq!(block.state_root, 77);
    assert_eq!(block.txs, applied);
    assert!(block.da_ref.is_none());
}

#[test]
fn da_anchor_is_recorded_once_a_range_is_committed() {
    let mut log = BlockLog::new(0);
    for h in 1u64..=5 {
        let block = seal_block(&log, h * 10, Vec::new());
        log.append(block);
    }
    log.record_commitment(1, 3, 42);
    for h in 1u64..=3 {
        assert_eq!(log.get_block(h).unwrap().da_ref, Some(42));
    }
    for h in 4u64..=5 {
        assert_eq!(log.get_block(h).unwrap().da_ref, None);
    }
    // heights and roots are untouched by anchoring
    assert_eq!(log.head_height(), 5);
    assert_eq!(log.get_block(3).unwrap().prev_state_root, 20);
    // anchoring the next confirmed range leaves earlier anchors alone
    log.record_commitment(4, 5, 43);
    assert_eq!(log.get_block(2).unwrap().da_ref, Some(42));
    assert_eq!(log.get_block(5).unwrap().da_ref, Some(43));
}
