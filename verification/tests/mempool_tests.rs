use sequencer::mempool::{AdmissionError, Mempool, Transaction};
use sequencer::state_accessor::StateAccessor;

fn tx(sender: u64, nonce: u64, fee: u64, size: u64) -> Transaction {
    Transaction { sender, nonce, fee, size }
}

fn rich_state(addrs: &[u64]) -> StateAccessor {
    let mut st = StateAccessor::new();
    for &a in addrs {
        st.set_account(a, 1_000_000, 0);
    }
    st
}

#[test]
fn admission_rejects_nonce_too_low() {
    let mut st = StateAccessor::new();
    st.set_account(1, 1_000_000, 5);
    let mut mp = Mempool::new();
    assert_eq!(mp.submit(tx(1, 4, 10, 1), &st, true), Err(AdmissionError::NonceTooLow));
    assert_eq!(mp.len(), 0);
    assert_eq!(mp.submit(tx(1, 5, 10, 1), &st, true), Ok(()));
}

#[test]
fn admission_rejects_bad_signature() {
    let st = rich_state(&[1]);
    let mut mp = Mempool::new();
    assert_eq!(mp.submit(tx(1, 0, 10, 1), &st, false), Err(AdmissionError::BadSignature));
    assert_eq!(mp.len(), 0);
}

#[test]
fn admission_rejects_insufficient_funds() {
    let mut st = StateAccessor::new();
    st.set_account(1, 99, 0);
    let mut mp = Mempool::new();
    // worst-case cost is fee * size = 10 * 10 = 100 > 99
    assert_eq!(mp.submit(tx(1, 0, 10, 10), &st, true), Err(AdmissionError::InsufficientFunds));
    // 9 * 11 = 99 <= 99
    assert_eq!(mp.submit(tx(1, 0, 9, 11), &st, true), Ok(()));
}

#[test]
fn replacement_needs_strictly_higher_fee() {
    let st = rich_state(&[1]);
    let mut mp = Mempool::new();
    assert_eq!(mp.submit(tx(1, 0, 10, 1), &st, true), Ok(()));
    assert_eq!(mp.submit(tx(1, 0, 10, 1), &st, true), Err(AdmissionError::Underpriced));
    assert_eq!(mp.submit(tx(1, 0, 9, 1), &st, true), Err(AdmissionError::Underpriced));
    assert_eq!(mp.submit(tx(1, 0, 11, 1), &st, true), Ok(()));
    assert_eq!(mp.len(), 1);
    let batch = mp.next_batch(&st, 10, 1_000);
    assert_eq!(batch.len(), 1);
    assert_eq!(batch[0].fee, 11);
}

#[test]
fn batch_selects_by_fee_with_per_account_ordering() {
    // A(nonce=0, fee=10), A(nonce=1, fee=5), B(nonce=0, fee=8); max_batch=2
    // -> A(0) then B(0): A(1) is ineligible until A(0) is taken, and B(0)
    // outranks A(1) among the then-ready entries.
    let a = 1u64;
    let b = 2u64;
    let st = rich_state(&[a, b]);
    let mut mp = Mempool::new();
    assert_eq!(mp.submit(tx(a, 0, 10, 1), &st, true), Ok(()));
    assert_eq!(mp.submit(tx(a, 1, 5, 1), &st, true), Ok(()));
    assert_eq!(mp.submit(tx(b, 0, 8, 1), &st, true), Ok(()));
    let batch = mp.next_batch(&st, 2, 1_000);
    assert_eq!(batch, vec![tx(a, 0, 10, 1), tx(b, 0, 8, 1)]);
}

#[test]
fn batch_keeps_nonce_order_within_sender() {
    let st = rich_state(&[1]);
    let mut mp = Mempool::new();
    // later nonces carry higher fees, yet per-account order must hold
    assert_eq!(mp.submit(tx(1, 0, 1, 1), &st, true), Ok(()));
    assert_eq!(mp.submit(tx(1, 1, 50, 1), &st, true), Ok(()));
    assert_eq!(mp.submit(tx(1, 2, 99, 1), &st, true), Ok(()));
    let batch = mp.next_batch(&st, 10, 1_000);
    assert_eq!(batch, vec![tx(1, 0, 1, 1), tx(1, 1, 50, 1), tx(1, 2, 99, 1)]);
}

#[test]
fn gapped_nonce_is_not_ready() {
    let st = rich_state(&[1]);
    let mut mp = Mempool::new();
    assert_eq!(mp.submit(tx(1, 0, 10, 1), &st, true), Ok(()));
    assert_eq!(mp.submit(tx(1, 2, 50, 1), &st, true), Ok(()));
    let batch = mp.next_batch(&st, 10, 1_000);
    // nonce 2 stays gapped: nonce 1 was never admitted
    assert_eq!(batch, vec![tx(1, 0, 10, 1)]);
}

#[test]
fn batch_never_holds_duplicate_sender_nonce() {
    let st = rich_state(&[1, 2, 3]);
    let mut mp = Mempool::new();
    for s in 1u64..=3 {
        for n in 0u64..4 {
            assert_eq!(mp.submit(tx(s, n, 10 + s + n, 1), &st, true), Ok(()));
        }
    }
    // replace one entry on top
    assert_eq!(mp.submit(tx(2, 1, 99, 1), &st, true), Ok(()));
    let batch = mp.next_batch(&st, 100, 1_000_000);
    assert_eq!(batch.len(), 12);
    for i in 0..batch.len() {
        for j in (i + 1)..batch.len() {
            assert!(!(batch[i].sender == batch[j].sender && batch[i].nonce == batch[j].nonce));
        }
    }
}

#[test]
fn batch_respects_byte_budget() {
    let st = rich_state(&[1, 2]);
    let mut mp = Mempool::new();
    assert_eq!(mp.submit(tx(1, 0, 10, 600), &st, true), Ok(()));
    assert_eq!(mp.submit(tx(2, 0, 5, 300), &st, true), Ok(()));
    // the high-fee entry does not fit; the smaller one does
    let batch = mp.next_batch(&st, 10, 500);
    assert_eq!(batch, vec![tx(2, 0, 5, 300)]);
}

#[test]
fn evicted_transaction_never_reappears_without_resubmission() {
    let st = rich_state(&[1]);
    let mut mp = Mempool::new();
    assert_eq!(mp.submit(tx(1, 0, 10, 1), &st, true), Ok(()));
    let batch = mp.next_batch(&st, 10, 1_000);
    assert_eq!(batch, vec![tx(1, 0, 10, 1)]);
    // selection alone does not delete: the entry is still collectible
    assert!(mp.contains(1, 0));
    mp.evict_applied(1, 0);
    assert!(!mp.contains(1, 0));
    let later = mp.next_batch(&st, 10, 1_000);
    assert!(later.is_empty());
    // explicit resubmission brings it back
    assert_eq!(mp.submit(tx(1, 0, 10, 1), &st, true), Ok(()));
    assert_eq!(mp.next_batch(&st, 10, 1_000), vec![tx(1, 0, 10, 1)]);
}

#[test]
fn fee_tie_broken_by_admission_order() {
    let st = rich_state(&[1, 2]);
    let mut mp = Mempool::new();
    assert_eq!(mp.submit(tx(2, 0, 7, 1), &st, true), Ok(()));
    assert_eq!(mp.submit(tx(1, 0, 7, 1), &st, true), Ok(()));
    let batch = mp.next_batch(&st, 2, 1_000);
    // same fee: the earlier admission goes first
    assert_eq!(batch, vec![tx(2, 0, 7, 1), tx(1, 0, 7, 1)]);
}
