use sequencer::commitment_controller::{
    BlobId, Commitment, CommitmentController, DaAction, RetryDecision,
};

#[test]
fn controller_waits_below_threshold() {
    let mut c = CommitmentController::new(40, 5, 100);
    assert_eq!(c.cursor(), 0);
    assert_eq!(c.tick(10, false), DaAction::Wait);
    assert!(c.pending_submission().is_none());
}

#[test]
fn max_wait_timer_forces_a_short_range() {
    let mut c = CommitmentController::new(40, 5, 100);
    assert_eq!(
        c.tick(10, true),
        DaAction::Submit { start: 1, end: 10, blob_id: BlobId { start: 1, end: 10 } }
    );
}

#[test]
fn commitment_scenario_cursor_advances_once() {
    // cursor = 100, head = 150, min_blocks_per_commitment = 40:
    // the controller submits the range from 101 to 150; a duplicate tick
    // before confirmation must not submit a second distinct blob; after
    // confirmed inclusion the cursor becomes 150.
    let committed = vec![Commitment { start: 1, end: 100, da_ref: 7 }];
    let mut c = CommitmentController::recover(100, committed, 40, 5, 100);
    let action = c.tick(150, false);
    assert_eq!(
        action,
        DaAction::Submit { start: 101, end: 150, blob_id: BlobId { start: 101, end: 150 } }
    );
    // a duplicate tick only polls the in-flight blob
    assert_eq!(
        c.tick(150, false),
        DaAction::CheckStatus { blob_id: BlobId { start: 101, end: 150 } }
    );
    assert_eq!(c.cursor(), 100);

    assert!(c.record_inclusion(BlobId { start: 101, end: 150 }, 42));
    assert_eq!(c.cursor(), 150);
    let ranges = c.committed_ranges();
    assert_eq!(ranges.len(), 2);
    assert_eq!(ranges[1], Commitment { start: 101, end: 150, da_ref: 42 });
}

#[test]
fn duplicate_inclusion_report_is_a_no_op() {
    let mut c = CommitmentController::new(1, 5, 100);
    assert!(matches!(c.tick(3, false), DaAction::Submit { .. }));
    assert!(c.record_inclusion(BlobId { start: 1, end: 3 }, 9));
    assert_eq!(c.cursor(), 3);
    // the same identifier reported again: no second commitment
    assert!(!c.record_inclusion(BlobId { start: 1, end: 3 }, 9));
    assert_eq!(c.cursor(), 3);
    assert_eq!(c.committed_ranges().len(), 1);
}

#[test]
fn unknown_blob_report_is_ignored() {
    let mut c = CommitmentController::new(1, 5, 100);
    assert!(matches!(c.tick(3, false), DaAction::Submit { .. }));
    assert!(!c.record_inclusion(BlobId { start: 1, end: 2 }, 9));
    assert_eq!(c.cursor(), 0);
    assert!(c.pending_submission().is_some());
}

#[test]
fn committed_ranges_partition_the_prefix() {
    let mut c = CommitmentController::new(1, 5, 100);
    let heads = [3u64, 7, 8, 20];
    for (i, &head) in heads.iter().enumerate() {
        match c.tick(head, false) {
            DaAction::Submit { start, end, blob_id } => {
                assert!(c.record_inclusion(blob_id, i as u64));
                assert_eq!(end, head);
                assert_eq!(start, if i == 0 { 1 } else { heads[i - 1] + 1 });
            }
            other => panic!("expected a submission, got {:?}", other),
        }
    }
    let ranges = c.committed_ranges();
    // no gaps, no overlaps, full cover of 1..=20
    assert_eq!(ranges[0].start, 1);
    for w in ranges.windows(2) {
        assert_eq!(w[1].start, w[0].end + 1);
    }
    assert_eq!(ranges[ranges.len() - 1].end, 20);
    assert_eq!(c.cursor(), 20);
}

#[test]
fn transient_failures_back_off_then_turn_fatal() {
    let mut c = CommitmentController::new(1, 3, 10);
    assert!(matches!(c.tick(5, false), DaAction::Submit { .. }));
    assert_eq!(c.on_transient_failure(), RetryDecision::Retry { delay: 20 });
    assert_eq!(c.on_transient_failure(), RetryDecision::Retry { delay: 40 });
    assert_eq!(c.on_transient_failure(), RetryDecision::Retry { delay: 80 });
    // the ceiling of 3 attempts is exceeded: fatal alert, cursor frozen,
    // range still pending so nothing is silently lost
    assert_eq!(c.on_transient_failure(), RetryDecision::Fatal);
    assert_eq!(c.cursor(), 0);
    assert!(c.pending_submission().is_some());
}

#[test]
fn restart_resubmits_under_the_same_identifier() {
    // crash after broadcast but before the cursor advanced: recovery knows
    // only the durable state, and the re-derived identifier is identical,
    // so a resubmission is a safe no-op at the data-availability layer
    let committed = vec![Commitment { start: 1, end: 100, da_ref: 7 }];
    let mut before = CommitmentController::recover(100, committed.clone(), 40, 5, 100);
    let first = before.tick(150, false);
    let mut after = CommitmentController::recover(100, committed, 40, 5, 100);
    let again = after.tick(150, false);
    assert_eq!(first, again);
}
