//! The commitment controller: decides when a range of produced blocks is
//! published to the data-availability layer, tracks the last fully committed
//! height (the cursor), and keeps the invariant that committed ranges
//! partition the committed prefix of the chain with no gaps and no overlaps.
//!
//! The wire work itself — broadcasting a blob, polling its status — is an
//! external collaborator. The controller is the decision function: each
//! data-availability event comes back to it as a plain value, and its
//! contracts say what it decides for every such value.

use vstd::prelude::*;

verus! {

/// A committed height range, covering heights `start..=end`, with the
/// data-availability reference of the blob that carries it.
#[derive(Clone, Copy, PartialEq, Eq, Structural, Debug)]
pub struct Commitment {
    /// First height the commitment covers.
    pub start: u64,
    /// Last height the commitment covers.
    pub end: u64,
    /// The data-availability layer's reference for the confirmed blob.
    pub da_ref: u64,
}

/// The deterministic identifier of a blob, derived from the range bounds
/// alone, so a retried submission of the same range carries the same
/// identifier and cannot post a logically distinct blob.
#[derive(Clone, Copy, PartialEq, Eq, Structural, Debug)]
pub struct BlobId {
    /// First height the blob covers.
    pub start: u64,
    /// Last height the blob covers.
    pub end: u64,
}

/// A submission that was handed to the data-availability layer and is not
/// confirmed yet.
#[derive(Clone, Copy, PartialEq, Eq, Structural, Debug)]
pub struct PendingSubmission {
    /// First height of the submitted range.
    pub start: u64,
    /// Last height of the submitted range.
    pub end: u64,
    /// How many transient failures this submission has seen.
    pub attempts: u64,
}

/// What the controller asks its caller to do on a tick.
#[derive(Clone, Copy, PartialEq, Eq, Structural, Debug)]
pub enum DaAction {
    /// Nothing to do: no pending submission and no range due.
    Wait,
    /// Submit the blob for heights `start..=end` under `blob_id`.
    Submit {
        /// First height of the range to submit.
        start: u64,
        /// Last height of the range to submit.
        end: u64,
        /// The blob's deterministic identifier.
        blob_id: BlobId,
    },
    /// A submission is in flight: poll its status, submit nothing new.
    CheckStatus {
        /// The identifier of the in-flight blob.
        blob_id: BlobId,
    },
}

/// What to do after a transient submission failure.
#[derive(Clone, Copy, PartialEq, Eq, Structural, Debug)]
pub enum RetryDecision {
    /// Retry after `delay` time units.
    Retry {
        /// The backoff delay before the next attempt.
        delay: u64,
    },
    /// The attempt ceiling is exceeded: raise a fatal alert. The cursor does
    /// not advance and the range stays pending, so no data is silently lost.
    Fatal,
}

/// The ranges in `cs` chain without gaps or overlaps and cover exactly
/// `[1, head]`: the first starts at 1, each next starts right after the
/// previous ends, and the last ends at `head` (an empty chain covers the
/// empty prefix, `head == 0`).
pub open spec fn ranges_chain(cs: Seq<Commitment>, head: u64) -> bool {
    &&& forall|i: int| 0 <= i < cs.len() ==> #[trigger] cs[i].start <= cs[i].end
    &&& (cs.len() == 0 ==> head == 0)
    &&& (cs.len() > 0 ==> cs[0].start == 1 && cs[cs.len() - 1].end == head)
    &&& forall|i: int| 0 < i < cs.len() ==> #[trigger] cs[i].start == cs[i - 1].end + 1
}

/// `c` covers height `h`.
pub open spec fn covers(c: Commitment, h: u64) -> bool {
    c.start <= h <= c.end
}

/// The exponential backoff delay after `attempts` failures: `base` doubled
/// once per failure, saturating at `u64::MAX`.
pub open spec fn spec_backoff(base: u64, attempts: u64) -> u64
    decreases attempts,
{
    if attempts == 0 {
        base
    } else {
        let p = spec_backoff(base, (attempts - 1) as u64);
        if p > u64::MAX / 2 {
            u64::MAX
        } else {
            (2 * p) as u64
        }
    }
}

fn backoff_delay(base: u64, attempts: u64) -> (d: u64)
    ensures
        d == spec_backoff(base, attempts),
{
    let mut d: u64 = base;
    let mut i: u64 = 0;
    while i < attempts
        invariant
            0 <= i <= attempts,
            d == spec_backoff(base, i),
        decreases attempts - i,
    {
        if d > u64::MAX / 2 {
            d = u64::MAX;
        } else {
            d = 2 * d;
        }
        i = i + 1;
    }
    d
}

proof fn lemma_chain_monotone(cs: Seq<Commitment>, head: u64, i: int, j: int)
    requires
        ranges_chain(cs, head),
        0 <= i < j < cs.len(),
    ensures
        cs[i].end < cs[j].start,
    decreases j - i,
{
    assert(cs[j].start == cs[j - 1].end + 1);
    if j > i + 1 {
        lemma_chain_monotone(cs, head, i, j - 1);
        assert(cs[j - 1].start <= cs[j - 1].end);
    }
}

/// Law: the committed ranges partition `[1, head]` — every height in the
/// committed prefix lies in exactly one range, with no gaps and no overlaps.
pub proof fn lemma_commitments_partition(cs: Seq<Commitment>, head: u64, h: u64)
    requires
        ranges_chain(cs, head),
        1 <= h <= head,
    ensures
        exists|i: int| 0 <= i < cs.len() && covers(#[trigger] cs[i], h),
        forall|i: int, j: int|
            0 <= i < cs.len() && 0 <= j < cs.len() && covers(#[trigger] cs[i], h) && covers(
                #[trigger] cs[j],
                h,
            ) ==> i == j,
    decreases cs.len(),
{
    let n = cs.len() as int;
    if cs[n - 1].start <= h {
        assert(covers(cs[n - 1], h));
    } else {
        if n == 1 {
            assert(cs[0].start == 1);
            assert(false);
        }
        let prev = cs.drop_last();
        assert(forall|i: int| 0 <= i < prev.len() ==> prev[i] == cs[i]);
        let head2 = cs[n - 2].end;
        assert(cs[n - 1].start == cs[n - 2].end + 1);
        assert(ranges_chain(prev, head2));
        assert(h <= head2);
        lemma_commitments_partition(prev, head2, h);
        let i0 = choose|i: int| 0 <= i < prev.len() && covers(#[trigger] prev[i], h);
        assert(covers(cs[i0], h));
    }
    assert forall|i: int, j: int|
        0 <= i < cs.len() && 0 <= j < cs.len() && covers(#[trigger] cs[i], h) && covers(
            #[trigger] cs[j],
            h,
        ) implies i == j by {
        if i < j {
            lemma_chain_monotone(cs, head, i, j);
        }
        if j < i {
            lemma_chain_monotone(cs, head, j, i);
        }
    }
}

/// Decides when height ranges are committed to the data-availability layer
/// and records what was committed.
pub struct CommitmentController {
    /// Last fully committed height; 0 before any commitment.
    cursor: u64,
    /// The confirmed commitments, in height order.
    committed: Vec<Commitment>,
    /// The submission in flight, if any.
    pending: Option<PendingSubmission>,
    /// A range is submitted once it holds at least this many blocks.
    min_blocks_per_commitment: u64,
    /// Transient failures tolerated before the alert turns fatal.
    max_attempts: u64,
    /// Base delay of the exponential backoff.
    backoff_base: u64,
}

impl CommitmentController {
    /// The committed ranges chain over `[1, cursor]`, and a pending
    /// submission, if any, starts right after the cursor.
    pub closed spec fn wf(&self) -> bool {
        &&& ranges_chain(self.committed@, self.cursor)
        &&& (self.spec_pending() matches Some(p) ==> p.start == self.cursor + 1 && p.start
            <= p.end)
    }

    /// Last fully committed height.
    pub closed spec fn spec_cursor(&self) -> u64 {
        self.cursor
    }

    /// The confirmed commitments, in height order.
    pub closed spec fn spec_committed(&self) -> Seq<Commitment> {
        self.committed@
    }

    /// The submission in flight, if any.
    pub closed spec fn spec_pending(&self) -> Option<PendingSubmission> {
        self.pending
    }

    /// The configured minimum range length.
    pub closed spec fn spec_min_blocks(&self) -> u64 {
        self.min_blocks_per_commitment
    }

    /// The configured attempt ceiling.
    pub closed spec fn spec_max_attempts(&self) -> u64 {
        self.max_attempts
    }

    /// The configured backoff base delay.
    pub closed spec fn spec_backoff_base(&self) -> u64 {
        self.backoff_base
    }

    /// Everything the controller's ticks leave untouched: the configuration.
    pub open spec fn same_config(&self, other: &CommitmentController) -> bool {
        &&& self.spec_min_blocks() == other.spec_min_blocks()
        &&& self.spec_max_attempts() == other.spec_max_attempts()
        &&& self.spec_backoff_base() == other.spec_backoff_base()
    }

    /// A fresh controller: nothing committed, nothing pending.
    pub fn new(min_blocks_per_commitment: u64, max_attempts: u64, backoff_base: u64) -> (r:
        CommitmentController)
        ensures
            r.wf(),
            r.spec_cursor() == 0,
            r.spec_committed() == Seq::<Commitment>::empty(),
            r.spec_pending() is None,
            r.spec_min_blocks() == min_blocks_per_commitment,
            r.spec_max_attempts() == max_attempts,
            r.spec_backoff_base() == backoff_base,
    {
        let r = CommitmentController {
            cursor: 0,
            committed: Vec::new(),
            pending: None,
            min_blocks_per_commitment,
            max_attempts,
            backoff_base,
        };
        proof {
            assert(r.committed@ =~= Seq::<Commitment>::empty());
        }
        r
    }

    /// Rebuilds a controller from durable state after a restart. Whether a
    /// broadcast was in flight when the process died is unknown, so nothing
    /// is pending: the next tick re-submits the next uncommitted range under
    /// its deterministic identifier, which the data-availability layer
    /// deduplicates.
    pub fn recover(
        cursor: u64,
        committed: Vec<Commitment>,
        min_blocks_per_commitment: u64,
        max_attempts: u64,
        backoff_base: u64,
    ) -> (r: CommitmentController)
        requires
            ranges_chain(committed@, cursor),
        ensures
            r.wf(),
            r.spec_cursor() == cursor,
            r.spec_committed() == committed@,
            r.spec_pending() is None,
            r.spec_min_blocks() == min_blocks_per_commitment,
            r.spec_max_attempts() == max_attempts,
            r.spec_backoff_base() == backoff_base,
    {
        CommitmentController {
            cursor,
            committed,
            pending: None,
            min_blocks_per_commitment,
            max_attempts,
            backoff_base,
        }
    }

    /// Last fully committed height.
    pub fn cursor(&self) -> (r: u64)
        ensures
            r == self.spec_cursor(),
    {
        self.cursor
    }

    /// The confirmed commitments, in height order.
    pub fn committed_ranges(&self) -> (r: &Vec<Commitment>)
        ensures
            r@ == self.spec_committed(),
    {
        &self.committed
    }

    /// The submission in flight, if any.
    pub fn pending_submission(&self) -> (r: Option<PendingSubmission>)
        ensures
            r == self.spec_pending(),
    {
        self.pending
    }

    /// One cadence tick, given the chain head and whether the max-wait timer
    /// has elapsed. While a submission is in flight the controller only asks
    /// for a status check — a duplicate tick can never submit a second,
    /// distinct blob for the same range. Otherwise, once the uncommitted
    /// tail `[cursor+1, head]` is long enough (or the timer forces it), it
    /// asks for exactly that range under its deterministic identifier and
    /// records it as pending. The cursor and the committed ranges never move
    /// on a tick.
    pub fn tick(&mut self, head: u64, max_wait_elapsed: bool) -> (a: DaAction)
        requires
            old(self).wf(),
            head >= old(self).spec_cursor(),
        ensures
            final(self).wf(),
            final(self).spec_cursor() == old(self).spec_cursor(),
            final(self).spec_committed() == old(self).spec_committed(),
            old(self).same_config(final(self)),
            old(self).spec_pending() matches Some(p) ==> a == (DaAction::CheckStatus {
                blob_id: BlobId { start: p.start, end: p.end },
            }) && final(self).spec_pending() == old(self).spec_pending(),
            old(self).spec_pending() is None && head > old(self).spec_cursor() && (head - old(
                self,
            ).spec_cursor() >= old(self).spec_min_blocks() || max_wait_elapsed) ==> {
                let start = (old(self).spec_cursor() + 1) as u64;
                &&& a == (DaAction::Submit {
                    start,
                    end: head,
                    blob_id: BlobId { start, end: head },
                })
                &&& final(self).spec_pending() == Some(
                    PendingSubmission { start, end: head, attempts: 0 },
                )
            },
            old(self).spec_pending() is None && !(head > old(self).spec_cursor() && (head - old(
                self,
            ).spec_cursor() >= old(self).spec_min_blocks() || max_wait_elapsed)) ==> a
                == DaAction::Wait && final(self).spec_pending() is None,
    {
        match self.pending {
            Some(p) => DaAction::CheckStatus { blob_id: BlobId { start: p.start, end: p.end } },
            None => {
                if head > self.cursor && (head - self.cursor >= self.min_blocks_per_commitment
                    || max_wait_elapsed) {
                    let start = self.cursor + 1;
                    self.pending = Some(PendingSubmission { start, end: head, attempts: 0 });
                    DaAction::Submit { start, end: head, blob_id: BlobId { start, end: head } }
                } else {
                    DaAction::Wait
                }
            },
        }
    }

    /// Records that the data-availability layer confirmed inclusion of the
    /// blob `blob` under `da_ref`. Exactly the in-flight blob is accepted:
    /// its range becomes a commitment in a single state change and the
    /// cursor advances to its end. Any other report — in particular a
    /// duplicate confirmation of a range already committed — is a no-op, so
    /// an idempotent resubmission can never produce a second commitment.
    pub fn record_inclusion(&mut self, blob: BlobId, da_ref: u64) -> (accepted: bool)
        requires
            old(self).wf(),
        ensures
            final(self).wf(),
            old(self).same_config(final(self)),
            accepted <==> (old(self).spec_pending() matches Some(p) && blob == (BlobId {
                start: p.start,
                end: p.end,
            })),
            accepted ==> {
                &&& final(self).spec_cursor() == blob.end
                &&& final(self).spec_committed() == old(self).spec_committed().push(
                    Commitment { start: blob.start, end: blob.end, da_ref },
                )
                &&& final(self).spec_pending() is None
            },
            !accepted ==> *final(self) == *old(self),
    {
        match self.pending {
            Some(p) => {
                if blob.start == p.start && blob.end == p.end {
                    let ghost cs0 = self.committed@;
                    self.committed.push(Commitment { start: p.start, end: p.end, da_ref });
                    self.cursor = p.end;
                    self.pending = None;
                    proof {
                        let cs = self.committed@;
                        assert(forall|i: int|
                            0 <= i < cs0.len() ==> cs[i] == cs0[i]);
                        assert(ranges_chain(cs, self.cursor));
                    }
                    true
                } else {
                    false
                }
            },
            None => false,
        }
    }

    /// Records a transient submission failure: the attempt counter grows,
    /// and the result says whether to retry after the exponential-backoff
    /// delay or, once the ceiling is exceeded, to raise a fatal alert. The
    /// cursor never advances here and the range stays pending either way.
    pub fn on_transient_failure(&mut self) -> (d: RetryDecision)
        requires
            old(self).wf(),
            old(self).spec_pending() is Some,
        ensures
            final(self).wf(),
            old(self).same_config(final(self)),
            final(self).spec_cursor() == old(self).spec_cursor(),
            final(self).spec_committed() == old(self).spec_committed(),
            ({
                let p = old(self).spec_pending()->Some_0;
                let grown = if p.attempts < u64::MAX {
                    (p.attempts + 1) as u64
                } else {
                    u64::MAX
                };
                &&& final(self).spec_pending() == Some(
                    PendingSubmission { start: p.start, end: p.end, attempts: grown },
                )
                &&& (grown > old(self).spec_max_attempts() ==> d == RetryDecision::Fatal)
                &&& (grown <= old(self).spec_max_attempts() ==> d == (RetryDecision::Retry {
                    delay: spec_backoff(old(self).spec_backoff_base(), grown),
                }))
            }),
    {
        let p = match self.pending {
            Some(p) => p,
            None => {
                proof {
                    assert(false);
                }
                return RetryDecision::Fatal;
            },
        };
        let grown: u64 = if p.attempts < u64::MAX {
            p.attempts + 1
        } else {
            u64::MAX
        };
        self.pending = Some(PendingSubmission { start: p.start, end: p.end, attempts: grown });
        if grown > self.max_attempts {
            RetryDecision::Fatal
        } else {
            RetryDecision::Retry { delay: backoff_delay(self.backoff_base, grown) }
        }
    }
}

} // verus!
