//! The mempool: admits, validates and orders candidate transactions. It is a
//! pure in-memory structure with no durability. Admission enforces the
//! nonce, signature, funds and replacement rules; batch selection merges the
//! senders' nonce-ordered chains by descending fee with admission order as
//! the tie-break, taking only each chain's front so per-account ordering is
//! never violated.

use vstd::prelude::*;
use crate::state_accessor::StateAccessor;

verus! {

/// A candidate transaction. The payload itself stays outside the core; the
/// mempool reads its size, which is what admission and batch limits are
/// charged against.
#[derive(Clone, Copy, PartialEq, Eq, Structural, Debug)]
pub struct Transaction {
    /// The sending rollup address.
    pub sender: u64,
    /// The sender's transaction counter.
    pub nonce: u64,
    /// Offered fee per resource unit.
    pub fee: u64,
    /// Payload size in resource units.
    pub size: u64,
}

/// A mempool entry: a transaction with its admission stamp. Entries admitted
/// later carry larger stamps, which breaks fee ties first-in-first-out.
#[derive(Clone, Copy, PartialEq, Eq, Structural, Debug)]
pub struct MempoolEntry {
    /// The admitted transaction.
    pub tx: Transaction,
    /// The admission stamp: the mempool's logical clock at admission.
    pub seq_no: u64,
}

/// Why a submission was refused.
#[derive(Clone, Copy, PartialEq, Eq, Structural, Debug)]
pub enum AdmissionError {
    /// The nonce is below the sender's next expected nonce.
    NonceTooLow,
    /// The signature did not verify.
    BadSignature,
    /// The sender's balance cannot cover the worst-case cost.
    InsufficientFunds,
    /// An entry with the same (sender, nonce) exists at an equal or higher
    /// fee; only a strictly higher fee replaces it.
    Underpriced,
}

/// The worst-case cost of a transaction: its fee per unit times its size.
pub open spec fn spec_cost(tx: Transaction) -> int {
    tx.fee * tx.size
}

/// The first entry of `s` holding the pair (`sender`, `nonce`), if any.
pub open spec fn find_pair(s: Seq<MempoolEntry>, sender: u64, nonce: u64) -> Option<MempoolEntry>
    decreases s.len(),
{
    if s.len() == 0 {
        None
    } else if s[0].tx.sender == sender && s[0].tx.nonce == nonce {
        Some(s[0])
    } else {
        find_pair(s.drop_first(), sender, nonce)
    }
}

/// No two entries of `s` share a (sender, nonce) pair.
pub open spec fn pairs_unique(s: Seq<MempoolEntry>) -> bool {
    forall|i: int, j: int|
        0 <= i < j < s.len() ==> !(#[trigger] s[i].tx.sender == #[trigger] s[j].tx.sender
            && s[i].tx.nonce == s[j].tx.nonce)
}

proof fn lemma_pair_at(s: Seq<MempoolEntry>, sender: u64, nonce: u64, i: int)
    requires
        0 <= i < s.len(),
        s[i].tx.sender == sender && s[i].tx.nonce == nonce,
        forall|j: int| 0 <= j < i ==> !(s[j].tx.sender == sender && s[j].tx.nonce == nonce),
    ensures
        find_pair(s, sender, nonce) == Some(s[i]),
    decreases i,
{
    if i > 0 {
        lemma_pair_at(s.drop_first(), sender, nonce, i - 1);
    }
}

proof fn lemma_pair_none(s: Seq<MempoolEntry>, sender: u64, nonce: u64)
    requires
        forall|j: int| 0 <= j < s.len() ==> !(s[j].tx.sender == sender && s[j].tx.nonce == nonce),
    ensures
        find_pair(s, sender, nonce) == None::<MempoolEntry>,
    decreases s.len(),
{
    if s.len() > 0 {
        lemma_pair_none(s.drop_first(), sender, nonce);
    }
}

proof fn lemma_pair_push_other(s: Seq<MempoolEntry>, e: MempoolEntry, sender: u64, nonce: u64)
    requires
        !(e.tx.sender == sender && e.tx.nonce == nonce),
    ensures
        find_pair(s.push(e), sender, nonce) == find_pair(s, sender, nonce),
    decreases s.len(),
{
    if s.len() == 0 {
        assert(s.push(e).drop_first() =~= Seq::<MempoolEntry>::empty());
    } else {
        assert(s.push(e).drop_first() =~= s.drop_first().push(e));
        lemma_pair_push_other(s.drop_first(), e, sender, nonce);
    }
}

proof fn lemma_pair_remove_other(s: Seq<MempoolEntry>, i: int, sender: u64, nonce: u64)
    requires
        0 <= i < s.len(),
        !(s[i].tx.sender == sender && s[i].tx.nonce == nonce),
    ensures
        find_pair(s.remove(i), sender, nonce) == find_pair(s, sender, nonce),
    decreases i,
{
    if i == 0 {
        assert(s.remove(0) =~= s.drop_first());
    } else {
        assert(s.remove(i).drop_first() =~= s.drop_first().remove(i - 1));
        lemma_pair_remove_other(s.drop_first(), i - 1, sender, nonce);
    }
}

/// The pending transactions, with the logical clock that stamps admissions.
pub struct Mempool {
    entries: Vec<MempoolEntry>,
    clock: u64,
}

impl Mempool {
    /// Entries never share a (sender, nonce) pair, and every admission stamp
    /// is below the clock, so the next admission gets a fresh stamp.
    pub closed spec fn wf(&self) -> bool {
        &&& pairs_unique(self.entries@)
        &&& forall|i: int| 0 <= i < self.entries@.len() ==> #[trigger] self.entries@[i].seq_no
            < self.clock
    }

    /// The entries, in admission order of their current versions.
    pub closed spec fn spec_entries(&self) -> Seq<MempoolEntry> {
        self.entries@
    }

    /// The logical clock: grows by one on each successful admission.
    pub closed spec fn spec_clock(&self) -> u64 {
        self.clock
    }

    /// An empty mempool.
    pub fn new() -> (r: Mempool)
        ensures
            r.wf(),
            r.spec_entries() == Seq::<MempoolEntry>::empty(),
            r.spec_clock() == 0,
    {
        let r = Mempool { entries: Vec::new(), clock: 0 };
        proof {
            assert(r.entries@ =~= Seq::<MempoolEntry>::empty());
        }
        r
    }

    /// How many entries are pending.
    pub fn len(&self) -> (r: usize)
        ensures
            r == self.spec_entries().len(),
    {
        self.entries.len()
    }

    /// Whether an entry with this (sender, nonce) pair is pending.
    #[verifier::loop_isolation(false)]
    pub fn contains(&self, sender: u64, nonce: u64) -> (r: bool)
        ensures
            r == (find_pair(self.spec_entries(), sender, nonce) is Some),
    {
        let n: usize = self.entries.len();
        let mut i: usize = 0;
        while i < n
            invariant
                n == self.entries.len(),
                0 <= i <= n,
                forall|j: int|
                    0 <= j < i ==> !(self.entries@[j].tx.sender == sender
                        && #[trigger] self.entries@[j].tx.nonce == nonce),
            decreases n - i,
        {
            if self.entries[i].tx.sender == sender && self.entries[i].tx.nonce == nonce {
                proof {
                    lemma_pair_at(self.entries@, sender, nonce, i as int);
                }
                return true;
            }
            i = i + 1;
        }
        proof {
            lemma_pair_none(self.entries@, sender, nonce);
        }
        false
    }

    /// Admits `tx`, whose signature verdict the transport hands in as
    /// `sig_valid`. The checks run in order — nonce, signature, funds,
    /// replacement — and each error comes exactly when its check is the
    /// first to fail. On success the entry is pending under a fresh
    /// admission stamp, replacing a lower-fee entry with the same
    /// (sender, nonce) if there was one; no other entry changes.
    #[verifier::loop_isolation(false)]
    pub fn submit(&mut self, tx: Transaction, state: &StateAccessor, sig_valid: bool) -> (r:
        Result<(), AdmissionError>)
        requires
            old(self).wf(),
            state.wf(),
            old(self).spec_clock() < u64::MAX,
        ensures
            final(self).wf(),
            r == Err::<(), AdmissionError>(AdmissionError::NonceTooLow) <==> tx.nonce
                < state.spec_nonce_of(tx.sender),
            r == Err::<(), AdmissionError>(AdmissionError::BadSignature) <==> tx.nonce
                >= state.spec_nonce_of(tx.sender) && !sig_valid,
            r == Err::<(), AdmissionError>(AdmissionError::InsufficientFunds) <==> tx.nonce
                >= state.spec_nonce_of(tx.sender) && sig_valid && spec_cost(tx)
                > state.spec_balance_of(tx.sender),
            r == Err::<(), AdmissionError>(AdmissionError::Underpriced) <==> tx.nonce
                >= state.spec_nonce_of(tx.sender) && sig_valid && spec_cost(tx)
                <= state.spec_balance_of(tx.sender) && (find_pair(
                old(self).spec_entries(),
                tx.sender,
                tx.nonce,
            ) matches Some(e) && e.tx.fee >= tx.fee),
            r is Ok <==> tx.nonce >= state.spec_nonce_of(tx.sender) && sig_valid && spec_cost(tx)
                <= state.spec_balance_of(tx.sender) && (find_pair(
                old(self).spec_entries(),
                tx.sender,
                tx.nonce,
            ) matches Some(e) ==> e.tx.fee < tx.fee),
            r is Ok ==> {
                &&& find_pair(final(self).spec_entries(), tx.sender, tx.nonce) == Some(
                    MempoolEntry { tx, seq_no: old(self).spec_clock() },
                )
                &&& forall|s2: u64, n2: u64|
                    !(s2 == tx.sender && n2 == tx.nonce) ==> find_pair(
                        final(self).spec_entries(),
                        s2,
                        n2,
                    ) == find_pair(old(self).spec_entries(), s2, n2)
                &&& final(self).spec_clock() == old(self).spec_clock() + 1
            },
            r is Err ==> *final(self) == *old(self),
    {
        if tx.nonce < state.nonce_of(tx.sender) {
            return Err(AdmissionError::NonceTooLow);
        }
        if !sig_valid {
            return Err(AdmissionError::BadSignature);
        }
        proof {
            assert((tx.fee as int) * (tx.size as int) <= (u64::MAX as int) * (u64::MAX as int))
                by (nonlinear_arith)
                requires
                    tx.fee <= u64::MAX,
                    tx.size <= u64::MAX,
            ;
        }
        let cost: u128 = (tx.fee as u128) * (tx.size as u128);
        if cost > state.balance_of(tx.sender) as u128 {
            return Err(AdmissionError::InsufficientFunds);
        }
        let n: usize = self.entries.len();
        let mut i: usize = 0;
        while i < n
            invariant
                n == self.entries.len(),
                0 <= i <= n,
                *self == *old(self),
                forall|j: int|
                    0 <= j < i ==> !(self.entries@[j].tx.sender == tx.sender
                        && #[trigger] self.entries@[j].tx.nonce == tx.nonce),
            decreases n - i,
        {
            if self.entries[i].tx.sender == tx.sender && self.entries[i].tx.nonce == tx.nonce {
                proof {
                    lemma_pair_at(self.entries@, tx.sender, tx.nonce, i as int);
                }
                if self.entries[i].tx.fee >= tx.fee {
                    return Err(AdmissionError::Underpriced);
                }
                let ghost s0 = self.entries@;
                self.entries.remove(i);
                proof {
                    assert(self.entries@ =~= s0.remove(i as int));
                    lemma_seq_remove_keeps_unique(s0, i as int);
                    assert forall|j: int|
                        0 <= j < self.entries@.len() implies !(self.entries@[j].tx.sender
                        == tx.sender && self.entries@[j].tx.nonce == tx.nonce)
                        && self.entries@[j].seq_no < self.clock by {
                        let j0 = if j < i as int {
                            j
                        } else {
                            j + 1
                        };
                        assert(self.entries@[j] == s0[j0]);
                    }
                }
                let ghost s1 = self.entries@;
                self.entries.push(MempoolEntry { tx, seq_no: self.clock });
                self.clock = self.clock + 1;
                proof {
                    lemma_pair_at(self.entries@, tx.sender, tx.nonce, s1.len() as int);
                    assert forall|s2: u64, n2: u64| !(s2 == tx.sender && n2 == tx.nonce) implies
                        find_pair(self.entries@, s2, n2) == find_pair(s0, s2, n2) by {
                        lemma_pair_push_other(s1, MempoolEntry { tx, seq_no: old(self).clock },
                            s2, n2);
                        lemma_pair_remove_other(s0, i as int, s2, n2);
                    }
                }
                return Ok(());
            }
            i = i + 1;
        }
        proof {
            lemma_pair_none(self.entries@, tx.sender, tx.nonce);
        }
        let ghost s1 = self.entries@;
        self.entries.push(MempoolEntry { tx, seq_no: self.clock });
        self.clock = self.clock + 1;
        proof {
            lemma_pair_at(self.entries@, tx.sender, tx.nonce, s1.len() as int);
            assert forall|s2: u64, n2: u64| !(s2 == tx.sender && n2 == tx.nonce) implies find_pair(
                self.entries@,
                s2,
                n2,
            ) == find_pair(s1, s2, n2) by {
                lemma_pair_push_other(s1, MempoolEntry { tx, seq_no: old(self).clock }, s2, n2);
            }
        }
        Ok(())
    }

    /// Drops the entry with this (sender, nonce) pair, if it is pending.
    /// Called on confirmed application or on rejection by the
    /// state-transition function — never on mere batch selection, so a
    /// restart leaves unapplied transactions re-collectible. Every other
    /// entry stays.
    #[verifier::loop_isolation(false)]
    pub fn evict_applied(&mut self, sender: u64, nonce: u64)
        requires
            old(self).wf(),
        ensures
            final(self).wf(),
            final(self).spec_clock() == old(self).spec_clock(),
            find_pair(final(self).spec_entries(), sender, nonce) is None,
            forall|s2: u64, n2: u64|
                !(s2 == sender && n2 == nonce) ==> find_pair(final(self).spec_entries(), s2, n2)
                    == find_pair(old(self).spec_entries(), s2, n2),
    {
        let n: usize = self.entries.len();
        let mut i: usize = 0;
        while i < n
            invariant
                n == self.entries.len(),
                0 <= i <= n,
                *self == *old(self),
                forall|j: int|
                    0 <= j < i ==> !(self.entries@[j].tx.sender == sender
                        && #[trigger] self.entries@[j].tx.nonce == nonce),
            decreases n - i,
        {
            if self.entries[i].tx.sender == sender && self.entries[i].tx.nonce == nonce {
                let ghost s0 = self.entries@;
                self.entries.remove(i);
                proof {
                    assert(self.entries@ =~= s0.remove(i as int));
                    lemma_seq_remove_keeps_unique(s0, i as int);
                    assert forall|j: int|
                        0 <= j < self.entries@.len() implies !(self.entries@[j].tx.sender == sender
                        && self.entries@[j].tx.nonce == nonce)
                        && self.entries@[j].seq_no < self.clock by {
                        let j0 = if j < i as int {
                            j
                        } else {
                            j + 1
                        };
                        assert(self.entries@[j] == s0[j0]);
                    }
                    lemma_pair_none(self.entries@, sender, nonce);
                    assert forall|s2: u64, n2: u64| !(s2 == sender && n2 == nonce) implies
                        find_pair(self.entries@, s2, n2) == find_pair(s0, s2, n2) by {
                        lemma_pair_remove_other(s0, i as int, s2, n2);
                    }
                }
                return ;
            }
            i = i + 1;
        }
        proof {
            lemma_pair_none(self.entries@, sender, nonce);
        }
    }

    /// Selects the next batch, bounded by an item count and a byte budget.
    /// Step by step it takes a highest-fee eligible front-of-chain entry
    /// that still fits the budget, admission order breaking fee ties, until
    /// the item limit is reached or nothing eligible fits. Selection does
    /// not remove entries: only confirmed application or rejection evicts.
    #[verifier::loop_isolation(false)]
    pub fn next_batch(&self, state: &StateAccessor, max_items: usize, max_bytes: u64) -> (batch:
        Vec<Transaction>)
        requires
            self.wf(),
            state.wf(),
        ensures
            is_valid_batch(
                self.spec_entries(),
                *state,
                batch@,
                max_items as int,
                max_bytes as int,
            ),
    {
        let ghost pool = self.entries@;
        let mut batch: Vec<Transaction> = Vec::new();
        let mut used: u64 = 0;
        proof {
            assert(batch@ =~= Seq::<Transaction>::empty());
        }
        let mut done: bool = false;
        while !done && batch.len() < max_items
            invariant
                used as int == sum_sizes(batch@),
                used <= max_bytes,
                batch@.len() <= max_items,
                forall|i: int|
                    0 <= i < batch@.len() ==> (#[trigger] find_pair(
                        pool,
                        batch@[i].sender,
                        batch@[i].nonce,
                    ) matches Some(e) && e.tx == batch@[i] && eligible_at(
                        pool,
                        *state,
                        batch@.take(i),
                        e,
                    )),
                forall|i: int, e: MempoolEntry|
                    0 <= i < batch@.len() && #[trigger] eligible_at(
                        pool,
                        *state,
                        batch@.take(i),
                        e,
                    ) && sum_sizes(batch@.take(i)) + e.tx.size <= max_bytes ==> ranks_at_least(
                        find_pair(pool, batch@[i].sender, batch@[i].nonce)->Some_0,
                        e,
                    ),
                done ==> (forall|e: MempoolEntry|
                    #[trigger] eligible_at(pool, *state, batch@, e) ==> sum_sizes(batch@)
                        + e.tx.size > max_bytes),
            decreases max_items - batch.len(), (if done { 0int } else { 1int }),
        {
            let n: usize = self.entries.len();
            let mut j: usize = 0;
            let mut found: bool = false;
            let mut best: usize = 0;
            while j < n
                invariant
                    0 <= j <= n,
                    found ==> best < n,
                    found ==> eligible_at(pool, *state, batch@, pool[best as int])
                        && pool[best as int].tx.size <= max_bytes - used,
                    forall|k: int|
                        0 <= k < j && eligible_at(pool, *state, batch@, #[trigger] pool[k])
                            && pool[k].tx.size <= max_bytes - used ==> found && ranks_at_least(
                            pool[best as int],
                            pool[k],
                        ),
                decreases n - j,
            {
                let e = self.entries[j];
                proof {
                    assert(pool[j as int] == e);
                    assert(pool.contains(e));
                }
                if e.tx.size <= max_bytes - used && is_front(e, state, &batch) {
                    if !found {
                        found = true;
                        best = j;
                    } else {
                        let b = self.entries[best];
                        if e.tx.fee > b.tx.fee || (e.tx.fee == b.tx.fee && e.seq_no < b.seq_no) {
                            best = j;
                        }
                    }
                }
                j = j + 1;
            }
            if !found {
                proof {
                    assert forall|e: MempoolEntry|
                        #[trigger] eligible_at(pool, *state, batch@, e) implies sum_sizes(batch@)
                        + e.tx.size > max_bytes by {
                        let k = choose|k: int| 0 <= k < pool.len() && pool[k] == e;
                    }
                }
                done = true;
            } else {
            let chosen = self.entries[best];
            proof {
                assert(chosen == pool[best as int]);
                lemma_pair_at(pool, chosen.tx.sender, chosen.tx.nonce, best as int);
            }
            let ghost b0 = batch@;
            batch.push(chosen.tx);
            used = used + chosen.tx.size;
            proof {
                assert(batch@.drop_last() =~= b0);
                assert(batch@.last() == chosen.tx);
                assert forall|i: int| 0 <= i <= b0.len() implies batch@.take(i) == b0.take(i) by {
                    assert(batch@.take(i) =~= b0.take(i));
                }
                assert(b0.take(b0.len() as int) =~= b0);
                assert(eligible_at(pool, *state, b0, chosen));
                assert forall|e: MempoolEntry|
                    eligible_at(pool, *state, b0, e) && sum_sizes(b0) + e.tx.size
                        <= max_bytes implies ranks_at_least(chosen, e) by {
                    let k = choose|k: int| 0 <= k < pool.len() && pool[k] == e;
                }
            }
            }
        }
        batch
    }
}

/// How many transactions of `batch` were sent by `sender`.
pub open spec fn count_sender(batch: Seq<Transaction>, sender: u64) -> int
    decreases batch.len(),
{
    if batch.len() == 0 {
        0
    } else {
        count_sender(batch.drop_last(), sender) + if batch.last().sender == sender {
            1int
        } else {
            0int
        }
    }
}

/// The nonce the next transaction of `sender` must carry once `batch` is
/// applied: the persisted next nonce plus what the batch already consumes.
pub open spec fn expected_nonce(st: StateAccessor, batch: Seq<Transaction>, sender: u64) -> int {
    st.spec_nonce_of(sender) + count_sender(batch, sender)
}

/// The total size of `batch`.
pub open spec fn sum_sizes(batch: Seq<Transaction>) -> int
    decreases batch.len(),
{
    if batch.len() == 0 {
        0
    } else {
        sum_sizes(batch.drop_last()) + batch.last().size
    }
}

/// `e` may be selected right after `batch`: it is pending and is the front
/// of its sender's nonce chain, every lower nonce being already consumed.
pub open spec fn eligible_at(
    pool: Seq<MempoolEntry>,
    st: StateAccessor,
    batch: Seq<Transaction>,
    e: MempoolEntry,
) -> bool {
    pool.contains(e) && e.tx.nonce == expected_nonce(st, batch, e.tx.sender)
}

/// `a` outranks `b` or ties with it: a higher fee, or the same fee and an
/// admission stamp that is no later.
pub open spec fn ranks_at_least(a: MempoolEntry, b: MempoolEntry) -> bool {
    a.tx.fee > b.tx.fee || (a.tx.fee == b.tx.fee && a.seq_no <= b.seq_no)
}

/// What batch selection promises of its result: it respects both limits;
/// each element is a pending entry that was the front of its sender's chain
/// at its step; each step took a highest-ranked eligible entry among those
/// that still fit the byte budget; and selection only stops short of the
/// item limit when no eligible entry fits what is left of the budget.
pub open spec fn is_valid_batch(
    pool: Seq<MempoolEntry>,
    st: StateAccessor,
    batch: Seq<Transaction>,
    max_items: int,
    max_bytes: int,
) -> bool {
    &&& batch.len() <= max_items
    &&& sum_sizes(batch) <= max_bytes
    &&& forall|i: int|
        0 <= i < batch.len() ==> (#[trigger] find_pair(pool, batch[i].sender, batch[i].nonce)
            matches Some(e) && e.tx == batch[i] && eligible_at(pool, st, batch.take(i), e))
    &&& forall|i: int, e: MempoolEntry|
        0 <= i < batch.len() && #[trigger] eligible_at(pool, st, batch.take(i), e) && sum_sizes(
            batch.take(i),
        ) + e.tx.size <= max_bytes ==> ranks_at_least(
            find_pair(pool, batch[i].sender, batch[i].nonce)->Some_0,
            e,
        )
    &&& (batch.len() < max_items ==> forall|e: MempoolEntry|
        #[trigger] eligible_at(pool, st, batch, e) ==> sum_sizes(batch) + e.tx.size > max_bytes)
}

#[verifier::loop_isolation(false)]
fn count_sender_exec(batch: &Vec<Transaction>, sender: u64) -> (c: u64)
    ensures
        c == count_sender(batch@, sender),
{
    let mut c: u64 = 0;
    let mut i: usize = 0;
    while i < batch.len()
        invariant
            0 <= i <= batch@.len(),
            c <= i,
            c == count_sender(batch@.take(i as int), sender),
        decreases batch@.len() - i,
    {
        proof {
            assert(batch@.take(i as int + 1).drop_last() =~= batch@.take(i as int));
        }
        if batch[i].sender == sender {
            c = c + 1;
        }
        i = i + 1;
    }
    proof {
        assert(batch@.take(batch@.len() as int) =~= batch@);
    }
    c
}

/// Whether `e` is the front of its sender's chain right after `batch`.
fn is_front(e: MempoolEntry, st: &StateAccessor, batch: &Vec<Transaction>) -> (r: bool)
    requires
        st.wf(),
    ensures
        r == (e.tx.nonce == expected_nonce(*st, batch@, e.tx.sender)),
{
    let base = st.nonce_of(e.tx.sender);
    let c = count_sender_exec(batch, e.tx.sender);
    if e.tx.nonce < base {
        proof {
            lemma_count_nonneg(batch@, e.tx.sender);
        }
        false
    } else {
        e.tx.nonce - base == c
    }
}

proof fn lemma_count_nonneg(batch: Seq<Transaction>, sender: u64)
    ensures
        count_sender(batch, sender) >= 0,
    decreases batch.len(),
{
    if batch.len() > 0 {
        lemma_count_nonneg(batch.drop_last(), sender);
    }
}

proof fn lemma_count_prefix_grows(b: Seq<Transaction>, s: u64, i: int, j: int)
    requires
        0 <= i < j <= b.len(),
        b[i].sender == s,
    ensures
        count_sender(b.take(j), s) >= count_sender(b.take(i), s) + 1,
    decreases j - i,
{
    if j == i + 1 {
        assert(b.take(j).drop_last() =~= b.take(i));
        assert(b.take(j).last() == b[i]);
    } else {
        lemma_count_prefix_grows(b, s, i, j - 1);
        assert(b.take(j).drop_last() =~= b.take(j - 1));
    }
}

/// Law: a batch never yields two entries with the same (sender, nonce) pair
/// — for the same sender, each selected transaction consumes one nonce, so a
/// later element of the batch must carry a strictly larger nonce.
pub proof fn lemma_batch_pairs_distinct(
    pool: Seq<MempoolEntry>,
    st: StateAccessor,
    batch: Seq<Transaction>,
    max_items: int,
    max_bytes: int,
)
    requires
        is_valid_batch(pool, st, batch, max_items, max_bytes),
    ensures
        forall|i: int, j: int|
            0 <= i < j < batch.len() && #[trigger] batch[i].sender == #[trigger] batch[j].sender
                ==> batch[i].nonce != batch[j].nonce,
{
    assert forall|i: int, j: int|
        0 <= i < j < batch.len() && #[trigger] batch[i].sender == #[trigger] batch[j].sender
        implies batch[i].nonce != batch[j].nonce by {
        let s = batch[i].sender;
        let ei = find_pair(pool, batch[i].sender, batch[i].nonce);
        let ej = find_pair(pool, batch[j].sender, batch[j].nonce);
        lemma_count_prefix_grows(batch, s, i, j);
    }
}

/// Law: a transaction whose (sender, nonce) pair is not pending — because it
/// was evicted on application or rejection and not resubmitted — cannot
/// appear in any batch selected afterwards.
pub proof fn lemma_evicted_not_in_batch(
    pool: Seq<MempoolEntry>,
    st: StateAccessor,
    batch: Seq<Transaction>,
    max_items: int,
    max_bytes: int,
    sender: u64,
    nonce: u64,
)
    requires
        is_valid_batch(pool, st, batch, max_items, max_bytes),
        find_pair(pool, sender, nonce) is None,
    ensures
        forall|i: int|
            0 <= i < batch.len() ==> !(batch[i].sender == sender && #[trigger] batch[i].nonce
                == nonce),
{
    assert forall|i: int|
        0 <= i < batch.len() implies !(batch[i].sender == sender && batch[i].nonce == nonce) by {
        let e = find_pair(pool, batch[i].sender, batch[i].nonce);
    }
}

proof fn lemma_seq_remove_keeps_unique(s: Seq<MempoolEntry>, i: int)
    requires
        0 <= i < s.len(),
        pairs_unique(s),
    ensures
        pairs_unique(s.remove(i)),
{
    let t = s.remove(i);
    assert forall|a: int, b: int|
        0 <= a < b < t.len() implies !(t[a].tx.sender == t[b].tx.sender && t[a].tx.nonce
        == t[b].tx.nonce) by {
        let a0 = if a < i {
            a
        } else {
            a + 1
        };
        let b0 = if b < i {
            b
        } else {
            b + 1
        };
        assert(t[a] == s[a0]);
        assert(t[b] == s[b0]);
    }
}

} // verus!
