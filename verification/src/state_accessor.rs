//! The state accessor: the read path into persisted rollup state — account
//! balances and next expected nonces — that the mempool consults for
//! admission checks and batch eligibility. An account that was never written
//! has balance zero and next nonce zero.

use vstd::prelude::*;
use crate::kvlist::KvList;

verus! {

/// Balances and next expected nonces of the rollup accounts.
pub struct StateAccessor {
    balances: KvList,
    nonces: KvList,
}

impl StateAccessor {
    /// Both account books have one row per address.
    pub closed spec fn wf(&self) -> bool {
        self.balances.wf() && self.nonces.wf()
    }

    /// The balance of `a`; zero for an unknown account.
    pub closed spec fn spec_balance_of(&self, a: u64) -> u64 {
        match self.balances.spec_get(a) {
            Some(v) => v,
            None => 0,
        }
    }

    /// The next expected nonce of `a`; zero for a fresh account.
    pub closed spec fn spec_nonce_of(&self, a: u64) -> u64 {
        match self.nonces.spec_get(a) {
            Some(v) => v,
            None => 0,
        }
    }

    /// An empty state: every account is fresh.
    pub fn new() -> (r: StateAccessor)
        ensures
            r.wf(),
            forall|a: u64| r.spec_balance_of(a) == 0,
            forall|a: u64| r.spec_nonce_of(a) == 0,
    {
        StateAccessor { balances: KvList::new(), nonces: KvList::new() }
    }

    /// Writes the persisted balance and next nonce of `a`.
    pub fn set_account(&mut self, a: u64, balance: u64, nonce: u64)
        requires
            old(self).wf(),
        ensures
            final(self).wf(),
            final(self).spec_balance_of(a) == balance,
            final(self).spec_nonce_of(a) == nonce,
            forall|a2: u64|
                a2 != a ==> final(self).spec_balance_of(a2) == old(self).spec_balance_of(a2)
                    && final(self).spec_nonce_of(a2) == old(self).spec_nonce_of(a2),
    {
        self.balances.set(a, balance);
        self.nonces.set(a, nonce);
    }

    /// Reads the balance of `a`.
    pub fn balance_of(&self, a: u64) -> (r: u64)
        requires
            self.wf(),
        ensures
            r == self.spec_balance_of(a),
    {
        match self.balances.get(a) {
            Some(v) => v,
            None => 0,
        }
    }

    /// Reads the next expected nonce of `a`.
    pub fn nonce_of(&self, a: u64) -> (r: u64)
        requires
            self.wf(),
        ensures
            r == self.spec_nonce_of(a),
    {
        match self.nonces.get(a) {
            Some(v) => v,
            None => 0,
        }
    }
}

} // verus!
