//! The bond ledger: balances of the bond token, keyed by rollup address.
//! The sequencer registry locks and returns bonds by moving funds through
//! this ledger; its transfer contract pins the exact balance movement, which
//! is what the bond round-trip law rests on.

use vstd::prelude::*;
use crate::kvlist::KvList;

verus! {

/// An amount of one token, identified by the token's address.
#[derive(Clone, Copy, PartialEq, Eq, Structural, Debug)]
pub struct Coins {
    /// How many units.
    pub amount: u64,
    /// Which token the units are of.
    pub token_id: u64,
}

/// Why a transfer was refused.
#[derive(Clone, Copy, PartialEq, Eq, Structural, Debug)]
pub enum BankError {
    /// The coins name a token this ledger does not track.
    WrongToken,
    /// The payer's balance does not cover the amount.
    InsufficientFunds,
    /// Crediting the payee would overflow its balance.
    BalanceOverflow,
}

/// A ledger of one token's balances. An address that was never credited has
/// balance zero.
pub struct Bank {
    token_id: u64,
    balances: KvList,
}

/// `transfer_from` succeeds on exactly these inputs: the token matches, the
/// payer can cover the amount, and the payee's balance does not overflow.
pub open spec fn spec_can_transfer(b: Bank, from: u64, to: u64, c: Coins) -> bool {
    &&& c.token_id == b.spec_token_id()
    &&& b.spec_balance(from) >= c.amount
    &&& (from == to || b.spec_balance(to) + c.amount <= u64::MAX)
}

/// How a successful transfer relates the ledger before (`b0`) and after
/// (`b1`): the amount moves from `from` to `to` and no other balance changes.
pub open spec fn spec_transferred(b0: Bank, b1: Bank, from: u64, to: u64, amount: u64) -> bool {
    &&& b1.spec_token_id() == b0.spec_token_id()
    &&& if from == to {
        forall|a: u64| b1.spec_balance(a) == b0.spec_balance(a)
    } else {
        &&& b1.spec_balance(from) == b0.spec_balance(from) - amount
        &&& b1.spec_balance(to) == b0.spec_balance(to) + amount
        &&& forall|a: u64| a != from && a != to ==> b1.spec_balance(a) == b0.spec_balance(a)
    }
}

impl Bank {
    /// The balance book has one row per address.
    pub closed spec fn wf(&self) -> bool {
        self.balances.wf()
    }

    /// The token this ledger tracks.
    pub closed spec fn spec_token_id(&self) -> u64 {
        self.token_id
    }

    /// The balance of `a`; zero if `a` was never credited.
    pub closed spec fn spec_balance(&self, a: u64) -> u64 {
        match self.balances.spec_get(a) {
            Some(v) => v,
            None => 0,
        }
    }

    /// An empty ledger for `token_id`: every balance is zero.
    pub fn new(token_id: u64) -> (r: Bank)
        ensures
            r.wf(),
            r.spec_token_id() == token_id,
            forall|a: u64| r.spec_balance(a) == 0,
    {
        Bank { token_id, balances: KvList::new() }
    }

    /// Reads the balance of `a`.
    pub fn balance_of(&self, a: u64) -> (r: u64)
        requires
            self.wf(),
        ensures
            r == self.spec_balance(a),
    {
        match self.balances.get(a) {
            Some(v) => v,
            None => 0,
        }
    }

    /// Sets the balance of `a` outright; the genesis allocation.
    pub fn set_balance(&mut self, a: u64, amount: u64)
        requires
            old(self).wf(),
        ensures
            final(self).wf(),
            final(self).spec_token_id() == old(self).spec_token_id(),
            final(self).spec_balance(a) == amount,
            forall|a2: u64| a2 != a ==> final(self).spec_balance(a2) == old(self).spec_balance(a2),
    {
        self.balances.set(a, amount);
    }

    /// Moves `coins` from `from` to `to`. Succeeds if and only if the token
    /// matches, `from` can cover the amount, and `to`'s balance does not
    /// overflow; on failure no balance changes.
    pub fn transfer_from(&mut self, from: u64, to: u64, coins: Coins) -> (r: Result<
        (),
        BankError,
    >)
        requires
            old(self).wf(),
        ensures
            final(self).wf(),
            final(self).spec_token_id() == old(self).spec_token_id(),
            r is Ok <==> spec_can_transfer(*old(self), from, to, coins),
            r is Ok ==> spec_transferred(*old(self), *final(self), from, to, coins.amount),
            r == Err::<(), BankError>(BankError::WrongToken) <==> coins.token_id != old(
                self,
            ).spec_token_id(),
            r == Err::<(), BankError>(BankError::InsufficientFunds) <==> coins.token_id == old(
                self,
            ).spec_token_id() && old(self).spec_balance(from) < coins.amount,
            r is Err ==> forall|a: u64|
                final(self).spec_balance(a) == old(self).spec_balance(a),
    {
        if coins.token_id != self.token_id {
            return Err(BankError::WrongToken);
        }
        let from_bal = self.balance_of(from);
        if from_bal < coins.amount {
            return Err(BankError::InsufficientFunds);
        }
        if from == to {
            return Ok(());
        }
        let to_bal = self.balance_of(to);
        if to_bal > u64::MAX - coins.amount {
            return Err(BankError::BalanceOverflow);
        }
        self.balances.set(from, from_bal - coins.amount);
        self.balances.set(to, to_bal + coins.amount);
        Ok(())
    }
}

} // verus!
