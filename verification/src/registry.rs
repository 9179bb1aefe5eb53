//! The sequencer registry: the on-chain module that tracks which
//! data-availability addresses may post blobs, locks a bond on registration,
//! returns it on exit, and forfeits it on slashing. It is a pure state
//! machine over the allowed-sequencer map and the bond ledger, so every
//! transition carries an exact contract.

use vstd::prelude::*;
use crate::bank::{Bank, Coins, spec_can_transfer, spec_transferred};
use crate::kvlist::KvList;

verus! {

/// Genesis parameters of the registry: the initial sequencer, its bond, and
/// whether it is the preferred one.
#[derive(Clone, Copy, PartialEq, Eq, Structural, Debug)]
pub struct SequencerConfig {
    /// Rollup address of the initial sequencer; the bond is taken from it.
    pub seq_rollup_address: u64,
    /// Data-availability address of the initial sequencer.
    pub seq_da_address: u64,
    /// The bond every sequencer must lock.
    pub coins_to_lock: Coins,
    /// Whether the initial sequencer's blobs are processed first in a block.
    pub is_preferred_sequencer: bool,
}

/// A call message addressed to the registry.
#[derive(Clone, Copy, PartialEq, Eq, Structural, Debug)]
pub enum CallMessage {
    /// Become an allowed sequencer for `da_address`, locking the bond.
    Register {
        /// The data-availability address to register.
        da_address: u64,
    },
    /// Leave the allowed set and take the bond back.
    Exit {
        /// The data-availability address to unregister.
        da_address: u64,
    },
}

/// A rejected registry call.
#[derive(Clone, Copy, PartialEq, Eq, Structural, Debug)]
pub enum RegistryError {
    /// `Register` named an address that already has a mapping.
    AlreadyRegistered,
    /// `Exit` named an address that has no mapping.
    NotRegistered,
    /// `Exit` came from an account other than the registered owner.
    Unauthorized,
    /// The caller's balance cannot cover the bond (or the bond cannot be
    /// moved: wrong token, or the locker's balance would overflow).
    InsufficientBond,
}

/// Result of applying a blob, from the registry's point of view.
#[derive(Clone, Copy, PartialEq, Eq, Structural, Debug)]
pub enum SequencerOutcome {
    /// The blob was applied successfully and the operation is concluded.
    Completed,
    /// The blob was invalid; the sequencer was slashed.
    Slashed {
        /// The data-availability address of the slashed sequencer.
        sequencer: u64,
    },
}

/// The sequencer registry module.
pub struct SequencerRegistry {
    /// The module's own address: bonds are locked here.
    address: u64,
    /// Allowed sequencers: data-availability address to rollup address.
    allowed_sequencers: KvList,
    /// The optional preferred sequencer, settable only at genesis.
    preferred_sequencer: Option<u64>,
    /// The bond each sequencer locks.
    coins_to_lock: Coins,
}

/// A successful `Register`: `da` was free, the bond moved from `sender` to
/// the registry's address, the mapping was inserted, nothing else changed.
pub open spec fn spec_register_ok(
    r0: SequencerRegistry,
    b0: Bank,
    da: u64,
    sender: u64,
    r1: SequencerRegistry,
    b1: Bank,
) -> bool {
    &&& r0.spec_allowed(da) is None
    &&& spec_can_transfer(b0, sender, r0.spec_address(), r0.spec_coins_to_lock())
    &&& spec_transferred(b0, b1, sender, r0.spec_address(), r0.spec_coins_to_lock().amount)
    &&& r1.spec_allowed(da) == Some(sender)
    &&& forall|d: u64| d != da ==> r1.spec_allowed(d) == r0.spec_allowed(d)
    &&& r1.spec_address() == r0.spec_address()
    &&& r1.spec_preferred() == r0.spec_preferred()
    &&& r1.spec_coins_to_lock() == r0.spec_coins_to_lock()
}

/// A successful `Exit`: `sender` owned the mapping for `da`, the bond moved
/// back from the registry's address to `sender`, the mapping was removed,
/// nothing else changed.
pub open spec fn spec_exit_ok(
    r0: SequencerRegistry,
    b0: Bank,
    da: u64,
    sender: u64,
    r1: SequencerRegistry,
    b1: Bank,
) -> bool {
    &&& r0.spec_allowed(da) == Some(sender)
    &&& spec_can_transfer(b0, r0.spec_address(), sender, r0.spec_coins_to_lock())
    &&& spec_transferred(b0, b1, r0.spec_address(), sender, r0.spec_coins_to_lock().amount)
    &&& r1.spec_allowed(da) is None
    &&& forall|d: u64| d != da ==> r1.spec_allowed(d) == r0.spec_allowed(d)
    &&& r1.spec_address() == r0.spec_address()
    &&& r1.spec_preferred() == r0.spec_preferred()
    &&& r1.spec_coins_to_lock() == r0.spec_coins_to_lock()
}

impl SequencerRegistry {
    /// The allowed-sequencer map has one row per data-availability address.
    pub closed spec fn wf(&self) -> bool {
        self.allowed_sequencers.wf()
    }

    /// The registry's own address, where bonds are locked.
    pub closed spec fn spec_address(&self) -> u64 {
        self.address
    }

    /// The rollup address registered for `da`, if any.
    pub closed spec fn spec_allowed(&self, da: u64) -> Option<u64> {
        self.allowed_sequencers.spec_get(da)
    }

    /// The preferred sequencer, if one was set at genesis.
    pub closed spec fn spec_preferred(&self) -> Option<u64> {
        self.preferred_sequencer
    }

    /// The configured bond.
    pub closed spec fn spec_coins_to_lock(&self) -> Coins {
        self.coins_to_lock
    }

    /// Sets the module up at genesis: records the bond, registers the
    /// configured sequencer (locking its bond), and marks it preferred if
    /// the configuration says so. Fails if and only if the initial bond
    /// cannot be moved.
    pub fn genesis(address: u64, config: &SequencerConfig, bank: &mut Bank) -> (r: Result<
        SequencerRegistry,
        RegistryError,
    >)
        requires
            old(bank).wf(),
        ensures
            final(bank).wf(),
            final(bank).spec_token_id() == old(bank).spec_token_id(),
            r is Ok <==> spec_can_transfer(
                *old(bank),
                config.seq_rollup_address,
                address,
                config.coins_to_lock,
            ),
            r matches Ok(reg) ==> {
                &&& reg.wf()
                &&& reg.spec_address() == address
                &&& reg.spec_coins_to_lock() == config.coins_to_lock
                &&& reg.spec_allowed(config.seq_da_address) == Some(config.seq_rollup_address)
                &&& forall|d: u64| d != config.seq_da_address ==> reg.spec_allowed(d) is None
                &&& reg.spec_preferred() == if config.is_preferred_sequencer {
                    Some(config.seq_da_address)
                } else {
                    None::<u64>
                }
                &&& spec_transferred(
                    *old(bank),
                    *final(bank),
                    config.seq_rollup_address,
                    address,
                    config.coins_to_lock.amount,
                )
            },
            r is Err ==> forall|a: u64|
                final(bank).spec_balance(a) == old(bank).spec_balance(a),
    {
        let mut reg = SequencerRegistry {
            address,
            allowed_sequencers: KvList::new(),
            preferred_sequencer: None,
            coins_to_lock: config.coins_to_lock,
        };
        match bank.transfer_from(config.seq_rollup_address, address, reg.coins_to_lock) {
            Ok(()) => {},
            Err(_) => {
                return Err(RegistryError::InsufficientBond);
            },
        }
        reg.allowed_sequencers.set(config.seq_da_address, config.seq_rollup_address);
        if config.is_preferred_sequencer {
            reg.preferred_sequencer = Some(config.seq_da_address);
        }
        Ok(reg)
    }

    /// Applies a call message on behalf of `sender`.
    pub fn call(&mut self, message: CallMessage, sender: u64, bank: &mut Bank) -> (r: Result<
        (),
        RegistryError,
    >)
        requires
            old(self).wf(),
            old(bank).wf(),
            message matches CallMessage::Exit { da_address } && old(self).spec_allowed(da_address)
                == Some(sender) ==> spec_can_transfer(
                *old(bank),
                old(self).spec_address(),
                sender,
                old(self).spec_coins_to_lock(),
            ),
        ensures
            final(self).wf(),
            final(bank).wf(),
            message matches CallMessage::Register { da_address } ==> {
                &&& (r is Ok <==> old(self).spec_allowed(da_address) is None && spec_can_transfer(
                    *old(bank),
                    sender,
                    old(self).spec_address(),
                    old(self).spec_coins_to_lock(),
                ))
                &&& (r is Ok ==> spec_register_ok(
                    *old(self),
                    *old(bank),
                    da_address,
                    sender,
                    *final(self),
                    *final(bank),
                ))
                &&& (r == Err::<(), RegistryError>(RegistryError::AlreadyRegistered) <==> old(
                    self,
                ).spec_allowed(da_address) is Some)
            },
            message matches CallMessage::Exit { da_address } ==> {
                &&& (r is Ok <==> old(self).spec_allowed(da_address) == Some(sender))
                &&& (r is Ok ==> spec_exit_ok(
                    *old(self),
                    *old(bank),
                    da_address,
                    sender,
                    *final(self),
                    *final(bank),
                ))
                &&& (r == Err::<(), RegistryError>(RegistryError::NotRegistered) <==> old(
                    self,
                ).spec_allowed(da_address) is None)
            },
            r is Err ==> *final(self) == *old(self) && forall|a: u64|
                final(bank).spec_balance(a) == old(bank).spec_balance(a),
    {
        match message {
            CallMessage::Register { da_address } => self.register(da_address, sender, bank),
            CallMessage::Exit { da_address } => self.exit(da_address, sender, bank),
        }
    }

    /// Registers `sender` as the sequencer for `da_address`, locking the
    /// bond. Fails with `AlreadyRegistered` if and only if the address has a
    /// mapping, and with `InsufficientBond` if and only if the address is
    /// free but the bond cannot be moved; on failure nothing changes.
    pub fn register(&mut self, da_address: u64, sender: u64, bank: &mut Bank) -> (r: Result<
        (),
        RegistryError,
    >)
        requires
            old(self).wf(),
            old(bank).wf(),
        ensures
            final(self).wf(),
            final(bank).wf(),
            r is Ok <==> old(self).spec_allowed(da_address) is None && spec_can_transfer(
                *old(bank),
                sender,
                old(self).spec_address(),
                old(self).spec_coins_to_lock(),
            ),
            r is Ok ==> spec_register_ok(
                *old(self),
                *old(bank),
                da_address,
                sender,
                *final(self),
                *final(bank),
            ),
            r == Err::<(), RegistryError>(RegistryError::AlreadyRegistered) <==> old(
                self,
            ).spec_allowed(da_address) is Some,
            r == Err::<(), RegistryError>(RegistryError::InsufficientBond) <==> old(
                self,
            ).spec_allowed(da_address) is None && !spec_can_transfer(
                *old(bank),
                sender,
                old(self).spec_address(),
                old(self).spec_coins_to_lock(),
            ),
            r is Err ==> *final(self) == *old(self) && forall|a: u64|
                final(bank).spec_balance(a) == old(bank).spec_balance(a),
    {
        self.register_sequencer(da_address, sender, bank)
    }

    /// Inserts the mapping `da_address` to `rollup_address` after moving the
    /// bond from `rollup_address` into the registry's address. The contract
    /// is that of [`SequencerRegistry::register`] with the owner chosen by
    /// the caller.
    pub fn register_sequencer(
        &mut self,
        da_address: u64,
        rollup_address: u64,
        bank: &mut Bank,
    ) -> (r: Result<(), RegistryError>)
        requires
            old(self).wf(),
            old(bank).wf(),
        ensures
            final(self).wf(),
            final(bank).wf(),
            r is Ok <==> old(self).spec_allowed(da_address) is None && spec_can_transfer(
                *old(bank),
                rollup_address,
                old(self).spec_address(),
                old(self).spec_coins_to_lock(),
            ),
            r is Ok ==> spec_register_ok(
                *old(self),
                *old(bank),
                da_address,
                rollup_address,
                *final(self),
                *final(bank),
            ),
            r == Err::<(), RegistryError>(RegistryError::AlreadyRegistered) <==> old(
                self,
            ).spec_allowed(da_address) is Some,
            r == Err::<(), RegistryError>(RegistryError::InsufficientBond) <==> old(
                self,
            ).spec_allowed(da_address) is None && !spec_can_transfer(
                *old(bank),
                rollup_address,
                old(self).spec_address(),
                old(self).spec_coins_to_lock(),
            ),
            r is Err ==> *final(self) == *old(self) && forall|a: u64|
                final(bank).spec_balance(a) == old(bank).spec_balance(a),
    {
        if self.allowed_sequencers.get(da_address).is_some() {
            return Err(RegistryError::AlreadyRegistered);
        }
        match bank.transfer_from(rollup_address, self.address, self.coins_to_lock) {
            Ok(()) => {},
            Err(_) => {
                return Err(RegistryError::InsufficientBond);
            },
        }
        self.allowed_sequencers.set(da_address, rollup_address);
        Ok(())
    }

    /// Removes `sender`'s mapping for `da_address` and returns the bond.
    /// Fails with `NotRegistered` if and only if the address has no mapping,
    /// and with `Unauthorized` if and only if it is mapped to an owner other
    /// than `sender`; on failure nothing changes.
    pub fn exit(&mut self, da_address: u64, sender: u64, bank: &mut Bank) -> (r: Result<
        (),
        RegistryError,
    >)
        requires
            old(self).wf(),
            old(bank).wf(),
            old(self).spec_allowed(da_address) == Some(sender) ==> spec_can_transfer(
                *old(bank),
                old(self).spec_address(),
                sender,
                old(self).spec_coins_to_lock(),
            ),
        ensures
            final(self).wf(),
            final(bank).wf(),
            r is Ok <==> old(self).spec_allowed(da_address) == Some(sender),
            r is Ok ==> spec_exit_ok(
                *old(self),
                *old(bank),
                da_address,
                sender,
                *final(self),
                *final(bank),
            ),
            r == Err::<(), RegistryError>(RegistryError::NotRegistered) <==> old(
                self,
            ).spec_allowed(da_address) is None,
            r == Err::<(), RegistryError>(RegistryError::Unauthorized) <==> (old(
                self,
            ).spec_allowed(da_address) matches Some(owner) && owner != sender),
            r is Err ==> *final(self) == *old(self) && forall|a: u64|
                final(bank).spec_balance(a) == old(bank).spec_balance(a),
    {
        let owner = match self.allowed_sequencers.get(da_address) {
            None => {
                return Err(RegistryError::NotRegistered);
            },
            Some(owner) => owner,
        };
        if owner != sender {
            return Err(RegistryError::Unauthorized);
        }
        let coins = self.coins_to_lock;
        match bank.transfer_from(self.address, sender, coins) {
            Ok(()) => {},
            Err(_) => {
                // The precondition rules this branch out: the bond the
                // registry holds for a registered sequencer is payable.
                return Err(RegistryError::InsufficientBond);
            },
        }
        self.allowed_sequencers.remove(da_address);
        Ok(())
    }

    /// Forfeits the bond of the sequencer registered for `da_address`: the
    /// mapping is removed and the locked bond stays with the registry. Yields
    /// `Slashed` for a registered address and `Completed` (no change) for an
    /// unknown one.
    pub fn slash(&mut self, da_address: u64) -> (outcome: SequencerOutcome)
        requires
            old(self).wf(),
        ensures
            final(self).wf(),
            final(self).spec_address() == old(self).spec_address(),
            final(self).spec_preferred() == old(self).spec_preferred(),
            final(self).spec_coins_to_lock() == old(self).spec_coins_to_lock(),
            old(self).spec_allowed(da_address) is Some ==> outcome == (SequencerOutcome::Slashed {
                sequencer: da_address,
            }) && final(self).spec_allowed(da_address) is None,
            old(self).spec_allowed(da_address) is None ==> outcome == SequencerOutcome::Completed
                && *final(self) == *old(self),
            forall|d: u64| d != da_address ==> final(self).spec_allowed(d) == old(
                self,
            ).spec_allowed(d),
    {
        if self.allowed_sequencers.get(da_address).is_some() {
            self.allowed_sequencers.remove(da_address);
            SequencerOutcome::Slashed { sequencer: da_address }
        } else {
            SequencerOutcome::Completed
        }
    }

    /// Returns the configured amount of coins to lock.
    pub fn get_coins_to_lock(&self) -> (r: Coins)
        ensures
            r == self.spec_coins_to_lock(),
    {
        self.coins_to_lock
    }

    /// Returns the preferred sequencer, or `None` if it wasn't set.
    pub fn get_preferred_sequencer(&self) -> (r: Option<u64>)
        ensures
            r == self.spec_preferred(),
    {
        self.preferred_sequencer
    }

    /// Returns the rollup address of the preferred sequencer, or `None` if
    /// no preferred sequencer was set. A preferred sequencer must have a
    /// known rollup address, so a set-but-unregistered preferred sequencer
    /// is ruled out by the precondition.
    pub fn get_preferred_sequencer_rollup_address(&self) -> (r: Option<u64>)
        requires
            self.spec_preferred() matches Some(da) ==> self.spec_allowed(da) is Some,
        ensures
            r == match self.spec_preferred() {
                None => None::<u64>,
                Some(da) => self.spec_allowed(da),
            },
    {
        match self.preferred_sequencer {
            None => None,
            Some(da) => self.allowed_sequencers.get(da),
        }
    }

    /// Checks whether `sender` is a registered sequencer.
    pub fn is_sender_allowed(&self, sender: u64) -> (r: bool)
        ensures
            r == (self.spec_allowed(sender) is Some),
    {
        self.allowed_sequencers.get(sender).is_some()
    }
}

/// Law: registering and then exiting restores the caller's balance to its
/// pre-registration amount, leaves every other balance as it was, and leaves
/// the address unregistered — so a further `Register` is possible, while a
/// second `Register` placed between the two calls finds the mapping taken
/// and must fail with `AlreadyRegistered`.
pub proof fn lemma_register_exit_restores_balance(
    r0: SequencerRegistry,
    b0: Bank,
    r1: SequencerRegistry,
    b1: Bank,
    r2: SequencerRegistry,
    b2: Bank,
    da: u64,
    sender: u64,
)
    requires
        spec_register_ok(r0, b0, da, sender, r1, b1),
        spec_exit_ok(r1, b1, da, sender, r2, b2),
    ensures
        b2.spec_balance(sender) == b0.spec_balance(sender),
        forall|a: u64|
            a != sender && a != r0.spec_address() ==> b2.spec_balance(a) == b0.spec_balance(a),
        b2.spec_balance(r0.spec_address()) == b0.spec_balance(r0.spec_address()),
        r2.spec_allowed(da) is None,
        r1.spec_allowed(da) is Some,
{
}

} // verus!
