use sequencer::bank::{Bank, Coins};
use sequencer::registry::{
    CallMessage, RegistryError, SequencerConfig, SequencerOutcome, SequencerRegistry,
};

const TOKEN: u64 = 1;
const REGISTRY_ADDR: u64 = 1000;
const SEQ1_ROLLUP: u64 = 11;
const SEQ1_DA: u64 = 21;
const SEQ2_ROLLUP: u64 = 12;
const SEQ2_DA: u64 = 22;
const BOND: u64 = 50;

fn setup(preferred: bool) -> (SequencerRegistry, Bank) {
    let mut bank = Bank::new(TOKEN);
    bank.set_balance(SEQ1_ROLLUP, 500);
    bank.set_balance(SEQ2_ROLLUP, 500);
    let config = SequencerConfig {
        seq_rollup_address: SEQ1_ROLLUP,
        seq_da_address: SEQ1_DA,
        coins_to_lock: Coins { amount: BOND, token_id: TOKEN },
        is_preferred_sequencer: preferred,
    };
    let reg = SequencerRegistry::genesis(REGISTRY_ADDR, &config, &mut bank).unwrap();
    (reg, bank)
}

#[test]
fn genesis_registers_and_locks_the_bond() {
    let (reg, bank) = setup(true);
    assert!(reg.is_sender_allowed(SEQ1_DA));
    assert!(!reg.is_sender_allowed(SEQ2_DA));
    assert_eq!(reg.get_coins_to_lock(), Coins { amount: BOND, token_id: TOKEN });
    assert_eq!(bank.balance_of(SEQ1_ROLLUP), 500 - BOND);
    assert_eq!(bank.balance_of(REGISTRY_ADDR), BOND);
}

#[test]
fn genesis_fails_without_the_bond() {
    let mut bank = Bank::new(TOKEN);
    bank.set_balance(SEQ1_ROLLUP, BOND - 1);
    let config = SequencerConfig {
        seq_rollup_address: SEQ1_ROLLUP,
        seq_da_address: SEQ1_DA,
        coins_to_lock: Coins { amount: BOND, token_id: TOKEN },
        is_preferred_sequencer: false,
    };
    let r = SequencerRegistry::genesis(REGISTRY_ADDR, &config, &mut bank);
    assert_eq!(r.err(), Some(RegistryError::InsufficientBond));
    assert_eq!(bank.balance_of(SEQ1_ROLLUP), BOND - 1);
}

#[test]
fn register_then_exit_restores_the_balance() {
    let (mut reg, mut bank) = setup(false);
    let before = bank.balance_of(SEQ2_ROLLUP);
    assert_eq!(
        reg.call(CallMessage::Register { da_address: SEQ2_DA }, SEQ2_ROLLUP, &mut bank),
        Ok(())
    );
    assert_eq!(bank.balance_of(SEQ2_ROLLUP), before - BOND);
    assert!(reg.is_sender_allowed(SEQ2_DA));
    assert_eq!(
        reg.call(CallMessage::Exit { da_address: SEQ2_DA }, SEQ2_ROLLUP, &mut bank),
        Ok(())
    );
    assert_eq!(bank.balance_of(SEQ2_ROLLUP), before);
    assert!(!reg.is_sender_allowed(SEQ2_DA));
    // after the exit the address is free again
    assert_eq!(
        reg.call(CallMessage::Register { da_address: SEQ2_DA }, SEQ2_ROLLUP, &mut bank),
        Ok(())
    );
}

#[test]
fn second_register_before_exit_fails() {
    let (mut reg, mut bank) = setup(false);
    assert_eq!(
        reg.call(CallMessage::Register { da_address: SEQ2_DA }, SEQ2_ROLLUP, &mut bank),
        Ok(())
    );
    let before = bank.balance_of(SEQ1_ROLLUP);
    assert_eq!(
        reg.call(CallMessage::Register { da_address: SEQ2_DA }, SEQ1_ROLLUP, &mut bank),
        Err(RegistryError::AlreadyRegistered)
    );
    // a rejected call moves no funds
    assert_eq!(bank.balance_of(SEQ1_ROLLUP), before);
}

#[test]
fn register_without_funds_fails() {
    let (mut reg, mut bank) = setup(false);
    let poor = 77u64;
    assert_eq!(
        reg.call(CallMessage::Register { da_address: SEQ2_DA }, poor, &mut bank),
        Err(RegistryError::InsufficientBond)
    );
    assert!(!reg.is_sender_allowed(SEQ2_DA));
}

#[test]
fn exit_of_unknown_address_fails() {
    let (mut reg, mut bank) = setup(false);
    assert_eq!(
        reg.call(CallMessage::Exit { da_address: SEQ2_DA }, SEQ2_ROLLUP, &mut bank),
        Err(RegistryError::NotRegistered)
    );
}

#[test]
fn exit_by_a_stranger_fails() {
    let (mut reg, mut bank) = setup(false);
    assert_eq!(
        reg.call(CallMessage::Exit { da_address: SEQ1_DA }, SEQ2_ROLLUP, &mut bank),
        Err(RegistryError::Unauthorized)
    );
    assert!(reg.is_sender_allowed(SEQ1_DA));
}

#[test]
fn preferred_sequencer_is_exposed_with_its_rollup_address() {
    let (reg, _bank) = setup(true);
    assert_eq!(reg.get_preferred_sequencer(), Some(SEQ1_DA));
    assert_eq!(reg.get_preferred_sequencer_rollup_address(), Some(SEQ1_ROLLUP));
}

#[test]
fn no_preferred_sequencer_unless_configured() {
    let (reg, _bank) = setup(false);
    assert_eq!(reg.get_preferred_sequencer(), None);
    assert_eq!(reg.get_preferred_sequencer_rollup_address(), None);
}

#[test]
fn slashing_forfeits_the_bond_and_removes_the_mapping() {
    let (mut reg, mut bank) = setup(false);
    let outcome = reg.slash(SEQ1_DA);
    assert_eq!(outcome, SequencerOutcome::Slashed { sequencer: SEQ1_DA });
    assert!(!reg.is_sender_allowed(SEQ1_DA));
    // the bond is not returned: it stays locked with the registry
    assert_eq!(bank.balance_of(SEQ1_ROLLUP), 500 - BOND);
    assert_eq!(bank.balance_of(REGISTRY_ADDR), BOND);
    // the slashed sequencer cannot exit afterwards
    assert_eq!(
        reg.call(CallMessage::Exit { da_address: SEQ1_DA }, SEQ1_ROLLUP, &mut bank),
        Err(RegistryError::NotRegistered)
    );
}

#[test]
fn slashing_an_unknown_address_completes_without_change() {
    let (mut reg, _bank) = setup(false);
    assert_eq!(reg.slash(SEQ2_DA), SequencerOutcome::Completed);
    assert!(reg.is_sender_allowed(SEQ1_DA));
}
