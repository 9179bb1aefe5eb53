use sequencer::bank::{Bank, BankError, Coins};

#[test]
fn transfer_moves_exactly_the_amount() {
    let mut bank = Bank::new(1);
    bank.set_balance(10, 100);
    bank.set_balance(20, 5);
    assert_eq!(bank.transfer_from(10, 20, Coins { amount: 30, token_id: 1 }), Ok(()));
    assert_eq!(bank.balance_of(10), 70);
    assert_eq!(bank.balance_of(20), 35);
    assert_eq!(bank.balance_of(30), 0);
}

#[test]
fn transfer_refuses_a_foreign_token() {
    let mut bank = Bank::new(1);
    bank.set_balance(10, 100);
    assert_eq!(
        bank.transfer_from(10, 20, Coins { amount: 30, token_id: 2 }),
        Err(BankError::WrongToken)
    );
    assert_eq!(bank.balance_of(10), 100);
}

#[test]
fn transfer_refuses_an_uncovered_amount() {
    let mut bank = Bank::new(1);
    bank.set_balance(10, 29);
    assert_eq!(
        bank.transfer_from(10, 20, Coins { amount: 30, token_id: 1 }),
        Err(BankError::InsufficientFunds)
    );
    assert_eq!(bank.balance_of(10), 29);
    assert_eq!(bank.balance_of(20), 0);
}

#[test]
fn transfer_refuses_an_overflowing_credit() {
    let mut bank = Bank::new(1);
    bank.set_balance(10, 100);
    bank.set_balance(20, u64::MAX - 10);
    assert_eq!(
        bank.transfer_from(10, 20, Coins { amount: 11, token_id: 1 }),
        Err(BankError::BalanceOverflow)
    );
    assert_eq!(bank.balance_of(10), 100);
    assert_eq!(bank.balance_of(20), u64::MAX - 10);
}

#[test]
fn transfer_to_self_changes_nothing() {
    let mut bank = Bank::new(1);
    bank.set_balance(10, 100);
    assert_eq!(bank.transfer_from(10, 10, Coins { amount: 30, token_id: 1 }), Ok(()));
    assert_eq!(bank.balance_of(10), 100);
    assert_eq!(
        bank.transfer_from(10, 10, Coins { amount: 101, token_id: 1 }),
        Err(BankError::InsufficientFunds)
    );
}
