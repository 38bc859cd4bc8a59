//! Tests for the account ledger: minting, balances and initialization.

use prediction_market::contract::VirtualTokenContract;
use prediction_market::types::{Address, ContractError};

#[test]
fn test_mint_initial() {
    let mut m = VirtualTokenContract::new();
    let user = Address(1);

    let balance = m.mint_initial(user);
    assert_eq!(balance, 1000_0000000);

    let queried_balance = m.balance(user);
    assert_eq!(queried_balance, 1000_0000000);
}

#[test]
fn test_mint_initial_only_once() {
    let mut m = VirtualTokenContract::new();
    let user = Address(1);

    let first_mint = m.mint_initial(user);
    assert_eq!(first_mint, 1000_0000000);

    // Minting again returns the existing balance, never mints more.
    let second_mint = m.mint_initial(user);
    assert_eq!(second_mint, 1000_0000000);

    let balance = m.balance(user);
    assert_eq!(balance, 1000_0000000);
}

#[test]
fn test_balance_for_new_user() {
    let m = VirtualTokenContract::new();
    let user = Address(1);

    let balance = m.balance(user);
    assert_eq!(balance, 0);
}

#[test]
fn test_initialize() {
    let mut m = VirtualTokenContract::new();
    let admin = Address(10);
    let oracle = Address(11);

    assert_eq!(m.initialize(admin, oracle), Ok(()));

    let stored_admin = m.get_admin();
    assert_eq!(stored_admin, Some(admin));
    assert_eq!(m.get_oracle(), Some(oracle));
}

#[test]
fn test_initialize_twice_fails() {
    let mut m = VirtualTokenContract::new();
    let admin = Address(10);
    let oracle = Address(11);

    assert_eq!(m.initialize(admin, oracle), Ok(()));

    // A second initialization is rejected.
    assert_eq!(
        m.initialize(admin, oracle),
        Err(ContractError::AlreadyInitialized)
    );
}

#[test]
fn test_create_round() {
    let mut m = VirtualTokenContract::new();
    let admin = Address(10);
    let oracle = Address(11);
    assert_eq!(m.initialize(admin, oracle), Ok(()));

    // A round of 60 ledgers: betting for the first half.
    assert_eq!(m.set_windows(30, 60), Ok(()));

    let start_price: u128 = 1_5000000; // 1.5 units
    let duration: u32 = 60;
    assert_eq!(m.create_round(start_price, None, 0), Ok(()));

    let round = m.get_active_round().expect("Round should exist");

    assert_eq!(round.price_start, start_price);
    assert_eq!(round.pool_up, 0);
    assert_eq!(round.pool_down, 0);
    assert_eq!(round.end_ledger, duration);
}

#[test]
fn test_create_round_without_init_fails() {
    let mut m = VirtualTokenContract::new();

    let result = m.create_round(1_0000000, None, 60);
    assert_eq!(result, Err(ContractError::AdminNotSet));
}

#[test]
fn test_get_active_round_when_none() {
    let m = VirtualTokenContract::new();

    let round = m.get_active_round();
    assert_eq!(round, None);
}
