//! Tests for the configurable betting and run windows.

use prediction_market::contract::VirtualTokenContract;
use prediction_market::types::{Address, BetSide, ContractError};

fn initialized() -> VirtualTokenContract {
    let mut m = VirtualTokenContract::new();
    m.initialize(Address(100), Address(101)).unwrap();
    m
}

#[test]
fn test_set_windows_admin_only() {
    let mut m = initialized();

    // The admin can set the windows. (Whether the caller really is the
    // admin is checked by the external identity collaborator.)
    assert_eq!(m.set_windows(10, 20), Ok(()));
}

#[test]
fn test_set_windows_positive_values() {
    let mut m = initialized();

    // Zero values are rejected.
    let result = m.set_windows(0, 12);
    assert_eq!(result, Err(ContractError::InvalidDuration));

    let result = m.set_windows(6, 0);
    assert_eq!(result, Err(ContractError::InvalidDuration));

    // Valid values succeed.
    assert_eq!(m.set_windows(10, 20), Ok(()));
}

#[test]
fn test_set_windows_bet_must_be_less_than_run() {
    let mut m = initialized();

    // The betting window must close strictly before the run window ends.
    let result = m.set_windows(12, 12);
    assert_eq!(result, Err(ContractError::InvalidDuration));

    let result = m.set_windows(15, 10);
    assert_eq!(result, Err(ContractError::InvalidDuration));

    assert_eq!(m.set_windows(6, 12), Ok(()));
}

#[test]
fn test_create_round_uses_configured_windows() {
    let mut m = initialized();

    m.set_windows(10, 20).unwrap();

    let start_price: u128 = 1_0000000;
    m.create_round(start_price, None, 100).unwrap();

    let round = m.get_active_round().expect("Round should exist");

    assert_eq!(round.start_ledger, 100);
    assert_eq!(round.bet_end_ledger, 110); // 100 + 10
    assert_eq!(round.end_ledger, 120); // 100 + 20
}

#[test]
fn test_create_round_uses_default_windows() {
    let mut m = initialized();

    // No custom windows: the defaults (6 and 12) apply.
    let start_price: u128 = 1_0000000;
    m.create_round(start_price, None, 50).unwrap();

    let round = m.get_active_round().expect("Round should exist");

    assert_eq!(round.start_ledger, 50);
    assert_eq!(round.bet_end_ledger, 56); // 50 + 6
    assert_eq!(round.end_ledger, 62); // 50 + 12
}

#[test]
fn test_betting_closes_at_bet_end_ledger() {
    let mut m = initialized();
    let user = Address(1);
    m.mint_initial(user);

    // Betting closes at ledger 6, the round ends at ledger 12.
    m.set_windows(6, 12).unwrap();
    m.create_round(1_0000000, None, 0).unwrap();

    // Betting works before the betting window closes.
    m.place_bet(user, 100_0000000, BetSide::Up, 5).unwrap();

    // Betting fails at the closing ledger.
    let result = m.place_bet(user, 50_0000000, BetSide::Down, 6);
    assert_eq!(result, Err(ContractError::RoundEnded));

    // And after it.
    let result = m.place_bet(user, 50_0000000, BetSide::Down, 10);
    assert_eq!(result, Err(ContractError::RoundEnded));
}

#[test]
fn test_resolution_only_allowed_after_run_ledgers() {
    let mut m = initialized();
    let user = Address(1);
    m.mint_initial(user);

    m.set_windows(6, 12).unwrap();
    m.create_round(1_0000000, None, 0).unwrap();

    m.place_bet(user, 100_0000000, BetSide::Up, 0).unwrap();

    // Past the betting window but before the run window ends.
    let result = m.resolve_round(1_5000000, 10);
    assert_eq!(result, Err(ContractError::RoundNotEnded));

    // Exactly at the end ledger resolution succeeds.
    m.resolve_round(1_5000000, 12).unwrap();

    assert_eq!(m.get_active_round(), None);
}

#[test]
fn test_precision_prediction_respects_bet_window() {
    let mut m = initialized();
    let user = Address(1);
    m.mint_initial(user);

    m.set_windows(6, 12).unwrap();
    m.create_round(1_0000000, Some(1), 0).unwrap();

    // A prediction works before the betting window closes.
    m.place_precision_prediction(user, 100_0000000, 2297, 5).unwrap();

    // And fails at the closing ledger.
    let result = m.place_precision_prediction(user, 50_0000000, 2300, 6);
    assert_eq!(result, Err(ContractError::RoundEnded));
}
