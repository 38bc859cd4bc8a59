//! Tests for the round mode flag and the separate prediction storage.

use prediction_market::contract::VirtualTokenContract;
use prediction_market::types::{Address, BetSide, ContractError, RoundMode};

fn initialized() -> VirtualTokenContract {
    let mut m = VirtualTokenContract::new();
    m.initialize(Address(100), Address(101)).unwrap();
    m
}

#[test]
fn test_create_round_default_mode() {
    let mut m = initialized();

    // No mode given: defaults to up/down.
    m.create_round(1_0000000, None, 0).unwrap();

    let round = m.get_active_round().unwrap();
    assert_eq!(round.mode, RoundMode::UpDown);
}

#[test]
fn test_create_round_updown_mode_explicit() {
    let mut m = initialized();

    m.create_round(1_0000000, Some(0), 0).unwrap();

    let round = m.get_active_round().unwrap();
    assert_eq!(round.mode, RoundMode::UpDown);
}

#[test]
fn test_create_round_precision_mode() {
    let mut m = initialized();

    m.create_round(1_0000000, Some(1), 0).unwrap();

    let round = m.get_active_round().unwrap();
    assert_eq!(round.mode, RoundMode::Precision);
}

#[test]
fn test_create_round_invalid_mode() {
    let mut m = initialized();

    let result = m.create_round(1_0000000, Some(2), 0);
    assert_eq!(result, Err(ContractError::InvalidMode));
}

#[test]
fn test_place_bet_on_updown_mode() {
    let mut m = initialized();
    let user = Address(1);
    m.mint_initial(user);

    m.create_round(1_0000000, Some(0), 0).unwrap();

    m.place_bet(user, 100_0000000, BetSide::Up, 0).unwrap();

    let position = m.get_user_position(user).unwrap();
    assert_eq!(position.amount, 100_0000000);
    assert_eq!(position.side, BetSide::Up);
}

#[test]
fn test_place_bet_on_precision_mode_fails() {
    let mut m = initialized();
    let user = Address(1);
    m.mint_initial(user);

    m.create_round(1_0000000, Some(1), 0).unwrap();

    let result = m.place_bet(user, 100_0000000, BetSide::Up, 0);
    assert_eq!(result, Err(ContractError::WrongModeForPrediction));
}

#[test]
fn test_place_precision_prediction_on_precision_mode() {
    let mut m = initialized();
    let user = Address(1);
    m.mint_initial(user);

    m.create_round(1_0000000, Some(1), 0).unwrap();

    // Predicted price 0.2297 scaled to 4 decimals is 2297.
    m.place_precision_prediction(user, 100_0000000, 2297, 0).unwrap();

    let prediction = m.get_user_precision_prediction(user).unwrap();
    assert_eq!(prediction.amount, 100_0000000);
    assert_eq!(prediction.predicted_price, 2297);

    assert_eq!(m.balance(user), 900_0000000);
}

#[test]
fn test_place_precision_prediction_on_updown_mode_fails() {
    let mut m = initialized();
    let user = Address(1);
    m.mint_initial(user);

    m.create_round(1_0000000, Some(0), 0).unwrap();

    let result = m.place_precision_prediction(user, 100_0000000, 2297, 0);
    assert_eq!(result, Err(ContractError::WrongModeForPrediction));
}

#[test]
fn test_precision_prediction_already_bet() {
    let mut m = initialized();
    let user = Address(1);
    m.mint_initial(user);

    m.create_round(1_0000000, Some(1), 0).unwrap();

    m.place_precision_prediction(user, 100_0000000, 2297, 0).unwrap();

    let result = m.place_precision_prediction(user, 50_0000000, 2500, 0);
    assert_eq!(result, Err(ContractError::AlreadyBet));
}

#[test]
fn test_get_precision_predictions() {
    let mut m = initialized();
    let alice = Address(1);
    let bob = Address(2);
    m.mint_initial(alice);
    m.mint_initial(bob);

    m.create_round(1_0000000, Some(1), 0).unwrap();

    m.place_precision_prediction(alice, 100_0000000, 2297, 0).unwrap();
    m.place_precision_prediction(bob, 150_0000000, 2500, 0).unwrap();

    let predictions = m.get_precision_predictions();
    assert_eq!(predictions.len(), 2);

    let pred0 = predictions[0];
    assert_eq!(pred0.user, alice);
    assert_eq!(pred0.amount, 100_0000000);
    assert_eq!(pred0.predicted_price, 2297);

    let pred1 = predictions[1];
    assert_eq!(pred1.user, bob);
    assert_eq!(pred1.amount, 150_0000000);
    assert_eq!(pred1.predicted_price, 2500);
}

#[test]
fn test_get_updown_positions() {
    let mut m = initialized();
    let alice = Address(1);
    let bob = Address(2);
    m.mint_initial(alice);
    m.mint_initial(bob);

    m.create_round(1_0000000, Some(0), 0).unwrap();

    m.place_bet(alice, 100_0000000, BetSide::Up, 0).unwrap();
    m.place_bet(bob, 150_0000000, BetSide::Down, 0).unwrap();

    let positions = m.get_updown_positions();
    assert_eq!(positions.len(), 2);

    let (alice_acct, alice_pos) = positions[0];
    assert_eq!(alice_acct, alice);
    assert_eq!(alice_pos.amount, 100_0000000);
    assert_eq!(alice_pos.side, BetSide::Up);

    let (bob_acct, bob_pos) = positions[1];
    assert_eq!(bob_acct, bob);
    assert_eq!(bob_pos.amount, 150_0000000);
    assert_eq!(bob_pos.side, BetSide::Down);
}

#[test]
fn test_precision_insufficient_balance() {
    let mut m = initialized();
    let user = Address(1);
    m.mint_initial(user); // has 1000 units

    m.create_round(1_0000000, Some(1), 0).unwrap();

    let result = m.place_precision_prediction(user, 2000_0000000, 2297, 0);
    assert_eq!(result, Err(ContractError::InsufficientBalance));
}

#[test]
fn test_precision_round_ended() {
    let mut m = initialized();
    let user = Address(1);
    m.mint_initial(user);

    // Default betting window is 6 ledgers, so betting closes at ledger 6.
    m.create_round(1_0000000, Some(1), 0).unwrap();

    let result = m.place_precision_prediction(user, 100_0000000, 2297, 6);
    assert_eq!(result, Err(ContractError::RoundEnded));
}

#[test]
fn test_precision_invalid_amount() {
    let mut m = initialized();
    let user = Address(1);
    m.mint_initial(user);

    m.create_round(1_0000000, Some(1), 0).unwrap();

    let result = m.place_precision_prediction(user, 0, 2297, 0);
    assert_eq!(result, Err(ContractError::InvalidBetAmount));

    let result = m.place_precision_prediction(user, -100, 2297, 0);
    assert_eq!(result, Err(ContractError::InvalidBetAmount));
}
