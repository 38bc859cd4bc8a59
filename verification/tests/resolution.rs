//! Tests for round resolution and winnings distribution.

use prediction_market::contract::VirtualTokenContract;
use prediction_market::types::{Address, BetSide, ContractError};

fn initialized() -> VirtualTokenContract {
    let mut m = VirtualTokenContract::new();
    m.initialize(Address(100), Address(101)).unwrap();
    m
}

#[test]
fn test_resolve_round_price_unchanged() {
    let mut m = initialized();

    // A round starting at 1.5 units.
    let start_price: u128 = 1_5000000;
    m.create_round(start_price, None, 0).unwrap();

    let user1 = Address(1);
    let user2 = Address(2);
    m.mint_initial(user1);
    m.mint_initial(user2);

    // Pools: 100 up, 50 down.
    m.place_bet(user1, 100_0000000, BetSide::Up, 0).unwrap();
    m.place_bet(user2, 50_0000000, BetSide::Down, 0).unwrap();

    let user1_balance_before = m.balance(user1);
    let user2_balance_before = m.balance(user2);

    // Resolve at the default run window with the same price.
    m.resolve_round(start_price, 12).unwrap();

    // Both stakes come back as pending winnings.
    assert_eq!(m.get_pending_winnings(user1), 100_0000000);
    assert_eq!(m.get_pending_winnings(user2), 50_0000000);

    let claimed1 = m.claim_winnings(user1);
    let claimed2 = m.claim_winnings(user2);

    assert_eq!(claimed1, 100_0000000);
    assert_eq!(claimed2, 50_0000000);

    assert_eq!(m.balance(user1), user1_balance_before + 100_0000000);
    assert_eq!(m.balance(user2), user2_balance_before + 50_0000000);

    // The round is consumed.
    assert_eq!(m.get_active_round(), None);
}

#[test]
fn test_resolve_round_price_went_up() {
    let mut m = initialized();

    let start_price: u128 = 1_0000000;
    m.create_round(start_price, None, 0).unwrap();

    let alice = Address(1);
    let bob = Address(2);
    let charlie = Address(3);
    m.mint_initial(alice);
    m.mint_initial(bob);
    m.mint_initial(charlie);

    // Pools: 300 up (alice 100, bob 200), 150 down (charlie).
    m.place_bet(alice, 100_0000000, BetSide::Up, 0).unwrap();
    m.place_bet(bob, 200_0000000, BetSide::Up, 0).unwrap();
    m.place_bet(charlie, 150_0000000, BetSide::Down, 0).unwrap();

    let alice_before = m.balance(alice);
    let bob_before = m.balance(bob);
    let charlie_before = m.balance(charlie);

    // The price went up to 1.5.
    m.resolve_round(1_5000000, 12).unwrap();

    assert_eq!(m.get_pending_winnings(alice), 150_0000000);
    assert_eq!(m.get_pending_winnings(bob), 300_0000000);
    assert_eq!(m.get_pending_winnings(charlie), 0); // lost

    let alice_stats = m.get_user_stats(alice);
    assert_eq!(alice_stats.total_wins, 1);
    assert_eq!(alice_stats.current_streak, 1);

    let charlie_stats = m.get_user_stats(charlie);
    assert_eq!(charlie_stats.total_losses, 1);
    assert_eq!(charlie_stats.current_streak, 0);

    m.claim_winnings(alice);
    m.claim_winnings(bob);

    assert_eq!(m.balance(alice), alice_before + 150_0000000);
    assert_eq!(m.balance(bob), bob_before + 300_0000000);
    assert_eq!(m.balance(charlie), charlie_before); // no change
}

#[test]
fn test_resolve_round_price_went_down() {
    let mut m = initialized();

    let start_price: u128 = 2_0000000;
    m.create_round(start_price, None, 0).unwrap();

    let alice = Address(1);
    let bob = Address(2);
    m.mint_initial(alice);
    m.mint_initial(bob);

    // Pools: 100 up (bob), 200 down (alice).
    m.place_bet(alice, 200_0000000, BetSide::Down, 0).unwrap();
    m.place_bet(bob, 100_0000000, BetSide::Up, 0).unwrap();

    let alice_before = m.balance(alice);
    let bob_before = m.balance(bob);

    // The price went down to 1.0.
    m.resolve_round(1_0000000, 12).unwrap();

    // Alice wins: 200 + (200/200) * 100 = 300.
    assert_eq!(m.get_pending_winnings(alice), 300_0000000);
    assert_eq!(m.get_pending_winnings(bob), 0);

    m.claim_winnings(alice);

    assert_eq!(m.balance(alice), alice_before + 300_0000000);
    assert_eq!(m.balance(bob), bob_before); // no change
}

#[test]
fn test_claim_winnings_when_none() {
    let mut m = VirtualTokenContract::new();
    let user = Address(1);

    let claimed = m.claim_winnings(user);
    assert_eq!(claimed, 0);
}

#[test]
fn test_user_stats_tracking() {
    let mut m = initialized();
    let alice = Address(1);

    // Initial statistics are all zeros.
    let stats = m.get_user_stats(alice);
    assert_eq!(stats.total_wins, 0);
    assert_eq!(stats.total_losses, 0);
    assert_eq!(stats.current_streak, 0);
    assert_eq!(stats.best_streak, 0);

    // A win.
    m._update_stats_win(alice);

    let stats = m.get_user_stats(alice);
    assert_eq!(stats.total_wins, 1);
    assert_eq!(stats.current_streak, 1);
    assert_eq!(stats.best_streak, 1);

    // Another win: the streak grows.
    m._update_stats_win(alice);

    let stats = m.get_user_stats(alice);
    assert_eq!(stats.total_wins, 2);
    assert_eq!(stats.current_streak, 2);
    assert_eq!(stats.best_streak, 2);

    // A loss: the streak resets, the best streak remains.
    m._update_stats_loss(alice);

    let stats = m.get_user_stats(alice);
    assert_eq!(stats.total_wins, 2);
    assert_eq!(stats.total_losses, 1);
    assert_eq!(stats.current_streak, 0);
    assert_eq!(stats.best_streak, 2);
}

#[test]
fn test_resolve_round_without_active_round() {
    let mut m = initialized();

    let result = m.resolve_round(1_0000000, 0);
    assert_eq!(result, Err(ContractError::NoActiveRound));
}

#[test]
fn test_resolve_precision_closest_guess_wins() {
    let mut m = initialized();

    // Precision round starting at 2000.
    m.create_round(2000, Some(1), 0).unwrap();

    let alice = Address(1);
    let bob = Address(2);
    let charlie = Address(3);
    m.mint_initial(alice);
    m.mint_initial(bob);
    m.mint_initial(charlie);

    // Alice guesses 2297 (distance 1 from the actual 2298).
    m.place_precision_prediction(alice, 100_0000000, 2297, 0).unwrap();
    // Bob guesses 2300 (distance 2).
    m.place_precision_prediction(bob, 150_0000000, 2300, 0).unwrap();
    // Charlie guesses 2500 (distance 202).
    m.place_precision_prediction(charlie, 50_0000000, 2500, 0).unwrap();

    m.resolve_round(2298, 12).unwrap();

    // Alice takes the entire pot (100 + 150 + 50 = 300).
    assert_eq!(m.get_pending_winnings(alice), 300_0000000);
    assert_eq!(m.get_pending_winnings(bob), 0);
    assert_eq!(m.get_pending_winnings(charlie), 0);

    let alice_stats = m.get_user_stats(alice);
    assert_eq!(alice_stats.total_wins, 1);
    assert_eq!(alice_stats.current_streak, 1);

    let bob_stats = m.get_user_stats(bob);
    assert_eq!(bob_stats.total_losses, 1);
    assert_eq!(bob_stats.current_streak, 0);

    assert_eq!(m.get_active_round(), None);
}

#[test]
fn test_resolve_precision_tie_splits_pot() {
    let mut m = initialized();

    m.create_round(2000, Some(1), 0).unwrap();

    let alice = Address(1);
    let bob = Address(2);
    let charlie = Address(3);
    m.mint_initial(alice);
    m.mint_initial(bob);
    m.mint_initial(charlie);

    // Alice 2100 and Bob 2300 both sit at distance 100 from 2200.
    m.place_precision_prediction(alice, 100_0000000, 2100, 0).unwrap();
    m.place_precision_prediction(bob, 150_0000000, 2300, 0).unwrap();
    // Charlie 2500 is at distance 300.
    m.place_precision_prediction(charlie, 50_0000000, 2500, 0).unwrap();

    m.resolve_round(2200, 12).unwrap();

    // The pot of 300 splits evenly between Alice and Bob.
    assert_eq!(m.get_pending_winnings(alice), 150_0000000);
    assert_eq!(m.get_pending_winnings(bob), 150_0000000);
    assert_eq!(m.get_pending_winnings(charlie), 0);

    let alice_stats = m.get_user_stats(alice);
    assert_eq!(alice_stats.total_wins, 1);

    let bob_stats = m.get_user_stats(bob);
    assert_eq!(bob_stats.total_wins, 1);

    let charlie_stats = m.get_user_stats(charlie);
    assert_eq!(charlie_stats.total_losses, 1);
}

#[test]
fn test_resolve_precision_exact_match() {
    let mut m = initialized();

    m.create_round(2000, Some(1), 0).unwrap();

    let alice = Address(1);
    let bob = Address(2);
    m.mint_initial(alice);
    m.mint_initial(bob);

    // Alice guesses exactly right; Bob is off by 50.
    m.place_precision_prediction(alice, 100_0000000, 2250, 0).unwrap();
    m.place_precision_prediction(bob, 100_0000000, 2200, 0).unwrap();

    m.resolve_round(2250, 12).unwrap();

    assert_eq!(m.get_pending_winnings(alice), 200_0000000); // whole pot
    assert_eq!(m.get_pending_winnings(bob), 0);
}

#[test]
fn test_resolve_precision_no_predictions() {
    let mut m = initialized();

    m.create_round(2000, Some(1), 0).unwrap();

    // Resolving with no predictions succeeds as a no-op.
    m.resolve_round(2250, 12).unwrap();

    assert_eq!(m.get_active_round(), None);
}

#[test]
fn test_resolve_precision_three_way_tie() {
    let mut m = initialized();

    m.create_round(2000, Some(1), 0).unwrap();

    let alice = Address(1);
    let bob = Address(2);
    let charlie = Address(3);
    m.mint_initial(alice);
    m.mint_initial(bob);
    m.mint_initial(charlie);

    // All three guesses sit at distance 10 from 2200.
    m.place_precision_prediction(alice, 100_0000000, 2190, 0).unwrap();
    m.place_precision_prediction(bob, 150_0000000, 2210, 0).unwrap();
    m.place_precision_prediction(charlie, 150_0000000, 2210, 0).unwrap();

    m.resolve_round(2200, 12).unwrap();

    // The pot of 400 splits three ways by integer division; the
    // remainder is forfeited.
    let pot_per_winner = 400_0000000 / 3;
    assert_eq!(m.get_pending_winnings(alice), pot_per_winner);
    assert_eq!(m.get_pending_winnings(bob), pot_per_winner);
    assert_eq!(m.get_pending_winnings(charlie), pot_per_winner);
}

#[test]
fn test_resolve_precision_single_prediction() {
    let mut m = initialized();

    m.create_round(2000, Some(1), 0).unwrap();

    let alice = Address(1);
    m.mint_initial(alice);

    m.place_precision_prediction(alice, 100_0000000, 2300, 0).unwrap();

    // A single prediction always wins, whatever the price.
    m.resolve_round(2500, 12).unwrap();

    assert_eq!(m.get_pending_winnings(alice), 100_0000000);
}

#[test]
fn test_resolve_precision_large_differences() {
    let mut m = initialized();

    m.create_round(100_0000, Some(1), 0).unwrap();

    let alice = Address(1);
    let bob = Address(2);
    m.mint_initial(alice);
    m.mint_initial(bob);

    m.place_precision_prediction(alice, 100_0000000, 1_0000, 0).unwrap();
    m.place_precision_prediction(bob, 100_0000000, 9_9999, 0).unwrap();

    // Actual price 1_0001: Alice is at distance 1, Bob at 8_9998.
    m.resolve_round(1_0001, 12).unwrap();

    assert_eq!(m.get_pending_winnings(alice), 200_0000000);
    assert_eq!(m.get_pending_winnings(bob), 0);
}
