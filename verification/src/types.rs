//! Data model: accounts, rounds, positions, statistics and errors.

use vstd::prelude::*;

verus! {

/// An account identifier. The identity verifier that decides whether a
/// caller controls an account is an external collaborator; inside the
/// accounting core an account is only ever compared for equality.
#[derive(Clone, Copy, PartialEq, Eq, Structural, Debug, Hash)]
pub struct Address(pub u64);

/// Prediction style of a round.
#[derive(Clone, Copy, PartialEq, Eq, Structural, Debug)]
pub enum RoundMode {
    /// Simple up/down predictions against the start price.
    UpDown,
    /// Exact price predictions.
    Precision,
}

/// Which direction a user bet on in an up/down round.
#[derive(Clone, Copy, PartialEq, Eq, Structural, Debug)]
pub enum BetSide {
    Up,
    Down,
}

/// A single up/down wager.
#[derive(Clone, Copy, PartialEq, Eq, Structural, Debug)]
pub struct UserPosition {
    pub amount: i128,
    pub side: BetSide,
}

/// Win/loss counters and streaks for one account.
#[derive(Clone, Copy, PartialEq, Eq, Structural, Debug)]
pub struct UserStats {
    pub total_wins: u32,
    pub total_losses: u32,
    pub current_streak: u32,
    pub best_streak: u32,
}

/// An exact-price guess: account, predicted price (scaled to 4 decimal
/// digits, e.g. 0.2297 is stored as 2297) and stake.
#[derive(Clone, Copy, PartialEq, Eq, Structural, Debug)]
pub struct PrecisionPrediction {
    pub user: Address,
    pub predicted_price: u128,
    pub amount: i128,
}

/// One betting cycle. `bet_end_ledger` and `end_ledger` are derived from
/// the windows configured when the round is created.
#[derive(Clone, Copy, PartialEq, Eq, Structural, Debug)]
pub struct Round {
    pub price_start: u128,
    pub start_ledger: u32,
    pub bet_end_ledger: u32,
    pub end_ledger: u32,
    pub pool_up: i128,
    pub pool_down: i128,
    pub mode: RoundMode,
}

/// Every failure an operation can report. Validation failures
/// short-circuit before any state mutation.
#[derive(Clone, Copy, PartialEq, Eq, Structural, Debug)]
pub enum ContractError {
    AlreadyInitialized,
    AdminNotSet,
    OracleNotSet,
    InvalidPrice,
    InvalidMode,
    InvalidDuration,
    InvalidBetAmount,
    InvalidPriceScale,
    NoActiveRound,
    WrongModeForPrediction,
    RoundEnded,
    RoundNotEnded,
    InsufficientBalance,
    AlreadyBet,
    Overflow,
}

/// Balance granted by the one-time mint: 1000 units at 7 decimal places.
pub const MINT_AMOUNT: i128 = 10_000_000_000;

/// Default betting window (in ledgers) seeded at initialization.
pub const DEFAULT_BET_WINDOW: u32 = 6;

/// Default run window (in ledgers) seeded at initialization.
pub const DEFAULT_RUN_WINDOW: u32 = 12;

/// Largest accepted predicted price (9999.9999 at 4 decimal digits).
pub const MAX_PREDICTED_PRICE: u128 = 99_999_999;

/// The statistics record of an account that was never written.
pub open spec fn zero_stats() -> UserStats {
    UserStats { total_wins: 0, total_losses: 0, current_streak: 0, best_streak: 0 }
}

/// Statistics after a recorded win: one more win, the streak grows, and
/// the best streak is raised to the current streak if it was surpassed.
pub open spec fn win_update(s: UserStats) -> UserStats {
    UserStats {
        total_wins: (s.total_wins + 1) as u32,
        total_losses: s.total_losses,
        current_streak: (s.current_streak + 1) as u32,
        best_streak: if s.current_streak + 1 > s.best_streak {
            (s.current_streak + 1) as u32
        } else {
            s.best_streak
        },
    }
}

/// Statistics after a recorded loss: one more loss, the streak resets,
/// the best streak is untouched.
pub open spec fn loss_update(s: UserStats) -> UserStats {
    UserStats {
        total_wins: s.total_wins,
        total_losses: (s.total_losses + 1) as u32,
        current_streak: 0,
        best_streak: s.best_streak,
    }
}

/// The counters a resolution may increment are below their type's
/// maximum, so recording a win or a loss cannot wrap.
pub open spec fn stats_headroom(s: UserStats) -> bool {
    &&& s.total_wins < u32::MAX
    &&& s.total_losses < u32::MAX
    &&& s.current_streak < u32::MAX
}

} // verus!
