//! The contract state and its operations: initialization, configuration,
//! minting, stake intake, reads and the claim gateway.
//!
//! Every operation is a transition on an explicit state value. The host
//! is expected to verify that the caller controls the acting account
//! before invoking an operation, and to read its clock into the
//! `current_ledger` argument of the time-gated operations; the state
//! itself never consults the outside world.

use vstd::prelude::*;

use crate::payout::{
    lemma_pred_lookup_found, lemma_pred_lookup_none, lemma_pred_no_key, lemma_sum_side_nonneg,
    lemma_sum_side_push, positions_wf, pred_has, pred_lookup, preds_wf, sum_side,
};
use crate::store::{
    all_nonneg, distinct_keys, has_key, lemma_lookup_nonneg, lookup, map_get, map_remove, map_set,
    stored, vec_dup,
};
use crate::types::{
    loss_update, stats_headroom, win_update, zero_stats, Address, BetSide, ContractError,
    PrecisionPrediction, Round, RoundMode, UserPosition, UserStats, DEFAULT_BET_WINDOW,
    DEFAULT_RUN_WINDOW, MAX_PREDICTED_PRICE, MINT_AMOUNT,
};

verus! {

/// The full persistent state of the prediction market: configuration,
/// the singleton active round, and the per-account tables.
pub struct VirtualTokenContract {
    pub admin: Option<Address>,
    pub oracle: Option<Address>,
    pub bet_window: Option<u32>,
    pub run_window: Option<u32>,
    pub active_round: Option<Round>,
    pub balances: Vec<(Address, i128)>,
    pub updown_positions: Vec<(Address, UserPosition)>,
    /// Mirror of `updown_positions` kept for backward compatibility;
    /// every write path updates both, so the two stay equal.
    pub positions: Vec<(Address, UserPosition)>,
    pub precision_positions: Vec<PrecisionPrediction>,
    pub pending_winnings: Vec<(Address, i128)>,
    pub user_stats: Vec<(Address, UserStats)>,
}

/// Linear scan for the prediction recorded for `a`.
fn pred_find(v: &Vec<PrecisionPrediction>, a: Address) -> (r: Option<PrecisionPrediction>)
    ensures
        r == pred_lookup(v@, a),
{
    let mut i: usize = 0;
    while i < v.len()
        invariant
            0 <= i <= v.len(),
            forall|j: int| 0 <= j < i ==> v@[j].user != a,
        decreases v.len() - i,
    {
        if v[i].user == a {
            proof {
                lemma_pred_lookup_found(v@, a, i as int);
            }
            return Some(v[i]);
        }
        i += 1;
    }
    proof {
        lemma_pred_lookup_none(v@, a);
    }
    None
}

impl VirtualTokenContract {
    /// Balance of an account; never minted reads as zero.
    pub open spec fn balance_of(self, a: Address) -> int {
        stored(self.balances@, a, 0) as int
    }

    /// Claimable winnings of an account; absent reads as zero.
    pub open spec fn pending_of(self, a: Address) -> int {
        stored(self.pending_winnings@, a, 0) as int
    }

    /// Statistics of an account; never written reads as all zeros.
    pub open spec fn stats_of(self, a: Address) -> UserStats {
        stored(self.user_stats@, a, zero_stats())
    }

    /// The account's up/down position in the open round, if any.
    pub open spec fn position_of(self, a: Address) -> Option<UserPosition> {
        lookup(self.updown_positions@, a)
    }

    /// The account's exact-price prediction in the open round, if any.
    pub open spec fn prediction_of(self, a: Address) -> Option<PrecisionPrediction> {
        pred_lookup(self.precision_positions@, a)
    }

    /// The configured windows are either both absent (before
    /// initialization) or both present and valid, and initialization
    /// always seeds them.
    pub open spec fn windows_wf(self) -> bool {
        &&& match (self.bet_window, self.run_window) {
            (Some(b), Some(r)) => 0 < b < r,
            (None, None) => true,
            _ => false,
        }
        &&& self.admin is Some ==> self.bet_window is Some
    }

    /// The active round's book-keeping matches its position storage: a
    /// positive start price, ordered time gates, pools equal to the
    /// recorded sums in up/down mode, and each mode's storage empty
    /// while the other mode is running or no round exists.
    pub open spec fn round_wf(self) -> bool {
        match self.active_round {
            Some(rd) => {
                &&& rd.price_start > 0
                &&& rd.start_ledger < rd.bet_end_ledger
                &&& rd.bet_end_ledger < rd.end_ledger
                &&& match rd.mode {
                    RoundMode::UpDown => {
                        &&& rd.pool_up == sum_side(self.updown_positions@, BetSide::Up)
                        &&& rd.pool_down == sum_side(self.updown_positions@, BetSide::Down)
                        &&& self.precision_positions@.len() == 0
                    },
                    RoundMode::Precision => {
                        &&& self.updown_positions@.len() == 0
                        &&& rd.pool_up == 0
                        &&& rd.pool_down == 0
                    },
                }
            },
            None => self.updown_positions@.len() == 0 && self.precision_positions@.len() == 0,
        }
    }

    /// Well-formed state: every table keyed at most once per account,
    /// balances and pending winnings non-negative, wagers positive, the
    /// legacy mirror equal to the up/down table, and the windows and
    /// round books consistent.
    pub open spec fn wf(self) -> bool {
        &&& distinct_keys(self.balances@)
        &&& all_nonneg(self.balances@)
        &&& distinct_keys(self.updown_positions@)
        &&& positions_wf(self.updown_positions@)
        &&& self.positions@ == self.updown_positions@
        &&& preds_wf(self.precision_positions@)
        &&& distinct_keys(self.pending_winnings@)
        &&& all_nonneg(self.pending_winnings@)
        &&& distinct_keys(self.user_stats@)
        &&& self.windows_wf()
        &&& self.round_wf()
    }

    /// Configuration (admin, oracle, windows) unchanged.
    pub open spec fn same_config(pre: Self, post: Self) -> bool {
        &&& post.admin == pre.admin
        &&& post.oracle == pre.oracle
        &&& post.bet_window == pre.bet_window
        &&& post.run_window == pre.run_window
    }

    /// Account tables (balances, pending winnings, statistics) unchanged.
    pub open spec fn same_accounts(pre: Self, post: Self) -> bool {
        &&& post.balances@ == pre.balances@
        &&& post.pending_winnings@ == pre.pending_winnings@
        &&& post.user_stats@ == pre.user_stats@
    }

    /// Round and position storage unchanged.
    pub open spec fn same_round_state(pre: Self, post: Self) -> bool {
        &&& post.active_round == pre.active_round
        &&& post.updown_positions@ == pre.updown_positions@
        &&& post.positions@ == pre.positions@
        &&& post.precision_positions@ == pre.precision_positions@
    }

    /// Nothing observable changed: a failed operation commits nothing.
    pub open spec fn same_state(pre: Self, post: Self) -> bool {
        &&& Self::same_config(pre, post)
        &&& Self::same_accounts(pre, post)
        &&& Self::same_round_state(pre, post)
    }

    /// A fresh, empty contract state.
    pub fn new() -> (c: Self)
        ensures
            c.wf(),
            c.admin is None,
            c.oracle is None,
            c.bet_window is None,
            c.run_window is None,
            c.active_round is None,
            c.balances@ == Seq::<(Address, i128)>::empty(),
            c.updown_positions@ == Seq::<(Address, UserPosition)>::empty(),
            c.positions@ == Seq::<(Address, UserPosition)>::empty(),
            c.precision_positions@ == Seq::<PrecisionPrediction>::empty(),
            c.pending_winnings@ == Seq::<(Address, i128)>::empty(),
            c.user_stats@ == Seq::<(Address, UserStats)>::empty(),
    {
        VirtualTokenContract {
            admin: None,
            oracle: None,
            bet_window: None,
            run_window: None,
            active_round: None,
            balances: Vec::new(),
            updown_positions: Vec::new(),
            positions: Vec::new(),
            precision_positions: Vec::new(),
            pending_winnings: Vec::new(),
            user_stats: Vec::new(),
        }
    }

    /// One-time setup of the admin and oracle identities; also seeds the
    /// default windows. The caller must have been verified as `admin` by
    /// the external identity collaborator.
    pub fn initialize(&mut self, admin: Address, oracle: Address) -> (r: Result<
        (),
        ContractError,
    >)
        requires
            old(self).wf(),
        ensures
            final(self).wf(),
            match r {
                Ok(()) => {
                    &&& old(self).admin is None
                    &&& final(self).admin == Some(admin)
                    &&& final(self).oracle == Some(oracle)
                    &&& final(self).bet_window == Some(DEFAULT_BET_WINDOW)
                    &&& final(self).run_window == Some(DEFAULT_RUN_WINDOW)
                    &&& Self::same_accounts(*old(self), *final(self))
                    &&& Self::same_round_state(*old(self), *final(self))
                },
                Err(e) => {
                    &&& e == ContractError::AlreadyInitialized
                    &&& old(self).admin is Some
                    &&& Self::same_state(*old(self), *final(self))
                },
            },
    {
        if self.admin.is_some() {
            return Err(ContractError::AlreadyInitialized);
        }
        self.admin = Some(admin);
        self.oracle = Some(oracle);
        self.bet_window = Some(DEFAULT_BET_WINDOW);
        self.run_window = Some(DEFAULT_RUN_WINDOW);
        Ok(())
    }

    /// Reconfigures the windows used by rounds created afterwards.
    /// Rejects a zero window and a betting window that does not close
    /// strictly before the run window ends. Admin-authorized.
    pub fn set_windows(&mut self, bet_ledgers: u32, run_ledgers: u32) -> (r: Result<
        (),
        ContractError,
    >)
        requires
            old(self).wf(),
        ensures
            final(self).wf(),
            match r {
                Ok(()) => {
                    &&& old(self).admin is Some
                    &&& 0 < bet_ledgers < run_ledgers
                    &&& final(self).bet_window == Some(bet_ledgers)
                    &&& final(self).run_window == Some(run_ledgers)
                    &&& final(self).admin == old(self).admin
                    &&& final(self).oracle == old(self).oracle
                    &&& Self::same_accounts(*old(self), *final(self))
                    &&& Self::same_round_state(*old(self), *final(self))
                },
                Err(e) => {
                    &&& Self::same_state(*old(self), *final(self))
                    &&& if old(self).admin is None {
                        e == ContractError::AdminNotSet
                    } else {
                        &&& e == ContractError::InvalidDuration
                        &&& (bet_ledgers == 0 || run_ledgers == 0 || bet_ledgers >= run_ledgers)
                    }
                },
            },
    {
        if self.admin.is_none() {
            return Err(ContractError::AdminNotSet);
        }
        if bet_ledgers == 0 || run_ledgers == 0 {
            return Err(ContractError::InvalidDuration);
        }
        if bet_ledgers >= run_ledgers {
            return Err(ContractError::InvalidDuration);
        }
        self.bet_window = Some(bet_ledgers);
        self.run_window = Some(run_ledgers);
        Ok(())
    }

    /// Numeric mode selector with its default: absent means up/down.
    pub open spec fn mode_value(mode: Option<u32>) -> u32 {
        match mode {
            Some(m) => m,
            None => 0,
        }
    }

    /// Betting window in force: the configured one, or the default.
    pub open spec fn eff_bet_window(self) -> u32 {
        match self.bet_window {
            Some(b) => b,
            None => DEFAULT_BET_WINDOW,
        }
    }

    /// Run window in force: the configured one, or the default.
    pub open spec fn eff_run_window(self) -> u32 {
        match self.run_window {
            Some(w) => w,
            None => DEFAULT_RUN_WINDOW,
        }
    }

    /// Which error, if any, `create_round` reports, in the order the
    /// checks are made.
    pub open spec fn create_round_check(
        pre: Self,
        start_price: u128,
        mode: Option<u32>,
        now: u32,
    ) -> Result<(), ContractError> {
        if start_price == 0 {
            Err(ContractError::InvalidPrice)
        } else if Self::mode_value(mode) > 1 {
            Err(ContractError::InvalidMode)
        } else if pre.admin is None {
            Err(ContractError::AdminNotSet)
        } else if now + pre.eff_bet_window() > u32::MAX || now + pre.eff_run_window()
            > u32::MAX {
            Err(ContractError::Overflow)
        } else {
            Ok(())
        }
    }

    /// The round a successful `create_round` installs.
    pub open spec fn round_for(pre: Self, start_price: u128, mode: Option<u32>, now: u32) -> Round {
        Round {
            price_start: start_price,
            start_ledger: now,
            bet_end_ledger: (now + pre.eff_bet_window()) as u32,
            end_ledger: (now + pre.eff_run_window()) as u32,
            pool_up: 0,
            pool_down: 0,
            mode: if Self::mode_value(mode) == 0 {
                RoundMode::UpDown
            } else {
                RoundMode::Precision
            },
        }
    }

    /// Full behaviour of `create_round`: on success the new round is
    /// installed and any stale position storage of an earlier, possibly
    /// unresolved round is cleared; on failure nothing changes.
    pub open spec fn create_round_post(
        pre: Self,
        post: Self,
        start_price: u128,
        mode: Option<u32>,
        now: u32,
        r: Result<(), ContractError>,
    ) -> bool {
        match r {
            Ok(()) => {
                &&& Self::create_round_check(pre, start_price, mode, now) is Ok
                &&& post.active_round == Some(Self::round_for(pre, start_price, mode, now))
                &&& post.updown_positions@.len() == 0
                &&& post.positions@.len() == 0
                &&& post.precision_positions@.len() == 0
                &&& Self::same_config(pre, post)
                &&& Self::same_accounts(pre, post)
            },
            Err(e) => {
                &&& Err::<(), ContractError>(e) == Self::create_round_check(
                    pre,
                    start_price,
                    mode,
                    now,
                )
                &&& Self::same_state(pre, post)
            },
        }
    }

    /// Opens a new round at the given start price and mode selector
    /// (0 up/down, 1 precision, anything else rejected), reading the
    /// clock from `current_ledger`. Admin-authorized.
    pub fn create_round(&mut self, start_price: u128, mode: Option<u32>, current_ledger: u32) -> (r:
        Result<(), ContractError>)
        requires
            old(self).wf(),
        ensures
            final(self).wf(),
            Self::create_round_post(
                *old(self),
                *final(self),
                start_price,
                mode,
                current_ledger,
                r,
            ),
    {
        if start_price == 0 {
            return Err(ContractError::InvalidPrice);
        }
        let mode_value: u32 = match mode {
            Some(m) => m,
            None => 0,
        };
        if mode_value > 1 {
            return Err(ContractError::InvalidMode);
        }
        if self.admin.is_none() {
            return Err(ContractError::AdminNotSet);
        }
        let bet_ledgers: u32 = match self.bet_window {
            Some(b) => b,
            None => DEFAULT_BET_WINDOW,
        };
        let run_ledgers: u32 = match self.run_window {
            Some(w) => w,
            None => DEFAULT_RUN_WINDOW,
        };
        let bet_end_ledger: u32 = match current_ledger.checked_add(bet_ledgers) {
            Some(v) => v,
            None => {
                return Err(ContractError::Overflow);
            },
        };
        let end_ledger: u32 = match current_ledger.checked_add(run_ledgers) {
            Some(v) => v,
            None => {
                return Err(ContractError::Overflow);
            },
        };
        let round_mode = if mode_value == 0 {
            RoundMode::UpDown
        } else {
            RoundMode::Precision
        };
        self.active_round = Some(
            Round {
                price_start: start_price,
                start_ledger: current_ledger,
                bet_end_ledger,
                end_ledger,
                pool_up: 0,
                pool_down: 0,
                mode: round_mode,
            },
        );
        self.updown_positions = Vec::new();
        self.positions = Vec::new();
        self.precision_positions = Vec::new();
        Ok(())
    }

    /// The currently active round, if any.
    pub fn get_active_round(&self) -> (r: Option<Round>)
        ensures
            r == self.active_round,
    {
        self.active_round
    }

    /// The admin identity, if set.
    pub fn get_admin(&self) -> (r: Option<Address>)
        ensures
            r == self.admin,
    {
        self.admin
    }

    /// The oracle identity, if set.
    pub fn get_oracle(&self) -> (r: Option<Address>)
        ensures
            r == self.oracle,
    {
        self.oracle
    }

    /// Statistics for an account; all zeros if never written.
    pub fn get_user_stats(&self, user: Address) -> (r: UserStats)
        ensures
            r == self.stats_of(user),
    {
        match map_get(&self.user_stats, user) {
            Some(s) => s,
            None => UserStats {
                total_wins: 0,
                total_losses: 0,
                current_streak: 0,
                best_streak: 0,
            },
        }
    }

    /// Claimable winnings of an account; zero if none.
    pub fn get_pending_winnings(&self, user: Address) -> (r: i128)
        ensures
            r == self.pending_of(user),
    {
        match map_get(&self.pending_winnings, user) {
            Some(p) => p,
            None => 0,
        }
    }

    /// Balance of an account; zero if never minted.
    pub fn balance(&self, user: Address) -> (r: i128)
        ensures
            r == self.balance_of(user),
    {
        match map_get(&self.balances, user) {
            Some(b) => b,
            None => 0,
        }
    }

    /// Full behaviour of `mint_initial`: an account that already has a
    /// balance record gets it back unchanged; a new account is granted
    /// the fixed mint amount exactly once.
    pub open spec fn mint_post(pre: Self, post: Self, user: Address, r: i128) -> bool {
        &&& Self::same_config(pre, post)
        &&& Self::same_round_state(pre, post)
        &&& post.pending_winnings@ == pre.pending_winnings@
        &&& post.user_stats@ == pre.user_stats@
        &&& if has_key(pre.balances@, user) {
            &&& r == stored(pre.balances@, user, 0)
            &&& post.balances@ == pre.balances@
        } else {
            &&& r == MINT_AMOUNT
            &&& post.balance_of(user) == MINT_AMOUNT
            &&& has_key(post.balances@, user)
            &&& forall|b: Address| b != user ==> lookup(post.balances@, b) == lookup(
                pre.balances@,
                b,
            )
        }
    }

    /// Grants a fixed one-time starting balance. Idempotent: a second
    /// call returns the stored balance without minting again.
    /// Account-authorized.
    pub fn mint_initial(&mut self, user: Address) -> (r: i128)
        requires
            old(self).wf(),
        ensures
            final(self).wf(),
            Self::mint_post(*old(self), *final(self), user, r),
    {
        match map_get(&self.balances, user) {
            Some(existing) => existing,
            None => {
                map_set(&mut self.balances, user, MINT_AMOUNT);
                proof {
                    crate::store::lemma_values_carry_nonneg(
                        old(self).balances@,
                        self.balances@,
                        user,
                        MINT_AMOUNT,
                    );
                }
                MINT_AMOUNT
            },
        }
    }

    /// The pool a bet on `side` would grow, after growing it.
    pub open spec fn grown_pool(rd: Round, amount: i128, side: BetSide) -> int {
        match side {
            BetSide::Up => rd.pool_up + amount,
            BetSide::Down => rd.pool_down + amount,
        }
    }

    /// The round record after a bet is booked on one side.
    pub open spec fn round_after_bet(rd: Round, amount: i128, side: BetSide) -> Round {
        match side {
            BetSide::Up => Round { pool_up: (rd.pool_up + amount) as i128, ..rd },
            BetSide::Down => Round { pool_down: (rd.pool_down + amount) as i128, ..rd },
        }
    }

    /// Which error, if any, `place_bet` reports, in the order the checks
    /// are made.
    pub open spec fn place_bet_check(
        pre: Self,
        user: Address,
        amount: i128,
        side: BetSide,
        now: u32,
    ) -> Result<(), ContractError> {
        if amount <= 0 {
            Err(ContractError::InvalidBetAmount)
        } else if pre.active_round is None {
            Err(ContractError::NoActiveRound)
        } else if pre.active_round.unwrap().mode != RoundMode::UpDown {
            Err(ContractError::WrongModeForPrediction)
        } else if now >= pre.active_round.unwrap().bet_end_ledger {
            Err(ContractError::RoundEnded)
        } else if pre.balance_of(user) < amount {
            Err(ContractError::InsufficientBalance)
        } else if has_key(pre.updown_positions@, user) {
            Err(ContractError::AlreadyBet)
        } else if Self::grown_pool(pre.active_round.unwrap(), amount, side) > i128::MAX {
            Err(ContractError::Overflow)
        } else {
            Ok(())
        }
    }

    /// Full behaviour of `place_bet`: on success the stake is debited
    /// atomically with recording the position (in both position tables)
    /// and growing the chosen pool; on failure nothing changes.
    pub open spec fn place_bet_post(
        pre: Self,
        post: Self,
        user: Address,
        amount: i128,
        side: BetSide,
        now: u32,
        r: Result<(), ContractError>,
    ) -> bool {
        match r {
            Ok(()) => {
                &&& Self::place_bet_check(pre, user, amount, side, now) is Ok
                &&& post.balance_of(user) == pre.balance_of(user) - amount
                &&& forall|b: Address| b != user ==> post.balance_of(b) == pre.balance_of(b)
                &&& post.updown_positions@ == pre.updown_positions@.push(
                    (user, UserPosition { amount, side }),
                )
                &&& post.positions@ == post.updown_positions@
                &&& post.precision_positions@ == pre.precision_positions@
                &&& post.active_round == Some(
                    Self::round_after_bet(pre.active_round.unwrap(), amount, side),
                )
                &&& Self::same_config(pre, post)
                &&& post.pending_winnings@ == pre.pending_winnings@
                &&& post.user_stats@ == pre.user_stats@
            },
            Err(e) => {
                &&& Err::<(), ContractError>(e) == Self::place_bet_check(
                    pre,
                    user,
                    amount,
                    side,
                    now,
                )
                &&& Self::same_state(pre, post)
            },
        }
    }

    /// Wagers `amount` on `side` of the open up/down round, debiting the
    /// balance and growing the matching pool, at most one position per
    /// account per round. Account-authorized.
    pub fn place_bet(&mut self, user: Address, amount: i128, side: BetSide, current_ledger: u32)
        -> (r: Result<(), ContractError>)
        requires
            old(self).wf(),
        ensures
            final(self).wf(),
            Self::place_bet_post(*old(self), *final(self), user, amount, side, current_ledger, r),
    {
        if amount <= 0 {
            return Err(ContractError::InvalidBetAmount);
        }
        let round = match self.active_round {
            Some(rd) => rd,
            None => {
                return Err(ContractError::NoActiveRound);
            },
        };
        if round.mode != RoundMode::UpDown {
            return Err(ContractError::WrongModeForPrediction);
        }
        if current_ledger >= round.bet_end_ledger {
            return Err(ContractError::RoundEnded);
        }
        let user_balance: i128 = match map_get(&self.balances, user) {
            Some(b) => b,
            None => 0,
        };
        if user_balance < amount {
            return Err(ContractError::InsufficientBalance);
        }
        if map_get(&self.updown_positions, user).is_some() {
            return Err(ContractError::AlreadyBet);
        }
        proof {
            lemma_sum_side_nonneg(self.updown_positions@, BetSide::Up);
            lemma_sum_side_nonneg(self.updown_positions@, BetSide::Down);
        }
        let new_pool: i128 = match (match side {
            BetSide::Up => round.pool_up.checked_add(amount),
            BetSide::Down => round.pool_down.checked_add(amount),
        }) {
            Some(p) => p,
            None => {
                return Err(ContractError::Overflow);
            },
        };
        let new_balance: i128 = user_balance - amount;
        let ghost balances0 = self.balances@;
        map_set(&mut self.balances, user, new_balance);
        proof {
            crate::store::lemma_values_carry_nonneg(balances0, self.balances@, user, new_balance);
            crate::store::lemma_lookup_push(
                self.updown_positions@,
                user,
                UserPosition { amount, side },
            );
            lemma_sum_side_push(
                self.updown_positions@,
                (user, UserPosition { amount, side }),
                BetSide::Up,
            );
            lemma_sum_side_push(
                self.updown_positions@,
                (user, UserPosition { amount, side }),
                BetSide::Down,
            );
        }
        let position = UserPosition { amount, side };
        self.updown_positions.push((user, position));
        self.positions.push((user, position));
        let new_round = match side {
            BetSide::Up => Round { pool_up: new_pool, ..round },
            BetSide::Down => Round { pool_down: new_pool, ..round },
        };
        self.active_round = Some(new_round);
        Ok(())
    }

    /// Which error, if any, `place_precision_prediction` reports, in the
    /// order the checks are made.
    pub open spec fn place_precision_check(
        pre: Self,
        user: Address,
        amount: i128,
        predicted_price: u128,
        now: u32,
    ) -> Result<(), ContractError> {
        if amount <= 0 {
            Err(ContractError::InvalidBetAmount)
        } else if predicted_price > MAX_PREDICTED_PRICE {
            Err(ContractError::InvalidPriceScale)
        } else if pre.active_round is None {
            Err(ContractError::NoActiveRound)
        } else if pre.active_round.unwrap().mode != RoundMode::Precision {
            Err(ContractError::WrongModeForPrediction)
        } else if now >= pre.active_round.unwrap().bet_end_ledger {
            Err(ContractError::RoundEnded)
        } else if pre.balance_of(user) < amount {
            Err(ContractError::InsufficientBalance)
        } else if pred_has(pre.precision_positions@, user) {
            Err(ContractError::AlreadyBet)
        } else {
            Ok(())
        }
    }

    /// Full behaviour of `place_precision_prediction`: on success the
    /// stake is debited atomically with appending the prediction; on
    /// failure nothing changes.
    pub open spec fn place_precision_post(
        pre: Self,
        post: Self,
        user: Address,
        amount: i128,
        predicted_price: u128,
        now: u32,
        r: Result<(), ContractError>,
    ) -> bool {
        match r {
            Ok(()) => {
                &&& Self::place_precision_check(pre, user, amount, predicted_price, now) is Ok
                &&& post.balance_of(user) == pre.balance_of(user) - amount
                &&& forall|b: Address| b != user ==> post.balance_of(b) == pre.balance_of(b)
                &&& post.precision_positions@ == pre.precision_positions@.push(
                    PrecisionPrediction { user, predicted_price, amount },
                )
                &&& post.updown_positions@ == pre.updown_positions@
                &&& post.positions@ == pre.positions@
                &&& post.active_round == pre.active_round
                &&& Self::same_config(pre, post)
                &&& post.pending_winnings@ == pre.pending_winnings@
                &&& post.user_stats@ == pre.user_stats@
            },
            Err(e) => {
                &&& Err::<(), ContractError>(e) == Self::place_precision_check(
                    pre,
                    user,
                    amount,
                    predicted_price,
                    now,
                )
                &&& Self::same_state(pre, post)
            },
        }
    }

    /// Stakes `amount` on an exact price guess in the open precision
    /// round, at most one prediction per account per round.
    /// Account-authorized.
    pub fn place_precision_prediction(
        &mut self,
        user: Address,
        amount: i128,
        predicted_price: u128,
        current_ledger: u32,
    ) -> (r: Result<(), ContractError>)
        requires
            old(self).wf(),
        ensures
            final(self).wf(),
            Self::place_precision_post(
                *old(self),
                *final(self),
                user,
                amount,
                predicted_price,
                current_ledger,
                r,
            ),
    {
        if amount <= 0 {
            return Err(ContractError::InvalidBetAmount);
        }
        if predicted_price > MAX_PREDICTED_PRICE {
            return Err(ContractError::InvalidPriceScale);
        }
        let round = match self.active_round {
            Some(rd) => rd,
            None => {
                return Err(ContractError::NoActiveRound);
            },
        };
        if round.mode != RoundMode::Precision {
            return Err(ContractError::WrongModeForPrediction);
        }
        if current_ledger >= round.bet_end_ledger {
            return Err(ContractError::RoundEnded);
        }
        let user_balance: i128 = match map_get(&self.balances, user) {
            Some(b) => b,
            None => 0,
        };
        if user_balance < amount {
            return Err(ContractError::InsufficientBalance);
        }
        if pred_find(&self.precision_positions, user).is_some() {
            return Err(ContractError::AlreadyBet);
        }
        let new_balance: i128 = user_balance - amount;
        let ghost balances0 = self.balances@;
        map_set(&mut self.balances, user, new_balance);
        proof {
            crate::store::lemma_values_carry_nonneg(balances0, self.balances@, user, new_balance);
            lemma_pred_no_key(self.precision_positions@, user);
        }
        self.precision_positions.push(
            PrecisionPrediction { user, predicted_price, amount },
        );
        Ok(())
    }

    /// Alias for `place_precision_prediction` with the guess and the
    /// stake in the opposite order.
    pub fn predict_price(
        &mut self,
        user: Address,
        guessed_price: u128,
        amount: i128,
        current_ledger: u32,
    ) -> (r: Result<(), ContractError>)
        requires
            old(self).wf(),
        ensures
            final(self).wf(),
            Self::place_precision_post(
                *old(self),
                *final(self),
                user,
                amount,
                guessed_price,
                current_ledger,
                r,
            ),
    {
        self.place_precision_prediction(user, amount, guessed_price, current_ledger)
    }

    /// The caller's up/down position in the current round, if any.
    pub fn get_user_position(&self, user: Address) -> (r: Option<UserPosition>)
        ensures
            r == self.position_of(user),
    {
        map_get(&self.updown_positions, user)
    }

    /// The caller's precision prediction in the current round, if any.
    pub fn get_user_precision_prediction(&self, user: Address) -> (r: Option<PrecisionPrediction>)
        ensures
            r == self.prediction_of(user),
    {
        pred_find(&self.precision_positions, user)
    }

    /// All precision predictions of the current round, in entry order.
    pub fn get_precision_predictions(&self) -> (r: Vec<PrecisionPrediction>)
        ensures
            r@ == self.precision_positions@,
    {
        vec_dup(&self.precision_positions)
    }

    /// All up/down positions of the current round.
    pub fn get_updown_positions(&self) -> (r: Vec<(Address, UserPosition)>)
        ensures
            r@ == self.updown_positions@,
    {
        vec_dup(&self.updown_positions)
    }

    /// Records one win for an account: total wins and the streak grow,
    /// and the best streak is raised when surpassed. Invoked by the
    /// resolution engine.
    pub fn _update_stats_win(&mut self, user: Address)
        requires
            old(self).wf(),
            stats_headroom(old(self).stats_of(user)),
        ensures
            final(self).wf(),
            final(self).stats_of(user) == win_update(old(self).stats_of(user)),
            forall|b: Address| b != user ==> final(self).stats_of(b) == old(self).stats_of(b),
            final(self).balances@ == old(self).balances@,
            final(self).pending_winnings@ == old(self).pending_winnings@,
            Self::same_config(*old(self), *final(self)),
            Self::same_round_state(*old(self), *final(self)),
    {
        let stats = self.get_user_stats(user);
        let new_streak: u32 = stats.current_streak + 1;
        let best: u32 = if new_streak > stats.best_streak {
            new_streak
        } else {
            stats.best_streak
        };
        let updated = UserStats {
            total_wins: stats.total_wins + 1,
            total_losses: stats.total_losses,
            current_streak: new_streak,
            best_streak: best,
        };
        map_set(&mut self.user_stats, user, updated);
    }

    /// Records one loss for an account: total losses grow and the streak
    /// resets; the best streak is untouched. Invoked by the resolution
    /// engine.
    pub fn _update_stats_loss(&mut self, user: Address)
        requires
            old(self).wf(),
            stats_headroom(old(self).stats_of(user)),
        ensures
            final(self).wf(),
            final(self).stats_of(user) == loss_update(old(self).stats_of(user)),
            forall|b: Address| b != user ==> final(self).stats_of(b) == old(self).stats_of(b),
            final(self).balances@ == old(self).balances@,
            final(self).pending_winnings@ == old(self).pending_winnings@,
            Self::same_config(*old(self), *final(self)),
            Self::same_round_state(*old(self), *final(self)),
    {
        let stats = self.get_user_stats(user);
        let updated = UserStats {
            total_wins: stats.total_wins,
            total_losses: stats.total_losses + 1,
            current_streak: 0,
            best_streak: stats.best_streak,
        };
        map_set(&mut self.user_stats, user, updated);
    }

    /// Moves the whole pending-winnings record of an account into its
    /// spendable balance and returns the amount moved; with nothing
    /// pending this is a no-op returning zero. Account-authorized. The
    /// caller must ensure the credited balance fits the balance type;
    /// the host treats a violation as an aborted call.
    pub fn claim_winnings(&mut self, user: Address) -> (r: i128)
        requires
            old(self).wf(),
            old(self).balance_of(user) + old(self).pending_of(user) <= i128::MAX,
        ensures
            final(self).wf(),
            r == old(self).pending_of(user),
            final(self).balance_of(user) == old(self).balance_of(user) + old(self).pending_of(
                user,
            ),
            final(self).pending_of(user) == 0,
            forall|b: Address| b != user ==> final(self).balance_of(b) == old(self).balance_of(b),
            forall|b: Address| b != user ==> final(self).pending_of(b) == old(self).pending_of(b),
            final(self).user_stats@ == old(self).user_stats@,
            Self::same_config(*old(self), *final(self)),
            Self::same_round_state(*old(self), *final(self)),
    {
        let pending: i128 = match map_get(&self.pending_winnings, user) {
            Some(p) => p,
            None => 0,
        };
        if pending == 0 {
            return 0;
        }
        proof {
            lemma_lookup_nonneg(self.pending_winnings@, user);
        }
        let current_balance: i128 = match map_get(&self.balances, user) {
            Some(b) => b,
            None => 0,
        };
        proof {
            if has_key(self.balances@, user) {
                lemma_lookup_nonneg(self.balances@, user);
            }
        }
        let new_balance: i128 = current_balance + pending;
        let ghost balances0 = self.balances@;
        map_set(&mut self.balances, user, new_balance);
        proof {
            crate::store::lemma_values_carry_nonneg(balances0, self.balances@, user, new_balance);
        }
        map_remove(&mut self.pending_winnings, user);
        proof {
            crate::store::lemma_values_kept_nonneg(old(self).pending_winnings@,
                self.pending_winnings@);
        }
        pending
    }
}

} // verus!
