//! The resolution and payout engine: given the final price it computes
//! winners and per-account payouts, credits pending winnings, updates
//! statistics, and retires the round.

use vstd::prelude::*;

use vstd::arithmetic::div_mod::{lemma_div_nonincreasing, lemma_div_pos_is_pos};
use vstd::arithmetic::mul::lemma_mul_nonnegative;

use crate::contract::VirtualTokenContract;
use crate::payout::{
    count_at, dist, lemma_count_at_pos, lemma_min_dist_achieved, lemma_pot_prefix,
    lemma_pred_no_key, lemma_sum_side_nonneg, min_dist, positions_wf, pot_of, pred_has, preds_wf,
    updown_payout,
};
use crate::store::{
    all_nonneg, distinct_keys, has_key, lemma_lookup_nonneg, lemma_no_key_no_entry,
    lemma_values_carry_nonneg, lookup, map_get, map_set, stored, vec_dup,
};
use crate::types::{
    loss_update, stats_headroom, win_update, zero_stats, Address, BetSide, ContractError,
    PrecisionPrediction, Round, RoundMode, UserPosition, UserStats,
};

verus! {

/// Every account holding a position has room left in its counters for
/// one more recorded win or loss.
pub open spec fn headroom_positions(
    stats: Seq<(Address, UserStats)>,
    positions: Seq<(Address, UserPosition)>,
) -> bool {
    forall|i: int|
        #![trigger positions[i]]
        0 <= i < positions.len() ==> stats_headroom(stored(stats, positions[i].0, zero_stats()))
}

/// Every account holding a prediction has room left in its counters for
/// one more recorded win or loss.
pub open spec fn headroom_preds(
    stats: Seq<(Address, UserStats)>,
    preds: Seq<PrecisionPrediction>,
) -> bool {
    forall|i: int|
        #![trigger preds[i]]
        0 <= i < preds.len() ==> stats_headroom(stored(stats, preds[i].user, zero_stats()))
}

/// Floor of `a / b` for a non-negative dividend and a positive divisor,
/// computed through the unsigned type so the quotient is exact.
fn div_floor(a: i128, b: i128) -> (r: i128)
    requires
        a >= 0,
        b > 0,
    ensures
        r == a as int / b as int,
        r >= 0,
{
    let q: u128 = (a as u128) / (b as u128);
    proof {
        lemma_div_nonincreasing(a as int, b as int);
        lemma_div_pos_is_pos(a as int, b as int);
    }
    q as i128
}

impl VirtualTokenContract {
    /// Crediting every staker's own amount back would overflow some
    /// pending-winnings record.
    pub open spec fn refund_overflow(
        pending: Seq<(Address, i128)>,
        positions: Seq<(Address, UserPosition)>,
    ) -> bool {
        exists|i: int|
            #![trigger positions[i]]
            0 <= i < positions.len() && stored(pending, positions[i].0, 0)
                + positions[i].1.amount > i128::MAX
    }

    /// Paying out the position at index `i` would overflow: in the
    /// proportional-share product, the payout sum, or the credited
    /// pending record.
    pub open spec fn overflow_at(
        pending: Seq<(Address, i128)>,
        positions: Seq<(Address, UserPosition)>,
        side: BetSide,
        winning_pool: int,
        losing_pool: int,
        i: int,
    ) -> bool {
        positions[i].1.side == side && {
            let a = positions[i].1.amount as int;
            ||| a * losing_pool > i128::MAX
            ||| updown_payout(a, winning_pool, losing_pool) > i128::MAX
            ||| stored(pending, positions[i].0, 0) + updown_payout(
                a,
                winning_pool,
                losing_pool,
            ) > i128::MAX
        }
    }

    /// Paying the winning side would overflow somewhere.
    pub open spec fn updown_overflow(
        pending: Seq<(Address, i128)>,
        positions: Seq<(Address, UserPosition)>,
        side: BetSide,
        winning_pool: int,
        losing_pool: int,
    ) -> bool {
        exists|i: int|
            0 <= i < positions.len() && #[trigger] Self::overflow_at(
                pending,
                positions,
                side,
                winning_pool,
                losing_pool,
                i,
            )
    }

    /// Each winner's share of the pot: the whole stake of the round
    /// divided by the number of winners, rounded down.
    pub open spec fn precision_share(preds: Seq<PrecisionPrediction>, final_price: u128) -> int {
        pot_of(preds) / count_at(preds, final_price, min_dist(preds, final_price))
    }

    /// Summing the pot or crediting some winner would overflow.
    pub open spec fn precision_overflow(
        pending: Seq<(Address, i128)>,
        preds: Seq<PrecisionPrediction>,
        final_price: u128,
    ) -> bool {
        ||| pot_of(preds) > i128::MAX
        ||| exists|i: int|
            #![trigger preds[i]]
            0 <= i < preds.len() && dist(preds[i].predicted_price, final_price) == min_dist(
                preds,
                final_price,
            ) && stored(pending, preds[i].user, 0) + Self::precision_share(preds, final_price)
                > i128::MAX
    }

    /// The side that wins when the price moved (equality is the refund
    /// case and never reaches this question).
    pub open spec fn winning_side(rd: Round, final_price: u128) -> BetSide {
        if final_price > rd.price_start {
            BetSide::Up
        } else {
            BetSide::Down
        }
    }

    /// Pool of the winning side.
    pub open spec fn winning_pool(rd: Round, final_price: u128) -> int {
        if final_price > rd.price_start {
            rd.pool_up as int
        } else {
            rd.pool_down as int
        }
    }

    /// Pool of the losing side.
    pub open spec fn losing_pool(rd: Round, final_price: u128) -> int {
        if final_price > rd.price_start {
            rd.pool_down as int
        } else {
            rd.pool_up as int
        }
    }

    /// Whether resolving would overflow, by mode and price movement.
    pub open spec fn resolve_overflow(pre: Self, final_price: u128) -> bool {
        match pre.active_round {
            Some(rd) => match rd.mode {
                RoundMode::UpDown => {
                    if final_price == rd.price_start {
                        Self::refund_overflow(pre.pending_winnings@, pre.updown_positions@)
                    } else {
                        Self::winning_pool(rd, final_price) != 0 && Self::updown_overflow(
                            pre.pending_winnings@,
                            pre.updown_positions@,
                            Self::winning_side(rd, final_price),
                            Self::winning_pool(rd, final_price),
                            Self::losing_pool(rd, final_price),
                        )
                    }
                },
                RoundMode::Precision => pre.precision_positions@.len() > 0
                    && Self::precision_overflow(
                    pre.pending_winnings@,
                    pre.precision_positions@,
                    final_price,
                ),
            },
            None => false,
        }
    }

    /// Which error, if any, `resolve_round` reports, in the order the
    /// checks are made.
    pub open spec fn resolve_check(pre: Self, final_price: u128, now: u32) -> Result<
        (),
        ContractError,
    > {
        if final_price == 0 {
            Err(ContractError::InvalidPrice)
        } else if pre.oracle is None {
            Err(ContractError::OracleNotSet)
        } else if pre.active_round is None {
            Err(ContractError::NoActiveRound)
        } else if now < pre.active_round.unwrap().end_ledger {
            Err(ContractError::RoundNotEnded)
        } else if Self::resolve_overflow(pre, final_price) {
            Err(ContractError::Overflow)
        } else {
            Ok(())
        }
    }

    /// How a successful resolution rewrites pending winnings and
    /// statistics, account by account.
    pub open spec fn resolve_payouts(pre: Self, post: Self, final_price: u128) -> bool {
        let rd = pre.active_round.unwrap();
        match rd.mode {
            RoundMode::UpDown => {
                let pos = pre.updown_positions@;
                if final_price == rd.price_start {
                    // Unchanged price: every staker is refunded exactly
                    // their own stake and no statistics move.
                    &&& forall|i: int|
                        #![trigger pos[i]]
                        0 <= i < pos.len() ==> post.pending_of(pos[i].0) == pre.pending_of(
                            pos[i].0,
                        ) + pos[i].1.amount
                    &&& forall|b: Address|
                        !has_key(pos, b) ==> post.pending_of(b) == pre.pending_of(b)
                    &&& post.user_stats@ == pre.user_stats@
                } else {
                    let side = Self::winning_side(rd, final_price);
                    let wpool = Self::winning_pool(rd, final_price);
                    let lpool = Self::losing_pool(rd, final_price);
                    if wpool == 0 {
                        // Nobody staked the winning side: no payouts,
                        // no statistics; the stakes stay forfeited.
                        &&& post.pending_winnings@ == pre.pending_winnings@
                        &&& post.user_stats@ == pre.user_stats@
                    } else {
                        &&& forall|i: int|
                            #![trigger pos[i]]
                            0 <= i < pos.len() && pos[i].1.side == side
                                ==> post.pending_of(pos[i].0) == pre.pending_of(pos[i].0)
                                + updown_payout(pos[i].1.amount as int, wpool, lpool)
                                && post.stats_of(pos[i].0) == win_update(pre.stats_of(pos[i].0))
                        &&& forall|i: int|
                            #![trigger pos[i]]
                            0 <= i < pos.len() && pos[i].1.side != side ==> post.pending_of(
                                pos[i].0,
                            ) == pre.pending_of(pos[i].0) && post.stats_of(pos[i].0)
                                == loss_update(pre.stats_of(pos[i].0))
                        &&& forall|b: Address|
                            !has_key(pos, b) ==> post.pending_of(b) == pre.pending_of(b)
                                && post.stats_of(b) == pre.stats_of(b)
                    }
                }
            },
            RoundMode::Precision => {
                let preds = pre.precision_positions@;
                if preds.len() == 0 {
                    &&& post.pending_winnings@ == pre.pending_winnings@
                    &&& post.user_stats@ == pre.user_stats@
                } else {
                    let md = min_dist(preds, final_price);
                    let share = Self::precision_share(preds, final_price);
                    &&& forall|i: int|
                        #![trigger preds[i]]
                        0 <= i < preds.len() && dist(preds[i].predicted_price, final_price) == md
                            ==> post.pending_of(preds[i].user) == pre.pending_of(preds[i].user)
                            + share && post.stats_of(preds[i].user) == win_update(
                            pre.stats_of(preds[i].user),
                        )
                    &&& forall|i: int|
                        #![trigger preds[i]]
                        0 <= i < preds.len() && dist(preds[i].predicted_price, final_price) != md
                            ==> post.pending_of(preds[i].user) == pre.pending_of(preds[i].user)
                            && post.stats_of(preds[i].user) == loss_update(
                            pre.stats_of(preds[i].user),
                        )
                    &&& forall|b: Address|
                        !pred_has(preds, b) ==> post.pending_of(b) == pre.pending_of(b)
                            && post.stats_of(b) == pre.stats_of(b)
                }
            },
        }
    }

    /// Full behaviour of `resolve_round`: on success the payouts above
    /// are credited, balances are untouched, and the round with all its
    /// position storage is consumed; on failure nothing changes.
    pub open spec fn resolve_post(
        pre: Self,
        post: Self,
        final_price: u128,
        now: u32,
        r: Result<(), ContractError>,
    ) -> bool {
        match r {
            Ok(()) => {
                &&& Self::resolve_check(pre, final_price, now) is Ok
                &&& post.active_round is None
                &&& post.updown_positions@.len() == 0
                &&& post.positions@.len() == 0
                &&& post.precision_positions@.len() == 0
                &&& Self::same_config(pre, post)
                &&& post.balances@ == pre.balances@
                &&& Self::resolve_payouts(pre, post, final_price)
            },
            Err(e) => {
                &&& Err::<(), ContractError>(e) == Self::resolve_check(pre, final_price, now)
                &&& Self::same_state(pre, post)
            },
        }
    }

    /// Every participant of the open round has counter headroom, so a
    /// resolution can record their win or loss without wrapping.
    pub open spec fn stats_headroom_all(self) -> bool {
        &&& headroom_positions(self.user_stats@, self.updown_positions@)
        &&& headroom_preds(self.user_stats@, self.precision_positions@)
    }
}

/// Credits every staker's own amount back to its pending winnings.
/// Returns the rewritten pending table, or the overflow error with
/// nothing committed.
fn record_refunds(
    pending: &Vec<(Address, i128)>,
    positions: &Vec<(Address, UserPosition)>,
) -> (r: Result<Vec<(Address, i128)>, ContractError>)
    requires
        distinct_keys(pending@),
        all_nonneg(pending@),
        distinct_keys(positions@),
        positions_wf(positions@),
    ensures
        match r {
            Ok(out) => {
                &&& distinct_keys(out@)
                &&& all_nonneg(out@)
                &&& !VirtualTokenContract::refund_overflow(pending@, positions@)
                &&& forall|i: int|
                    #![trigger positions@[i]]
                    0 <= i < positions@.len() ==> stored(out@, positions@[i].0, 0) as int
                        == stored(pending@, positions@[i].0, 0) + positions@[i].1.amount
                &&& forall|b: Address|
                    !has_key(positions@, b) ==> lookup(out@, b) == lookup(pending@, b)
            },
            Err(e) => {
                &&& e == ContractError::Overflow
                &&& VirtualTokenContract::refund_overflow(pending@, positions@)
            },
        },
{
    let mut out = vec_dup(pending);
    let mut i: usize = 0;
    while i < positions.len()
        invariant
            0 <= i <= positions@.len(),
            distinct_keys(pending@),
            all_nonneg(pending@),
            distinct_keys(positions@),
            positions_wf(positions@),
            distinct_keys(out@),
            all_nonneg(out@),
            forall|j: int|
                #![trigger positions@[j]]
                0 <= j < i ==> stored(out@, positions@[j].0, 0) as int == stored(
                    pending@,
                    positions@[j].0,
                    0,
                ) + positions@[j].1.amount,
            forall|b: Address|
                (forall|j: int| 0 <= j < i ==> positions@[j].0 != b) ==> lookup(out@, b)
                    == lookup(pending@, b),
            forall|j: int|
                #![trigger positions@[j]]
                0 <= j < i ==> stored(pending@, positions@[j].0, 0) + positions@[j].1.amount
                    <= i128::MAX,
        decreases positions@.len() - i,
    {
        let entry = positions[i];
        let acct = entry.0;
        proof {
            assert forall|j: int| 0 <= j < i implies positions@[j].0 != acct by {
                assert(positions@[j].0 != positions@[i as int].0);
            }
        }
        let cur: i128 = match map_get(&out, acct) {
            Some(x) => x,
            None => 0,
        };
        proof {
            if has_key(out@, acct) {
                lemma_lookup_nonneg(out@, acct);
            }
        }
        let np: i128 = match cur.checked_add(entry.1.amount) {
            Some(x) => x,
            None => {
                return Err(ContractError::Overflow);
            },
        };
        let ghost out0 = out@;
        map_set(&mut out, acct, np);
        proof {
            lemma_values_carry_nonneg(out0, out@, acct, np);
        }
        i += 1;
    }
    proof {
        assert forall|b: Address| !has_key(positions@, b) implies lookup(out@, b) == lookup(
            pending@,
            b,
        ) by {
            lemma_no_key_no_entry(positions@, b);
        }
    }
    Ok(out)
}

/// Pays the winning side its stake plus its proportional share of the
/// losing pool, recording a win for each winner and a loss for every
/// other staker. Returns the rewritten pending and statistics tables, or
/// the overflow error with nothing committed.
fn record_winnings(
    pending: &Vec<(Address, i128)>,
    stats: &Vec<(Address, UserStats)>,
    positions: &Vec<(Address, UserPosition)>,
    winning_side: BetSide,
    winning_pool: i128,
    losing_pool: i128,
) -> (r: Result<(Vec<(Address, i128)>, Vec<(Address, UserStats)>), ContractError>)
    requires
        distinct_keys(pending@),
        all_nonneg(pending@),
        distinct_keys(stats@),
        distinct_keys(positions@),
        positions_wf(positions@),
        headroom_positions(stats@, positions@),
        winning_pool > 0,
        losing_pool >= 0,
    ensures
        match r {
            Ok(out) => {
                &&& distinct_keys(out.0@)
                &&& all_nonneg(out.0@)
                &&& distinct_keys(out.1@)
                &&& !VirtualTokenContract::updown_overflow(
                    pending@,
                    positions@,
                    winning_side,
                    winning_pool as int,
                    losing_pool as int,
                )
                &&& forall|i: int|
                    #![trigger positions@[i]]
                    0 <= i < positions@.len() && positions@[i].1.side == winning_side ==> stored(
                        out.0@,
                        positions@[i].0,
                        0,
                    ) as int == stored(pending@, positions@[i].0, 0) + updown_payout(
                        positions@[i].1.amount as int,
                        winning_pool as int,
                        losing_pool as int,
                    ) && stored(out.1@, positions@[i].0, zero_stats()) == win_update(
                        stored(stats@, positions@[i].0, zero_stats()),
                    )
                &&& forall|i: int|
                    #![trigger positions@[i]]
                    0 <= i < positions@.len() && positions@[i].1.side != winning_side ==> stored(
                        out.0@,
                        positions@[i].0,
                        0,
                    ) == stored(pending@, positions@[i].0, 0) && stored(
                        out.1@,
                        positions@[i].0,
                        zero_stats(),
                    ) == loss_update(stored(stats@, positions@[i].0, zero_stats()))
                &&& forall|b: Address|
                    !has_key(positions@, b) ==> lookup(out.0@, b) == lookup(pending@, b)
                        && lookup(out.1@, b) == lookup(stats@, b)
            },
            Err(e) => {
                &&& e == ContractError::Overflow
                &&& VirtualTokenContract::updown_overflow(
                    pending@,
                    positions@,
                    winning_side,
                    winning_pool as int,
                    losing_pool as int,
                )
            },
        },
{
    let mut new_pending = vec_dup(pending);
    let mut new_stats = vec_dup(stats);
    let mut i: usize = 0;
    while i < positions.len()
        invariant
            0 <= i <= positions@.len(),
            distinct_keys(pending@),
            all_nonneg(pending@),
            distinct_keys(stats@),
            distinct_keys(positions@),
            positions_wf(positions@),
            headroom_positions(stats@, positions@),
            winning_pool > 0,
            losing_pool >= 0,
            distinct_keys(new_pending@),
            all_nonneg(new_pending@),
            distinct_keys(new_stats@),
            forall|j: int|
                #![trigger positions@[j]]
                0 <= j < i && positions@[j].1.side == winning_side ==> stored(
                    new_pending@,
                    positions@[j].0,
                    0,
                ) as int == stored(pending@, positions@[j].0, 0) + updown_payout(
                    positions@[j].1.amount as int,
                    winning_pool as int,
                    losing_pool as int,
                ) && stored(new_stats@, positions@[j].0, zero_stats()) == win_update(
                    stored(stats@, positions@[j].0, zero_stats()),
                ),
            forall|j: int|
                #![trigger positions@[j]]
                0 <= j < i && positions@[j].1.side != winning_side ==> stored(
                    new_pending@,
                    positions@[j].0,
                    0,
                ) == stored(pending@, positions@[j].0, 0) && stored(
                    new_stats@,
                    positions@[j].0,
                    zero_stats(),
                ) == loss_update(stored(stats@, positions@[j].0, zero_stats())),
            forall|b: Address|
                (forall|j: int| 0 <= j < i ==> positions@[j].0 != b) ==> lookup(new_pending@, b)
                    == lookup(pending@, b) && lookup(new_stats@, b) == lookup(stats@, b),
            forall|j: int|
                0 <= j < i ==> !#[trigger] VirtualTokenContract::overflow_at(
                    pending@,
                    positions@,
                    winning_side,
                    winning_pool as int,
                    losing_pool as int,
                    j,
                ),
        decreases positions@.len() - i,
    {
        let entry = positions[i];
        let acct = entry.0;
        let pos = entry.1;
        proof {
            assert forall|j: int| 0 <= j < i implies positions@[j].0 != acct by {
                assert(positions@[j].0 != positions@[i as int].0);
            }
        }
        let st: UserStats = match map_get(&new_stats, acct) {
            Some(s) => s,
            None => UserStats {
                total_wins: 0,
                total_losses: 0,
                current_streak: 0,
                best_streak: 0,
            },
        };
        if pos.side == winning_side {
            proof {
                lemma_mul_nonnegative(pos.amount as int, losing_pool as int);
            }
            let share_numerator: i128 = match pos.amount.checked_mul(losing_pool) {
                Some(x) => x,
                None => {
                    proof {
                        assert(pos.amount * losing_pool > i128::MAX);
                        assert(VirtualTokenContract::overflow_at(
                            pending@,
                            positions@,
                            winning_side,
                            winning_pool as int,
                            losing_pool as int,
                            i as int,
                        ));
                    }
                    return Err(ContractError::Overflow);
                },
            };
            let share: i128 = div_floor(share_numerator, winning_pool);
            let payout_amt: i128 = match pos.amount.checked_add(share) {
                Some(x) => x,
                None => {
                    proof {
                        assert(updown_payout(
                            pos.amount as int,
                            winning_pool as int,
                            losing_pool as int,
                        ) > i128::MAX);
                        assert(VirtualTokenContract::overflow_at(
                            pending@,
                            positions@,
                            winning_side,
                            winning_pool as int,
                            losing_pool as int,
                            i as int,
                        ));
                    }
                    return Err(ContractError::Overflow);
                },
            };
            let cur: i128 = match map_get(&new_pending, acct) {
                Some(x) => x,
                None => 0,
            };
            proof {
                if has_key(new_pending@, acct) {
                    lemma_lookup_nonneg(new_pending@, acct);
                }
                assert(cur == stored(pending@, acct, 0));
            }
            let np: i128 = match cur.checked_add(payout_amt) {
                Some(x) => x,
                None => {
                    proof {
                        assert(stored(pending@, acct, 0) + updown_payout(
                            pos.amount as int,
                            winning_pool as int,
                            losing_pool as int,
                        ) > i128::MAX);
                        assert(VirtualTokenContract::overflow_at(
                            pending@,
                            positions@,
                            winning_side,
                            winning_pool as int,
                            losing_pool as int,
                            i as int,
                        ));
                    }
                    return Err(ContractError::Overflow);
                },
            };
            let ghost pending0 = new_pending@;
            map_set(&mut new_pending, acct, np);
            proof {
                lemma_values_carry_nonneg(pending0, new_pending@, acct, np);
            }
            let new_streak: u32 = st.current_streak + 1;
            let best: u32 = if new_streak > st.best_streak {
                new_streak
            } else {
                st.best_streak
            };
            map_set(
                &mut new_stats,
                acct,
                UserStats {
                    total_wins: st.total_wins + 1,
                    total_losses: st.total_losses,
                    current_streak: new_streak,
                    best_streak: best,
                },
            );
        } else {
            map_set(
                &mut new_stats,
                acct,
                UserStats {
                    total_wins: st.total_wins,
                    total_losses: st.total_losses + 1,
                    current_streak: 0,
                    best_streak: st.best_streak,
                },
            );
        }
        i += 1;
    }
    proof {
        assert forall|b: Address| !has_key(positions@, b) implies lookup(new_pending@, b) == lookup(
            pending@,
            b,
        ) && lookup(new_stats@, b) == lookup(stats@, b) by {
            lemma_no_key_no_entry(positions@, b);
        }
    }
    Ok((new_pending, new_stats))
}

/// Resolves a precision round over its tables: finds the minimum
/// distance, sums the pot, splits it evenly among the winners (the
/// division remainder is forfeited), and records wins and losses.
/// Returns the rewritten pending and statistics tables, or the overflow
/// error with nothing committed.
fn resolve_precision_tables(
    pending: &Vec<(Address, i128)>,
    stats: &Vec<(Address, UserStats)>,
    preds: &Vec<PrecisionPrediction>,
    final_price: u128,
) -> (r: Result<(Vec<(Address, i128)>, Vec<(Address, UserStats)>), ContractError>)
    requires
        distinct_keys(pending@),
        all_nonneg(pending@),
        distinct_keys(stats@),
        preds_wf(preds@),
        preds@.len() > 0,
        headroom_preds(stats@, preds@),
    ensures
        match r {
            Ok(out) => {
                &&& distinct_keys(out.0@)
                &&& all_nonneg(out.0@)
                &&& distinct_keys(out.1@)
                &&& !VirtualTokenContract::precision_overflow(pending@, preds@, final_price)
                &&& forall|i: int|
                    #![trigger preds@[i]]
                    0 <= i < preds@.len() && dist(preds@[i].predicted_price, final_price)
                        == min_dist(preds@, final_price) ==> stored(out.0@, preds@[i].user, 0)
                        as int == stored(pending@, preds@[i].user, 0)
                        + VirtualTokenContract::precision_share(preds@, final_price) && stored(
                        out.1@,
                        preds@[i].user,
                        zero_stats(),
                    ) == win_update(stored(stats@, preds@[i].user, zero_stats()))
                &&& forall|i: int|
                    #![trigger preds@[i]]
                    0 <= i < preds@.len() && dist(preds@[i].predicted_price, final_price)
                        != min_dist(preds@, final_price) ==> stored(out.0@, preds@[i].user, 0)
                        == stored(pending@, preds@[i].user, 0) && stored(
                        out.1@,
                        preds@[i].user,
                        zero_stats(),
                    ) == loss_update(stored(stats@, preds@[i].user, zero_stats()))
                &&& forall|b: Address|
                    !pred_has(preds@, b) ==> lookup(out.0@, b) == lookup(pending@, b) && lookup(
                        out.1@,
                        b,
                    ) == lookup(stats@, b)
            },
            Err(e) => {
                &&& e == ContractError::Overflow
                &&& VirtualTokenContract::precision_overflow(pending@, preds@, final_price)
            },
        },
{
    // Smallest distance to the final price.
    let first = preds[0];
    let mut dmin: u128 = if first.predicted_price >= final_price {
        first.predicted_price - final_price
    } else {
        final_price - first.predicted_price
    };
    proof {
        assert(preds@.take(1)[0] == preds@[0]);
    }
    let mut i: usize = 1;
    while i < preds.len()
        invariant
            1 <= i <= preds@.len(),
            preds@.len() > 0,
            dmin as int == min_dist(preds@.take(i as int), final_price),
        decreases preds@.len() - i,
    {
        let p = preds[i];
        let d: u128 = if p.predicted_price >= final_price {
            p.predicted_price - final_price
        } else {
            final_price - p.predicted_price
        };
        proof {
            assert(preds@.take(i as int + 1).drop_last() =~= preds@.take(i as int));
            assert(preds@.take(i as int + 1).last() == preds@[i as int]);
        }
        if d < dmin {
            dmin = d;
        }
        i += 1;
    }
    proof {
        assert(preds@.take(preds@.len() as int) =~= preds@);
    }
    // The pot: every stake, winners and losers together.
    let mut pot: i128 = 0;
    proof {
        assert(preds@.take(0) =~= Seq::<PrecisionPrediction>::empty());
    }
    let mut i: usize = 0;
    while i < preds.len()
        invariant
            0 <= i <= preds@.len(),
            preds_wf(preds@),
            pot as int == pot_of(preds@.take(i as int)),
            pot >= 0,
        decreases preds@.len() - i,
    {
        proof {
            assert(preds@.take(i as int + 1).drop_last() =~= preds@.take(i as int));
            assert(preds@.take(i as int + 1).last() == preds@[i as int]);
        }
        pot = match pot.checked_add(preds[i].amount) {
            Some(x) => x,
            None => {
                proof {
                    lemma_pot_prefix(preds@, i as int + 1);
                }
                return Err(ContractError::Overflow);
            },
        };
        i += 1;
    }
    proof {
        assert(preds@.take(preds@.len() as int) =~= preds@);
    }
    // How many predictions achieve the minimum distance.
    let mut winner_count: usize = 0;
    let mut i: usize = 0;
    while i < preds.len()
        invariant
            0 <= i <= preds@.len(),
            winner_count as int == count_at(preds@.take(i as int), final_price, dmin as int),
            winner_count <= i,
        decreases preds@.len() - i,
    {
        let p = preds[i];
        let d: u128 = if p.predicted_price >= final_price {
            p.predicted_price - final_price
        } else {
            final_price - p.predicted_price
        };
        proof {
            assert(preds@.take(i as int + 1).drop_last() =~= preds@.take(i as int));
            assert(preds@.take(i as int + 1).last() == preds@[i as int]);
        }
        if d == dmin {
            winner_count += 1;
        }
        i += 1;
    }
    proof {
        assert(preds@.take(preds@.len() as int) =~= preds@);
        lemma_min_dist_achieved(preds@, final_price);
        lemma_count_at_pos(preds@, final_price, dmin as int);
    }
    // Each winner's share; the remainder of the division is forfeited.
    let share: i128 = div_floor(pot, winner_count as i128);
    // Credit each winner and record every participant's win or loss.
    let mut new_pending = vec_dup(pending);
    let mut new_stats = vec_dup(stats);
    let mut i: usize = 0;
    while i < preds.len()
        invariant
            0 <= i <= preds@.len(),
            distinct_keys(pending@),
            all_nonneg(pending@),
            distinct_keys(stats@),
            preds_wf(preds@),
            preds@.len() > 0,
            headroom_preds(stats@, preds@),
            dmin as int == min_dist(preds@, final_price),
            share as int == VirtualTokenContract::precision_share(preds@, final_price),
            share >= 0,
            distinct_keys(new_pending@),
            all_nonneg(new_pending@),
            distinct_keys(new_stats@),
            forall|j: int|
                #![trigger preds@[j]]
                0 <= j < i && dist(preds@[j].predicted_price, final_price) == dmin as int
                    ==> stored(new_pending@, preds@[j].user, 0) as int == stored(
                    pending@,
                    preds@[j].user,
                    0,
                ) + share && stored(new_stats@, preds@[j].user, zero_stats()) == win_update(
                    stored(stats@, preds@[j].user, zero_stats()),
                ),
            forall|j: int|
                #![trigger preds@[j]]
                0 <= j < i && dist(preds@[j].predicted_price, final_price) != dmin as int
                    ==> stored(new_pending@, preds@[j].user, 0) == stored(
                    pending@,
                    preds@[j].user,
                    0,
                ) && stored(new_stats@, preds@[j].user, zero_stats()) == loss_update(
                    stored(stats@, preds@[j].user, zero_stats()),
                ),
            forall|b: Address|
                (forall|j: int| 0 <= j < i ==> preds@[j].user != b) ==> lookup(new_pending@, b)
                    == lookup(pending@, b) && lookup(new_stats@, b) == lookup(stats@, b),
            forall|j: int|
                #![trigger preds@[j]]
                0 <= j < i && dist(preds@[j].predicted_price, final_price) == dmin as int
                    ==> stored(pending@, preds@[j].user, 0) + share <= i128::MAX,
        decreases preds@.len() - i,
    {
        let p = preds[i];
        let acct = p.user;
        proof {
            assert forall|j: int| 0 <= j < i implies preds@[j].user != acct by {
                assert(preds@[j].user != preds@[i as int].user);
            }
        }
        let d: u128 = if p.predicted_price >= final_price {
            p.predicted_price - final_price
        } else {
            final_price - p.predicted_price
        };
        let st: UserStats = match map_get(&new_stats, acct) {
            Some(s) => s,
            None => UserStats {
                total_wins: 0,
                total_losses: 0,
                current_streak: 0,
                best_streak: 0,
            },
        };
        if d == dmin {
            let cur: i128 = match map_get(&new_pending, acct) {
                Some(x) => x,
                None => 0,
            };
            proof {
                if has_key(new_pending@, acct) {
                    lemma_lookup_nonneg(new_pending@, acct);
                }
                assert(cur == stored(pending@, acct, 0));
            }
            let np: i128 = match cur.checked_add(share) {
                Some(x) => x,
                None => {
                    proof {
                        assert(stored(pending@, acct, 0) + VirtualTokenContract::precision_share(
                            preds@,
                            final_price,
                        ) > i128::MAX);
                        assert(dist(preds@[i as int].predicted_price, final_price) == min_dist(
                            preds@,
                            final_price,
                        ));
                    }
                    return Err(ContractError::Overflow);
                },
            };
            let ghost pending0 = new_pending@;
            map_set(&mut new_pending, acct, np);
            proof {
                lemma_values_carry_nonneg(pending0, new_pending@, acct, np);
            }
            let new_streak: u32 = st.current_streak + 1;
            let best: u32 = if new_streak > st.best_streak {
                new_streak
            } else {
                st.best_streak
            };
            map_set(
                &mut new_stats,
                acct,
                UserStats {
                    total_wins: st.total_wins + 1,
                    total_losses: st.total_losses,
                    current_streak: new_streak,
                    best_streak: best,
                },
            );
        } else {
            map_set(
                &mut new_stats,
                acct,
                UserStats {
                    total_wins: st.total_wins,
                    total_losses: st.total_losses + 1,
                    current_streak: 0,
                    best_streak: st.best_streak,
                },
            );
        }
        i += 1;
    }
    proof {
        assert forall|b: Address| !pred_has(preds@, b) implies lookup(new_pending@, b) == lookup(
            pending@,
            b,
        ) && lookup(new_stats@, b) == lookup(stats@, b) by {
            lemma_pred_no_key(preds@, b);
        }
        assert(!VirtualTokenContract::precision_overflow(pending@, preds@, final_price)) by {
            assert(pot_of(preds@) <= i128::MAX);
        }
    }
    Ok((new_pending, new_stats))
}

impl VirtualTokenContract {
    /// Resolves the active round at the given final price, reading the
    /// clock from `current_ledger`: credits pending winnings, records
    /// wins and losses, and consumes the round together with all its
    /// position storage. Oracle-authorized. The counter-headroom
    /// precondition rules out the astronomically long win/loss histories
    /// whose statistics update would wrap; the host treats a violation
    /// as an aborted call.
    pub fn resolve_round(&mut self, final_price: u128, current_ledger: u32) -> (r: Result<
        (),
        ContractError,
    >)
        requires
            old(self).wf(),
            old(self).stats_headroom_all(),
        ensures
            final(self).wf(),
            Self::resolve_post(*old(self), *final(self), final_price, current_ledger, r),
    {
        if final_price == 0 {
            return Err(ContractError::InvalidPrice);
        }
        if self.oracle.is_none() {
            return Err(ContractError::OracleNotSet);
        }
        let round = match self.active_round {
            Some(rd) => rd,
            None => {
                return Err(ContractError::NoActiveRound);
            },
        };
        if current_ledger < round.end_ledger {
            return Err(ContractError::RoundNotEnded);
        }
        match round.mode {
            RoundMode::UpDown => {
                if final_price == round.price_start {
                    match record_refunds(&self.pending_winnings, &self.updown_positions) {
                        Ok(p) => {
                            self.pending_winnings = p;
                        },
                        Err(e) => {
                            return Err(e);
                        },
                    }
                } else {
                    let went_up = final_price > round.price_start;
                    let wpool: i128 = if went_up {
                        round.pool_up
                    } else {
                        round.pool_down
                    };
                    let lpool: i128 = if went_up {
                        round.pool_down
                    } else {
                        round.pool_up
                    };
                    proof {
                        lemma_sum_side_nonneg(self.updown_positions@, BetSide::Up);
                        lemma_sum_side_nonneg(self.updown_positions@, BetSide::Down);
                    }
                    if wpool != 0 {
                        let side = if went_up {
                            BetSide::Up
                        } else {
                            BetSide::Down
                        };
                        match record_winnings(
                            &self.pending_winnings,
                            &self.user_stats,
                            &self.updown_positions,
                            side,
                            wpool,
                            lpool,
                        ) {
                            Ok((p, st)) => {
                                self.pending_winnings = p;
                                self.user_stats = st;
                            },
                            Err(e) => {
                                return Err(e);
                            },
                        }
                    }
                }
            },
            RoundMode::Precision => {
                if self.precision_positions.len() > 0 {
                    match resolve_precision_tables(
                        &self.pending_winnings,
                        &self.user_stats,
                        &self.precision_positions,
                        final_price,
                    ) {
                        Ok((p, st)) => {
                            self.pending_winnings = p;
                            self.user_stats = st;
                        },
                        Err(e) => {
                            return Err(e);
                        },
                    }
                }
            },
        }
        self.active_round = None;
        self.updown_positions = Vec::new();
        self.positions = Vec::new();
        self.precision_positions = Vec::new();
        Ok(())
    }
}

} // verus!
