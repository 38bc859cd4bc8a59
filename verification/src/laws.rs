//! Laws of the market, proved from the operations' contracts: mint
//! idempotence, conservation of value in up/down payouts, refund
//! behaviour on an unchanged price, the precision winner rule, the time
//! gates, and the clean slate a resolution leaves behind.

use vstd::prelude::*;

use crate::contract::VirtualTokenContract;
use crate::payout::{
    count_at, dist, lemma_count_at_pos, lemma_min_dist_achieved, lemma_min_dist_le,
    lemma_pot_nonneg, lemma_pot_split, lemma_sum_payouts_bounded, min_dist, pot_of, sum_payouts,
    sum_side,
};
use crate::store::has_key;
use crate::types::{Address, BetSide, ContractError, RoundMode};

verus! {

/// Law: minting is idempotent. Whatever a first mint returned, a second
/// consecutive mint for the same account returns the same value, leaves
/// the account's balance where it was, and never mints again.
pub proof fn lemma_mint_idempotent(
    pre: VirtualTokenContract,
    mid: VirtualTokenContract,
    post: VirtualTokenContract,
    user: Address,
    r1: i128,
    r2: i128,
)
    requires
        VirtualTokenContract::mint_post(pre, mid, user, r1),
        VirtualTokenContract::mint_post(mid, post, user, r2),
    ensures
        r2 == r1,
        post.balance_of(user) == mid.balance_of(user),
        post.balances@ == mid.balances@,
{
}

/// Law: an up/down resolution creates no value. With the winning pool
/// `U` equal to the winning side's recorded stake and the losing pool
/// `D`, each winner is owed `stake + floor(stake * D / U)`, and all
/// those payouts together never exceed `U + D`.
pub proof fn lemma_updown_no_value_created(pre: VirtualTokenContract, final_price: u128)
    requires
        pre.wf(),
        pre.active_round is Some,
        pre.active_round.unwrap().mode == RoundMode::UpDown,
        final_price != pre.active_round.unwrap().price_start,
        VirtualTokenContract::winning_pool(pre.active_round.unwrap(), final_price) > 0,
    ensures
        sum_payouts(
            pre.updown_positions@,
            VirtualTokenContract::winning_side(pre.active_round.unwrap(), final_price),
            VirtualTokenContract::winning_pool(pre.active_round.unwrap(), final_price),
            VirtualTokenContract::losing_pool(pre.active_round.unwrap(), final_price),
        ) <= VirtualTokenContract::winning_pool(pre.active_round.unwrap(), final_price)
            + VirtualTokenContract::losing_pool(pre.active_round.unwrap(), final_price),
{
    let rd = pre.active_round.unwrap();
    let side = VirtualTokenContract::winning_side(rd, final_price);
    let wpool = VirtualTokenContract::winning_pool(rd, final_price);
    let lpool = VirtualTokenContract::losing_pool(rd, final_price);
    crate::payout::lemma_sum_side_nonneg(pre.updown_positions@, BetSide::Up);
    crate::payout::lemma_sum_side_nonneg(pre.updown_positions@, BetSide::Down);
    assert(sum_side(pre.updown_positions@, side) == wpool);
    lemma_sum_payouts_bounded(pre.updown_positions@, side, wpool, lpool);
}

/// Law: when the final price equals the start price, a successful
/// resolution refunds every staker exactly their own stake and touches
/// no statistics.
pub proof fn lemma_refund_on_unchanged_price(
    pre: VirtualTokenContract,
    post: VirtualTokenContract,
    final_price: u128,
    now: u32,
)
    requires
        pre.active_round is Some,
        pre.active_round.unwrap().mode == RoundMode::UpDown,
        final_price == pre.active_round.unwrap().price_start,
        VirtualTokenContract::resolve_post(pre, post, final_price, now, Ok(())),
    ensures
        forall|i: int|
            #![trigger pre.updown_positions@[i]]
            0 <= i < pre.updown_positions@.len() ==> post.pending_of(pre.updown_positions@[i].0)
                == pre.pending_of(pre.updown_positions@[i].0)
                + pre.updown_positions@[i].1.amount,
        forall|b: Address|
            !has_key(pre.updown_positions@, b) ==> post.pending_of(b) == pre.pending_of(b),
        post.user_stats@ == pre.user_stats@,
        forall|b: Address| post.stats_of(b) == pre.stats_of(b),
{
}

/// Law: a successful precision resolution pays exactly the predictions
/// at minimum distance from the final price. There is at least one
/// winner; each receives `floor(pot / winner_count)` where the pot is
/// the sum of every stake; together the winners receive
/// `pot - pot % winner_count`, so the remainder of the division is paid
/// to nobody.
pub proof fn lemma_precision_resolution(
    pre: VirtualTokenContract,
    post: VirtualTokenContract,
    final_price: u128,
    now: u32,
)
    requires
        pre.wf(),
        pre.active_round is Some,
        pre.active_round.unwrap().mode == RoundMode::Precision,
        pre.precision_positions@.len() > 0,
        VirtualTokenContract::resolve_post(pre, post, final_price, now, Ok(())),
    ensures
        forall|i: int|
            #![trigger pre.precision_positions@[i]]
            0 <= i < pre.precision_positions@.len() ==> min_dist(
                pre.precision_positions@,
                final_price,
            ) <= dist(pre.precision_positions@[i].predicted_price, final_price),
        count_at(
            pre.precision_positions@,
            final_price,
            min_dist(pre.precision_positions@, final_price),
        ) >= 1,
        forall|i: int|
            #![trigger pre.precision_positions@[i]]
            0 <= i < pre.precision_positions@.len() && dist(
                pre.precision_positions@[i].predicted_price,
                final_price,
            ) == min_dist(pre.precision_positions@, final_price) ==> post.pending_of(
                pre.precision_positions@[i].user,
            ) == pre.pending_of(pre.precision_positions@[i].user)
                + VirtualTokenContract::precision_share(pre.precision_positions@, final_price),
        forall|i: int|
            #![trigger pre.precision_positions@[i]]
            0 <= i < pre.precision_positions@.len() && dist(
                pre.precision_positions@[i].predicted_price,
                final_price,
            ) != min_dist(pre.precision_positions@, final_price) ==> post.pending_of(
                pre.precision_positions@[i].user,
            ) == pre.pending_of(pre.precision_positions@[i].user),
        count_at(
            pre.precision_positions@,
            final_price,
            min_dist(pre.precision_positions@, final_price),
        ) * VirtualTokenContract::precision_share(pre.precision_positions@, final_price)
            == pot_of(pre.precision_positions@) - pot_of(pre.precision_positions@) % count_at(
            pre.precision_positions@,
            final_price,
            min_dist(pre.precision_positions@, final_price),
        ),
        count_at(
            pre.precision_positions@,
            final_price,
            min_dist(pre.precision_positions@, final_price),
        ) * VirtualTokenContract::precision_share(pre.precision_positions@, final_price) <= pot_of(
            pre.precision_positions@,
        ),
{
    let preds = pre.precision_positions@;
    let md = min_dist(preds, final_price);
    assert forall|i: int| 0 <= i < preds.len() implies md <= dist(
        preds[i].predicted_price,
        final_price,
    ) by {
        lemma_min_dist_le(preds, final_price, i);
    }
    lemma_min_dist_achieved(preds, final_price);
    lemma_count_at_pos(preds, final_price, md);
    lemma_pot_nonneg(preds);
    lemma_pot_split(pot_of(preds), count_at(preds, final_price, md));
}

/// Law: the betting gate closes exactly at `bet_end_ledger`, and
/// resolution opens exactly at `end_ledger`: a bet is rejected as
/// `RoundEnded` precisely from the ledger the betting window closes on,
/// and a resolution is rejected as `RoundNotEnded` precisely below the
/// ledger the round ends on.
pub proof fn lemma_time_gates(
    pre: VirtualTokenContract,
    user: Address,
    amount: i128,
    side: BetSide,
    final_price: u128,
    now: u32,
)
    requires
        pre.active_round is Some,
        pre.active_round.unwrap().mode == RoundMode::UpDown,
        amount > 0,
        final_price != 0,
        pre.oracle is Some,
    ensures
        (VirtualTokenContract::place_bet_check(pre, user, amount, side, now) == Err::<
            (),
            ContractError,
        >(ContractError::RoundEnded)) <==> now >= pre.active_round.unwrap().bet_end_ledger,
        (VirtualTokenContract::resolve_check(pre, final_price, now) == Err::<(), ContractError>(
            ContractError::RoundNotEnded,
        )) <==> now < pre.active_round.unwrap().end_ledger,
{
}

/// Law: a successful resolution consumes the round exactly once and
/// leaves a clean slate: no active round and no position or prediction
/// storage, on which a new round of either mode can be created (given an
/// admin, a positive price, a valid mode selector, and ledger arithmetic
/// that fits).
pub proof fn lemma_round_restartable(
    pre: VirtualTokenContract,
    post: VirtualTokenContract,
    final_price: u128,
    now: u32,
    start_price: u128,
    mode: Option<u32>,
    later: u32,
)
    requires
        VirtualTokenContract::resolve_post(pre, post, final_price, now, Ok(())),
        pre.admin is Some,
        start_price > 0,
        VirtualTokenContract::mode_value(mode) <= 1,
        later + post.eff_bet_window() <= u32::MAX,
        later + post.eff_run_window() <= u32::MAX,
    ensures
        post.active_round is None,
        post.updown_positions@.len() == 0,
        post.positions@.len() == 0,
        post.precision_positions@.len() == 0,
        VirtualTokenContract::create_round_check(post, start_price, mode, later) is Ok,
{
}

} // verus!
