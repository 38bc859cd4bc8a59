//! Payout arithmetic for both round modes, with the lemmas the
//! resolution engine and the payout laws rest on.

use vstd::prelude::*;

use vstd::arithmetic::div_mod::{
    lemma_div_multiples_vanish, lemma_div_pos_is_pos, lemma_fundamental_div_mod,
    lemma_hoist_over_denominator, lemma_mod_division_less_than_divisor,
};
use vstd::arithmetic::mul::{
    lemma_mul_is_commutative, lemma_mul_is_distributive_add_other_way, lemma_mul_nonnegative,
};

use crate::types::{Address, BetSide, PrecisionPrediction, UserPosition, MAX_PREDICTED_PRICE};

verus! {

/// Total stake recorded on one side of an up/down round.
pub open spec fn sum_side(s: Seq<(Address, UserPosition)>, side: BetSide) -> int
    decreases s.len(),
{
    if s.len() == 0 {
        0
    } else {
        sum_side(s.drop_last(), side) + if s.last().1.side == side {
            s.last().1.amount as int
        } else {
            0
        }
    }
}

/// Every recorded wager is strictly positive.
pub open spec fn positions_wf(s: Seq<(Address, UserPosition)>) -> bool {
    forall|i: int| 0 <= i < s.len() ==> (#[trigger] s[i].1).amount > 0
}

/// What one winning stake is owed: the stake back, plus its proportional
/// share of the losing pool, rounded down.
pub open spec fn updown_payout(amount: int, winning_pool: int, losing_pool: int) -> int {
    amount + (amount * losing_pool) / winning_pool
}

/// Total owed to the winning side of an up/down round.
pub open spec fn sum_payouts(
    s: Seq<(Address, UserPosition)>,
    side: BetSide,
    winning_pool: int,
    losing_pool: int,
) -> int
    decreases s.len(),
{
    if s.len() == 0 {
        0
    } else {
        sum_payouts(s.drop_last(), side, winning_pool, losing_pool)
            + if s.last().1.side == side {
            updown_payout(s.last().1.amount as int, winning_pool, losing_pool)
        } else {
            0
        }
    }
}

/// Distance between a guess and the final price.
pub open spec fn dist(predicted: u128, final_price: u128) -> int {
    if predicted >= final_price {
        predicted - final_price
    } else {
        final_price - predicted
    }
}

/// Smallest distance to the final price over a non-empty prediction list.
pub open spec fn min_dist(s: Seq<PrecisionPrediction>, final_price: u128) -> int
    decreases s.len(),
{
    if s.len() <= 1 {
        dist(s[0].predicted_price, final_price)
    } else {
        let m = min_dist(s.drop_last(), final_price);
        let d = dist(s.last().predicted_price, final_price);
        if d < m {
            d
        } else {
            m
        }
    }
}

/// Combined stake of every prediction, winners and losers together.
pub open spec fn pot_of(s: Seq<PrecisionPrediction>) -> int
    decreases s.len(),
{
    if s.len() == 0 {
        0
    } else {
        pot_of(s.drop_last()) + s.last().amount
    }
}

/// How many predictions sit at distance exactly `d` from the final price.
pub open spec fn count_at(s: Seq<PrecisionPrediction>, final_price: u128, d: int) -> int
    decreases s.len(),
{
    if s.len() == 0 {
        0
    } else {
        count_at(s.drop_last(), final_price, d) + if dist(
            s.last().predicted_price,
            final_price,
        ) == d {
            1int
        } else {
            0int
        }
    }
}

/// Well-formed prediction list: one entry per account, positive stakes,
/// prices within the accepted scale.
pub open spec fn preds_wf(s: Seq<PrecisionPrediction>) -> bool {
    &&& forall|i: int, j: int| 0 <= i < j < s.len() ==> s[i].user != s[j].user
    &&& forall|i: int| 0 <= i < s.len() ==> (#[trigger] s[i]).amount > 0
    &&& forall|i: int| 0 <= i < s.len() ==> (#[trigger] s[i]).predicted_price
        <= MAX_PREDICTED_PRICE
}

/// First prediction recorded for `a`, if any.
pub open spec fn pred_lookup(s: Seq<PrecisionPrediction>, a: Address) -> Option<
    PrecisionPrediction,
>
    decreases s.len(),
{
    if s.len() == 0 {
        None
    } else if s[0].user == a {
        Some(s[0])
    } else {
        pred_lookup(s.skip(1), a)
    }
}

/// Whether some prediction is recorded for `a`.
pub open spec fn pred_has(s: Seq<PrecisionPrediction>, a: Address) -> bool {
    pred_lookup(s, a) is Some
}

/// A prediction lookup skips any prefix of other accounts.
proof fn lemma_pred_lookup_skip_miss(s: Seq<PrecisionPrediction>, a: Address, n: int)
    requires
        0 <= n <= s.len(),
        forall|j: int| 0 <= j < n ==> s[j].user != a,
    ensures
        pred_lookup(s, a) == pred_lookup(s.skip(n), a),
    decreases n,
{
    if n == 0 {
        assert(s.skip(0) =~= s);
    } else {
        lemma_pred_lookup_skip_miss(s.skip(1), a, n - 1);
        assert(s.skip(1).skip(n - 1) =~= s.skip(n));
    }
}

/// The first entry for `a` determines the prediction lookup.
pub proof fn lemma_pred_lookup_found(s: Seq<PrecisionPrediction>, a: Address, i: int)
    requires
        0 <= i < s.len(),
        s[i].user == a,
        forall|j: int| 0 <= j < i ==> s[j].user != a,
    ensures
        pred_lookup(s, a) == Some(s[i]),
{
    lemma_pred_lookup_skip_miss(s, a, i);
    assert(s.skip(i)[0] == s[i]);
}

/// An account mentioned by no prediction has none.
pub proof fn lemma_pred_lookup_none(s: Seq<PrecisionPrediction>, a: Address)
    requires
        forall|j: int| 0 <= j < s.len() ==> s[j].user != a,
    ensures
        pred_lookup(s, a) is None,
{
    lemma_pred_lookup_skip_miss(s, a, s.len() as int);
    assert(s.skip(s.len() as int) =~= Seq::<PrecisionPrediction>::empty());
}

/// Any entry for `a` makes a prediction lookup succeed.
pub proof fn lemma_pred_found_somewhere(s: Seq<PrecisionPrediction>, a: Address, i: int)
    requires
        0 <= i < s.len(),
        s[i].user == a,
    ensures
        pred_has(s, a),
    decreases s.len(),
{
    if s[0].user != a {
        lemma_pred_found_somewhere(s.skip(1), a, i - 1);
    }
}

/// An account with no prediction is mentioned by no entry.
pub proof fn lemma_pred_no_key(s: Seq<PrecisionPrediction>, a: Address)
    requires
        !pred_has(s, a),
    ensures
        forall|i: int| 0 <= i < s.len() ==> s[i].user != a,
{
    assert forall|i: int| 0 <= i < s.len() implies s[i].user != a by {
        if s[i].user == a {
            lemma_pred_found_somewhere(s, a, i);
        }
    }
}

/// Appending a prediction adds its stake to one side's sum, or leaves it
/// unchanged.
pub proof fn lemma_sum_side_push(
    s: Seq<(Address, UserPosition)>,
    p: (Address, UserPosition),
    side: BetSide,
)
    ensures
        sum_side(s.push(p), side) == sum_side(s, side) + if p.1.side == side {
            p.1.amount as int
        } else {
            0
        },
{
    assert(s.push(p).drop_last() =~= s);
}

/// Positive stakes make each side's sum non-negative.
pub proof fn lemma_sum_side_nonneg(s: Seq<(Address, UserPosition)>, side: BetSide)
    requires
        positions_wf(s),
    ensures
        sum_side(s, side) >= 0,
    decreases s.len(),
{
    if s.len() > 0 {
        lemma_sum_side_nonneg(s.drop_last(), side);
    }
}

/// Floor division distributes over addition with a deficit: the floors of
/// the parts never exceed the floor of the sum.
proof fn lemma_div_add_le(a: int, b: int, d: int)
    requires
        a >= 0,
        b >= 0,
        d > 0,
    ensures
        a / d + b / d <= (a + b) / d,
{
    lemma_fundamental_div_mod(a, d);
    lemma_fundamental_div_mod(b, d);
    lemma_mod_division_less_than_divisor(a, d);
    lemma_mod_division_less_than_divisor(b, d);
    let r = a % d + b % d;
    let q = a / d + b / d;
    lemma_hoist_over_denominator(r, q, d as nat);
    assert(r + q * d == a + b) by {
        lemma_mul_is_distributive_add_other_way(d, a / d, b / d);
        lemma_mul_is_commutative(d, a / d);
        lemma_mul_is_commutative(d, b / d);
    }
    lemma_div_pos_is_pos(r, d);
}

/// No value is created by an up/down resolution: with each winning stake
/// paid `stake + floor(stake * losing_pool / winning_pool)`, the total
/// paid to the winning side is at most that side's own sum plus its
/// proportional share of the losing pool.
pub proof fn lemma_sum_payouts_le(
    s: Seq<(Address, UserPosition)>,
    side: BetSide,
    winning_pool: int,
    losing_pool: int,
)
    requires
        positions_wf(s),
        winning_pool > 0,
        losing_pool >= 0,
    ensures
        sum_payouts(s, side, winning_pool, losing_pool) <= sum_side(s, side) + (sum_side(s, side)
            * losing_pool) / winning_pool,
    decreases s.len(),
{
    lemma_sum_side_nonneg(s, side);
    if s.len() == 0 {
        lemma_div_pos_is_pos(0, winning_pool);
    } else {
        let s0 = s.drop_last();
        let p = s.last().1;
        lemma_sum_payouts_le(s0, side, winning_pool, losing_pool);
        lemma_sum_side_nonneg(s0, side);
        if p.side == side {
            let x = sum_side(s0, side);
            let a = p.amount as int;
            assert((x + a) * losing_pool == x * losing_pool + a * losing_pool) by {
                lemma_mul_is_distributive_add_other_way(losing_pool, x, a);
            }
            lemma_mul_nonnegative(x, losing_pool);
            lemma_mul_nonnegative(a, losing_pool);
            lemma_div_add_le(x * losing_pool, a * losing_pool, winning_pool);
        }
    }
}

/// With the winning pool equal to the winning side's recorded sum, the
/// winners together are owed at most the whole stake of the round.
pub proof fn lemma_sum_payouts_bounded(
    s: Seq<(Address, UserPosition)>,
    side: BetSide,
    winning_pool: int,
    losing_pool: int,
)
    requires
        positions_wf(s),
        winning_pool > 0,
        losing_pool >= 0,
        sum_side(s, side) == winning_pool,
    ensures
        sum_payouts(s, side, winning_pool, losing_pool) <= winning_pool + losing_pool,
{
    lemma_sum_payouts_le(s, side, winning_pool, losing_pool);
    assert((winning_pool * losing_pool) / winning_pool == losing_pool) by {
        lemma_mul_is_commutative(winning_pool, losing_pool);
        lemma_div_multiples_vanish(losing_pool, winning_pool);
    }
}

/// The minimum distance is a lower bound for every prediction.
pub proof fn lemma_min_dist_le(s: Seq<PrecisionPrediction>, final_price: u128, i: int)
    requires
        0 <= i < s.len(),
    ensures
        min_dist(s, final_price) <= dist(s[i].predicted_price, final_price),
    decreases s.len(),
{
    if s.len() > 1 && i < s.len() - 1 {
        lemma_min_dist_le(s.drop_last(), final_price, i);
    }
}

/// The minimum distance is achieved by some prediction.
pub proof fn lemma_min_dist_achieved(s: Seq<PrecisionPrediction>, final_price: u128)
    requires
        s.len() > 0,
    ensures
        exists|i: int|
            0 <= i < s.len() && dist(#[trigger] s[i].predicted_price, final_price) == min_dist(
                s,
                final_price,
            ),
    decreases s.len(),
{
    if s.len() == 1 {
        assert(dist(s[0].predicted_price, final_price) == min_dist(s, final_price));
    } else {
        let s0 = s.drop_last();
        let d = dist(s.last().predicted_price, final_price);
        if d < min_dist(s0, final_price) {
            assert(dist(s[s.len() - 1].predicted_price, final_price) == min_dist(s, final_price));
        } else {
            lemma_min_dist_achieved(s0, final_price);
            let i = choose|i: int|
                0 <= i < s0.len() && dist(#[trigger] s0[i].predicted_price, final_price)
                    == min_dist(s0, final_price);
            assert(dist(s[i].predicted_price, final_price) == min_dist(s, final_price));
        }
    }
}

/// A distance achieved somewhere is counted at least once.
pub proof fn lemma_count_at_pos(s: Seq<PrecisionPrediction>, final_price: u128, d: int)
    requires
        exists|i: int|
            0 <= i < s.len() && dist(#[trigger] s[i].predicted_price, final_price) == d,
    ensures
        count_at(s, final_price, d) >= 1,
    decreases s.len(),
{
    lemma_count_at_nonneg(s, final_price, d);
    let i = choose|i: int|
        0 <= i < s.len() && dist(#[trigger] s[i].predicted_price, final_price) == d;
    if i == s.len() - 1 {
        lemma_count_at_nonneg(s.drop_last(), final_price, d);
    } else {
        assert(s.drop_last()[i] == s[i]);
        lemma_count_at_pos(s.drop_last(), final_price, d);
    }
}

/// Counts are never negative.
pub proof fn lemma_count_at_nonneg(s: Seq<PrecisionPrediction>, final_price: u128, d: int)
    ensures
        count_at(s, final_price, d) >= 0,
    decreases s.len(),
{
    if s.len() > 0 {
        lemma_count_at_nonneg(s.drop_last(), final_price, d);
    }
}

/// Positive stakes keep every prefix of the pot within the full pot.
pub proof fn lemma_pot_prefix(s: Seq<PrecisionPrediction>, i: int)
    requires
        preds_wf(s),
        0 <= i <= s.len(),
    ensures
        pot_of(s.take(i)) <= pot_of(s),
    decreases s.len() - i,
{
    if i == s.len() {
        assert(s.take(i) =~= s);
    } else {
        assert(s.take(i + 1).drop_last() =~= s.take(i));
        assert(s.take(i + 1).last() == s[i]);
        lemma_pot_prefix(s, i + 1);
    }
}

/// The pot is non-negative.
pub proof fn lemma_pot_nonneg(s: Seq<PrecisionPrediction>)
    requires
        preds_wf(s),
    ensures
        pot_of(s) >= 0,
    decreases s.len(),
{
    if s.len() > 0 {
        assert(preds_wf(s.drop_last())) by {
            assert(forall|i: int|
                0 <= i < s.len() - 1 ==> s.drop_last()[i] == #[trigger] s[i]);
        }
        lemma_pot_nonneg(s.drop_last());
    }
}

/// Splitting the pot evenly pays each of the `n` winners
/// `floor(pot / n)`; together they receive `pot - pot % n`, never more
/// than the pot: the remainder is forfeited, not distributed.
pub proof fn lemma_pot_split(pot: int, n: int)
    requires
        pot >= 0,
        n > 0,
    ensures
        n * (pot / n) == pot - pot % n,
        0 <= pot % n < n,
        n * (pot / n) <= pot,
        pot / n >= 0,
{
    lemma_fundamental_div_mod(pot, n);
    lemma_mod_division_less_than_divisor(pot, n);
    lemma_div_pos_is_pos(pot, n);
}

} // verus!
