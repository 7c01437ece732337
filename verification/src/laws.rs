//! Properties of the program that span several instructions.

use vstd::prelude::*;
use vstd::arithmetic::div_mod::{lemma_div_is_ordered, lemma_div_multiples_vanish, lemma_fundamental_div_mod, lemma_mod_pos_bound};
use crate::errors::MylaError;
use crate::instructions::claim_winnings::{claim_outcome, commission_of, payout_of};
use crate::instructions::place_bet::{bet_check_outcome, bet_precheck_outcome, pool_after_bet};
use crate::instructions::refund::{pool_after_refund, refund_eligible, refund_outcome, REFUND_GRACE_PERIOD};
use crate::instructions::resolve_pool::{resolve_outcome, resolved_pool};
use crate::instructions::create_pool::{fresh_pool, pool_params_outcome};
use crate::instructions::place_bet::placed_bet;
use crate::instructions::claim_winnings::claim_accounts_outcome;
use crate::instructions::resolve_pool::resolve_accounts_outcome;
use crate::instructions::refund::refund_accounts_outcome;
use crate::errors::InstructionError;
use anchor_lang::prelude::Pubkey;
use crate::state::byte_len;
use crate::state::{Bet, Pool, BASIS_POINTS, SIDE_OVER, SIDE_UNDER};

verus! {

/// Sum of the stakes of `bets`.
pub open spec fn sum_amounts(bets: Seq<Bet>) -> nat
    decreases bets.len(),
{
    if bets.len() == 0 {
        0
    } else {
        (sum_amounts(bets.drop_last()) + bets.last().amount) as nat
    }
}

/// Sum of what claiming each of `bets` against `pool` pays (a refused claim
/// pays nothing).
pub open spec fn sum_payouts(pool: Pool, bets: Seq<Bet>) -> int
    decreases bets.len(),
{
    if bets.len() == 0 {
        0
    } else {
        sum_payouts(pool, bets.drop_last()) + match claim_outcome(pool, bets.last()) {
            Ok(payout) => payout as int,
            Err(_) => 0,
        }
    }
}

/// Rounding down each share never hands out more than rounding the whole:
/// `x / d + y / d <= (x + y) / d`.
proof fn lemma_floor_div_superadditive(x: int, y: int, d: int)
    requires
        0 <= x,
        0 <= y,
        0 < d,
    ensures
        x / d + y / d <= (x + y) / d,
{
    lemma_fundamental_div_mod(x, d);
    lemma_fundamental_div_mod(y, d);
    lemma_mod_pos_bound(x, d);
    lemma_mod_pos_bound(y, d);
    let q = x / d + y / d;
    assert(d * q <= x + y) by (nonlinear_arith)
        requires
            x == d * (x / d) + x % d,
            y == d * (y / d) + y % d,
            x % d >= 0,
            y % d >= 0,
            q == x / d + y / d,
    ;
    lemma_div_is_ordered(d * q, x + y, d);
    lemma_div_multiples_vanish(q, d);
}

/// At a rate of at most 100%, the commission is a part of the pool.
pub proof fn law_commission_within_pool(total: int, rate: int)
    requires
        0 <= total,
        0 <= rate <= BASIS_POINTS,
    ensures
        0 <= commission_of(total, rate) <= total,
{
    assert(0 <= total * rate <= total * 10000) by (nonlinear_arith)
        requires
            0 <= total,
            0 <= rate <= 10000,
    ;
    lemma_div_is_ordered(0, total * rate, 10000);
    lemma_div_is_ordered(total * rate, total * 10000, 10000);
    lemma_div_multiples_vanish(total, 10000);
    assert(total * 10000 == 10000 * total) by (nonlinear_arith);
}

/// A stake no larger than its side's total gets at most the whole
/// distributable amount.
proof fn lemma_share_within_distributable(amount: int, distributable: int, side_total: int)
    requires
        0 <= amount <= side_total,
        0 < side_total,
        0 <= distributable,
    ensures
        0 <= payout_of(amount, distributable, side_total) <= distributable,
{
    assert(0 <= amount * distributable <= side_total * distributable) by (nonlinear_arith)
        requires
            0 <= amount <= side_total,
            0 <= distributable,
    ;
    lemma_div_is_ordered(0, amount * distributable, side_total);
    lemma_div_is_ordered(amount * distributable, side_total * distributable, side_total);
    lemma_div_multiples_vanish(distributable, side_total);
}

/// The claims of winning bets whose stakes together make up at most the
/// winning side's total pay, in sum, at most `stakes × distributable /
/// winning_side_total`.
proof fn lemma_sum_payouts_bound(pool: Pool, bets: Seq<Bet>)
    requires
        pool.wf(),
        pool.resolved,
        pool.total() <= u64::MAX,
        pool.total() * pool.commission_rate <= u64::MAX,
        pool.side_total(pool.winning_side->0) > 0,
        forall|i: int|
            0 <= i < bets.len() ==> #[trigger] bets[i].side == pool.winning_side->0
                && !bets[i].claimed,
        sum_amounts(bets) <= pool.side_total(pool.winning_side->0),
    ensures
        sum_payouts(pool, bets) <= payout_of(
            sum_amounts(bets) as int,
            pool.total() - commission_of(pool.total(), pool.commission_rate as int),
            pool.side_total(pool.winning_side->0) as int,
        ),
    decreases bets.len(),
{
    let total = pool.total();
    let rate = pool.commission_rate as int;
    let w = pool.side_total(pool.winning_side->0) as int;
    law_commission_within_pool(total, rate);
    let d = total - commission_of(total, rate);
    if bets.len() == 0 {
        assert(payout_of(0, d, w) == 0) by (nonlinear_arith)
            requires
                w > 0,
        ;
    } else {
        let prefix = bets.drop_last();
        let last = bets.last();
        assert(forall|i: int| 0 <= i < prefix.len() ==> prefix[i] == bets[i]);
        assert(last == bets[bets.len() - 1]);
        lemma_sum_payouts_bound(pool, prefix);
        let s = sum_amounts(prefix) as int;
        let a = last.amount as int;
        lemma_share_within_distributable(a, d, w);
        assert(claim_outcome(pool, last) == Ok::<u64, MylaError>(payout_of(a, d, w) as u64));
        assert(s * d >= 0 && a * d >= 0) by (nonlinear_arith)
            requires
                s >= 0,
                a >= 0,
                d >= 0,
        ;
        lemma_floor_div_superadditive(s * d, a * d, w);
        assert(s * d + a * d == (s + a) * d) by (nonlinear_arith);
    }
}

/// Solvency: once a pool is resolved, the commission taken at resolution
/// and the payouts of all winning bets together never exceed the lamports
/// staked in the pool, provided the winning bets are exactly what the
/// winning side's total counts.
pub proof fn law_winners_never_drain_the_vault(pool: Pool, bets: Seq<Bet>)
    requires
        pool.wf(),
        pool.resolved,
        pool.total() <= u64::MAX,
        pool.total() * pool.commission_rate <= u64::MAX,
        forall|i: int|
            0 <= i < bets.len() ==> #[trigger] bets[i].side == pool.winning_side->0
                && !bets[i].claimed,
        sum_amounts(bets) == pool.side_total(pool.winning_side->0),
    ensures
        commission_of(pool.total(), pool.commission_rate as int) + sum_payouts(pool, bets)
            <= pool.total(),
{
    let total = pool.total();
    let rate = pool.commission_rate as int;
    law_commission_within_pool(total, rate);
    let d = total - commission_of(total, rate);
    let w = pool.side_total(pool.winning_side->0) as int;
    if w > 0 {
        lemma_sum_payouts_bound(pool, bets);
        lemma_share_within_distributable(w, d, w);
    } else {
        lemma_no_payout_from_empty_side(pool, bets);
    }
}

/// When the winning side holds no stakes, no claim pays anything.
proof fn lemma_no_payout_from_empty_side(pool: Pool, bets: Seq<Bet>)
    requires
        pool.resolved,
        pool.wf(),
        pool.side_total(pool.winning_side->0) == 0,
    ensures
        sum_payouts(pool, bets) == 0,
    decreases bets.len(),
{
    if bets.len() > 0 {
        lemma_no_payout_from_empty_side(pool, bets.drop_last());
    }
}

/// A winning, unclaimed bet on a pool whose totals fit is always paid: the
/// claim succeeds and pays at most the distributable lamports.
pub proof fn law_winner_is_paid(pool: Pool, bet: Bet)
    requires
        pool.wf(),
        pool.resolved,
        pool.total() <= u64::MAX,
        pool.total() * pool.commission_rate <= u64::MAX,
        bet.side == pool.winning_side->0,
        !bet.claimed,
        0 < bet.amount <= pool.side_total(pool.winning_side->0),
    ensures
        claim_outcome(pool, bet) matches Ok(payout) && payout <= pool.total() - commission_of(
            pool.total(),
            pool.commission_rate as int,
        ),
{
    let total = pool.total();
    let rate = pool.commission_rate as int;
    law_commission_within_pool(total, rate);
    lemma_share_within_distributable(
        bet.amount as int,
        total - commission_of(total, rate),
        pool.side_total(pool.winning_side->0) as int,
    );
}

/// A bet is paid at most once: after a successful claim, claiming the same
/// bet again is refused with `AlreadyClaimed`.
pub proof fn law_claim_once(pool: Pool, bet: Bet)
    requires
        claim_outcome(pool, bet) is Ok,
    ensures
        claim_outcome(pool, Bet { claimed: true, ..bet }) == Err::<u64, MylaError>(
            MylaError::AlreadyClaimed,
        ),
{
}

/// Refunding a bet takes back exactly what placing it added: the pool's
/// totals and counts return to what they were.
pub proof fn law_refund_undoes_bet(pool: Pool, side: u8, amount: u64)
    requires
        pool_after_bet(pool, side, amount) is Ok,
    ensures
        pool_after_refund(pool_after_bet(pool, side, amount)->Ok_0, side, amount) == pool,
{
}

/// A resolved pool is closed: it takes no bet, cannot be resolved again and
/// refunds nothing.
pub proof fn law_resolved_pool_is_closed(pool: Pool, side: u8, amount: u64, actual_value: u16, bet: Bet, now: i64)
    requires
        pool.resolved,
    ensures
        bet_precheck_outcome(pool, side, amount) is Err,
        bet_check_outcome(pool, side, amount, now) is Err,
        resolve_outcome(pool, actual_value, now) == Err::<u64, MylaError>(
            MylaError::PoolAlreadyResolved,
        ),
        refund_outcome(pool, bet, now) is Err,
{
}

/// Betting closes before resolution opens: a bet accepted at `bet_time` and
/// a resolution accepted at `resolve_time` have `bet_time < resolve_time`.
pub proof fn law_bets_close_before_resolution(
    pool: Pool,
    side: u8,
    amount: u64,
    bet_time: i64,
    actual_value: u16,
    resolve_time: i64,
)
    requires
        bet_check_outcome(pool, side, amount, bet_time) is Ok,
        resolve_outcome(pool, actual_value, resolve_time) is Ok,
    ensures
        bet_time < resolve_time,
{
}

/// Once the grace period after the deadline is over, an unresolved pool
/// gives every unclaimed bet its whole stake back.
pub proof fn law_refund_after_grace(pool: Pool, bet: Bet, now: i64)
    requires
        !pool.resolved,
        !bet.claimed,
        now >= pool.deadline + REFUND_GRACE_PERIOD,
    ensures
        refund_eligible(pool, now),
        refund_outcome(pool, bet, now) == Ok::<u64, MylaError>(bet.amount),
{
}

/// The pool once every bet of `bets` is counted in, in order, or the first
/// error.
pub open spec fn pool_after_bets(pool: Pool, bets: Seq<Bet>) -> Result<Pool, MylaError>
    decreases bets.len(),
{
    if bets.len() == 0 {
        Ok(pool)
    } else {
        match pool_after_bets(pool, bets.drop_last()) {
            Ok(p) => pool_after_bet(p, bets.last().side, bets.last().amount),
            Err(e) => Err(e),
        }
    }
}

/// Whether a bet on `bet_side` is counted in the total of `side`.
pub open spec fn counted_on(bet_side: u8, side: u8) -> bool {
    (bet_side == SIDE_OVER) == (side == SIDE_OVER)
}

/// Sum of the stakes of `bets` that are counted on `side`.
pub open spec fn stakes_on(bets: Seq<Bet>, side: u8) -> nat
    decreases bets.len(),
{
    if bets.len() == 0 {
        0
    } else if counted_on(bets.last().side, side) {
        (stakes_on(bets.drop_last(), side) + bets.last().amount) as nat
    } else {
        stakes_on(bets.drop_last(), side)
    }
}

/// Number of `bets` counted on `side`.
pub open spec fn bets_on(bets: Seq<Bet>, side: u8) -> nat
    decreases bets.len(),
{
    if bets.len() == 0 {
        0
    } else if counted_on(bets.last().side, side) {
        bets_on(bets.drop_last(), side) + 1
    } else {
        bets_on(bets.drop_last(), side)
    }
}

/// The pool's books match its bets: after a run of accepted bets, each
/// side's total grows by exactly the stakes placed on it and each side's
/// count by the number of its bets; nothing else about the pool changes.
pub proof fn law_totals_count_every_bet(pool: Pool, bets: Seq<Bet>)
    requires
        pool_after_bets(pool, bets) is Ok,
    ensures
        ({
            let p = pool_after_bets(pool, bets)->Ok_0;
            &&& p.over_total == pool.over_total + stakes_on(bets, SIDE_OVER)
            &&& p.under_total == pool.under_total + stakes_on(bets, SIDE_UNDER)
            &&& p.over_count == pool.over_count + bets_on(bets, SIDE_OVER)
            &&& p.under_count == pool.under_count + bets_on(bets, SIDE_UNDER)
            &&& p == (Pool {
                over_total: p.over_total,
                under_total: p.under_total,
                over_count: p.over_count,
                under_count: p.under_count,
                ..pool
            })
        }),
    decreases bets.len(),
{
    if bets.len() > 0 {
        law_totals_count_every_bet(pool, bets.drop_last());
    }
}

/// Counting a bet in keeps a pool well formed.
pub proof fn law_bet_keeps_pool_well_formed(pool: Pool, side: u8, amount: u64)
    requires
        pool.wf(),
        pool_after_bet(pool, side, amount) is Ok,
    ensures
        pool_after_bet(pool, side, amount)->Ok_0.wf(),
{
}

/// Rounding each payout down costs a winner less than one lamport: `side
/// total × Σ payouts ≥ stakes × distributable − n × (side total − 1)` for n
/// winning bets.
proof fn lemma_sum_payouts_lower(pool: Pool, bets: Seq<Bet>)
    requires
        pool.wf(),
        pool.resolved,
        pool.total() <= u64::MAX,
        pool.total() * pool.commission_rate <= u64::MAX,
        pool.side_total(pool.winning_side->0) > 0,
        forall|i: int|
            0 <= i < bets.len() ==> #[trigger] bets[i].side == pool.winning_side->0
                && !bets[i].claimed,
        sum_amounts(bets) <= pool.side_total(pool.winning_side->0),
    ensures
        ({
            let total = pool.total();
            let d = total - commission_of(total, pool.commission_rate as int);
            let w = pool.side_total(pool.winning_side->0) as int;
            w * sum_payouts(pool, bets) >= sum_amounts(bets) * d - bets.len() * (w - 1)
        }),
    decreases bets.len(),
{
    let total = pool.total();
    let rate = pool.commission_rate as int;
    let w = pool.side_total(pool.winning_side->0) as int;
    law_commission_within_pool(total, rate);
    let d = total - commission_of(total, rate);
    if bets.len() > 0 {
        let prefix = bets.drop_last();
        let last = bets.last();
        assert(forall|i: int| 0 <= i < prefix.len() ==> prefix[i] == bets[i]);
        assert(last == bets[bets.len() - 1]);
        lemma_sum_payouts_lower(pool, prefix);
        let s = sum_amounts(prefix) as int;
        let a = last.amount as int;
        let sp = sum_payouts(pool, prefix);
        let n = prefix.len() as int;
        lemma_share_within_distributable(a, d, w);
        let p = a * d / w;
        assert(claim_outcome(pool, last) == Ok::<u64, MylaError>(p as u64));
        lemma_fundamental_div_mod(a * d, w);
        lemma_mod_pos_bound(a * d, w);
        assert(w * (sp + p) >= (s + a) * d - (n + 1) * (w - 1)) by (nonlinear_arith)
            requires
                w * sp >= s * d - n * (w - 1),
                a * d == w * p + (a * d) % w,
                (a * d) % w < w,
        ;
    }
}

/// Rounding never keeps much back: when the winning side holds stakes and
/// its n bets make up its total, the payouts of all of them fall short of
/// the distributable lamports by less than n.
pub proof fn law_rounding_keeps_back_less_than_one_lamport_per_winner(pool: Pool, bets: Seq<Bet>)
    requires
        pool.wf(),
        pool.resolved,
        pool.total() <= u64::MAX,
        pool.total() * pool.commission_rate <= u64::MAX,
        pool.side_total(pool.winning_side->0) > 0,
        forall|i: int|
            0 <= i < bets.len() ==> #[trigger] bets[i].side == pool.winning_side->0
                && !bets[i].claimed,
        sum_amounts(bets) == pool.side_total(pool.winning_side->0),
    ensures
        pool.total() - commission_of(pool.total(), pool.commission_rate as int) - sum_payouts(
            pool,
            bets,
        ) < bets.len(),
{
    let total = pool.total();
    let rate = pool.commission_rate as int;
    let w = pool.side_total(pool.winning_side->0) as int;
    let d = total - commission_of(total, rate);
    let k = bets.len() as int;
    let sp = sum_payouts(pool, bets);
    lemma_sum_payouts_lower(pool, bets);
    assert(k >= 1);
    assert(d - sp < k) by (nonlinear_arith)
        requires
            w * sp >= w * d - k * (w - 1),
            w > 0,
            k >= 1,
    ;
}

/// The books of a pool match its live bets: each side's total and count are
/// those of the live bets on that side, and the vault holds at least the
/// staked lamports.
pub open spec fn books_match(pool: Pool, live: Seq<Bet>, vault: int) -> bool {
    &&& pool.over_total == stakes_on(live, SIDE_OVER)
    &&& pool.under_total == stakes_on(live, SIDE_UNDER)
    &&& pool.over_count == bets_on(live, SIDE_OVER)
    &&& pool.under_count == bets_on(live, SIDE_UNDER)
    &&& vault >= pool.total()
}

/// Taking bet `i` out of `bets` takes exactly its stake and one bet out of
/// the side it is counted on.
proof fn lemma_remove_bet(bets: Seq<Bet>, i: int, side: u8)
    requires
        0 <= i < bets.len(),
    ensures
        stakes_on(bets.remove(i), side) + (if counted_on(bets[i].side, side) {
            bets[i].amount as int
        } else {
            0
        }) == stakes_on(bets, side),
        bets_on(bets.remove(i), side) + (if counted_on(bets[i].side, side) {
            1int
        } else {
            0
        }) == bets_on(bets, side),
    decreases bets.len(),
{
    if i == bets.len() - 1 {
        assert(bets.remove(i) =~= bets.drop_last());
    } else {
        lemma_remove_bet(bets.drop_last(), i, side);
        assert(bets.remove(i).drop_last() =~= bets.drop_last().remove(i));
        assert(bets.remove(i).last() == bets.last());
        assert(bets.drop_last()[i] == bets[i]);
    }
}

/// Refunds keep the books: when a pool's totals and counts are those of its
/// live bets and the vault covers them, a successful refund of live bet `i`
/// leaves the same true of the remaining bets and of the vault less the
/// refund. The stake never exceeds its side's total, so the saturating
/// subtractions never stop at zero, and the vault never goes negative.
pub proof fn law_refund_keeps_books(pool: Pool, live: Seq<Bet>, vault: int, i: int, now: i64)
    requires
        books_match(pool, live, vault),
        0 <= i < live.len(),
        refund_outcome(pool, live[i], now) is Ok,
    ensures
        live[i].amount <= pool.side_total(live[i].side),
        live[i].side == SIDE_OVER ==> pool.over_count >= 1,
        live[i].side != SIDE_OVER ==> pool.under_count >= 1,
        live[i].amount <= vault,
        books_match(
            pool_after_refund(pool, live[i].side, live[i].amount),
            live.remove(i),
            vault - live[i].amount,
        ),
{
    lemma_remove_bet(live, i, SIDE_OVER);
    lemma_remove_bet(live, i, SIDE_UNDER);
}

/// Only the winning side is paid: a bet on any other side than the one the
/// pool was resolved for is refused with `NotAWinner`, and a successful
/// claim is always on the winning side and for a bet not yet claimed.
pub proof fn law_only_winners_are_paid(pool: Pool, bet: Bet)
    ensures
        pool.winning_side is Some && bet.side != pool.winning_side->0 ==> claim_outcome(pool, bet)
            == Err::<u64, MylaError>(MylaError::NotAWinner),
        claim_outcome(pool, bet) is Ok ==> pool.winning_side == Some(bet.side) && !bet.claimed,
        pool.winning_side is None ==> claim_outcome(pool, bet) == Err::<u64, MylaError>(
            MylaError::PoolNotResolved,
        ),
{
}

/// The payout is the bettor's share, rounded down, of the pool less the
/// commission: with `c = ⌊total × rate / 10 000⌋` and `d = total − c`, the
/// payout `p` on a stake `a` out of the winning side's total `w` satisfies
/// `p × w ≤ a × d < (p + 1) × w`.
pub proof fn law_payout_is_the_share_of_the_pool(pool: Pool, bet: Bet, p: u64)
    requires
        claim_outcome(pool, bet) == Ok::<u64, MylaError>(p),
        bet.side == SIDE_OVER ==> bet.amount <= pool.over_total,
        bet.side != SIDE_OVER ==> bet.amount <= pool.under_total,
    ensures
        ({
            let t = pool.over_total + pool.under_total;
            let c = t * pool.commission_rate / 10_000;
            let d = t - c;
            let w = if bet.side == SIDE_OVER {
                pool.over_total as int
            } else {
                pool.under_total as int
            };
            &&& t <= u64::MAX
            &&& 0 <= c <= t
            &&& w > 0
            &&& p * w <= bet.amount * d
            &&& bet.amount * d < (p + 1) * w
        }),
{
    let t = pool.over_total + pool.under_total;
    let rate = pool.commission_rate as int;
    let c = commission_of(t, rate);
    assert(c == t * pool.commission_rate / 10_000);
    assert(0 <= c <= t) by {
        assert(0 <= t * rate) by (nonlinear_arith)
            requires
                0 <= t,
                0 <= rate,
        ;
        lemma_div_is_ordered(0, t * rate, 10000);
    }
    let d = t - c;
    let w = pool.side_total(bet.side) as int;
    let a = bet.amount as int;
    lemma_share_within_distributable(a, d, w);
    let q = a * d / w;
    lemma_fundamental_div_mod(a * d, w);
    lemma_mod_pos_bound(a * d, w);
    assert(p == q);
    assert(q * w <= a * d && a * d < (q + 1) * w) by (nonlinear_arith)
        requires
            a * d == w * q + (a * d) % w,
            0 <= (a * d) % w < w,
    ;
}

/// The commission is the rate's share of the pool, rounded down: a
/// resolution that succeeds takes `c` with
/// `c × 10 000 ≤ total × rate < (c + 1) × 10 000`.
pub proof fn law_commission_is_the_rate_of_the_pool(pool: Pool, actual_value: u16, now: i64, c: u64)
    requires
        resolve_outcome(pool, actual_value, now) == Ok::<u64, MylaError>(c),
    ensures
        c * 10_000 <= (pool.over_total + pool.under_total) * pool.commission_rate,
        (pool.over_total + pool.under_total) * pool.commission_rate < (c + 1) * 10_000,
        !pool.resolved,
        now >= pool.deadline,
{
    let x = (pool.over_total + pool.under_total) * pool.commission_rate;
    assert(0 <= x) by (nonlinear_arith)
        requires
            x == (pool.over_total + pool.under_total) * pool.commission_rate,
    ;
    lemma_fundamental_div_mod(x, 10000);
    lemma_mod_pos_bound(x, 10000);
    lemma_div_is_ordered(0, x, 10000);
    assert(x / 10000 <= x) by (nonlinear_arith)
        requires
            x == 10000 * (x / 10000) + x % 10000,
            x % 10000 >= 0,
            x / 10000 >= 0,
    ;
    assert(c == x / 10000);
}

/// The oracle's value alone decides the winner: Over (side 0) exactly when
/// the actual value is strictly above the strike level, Under (side 1)
/// otherwise, ties included. Resolving keeps the stakes and records the
/// value.
pub proof fn law_over_wins_exactly_above_the_strike(pool: Pool, actual_value: u16)
    ensures
        (resolved_pool(pool, actual_value).winning_side == Some(0u8)) <==> actual_value
            > pool.strike_level,
        (resolved_pool(pool, actual_value).winning_side == Some(1u8)) <==> actual_value
            <= pool.strike_level,
        resolved_pool(pool, actual_value).resolved,
        resolved_pool(pool, actual_value).actual_value == Some(actual_value),
        resolved_pool(pool, actual_value).over_total == pool.over_total,
        resolved_pool(pool, actual_value).under_total == pool.under_total,
        resolved_pool(pool, actual_value).commission_rate == pool.commission_rate,
{
}

/// A pool is resolved exactly once, and only from its deadline on; the
/// resolution fails for overflow only when the stakes or their product
/// with the rate really exceed 64 bits.
pub proof fn law_when_a_pool_resolves(pool: Pool, actual_value: u16, now: i64)
    ensures
        pool.resolved ==> resolve_outcome(pool, actual_value, now) == Err::<u64, MylaError>(
            MylaError::PoolAlreadyResolved,
        ),
        !pool.resolved && now < pool.deadline ==> resolve_outcome(pool, actual_value, now) == Err::<
            u64,
            MylaError,
        >(MylaError::DeadlineNotReached),
        !pool.resolved && now >= pool.deadline && pool.over_total + pool.under_total <= u64::MAX
            && (pool.over_total + pool.under_total) * pool.commission_rate <= u64::MAX
            ==> resolve_outcome(pool, actual_value, now) is Ok,
{
}

/// A one-sided pool refunds from its deadline on: when no stake was placed
/// on one of the sides, every unclaimed bet of an unresolved pool gets its
/// whole stake back once the deadline is reached.
pub proof fn law_one_sided_pool_refunds_at_the_deadline(pool: Pool, bet: Bet, now: i64)
    requires
        !pool.resolved,
        !bet.claimed,
        now >= pool.deadline,
        pool.over_total == 0 || pool.under_total == 0,
    ensures
        refund_outcome(pool, bet, now) == Ok::<u64, MylaError>(bet.amount),
{
}

/// A two-sided pool waits for its oracle: while both sides hold stakes and
/// the grace period after the deadline is not over, no refund is given.
pub proof fn law_two_sided_pool_waits_for_the_oracle(pool: Pool, bet: Bet, now: i64)
    requires
        pool.over_total > 0,
        pool.under_total > 0,
        now < pool.deadline + REFUND_GRACE_PERIOD,
    ensures
        refund_outcome(pool, bet, now) is Err,
        !bet.claimed ==> refund_outcome(pool, bet, now) == Err::<u64, MylaError>(
            MylaError::RefundNotEligible,
        ),
{
}

/// A refund of an unclaimed bet from a side holding at least its stake
/// takes exactly that stake and one bet off that side and leaves the other
/// side alone.
pub proof fn law_refund_takes_the_stake_off_its_side(pool: Pool, side: u8, amount: u64)
    ensures
        side == SIDE_OVER && amount <= pool.over_total && pool.over_count >= 1 ==> ({
            let p = pool_after_refund(pool, side, amount);
            &&& p.over_total == pool.over_total - amount
            &&& p.over_count == pool.over_count - 1
            &&& p.under_total == pool.under_total
            &&& p.under_count == pool.under_count
        }),
        side != SIDE_OVER && amount <= pool.under_total && pool.under_count >= 1 ==> ({
            let p = pool_after_refund(pool, side, amount);
            &&& p.under_total == pool.under_total - amount
            &&& p.under_count == pool.under_count - 1
            &&& p.over_total == pool.over_total
            &&& p.over_count == pool.over_count
        }),
{
}

/// A bet is counted exactly on its side: it adds its stake and one bet to
/// Over (side 0) or Under (any other side) and nothing to the other, and it
/// fails for overflow only when that side's 64-bit total or 32-bit count
/// would really overflow.
pub proof fn law_bet_adds_its_stake_to_its_side(pool: Pool, side: u8, amount: u64)
    ensures
        side == 0 ==> (pool_after_bet(pool, side, amount) is Ok <==> (pool.over_total + amount
            <= u64::MAX && pool.over_count + 1 <= u32::MAX)),
        side != 0 ==> (pool_after_bet(pool, side, amount) is Ok <==> (pool.under_total + amount
            <= u64::MAX && pool.under_count + 1 <= u32::MAX)),
        pool_after_bet(pool, side, amount) is Err ==> pool_after_bet(pool, side, amount)
            == Err::<Pool, MylaError>(MylaError::ArithmeticOverflow),
        pool_after_bet(pool, side, amount) matches Ok(p) ==> (if side == 0 {
            &&& p.over_total == pool.over_total + amount
            &&& p.over_count == pool.over_count + 1
            &&& p.under_total == pool.under_total
            &&& p.under_count == pool.under_count
        } else {
            &&& p.under_total == pool.under_total + amount
            &&& p.under_count == pool.under_count + 1
            &&& p.over_total == pool.over_total
            &&& p.over_count == pool.over_count
        }),
{
}

/// Bets are taken exactly while the pool is open: on Over (0) or Under (1),
/// of at least 0.01 SOL, before resolution and before the deadline.
pub proof fn law_when_a_bet_is_taken(pool: Pool, side: u8, amount: u64, now: i64)
    ensures
        bet_check_outcome(pool, side, amount, now) is Ok <==> ((side == 0 || side == 1) && amount
            >= 10_000_000 && !pool.resolved && now < pool.deadline),
{
}

/// A pool's parameters are accepted exactly when the match id has at most
/// 32 bytes, the asset name at most 16, and the rate is at most 100%.
pub proof fn law_when_pool_parameters_are_accepted(
    match_id: String,
    asset: String,
    commission_rate: u16,
)
    ensures
        pool_params_outcome(match_id, asset, commission_rate) is Ok <==> (byte_len(&match_id) <= 32
            && byte_len(&asset) <= 16 && commission_rate <= 10_000),
{
}

/// A new bet records who placed it, on which pool and side, and its stake,
/// and starts unclaimed.
pub proof fn law_new_bet_records_its_stake(pool_key: Pubkey, user_key: Pubkey, side: u8, amount: u64, bump: u8)
    ensures
        ({
            let b = placed_bet(pool_key, user_key, side, amount, bump);
            &&& b.pool == pool_key
            &&& b.user == user_key
            &&& b.side == side
            &&& b.amount == amount
            &&& !b.claimed
            &&& b.bump == bump
        }),
{
}

/// A new pool holds no stakes, is unresolved, and keeps the parameters it
/// was created with.
pub proof fn law_new_pool_is_empty_and_open(
    match_id: String,
    asset: String,
    strike_level: u16,
    strike_minute: u8,
    deadline: i64,
    commission_rate: u16,
    commission_wallet: Pubkey,
    oracle: Pubkey,
    bump: u8,
)
    ensures
        ({
            let p = fresh_pool(
                match_id,
                asset,
                strike_level,
                strike_minute,
                deadline,
                commission_rate,
                commission_wallet,
                oracle,
                bump,
            );
            &&& p.over_total == 0 && p.under_total == 0
            &&& p.over_count == 0 && p.under_count == 0
            &&& !p.resolved && p.winning_side is None && p.actual_value is None
            &&& p.match_id == match_id && p.asset == asset
            &&& p.strike_level == strike_level && p.strike_minute == strike_minute
            &&& p.deadline == deadline && p.commission_rate == commission_rate
            &&& p.commission_wallet == commission_wallet && p.oracle == oracle
            &&& p.bump == bump
        }),
{
}

/// Only the pool's oracle resolves it, paying its own commission wallet;
/// only the bettor claims or withdraws a bet, and only on its own pool; and
/// only a resolved pool pays winnings.
pub proof fn law_only_the_right_keys_act(
    pool: Pool,
    bet: Bet,
    pool_key: Pubkey,
    user_key: Pubkey,
    oracle_key: Pubkey,
    wallet_key: Pubkey,
)
    ensures
        resolve_accounts_outcome(pool, oracle_key, wallet_key) is Ok <==> (oracle_key == pool.oracle
            && wallet_key == pool.commission_wallet),
        oracle_key != pool.oracle ==> resolve_accounts_outcome(pool, oracle_key, wallet_key)
            == Err::<(), InstructionError>(InstructionError::Myla(MylaError::UnauthorizedOracle)),
        claim_accounts_outcome(pool, bet, pool_key, user_key) is Ok <==> (pool.resolved && bet.user
            == user_key && bet.pool == pool_key),
        !pool.resolved ==> claim_accounts_outcome(pool, bet, pool_key, user_key) == Err::<
            (),
            InstructionError,
        >(InstructionError::Myla(MylaError::PoolNotResolved)),
        refund_accounts_outcome(bet, pool_key, user_key) is Ok <==> (bet.user == user_key && bet.pool
            == pool_key),
{
}

} // verus!
