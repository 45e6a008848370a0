//! Laws of the leverage pool, stated over its abstract model and proved from
//! the contracts of its operations.
use crate::pool::{
    accrual_fits, accrued, accrued_interest, balance_key_spec, conserves_collateral,
    lemma_balance_key_injective, open_threshold, quote_ok, AccountId, AssetId, Error, Position,
    PoolModel, PriceData,
};
use crate::math::{
    collateral_value_spec, health_defined, health_spec, redeem_amount_spec, shares_for_deposit, value_fits,
};
use crate::totals::{lemma_share_total_bounds, lemma_share_total_insert};
use vstd::arithmetic::div_mod::{
    lemma_div_is_ordered, lemma_div_multiples_vanish, lemma_div_pos_is_pos, lemma_fundamental_div_mod,
};
use vstd::prelude::*;

verus! {

/// Collateral of `asset` held in custody for the accounts in `users`.
pub open spec fn held_by(m: PoolModel, users: Set<AccountId>, asset: AssetId) -> int
    decreases users.len(),
{
    if users.finite() && users.len() != 0 {
        let u = users.choose();
        m.collateral_of(u, asset) + held_by(m, users.remove(u), asset)
    } else {
        0
    }
}

proof fn lemma_held_by_step(
    pre: PoolModel,
    post: PoolModel,
    user: AccountId,
    asset: AssetId,
    users: Set<AccountId>,
    a: AssetId,
)
    requires
        users.finite(),
        forall|u: AccountId, b: AssetId|
            (u != user || b != asset) ==> #[trigger] post.collateral_of(u, b) == pre.collateral_of(u, b),
    ensures
        held_by(post, users, a) == held_by(pre, users, a) + (if a == asset && users.contains(user) {
            post.collateral_of(user, a) - pre.collateral_of(user, a)
        } else {
            0
        }),
    decreases users.len(),
{
    if users.len() != 0 {
        let u = users.choose();
        lemma_held_by_step(pre, post, user, asset, users.remove(u), a);
    } else {
        assert(!users.contains(user));
    }
}

/// Collateral is conserved: for every asset, what custody holds for any finite
/// set of accounts that includes the acting user, plus what the pool retains,
/// changes by exactly the amount transferred across the custody boundary.
pub proof fn lemma_collateral_conservation(
    pre: PoolModel,
    post: PoolModel,
    user: AccountId,
    asset: AssetId,
    inflow: int,
    users: Set<AccountId>,
    a: AssetId,
)
    requires
        conserves_collateral(pre, post, user, asset, inflow),
        users.finite(),
        users.contains(user),
    ensures
        held_by(post, users, a) + post.retained_of(a) == held_by(pre, users, a) + pre.retained_of(a) + (
        if a == asset {
            inflow
        } else {
            0
        }),
{
    lemma_held_by_step(pre, post, user, asset, users, a);
}

/// `k * l2 / s2 >= k * l1 / s1` whenever `l2 / s2 >= l1 / s1` as fractions.
proof fn lemma_floor_ratio_mono(k: int, l1: int, s1: int, l2: int, s2: int)
    requires
        k >= 0,
        l1 >= 0,
        s1 > 0,
        s2 > 0,
        l2 * s1 >= l1 * s2,
    ensures
        k * l2 / s2 >= k * l1 / s1,
{
    let x = k * l1 / s1;
    assert(k * l1 >= 0) by (nonlinear_arith)
        requires k >= 0, l1 >= 0;
    lemma_fundamental_div_mod(k * l1, s1);
    lemma_div_pos_is_pos(k * l1, s1);
    assert(x * s1 <= k * l1) by (nonlinear_arith)
        requires k * l1 == s1 * x + (k * l1) % s1, (k * l1) % s1 >= 0;
    assert(x * s2 * s1 <= k * l2 * s1) by (nonlinear_arith)
        requires x * s1 <= k * l1, l2 * s1 >= l1 * s2, s2 > 0, k >= 0, x >= 0;
    assert(x * s2 <= k * l2) by (nonlinear_arith)
        requires x * s2 * s1 <= k * l2 * s1, s1 > 0;
    lemma_div_is_ordered(x * s2, k * l2, s2);
    lemma_div_multiples_vanish(x, s2);
    assert(s2 * x == x * s2) by (nonlinear_arith);
}

/// A share count of `holder` other than the depositor is untouched by a
/// deposit, and the pool asset it redeems for never decreases: shares are
/// issued rounded down, so a deposit cannot dilute existing holders.
pub proof fn lemma_deposit_keeps_share_value(m: PoolModel, lp: AccountId, amount: i128, holder: AccountId)
    requires
        m.wf(),
        m.lp_deposit_error(lp, amount) is None,
        holder != lp,
    ensures
        m.lp_deposited(lp, amount).shares_of(holder) == m.shares_of(holder),
        m.shares_of(holder) > 0 ==> redeem_amount_spec(
            m.shares_of(holder),
            m.lp_deposited(lp, amount).totals.total_liquidity as int,
            m.lp_deposited(lp, amount).totals.total_shares as int,
        ) >= redeem_amount_spec(
            m.shares_of(holder),
            m.totals.total_liquidity as int,
            m.totals.total_shares as int,
        ),
{
    let n = m.lp_deposited(lp, amount);
    let (l, s, a) = (m.totals.total_liquidity as int, m.totals.total_shares as int, amount as int);
    let k = m.shares_of(holder);
    if k > 0 {
        lemma_share_total_bounds(m.lp_shares, holder);
        assert(s > 0);
        assert(l > 0);
        let minted = shares_for_deposit(a, s, l);
        assert(minted == a * s / l);
        lemma_fundamental_div_mod(a * s, l);
        assert(a * s >= 0) by (nonlinear_arith)
            requires a >= 0, s >= 0;
        assert(minted * l <= a * s) by (nonlinear_arith)
            requires a * s == l * minted + (a * s) % l, (a * s) % l >= 0;
        assert((l + a) * s >= l * (s + minted)) by (nonlinear_arith)
            requires minted * l <= a * s;
        lemma_div_pos_is_pos(a * s, l);
        lemma_floor_ratio_mono(k, l, s, l + a, s + minted);
    }
}

/// A share count of `holder` other than the redeemer is untouched by a
/// withdrawal, and the pool asset it redeems for never decreases: payouts are
/// rounded down, so a withdrawal cannot take value from remaining holders.
pub proof fn lemma_withdraw_keeps_share_value(m: PoolModel, lp: AccountId, shares: i128, holder: AccountId)
    requires
        m.wf(),
        m.lp_withdraw_error(lp, shares) is None,
        holder != lp,
    ensures
        m.lp_withdrawn(lp, shares).shares_of(holder) == m.shares_of(holder),
        m.shares_of(holder) > 0 ==> redeem_amount_spec(
            m.shares_of(holder),
            m.lp_withdrawn(lp, shares).totals.total_liquidity as int,
            m.lp_withdrawn(lp, shares).totals.total_shares as int,
        ) >= redeem_amount_spec(
            m.shares_of(holder),
            m.totals.total_liquidity as int,
            m.totals.total_shares as int,
        ),
{
    let n = m.lp_withdrawn(lp, shares);
    let (l, s, w) = (m.totals.total_liquidity as int, m.totals.total_shares as int, shares as int);
    let k = m.shares_of(holder);
    if k > 0 {
        let paid = redeem_amount_spec(w, l, s);
        lemma_fundamental_div_mod(w * l, s);
        assert(w * l >= 0) by (nonlinear_arith)
            requires w >= 0, l >= 0;
        assert(paid * s <= w * l) by (nonlinear_arith)
            requires w * l == s * paid + (w * l) % s, (w * l) % s >= 0;
        assert((l - paid) * s >= l * (s - w)) by (nonlinear_arith)
            requires paid * s <= w * l;
        // the remaining shares still include the holder's
        let new_val = (m.shares_of(lp) - shares) as i128;
        lemma_share_total_insert(m.lp_shares, lp, new_val);
        assert(n.lp_shares == m.lp_shares.insert(lp, new_val));
        assert forall|j: AccountId| #[trigger] n.lp_shares.dom().contains(j) implies n.lp_shares[j] >= 0 by {
            if j != lp {
                assert(m.lp_shares.contains_key(j));
            }
        }
        lemma_share_total_bounds(n.lp_shares, holder);
        assert(n.lp_shares.contains_key(holder));
        assert(s - w > 0);
        lemma_floor_ratio_mono(k, l, s, l - paid, s - w);
    }
}

/// Opening succeeds only if the position's health at opening reaches 150% of
/// the liquidation floor; and once every other check passes, reaching it is
/// enough.
pub proof fn lemma_open_health_gate(
    m: PoolModel,
    user: AccountId,
    token: AssetId,
    borrow: i128,
    quote: Option<PriceData>,
)
    requires
        m.configs.contains_key(token),
        quote_ok(quote),
    ensures
        ({
            let bal = m.free_balance(user, token);
            let price = quote->0.price as int;
            let factor = m.configs[token].collateral_factor_bps as int;
            &&& m.open_position_error(user, token, borrow, quote) is None ==> health_spec(
                bal,
                price,
                factor,
                borrow as int,
            ) >= open_threshold(m.params.min_health_bps)
            &&& (borrow >= 0 && !m.positions.contains_key(user) && m.configs[token].is_active && bal > 0
                && value_fits(bal, price, factor) && borrow <= collateral_value_spec(bal, price, factor)
                && borrow <= m.totals.total_liquidity - m.totals.total_borrowed) ==> (m.open_position_error(
                user,
                token,
                borrow,
                quote,
            ) is None <==> health_spec(bal, price, factor, borrow as int) >= open_threshold(
                m.params.min_health_bps,
            ))
        }),
{
}

/// Accruing twice at the same ledger is the same as accruing once: the second
/// accrual finds no elapsed ledgers and adds no interest.
pub proof fn lemma_accrual_idempotent(p: Position, rate_bps: u32, now: u32)
    requires
        p.wf(),
        accrual_fits(p, rate_bps, now),
    ensures
        accrued_interest(accrued(p, rate_bps, now), rate_bps, now) == 0,
        accrued(accrued(p, rate_bps, now), rate_bps, now) == accrued(p, rate_bps, now),
{
}

/// At pool level, a second accrual at the same ledger changes nothing.
pub proof fn lemma_pool_accrual_idempotent(m: PoolModel, user: AccountId, now: u32)
    requires
        m.wf(),
        m.positions.contains_key(user),
        m.accrual_ok(user, now),
    ensures
        m.with_accrued(user, now).accrual_ok(user, now),
        m.with_accrued(user, now).with_accrued(user, now) == m.with_accrued(user, now),
{
    let once = m.with_accrued(user, now);
    let p = m.positions[user];
    let rate = m.params.borrow_rate_bps;
    lemma_accrual_idempotent(p, rate, now);
    assert(once.positions[user] == accrued(p, rate, now));
    assert(once.positions.insert(user, accrued(p, rate, now)) =~= once.positions);
}

/// Liquidation is refused with `PositionHealthy` exactly when the accrued
/// position's health is at or above the floor; when it goes through, the
/// position is gone and the user's free balance of the collateral is zero.
pub proof fn lemma_liquidation_gate(m: PoolModel, user: AccountId, quote: Option<PriceData>, now: u32)
    requires
        m.wf(),
        m.positions.contains_key(user),
        m.accrual_ok(user, now),
        m.configs.contains_key(m.positions[user].collateral_token),
        quote_ok(quote),
    ensures
        ({
            let mid = m.with_accrued(user, now);
            let q = mid.positions[user];
            let price = quote->0.price as int;
            let factor = m.configs[q.collateral_token].collateral_factor_bps as int;
            let health = health_spec(q.collateral_amount as int, price, factor, q.borrowed_amount as int);
            &&& health_defined(q.collateral_amount as int, price, factor, q.borrowed_amount as int) ==> (
            health >= m.params.min_health_bps <==> m.liquidate_error(user, quote, now) == Some(
                Error::PositionHealthy,
            ))
            &&& health < m.params.min_health_bps ==> m.liquidate_error(user, quote, now) is None
                || m.liquidate_error(user, quote, now) == Some(Error::ArithmeticOverflow)
            &&& m.liquidate_error(user, quote, now) is None ==> {
                &&& health < m.params.min_health_bps
                &&& !mid.seized(user).positions.contains_key(user)
                &&& mid.seized(user).free_balance(user, q.collateral_token) == 0
            }
        }),
{
    let mid = m.with_accrued(user, now);
    assert(mid.positions.contains_key(user));
}

/// Depositing `x` and withdrawing `x` again, with no position open, leaves
/// every free balance as it was.
pub proof fn lemma_collateral_round_trip(
    m: PoolModel,
    user: AccountId,
    token: AssetId,
    x: i128,
    quote: Option<PriceData>,
)
    requires
        m.wf(),
        !m.positions.contains_key(user),
        m.deposit_collateral_error(user, token, x) is None,
    ensures
        m.collateral_deposited(user, token, x).withdraw_collateral_error(user, token, x, quote) is None,
        forall|u: AccountId, a: AssetId| #[trigger] m.collateral_deposited(user, token, x).collateral_withdrawn(
            user,
            token,
            x,
        ).free_balance(u, a) == m.free_balance(u, a),
        m.collateral_deposited(user, token, x).collateral_withdrawn(user, token, x).positions == m.positions,
        m.collateral_deposited(user, token, x).collateral_withdrawn(user, token, x).totals == m.totals,
{
    let d = m.collateral_deposited(user, token, x);
    let w = d.collateral_withdrawn(user, token, x);
    assert(d.free_balance(user, token) == m.free_balance(user, token) + x);
    assert forall|u: AccountId, a: AssetId| #[trigger] w.free_balance(u, a) == m.free_balance(u, a) by {
        if balance_key_spec(u, a) == balance_key_spec(user, token) {
            lemma_balance_key_injective(u, a, user, token);
        }
    }
}

} // verus!
