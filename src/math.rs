//! Fixed-point formulas of the engine: collateral value, health ratio,
//! interest accrual and liquidity-provider share conversion.
use vstd::arithmetic::div_mod::{lemma_div_is_ordered, lemma_div_pos_is_pos, lemma_fundamental_div_mod};
use vstd::arithmetic::mul::{lemma_mul_inequality, lemma_mul_nonnegative};
use vstd::prelude::*;

verus! {

/// Denominator of every basis-point quantity (10000 bps = 100%).
pub const BPS_DENOMINATOR: i128 = 10_000;

/// Health ratio scale: a health of 10000 means collateral value equals debt.
pub const HEALTH_SCALAR: i128 = 10_000;

/// Fixed-point precision of oracle prices (7 decimals).
pub const PRICE_SCALAR: i128 = 10_000_000;

/// Number of ledgers over which the borrow rate is denominated.
pub const INTEREST_PERIOD: u32 = 1000;

/// `10000 * PRICE_SCALAR`: the divisor that turns `amount * price * factor_bps`
/// into pool-asset units.
pub const VALUE_DIVISOR: i128 = 100_000_000_000;

/// `10000 * INTEREST_PERIOD`: the divisor of `borrowed * rate_bps * elapsed`.
pub const INTEREST_DIVISOR: i128 = 10_000_000;

/// Risk-adjusted value of `amount` collateral at `price`, in pool-asset units.
pub open spec fn collateral_value_spec(amount: int, price: int, factor_bps: int) -> int {
    amount * price * factor_bps / (VALUE_DIVISOR as int)
}

/// Whether `amount * price * factor_bps` can be computed in `i128`, left to right.
pub open spec fn value_fits(amount: int, price: int, factor_bps: int) -> bool {
    amount * price <= i128::MAX && amount * price * factor_bps <= i128::MAX
}

/// Health ratio scaled by `HEALTH_SCALAR`; a position without debt has the
/// largest representable health.
pub open spec fn health_spec(amount: int, price: int, factor_bps: int, borrowed: int) -> int {
    if borrowed == 0 {
        i128::MAX as int
    } else {
        collateral_value_spec(amount, price, factor_bps) * (HEALTH_SCALAR as int) / borrowed
    }
}

/// Whether the health ratio can be computed without overflow.
pub open spec fn health_defined(amount: int, price: int, factor_bps: int, borrowed: int) -> bool {
    borrowed == 0 || value_fits(amount, price, factor_bps)
}

/// Ledgers elapsed since the last accrual, saturating at zero.
pub open spec fn elapsed_spec(now: u32, last: u32) -> int {
    if now > last {
        now - last
    } else {
        0
    }
}

/// Interest owed on `borrowed` over `elapsed` ledgers at `rate_bps` per period.
pub open spec fn interest_spec(borrowed: int, rate_bps: int, elapsed: int) -> int {
    borrowed * rate_bps * elapsed / (INTEREST_DIVISOR as int)
}

/// Whether the interest and the grown debt fit in `i128`.
pub open spec fn interest_fits(borrowed: int, rate_bps: int, elapsed: int) -> bool {
    &&& borrowed * rate_bps <= i128::MAX
    &&& borrowed * rate_bps * elapsed <= i128::MAX
    &&& borrowed + interest_spec(borrowed, rate_bps, elapsed) <= i128::MAX
}

/// Shares issued for a deposit of `amount`: 1:1 into an empty pool, else
/// proportional and rounded down.
pub open spec fn shares_for_deposit(amount: int, total_shares: int, total_liquidity: int) -> int {
    if total_shares == 0 {
        amount
    } else {
        amount * total_shares / total_liquidity
    }
}

/// Base asset paid out for redeeming `shares`, rounded down.
pub open spec fn redeem_amount_spec(shares: int, total_liquidity: int, total_shares: int) -> int {
    shares * total_liquidity / total_shares
}

proof fn lemma_product_nonneg(a: int, b: int, c: int)
    requires
        a >= 0,
        b >= 0,
        c >= 0,
    ensures
        a * b >= 0,
        a * b * c >= 0,
{
    lemma_mul_nonnegative(a, b);
    lemma_mul_nonnegative(a * b, c);
}

/// `x / d * k <= x` whenever `k <= d`.
proof fn lemma_div_then_scale(x: int, d: int, k: int)
    requires
        x >= 0,
        0 < k <= d,
    ensures
        0 <= x / d,
        x / d * k <= x,
{
    lemma_div_pos_is_pos(x, d);
    lemma_fundamental_div_mod(x, d);
    lemma_mul_inequality(k, d, x / d);
    assert(x / d * k <= x / d * d) by (nonlinear_arith)
        requires
            k <= d,
            x / d >= 0,
    ;
    assert(d * (x / d) == x / d * d) by (nonlinear_arith);
}

/// Risk-adjusted collateral value; `None` when the intermediate product
/// overflows `i128`.
pub fn checked_collateral_value(amount: i128, price: i128, factor_bps: u32) -> (r: Option<i128>)
    requires
        amount >= 0,
        price >= 0,
    ensures
        r == (if value_fits(amount as int, price as int, factor_bps as int) {
            Some(collateral_value_spec(amount as int, price as int, factor_bps as int) as i128)
        } else {
            None::<i128>
        }),
        r is Some ==> 0 <= r->0 <= i128::MAX / 10_000_000,
{
    proof {
        lemma_product_nonneg(amount as int, price as int, factor_bps as int);
    }
    let product = match amount.checked_mul(price) {
        Some(x) => x,
        None => return None,
    };
    let weighted = match product.checked_mul(factor_bps as i128) {
        Some(x) => x,
        None => return None,
    };
    let value = weighted / VALUE_DIVISOR;
    proof {
        lemma_div_then_scale(weighted as int, VALUE_DIVISOR as int, 10_000_000);
        lemma_div_is_ordered(weighted as int, i128::MAX as int, VALUE_DIVISOR as int);
    }
    Some(value)
}

/// Health ratio of a position, scaled by `HEALTH_SCALAR`.
pub fn compute_health(
    collateral_amount: i128,
    collateral_price: i128,
    collateral_factor_bps: u32,
    borrowed_amount: i128,
) -> (health: i128)
    requires
        collateral_amount >= 0,
        collateral_price >= 0,
        borrowed_amount >= 0,
        health_defined(
            collateral_amount as int,
            collateral_price as int,
            collateral_factor_bps as int,
            borrowed_amount as int,
        ),
    ensures
        health == health_spec(
            collateral_amount as int,
            collateral_price as int,
            collateral_factor_bps as int,
            borrowed_amount as int,
        ),
{
    if borrowed_amount == 0 {
        return i128::MAX;
    }
    proof {
        lemma_product_nonneg(
            collateral_amount as int,
            collateral_price as int,
            collateral_factor_bps as int,
        );
    }
    let collateral_value = collateral_amount * collateral_price * (collateral_factor_bps as i128)
        / VALUE_DIVISOR;
    proof {
        let w = collateral_amount * collateral_price * collateral_factor_bps;
        lemma_div_then_scale(w, VALUE_DIVISOR as int, 10_000);
        lemma_div_pos_is_pos(collateral_value * 10_000, borrowed_amount as int);
    }
    collateral_value * HEALTH_SCALAR / borrowed_amount
}

/// Health ratio, or `None` when it cannot be computed without overflow.
pub fn checked_health(
    collateral_amount: i128,
    collateral_price: i128,
    collateral_factor_bps: u32,
    borrowed_amount: i128,
) -> (r: Option<i128>)
    requires
        collateral_amount >= 0,
        collateral_price >= 0,
        borrowed_amount >= 0,
    ensures
        r == (if health_defined(
            collateral_amount as int,
            collateral_price as int,
            collateral_factor_bps as int,
            borrowed_amount as int,
        ) {
            Some(
                health_spec(
                    collateral_amount as int,
                    collateral_price as int,
                    collateral_factor_bps as int,
                    borrowed_amount as int,
                ) as i128,
            )
        } else {
            None::<i128>
        }),
{
    if borrowed_amount != 0 {
        if checked_collateral_value(collateral_amount, collateral_price, collateral_factor_bps).is_none() {
            return None;
        }
    }
    Some(compute_health(collateral_amount, collateral_price, collateral_factor_bps, borrowed_amount))
}

} // verus!
