//! The leverage pool: liquidity-provider shares, per-user collateral
//! ledgers, leveraged positions with interest, and liquidation.
//!
//! Collateral policy: opening a position locks the user's whole free balance
//! of the collateral asset into the position. Closing returns what is left of
//! it to the free balance; what a losing position forfeits, and the free
//! balance a liquidation clears, stays with the pool as retained collateral.
use crate::math::{
    checked_collateral_value, checked_health, collateral_value_spec, compute_health, elapsed_spec,
    health_defined, health_spec, interest_fits, interest_spec, redeem_amount_spec,
    shares_for_deposit, value_fits, BPS_DENOMINATOR, INTEREST_DIVISOR, PRICE_SCALAR,
};
use crate::totals::{
    debt_total, lemma_debt_total_bounds, lemma_debt_total_insert, lemma_debt_total_remove,
    lemma_share_total_bounds, lemma_share_total_insert, share_total,
};
use std::collections::HashMap;
use vstd::prelude::*;

verus! {

broadcast use vstd::std_specs::hash::group_hash_axioms;

/// A participant (trader, liquidity provider, liquidator).
pub type AccountId = u64;

/// A fungible asset (the pool asset or a collateral asset).
pub type AssetId = u64;

#[derive(Clone, Copy, Debug, PartialEq, Eq, Structural)]
pub enum Error {
    NotInitialized,
    AlreadyInitialized,
    UnsupportedCollateral,
    InactiveCollateral,
    PositionAlreadyOpen,
    NoOpenPosition,
    InsufficientCollateral,
    BorrowExceedsCollateral,
    InsufficientPoolLiquidity,
    PositionHealthy,
    WithdrawalWouldLiquidate,
    AgentSessionInvalid,
    OracleCallFailed,
    DivisionByZero,
    InsufficientBalance,
    InvalidAmount,
    ArithmeticOverflow,
}

#[derive(Clone, Copy, Debug, PartialEq, Eq, Structural)]
pub enum PositionDirection {
    Long,
    Short,
}

#[derive(Clone, Copy, Debug, PartialEq, Eq, Structural)]
pub struct Position {
    pub borrowed_amount: i128,
    pub collateral_token: AssetId,
    pub collateral_amount: i128,
    pub opened_at_ledger: u32,
    pub last_interest_ledger: u32,
    pub direction: PositionDirection,
}

#[derive(Clone, Debug)]
pub struct CollateralConfig {
    pub collateral_factor_bps: u32,
    pub price_feed_key: String,
    pub is_active: bool,
}

#[derive(Clone, Copy, Debug, PartialEq, Eq, Structural)]
pub struct PoolStats {
    pub total_liquidity: i128,
    pub total_borrowed: i128,
    pub total_shares: i128,
    pub utilization_rate_bps: u32,
    pub current_borrow_rate_bps: u32,
}

/// An oracle quote: a price scaled by `PRICE_SCALAR` and its timestamp.
#[derive(Clone, Copy, Debug, PartialEq, Eq, Structural)]
pub struct PriceData {
    pub price: i128,
    pub timestamp: u64,
}

/// Configuration fixed when the pool is created.
#[derive(Clone, Copy, Debug, PartialEq, Eq, Structural)]
pub struct PoolParams {
    pub borrow_rate_bps: u32,
    pub liquidation_bonus_bps: u32,
    pub max_leverage_bps: u32,
    pub min_health_bps: u32,
}

/// The three pool-wide totals, which always move together.
#[derive(Clone, Copy, Debug, PartialEq, Eq, Structural)]
pub struct PoolTotals {
    pub total_liquidity: i128,
    pub total_borrowed: i128,
    pub total_shares: i128,
}

impl Position {
    pub open spec fn wf(self) -> bool {
        self.borrowed_amount >= 0 && self.collateral_amount >= 0
    }
}

/// The position after accruing interest up to ledger `now`.
pub open spec fn accrued(p: Position, rate_bps: u32, now: u32) -> Position {
    let elapsed = elapsed_spec(now, p.last_interest_ledger);
    if elapsed == 0 {
        p
    } else {
        Position {
            borrowed_amount: (p.borrowed_amount + interest_spec(
                p.borrowed_amount as int,
                rate_bps as int,
                elapsed,
            )) as i128,
            last_interest_ledger: now,
            ..p
        }
    }
}

/// Interest that accrual up to `now` adds to the position's debt.
pub open spec fn accrued_interest(p: Position, rate_bps: u32, now: u32) -> int {
    let elapsed = elapsed_spec(now, p.last_interest_ledger);
    if elapsed == 0 {
        0
    } else {
        interest_spec(p.borrowed_amount as int, rate_bps as int, elapsed)
    }
}

/// Whether accrual up to `now` can be computed without overflow.
pub open spec fn accrual_fits(p: Position, rate_bps: u32, now: u32) -> bool {
    let elapsed = elapsed_spec(now, p.last_interest_ledger);
    elapsed == 0 || interest_fits(p.borrowed_amount as int, rate_bps as int, elapsed)
}

/// Advances the position's debt by the interest owed since its last accrual
/// and returns that interest. No ledgers elapsed (or a ledger earlier than the
/// last accrual) leaves the position as it is.
pub fn accrue_interest_internal(position: &mut Position, borrow_rate_bps: u32, current_ledger: u32) -> (r:
    Result<i128, Error>)
    requires
        old(position).wf(),
    ensures
        accrual_fits(*old(position), borrow_rate_bps, current_ledger) ==> {
            &&& r == Ok::<i128, Error>(
                accrued_interest(*old(position), borrow_rate_bps, current_ledger) as i128,
            )
            &&& *final(position) == accrued(*old(position), borrow_rate_bps, current_ledger)
        },
        !accrual_fits(*old(position), borrow_rate_bps, current_ledger) ==> {
            &&& r == Err::<i128, Error>(Error::ArithmeticOverflow)
            &&& *final(position) == *old(position)
        },
        final(position).wf(),
        r matches Ok(i) ==> i >= 0,
        accrual_fits(*old(position), borrow_rate_bps, current_ledger) ==> {
            &&& accrued_interest(*old(position), borrow_rate_bps, current_ledger) >= 0
            &&& final(position).borrowed_amount == old(position).borrowed_amount + accrued_interest(
                *old(position),
                borrow_rate_bps,
                current_ledger,
            )
        },
{
    let elapsed = current_ledger.saturating_sub(position.last_interest_ledger);
    if elapsed == 0 {
        return Ok(0);
    }
    let b = position.borrowed_amount;
    proof {
        vstd::arithmetic::mul::lemma_mul_nonnegative(b as int, borrow_rate_bps as int);
        vstd::arithmetic::mul::lemma_mul_nonnegative(b * borrow_rate_bps, elapsed as int);
    }
    let by_rate = match b.checked_mul(borrow_rate_bps as i128) {
        Some(x) => x,
        None => return Err(Error::ArithmeticOverflow),
    };
    let weighted = match by_rate.checked_mul(elapsed as i128) {
        Some(x) => x,
        None => return Err(Error::ArithmeticOverflow),
    };
    let interest = weighted / INTEREST_DIVISOR;
    if interest > i128::MAX - b {
        return Err(Error::ArithmeticOverflow);
    }
    position.borrowed_amount = b + interest;
    position.last_interest_ledger = current_ledger;
    Ok(interest)
}

/// Key of the free-collateral ledger entry of `user` for `asset`.
pub open spec fn balance_key_spec(user: AccountId, asset: AssetId) -> u128 {
    (user as int * 0x1_0000_0000_0000_0000 + asset as int) as u128
}

pub fn balance_key(user: AccountId, asset: AssetId) -> (k: u128)
    ensures
        k == balance_key_spec(user, asset),
{
    (user as u128) * 0x1_0000_0000_0000_0000u128 + (asset as u128)
}

pub proof fn lemma_balance_key_injective(u1: AccountId, a1: AssetId, u2: AccountId, a2: AssetId)
    requires
        balance_key_spec(u1, a1) == balance_key_spec(u2, a2),
    ensures
        u1 == u2 && a1 == a2,
{
    let (x1, y1, x2, y2) = (u1 as int, a1 as int, u2 as int, a2 as int);
    assert(0 <= x1 * 0x1_0000_0000_0000_0000 + y1 <= u128::MAX) by (nonlinear_arith)
        requires 0 <= x1 < 0x1_0000_0000_0000_0000, 0 <= y1 < 0x1_0000_0000_0000_0000;
    assert(0 <= x2 * 0x1_0000_0000_0000_0000 + y2 <= u128::MAX) by (nonlinear_arith)
        requires 0 <= x2 < 0x1_0000_0000_0000_0000, 0 <= y2 < 0x1_0000_0000_0000_0000;
    assert(x1 == x2 && y1 == y2) by (nonlinear_arith)
        requires
            x1 * 0x1_0000_0000_0000_0000 + y1 == x2 * 0x1_0000_0000_0000_0000 + y2,
            0 <= y1 < 0x1_0000_0000_0000_0000,
            0 <= y2 < 0x1_0000_0000_0000_0000,
    ;
}

/// The abstract state of a pool.
pub ghost struct PoolModel {
    pub params: PoolParams,
    pub totals: PoolTotals,
    pub lp_shares: Map<AccountId, i128>,
    pub balances: Map<u128, i128>,
    pub positions: Map<AccountId, Position>,
    pub configs: Map<AssetId, CollateralConfig>,
    pub retained: Map<AssetId, i128>,
}

impl PoolModel {
    /// Free (unlocked) collateral of `user` in `asset`.
    pub open spec fn free_balance(self, user: AccountId, asset: AssetId) -> int {
        let k = balance_key_spec(user, asset);
        if self.balances.contains_key(k) {
            self.balances[k] as int
        } else {
            0
        }
    }

    /// Shares held by liquidity provider `lp`.
    pub open spec fn shares_of(self, lp: AccountId) -> int {
        if self.lp_shares.contains_key(lp) {
            self.lp_shares[lp] as int
        } else {
            0
        }
    }

    /// Collateral of `asset` that the pool itself holds.
    pub open spec fn retained_of(self, asset: AssetId) -> int {
        if self.retained.contains_key(asset) {
            self.retained[asset] as int
        } else {
            0
        }
    }

    /// Collateral of `asset` locked in `user`'s open position.
    pub open spec fn locked_of(self, user: AccountId, asset: AssetId) -> int {
        if self.positions.contains_key(user) && self.positions[user].collateral_token == asset {
            self.positions[user].collateral_amount as int
        } else {
            0
        }
    }

    /// All collateral of `asset` in custody on behalf of `user`.
    pub open spec fn collateral_of(self, user: AccountId, asset: AssetId) -> int {
        self.free_balance(user, asset) + self.locked_of(user, asset)
    }

    pub open spec fn wf(self) -> bool {
        &&& self.lp_shares.dom().finite()
        &&& self.positions.dom().finite()
        &&& self.totals.total_shares == share_total(self.lp_shares)
        &&& self.totals.total_borrowed == debt_total(self.positions)
        &&& self.totals.total_liquidity >= 0
        &&& self.totals.total_borrowed >= 0
        &&& self.totals.total_shares >= 0
        &&& forall|lp: AccountId| #[trigger] self.lp_shares.contains_key(lp) ==> self.lp_shares[lp] >= 0
        &&& forall|k: u128| #[trigger] self.balances.contains_key(k) ==> self.balances[k] >= 0
        &&& forall|u: AccountId| #[trigger] self.positions.contains_key(u) ==> self.positions[u].wf()
        &&& forall|a: AssetId| #[trigger] self.retained.contains_key(a) ==> self.retained[a] >= 0
    }

    /// The pool after `amount` of `token` is credited to `user`'s free balance.
    pub open spec fn collateral_deposited(self, user: AccountId, token: AssetId, amount: i128) -> PoolModel {
        PoolModel {
            balances: self.balances.insert(
                balance_key_spec(user, token),
                (self.free_balance(user, token) + amount) as i128,
            ),
            ..self
        }
    }

    /// The pool after `amount` of `token` is taken from `user`'s free balance.
    pub open spec fn collateral_withdrawn(self, user: AccountId, token: AssetId, amount: i128) -> PoolModel {
        PoolModel {
            balances: self.balances.insert(
                balance_key_spec(user, token),
                (self.free_balance(user, token) - amount) as i128,
            ),
            ..self
        }
    }

    /// Why `deposit_collateral` fails, if it does.
    pub open spec fn deposit_collateral_error(self, user: AccountId, token: AssetId, amount: i128) -> Option<Error> {
        if amount < 0 {
            Some(Error::InvalidAmount)
        } else if !self.configs.contains_key(token) {
            Some(Error::UnsupportedCollateral)
        } else if !self.configs[token].is_active {
            Some(Error::InactiveCollateral)
        } else if self.free_balance(user, token) + amount > i128::MAX {
            Some(Error::ArithmeticOverflow)
        } else {
            None
        }
    }
}

/// Whether an oracle answer carries a usable (non-negative) price.
pub open spec fn quote_ok(quote: Option<PriceData>) -> bool {
    quote matches Some(d) && d.price >= 0
}

/// Health a position must reach to be opened: 150% of the liquidation floor.
pub open spec fn open_threshold(min_health_bps: u32) -> int {
    min_health_bps * 150 / 100
}

/// Health a position must keep after a collateral withdrawal: 120% of the
/// liquidation floor.
pub open spec fn withdraw_threshold(min_health_bps: u32) -> int {
    min_health_bps * 120 / 100
}

/// Unweighted value of `amount` collateral at `price`, in pool-asset units.
pub open spec fn market_value(amount: int, price: int) -> int {
    amount * price / (PRICE_SCALAR as int)
}

/// Profit (or, when negative, loss) of closing position `q` at `price`.
pub open spec fn close_pnl(q: Position, price: int) -> int {
    market_value(q.collateral_amount as int, price) - q.borrowed_amount
}

/// A loss in pool-asset units converted into collateral units.
pub open spec fn loss_in_collateral(loss: int, price: int) -> int {
    if price > 0 {
        loss * (PRICE_SCALAR as int) / price
    } else {
        0
    }
}

/// Collateral handed back when closing `q` at `price`: all of it on a profit,
/// else what the loss leaves, floored at zero.
pub open spec fn close_remaining(q: Position, price: int) -> int {
    let pnl = close_pnl(q, price);
    if pnl < 0 {
        let left = q.collateral_amount - loss_in_collateral(-pnl, price);
        if left > 0 {
            left
        } else {
            0
        }
    } else {
        q.collateral_amount as int
    }
}

/// What the pool pays a profitable position: the profit, capped by liquidity.
pub open spec fn close_payout(pnl: int, total_liquidity: int) -> int {
    if pnl > 0 {
        if pnl < total_liquidity {
            pnl
        } else {
            total_liquidity
        }
    } else {
        0
    }
}

impl PoolModel {
    /// Why `open_position` fails, if it does, in the order the checks run.
    pub open spec fn open_position_error(
        self,
        user: AccountId,
        token: AssetId,
        borrow: i128,
        quote: Option<PriceData>,
    ) -> Option<Error> {
        let bal = self.free_balance(user, token);
        if borrow < 0 {
            Some(Error::InvalidAmount)
        } else if self.positions.contains_key(user) {
            Some(Error::PositionAlreadyOpen)
        } else if !self.configs.contains_key(token) {
            Some(Error::UnsupportedCollateral)
        } else if !self.configs[token].is_active {
            Some(Error::InactiveCollateral)
        } else if bal <= 0 {
            Some(Error::InsufficientCollateral)
        } else if !quote_ok(quote) {
            Some(Error::OracleCallFailed)
        } else {
            let price = quote->0.price as int;
            let factor = self.configs[token].collateral_factor_bps as int;
            if !value_fits(bal, price, factor) {
                Some(Error::ArithmeticOverflow)
            } else if borrow > collateral_value_spec(bal, price, factor) {
                Some(Error::BorrowExceedsCollateral)
            } else if borrow > self.totals.total_liquidity - self.totals.total_borrowed {
                Some(Error::InsufficientPoolLiquidity)
            } else if health_spec(bal, price, factor, borrow as int) < open_threshold(
                self.params.min_health_bps,
            ) {
                Some(Error::InsufficientCollateral)
            } else {
                None
            }
        }
    }

    /// The pool after `user` opens a position: the whole free balance of
    /// `token` is locked into it and the debt joins the pool's borrowed total.
    pub open spec fn opened(
        self,
        user: AccountId,
        token: AssetId,
        borrow: i128,
        direction: PositionDirection,
        now: u32,
    ) -> PoolModel {
        PoolModel {
            totals: PoolTotals {
                total_borrowed: (self.totals.total_borrowed + borrow) as i128,
                ..self.totals
            },
            balances: self.balances.insert(balance_key_spec(user, token), 0),
            positions: self.positions.insert(
                user,
                Position {
                    borrowed_amount: borrow,
                    collateral_token: token,
                    collateral_amount: self.free_balance(user, token) as i128,
                    opened_at_ledger: now,
                    last_interest_ledger: now,
                    direction,
                },
            ),
            ..self
        }
    }
}

/// What closing a position settled.
#[derive(Clone, Copy, Debug, PartialEq, Eq, Structural)]
pub struct CloseOutcome {
    /// Debt of the position, interest included, removed from the pool total.
    pub debt_repaid: i128,
    /// Collateral value at the closing price less the debt.
    pub pnl: i128,
    /// Pool asset to transfer from the pool to the user.
    pub payout: i128,
    /// Collateral credited back to the user's free balance.
    pub remaining_collateral: i128,
}

/// What a liquidation settled.
#[derive(Clone, Copy, Debug, PartialEq, Eq, Structural)]
pub struct LiquidationOutcome {
    /// Debt the liquidator repays into the pool.
    pub debt_repaid: i128,
    /// Collateral to transfer from custody to the liquidator.
    pub seized_collateral: i128,
    /// The nominal liquidation bonus contained in the seized collateral.
    pub bonus: i128,
}

impl PoolModel {
    /// Whether accruing `user`'s position up to `now` fits in `i128`, the
    /// pool's borrowed total included.
    pub open spec fn accrual_ok(self, user: AccountId, now: u32) -> bool {
        let p = self.positions[user];
        let rate = self.params.borrow_rate_bps;
        accrual_fits(p, rate, now) && self.totals.total_borrowed + accrued_interest(p, rate, now)
            <= i128::MAX
    }

    /// The pool after accruing interest on `user`'s position up to `now`.
    pub open spec fn with_accrued(self, user: AccountId, now: u32) -> PoolModel {
        let p = self.positions[user];
        let rate = self.params.borrow_rate_bps;
        PoolModel {
            totals: PoolTotals {
                total_borrowed: (self.totals.total_borrowed + accrued_interest(p, rate, now)) as i128,
                ..self.totals
            },
            positions: self.positions.insert(user, accrued(p, rate, now)),
            ..self
        }
    }

    /// Why settling `user`'s (already accrued) position by closing fails.
    pub open spec fn settle_error(self, user: AccountId, quote: Option<PriceData>) -> Option<Error> {
        let q = self.positions[user];
        let token = q.collateral_token;
        if !self.configs.contains_key(token) {
            Some(Error::UnsupportedCollateral)
        } else if !quote_ok(quote) {
            Some(Error::OracleCallFailed)
        } else {
            let price = quote->0.price as int;
            let pnl = close_pnl(q, price);
            let remaining = close_remaining(q, price);
            if q.collateral_amount * price > i128::MAX {
                Some(Error::ArithmeticOverflow)
            } else if pnl < 0 && price > 0 && (-pnl) * (PRICE_SCALAR as int) > i128::MAX {
                Some(Error::ArithmeticOverflow)
            } else if self.free_balance(user, token) + remaining > i128::MAX {
                Some(Error::ArithmeticOverflow)
            } else if self.retained_of(token) + (q.collateral_amount - remaining) > i128::MAX {
                Some(Error::ArithmeticOverflow)
            } else {
                None
            }
        }
    }

    /// The pool after closing `user`'s (already accrued) position at `quote`.
    pub open spec fn settled(self, user: AccountId, quote: Option<PriceData>) -> PoolModel {
        let q = self.positions[user];
        let token = q.collateral_token;
        let price = quote->0.price as int;
        let remaining = close_remaining(q, price);
        let payout = close_payout(close_pnl(q, price), self.totals.total_liquidity as int);
        PoolModel {
            totals: PoolTotals {
                total_liquidity: (self.totals.total_liquidity - payout) as i128,
                total_borrowed: (self.totals.total_borrowed - q.borrowed_amount) as i128,
                ..self.totals
            },
            balances: self.balances.insert(
                balance_key_spec(user, token),
                (self.free_balance(user, token) + remaining) as i128,
            ),
            positions: self.positions.remove(user),
            retained: self.retained.insert(
                token,
                (self.retained_of(token) + q.collateral_amount - remaining) as i128,
            ),
            ..self
        }
    }

    /// What closing `user`'s (already accrued) position at `quote` reports.
    pub open spec fn settle_outcome(self, user: AccountId, quote: Option<PriceData>) -> CloseOutcome {
        let q = self.positions[user];
        let price = quote->0.price as int;
        let pnl = close_pnl(q, price);
        CloseOutcome {
            debt_repaid: q.borrowed_amount,
            pnl: pnl as i128,
            payout: close_payout(pnl, self.totals.total_liquidity as int) as i128,
            remaining_collateral: close_remaining(q, price) as i128,
        }
    }

    /// Why `close_position` fails, if it does.
    pub open spec fn close_position_error(self, user: AccountId, quote: Option<PriceData>, now: u32) -> Option<Error> {
        if !self.positions.contains_key(user) {
            Some(Error::NoOpenPosition)
        } else if !self.accrual_ok(user, now) {
            Some(Error::ArithmeticOverflow)
        } else {
            self.with_accrued(user, now).settle_error(user, quote)
        }
    }

    /// Why liquidating `user`'s (already accrued) position fails.
    pub open spec fn seize_error(self, user: AccountId, quote: Option<PriceData>) -> Option<Error> {
        let q = self.positions[user];
        let token = q.collateral_token;
        if !self.configs.contains_key(token) {
            Some(Error::UnsupportedCollateral)
        } else if !quote_ok(quote) {
            Some(Error::OracleCallFailed)
        } else {
            let price = quote->0.price as int;
            let factor = self.configs[token].collateral_factor_bps as int;
            if !health_defined(q.collateral_amount as int, price, factor, q.borrowed_amount as int) {
                Some(Error::ArithmeticOverflow)
            } else if health_spec(q.collateral_amount as int, price, factor, q.borrowed_amount as int)
                >= self.params.min_health_bps {
                Some(Error::PositionHealthy)
            } else if q.collateral_amount * self.params.liquidation_bonus_bps > i128::MAX {
                Some(Error::ArithmeticOverflow)
            } else if self.retained_of(token) + self.free_balance(user, token) > i128::MAX {
                Some(Error::ArithmeticOverflow)
            } else {
                None
            }
        }
    }

    /// The pool after a liquidator takes over `user`'s (already accrued)
    /// position: the debt leaves the borrowed total, the position is deleted,
    /// and the user's free balance of the collateral passes to the pool.
    pub open spec fn seized(self, user: AccountId) -> PoolModel {
        let q = self.positions[user];
        let token = q.collateral_token;
        PoolModel {
            totals: PoolTotals {
                total_borrowed: (self.totals.total_borrowed - q.borrowed_amount) as i128,
                ..self.totals
            },
            balances: self.balances.insert(balance_key_spec(user, token), 0),
            positions: self.positions.remove(user),
            retained: self.retained.insert(
                token,
                (self.retained_of(token) + self.free_balance(user, token)) as i128,
            ),
            ..self
        }
    }

    /// Why `liquidate` fails, if it does.
    pub open spec fn liquidate_error(self, user: AccountId, quote: Option<PriceData>, now: u32) -> Option<Error> {
        if !self.positions.contains_key(user) {
            Some(Error::NoOpenPosition)
        } else if !self.accrual_ok(user, now) {
            Some(Error::ArithmeticOverflow)
        } else {
            self.with_accrued(user, now).seize_error(user, quote)
        }
    }
}

impl PoolModel {
    /// Why `withdraw_collateral` fails, if it does. While the user has a
    /// position with debt in `token`, the position's collateral plus what stays
    /// free must keep the withdrawal safety margin.
    pub open spec fn withdraw_collateral_error(
        self,
        user: AccountId,
        token: AssetId,
        amount: i128,
        quote: Option<PriceData>,
    ) -> Option<Error> {
        let free = self.free_balance(user, token);
        if amount < 0 {
            Some(Error::InvalidAmount)
        } else if free < amount {
            Some(Error::InsufficientCollateral)
        } else if self.positions.contains_key(user) && self.positions[user].collateral_token == token
            && self.positions[user].borrowed_amount > 0 {
            let p = self.positions[user];
            let backing = p.collateral_amount + free - amount;
            if !self.configs.contains_key(token) {
                Some(Error::UnsupportedCollateral)
            } else if !quote_ok(quote) {
                Some(Error::OracleCallFailed)
            } else if backing > i128::MAX {
                Some(Error::ArithmeticOverflow)
            } else {
                let price = quote->0.price as int;
                let factor = self.configs[token].collateral_factor_bps as int;
                if !value_fits(backing, price, factor) {
                    Some(Error::ArithmeticOverflow)
                } else if health_spec(backing, price, factor, p.borrowed_amount as int)
                    < withdraw_threshold(self.params.min_health_bps) {
                    Some(Error::WithdrawalWouldLiquidate)
                } else {
                    None
                }
            }
        } else {
            None
        }
    }

    /// Why `get_health_ratio` fails, if it does.
    pub open spec fn health_error(self, user: AccountId, quote: Option<PriceData>) -> Option<Error> {
        let p = self.positions[user];
        if !self.positions.contains_key(user) {
            None
        } else if !self.configs.contains_key(p.collateral_token) {
            Some(Error::UnsupportedCollateral)
        } else if !quote_ok(quote) {
            Some(Error::OracleCallFailed)
        } else if !health_defined(
            p.collateral_amount as int,
            quote->0.price as int,
            self.configs[p.collateral_token].collateral_factor_bps as int,
            p.borrowed_amount as int,
        ) {
            Some(Error::ArithmeticOverflow)
        } else {
            None
        }
    }

    /// Health of `user`'s stored position at `quote`; no position has the
    /// largest representable health.
    pub open spec fn health_of(self, user: AccountId, quote: Option<PriceData>) -> int {
        let p = self.positions[user];
        if !self.positions.contains_key(user) {
            i128::MAX as int
        } else {
            health_spec(
                p.collateral_amount as int,
                quote->0.price as int,
                self.configs[p.collateral_token].collateral_factor_bps as int,
                p.borrowed_amount as int,
            )
        }
    }
}

impl PoolModel {
    /// Why `lp_deposit` fails, if it does.
    pub open spec fn lp_deposit_error(self, lp: AccountId, amount: i128) -> Option<Error> {
        let liquidity = self.totals.total_liquidity as int;
        let shares = self.totals.total_shares as int;
        if amount < 0 {
            Some(Error::InvalidAmount)
        } else if shares != 0 && liquidity == 0 {
            Some(Error::DivisionByZero)
        } else if shares != 0 && amount * shares > i128::MAX {
            Some(Error::ArithmeticOverflow)
        } else if shares + shares_for_deposit(amount as int, shares, liquidity) > i128::MAX {
            Some(Error::ArithmeticOverflow)
        } else if liquidity + amount > i128::MAX {
            Some(Error::ArithmeticOverflow)
        } else {
            None
        }
    }

    /// The pool after `lp` deposits `amount` of the pool asset.
    pub open spec fn lp_deposited(self, lp: AccountId, amount: i128) -> PoolModel {
        let minted = shares_for_deposit(
            amount as int,
            self.totals.total_shares as int,
            self.totals.total_liquidity as int,
        );
        PoolModel {
            totals: PoolTotals {
                total_liquidity: (self.totals.total_liquidity + amount) as i128,
                total_shares: (self.totals.total_shares + minted) as i128,
                ..self.totals
            },
            lp_shares: self.lp_shares.insert(lp, (self.shares_of(lp) + minted) as i128),
            ..self
        }
    }

    /// Why `lp_withdraw` fails, if it does.
    pub open spec fn lp_withdraw_error(self, lp: AccountId, shares: i128) -> Option<Error> {
        let liquidity = self.totals.total_liquidity as int;
        let total = self.totals.total_shares as int;
        if shares < 0 {
            Some(Error::InvalidAmount)
        } else if self.shares_of(lp) < shares {
            Some(Error::InsufficientBalance)
        } else if total == 0 {
            Some(Error::DivisionByZero)
        } else if shares * liquidity > i128::MAX {
            Some(Error::ArithmeticOverflow)
        } else if liquidity - self.totals.total_borrowed < redeem_amount_spec(
            shares as int,
            liquidity,
            total,
        ) {
            Some(Error::InsufficientPoolLiquidity)
        } else {
            None
        }
    }

    /// The pool after `lp` redeems `shares`.
    pub open spec fn lp_withdrawn(self, lp: AccountId, shares: i128) -> PoolModel {
        let paid = redeem_amount_spec(
            shares as int,
            self.totals.total_liquidity as int,
            self.totals.total_shares as int,
        );
        PoolModel {
            totals: PoolTotals {
                total_liquidity: (self.totals.total_liquidity - paid) as i128,
                total_shares: (self.totals.total_shares - shares) as i128,
                ..self.totals
            },
            lp_shares: self.lp_shares.insert(lp, (self.shares_of(lp) - shares) as i128),
            ..self
        }
    }

    /// Borrowed share of liquidity in basis points; saturates at `u32::MAX`.
    pub open spec fn utilization_bps(self) -> u32 {
        let borrowed = self.totals.total_borrowed as int;
        let liquidity = self.totals.total_liquidity as int;
        if liquidity <= 0 {
            0
        } else if borrowed * 10_000 > i128::MAX || borrowed * 10_000 / liquidity > u32::MAX {
            u32::MAX
        } else {
            (borrowed * 10_000 / liquidity) as u32
        }
    }
}

/// The result that a list of checks gives: the first failure, or success.
pub open spec fn outcome(e: Option<Error>) -> Result<(), Error> {
    match e {
        Some(x) => Err(x),
        None => Ok(()),
    }
}

/// Collateral moves of one operation: only `user`'s holding of `asset` and
/// the pool's retained `asset` change, and together by `inflow`, the amount
/// of `asset` transferred into custody (negative when it leaves).
pub open spec fn conserves_collateral(
    pre: PoolModel,
    post: PoolModel,
    user: AccountId,
    asset: AssetId,
    inflow: int,
) -> bool {
    &&& forall|u: AccountId, a: AssetId|
        (u != user || a != asset) ==> #[trigger] post.collateral_of(u, a) == pre.collateral_of(u, a)
    &&& forall|a: AssetId| a != asset ==> #[trigger] post.retained_of(a) == pre.retained_of(a)
    &&& post.collateral_of(user, asset) + post.retained_of(asset) == pre.collateral_of(user, asset)
        + pre.retained_of(asset) + inflow
}

/// The price of an oracle answer; a missing answer or a negative price is an
/// oracle failure.
pub fn usable_price(quote: Option<PriceData>) -> (r: Result<i128, Error>)
    ensures
        quote_ok(quote) ==> r == Ok::<i128, Error>(quote->0.price),
        !quote_ok(quote) ==> r == Err::<i128, Error>(Error::OracleCallFailed),
{
    match quote {
        Some(d) => {
            if d.price >= 0 {
                Ok(d.price)
            } else {
                Err(Error::OracleCallFailed)
            }
        },
        None => Err(Error::OracleCallFailed),
    }
}

pub struct LeveragePool {
    pub params: PoolParams,
    pub totals: PoolTotals,
    pub lp_shares: HashMap<AccountId, i128>,
    pub collateral_balances: HashMap<u128, i128>,
    pub positions: HashMap<AccountId, Position>,
    pub collateral_configs: HashMap<AssetId, CollateralConfig>,
    pub retained_collateral: HashMap<AssetId, i128>,
}

impl View for LeveragePool {
    type V = PoolModel;

    open spec fn view(&self) -> PoolModel {
        PoolModel {
            params: self.params,
            totals: self.totals,
            lp_shares: self.lp_shares@,
            balances: self.collateral_balances@,
            positions: self.positions@,
            configs: self.collateral_configs@,
            retained: self.retained_collateral@,
        }
    }
}

impl LeveragePool {
    /// A pool with no liquidity, no collateral types and no positions.
    pub fn initialize(
        borrow_rate_bps: u32,
        liquidation_bonus_bps: u32,
        max_leverage_bps: u32,
        min_health_bps: u32,
    ) -> (pool: LeveragePool)
        ensures
            pool@.wf(),
            pool@.params == (PoolParams {
                borrow_rate_bps,
                liquidation_bonus_bps,
                max_leverage_bps,
                min_health_bps,
            }),
            pool@.totals == (PoolTotals { total_liquidity: 0, total_borrowed: 0, total_shares: 0 }),
            pool@.lp_shares.is_empty(),
            pool@.balances.is_empty(),
            pool@.positions.is_empty(),
            pool@.configs.is_empty(),
            pool@.retained.is_empty(),
    {
        LeveragePool {
            params: PoolParams {
                borrow_rate_bps,
                liquidation_bonus_bps,
                max_leverage_bps,
                min_health_bps,
            },
            totals: PoolTotals { total_liquidity: 0, total_borrowed: 0, total_shares: 0 },
            lp_shares: HashMap::new(),
            collateral_balances: HashMap::new(),
            positions: HashMap::new(),
            collateral_configs: HashMap::new(),
            retained_collateral: HashMap::new(),
        }
    }

    /// Adds or replaces the configuration of collateral asset `token`.
    pub fn set_collateral_type(&mut self, token: AssetId, config: CollateralConfig)
        requires
            old(self)@.wf(),
        ensures
            final(self)@ == (PoolModel { configs: old(self)@.configs.insert(token, config), ..old(self)@ }),
            final(self)@.wf(),
    {
        self.collateral_configs.insert(token, config);
    }

    /// Free collateral of `user` in `token`.
    pub fn collateral_balance(&self, user: AccountId, token: AssetId) -> (r: i128)
        requires
            self@.wf(),
        ensures
            r == self@.free_balance(user, token),
            r >= 0,
    {
        match self.collateral_balances.get(&balance_key(user, token)) {
            Some(b) => {
                assert(self@.balances.contains_key(balance_key_spec(user, token)));
                *b
            },
            None => 0,
        }
    }

    /// Credits `amount` of `token` to the free balance of `user`, who has
    /// transferred it into custody.
    pub fn deposit_collateral(&mut self, user: AccountId, token: AssetId, amount: i128) -> (r: Result<(), Error>)
        requires
            old(self)@.wf(),
        ensures
            r == outcome(old(self)@.deposit_collateral_error(user, token, amount)),
            r is Err ==> final(self)@ == old(self)@,
            r is Ok ==> final(self)@ == old(self)@.collateral_deposited(user, token, amount),
            r is Ok ==> conserves_collateral(old(self)@, final(self)@, user, token, amount as int),
            final(self)@.wf(),
    {
        if amount < 0 {
            return Err(Error::InvalidAmount);
        }
        match self.collateral_configs.get(&token) {
            None => return Err(Error::UnsupportedCollateral),
            Some(config) => {
                if !config.is_active {
                    return Err(Error::InactiveCollateral);
                }
            },
        }
        let balance = self.collateral_balance(user, token);
        if balance > i128::MAX - amount {
            return Err(Error::ArithmeticOverflow);
        }
        self.collateral_balances.insert(balance_key(user, token), balance + amount);
        proof {
            self.lemma_balance_frame(*old(self), user, token);
        }
        Ok(())
    }
}

impl LeveragePool {
    /// Sets the free balance of `user` in `token`.
    fn set_free_balance(&mut self, user: AccountId, token: AssetId, value: i128)
        ensures
            final(self)@ == (PoolModel {
                balances: old(self)@.balances.insert(balance_key_spec(user, token), value),
                ..old(self)@
            }),
            final(self)@.free_balance(user, token) == value,
            forall|u: AccountId, a: AssetId|
                (u != user || a != token) ==> #[trigger] final(self)@.free_balance(u, a)
                    == old(self)@.free_balance(u, a),
    {
        self.collateral_balances.insert(balance_key(user, token), value);
        proof {
            self.lemma_balance_frame(*old(self), user, token);
        }
    }

    /// Collateral of `token` that the pool holds.
    pub fn retained_collateral_of(&self, token: AssetId) -> (r: i128)
        requires
            self@.wf(),
        ensures
            r == self@.retained_of(token),
            r >= 0,
    {
        match self.retained_collateral.get(&token) {
            Some(v) => {
                assert(self@.retained.contains_key(token));
                *v
            },
            None => 0,
        }
    }

    /// Opens a leveraged position for `user`, borrowing `borrow_amount` of the
    /// pool asset against the user's whole free balance of `collateral_token`,
    /// valued at the oracle `quote`.
    pub fn open_position(
        &mut self,
        user: AccountId,
        collateral_token: AssetId,
        borrow_amount: i128,
        direction: PositionDirection,
        quote: Option<PriceData>,
        current_ledger: u32,
    ) -> (r: Result<(), Error>)
        requires
            old(self)@.wf(),
        ensures
            r == outcome(old(self)@.open_position_error(user, collateral_token, borrow_amount, quote)),
            r is Err ==> final(self)@ == old(self)@,
            r is Ok ==> final(self)@ == old(self)@.opened(
                user,
                collateral_token,
                borrow_amount,
                direction,
                current_ledger,
            ),
            r is Ok ==> conserves_collateral(old(self)@, final(self)@, user, collateral_token, 0),
            final(self)@.wf(),
    {
        if borrow_amount < 0 {
            return Err(Error::InvalidAmount);
        }
        if self.positions.contains_key(&user) {
            return Err(Error::PositionAlreadyOpen);
        }
        let factor = match self.collateral_configs.get(&collateral_token) {
            None => return Err(Error::UnsupportedCollateral),
            Some(config) => {
                if !config.is_active {
                    return Err(Error::InactiveCollateral);
                }
                config.collateral_factor_bps
            },
        };
        let balance = self.collateral_balance(user, collateral_token);
        if balance <= 0 {
            return Err(Error::InsufficientCollateral);
        }
        let price = match usable_price(quote) {
            Ok(p) => p,
            Err(e) => return Err(e),
        };
        let max_borrowable = match checked_collateral_value(balance, price, factor) {
            Some(v) => v,
            None => return Err(Error::ArithmeticOverflow),
        };
        if borrow_amount > max_borrowable {
            return Err(Error::BorrowExceedsCollateral);
        }
        if borrow_amount > self.totals.total_liquidity - self.totals.total_borrowed {
            return Err(Error::InsufficientPoolLiquidity);
        }
        let initial_health = compute_health(balance, price, factor, borrow_amount);
        let required = (self.params.min_health_bps as i128) * 150 / 100;
        if initial_health < required {
            return Err(Error::InsufficientCollateral);
        }
        let position = Position {
            borrowed_amount: borrow_amount,
            collateral_token,
            collateral_amount: balance,
            opened_at_ledger: current_ledger,
            last_interest_ledger: current_ledger,
            direction,
        };
        proof {
            lemma_debt_total_insert(self@.positions, user, position);
        }
        self.positions.insert(user, position);
        self.set_free_balance(user, collateral_token, 0);
        self.totals.total_borrowed = self.totals.total_borrowed + borrow_amount;
        Ok(())
    }

    /// Sets the collateral of `token` that the pool holds.
    fn set_retained(&mut self, token: AssetId, value: i128)
        ensures
            final(self)@ == (PoolModel {
                retained: old(self)@.retained.insert(token, value),
                ..old(self)@
            }),
    {
        self.retained_collateral.insert(token, value);
    }

    /// The position of `user` with interest accrued up to `now`, and that
    /// interest; nothing is stored.
    fn accrued_position(&self, user: AccountId, now: u32) -> (r: Result<(Position, i128), Error>)
        requires
            self@.wf(),
            self@.positions.contains_key(user),
        ensures
            self@.accrual_ok(user, now) ==> r == Ok::<(Position, i128), Error>((
                accrued(self@.positions[user], self@.params.borrow_rate_bps, now),
                accrued_interest(self@.positions[user], self@.params.borrow_rate_bps, now) as i128,
            )),
            !self@.accrual_ok(user, now) ==> r == Err::<(Position, i128), Error>(
                Error::ArithmeticOverflow,
            ),
            r matches Ok((q, i)) ==> q.wf() && i >= 0 && q.borrowed_amount
                == self@.positions[user].borrowed_amount + i,
    {
        let mut q = match self.positions.get(&user) {
            Some(p) => *p,
            None => return Err(Error::NoOpenPosition),
        };
        let interest = match accrue_interest_internal(&mut q, self.params.borrow_rate_bps, now) {
            Ok(i) => i,
            Err(e) => return Err(e),
        };
        if interest > i128::MAX - self.totals.total_borrowed {
            return Err(Error::ArithmeticOverflow);
        }
        Ok((q, interest))
    }

    /// Closes `user`'s position: accrues interest, settles the profit or loss
    /// at the oracle `quote`, and returns the rest of the collateral to the
    /// user's free balance.
    pub fn close_position(&mut self, user: AccountId, quote: Option<PriceData>, current_ledger: u32) -> (r:
        Result<CloseOutcome, Error>)
        requires
            old(self)@.wf(),
        ensures
            r is Err <==> old(self)@.close_position_error(user, quote, current_ledger) is Some,
            r matches Err(e) ==> old(self)@.close_position_error(user, quote, current_ledger) == Some(e),
            r is Err ==> final(self)@ == old(self)@,
            r matches Ok(out) ==> {
                let mid = old(self)@.with_accrued(user, current_ledger);
                &&& final(self)@ == mid.settled(user, quote)
                &&& out == mid.settle_outcome(user, quote)
                &&& conserves_collateral(
                    old(self)@,
                    final(self)@,
                    user,
                    old(self)@.positions[user].collateral_token,
                    0,
                )
            },
            final(self)@.wf(),
    {
        if !self.positions.contains_key(&user) {
            return Err(Error::NoOpenPosition);
        }
        let (q, interest) = match self.accrued_position(user, current_ledger) {
            Ok(x) => x,
            Err(e) => return Err(e),
        };
        let token = q.collateral_token;
        if !self.collateral_configs.contains_key(&token) {
            return Err(Error::UnsupportedCollateral);
        }
        let price = match usable_price(quote) {
            Ok(p) => p,
            Err(e) => return Err(e),
        };
        proof {
            vstd::arithmetic::mul::lemma_mul_nonnegative(q.collateral_amount as int, price as int);
        }
        let gross = match q.collateral_amount.checked_mul(price) {
            Some(v) => v,
            None => return Err(Error::ArithmeticOverflow),
        };
        let collateral_value = gross / PRICE_SCALAR;
        let pnl = collateral_value - q.borrowed_amount;
        let mut remaining = q.collateral_amount;
        if pnl < 0 {
            let loss = -pnl;
            let loss_in_coll = if price > 0 {
                match loss.checked_mul(PRICE_SCALAR) {
                    Some(v) => v / price,
                    None => return Err(Error::ArithmeticOverflow),
                }
            } else {
                0
            };
            remaining = if q.collateral_amount - loss_in_coll > 0 {
                q.collateral_amount - loss_in_coll
            } else {
                0
            };
        }
        let free = self.collateral_balance(user, token);
        if remaining > i128::MAX - free {
            return Err(Error::ArithmeticOverflow);
        }
        let retained = self.retained_collateral_of(token);
        let forfeited = q.collateral_amount - remaining;
        if forfeited > i128::MAX - retained {
            return Err(Error::ArithmeticOverflow);
        }
        let liquidity = self.totals.total_liquidity;
        let payout = if pnl > 0 {
            if pnl < liquidity {
                pnl
            } else {
                liquidity
            }
        } else {
            0
        };
        let ghost pre = self@;
        proof {
            let p = pre.positions[user];
            lemma_debt_total_bounds(pre.positions, user);
            lemma_debt_total_remove(pre.positions, user);
            assert(pre.positions.remove(user) =~= pre.with_accrued(user, current_ledger).positions.remove(user));
        }
        self.positions.remove(&user);
        self.totals.total_borrowed = self.totals.total_borrowed + interest - q.borrowed_amount;
        self.totals.total_liquidity = liquidity - payout;
        self.set_free_balance(user, token, free + remaining);
        self.set_retained(token, retained + forfeited);
        proof {
            assert(self@ == pre.with_accrued(user, current_ledger).settled(user, quote));
        }
        Ok(CloseOutcome { debt_repaid: q.borrowed_amount, pnl, payout, remaining_collateral: remaining })
    }

    /// Liquidates `user`'s position: accrues interest, and if its health at the
    /// oracle `quote` is below the liquidation floor, the liquidator repays the
    /// whole debt and takes the whole locked collateral.
    pub fn liquidate(&mut self, user: AccountId, quote: Option<PriceData>, current_ledger: u32) -> (r: Result<
        LiquidationOutcome,
        Error,
    >)
        requires
            old(self)@.wf(),
        ensures
            r is Err <==> old(self)@.liquidate_error(user, quote, current_ledger) is Some,
            r matches Err(e) ==> old(self)@.liquidate_error(user, quote, current_ledger) == Some(e),
            r is Err ==> final(self)@ == old(self)@,
            r matches Ok(out) ==> {
                let mid = old(self)@.with_accrued(user, current_ledger);
                let q = mid.positions[user];
                &&& final(self)@ == mid.seized(user)
                &&& out == (LiquidationOutcome {
                    debt_repaid: q.borrowed_amount,
                    seized_collateral: q.collateral_amount,
                    bonus: (q.collateral_amount * old(self)@.params.liquidation_bonus_bps / 10_000) as i128,
                })
                &&& conserves_collateral(
                    old(self)@,
                    final(self)@,
                    user,
                    q.collateral_token,
                    -q.collateral_amount,
                )
            },
            final(self)@.wf(),
    {
        if !self.positions.contains_key(&user) {
            return Err(Error::NoOpenPosition);
        }
        let (q, interest) = match self.accrued_position(user, current_ledger) {
            Ok(x) => x,
            Err(e) => return Err(e),
        };
        let token = q.collateral_token;
        let factor = match self.collateral_configs.get(&token) {
            Some(config) => config.collateral_factor_bps,
            None => return Err(Error::UnsupportedCollateral),
        };
        let price = match usable_price(quote) {
            Ok(p) => p,
            Err(e) => return Err(e),
        };
        let health = match checked_health(q.collateral_amount, price, factor, q.borrowed_amount) {
            Some(h) => h,
            None => return Err(Error::ArithmeticOverflow),
        };
        if health >= self.params.min_health_bps as i128 {
            return Err(Error::PositionHealthy);
        }
        proof {
            vstd::arithmetic::mul::lemma_mul_nonnegative(
                q.collateral_amount as int,
                self.params.liquidation_bonus_bps as int,
            );
        }
        let bonus = match q.collateral_amount.checked_mul(self.params.liquidation_bonus_bps as i128) {
            Some(v) => v / BPS_DENOMINATOR,
            None => return Err(Error::ArithmeticOverflow),
        };
        let free = self.collateral_balance(user, token);
        let retained = self.retained_collateral_of(token);
        if free > i128::MAX - retained {
            return Err(Error::ArithmeticOverflow);
        }
        let ghost pre = self@;
        proof {
            lemma_debt_total_bounds(pre.positions, user);
            lemma_debt_total_remove(pre.positions, user);
            assert(pre.positions.remove(user) =~= pre.with_accrued(user, current_ledger).positions.remove(user));
        }
        self.positions.remove(&user);
        self.totals.total_borrowed = self.totals.total_borrowed + interest - q.borrowed_amount;
        self.set_free_balance(user, token, 0);
        self.set_retained(token, retained + free);
        proof {
            assert(self@ == pre.with_accrued(user, current_ledger).seized(user));
        }
        Ok(LiquidationOutcome {
            debt_repaid: q.borrowed_amount,
            seized_collateral: q.collateral_amount,
            bonus,
        })
    }

    /// Takes `amount` of `token` out of `user`'s free balance, to be
    /// transferred back to the user.
    pub fn withdraw_collateral(
        &mut self,
        user: AccountId,
        token: AssetId,
        amount: i128,
        quote: Option<PriceData>,
    ) -> (r: Result<(), Error>)
        requires
            old(self)@.wf(),
        ensures
            r == outcome(old(self)@.withdraw_collateral_error(user, token, amount, quote)),
            r is Err ==> final(self)@ == old(self)@,
            r is Ok ==> final(self)@ == old(self)@.collateral_withdrawn(user, token, amount),
            r is Ok ==> conserves_collateral(old(self)@, final(self)@, user, token, -amount),
            final(self)@.wf(),
    {
        if amount < 0 {
            return Err(Error::InvalidAmount);
        }
        let balance = self.collateral_balance(user, token);
        if balance < amount {
            return Err(Error::InsufficientCollateral);
        }
        match self.positions.get(&user) {
            Some(position) => {
                if position.collateral_token == token && position.borrowed_amount > 0 {
                    assert(self@.positions[user].wf());
                    let factor = match self.collateral_configs.get(&token) {
                        Some(config) => config.collateral_factor_bps,
                        None => return Err(Error::UnsupportedCollateral),
                    };
                    let price = match usable_price(quote) {
                        Ok(p) => p,
                        Err(e) => return Err(e),
                    };
                    let left = balance - amount;
                    if position.collateral_amount > i128::MAX - left {
                        return Err(Error::ArithmeticOverflow);
                    }
                    let backing = position.collateral_amount + left;
                    if checked_collateral_value(backing, price, factor).is_none() {
                        return Err(Error::ArithmeticOverflow);
                    }
                    let post_health = compute_health(backing, price, factor, position.borrowed_amount);
                    let safe_health = (self.params.min_health_bps as i128) * 120 / 100;
                    if post_health < safe_health {
                        return Err(Error::WithdrawalWouldLiquidate);
                    }
                }
            },
            None => {},
        }
        self.set_free_balance(user, token, balance - amount);
        Ok(())
    }

    /// Accrues interest on `user`'s position up to `current_ledger` and adds
    /// it to the pool's borrowed total; returns the interest. Without a
    /// position nothing changes.
    pub fn accrue_interest(&mut self, user: AccountId, current_ledger: u32) -> (r: Result<i128, Error>)
        requires
            old(self)@.wf(),
        ensures
            !old(self)@.positions.contains_key(user) ==> r == Ok::<i128, Error>(0) && final(self)@
                == old(self)@,
            old(self)@.positions.contains_key(user) && !old(self)@.accrual_ok(user, current_ledger)
                ==> r == Err::<i128, Error>(Error::ArithmeticOverflow) && final(self)@ == old(self)@,
            old(self)@.positions.contains_key(user) && old(self)@.accrual_ok(user, current_ledger) ==> {
                &&& r == Ok::<i128, Error>(
                    accrued_interest(
                        old(self)@.positions[user],
                        old(self)@.params.borrow_rate_bps,
                        current_ledger,
                    ) as i128,
                )
                &&& final(self)@ == old(self)@.with_accrued(user, current_ledger)
            },
            forall|u: AccountId, a: AssetId| #[trigger] final(self)@.collateral_of(u, a)
                == old(self)@.collateral_of(u, a),
            final(self)@.wf(),
    {
        if !self.positions.contains_key(&user) {
            return Ok(0);
        }
        let (q, interest) = match self.accrued_position(user, current_ledger) {
            Ok(x) => x,
            Err(e) => return Err(e),
        };
        proof {
            lemma_debt_total_insert(self@.positions, user, q);
        }
        let ghost pre = self@;
        self.positions.insert(user, q);
        self.totals.total_borrowed = self.totals.total_borrowed + interest;
        proof {
            assert(self@.positions == pre.positions.insert(user, q));
            assert(self@.lp_shares == pre.lp_shares);
            assert(self@.balances == pre.balances);
            assert(self@.retained == pre.retained);
            assert(pre.wf());
        }
        Ok(interest)
    }

    /// Health ratio of `user`'s stored position at the oracle `quote`.
    pub fn get_health_ratio(&self, user: AccountId, quote: Option<PriceData>) -> (r: Result<i128, Error>)
        requires
            self@.wf(),
        ensures
            r is Err <==> self@.health_error(user, quote) is Some,
            r matches Err(e) ==> self@.health_error(user, quote) == Some(e),
            r matches Ok(h) ==> h == self@.health_of(user, quote),
    {
        let position = match self.positions.get(&user) {
            Some(p) => *p,
            None => return Ok(i128::MAX),
        };
        assert(self@.positions[user].wf());
        let factor = match self.collateral_configs.get(&position.collateral_token) {
            Some(config) => config.collateral_factor_bps,
            None => return Err(Error::UnsupportedCollateral),
        };
        let price = match usable_price(quote) {
            Ok(p) => p,
            Err(e) => return Err(e),
        };
        match checked_health(position.collateral_amount, price, factor, position.borrowed_amount) {
            Some(h) => Ok(h),
            None => Err(Error::ArithmeticOverflow),
        }
    }

    /// The open position of `user`, if any.
    pub fn get_position(&self, user: AccountId) -> (r: Option<Position>)
        ensures
            r == (if self@.positions.contains_key(user) {
                Some(self@.positions[user])
            } else {
                None::<Position>
            }),
    {
        match self.positions.get(&user) {
            Some(p) => Some(*p),
            None => None,
        }
    }

    /// Shares held by `lp`.
    pub fn lp_shares_of(&self, lp: AccountId) -> (r: i128)
        requires
            self@.wf(),
        ensures
            r == self@.shares_of(lp),
            r >= 0,
    {
        match self.lp_shares.get(&lp) {
            Some(v) => {
                assert(self@.lp_shares.contains_key(lp));
                *v
            },
            None => 0,
        }
    }

    /// Issues shares to `lp` for `amount` of the pool asset it transferred in;
    /// returns the number of shares issued.
    pub fn lp_deposit(&mut self, lp: AccountId, amount: i128) -> (r: Result<i128, Error>)
        requires
            old(self)@.wf(),
        ensures
            r is Err <==> old(self)@.lp_deposit_error(lp, amount) is Some,
            r matches Err(e) ==> old(self)@.lp_deposit_error(lp, amount) == Some(e),
            r is Err ==> final(self)@ == old(self)@,
            r matches Ok(minted) ==> {
                &&& minted == shares_for_deposit(
                    amount as int,
                    old(self)@.totals.total_shares as int,
                    old(self)@.totals.total_liquidity as int,
                )
                &&& final(self)@ == old(self)@.lp_deposited(lp, amount)
            },
            final(self)@.wf(),
    {
        if amount < 0 {
            return Err(Error::InvalidAmount);
        }
        let total_shares = self.totals.total_shares;
        let total_liquidity = self.totals.total_liquidity;
        let new_shares = if total_shares == 0 {
            amount
        } else {
            if total_liquidity == 0 {
                return Err(Error::DivisionByZero);
            }
            proof {
                vstd::arithmetic::mul::lemma_mul_nonnegative(amount as int, total_shares as int);
                vstd::arithmetic::div_mod::lemma_div_pos_is_pos(
                    amount * total_shares,
                    total_liquidity as int,
                );
            }
            match amount.checked_mul(total_shares) {
                Some(v) => v / total_liquidity,
                None => return Err(Error::ArithmeticOverflow),
            }
        };
        if new_shares > i128::MAX - total_shares {
            return Err(Error::ArithmeticOverflow);
        }
        if amount > i128::MAX - total_liquidity {
            return Err(Error::ArithmeticOverflow);
        }
        let current = self.lp_shares_of(lp);
        let ghost pre = self@;
        proof {
            lemma_share_total_bounds(pre.lp_shares, lp);
            lemma_share_total_insert(pre.lp_shares, lp, (current + new_shares) as i128);
        }
        self.lp_shares.insert(lp, current + new_shares);
        self.totals.total_shares = total_shares + new_shares;
        self.totals.total_liquidity = total_liquidity + amount;
        proof {
            assert(pre.wf());
            assert(self@.positions == pre.positions);
            assert(self@.balances == pre.balances);
            assert(self@.retained == pre.retained);
            assert(self@.lp_shares == pre.lp_shares.insert(lp, (current + new_shares) as i128));
        }
        Ok(new_shares)
    }

    /// Redeems `shares` of `lp` for their proportional part of the liquidity,
    /// rounded down; returns the amount of pool asset to transfer to `lp`.
    pub fn lp_withdraw(&mut self, lp: AccountId, shares: i128) -> (r: Result<i128, Error>)
        requires
            old(self)@.wf(),
        ensures
            r is Err <==> old(self)@.lp_withdraw_error(lp, shares) is Some,
            r matches Err(e) ==> old(self)@.lp_withdraw_error(lp, shares) == Some(e),
            r is Err ==> final(self)@ == old(self)@,
            r matches Ok(paid) ==> {
                &&& paid == redeem_amount_spec(
                    shares as int,
                    old(self)@.totals.total_liquidity as int,
                    old(self)@.totals.total_shares as int,
                )
                &&& final(self)@ == old(self)@.lp_withdrawn(lp, shares)
            },
            final(self)@.wf(),
    {
        if shares < 0 {
            return Err(Error::InvalidAmount);
        }
        let current = self.lp_shares_of(lp);
        if current < shares {
            return Err(Error::InsufficientBalance);
        }
        let total_shares = self.totals.total_shares;
        let total_liquidity = self.totals.total_liquidity;
        let total_borrowed = self.totals.total_borrowed;
        if total_shares == 0 {
            return Err(Error::DivisionByZero);
        }
        let ghost pre = self@;
        proof {
            lemma_share_total_bounds(pre.lp_shares, lp);
            vstd::arithmetic::mul::lemma_mul_nonnegative(shares as int, total_liquidity as int);
        }
        let redeem_amount = match shares.checked_mul(total_liquidity) {
            Some(v) => v / total_shares,
            None => return Err(Error::ArithmeticOverflow),
        };
        proof {
            let (sh, l, t) = (shares as int, total_liquidity as int, total_shares as int);
            vstd::arithmetic::div_mod::lemma_div_pos_is_pos(sh * l, t);
            vstd::arithmetic::mul::lemma_mul_inequality(sh, t, l);
            vstd::arithmetic::div_mod::lemma_div_is_ordered(sh * l, t * l, t);
            vstd::arithmetic::div_mod::lemma_div_multiples_vanish(l, t);
            assert(sh * l <= t * l) by (nonlinear_arith)
                requires sh <= t, l >= 0;
            assert(t * l == l * t) by (nonlinear_arith);
        }
        if total_liquidity - total_borrowed < redeem_amount {
            return Err(Error::InsufficientPoolLiquidity);
        }
        proof {
            lemma_share_total_insert(pre.lp_shares, lp, (current - shares) as i128);
        }
        self.lp_shares.insert(lp, current - shares);
        self.totals.total_shares = total_shares - shares;
        self.totals.total_liquidity = total_liquidity - redeem_amount;
        proof {
            assert(pre.wf());
            assert(self@.positions == pre.positions);
            assert(self@.balances == pre.balances);
            assert(self@.retained == pre.retained);
            assert(self@.lp_shares == pre.lp_shares.insert(lp, (current - shares) as i128));
        }
        Ok(redeem_amount)
    }

    /// Pool totals, utilization and the configured borrow rate.
    pub fn get_pool_stats(&self) -> (r: PoolStats)
        requires
            self@.wf(),
        ensures
            r == (PoolStats {
                total_liquidity: self@.totals.total_liquidity,
                total_borrowed: self@.totals.total_borrowed,
                total_shares: self@.totals.total_shares,
                utilization_rate_bps: self@.utilization_bps(),
                current_borrow_rate_bps: self@.params.borrow_rate_bps,
            }),
    {
        let total_liquidity = self.totals.total_liquidity;
        let total_borrowed = self.totals.total_borrowed;
        let utilization_rate_bps = if total_liquidity > 0 {
            match total_borrowed.checked_mul(10_000) {
                Some(scaled) => {
                    let ratio = scaled / total_liquidity;
                    if ratio > u32::MAX as i128 {
                        u32::MAX
                    } else {
                        ratio as u32
                    }
                },
                None => u32::MAX,
            }
        } else {
            0u32
        };
        PoolStats {
            total_liquidity,
            total_borrowed,
            total_shares: self.totals.total_shares,
            utilization_rate_bps,
            current_borrow_rate_bps: self.params.borrow_rate_bps,
        }
    }

    /// After a write to one free-balance entry, every other entry reads as before.
    proof fn lemma_balance_frame(self, pre: LeveragePool, user: AccountId, token: AssetId)
        requires
            self@.balances == pre@.balances.insert(
                balance_key_spec(user, token),
                self@.balances[balance_key_spec(user, token)],
            ),
        ensures
            forall|u: AccountId, a: AssetId|
                (u != user || a != token) ==> #[trigger] self@.free_balance(u, a) == pre@.free_balance(u, a),
    {
        assert forall|u: AccountId, a: AssetId| (u != user || a != token) implies #[trigger] self@.free_balance(u, a)
            == pre@.free_balance(u, a) by {
            if balance_key_spec(u, a) == balance_key_spec(user, token) {
                lemma_balance_key_injective(u, a, user, token);
            }
        }
    }
}

} // verus!
