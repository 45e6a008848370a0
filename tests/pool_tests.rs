use leverage_pool::math::{checked_health, compute_health};
use leverage_pool::pool::{
    accrue_interest_internal, CollateralConfig, Error, LeveragePool, Position, PositionDirection,
    PriceData,
};

const COLL: u64 = 7;
const LP: u64 = 1;
const USER: u64 = 2;

fn price(p: i128) -> Option<PriceData> {
    Some(PriceData { price: p, timestamp: 0 })
}

fn xlm_config() -> CollateralConfig {
    CollateralConfig {
        collateral_factor_bps: 7500,
        price_feed_key: "XLM".to_string(),
        is_active: true,
    }
}

fn new_pool() -> LeveragePool {
    let mut pool = LeveragePool::initialize(500, 500, 100000, 10000);
    pool.set_collateral_type(COLL, xlm_config());
    pool
}

fn setup() -> LeveragePool {
    let mut pool = new_pool();
    pool.lp_deposit(LP, 50_000_0000000).unwrap();
    pool
}

#[test]
fn test_lp_deposit_and_share_calculation() {
    let mut pool = LeveragePool::initialize(500, 500, 100000, 10000);
    pool.lp_deposit(1, 1000_0000000).unwrap();
    pool.lp_deposit(2, 500_0000000).unwrap();
    let stats = pool.get_pool_stats();
    assert_eq!(stats.total_liquidity, 1500_0000000i128);
    assert_eq!(stats.total_shares, 1500_0000000i128);
}

#[test]
fn test_lp_withdraw_insufficient_liquidity() {
    let mut pool = new_pool();
    pool.lp_deposit(LP, 10_000_0000000).unwrap();
    pool.deposit_collateral(USER, COLL, 20_000_0000000).unwrap();
    pool.open_position(USER, COLL, 9_000_0000000, PositionDirection::Long, price(10_000_000), 0)
        .unwrap();
    assert_eq!(pool.lp_withdraw(LP, 10_000_0000000), Err(Error::InsufficientPoolLiquidity));
}

#[test]
fn test_collateral_deposit_and_withdrawal() {
    let mut pool = setup();
    pool.deposit_collateral(USER, COLL, 500_0000000).unwrap();
    pool.withdraw_collateral(USER, COLL, 200_0000000, price(10_000_000)).unwrap();
    pool.withdraw_collateral(USER, COLL, 300_0000000, price(10_000_000)).unwrap();
    assert_eq!(pool.collateral_balance(USER, COLL), 0);
}

#[test]
fn test_open_position_with_valid_session() {
    let mut pool = setup();
    pool.deposit_collateral(USER, COLL, 10_000_0000000).unwrap();
    pool.open_position(USER, COLL, 5_000_0000000, PositionDirection::Long, price(10_000_000), 0)
        .unwrap();
    let pos = pool.get_position(USER).unwrap();
    assert_eq!(pos.borrowed_amount, 5_000_0000000i128);
    assert_eq!(pos.collateral_amount, 10_000_0000000i128);
    let health = pool.get_health_ratio(USER, price(10_000_000)).unwrap();
    assert!(health > 10_000);
}

#[test]
fn test_interest_accrual() {
    let mut pool = setup();
    pool.deposit_collateral(USER, COLL, 10_000_0000000).unwrap();
    pool.open_position(USER, COLL, 3_000_0000000, PositionDirection::Long, price(10_000_000), 0)
        .unwrap();
    pool.accrue_interest(USER, 1000).unwrap();
    let pos = pool.get_position(USER).unwrap();
    let expected_interest = 150_0000000i128;
    assert_eq!(pos.borrowed_amount, 3_000_0000000i128 + expected_interest);
}

#[test]
fn test_health_ratio_at_multiple_prices() {
    let mut pool = setup();
    pool.deposit_collateral(USER, COLL, 10_000_0000000).unwrap();
    pool.open_position(USER, COLL, 5_000_0000000, PositionDirection::Long, price(10_000_000), 0)
        .unwrap();
    let health = pool.get_health_ratio(USER, price(10_000_000)).unwrap();
    assert_eq!(health, 15_000);
}

#[test]
fn test_close_position_profitable() {
    let mut pool = setup();
    pool.deposit_collateral(USER, COLL, 10_000_0000000).unwrap();
    pool.open_position(USER, COLL, 5_000_0000000, PositionDirection::Long, price(10_000_000), 0)
        .unwrap();
    let out = pool.close_position(USER, price(10_000_000), 0).unwrap();
    assert!(pool.get_position(USER).is_none());
    assert_eq!(out.pnl, 5_000_0000000);
    assert_eq!(out.payout, 5_000_0000000);
    assert_eq!(out.remaining_collateral, 10_000_0000000);
    assert_eq!(pool.collateral_balance(USER, COLL), 10_000_0000000);
    assert_eq!(pool.get_pool_stats().total_liquidity, 45_000_0000000);
    assert_eq!(pool.get_pool_stats().total_borrowed, 0);
}

#[test]
fn test_liquidation() {
    let mut pool = new_pool();
    pool.lp_deposit(LP, 50_000_0000000).unwrap();
    pool.deposit_collateral(USER, COLL, 10_000_0000000).unwrap();
    pool.open_position(USER, COLL, 5_000_0000000, PositionDirection::Long, price(10_000_000), 0)
        .unwrap();
    assert!(pool.get_position(USER).is_some());
}

// ---- behaviour beyond the original suite ----

#[test]
fn compute_health_exact_values() {
    assert_eq!(compute_health(10_000, 10_000_000, 7500, 5_000), 15_000);
    assert_eq!(compute_health(10_000, 5_000_000, 7500, 5_000), 7_500);
    assert_eq!(compute_health(10_000, 10_000_000, 7500, 0), i128::MAX);
    assert_eq!(compute_health(3, 10_000_000, 7500, 7), 2_857);
    assert_eq!(checked_health(i128::MAX, 2, 7500, 1), None);
    assert_eq!(checked_health(i128::MAX, 2, 7500, 0), Some(i128::MAX));
}

#[test]
fn open_succeeds_exactly_at_opening_threshold() {
    let mut pool = setup();
    pool.deposit_collateral(USER, COLL, 10_000).unwrap();
    assert_eq!(
        pool.open_position(USER, COLL, 5_000, PositionDirection::Long, price(10_000_000), 3),
        Ok(())
    );
    assert_eq!(pool.get_health_ratio(USER, price(10_000_000)), Ok(15_000));
    let pos = pool.get_position(USER).unwrap();
    assert_eq!(pos.opened_at_ledger, 3);
    assert_eq!(pos.last_interest_ledger, 3);
    assert_eq!(pos.direction, PositionDirection::Long);
    // the whole free balance is locked into the position
    assert_eq!(pool.collateral_balance(USER, COLL), 0);
    assert_eq!(pool.get_pool_stats().total_borrowed, 5_000);
}

#[test]
fn open_fails_just_below_opening_threshold() {
    let mut pool = setup();
    pool.deposit_collateral(USER, COLL, 10_000).unwrap();
    assert_eq!(
        pool.open_position(USER, COLL, 5_001, PositionDirection::Short, price(10_000_000), 0),
        Err(Error::InsufficientCollateral)
    );
    assert!(pool.get_position(USER).is_none());
    assert_eq!(pool.collateral_balance(USER, COLL), 10_000);
}

#[test]
fn open_position_errors() {
    let mut pool = setup();
    assert_eq!(
        pool.open_position(USER, COLL, -1, PositionDirection::Long, price(10_000_000), 0),
        Err(Error::InvalidAmount)
    );
    assert_eq!(
        pool.open_position(USER, 99, 1, PositionDirection::Long, price(10_000_000), 0),
        Err(Error::UnsupportedCollateral)
    );
    assert_eq!(
        pool.open_position(USER, COLL, 1, PositionDirection::Long, price(10_000_000), 0),
        Err(Error::InsufficientCollateral)
    );
    pool.deposit_collateral(USER, COLL, 10_000).unwrap();
    assert_eq!(
        pool.open_position(USER, COLL, 1, PositionDirection::Long, None, 0),
        Err(Error::OracleCallFailed)
    );
    assert_eq!(
        pool.open_position(USER, COLL, 1, PositionDirection::Long, price(-1), 0),
        Err(Error::OracleCallFailed)
    );
    assert_eq!(
        pool.open_position(USER, COLL, 7_501, PositionDirection::Long, price(10_000_000), 0),
        Err(Error::BorrowExceedsCollateral)
    );
    assert_eq!(
        pool.open_position(USER, COLL, 1, PositionDirection::Long, price(i128::MAX), 0),
        Err(Error::ArithmeticOverflow)
    );
    pool.open_position(USER, COLL, 1_000, PositionDirection::Long, price(10_000_000), 0).unwrap();
    assert_eq!(
        pool.open_position(USER, COLL, 1, PositionDirection::Long, price(10_000_000), 0),
        Err(Error::PositionAlreadyOpen)
    );
    let mut inactive = xlm_config();
    inactive.is_active = false;
    pool.set_collateral_type(8, inactive);
    assert_eq!(
        pool.open_position(3, 8, 1, PositionDirection::Long, price(10_000_000), 0),
        Err(Error::InactiveCollateral)
    );
    assert_eq!(pool.deposit_collateral(3, 8, 1), Err(Error::InactiveCollateral));
}

#[test]
fn open_fails_without_pool_liquidity() {
    let mut pool = new_pool();
    pool.lp_deposit(LP, 100).unwrap();
    pool.deposit_collateral(USER, COLL, 10_000).unwrap();
    assert_eq!(
        pool.open_position(USER, COLL, 101, PositionDirection::Long, price(10_000_000), 0),
        Err(Error::InsufficientPoolLiquidity)
    );
}

#[test]
fn accrual_twice_at_same_ledger_changes_nothing() {
    let mut pool = setup();
    pool.deposit_collateral(USER, COLL, 10_000).unwrap();
    pool.open_position(USER, COLL, 3_000, PositionDirection::Long, price(10_000_000), 0).unwrap();
    assert_eq!(pool.accrue_interest(USER, 1000), Ok(150));
    let once = pool.get_position(USER).unwrap();
    assert_eq!(once.borrowed_amount, 3_150);
    assert_eq!(pool.accrue_interest(USER, 1000), Ok(0));
    assert_eq!(pool.get_position(USER).unwrap(), once);
    assert_eq!(pool.get_pool_stats().total_borrowed, 3_150);
    // an earlier ledger accrues nothing
    assert_eq!(pool.accrue_interest(USER, 10), Ok(0));
    // no position: nothing to do
    assert_eq!(pool.accrue_interest(42, 5000), Ok(0));
}

#[test]
fn accrue_interest_internal_exact() {
    let mut p = Position {
        borrowed_amount: 3000,
        collateral_token: COLL,
        collateral_amount: 10_000,
        opened_at_ledger: 0,
        last_interest_ledger: 0,
        direction: PositionDirection::Short,
    };
    assert_eq!(accrue_interest_internal(&mut p, 500, 1000), Ok(150));
    assert_eq!(p.borrowed_amount, 3150);
    assert_eq!(p.last_interest_ledger, 1000);
    assert_eq!(accrue_interest_internal(&mut p, 500, 1000), Ok(0));
    assert_eq!(p.borrowed_amount, 3150);
    let mut big = p;
    big.borrowed_amount = i128::MAX;
    assert_eq!(accrue_interest_internal(&mut big, 500, 2000), Err(Error::ArithmeticOverflow));
    assert_eq!(big.borrowed_amount, i128::MAX);
}

#[test]
fn liquidation_refused_while_healthy() {
    let mut pool = setup();
    pool.deposit_collateral(USER, COLL, 10_000).unwrap();
    pool.open_position(USER, COLL, 5_000, PositionDirection::Long, price(10_000_000), 0).unwrap();
    assert_eq!(pool.liquidate(USER, price(10_000_000), 0), Err(Error::PositionHealthy));
    // health exactly at the floor is still healthy
    assert_eq!(pool.get_health_ratio(USER, price(6_666_667)), Ok(10_000));
    assert_eq!(pool.liquidate(USER, price(6_666_667), 0), Err(Error::PositionHealthy));
    assert!(pool.get_position(USER).is_some());
}

#[test]
fn liquidation_below_floor_clears_position_and_balance() {
    let mut pool = setup();
    pool.deposit_collateral(USER, COLL, 10_000).unwrap();
    pool.open_position(USER, COLL, 5_000, PositionDirection::Long, price(10_000_000), 0).unwrap();
    pool.deposit_collateral(USER, COLL, 40).unwrap();
    assert_eq!(pool.get_health_ratio(USER, price(5_000_000)), Ok(7_500));
    let out = pool.liquidate(USER, price(5_000_000), 0).unwrap();
    assert_eq!(out.debt_repaid, 5_000);
    assert_eq!(out.seized_collateral, 10_000);
    assert_eq!(out.bonus, 500);
    assert!(pool.get_position(USER).is_none());
    assert_eq!(pool.collateral_balance(USER, COLL), 0);
    assert_eq!(pool.retained_collateral_of(COLL), 40);
    assert_eq!(pool.get_pool_stats().total_borrowed, 0);
    assert_eq!(pool.liquidate(USER, price(5_000_000), 0), Err(Error::NoOpenPosition));
}

#[test]
fn liquidation_on_stale_debt_accrues_first() {
    let mut pool = setup();
    pool.deposit_collateral(USER, COLL, 10_000).unwrap();
    pool.open_position(USER, COLL, 5_000, PositionDirection::Long, price(10_000_000), 0).unwrap();
    // never accrued: liquidation accrues 10 periods of 5% first
    let out = pool.liquidate(USER, price(5_000_000), 10_000).unwrap();
    assert_eq!(out.debt_repaid, 7_500);
    assert_eq!(pool.get_pool_stats().total_borrowed, 0);
}

#[test]
fn close_with_loss_forfeits_collateral_to_pool() {
    let mut pool = setup();
    pool.deposit_collateral(USER, COLL, 10_000).unwrap();
    pool.open_position(USER, COLL, 5_000, PositionDirection::Long, price(10_000_000), 0).unwrap();
    // at 0.4 the collateral is worth 4000 against a debt of 5000
    let out = pool.close_position(USER, price(4_000_000), 0).unwrap();
    assert_eq!(out.pnl, -1_000);
    assert_eq!(out.payout, 0);
    assert_eq!(out.remaining_collateral, 7_500);
    assert_eq!(pool.collateral_balance(USER, COLL), 7_500);
    assert_eq!(pool.retained_collateral_of(COLL), 2_500);
    assert_eq!(pool.close_position(USER, price(4_000_000), 0), Err(Error::NoOpenPosition));
}

#[test]
fn close_payout_is_capped_by_liquidity() {
    let mut pool = new_pool();
    pool.lp_deposit(LP, 6_000).unwrap();
    pool.deposit_collateral(USER, COLL, 10_000).unwrap();
    pool.open_position(USER, COLL, 5_000, PositionDirection::Long, price(10_000_000), 0).unwrap();
    let out = pool.close_position(USER, price(20_000_000), 0).unwrap();
    assert_eq!(out.pnl, 15_000);
    assert_eq!(out.payout, 6_000);
    assert_eq!(pool.get_pool_stats().total_liquidity, 0);
}

#[test]
fn close_with_zero_price_keeps_collateral() {
    let mut pool = setup();
    pool.deposit_collateral(USER, COLL, 10_000).unwrap();
    pool.open_position(USER, COLL, 5_000, PositionDirection::Long, price(10_000_000), 0).unwrap();
    let out = pool.close_position(USER, price(0), 0).unwrap();
    assert_eq!(out.pnl, -5_000);
    assert_eq!(out.remaining_collateral, 10_000);
    assert_eq!(pool.close_position(USER, None, 0), Err(Error::NoOpenPosition));
}

#[test]
fn withdraw_guarded_by_safety_margin() {
    let mut pool = setup();
    pool.deposit_collateral(USER, COLL, 10_000).unwrap();
    pool.open_position(USER, COLL, 5_000, PositionDirection::Long, price(10_000_000), 0).unwrap();
    pool.deposit_collateral(USER, COLL, 1_000).unwrap();
    // backing 11000 at 0.75 -> health 15000 (after 1000 out: 15000 at 10000 backing)
    assert_eq!(pool.withdraw_collateral(USER, COLL, 1_000, price(10_000_000)), Ok(()));
    pool.deposit_collateral(USER, COLL, 1_000).unwrap();
    // at 0.5: backing 10000 gives health 7500 < 12000
    assert_eq!(
        pool.withdraw_collateral(USER, COLL, 1_000, price(5_000_000)),
        Err(Error::WithdrawalWouldLiquidate)
    );
    assert_eq!(pool.withdraw_collateral(USER, COLL, 1_000, None), Err(Error::OracleCallFailed));
    assert_eq!(
        pool.withdraw_collateral(USER, COLL, 1_001, price(10_000_000)),
        Err(Error::InsufficientCollateral)
    );
    assert_eq!(pool.withdraw_collateral(USER, COLL, -5, price(10_000_000)), Err(Error::InvalidAmount));
    assert_eq!(pool.collateral_balance(USER, COLL), 1_000);
}

#[test]
fn collateral_round_trip_restores_balance() {
    let mut pool = setup();
    pool.deposit_collateral(USER, COLL, 250).unwrap();
    let before = pool.collateral_balance(USER, COLL);
    pool.deposit_collateral(USER, COLL, 1_234).unwrap();
    assert_eq!(pool.collateral_balance(USER, COLL), before + 1_234);
    pool.withdraw_collateral(USER, COLL, 1_234, None).unwrap();
    assert_eq!(pool.collateral_balance(USER, COLL), before);
}

#[test]
fn deposit_collateral_errors() {
    let mut pool = setup();
    assert_eq!(pool.deposit_collateral(USER, 99, 1), Err(Error::UnsupportedCollateral));
    assert_eq!(pool.deposit_collateral(USER, COLL, -1), Err(Error::InvalidAmount));
    pool.deposit_collateral(USER, COLL, i128::MAX).unwrap();
    assert_eq!(pool.deposit_collateral(USER, COLL, 1), Err(Error::ArithmeticOverflow));
}

#[test]
fn collateral_is_conserved_through_a_position() {
    let mut pool = setup();
    pool.deposit_collateral(USER, COLL, 10_000).unwrap();
    pool.open_position(USER, COLL, 5_000, PositionDirection::Long, price(10_000_000), 0).unwrap();
    let locked = pool.get_position(USER).unwrap().collateral_amount;
    assert_eq!(pool.collateral_balance(USER, COLL) + locked, 10_000);
    pool.close_position(USER, price(4_000_000), 0).unwrap();
    assert_eq!(pool.collateral_balance(USER, COLL) + pool.retained_collateral_of(COLL), 10_000);
}

#[test]
fn second_deposit_does_not_dilute_first_provider() {
    let mut pool = new_pool();
    pool.lp_deposit(1, 1_000).unwrap();
    // a profitable close pays 700 out of the pool: 300 liquidity for 1000 shares
    pool.deposit_collateral(USER, COLL, 1_000).unwrap();
    pool.open_position(USER, COLL, 500, PositionDirection::Long, price(10_000_000), 0).unwrap();
    let out = pool.close_position(USER, price(12_000_000), 0).unwrap();
    assert_eq!(out.payout, 700);
    let stats = pool.get_pool_stats();
    assert_eq!((stats.total_liquidity, stats.total_shares), (300, 1_000));
    let value_before = 1_000 * stats.total_liquidity / stats.total_shares;
    // 7 * 1000 / 300 = 23.33.. shares, rounded down
    assert_eq!(pool.lp_deposit(3, 7), Ok(23));
    let stats = pool.get_pool_stats();
    let value_after = 1_000 * stats.total_liquidity / stats.total_shares;
    assert!(value_after >= value_before);
    assert_eq!(pool.lp_shares_of(1), 1_000);
    // redeeming the newcomer's shares pays 23 * 307 / 1023 = 6, rounded down
    assert_eq!(pool.lp_withdraw(3, 23), Ok(6));
    let stats = pool.get_pool_stats();
    assert!(1_000 * stats.total_liquidity / stats.total_shares >= value_after);
}

#[test]
fn lp_withdraw_rounds_down_and_keeps_share_value() {
    let mut pool = LeveragePool::initialize(500, 500, 100000, 10000);
    pool.lp_deposit(1, 1_000).unwrap();
    pool.lp_deposit(2, 3).unwrap();
    let stats = pool.get_pool_stats();
    assert_eq!((stats.total_liquidity, stats.total_shares), (1_003, 1_003));
    assert_eq!(pool.lp_withdraw(2, 3), Ok(3));
    assert_eq!(pool.lp_shares_of(2), 0);
    assert_eq!(pool.lp_withdraw(2, 1), Err(Error::InsufficientBalance));
    assert_eq!(pool.lp_withdraw(2, -1), Err(Error::InvalidAmount));
    assert_eq!(pool.lp_deposit(2, -1), Err(Error::InvalidAmount));
    assert_eq!(pool.lp_withdraw(1, 1_000), Ok(1_000));
    assert_eq!(pool.lp_withdraw(1, 0), Err(Error::DivisionByZero));
}

#[test]
fn lp_deposit_into_drained_pool_is_division_by_zero() {
    let mut pool = new_pool();
    pool.lp_deposit(LP, 6_000).unwrap();
    pool.deposit_collateral(USER, COLL, 10_000).unwrap();
    pool.open_position(USER, COLL, 5_000, PositionDirection::Long, price(10_000_000), 0).unwrap();
    pool.close_position(USER, price(20_000_000), 0).unwrap();
    assert_eq!(pool.get_pool_stats().total_liquidity, 0);
    assert_eq!(pool.lp_deposit(3, 10), Err(Error::DivisionByZero));
}

#[test]
fn pool_stats_report_utilization() {
    let mut pool = setup();
    pool.deposit_collateral(USER, COLL, 10_000).unwrap();
    pool.open_position(USER, COLL, 5_000, PositionDirection::Long, price(10_000_000), 0).unwrap();
    let stats = pool.get_pool_stats();
    assert_eq!(stats.utilization_rate_bps, (5_000i128 * 10_000 / 50_000_0000000) as u32);
    assert_eq!(stats.current_borrow_rate_bps, 500);
    let empty = LeveragePool::initialize(300, 0, 0, 0).get_pool_stats();
    assert_eq!(empty.utilization_rate_bps, 0);
    assert_eq!(empty.current_borrow_rate_bps, 300);
}

#[test]
fn health_ratio_without_position_is_maximal() {
    let pool = setup();
    assert_eq!(pool.get_health_ratio(USER, None), Ok(i128::MAX));
}
