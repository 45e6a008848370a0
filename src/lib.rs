//! A collateralized leverage-lending engine: liquidity providers fund a shared
//! pool, traders borrow against locked collateral, debt accrues interest over
//! ledgers, and under-collateralized positions can be liquidated by anyone.
pub mod agent_vault;
pub mod pool;
pub mod math;
pub mod pool_laws;
pub mod totals;
pub mod zk_auth;
