//! Accounting and pricing core of a two-asset automated liquidity pool.
//!
//! The crate tracks pooled reserves of two fungible assets and an issued
//! pool-share token, admits or rejects liquidity deposits according to a
//! proportional-ratio rule, and prices asset-to-asset exchanges on a
//! constant-product curve with configurable fee and spread tolerances.
//! Persistence and token transfers are external collaborators: operations
//! here are pure state transitions on a snapshot of the persisted cells,
//! applied by a thin host layer inside one atomic transaction.

pub mod error;
pub mod fee;
pub mod storage;
pub mod deposit;
pub mod shares;
pub mod swap;
