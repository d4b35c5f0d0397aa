//! The settlement core of a two-asset constant-product market maker.
//!
//! A pool holds reserves of two assets, X and Y, in two vaults, and issues
//! shares that stand for a proportional part of both. This crate computes and
//! commits the pool's operations: creating a pool, depositing both assets for
//! new shares, burning shares for both assets, swapping one asset for the
//! other at a fee, and locking the pool.
//!
//! - [`curve`] holds the arithmetic: exact integer formulas with a stated
//!   rounding direction, computed in 128 bits.
//! - [`ledger`] holds the accounts that the operations read and change, and
//!   the movements of value on them.
//! - [`state`] holds the pool's record.
//! - [`context`] holds one type per operation, with the accounts that the
//!   operation touches. An operation validates, computes, and then commits
//!   everything or nothing: it works on a copy and writes it back at the end.
//! - [`theorems`] states what holds of the arithmetic for all amounts.
//!
//! Choices that this crate makes:
//!
//! - The first deposit into an empty pool mints as many shares as the larger
//!   of the two amounts deposited.
//! - The order of the two assets is part of a pool's identity: the pool of
//!   (X, Y) and the pool of (Y, X) are two pools.
//! - A pool whose reserves and shares contradict each other, one of them
//!   zero and another not, is corrupted, and every operation on it fails with
//!   [`amm_error::AmmError::InvariantViolated`].
//! - The operations move what the pool controls: its vaults and its shares.
//!   What a caller pays or receives is returned as amounts, for the host to
//!   move on the caller's own accounts within the same transaction.

pub mod address;
pub mod amm_error;
pub mod arith;
pub mod context;
pub mod curve;
pub mod ledger;
pub mod state;
pub mod theorems;
