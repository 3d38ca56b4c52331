//! A pooled investment fund.
//!
//! Many depositors share one pool. Each holds shares, a proportional claim on
//! whatever the pool is worth; how the pooled value is managed, and what it
//! is worth at any time, is the business of a strategy that the fund is bound
//! to and that its manager can replace.
//!
//! The library holds the accounting and every decision, and nothing else. It
//! has no access to the world around it: a host hands in the caller of an
//! operation and the value that came with it, makes the invocations of the
//! strategy that the fund asks for, and carries out the payments that result.
//!
//! - [`account`]: the identities of holders and strategies.
//! - [`wide`]: products of 128-bit values in 256 bits, and their quotients.
//! - [`conversion`]: shares for value, value for shares, and fees.
//! - [`ledger`]: balances by account, and their sum.
//! - [`strategy`]: what a fund asks of a strategy, and how it names it.
//! - [`protocol`]: what passes between a fund and its host.
//! - [`model`]: the fund as a state machine.
//! - [`laws`]: what holds of every fund.
//! - [`fund`]: the fund itself.
//! - [`error`]: how operations fail.

pub mod account;
pub mod conversion;
pub mod error;
pub mod fund;
pub mod laws;
pub mod ledger;
pub mod model;
pub mod protocol;
pub mod strategy;
pub mod wide;
