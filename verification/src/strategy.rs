//! The binding between a fund and its strategy.
//!
//! A strategy is not part of this library. It runs in the host, in the fund's
//! own context, and is named by a reference that the manager can rotate. The
//! fund decides which operation is to be invoked on which strategy and what
//! follows from the reply; the host makes the invocation.

use crate::account::StrategyRef;
use crate::ledger::Balance;
use vstd::prelude::*;

verus! {

/// An operation that a fund asks of its strategy. The host resolves it by
/// its logical name on whichever strategy is bound.
#[derive(Clone, Copy, Debug, PartialEq, Eq, Structural)]
pub enum StrategyCall {
    /// `activate`: put the pooled value to work.
    Activate,
    /// `get_balance`: report what the fund's assets are worth now.
    GetBalance,
    /// `retrieve_tokens`: make this much value available on the fund's own
    /// balance.
    RetrieveTokens(Balance),
}

/// A request to the host: invoke `call` on the strategy `strategy`.
#[derive(Clone, Copy, Debug, PartialEq, Eq)]
pub struct Invocation {
    pub strategy: StrategyRef,
    pub call: StrategyCall,
}

/// What the host reports of an invocation.
#[derive(Clone, Copy, Debug, PartialEq, Eq, Structural)]
pub enum Reply {
    /// The strategy was not found, trapped, or returned something else than
    /// was asked for.
    Failed,
    /// The operation ran and returned nothing.
    Done,
    /// The operation ran and returned a value.
    Balance(Balance),
}

/// The change of locks that goes with a change of strategy: the host gives
/// up its hold on `release`, then takes one on `acquire`.
#[derive(Clone, Copy, Debug, PartialEq, Eq)]
pub struct Rotation {
    pub release: StrategyRef,
    pub acquire: StrategyRef,
}

impl Rotation {
    /// The strategies held locked after the rotation, given those held
    /// before it.
    pub open spec fn apply(self, held: Set<StrategyRef>) -> Set<StrategyRef> {
        held.remove(self.release).insert(self.acquire)
    }
}

} // verus!
