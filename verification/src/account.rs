//! Identities: the accounts that hold shares, and the references by which a
//! fund names the strategy it is bound to.

use vstd::prelude::*;
use vstd::std_specs::cmp::PartialEqSpecImpl;

verus! {

/// The identity of a principal: thirty-two opaque bytes. Two identities are
/// the same when all their bytes are.
#[derive(Clone, Copy, Debug, Eq)]
pub struct AccountId(pub [u8; 32]);

/// The reference to a strategy module: thirty-two opaque bytes.
#[derive(Clone, Copy, Debug, Eq)]
pub struct StrategyRef(pub [u8; 32]);

fn same_bytes(a: &[u8; 32], b: &[u8; 32]) -> (same: bool)
    ensures
        same == (*a == *b),
{
    let mut i: usize = 0;
    while i < 32
        invariant
            i <= 32,
            forall|j: int| 0 <= j < i ==> a[j] == b[j],
        decreases 32 - i,
    {
        if a[i] != b[i] {
            return false;
        }
        i += 1;
    }
    assert(*a =~= *b);
    true
}

impl PartialEq for AccountId {
    fn eq(&self, other: &AccountId) -> (same: bool) {
        same_bytes(&self.0, &other.0)
    }
}

impl PartialEqSpecImpl for AccountId {
    open spec fn obeys_eq_spec() -> bool {
        true
    }

    open spec fn eq_spec(&self, other: &AccountId) -> bool {
        *self == *other
    }
}

impl PartialEq for StrategyRef {
    fn eq(&self, other: &StrategyRef) -> (same: bool) {
        same_bytes(&self.0, &other.0)
    }
}

impl PartialEqSpecImpl for StrategyRef {
    open spec fn obeys_eq_spec() -> bool {
        true
    }

    open spec fn eq_spec(&self, other: &StrategyRef) -> bool {
        *self == *other
    }
}

} // verus!
