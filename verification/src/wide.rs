//! Double-width unsigned arithmetic.
//!
//! Converting between deposited value and shares multiplies two 128-bit
//! quantities before dividing by a third. The product is formed here in 256
//! bits, so that only a quotient which itself does not fit in 128 bits is
//! ever reported as unrepresentable.

use vstd::arithmetic::div_mod::{
    lemma_div_is_ordered, lemma_div_multiples_vanish, lemma_fundamental_div_mod_converse,
};
use vstd::arithmetic::power2::{
    lemma2_to64, lemma_pow2_adds, lemma_pow2_strictly_increases, lemma_pow2_unfold, pow2,
};
use vstd::prelude::*;

verus! {

/// Two to the power 64: the weight of the upper half of a 128-bit value.
const LIMB: u128 = 0x1_0000_0000_0000_0000;

/// Two to the power 127: the weight of the top bit of a 128-bit value.
const TOP_BIT: u128 = 0x8000_0000_0000_0000_0000_0000_0000_0000;

/// Two to the power 128: the weight of the upper half of a 256-bit value.
pub open spec fn radix() -> int {
    0x1_0000_0000_0000_0000_0000_0000_0000_0000int
}

/// The quotient `n / d` as a 128-bit value: `None` where `d` is zero or the
/// quotient does not fit.
pub open spec fn quotient(n: nat, d: nat) -> Option<u128> {
    if d == 0 || n / d > u128::MAX {
        None
    } else {
        Some((n / d) as u128)
    }
}

/// `a * b / d`, with the product taken exactly.
pub open spec fn mul_div_spec(a: nat, b: nat, d: nat) -> Option<u128> {
    quotient(a * b, d)
}

/// An unsigned 256-bit integer held as two 128-bit halves.
#[derive(Clone, Copy, Debug, PartialEq, Eq, Structural)]
pub struct U256 {
    pub hi: u128,
    pub lo: u128,
}

impl View for U256 {
    type V = nat;

    open spec fn view(&self) -> nat {
        (self.hi * radix() + self.lo) as nat
    }
}

proof fn lemma_limb_product(x: u128, y: u128)
    by (nonlinear_arith)
    requires
        x < LIMB,
        y < LIMB,
    ensures
        x * y <= (LIMB - 1) * (LIMB - 1),
{
}

proof fn lemma_split_product(a: int, b: int, ah: int, al: int, bh: int, bl: int, w: int)
    requires
        a == ah * w + al,
        b == bh * w + bl,
    ensures
        a * b == (ah * bh) * (w * w) + (al * bh + ah * bl) * w + al * bl,
{
    assert(a * b == (ah * w) * b + al * b) by (nonlinear_arith)
        requires
            a == ah * w + al,
    ;
    assert((ah * w) * b == (ah * bh) * (w * w) + (ah * bl) * w) by (nonlinear_arith)
        requires
            b == bh * w + bl,
    ;
    assert(al * b == (al * bh) * w + al * bl) by (nonlinear_arith)
        requires
            b == bh * w + bl,
    ;
    assert((al * bh + ah * bl) * w == (al * bh) * w + (ah * bl) * w) by (nonlinear_arith);
}

proof fn lemma_pow2_values()
    ensures
        pow2(127) == TOP_BIT,
        pow2(128) == radix(),
{
    lemma2_to64();
    lemma_pow2_adds(64, 64);
    lemma_pow2_unfold(128);
}

impl U256 {
    /// The full product of two 128-bit values.
    pub fn widening_mul(a: u128, b: u128) -> (p: U256)
        ensures
            p@ == a * b,
    {
        let ah: u128 = a / LIMB;
        let al: u128 = a % LIMB;
        let bh: u128 = b / LIMB;
        let bl: u128 = b % LIMB;
        proof {
            lemma_limb_product(al, bl);
            lemma_limb_product(al, bh);
            lemma_limb_product(ah, bl);
            lemma_limb_product(ah, bh);
        }
        let ll: u128 = al * bl;
        let lh: u128 = al * bh;
        let hl: u128 = ah * bl;
        let hh: u128 = ah * bh;
        let cross: u128 = ll / LIMB + lh % LIMB + hl % LIMB;
        let lo: u128 = (cross % LIMB) * LIMB + ll % LIMB;
        let hi: u128 = hh + lh / LIMB + hl / LIMB + cross / LIMB;
        proof {
            lemma_split_product(
                a as int,
                b as int,
                ah as int,
                al as int,
                bh as int,
                bl as int,
                LIMB as int,
            );
            assert(LIMB * LIMB == radix());
        }
        U256 { hi, lo }
    }

    /// The quotient of `self` by `d`, where it exists and fits in 128 bits.
    pub fn checked_div(&self, d: u128) -> (q: Option<u128>)
        ensures
            q == quotient(self@, d as nat),
    {
        if d == 0 {
            return None;
        }
        if self.hi >= d {
            proof {
                let n = self@ as int;
                assert(d * radix() <= self.hi * radix()) by (nonlinear_arith)
                    requires
                        d <= self.hi,
                ;
                lemma_div_multiples_vanish(radix(), d as int);
                lemma_div_is_ordered(d * radix(), n, d as int);
            }
            return None;
        }
        let mut q: u128 = 0;
        let mut r: u128 = self.hi;
        let mut rest: u128 = self.lo;
        let mut i: u32 = 0;
        let ghost mut p: int = 1;
        let ghost mut t: int = 0;
        proof {
            lemma2_to64();
        }
        while i < 128
            invariant
                i <= 128,
                0 < d,
                r < d,
                p == pow2(i as nat),
                0 <= t < p,
                q < p,
                self.lo * p == t * radix() + rest,
                self.hi * p + t == q * d + r,
            decreases 128 - i,
        {
            proof {
                lemma_pow2_values();
                if i < 127 {
                    lemma_pow2_strictly_increases(i as nat, 127);
                }
                lemma_pow2_unfold((i + 1) as nat);
            }
            let bit: u128 = if rest >= TOP_BIT { 1 } else { 0 };
            let low: u128 = if rest >= TOP_BIT { rest - TOP_BIT } else { rest };
            let with_bit: u128 = r + bit;
            let gap: u128 = d - r;
            let ghost q0 = q;
            if with_bit >= gap {
                r = with_bit - gap;
                q = q + q + 1;
                proof {
                    assert(q * d == 2 * (q0 * d) + d) by (nonlinear_arith)
                        requires
                            q == 2 * q0 + 1,
                    ;
                }
            } else {
                r = r + with_bit;
                q = q + q;
                proof {
                    assert(q * d == 2 * (q0 * d)) by (nonlinear_arith)
                        requires
                            q == 2 * q0,
                    ;
                }
            }
            rest = low + low;
            proof {
                assert(self.lo * (2 * p) == 2 * (self.lo * p)) by (nonlinear_arith);
                assert(self.hi * (2 * p) == 2 * (self.hi * p)) by (nonlinear_arith);
                t = 2 * t + bit;
                p = 2 * p;
            }
            i += 1;
        }
        proof {
            lemma_pow2_values();
            assert(self.lo * p == self.lo * radix());
            assert(self.hi * p == self.hi * radix());
            assert(t == self.lo && rest == 0);
            lemma_fundamental_div_mod_converse(self@ as int, d as int, q as int, r as int);
        }
        Some(q)
    }
}

/// `a * b / d` without loss in the product: `None` where `d` is zero or the
/// quotient exceeds 128 bits.
pub fn mul_div(a: u128, b: u128, d: u128) -> (q: Option<u128>)
    ensures
        q == mul_div_spec(a as nat, b as nat, d as nat),
{
    U256::widening_mul(a, b).checked_div(d)
}

} // verus!
