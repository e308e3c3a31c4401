use vstd::prelude::*;
use vstd::arithmetic::div_mod::{
    lemma_div_is_ordered, lemma_div_multiples_vanish, lemma_div_pos_is_pos,
    lemma_fundamental_div_mod, lemma_hoist_over_denominator,
};
use vstd::arithmetic::mul::{lemma_mul_inequality, lemma_mul_is_distributive_add};

verus! {

/// Fixed denominator of every basis-point fraction: 10000 bps is 100%.
pub const BPS_DENOM: i64 = 10_000;

/// A ratio expressed as an integer numerator over a fixed denominator of
/// 10000, used for the protocol fee rate and for the slippage and spread
/// tolerances.
#[derive(Clone, Copy, Debug, PartialEq, Eq, Structural)]
pub struct FixedPointFee {
    pub bps: i64,
}

impl FixedPointFee {
    /// A fraction of at most one: the only range under which `apply` is used.
    pub open spec fn valid(self) -> bool {
        0 <= self.bps <= BPS_DENOM
    }

    /// No validation happens here; gating a fee before it is persisted is the
    /// caller's job (see `crate::storage::validate_fee_bps`).
    pub fn from_bps(bps: i64) -> (r: Self)
        ensures
            r.bps == bps,
    {
        FixedPointFee { bps }
    }

    /// The fraction of `amount` that this ratio selects: `amount * bps / 10000`.
    /// On the nonnegative domain used throughout the pool, Euclidean division
    /// (the meaning of `/` here) coincides with truncation toward zero, so the
    /// pool never over-collects due to rounding.
    pub open spec fn spec_apply(self, amount: int) -> int {
        amount * self.bps / (BPS_DENOM as int)
    }

    /// Applies the fraction to `amount` exactly, without overflowing the
    /// 128-bit width: the product is split as `amount = 10000 * q + rem`
    /// before dividing, which never widens past `u128`.
    pub fn apply(&self, amount: i128) -> (r: i128)
        requires
            0 <= amount,
            self.valid(),
        ensures
            r == self.spec_apply(amount as int),
            0 <= r <= amount,
    {
        let a: u128 = amount as u128;
        let n: u128 = self.bps as u128;
        let q: u128 = a / (BPS_DENOM as u128);
        let rem: u128 = a % (BPS_DENOM as u128);
        proof {
            lemma_fundamental_div_mod(a as int, BPS_DENOM as int);
            assert((BPS_DENOM as int) * (a as int / (BPS_DENOM as int)) <= a as int);
            assert(q * n <= a) by (nonlinear_arith)
                requires
                    0 <= n <= BPS_DENOM as int,
                    0 <= q,
                    (BPS_DENOM as int) * (q as int) <= a as int,
            ;
        }
        proof {
            assert((rem as int) * (n as int) <= 10_000 * 10_000) by (nonlinear_arith)
                requires
                    rem < 10_000,
                    n <= 10_000,
            ;
        }
        let low: u128 = (rem * n) / (BPS_DENOM as u128);
        let out: u128 = q * n + low;
        proof {
            let d = BPS_DENOM as int;
            lemma_mul_is_distributive_add(n as int, d * (q as int), rem as int);
            assert((a as int) * (n as int) == d * ((q as int) * (n as int)) + (rem as int) * (n as int))
                by (nonlinear_arith)
                requires
                    a as int == d * (q as int) + (rem as int),
            ;
            lemma_hoist_over_denominator((rem as int) * (n as int), (q as int) * (n as int), d as nat);
            assert(out as int == (a as int) * (n as int) / d);
            lemma_mul_inequality(n as int, d, a as int);
            assert((a as int) * (n as int) <= (a as int) * d) by (nonlinear_arith)
                requires
                    0 <= a as int,
                    n as int <= d,
            ;
            lemma_div_is_ordered((a as int) * (n as int), (a as int) * d, d);
            lemma_div_multiples_vanish(a as int, d);
            assert((a as int) * d == d * (a as int)) by (nonlinear_arith);
            assert(out as int <= a as int);
            lemma_div_pos_is_pos((a as int) * (n as int), d);
            assert(0 <= (a as int) * (n as int)) by (nonlinear_arith)
                requires
                    0 <= a as int,
                    0 <= n as int,
            ;
        }
        out as i128
    }
}

} // verus!
