use vstd::prelude::*;
use vstd::arithmetic::div_mod::{
    lemma_div_nonincreasing, lemma_div_of0, lemma_div_pos_is_pos, lemma_fundamental_div_mod,
    lemma_mod_division_less_than_divisor,
};
use crate::error::ContractError;

verus! {

/// The amount of asset B that exactly matches the pool's current ratio for
/// the full desired amount of asset A, rounded down.
pub open spec fn matching_amount_b(desired_a: int, pool_balance_a: int, pool_balance_b: int) -> int {
    desired_a * pool_balance_b / pool_balance_a
}

/// The symmetric case: the amount of asset A matching the full desired
/// amount of asset B, rounded down.
pub open spec fn matching_amount_a(desired_b: int, pool_balance_a: int, pool_balance_b: int) -> int {
    desired_b * pool_balance_a / pool_balance_b
}

/// Computes the proportional deposit pair for the given desired amounts,
/// optional minimums and current reserves.
///
/// On pool genesis (both balances zero) the desired amounts are accepted
/// verbatim, minimums notwithstanding: the first depositor sets the price.
/// Otherwise the function returns the largest pair proportional to the
/// current reserves that exceeds neither desired amount; the matching side
/// is rounded down, so the pool never issues shares backed by fewer assets
/// than recorded. The bounds in `requires` keep each cross product inside
/// the 128-bit width the original arithmetic is carried out in, and rule out
/// a one-sided pool with an empty A reserve, on which the ratio below has no
/// value.
pub fn get_deposit_amounts(
    desired_a: i128,
    min_a: Option<i128>,
    desired_b: i128,
    min_b: Option<i128>,
    pool_balance_a: i128,
    pool_balance_b: i128,
) -> (r: Result<(i128, i128), ContractError>)
    requires
        0 <= desired_a,
        0 <= desired_b,
        0 <= pool_balance_a,
        0 <= pool_balance_b,
        pool_balance_a == 0 ==> pool_balance_b == 0,
        desired_a * pool_balance_b <= i128::MAX,
        desired_b * pool_balance_a <= i128::MAX,
    ensures
        (pool_balance_a == 0 && pool_balance_b == 0) ==> r == Ok::<(i128, i128), ContractError>(
            (desired_a, desired_b),
        ),
        (pool_balance_a != 0 || pool_balance_b != 0) ==> ({
            let amount_b = matching_amount_b(
                desired_a as int,
                pool_balance_a as int,
                pool_balance_b as int,
            );
            let amount_a = matching_amount_a(
                desired_b as int,
                pool_balance_a as int,
                pool_balance_b as int,
            );
            if amount_b <= desired_b {
                if min_b is Some && amount_b < min_b->Some_0 {
                    r == Err::<(i128, i128), ContractError>(ContractError::DepositAmountBBelowMin)
                } else {
                    r == Ok::<(i128, i128), ContractError>((desired_a, amount_b as i128))
                }
            } else {
                if min_a is Some && (amount_a < min_a->Some_0 || desired_a < min_a->Some_0) {
                    r == Err::<(i128, i128), ContractError>(ContractError::DepositAmountAInvalid)
                } else {
                    r == Ok::<(i128, i128), ContractError>((amount_a as i128, desired_b))
                }
            }
        }),
{
    if pool_balance_a == 0 && pool_balance_b == 0 {
        return Ok((desired_a, desired_b));
    }
    proof {
        lemma_div_pos_is_pos(desired_a as int * pool_balance_b as int, pool_balance_a as int);
        lemma_div_nonincreasing(desired_a as int * pool_balance_b as int, pool_balance_a as int);
        assert(0 <= desired_a as int * pool_balance_b as int) by (nonlinear_arith)
            requires
                0 <= desired_a,
                0 <= pool_balance_b,
        ;
    }
    let amount_b: i128 = ((desired_a as u128) * (pool_balance_b as u128) / (pool_balance_a
        as u128)) as i128;
    if amount_b <= desired_b {
        if let Some(min_b) = min_b {
            if amount_b < min_b {
                return Err(ContractError::DepositAmountBBelowMin);
            }
        }
        Ok((desired_a, amount_b))
    } else {
        proof {
            if pool_balance_b == 0 {
                assert(desired_a as int * pool_balance_b as int == 0) by (nonlinear_arith)
                    requires
                        pool_balance_b as int == 0,
                ;
                lemma_div_of0(pool_balance_a as int);
            }
            lemma_div_pos_is_pos(desired_b as int * pool_balance_a as int, pool_balance_b as int);
            lemma_div_nonincreasing(desired_b as int * pool_balance_a as int, pool_balance_b as int);
            assert(0 <= desired_b as int * pool_balance_a as int) by (nonlinear_arith)
                requires
                    0 <= desired_b,
                    0 <= pool_balance_a,
            ;
        }
        let amount_a: i128 = ((desired_b as u128) * (pool_balance_a as u128) / (pool_balance_b
            as u128)) as i128;
        if let Some(min_a) = min_a {
            if amount_a < min_a || desired_a < min_a {
                return Err(ContractError::DepositAmountAInvalid);
            }
        }
        Ok((amount_a, desired_b))
    }
}

/// Slippage check on the liquidity-provision path: each accepted amount may
/// fall short of the corresponding desired amount by at most the tolerated
/// fraction of that desired amount, else the deposit fails with
/// `SlippageToleranceExceeded` instead of executing at a drifted ratio.
pub fn check_slippage_tolerance(
    max_slippage: crate::fee::FixedPointFee,
    desired_a: i128,
    desired_b: i128,
    amount_a: i128,
    amount_b: i128,
) -> (r: Result<(), ContractError>)
    requires
        max_slippage.valid(),
        0 <= amount_a <= desired_a,
        0 <= amount_b <= desired_b,
    ensures
        (desired_a - amount_a <= max_slippage.spec_apply(desired_a as int) && desired_b - amount_b
            <= max_slippage.spec_apply(desired_b as int)) ==> r == Ok::<(), ContractError>(()),
        (desired_a - amount_a > max_slippage.spec_apply(desired_a as int) || desired_b - amount_b
            > max_slippage.spec_apply(desired_b as int)) ==> r == Err::<(), ContractError>(
            ContractError::SlippageToleranceExceeded,
        ),
{
    let allowed_a = max_slippage.apply(desired_a);
    let allowed_b = max_slippage.apply(desired_b);
    if desired_a - amount_a > allowed_a || desired_b - amount_b > allowed_b {
        return Err(ContractError::SlippageToleranceExceeded);
    }
    Ok(())
}

/// Ratio preservation: with nonzero reserves, an accepted pair `(a, b)`
/// never exceeds the desired amounts, and its cross products stay within one
/// truncation step of the pool's own ratio: `a * pool_balance_b` and
/// `b * pool_balance_a` differ by less than the respective reserve.
///
/// The disjunction in `requires` is exactly the two accepted shapes that
/// `get_deposit_amounts` returns outside genesis.
pub proof fn lemma_deposit_ratio_preserved(
    desired_a: int,
    desired_b: int,
    pool_balance_a: int,
    pool_balance_b: int,
    a: int,
    b: int,
)
    requires
        0 <= desired_a,
        0 <= desired_b,
        0 < pool_balance_a,
        0 < pool_balance_b,
        (a == desired_a && b == matching_amount_b(desired_a, pool_balance_a, pool_balance_b)
            && b <= desired_b) || (b == desired_b && a == matching_amount_a(
            desired_b,
            pool_balance_a,
            pool_balance_b,
        ) && matching_amount_b(desired_a, pool_balance_a, pool_balance_b) > desired_b),
    ensures
        a <= desired_a,
        b <= desired_b,
        a * pool_balance_b - b * pool_balance_a <= pool_balance_a - 1,
        b * pool_balance_a - a * pool_balance_b <= pool_balance_b - 1,
{
    let pa = pool_balance_a;
    let pb = pool_balance_b;
    if a == desired_a && b == matching_amount_b(desired_a, pa, pb) && b <= desired_b {
        lemma_fundamental_div_mod(desired_a * pb, pa);
        lemma_mod_division_less_than_divisor(desired_a * pb, pa);
        assert(a * pb - b * pa <= pa - 1 && b * pa - a * pb <= 0) by (nonlinear_arith)
            requires
                0 < pa,
                a == desired_a,
                desired_a * pb == pa * b + (desired_a * pb) % pa,
                0 <= (desired_a * pb) % pa < pa,
        ;
    } else {
        lemma_fundamental_div_mod(desired_b * pa, pb);
        lemma_mod_division_less_than_divisor(desired_b * pa, pb);
        assert(b * pa - a * pb <= pb - 1 && a * pb - b * pa <= 0) by (nonlinear_arith)
            requires
                0 < pb,
                b == desired_b,
                desired_b * pa == pb * a + (desired_b * pa) % pb,
                0 <= (desired_b * pa) % pb < pb,
        ;
        lemma_fundamental_div_mod(desired_a * pb, pa);
        lemma_mod_division_less_than_divisor(desired_a * pb, pa);
        assert(a <= desired_a) by (nonlinear_arith)
            requires
                0 < pa,
                0 < pb,
                0 <= desired_a,
                b == desired_b,
                desired_a * pb == pa * matching_amount_b(desired_a, pa, pb) + (desired_a * pb) % pa,
                0 <= (desired_a * pb) % pa < pa,
                matching_amount_b(desired_a, pa, pb) > desired_b,
                a * pb <= b * pa,
        ;
    }
}

} // verus!
