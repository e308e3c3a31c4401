use vstd::prelude::*;
use vstd::arithmetic::div_mod::{
    lemma_div_is_ordered, lemma_div_is_ordered_by_denominator, lemma_div_multiples_vanish,
    lemma_div_nonincreasing, lemma_div_pos_is_pos, lemma_fundamental_div_mod,
    lemma_mod_division_less_than_divisor,
};
use crate::error::ContractError;
use crate::fee::{FixedPointFee, BPS_DENOM};
use crate::storage::{SimulateReverseSwapResponse, SimulateSwapResponse};

verus! {

/// What the constant-product curve pays out for `net_offer` of the offer
/// asset: the ask reserve falls to `offer_pool * ask_pool / (offer_pool +
/// net_offer)` (rounded down, so the pool keeps any remainder) and the
/// difference is paid out.
pub open spec fn curve_ask_amount(offer_pool: int, ask_pool: int, net_offer: int) -> int {
    ask_pool - (offer_pool * ask_pool) / (offer_pool + net_offer)
}

/// The ideal linear-price output for `net_offer`: what the trade would pay
/// at the pool's instantaneous price, with no curvature.
pub open spec fn ideal_ask_amount(offer_pool: int, ask_pool: int, net_offer: int) -> int {
    net_offer * ask_pool / offer_pool
}

/// The net offer the curve demands for a desired `ask_amount`: the same
/// invariant solved the other way. Meaningful only for
/// `ask_amount < ask_pool`.
pub open spec fn reverse_net_offer(offer_pool: int, ask_pool: int, ask_amount: int) -> int {
    (offer_pool * ask_pool) / (ask_pool - ask_amount) - offer_pool
}

/// Division rounding up, for positive divisors.
pub open spec fn ceil_div(x: int, d: int) -> int {
    (x + d - 1) / d
}

/// A net offer grossed up for commission: `net / (1 - fee)` in bps terms,
/// rounded up so the pool never under-collects fee.
pub open spec fn gross_offer(net_offer: int, fee_bps: int) -> int {
    ceil_div(net_offer * BPS_DENOM, BPS_DENOM - fee_bps)
}

/// Prices a forward swap of `offer_amount` against the reserves
/// `(offer_pool, ask_pool)` of the offered and asked sides.
///
/// The commission is taken from the offer first; the remainder moves along
/// the constant-product curve, rounded in the pool's favor. The deviation of
/// the curved output from the ideal linear-price output is the spread; a
/// quote whose spread exceeds the tolerated fraction of the ideal output
/// fails with `MaxSpreadExceeded` rather than executing an adverse fill.
/// The bounds in `requires` keep every product inside the 128-bit width.
pub fn simulate_swap(
    offer_pool: i128,
    ask_pool: i128,
    offer_amount: i128,
    fee: FixedPointFee,
    max_spread: FixedPointFee,
) -> (r: Result<SimulateSwapResponse, ContractError>)
    requires
        0 < offer_pool,
        0 < ask_pool,
        0 <= offer_amount,
        fee.valid(),
        max_spread.valid(),
        offer_pool * ask_pool <= i128::MAX,
        offer_pool + offer_amount <= i128::MAX,
        offer_amount * ask_pool <= i128::MAX,
    ensures
        0 <= fee.spec_apply(offer_amount as int) <= offer_amount,
        ({
            let net_offer = offer_amount - fee.spec_apply(offer_amount as int);
            0 <= curve_ask_amount(offer_pool as int, ask_pool as int, net_offer) <= ask_pool
        }),
        ({
            let net_offer = offer_amount - fee.spec_apply(offer_amount as int);
            let ask = curve_ask_amount(offer_pool as int, ask_pool as int, net_offer);
            let ideal = ideal_ask_amount(offer_pool as int, ask_pool as int, net_offer);
            let spread = ideal - ask;
            if spread > max_spread.spec_apply(ideal) {
                r == Err::<SimulateSwapResponse, ContractError>(ContractError::MaxSpreadExceeded)
            } else {
                r == Ok::<SimulateSwapResponse, ContractError>(
                    (SimulateSwapResponse {
                        ask_amount: ask as i128,
                        commission_amount: fee.spec_apply(offer_amount as int) as i128,
                        spread_amount: spread as i128,
                        total_return: ask as i128,
                    }),
                )
            }
        }),
{
    let commission_amount = fee.apply(offer_amount);
    let net_offer = offer_amount - commission_amount;
    let denom = offer_pool + net_offer;
    proof {
        lemma_div_pos_is_pos(offer_pool as int * ask_pool as int, denom as int);
        assert(0 < offer_pool as int * ask_pool as int) by (nonlinear_arith)
            requires
                0 < offer_pool,
                0 < ask_pool,
        ;
        lemma_div_is_ordered_by_denominator(
            offer_pool as int * ask_pool as int,
            offer_pool as int,
            denom as int,
        );
        lemma_div_multiples_vanish(ask_pool as int, offer_pool as int);
        assert(offer_pool as int * ask_pool as int == ask_pool as int * offer_pool as int)
            by (nonlinear_arith);
        lemma_div_nonincreasing(offer_pool as int * ask_pool as int, denom as int);
    }
    let kept: i128 = ((offer_pool as u128 * ask_pool as u128) / (denom as u128)) as i128;
    let ask_amount = ask_pool - kept;
    proof {
        assert(net_offer as int * ask_pool as int <= offer_amount as int * ask_pool as int)
            by (nonlinear_arith)
            requires
                0 <= net_offer as int <= offer_amount as int,
                0 <= ask_pool as int,
        ;
        assert(0 <= net_offer as int * ask_pool as int) by (nonlinear_arith)
            requires
                0 <= net_offer,
                0 <= ask_pool,
        ;
        lemma_div_pos_is_pos(net_offer as int * ask_pool as int, offer_pool as int);
        lemma_div_nonincreasing(net_offer as int * ask_pool as int, offer_pool as int);
    }
    let ideal: i128 = ((net_offer as u128 * ask_pool as u128) / (offer_pool as u128)) as i128;
    let spread_amount = ideal - ask_amount;
    let bound = max_spread.apply(ideal);
    if spread_amount > bound {
        return Err(ContractError::MaxSpreadExceeded);
    }
    Ok(
        SimulateSwapResponse {
            ask_amount,
            commission_amount,
            spread_amount,
            total_return: ask_amount,
        },
    )
}

/// Prices a reverse swap: the offer needed for a desired `ask_amount`
/// against the reserves `(offer_pool, ask_pool)`.
///
/// Asking for the whole ask-side reserve or more fails fast with
/// `InsufficientLiquidity`. Otherwise the same constant-product invariant is
/// inverted for the net offer, which is then grossed up for commission,
/// rounded up so the pool never under-collects fee; the spread check is the
/// same as in the forward direction. The conditional bounds in `requires`
/// keep the inverted quote's products inside the 128-bit width.
pub fn simulate_reverse_swap(
    offer_pool: i128,
    ask_pool: i128,
    ask_amount: i128,
    fee: FixedPointFee,
    max_spread: FixedPointFee,
) -> (r: Result<SimulateReverseSwapResponse, ContractError>)
    requires
        0 < offer_pool,
        0 < ask_pool,
        0 <= ask_amount,
        fee.valid(),
        fee.bps < BPS_DENOM,
        max_spread.valid(),
        offer_pool * ask_pool <= i128::MAX,
        ask_amount < ask_pool ==> reverse_net_offer(
            offer_pool as int,
            ask_pool as int,
            ask_amount as int,
        ) * ask_pool <= i128::MAX,
        ask_amount < ask_pool ==> reverse_net_offer(
            offer_pool as int,
            ask_pool as int,
            ask_amount as int,
        ) * BPS_DENOM + BPS_DENOM <= i128::MAX,
    ensures
        ask_amount >= ask_pool ==> r == Err::<SimulateReverseSwapResponse, ContractError>(
            ContractError::InsufficientLiquidity,
        ),
        r is Ok ==> ({
            let net_offer = reverse_net_offer(offer_pool as int, ask_pool as int, ask_amount as int);
            0 <= net_offer && net_offer <= gross_offer(net_offer, fee.bps as int) && gross_offer(
                net_offer,
                fee.bps as int,
            ) <= i128::MAX
        }),
        ask_amount < ask_pool ==> ({
            let net_offer = reverse_net_offer(offer_pool as int, ask_pool as int, ask_amount as int);
            let ideal = ideal_ask_amount(offer_pool as int, ask_pool as int, net_offer);
            let spread = ideal - ask_amount;
            let gross = gross_offer(net_offer, fee.bps as int);
            if spread > max_spread.spec_apply(ideal) {
                r == Err::<SimulateReverseSwapResponse, ContractError>(
                    ContractError::MaxSpreadExceeded,
                )
            } else {
                r == Ok::<SimulateReverseSwapResponse, ContractError>(
                    (SimulateReverseSwapResponse {
                        offer_amount: gross as i128,
                        commission_amount: (gross - net_offer) as i128,
                        spread_amount: spread as i128,
                    }),
                )
            }
        }),
{
    if ask_amount >= ask_pool {
        return Err(ContractError::InsufficientLiquidity);
    }
    let remain = ask_pool - ask_amount;
    proof {
        assert(0 < offer_pool as int * ask_pool as int) by (nonlinear_arith)
            requires
                0 < offer_pool,
                0 < ask_pool,
        ;
        lemma_div_pos_is_pos(offer_pool as int * ask_pool as int, remain as int);
        lemma_div_nonincreasing(offer_pool as int * ask_pool as int, remain as int);
        lemma_div_is_ordered_by_denominator(
            offer_pool as int * ask_pool as int,
            remain as int,
            ask_pool as int,
        );
        lemma_div_multiples_vanish(offer_pool as int, ask_pool as int);
        assert(offer_pool as int * ask_pool as int == ask_pool as int * offer_pool as int)
            by (nonlinear_arith);
    }
    let before_fee_total: i128 = ((offer_pool as u128 * ask_pool as u128) / (remain
        as u128)) as i128;
    let net_offer = before_fee_total - offer_pool;
    proof {
        assert(0 <= net_offer as int * ask_pool as int) by (nonlinear_arith)
            requires
                0 <= net_offer,
                0 < ask_pool,
        ;
        lemma_div_pos_is_pos(net_offer as int * ask_pool as int, offer_pool as int);
        lemma_div_nonincreasing(net_offer as int * ask_pool as int, offer_pool as int);
    }
    let ideal: i128 = ((net_offer as u128 * ask_pool as u128) / (offer_pool as u128)) as i128;
    let spread_amount = ideal - ask_amount;
    let bound = max_spread.apply(ideal);
    if spread_amount > bound {
        return Err(ContractError::MaxSpreadExceeded);
    }
    let denom_bps = BPS_DENOM - fee.bps;
    proof {
        assert(0 <= net_offer as int * (BPS_DENOM as int)) by (nonlinear_arith)
            requires
                0 <= net_offer,
        ;
        lemma_div_pos_is_pos(
            net_offer as int * (BPS_DENOM as int) + denom_bps as int - 1,
            denom_bps as int,
        );
        lemma_div_nonincreasing(
            net_offer as int * (BPS_DENOM as int) + denom_bps as int - 1,
            denom_bps as int,
        );
        assert(net_offer as int * (denom_bps as int) <= net_offer as int * (BPS_DENOM as int))
            by (nonlinear_arith)
            requires
                0 <= net_offer,
                0 < denom_bps as int <= BPS_DENOM as int,
        ;
        lemma_div_is_ordered(
            net_offer as int * (denom_bps as int),
            net_offer as int * (BPS_DENOM as int) + denom_bps as int - 1,
            denom_bps as int,
        );
        lemma_div_multiples_vanish(net_offer as int, denom_bps as int);
        assert(net_offer as int * (denom_bps as int) == denom_bps as int * (net_offer as int))
            by (nonlinear_arith);
    }
    let offer_amount: i128 = ((net_offer as u128 * (BPS_DENOM as u128) + (denom_bps as u128 - 1))
        / (denom_bps as u128)) as i128;
    let commission_amount = offer_amount - net_offer;
    Ok(SimulateReverseSwapResponse { offer_amount, commission_amount, spread_amount })
}

/// Round-trip bound: whenever a forward quote's ask stays strictly below the
/// ask-side reserve (so the reverse quote is defined), re-pricing that ask
/// through the reverse direction demands an offer at least as large as the
/// original one — fees and truncation never let the pool under-charge.
pub proof fn lemma_swap_round_trip(
    offer_pool: int,
    ask_pool: int,
    offer_amount: int,
    fee_bps: int,
)
    requires
        0 < offer_pool,
        0 < ask_pool,
        0 <= offer_amount,
        0 <= fee_bps < BPS_DENOM,
        curve_ask_amount(
            offer_pool,
            ask_pool,
            offer_amount - offer_amount * fee_bps / (BPS_DENOM as int),
        ) < ask_pool,
    ensures
        ({
            let net_offer = offer_amount - offer_amount * fee_bps / (BPS_DENOM as int);
            let ask = curve_ask_amount(offer_pool, ask_pool, net_offer);
            gross_offer(reverse_net_offer(offer_pool, ask_pool, ask), fee_bps) >= offer_amount
        }),
{
    let d = BPS_DENOM as int;
    let g = d - fee_bps;
    let commission = offer_amount * fee_bps / d;
    let net = offer_amount - commission;
    // The commission is a fraction of at most one of the offer, so the net
    // offer stays within [0, offer_amount].
    assert(0 <= offer_amount * fee_bps) by (nonlinear_arith)
        requires
            0 <= offer_amount,
            0 <= fee_bps,
    ;
    lemma_div_pos_is_pos(offer_amount * fee_bps, d);
    assert(offer_amount * fee_bps <= offer_amount * d) by (nonlinear_arith)
        requires
            0 <= offer_amount,
            fee_bps <= d,
    ;
    lemma_div_is_ordered(offer_amount * fee_bps, offer_amount * d, d);
    lemma_div_multiples_vanish(offer_amount, d);
    assert(offer_amount * d == d * offer_amount) by (nonlinear_arith);
    assert(0 <= net <= offer_amount);

    let big_d = offer_pool + net;
    let kept = (offer_pool * ask_pool) / big_d;
    let ask = ask_pool - kept;
    assert(kept >= 1);  // from ask < ask_pool
    // The curve's kept reserve times the depth never exceeds the product.
    lemma_fundamental_div_mod(offer_pool * ask_pool, big_d);
    lemma_mod_division_less_than_divisor(offer_pool * ask_pool, big_d);
    assert(kept * big_d <= offer_pool * ask_pool) by (nonlinear_arith)
        requires
            offer_pool * ask_pool == big_d * kept + (offer_pool * ask_pool) % big_d,
            0 <= (offer_pool * ask_pool) % big_d,
    ;
    // Reversing from the kept reserve recovers at least the original depth.
    let recovered = (offer_pool * ask_pool) / kept;
    lemma_div_is_ordered(kept * big_d, offer_pool * ask_pool, kept);
    lemma_div_multiples_vanish(big_d, kept);
    assert(big_d * kept == kept * big_d) by (nonlinear_arith);
    assert(recovered >= big_d);
    let net_back = reverse_net_offer(offer_pool, ask_pool, ask);
    assert(ask_pool - ask == kept);
    assert(net_back == recovered - offer_pool);
    assert(net_back >= net);

    // The truncated commission never exceeds the exact fraction, so the net
    // offer scaled back to bps covers the fee-free share of the offer.
    lemma_fundamental_div_mod(offer_amount * fee_bps, d);
    lemma_mod_division_less_than_divisor(offer_amount * fee_bps, d);
    assert(net * d >= offer_amount * g) by (nonlinear_arith)
        requires
            net == offer_amount - commission,
            g == d - fee_bps,
            offer_amount * fee_bps == d * commission + (offer_amount * fee_bps) % d,
            0 <= (offer_amount * fee_bps) % d,
    ;
    assert(net_back * d >= net * d) by (nonlinear_arith)
        requires
            net_back >= net,
            0 < d,
    ;
    // Rounding the gross-up upward can only help.
    lemma_div_is_ordered(offer_amount * g, net_back * d + g - 1, g);
    lemma_div_multiples_vanish(offer_amount, g);
    assert(offer_amount * g == g * offer_amount) by (nonlinear_arith);
    assert(gross_offer(net_back, fee_bps) >= offer_amount);
}

} // verus!
