use xyk_pool::deposit::{check_slippage_tolerance, get_deposit_amounts};
use xyk_pool::error::ContractError;
use xyk_pool::fee::FixedPointFee;
use xyk_pool::shares::{burn_shares, mint_shares, ShareToken};
use xyk_pool::storage::{
    get_admin, get_config, get_pool_balance_a, get_pool_balance_b, get_total_shares,
    query_pool_info, save_admin, save_config, save_pool_balance_a, save_pool_balance_b,
    save_total_shares, validate_fee_bps, Address, Asset, Config, PairType, PoolResponse,
    ReserveLedger, SimulateReverseSwapResponse, SimulateSwapResponse,
};
use xyk_pool::swap::{simulate_reverse_swap, simulate_swap};

fn test_config(total_fee_bps: i64) -> Config {
    Config {
        token_a: Address { id: 1 },
        token_b: Address { id: 2 },
        share_token: Address { id: 3 },
        pair_type: PairType::Xyk,
        total_fee_bps,
        fee_recipient: Address { id: 4 },
        max_allowed_slippage_bps: 100,
        max_allowed_spread_bps: 1000,
    }
}

#[test]
fn validate_fee_bps_accepts_up_to_max() {
    assert_eq!(validate_fee_bps(0), Ok(0));
    assert_eq!(validate_fee_bps(10_000), Ok(10_000));
    // Negative fees (subsidies) pass unchanged: only values above 100% fail.
    assert_eq!(validate_fee_bps(-500), Ok(-500));
}

#[test]
fn validate_fee_bps_rejects_above_max() {
    assert_eq!(validate_fee_bps(10_001), Err(ContractError::InvalidFeeBps));
    assert_eq!(validate_fee_bps(i64::MAX), Err(ContractError::InvalidFeeBps));
}

#[test]
fn fee_apply_truncates_toward_zero() {
    assert_eq!(FixedPointFee::from_bps(30).apply(5_000), 15);
    assert_eq!(FixedPointFee::from_bps(0).apply(123_456), 0);
    assert_eq!(FixedPointFee::from_bps(10_000).apply(123_456), 123_456);
    assert_eq!(FixedPointFee::from_bps(1).apply(9_999), 0);
    assert_eq!(FixedPointFee::from_bps(100).apply(i128::MAX), i128::MAX / 100);
}

#[test]
fn deposit_genesis_returns_desired_amounts() {
    // Minimums do not apply on genesis: the first depositor sets the price.
    assert_eq!(
        get_deposit_amounts(7, Some(1_000), 9, Some(1_000), 0, 0),
        Ok((7, 9))
    );
}

#[test]
fn deposit_matches_ratio_on_full_a_side() {
    assert_eq!(get_deposit_amounts(50, None, 200, None, 100, 200), Ok((50, 100)));
}

#[test]
fn deposit_falls_back_to_b_side() {
    assert_eq!(get_deposit_amounts(50, None, 50, None, 100, 200), Ok((25, 50)));
}

#[test]
fn deposit_min_b_violation() {
    assert_eq!(
        get_deposit_amounts(50, None, 200, Some(101), 100, 200),
        Err(ContractError::DepositAmountBBelowMin)
    );
    assert_eq!(get_deposit_amounts(50, None, 200, Some(100), 100, 200), Ok((50, 100)));
}

#[test]
fn deposit_min_a_violation() {
    assert_eq!(
        get_deposit_amounts(50, Some(26), 50, None, 100, 200),
        Err(ContractError::DepositAmountAInvalid)
    );
    assert_eq!(get_deposit_amounts(50, Some(25), 50, None, 100, 200), Ok((25, 50)));
}

#[test]
fn slippage_within_tolerance() {
    let tolerance = FixedPointFee::from_bps(100);
    assert_eq!(check_slippage_tolerance(tolerance, 1_000, 1_000, 995, 995), Ok(()));
    assert_eq!(check_slippage_tolerance(tolerance, 1_000, 1_000, 990, 1_000), Ok(()));
}

#[test]
fn slippage_exceeded() {
    let tolerance = FixedPointFee::from_bps(100);
    assert_eq!(
        check_slippage_tolerance(tolerance, 1_000, 1_000, 985, 1_000),
        Err(ContractError::SlippageToleranceExceeded)
    );
}

#[test]
fn swap_quote_concrete() {
    let quote = simulate_swap(
        100_000,
        100_000,
        1_000,
        FixedPointFee::from_bps(100),
        FixedPointFee::from_bps(1_000),
    );
    assert_eq!(
        quote,
        Ok(SimulateSwapResponse {
            ask_amount: 981,
            commission_amount: 10,
            spread_amount: 9,
            total_return: 981,
        })
    );
}

#[test]
fn swap_spread_rejected() {
    // An offer matching the whole offer-side reserve moves the price far
    // beyond a 1% tolerance.
    let quote = simulate_swap(
        100,
        200,
        100,
        FixedPointFee::from_bps(0),
        FixedPointFee::from_bps(100),
    );
    assert_eq!(quote, Err(ContractError::MaxSpreadExceeded));
}

#[test]
fn reverse_swap_quote_concrete() {
    let quote = simulate_reverse_swap(
        100_000,
        100_000,
        981,
        FixedPointFee::from_bps(100),
        FixedPointFee::from_bps(1_000),
    );
    assert_eq!(
        quote,
        Ok(SimulateReverseSwapResponse {
            offer_amount: 1_000,
            commission_amount: 10,
            spread_amount: 9,
        })
    );
}

#[test]
fn reverse_swap_insufficient_liquidity() {
    let fee = FixedPointFee::from_bps(100);
    let spread = FixedPointFee::from_bps(1_000);
    assert_eq!(
        simulate_reverse_swap(100, 200, 200, fee, spread),
        Err(ContractError::InsufficientLiquidity)
    );
    assert_eq!(
        simulate_reverse_swap(100, 200, 250, fee, spread),
        Err(ContractError::InsufficientLiquidity)
    );
}

#[test]
fn swap_round_trip_never_undercharges() {
    let fee = FixedPointFee::from_bps(100);
    let spread = FixedPointFee::from_bps(10_000);
    let offers: [i128; 5] = [1, 10, 33, 1_000, 12_345];
    for &offer in offers.iter() {
        let forward = simulate_swap(100_000, 100_000, offer, fee, spread).unwrap();
        let back = simulate_reverse_swap(100_000, 100_000, forward.ask_amount, fee, spread)
            .unwrap();
        assert!(back.offer_amount >= offer);
    }
}

#[test]
fn mint_then_burn_conserves_supply() {
    let mut ledger = ReserveLedger::new();
    save_total_shares(&mut ledger, 0);
    let mut token = ShareToken { minted: 0, burned: 0 };
    let to = Address { id: 9 };
    assert_eq!(mint_shares(&mut ledger, &mut token, to, 100), Ok(()));
    assert_eq!(mint_shares(&mut ledger, &mut token, to, 50), Ok(()));
    assert_eq!(burn_shares(&mut ledger, &mut token, 30), Ok(()));
    assert_eq!(get_total_shares(&ledger), Ok(120));
    assert_eq!(token.minted - token.burned, 120);
}

#[test]
fn mint_on_uninitialized_ledger_fails() {
    let mut ledger = ReserveLedger::new();
    let mut token = ShareToken { minted: 0, burned: 0 };
    assert_eq!(
        mint_shares(&mut ledger, &mut token, Address { id: 9 }, 100),
        Err(ContractError::FailedToLoadFromStorage)
    );
    assert_eq!(get_total_shares(&ledger), Err(ContractError::FailedToLoadFromStorage));
    assert_eq!(token, ShareToken { minted: 0, burned: 0 });
}

#[test]
fn burn_on_uninitialized_ledger_fails() {
    let mut ledger = ReserveLedger::new();
    let mut token = ShareToken { minted: 0, burned: 0 };
    assert_eq!(
        burn_shares(&mut ledger, &mut token, 0),
        Err(ContractError::FailedToLoadFromStorage)
    );
    assert_eq!(token, ShareToken { minted: 0, burned: 0 });
}

#[test]
fn config_save_and_get() {
    let mut cell: Option<Config> = None;
    assert_eq!(get_config(&cell), Err(ContractError::ConfigNotSet));
    let config = test_config(300);
    assert_eq!(save_config(&mut cell, config), Ok(()));
    assert_eq!(get_config(&cell), Ok(config));
    assert_eq!(config.protocol_fee_rate().bps, 300);
    assert_eq!(config.max_allowed_slippage().bps, 100);
    assert_eq!(config.max_allowed_spread().bps, 1_000);
}

#[test]
fn config_rejecting_write_leaves_prior_config() {
    let mut cell: Option<Config> = None;
    let good = test_config(10_000);
    assert_eq!(save_config(&mut cell, good), Ok(()));
    let bad = test_config(10_001);
    assert_eq!(save_config(&mut cell, bad), Err(ContractError::InvalidFeeBps));
    assert_eq!(get_config(&cell), Ok(good));
}

#[test]
fn ledger_accessors_roundtrip() {
    let mut ledger = ReserveLedger::new();
    assert_eq!(get_admin(&ledger), Err(ContractError::FailedToLoadFromStorage));
    assert_eq!(get_pool_balance_a(&ledger), Err(ContractError::FailedToLoadFromStorage));
    assert_eq!(get_pool_balance_b(&ledger), Err(ContractError::FailedToLoadFromStorage));
    save_admin(&mut ledger, Address { id: 7 });
    save_pool_balance_a(&mut ledger, 111);
    save_pool_balance_b(&mut ledger, 222);
    assert_eq!(get_admin(&ledger), Ok(Address { id: 7 }));
    assert_eq!(get_pool_balance_a(&ledger), Ok(111));
    assert_eq!(get_pool_balance_b(&ledger), Ok(222));
}

#[test]
fn query_pool_info_assembles_view() {
    let mut ledger = ReserveLedger::new();
    let config = test_config(300);
    assert_eq!(
        query_pool_info(&ledger, &config),
        Err(ContractError::FailedToLoadFromStorage)
    );
    save_pool_balance_a(&mut ledger, 111);
    save_pool_balance_b(&mut ledger, 222);
    save_total_shares(&mut ledger, 333);
    assert_eq!(
        query_pool_info(&ledger, &config),
        Ok(PoolResponse {
            asset_a: Asset { address: Address { id: 1 }, amount: 111 },
            asset_b: Asset { address: Address { id: 2 }, amount: 222 },
            asset_lp_share: Asset { address: Address { id: 3 }, amount: 333 },
        })
    );
}
