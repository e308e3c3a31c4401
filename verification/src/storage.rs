use vstd::prelude::*;
use crate::error::ContractError;
use crate::fee::FixedPointFee;

verus! {

/// Identifier of an account or of a token contract, as the host layer maps
/// its native addresses onto plain values for this core.
#[derive(Clone, Copy, Debug, PartialEq, Eq, Structural)]
pub struct Address {
    pub id: u64,
}

/// The closed set of persisted cells that make up the reserve ledger; the
/// pool configuration lives under a fifth, separate cell.
#[derive(Clone, Copy, Debug, PartialEq, Eq, Structural)]
pub enum DataKey {
    TotalShares,
    ReserveA,
    ReserveB,
    Admin,
}

/// The pricing curve of a pair. Only the constant-product curve exists today;
/// the enum leaves room for others.
#[derive(Clone, Copy, Debug, PartialEq, Eq, Structural)]
pub enum PairType {
    Xyk,
}

/// Immutable-until-reconfigured description of a pool.
#[derive(Clone, Copy, Debug, PartialEq, Eq, Structural)]
pub struct Config {
    pub token_a: Address,
    pub token_b: Address,
    pub share_token: Address,
    pub pair_type: PairType,
    /// The total fees (in bps) charged by a pair of this type, in relation
    /// to the returned amount of tokens.
    pub total_fee_bps: i64,
    pub fee_recipient: Address,
    /// The maximum amount of slippage (in bps) tolerated when providing liquidity.
    pub max_allowed_slippage_bps: i64,
    /// The maximum amount of spread (in bps) tolerated during a swap.
    pub max_allowed_spread_bps: i64,
}

/// Upper bound on a stored fee: 10000 bps is 100%.
pub const MAX_TOTAL_FEE_BPS: i64 = 10_000;

/// Check run before a fee reaches a persisted `Config`: any value above
/// 10000 bps is rejected, while zero and negative values pass unchanged
/// (a negative fee, i.e. a subsidy, is permitted by this core).
pub fn validate_fee_bps(total_fee_bps: i64) -> (r: Result<i64, ContractError>)
    ensures
        total_fee_bps <= MAX_TOTAL_FEE_BPS ==> r == Ok::<i64, ContractError>(total_fee_bps),
        total_fee_bps > MAX_TOTAL_FEE_BPS ==> r == Err::<i64, ContractError>(
            ContractError::InvalidFeeBps,
        ),
{
    if total_fee_bps > MAX_TOTAL_FEE_BPS {
        return Err(ContractError::InvalidFeeBps);
    }
    Ok(total_fee_bps)
}

impl Config {
    pub fn protocol_fee_rate(&self) -> (r: FixedPointFee)
        ensures
            r.bps == self.total_fee_bps,
    {
        FixedPointFee::from_bps(self.total_fee_bps)
    }

    pub fn max_allowed_slippage(&self) -> (r: FixedPointFee)
        ensures
            r.bps == self.max_allowed_slippage_bps,
    {
        FixedPointFee::from_bps(self.max_allowed_slippage_bps)
    }

    pub fn max_allowed_spread(&self) -> (r: FixedPointFee)
        ensures
            r.bps == self.max_allowed_spread_bps,
    {
        FixedPointFee::from_bps(self.max_allowed_spread_bps)
    }
}

/// Reads the configuration cell; a pool must have been configured before any
/// deposit or swap touches it.
pub fn get_config(cell: &Option<Config>) -> (r: Result<Config, ContractError>)
    ensures
        r == (match *cell {
            Some(config) => Ok::<Config, ContractError>(config),
            None => Err::<Config, ContractError>(ContractError::ConfigNotSet),
        }),
{
    match cell {
        Some(config) => Ok(*config),
        None => Err(ContractError::ConfigNotSet),
    }
}

/// Writes the configuration cell, guarded by `validate_fee_bps`: a violating
/// write fails and leaves the prior configuration, if any, unchanged.
pub fn save_config(cell: &mut Option<Config>, config: Config) -> (r: Result<(), ContractError>)
    ensures
        config.total_fee_bps <= MAX_TOTAL_FEE_BPS ==> r == Ok::<(), ContractError>(())
            && *final(cell) == Some(config),
        config.total_fee_bps > MAX_TOTAL_FEE_BPS ==> r == Err::<(), ContractError>(
            ContractError::InvalidFeeBps,
        ) && *final(cell) == *old(cell),
{
    match validate_fee_bps(config.total_fee_bps) {
        Ok(_) => {
            *cell = Some(config);
            Ok(())
        },
        Err(e) => Err(e),
    }
}

/// A point-in-time balance snapshot of one asset, assembled for query
/// responses.
#[derive(Clone, Copy, Debug, PartialEq, Eq, Structural)]
pub struct Asset {
    /// Address of the asset.
    pub address: Address,
    /// The total amount of those tokens in the pool.
    pub amount: i128,
}

/// Query result with the total amount of LP tokens and assets in a pool.
#[derive(Clone, Copy, Debug, PartialEq, Eq, Structural)]
pub struct PoolResponse {
    /// The asset A in the pool together with its amount.
    pub asset_a: Asset,
    /// The asset B in the pool together with its amount.
    pub asset_b: Asset,
    /// The total amount of LP tokens currently issued.
    pub asset_lp_share: Asset,
}

/// Quote for a forward swap: how much of the ask asset an offer buys.
#[derive(Clone, Copy, Debug, PartialEq, Eq, Structural)]
pub struct SimulateSwapResponse {
    pub ask_amount: i128,
    pub commission_amount: i128,
    pub spread_amount: i128,
    pub total_return: i128,
}

/// Quote for a reverse swap: what offer a desired ask amount costs.
#[derive(Clone, Copy, Debug, PartialEq, Eq, Structural)]
pub struct SimulateReverseSwapResponse {
    pub offer_amount: i128,
    pub commission_amount: i128,
    pub spread_amount: i128,
}

/// Snapshot of the pool's persisted cells. Each field is one storage cell,
/// `None` until the first write to it; a read of an unwritten cell fails
/// rather than defaulting. The host layer loads the snapshot at the start of
/// an operation and commits every write at its end, atomically.
#[derive(Clone, Copy, Debug, PartialEq, Eq, Structural)]
pub struct ReserveLedger {
    pub total_shares: Option<i128>,
    pub reserve_a: Option<i128>,
    pub reserve_b: Option<i128>,
    pub admin: Option<Address>,
}

impl ReserveLedger {
    /// Whether the given cell has ever been written.
    pub open spec fn key_is_set(self, key: DataKey) -> bool {
        match key {
            DataKey::TotalShares => self.total_shares is Some,
            DataKey::ReserveA => self.reserve_a is Some,
            DataKey::ReserveB => self.reserve_b is Some,
            DataKey::Admin => self.admin is Some,
        }
    }

    /// A ledger whose every cell is still unwritten: pool genesis, before
    /// initialization.
    pub fn new() -> (r: Self)
        ensures
            forall|key: DataKey| !r.key_is_set(key),
    {
        ReserveLedger { total_shares: None, reserve_a: None, reserve_b: None, admin: None }
    }
}

pub fn save_admin(ledger: &mut ReserveLedger, address: Address)
    ensures
        *final(ledger) == (ReserveLedger { admin: Some(address), ..*old(ledger) }),
{
    ledger.admin = Some(address);
}

pub fn save_total_shares(ledger: &mut ReserveLedger, amount: i128)
    ensures
        *final(ledger) == (ReserveLedger { total_shares: Some(amount), ..*old(ledger) }),
{
    ledger.total_shares = Some(amount);
}

pub fn save_pool_balance_a(ledger: &mut ReserveLedger, amount: i128)
    ensures
        *final(ledger) == (ReserveLedger { reserve_a: Some(amount), ..*old(ledger) }),
{
    ledger.reserve_a = Some(amount);
}

pub fn save_pool_balance_b(ledger: &mut ReserveLedger, amount: i128)
    ensures
        *final(ledger) == (ReserveLedger { reserve_b: Some(amount), ..*old(ledger) }),
{
    ledger.reserve_b = Some(amount);
}

pub fn get_admin(ledger: &ReserveLedger) -> (r: Result<Address, ContractError>)
    ensures
        r == (match ledger.admin {
            Some(address) => Ok::<Address, ContractError>(address),
            None => Err::<Address, ContractError>(ContractError::FailedToLoadFromStorage),
        }),
        r is Ok <==> ledger.key_is_set(DataKey::Admin),
{
    match ledger.admin {
        Some(address) => Ok(address),
        None => Err(ContractError::FailedToLoadFromStorage),
    }
}

pub fn get_total_shares(ledger: &ReserveLedger) -> (r: Result<i128, ContractError>)
    ensures
        r == (match ledger.total_shares {
            Some(amount) => Ok::<i128, ContractError>(amount),
            None => Err::<i128, ContractError>(ContractError::FailedToLoadFromStorage),
        }),
        r is Ok <==> ledger.key_is_set(DataKey::TotalShares),
{
    match ledger.total_shares {
        Some(amount) => Ok(amount),
        None => Err(ContractError::FailedToLoadFromStorage),
    }
}

pub fn get_pool_balance_a(ledger: &ReserveLedger) -> (r: Result<i128, ContractError>)
    ensures
        r == (match ledger.reserve_a {
            Some(amount) => Ok::<i128, ContractError>(amount),
            None => Err::<i128, ContractError>(ContractError::FailedToLoadFromStorage),
        }),
        r is Ok <==> ledger.key_is_set(DataKey::ReserveA),
{
    match ledger.reserve_a {
        Some(amount) => Ok(amount),
        None => Err(ContractError::FailedToLoadFromStorage),
    }
}

pub fn get_pool_balance_b(ledger: &ReserveLedger) -> (r: Result<i128, ContractError>)
    ensures
        r == (match ledger.reserve_b {
            Some(amount) => Ok::<i128, ContractError>(amount),
            None => Err::<i128, ContractError>(ContractError::FailedToLoadFromStorage),
        }),
        r is Ok <==> ledger.key_is_set(DataKey::ReserveB),
{
    match ledger.reserve_b {
        Some(amount) => Ok(amount),
        None => Err(ContractError::FailedToLoadFromStorage),
    }
}

/// Assembles the read-only pool view from the ledger snapshot and the
/// configured asset addresses. Every amount cell must have been initialized.
pub fn query_pool_info(ledger: &ReserveLedger, config: &Config) -> (r: Result<
    PoolResponse,
    ContractError,
>)
    ensures
        (ledger.reserve_a is Some && ledger.reserve_b is Some && ledger.total_shares is Some)
            ==> r == Ok::<PoolResponse, ContractError>(
            (PoolResponse {
                asset_a: (Asset {
                    address: config.token_a,
                    amount: ledger.reserve_a->Some_0,
                }),
                asset_b: (Asset {
                    address: config.token_b,
                    amount: ledger.reserve_b->Some_0,
                }),
                asset_lp_share: (Asset {
                    address: config.share_token,
                    amount: ledger.total_shares->Some_0,
                }),
            }),
        ),
        !(ledger.reserve_a is Some && ledger.reserve_b is Some && ledger.total_shares is Some)
            ==> r == Err::<PoolResponse, ContractError>(ContractError::FailedToLoadFromStorage),
{
    let reserve_a = get_pool_balance_a(ledger)?;
    let reserve_b = get_pool_balance_b(ledger)?;
    let total_shares = get_total_shares(ledger)?;
    Ok(PoolResponse {
        asset_a: Asset { address: config.token_a, amount: reserve_a },
        asset_b: Asset { address: config.token_b, amount: reserve_b },
        asset_lp_share: Asset { address: config.share_token, amount: total_shares },
    })
}

} // verus!
