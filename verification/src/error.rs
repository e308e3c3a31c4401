use vstd::prelude::*;

verus! {

/// Result code carried by every fallible operation of the pool core.
///
/// No error is swallowed or retried internally; the entry-point layer is
/// expected to abort the enclosing transaction on any of these, so a failed
/// operation leaves persisted state unchanged.
#[derive(Clone, Copy, Debug, PartialEq, Eq, Structural)]
pub enum ContractError {
    /// The pool configuration cell was read before it was ever written.
    ConfigNotSet,
    /// A storage cell expected to exist was missing or unreadable.
    FailedToLoadFromStorage,
    /// A fee above 10000 basis points (100%) was offered for the config.
    InvalidFeeBps,
    /// The proportional deposit of asset B fell below the caller's minimum.
    DepositAmountBBelowMin,
    /// The proportional deposit of asset A fell below the caller's minimum,
    /// or the caller's desired amount of A already fell below that minimum.
    DepositAmountAInvalid,
    /// A deposit's accepted amounts drifted from the desired amounts by more
    /// than the configured slippage tolerance.
    SlippageToleranceExceeded,
    /// A swap's spread exceeded the configured tolerance.
    MaxSpreadExceeded,
    /// A reverse swap asked for at least the whole ask-side reserve.
    InsufficientLiquidity,
}

} // verus!
