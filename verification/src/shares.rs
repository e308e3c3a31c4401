use vstd::prelude::*;
use crate::error::ContractError;
use crate::storage::{Address, ReserveLedger};

verus! {

/// Bookkeeping of the external share-token contract, as the host layer
/// mirrors it: the cumulative amounts the contract has ever minted and
/// burned. The collaborator performs the actual token movement; an operation
/// here records the supply effect that the host must apply to the real
/// contract inside the same atomic transaction.
#[derive(Clone, Copy, Debug, PartialEq, Eq, Structural)]
pub struct ShareToken {
    pub minted: i128,
    pub burned: i128,
}

impl ShareToken {
    /// The supply the token contract reports: total minted minus burned.
    pub open spec fn net_supply(self) -> int {
        self.minted - self.burned
    }
}

/// Conservation of the share supply: the ledger's `total_shares` cell is
/// initialized and equals the token contract's reported minted-minus-burned.
pub open spec fn shares_in_sync(ledger: ReserveLedger, token: ShareToken) -> bool {
    &&& ledger.total_shares is Some
    &&& ledger.total_shares->Some_0 == token.net_supply()
}

/// One bookkeeping operation of the share accountant, as a value: used to
/// state what holds after any sequence of mint and burn calls.
#[derive(Clone, Copy, Debug, PartialEq, Eq, Structural)]
pub enum ShareOp {
    Mint { amount: i128 },
    Burn { amount: i128 },
}

/// The preconditions under which `mint_shares` and `burn_shares` accept the
/// operation: a nonnegative amount, no 128-bit overflow of the running
/// total or of the token contract's counters, and no burn past the
/// recorded total.
pub open spec fn share_op_allowed(ledger: ReserveLedger, token: ShareToken, op: ShareOp) -> bool {
    match op {
        ShareOp::Mint { amount } => {
            &&& 0 <= amount
            &&& ledger.total_shares is Some ==> ledger.total_shares->Some_0 + amount <= i128::MAX
            &&& token.minted + amount <= i128::MAX
        },
        ShareOp::Burn { amount } => {
            &&& 0 <= amount
            &&& ledger.total_shares is Some ==> amount <= ledger.total_shares->Some_0
            &&& token.burned + amount <= i128::MAX
        },
    }
}

/// The state transition that one accepted operation performs: exactly what
/// the `ensures` of `mint_shares` and `burn_shares` promise. On an
/// uninitialized total-shares cell nothing changes (the call fails instead).
pub open spec fn apply_share_op(ledger: ReserveLedger, token: ShareToken, op: ShareOp) -> (
    ReserveLedger,
    ShareToken,
) {
    if ledger.total_shares is None {
        (ledger, token)
    } else {
        match op {
            ShareOp::Mint { amount } => (
                ReserveLedger {
                    total_shares: Some((ledger.total_shares->Some_0 + amount) as i128),
                    ..ledger
                },
                ShareToken { minted: (token.minted + amount) as i128, ..token },
            ),
            ShareOp::Burn { amount } => (
                ReserveLedger {
                    total_shares: Some((ledger.total_shares->Some_0 - amount) as i128),
                    ..ledger
                },
                ShareToken { burned: (token.burned + amount) as i128, ..token },
            ),
        }
    }
}

/// The state after a whole sequence of operations, first to last.
pub open spec fn run_share_ops(ledger: ReserveLedger, token: ShareToken, ops: Seq<ShareOp>) -> (
    ReserveLedger,
    ShareToken,
)
    decreases ops.len(),
{
    if ops.len() == 0 {
        (ledger, token)
    } else {
        let stepped = apply_share_op(ledger, token, ops[0]);
        run_share_ops(stepped.0, stepped.1, ops.drop_first())
    }
}

/// Whether every operation of the sequence is accepted in the state it
/// meets.
pub open spec fn share_ops_allowed(ledger: ReserveLedger, token: ShareToken, ops: Seq<ShareOp>) -> bool
    decreases ops.len(),
{
    if ops.len() == 0 {
        true
    } else {
        &&& share_op_allowed(ledger, token, ops[0])
        &&& {
            let stepped = apply_share_op(ledger, token, ops[0]);
            share_ops_allowed(stepped.0, stepped.1, ops.drop_first())
        }
    }
}

/// Mint/burn conservation: after any sequence of accepted mint and burn
/// operations on a ledger that starts in sync with the token contract, the
/// persisted `total_shares` still equals the contract's reported minted
/// minus burned.
pub proof fn lemma_share_conservation(ledger: ReserveLedger, token: ShareToken, ops: Seq<ShareOp>)
    requires
        shares_in_sync(ledger, token),
        share_ops_allowed(ledger, token, ops),
    ensures
        shares_in_sync(run_share_ops(ledger, token, ops).0, run_share_ops(ledger, token, ops).1),
    decreases ops.len(),
{
    if ops.len() > 0 {
        let stepped = apply_share_op(ledger, token, ops[0]);
        lemma_share_conservation(stepped.0, stepped.1, ops.drop_first());
    }
}

/// Mints `amount` new pool shares to `to`: the token contract mints, and the
/// persisted total rises by the same amount. On a ledger whose total-shares
/// cell was never initialized the operation fails and changes nothing; it
/// never silently starts from zero. The recipient is forwarded to the token
/// contract by the host layer; the core records only the supply effect.
#[allow(unused_variables)]
pub fn mint_shares(
    ledger: &mut ReserveLedger,
    share_token: &mut ShareToken,
    to: Address,
    amount: i128,
) -> (r: Result<(), ContractError>)
    requires
        0 <= amount,
        old(ledger).total_shares is Some ==> old(ledger).total_shares->Some_0 + amount
            <= i128::MAX,
        old(share_token).minted + amount <= i128::MAX,
    ensures
        old(ledger).total_shares is None ==> r == Err::<(), ContractError>(
            ContractError::FailedToLoadFromStorage,
        ) && *final(ledger) == *old(ledger) && *final(share_token) == *old(share_token),
        old(ledger).total_shares is Some ==> r == Ok::<(), ContractError>(()) && *final(ledger)
            == (ReserveLedger {
            total_shares: Some((old(ledger).total_shares->Some_0 + amount) as i128),
            ..*old(ledger)
        }) && *final(share_token) == (ShareToken {
            minted: (old(share_token).minted + amount) as i128,
            ..*old(share_token)
        }),
        shares_in_sync(*old(ledger), *old(share_token)) ==> shares_in_sync(
            *final(ledger),
            *final(share_token),
        ),
        (*final(ledger), *final(share_token)) == apply_share_op(
            *old(ledger),
            *old(share_token),
            (ShareOp::Mint { amount }),
        ),
{
    let total = match ledger.total_shares {
        Some(total) => total,
        None => {
            return Err(ContractError::FailedToLoadFromStorage);
        },
    };
    share_token.minted = share_token.minted + amount;
    ledger.total_shares = Some(total + amount);
    Ok(())
}

/// Burns `amount` pool shares from the pool's own holding: the token
/// contract burns, and the persisted total falls by the same amount. A burn
/// larger than the recorded total is a precondition violation, not a
/// recoverable error: callers size burns against their recorded balance
/// first. On an uninitialized total-shares cell the operation fails and
/// changes nothing.
pub fn burn_shares(
    ledger: &mut ReserveLedger,
    share_token: &mut ShareToken,
    amount: i128,
) -> (r: Result<(), ContractError>)
    requires
        0 <= amount,
        old(ledger).total_shares is Some ==> amount <= old(ledger).total_shares->Some_0,
        old(share_token).burned + amount <= i128::MAX,
    ensures
        old(ledger).total_shares is None ==> r == Err::<(), ContractError>(
            ContractError::FailedToLoadFromStorage,
        ) && *final(ledger) == *old(ledger) && *final(share_token) == *old(share_token),
        old(ledger).total_shares is Some ==> r == Ok::<(), ContractError>(()) && *final(ledger)
            == (ReserveLedger {
            total_shares: Some((old(ledger).total_shares->Some_0 - amount) as i128),
            ..*old(ledger)
        }) && *final(share_token) == (ShareToken {
            burned: (old(share_token).burned + amount) as i128,
            ..*old(share_token)
        }),
        shares_in_sync(*old(ledger), *old(share_token)) ==> shares_in_sync(
            *final(ledger),
            *final(share_token),
        ),
        (*final(ledger), *final(share_token)) == apply_share_op(
            *old(ledger),
            *old(share_token),
            (ShareOp::Burn { amount }),
        ),
{
    let total = match ledger.total_shares {
        Some(total) => total,
        None => {
            return Err(ContractError::FailedToLoadFromStorage);
        },
    };
    share_token.burned = share_token.burned + amount;
    ledger.total_shares = Some(total - amount);
    Ok(())
}

} // verus!
