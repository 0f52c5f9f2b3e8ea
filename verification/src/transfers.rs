//! Token movements that an invocation asks for, in the contract's token.
use vstd::prelude::*;
use crate::errors::Failure;

verus! {

/// One transfer of the contract's token, to or from the contract's own account.
#[derive(Debug, PartialEq, Eq)]
pub enum TokenTransfer {
    /// `amount` moves from `from` into the contract.
    Deposit { from: String, amount: i128 },
    /// `amount` moves from the contract to `to`.
    Payout { to: String, amount: i128 },
}

/// What an invocation that moves tokens comes to: the state after it and the
/// transfers it makes, in order, or why it aborts.
pub type Outcome<M> = Result<(M, Seq<TokenTransfer>), Failure>;

/// An executed invocation agrees with its specified outcome: on success the
/// state and the transfers are the specified ones; on failure the reason is
/// the specified one and the state is left as it was.
pub open spec fn follows<M>(
    r: Result<Vec<TokenTransfer>, Failure>,
    before: M,
    after: M,
    spec: Outcome<M>,
) -> bool {
    match r {
        Ok(ts) => spec == Outcome::<M>::Ok((after, ts@)),
        Err(f) => spec == Outcome::<M>::Err(f) && after == before,
    }
}

/// A state-changing invocation without transfers agrees with its specified outcome.
pub open spec fn follows_unit<M>(
    r: Result<(), Failure>,
    before: M,
    after: M,
    spec: Result<M, Failure>,
) -> bool {
    match r {
        Ok(_) => spec == Result::<M, Failure>::Ok(after),
        Err(f) => spec == Result::<M, Failure>::Err(f) && after == before,
    }
}

} // verus!
