//! How a contract invocation fails.
use vstd::prelude::*;

verus! {

/// The typed errors with which the contract fails an invocation.
#[derive(Clone, Copy, Debug, PartialEq, Eq, Structural)]
pub enum ContractError {
    AlreadyInitialized,
    UnauthorizedCaller,
    InvalidAmount,
    DuplicateVouch,
    MinStakeNotMet,
    ActiveLoanExists,
    NoActiveLoan,
    ContractPaused,
}

/// Why an invocation is aborted; every abort rolls back all of its effects.
#[derive(Clone, Copy, Debug, PartialEq, Eq, Structural)]
pub enum Failure {
    /// The invocation fails with a typed contract error.
    Error(ContractError),
    /// "already initialized"
    AlreadyInitialized,
    /// "not initialized"
    NotInitialized,
    /// "insufficient trust stake"
    InsufficientTrustStake,
    /// "no active loan"
    NoActiveLoan,
    /// "loan already defaulted"
    LoanAlreadyDefaulted,
    /// "loan already repaid"
    LoanAlreadyRepaid,
    /// "already defaulted"
    AlreadyDefaulted,
    /// "loan already active"
    LoanAlreadyActive,
    /// "vouch not found"
    VouchNotFound,
    /// "voucher cannot vouch for self"
    SelfVouch,
    /// "address is not an admin"
    NotAnAdmin,
    /// "old admin not found"
    OldAdminNotFound,
    /// "invalid admin config"
    InvalidAdminConfig,
    /// "invalid token"
    InvalidToken,
    /// "token not in allowed list"
    TokenNotAllowed,
    /// "amount must be greater than zero"
    AmountNotPositive,
    /// "insufficient slash treasury balance"
    InsufficientSlashTreasury,
    /// "borrowers and stakes length mismatch"
    BatchLengthMismatch,
    /// "batch cannot be empty"
    EmptyBatch,
    /// "decrease amount must be greater than zero"
    DecreaseNotPositive,
    /// "decrease amount exceeds staked amount"
    DecreaseExceedsStake,
    /// An integer operation overflowed.
    ArithmeticOverflow,
}

} // verus!
