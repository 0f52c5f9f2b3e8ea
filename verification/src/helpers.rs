//! Checks and reads shared by the protocol's entry points.
use vstd::prelude::*;
use crate::addresses::{all_distinct, contains_address, distinct, lists};
use crate::errors::{ContractError, Failure};
use crate::types::{Config, ConfigModel, ContractStorage, StorageModel};

verus! {

/// A list of admins with a threshold is usable: it is not empty, no admin
/// occurs twice, and the threshold is between one and the number of admins.
pub open spec fn admin_config_valid(admins: Seq<String>, threshold: u32) -> bool {
    &&& admins.len() > 0
    &&& distinct(admins)
    &&& 1 <= threshold <= admins.len()
}

/// `signers` approve an admin operation under `cfg`: they are distinct admins,
/// at least as many as the threshold asks for.
pub open spec fn approves(cfg: ConfigModel, signers: Seq<String>) -> bool {
    &&& signers.len() >= cfg.admin_threshold
    &&& distinct(signers)
    &&& forall|i: int| 0 <= i < signers.len() ==> lists(cfg.admins, (#[trigger] signers[i])@)
}

/// Whether the storage lets `signers` perform an admin operation: `Ok` when it
/// holds a configuration under which they approve.
pub open spec fn approval(m: StorageModel, signers: Seq<String>) -> Result<(), Failure> {
    match m.config {
        None => Err(Failure::NotInitialized),
        Some(cfg) => if approves(cfg, signers) {
            Ok(())
        } else {
            Err(Failure::Error(ContractError::UnauthorizedCaller))
        },
    }
}

/// Checks that `admins` with `threshold` form a usable admin configuration.
pub fn validate_admin_config(admins: &Vec<String>, threshold: u32) -> (r: Result<(), ContractError>)
    ensures
        r is Ok <==> admin_config_valid(admins@, threshold),
        r matches Err(e) ==> e == ContractError::InvalidAmount,
{
    if admins.len() == 0 || threshold == 0 || threshold as usize > admins.len() {
        return Err(ContractError::InvalidAmount);
    }
    if !all_distinct(admins) {
        return Err(ContractError::InvalidAmount);
    }
    Ok(())
}

/// The stored configuration; fails when there is none.
pub fn config(storage: &ContractStorage) -> (r: Result<&Config, Failure>)
    ensures
        match r {
            Ok(c) => storage@.config == Some(c@),
            Err(f) => storage@.config is None && f == Failure::NotInitialized,
        },
{
    match &storage.config {
        Some(c) => Ok(c),
        None => Err(Failure::NotInitialized),
    }
}

/// Checks that `signers` may perform an admin operation.  That each signer has
/// authorised the call is checked where the call arrives.
pub fn require_admin_approval(storage: &ContractStorage, signers: &Vec<String>) -> (r: Result<
    (),
    Failure,
>)
    ensures
        r == approval(storage@, signers@),
{
    let cfg = config(storage)?;
    if (signers.len() as u64) < (cfg.admin_threshold as u64) {
        return Err(Failure::Error(ContractError::UnauthorizedCaller));
    }
    if !all_distinct(signers) {
        return Err(Failure::Error(ContractError::UnauthorizedCaller));
    }
    let mut i: usize = 0;
    while i < signers.len()
        invariant
            i <= signers@.len(),
            storage@.config == Some(cfg@),
            forall|j: int| 0 <= j < i ==> lists(cfg@.admins, (#[trigger] signers@[j])@),
        decreases signers@.len() - i,
    {
        if !contains_address(&cfg.admins, &signers[i]) {
            return Err(Failure::Error(ContractError::UnauthorizedCaller));
        }
        i = i + 1;
    }
    Ok(())
}

/// The admins of the protocol; none when it holds no configuration.
pub fn get_admins(storage: &ContractStorage) -> (r: Vec<String>)
    ensures
        r@ == match storage@.config {
            Some(cfg) => cfg.admins,
            None => Seq::empty(),
        },
{
    match &storage.config {
        Some(c) => crate::addresses::copy_addresses(&c.admins),
        None => Vec::new(),
    }
}

/// The address of the protocol's token; fails when it holds no configuration.
pub fn token(storage: &ContractStorage) -> (r: Result<String, Failure>)
    ensures
        match r {
            Ok(t) => storage@.config matches Some(cfg) && t == cfg.token,
            Err(f) => storage@.config is None && f == Failure::NotInitialized,
        },
{
    match &storage.config {
        Some(c) => Ok(c.token.clone()),
        None => Err(Failure::NotInitialized),
    }
}

/// Fails with `ContractPaused` while the protocol is paused.
pub fn require_not_paused(storage: &ContractStorage) -> (r: Result<(), Failure>)
    ensures
        r == (if storage@.is_paused() {
            Err(Failure::Error(ContractError::ContractPaused))
        } else {
            Ok::<(), Failure>(())
        }),
{
    match storage.paused {
        Some(true) => Err(Failure::Error(ContractError::ContractPaused)),
        _ => Ok(()),
    }
}

/// Fails with `InvalidAmount` unless `amount` is positive.
pub fn require_positive_amount(amount: i128) -> (r: Result<(), Failure>)
    ensures
        r == (if amount > 0 {
            Ok::<(), Failure>(())
        } else {
            Err(Failure::Error(ContractError::InvalidAmount))
        }),
{
    if amount > 0 {
        Ok(())
    } else {
        Err(Failure::Error(ContractError::InvalidAmount))
    }
}

/// Whether `borrower` has a loan that is neither repaid nor defaulted.
pub fn has_active_loan(storage: &ContractStorage, borrower: &String) -> (b: bool)
    ensures
        b == storage@.has_active_loan(borrower@),
{
    match storage.loans.get(borrower) {
        Some(loan) => !loan.repaid && !loan.defaulted,
        None => false,
    }
}

} // verus!
