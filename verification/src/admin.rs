//! Admin operations of the multi-admin protocol.  Every state change needs the
//! approval of enough distinct admins (see `helpers::require_admin_approval`).
use vstd::prelude::*;
use crate::addresses::{contains_address, find_address, first_position, lists};
use crate::errors::{ContractError, Failure};
use crate::helpers::{
    admin_config_valid, approval, config, require_admin_approval, token, validate_admin_config,
};
use crate::transfers::{follows, follows_unit, Outcome, TokenTransfer};
use crate::types::{
    Config, ConfigModel, ContractStorage, StorageModel, DEFAULT_MAX_VOUCHERS_PER_BORROWER,
};

verus! {

/// The outcome of an admin operation: what `approval` refuses, else `then`.
pub open spec fn gated(m: StorageModel, signers: Seq<String>, then: Result<StorageModel, Failure>) -> Result<
    StorageModel,
    Failure,
> {
    match approval(m, signers) {
        Err(f) => Err(f),
        Ok(_) => then,
    }
}

/// The stored configuration (meaningful once `approval` has passed).
pub open spec fn cfg_of(m: StorageModel) -> ConfigModel {
    m.config->Some_0
}

/// The storage with its configuration replaced.
pub open spec fn with_config(m: StorageModel, cfg: ConfigModel) -> StorageModel {
    StorageModel { config: Some(cfg), ..m }
}

/// A refusal with a typed contract error.
pub open spec fn refuse(e: ContractError) -> Result<StorageModel, Failure> {
    Err(Failure::Error(e))
}

pub open spec fn add_admin_outcome(m: StorageModel, signers: Seq<String>, new_admin: String) -> Result<
    StorageModel,
    Failure,
> {
    let cfg = cfg_of(m);
    gated(
        m,
        signers,
        if lists(cfg.admins, new_admin@) {
            refuse(ContractError::AlreadyInitialized)
        } else {
            Ok(with_config(m, ConfigModel { admins: cfg.admins.push(new_admin), ..cfg }))
        },
    )
}

pub open spec fn remove_admin_outcome(m: StorageModel, signers: Seq<String>, admin: String) -> Result<
    StorageModel,
    Failure,
> {
    let cfg = cfg_of(m);
    gated(
        m,
        signers,
        if lists(signers, admin@) {
            refuse(ContractError::UnauthorizedCaller)
        } else {
            match first_position(cfg.admins, admin@) {
                None => Err(Failure::NotAnAdmin),
                Some(i) => {
                    let rest = cfg.admins.remove(i);
                    if rest.len() == 0 {
                        refuse(ContractError::UnauthorizedCaller)
                    } else if cfg.admin_threshold > rest.len() {
                        refuse(ContractError::InvalidAmount)
                    } else {
                        Ok(with_config(m, ConfigModel { admins: rest, ..cfg }))
                    }
                },
            }
        },
    )
}

pub open spec fn rotate_admin_outcome(
    m: StorageModel,
    signers: Seq<String>,
    old_admin: String,
    new_admin: String,
) -> Result<StorageModel, Failure> {
    let cfg = cfg_of(m);
    gated(
        m,
        signers,
        if old_admin@ == new_admin@ {
            refuse(ContractError::InvalidAmount)
        } else if lists(cfg.admins, new_admin@) {
            refuse(ContractError::AlreadyInitialized)
        } else {
            match first_position(cfg.admins, old_admin@) {
                None => Err(Failure::OldAdminNotFound),
                Some(i) => Ok(
                    with_config(m, ConfigModel { admins: cfg.admins.update(i, new_admin), ..cfg }),
                ),
            }
        },
    )
}

pub open spec fn set_admin_threshold_outcome(m: StorageModel, signers: Seq<String>, threshold: u32) -> Result<
    StorageModel,
    Failure,
> {
    let cfg = cfg_of(m);
    gated(
        m,
        signers,
        if threshold == 0 || threshold > cfg.admins.len() {
            refuse(ContractError::InvalidAmount)
        } else {
            Ok(with_config(m, ConfigModel { admin_threshold: threshold, ..cfg }))
        },
    )
}

pub open spec fn set_protocol_fee_outcome(m: StorageModel, signers: Seq<String>, fee_bps: u32) -> Result<
    StorageModel,
    Failure,
> {
    gated(
        m,
        signers,
        if fee_bps > 10_000 {
            refuse(ContractError::InvalidAmount)
        } else {
            Ok(StorageModel { protocol_fee_bps: Some(fee_bps), ..m })
        },
    )
}

/// Whether `c` passes the checks of `set_config`, each with its refusal.
pub open spec fn config_check(c: ConfigModel) -> Result<(), Failure> {
    if !admin_config_valid(c.admins, c.admin_threshold) {
        Err(Failure::InvalidAdminConfig)
    } else if c.yield_bps < 0 || c.slash_bps <= 0 || c.slash_bps > 10_000 || c.max_vouchers == 0
        || c.min_loan_amount <= 0 || c.loan_duration == 0 || c.max_loan_to_stake_ratio == 0 {
        Err(Failure::Error(ContractError::InvalidAmount))
    } else {
        Ok(())
    }
}

pub open spec fn set_config_outcome(m: StorageModel, signers: Seq<String>, c: ConfigModel) -> Result<
    StorageModel,
    Failure,
> {
    gated(
        m,
        signers,
        match config_check(c) {
            Err(f) => Err(f),
            Ok(_) => Ok(with_config(m, c)),
        },
    )
}

pub open spec fn update_config_outcome(
    m: StorageModel,
    signers: Seq<String>,
    yield_bps: Option<i128>,
    slash_bps: Option<i128>,
) -> Result<StorageModel, Failure> {
    let cfg = cfg_of(m);
    gated(
        m,
        signers,
        if yield_bps matches Some(y) && y < 0 {
            refuse(ContractError::InvalidAmount)
        } else if slash_bps matches Some(s) && (s <= 0 || s > 10_000) {
            refuse(ContractError::InvalidAmount)
        } else {
            Ok(
                with_config(
                    m,
                    ConfigModel {
                        yield_bps: match yield_bps {
                            Some(y) => y,
                            None => cfg.yield_bps,
                        },
                        slash_bps: match slash_bps {
                            Some(s) => s,
                            None => cfg.slash_bps,
                        },
                        ..cfg
                    },
                ),
            )
        },
    )
}

pub open spec fn set_max_loan_to_stake_ratio_outcome(m: StorageModel, signers: Seq<String>, ratio: u32) -> Result<
    StorageModel,
    Failure,
> {
    let cfg = cfg_of(m);
    gated(
        m,
        signers,
        if ratio == 0 {
            refuse(ContractError::InvalidAmount)
        } else {
            Ok(with_config(m, ConfigModel { max_loan_to_stake_ratio: ratio, ..cfg }))
        },
    )
}

/// The outcome of `add_allowed_token`, given whether `token` implements the
/// token interface (which only a call to it can tell).
pub open spec fn add_allowed_token_outcome(
    m: StorageModel,
    signers: Seq<String>,
    token: String,
    token_is_valid: bool,
) -> Result<StorageModel, Failure> {
    let cfg = cfg_of(m);
    gated(
        m,
        signers,
        if !token_is_valid {
            Err(Failure::InvalidToken)
        } else if lists(cfg.allowed_tokens, token@) || token@ == cfg.token@ {
            refuse(ContractError::DuplicateVouch)
        } else {
            Ok(with_config(m, ConfigModel { allowed_tokens: cfg.allowed_tokens.push(token), ..cfg }))
        },
    )
}

pub open spec fn remove_allowed_token_outcome(m: StorageModel, signers: Seq<String>, token: String) -> Result<
    StorageModel,
    Failure,
> {
    let cfg = cfg_of(m);
    gated(
        m,
        signers,
        match first_position(cfg.allowed_tokens, token@) {
            None => Err(Failure::TokenNotAllowed),
            Some(i) => Ok(
                with_config(m, ConfigModel { allowed_tokens: cfg.allowed_tokens.remove(i), ..cfg }),
            ),
        },
    )
}

/// The outcome of `withdraw_slash_treasury`: `amount` leaves the slash
/// treasury and is paid to `recipient`.
pub open spec fn withdraw_slash_treasury_outcome(
    m: StorageModel,
    signers: Seq<String>,
    recipient: String,
    amount: i128,
) -> Outcome<StorageModel> {
    let balance = match m.slash_treasury {
        Some(b) => b,
        None => 0,
    };
    match approval(m, signers) {
        Err(f) => Err(f),
        Ok(_) => if amount <= 0 {
            Err(Failure::AmountNotPositive)
        } else if balance < amount {
            Err(Failure::InsufficientSlashTreasury)
        } else {
            Ok(
                (
                    StorageModel { slash_treasury: Some((balance - amount) as i128), ..m },
                    seq![TokenTransfer::Payout { to: recipient, amount }],
                ),
            )
        },
    }
}

/// The configuration, copied out of storage.
fn current_config(storage: &ContractStorage) -> (r: Result<Config, Failure>)
    ensures
        match r {
            Ok(c) => storage@.config == Some(c@),
            Err(f) => storage@.config is None && f == Failure::NotInitialized,
        },
{
    Ok(config(storage)?.copy())
}

pub fn add_admin(storage: &mut ContractStorage, admin_signers: Vec<String>, new_admin: String) -> (r:
    Result<(), Failure>)
    ensures
        follows_unit(r, old(storage)@, final(storage)@, add_admin_outcome(old(storage)@, admin_signers@, new_admin)),
{
    require_admin_approval(storage, &admin_signers)?;
    let mut cfg = current_config(storage)?;
    if contains_address(&cfg.admins, &new_admin) {
        return Err(Failure::Error(ContractError::AlreadyInitialized));
    }
    cfg.admins.push(new_admin);
    storage.config = Some(cfg);
    Ok(())
}

pub fn remove_admin(storage: &mut ContractStorage, admin_signers: Vec<String>, admin_to_remove: String) -> (r:
    Result<(), Failure>)
    ensures
        follows_unit(
            r,
            old(storage)@,
            final(storage)@,
            remove_admin_outcome(old(storage)@, admin_signers@, admin_to_remove),
        ),
        // the new admin list is the old one with the removed admin's entry taken out
        r is Ok ==> (old(storage)@.config matches Some(c) && (final(storage)@.config matches Some(c2)
            && (first_position(c.admins, admin_to_remove@) matches Some(i) && c2.admins
            == c.admins.remove(i)))),
{
    require_admin_approval(storage, &admin_signers)?;
    // An admin who signs cannot be removed by the same call.
    if contains_address(&admin_signers, &admin_to_remove) {
        return Err(Failure::Error(ContractError::UnauthorizedCaller));
    }
    let mut cfg = current_config(storage)?;
    let idx = match find_address(&cfg.admins, &admin_to_remove) {
        Some(i) => i,
        None => {
            return Err(Failure::NotAnAdmin);
        },
    };
    cfg.admins.remove(idx);
    if cfg.admins.len() == 0 {
        return Err(Failure::Error(ContractError::UnauthorizedCaller));
    }
    if cfg.admin_threshold as usize > cfg.admins.len() {
        return Err(Failure::Error(ContractError::InvalidAmount));
    }
    storage.config = Some(cfg);
    Ok(())
}

pub fn rotate_admin(
    storage: &mut ContractStorage,
    admin_signers: Vec<String>,
    old_admin: String,
    new_admin: String,
) -> (r: Result<(), Failure>)
    ensures
        follows_unit(
            r,
            old(storage)@,
            final(storage)@,
            rotate_admin_outcome(old(storage)@, admin_signers@, old_admin, new_admin),
        ),
{
    require_admin_approval(storage, &admin_signers)?;
    if old_admin == new_admin {
        return Err(Failure::Error(ContractError::InvalidAmount));
    }
    let mut cfg = current_config(storage)?;
    if contains_address(&cfg.admins, &new_admin) {
        return Err(Failure::Error(ContractError::AlreadyInitialized));
    }
    let idx = match find_address(&cfg.admins, &old_admin) {
        Some(i) => i,
        None => {
            return Err(Failure::OldAdminNotFound);
        },
    };
    cfg.admins.set(idx, new_admin);
    storage.config = Some(cfg);
    Ok(())
}

pub fn set_admin_threshold(storage: &mut ContractStorage, admin_signers: Vec<String>, new_threshold: u32) -> (r:
    Result<(), Failure>)
    ensures
        follows_unit(
            r,
            old(storage)@,
            final(storage)@,
            set_admin_threshold_outcome(old(storage)@, admin_signers@, new_threshold),
        ),
{
    require_admin_approval(storage, &admin_signers)?;
    let mut cfg = current_config(storage)?;
    if new_threshold == 0 {
        return Err(Failure::Error(ContractError::InvalidAmount));
    }
    if new_threshold as usize > cfg.admins.len() {
        return Err(Failure::Error(ContractError::InvalidAmount));
    }
    cfg.admin_threshold = new_threshold;
    storage.config = Some(cfg);
    Ok(())
}

pub fn set_protocol_fee(storage: &mut ContractStorage, admin_signers: Vec<String>, fee_bps: u32) -> (r:
    Result<(), Failure>)
    ensures
        follows_unit(
            r,
            old(storage)@,
            final(storage)@,
            set_protocol_fee_outcome(old(storage)@, admin_signers@, fee_bps),
        ),
{
    require_admin_approval(storage, &admin_signers)?;
    if fee_bps > 10_000 {
        return Err(Failure::Error(ContractError::InvalidAmount));
    }
    storage.protocol_fee_bps = Some(fee_bps);
    Ok(())
}

pub fn whitelist_voucher(storage: &mut ContractStorage, admin_signers: Vec<String>, voucher: String) -> (r:
    Result<(), Failure>)
    ensures
        follows_unit(
            r,
            old(storage)@,
            final(storage)@,
            gated(
                old(storage)@,
                admin_signers@,
                Ok(
                    StorageModel {
                        voucher_whitelist: old(storage)@.voucher_whitelist.insert(voucher@, true),
                        ..old(storage)@
                    },
                ),
            ),
        ),
{
    require_admin_approval(storage, &admin_signers)?;
    storage.voucher_whitelist.insert(voucher, true);
    Ok(())
}

pub fn set_whitelist_enabled(storage: &mut ContractStorage, admin_signers: Vec<String>, enabled: bool) -> (r:
    Result<(), Failure>)
    ensures
        follows_unit(
            r,
            old(storage)@,
            final(storage)@,
            gated(
                old(storage)@,
                admin_signers@,
                Ok(StorageModel { whitelist_enabled: Some(enabled), ..old(storage)@ }),
            ),
        ),
{
    require_admin_approval(storage, &admin_signers)?;
    storage.whitelist_enabled = Some(enabled);
    Ok(())
}

pub fn set_fee_treasury(storage: &mut ContractStorage, admin_signers: Vec<String>, treasury: String) -> (r:
    Result<(), Failure>)
    ensures
        follows_unit(
            r,
            old(storage)@,
            final(storage)@,
            gated(
                old(storage)@,
                admin_signers@,
                Ok(StorageModel { fee_treasury: Some(treasury), ..old(storage)@ }),
            ),
        ),
{
    require_admin_approval(storage, &admin_signers)?;
    storage.fee_treasury = Some(treasury);
    Ok(())
}

/// Approves replacing the contract's code with the code of `new_wasm_hash`;
/// the replacement itself is made where the call arrives.
pub fn upgrade(storage: &ContractStorage, admin_signers: Vec<String>, new_wasm_hash: Vec<u8>) -> (r: Result<
    (),
    Failure,
>)
    ensures
        r == approval(storage@, admin_signers@),
{
    require_admin_approval(storage, &admin_signers)
}

pub fn pause(storage: &mut ContractStorage, admin_signers: Vec<String>) -> (r: Result<(), Failure>)
    ensures
        follows_unit(
            r,
            old(storage)@,
            final(storage)@,
            gated(old(storage)@, admin_signers@, Ok(StorageModel { paused: Some(true), ..old(storage)@ })),
        ),
{
    require_admin_approval(storage, &admin_signers)?;
    storage.paused = Some(true);
    Ok(())
}

pub fn unpause(storage: &mut ContractStorage, admin_signers: Vec<String>) -> (r: Result<(), Failure>)
    ensures
        follows_unit(
            r,
            old(storage)@,
            final(storage)@,
            gated(old(storage)@, admin_signers@, Ok(StorageModel { paused: Some(false), ..old(storage)@ })),
        ),
{
    require_admin_approval(storage, &admin_signers)?;
    storage.paused = Some(false);
    Ok(())
}

pub fn blacklist(storage: &mut ContractStorage, admin_signers: Vec<String>, borrower: String) -> (r:
    Result<(), Failure>)
    ensures
        follows_unit(
            r,
            old(storage)@,
            final(storage)@,
            gated(
                old(storage)@,
                admin_signers@,
                Ok(
                    StorageModel {
                        blacklisted: old(storage)@.blacklisted.insert(borrower@, true),
                        ..old(storage)@
                    },
                ),
            ),
        ),
{
    require_admin_approval(storage, &admin_signers)?;
    storage.blacklisted.insert(borrower, true);
    Ok(())
}

pub fn set_config(storage: &mut ContractStorage, admin_signers: Vec<String>, config: Config) -> (r: Result<
    (),
    Failure,
>)
    ensures
        follows_unit(r, old(storage)@, final(storage)@, set_config_outcome(old(storage)@, admin_signers@, config@)),
{
    require_admin_approval(storage, &admin_signers)?;
    if validate_admin_config(&config.admins, config.admin_threshold).is_err() {
        return Err(Failure::InvalidAdminConfig);
    }
    if config.yield_bps < 0 {
        return Err(Failure::Error(ContractError::InvalidAmount));
    }
    if config.slash_bps <= 0 || config.slash_bps > 10_000 {
        return Err(Failure::Error(ContractError::InvalidAmount));
    }
    if config.max_vouchers == 0 {
        return Err(Failure::Error(ContractError::InvalidAmount));
    }
    if config.min_loan_amount <= 0 {
        return Err(Failure::Error(ContractError::InvalidAmount));
    }
    if config.loan_duration == 0 {
        return Err(Failure::Error(ContractError::InvalidAmount));
    }
    if config.max_loan_to_stake_ratio == 0 {
        return Err(Failure::Error(ContractError::InvalidAmount));
    }
    storage.config = Some(config);
    Ok(())
}

pub fn update_config(
    storage: &mut ContractStorage,
    admin_signers: Vec<String>,
    yield_bps: Option<i128>,
    slash_bps: Option<i128>,
) -> (r: Result<(), Failure>)
    ensures
        follows_unit(
            r,
            old(storage)@,
            final(storage)@,
            update_config_outcome(old(storage)@, admin_signers@, yield_bps, slash_bps),
        ),
        // given values are stored, absent ones keep the stored value
        r is Ok ==> (old(storage)@.config matches Some(c) && (final(storage)@.config matches Some(c2)
            && c2.yield_bps == (match yield_bps {
            Some(y) => y,
            None => c.yield_bps,
        }) && c2.slash_bps == (match slash_bps {
            Some(s) => s,
            None => c.slash_bps,
        }) && c2.admins == c.admins && c2.admin_threshold == c.admin_threshold)),
{
    require_admin_approval(storage, &admin_signers)?;
    let mut cfg = current_config(storage)?;
    if let Some(new_yield_bps) = yield_bps {
        if new_yield_bps < 0 {
            return Err(Failure::Error(ContractError::InvalidAmount));
        }
        cfg.yield_bps = new_yield_bps;
    }
    if let Some(new_slash_bps) = slash_bps {
        if new_slash_bps <= 0 || new_slash_bps > 10_000 {
            return Err(Failure::Error(ContractError::InvalidAmount));
        }
        cfg.slash_bps = new_slash_bps;
    }
    storage.config = Some(cfg);
    Ok(())
}

pub fn set_reputation_nft(storage: &mut ContractStorage, admin_signers: Vec<String>, nft_contract: String) -> (r:
    Result<(), Failure>)
    ensures
        follows_unit(
            r,
            old(storage)@,
            final(storage)@,
            gated(
                old(storage)@,
                admin_signers@,
                Ok(StorageModel { reputation_nft: Some(nft_contract), ..old(storage)@ }),
            ),
        ),
{
    require_admin_approval(storage, &admin_signers)?;
    storage.reputation_nft = Some(nft_contract);
    Ok(())
}

/// Set the minimum allowed vouch stake, in stroops (0 disables the minimum check).
pub fn set_min_stake(storage: &mut ContractStorage, admin_signers: Vec<String>, amount: i128) -> (r: Result<
    (),
    Failure,
>)
    ensures
        follows_unit(
            r,
            old(storage)@,
            final(storage)@,
            gated(
                old(storage)@,
                admin_signers@,
                if amount < 0 {
                    refuse(ContractError::InvalidAmount)
                } else {
                    Ok(StorageModel { min_stake: Some(amount), ..old(storage)@ })
                },
            ),
        ),
{
    require_admin_approval(storage, &admin_signers)?;
    if amount < 0 {
        return Err(Failure::Error(ContractError::InvalidAmount));
    }
    storage.min_stake = Some(amount);
    Ok(())
}

/// Set the maximum loan amount allowed per loan request, in stroops (0 = no cap enforced).
pub fn set_max_loan_amount(storage: &mut ContractStorage, admin_signers: Vec<String>, amount: i128) -> (r:
    Result<(), Failure>)
    ensures
        follows_unit(
            r,
            old(storage)@,
            final(storage)@,
            gated(
                old(storage)@,
                admin_signers@,
                if amount < 0 {
                    refuse(ContractError::InvalidAmount)
                } else {
                    Ok(StorageModel { max_loan_amount: Some(amount), ..old(storage)@ })
                },
            ),
        ),
{
    require_admin_approval(storage, &admin_signers)?;
    if amount < 0 {
        return Err(Failure::Error(ContractError::InvalidAmount));
    }
    storage.max_loan_amount = Some(amount);
    Ok(())
}

pub fn set_min_vouchers(storage: &mut ContractStorage, admin_signers: Vec<String>, count: u32) -> (r: Result<
    (),
    Failure,
>)
    ensures
        follows_unit(
            r,
            old(storage)@,
            final(storage)@,
            gated(old(storage)@, admin_signers@, Ok(StorageModel { min_vouchers: Some(count), ..old(storage)@ })),
        ),
{
    require_admin_approval(storage, &admin_signers)?;
    storage.min_vouchers = Some(count);
    Ok(())
}

pub fn set_max_loan_to_stake_ratio(storage: &mut ContractStorage, admin_signers: Vec<String>, ratio: u32) -> (r:
    Result<(), Failure>)
    ensures
        follows_unit(
            r,
            old(storage)@,
            final(storage)@,
            set_max_loan_to_stake_ratio_outcome(old(storage)@, admin_signers@, ratio),
        ),
{
    require_admin_approval(storage, &admin_signers)?;
    if ratio == 0 {
        return Err(Failure::Error(ContractError::InvalidAmount));
    }
    let mut cfg = current_config(storage)?;
    cfg.max_loan_to_stake_ratio = ratio;
    storage.config = Some(cfg);
    Ok(())
}

pub fn get_protocol_fee(storage: &ContractStorage) -> (r: u32)
    ensures
        r == match storage@.protocol_fee_bps {
            Some(v) => v,
            None => 0,
        },
{
    match storage.protocol_fee_bps {
        Some(v) => v,
        None => 0,
    }
}

pub fn get_fee_treasury(storage: &ContractStorage) -> (r: Option<String>)
    ensures
        r == storage@.fee_treasury,
{
    match &storage.fee_treasury {
        Some(t) => Some(t.clone()),
        None => None,
    }
}

pub fn is_blacklisted(storage: &ContractStorage, borrower: &String) -> (r: bool)
    ensures
        r == (storage@.blacklisted.contains_key(borrower@) && storage@.blacklisted[borrower@]),
{
    match storage.blacklisted.get(borrower) {
        Some(b) => *b,
        None => false,
    }
}

pub fn get_min_stake(storage: &ContractStorage) -> (r: i128)
    ensures
        r == match storage@.min_stake {
            Some(v) => v,
            None => 0,
        },
{
    match storage.min_stake {
        Some(v) => v,
        None => 0,
    }
}

pub fn get_max_loan_amount(storage: &ContractStorage) -> (r: i128)
    ensures
        r == match storage@.max_loan_amount {
            Some(v) => v,
            None => 0,
        },
{
    match storage.max_loan_amount {
        Some(v) => v,
        None => 0,
    }
}

pub fn get_min_vouchers(storage: &ContractStorage) -> (r: u32)
    ensures
        r == match storage@.min_vouchers {
            Some(v) => v,
            None => 0,
        },
{
    match storage.min_vouchers {
        Some(v) => v,
        None => 0,
    }
}

pub fn get_max_loan_to_stake_ratio(storage: &ContractStorage) -> (r: Result<u32, Failure>)
    ensures
        r == match storage@.config {
            Some(c) => Ok::<u32, Failure>(c.max_loan_to_stake_ratio),
            None => Err(Failure::NotInitialized),
        },
{
    Ok(config(storage)?.max_loan_to_stake_ratio)
}

pub fn get_config(storage: &ContractStorage) -> (r: Result<Config, Failure>)
    ensures
        match r {
            Ok(c) => storage@.config == Some(c@),
            Err(f) => storage@.config is None && f == Failure::NotInitialized,
        },
{
    current_config(storage)
}

pub fn add_allowed_token(
    storage: &mut ContractStorage,
    admin_signers: Vec<String>,
    token: String,
    token_is_valid: bool,
) -> (r: Result<(), Failure>)
    ensures
        follows_unit(
            r,
            old(storage)@,
            final(storage)@,
            add_allowed_token_outcome(old(storage)@, admin_signers@, token, token_is_valid),
        ),
{
    require_admin_approval(storage, &admin_signers)?;
    if !token_is_valid {
        return Err(Failure::InvalidToken);
    }
    let mut cfg = current_config(storage)?;
    if contains_address(&cfg.allowed_tokens, &token) || token == cfg.token {
        return Err(Failure::Error(ContractError::DuplicateVouch));
    }
    cfg.allowed_tokens.push(token);
    storage.config = Some(cfg);
    Ok(())
}

pub fn remove_allowed_token(storage: &mut ContractStorage, admin_signers: Vec<String>, token: String) -> (r:
    Result<(), Failure>)
    ensures
        follows_unit(
            r,
            old(storage)@,
            final(storage)@,
            remove_allowed_token_outcome(old(storage)@, admin_signers@, token),
        ),
{
    require_admin_approval(storage, &admin_signers)?;
    let mut cfg = current_config(storage)?;
    let idx = match find_address(&cfg.allowed_tokens, &token) {
        Some(i) => i,
        None => {
            return Err(Failure::TokenNotAllowed);
        },
    };
    cfg.allowed_tokens.remove(idx);
    storage.config = Some(cfg);
    Ok(())
}

pub fn get_admins(storage: &ContractStorage) -> (r: Vec<String>)
    ensures
        r@ == match storage@.config {
            Some(cfg) => cfg.admins,
            None => Seq::empty(),
        },
{
    crate::helpers::get_admins(storage)
}

pub fn get_admin_threshold(storage: &ContractStorage) -> (r: Result<u32, Failure>)
    ensures
        r == match storage@.config {
            Some(c) => Ok::<u32, Failure>(c.admin_threshold),
            None => Err(Failure::NotInitialized),
        },
{
    Ok(config(storage)?.admin_threshold)
}

pub fn is_whitelisted(storage: &ContractStorage, voucher: &String) -> (r: bool)
    ensures
        r == (storage@.voucher_whitelist.contains_key(voucher@) && storage@.voucher_whitelist[voucher@]),
{
    match storage.voucher_whitelist.get(voucher) {
        Some(b) => *b,
        None => false,
    }
}

pub fn is_whitelist_enabled(storage: &ContractStorage) -> (r: bool)
    ensures
        r == (storage@.whitelist_enabled == Some(true)),
{
    match storage.whitelist_enabled {
        Some(b) => b,
        None => false,
    }
}

pub fn set_max_vouchers_per_borrower(
    storage: &mut ContractStorage,
    admin_signers: Vec<String>,
    max_vouchers: u32,
) -> (r: Result<(), Failure>)
    ensures
        follows_unit(
            r,
            old(storage)@,
            final(storage)@,
            gated(
                old(storage)@,
                admin_signers@,
                if max_vouchers == 0 {
                    refuse(ContractError::InvalidAmount)
                } else {
                    Ok(StorageModel { max_vouchers_per_borrower: Some(max_vouchers), ..old(storage)@ })
                },
            ),
        ),
{
    require_admin_approval(storage, &admin_signers)?;
    if max_vouchers == 0 {
        return Err(Failure::Error(ContractError::InvalidAmount));
    }
    storage.max_vouchers_per_borrower = Some(max_vouchers);
    Ok(())
}

pub fn get_max_vouchers_per_borrower(storage: &ContractStorage) -> (r: u32)
    ensures
        r == match storage@.max_vouchers_per_borrower {
            Some(v) => v,
            None => DEFAULT_MAX_VOUCHERS_PER_BORROWER,
        },
{
    match storage.max_vouchers_per_borrower {
        Some(v) => v,
        None => DEFAULT_MAX_VOUCHERS_PER_BORROWER,
    }
}

pub fn withdraw_slash_treasury(
    storage: &mut ContractStorage,
    admin_signers: Vec<String>,
    recipient: String,
    amount: i128,
) -> (r: Result<Vec<TokenTransfer>, Failure>)
    ensures
        follows(
            r,
            old(storage)@,
            final(storage)@,
            withdraw_slash_treasury_outcome(old(storage)@, admin_signers@, recipient, amount),
        ),
{
    require_admin_approval(storage, &admin_signers)?;
    if amount <= 0 {
        return Err(Failure::AmountNotPositive);
    }
    let balance: i128 = match storage.slash_treasury {
        Some(b) => b,
        None => 0,
    };
    if balance < amount {
        return Err(Failure::InsufficientSlashTreasury);
    }
    let _token = token(storage)?;
    storage.slash_treasury = Some(balance - amount);
    let mut transfers = Vec::new();
    transfers.push(TokenTransfer::Payout { to: recipient, amount });
    proof {
        assert(transfers@ =~= seq![TokenTransfer::Payout { to: recipient, amount }]);
    }
    Ok(transfers)
}

} // verus!
