use quorum_credit::admin;
use quorum_credit::errors::{ContractError, Failure};
use quorum_credit::transfers::TokenTransfer;
use quorum_credit::types::{Config, ContractStorage, DEFAULT_MAX_VOUCHERS_PER_BORROWER};
use quorum_credit::vouch;
use quorum_credit::LoanRecord;

fn s(x: &str) -> String {
    x.to_string()
}

fn signers(xs: &[&str]) -> Vec<String> {
    xs.iter().map(|x| x.to_string()).collect()
}

fn config() -> Config {
    Config {
        admins: signers(&["A1", "A2", "A3"]),
        admin_threshold: 2,
        token: s("TOKEN"),
        allowed_tokens: Vec::new(),
        yield_bps: 200,
        slash_bps: 5000,
        max_vouchers: 10,
        min_loan_amount: 100,
        loan_duration: 1_000,
        max_loan_to_stake_ratio: 150,
    }
}

fn storage() -> ContractStorage {
    ContractStorage::new(Some(config()))
}

fn err(e: ContractError) -> Failure {
    Failure::Error(e)
}

// ── admin approval ───────────────────────────────────────────────────────────

#[test]
fn admin_operations_need_enough_distinct_admins() {
    let mut st = storage();
    assert_eq!(admin::pause(&mut st, signers(&["A1"])), Err(err(ContractError::UnauthorizedCaller)));
    assert_eq!(admin::pause(&mut st, signers(&["A1", "A1"])), Err(err(ContractError::UnauthorizedCaller)));
    assert_eq!(admin::pause(&mut st, signers(&["A1", "X"])), Err(err(ContractError::UnauthorizedCaller)));
    assert_eq!(st.paused, None);
    assert_eq!(admin::pause(&mut st, signers(&["A1", "A3"])), Ok(()));
    assert_eq!(st.paused, Some(true));
    assert_eq!(admin::unpause(&mut st, signers(&["A2", "A3", "A1"])), Ok(()));
    assert_eq!(st.paused, Some(false));
}

#[test]
fn admin_operations_need_a_configuration() {
    let mut st = storage();
    st.config = None;
    assert_eq!(admin::pause(&mut st, signers(&["A1", "A2"])), Err(Failure::NotInitialized));
    assert_eq!(admin::get_admin_threshold(&st), Err(Failure::NotInitialized));
    assert!(admin::get_admins(&st).is_empty());
}

#[test]
fn upgrade_needs_approval() {
    let st = storage();
    assert_eq!(admin::upgrade(&st, signers(&["A1", "A2"]), vec![7u8; 32]), Ok(()));
    assert_eq!(admin::upgrade(&st, signers(&["A1"]), vec![7u8; 32]), Err(err(ContractError::UnauthorizedCaller)));
}

// ── admin set ───────────────────────────────────────────────────────────────

#[test]
fn add_admin_appends_new_admins_only() {
    let mut st = storage();
    assert_eq!(admin::add_admin(&mut st, signers(&["A1", "A2"]), s("A4")), Ok(()));
    assert_eq!(admin::get_admins(&st), signers(&["A1", "A2", "A3", "A4"]));
    assert_eq!(
        admin::add_admin(&mut st, signers(&["A1", "A2"]), s("A3")),
        Err(err(ContractError::AlreadyInitialized))
    );
}

#[test]
fn remove_admin_checks() {
    let mut st = storage();
    // a signer cannot remove itself
    assert_eq!(
        admin::remove_admin(&mut st, signers(&["A1", "A2"]), s("A1")),
        Err(err(ContractError::UnauthorizedCaller))
    );
    assert_eq!(admin::remove_admin(&mut st, signers(&["A1", "A2"]), s("X")), Err(Failure::NotAnAdmin));
    assert_eq!(admin::remove_admin(&mut st, signers(&["A1", "A2"]), s("A3")), Ok(()));
    assert_eq!(admin::get_admins(&st), signers(&["A1", "A2"]));
    // two admins with threshold two: removing one would leave the threshold unreachable
    assert_eq!(admin::add_admin(&mut st, signers(&["A1", "A2"]), s("A5")), Ok(()));
    assert_eq!(admin::set_admin_threshold(&mut st, signers(&["A1", "A2"]), 3), Ok(()));
    assert_eq!(
        admin::remove_admin(&mut st, signers(&["A1", "A2", "A5"]), s("A5")),
        Err(err(ContractError::UnauthorizedCaller))
    );
}

#[test]
fn remove_admin_refuses_its_own_signers() {
    let mut st = storage();
    assert_eq!(admin::set_admin_threshold(&mut st, signers(&["A1", "A2"]), 3), Ok(()));
    assert_eq!(
        admin::remove_admin(&mut st, signers(&["A1", "A2", "A3"]), s("A3")),
        Err(err(ContractError::UnauthorizedCaller))
    );
    let mut st = storage();
    assert_eq!(admin::add_admin(&mut st, signers(&["A1", "A2"]), s("A4")), Ok(()));
    assert_eq!(admin::set_admin_threshold(&mut st, signers(&["A1", "A2"]), 4), Ok(()));
    assert_eq!(
        admin::remove_admin(&mut st, signers(&["A1", "A2", "A3", "A4"]), s("A9")),
        Err(Failure::NotAnAdmin)
    );
    let mut st2 = storage();
    assert_eq!(admin::set_admin_threshold(&mut st2, signers(&["A1", "A2"]), 3), Ok(()));
    assert_eq!(admin::add_admin(&mut st2, signers(&["A1", "A2", "A3"]), s("A4")), Ok(()));
    assert_eq!(admin::set_admin_threshold(&mut st2, signers(&["A1", "A2", "A3"]), 4), Ok(()));
    assert_eq!(admin::remove_admin(&mut st2, signers(&["A1", "A2", "A3", "A4"]), s("A2")),
        Err(err(ContractError::UnauthorizedCaller)));
}

#[test]
fn rotate_admin_replaces_in_place() {
    let mut st = storage();
    assert_eq!(
        admin::rotate_admin(&mut st, signers(&["A1", "A2"]), s("A2"), s("A2")),
        Err(err(ContractError::InvalidAmount))
    );
    assert_eq!(
        admin::rotate_admin(&mut st, signers(&["A1", "A2"]), s("A2"), s("A3")),
        Err(err(ContractError::AlreadyInitialized))
    );
    assert_eq!(
        admin::rotate_admin(&mut st, signers(&["A1", "A2"]), s("X"), s("B")),
        Err(Failure::OldAdminNotFound)
    );
    assert_eq!(admin::rotate_admin(&mut st, signers(&["A1", "A2"]), s("A2"), s("B")), Ok(()));
    assert_eq!(admin::get_admins(&st), signers(&["A1", "B", "A3"]));
}

#[test]
fn threshold_stays_within_admins() {
    let mut st = storage();
    assert_eq!(admin::set_admin_threshold(&mut st, signers(&["A1", "A2"]), 0), Err(err(ContractError::InvalidAmount)));
    assert_eq!(admin::set_admin_threshold(&mut st, signers(&["A1", "A2"]), 4), Err(err(ContractError::InvalidAmount)));
    assert_eq!(admin::set_admin_threshold(&mut st, signers(&["A1", "A2"]), 1), Ok(()));
    assert_eq!(admin::get_admin_threshold(&st), Ok(1));
}

// ── settings ────────────────────────────────────────────────────────────────

#[test]
fn protocol_fee_is_at_most_whole() {
    let mut st = storage();
    assert_eq!(admin::get_protocol_fee(&st), 0);
    assert_eq!(admin::set_protocol_fee(&mut st, signers(&["A1", "A2"]), 10_001), Err(err(ContractError::InvalidAmount)));
    assert_eq!(admin::set_protocol_fee(&mut st, signers(&["A1", "A2"]), 10_000), Ok(()));
    assert_eq!(admin::get_protocol_fee(&st), 10_000);
}

#[test]
fn flags_and_addresses_are_stored() {
    let mut st = storage();
    let a = signers(&["A1", "A2"]);
    assert!(!admin::is_whitelisted(&st, &s("V")));
    assert_eq!(admin::whitelist_voucher(&mut st, a.clone(), s("V")), Ok(()));
    assert!(admin::is_whitelisted(&st, &s("V")));
    assert!(!admin::is_whitelist_enabled(&st));
    assert_eq!(admin::set_whitelist_enabled(&mut st, a.clone(), true), Ok(()));
    assert!(admin::is_whitelist_enabled(&st));
    assert_eq!(admin::get_fee_treasury(&st), None);
    assert_eq!(admin::set_fee_treasury(&mut st, a.clone(), s("T")), Ok(()));
    assert_eq!(admin::get_fee_treasury(&st), Some(s("T")));
    assert!(!admin::is_blacklisted(&st, &s("B")));
    assert_eq!(admin::blacklist(&mut st, a.clone(), s("B")), Ok(()));
    assert!(admin::is_blacklisted(&st, &s("B")));
    assert_eq!(admin::set_reputation_nft(&mut st, a.clone(), s("NFT")), Ok(()));
    assert_eq!(st.reputation_nft, Some(s("NFT")));
}

#[test]
fn limits_are_validated() {
    let mut st = storage();
    let a = signers(&["A1", "A2"]);
    assert_eq!(admin::get_min_stake(&st), 0);
    assert_eq!(admin::set_min_stake(&mut st, a.clone(), -1), Err(err(ContractError::InvalidAmount)));
    assert_eq!(admin::set_min_stake(&mut st, a.clone(), 50), Ok(()));
    assert_eq!(admin::get_min_stake(&st), 50);
    assert_eq!(admin::get_max_loan_amount(&st), 0);
    assert_eq!(admin::set_max_loan_amount(&mut st, a.clone(), -5), Err(err(ContractError::InvalidAmount)));
    assert_eq!(admin::set_max_loan_amount(&mut st, a.clone(), 5_000), Ok(()));
    assert_eq!(admin::get_max_loan_amount(&st), 5_000);
    assert_eq!(admin::get_min_vouchers(&st), 0);
    assert_eq!(admin::set_min_vouchers(&mut st, a.clone(), 3), Ok(()));
    assert_eq!(admin::get_min_vouchers(&st), 3);
    assert_eq!(admin::set_max_loan_to_stake_ratio(&mut st, a.clone(), 0), Err(err(ContractError::InvalidAmount)));
    assert_eq!(admin::set_max_loan_to_stake_ratio(&mut st, a.clone(), 80), Ok(()));
    assert_eq!(admin::get_max_loan_to_stake_ratio(&st), Ok(80));
    assert_eq!(admin::get_max_vouchers_per_borrower(&st), DEFAULT_MAX_VOUCHERS_PER_BORROWER);
    assert_eq!(admin::set_max_vouchers_per_borrower(&mut st, a.clone(), 0), Err(err(ContractError::InvalidAmount)));
    assert_eq!(admin::set_max_vouchers_per_borrower(&mut st, a.clone(), 7), Ok(()));
    assert_eq!(admin::get_max_vouchers_per_borrower(&st), 7);
}

#[test]
fn set_config_validates_every_field() {
    let mut st = storage();
    let a = signers(&["A1", "A2"]);
    let mut c = config();
    c.admin_threshold = 4;
    assert_eq!(admin::set_config(&mut st, a.clone(), c), Err(Failure::InvalidAdminConfig));
    let mut c = config();
    c.admins = signers(&["A1", "A1"]);
    assert_eq!(admin::set_config(&mut st, a.clone(), c), Err(Failure::InvalidAdminConfig));
    let mut c = config();
    c.slash_bps = 0;
    assert_eq!(admin::set_config(&mut st, a.clone(), c), Err(err(ContractError::InvalidAmount)));
    let mut c = config();
    c.yield_bps = -1;
    assert_eq!(admin::set_config(&mut st, a.clone(), c), Err(err(ContractError::InvalidAmount)));
    let mut c = config();
    c.loan_duration = 0;
    assert_eq!(admin::set_config(&mut st, a.clone(), c), Err(err(ContractError::InvalidAmount)));
    let mut c = config();
    c.max_vouchers = 0;
    assert_eq!(admin::set_config(&mut st, a.clone(), c), Err(err(ContractError::InvalidAmount)));
    let mut c = config();
    c.min_loan_amount = 0;
    assert_eq!(admin::set_config(&mut st, a.clone(), c), Err(err(ContractError::InvalidAmount)));
    let mut c = config();
    c.admins = signers(&["A1", "A2"]);
    c.yield_bps = 300;
    assert_eq!(admin::set_config(&mut st, a.clone(), c), Ok(()));
    let got = admin::get_config(&st).unwrap();
    assert_eq!(got.yield_bps, 300);
    assert_eq!(got.admins, signers(&["A1", "A2"]));
}

#[test]
fn update_config_changes_given_fields() {
    let mut st = storage();
    let a = signers(&["A1", "A2"]);
    assert_eq!(admin::update_config(&mut st, a.clone(), Some(-1), None), Err(err(ContractError::InvalidAmount)));
    assert_eq!(admin::update_config(&mut st, a.clone(), None, Some(10_001)), Err(err(ContractError::InvalidAmount)));
    assert_eq!(admin::update_config(&mut st, a.clone(), None, Some(2_500)), Ok(()));
    let got = admin::get_config(&st).unwrap();
    assert_eq!((got.yield_bps, got.slash_bps), (200, 2_500));
}

#[test]
fn allowed_tokens_are_distinct() {
    let mut st = storage();
    let a = signers(&["A1", "A2"]);
    assert_eq!(admin::add_allowed_token(&mut st, a.clone(), s("USDC"), false), Err(Failure::InvalidToken));
    assert_eq!(admin::add_allowed_token(&mut st, a.clone(), s("TOKEN"), true), Err(err(ContractError::DuplicateVouch)));
    assert_eq!(admin::add_allowed_token(&mut st, a.clone(), s("USDC"), true), Ok(()));
    assert_eq!(admin::add_allowed_token(&mut st, a.clone(), s("USDC"), true), Err(err(ContractError::DuplicateVouch)));
    assert_eq!(admin::remove_allowed_token(&mut st, a.clone(), s("EURC")), Err(Failure::TokenNotAllowed));
    assert_eq!(admin::remove_allowed_token(&mut st, a.clone(), s("USDC")), Ok(()));
    assert!(admin::get_config(&st).unwrap().allowed_tokens.is_empty());
}

#[test]
fn slash_treasury_withdrawal() {
    let mut st = storage();
    let a = signers(&["A1", "A2"]);
    assert_eq!(admin::withdraw_slash_treasury(&mut st, a.clone(), s("R"), 0), Err(Failure::AmountNotPositive));
    assert_eq!(admin::withdraw_slash_treasury(&mut st, a.clone(), s("R"), 1), Err(Failure::InsufficientSlashTreasury));
    st.slash_treasury = Some(500);
    assert_eq!(
        admin::withdraw_slash_treasury(&mut st, a.clone(), s("R"), 200),
        Ok(vec![TokenTransfer::Payout { to: s("R"), amount: 200 }])
    );
    assert_eq!(st.slash_treasury, Some(300));
}

// ── vouching ─────────────────────────────────────────────────────────────────

#[test]
fn vouch_records_stake_history_and_time() {
    let mut st = storage();
    let ts = vouch::vouch(&mut st, s("V"), s("B"), 1_000, 42).unwrap();
    assert_eq!(ts, vec![TokenTransfer::Deposit { from: s("V"), amount: 1_000 }]);
    let list = st.vouches.get(&s("B")).unwrap();
    assert_eq!(list.len(), 1);
    assert_eq!((list[0].voucher.as_str(), list[0].stake, list[0].vouch_timestamp), ("V", 1_000, 42));
    assert_eq!(vouch::voucher_history(&st, &s("V")), signers(&["B"]));
    assert_eq!(st.last_vouch_timestamp.get(&s("V")), Some(&42));
    assert!(vouch::vouch_exists(&st, &s("V"), &s("B")));
    assert_eq!(vouch::total_vouched(&st, &s("B")), Ok(1_000));
}

#[test]
fn vouch_is_refused_when() {
    let mut st = storage();
    assert_eq!(vouch::vouch(&mut st, s("V"), s("B"), 0, 1).err(), Some(err(ContractError::InvalidAmount)));
    assert_eq!(vouch::vouch(&mut st, s("B"), s("B"), 10, 1).err(), Some(Failure::SelfVouch));
    st.min_stake = Some(100);
    assert_eq!(vouch::vouch(&mut st, s("V"), s("B"), 99, 1).err(), Some(err(ContractError::MinStakeNotMet)));
    assert!(vouch::vouch(&mut st, s("V"), s("B"), 100, 1).is_ok());
    assert_eq!(vouch::vouch(&mut st, s("V"), s("B"), 100, 2).err(), Some(err(ContractError::DuplicateVouch)));
    st.loans.insert(s("B2"), LoanRecord { borrower: s("B2"), amount: 5, repaid: false, defaulted: false });
    assert_eq!(vouch::vouch(&mut st, s("V"), s("B2"), 100, 1).err(), Some(err(ContractError::ActiveLoanExists)));
    st.paused = Some(true);
    assert_eq!(vouch::vouch(&mut st, s("W"), s("B"), 100, 1).err(), Some(err(ContractError::ContractPaused)));
    assert_eq!(vouch::total_vouched(&st, &s("B")), Ok(100));
}

#[test]
fn repaid_loan_allows_new_vouches() {
    let mut st = storage();
    st.loans.insert(s("B"), LoanRecord { borrower: s("B"), amount: 5, repaid: true, defaulted: false });
    assert!(vouch::vouch(&mut st, s("V"), s("B"), 100, 1).is_ok());
}

#[test]
fn batch_vouch_is_all_or_nothing() {
    let mut st = storage();
    assert_eq!(
        vouch::batch_vouch(&mut st, s("V"), signers(&["B1"]), vec![1, 2], 1).err(),
        Some(Failure::BatchLengthMismatch)
    );
    assert_eq!(vouch::batch_vouch(&mut st, s("V"), Vec::new(), Vec::new(), 1).err(), Some(Failure::EmptyBatch));
    // the second vouch for B1 is a duplicate: nothing of the batch stays
    assert_eq!(
        vouch::batch_vouch(&mut st, s("V"), signers(&["B1", "B2", "B1"]), vec![10, 20, 30], 5).err(),
        Some(err(ContractError::DuplicateVouch))
    );
    assert!(!vouch::vouch_exists(&st, &s("V"), &s("B1")));
    assert!(vouch::voucher_history(&st, &s("V")).is_empty());
    assert!(st.last_vouch_timestamp.get(&s("V")).is_none());
    let ts = vouch::batch_vouch(&mut st, s("V"), signers(&["B1", "B2"]), vec![10, 20], 5).unwrap();
    assert_eq!(
        ts,
        vec![
            TokenTransfer::Deposit { from: s("V"), amount: 10 },
            TokenTransfer::Deposit { from: s("V"), amount: 20 },
        ]
    );
    assert_eq!(vouch::voucher_history(&st, &s("V")), signers(&["B1", "B2"]));
}

#[test]
fn increase_stake_adds_to_the_record() {
    let mut st = storage();
    assert_eq!(vouch::increase_stake(&mut st, s("V"), s("B"), 5).err(), Some(Failure::VouchNotFound));
    vouch::vouch(&mut st, s("V"), s("B"), 100, 1).unwrap();
    assert_eq!(vouch::increase_stake(&mut st, s("W"), s("B"), 5).err(), Some(Failure::VouchNotFound));
    assert_eq!(vouch::increase_stake(&mut st, s("V"), s("B"), 0).err(), Some(err(ContractError::InvalidAmount)));
    assert_eq!(
        vouch::increase_stake(&mut st, s("V"), s("B"), 50),
        Ok(vec![TokenTransfer::Deposit { from: s("V"), amount: 50 }])
    );
    assert_eq!(vouch::total_vouched(&st, &s("B")), Ok(150));
    assert_eq!(
        vouch::increase_stake(&mut st, s("V"), s("B"), i128::MAX).err(),
        Some(Failure::ArithmeticOverflow)
    );
}

#[test]
fn decrease_stake_pays_back_and_drops_empty_records() {
    let mut st = storage();
    vouch::vouch(&mut st, s("V"), s("B"), 100, 1).unwrap();
    assert_eq!(vouch::decrease_stake(&mut st, s("V"), s("B"), 0).err(), Some(Failure::DecreaseNotPositive));
    assert_eq!(vouch::decrease_stake(&mut st, s("V"), s("B"), 101).err(), Some(Failure::DecreaseExceedsStake));
    assert_eq!(
        vouch::decrease_stake(&mut st, s("V"), s("B"), 40),
        Ok(vec![TokenTransfer::Payout { to: s("V"), amount: 40 }])
    );
    assert_eq!(vouch::total_vouched(&st, &s("B")), Ok(60));
    assert!(vouch::decrease_stake(&mut st, s("V"), s("B"), 60).is_ok());
    assert!(!st.vouches.contains_key(&s("B")));
    assert_eq!(vouch::decrease_stake(&mut st, s("V"), s("B"), 1).err(), Some(Failure::VouchNotFound));
}

#[test]
fn decrease_stake_refused_during_loan() {
    let mut st = storage();
    vouch::vouch(&mut st, s("V"), s("B"), 100, 1).unwrap();
    st.loans.insert(s("B"), LoanRecord { borrower: s("B"), amount: 5, repaid: false, defaulted: false });
    assert_eq!(vouch::decrease_stake(&mut st, s("V"), s("B"), 1).err(), Some(Failure::LoanAlreadyActive));
    assert_eq!(vouch::withdraw_vouch(&mut st, s("V"), s("B")).err(), Some(Failure::LoanAlreadyActive));
}

#[test]
fn protocol_withdraw_vouch() {
    let mut st = storage();
    assert_eq!(vouch::withdraw_vouch(&mut st, s("V"), s("B")).err(), Some(err(ContractError::NoActiveLoan)));
    vouch::vouch(&mut st, s("V"), s("B"), 100, 1).unwrap();
    vouch::vouch(&mut st, s("W"), s("B"), 70, 1).unwrap();
    assert_eq!(vouch::withdraw_vouch(&mut st, s("X"), s("B")).err(), Some(err(ContractError::UnauthorizedCaller)));
    assert_eq!(
        vouch::withdraw_vouch(&mut st, s("V"), s("B")),
        Ok(vec![TokenTransfer::Payout { to: s("V"), amount: 100 }])
    );
    assert!(!vouch::vouch_exists(&st, &s("V"), &s("B")));
    assert!(vouch::vouch_exists(&st, &s("W"), &s("B")));
    assert!(vouch::withdraw_vouch(&mut st, s("W"), s("B")).is_ok());
    assert!(!st.vouches.contains_key(&s("B")));
}

#[test]
fn transfer_vouch_to_a_new_voucher_readdresses_the_record() {
    let mut st = storage();
    vouch::vouch(&mut st, s("V"), s("B"), 100, 1).unwrap();
    assert_eq!(vouch::transfer_vouch(&mut st, s("V"), s("V"), s("B")), Ok(()));
    assert_eq!(vouch::transfer_vouch(&mut st, s("V"), s("W"), s("B")), Ok(()));
    assert!(!vouch::vouch_exists(&st, &s("V"), &s("B")));
    assert!(vouch::vouch_exists(&st, &s("W"), &s("B")));
    assert_eq!(vouch::total_vouched(&st, &s("B")), Ok(100));
    assert!(vouch::voucher_history(&st, &s("V")).is_empty());
    assert_eq!(vouch::voucher_history(&st, &s("W")), signers(&["B"]));
}

#[test]
fn transfer_vouch_merges_into_an_existing_record() {
    let mut st = storage();
    vouch::vouch(&mut st, s("V"), s("B"), 100, 1).unwrap();
    vouch::vouch(&mut st, s("W"), s("B"), 30, 1).unwrap();
    assert_eq!(vouch::transfer_vouch(&mut st, s("V"), s("W"), s("B")), Ok(()));
    let list = st.vouches.get(&s("B")).unwrap();
    assert_eq!(list.len(), 1);
    assert_eq!((list[0].voucher.as_str(), list[0].stake), ("W", 130));
    assert_eq!(vouch::voucher_history(&st, &s("W")), signers(&["B"]));
    assert_eq!(vouch::transfer_vouch(&mut st, s("X"), s("W"), s("B")), Err(err(ContractError::UnauthorizedCaller)));
    assert_eq!(vouch::transfer_vouch(&mut st, s("X"), s("W"), s("C")), Err(err(ContractError::NoActiveLoan)));
}

#[test]
fn paused_protocol_refuses_every_vouching_call() {
    let mut st = storage();
    vouch::vouch(&mut st, s("V"), s("B"), 100, 1).unwrap();
    assert_eq!(admin::pause(&mut st, signers(&["A1", "A2"])), Ok(()));
    let paused = Some(err(ContractError::ContractPaused));
    assert_eq!(vouch::vouch(&mut st, s("W"), s("B"), 1, 2).err(), paused);
    assert_eq!(vouch::batch_vouch(&mut st, s("W"), signers(&["B"]), vec![1], 2).err(), paused);
    assert_eq!(vouch::increase_stake(&mut st, s("V"), s("B"), 1).err(), paused);
    assert_eq!(vouch::decrease_stake(&mut st, s("V"), s("B"), 1).err(), paused);
    assert_eq!(vouch::withdraw_vouch(&mut st, s("V"), s("B")).err(), paused);
    assert_eq!(vouch::transfer_vouch(&mut st, s("V"), s("W"), s("B")).err(), paused);
    assert_eq!(vouch::total_vouched(&st, &s("B")), Ok(100));
}

#[test]
fn protocol_withdraw_after_vouch_restores_the_list() {
    let mut st = storage();
    vouch::vouch(&mut st, s("V1"), s("B"), 100, 1).unwrap();
    vouch::vouch(&mut st, s("V2"), s("B"), 5, 2).unwrap();
    let ts = vouch::withdraw_vouch(&mut st, s("V2"), s("B")).unwrap();
    assert_eq!(ts, vec![TokenTransfer::Payout { to: s("V2"), amount: 5 }]);
    let list = st.vouches.get(&s("B")).unwrap();
    assert_eq!(list.len(), 1);
    assert_eq!(list[0].voucher, s("V1"));
}

#[test]
fn decrease_after_increase_restores_the_stake() {
    let mut st = storage();
    vouch::vouch(&mut st, s("V"), s("B"), 100, 1).unwrap();
    assert!(vouch::increase_stake(&mut st, s("V"), s("B"), 25).is_ok());
    assert_eq!(
        vouch::decrease_stake(&mut st, s("V"), s("B"), 25),
        Ok(vec![TokenTransfer::Payout { to: s("V"), amount: 25 }])
    );
    let list = st.vouches.get(&s("B")).unwrap();
    assert_eq!((list.len(), list[0].stake), (1, 100));
}
