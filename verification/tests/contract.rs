use std::collections::HashMap;

use quorum_credit::amounts::apply_bps;
use quorum_credit::errors::Failure;
use quorum_credit::transfers::TokenTransfer;
use quorum_credit::QuorumCreditContract;

const CONTRACT: &str = "CONTRACT";

/// A test ledger: the contract's storage and the balances of the token it uses.
struct Ledger {
    contract: QuorumCreditContract,
    balances: HashMap<String, i128>,
}

fn message(f: Failure) -> &'static str {
    match f {
        Failure::AlreadyInitialized => "already initialized",
        Failure::NotInitialized => "not initialized",
        Failure::InsufficientTrustStake => "insufficient trust stake",
        Failure::NoActiveLoan => "no active loan",
        Failure::LoanAlreadyDefaulted => "loan already defaulted",
        Failure::LoanAlreadyRepaid => "loan already repaid",
        Failure::AlreadyDefaulted => "already defaulted",
        Failure::LoanAlreadyActive => "loan already active",
        Failure::VouchNotFound => "vouch not found",
        _ => "other failure",
    }
}

impl Ledger {
    fn balance(&self, who: &str) -> i128 {
        *self.balances.get(who).unwrap_or(&0)
    }

    fn mint(&mut self, who: &str, amount: i128) {
        *self.balances.entry(who.to_string()).or_insert(0) += amount;
    }

    fn move_tokens(&mut self, from: &str, to: &str, amount: i128) {
        assert!(amount >= 0, "negative amount is not allowed");
        assert!(self.balance(from) >= amount, "balance is not sufficient to spend");
        *self.balances.entry(from.to_string()).or_insert(0) -= amount;
        *self.balances.entry(to.to_string()).or_insert(0) += amount;
    }

    /// Performs the transfers of a successful invocation; fails it as the contract would.
    fn settle(&mut self, r: Result<Vec<TokenTransfer>, Failure>) {
        match r {
            Ok(ts) => {
                for t in ts {
                    match t {
                        TokenTransfer::Deposit { from, amount } => self.move_tokens(&from, CONTRACT, amount),
                        TokenTransfer::Payout { to, amount } => self.move_tokens(CONTRACT, &to, amount),
                    }
                }
            }
            Err(f) => panic!("{}", message(f)),
        }
    }

    fn vouch(&mut self, voucher: &str, borrower: &str, stake: i128) {
        let r = self.contract.vouch(voucher.to_string(), borrower.to_string(), stake);
        self.settle(r);
    }

    fn request_loan(&mut self, borrower: &str, amount: i128, threshold: i128) {
        let r = self.contract.request_loan(borrower.to_string(), amount, threshold);
        self.settle(r);
    }

    fn repay(&mut self, borrower: &str) {
        let r = self.contract.repay(borrower.to_string());
        self.settle(r);
    }

    fn slash(&mut self, borrower: &str) {
        let r = self.contract.slash(borrower.to_string());
        self.settle(r);
    }

    fn withdraw_vouch(&mut self, voucher: &str, borrower: &str) {
        let r = self.contract.withdraw_vouch(voucher.to_string(), borrower.to_string());
        self.settle(r);
    }
}

const ADMIN: &str = "GADMIN";
const BORROWER: &str = "GBORROWER";
const VOUCHER: &str = "GVOUCHER";
const TOKEN: &str = "CTOKEN";

fn setup() -> Ledger {
    let mut ledger = Ledger { contract: QuorumCreditContract::new(), balances: HashMap::new() };
    ledger.mint(VOUCHER, 10_000_000);
    ledger.mint(CONTRACT, 50_000_000);
    ledger.contract.initialize(ADMIN.to_string(), TOKEN.to_string()).unwrap();
    ledger
}

#[test]
fn test_vouch_and_loan_disbursed() {
    let mut l = setup();
    l.vouch(VOUCHER, BORROWER, 1_000_000);
    l.request_loan(BORROWER, 500_000, 1_000_000);

    let loan = l.contract.get_loan(&BORROWER.to_string()).unwrap();
    assert_eq!(loan.amount, 500_000);
    assert!(!loan.repaid);
    assert!(!loan.defaulted);
}

#[test]
fn test_repay_gives_voucher_yield() {
    let mut l = setup();
    l.vouch(VOUCHER, BORROWER, 1_000_000);
    l.request_loan(BORROWER, 500_000, 1_000_000);
    l.repay(BORROWER);

    assert_eq!(l.balance(VOUCHER), 10_020_000);
}

#[test]
fn test_slash_burns_half_stake() {
    let mut l = setup();
    l.vouch(VOUCHER, BORROWER, 1_000_000);
    l.request_loan(BORROWER, 500_000, 1_000_000);
    l.slash(BORROWER);

    assert_eq!(l.balance(VOUCHER), 9_500_000);
    assert!(l.contract.get_loan(&BORROWER.to_string()).unwrap().defaulted);
}

#[test]
fn test_withdraw_vouch_happy_path() {
    let mut l = setup();
    let balance_before = l.balance(VOUCHER);
    l.vouch(VOUCHER, BORROWER, 1_000_000);
    l.withdraw_vouch(VOUCHER, BORROWER);

    assert_eq!(l.balance(VOUCHER), balance_before);
    assert!(l.contract.get_vouches(&BORROWER.to_string()).is_empty());
}

#[test]
#[should_panic(expected = "loan already active")]
fn test_withdraw_vouch_loan_active_panics() {
    let mut l = setup();
    l.vouch(VOUCHER, BORROWER, 1_000_000);
    l.request_loan(BORROWER, 500_000, 1_000_000);
    l.withdraw_vouch(VOUCHER, BORROWER);
}

#[test]
#[should_panic(expected = "vouch not found")]
fn test_withdraw_vouch_not_found_panics() {
    let mut l = setup();
    // Never vouched — should panic immediately.
    l.withdraw_vouch(VOUCHER, BORROWER);
}

#[test]
fn test_withdraw_vouch_isolation() {
    let mut l = setup();
    let voucher2 = "GVOUCHER2";
    l.mint(voucher2, 10_000_000);

    l.vouch(VOUCHER, BORROWER, 1_000_000);
    l.vouch(voucher2, BORROWER, 2_000_000);
    l.withdraw_vouch(VOUCHER, BORROWER);

    let remaining = l.contract.get_vouches(&BORROWER.to_string());
    assert_eq!(remaining.len(), 1);
    assert_eq!(remaining[0].voucher, voucher2);
}

#[test]
fn test_withdraw_vouch_removes_storage_key() {
    let mut l = setup();
    l.vouch(VOUCHER, BORROWER, 1_000_000);
    l.withdraw_vouch(VOUCHER, BORROWER);

    // get_vouches returns empty vec when key is absent.
    assert!(l.contract.get_vouches(&BORROWER.to_string()).is_empty());
    assert!(!l.contract.vouches.contains_key(&BORROWER.to_string()));
}

// ── further scenarios ────────────────────────────────────────────────────────

#[test]
fn initialize_twice_is_refused() {
    let mut l = setup();
    let r = l.contract.initialize("GOTHER".to_string(), "COTHER".to_string());
    assert_eq!(r, Err(Failure::AlreadyInitialized));
    assert_eq!(l.contract.admin.as_deref(), Some(ADMIN));
    assert_eq!(l.contract.token.as_deref(), Some(TOKEN));
}

#[test]
fn entry_points_need_initialisation() {
    let mut c = QuorumCreditContract::new();
    assert_eq!(c.vouch(VOUCHER.to_string(), BORROWER.to_string(), 5).err(), Some(Failure::NotInitialized));
    assert_eq!(c.slash(BORROWER.to_string()).err(), Some(Failure::NotInitialized));
    assert!(c.get_vouches(&BORROWER.to_string()).is_empty());
}

#[test]
fn vouch_moves_stake_into_contract() {
    let mut c = setup().contract;
    let ts = c.vouch(VOUCHER.to_string(), BORROWER.to_string(), 1_234).unwrap();
    assert_eq!(ts, vec![TokenTransfer::Deposit { from: VOUCHER.to_string(), amount: 1_234 }]);
    let vs = c.get_vouches(&BORROWER.to_string());
    assert_eq!(vs.len(), 1);
    assert_eq!(vs[0].stake, 1_234);
}

#[test]
fn loan_needs_enough_stake() {
    let mut l = setup();
    l.vouch(VOUCHER, BORROWER, 999_999);
    let r = l.contract.request_loan(BORROWER.to_string(), 500_000, 1_000_000);
    assert_eq!(r.err(), Some(Failure::InsufficientTrustStake));
    assert!(l.contract.get_loan(&BORROWER.to_string()).is_none());
}

#[test]
fn loan_threshold_counts_every_voucher() {
    let mut l = setup();
    l.mint("GV2", 1_000_000);
    l.vouch(VOUCHER, BORROWER, 600_000);
    l.vouch("GV2", BORROWER, 400_000);
    let ts = l.contract.request_loan(BORROWER.to_string(), 700, 1_000_000).unwrap();
    assert_eq!(ts, vec![TokenTransfer::Payout { to: BORROWER.to_string(), amount: 700 }]);
}

#[test]
fn repay_pays_every_voucher_with_yield() {
    let mut l = setup();
    l.mint("GV2", 1_000_000);
    l.mint(BORROWER, 0);
    l.vouch(VOUCHER, BORROWER, 1_000_000);
    l.vouch("GV2", BORROWER, 333);
    l.request_loan(BORROWER, 500_000, 1_000_000);
    let ts = l.contract.repay(BORROWER.to_string()).unwrap();
    assert_eq!(
        ts,
        vec![
            TokenTransfer::Deposit { from: BORROWER.to_string(), amount: 500_000 },
            TokenTransfer::Payout { to: VOUCHER.to_string(), amount: 1_020_000 },
            // 333 * 200 / 10_000 = 6 (rounded down)
            TokenTransfer::Payout { to: "GV2".to_string(), amount: 339 },
        ]
    );
    assert!(l.contract.get_loan(&BORROWER.to_string()).unwrap().repaid);
}

#[test]
fn settled_loans_stay_settled() {
    let mut l = setup();
    l.vouch(VOUCHER, BORROWER, 1_000_000);
    l.request_loan(BORROWER, 500_000, 1_000_000);
    l.repay(BORROWER);
    assert_eq!(l.contract.repay(BORROWER.to_string()).err(), Some(Failure::LoanAlreadyRepaid));
    assert_eq!(l.contract.slash(BORROWER.to_string()).err(), Some(Failure::LoanAlreadyRepaid));

    let mut l = setup();
    l.vouch(VOUCHER, BORROWER, 1_000_000);
    l.request_loan(BORROWER, 500_000, 1_000_000);
    l.slash(BORROWER);
    assert_eq!(l.contract.slash(BORROWER.to_string()).err(), Some(Failure::AlreadyDefaulted));
    assert_eq!(l.contract.repay(BORROWER.to_string()).err(), Some(Failure::LoanAlreadyDefaulted));
}

#[test]
fn repay_and_slash_need_a_loan() {
    let mut l = setup();
    assert_eq!(l.contract.repay(BORROWER.to_string()).err(), Some(Failure::NoActiveLoan));
    assert_eq!(l.contract.slash(BORROWER.to_string()).err(), Some(Failure::NoActiveLoan));
}

#[test]
fn slash_refunds_the_unslashed_half() {
    let mut l = setup();
    l.mint("GV2", 10);
    l.vouch(VOUCHER, BORROWER, 1_000_001);
    l.vouch("GV2", BORROWER, 1);
    l.request_loan(BORROWER, 10, 1);
    let ts = l.contract.slash(BORROWER.to_string()).unwrap();
    // 1_000_001 * 5000 / 10_000 = 500_000, so 500_001 comes back;
    // 1 * 5000 / 10_000 = 0, so all of the 1 comes back.
    assert_eq!(
        ts,
        vec![
            TokenTransfer::Payout { to: VOUCHER.to_string(), amount: 500_001 },
            TokenTransfer::Payout { to: "GV2".to_string(), amount: 1 },
        ]
    );
}

#[test]
fn withdraw_takes_the_first_record_of_the_voucher() {
    let mut l = setup();
    l.vouch(VOUCHER, BORROWER, 100);
    l.vouch(VOUCHER, BORROWER, 200);
    let ts = l.contract.withdraw_vouch(VOUCHER.to_string(), BORROWER.to_string()).unwrap();
    assert_eq!(ts, vec![TokenTransfer::Payout { to: VOUCHER.to_string(), amount: 100 }]);
    let vs = l.contract.get_vouches(&BORROWER.to_string());
    assert_eq!(vs.len(), 1);
    assert_eq!(vs[0].stake, 200);
}

#[test]
fn withdraw_of_a_stranger_is_refused() {
    let mut l = setup();
    l.vouch(VOUCHER, BORROWER, 100);
    let r = l.contract.withdraw_vouch("GSTRANGER".to_string(), BORROWER.to_string());
    assert_eq!(r.err(), Some(Failure::VouchNotFound));
    assert_eq!(l.contract.get_vouches(&BORROWER.to_string()).len(), 1);
}

#[test]
fn yield_overflow_aborts_repayment() {
    let mut c = setup().contract;
    c.vouch(VOUCHER.to_string(), BORROWER.to_string(), i128::MAX / 100).unwrap();
    c.request_loan(BORROWER.to_string(), 1, 0).unwrap();
    assert_eq!(c.repay(BORROWER.to_string()).err(), Some(Failure::ArithmeticOverflow));
    assert!(!c.get_loan(&BORROWER.to_string()).unwrap().repaid);
}

#[test]
fn stake_sum_overflow_aborts_loan_request() {
    let mut c = setup().contract;
    c.vouch(VOUCHER.to_string(), BORROWER.to_string(), i128::MAX).unwrap();
    c.vouch("GV2".to_string(), BORROWER.to_string(), 1).unwrap();
    assert_eq!(c.request_loan(BORROWER.to_string(), 1, 0).err(), Some(Failure::ArithmeticOverflow));
}

#[test]
fn basis_points_round_toward_zero() {
    assert_eq!(apply_bps(1_000_000, 200), Some(20_000));
    assert_eq!(apply_bps(333, 200), Some(6));
    assert_eq!(apply_bps(-333, 200), Some(-6));
    assert_eq!(apply_bps(-10_000, 5000), Some(-5_000));
    assert_eq!(apply_bps(-1, 5000), Some(0));
    assert_eq!(apply_bps(i128::MIN, 1), Some(i128::MIN / 10_000));
    assert_eq!(apply_bps(i128::MAX, 2), None);
}
