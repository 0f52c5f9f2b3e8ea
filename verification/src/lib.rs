//! Quorum credit: microloans backed by stake that vouchers lock for a borrower.
//!
//! Vouchers stake tokens for a borrower; once the stake reaches the threshold
//! that the borrower asks for, the contract lends.  On repayment every voucher
//! gets the stake back with a 2% yield; when the admin marks the loan
//! defaulted, half of every stake is kept and the other half returned.
//!
//! The contract is modelled by its storage: each entry point is a function
//! from the stored entries and the call's arguments to the new entries and the
//! token transfers to make, or to the reason the invocation aborts.
use vstd::prelude::*;

pub mod addresses;
pub mod admin;
pub mod amounts;
pub mod errors;
pub mod helpers;
pub mod lifecycle;
pub mod protocol_laws;
pub mod stakes;
pub mod table;
pub mod transfers;
pub mod types;
pub mod vouch;

use crate::amounts::{apply_bps, bps_part, bps_part_fits, fits_i128};
use crate::errors::Failure;
use crate::stakes::{find_voucher, first_position, running_totals_fit, stake_total, sum_stakes, StakeEntry};
use crate::table::Table;
use crate::transfers::{follows, follows_unit, Outcome, TokenTransfer};

verus! {

/// Yield paid to vouchers on repayment: 2% of their stake.
pub const YIELD_BPS: i128 = 200;

/// Slash penalty on default: 50% of voucher stake burned.
pub const SLASH_BPS: i128 = 5000;

/// The storage keys of the contract.
pub enum DataKey {
    /// borrower → `LoanRecord`
    Loan(String),
    /// borrower → list of `VouchRecord`
    Vouches(String),
    /// the address allowed to call `slash`
    Admin,
    /// the token contract that stakes and loans are paid in
    Token,
}

/// A loan, stored under its borrower.
#[derive(Debug)]
pub struct LoanRecord {
    pub borrower: String,
    /// in stroops
    pub amount: i128,
    pub repaid: bool,
    pub defaulted: bool,
}

impl Clone for LoanRecord {
    fn clone(&self) -> (r: Self)
        ensures
            r == *self,
    {
        LoanRecord {
            borrower: self.borrower.clone(),
            amount: self.amount,
            repaid: self.repaid,
            defaulted: self.defaulted,
        }
    }
}

/// Stake that one voucher holds for a borrower.
#[derive(Debug)]
pub struct VouchRecord {
    pub voucher: String,
    /// in stroops
    pub stake: i128,
}

impl Clone for VouchRecord {
    fn clone(&self) -> (r: Self)
        ensures
            r == *self,
    {
        VouchRecord { voucher: self.voucher.clone(), stake: self.stake }
    }
}

impl StakeEntry for VouchRecord {
    open spec fn voucher_key(&self) -> Seq<char> {
        self.voucher@
    }

    open spec fn stake_amount(&self) -> i128 {
        self.stake
    }

    fn voucher(&self) -> (r: &String) {
        &self.voucher
    }

    fn stake(&self) -> (r: i128) {
        self.stake
    }
}

/// A copy of a list of vouch records.
pub fn copy_vouches(list: &Vec<VouchRecord>) -> (r: Vec<VouchRecord>)
    ensures
        r@ == list@,
{
    let mut out: Vec<VouchRecord> = Vec::new();
    let mut i: usize = 0;
    while i < list.len()
        invariant
            i <= list@.len(),
            out@ == list@.take(i as int),
        decreases list@.len() - i,
    {
        out.push(list[i].clone());
        assert(out@ =~= list@.take(i as int + 1));
        i = i + 1;
    }
    assert(list@.take(i as int) =~= list@);
    out
}

/// The contract's storage.
pub struct QuorumCreditContract {
    /// instance entry `Admin`
    pub admin: Option<String>,
    /// instance entry `Token`
    pub token: Option<String>,
    /// persistent entries `Loan(borrower)`
    pub loans: Table<LoanRecord>,
    /// persistent entries `Vouches(borrower)`
    pub vouches: Table<Vec<VouchRecord>>,
}

/// The contract's storage as mathematical values.
pub struct ContractModel {
    pub admin: Option<Seq<char>>,
    pub token: Option<Seq<char>>,
    pub loans: Map<Seq<char>, LoanRecord>,
    pub vouches: Map<Seq<char>, Seq<VouchRecord>>,
}

/// The text of an optional address.
pub open spec fn address_view(a: Option<String>) -> Option<Seq<char>> {
    match a {
        Some(s) => Some(s@),
        None => None,
    }
}

impl View for QuorumCreditContract {
    type V = ContractModel;

    open spec fn view(&self) -> ContractModel {
        ContractModel {
            admin: address_view(self.admin),
            token: address_view(self.token),
            loans: self.loans@,
            vouches: self.vouches@.map_values(|v: Vec<VouchRecord>| v@),
        }
    }
}

impl ContractModel {
    /// No borrower's entry holds an empty list of vouches: the list is
    /// appended to when written and its entry removed when it empties.
    pub open spec fn wf(self) -> bool {
        forall|b: Seq<char>| #[trigger] self.vouches.contains_key(b) ==> self.vouches[b].len() > 0
    }

    /// The vouches stored for `borrower`; none when the entry is absent.
    pub open spec fn vouches_of(self, borrower: Seq<char>) -> Seq<VouchRecord> {
        if self.vouches.contains_key(borrower) {
            self.vouches[borrower]
        } else {
            Seq::empty()
        }
    }
}

/// What a voucher is paid on repayment: the stake plus `YIELD_BPS` of it.
pub open spec fn repayment_of(stake: i128) -> int {
    stake + bps_part(stake as int, YIELD_BPS as int)
}

/// Whether the repayment of `stake` can be computed in `i128`.
pub open spec fn repayment_fits(stake: i128) -> bool {
    bps_part_fits(stake as int, YIELD_BPS as int) && fits_i128(repayment_of(stake))
}

/// The part of `stake` handed back when a loan defaults.
pub open spec fn slash_refund_of(stake: i128) -> int {
    stake - bps_part(stake as int, SLASH_BPS as int)
}

/// The payout to one voucher on repayment.
pub open spec fn repayment_transfer(v: VouchRecord) -> TokenTransfer {
    TokenTransfer::Payout { to: v.voucher, amount: repayment_of(v.stake) as i128 }
}

/// The payouts to vouchers when a loan defaults: the unslashed part of each
/// stake, for each stake whose unslashed part is positive, in list order.
pub open spec fn slash_refunds(vs: Seq<VouchRecord>) -> Seq<TokenTransfer>
    decreases vs.len(),
{
    if vs.len() == 0 {
        Seq::empty()
    } else {
        let v = vs.last();
        slash_refunds(vs.drop_last()) + if slash_refund_of(v.stake) > 0 {
            seq![TokenTransfer::Payout { to: v.voucher, amount: slash_refund_of(v.stake) as i128 }]
        } else {
            Seq::empty()
        }
    }
}

/// The outcome of `initialize`.
pub open spec fn initialize_outcome(m: ContractModel, admin: String, token: String) -> Result<
    ContractModel,
    Failure,
> {
    if m.admin is Some {
        Err(Failure::AlreadyInitialized)
    } else {
        Ok(ContractModel { admin: Some(admin@), token: Some(token@), ..m })
    }
}

/// The outcome of `vouch`: the stake moves into the contract and a record of it
/// is appended to the borrower's vouches.
pub open spec fn vouch_outcome(m: ContractModel, voucher: String, borrower: String, stake: i128) -> Outcome<
    ContractModel,
> {
    if m.token is None {
        Err(Failure::NotInitialized)
    } else {
        Ok(
            (
                ContractModel {
                    vouches: m.vouches.insert(
                        borrower@,
                        m.vouches_of(borrower@).push(VouchRecord { voucher, stake }),
                    ),
                    ..m
                },
                seq![TokenTransfer::Deposit { from: voucher, amount: stake }],
            ),
        )
    }
}

/// The outcome of `request_loan`: the loan is paid out when the total stake
/// reaches `threshold`, and recorded as neither repaid nor defaulted.
pub open spec fn request_loan_outcome(
    m: ContractModel,
    borrower: String,
    amount: i128,
    threshold: i128,
) -> Outcome<ContractModel> {
    let vs = m.vouches_of(borrower@);
    if !running_totals_fit(vs) {
        Err(Failure::ArithmeticOverflow)
    } else if stake_total(vs) < threshold {
        Err(Failure::InsufficientTrustStake)
    } else if m.token is None {
        Err(Failure::NotInitialized)
    } else {
        Ok(
            (
                ContractModel {
                    loans: m.loans.insert(
                        borrower@,
                        LoanRecord { borrower, amount, repaid: false, defaulted: false },
                    ),
                    ..m
                },
                seq![TokenTransfer::Payout { to: borrower, amount }],
            ),
        )
    }
}

/// The outcome of `repay`: the borrower pays back the loan, every voucher is
/// paid stake plus yield, and the loan is marked repaid.
pub open spec fn repay_outcome(m: ContractModel, borrower: String) -> Outcome<ContractModel> {
    let vs = m.vouches_of(borrower@);
    if !m.loans.contains_key(borrower@) {
        Err(Failure::NoActiveLoan)
    } else if m.loans[borrower@].defaulted {
        Err(Failure::LoanAlreadyDefaulted)
    } else if m.loans[borrower@].repaid {
        Err(Failure::LoanAlreadyRepaid)
    } else if m.token is None {
        Err(Failure::NotInitialized)
    } else if exists|i: int| 0 <= i < vs.len() && !repayment_fits(#[trigger] vs[i].stake) {
        Err(Failure::ArithmeticOverflow)
    } else {
        let loan = m.loans[borrower@];
        Ok(
            (
                ContractModel {
                    loans: m.loans.insert(borrower@, LoanRecord { repaid: true, ..loan }),
                    ..m
                },
                seq![TokenTransfer::Deposit { from: borrower, amount: loan.amount }] + vs.map_values(
                    |v: VouchRecord| repayment_transfer(v),
                ),
            ),
        )
    }
}

/// The outcome of `slash`: the loan is marked defaulted and every voucher gets
/// back the unslashed half of the stake.
pub open spec fn slash_outcome(m: ContractModel, borrower: String) -> Outcome<ContractModel> {
    let vs = m.vouches_of(borrower@);
    if m.admin is None {
        Err(Failure::NotInitialized)
    } else if !m.loans.contains_key(borrower@) {
        Err(Failure::NoActiveLoan)
    } else if m.loans[borrower@].repaid {
        Err(Failure::LoanAlreadyRepaid)
    } else if m.loans[borrower@].defaulted {
        Err(Failure::AlreadyDefaulted)
    } else if m.token is None {
        Err(Failure::NotInitialized)
    } else if exists|i: int|
        0 <= i < vs.len() && !bps_part_fits((#[trigger] vs[i].stake) as int, SLASH_BPS as int) {
        Err(Failure::ArithmeticOverflow)
    } else {
        let loan = m.loans[borrower@];
        Ok(
            (
                ContractModel {
                    loans: m.loans.insert(borrower@, LoanRecord { defaulted: true, ..loan }),
                    ..m
                },
                slash_refunds(vs),
            ),
        )
    }
}

/// The outcome of `withdraw_vouch`: before any loan exists, the voucher's first
/// record is removed (the entry too, when it was the last) and its exact stake
/// returned.
pub open spec fn withdraw_vouch_outcome(m: ContractModel, voucher: String, borrower: String) -> Outcome<
    ContractModel,
> {
    if m.loans.contains_key(borrower@) {
        Err(Failure::LoanAlreadyActive)
    } else if !m.vouches.contains_key(borrower@) {
        Err(Failure::VouchNotFound)
    } else {
        let vs = m.vouches[borrower@];
        match first_position(vs, voucher@) {
            None => Err(Failure::VouchNotFound),
            Some(i) => if m.token is None {
                Err(Failure::NotInitialized)
            } else {
                let rest = vs.remove(i);
                Ok(
                    (
                        ContractModel {
                            vouches: if rest.len() == 0 {
                                m.vouches.remove(borrower@)
                            } else {
                                m.vouches.insert(borrower@, rest)
                            },
                            ..m
                        },
                        seq![TokenTransfer::Payout { to: voucher, amount: vs[i].stake }],
                    ),
                )
            },
        }
    }
}

impl QuorumCreditContract {
    /// The storage of a contract that has just been deployed.
    pub fn new() -> (c: Self)
        ensures
            c@ == (ContractModel {
                admin: None,
                token: None,
                loans: Map::empty(),
                vouches: Map::empty(),
            }),
    {
        let c = QuorumCreditContract {
            admin: None,
            token: None,
            loans: Table::new(),
            vouches: Table::new(),
        };
        assert(c@.vouches =~= Map::<Seq<char>, Seq<VouchRecord>>::empty());
        c
    }

    /// One-time initialisation: set admin and XLM token address.
    pub fn initialize(&mut self, admin: String, token: String) -> (r: Result<(), Failure>)
        ensures
            follows_unit(r, old(self)@, final(self)@, initialize_outcome(old(self)@, admin, token)),
    {
        if self.admin.is_some() {
            return Err(Failure::AlreadyInitialized);
        }
        self.admin = Some(admin);
        self.token = Some(token);
        Ok(())
    }

    /// The token contract address; fails when the contract is not initialised.
    fn token(&self) -> (r: Result<String, Failure>)
        ensures
            match r {
                Ok(t) => self.token == Some(t),
                Err(f) => self.token is None && f == Failure::NotInitialized,
            },
    {
        match &self.token {
            Some(t) => Ok(t.clone()),
            None => Err(Failure::NotInitialized),
        }
    }

    /// The vouches stored for `borrower` (none when the entry is absent).
    pub fn get_vouches(&self, borrower: &String) -> (r: Vec<VouchRecord>)
        ensures
            r@ == self@.vouches_of(borrower@),
    {
        match self.vouches.get(borrower) {
            Some(list) => copy_vouches(list),
            None => Vec::new(),
        }
    }

    /// The loan stored for `borrower`, if any.
    pub fn get_loan(&self, borrower: &String) -> (r: Option<LoanRecord>)
        ensures
            r == (if self@.loans.contains_key(borrower@) {
                Some(self@.loans[borrower@])
            } else {
                None::<LoanRecord>
            }),
    {
        match self.loans.get(borrower) {
            Some(loan) => Some(loan.clone()),
            None => None,
        }
    }

    /// Stake XLM to vouch for a borrower.
    pub fn vouch(&mut self, voucher: String, borrower: String, stake: i128) -> (r: Result<
        Vec<TokenTransfer>,
        Failure,
    >)
        ensures
            follows(r, old(self)@, final(self)@, vouch_outcome(old(self)@, voucher, borrower, stake)),
    {
        let _token = self.token()?;
        let ghost before = self@;
        let mut list = match self.vouches.take(&borrower) {
            Some(list) => list,
            None => Vec::new(),
        };
        let transfer = TokenTransfer::Deposit { from: voucher.clone(), amount: stake };
        list.push(VouchRecord { voucher, stake });
        let ghost new_list = list@;
        self.vouches.insert(borrower, list);
        let mut transfers = Vec::new();
        transfers.push(transfer);
        proof {
            assert(new_list == before.vouches_of(borrower@).push(VouchRecord { voucher, stake }));
            assert(self@.vouches =~= before.vouches.insert(borrower@, new_list));
            assert(transfers@ =~= seq![TokenTransfer::Deposit { from: voucher, amount: stake }]);
        }
        Ok(transfers)
    }

    /// Disburse a microloan if total vouched stake meets the threshold.
    pub fn request_loan(&mut self, borrower: String, amount: i128, threshold: i128) -> (r: Result<
        Vec<TokenTransfer>,
        Failure,
    >)
        ensures
            follows(
                r,
                old(self)@,
                final(self)@,
                request_loan_outcome(old(self)@, borrower, amount, threshold),
            ),
            // enough stake on an initialised contract is all a loan needs,
            // whatever loan the borrower had before
            old(self)@.token is Some && running_totals_fit(old(self)@.vouches_of(borrower@))
                && stake_total(old(self)@.vouches_of(borrower@)) >= threshold ==> (r matches Ok(ts)
                && ts@ == seq![TokenTransfer::Payout { to: borrower, amount }]
                && final(self)@.loans == old(self)@.loans.insert(
                borrower@,
                LoanRecord { borrower, amount, repaid: false, defaulted: false },
            )),
    {
        let total = match self.vouches.get(&borrower) {
            Some(list) => sum_stakes(list),
            None => Some(0i128),
        };
        let total = match total {
            Some(t) => t,
            None => {
                return Err(Failure::ArithmeticOverflow);
            },
        };
        if total < threshold {
            return Err(Failure::InsufficientTrustStake);
        }
        let _token = self.token()?;
        let mut transfers = Vec::new();
        transfers.push(TokenTransfer::Payout { to: borrower.clone(), amount });
        let loan = LoanRecord { borrower: borrower.clone(), amount, repaid: false, defaulted: false };
        self.loans.insert(borrower, loan);
        proof {
            assert(transfers@ =~= seq![TokenTransfer::Payout { to: borrower, amount }]);
        }
        Ok(transfers)
    }

    /// Borrower repays loan; vouchers receive 2% yield on their stake.
    pub fn repay(&mut self, borrower: String) -> (r: Result<Vec<TokenTransfer>, Failure>)
        ensures
            follows(r, old(self)@, final(self)@, repay_outcome(old(self)@, borrower)),
            // a repayment only marks the loan repaid; the record keeps borrower and amount
            r is Ok ==> old(self)@.loans.contains_key(borrower@) && final(self)@.loans
                == old(self)@.loans.insert(
                borrower@,
                LoanRecord {
                    borrower: old(self)@.loans[borrower@].borrower,
                    amount: old(self)@.loans[borrower@].amount,
                    repaid: true,
                    defaulted: old(self)@.loans[borrower@].defaulted,
                },
            ),
    {
        let ghost m = self@;
        let mut loan = match self.loans.get(&borrower) {
            Some(loan) => loan.clone(),
            None => {
                return Err(Failure::NoActiveLoan);
            },
        };
        if loan.defaulted {
            return Err(Failure::LoanAlreadyDefaulted);
        }
        if loan.repaid {
            return Err(Failure::LoanAlreadyRepaid);
        }
        let _token = self.token()?;
        let mut transfers = Vec::new();
        transfers.push(TokenTransfer::Deposit { from: borrower.clone(), amount: loan.amount });
        let empty: Vec<VouchRecord> = Vec::new();
        let vouches = match self.vouches.get(&borrower) {
            Some(list) => list,
            None => &empty,
        };
        let ghost vs = m.vouches_of(borrower@);
        assert(vouches@ == vs);
        let ghost head = seq![TokenTransfer::Deposit { from: borrower, amount: loan.amount }];
        let mut i: usize = 0;
        #[verifier::loop_isolation(false)]
        while i < vouches.len()
            invariant
                i <= vouches@.len(),
                vouches@ == vs,
                forall|j: int| 0 <= j < i ==> repayment_fits(#[trigger] vs[j].stake),
                transfers@ == head + vs.take(i as int).map_values(
                    |v: VouchRecord| repayment_transfer(v),
                ),
            decreases vouches@.len() - i,
        {
            let v = &vouches[i];
            let yield_amount = match apply_bps(v.stake, YIELD_BPS) {
                Some(y) => y,
                None => {
                    assert(!repayment_fits(vs[i as int].stake));
                    return Err(Failure::ArithmeticOverflow);
                },
            };
            let amount = match v.stake.checked_add(yield_amount) {
                Some(a) => a,
                None => {
                    assert(!repayment_fits(vs[i as int].stake));
                    return Err(Failure::ArithmeticOverflow);
                },
            };
            transfers.push(TokenTransfer::Payout { to: v.voucher.clone(), amount });
            proof {
                assert(vs.take(i as int + 1).map_values(|v: VouchRecord| repayment_transfer(v))
                    =~= vs.take(i as int).map_values(|v: VouchRecord| repayment_transfer(v)).push(
                    repayment_transfer(vs[i as int]),
                ));
            }
            i = i + 1;
        }
        assert(vs.take(i as int) =~= vs);
        loan.repaid = true;
        self.loans.insert(borrower, loan);
        Ok(transfers)
    }

    /// Admin marks a loan defaulted; 50% of each voucher's stake is slashed.
    pub fn slash(&mut self, borrower: String) -> (r: Result<Vec<TokenTransfer>, Failure>)
        ensures
            follows(r, old(self)@, final(self)@, slash_outcome(old(self)@, borrower)),
    {
        let ghost m = self@;
        if self.admin.is_none() {
            return Err(Failure::NotInitialized);
        }
        let mut loan = match self.loans.get(&borrower) {
            Some(loan) => loan.clone(),
            None => {
                return Err(Failure::NoActiveLoan);
            },
        };
        if loan.repaid {
            return Err(Failure::LoanAlreadyRepaid);
        }
        if loan.defaulted {
            return Err(Failure::AlreadyDefaulted);
        }
        let _token = self.token()?;
        let empty: Vec<VouchRecord> = Vec::new();
        let vouches = match self.vouches.get(&borrower) {
            Some(list) => list,
            None => &empty,
        };
        let ghost vs = m.vouches_of(borrower@);
        assert(vouches@ == vs);
        let mut transfers = Vec::new();
        let mut i: usize = 0;
        #[verifier::loop_isolation(false)]
        while i < vouches.len()
            invariant
                i <= vouches@.len(),
                vouches@ == vs,
                forall|j: int| 0 <= j < i ==> bps_part_fits((#[trigger] vs[j].stake) as int, SLASH_BPS as int),
                transfers@ == slash_refunds(vs.take(i as int)),
            decreases vouches@.len() - i,
        {
            let v = &vouches[i];
            let slash_amount = match apply_bps(v.stake, SLASH_BPS) {
                Some(s) => s,
                None => {
                    assert(!bps_part_fits(vs[i as int].stake as int, SLASH_BPS as int));
                    return Err(Failure::ArithmeticOverflow);
                },
            };
            let returned = v.stake - slash_amount;
            // Return remaining 50% to voucher; slashed half stays in contract.
            if returned > 0 {
                transfers.push(TokenTransfer::Payout { to: v.voucher.clone(), amount: returned });
            }
            proof {
                assert(vs.take(i as int + 1).drop_last() =~= vs.take(i as int));
            }
            i = i + 1;
        }
        assert(vs.take(i as int) =~= vs);
        loan.defaulted = true;
        self.loans.insert(borrower, loan);
        Ok(transfers)
    }

    /// Withdraw a vouch before any loan is active, returning the exact stake to the voucher.
    pub fn withdraw_vouch(&mut self, voucher: String, borrower: String) -> (r: Result<
        Vec<TokenTransfer>,
        Failure,
    >)
        ensures
            follows(r, old(self)@, final(self)@, withdraw_vouch_outcome(old(self)@, voucher, borrower)),
            // any loan record, active, repaid or defaulted, blocks withdrawal
            old(self)@.loans.contains_key(borrower@) ==> (r matches Err(f) && f
                == Failure::LoanAlreadyActive && final(self)@ == old(self)@),
    {
        let ghost m = self@;
        if self.loans.contains_key(&borrower) {
            return Err(Failure::LoanAlreadyActive);
        }
        let idx = match self.vouches.get(&borrower) {
            Some(list) => match find_voucher(list, &voucher) {
                Some(i) => i,
                None => {
                    return Err(Failure::VouchNotFound);
                },
            },
            None => {
                return Err(Failure::VouchNotFound);
            },
        };
        let _token = self.token()?;
        let mut list = match self.vouches.take(&borrower) {
            Some(list) => list,
            None => Vec::new(),
        };
        let ghost vs = list@;
        assert(vs == m.vouches[borrower@]);
        let record = list.remove(idx);
        let stake = record.stake;
        // Persist updated list or remove the key if empty.
        if list.len() > 0 {
            self.vouches.insert(borrower, list);
        }
        let mut transfers = Vec::new();
        transfers.push(TokenTransfer::Payout { to: voucher, amount: stake });
        proof {
            assert(self@.vouches =~= (if vs.remove(idx as int).len() == 0 {
                m.vouches.remove(borrower@)
            } else {
                m.vouches.insert(borrower@, vs.remove(idx as int))
            }));
            assert(transfers@ =~= seq![TokenTransfer::Payout { to: voucher, amount: vs[idx as int].stake }]);
        }
        Ok(transfers)
    }
}

} // verus!
