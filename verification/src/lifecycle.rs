//! What holds across calls of the loan contract.
use vstd::prelude::*;
use crate::errors::Failure;
use crate::stakes::{has_voucher, lemma_first_position_push, running_totals_fit, stake_total, lemma_stake_total_push};
use crate::transfers::TokenTransfer;
use crate::{
    initialize_outcome, repay_outcome, request_loan_outcome, slash_outcome, vouch_outcome,
    withdraw_vouch_outcome, ContractModel, LoanRecord, VouchRecord,
};

verus! {

/// Initialisation happens once: after a successful `initialize`, every further
/// `initialize` is refused with "already initialized".
pub proof fn initialize_only_once(m: ContractModel, admin: String, token: String, admin2: String, token2: String)
    requires
        initialize_outcome(m, admin, token) is Ok,
    ensures
        initialize_outcome(initialize_outcome(m, admin, token)->Ok_0, admin2, token2) == Err::<
            ContractModel,
            Failure,
        >(Failure::AlreadyInitialized),
{
}

/// Every entry point keeps the storage well formed: no borrower's entry ever
/// holds an empty list of vouches.
pub proof fn entry_points_keep_storage_well_formed(
    m: ContractModel,
    admin: String,
    token: String,
    voucher: String,
    borrower: String,
    stake: i128,
    amount: i128,
    threshold: i128,
)
    requires
        m.wf(),
    ensures
        initialize_outcome(m, admin, token) is Ok ==> initialize_outcome(m, admin, token)->Ok_0.wf(),
        vouch_outcome(m, voucher, borrower, stake) is Ok ==> vouch_outcome(
            m,
            voucher,
            borrower,
            stake,
        )->Ok_0.0.wf(),
        request_loan_outcome(m, borrower, amount, threshold) is Ok ==> request_loan_outcome(
            m,
            borrower,
            amount,
            threshold,
        )->Ok_0.0.wf(),
        repay_outcome(m, borrower) is Ok ==> repay_outcome(m, borrower)->Ok_0.0.wf(),
        slash_outcome(m, borrower) is Ok ==> slash_outcome(m, borrower)->Ok_0.0.wf(),
        withdraw_vouch_outcome(m, voucher, borrower) is Ok ==> withdraw_vouch_outcome(
            m,
            voucher,
            borrower,
        )->Ok_0.0.wf(),
{
}

/// Withdrawing undoes vouching: when no loan exists for the borrower and the
/// voucher holds no stake for it yet, `vouch` followed by `withdraw_vouch`
/// leaves the storage exactly as it was (the entry of an unvouched borrower is
/// gone again) and pays the voucher back exactly the stake.
pub proof fn withdraw_undoes_vouch(m: ContractModel, voucher: String, borrower: String, stake: i128)
    requires
        m.wf(),
        m.token is Some,
        !m.loans.contains_key(borrower@),
        !has_voucher(m.vouches_of(borrower@), voucher@),
    ensures
        vouch_outcome(m, voucher, borrower, stake) is Ok,
        withdraw_vouch_outcome(vouch_outcome(m, voucher, borrower, stake)->Ok_0.0, voucher, borrower)
            == Ok::<(ContractModel, Seq<TokenTransfer>), Failure>(
            (m, seq![TokenTransfer::Payout { to: voucher, amount: stake }]),
        ),
{
    let vs = m.vouches_of(borrower@);
    let r = VouchRecord { voucher, stake };
    let m1 = vouch_outcome(m, voucher, borrower, stake)->Ok_0.0;
    assert(m1.vouches[borrower@] == vs.push(r));
    lemma_first_position_push(vs, r);
    assert(vs.push(r).remove(vs.len() as int) =~= vs);
    if vs.len() == 0 {
        assert(m1.vouches.remove(borrower@) =~= m.vouches);
    } else {
        assert(m1.vouches.insert(borrower@, vs) =~= m.vouches);
    }
    let m2 = withdraw_vouch_outcome(m1, voucher, borrower)->Ok_0.0;
    assert(m2 =~= m) by {
        assert(m2.vouches =~= m.vouches);
    }
}

/// Vouching adds exactly the stake to the borrower's total stake.
pub proof fn vouch_adds_stake(m: ContractModel, voucher: String, borrower: String, stake: i128)
    requires
        vouch_outcome(m, voucher, borrower, stake) is Ok,
    ensures
        stake_total(vouch_outcome(m, voucher, borrower, stake)->Ok_0.0.vouches_of(borrower@))
            == stake_total(m.vouches_of(borrower@)) + stake,
{
    lemma_stake_total_push(m.vouches_of(borrower@), VouchRecord { voucher, stake });
}

/// Once a loan has been disbursed, no vouch for that borrower can be withdrawn.
pub proof fn no_withdrawal_after_loan(
    m: ContractModel,
    borrower: String,
    amount: i128,
    threshold: i128,
    voucher: String,
)
    requires
        request_loan_outcome(m, borrower, amount, threshold) is Ok,
    ensures
        withdraw_vouch_outcome(
            request_loan_outcome(m, borrower, amount, threshold)->Ok_0.0,
            voucher,
            borrower,
        ) == Err::<(ContractModel, Seq<TokenTransfer>), Failure>(Failure::LoanAlreadyActive),
{
}

/// A repaid loan is settled: it can be neither repaid again nor slashed.
pub proof fn repaid_loan_is_settled(m: ContractModel, borrower: String)
    requires
        repay_outcome(m, borrower) is Ok,
    ensures
        repay_outcome(repay_outcome(m, borrower)->Ok_0.0, borrower) == Err::<
            (ContractModel, Seq<TokenTransfer>),
            Failure,
        >(Failure::LoanAlreadyRepaid),
        m.admin is Some ==> slash_outcome(repay_outcome(m, borrower)->Ok_0.0, borrower) == Err::<
            (ContractModel, Seq<TokenTransfer>),
            Failure,
        >(Failure::LoanAlreadyRepaid),
{
}

/// A defaulted loan is settled: it can be neither slashed again nor repaid.
pub proof fn defaulted_loan_is_settled(m: ContractModel, borrower: String)
    requires
        slash_outcome(m, borrower) is Ok,
    ensures
        slash_outcome(slash_outcome(m, borrower)->Ok_0.0, borrower) == Err::<
            (ContractModel, Seq<TokenTransfer>),
            Failure,
        >(Failure::AlreadyDefaulted),
        repay_outcome(slash_outcome(m, borrower)->Ok_0.0, borrower) == Err::<
            (ContractModel, Seq<TokenTransfer>),
            Failure,
        >(Failure::LoanAlreadyDefaulted),
{
}

/// Any loan record of a borrower, active, repaid or defaulted, blocks the
/// withdrawal of vouches for that borrower: the call is refused with "loan
/// already active" and nothing is paid out.
pub proof fn loan_record_blocks_withdrawal(m: ContractModel, voucher: String, borrower: String)
    requires
        m.loans.contains_key(borrower@),
    ensures
        withdraw_vouch_outcome(m, voucher, borrower) == Err::<(ContractModel, Seq<TokenTransfer>), Failure>(
            Failure::LoanAlreadyActive,
        ),
{
}

/// A stake that was returned by `repay` or `slash` cannot be withdrawn again:
/// after either succeeds, `withdraw_vouch` for that borrower is refused.
pub proof fn no_withdrawal_after_settlement(m: ContractModel, voucher: String, borrower: String)
    ensures
        repay_outcome(m, borrower) is Ok ==> withdraw_vouch_outcome(
            repay_outcome(m, borrower)->Ok_0.0,
            voucher,
            borrower,
        ) == Err::<(ContractModel, Seq<TokenTransfer>), Failure>(Failure::LoanAlreadyActive),
        slash_outcome(m, borrower) is Ok ==> withdraw_vouch_outcome(
            slash_outcome(m, borrower)->Ok_0.0,
            voucher,
            borrower,
        ) == Err::<(ContractModel, Seq<TokenTransfer>), Failure>(Failure::LoanAlreadyActive),
{
}

/// Enough stake is all a loan needs: on an initialised contract whose stakes
/// for the borrower sum to at least the threshold, `request_loan` pays the
/// amount to the borrower and records a fresh loan of that amount, whatever
/// loan the borrower had before, and touches nothing else.
pub proof fn loan_granted_on_enough_stake(m: ContractModel, borrower: String, amount: i128, threshold: i128)
    requires
        m.token is Some,
        running_totals_fit(m.vouches_of(borrower@)),
        stake_total(m.vouches_of(borrower@)) >= threshold,
    ensures
        request_loan_outcome(m, borrower, amount, threshold) matches Ok((m2, ts)) && ts == (seq![
            TokenTransfer::Payout { to: borrower, amount },
        ]) && m2.loans[borrower@] == (LoanRecord { borrower, amount, repaid: false, defaulted: false })
            && m2.vouches == m.vouches && m2.admin == m.admin && m2.token == m.token
            && forall|b: Seq<char>| b != borrower@ ==> (#[trigger] m2.loans.contains_key(b)
                == m.loans.contains_key(b) && m2.loans[b] == m.loans[b]),
{
}

/// A borrower whose loan was repaid can borrow again on the same stake.
pub proof fn repaid_borrower_can_borrow_again(
    m: ContractModel,
    borrower: String,
    amount: i128,
    threshold: i128,
)
    requires
        repay_outcome(m, borrower) is Ok,
        running_totals_fit(m.vouches_of(borrower@)),
        stake_total(m.vouches_of(borrower@)) >= threshold,
    ensures
        (request_loan_outcome(repay_outcome(m, borrower)->Ok_0.0, borrower, amount, threshold) is Ok),
{
    let m1 = repay_outcome(m, borrower)->Ok_0.0;
    assert(m1.vouches_of(borrower@) == m.vouches_of(borrower@));
    loan_granted_on_enough_stake(m1, borrower, amount, threshold);
}

/// Repaying keeps the terms of the loan: the stored record afterwards is the
/// one before with only `repaid` set (same borrower and amount, `defaulted`
/// unchanged), other borrowers' loans and all vouches are untouched, and the
/// borrower pays in exactly the recorded amount.
pub proof fn repay_keeps_loan_terms(m: ContractModel, borrower: String)
    requires
        repay_outcome(m, borrower) is Ok,
    ensures
        repay_outcome(m, borrower) matches Ok((m2, ts)) && m.loans.contains_key(borrower@)
            && m2.loans[borrower@].borrower == m.loans[borrower@].borrower
            && m2.loans[borrower@].amount == m.loans[borrower@].amount && m2.loans[borrower@].repaid
            && m2.loans[borrower@].defaulted == m.loans[borrower@].defaulted
            && m2.loans.dom() == m.loans.dom() && m2.vouches == m.vouches
            && (forall|b: Seq<char>| b != borrower@ && #[trigger] m.loans.contains_key(b)
                ==> m2.loans[b] == m.loans[b]) && ts[0] == (TokenTransfer::Deposit {
            from: borrower,
            amount: m.loans[borrower@].amount,
        }),
{
    let m2 = repay_outcome(m, borrower)->Ok_0.0;
    assert(m2.loans.dom() =~= m.loans.dom());
}

} // verus!
