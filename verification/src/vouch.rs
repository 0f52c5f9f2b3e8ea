//! Vouching under the multi-admin protocol: stakes are added, raised, lowered,
//! withdrawn and handed over while no loan is active.
use vstd::prelude::*;
use crate::addresses::{first_position as first_listed, find_address, lists};
use crate::errors::{ContractError, Failure};
use crate::helpers::{has_active_loan, require_not_paused, require_positive_amount, token};
use crate::stakes::{
    find_voucher, first_position, has_voucher, running_totals_fit, stake_total, sum_stakes,
};
use crate::transfers::{follows, follows_unit, Outcome, TokenTransfer};
use crate::types::{ContractStorage, StorageModel, VouchRecord};

verus! {

/// The outcome of vouching once, the pause aside: the stake moves into the
/// contract, a record of it (with the ledger time `now`) is appended to the
/// borrower's vouches, the borrower to the voucher's history, and `now`
/// becomes the voucher's last vouch time.
pub open spec fn do_vouch_outcome(
    m: StorageModel,
    voucher: String,
    borrower: String,
    stake: i128,
    now: u64,
) -> Outcome<StorageModel> {
    let min_stake = match m.min_stake {
        Some(v) => v,
        None => 0,
    };
    if stake <= 0 {
        Err(Failure::Error(ContractError::InvalidAmount))
    } else if voucher@ == borrower@ {
        Err(Failure::SelfVouch)
    } else if min_stake > 0 && stake < min_stake {
        Err(Failure::Error(ContractError::MinStakeNotMet))
    } else if has_voucher(m.vouches_of(borrower@), voucher@) {
        Err(Failure::Error(ContractError::DuplicateVouch))
    } else if m.has_active_loan(borrower@) {
        Err(Failure::Error(ContractError::ActiveLoanExists))
    } else if m.config is None {
        Err(Failure::NotInitialized)
    } else {
        Ok(
            (
                StorageModel {
                    voucher_history: m.voucher_history.insert(
                        voucher@,
                        m.history_of(voucher@).push(borrower),
                    ),
                    vouches: m.vouches.insert(
                        borrower@,
                        m.vouches_of(borrower@).push(
                            VouchRecord { voucher, stake, vouch_timestamp: now },
                        ),
                    ),
                    last_vouch_timestamp: m.last_vouch_timestamp.insert(voucher@, now),
                    ..m
                },
                seq![TokenTransfer::Deposit { from: voucher, amount: stake }],
            ),
        )
    }
}

/// The outcome of `vouch`.
pub open spec fn vouch_outcome(
    m: StorageModel,
    voucher: String,
    borrower: String,
    stake: i128,
    now: u64,
) -> Outcome<StorageModel> {
    if m.is_paused() {
        Err(Failure::Error(ContractError::ContractPaused))
    } else {
        do_vouch_outcome(m, voucher, borrower, stake, now)
    }
}

/// Vouching for the first `borrowers.len()` pairs in turn: the first failure
/// is the outcome, else the last state and all transfers in order.
pub open spec fn vouch_each(
    m: StorageModel,
    voucher: String,
    borrowers: Seq<String>,
    stakes: Seq<i128>,
    now: u64,
) -> Outcome<StorageModel>
    decreases borrowers.len(),
{
    if borrowers.len() == 0 {
        Ok((m, Seq::empty()))
    } else {
        match vouch_each(m, voucher, borrowers.drop_last(), stakes.drop_last(), now) {
            Err(f) => Err(f),
            Ok((m1, t1)) => match do_vouch_outcome(m1, voucher, borrowers.last(), stakes.last(), now) {
                Err(f) => Err(f),
                Ok((m2, t2)) => Ok((m2, t1 + t2)),
            },
        }
    }
}

/// The outcome of `batch_vouch`: vouching for each borrower with the stake at
/// the same position, as one invocation.
pub open spec fn batch_vouch_outcome(
    m: StorageModel,
    voucher: String,
    borrowers: Seq<String>,
    stakes: Seq<i128>,
    now: u64,
) -> Outcome<StorageModel> {
    if m.is_paused() {
        Err(Failure::Error(ContractError::ContractPaused))
    } else if borrowers.len() != stakes.len() {
        Err(Failure::BatchLengthMismatch)
    } else if borrowers.len() == 0 {
        Err(Failure::EmptyBatch)
    } else {
        vouch_each(m, voucher, borrowers, stakes, now)
    }
}

/// The outcome of `increase_stake`: the voucher pays `additional` in and the
/// first record of the voucher grows by it.
pub open spec fn increase_stake_outcome(
    m: StorageModel,
    voucher: String,
    borrower: String,
    additional: i128,
) -> Outcome<StorageModel> {
    if m.is_paused() {
        Err(Failure::Error(ContractError::ContractPaused))
    } else if additional <= 0 {
        Err(Failure::Error(ContractError::InvalidAmount))
    } else if !m.vouches.contains_key(borrower@) {
        Err(Failure::VouchNotFound)
    } else {
        let vs = m.vouches[borrower@];
        match first_position(vs, voucher@) {
            None => Err(Failure::VouchNotFound),
            Some(i) => if m.config is None {
                Err(Failure::NotInitialized)
            } else if vs[i].stake + additional > i128::MAX {
                Err(Failure::ArithmeticOverflow)
            } else {
                let raised = VouchRecord { stake: (vs[i].stake + additional) as i128, ..vs[i] };
                Ok(
                    (
                        StorageModel {
                            vouches: m.vouches.insert(borrower@, vs.update(i, raised)),
                            ..m
                        },
                        seq![TokenTransfer::Deposit { from: voucher, amount: additional }],
                    ),
                )
            },
        }
    }
}

/// The borrower's vouches after the record at `i` lost `amount` of stake: the
/// record goes when nothing is left of it.
pub open spec fn decreased(vs: Seq<VouchRecord>, i: int, amount: i128) -> Seq<VouchRecord> {
    let left = vs[i].stake - amount;
    if left == 0 {
        vs.remove(i)
    } else {
        vs.update(i, VouchRecord { stake: left as i128, ..vs[i] })
    }
}

/// The vouch entries with the list of `borrower` replaced by `vs`, the entry
/// removed when `vs` is empty.
pub open spec fn store_list(
    entries: Map<Seq<char>, Seq<VouchRecord>>,
    borrower: Seq<char>,
    vs: Seq<VouchRecord>,
) -> Map<Seq<char>, Seq<VouchRecord>> {
    if vs.len() == 0 {
        entries.remove(borrower)
    } else {
        entries.insert(borrower, vs)
    }
}

/// The outcome of `decrease_stake`: before any loan is active, `amount` of the
/// voucher's stake is paid back and taken off its first record.
pub open spec fn decrease_stake_outcome(
    m: StorageModel,
    voucher: String,
    borrower: String,
    amount: i128,
) -> Outcome<StorageModel> {
    if m.is_paused() {
        Err(Failure::Error(ContractError::ContractPaused))
    } else if amount <= 0 {
        Err(Failure::DecreaseNotPositive)
    } else if m.has_active_loan(borrower@) {
        Err(Failure::LoanAlreadyActive)
    } else if !m.vouches.contains_key(borrower@) {
        Err(Failure::VouchNotFound)
    } else {
        let vs = m.vouches[borrower@];
        match first_position(vs, voucher@) {
            None => Err(Failure::VouchNotFound),
            Some(i) => if amount > vs[i].stake {
                Err(Failure::DecreaseExceedsStake)
            } else if m.config is None {
                Err(Failure::NotInitialized)
            } else {
                Ok(
                    (
                        StorageModel {
                            vouches: store_list(m.vouches, borrower@, decreased(vs, i, amount)),
                            ..m
                        },
                        seq![TokenTransfer::Payout { to: voucher, amount }],
                    ),
                )
            },
        }
    }
}

/// The outcome of `withdraw_vouch`: before any loan is active, the voucher's
/// first record is removed and its stake paid back.
pub open spec fn withdraw_vouch_outcome(m: StorageModel, voucher: String, borrower: String) -> Outcome<
    StorageModel,
> {
    if m.is_paused() {
        Err(Failure::Error(ContractError::ContractPaused))
    } else if m.has_active_loan(borrower@) {
        Err(Failure::LoanAlreadyActive)
    } else if !m.vouches.contains_key(borrower@) {
        Err(Failure::Error(ContractError::NoActiveLoan))
    } else {
        let vs = m.vouches[borrower@];
        match first_position(vs, voucher@) {
            None => Err(Failure::Error(ContractError::UnauthorizedCaller)),
            Some(i) => if m.config is None {
                Err(Failure::NotInitialized)
            } else {
                Ok(
                    (
                        StorageModel { vouches: store_list(m.vouches, borrower@, vs.remove(i)), ..m },
                        seq![TokenTransfer::Payout { to: voucher, amount: vs[i].stake }],
                    ),
                )
            },
        }
    }
}

/// The vouches of a borrower after the first record of `from` passed to `to`:
/// merged into the first record of `to` when there is one, else re-addressed.
pub open spec fn handed_over(vs: Seq<VouchRecord>, fi: int, to: String) -> Seq<VouchRecord> {
    match first_position(vs, to@) {
        Some(ti) => vs.update(
            ti,
            VouchRecord { stake: (vs[ti].stake + vs[fi].stake) as i128, ..vs[ti] },
        ).remove(fi),
        None => vs.update(fi, VouchRecord { voucher: to, ..vs[fi] }),
    }
}

/// Whether handing the record at `fi` over to `to` overflows a stake.
pub open spec fn hand_over_overflows(vs: Seq<VouchRecord>, fi: int, to: String) -> bool {
    match first_position(vs, to@) {
        Some(ti) => vs[ti].stake + vs[fi].stake > i128::MAX || vs[ti].stake + vs[fi].stake
            < i128::MIN,
        None => false,
    }
}

/// The voucher histories after `borrower` moved from `from`'s history (its
/// first occurrence, if any) to `to`'s history (unless already there).
pub open spec fn moved_history(m: StorageModel, from: String, to: String, borrower: String) -> Map<
    Seq<char>,
    Seq<String>,
> {
    let hf = m.history_of(from@);
    let after_from = match first_listed(hf, borrower@) {
        Some(h) => m.voucher_history.insert(from@, hf.remove(h)),
        None => m.voucher_history,
    };
    let ht = if after_from.contains_key(to@) {
        after_from[to@]
    } else {
        Seq::empty()
    };
    if lists(ht, borrower@) {
        after_from
    } else {
        after_from.insert(to@, ht.push(borrower))
    }
}

/// The outcome of `transfer_vouch`: before any loan is active, the stake of
/// `from` for `borrower` passes to `to`, and so does the borrower in their
/// vouch histories.  Handing over to oneself changes nothing.
pub open spec fn transfer_vouch_outcome(
    m: StorageModel,
    from: String,
    to: String,
    borrower: String,
) -> Result<StorageModel, Failure> {
    if m.is_paused() {
        Err(Failure::Error(ContractError::ContractPaused))
    } else if from@ == to@ {
        Ok(m)
    } else if m.has_active_loan(borrower@) {
        Err(Failure::LoanAlreadyActive)
    } else if !m.vouches.contains_key(borrower@) {
        Err(Failure::Error(ContractError::NoActiveLoan))
    } else {
        let vs = m.vouches[borrower@];
        match first_position(vs, from@) {
            None => Err(Failure::Error(ContractError::UnauthorizedCaller)),
            Some(fi) => if hand_over_overflows(vs, fi, to) {
                Err(Failure::ArithmeticOverflow)
            } else {
                Ok(
                    StorageModel {
                        vouches: m.vouches.insert(borrower@, handed_over(vs, fi, to)),
                        voucher_history: moved_history(m, from, to, borrower),
                        ..m
                    },
                )
            },
        }
    }
}

/// Takes the vouch list of `borrower` out of storage (an empty one when absent).
fn take_list(storage: &mut ContractStorage, borrower: &String) -> (r: Vec<VouchRecord>)
    ensures
        r@ == old(storage)@.vouches_of(borrower@),
        final(storage)@ == (StorageModel {
            vouches: old(storage)@.vouches.remove(borrower@),
            ..old(storage)@
        }),
{
    let r = match storage.vouches.take(borrower) {
        Some(list) => list,
        None => Vec::new(),
    };
    assert(storage@.vouches =~= old(storage)@.vouches.remove(borrower@));
    r
}

/// Stores `list` as the vouches of `borrower`, or removes the entry when it is empty.
fn put_list(storage: &mut ContractStorage, borrower: String, list: Vec<VouchRecord>)
    ensures
        final(storage)@ == (StorageModel {
            vouches: store_list(old(storage)@.vouches, borrower@, list@),
            ..old(storage)@
        }),
{
    let ghost k = borrower@;
    let ghost l = list@;
    if list.len() == 0 {
        storage.vouches.remove(&borrower);
        assert(storage@.vouches =~= old(storage)@.vouches.remove(k));
    } else {
        storage.vouches.insert(borrower, list);
        assert(storage@.vouches =~= old(storage)@.vouches.insert(k, l));
    }
}

/// Stores `list` as the voucher history of `voucher`.
fn put_history(storage: &mut ContractStorage, voucher: String, list: Vec<String>)
    ensures
        final(storage)@ == (StorageModel {
            voucher_history: old(storage)@.voucher_history.insert(voucher@, list@),
            ..old(storage)@
        }),
{
    let ghost k = voucher@;
    let ghost l = list@;
    storage.voucher_history.insert(voucher, list);
    assert(storage@.voucher_history =~= old(storage)@.voucher_history.insert(k, l));
}

/// The voucher history of `voucher`, copied (an empty one when absent).
fn history_copy(storage: &ContractStorage, voucher: &String) -> (r: Vec<String>)
    ensures
        r@ == storage@.history_of(voucher@),
{
    match storage.voucher_history.get(voucher) {
        Some(h) => crate::addresses::copy_addresses(h),
        None => Vec::new(),
    }
}

/// Stake to vouch for a borrower.
pub fn vouch(
    storage: &mut ContractStorage,
    voucher: String,
    borrower: String,
    stake: i128,
    now: u64,
) -> (r: Result<Vec<TokenTransfer>, Failure>)
    ensures
        follows(r, old(storage)@, final(storage)@, vouch_outcome(old(storage)@, voucher, borrower, stake, now)),
{
    require_not_paused(storage)?;
    do_vouch(storage, voucher, borrower, stake, now)
}

fn do_vouch(
    storage: &mut ContractStorage,
    voucher: String,
    borrower: String,
    stake: i128,
    now: u64,
) -> (r: Result<Vec<TokenTransfer>, Failure>)
    ensures
        follows(
            r,
            old(storage)@,
            final(storage)@,
            do_vouch_outcome(old(storage)@, voucher, borrower, stake, now),
        ),
{
    let ghost m = storage@;
    // Validate numeric input: stake must be strictly positive.
    require_positive_amount(stake)?;
    if voucher == borrower {
        return Err(Failure::SelfVouch);
    }
    // Sybil resistance: enforce minimum stake per vouch.
    let min_stake: i128 = match storage.min_stake {
        Some(v) => v,
        None => 0,
    };
    if min_stake > 0 && stake < min_stake {
        return Err(Failure::Error(ContractError::MinStakeNotMet));
    }
    // Reject duplicate vouch before any state mutation or transfer.
    let duplicate = match storage.vouches.get(&borrower) {
        Some(list) => find_voucher(list, &voucher).is_some(),
        None => false,
    };
    if duplicate {
        return Err(Failure::Error(ContractError::DuplicateVouch));
    }
    // Reject vouch if the borrower already has an active loan.
    if has_active_loan(storage, &borrower) {
        return Err(Failure::Error(ContractError::ActiveLoanExists));
    }
    let _token = token(storage)?;
    let mut transfers = Vec::new();
    transfers.push(TokenTransfer::Deposit { from: voucher.clone(), amount: stake });
    // Track voucher → borrowers history.
    let mut history = history_copy(storage, &voucher);
    history.push(borrower.clone());
    put_history(storage, voucher.clone(), history);
    let ghost m1 = storage@;
    let mut list = take_list(storage, &borrower);
    list.push(VouchRecord { voucher: voucher.clone(), stake, vouch_timestamp: now });
    put_list(storage, borrower, list);
    // Record the timestamp of this vouch for rate limiting.
    let ghost vk = voucher@;
    storage.last_vouch_timestamp.insert(voucher, now);
    proof {
        assert(m1.vouches =~= m.vouches);
        assert(transfers@ =~= seq![TokenTransfer::Deposit { from: voucher, amount: stake }]);
        let spec_m = do_vouch_outcome(m, voucher, borrower, stake, now)->Ok_0.0;
        assert(storage@.vouches =~= spec_m.vouches);
        assert(storage@.last_vouch_timestamp =~= spec_m.last_vouch_timestamp);
        assert(storage@.voucher_history =~= spec_m.voucher_history);
    }
    Ok(transfers)
}

/// Vouch for several borrowers at once; either every vouch is made or none.
pub fn batch_vouch(
    storage: &mut ContractStorage,
    voucher: String,
    borrowers: Vec<String>,
    stakes: Vec<i128>,
    now: u64,
) -> (r: Result<Vec<TokenTransfer>, Failure>)
    ensures
        follows(
            r,
            old(storage)@,
            final(storage)@,
            batch_vouch_outcome(old(storage)@, voucher, borrowers@, stakes@, now),
        ),
{
    require_not_paused(storage)?;
    if borrowers.len() != stakes.len() {
        return Err(Failure::BatchLengthMismatch);
    }
    if borrowers.len() == 0 {
        return Err(Failure::EmptyBatch);
    }
    let ghost m = storage@;
    // The entries a vouch writes, kept to roll the batch back.
    let saved_vouches = storage.vouches.copy();
    let saved_history = storage.voucher_history.copy();
    let saved_times = storage.last_vouch_timestamp.copy();
    let mut transfers: Vec<TokenTransfer> = Vec::new();
    let mut i: usize = 0;
    while i < borrowers.len()
        invariant
            old(storage)@ == m,
            !m.is_paused(),
            borrowers@.len() == stakes@.len(),
            borrowers@.len() > 0,
            i <= borrowers@.len(),
            saved_vouches@.dom() == m.vouches.dom(),
            forall|k: Seq<char>| #[trigger]
                saved_vouches@.contains_key(k) ==> saved_vouches@[k]@ == m.vouches[k],
            saved_history@.dom() == m.voucher_history.dom(),
            forall|k: Seq<char>| #[trigger]
                saved_history@.contains_key(k) ==> saved_history@[k]@ == m.voucher_history[k],
            saved_times@ == m.last_vouch_timestamp,
            vouch_each(m, voucher, borrowers@.take(i as int), stakes@.take(i as int), now) == Outcome::<
                StorageModel,
            >::Ok((storage@, transfers@)),
            // a vouch leaves every other entry as it was
            storage@ == (StorageModel {
                vouches: storage@.vouches,
                voucher_history: storage@.voucher_history,
                last_vouch_timestamp: storage@.last_vouch_timestamp,
                ..m
            }),
        decreases borrowers@.len() - i,
    {
        let ghost before = storage@;
        let ghost bs = borrowers@.take(i as int + 1);
        let ghost ss = stakes@.take(i as int + 1);
        assert(bs.drop_last() =~= borrowers@.take(i as int));
        assert(ss.drop_last() =~= stakes@.take(i as int));
        match do_vouch(storage, voucher.clone(), borrowers[i].clone(), stakes[i], now) {
            Ok(ts) => {
                let mut ts = ts;
                transfers.append(&mut ts);
            },
            Err(f) => {
                storage.vouches = saved_vouches;
                storage.voucher_history = saved_history;
                storage.last_vouch_timestamp = saved_times;
                proof {
                    assert(storage@.vouches =~= m.vouches);
                    assert(storage@.voucher_history =~= m.voucher_history);
                    assert(storage@ == m);
                    assert(vouch_each(m, voucher, bs, ss, now) == Outcome::<StorageModel>::Err(f));
                    assert(borrowers@.take(borrowers@.len() as int) =~= borrowers@);
                    lemma_vouch_each_fails_on(m, voucher, borrowers@, stakes@, now, i as int + 1);
                }
                return Err(f);
            },
        }
        i = i + 1;
    }
    assert(borrowers@.take(i as int) =~= borrowers@);
    assert(stakes@.take(i as int) =~= stakes@);
    Ok(transfers)
}

/// Once a prefix of a batch fails, the whole batch fails the same way.
proof fn lemma_vouch_each_fails_on(
    m: StorageModel,
    voucher: String,
    borrowers: Seq<String>,
    stakes: Seq<i128>,
    now: u64,
    k: int,
)
    requires
        0 < k <= borrowers.len(),
        borrowers.len() == stakes.len(),
        vouch_each(m, voucher, borrowers.take(k), stakes.take(k), now) is Err,
    ensures
        vouch_each(m, voucher, borrowers, stakes, now) == vouch_each(
            m,
            voucher,
            borrowers.take(k),
            stakes.take(k),
            now,
        ),
    decreases borrowers.len() - k,
{
    if k < borrowers.len() {
        let bs = borrowers.take(k + 1);
        let ss = stakes.take(k + 1);
        assert(bs.drop_last() =~= borrowers.take(k));
        assert(ss.drop_last() =~= stakes.take(k));
        assert(bs.take(k) =~= borrowers.take(k));
        lemma_vouch_each_fails_on(m, voucher, borrowers, stakes, now, k + 1);
    } else {
        assert(borrowers.take(k) =~= borrowers);
        assert(stakes.take(k) =~= stakes);
    }
}

/// Add to an existing vouch.
pub fn increase_stake(
    storage: &mut ContractStorage,
    voucher: String,
    borrower: String,
    additional: i128,
) -> (r: Result<Vec<TokenTransfer>, Failure>)
    ensures
        follows(
            r,
            old(storage)@,
            final(storage)@,
            increase_stake_outcome(old(storage)@, voucher, borrower, additional),
        ),
{
    let ghost m = storage@;
    require_not_paused(storage)?;
    // Validate numeric input: additional must be strictly positive.
    require_positive_amount(additional)?;
    let idx = match storage.vouches.get(&borrower) {
        Some(list) => match find_voucher(list, &voucher) {
            Some(i) => i,
            None => {
                return Err(Failure::VouchNotFound);
            },
        },
        None => {
            return Err(Failure::VouchNotFound);
        },
    };
    let _token = token(storage)?;
    let current = match storage.vouches.get(&borrower) {
        Some(list) => list[idx].stake,
        None => 0,
    };
    let raised = match current.checked_add(additional) {
        Some(s) => s,
        None => {
            return Err(Failure::ArithmeticOverflow);
        },
    };
    let mut list = take_list(storage, &borrower);
    let mut record = list[idx].clone();
    record.stake = raised;
    list.set(idx, record);
    let ghost new_list = list@;
    put_list(storage, borrower, list);
    let mut transfers = Vec::new();
    transfers.push(TokenTransfer::Deposit { from: voucher, amount: additional });
    proof {
        let spec_m = increase_stake_outcome(m, voucher, borrower, additional)->Ok_0.0;
        assert(new_list =~= spec_m.vouches[borrower@]);
        assert(storage@.vouches =~= spec_m.vouches);
        assert(transfers@ =~= seq![TokenTransfer::Deposit { from: voucher, amount: additional }]);
    }
    Ok(transfers)
}

/// Take part of a stake back before any loan is active.
pub fn decrease_stake(
    storage: &mut ContractStorage,
    voucher: String,
    borrower: String,
    amount: i128,
) -> (r: Result<Vec<TokenTransfer>, Failure>)
    ensures
        follows(
            r,
            old(storage)@,
            final(storage)@,
            decrease_stake_outcome(old(storage)@, voucher, borrower, amount),
        ),
{
    let ghost m = storage@;
    require_not_paused(storage)?;
    if amount <= 0 {
        return Err(Failure::DecreaseNotPositive);
    }
    if has_active_loan(storage, &borrower) {
        return Err(Failure::LoanAlreadyActive);
    }
    let (idx, current) = match storage.vouches.get(&borrower) {
        Some(list) => match find_voucher(list, &voucher) {
            Some(i) => (i, list[i].stake),
            None => {
                return Err(Failure::VouchNotFound);
            },
        },
        None => {
            return Err(Failure::VouchNotFound);
        },
    };
    if amount > current {
        return Err(Failure::DecreaseExceedsStake);
    }
    let _token = token(storage)?;
    let mut list = take_list(storage, &borrower);
    let left = current - amount;
    if left == 0 {
        list.remove(idx);
    } else {
        let mut record = list[idx].clone();
        record.stake = left;
        list.set(idx, record);
    }
    let ghost new_list = list@;
    put_list(storage, borrower, list);
    let mut transfers = Vec::new();
    transfers.push(TokenTransfer::Payout { to: voucher, amount });
    proof {
        let vs = m.vouches[borrower@];
        assert(new_list =~= decreased(vs, idx as int, amount));
        let spec_m = decrease_stake_outcome(m, voucher, borrower, amount)->Ok_0.0;
        assert(storage@.vouches =~= spec_m.vouches);
        assert(transfers@ =~= seq![TokenTransfer::Payout { to: voucher, amount }]);
    }
    Ok(transfers)
}

/// Withdraw a vouch before any loan is active, returning the exact stake to the voucher.
pub fn withdraw_vouch(storage: &mut ContractStorage, voucher: String, borrower: String) -> (r: Result<
    Vec<TokenTransfer>,
    Failure,
>)
    ensures
        follows(r, old(storage)@, final(storage)@, withdraw_vouch_outcome(old(storage)@, voucher, borrower)),
{
    let ghost m = storage@;
    require_not_paused(storage)?;
    if has_active_loan(storage, &borrower) {
        return Err(Failure::LoanAlreadyActive);
    }
    let idx = match storage.vouches.get(&borrower) {
        Some(list) => match find_voucher(list, &voucher) {
            Some(i) => i,
            None => {
                return Err(Failure::Error(ContractError::UnauthorizedCaller));
            },
        },
        None => {
            return Err(Failure::Error(ContractError::NoActiveLoan));
        },
    };
    let _token = token(storage)?;
    let mut list = take_list(storage, &borrower);
    let record = list.remove(idx);
    let ghost new_list = list@;
    put_list(storage, borrower, list);
    let mut transfers = Vec::new();
    transfers.push(TokenTransfer::Payout { to: voucher, amount: record.stake });
    proof {
        let spec_m = withdraw_vouch_outcome(m, voucher, borrower)->Ok_0.0;
        assert(storage@.vouches =~= spec_m.vouches);
        assert(transfers@ =~= seq![
            TokenTransfer::Payout { to: voucher, amount: m.vouches[borrower@][idx as int].stake },
        ]);
    }
    Ok(transfers)
}

/// Hand a vouch over to another voucher before any loan is active.
pub fn transfer_vouch(storage: &mut ContractStorage, from: String, to: String, borrower: String) -> (r:
    Result<(), Failure>)
    ensures
        follows_unit(r, old(storage)@, final(storage)@, transfer_vouch_outcome(old(storage)@, from, to, borrower)),
{
    let ghost m = storage@;
    require_not_paused(storage)?;
    if from == to {
        return Ok(());
    }
    // Only allow transfer before a loan is active (consistent with withdraw_vouch).
    if has_active_loan(storage, &borrower) {
        return Err(Failure::LoanAlreadyActive);
    }
    let (from_idx, to_idx) = match storage.vouches.get(&borrower) {
        Some(list) => match find_voucher(list, &from) {
            Some(i) => (i, find_voucher(list, &to)),
            None => {
                return Err(Failure::Error(ContractError::UnauthorizedCaller));
            },
        },
        None => {
            return Err(Failure::Error(ContractError::NoActiveLoan));
        },
    };
    let ghost vs = m.vouches[borrower@];
    let mut list = take_list(storage, &borrower);
    assert(list@ == vs);
    let stake_to_transfer = list[from_idx].stake;
    match to_idx {
        Some(ti) => {
            // Merge into existing record for 'to'
            let merged = match list[ti].stake.checked_add(stake_to_transfer) {
                Some(s) => s,
                None => {
                    put_list(storage, borrower, list);
                    proof {
                        assert(storage@.vouches =~= m.vouches);
                        assert(storage@ =~= m);
                    }
                    return Err(Failure::ArithmeticOverflow);
                },
            };
            let mut to_record = list[ti].clone();
            to_record.stake = merged;
            list.set(ti, to_record);
            list.remove(from_idx);
        },
        None => {
            // Transfer ownership to 'to'
            let mut updated = list[from_idx].clone();
            updated.voucher = to.clone();
            list.set(from_idx, updated);
        },
    }
    let ghost new_list = list@;
    assert(new_list =~= handed_over(vs, from_idx as int, to));
    put_list(storage, borrower.clone(), list);
    let ghost m1 = storage@;
    assert(m1.vouches =~= m.vouches.insert(borrower@, new_list));
    // Remove borrower from 'from' history
    let mut from_history = history_copy(storage, &from);
    match find_address(&from_history, &borrower) {
        Some(h) => {
            from_history.remove(h);
            put_history(storage, from, from_history);
        },
        None => {},
    }
    let ghost m2 = storage@;
    // Add borrower to 'to' history if not already there
    let mut to_history = history_copy(storage, &to);
    if find_address(&to_history, &borrower).is_none() {
        to_history.push(borrower);
        put_history(storage, to, to_history);
    }
    proof {
        let spec_m = transfer_vouch_outcome(m, from, to, borrower)->Ok_0;
        assert(storage@.voucher_history =~= spec_m.voucher_history);
        assert(storage@.vouches =~= spec_m.vouches);
    }
    Ok(())
}

/// Whether `voucher` holds a vouch for `borrower`.
pub fn vouch_exists(storage: &ContractStorage, voucher: &String, borrower: &String) -> (b: bool)
    ensures
        b == has_voucher(storage@.vouches_of(borrower@), voucher@),
{
    match storage.vouches.get(borrower) {
        Some(list) => find_voucher(list, voucher).is_some(),
        None => false,
    }
}

/// The total stake vouched for `borrower`; fails when the sum overflows.
pub fn total_vouched(storage: &ContractStorage, borrower: &String) -> (r: Result<i128, Failure>)
    ensures
        r == (if running_totals_fit(storage@.vouches_of(borrower@)) {
            Ok::<i128, Failure>(stake_total(storage@.vouches_of(borrower@)) as i128)
        } else {
            Err(Failure::ArithmeticOverflow)
        }),
{
    let empty: Vec<VouchRecord> = Vec::new();
    let list = match storage.vouches.get(borrower) {
        Some(list) => list,
        None => &empty,
    };
    match sum_stakes(list) {
        Some(t) => Ok(t),
        None => Err(Failure::ArithmeticOverflow),
    }
}

/// The borrowers that `voucher` has vouched for.
pub fn voucher_history(storage: &ContractStorage, voucher: &String) -> (r: Vec<String>)
    ensures
        r@ == storage@.history_of(voucher@),
{
    history_copy(storage, voucher)
}

} // verus!
