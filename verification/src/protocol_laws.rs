//! What holds across calls of the multi-admin protocol.
use vstd::prelude::*;
use crate::addresses::{distinct, first_position as listed_first, lists};
use crate::admin::{
    add_admin_outcome, add_allowed_token_outcome, cfg_of, remove_admin_outcome,
    remove_allowed_token_outcome, rotate_admin_outcome, set_admin_threshold_outcome,
    set_config_outcome, set_max_loan_to_stake_ratio_outcome, update_config_outcome,
};
use crate::errors::{ContractError, Failure};
use crate::helpers::{admin_config_valid, approval};
use crate::stakes::{
    first_at, first_position, has_voucher, lemma_distinct_first, lemma_first_position_push,
    lemma_stake_total_push, lemma_stake_total_remove, lemma_stake_total_update, stake_total,
    stakes_positive, vouchers_distinct, StakeEntry,
};
use crate::transfers::{Outcome, TokenTransfer};
use crate::types::{ConfigModel, StorageModel, VouchRecord};
use crate::vouch::{
    batch_vouch_outcome, decrease_stake_outcome, decreased, do_vouch_outcome, handed_over,
    increase_stake_outcome, store_list, transfer_vouch_outcome, vouch_each, vouch_outcome,
    withdraw_vouch_outcome,
};

verus! {

/// The stored admin configuration, if any, is usable.
pub open spec fn admins_usable(m: StorageModel) -> bool {
    m.config matches Some(c) ==> admin_config_valid(c.admins, c.admin_threshold)
}

/// A list of vouches as stored: not empty, one record per voucher, every stake positive.
pub open spec fn list_wf(vs: Seq<VouchRecord>) -> bool {
    &&& vs.len() > 0
    &&& vouchers_distinct(vs)
    &&& stakes_positive(vs)
}

/// Every stored list of vouches is well formed.
pub open spec fn vouches_wf(m: StorageModel) -> bool {
    forall|b: Seq<char>| #[trigger] m.vouches.contains_key(b) ==> list_wf(m.vouches[b])
}

proof fn lemma_distinct_push(s: Seq<String>, a: String)
    requires
        distinct(s),
        !lists(s, a@),
    ensures
        distinct(s.push(a)),
{
    let t = s.push(a);
    assert forall|i: int, j: int|
        0 <= i < t.len() && 0 <= j < t.len() && i != j implies (#[trigger] t[i])@ != (#[trigger] t[j])@ by {
        if i < s.len() && j < s.len() {
            assert(t[i] == s[i] && t[j] == s[j]);
        } else if i < s.len() {
            assert(t[i] == s[i]);
        } else {
            assert(t[j] == s[j]);
        }
    }
}

proof fn lemma_distinct_remove(s: Seq<String>, k: int)
    requires
        distinct(s),
        0 <= k < s.len(),
    ensures
        distinct(s.remove(k)),
{
    let t = s.remove(k);
    assert forall|i: int, j: int|
        0 <= i < t.len() && 0 <= j < t.len() && i != j implies (#[trigger] t[i])@ != (#[trigger] t[j])@ by {
        let oi = if i < k { i } else { i + 1 };
        let oj = if j < k { j } else { j + 1 };
        assert(t[i] == s[oi] && t[j] == s[oj]);
    }
}

proof fn lemma_distinct_update(s: Seq<String>, k: int, a: String)
    requires
        distinct(s),
        0 <= k < s.len(),
        !lists(s, a@),
    ensures
        distinct(s.update(k, a)),
{
    let t = s.update(k, a);
    assert forall|i: int, j: int|
        0 <= i < t.len() && 0 <= j < t.len() && i != j implies (#[trigger] t[i])@ != (#[trigger] t[j])@ by {
        if i != k && j != k {
            assert(t[i] == s[i] && t[j] == s[j]);
        } else if i == k {
            assert(t[j] == s[j]);
        } else {
            assert(t[i] == s[i]);
        }
    }
}

/// Admin operations never leave the protocol without a usable admin
/// configuration: a configuration that is usable before any admin operation
/// is usable after it (non-empty, no repeated admin, threshold between one and
/// the number of admins).
pub proof fn admin_operations_keep_admins_usable(
    m: StorageModel,
    signers: Seq<String>,
    a: String,
    b: String,
    threshold: u32,
    c: ConfigModel,
    yield_bps: Option<i128>,
    slash_bps: Option<i128>,
    ratio: u32,
    valid: bool,
)
    requires
        admins_usable(m),
    ensures
        add_admin_outcome(m, signers, a) matches Ok(m2) ==> admins_usable(m2),
        remove_admin_outcome(m, signers, a) matches Ok(m2) ==> admins_usable(m2),
        rotate_admin_outcome(m, signers, a, b) matches Ok(m2) ==> admins_usable(m2),
        set_admin_threshold_outcome(m, signers, threshold) matches Ok(m2) ==> admins_usable(m2),
        set_config_outcome(m, signers, c) matches Ok(m2) ==> admins_usable(m2),
        update_config_outcome(m, signers, yield_bps, slash_bps) matches Ok(m2) ==> admins_usable(m2),
        set_max_loan_to_stake_ratio_outcome(m, signers, ratio) matches Ok(m2) ==> admins_usable(m2),
        add_allowed_token_outcome(m, signers, a, valid) matches Ok(m2) ==> admins_usable(m2),
        remove_allowed_token_outcome(m, signers, a) matches Ok(m2) ==> admins_usable(m2),
{
    if approval(m, signers) is Ok {
        let cfg = cfg_of(m);
        if !lists(cfg.admins, a@) {
            lemma_distinct_push(cfg.admins, a);
        }
        if let Some(i) = listed_first(cfg.admins, a@) {
            lemma_distinct_remove(cfg.admins, i);
            if !lists(cfg.admins, b@) {
                lemma_distinct_update(cfg.admins, i, b);
            }
        }
    }
}

/// While the protocol is paused, no vouching operation goes through: each is
/// refused with `ContractPaused`.
pub proof fn paused_protocol_refuses_vouching(
    m: StorageModel,
    voucher: String,
    other: String,
    borrower: String,
    borrowers: Seq<String>,
    stakes: Seq<i128>,
    amount: i128,
    now: u64,
)
    requires
        m.is_paused(),
    ensures
        vouch_outcome(m, voucher, borrower, amount, now) == Outcome::<StorageModel>::Err(
            Failure::Error(ContractError::ContractPaused),
        ),
        batch_vouch_outcome(m, voucher, borrowers, stakes, now) == Outcome::<StorageModel>::Err(
            Failure::Error(ContractError::ContractPaused),
        ),
        increase_stake_outcome(m, voucher, borrower, amount) == Outcome::<StorageModel>::Err(
            Failure::Error(ContractError::ContractPaused),
        ),
        decrease_stake_outcome(m, voucher, borrower, amount) == Outcome::<StorageModel>::Err(
            Failure::Error(ContractError::ContractPaused),
        ),
        withdraw_vouch_outcome(m, voucher, borrower) == Outcome::<StorageModel>::Err(
            Failure::Error(ContractError::ContractPaused),
        ),
        transfer_vouch_outcome(m, voucher, other, borrower) == Err::<StorageModel, Failure>(
            Failure::Error(ContractError::ContractPaused),
        ),
{
}

/// Nobody can vouch for themselves.
pub proof fn no_self_vouch(m: StorageModel, voucher: String, borrower: String, stake: i128, now: u64)
    requires
        voucher@ == borrower@,
    ensures
        vouch_outcome(m, voucher, borrower, stake, now) is Err,
{
}

/// A voucher vouches for a borrower at most once: after a vouch goes through,
/// any further vouch by the same voucher for the same borrower is refused.
pub proof fn vouch_is_not_repeated(
    m: StorageModel,
    voucher: String,
    borrower: String,
    stake: i128,
    stake2: i128,
    now: u64,
    now2: u64,
)
    requires
        vouch_outcome(m, voucher, borrower, stake, now) is Ok,
    ensures
        vouch_outcome(vouch_outcome(m, voucher, borrower, stake, now)->Ok_0.0, voucher, borrower, stake2, now2)
            is Err,
{
    let vs = m.vouches_of(borrower@);
    let r = VouchRecord { voucher, stake, vouch_timestamp: now };
    let m1 = vouch_outcome(m, voucher, borrower, stake, now)->Ok_0.0;
    assert(m1.vouches_of(borrower@) == vs.push(r));
    assert(vs.push(r)[vs.len() as int] == r);
    assert(has_voucher(m1.vouches_of(borrower@), voucher@));
}

proof fn lemma_push_wf(vs: Seq<VouchRecord>, r: VouchRecord)
    requires
        vs.len() == 0 || list_wf(vs),
        !has_voucher(vs, r.voucher@),
        r.stake > 0,
    ensures
        list_wf(vs.push(r)),
{
    let t = vs.push(r);
    assert forall|i: int, j: int|
        0 <= i < t.len() && 0 <= j < t.len() && i != j implies (#[trigger] t[i]).voucher_key()
        != (#[trigger] t[j]).voucher_key() by {
        if i < vs.len() && j < vs.len() {
            assert(t[i] == vs[i] && t[j] == vs[j]);
        } else if i < vs.len() {
            assert(t[i] == vs[i]);
        } else {
            assert(t[j] == vs[j]);
        }
    }
    assert forall|i: int| 0 <= i < t.len() implies (#[trigger] t[i]).stake_amount() > 0 by {
        if i < vs.len() {
            assert(t[i] == vs[i]);
        }
    }
}

proof fn lemma_remove_wf(vs: Seq<VouchRecord>, k: int)
    requires
        list_wf(vs),
        0 <= k < vs.len(),
    ensures
        vs.remove(k).len() == 0 || list_wf(vs.remove(k)),
{
    let t = vs.remove(k);
    assert forall|i: int, j: int|
        0 <= i < t.len() && 0 <= j < t.len() && i != j implies (#[trigger] t[i]).voucher_key()
        != (#[trigger] t[j]).voucher_key() by {
        let oi = if i < k { i } else { i + 1 };
        let oj = if j < k { j } else { j + 1 };
        assert(t[i] == vs[oi] && t[j] == vs[oj]);
    }
    assert forall|i: int| 0 <= i < t.len() implies (#[trigger] t[i]).stake_amount() > 0 by {
        let oi = if i < k { i } else { i + 1 };
        assert(t[i] == vs[oi]);
    }
}

proof fn lemma_update_wf(vs: Seq<VouchRecord>, k: int, r: VouchRecord)
    requires
        list_wf(vs),
        0 <= k < vs.len(),
        r.stake > 0,
        r.voucher@ == vs[k].voucher@ || !has_voucher(vs, r.voucher@),
    ensures
        list_wf(vs.update(k, r)),
{
    let t = vs.update(k, r);
    assert forall|i: int, j: int|
        0 <= i < t.len() && 0 <= j < t.len() && i != j implies (#[trigger] t[i]).voucher_key()
        != (#[trigger] t[j]).voucher_key() by {
        if i != k && j != k {
            assert(t[i] == vs[i] && t[j] == vs[j]);
        } else if i == k {
            assert(t[j] == vs[j]);
        } else {
            assert(t[i] == vs[i]);
        }
    }
    assert forall|i: int| 0 <= i < t.len() implies (#[trigger] t[i]).stake_amount() > 0 by {
        if i != k {
            assert(t[i] == vs[i]);
        }
    }
}

proof fn lemma_store_list_wf(m: StorageModel, b: Seq<char>, vs: Seq<VouchRecord>)
    requires
        vouches_wf(m),
        vs.len() == 0 || list_wf(vs),
    ensures
        vouches_wf(StorageModel { vouches: store_list(m.vouches, b, vs), ..m }),
{
}

proof fn lemma_do_vouch_wf(m: StorageModel, voucher: String, borrower: String, stake: i128, now: u64)
    requires
        vouches_wf(m),
        do_vouch_outcome(m, voucher, borrower, stake, now) is Ok,
    ensures
        vouches_wf(do_vouch_outcome(m, voucher, borrower, stake, now)->Ok_0.0),
{
    lemma_push_wf(m.vouches_of(borrower@), VouchRecord { voucher, stake, vouch_timestamp: now });
}

proof fn lemma_vouch_each_wf(
    m: StorageModel,
    voucher: String,
    borrowers: Seq<String>,
    stakes: Seq<i128>,
    now: u64,
)
    requires
        vouches_wf(m),
        vouch_each(m, voucher, borrowers, stakes, now) is Ok,
    ensures
        vouches_wf(vouch_each(m, voucher, borrowers, stakes, now)->Ok_0.0),
    decreases borrowers.len(),
{
    if borrowers.len() > 0 {
        lemma_vouch_each_wf(m, voucher, borrowers.drop_last(), stakes.drop_last(), now);
        let m1 = vouch_each(m, voucher, borrowers.drop_last(), stakes.drop_last(), now)->Ok_0.0;
        lemma_do_vouch_wf(m1, voucher, borrowers.last(), stakes.last(), now);
    }
}

/// The records of a borrower's list that a hand-over touches.
proof fn lemma_hand_over_wf(vs: Seq<VouchRecord>, fi: int, to: String)
    requires
        list_wf(vs),
        first_position(vs, vs[fi].voucher@) == Some(fi),
        0 <= fi < vs.len(),
        vs[fi].voucher@ != to@,
        match first_position(vs, to@) {
            Some(ti) => vs[ti].stake + vs[fi].stake <= i128::MAX,
            None => true,
        },
    ensures
        list_wf(handed_over(vs, fi, to)),
        stake_total(handed_over(vs, fi, to)) == stake_total(vs),
{
    match first_position(vs, to@) {
        Some(ti) => {
            let c = choose|i: int| first_at(vs, to@, i);
            assert(first_at(vs, to@, c));
            assert(ti == c);
            assert(ti != fi);
            let merged = VouchRecord { stake: (vs[ti].stake + vs[fi].stake) as i128, ..vs[ti] };
            lemma_update_wf(vs, ti, merged);
            let u = vs.update(ti, merged);
            assert(u[fi] == vs[fi]);
            lemma_remove_wf(u, fi);
            assert(u.len() >= 2);
            lemma_stake_total_update(vs, ti, merged);
            lemma_stake_total_remove(u, fi);
        },
        None => {
            let c = choose|i: int| first_at(vs, to@, i);
            if has_voucher(vs, to@) {
                let j = choose|j: int| 0 <= j < vs.len() && (#[trigger] vs[j]).voucher_key() == to@;
                lemma_distinct_first(vs, j);
            }
            let renamed = VouchRecord { voucher: to, ..vs[fi] };
            lemma_update_wf(vs, fi, renamed);
            lemma_stake_total_update(vs, fi, renamed);
        },
    }
}

/// Every stored list of vouches has one record per voucher and only positive stakes.
pub open spec fn vouchers_distinct_stakes_positive(m: StorageModel) -> bool {
    forall|b: Seq<char>| #[trigger] m.vouches.contains_key(b) ==> vouchers_distinct(m.vouches[b])
        && stakes_positive(m.vouches[b])
}

proof fn lemma_push_distinct_positive(vs: Seq<VouchRecord>, r: VouchRecord)
    requires
        vouchers_distinct(vs),
        stakes_positive(vs),
        !has_voucher(vs, r.voucher@),
        r.stake > 0,
    ensures
        vouchers_distinct(vs.push(r)),
        stakes_positive(vs.push(r)),
{
    let t = vs.push(r);
    assert forall|i: int, j: int|
        0 <= i < t.len() && 0 <= j < t.len() && i != j implies (#[trigger] t[i]).voucher_key()
        != (#[trigger] t[j]).voucher_key() by {
        if i < vs.len() && j < vs.len() {
            assert(t[i] == vs[i] && t[j] == vs[j]);
        } else if i < vs.len() {
            assert(t[i] == vs[i]);
        } else {
            assert(t[j] == vs[j]);
        }
    }
    assert forall|i: int| 0 <= i < t.len() implies (#[trigger] t[i]).stake_amount() > 0 by {
        if i < vs.len() {
            assert(t[i] == vs[i]);
        }
    }
}

/// Vouching once keeps every borrower's vouchers distinct and every stake
/// positive, whatever the outcome: a vouch that goes through appends a record
/// with a positive stake for a voucher the borrower did not have yet, and a
/// refused vouch leaves the storage as it was.
pub proof fn do_vouch_keeps_vouchers_distinct_and_stakes_positive(
    m: StorageModel,
    voucher: String,
    borrower: String,
    stake: i128,
    now: u64,
)
    requires
        vouchers_distinct_stakes_positive(m),
    ensures
        do_vouch_outcome(m, voucher, borrower, stake, now) matches Ok((m2, _))
            ==> vouchers_distinct_stakes_positive(m2),
        vouch_outcome(m, voucher, borrower, stake, now) matches Ok((m2, _))
            ==> vouchers_distinct_stakes_positive(m2),
{
    if do_vouch_outcome(m, voucher, borrower, stake, now) is Ok {
        let vs = m.vouches_of(borrower@);
        assert(vouchers_distinct(vs) && stakes_positive(vs));
        lemma_push_distinct_positive(vs, VouchRecord { voucher, stake, vouch_timestamp: now });
    }
}

/// Every vouching operation keeps the stored vouches well formed: no stored
/// list is empty, no voucher holds two records in one list, and every stake is
/// positive.
pub proof fn vouching_keeps_vouches_well_formed(
    m: StorageModel,
    voucher: String,
    other: String,
    borrower: String,
    borrowers: Seq<String>,
    stakes: Seq<i128>,
    amount: i128,
    now: u64,
)
    requires
        vouches_wf(m),
    ensures
        vouch_outcome(m, voucher, borrower, amount, now) matches Ok((m2, _)) ==> vouches_wf(m2),
        batch_vouch_outcome(m, voucher, borrowers, stakes, now) matches Ok((m2, _)) ==> vouches_wf(m2),
        increase_stake_outcome(m, voucher, borrower, amount) matches Ok((m2, _)) ==> vouches_wf(m2),
        decrease_stake_outcome(m, voucher, borrower, amount) matches Ok((m2, _)) ==> vouches_wf(m2),
        withdraw_vouch_outcome(m, voucher, borrower) matches Ok((m2, _)) ==> vouches_wf(m2),
        transfer_vouch_outcome(m, voucher, other, borrower) matches Ok(m2) ==> vouches_wf(m2),
{
    if vouch_outcome(m, voucher, borrower, amount, now) is Ok {
        lemma_do_vouch_wf(m, voucher, borrower, amount, now);
    }
    if batch_vouch_outcome(m, voucher, borrowers, stakes, now) is Ok {
        lemma_vouch_each_wf(m, voucher, borrowers, stakes, now);
    }
    if m.vouches.contains_key(borrower@) {
        let vs = m.vouches[borrower@];
        assert(list_wf(vs));
        if let Some(i) = first_position(vs, voucher@) {
            let c = choose|k: int| first_at(vs, voucher@, k);
            assert(first_at(vs, voucher@, c));
            if increase_stake_outcome(m, voucher, borrower, amount) is Ok {
                let raised = VouchRecord { stake: (vs[i].stake + amount) as i128, ..vs[i] };
                lemma_update_wf(vs, i, raised);
            }
            if decrease_stake_outcome(m, voucher, borrower, amount) is Ok {
                if vs[i].stake - amount == 0 {
                    lemma_remove_wf(vs, i);
                } else {
                    lemma_update_wf(vs, i, VouchRecord { stake: (vs[i].stake - amount) as i128, ..vs[i] });
                }
                lemma_store_list_wf(m, borrower@, decreased(vs, i, amount));
            }
            lemma_remove_wf(vs, i);
            lemma_store_list_wf(m, borrower@, vs.remove(i));
            if transfer_vouch_outcome(m, voucher, other, borrower) is Ok && voucher@ != other@ {
                lemma_hand_over_wf(vs, i, other);
            }
        }
    }
}

/// Handing a vouch over keeps the borrower's total stake: nothing is created
/// or lost.
pub proof fn transfer_vouch_keeps_total_stake(
    m: StorageModel,
    from: String,
    to: String,
    borrower: String,
)
    requires
        vouches_wf(m),
        transfer_vouch_outcome(m, from, to, borrower) is Ok,
    ensures
        stake_total(transfer_vouch_outcome(m, from, to, borrower)->Ok_0.vouches_of(borrower@))
            == stake_total(m.vouches_of(borrower@)),
{
    if from@ != to@ {
        let vs = m.vouches[borrower@];
        let i = first_position(vs, from@)->Some_0;
        let c = choose|k: int| first_at(vs, from@, k);
        assert(first_at(vs, from@, c));
        lemma_hand_over_wf(vs, i, to);
    }
}

/// Stake bookkeeping: vouching adds the stake to the borrower's total,
/// raising a stake adds the amount, lowering it takes the amount off, and a
/// withdrawal takes off exactly what it pays back.
pub proof fn stake_changes_are_exact(
    m: StorageModel,
    voucher: String,
    borrower: String,
    amount: i128,
    now: u64,
)
    ensures
        vouch_outcome(m, voucher, borrower, amount, now) matches Ok((m2, _)) ==> stake_total(
            m2.vouches_of(borrower@),
        ) == stake_total(m.vouches_of(borrower@)) + amount,
        increase_stake_outcome(m, voucher, borrower, amount) matches Ok((m2, _)) ==> stake_total(
            m2.vouches_of(borrower@),
        ) == stake_total(m.vouches_of(borrower@)) + amount,
        decrease_stake_outcome(m, voucher, borrower, amount) matches Ok((m2, _)) ==> stake_total(
            m2.vouches_of(borrower@),
        ) == stake_total(m.vouches_of(borrower@)) - amount,
        withdraw_vouch_outcome(m, voucher, borrower) matches Ok((m2, ts)) ==> ts.len() == 1 && (
        ts[0] matches TokenTransfer::Payout { to, amount: paid } && to == voucher && stake_total(
            m2.vouches_of(borrower@),
        ) == stake_total(m.vouches_of(borrower@)) - paid),
{
    if vouch_outcome(m, voucher, borrower, amount, now) is Ok {
        lemma_stake_total_push(
            m.vouches_of(borrower@),
            VouchRecord { voucher, stake: amount, vouch_timestamp: now },
        );
    }
    if m.vouches.contains_key(borrower@) {
        let vs = m.vouches[borrower@];
        if let Some(i) = first_position(vs, voucher@) {
            let c = choose|k: int| first_at(vs, voucher@, k);
            assert(first_at(vs, voucher@, c));
            lemma_stake_total_update(vs, i, VouchRecord { stake: (vs[i].stake + amount) as i128, ..vs[i] });
            lemma_stake_total_update(vs, i, VouchRecord { stake: (vs[i].stake - amount) as i128, ..vs[i] });
            lemma_stake_total_remove(vs, i);
        }
    }
}

/// Lowering a stake by the amount it was just raised by undoes the raise:
/// before any loan is active, `increase_stake` followed by `decrease_stake` of
/// the same amount restores the borrower's vouches exactly, and the amount paid
/// in is paid back.
pub proof fn decrease_undoes_increase(m: StorageModel, voucher: String, borrower: String, amount: i128)
    requires
        vouches_wf(m),
        !m.has_active_loan(borrower@),
        increase_stake_outcome(m, voucher, borrower, amount) is Ok,
    ensures
        decrease_stake_outcome(increase_stake_outcome(m, voucher, borrower, amount)->Ok_0.0, voucher, borrower, amount)
            matches Ok((m2, ts)) && m2.vouches == m.vouches && ts == seq![
            TokenTransfer::Payout { to: voucher, amount },
        ],
{
    let vs = m.vouches[borrower@];
    let i = first_position(vs, voucher@)->Some_0;
    let c = choose|k: int| first_at(vs, voucher@, k);
    assert(first_at(vs, voucher@, c));
    assert(list_wf(vs));
    let raised = VouchRecord { stake: (vs[i].stake + amount) as i128, ..vs[i] };
    let u = vs.update(i, raised);
    let m1 = increase_stake_outcome(m, voucher, borrower, amount)->Ok_0.0;
    assert(m1.vouches[borrower@] == u);
    assert(first_at(u, voucher@, i)) by {
        assert forall|j: int| 0 <= j < i implies (#[trigger] u[j]).voucher_key() != voucher@ by {
            assert(u[j] == vs[j]);
        }
    }
    crate::stakes::lemma_first_position_at(u, voucher@, i);
    assert(vs[i].stake > 0);
    assert(decreased(u, i, amount) =~= vs);
    assert(store_list(m1.vouches, borrower@, vs) =~= m.vouches);
}

/// Withdrawing undoes vouching for the borrower: after a vouch goes through, a
/// withdrawal by the same voucher restores the borrower's vouches exactly and
/// pays back exactly the stake.
pub proof fn withdraw_undoes_vouch(m: StorageModel, voucher: String, borrower: String, stake: i128, now: u64)
    requires
        vouches_wf(m),
        vouch_outcome(m, voucher, borrower, stake, now) is Ok,
    ensures
        withdraw_vouch_outcome(vouch_outcome(m, voucher, borrower, stake, now)->Ok_0.0, voucher, borrower)
            matches Ok((m2, ts)) && m2.vouches == m.vouches && ts == seq![
            TokenTransfer::Payout { to: voucher, amount: stake },
        ],
{
    let vs = m.vouches_of(borrower@);
    let r = VouchRecord { voucher, stake, vouch_timestamp: now };
    let m1 = vouch_outcome(m, voucher, borrower, stake, now)->Ok_0.0;
    lemma_first_position_push(vs, r);
    assert(vs.push(r).remove(vs.len() as int) =~= vs);
    if m.vouches.contains_key(borrower@) {
        assert(list_wf(m.vouches[borrower@]));
        assert(m1.vouches.insert(borrower@, vs) =~= m.vouches);
    } else {
        assert(m1.vouches.remove(borrower@) =~= m.vouches);
    }
}

/// Removing an admin takes exactly that admin out: afterwards it is no
/// longer an admin, every other admin still is, and nobody new became one.
pub proof fn removed_admin_is_gone(m: StorageModel, signers: Seq<String>, a: String)
    requires
        admins_usable(m),
        remove_admin_outcome(m, signers, a) is Ok,
    ensures
        remove_admin_outcome(m, signers, a) matches Ok(m2) && m2.config matches Some(c2) && !lists(
            c2.admins,
            a@,
        ) && forall|k: Seq<char>| k != a@ ==> (lists(cfg_of(m).admins, k) <==> lists(c2.admins, k)),
{
    let c = cfg_of(m);
    let i = listed_first(c.admins, a@)->Some_0;
    let j = choose|j: int| crate::addresses::first_at(c.admins, a@, j);
    assert(crate::addresses::first_at(c.admins, a@, j));
    let rest = c.admins.remove(i);
    assert(!lists(rest, a@)) by {
        if lists(rest, a@) {
            let p = choose|p: int| 0 <= p < rest.len() && (#[trigger] rest[p])@ == a@;
            let op = if p < i { p } else { p + 1 };
            assert(rest[p] == c.admins[op]);
        }
    }
    assert forall|k: Seq<char>| k != a@ implies (lists(c.admins, k) <==> lists(rest, k)) by {
        if lists(c.admins, k) {
            let p = choose|p: int| 0 <= p < c.admins.len() && (#[trigger] c.admins[p])@ == k;
            assert(p != i);
            let np = if p < i { p } else { p - 1 };
            assert(rest[np] == c.admins[p]);
        }
        if lists(rest, k) {
            let p = choose|p: int| 0 <= p < rest.len() && (#[trigger] rest[p])@ == k;
            let op = if p < i { p } else { p + 1 };
            assert(rest[p] == c.admins[op]);
        }
    }
}

/// `update_config` stores the values it is given: a given yield or slash
/// share becomes the stored one, an absent one keeps the stored value, and
/// the admins and threshold stay as they were.
pub proof fn update_config_stores_given_values(
    m: StorageModel,
    signers: Seq<String>,
    yield_bps: Option<i128>,
    slash_bps: Option<i128>,
)
    requires
        update_config_outcome(m, signers, yield_bps, slash_bps) is Ok,
    ensures
        update_config_outcome(m, signers, yield_bps, slash_bps) matches Ok(m2) && m2.config matches Some(
            c2,
        ) && (yield_bps matches Some(y) ==> c2.yield_bps == y) && (yield_bps is None ==> c2.yield_bps
            == cfg_of(m).yield_bps) && (slash_bps matches Some(v) ==> c2.slash_bps == v) && (slash_bps
            is None ==> c2.slash_bps == cfg_of(m).slash_bps) && c2.admins == cfg_of(m).admins
            && c2.admin_threshold == cfg_of(m).admin_threshold,
{
}

} // verus!
