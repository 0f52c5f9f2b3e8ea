//! Lists of stakes that vouchers hold for one borrower.
use vstd::prelude::*;
use crate::amounts::fits_i128;

verus! {

/// A record of stake held for a borrower by one voucher.
pub trait StakeEntry: Sized {
    /// The address of the voucher.
    spec fn voucher_key(&self) -> Seq<char>;

    /// The amount staked.
    spec fn stake_amount(&self) -> i128;

    /// The address of the voucher.
    fn voucher(&self) -> (r: &String)
        ensures
            r@ == self.voucher_key(),
    ;

    /// The amount staked.
    fn stake(&self) -> (r: i128)
        ensures
            r == self.stake_amount(),
    ;
}

/// `i` is the first position of `s` that holds a record of `voucher`.
pub open spec fn first_at<R: StakeEntry>(s: Seq<R>, voucher: Seq<char>, i: int) -> bool {
    &&& 0 <= i < s.len()
    &&& s[i].voucher_key() == voucher
    &&& forall|j: int| 0 <= j < i ==> (#[trigger] s[j]).voucher_key() != voucher
}

/// Whether some record of `s` belongs to `voucher`.
pub open spec fn has_voucher<R: StakeEntry>(s: Seq<R>, voucher: Seq<char>) -> bool {
    exists|i: int| 0 <= i < s.len() && (#[trigger] s[i]).voucher_key() == voucher
}

/// The first position of `s` that holds a record of `voucher`, if any.
pub open spec fn first_position<R: StakeEntry>(s: Seq<R>, voucher: Seq<char>) -> Option<int> {
    if exists|i: int| first_at(s, voucher, i) {
        Some(choose|i: int| first_at(s, voucher, i))
    } else {
        None
    }
}

/// The sum of the stakes in `s`.
pub open spec fn stake_total<R: StakeEntry>(s: Seq<R>) -> int
    decreases s.len(),
{
    if s.len() == 0 {
        0
    } else {
        stake_total(s.drop_last()) + s.last().stake_amount()
    }
}

/// Every running total of `s`, summed from the front, is a value of `i128`.
pub open spec fn running_totals_fit<R: StakeEntry>(s: Seq<R>) -> bool
    decreases s.len(),
{
    s.len() == 0 || (running_totals_fit(s.drop_last()) && fits_i128(stake_total(s)))
}

/// No voucher holds two records of `s`.
pub open spec fn vouchers_distinct<R: StakeEntry>(s: Seq<R>) -> bool {
    forall|i: int, j: int|
        0 <= i < s.len() && 0 <= j < s.len() && i != j ==> (#[trigger] s[i]).voucher_key()
            != (#[trigger] s[j]).voucher_key()
}

/// Every stake in `s` is positive.
pub open spec fn stakes_positive<R: StakeEntry>(s: Seq<R>) -> bool {
    forall|i: int| 0 <= i < s.len() ==> (#[trigger] s[i]).stake_amount() > 0
}

/// At most one position is the first one of a voucher.
pub proof fn lemma_first_at_unique<R: StakeEntry>(s: Seq<R>, voucher: Seq<char>, i: int, j: int)
    requires
        first_at(s, voucher, i),
        first_at(s, voucher, j),
    ensures
        i == j,
{
    if i < j {
        assert(s[i].voucher_key() != voucher);
    } else if j < i {
        assert(s[j].voucher_key() != voucher);
    }
}

/// The first position of a voucher is where `first_at` holds.
pub proof fn lemma_first_position_at<R: StakeEntry>(s: Seq<R>, voucher: Seq<char>, i: int)
    requires
        first_at(s, voucher, i),
    ensures
        first_position(s, voucher) == Some(i),
{
    let c = choose|k: int| first_at(s, voucher, k);
    lemma_first_at_unique(s, voucher, c, i);
}

/// A voucher that holds no record of `s` has no first position.
pub proof fn lemma_first_position_absent<R: StakeEntry>(s: Seq<R>, voucher: Seq<char>)
    requires
        !has_voucher(s, voucher),
    ensures
        first_position(s, voucher) is None,
{
    if exists|i: int| first_at(s, voucher, i) {
        let i = choose|i: int| first_at(s, voucher, i);
        assert(s[i].voucher_key() == voucher);
    }
}

/// In a list without repeated vouchers, the record of a voucher is its first one.
pub proof fn lemma_distinct_first<R: StakeEntry>(s: Seq<R>, i: int)
    requires
        vouchers_distinct(s),
        0 <= i < s.len(),
    ensures
        first_position(s, s[i].voucher_key()) == Some(i),
{
    assert(first_at(s, s[i].voucher_key(), i));
    lemma_first_position_at(s, s[i].voucher_key(), i);
}

/// A record appended for a new voucher is that voucher's first record.
pub proof fn lemma_first_position_push<R: StakeEntry>(s: Seq<R>, r: R)
    requires
        !has_voucher(s, r.voucher_key()),
    ensures
        first_position(s.push(r), r.voucher_key()) == Some(s.len() as int),
{
    let t = s.push(r);
    assert forall|j: int| 0 <= j < s.len() implies (#[trigger] t[j]).voucher_key() != r.voucher_key() by {
        assert(t[j] == s[j]);
    }
    assert(first_at(t, r.voucher_key(), s.len() as int));
    lemma_first_position_at(t, r.voucher_key(), s.len() as int);
}

/// The running totals of a prefix fit wherever those of the whole list do.
pub proof fn lemma_running_totals_prefix<R: StakeEntry>(s: Seq<R>, k: int)
    requires
        running_totals_fit(s),
        0 <= k <= s.len(),
    ensures
        running_totals_fit(s.take(k)),
    decreases s.len(),
{
    if k < s.len() {
        lemma_running_totals_prefix(s.drop_last(), k);
        assert(s.drop_last().take(k) =~= s.take(k));
    } else {
        assert(s.take(k) =~= s);
    }
}

/// The total of a list with one more record.
pub proof fn lemma_stake_total_push<R: StakeEntry>(s: Seq<R>, r: R)
    ensures
        stake_total(s.push(r)) == stake_total(s) + r.stake_amount(),
{
    assert(s.push(r).drop_last() =~= s);
}

/// The total of a list with one record replaced.
pub proof fn lemma_stake_total_update<R: StakeEntry>(s: Seq<R>, i: int, r: R)
    requires
        0 <= i < s.len(),
    ensures
        stake_total(s.update(i, r)) == stake_total(s) - s[i].stake_amount() + r.stake_amount(),
    decreases s.len(),
{
    let t = s.update(i, r);
    if i == s.len() - 1 {
        assert(t.drop_last() =~= s.drop_last());
    } else {
        lemma_stake_total_update(s.drop_last(), i, r);
        assert(t.drop_last() =~= s.drop_last().update(i, r));
    }
}

/// The total of a list with one record removed.
pub proof fn lemma_stake_total_remove<R: StakeEntry>(s: Seq<R>, i: int)
    requires
        0 <= i < s.len(),
    ensures
        stake_total(s.remove(i)) == stake_total(s) - s[i].stake_amount(),
    decreases s.len(),
{
    if i == s.len() - 1 {
        assert(s.remove(i) =~= s.drop_last());
    } else {
        lemma_stake_total_remove(s.drop_last(), i);
        assert(s.remove(i).drop_last() =~= s.drop_last().remove(i));
    }
}

/// The first position of `voucher` in `list`, scanning from the front.
pub fn find_voucher<R: StakeEntry>(list: &Vec<R>, voucher: &String) -> (r: Option<usize>)
    ensures
        match r {
            Some(i) => first_position(list@, voucher@) == Some(i as int) && first_at(
                list@,
                voucher@,
                i as int,
            ),
            None => first_position(list@, voucher@) is None && !has_voucher(list@, voucher@),
        },
{
    let mut i: usize = 0;
    while i < list.len()
        invariant
            i <= list@.len(),
            forall|j: int| 0 <= j < i ==> (#[trigger] list@[j]).voucher_key() != voucher@,
        decreases list@.len() - i,
    {
        if *list[i].voucher() == *voucher {
            proof {
                lemma_first_position_at(list@, voucher@, i as int);
            }
            return Some(i);
        }
        i = i + 1;
    }
    proof {
        lemma_first_position_absent(list@, voucher@);
    }
    None
}

/// The sum of the stakes in `list`, or `None` where a running total overflows `i128`.
pub fn sum_stakes<R: StakeEntry>(list: &Vec<R>) -> (r: Option<i128>)
    ensures
        match r {
            Some(t) => running_totals_fit(list@) && t == stake_total(list@),
            None => !running_totals_fit(list@),
        },
{
    let mut total: i128 = 0;
    let mut i: usize = 0;
    while i < list.len()
        invariant
            i <= list@.len(),
            running_totals_fit(list@.take(i as int)),
            total == stake_total(list@.take(i as int)),
        decreases list@.len() - i,
    {
        let ghost pre = list@.take(i as int);
        let ghost next = list@.take(i as int + 1);
        assert(next.drop_last() =~= pre);
        match total.checked_add(list[i].stake()) {
            Some(t) => {
                total = t;
            },
            None => {
                proof {
                    if running_totals_fit(list@) {
                        lemma_running_totals_prefix(list@, i as int + 1);
                    }
                }
                return None;
            },
        }
        i = i + 1;
    }
    assert(list@.take(i as int) =~= list@);
    Some(total)
}

} // verus!
