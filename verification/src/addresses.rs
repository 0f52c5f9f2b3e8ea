//! Lists of account addresses, compared by their text.
use vstd::prelude::*;
use crate::table::Duplicate;

verus! {

/// Whether `a` occurs in `s`.
pub open spec fn lists(s: Seq<String>, a: Seq<char>) -> bool {
    exists|i: int| 0 <= i < s.len() && (#[trigger] s[i])@ == a
}

/// `i` is the first position of `a` in `s`.
pub open spec fn first_at(s: Seq<String>, a: Seq<char>, i: int) -> bool {
    &&& 0 <= i < s.len()
    &&& s[i]@ == a
    &&& forall|j: int| 0 <= j < i ==> (#[trigger] s[j])@ != a
}

/// The first position of `a` in `s`, if any.
pub open spec fn first_position(s: Seq<String>, a: Seq<char>) -> Option<int> {
    if exists|i: int| first_at(s, a, i) {
        Some(choose|i: int| first_at(s, a, i))
    } else {
        None
    }
}

/// No address occurs twice in `s`.
pub open spec fn distinct(s: Seq<String>) -> bool {
    forall|i: int, j: int|
        0 <= i < s.len() && 0 <= j < s.len() && i != j ==> (#[trigger] s[i])@ != (#[trigger] s[j])@
}

/// The first position of `a` is where `first_at` holds.
pub proof fn lemma_first_position_at(s: Seq<String>, a: Seq<char>, i: int)
    requires
        first_at(s, a, i),
    ensures
        first_position(s, a) == Some(i),
{
    let c = choose|k: int| first_at(s, a, k);
    if c < i {
        assert(s[c]@ != a);
    } else if i < c {
        assert(s[i]@ != a);
    }
}

/// An address that does not occur has no first position.
pub proof fn lemma_first_position_absent(s: Seq<String>, a: Seq<char>)
    requires
        !lists(s, a),
    ensures
        first_position(s, a) is None,
{
    if exists|i: int| first_at(s, a, i) {
        let i = choose|i: int| first_at(s, a, i);
        assert(s[i]@ == a);
    }
}

/// The first position of `a` in `list`.
pub fn find_address(list: &Vec<String>, a: &String) -> (r: Option<usize>)
    ensures
        r == match first_position(list@, a@) {
            Some(i) => Some(i as usize),
            None => None::<usize>,
        },
        match r {
            Some(i) => first_at(list@, a@, i as int),
            None => !lists(list@, a@),
        },
{
    let mut i: usize = 0;
    while i < list.len()
        invariant
            i <= list@.len(),
            forall|j: int| 0 <= j < i ==> (#[trigger] list@[j])@ != a@,
        decreases list@.len() - i,
    {
        if list[i] == *a {
            proof {
                lemma_first_position_at(list@, a@, i as int);
            }
            return Some(i);
        }
        i = i + 1;
    }
    proof {
        lemma_first_position_absent(list@, a@);
    }
    None
}

/// Whether `a` occurs in `list`.
pub fn contains_address(list: &Vec<String>, a: &String) -> (b: bool)
    ensures
        b == lists(list@, a@),
{
    find_address(list, a).is_some()
}

/// Whether no address occurs twice in `list`.
pub fn all_distinct(list: &Vec<String>) -> (b: bool)
    ensures
        b == distinct(list@),
{
    let mut i: usize = 0;
    while i < list.len()
        invariant
            i <= list@.len(),
            forall|p: int, q: int|
                0 <= p < i && 0 <= q < list@.len() && p != q ==> (#[trigger] list@[p])@
                    != (#[trigger] list@[q])@,
        decreases list@.len() - i,
    {
        let mut j: usize = 0;
        while j < list.len()
            invariant
                i < list@.len(),
                j <= list@.len(),
                forall|p: int, q: int|
                    0 <= p < i && 0 <= q < list@.len() && p != q ==> (#[trigger] list@[p])@
                        != (#[trigger] list@[q])@,
                forall|q: int| 0 <= q < j && q != i ==> list@[i as int]@ != (#[trigger] list@[q])@,
            decreases list@.len() - j,
        {
            if j != i && list[i] == list[j] {
                return false;
            }
            j = j + 1;
        }
        i = i + 1;
    }
    true
}

/// A copy of a list of addresses.
pub fn copy_addresses(list: &Vec<String>) -> (r: Vec<String>)
    ensures
        r@ == list@,
{
    let mut out: Vec<String> = Vec::new();
    let mut i: usize = 0;
    while i < list.len()
        invariant
            i <= list@.len(),
            out@ == list@.take(i as int),
        decreases list@.len() - i,
    {
        out.push(list[i].clone());
        assert(out@ =~= list@.take(i as int + 1));
        i = i + 1;
    }
    assert(list@.take(i as int) =~= list@);
    out
}

} // verus!

verus! {

impl Duplicate for Vec<String> {
    fn duplicate(&self) -> (r: Self) {
        copy_addresses(self)
    }
}

} // verus!
