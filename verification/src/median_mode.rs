//! Median and mode of a list of integers.

use vstd::prelude::*;

verus! {

use vstd::multiset::Multiset;

/// Non-decreasing order.
pub open spec fn sorted(s: Seq<i32>) -> bool {
    forall|i: int, j: int| 0 <= i < j < s.len() ==> s[i] <= s[j]
}

/// How often `x` occurs in `s`.
pub open spec fn spec_count(s: Seq<i32>, x: i32) -> nat {
    s.filter(|y: i32| y == x).len()
}

/// A value that occurs at all occurs: counting is contained in membership.
proof fn lemma_count_contains(s: Seq<i32>, x: i32)
    requires
        spec_count(s, x) > 0,
    ensures
        exists|j: int| 0 <= j < s.len() && s[j] == x,
    decreases s.len(),
{
    reveal(Seq::filter);
    if s.len() > 0 {
        if s.last() == x {
            assert(s[s.len() - 1] == x);
        } else {
            lemma_count_contains(s.drop_last(), x);
            let j = choose|j: int| 0 <= j < s.drop_last().len() && s.drop_last()[j] == x;
            assert(s[j] == x);
        }
    }
}

/// Index of a smallest element.
#[verifier::loop_isolation(false)]
fn min_index(v: &Vec<i32>) -> (r: usize)
    requires
        v@.len() > 0,
    ensures
        r < v@.len(),
        forall|k: int| 0 <= k < v@.len() ==> v@[r as int] <= #[trigger] v@[k],
{
    let mut r: usize = 0;
    let mut i: usize = 1;
    while i < v.len()
        invariant
            r < i <= v@.len(),
            forall|k: int| 0 <= k < i ==> v@[r as int] <= #[trigger] v@[k],
        decreases v@.len() - i,
    {
        if v[i] < v[r] {
            r = i;
        }
        i = i + 1;
    }
    r
}

/// Sorts the numbers without losing or inventing any: the result carries
/// the same values, each as often as before, in non-decreasing order.
#[verifier::loop_isolation(false)]
pub fn sort_ints(v: Vec<i32>) -> (r: Vec<i32>)
    ensures
        sorted(r@),
        r@.to_multiset() == v@.to_multiset(),
        r@.len() == v@.len(),
{
    broadcast use vstd::seq_lib::group_to_multiset_ensures;

    let ghost orig = v@;
    let mut rem = v;
    let mut out: Vec<i32> = Vec::new();
    proof {
        assert(out@.to_multiset().add(rem@.to_multiset()) =~= orig.to_multiset());
    }
    while rem.len() > 0
        invariant
            sorted(out@),
            out@.to_multiset().add(rem@.to_multiset()) == orig.to_multiset(),
            out@.len() + rem@.len() == orig.len(),
            forall|i: int, j: int| 0 <= i < out@.len() && 0 <= j < rem@.len()
                ==> #[trigger] out@[i] <= #[trigger] rem@[j],
        decreases rem@.len(),
    {
        let ghost out0 = out@;
        let ghost rem0 = rem@;
        let m = min_index(&rem);
        let x = rem.remove(m);
        out.push(x);
        proof {
            assert(out@.to_multiset() =~= out0.to_multiset().insert(x));
            assert(rem@.to_multiset() =~= rem0.to_multiset().remove(x));
            assert(rem0.to_multiset().count(x) > 0);
            assert(out@.to_multiset().add(rem@.to_multiset()) =~= orig.to_multiset());
            assert forall|i: int, j: int|
                0 <= i < j < out@.len() implies out@[i] <= out@[j] by {
                if j < out@.len() - 1 {
                    assert(out0[i] <= out0[j]);
                } else {
                    assert(out@[i] == out0[i]);
                    assert(out@[j] == x);
                    assert(out0[i] <= rem0[m as int]);
                }
            }
            assert forall|i: int, j: int|
                0 <= i < out@.len() && 0 <= j < rem@.len() implies #[trigger] out@[i]
                <= #[trigger] rem@[j] by {
                let pj = if j < m { j } else { j + 1 };
                assert(rem@[j] == rem0[pj]);
                assert(rem0[m as int] <= rem0[pj]);
                if i < out@.len() - 1 {
                    assert(out0[i] <= rem0[pj]);
                } else {
                    assert(out@[i] == x);
                }
            }
        }
    }
    proof {
        assert(rem@.to_multiset() =~= Multiset::<i32>::empty());
        assert(out@.to_multiset().add(Multiset::<i32>::empty()) =~= out@.to_multiset());
    }
    out
}

/// The median, taken as the value just left of the middle of the sorted
/// order.
pub fn median(list: &Vec<i32>) -> (r: i32)
    requires
        list@.len() >= 2,
    ensures
        exists|s: Seq<i32>|
            {
                &&& s.to_multiset() == list@.to_multiset()
                &&& sorted(s)
                &&& r == s[list@.len() as int / 2 - 1]
            },
{
    let mut copy: Vec<i32> = Vec::new();
    let mut i: usize = 0;
    while i < list.len()
        invariant
            i <= list@.len(),
            copy@ == list@.subrange(0, i as int),
        decreases list@.len() - i,
    {
        copy.push(list[i]);
        proof {
            assert(list@.subrange(0, i + 1) =~= list@.subrange(0, i as int).push(
                list@[i as int]));
        }
        i = i + 1;
    }
    proof {
        assert(copy@ =~= list@);
    }
    let sorted_copy = sort_ints(copy);
    let r = sorted_copy[list.len() / 2 - 1];
    proof {
        assert(sorted_copy@.to_multiset() == list@.to_multiset());
    }
    r
}

/// The value that occurs the most, with its count; ties fall to any of the
/// most frequent values, and an empty list yields zero seen zero times.
#[verifier::loop_isolation(false)]
pub fn mode(list: &Vec<i32>) -> (r: (i32, usize))
    ensures
        list@.len() == 0 ==> r == (0i32, 0usize),
        list@.len() > 0 ==> spec_count(list@, r.0) == r.1 && r.1 >= 1,
        forall|x: i32| spec_count(list@, x) <= r.1,
{
    let mut best_item: i32 = 0;
    let mut best_count: usize = 0;
    let mut i: usize = 0;
    while i < list.len()
        invariant
            i <= list@.len(),
            forall|j: int| 0 <= j < i ==> spec_count(list@, #[trigger] list@[j]) <= best_count,
            i == 0 ==> best_item == 0 && best_count == 0,
            i > 0 ==> spec_count(list@, best_item) == best_count && best_count >= 1,
        decreases list@.len() - i,
    {
        let c = count_occurrences(list, list[i]);
        if c > best_count {
            best_item = list[i];
            best_count = c;
        } else {
            proof {
                if i == 0 {
                    assert(spec_count(list@, list@[0]) > 0) by {
                        lemma_count_positive(list@, 0);
                    }
                }
            }
        }
        i = i + 1;
    }
    proof {
        assert forall|x: i32| spec_count(list@, x) <= best_count by {
            if spec_count(list@, x) > 0 {
                lemma_count_contains(list@, x);
                let j = choose|j: int| 0 <= j < list@.len() && list@[j] == x;
                assert(spec_count(list@, list@[j]) <= best_count);
            }
        }
    }
    (best_item, best_count)
}

/// An element of the list is counted at least once.
proof fn lemma_count_positive(s: Seq<i32>, j: int)
    requires
        0 <= j < s.len(),
    ensures
        spec_count(s, s[j]) > 0,
    decreases s.len(),
{
    reveal(Seq::filter);
    if j == s.len() - 1 {
        assert(s.last() == s[j]);
    } else {
        lemma_count_positive(s.drop_last(), j);
        assert(s.drop_last()[j] == s[j]);
    }
}

/// How often `x` occurs in the list.
#[verifier::loop_isolation(false)]
pub fn count_occurrences(list: &Vec<i32>, x: i32) -> (r: usize)
    ensures
        r == spec_count(list@, x),
{
    broadcast use vstd::seq_lib::group_to_multiset_ensures;

    let mut r: usize = 0;
    let mut i: usize = 0;
    proof {
        reveal(Seq::filter);
        assert(list@.subrange(0, 0) =~= Seq::<i32>::empty());
    }
    while i < list.len()
        invariant
            i <= list@.len(),
            r == spec_count(list@.subrange(0, i as int), x),
            r <= i,
        decreases list@.len() - i,
    {
        proof {
            reveal(Seq::filter);
            assert(list@.subrange(0, i + 1).drop_last() =~= list@.subrange(0, i as int));
            assert(list@.subrange(0, i + 1).last() == list@[i as int]);
        }
        if list[i] == x {
            r = r + 1;
        }
        i = i + 1;
    }
    proof {
        assert(list@.subrange(0, list@.len() as int) =~= list@);
    }
    r
}

} // verus!
