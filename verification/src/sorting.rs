//! Sorting of latencies: a merge sort on vectors of `u64`.

use vstd::prelude::*;
use vstd::multiset::Multiset;
use vstd::relations::sorted_by;
use vstd::relations::total_ordering;
use vstd::seq_lib::lemma_multiset_commutative;
use vstd::seq_lib::lemma_sorted_unique;

verus! {

/// No element is followed by a smaller one.
pub open spec fn is_ascending(s: Seq<u64>) -> bool {
    forall|i: int, j: int| 0 <= i < j < s.len() ==> s[i] <= s[j]
}

/// The elements of a multiset in ascending order.
pub open spec fn ascending(m: Multiset<u64>) -> Seq<u64> {
    choose|s: Seq<u64>| is_ascending(s) && s.to_multiset() == m
}

/// There is one ascending arrangement of given elements, and no other.
pub proof fn lemma_ascending_unique(s: Seq<u64>, t: Seq<u64>)
    requires
        is_ascending(s),
        is_ascending(t),
        s.to_multiset() == t.to_multiset(),
    ensures
        s == t,
{
    let leq = |a: u64, b: u64| a <= b;
    assert(total_ordering(leq));
    assert(sorted_by(s, leq));
    assert(sorted_by(t, leq));
    lemma_sorted_unique(s, t, leq);
}

/// An ascending sequence is the ascending arrangement of its own elements.
pub proof fn lemma_ascending_of(s: Seq<u64>)
    requires
        is_ascending(s),
    ensures
        ascending(s.to_multiset()) == s,
{
    let t = ascending(s.to_multiset());
    assert(is_ascending(t) && t.to_multiset() == s.to_multiset());
    lemma_ascending_unique(s, t);
}

/// Copies the elements at the positions from `from` up to, not including, `to`.
fn copy_range(v: &Vec<u64>, from: usize, to: usize) -> (out: Vec<u64>)
    requires
        from <= to <= v.len(),
    ensures
        out@ == v@.subrange(from as int, to as int),
{
    let mut out: Vec<u64> = Vec::new();
    let mut i: usize = from;
    while i < to
        invariant
            from <= i <= to <= v.len(),
            out@ == v@.subrange(from as int, i as int),
        decreases to - i,
    {
        out.push(v[i]);
        i = i + 1;
        assert(out@ =~= v@.subrange(from as int, i as int));
    }
    out
}

/// Appending one element to a sequence and to a part of what it is made of
/// keeps the two sides equal as multisets.
proof fn lemma_push_both(whole: Seq<u64>, part: Seq<u64>, rest: Multiset<u64>, x: u64)
    requires
        whole.to_multiset() == part.to_multiset().add(rest) || whole.to_multiset() == rest.add(
            part.to_multiset(),
        ),
    ensures
        whole.push(x).to_multiset() == part.push(x).to_multiset().add(rest),
        whole.push(x).to_multiset() == rest.add(part.push(x).to_multiset()),
{
    broadcast use vstd::multiset::group_multiset_axioms;

    vstd::seq_lib::to_multiset_build(whole, x);
    vstd::seq_lib::to_multiset_build(part, x);
    assert(part.to_multiset().add(rest) =~= rest.add(part.to_multiset()));
    assert(whole.push(x).to_multiset() =~= part.push(x).to_multiset().add(rest));
    assert(whole.push(x).to_multiset() =~= rest.add(part.push(x).to_multiset()));
}

/// Merges two ascending vectors into one.
fn merge(left: &Vec<u64>, right: &Vec<u64>) -> (out: Vec<u64>)
    requires
        is_ascending(left@),
        is_ascending(right@),
    ensures
        is_ascending(out@),
        out@.to_multiset() == left@.to_multiset().add(right@.to_multiset()),
{
    broadcast use vstd::multiset::group_multiset_axioms;

    let mut out: Vec<u64> = Vec::new();
    let mut i: usize = 0;
    let mut j: usize = 0;
    proof {
        let nothing = Seq::<u64>::empty();
        assert(out@ =~= nothing);
        assert(left@.take(0) =~= nothing);
        assert(right@.take(0) =~= nothing);
        assert(nothing + nothing =~= nothing);
        lemma_multiset_commutative(nothing, nothing);
    }
    while i < left.len() || j < right.len()
        invariant
            i <= left.len(),
            j <= right.len(),
            is_ascending(left@),
            is_ascending(right@),
            is_ascending(out@),
            out@.to_multiset() == left@.take(i as int).to_multiset().add(
                right@.take(j as int).to_multiset(),
            ),
            forall|k: int, p: int| 0 <= k < out@.len() && i <= p < left@.len() ==> out@[k] <= left@[p],
            forall|k: int, p: int|
                0 <= k < out@.len() && j <= p < right@.len() ==> out@[k] <= right@[p],
        decreases (left.len() - i) + (right.len() - j),
    {
        let ghost before = out@;
        let take_left: bool = if i >= left.len() {
            false
        } else if j >= right.len() {
            true
        } else {
            left[i] <= right[j]
        };
        if take_left {
            let x: u64 = left[i];
            out.push(x);
            proof {
                let taken = left@.take(i as int);
                assert(left@.take(i + 1) =~= taken.push(x));
                lemma_push_both(before, taken, right@.take(j as int).to_multiset(), x);
            }
            i = i + 1;
        } else {
            let x: u64 = right[j];
            out.push(x);
            proof {
                let taken = right@.take(j as int);
                assert(right@.take(j + 1) =~= taken.push(x));
                lemma_push_both(before, taken, left@.take(i as int).to_multiset(), x);
            }
            j = j + 1;
        }
    }
    assert(left@.take(i as int) =~= left@);
    assert(right@.take(j as int) =~= right@);
    out
}

/// Returns the elements of `v` in ascending order.
pub fn sorted_copy(v: &Vec<u64>) -> (out: Vec<u64>)
    ensures
        out@ == ascending(v@.to_multiset()),
        is_ascending(out@),
        out@.to_multiset() == v@.to_multiset(),
        out@.len() == v@.len(),
    decreases v.len(),
{
    broadcast use vstd::seq_lib::group_to_multiset_ensures;

    let n: usize = v.len();
    if n <= 1 {
        let out = copy_range(v, 0, n);
        assert(out@ =~= v@);
        proof {
            lemma_ascending_of(out@);
        }
        out
    } else {
        let mid: usize = n / 2;
        let left = copy_range(v, 0, mid);
        let right = copy_range(v, mid, n);
        let left_sorted = sorted_copy(&left);
        let right_sorted = sorted_copy(&right);
        let out = merge(&left_sorted, &right_sorted);
        proof {
            assert(v@ =~= left@ + right@);
            lemma_multiset_commutative(left@, right@);
            assert(out@.to_multiset() == v@.to_multiset());
            lemma_ascending_of(out@);
            vstd::seq_lib::to_multiset_len(out@);
            vstd::seq_lib::to_multiset_len(v@);
        }
        out
    }
}

} // verus!
