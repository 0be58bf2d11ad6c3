//! Sums of sequences of natural numbers.
use vstd::prelude::*;

verus! {

/// The sum of the elements of `s`.
pub open spec fn sum_nat(s: Seq<nat>) -> nat
    decreases s.len(),
{
    if s.len() == 0 {
        0
    } else {
        sum_nat(s.drop_last()) + s.last()
    }
}

/// The sum of a concatenation is the sum of the parts.
pub proof fn lemma_sum_concat(a: Seq<nat>, b: Seq<nat>)
    ensures
        sum_nat(a + b) == sum_nat(a) + sum_nat(b),
    decreases b.len(),
{
    if b.len() == 0 {
        assert(a + b =~= a);
    } else {
        assert((a + b).drop_last() =~= a + b.drop_last());
        lemma_sum_concat(a, b.drop_last());
    }
}

/// The sum of a single element is that element.
pub proof fn lemma_sum_single(v: nat)
    ensures
        sum_nat(seq![v]) == v,
{
    assert(seq![v].drop_last() =~= Seq::<nat>::empty());
    assert(sum_nat(Seq::<nat>::empty()) == 0);
    assert(seq![v].last() == v);
}

/// Replacing one element changes the sum by the difference.
pub proof fn lemma_sum_update(s: Seq<nat>, i: int, v: nat)
    requires
        0 <= i < s.len(),
    ensures
        sum_nat(s.update(i, v)) == sum_nat(s) - s[i] + v,
{
    let pre = s.take(i);
    let post = s.skip(i + 1);
    assert(s =~= pre + seq![s[i]] + post);
    assert(s.update(i, v) =~= pre + seq![v] + post);
    lemma_sum_concat(pre + seq![s[i]], post);
    lemma_sum_concat(pre, seq![s[i]]);
    lemma_sum_concat(pre + seq![v], post);
    lemma_sum_concat(pre, seq![v]);
    lemma_sum_single(s[i]);
    lemma_sum_single(v);
}

/// Removing one element takes it off the sum.
pub proof fn lemma_sum_remove(s: Seq<nat>, i: int)
    requires
        0 <= i < s.len(),
    ensures
        sum_nat(s.remove(i)) == sum_nat(s) - s[i],
{
    let pre = s.take(i);
    let post = s.skip(i + 1);
    assert(s =~= pre + seq![s[i]] + post);
    assert(s.remove(i) =~= pre + post);
    lemma_sum_concat(pre + seq![s[i]], post);
    lemma_sum_concat(pre, seq![s[i]]);
    lemma_sum_concat(pre, post);
    lemma_sum_single(s[i]);
}

/// No element exceeds the sum.
pub proof fn lemma_sum_elem_le(s: Seq<nat>, i: int)
    requires
        0 <= i < s.len(),
    ensures
        s[i] <= sum_nat(s),
{
    lemma_sum_update(s, i, 0);
}

/// Two distinct elements together do not exceed the sum.
pub proof fn lemma_sum_two_le(s: Seq<nat>, i: int, k: int)
    requires
        0 <= i < s.len(),
        0 <= k < s.len(),
        i != k,
    ensures
        s[i] + s[k] <= sum_nat(s),
{
    lemma_sum_update(s, i, 0);
    lemma_sum_elem_le(s.update(i, 0), k);
}

} // verus!
