//! Sums of natural numbers along a sequence, and how they change when the
//! sequence does.

use vstd::prelude::*;

verus! {

/// The sum of the numbers of a sequence.
pub open spec fn total(values: Seq<nat>) -> nat
    decreases values.len(),
{
    if values.len() == 0 {
        0
    } else {
        total(values.drop_last()) + values.last()
    }
}

/// Appending a number adds it to the sum.
pub proof fn lemma_total_push(values: Seq<nat>, x: nat)
    ensures
        total(values.push(x)) == total(values) + x,
{
    assert(values.push(x).drop_last() =~= values);
}

/// No number of the sequence exceeds the sum.
pub proof fn lemma_total_bounds(values: Seq<nat>, i: int)
    requires
        0 <= i < values.len(),
    ensures
        values[i] <= total(values),
    decreases values.len(),
{
    if i < values.len() - 1 {
        lemma_total_bounds(values.drop_last(), i);
    }
}

/// Replacing one number changes the sum by the difference.
pub proof fn lemma_total_update(values: Seq<nat>, i: int, x: nat)
    requires
        0 <= i < values.len(),
    ensures
        total(values.update(i, x)) == total(values) - values[i] + x,
    decreases values.len(),
{
    if i < values.len() - 1 {
        lemma_total_update(values.drop_last(), i, x);
        assert(values.update(i, x).drop_last() =~= values.drop_last().update(i, x));
    } else {
        assert(values.update(i, x).drop_last() =~= values.drop_last());
    }
}

/// Taking one number out takes it from the sum.
pub proof fn lemma_total_remove(values: Seq<nat>, i: int)
    requires
        0 <= i < values.len(),
    ensures
        total(values.remove(i)) == total(values) - values[i],
    decreases values.len(),
{
    if i < values.len() - 1 {
        lemma_total_remove(values.drop_last(), i);
        assert(values.remove(i).drop_last() =~= values.drop_last().remove(i));
        assert(values.remove(i).last() == values.last());
    } else {
        assert(values.remove(i) =~= values.drop_last());
    }
}

/// A sequence that repeats one number sums to that number times its length.
pub proof fn lemma_total_constant(values: Seq<nat>, x: nat)
    requires
        forall|i: int| 0 <= i < values.len() ==> values[i] == x,
    ensures
        total(values) == x * values.len(),
    decreases values.len(),
{
    if values.len() > 0 {
        lemma_total_constant(values.drop_last(), x);
        assert(x * values.len() == x * (values.len() - 1) + x) by (nonlinear_arith);
    } else {
        assert(x * values.len() == 0) by (nonlinear_arith)
            requires
                values.len() == 0,
        ;
    }
}

} // verus!
