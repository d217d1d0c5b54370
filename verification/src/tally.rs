//! Sums over the first numbers.

use vstd::prelude::*;

verus! {

/// The sum of `f` over the numbers below `count`.
pub open spec fn total(count: nat, f: spec_fn(int) -> nat) -> nat
    decreases count,
{
    if count == 0 {
        0
    } else {
        total((count - 1) as nat, f) + f(count - 1)
    }
}

/// How many numbers below `count` have a property.
pub open spec fn how_many(count: nat, property: spec_fn(int) -> bool) -> nat {
    total(
        count,
        |i: int|
            if property(i) {
                1nat
            } else {
                0nat
            },
    )
}

/// A sum whose terms stay below a bound stays below the bound times their
/// number.
pub proof fn lemma_total_bound(count: nat, f: spec_fn(int) -> nat, bound: nat)
    requires
        forall|i: int| 0 <= i < count ==> #[trigger] f(i) <= bound,
    ensures
        total(count, f) <= bound * count,
    decreases count,
{
    if count > 0 {
        lemma_total_bound((count - 1) as nat, f, bound);
        assert(bound * count == bound * (count - 1) + bound) by (nonlinear_arith)
            requires
                count > 0,
        ;
    }
}

/// A sum of zeros is zero, and a sum that is zero has only zeros.
pub proof fn lemma_total_zero(count: nat, f: spec_fn(int) -> nat)
    ensures
        total(count, f) == 0 <==> forall|i: int| 0 <= i < count ==> #[trigger] f(i) == 0,
    decreases count,
{
    if count > 0 {
        lemma_total_zero((count - 1) as nat, f);
        if total(count, f) == 0 {
            assert forall|i: int| 0 <= i < count implies #[trigger] f(i) == 0 by {
                if i == count - 1 {
                    assert(f(count - 1) == 0);
                }
            }
        }
    }
}

/// Sums of terms that are equal are equal.
pub proof fn lemma_total_same(count: nat, f: spec_fn(int) -> nat, g: spec_fn(int) -> nat)
    requires
        forall|i: int| 0 <= i < count ==> #[trigger] f(i) == g(i),
    ensures
        total(count, f) == total(count, g),
    decreases count,
{
    if count > 0 {
        lemma_total_same((count - 1) as nat, f, g);
    }
}

/// The sum of terms that are sums is the sum of the sums.
pub proof fn lemma_total_sum(
    count: nat,
    f: spec_fn(int) -> nat,
    g: spec_fn(int) -> nat,
    both: spec_fn(int) -> nat,
)
    requires
        forall|i: int| 0 <= i < count ==> #[trigger] both(i) == f(i) + g(i),
    ensures
        total(count, both) == total(count, f) + total(count, g),
    decreases count,
{
    if count > 0 {
        lemma_total_sum((count - 1) as nat, f, g, both);
        assert(both(count - 1) == f(count - 1) + g(count - 1));
    }
}

/// A sum of smaller terms is smaller.
pub proof fn lemma_total_le(count: nat, f: spec_fn(int) -> nat, g: spec_fn(int) -> nat)
    requires
        forall|i: int| 0 <= i < count ==> #[trigger] f(i) <= g(i),
    ensures
        total(count, f) <= total(count, g),
    decreases count,
{
    if count > 0 {
        lemma_total_le((count - 1) as nat, f, g);
        assert(f(count - 1) <= g(count - 1));
    }
}

/// What has a property and what does not are together everything.
pub proof fn lemma_how_many_complement(count: nat, property: spec_fn(int) -> bool)
    ensures
        how_many(count, property) + how_many(count, |i: int| !property(i)) == count,
    decreases count,
{
    if count > 0 {
        lemma_how_many_complement((count - 1) as nat, property);
    }
}

/// No more have a property than there are.
pub proof fn lemma_how_many_bound(count: nat, property: spec_fn(int) -> bool)
    ensures
        how_many(count, property) <= count,
{
    lemma_how_many_complement(count, property);
}

/// A sum over a longer stretch is the sum over its beginning and the sum over
/// the rest of it.
pub proof fn lemma_total_splits(
    count: nat,
    rest: nat,
    f: spec_fn(int) -> nat,
    tail: spec_fn(int) -> nat,
)
    requires
        forall|i: int| 0 <= i < rest ==> #[trigger] tail(i) == f(count + i),
    ensures
        total(count + rest, f) == total(count, f) + total(rest, tail),
    decreases rest,
{
    if rest > 0 {
        lemma_total_splits(count, (rest - 1) as nat, f, tail);
        assert(tail(rest - 1) == f(count + (rest - 1)));
        assert((count + rest - 1) as nat == count + (rest - 1) as nat);
    }
}

/// A sum whose terms are at least a bound is at least the bound times their
/// number.
pub proof fn lemma_total_least(count: nat, f: spec_fn(int) -> nat, bound: nat)
    requires
        forall|i: int| 0 <= i < count ==> #[trigger] f(i) >= bound,
    ensures
        total(count, f) >= bound * count,
    decreases count,
{
    if count > 0 {
        lemma_total_least((count - 1) as nat, f, bound);
        assert(f(count - 1) >= bound);
        assert(bound * count == bound * (count - 1) + bound) by (nonlinear_arith)
            requires
                count > 0,
        ;
    } else {
        assert(bound * count == 0) by (nonlinear_arith)
            requires
                count == 0,
        ;
    }
}

/// Where everything has a property, as many have it as there are; where nothing
/// does, none; and one more number adds one exactly where it has the property.
pub proof fn lemma_how_many_in_words(count: nat, property: spec_fn(int) -> bool)
    ensures
        (forall|i: int| 0 <= i < count ==> #[trigger] property(i)) <==> how_many(count, property)
            == count,
        (forall|i: int| 0 <= i < count ==> !#[trigger] property(i)) <==> how_many(count, property)
            == 0,
        how_many(count + 1, property) == how_many(count, property) + (if property(count as int) {
            1int
        } else {
            0int
        }),
        how_many(0, property) == 0,
    decreases count,
{
    if count > 0 {
        let before = (count - 1) as nat;
        lemma_how_many_in_words(before, property);
        lemma_how_many_bound(before, property);
        lemma_how_many_bound(count, property);
        if how_many(count, property) == count {
            assert forall|i: int| 0 <= i < count implies #[trigger] property(i) by {
                if i == before {
                }
            }
        }
        if how_many(count, property) == 0 {
            assert forall|i: int| 0 <= i < count implies !#[trigger] property(i) by {
                if i == before {
                }
            }
        }
    }
}

} // verus!
