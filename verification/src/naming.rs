//! Names in alphabetical order.

use vstd::prelude::*;
use vstd::relations::{sorted_by, total_ordering};

use crate::text::{chars_of, code_of, strings_equal};

verus! {

/// Whether `left` stands before `right`, or is equal to it, in the order of
/// their code points.
pub open spec fn precedes(left: Seq<char>, right: Seq<char>) -> bool
    decreases left.len(),
{
    if left.len() == 0 {
        true
    } else if right.len() == 0 {
        false
    } else if left[0] != right[0] {
        (left[0] as int) < (right[0] as int)
    } else {
        precedes(left.drop_first(), right.drop_first())
    }
}

/// The order of names as a function.
pub open spec fn name_order() -> spec_fn(Seq<char>, Seq<char>) -> bool {
    |left: Seq<char>, right: Seq<char>| precedes(left, right)
}

/// Whether names stand in order.
pub open spec fn in_order(names: Seq<Seq<char>>) -> bool {
    forall|i: int, j: int| 0 <= i < j < names.len() ==> precedes(names[i], names[j])
}

/// The names that a list of strings holds.
pub open spec fn names_of(names: Seq<String>) -> Seq<Seq<char>> {
    names.map_values(|name: String| name@)
}

/// The names that a list of string slices holds.
pub open spec fn slices_of(names: Seq<&'static str>) -> Seq<Seq<char>> {
    names.map_values(|name: &'static str| name@)
}

/// Every name precedes itself.
pub proof fn lemma_precedes_reflexive(name: Seq<char>)
    ensures
        precedes(name, name),
    decreases name.len(),
{
    if name.len() > 0 {
        lemma_precedes_reflexive(name.drop_first());
    }
}

/// Of two names one precedes the other, and both do only where they are equal.
pub proof fn lemma_precedes_total(left: Seq<char>, right: Seq<char>)
    ensures
        precedes(left, right) || precedes(right, left),
        precedes(left, right) && precedes(right, left) ==> left == right,
    decreases left.len(),
{
    if left.len() == 0 || right.len() == 0 {
        assert(left.len() == 0 && right.len() == 0 ==> left =~= right);
    } else {
        lemma_precedes_total(left.drop_first(), right.drop_first());
        if left[0] == right[0] && left.drop_first() == right.drop_first() {
            assert(left =~= seq![left[0]] + left.drop_first());
            assert(right =~= seq![right[0]] + right.drop_first());
        }
    }
}

/// The order of names is transitive.
pub proof fn lemma_precedes_transitive(a: Seq<char>, b: Seq<char>, c: Seq<char>)
    requires
        precedes(a, b),
        precedes(b, c),
    ensures
        precedes(a, c),
    decreases a.len(),
{
    if a.len() > 0 && b.len() > 0 && c.len() > 0 {
        if a[0] == b[0] && b[0] == c[0] {
            lemma_precedes_transitive(a.drop_first(), b.drop_first(), c.drop_first());
        }
    }
}

/// The order of names is a total order.
pub proof fn lemma_name_order_total()
    ensures
        total_ordering(name_order()),
{
    let order = name_order();
    assert forall|x: Seq<char>| #[trigger] order(x, x) by {
        lemma_precedes_reflexive(x);
    }
    assert forall|x: Seq<char>, y: Seq<char>| #[trigger] order(x, y) && #[trigger] order(
        y,
        x,
    ) implies x == y by {
        lemma_precedes_total(x, y);
    }
    assert forall|x: Seq<char>, y: Seq<char>, z: Seq<char>| #[trigger] order(x, y)
        && #[trigger] order(y, z) implies order(x, z) by {
        lemma_precedes_transitive(x, y, z);
    }
    assert forall|x: Seq<char>, y: Seq<char>| #[trigger] order(x, y) || #[trigger] order(y, x) by {
        lemma_precedes_total(x, y);
    }
}

/// Lists that hold the same names as often as each other are one list once
/// they stand in order: sorting is a canonical form.
pub proof fn lemma_order_is_canonical(left: Seq<Seq<char>>, right: Seq<Seq<char>>)
    requires
        in_order(left),
        in_order(right),
        left.to_multiset() == right.to_multiset(),
    ensures
        left == right,
{
    lemma_name_order_total();
    let order = name_order();
    assert forall|i: int, j: int| 0 <= i < j < left.len() implies order(left[i], left[j]) by {
        assert(precedes(left[i], left[j]));
    }
    assert forall|i: int, j: int| 0 <= i < j < right.len() implies order(right[i], right[j]) by {
        assert(precedes(right[i], right[j]));
    }
    vstd::seq_lib::lemma_sorted_unique(left, right, order);
}

/// Whether `left` stands before `right`, or is equal to it.
pub fn name_precedes(left: &str, right: &str) -> (result: bool)
    ensures
        result == precedes(left@, right@),
{
    let a = chars_of(left);
    let b = chars_of(right);
    let mut i: usize = 0;
    proof {
        assert(a@.skip(0) =~= a@);
        assert(b@.skip(0) =~= b@);
    }
    while i < a.len() && i < b.len()
        invariant
            i <= a.len(),
            i <= b.len(),
            a@ == left@,
            b@ == right@,
            precedes(a@, b@) == precedes(a@.skip(i as int), b@.skip(i as int)),
        decreases a.len() - i,
    {
        proof {
            assert(a@.skip(i as int).drop_first() =~= a@.skip(i + 1));
            assert(b@.skip(i as int).drop_first() =~= b@.skip(i + 1));
            assert(a@.skip(i as int)[0] == a@[i as int]);
            assert(b@.skip(i as int)[0] == b@[i as int]);
        }
        if a[i] != b[i] {
            return code_of(a[i]) < code_of(b[i]);
        }
        i += 1;
    }
    i == a.len()
}

/// Putting a name into a list adds it to the names that the list holds.
proof fn lemma_insert_multiset(names: Seq<Seq<char>>, at: int, name: Seq<char>)
    requires
        0 <= at <= names.len(),
    ensures
        names.insert(at, name).to_multiset() == names.to_multiset().insert(name),
{
    broadcast use vstd::seq_lib::group_to_multiset_ensures;

    let longer = names.insert(at, name);
    assert(longer.remove(at) =~= names);
    assert(longer[at] == name);
    assert(longer.to_multiset().contains(name));
    assert(longer.to_multiset() =~= names.to_multiset().insert(name));
}

/// An empty list adds nothing to the names that another list holds.
proof fn lemma_empty_adds_nothing(names: Seq<Seq<char>>)
    ensures
        names.to_multiset().add(Seq::<Seq<char>>::empty().to_multiset()) == names.to_multiset(),
        Seq::<Seq<char>>::empty().to_multiset().add(names.to_multiset()) == names.to_multiset(),
{
    broadcast use vstd::seq_lib::group_to_multiset_ensures;

    let none = Seq::<Seq<char>>::empty();
    assert forall|name: Seq<char>| none.to_multiset().count(name) == 0 by {
        assert(!none.contains(name));
    }
    assert(names.to_multiset().add(none.to_multiset()) =~= names.to_multiset());
    assert(none.to_multiset().add(names.to_multiset()) =~= names.to_multiset());
}

/// The position behind the names that precede `name` in an ordered list.
fn place_of(names: &Vec<String>, name: &str) -> (at: usize)
    requires
        in_order(names_of(names@)),
    ensures
        at <= names.len(),
        forall|i: int| 0 <= i < at ==> precedes(#[trigger] names_of(names@)[i], name@),
        forall|i: int| at <= i < names.len() ==> precedes(name@, #[trigger] names_of(names@)[i]),
{
    let mut at: usize = 0;
    while at < names.len() && name_precedes(names[at].as_str(), name)
        invariant
            at <= names.len(),
            forall|i: int| 0 <= i < at ==> precedes(#[trigger] names_of(names@)[i], name@),
        decreases names.len() - at,
    {
        assert(names_of(names@)[at as int] == names@[at as int]@);
        at += 1;
    }
    proof {
        let all = names_of(names@);
        assert forall|i: int| at <= i < names.len() implies precedes(name@, #[trigger] all[i]) by {
            assert(all[at as int] == names@[at as int]@);
            lemma_precedes_total(name@, all[at as int]);
            if i > at {
                lemma_precedes_transitive(name@, all[at as int], all[i]);
            }
        }
    }
    at
}

/// The names in order, each as often as it was given.
pub fn sorted(names: Vec<String>) -> (result: Vec<String>)
    ensures
        in_order(names_of(result@)),
        names_of(result@).to_multiset() == names_of(names@).to_multiset(),
{
    let mut rest = names;
    let mut result: Vec<String> = Vec::new();
    proof {
        assert(names_of(result@) =~= Seq::<Seq<char>>::empty());
        lemma_empty_adds_nothing(names_of(names@));
    }
    while rest.len() > 0
        invariant
            in_order(names_of(result@)),
            names_of(rest@).to_multiset().add(names_of(result@).to_multiset()) == names_of(
                names@,
            ).to_multiset(),
        decreases rest.len(),
    {
        let ghost rest_before = names_of(rest@);
        let ghost before = names_of(result@);
        let name = rest.pop().unwrap();
        let at = place_of(&result, name.as_str());
        let ghost view = name@;
        result.insert(at, name);
        proof {
            broadcast use vstd::seq_lib::group_to_multiset_ensures;

            assert(names_of(rest@) =~= rest_before.drop_last());
            assert(rest_before =~= names_of(rest@).push(view));
            assert(names_of(result@) =~= before.insert(at as int, view));
            lemma_insert_multiset(before, at as int, view);
            assert(names_of(rest@).to_multiset().add(names_of(result@).to_multiset())
                =~= rest_before.to_multiset().add(before.to_multiset()));
            let after = names_of(result@);
            assert forall|i: int, j: int| 0 <= i < j < after.len() implies precedes(
                after[i],
                after[j],
            ) by {
                if i < at && j > at {
                    lemma_precedes_transitive(after[i], view, after[j]);
                }
            }
        }
    }
    proof {
        assert(names_of(rest@) =~= Seq::<Seq<char>>::empty());
        lemma_empty_adds_nothing(names_of(result@));
    }
    result
}

/// The names of an ordered list, each once.
pub fn deduplicated(names: &Vec<String>) -> (result: Vec<String>)
    requires
        in_order(names_of(names@)),
    ensures
        in_order(names_of(result@)),
        names_of(result@).no_duplicates(),
        forall|name: Seq<char>|
            #[trigger] names_of(result@).contains(name) <==> names_of(names@).contains(name),
{
    let ghost all = names_of(names@);
    let mut result: Vec<String> = Vec::new();
    let mut i: usize = 0;
    while i < names.len()
        invariant
            i <= names.len(),
            all == names_of(names@),
            in_order(all),
            in_order(names_of(result@)),
            names_of(result@).no_duplicates(),
            i > 0 ==> result.len() > 0 && names_of(result@).last() == all[i - 1],
            i == 0 ==> result.len() == 0,
            forall|k: int|
                0 <= k < result.len() ==> all.take(i as int).contains(
                    #[trigger] names_of(result@)[k],
                ),
            forall|j: int| 0 <= j < i ==> names_of(result@).contains(#[trigger] all[j]),
        decreases names.len() - i,
    {
        assert(all[i as int] == names@[i as int]@);
        let ghost before = names_of(result@);
        let mut fresh = true;
        if result.len() > 0 {
            let last: usize = result.len() - 1;
            assert(before.last() == result@[last as int]@);
            fresh = !strings_equal(result[last].as_str(), names[i].as_str());
        }
        assert(fresh <==> i == 0 || all[i - 1] != all[i as int]);
        if fresh {
            let name = names[i].as_str().to_owned();
            let ghost view = name@;
            result.push(name);
            proof {
                let after = names_of(result@);
                assert(after =~= before.push(view));
                assert forall|a: int, b: int|
                    #![trigger after[a], after[b]]
                    0 <= a < b < after.len() implies precedes(after[a], after[b]) && after[a]
                    != after[b] by {
                    if b == before.len() {
                        assert(all.take(i as int).contains(before[a]));
                        let j = choose|j: int| 0 <= j < i && all.take(i as int)[j] == before[a];
                        assert(all[j] == before[a]);
                        assert(precedes(all[j], all[i as int]));
                        if after[a] == after[b] {
                            if j < i - 1 {
                                assert(precedes(all[j], all[i - 1]));
                            }
                            assert(precedes(all[i - 1], all[i as int]));
                            lemma_precedes_reflexive(all[j]);
                            lemma_precedes_total(all[i - 1], all[i as int]);
                        }
                    }
                }
            }
        }
        i += 1;
        proof {
            let after = names_of(result@);
            assert forall|k: int| 0 <= k < result.len() implies all.take(i as int).contains(
                #[trigger] after[k],
            ) by {
                if k < before.len() {
                    assert(after[k] == before[k]);
                    let earlier = all.take(i - 1);
                    assert(earlier.contains(before[k]));
                    let j = choose|j: int| 0 <= j < earlier.len() && earlier[j] == before[k];
                    assert(all.take(i as int)[j] == after[k]);
                } else {
                    assert(all.take(i as int)[i - 1] == after[k]);
                }
            }
            assert forall|j: int| 0 <= j < i implies after.contains(#[trigger] all[j]) by {
                if j < i - 1 {
                    let k = choose|k: int| 0 <= k < before.len() && before[k] == all[j];
                    assert(after[k] == all[j]);
                } else {
                    assert(after[after.len() - 1] == all[j]);
                }
            }
        }
    }
    proof {
        assert(all.take(names.len() as int) =~= all);
        assert forall|name: Seq<char>|
            #[trigger] names_of(result@).contains(name) <==> all.contains(name) by {
            if names_of(result@).contains(name) {
                let k = choose|k: int|
                    0 <= k < names_of(result@).len() && names_of(result@)[k] == name;
                assert(all.contains(names_of(result@)[k]));
            }
            if all.contains(name) {
                let j = choose|j: int| 0 <= j < all.len() && all[j] == name;
                assert(names_of(result@).contains(all[j]));
            }
        }
    }
    result
}

/// Lists that hold the same names as often as each other hold the same names.
pub proof fn lemma_same_multiset_same_names(left: Seq<Seq<char>>, right: Seq<Seq<char>>, name: Seq<char>)
    requires
        left.to_multiset() == right.to_multiset(),
    ensures
        left.contains(name) <==> right.contains(name),
{
    broadcast use vstd::seq_lib::group_to_multiset_ensures;

    assert(left.contains(name) <==> left.to_multiset().count(name) > 0);
    assert(right.contains(name) <==> right.to_multiset().count(name) > 0);
}

/// The first characters in which two names differ say which precedes; a name
/// precedes each longer name that begins with it, and is not preceded by it.
pub proof fn lemma_first_difference_decides(left: Seq<char>, right: Seq<char>, at: int)
    requires
        0 <= at <= left.len(),
        at <= right.len(),
        forall|i: int| 0 <= i < at ==> #[trigger] left[i] == right[i],
    ensures
        at < left.len() && at < right.len() && left[at] != right[at] ==> (precedes(left, right)
            <==> (left[at] as int) < (right[at] as int)),
        at == left.len() ==> precedes(left, right),
        at == right.len() && at < left.len() ==> !precedes(left, right),
    decreases at,
{
    if at > 0 {
        assert(left[0] == right[0]);
        let l = left.drop_first();
        let r = right.drop_first();
        assert forall|i: int| 0 <= i < at - 1 implies #[trigger] l[i] == r[i] by {
            assert(left[i + 1] == right[i + 1]);
        }
        if at < left.len() {
            assert(l[at - 1] == left[at]);
        }
        if at < right.len() {
            assert(r[at - 1] == right[at]);
        }
        lemma_first_difference_decides(l, r, at - 1);
    }
}

} // verus!
