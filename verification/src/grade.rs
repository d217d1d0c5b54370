//! The nodes that deliveries and workflow evaluations are graded with.

use vstd::prelude::*;

use crate::effect::{
    are_effects, collect_parameters, collected, color_node_effect, node, stored, strictly_ordered,
    Effect, EffectModel,
};
use crate::naming::{deduplicated, in_order, lemma_same_multiset_same_names, names_of, sorted};

verus! {

/// A list of named values as names and values.
pub open spec fn listed(list: Seq<(&str, i64)>) -> Seq<(Seq<char>, i64)> {
    list.map_values(|entry: (&str, i64)| (entry.0@, entry.1))
}

/// The named values with names of their own.
pub fn owned_parameters(list: &[(&str, i64)]) -> (owned: Vec<(String, i64)>)
    ensures
        stored(owned@) == listed(list@),
{
    let mut owned: Vec<(String, i64)> = Vec::new();
    let mut i: usize = 0;
    while i < list.len()
        invariant
            i <= list.len(),
            stored(owned@) == listed(list@).take(i as int),
        decreases list.len() - i,
    {
        let (name, value) = list[i];
        let ghost before = stored(owned@);
        owned.push((name.to_owned(), value));
        assert(stored(owned@) =~= before.push((name@, value)));
        i += 1;
        assert(listed(list@).take(i as int) =~= before.push((name@, value)));
    }
    assert(listed(list@).take(list@.len() as int) =~= listed(list@));
    owned
}

/// A node with these parameters.
pub fn effect_with(id: u64, name: &str, parameters: &[(&str, i64)]) -> (effect: Effect)
    ensures
        effect.well_formed(),
        effect@ == node(id, name@, listed(parameters@)),
{
    color_node_effect(id, name, owned_parameters(parameters))
}

/// The node that drives a part of the raster over range: a strong gain inside
/// an ellipse.
pub const CC6_GAIN_NODE: [(&'static str, i64); 9] = [
    ("gain_master_thousandths", 1_800),
    ("matte_enabled", 1),
    ("matte_window_count", 1),
    ("matte_window0_shape_token", 2),
    ("matte_window0_center_x_basis_points", 2_500),
    ("matte_window0_center_y_basis_points", 3_000),
    ("matte_window0_half_width_basis_points", 2_000),
    ("matte_window0_half_height_basis_points", 2_500),
    ("matte_window0_feather_basis_points", 1_500),
];

/// The node that drives a part of the raster below black: a strong negative
/// lift inside another ellipse.
pub const CC6_LIFT_NODE: [(&'static str, i64); 9] = [
    ("lift_master_basis_points", -1_600),
    ("matte_enabled", 1),
    ("matte_window_count", 1),
    ("matte_window0_shape_token", 2),
    ("matte_window0_center_x_basis_points", 7_500),
    ("matte_window0_center_y_basis_points", 7_000),
    ("matte_window0_half_width_basis_points", 2_000),
    ("matte_window0_half_height_basis_points", 2_500),
    ("matte_window0_feather_basis_points", 1_500),
];

/// The grade of the delivery source.
pub open spec fn delivery_grade() -> Seq<EffectModel> {
    seq![
        node(1, "color_wheels"@, listed(CC6_GAIN_NODE@)),
        node(2, "color_wheels"@, listed(CC6_LIFT_NODE@)),
    ]
}

/// The grade of the delivery source: over range in one window, below black in
/// another.
pub fn cc6_delivery_grade() -> (effects: Vec<Effect>)
    ensures
        are_effects(effects@, delivery_grade()),
{
    let mut effects: Vec<Effect> = Vec::new();
    effects.push(effect_with(1, "color_wheels", CC6_GAIN_NODE.as_slice()));
    effects.push(effect_with(2, "color_wheels", CC6_LIFT_NODE.as_slice()));
    effects
}

/// The half width of a window with its feather, in ten-thousandths of a basis
/// point.
pub open spec fn feathered_half_width(window: Seq<(&'static str, i64)>) -> int {
    window[6].1 * (10_000 + window[8].1)
}

/// The two windows of the delivery grade share no column, not even by their
/// feathers.
pub proof fn lemma_delivery_windows_are_apart()
    ensures
        CC6_GAIN_NODE@[4].1 * 10_000 + feathered_half_width(CC6_GAIN_NODE@)
            < CC6_LIFT_NODE@[4].1 * 10_000 - feathered_half_width(CC6_LIFT_NODE@),
{
    assert(feathered_half_width(CC6_GAIN_NODE@) == 2_000 * 11_500);
    assert(feathered_half_width(CC6_LIFT_NODE@) == 2_000 * 11_500);
}

/// The insertion of a node into a clip's chain.
#[derive(Debug)]
pub struct InsertEffect {
    pub clip: u64,
    pub index: usize,
    pub effect: Effect,
}

/// The insertion of a primary correction at the head of a clip's chain.
pub fn cc7_primary_insert(clip: u64, parameters: &[(String, i64)]) -> (operation: InsertEffect)
    ensures
        operation.clip == clip,
        operation.index == 0,
        operation.effect.well_formed(),
        operation.effect@ == node(1, "primary_correction"@, stored(parameters@)),
{
    let owned = copied_parameters(parameters);
    InsertEffect {
        clip,
        index: 0,
        effect: color_node_effect(1, "primary_correction", owned),
    }
}

fn copied_parameters(list: &[(String, i64)]) -> (copy: Vec<(String, i64)>)
    ensures
        stored(copy@) == stored(list@),
{
    let mut copy: Vec<(String, i64)> = Vec::new();
    let mut i: usize = 0;
    while i < list.len()
        invariant
            i <= list.len(),
            stored(copy@) == stored(list@).take(i as int),
        decreases list.len() - i,
    {
        let ghost before = stored(copy@);
        copy.push((list[i].0.as_str().to_owned(), list[i].1));
        assert(stored(copy@) =~= before.push((list@[i as int].0@, list@[i as int].1)));
        i += 1;
        assert(stored(list@).take(i as int) =~= stored(copy@));
    }
    assert(stored(list@).take(list@.len() as int) =~= stored(list@));
    copy
}

/// A node of a scenario's canonical document.
#[derive(Debug)]
pub struct Cc7Operation {
    pub effect_name: String,
    pub parameters: Vec<(String, i64)>,
}

/// The nodes of a scenario's canonical document, numbered from one.
pub open spec fn canonical_models(operations: Seq<Cc7Operation>) -> Seq<EffectModel> {
    Seq::new(
        operations.len(),
        |i: int|
            node(
                (i + 1) as u64,
                operations[i].effect_name@,
                stored(operations[i].parameters@),
            ),
    )
}

/// The nodes of a scenario's canonical document as effects.
pub fn cc7_canonical_effects(operations: &[Cc7Operation]) -> (effects: Vec<Effect>)
    ensures
        are_effects(effects@, canonical_models(operations@)),
{
    let mut effects: Vec<Effect> = Vec::new();
    let length: usize = operations.len();
    let mut i: usize = 0;
    while i < length
        invariant
            i <= length,
            length == operations@.len(),
            effects@.len() == i,
            forall|j: int|
                0 <= j < i ==> (#[trigger] effects@[j]).well_formed() && effects@[j]@
                    == canonical_models(operations@)[j],
        decreases length - i,
    {
        let operation = &operations[i];
        let id: u64 = i as u64 + 1;
        effects.push(
            color_node_effect(
                id,
                operation.effect_name.as_str(),
                copied_parameters(operation.parameters.as_slice()),
            ),
        );
        i += 1;
    }
    effects
}

/// Whether a list names a parameter.
pub open spec fn carries(list: Seq<(Seq<char>, i64)>, name: Seq<char>) -> bool {
    exists|i: int| 0 <= i < list.len() && (#[trigger] list[i]).0 == name
}

/// A map holds the names of the list that it was collected from.
proof fn lemma_collected_domain(list: Seq<(Seq<char>, i64)>, name: Seq<char>)
    ensures
        collected(list).contains_key(name) <==> carries(list, name),
    decreases list.len(),
{
    if list.len() > 0 {
        let shorter = list.drop_last();
        lemma_collected_domain(shorter, name);
        if carries(shorter, name) {
            let i = choose|i: int| 0 <= i < shorter.len() && (#[trigger] shorter[i]).0 == name;
            assert(list[i].0 == name);
        }
        if list.last().0 == name {
            assert(list[list.len() - 1].0 == name);
        }
        if carries(list, name) && list.last().0 != name {
            let i = choose|i: int| 0 <= i < list.len() && (#[trigger] list[i]).0 == name;
            assert(shorter[i].0 == name);
        }
    }
}

/// The parameters of a canonical node with some of them overridden, in the
/// order of their names.  The error is the first override of a parameter that
/// the node does not carry.
pub fn cc7_operation_with(operation: &Cc7Operation, overrides: &[(&str, i64)]) -> (result: Result<
    Vec<(String, i64)>,
    usize,
>)
    ensures
        match result {
            Ok(list) => {
                &&& forall|i: int|
                    0 <= i < overrides@.len() ==> carries(
                        stored(operation.parameters@),
                        (#[trigger] overrides@[i]).0@,
                    )
                &&& strictly_ordered(stored(list@))
                &&& collected(stored(list@)) == collected(
                    stored(operation.parameters@) + listed(overrides@),
                )
            },
            Err(at) => {
                &&& at < overrides@.len()
                &&& !carries(stored(operation.parameters@), overrides@[at as int].0@)
                &&& forall|i: int|
                    0 <= i < at ==> carries(
                        stored(operation.parameters@),
                        (#[trigger] overrides@[i]).0@,
                    )
            },
        },
{
    let ghost base = stored(operation.parameters@);
    let mut parameters = collect_parameters(copied_parameters(operation.parameters.as_slice()));
    let mut i: usize = 0;
    assert(base + listed(overrides@).take(0) =~= base);
    while i < overrides.len()
        invariant
            i <= overrides.len(),
            base == stored(operation.parameters@),
            parameters.well_formed(),
            parameters@ == collected(base + listed(overrides@).take(i as int)),
            parameters@.dom() == collected(base).dom(),
            forall|j: int| 0 <= j < i ==> carries(base, (#[trigger] overrides@[j]).0@),
        decreases overrides.len() - i,
    {
        let (name, value) = overrides[i];
        proof {
            lemma_collected_domain(base, name@);
        }
        if parameters.get(name).is_none() {
            assert(!parameters@.contains_key(name@));
            assert(!collected(base).dom().contains(name@));
            return Err(i);
        }
        assert(parameters@.contains_key(name@));
        assert(collected(base).dom().contains(name@));
        parameters.insert(name.to_owned(), value);
        i += 1;
        proof {
            let all = base + listed(overrides@).take(i as int);
            assert(all.drop_last() =~= base + listed(overrides@).take(i - 1));
            assert(all.last() == (name@, value));
            assert(parameters@.dom() =~= collected(base).dom());
        }
    }
    assert(listed(overrides@).take(overrides@.len() as int) =~= listed(overrides@));
    Ok(copied_parameters(parameters.entries().as_slice()))
}

/// An overridden node differs from the canonical one in the overridden
/// parameters alone: it carries the same parameters, and each that no override
/// names has the same value.
pub proof fn lemma_overrides_change_nothing_else(
    base: Seq<(Seq<char>, i64)>,
    overrides: Seq<(Seq<char>, i64)>,
    name: Seq<char>,
)
    requires
        forall|i: int| 0 <= i < overrides.len() ==> carries(base, (#[trigger] overrides[i]).0),
    ensures
        collected(base + overrides).contains_key(name) <==> collected(base).contains_key(name),
        !carries(overrides, name) && collected(base).contains_key(name) ==> collected(
            base + overrides,
        )[name] == collected(base)[name],
    decreases overrides.len(),
{
    if overrides.len() == 0 {
        assert(base + overrides =~= base);
    } else {
        let fewer = overrides.drop_last();
        assert forall|i: int| 0 <= i < fewer.len() implies carries(
            base,
            (#[trigger] fewer[i]).0,
        ) by {
            assert(fewer[i] == overrides[i]);
        }
        lemma_overrides_change_nothing_else(base, fewer, name);
        assert((base + overrides).drop_last() =~= base + fewer);
        assert((base + overrides).last() == overrides.last());
        assert(overrides[overrides.len() - 1] == overrides.last());
        lemma_collected_domain(base, overrides.last().0);
        if carries(fewer, name) {
            let i = choose|i: int| 0 <= i < fewer.len() && (#[trigger] fewer[i]).0 == name;
            assert(overrides[i].0 == name);
        }
    }
}

/// Whether a canonical document can carry a parameter of a name: one of its
/// nodes does, it is keyframed, or it is one of those that are not stored.
pub open spec fn can_carry(
    operations: Seq<Cc7Operation>,
    keyframed: Seq<&'static str>,
    name: Seq<char>,
) -> bool {
    ||| exists|i: int|
        0 <= i < operations.len() && carries(stored((#[trigger] operations[i]).parameters@), name)
    ||| exists|i: int| 0 <= i < keyframed.len() && (#[trigger] keyframed[i])@ == name
    ||| name == "input_encoding_token"@
    ||| name == "mix_basis_points"@
}

fn add_name(names: &mut Vec<String>, name: &str)
    ensures
        forall|n: Seq<char>| #[trigger]
            names_of(final(names)@).contains(n) <==> names_of(old(names)@).contains(n) || n == name@,
{
    let ghost before = names_of(names@);
    names.push(name.to_owned());
    proof {
        let after = names_of(names@);
        assert(after =~= before.push(name@));
        assert forall|n: Seq<char>| #[trigger] after.contains(n) <==> before.contains(n) || n
            == name@ by {
            if before.contains(n) {
                let i = choose|i: int| 0 <= i < before.len() && before[i] == n;
                assert(after[i] == n);
            }
            if n == name@ {
                assert(after[before.len() as int] == n);
            }
            if after.contains(n) && n != name@ {
                let i = choose|i: int| 0 <= i < after.len() && after[i] == n;
                assert(before[i] == n);
            }
        }
    }
}

fn add_parameter_names(names: &mut Vec<String>, parameters: &Vec<(String, i64)>)
    ensures
        forall|n: Seq<char>| #[trigger]
            names_of(final(names)@).contains(n) <==> names_of(old(names)@).contains(n) || carries(
                stored(parameters@),
                n,
            ),
{
    let ghost before = names_of(names@);
    let ghost list = stored(parameters@);
    let mut i: usize = 0;
    while i < parameters.len()
        invariant
            i <= parameters.len(),
            list == stored(parameters@),
            forall|n: Seq<char>| #[trigger]
                names_of(names@).contains(n) <==> before.contains(n) || carries(
                    list.take(i as int),
                    n,
                ),
        decreases parameters.len() - i,
    {
        let ghost sofar = names_of(names@);
        let ghost name = parameters@[i as int].0@;
        add_name(names, parameters[i].0.as_str());
        proof {
            assert forall|n: Seq<char>| #[trigger]
                names_of(names@).contains(n) <==> before.contains(n) || carries(
                    list.take(i + 1),
                    n,
                ) by {
                assert(sofar.contains(n) <==> before.contains(n) || carries(
                    list.take(i as int),
                    n,
                ));
                if carries(list.take(i as int), n) {
                    let k = choose|k: int|
                        0 <= k < i && (#[trigger] list.take(i as int)[k]).0 == n;
                    assert(list.take(i + 1)[k].0 == n);
                }
                if n == name {
                    assert(list.take(i + 1)[i as int].0 == n);
                }
                if carries(list.take(i + 1), n) && n != name {
                    let k = choose|k: int| 0 <= k < i + 1 && (#[trigger] list.take(i + 1)[k]).0 == n;
                    assert(list.take(i as int)[k].0 == n);
                }
            }
        }
        i += 1;
    }
    assert(list.take(list.len() as int) =~= list);
}

/// Whether one of the first nodes carries a parameter.
spec fn some_carries(operations: Seq<Cc7Operation>, count: int, name: Seq<char>) -> bool {
    exists|i: int|
        0 <= i < count && carries(stored((#[trigger] operations[i]).parameters@), name)
}

/// Every parameter name that a canonical document can carry, in order and
/// once.
pub fn cc7_canonical_parameter_names(
    operations: &[Cc7Operation],
    keyframed: &[&'static str],
) -> (names: Vec<String>)
    ensures
        in_order(names_of(names@)),
        names_of(names@).no_duplicates(),
        forall|name: Seq<char>| #[trigger]
            names_of(names@).contains(name) <==> can_carry(operations@, keyframed@, name),
{
    let mut all: Vec<String> = Vec::new();
    let mut i: usize = 0;
    assert(names_of(all@) =~= Seq::<Seq<char>>::empty());
    while i < operations.len()
        invariant
            i <= operations.len(),
            forall|n: Seq<char>| #[trigger]
                names_of(all@).contains(n) <==> some_carries(operations@, i as int, n),
        decreases operations.len() - i,
    {
        let ghost before = names_of(all@);
        add_parameter_names(&mut all, &operations[i].parameters);
        proof {
            assert forall|n: Seq<char>| #[trigger]
                names_of(all@).contains(n) <==> some_carries(operations@, i + 1, n) by {
                assert(before.contains(n) <==> some_carries(operations@, i as int, n));
                if some_carries(operations@, i as int, n) {
                    let k = choose|k: int|
                        0 <= k < i && carries(stored((#[trigger] operations@[k]).parameters@), n);
                    assert(carries(stored(operations@[k].parameters@), n));
                }
                if carries(stored(operations@[i as int].parameters@), n) {
                    assert(some_carries(operations@, i + 1, n));
                }
            }
        }
        i += 1;
    }
    let ghost nodes = names_of(all@);
    let mut k: usize = 0;
    while k < keyframed.len()
        invariant
            k <= keyframed.len(),
            forall|n: Seq<char>| #[trigger]
                names_of(all@).contains(n) <==> nodes.contains(n) || exists|j: int|
                    0 <= j < k && (#[trigger] keyframed@[j])@ == n,
        decreases keyframed.len() - k,
    {
        let ghost before = names_of(all@);
        add_name(&mut all, keyframed[k]);
        proof {
            assert forall|n: Seq<char>| #[trigger]
                names_of(all@).contains(n) <==> nodes.contains(n) || exists|j: int|
                    0 <= j < k + 1 && (#[trigger] keyframed@[j])@ == n by {
                assert(before.contains(n) <==> nodes.contains(n) || exists|j: int|
                    0 <= j < k && (#[trigger] keyframed@[j])@ == n);
                if n == keyframed@[k as int]@ {
                    assert(names_of(all@).contains(n));
                }
            }
        }
        k += 1;
    }
    let ghost keyed = names_of(all@);
    add_name(&mut all, "input_encoding_token");
    let ghost one = names_of(all@);
    add_name(&mut all, "mix_basis_points");
    let ghost unordered = names_of(all@);
    let ordered = sorted(all);
    let result = deduplicated(&ordered);
    proof {
        assert forall|n: Seq<char>| #[trigger]
            names_of(result@).contains(n) <==> can_carry(operations@, keyframed@, n) by {
            lemma_same_multiset_same_names(names_of(ordered@), unordered, n);
            assert(names_of(ordered@).contains(n) <==> unordered.contains(n));
            assert(unordered.contains(n) <==> one.contains(n) || n == "mix_basis_points"@);
            assert(one.contains(n) <==> keyed.contains(n) || n == "input_encoding_token"@);
            assert(keyed.contains(n) <==> nodes.contains(n) || exists|j: int|
                0 <= j < keyframed@.len() && (#[trigger] keyframed@[j])@ == n);
            assert(nodes.contains(n) <==> some_carries(operations@, operations@.len() as int, n));
        }
    }
    result
}

/// The grade of the delivery source: two nodes of wheels, a gain of 1.8 in an
/// ellipse at the upper left and a lift of minus sixteen hundredths in one at
/// the lower right, each of the two under one window that is switched on.
pub proof fn lemma_delivery_grade_in_words()
    ensures
        delivery_grade().len() == 2,
        delivery_grade()[0].id == 1 && delivery_grade()[1].id == 2,
        delivery_grade()[0].name == "color_wheels"@ && delivery_grade()[1].name == "color_wheels"@,
        listed(CC6_GAIN_NODE@) =~= seq![
            ("gain_master_thousandths"@, 1_800i64),
            ("matte_enabled"@, 1i64),
            ("matte_window_count"@, 1i64),
            ("matte_window0_shape_token"@, 2i64),
            ("matte_window0_center_x_basis_points"@, 2_500i64),
            ("matte_window0_center_y_basis_points"@, 3_000i64),
            ("matte_window0_half_width_basis_points"@, 2_000i64),
            ("matte_window0_half_height_basis_points"@, 2_500i64),
            ("matte_window0_feather_basis_points"@, 1_500i64),
        ],
        listed(CC6_LIFT_NODE@) =~= seq![
            ("lift_master_basis_points"@, -1_600i64),
            ("matte_enabled"@, 1i64),
            ("matte_window_count"@, 1i64),
            ("matte_window0_shape_token"@, 2i64),
            ("matte_window0_center_x_basis_points"@, 7_500i64),
            ("matte_window0_center_y_basis_points"@, 7_000i64),
            ("matte_window0_half_width_basis_points"@, 2_000i64),
            ("matte_window0_half_height_basis_points"@, 2_500i64),
            ("matte_window0_feather_basis_points"@, 1_500i64),
        ],
        delivery_grade()[0].parameters == collected(listed(CC6_GAIN_NODE@)),
        delivery_grade()[1].parameters == collected(listed(CC6_LIFT_NODE@)),
{
    assert(CC6_GAIN_NODE@.len() == 9 && CC6_LIFT_NODE@.len() == 9);
}

/// The nodes of a canonical document are its operations in order, numbered from
/// one, each with its own name and parameters.
pub proof fn lemma_canonical_nodes_in_order(operations: Seq<Cc7Operation>, i: int)
    requires
        0 <= i < operations.len() < u64::MAX,
    ensures
        canonical_models(operations).len() == operations.len(),
        canonical_models(operations)[i].id == i + 1,
        canonical_models(operations)[i].name == operations[i].effect_name@,
        canonical_models(operations)[i].parameters == collected(
            stored(operations[i].parameters@),
        ),
{
}

/// An overridden parameter has the value of the last override that names it.
pub proof fn lemma_override_takes_effect(
    base: Seq<(Seq<char>, i64)>,
    overrides: Seq<(Seq<char>, i64)>,
    at: int,
)
    requires
        0 <= at < overrides.len(),
        forall|j: int| at < j < overrides.len() ==> (#[trigger] overrides[j]).0 != overrides[at].0,
    ensures
        collected(base + overrides).contains_key(overrides[at].0),
        collected(base + overrides)[overrides[at].0] == overrides[at].1,
{
    let all = base + overrides;
    let place = base.len() + at;
    assert(all[place] == overrides[at]);
    assert forall|j: int| place < j < all.len() implies (#[trigger] all[j]).0 != all[place].0 by {
        assert(all[j] == overrides[j - base.len()]);
    }
    crate::effect::lemma_last_value_is_stored(all, place);
}

/// A stack can carry a name that one of its operations stores, a name that is
/// keyframed, and the two that every look carries; without operations and
/// keyframes it can carry those two alone.
pub proof fn lemma_carried_names(
    operations: Seq<Cc7Operation>,
    keyframed: Seq<&'static str>,
    i: int,
    j: int,
)
    ensures
        0 <= i < operations.len() && 0 <= j < stored(operations[i].parameters@).len() ==> can_carry(
            operations,
            keyframed,
            stored(operations[i].parameters@)[j].0,
        ),
        0 <= i < keyframed.len() ==> can_carry(operations, keyframed, keyframed[i]@),
        can_carry(operations, keyframed, "input_encoding_token"@),
        can_carry(operations, keyframed, "mix_basis_points"@),
        forall|name: Seq<char>| #[trigger]
            can_carry(Seq::empty(), Seq::empty(), name) ==> name == "input_encoding_token"@ || name
                == "mix_basis_points"@,
{
    if 0 <= i < operations.len() && 0 <= j < stored(operations[i].parameters@).len() {
        assert(carries(
            stored(operations[i].parameters@),
            stored(operations[i].parameters@)[j].0,
        ));
    }
}

} // verus!
