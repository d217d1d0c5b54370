//! Effects and the parameters that they store.

use vstd::prelude::*;

use crate::naming::{
    lemma_precedes_reflexive, lemma_precedes_total, lemma_precedes_transitive, name_precedes,
    precedes,
};
use crate::text::strings_equal;

verus! {

/// A list of named values as names and values.
pub open spec fn stored(list: Seq<(String, i64)>) -> Seq<(Seq<char>, i64)> {
    list.map_values(|entry: (String, i64)| (entry.0@, entry.1))
}

/// The map that a list of named values gives: a later value takes the place of
/// an earlier one of the same name.
pub open spec fn collected(list: Seq<(Seq<char>, i64)>) -> Map<Seq<char>, i64>
    decreases list.len(),
{
    if list.len() == 0 {
        Map::empty()
    } else {
        collected(list.drop_last()).insert(list.last().0, list.last().1)
    }
}

/// Whether names stand in strict order.
pub open spec fn strictly_ordered(list: Seq<(Seq<char>, i64)>) -> bool {
    forall|i: int, j: int|
        #![trigger list[i], list[j]]
        0 <= i < j < list.len() ==> precedes(list[i].0, list[j].0) && list[i].0 != list[j].0
}

/// The parameters of an effect: values by name, each name once, in the order
/// of the names.
#[derive(Debug)]
pub struct ParameterMap {
    entries: Vec<(String, i64)>,
}

impl View for ParameterMap {
    type V = Map<Seq<char>, i64>;

    closed spec fn view(&self) -> Map<Seq<char>, i64> {
        collected(stored(self.entries@))
    }
}

/// An ordered list maps each of its names to the value beside it, and no other
/// name.
proof fn lemma_ordered_lookup(list: Seq<(Seq<char>, i64)>, name: Seq<char>)
    requires
        strictly_ordered(list),
    ensures
        collected(list).contains_key(name) <==> exists|i: int|
            0 <= i < list.len() && (#[trigger] list[i]).0 == name,
        forall|i: int|
            0 <= i < list.len() ==> collected(list).contains_key((#[trigger] list[i]).0)
                && collected(list)[list[i].0] == list[i].1,
    decreases list.len(),
{
    if list.len() > 0 {
        let shorter = list.drop_last();
        assert forall|i: int, j: int|
            #![trigger shorter[i], shorter[j]]
            0 <= i < j < shorter.len() implies precedes(shorter[i].0, shorter[j].0)
            && shorter[i].0 != shorter[j].0 by {
            assert(shorter[i] == list[i] && shorter[j] == list[j]);
        }
        lemma_ordered_lookup(shorter, name);
        assert forall|i: int| 0 <= i < list.len() implies collected(list).contains_key(
            (#[trigger] list[i]).0,
        ) && collected(list)[list[i].0] == list[i].1 by {
            if i < shorter.len() {
                assert(shorter[i] == list[i]);
                assert(list[i].0 != list[list.len() - 1].0);
            }
        }
        if collected(list).contains_key(name) {
            if name == list.last().0 {
                assert(list[list.len() - 1].0 == name);
            } else {
                let i = choose|i: int| 0 <= i < shorter.len() && (#[trigger] shorter[i]).0 == name;
                assert(list[i].0 == name);
            }
        }
    }
}

impl ParameterMap {
    /// Whether the entries stand in order, each name once.
    pub closed spec fn well_formed(&self) -> bool {
        strictly_ordered(stored(self.entries@))
    }

    /// No parameters.
    pub fn new() -> (map: Self)
        ensures
            map.well_formed(),
            map@ == Map::<Seq<char>, i64>::empty(),
    {
        ParameterMap { entries: Vec::new() }
    }

    /// The position of `name`, or the one where it belongs.
    fn place_of(&self, name: &str) -> (at: usize)
        requires
            self.well_formed(),
        ensures
            at <= self.entries.len(),
            forall|i: int|
                0 <= i < at ==> precedes((#[trigger] stored(self.entries@)[i]).0, name@) && stored(
                    self.entries@,
                )[i].0 != name@,
            forall|i: int|
                at <= i < self.entries.len() ==> precedes(
                    name@,
                    (#[trigger] stored(self.entries@)[i]).0,
                ),
    {
        let ghost list = stored(self.entries@);
        let mut at: usize = 0;
        while at < self.entries.len() && !name_precedes(name, self.entries[at].0.as_str())
            invariant
                at <= self.entries.len(),
                list == stored(self.entries@),
                forall|i: int|
                    0 <= i < at ==> precedes((#[trigger] list[i]).0, name@) && list[i].0 != name@,
            decreases self.entries.len() - at,
        {
            proof {
                assert(list[at as int].0 == self.entries@[at as int].0@);
                lemma_precedes_total(name@, list[at as int].0);
                lemma_precedes_reflexive(name@);
            }
            at += 1;
        }
        proof {
            assert forall|i: int| at <= i < self.entries.len() implies precedes(
                name@,
                (#[trigger] list[i]).0,
            ) by {
                assert(list[at as int].0 == self.entries@[at as int].0@);
                if i > at {
                    lemma_precedes_transitive(name@, list[at as int].0, list[i].0);
                }
            }
        }
        at
    }

    /// The value of a parameter, where it is stored.
    pub fn get(&self, name: &str) -> (value: Option<i64>)
        requires
            self.well_formed(),
        ensures
            value == (if self@.contains_key(name@) {
                Some(self@[name@])
            } else {
                None
            }),
    {
        let ghost list = stored(self.entries@);
        let at = self.place_of(name);
        proof {
            lemma_ordered_lookup(list, name@);
        }
        if at < self.entries.len() && strings_equal(self.entries[at].0.as_str(), name) {
            assert(list[at as int].0 == name@);
            Some(self.entries[at].1)
        } else {
            proof {
                assert forall|i: int| 0 <= i < list.len() implies (#[trigger] list[i]).0
                    != name@ by {
                    if i > at {
                        assert(list[at as int].0 != name@);
                        assert(precedes(list[at as int].0, list[i].0));
                        lemma_precedes_total(name@, list[at as int].0);
                        if list[i].0 == name@ {
                            assert(precedes(name@, list[at as int].0));
                        }
                    }
                }
            }
            None
        }
    }

    /// Stores a value under a name, in place of what stood there.
    pub fn insert(&mut self, name: String, value: i64)
        requires
            old(self).well_formed(),
        ensures
            final(self).well_formed(),
            final(self)@ == old(self)@.insert(name@, value),
    {
        let at = self.place_of(name.as_str());
        let ghost list = stored(self.entries@);
        let ghost key = name@;
        if at < self.entries.len() && strings_equal(self.entries[at].0.as_str(), name.as_str()) {
            self.entries.set(at, (name, value));
            proof {
                let after = stored(self.entries@);
                assert(list[at as int].0 == key);
                assert(after =~= list.update(at as int, (key, value)));
                assert forall|i: int, j: int|
                    #![trigger after[i], after[j]]
                    0 <= i < j < after.len() implies precedes(after[i].0, after[j].0) && after[i].0
                    != after[j].0 by {
                    assert(after[i].0 == list[i].0 && after[j].0 == list[j].0);
                    assert(precedes(list[i].0, list[j].0) && list[i].0 != list[j].0);
                }
                lemma_insert_is_map_insert(list, after, at as int, key, value);
            }
        } else {
            self.entries.insert(at, (name, value));
            proof {
                let after = stored(self.entries@);
                assert(after =~= list.insert(at as int, (key, value)));
                assert forall|i: int| at <= i < list.len() implies (#[trigger] list[i]).0
                    != key by {
                    assert(list[at as int].0 != key);
                    if i > at && list[i].0 == key {
                        assert(precedes(list[at as int].0, list[i].0));
                        lemma_precedes_total(key, list[at as int].0);
                    }
                }
                assert forall|i: int, j: int|
                    #![trigger after[i], after[j]]
                    0 <= i < j < after.len() implies precedes(after[i].0, after[j].0) && after[i].0
                    != after[j].0 by {
                    let a = if i < at { i } else { i - 1 };
                    let b = if j < at { j } else { j - 1 };
                    if i == at {
                        assert(after[j] == list[b]);
                    } else if j == at {
                        assert(after[i] == list[a]);
                    } else {
                        assert(after[i] == list[a] && after[j] == list[b]);
                        assert(precedes(list[a].0, list[b].0) && list[a].0 != list[b].0);
                    }
                }
                lemma_insert_is_map_insert(list, after, at as int, key, value);
            }
        }
    }

    /// The names and values, in the order of the names.
    pub fn entries(&self) -> (entries: &Vec<(String, i64)>)
        requires
            self.well_formed(),
        ensures
            strictly_ordered(stored(entries@)),
            collected(stored(entries@)) == self@,
    {
        &self.entries
    }
}

/// An ordered list that differs from another by one entry gives the other's
/// map with that entry in it.
proof fn lemma_insert_is_map_insert(
    before: Seq<(Seq<char>, i64)>,
    after: Seq<(Seq<char>, i64)>,
    at: int,
    name: Seq<char>,
    value: i64,
)
    requires
        strictly_ordered(before),
        strictly_ordered(after),
        0 <= at < after.len(),
        (after == before.insert(at, (name, value)) && at <= before.len()) || (at < before.len()
            && before[at].0 == name && after == before.update(at, (name, value))),
    ensures
        collected(after) == collected(before).insert(name, value),
{
    let inserted = after.len() == before.len() + 1;
    assert forall|key: Seq<char>|
        collected(after).contains_key(key) <==> #[trigger] collected(before).insert(
            name,
            value,
        ).contains_key(key) by {
        lemma_ordered_lookup(before, key);
        lemma_ordered_lookup(after, key);
        if collected(after).contains_key(key) && key != name {
            let i = choose|i: int| 0 <= i < after.len() && (#[trigger] after[i]).0 == key;
            let k = if inserted && i > at { i - 1 } else { i };
            assert(before[k].0 == key);
        }
        if collected(before).contains_key(key) {
            let i = choose|i: int| 0 <= i < before.len() && (#[trigger] before[i]).0 == key;
            let k = if inserted && i >= at { i + 1 } else { i };
            assert(after[k].0 == key);
        }
        if key == name {
            assert(after[at].0 == key);
        }
    }
    assert forall|key: Seq<char>| #[trigger] collected(after).contains_key(key) implies collected(
        after,
    )[key] == collected(before).insert(name, value)[key] by {
        lemma_ordered_lookup(before, key);
        lemma_ordered_lookup(after, key);
        if key == name {
            assert(after[at].0 == key);
        } else {
            let i = choose|i: int| 0 <= i < after.len() && (#[trigger] after[i]).0 == key;
            let k = if inserted && i > at { i - 1 } else { i };
            assert(before[k] == after[i]);
        }
    }
    assert(collected(after) =~= collected(before).insert(name, value));
}

/// A node of a clip's effect chain, with integer parameters and no keyframes.
#[derive(Debug)]
pub struct Effect {
    pub id: u64,
    pub name: String,
    pub parameters: ParameterMap,
}

/// What an effect is, apart from how its parameters are held.
#[verifier::ext_equal]
pub struct EffectModel {
    pub id: u64,
    pub name: Seq<char>,
    pub parameters: Map<Seq<char>, i64>,
}

impl View for Effect {
    type V = EffectModel;

    open spec fn view(&self) -> EffectModel {
        EffectModel { id: self.id, name: self.name@, parameters: self.parameters@ }
    }
}

impl Effect {
    /// Whether the parameters stand in order, each name once.
    pub open spec fn well_formed(&self) -> bool {
        self.parameters.well_formed()
    }
}

/// The effect with this id, this name and the parameters that the list gives.
pub open spec fn node(id: u64, name: Seq<char>, list: Seq<(Seq<char>, i64)>) -> EffectModel {
    EffectModel { id, name, parameters: collected(list) }
}

/// Whether a list holds these effects, all of them well formed.
pub open spec fn are_effects(effects: Seq<Effect>, models: Seq<EffectModel>) -> bool {
    &&& effects.len() == models.len()
    &&& forall|i: int|
        0 <= i < effects.len() ==> (#[trigger] effects[i]).well_formed() && effects[i]@ == models[i]
}

/// Puts a list of named values into a map.
pub fn collect_parameters(parameters: Vec<(String, i64)>) -> (map: ParameterMap)
    ensures
        map.well_formed(),
        map@ == collected(stored(parameters@)),
{
    let mut map = ParameterMap::new();
    let mut i: usize = 0;
    assert(stored(parameters@).take(0) =~= Seq::<(Seq<char>, i64)>::empty());
    while i < parameters.len()
        invariant
            i <= parameters.len(),
            map.well_formed(),
            map@ == collected(stored(parameters@).take(i as int)),
        decreases parameters.len() - i,
    {
        let name = parameters[i].0.as_str().to_owned();
        map.insert(name, parameters[i].1);
        i += 1;
        proof {
            let list = stored(parameters@).take(i as int);
            assert(list.drop_last() =~= stored(parameters@).take(i - 1));
            assert(list.last() == (parameters@[i - 1].0@, parameters@[i - 1].1));
        }
    }
    assert(stored(parameters@).take(parameters@.len() as int) =~= stored(parameters@));
    map
}

/// A colour node with these parameters.
pub fn color_node_effect(id: u64, name: &str, parameters: Vec<(String, i64)>) -> (effect: Effect)
    ensures
        effect.well_formed(),
        effect@ == node(id, name@, stored(parameters@)),
{
    Effect { id, name: name.to_owned(), parameters: collect_parameters(parameters) }
}

/// Adds a named value to a list.
pub fn push_parameter(list: &mut Vec<(String, i64)>, name: &str, value: i64)
    ensures
        stored(final(list)@) == stored(old(list)@).push((name@, value)),
{
    let ghost before = stored(list@);
    list.push((name.to_owned(), value));
    assert(stored(list@) =~= before.push((name@, value)));
}

/// Adds the named values of one list to another.
pub fn extend_parameters(list: &mut Vec<(String, i64)>, more: Vec<(String, i64)>)
    ensures
        stored(final(list)@) == stored(old(list)@) + stored(more@),
{
    let ghost before = stored(list@);
    let mut more = more;
    let ghost added = stored(more@);
    list.append(&mut more);
    assert(stored(list@) =~= before + added);
}

/// A name that a list gives no value is not stored.
pub proof fn lemma_no_value_no_name(list: Seq<(Seq<char>, i64)>, name: Seq<char>)
    requires
        forall|i: int| 0 <= i < list.len() ==> (#[trigger] list[i]).0 != name,
    ensures
        !collected(list).contains_key(name),
    decreases list.len(),
{
    if list.len() > 0 {
        let shorter = list.drop_last();
        assert forall|i: int| 0 <= i < shorter.len() implies (#[trigger] shorter[i]).0 != name by {
            assert(list[i].0 != name);
        }
        lemma_no_value_no_name(shorter, name);
        assert(list[list.len() - 1].0 != name);
    }
}

/// What a list stores under a name is the last value that it gives the name.
pub proof fn lemma_last_value_is_stored(list: Seq<(Seq<char>, i64)>, at: int)
    requires
        0 <= at < list.len(),
        forall|j: int| at < j < list.len() ==> (#[trigger] list[j]).0 != list[at].0,
    ensures
        collected(list).contains_key(list[at].0),
        collected(list)[list[at].0] == list[at].1,
    decreases list.len(),
{
    if at < list.len() - 1 {
        let shorter = list.drop_last();
        assert(shorter[at] == list[at]);
        assert forall|j: int| at < j < shorter.len() implies (#[trigger] shorter[j]).0
            != shorter[at].0 by {
            assert(list[j].0 != list[at].0);
        }
        lemma_last_value_is_stored(shorter, at);
        assert(list[list.len() - 1].0 != list[at].0);
    }
}

/// A node is its id, its name and what its list stores.
pub proof fn lemma_node_holds_its_parts(id: u64, name: Seq<char>, list: Seq<(Seq<char>, i64)>)
    ensures
        node(id, name, list).id == id,
        node(id, name, list).name == name,
        node(id, name, list).parameters == collected(list),
{
}

} // verus!
