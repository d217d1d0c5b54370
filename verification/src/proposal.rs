//! The proposal of a shot match: which controls a candidate needs.

use vstd::prelude::*;

use crate::effect::stored;
use crate::text::strings_equal;

verus! {

/// The controls that a match proposes, in the order of their names.
pub const CC7_PROPOSED_CONTROLS: [&'static str; 3] = [
    "exposure_milli_stops",
    "temperature_percent",
    "tint_percent",
];

/// What the descriptor of a control allows.
#[derive(Debug, Clone, Copy, PartialEq, Eq, Structural)]
pub struct ControlBounds {
    pub minimum: i64,
    pub maximum: i64,
}

/// One control of a proposal.
#[derive(Debug, Clone, Copy, PartialEq, Eq, Structural)]
pub struct Cc7ProposedControl {
    pub delta: i64,
    pub requested: i64,
    pub value: i64,
    pub clamped: bool,
    pub minimum: i64,
    pub maximum: i64,
}

/// The controls that are proposed.  A control that is not among them is not
/// proposed, which is not the same as zero.
#[derive(Debug)]
pub struct Cc7Proposal {
    pub controls: Vec<(&'static str, Cc7ProposedControl)>,
}

/// A number moved into bounds.
pub open spec fn clamped(value: i64, bounds: ControlBounds) -> i64 {
    if value < bounds.minimum {
        bounds.minimum
    } else if value > bounds.maximum {
        bounds.maximum
    } else {
        value
    }
}

/// The control that a rounded delta proposes: none where there is no delta, or
/// where it is zero.
pub open spec fn proposed(delta: Option<i64>, bounds: ControlBounds) -> Option<Cc7ProposedControl> {
    match delta {
        None => None,
        Some(delta) => if delta == 0 {
            None
        } else {
            Some(
                Cc7ProposedControl {
                    delta,
                    requested: delta,
                    value: clamped(delta, bounds),
                    clamped: clamped(delta, bounds) != delta,
                    minimum: bounds.minimum,
                    maximum: bounds.maximum,
                },
            )
        },
    }
}

fn propose(delta: Option<i64>, bounds: ControlBounds) -> (control: Option<Cc7ProposedControl>)
    ensures
        control == proposed(delta, bounds),
{
    match delta {
        None => None,
        Some(delta) => {
            if delta == 0 {
                return None;
            }
            let value: i64 = if delta < bounds.minimum {
                bounds.minimum
            } else if delta > bounds.maximum {
                bounds.maximum
            } else {
                delta
            };
            Some(
                Cc7ProposedControl {
                    delta,
                    requested: delta,
                    value,
                    clamped: value != delta,
                    minimum: bounds.minimum,
                    maximum: bounds.maximum,
                },
            )
        },
    }
}

/// The first controls that rounded deltas propose, each beside its name.
pub open spec fn proposal(deltas: Seq<Option<i64>>, bounds: Seq<ControlBounds>, count: nat) -> Seq<
    (&'static str, Cc7ProposedControl),
>
    decreases count,
{
    if count == 0 {
        Seq::empty()
    } else {
        let before = proposal(deltas, bounds, (count - 1) as nat);
        match proposed(deltas[count - 1], bounds[count - 1]) {
            None => before,
            Some(control) => before.push((CC7_PROPOSED_CONTROLS@[count - 1], control)),
        }
    }
}

/// The proposal that rounded deltas make: exposure, temperature and tint, each
/// present only where its delta is not zero, and each within its bounds.
pub fn cc7_match_proposal(deltas: &[Option<i64>; 3], bounds: &[ControlBounds; 3]) -> (result:
    Cc7Proposal)
    requires
        forall|i: int| 0 <= i < 3 ==> (#[trigger] bounds@[i]).minimum <= bounds@[i].maximum,
    ensures
        result.controls@ == proposal(deltas@, bounds@, 3),
{
    let mut controls: Vec<(&'static str, Cc7ProposedControl)> = Vec::new();
    let mut i: usize = 0;
    while i < 3
        invariant
            i <= 3,
            controls@ == proposal(deltas@, bounds@, i as nat),
        decreases 3 - i,
    {
        if let Some(control) = propose(deltas[i], bounds[i]) {
            controls.push((CC7_PROPOSED_CONTROLS[i], control));
        }
        i += 1;
    }
    Cc7Proposal { controls }
}

/// The first control of a name, at or behind a place.
pub open spec fn control_from(
    controls: Seq<(&'static str, Cc7ProposedControl)>,
    name: Seq<char>,
    from: int,
) -> Option<Cc7ProposedControl>
    decreases controls.len() - from,
{
    if from < 0 || from >= controls.len() {
        None
    } else if controls[from].0@ == name {
        Some(controls[from].1)
    } else {
        control_from(controls, name, from + 1)
    }
}

impl Cc7Proposal {
    /// A control, where it is proposed.
    pub fn get(&self, name: &str) -> (control: Option<Cc7ProposedControl>)
        ensures
            control == control_from(self.controls@, name@, 0),
    {
        let mut i: usize = 0;
        while i < self.controls.len()
            invariant
                i <= self.controls.len(),
                control_from(self.controls@, name@, 0) == control_from(
                    self.controls@,
                    name@,
                    i as int,
                ),
            decreases self.controls.len() - i,
        {
            if strings_equal(self.controls[i].0, name) {
                return Some(self.controls[i].1);
            }
            i += 1;
        }
        None
    }

    /// The value of a control, where it is proposed.
    pub fn value(&self, name: &str) -> (value: Option<i64>)
        ensures
            value == (match control_from(self.controls@, name@, 0) {
                Some(control) => Some(control.value),
                None => None,
            }),
    {
        match self.get(name) {
            Some(control) => Some(control.value),
            None => None,
        }
    }

    /// The proposal as the parameters of a primary correction.
    pub fn parameters(&self) -> (parameters: Vec<(String, i64)>)
        ensures
            stored(parameters@) == Seq::new(
                self.controls@.len(),
                |i: int| (self.controls@[i].0@, self.controls@[i].1.value),
            ),
    {
        let ghost all = Seq::new(
            self.controls@.len(),
            |i: int| (self.controls@[i].0@, self.controls@[i].1.value),
        );
        let mut parameters: Vec<(String, i64)> = Vec::new();
        let mut i: usize = 0;
        while i < self.controls.len()
            invariant
                i <= self.controls.len(),
                all == Seq::new(
                    self.controls@.len(),
                    |j: int| (self.controls@[j].0@, self.controls@[j].1.value),
                ),
                stored(parameters@) == all.take(i as int),
            decreases self.controls.len() - i,
        {
            let ghost before = stored(parameters@);
            parameters.push((self.controls[i].0.to_owned(), self.controls[i].1.value));
            assert(stored(parameters@) =~= before.push(all[i as int]));
            i += 1;
            assert(all.take(i as int) =~= stored(parameters@));
        }
        assert(all.take(self.controls@.len() as int) =~= all);
        parameters
    }
}

/// A proposed value lies within its bounds, is the request itself unless it was
/// clamped, and is clamped exactly where the request lies outside.
pub proof fn lemma_proposed_within_bounds(delta: i64, bounds: ControlBounds)
    requires
        bounds.minimum <= bounds.maximum,
        delta != 0,
    ensures
        ({
            let control = proposed(Some(delta), bounds)->0;
            &&& bounds.minimum <= control.value <= bounds.maximum
            &&& control.clamped <==> (delta < bounds.minimum || delta > bounds.maximum)
            &&& !control.clamped ==> control.value == control.requested
        }),
{
}

/// A proposal has a control for each delta that is not zero and none else.
pub proof fn lemma_absent_means_no_delta(deltas: Seq<Option<i64>>, bounds: Seq<ControlBounds>, i: int)
    requires
        deltas.len() == 3,
        bounds.len() == 3,
        0 <= i < 3,
    ensures
        (exists|k: int|
            0 <= k < proposal(deltas, bounds, 3).len() && (#[trigger] proposal(
                deltas,
                bounds,
                3,
            )[k]).0 == CC7_PROPOSED_CONTROLS@[i]) <==> (deltas[i] is Some && deltas[i]->0 != 0),
{
    reveal_strlit("exposure_milli_stops");
    reveal_strlit("temperature_percent");
    reveal_strlit("tint_percent");
    assert("exposure_milli_stops"@.len() == 20);
    assert("temperature_percent"@.len() == 19);
    assert("tint_percent"@.len() == 12);
    reveal_with_fuel(proposal, 4);
    let all = proposal(deltas, bounds, 3);
    let none = proposal(deltas, bounds, 0);
    let one = proposal(deltas, bounds, 1);
    let two = proposal(deltas, bounds, 2);
    assert(none.len() == 0);
    if deltas[i] is Some && deltas[i]->0 != 0 {
        let before = if i == 0 { none } else if i == 1 { one } else { two };
        assert(all[before.len() as int].0 == CC7_PROPOSED_CONTROLS@[i]);
    }
}

/// A control is proposed exactly where there is a delta and it is not zero; it
/// carries the delta, what the descriptor allows, and the nearest value that is
/// allowed.
pub proof fn lemma_control_in_numbers(delta: Option<i64>, bounds: ControlBounds)
    requires
        bounds.minimum <= bounds.maximum,
    ensures
        proposed(delta, bounds) is Some <==> delta is Some && delta->0 != 0,
        proposed(delta, bounds) matches Some(control) ==> {
            &&& control.delta == delta->0
            &&& control.requested == delta->0
            &&& control.minimum == bounds.minimum
            &&& control.maximum == bounds.maximum
            &&& delta->0 <= bounds.minimum ==> control.value == bounds.minimum
            &&& delta->0 >= bounds.maximum ==> control.value == bounds.maximum
            &&& bounds.minimum <= delta->0 <= bounds.maximum ==> control.value == delta->0
            &&& control.clamped <==> control.value != delta->0
        },
{
}

/// Looking a control up by its name in a proposal gives what its own delta and
/// its own bounds propose: exposure, temperature and tint, in this order.
pub proof fn lemma_controls_by_name(deltas: Seq<Option<i64>>, bounds: Seq<ControlBounds>)
    requires
        deltas.len() == 3,
        bounds.len() == 3,
    ensures
        control_from(proposal(deltas, bounds, 3), "exposure_milli_stops"@, 0) == proposed(
            deltas[0],
            bounds[0],
        ),
        control_from(proposal(deltas, bounds, 3), "temperature_percent"@, 0) == proposed(
            deltas[1],
            bounds[1],
        ),
        control_from(proposal(deltas, bounds, 3), "tint_percent"@, 0) == proposed(
            deltas[2],
            bounds[2],
        ),
{
    reveal_strlit("exposure_milli_stops");
    reveal_strlit("temperature_percent");
    reveal_strlit("tint_percent");
    assert("exposure_milli_stops"@.len() == 20);
    assert("temperature_percent"@.len() == 19);
    assert("tint_percent"@.len() == 12);
    reveal_with_fuel(proposal, 4);
    reveal_with_fuel(control_from, 5);
    assert(CC7_PROPOSED_CONTROLS@[0]@ == "exposure_milli_stops"@);
    assert(CC7_PROPOSED_CONTROLS@[1]@ == "temperature_percent"@);
    assert(CC7_PROPOSED_CONTROLS@[2]@ == "tint_percent"@);
    let all = proposal(deltas, bounds, 3);
    let one = proposal(deltas, bounds, 1);
    let two = proposal(deltas, bounds, 2);
    assert(proposal(deltas, bounds, 0).len() == 0);
    assert(all.len() <= 3);
}

} // verus!
