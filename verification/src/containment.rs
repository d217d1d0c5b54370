//! Whether a matte kept a change inside itself.

use vstd::prelude::*;

use crate::tally::{how_many, lemma_how_many_complement, lemma_total_le, lemma_total_zero, total};

verus! {

/// Counts of changed colour samples on either side of a matte.
#[derive(Debug, Clone, Copy, PartialEq, Eq, Structural)]
pub struct ContainmentCounts {
    pub inside_pixels: usize,
    pub outside_pixels: usize,
    pub inside_changed_pixels: usize,
    pub outside_changed_pixels: usize,
    pub inside_changed_samples: u64,
    pub inside_samples: u64,
}

/// How many of a pixel's three colour samples differ between two rasters of
/// four samples each.
pub open spec fn changed_samples<T>(actual: Seq<T>, baseline: Seq<T>, pixel: int) -> nat {
    (if actual[4 * pixel] != baseline[4 * pixel] {
        1nat
    } else {
        0nat
    }) + (if actual[4 * pixel + 1] != baseline[4 * pixel + 1] {
        1nat
    } else {
        0nat
    }) + (if actual[4 * pixel + 2] != baseline[4 * pixel + 2] {
        1nat
    } else {
        0nat
    })
}

/// Whether a pixel's colour differs.
pub open spec fn changed<T>(actual: Seq<T>, baseline: Seq<T>, pixel: int) -> bool {
    changed_samples(actual, baseline, pixel) > 0
}

/// The counts over the first `count` pixels.
pub open spec fn counted(
    actual: Seq<u32>,
    baseline: Seq<u32>,
    inside: Seq<bool>,
    count: nat,
    counts: ContainmentCounts,
) -> bool {
    &&& counts.inside_pixels == how_many(count, |i: int| inside[i])
    &&& counts.outside_pixels == how_many(count, |i: int| !inside[i])
    &&& counts.inside_changed_pixels == how_many(
        count,
        |i: int| inside[i] && changed(actual, baseline, i),
    )
    &&& counts.outside_changed_pixels == how_many(
        count,
        |i: int| !inside[i] && changed(actual, baseline, i),
    )
    &&& counts.inside_changed_samples == total(
        count,
        |i: int|
            if inside[i] {
                changed_samples(actual, baseline, i)
            } else {
                0
            },
    )
    &&& counts.inside_samples == 3 * counts.inside_pixels
}

/// Holds two linear rasters against a matte's covered set, by the bits of
/// their samples.  No tolerance may excuse a change outside.
pub fn containment_counts(actual: &[u32], baseline: &[u32], inside: &[bool]) -> (counts:
    ContainmentCounts)
    requires
        actual.len() == baseline.len(),
        actual.len() == inside.len() * 4,
    ensures
        counted(actual@, baseline@, inside@, inside@.len(), counts),
{
    let mut counts = ContainmentCounts {
        inside_pixels: 0,
        outside_pixels: 0,
        inside_changed_pixels: 0,
        outside_changed_pixels: 0,
        inside_changed_samples: 0,
        inside_samples: 0,
    };
    let length: usize = inside.len();
    let mut index: usize = 0;
    while index < length
        invariant
            index <= length,
            length == inside.len(),
            actual.len() == baseline.len(),
            actual.len() == inside.len() * 4,
            counted(actual@, baseline@, inside@, index as nat, counts),
            counts.inside_pixels <= index,
            counts.outside_pixels <= index,
            counts.inside_changed_pixels <= index,
            counts.outside_changed_pixels <= index,
            counts.inside_changed_samples <= 3 * index,
        decreases length - index,
    {
        let mut different: u64 = 0;
        if actual[index * 4] != baseline[index * 4] {
            different += 1;
        }
        if actual[index * 4 + 1] != baseline[index * 4 + 1] {
            different += 1;
        }
        if actual[index * 4 + 2] != baseline[index * 4 + 2] {
            different += 1;
        }
        assert(different == changed_samples(actual@, baseline@, index as int));
        if inside[index] {
            counts.inside_pixels += 1;
            counts.inside_samples += 3;
            counts.inside_changed_samples += different;
            if different > 0 {
                counts.inside_changed_pixels += 1;
            }
        } else {
            counts.outside_pixels += 1;
            if different > 0 {
                counts.outside_changed_pixels += 1;
            }
        }
        index += 1;
    }
    counts
}

impl ContainmentCounts {
    /// The changed share of the samples inside, in basis points.
    pub fn inside_changed_basis_points(&self) -> (share: u64)
        requires
            self.inside_changed_samples * 10_000 <= u64::MAX,
        ensures
            share == self.inside_changed_samples as int * 10_000 / (if self.inside_samples > 0 {
                self.inside_samples as int
            } else {
                1
            }),
            self.inside_samples > 0 ==> share * self.inside_samples <= 10_000
                * self.inside_changed_samples < (share + 1) * self.inside_samples,
            self.inside_samples == 0 ==> share == 10_000 * self.inside_changed_samples,
    {
        let samples: u64 = if self.inside_samples > 0 {
            self.inside_samples
        } else {
            1
        };
        proof {
            let changed = self.inside_changed_samples * 10_000;
            let whole = samples as int;
            assert(changed / whole * whole <= changed < (changed / whole + 1) * whole)
                by (nonlinear_arith)
                requires
                    whole > 0,
                    changed >= 0,
            ;
        }
        self.inside_changed_samples * 10_000 / samples
    }
}

/// Why a change is not contained.
#[derive(Debug, Clone, Copy, PartialEq, Eq, Structural)]
pub enum ContainmentFailure {
    /// Pixels outside the matte changed.
    OutsideChanged { changed_pixels: usize, pixels: usize },
    /// Too few samples inside the matte changed for the case to prove anything.
    InsideUnchanged { changed_samples: u64, samples: u64 },
}

/// The bound on the counts: nothing changed outside, and of the samples inside
/// at least so many basis points.
pub open spec fn bounded(counts: ContainmentCounts, minimum_basis_points: u64) -> Result<
    ContainmentCounts,
    ContainmentFailure,
> {
    if counts.outside_changed_pixels != 0 {
        Err(
            ContainmentFailure::OutsideChanged {
                changed_pixels: counts.outside_changed_pixels,
                pixels: counts.outside_pixels,
            },
        )
    } else if counts.inside_changed_samples * 10_000 < counts.inside_samples
        * minimum_basis_points {
        Err(
            ContainmentFailure::InsideUnchanged {
                changed_samples: counts.inside_changed_samples,
                samples: counts.inside_samples,
            },
        )
    } else {
        Ok(counts)
    }
}

/// The bound on the counts.
pub fn bounded_counts(counts: ContainmentCounts, minimum_basis_points: u64) -> (result: Result<
    ContainmentCounts,
    ContainmentFailure,
>)
    ensures
        result == bounded(counts, minimum_basis_points),
{
    if counts.outside_changed_pixels != 0 {
        return Err(
            ContainmentFailure::OutsideChanged {
                changed_pixels: counts.outside_changed_pixels,
                pixels: counts.outside_pixels,
            },
        );
    }
    let changed: u128 = counts.inside_changed_samples as u128 * 10_000;
    assert(counts.inside_samples * minimum_basis_points <= u64::MAX * u64::MAX)
        by (nonlinear_arith)
        requires
            counts.inside_samples <= u64::MAX,
            minimum_basis_points <= u64::MAX,
    ;
    let needed: u128 = counts.inside_samples as u128 * minimum_basis_points as u128;
    if changed < needed {
        return Err(
            ContainmentFailure::InsideUnchanged {
                changed_samples: counts.inside_changed_samples,
                samples: counts.inside_samples,
            },
        );
    }
    Ok(counts)
}

/// What the bound says of a raster against its baseline and a matte.
pub open spec fn contained(
    actual: Seq<u32>,
    baseline: Seq<u32>,
    inside: Seq<bool>,
    minimum_basis_points: u64,
    result: Result<ContainmentCounts, ContainmentFailure>,
) -> bool {
    exists|counts: ContainmentCounts|
        counted(actual, baseline, inside, inside.len(), counts) && result == bounded(
            counts,
            minimum_basis_points,
        )
}

/// Holds a change against a matte on both sides: exactly nothing outside, and
/// enough inside.
pub fn assert_matte_containment(
    actual: &[u32],
    baseline: &[u32],
    inside: &[bool],
    minimum_basis_points: u64,
) -> (result: Result<ContainmentCounts, ContainmentFailure>)
    requires
        actual.len() == baseline.len(),
        actual.len() == inside.len() * 4,
    ensures
        contained(actual@, baseline@, inside@, minimum_basis_points, result),
{
    let counts = containment_counts(actual, baseline, inside);
    bounded_counts(counts, minimum_basis_points)
}

/// Why a monitor raster is not contained.
#[derive(Debug, Clone, Copy, PartialEq, Eq, Structural)]
pub enum MonitorFailure {
    /// The alpha byte of this pixel moved.
    AlphaMoved(usize),
    /// The colour of this pixel, outside the matte, changed.
    OutsideChanged(usize),
}

/// What is wrong with one pixel: its alpha first, then its colour outside the
/// matte.
pub open spec fn monitor_failure(
    actual: Seq<u8>,
    baseline: Seq<u8>,
    inside: Seq<bool>,
    pixel: int,
) -> Option<MonitorFailure> {
    if actual[4 * pixel + 3] != baseline[4 * pixel + 3] {
        Some(MonitorFailure::AlphaMoved(pixel as usize))
    } else if !inside[pixel] && changed(actual, baseline, pixel) {
        Some(MonitorFailure::OutsideChanged(pixel as usize))
    } else {
        None
    }
}

/// What is wrong with the first pixel, from `from` on, that something is wrong
/// with.
pub open spec fn first_monitor_failure(
    actual: Seq<u8>,
    baseline: Seq<u8>,
    inside: Seq<bool>,
    from: int,
) -> Result<(), MonitorFailure>
    decreases inside.len() - from,
{
    if from < 0 || from >= inside.len() {
        Ok(())
    } else {
        match monitor_failure(actual, baseline, inside, from) {
            Some(failure) => Err(failure),
            None => first_monitor_failure(actual, baseline, inside, from + 1),
        }
    }
}

/// The same gate on monitor bytes: every pixel outside is identical and no
/// alpha byte moves anywhere.
pub fn assert_monitor_containment(actual: &[u8], baseline: &[u8], inside: &[bool]) -> (result:
    Result<(), MonitorFailure>)
    requires
        actual.len() == baseline.len(),
        actual.len() == inside.len() * 4,
    ensures
        result == first_monitor_failure(actual@, baseline@, inside@, 0),
{
    let length: usize = inside.len();
    let mut index: usize = 0;
    while index < length
        invariant
            index <= length,
            length == inside.len(),
            actual.len() == baseline.len(),
            actual.len() == inside.len() * 4,
            first_monitor_failure(actual@, baseline@, inside@, 0) == first_monitor_failure(
                actual@,
                baseline@,
                inside@,
                index as int,
            ),
        decreases length - index,
    {
        if actual[index * 4 + 3] != baseline[index * 4 + 3] {
            return Err(MonitorFailure::AlphaMoved(index));
        }
        if !inside[index] && (actual[index * 4] != baseline[index * 4] || actual[index * 4 + 1]
            != baseline[index * 4 + 1] || actual[index * 4 + 2] != baseline[index * 4 + 2]) {
            return Err(MonitorFailure::OutsideChanged(index));
        }
        index += 1;
    }
    Ok(())
}

/// Every pixel is inside or outside, and no more change on a side than lie
/// there.
pub proof fn lemma_counts_partition(
    actual: Seq<u32>,
    baseline: Seq<u32>,
    inside: Seq<bool>,
    counts: ContainmentCounts,
)
    requires
        counted(actual, baseline, inside, inside.len(), counts),
    ensures
        counts.inside_pixels + counts.outside_pixels == inside.len(),
        counts.inside_changed_pixels <= counts.inside_pixels,
        counts.outside_changed_pixels <= counts.outside_pixels,
        counts.inside_changed_pixels <= counts.inside_changed_samples,
        counts.inside_changed_samples <= counts.inside_samples,
{
    let count = inside.len();
    lemma_how_many_complement(count, |i: int| inside[i]);
    let within = |i: int|
        if inside[i] {
            1nat
        } else {
            0nat
        };
    let without = |i: int|
        if !inside[i] {
            1nat
        } else {
            0nat
        };
    let within_changed = |i: int|
        if inside[i] && changed(actual, baseline, i) {
            1nat
        } else {
            0nat
        };
    let without_changed = |i: int|
        if !inside[i] && changed(actual, baseline, i) {
            1nat
        } else {
            0nat
        };
    let samples = |i: int|
        if inside[i] {
            changed_samples(actual, baseline, i)
        } else {
            0
        };
    let three = |i: int|
        if inside[i] {
            3nat
        } else {
            0nat
        };
    lemma_same_as_how_many(count, |i: int| inside[i], within);
    lemma_same_as_how_many(count, |i: int| !inside[i], without);
    lemma_same_as_how_many(
        count,
        |i: int| inside[i] && changed(actual, baseline, i),
        within_changed,
    );
    lemma_same_as_how_many(
        count,
        |i: int| !inside[i] && changed(actual, baseline, i),
        without_changed,
    );
    lemma_total_le(count, within_changed, within);
    lemma_total_le(count, without_changed, without);
    lemma_total_le(count, within_changed, samples);
    lemma_total_le(count, samples, three);
    lemma_three_each(count, within, three);
    crate::tally::lemma_total_same(
        count,
        samples,
        |i: int|
            if inside[i] {
                changed_samples(actual, baseline, i)
            } else {
                0
            },
    );
    lemma_same_as_how_many(count, |i: int| !(|j: int| inside[j])(i), without);
}

/// A sum of ones where a property holds counts the property.
proof fn lemma_same_as_how_many(
    count: nat,
    property: spec_fn(int) -> bool,
    ones: spec_fn(int) -> nat,
)
    requires
        forall|i: int|
            0 <= i < count ==> #[trigger] ones(i) == (if property(i) {
                1nat
            } else {
                0nat
            }),
    ensures
        total(count, ones) == how_many(count, property),
{
    crate::tally::lemma_total_same(
        count,
        ones,
        |i: int|
            if property(i) {
                1nat
            } else {
                0nat
            },
    );
}

proof fn lemma_three_each(count: nat, ones: spec_fn(int) -> nat, threes: spec_fn(int) -> nat)
    requires
        forall|i: int| 0 <= i < count ==> #[trigger] threes(i) == 3 * ones(i),
    ensures
        total(count, threes) == 3 * total(count, ones),
    decreases count,
{
    if count > 0 {
        lemma_three_each((count - 1) as nat, ones, threes);
        assert(threes(count - 1) == 3 * ones(count - 1));
    }
}

/// The count of changes outside is zero exactly where no pixel outside the
/// matte differs in any colour sample.
pub proof fn lemma_no_change_outside(
    actual: Seq<u32>,
    baseline: Seq<u32>,
    inside: Seq<bool>,
    counts: ContainmentCounts,
)
    requires
        counted(actual, baseline, inside, inside.len(), counts),
    ensures
        counts.outside_changed_pixels == 0 <==> forall|i: int|
            0 <= i < inside.len() && !(#[trigger] inside[i]) ==> !changed(actual, baseline, i),
{
    let ones = |i: int|
        if !inside[i] && changed(actual, baseline, i) {
            1nat
        } else {
            0nat
        };
    lemma_same_as_how_many(
        inside.len(),
        |i: int| !inside[i] && changed(actual, baseline, i),
        ones,
    );
    lemma_total_zero(inside.len(), ones);
    if counts.outside_changed_pixels == 0 {
        assert forall|i: int| 0 <= i < inside.len() && !(#[trigger] inside[i]) implies !changed(
            actual,
            baseline,
            i,
        ) by {
            assert(ones(i) == 0);
        }
    }
    if forall|i: int|
        0 <= i < inside.len() && !(#[trigger] inside[i]) ==> !changed(actual, baseline, i) {
        assert forall|i: int| 0 <= i < inside.len() implies #[trigger] ones(i) == 0 by {
            assert(!inside[i] ==> !changed(actual, baseline, i));
        }
    }
}

/// Turning a covered set inside out swaps the two sides of the counts.
pub proof fn lemma_inversion_swaps_sides(
    actual: Seq<u32>,
    baseline: Seq<u32>,
    inside: Seq<bool>,
    inverted: Seq<bool>,
    counts: ContainmentCounts,
    other: ContainmentCounts,
)
    requires
        inverted.len() == inside.len(),
        forall|i: int| 0 <= i < inside.len() ==> #[trigger] inverted[i] == !inside[i],
        counted(actual, baseline, inside, inside.len(), counts),
        counted(actual, baseline, inverted, inverted.len(), other),
    ensures
        other.inside_pixels == counts.outside_pixels,
        other.outside_pixels == counts.inside_pixels,
        other.inside_changed_pixels == counts.outside_changed_pixels,
        other.outside_changed_pixels == counts.inside_changed_pixels,
{
    let count = inside.len();
    lemma_how_many_same(count, |i: int| inverted[i], |i: int| !inside[i]);
    lemma_how_many_same(count, |i: int| !inverted[i], |i: int| inside[i]);
    lemma_how_many_same(
        count,
        |i: int| inverted[i] && changed(actual, baseline, i),
        |i: int| !inside[i] && changed(actual, baseline, i),
    );
    lemma_how_many_same(
        count,
        |i: int| !inverted[i] && changed(actual, baseline, i),
        |i: int| inside[i] && changed(actual, baseline, i),
    );
}

/// Properties that hold of the same numbers hold of as many.
proof fn lemma_how_many_same(
    count: nat,
    left: spec_fn(int) -> bool,
    right: spec_fn(int) -> bool,
)
    requires
        forall|i: int| 0 <= i < count ==> #[trigger] left(i) == right(i),
    ensures
        how_many(count, left) == how_many(count, right),
{
    lemma_same_as_how_many(
        count,
        left,
        |i: int|
            if right(i) {
                1nat
            } else {
                0nat
            },
    );
}

/// Whether a pixel keeps its alpha byte and, outside the matte, its colour.
pub open spec fn monitor_kept(
    actual: Seq<u8>,
    baseline: Seq<u8>,
    inside: Seq<bool>,
    pixel: int,
) -> bool {
    &&& actual[4 * pixel + 3] == baseline[4 * pixel + 3]
    &&& !inside[pixel] ==> !changed(actual, baseline, pixel)
}

/// A monitor raster passes exactly where no alpha byte differs anywhere and no
/// colour byte differs outside the matte.
pub proof fn lemma_monitor_containment(actual: Seq<u8>, baseline: Seq<u8>, inside: Seq<bool>)
    ensures
        first_monitor_failure(actual, baseline, inside, 0) is Ok <==> forall|i: int|
            0 <= i < inside.len() ==> #[trigger] monitor_kept(actual, baseline, inside, i),
{
    lemma_monitor_containment_from(actual, baseline, inside, 0);
}

proof fn lemma_monitor_containment_from(
    actual: Seq<u8>,
    baseline: Seq<u8>,
    inside: Seq<bool>,
    from: int,
)
    requires
        0 <= from,
    ensures
        first_monitor_failure(actual, baseline, inside, from) is Ok <==> forall|i: int|
            from <= i < inside.len() ==> #[trigger] monitor_kept(actual, baseline, inside, i),
    decreases inside.len() - from,
{
    if from < inside.len() {
        lemma_monitor_containment_from(actual, baseline, inside, from + 1);
        assert(monitor_kept(actual, baseline, inside, from) <==> monitor_failure(
            actual,
            baseline,
            inside,
            from,
        ) is None);
    }
}

/// What the counts say of the samples themselves.  The samples that changed
/// inside are those of the three colour channels, each counted by itself; a
/// pixel changed where any one of its three samples did; and the fourth sample
/// counts nowhere.
pub proof fn lemma_counts_on_samples(
    actual: Seq<u32>,
    baseline: Seq<u32>,
    inside: Seq<bool>,
    counts: ContainmentCounts,
)
    requires
        counted(actual, baseline, inside, inside.len(), counts),
    ensures
        counts.inside_changed_samples == how_many(
            inside.len(),
            |i: int| inside[i] && actual[4 * i] != baseline[4 * i],
        ) + how_many(
            inside.len(),
            |i: int| inside[i] && actual[4 * i + 1] != baseline[4 * i + 1],
        ) + how_many(
            inside.len(),
            |i: int| inside[i] && actual[4 * i + 2] != baseline[4 * i + 2],
        ),
        counts.inside_changed_pixels == how_many(
            inside.len(),
            |i: int|
                inside[i] && (actual[4 * i] != baseline[4 * i] || actual[4 * i + 1] != baseline[4
                    * i + 1] || actual[4 * i + 2] != baseline[4 * i + 2]),
        ),
        counts.outside_changed_pixels == how_many(
            inside.len(),
            |i: int|
                !inside[i] && (actual[4 * i] != baseline[4 * i] || actual[4 * i + 1] != baseline[4
                    * i + 1] || actual[4 * i + 2] != baseline[4 * i + 2]),
        ),
        counts.inside_samples == 3 * how_many(inside.len(), |i: int| inside[i]),
        counts.outside_pixels == how_many(inside.len(), |i: int| !inside[i]),
{
    let count = inside.len();
    let samples = |i: int|
        if inside[i] {
            changed_samples(actual, baseline, i)
        } else {
            0
        };
    let reds = |i: int|
        if inside[i] && actual[4 * i] != baseline[4 * i] {
            1nat
        } else {
            0nat
        };
    let greens = |i: int|
        if inside[i] && actual[4 * i + 1] != baseline[4 * i + 1] {
            1nat
        } else {
            0nat
        };
    let blues = |i: int|
        if inside[i] && actual[4 * i + 2] != baseline[4 * i + 2] {
            1nat
        } else {
            0nat
        };
    let two = |i: int| reds(i) + greens(i);
    crate::tally::lemma_total_sum(count, reds, greens, two);
    crate::tally::lemma_total_sum(count, two, blues, samples);
    lemma_same_as_how_many(count, |i: int| inside[i] && actual[4 * i] != baseline[4 * i], reds);
    lemma_same_as_how_many(
        count,
        |i: int| inside[i] && actual[4 * i + 1] != baseline[4 * i + 1],
        greens,
    );
    lemma_same_as_how_many(
        count,
        |i: int| inside[i] && actual[4 * i + 2] != baseline[4 * i + 2],
        blues,
    );
    crate::tally::lemma_total_same(
        count,
        samples,
        |i: int|
            if inside[i] {
                changed_samples(actual, baseline, i)
            } else {
                0
            },
    );
    lemma_how_many_same(
        count,
        |i: int| inside[i] && changed(actual, baseline, i),
        |i: int|
            inside[i] && (actual[4 * i] != baseline[4 * i] || actual[4 * i + 1] != baseline[4 * i
                + 1] || actual[4 * i + 2] != baseline[4 * i + 2]),
    );
    lemma_how_many_same(
        count,
        |i: int| !inside[i] && changed(actual, baseline, i),
        |i: int|
            !inside[i] && (actual[4 * i] != baseline[4 * i] || actual[4 * i + 1] != baseline[4 * i
                + 1] || actual[4 * i + 2] != baseline[4 * i + 2]),
    );
}

/// No pixel outside counts as changed exactly where every colour sample of every
/// pixel outside equals its baseline.
pub proof fn lemma_outside_kept_sample_by_sample(
    actual: Seq<u32>,
    baseline: Seq<u32>,
    inside: Seq<bool>,
    counts: ContainmentCounts,
)
    requires
        counted(actual, baseline, inside, inside.len(), counts),
    ensures
        counts.outside_changed_pixels == 0 <==> forall|i: int, c: int|
            #![trigger actual[4 * i + c]]
            0 <= i < inside.len() && !inside[i] && 0 <= c < 3 ==> actual[4 * i + c] == baseline[4
                * i + c],
{
    lemma_no_change_outside(actual, baseline, inside, counts);
    if counts.outside_changed_pixels == 0 {
        assert forall|i: int, c: int|
            #![trigger actual[4 * i + c]]
            0 <= i < inside.len() && !inside[i] && 0 <= c < 3 implies actual[4 * i + c]
            == baseline[4 * i + c] by {
            assert(!changed(actual, baseline, i));
        }
    }
    if forall|i: int, c: int|
        #![trigger actual[4 * i + c]]
        0 <= i < inside.len() && !inside[i] && 0 <= c < 3 ==> actual[4 * i + c] == baseline[4 * i
            + c] {
        assert forall|i: int| 0 <= i < inside.len() && !(#[trigger] inside[i]) implies !changed(
            actual,
            baseline,
            i,
        ) by {
            assert(actual[4 * i + 0] == baseline[4 * i + 0]);
            assert(actual[4 * i + 1] == baseline[4 * i + 1]);
            assert(actual[4 * i + 2] == baseline[4 * i + 2]);
        }
    }
}

/// A change is contained exactly where no colour sample outside the matte
/// differs, and the samples that differ inside are at least so many basis points
/// of the three of each pixel inside.
pub proof fn lemma_contained_exactly(
    actual: Seq<u32>,
    baseline: Seq<u32>,
    inside: Seq<bool>,
    minimum_basis_points: u64,
    result: Result<ContainmentCounts, ContainmentFailure>,
)
    requires
        contained(actual, baseline, inside, minimum_basis_points, result),
    ensures
        result is Ok <==> {
            &&& forall|i: int, c: int|
                #![trigger actual[4 * i + c]]
                0 <= i < inside.len() && !inside[i] && 0 <= c < 3 ==> actual[4 * i + c]
                    == baseline[4 * i + c]
            &&& 3 * how_many(inside.len(), |i: int| inside[i]) * minimum_basis_points <= 10_000 * (
            how_many(inside.len(), |i: int| inside[i] && actual[4 * i] != baseline[4 * i])
                + how_many(
                inside.len(),
                |i: int| inside[i] && actual[4 * i + 1] != baseline[4 * i + 1],
            ) + how_many(
                inside.len(),
                |i: int| inside[i] && actual[4 * i + 2] != baseline[4 * i + 2],
            ))
        },
        result matches Ok(counts) ==> counted(actual, baseline, inside, inside.len(), counts),
        result matches Err(ContainmentFailure::OutsideChanged { changed_pixels, pixels }) ==> 0
            < changed_pixels <= pixels && pixels == how_many(inside.len(), |i: int| !inside[i]),
        result matches Err(ContainmentFailure::InsideUnchanged { changed_samples, samples })
            ==> changed_samples * 10_000 < samples * minimum_basis_points && samples == 3 * how_many(
            inside.len(),
            |i: int| inside[i],
        ),
{
    let counts = choose|counts: ContainmentCounts|
        counted(actual, baseline, inside, inside.len(), counts) && result == bounded(
            counts,
            minimum_basis_points,
        );
    lemma_counts_on_samples(actual, baseline, inside, counts);
    lemma_outside_kept_sample_by_sample(actual, baseline, inside, counts);
    lemma_counts_partition(actual, baseline, inside, counts);
    assert(counts.inside_changed_samples * 10_000 == 10_000 * counts.inside_changed_samples);
}

/// A monitor raster passes exactly where every fourth byte equals its baseline,
/// and outside the matte the three bytes before it do too.  Where it fails, the
/// pixel that is named is the first that breaks this, and what is named is its
/// alpha exactly where the alpha moved.
pub proof fn lemma_monitor_on_bytes(actual: Seq<u8>, baseline: Seq<u8>, inside: Seq<bool>)
    requires
        inside.len() <= usize::MAX,
    ensures
        match first_monitor_failure(actual, baseline, inside, 0) {
            Ok(_) => forall|i: int, c: int|
                #![trigger actual[4 * i + c]]
                0 <= i < inside.len() && 0 <= c < 4 && (c == 3 || !inside[i]) ==> actual[4 * i + c]
                    == baseline[4 * i + c],
            Err(failure) => {
                let pixel = match failure {
                    MonitorFailure::AlphaMoved(pixel) => pixel as int,
                    MonitorFailure::OutsideChanged(pixel) => pixel as int,
                };
                &&& 0 <= pixel < inside.len()
                &&& forall|i: int, c: int|
                    #![trigger actual[4 * i + c]]
                    0 <= i < pixel && 0 <= c < 4 && (c == 3 || !inside[i]) ==> actual[4 * i + c]
                        == baseline[4 * i + c]
                &&& failure is AlphaMoved <==> actual[4 * pixel + 3] != baseline[4 * pixel + 3]
                &&& failure is OutsideChanged ==> !inside[pixel] && (actual[4 * pixel]
                    != baseline[4 * pixel] || actual[4 * pixel + 1] != baseline[4 * pixel + 1]
                    || actual[4 * pixel + 2] != baseline[4 * pixel + 2])
            },
        },
{
    lemma_monitor_on_bytes_from(actual, baseline, inside, 0);
}

proof fn lemma_monitor_on_bytes_from(
    actual: Seq<u8>,
    baseline: Seq<u8>,
    inside: Seq<bool>,
    from: int,
)
    requires
        0 <= from,
        inside.len() <= usize::MAX,
    ensures
        match first_monitor_failure(actual, baseline, inside, from) {
            Ok(_) => forall|i: int, c: int|
                #![trigger actual[4 * i + c]]
                from <= i < inside.len() && 0 <= c < 4 && (c == 3 || !inside[i]) ==> actual[4 * i
                    + c] == baseline[4 * i + c],
            Err(failure) => {
                let pixel = match failure {
                    MonitorFailure::AlphaMoved(pixel) => pixel as int,
                    MonitorFailure::OutsideChanged(pixel) => pixel as int,
                };
                &&& from <= pixel < inside.len()
                &&& forall|i: int, c: int|
                    #![trigger actual[4 * i + c]]
                    from <= i < pixel && 0 <= c < 4 && (c == 3 || !inside[i]) ==> actual[4 * i + c]
                        == baseline[4 * i + c]
                &&& failure is AlphaMoved <==> actual[4 * pixel + 3] != baseline[4 * pixel + 3]
                &&& failure is OutsideChanged ==> !inside[pixel] && (actual[4 * pixel]
                    != baseline[4 * pixel] || actual[4 * pixel + 1] != baseline[4 * pixel + 1]
                    || actual[4 * pixel + 2] != baseline[4 * pixel + 2])
            },
        },
    decreases inside.len() - from,
{
    if from < inside.len() {
        lemma_monitor_on_bytes_from(actual, baseline, inside, from + 1);
        if monitor_failure(actual, baseline, inside, from) is None {
            assert forall|c: int|
                #![trigger actual[4 * from + c]]
                0 <= c < 4 && (c == 3 || !inside[from]) implies actual[4 * from + c] == baseline[4
                * from + c] by {
                assert(!inside[from] ==> !changed(actual, baseline, from));
                assert(c == 0 || c == 1 || c == 2 || c == 3);
            }
        }
    }
}

/// The rasters, the matte and the demand determine what a containment gives.
pub proof fn lemma_containment_is_determined(
    actual: Seq<u32>,
    baseline: Seq<u32>,
    inside: Seq<bool>,
    minimum_basis_points: u64,
    left: Result<ContainmentCounts, ContainmentFailure>,
    right: Result<ContainmentCounts, ContainmentFailure>,
)
    requires
        contained(actual, baseline, inside, minimum_basis_points, left),
        contained(actual, baseline, inside, minimum_basis_points, right),
    ensures
        left == right,
{
    let a = choose|counts: ContainmentCounts|
        counted(actual, baseline, inside, inside.len(), counts) && left == bounded(
            counts,
            minimum_basis_points,
        );
    let b = choose|counts: ContainmentCounts|
        counted(actual, baseline, inside, inside.len(), counts) && right == bounded(
            counts,
            minimum_basis_points,
        );
    assert(a == b);
}

} // verus!
