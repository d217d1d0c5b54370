//! What a renderer must share with its reference.

use vstd::prelude::*;

use crate::containment::{
    assert_matte_containment, assert_monitor_containment, contained, first_monitor_failure,
    lemma_contained_exactly, lemma_monitor_on_bytes, ContainmentCounts, ContainmentFailure,
    MonitorFailure,
};
use crate::raster::{
    assert_coverage_matches, coverage_result, is_on_sector_boundary, on_sector_boundary,
    CoverageMismatch, CC5_RASTER_PIXELS,
};
use crate::tally::how_many;

verus! {

/// The number of colour samples of the small raster.
pub const CC5_RASTER_SAMPLES: usize = 6_912;

/// The bits of infinity in single precision: what is below them, without a
/// sign, is a finite number.
pub const SINGLE_INFINITY: u32 = 0x7f80_0000;

/// What the renders of one parity case hold, each linear raster as the bits of
/// its samples.
#[derive(Debug)]
pub struct ParityRenders {
    /// The reference with the case's nodes and with its baseline's.
    pub expected_linear: Vec<u32>,
    pub baseline_linear: Vec<u32>,
    pub expected_monitor: Vec<u8>,
    pub baseline_monitor: Vec<u8>,
    /// The renderer under test with the case's nodes and with its baseline's.
    pub actual_linear: Vec<u32>,
    pub actual_baseline: Vec<u32>,
    /// The pixels that the case's matte covers.
    pub covered: Vec<bool>,
    /// The absolute differences of the renderer's colour samples from the
    /// reference's, as bits.
    pub differences: Vec<u32>,
}

/// How far a renderer lies from the reference.  A statistic of the monitor
/// codes is held as the bits of a number that is not negative, so that it
/// compares as the number does.
#[derive(Debug, Clone, Copy, PartialEq, Eq, Structural)]
pub struct ParityMetrics {
    pub in_gamut_samples: usize,
    pub monitor_max: u8,
    pub monitor_p99: u64,
    pub monitor_mean: u64,
    /// Whether the linear samples are within their tolerances.
    pub linear_within: bool,
}

/// What the statistics of the monitor codes may be.
#[derive(Debug, Clone, Copy, PartialEq, Eq, Structural)]
pub struct ParityLimits {
    pub monitor_max: u8,
    pub monitor_p99: u64,
    pub monitor_mean: u64,
}

/// Why a renderer does not share with its reference what it must.
#[derive(Debug, Clone, Copy, PartialEq, Eq, Structural)]
pub enum ParityFailure {
    /// The reference changes what the matte does not cover, or too little.
    ReferenceContainment(ContainmentFailure),
    ReferenceMonitor(MonitorFailure),
    NothingInGamut,
    MonitorMax,
    MonitorP99,
    MonitorMean,
    Linear,
    /// The renderer changes what the matte does not cover, or too little.
    RendererContainment(ContainmentFailure),
}

/// What one parity case has shown.
#[derive(Debug, Clone, Copy, PartialEq, Eq, Structural)]
pub struct ParityRecord {
    pub containment: ContainmentCounts,
    pub renderer_containment: ContainmentCounts,
    /// The greatest finite difference at a hue-sector boundary, as bits.
    pub sector_divergence: u32,
}

/// Whether the rasters of a case are those of the small raster.
pub open spec fn renders_fit(renders: ParityRenders) -> bool {
    &&& renders.covered@.len() == CC5_RASTER_PIXELS
    &&& renders.expected_linear@.len() == 4 * CC5_RASTER_PIXELS
    &&& renders.baseline_linear@.len() == 4 * CC5_RASTER_PIXELS
    &&& renders.expected_monitor@.len() == 4 * CC5_RASTER_PIXELS
    &&& renders.baseline_monitor@.len() == 4 * CC5_RASTER_PIXELS
    &&& renders.actual_linear@.len() == 4 * CC5_RASTER_PIXELS
    &&& renders.actual_baseline@.len() == 4 * CC5_RASTER_PIXELS
    &&& renders.differences@.len() == CC5_RASTER_SAMPLES
}

/// What the statistics fail.
pub open spec fn metrics_failure(metrics: ParityMetrics, limits: ParityLimits) -> Option<
    ParityFailure,
> {
    if metrics.in_gamut_samples == 0 {
        Some(ParityFailure::NothingInGamut)
    } else if metrics.monitor_max > limits.monitor_max {
        Some(ParityFailure::MonitorMax)
    } else if metrics.monitor_p99 > limits.monitor_p99 {
        Some(ParityFailure::MonitorP99)
    } else if metrics.monitor_mean > limits.monitor_mean {
        Some(ParityFailure::MonitorMean)
    } else if !metrics.linear_within {
        Some(ParityFailure::Linear)
    } else {
        None
    }
}

/// What the statistics fail.
pub fn metrics_fail(metrics: &ParityMetrics, limits: &ParityLimits) -> (failure: Option<
    ParityFailure,
>)
    ensures
        failure == metrics_failure(*metrics, *limits),
{
    if metrics.in_gamut_samples == 0 {
        Some(ParityFailure::NothingInGamut)
    } else if metrics.monitor_max > limits.monitor_max {
        Some(ParityFailure::MonitorMax)
    } else if metrics.monitor_p99 > limits.monitor_p99 {
        Some(ParityFailure::MonitorP99)
    } else if metrics.monitor_mean > limits.monitor_mean {
        Some(ParityFailure::MonitorMean)
    } else if !metrics.linear_within {
        Some(ParityFailure::Linear)
    } else {
        None
    }
}

/// Whether a difference counts: it is finite, and its pixel lies on the boundary
/// between two hue sectors.
pub open spec fn diverges(differences: Seq<u32>, sample: int) -> bool {
    on_sector_boundary(sample / 3) && differences[sample] < SINGLE_INFINITY
}

/// Whether a number is the greatest of the first differences that count, or
/// zero where none does.
pub open spec fn is_divergence(differences: Seq<u32>, count: int, greatest: u32) -> bool {
    &&& forall|i: int|
        0 <= i < count && diverges(differences, i) ==> #[trigger] differences[i] <= greatest
    &&& greatest == 0 || exists|i: int|
        0 <= i < count && diverges(differences, i) && #[trigger] differences[i] == greatest
}

/// The greatest finite difference at a hue-sector boundary.
pub fn sector_divergence(differences: &[u32]) -> (greatest: u32)
    requires
        differences@.len() == CC5_RASTER_SAMPLES,
    ensures
        is_divergence(differences@, CC5_RASTER_SAMPLES as int, greatest),
{
    let mut greatest: u32 = 0;
    let mut sample: usize = 0;
    while sample < CC5_RASTER_SAMPLES
        invariant
            sample <= CC5_RASTER_SAMPLES,
            differences@.len() == CC5_RASTER_SAMPLES,
            is_divergence(differences@, sample as int, greatest),
        decreases CC5_RASTER_SAMPLES - sample,
    {
        let difference: u32 = differences[sample];
        let ghost before = greatest;
        if is_on_sector_boundary(sample / 3) && difference < SINGLE_INFINITY && difference
            > greatest {
            greatest = difference;
        }
        proof {
            assert(differences@[sample as int] == difference);
            if greatest != before {
                assert(diverges(differences@, sample as int));
            } else if greatest != 0 {
                let i = choose|i: int|
                    0 <= i < sample && diverges(differences@, i) && #[trigger] differences@[i]
                        == greatest;
                assert(differences@[i] == greatest);
            }
        }
        sample += 1;
    }
    greatest
}

/// What one parity case says.
pub open spec fn case_result(
    renders: ParityRenders,
    metrics: ParityMetrics,
    limits: ParityLimits,
    minimum_basis_points: u64,
    result: Result<ParityRecord, ParityFailure>,
) -> bool {
    let reference = |outcome: Result<ContainmentCounts, ContainmentFailure>|
        contained(
            renders.expected_linear@,
            renders.baseline_linear@,
            renders.covered@,
            minimum_basis_points,
            outcome,
        );
    let renderer = |outcome: Result<ContainmentCounts, ContainmentFailure>|
        contained(
            renders.actual_linear@,
            renders.actual_baseline@,
            renders.covered@,
            minimum_basis_points,
            outcome,
        );
    let monitor = first_monitor_failure(
        renders.expected_monitor@,
        renders.baseline_monitor@,
        renders.covered@,
        0,
    );
    let contained_reference = exists|counts: ContainmentCounts| #[trigger] reference(Ok(counts));
    match result {
        Ok(record) => {
            &&& reference(Ok(record.containment))
            &&& monitor is Ok
            &&& metrics_failure(metrics, limits) is None
            &&& renderer(Ok(record.renderer_containment))
            &&& is_divergence(
                renders.differences@,
                CC5_RASTER_SAMPLES as int,
                record.sector_divergence,
            )
        },
        Err(ParityFailure::ReferenceContainment(failure)) => reference(Err(failure)),
        Err(ParityFailure::ReferenceMonitor(failure)) => contained_reference && monitor == Err::<
            (),
            MonitorFailure,
        >(failure),
        Err(ParityFailure::RendererContainment(failure)) => {
            &&& contained_reference
            &&& monitor is Ok
            &&& metrics_failure(metrics, limits) is None
            &&& renderer(Err(failure))
        },
        Err(failure) => contained_reference && monitor is Ok && metrics_failure(metrics, limits)
            == Some(failure),
    }
}

/// Demands everything of one parity case: the reference and the renderer both
/// change nothing that the matte does not cover, and the renderer lies within
/// its tolerances of the reference.
pub fn assert_parity_case(
    renders: &ParityRenders,
    metrics: &ParityMetrics,
    limits: &ParityLimits,
    minimum_basis_points: u64,
) -> (result: Result<ParityRecord, ParityFailure>)
    requires
        renders_fit(*renders),
    ensures
        case_result(*renders, *metrics, *limits, minimum_basis_points, result),
{
    let containment = match assert_matte_containment(
        renders.expected_linear.as_slice(),
        renders.baseline_linear.as_slice(),
        renders.covered.as_slice(),
        minimum_basis_points,
    ) {
        Ok(counts) => counts,
        Err(failure) => {
            return Err(ParityFailure::ReferenceContainment(failure));
        },
    };
    let ghost reference = |outcome: Result<ContainmentCounts, ContainmentFailure>|
        contained(
            renders.expected_linear@,
            renders.baseline_linear@,
            renders.covered@,
            minimum_basis_points,
            outcome,
        );
    assert(reference(Ok(containment)));
    match assert_monitor_containment(
        renders.expected_monitor.as_slice(),
        renders.baseline_monitor.as_slice(),
        renders.covered.as_slice(),
    ) {
        Ok(_) => {},
        Err(failure) => {
            return Err(ParityFailure::ReferenceMonitor(failure));
        },
    }
    if let Some(failure) = metrics_fail(metrics, limits) {
        return Err(failure);
    }
    let renderer_containment = match assert_matte_containment(
        renders.actual_linear.as_slice(),
        renders.actual_baseline.as_slice(),
        renders.covered.as_slice(),
        minimum_basis_points,
    ) {
        Ok(counts) => counts,
        Err(failure) => {
            return Err(ParityFailure::RendererContainment(failure));
        },
    };
    Ok(
        ParityRecord {
            containment,
            renderer_containment,
            sector_divergence: sector_divergence(renders.differences.as_slice()),
        },
    )
}

/// What one parity case was rendered and measured as.
#[derive(Debug)]
pub struct ParityMeasurement {
    pub renders: ParityRenders,
    pub metrics: ParityMetrics,
}

/// Runs the parity cases in order up to the first that fails, which the error
/// gives the place of.
pub fn assert_cc5_gpu_parity(
    cases: &[ParityMeasurement],
    limits: &ParityLimits,
    minimum_basis_points: u64,
) -> (result: Result<Vec<ParityRecord>, (usize, ParityFailure)>)
    requires
        forall|i: int| 0 <= i < cases@.len() ==> renders_fit((#[trigger] cases@[i]).renders),
    ensures
        match result {
            Ok(records) => {
                &&& records@.len() == cases@.len()
                &&& forall|i: int|
                    0 <= i < cases@.len() ==> case_result(
                        cases@[i].renders,
                        cases@[i].metrics,
                        *limits,
                        minimum_basis_points,
                        Ok(#[trigger] records@[i]),
                    )
            },
            Err((at, failure)) => {
                &&& at < cases@.len()
                &&& case_result(
                    cases@[at as int].renders,
                    cases@[at as int].metrics,
                    *limits,
                    minimum_basis_points,
                    Err(failure),
                )
                &&& forall|i: int|
                    0 <= i < at ==> case_passes(#[trigger] cases@[i], *limits, minimum_basis_points)
            },
        },
{
    let mut records: Vec<ParityRecord> = Vec::new();
    let mut i: usize = 0;
    while i < cases.len()
        invariant
            i <= cases.len(),
            records@.len() == i,
            forall|j: int| 0 <= j < cases@.len() ==> renders_fit((#[trigger] cases@[j]).renders),
            forall|j: int|
                0 <= j < i ==> case_result(
                    cases@[j].renders,
                    cases@[j].metrics,
                    *limits,
                    minimum_basis_points,
                    Ok(#[trigger] records@[j]),
                ),
            forall|j: int|
                0 <= j < i ==> case_passes(#[trigger] cases@[j], *limits, minimum_basis_points),
        decreases cases.len() - i,
    {
        match assert_parity_case(
            &cases[i].renders,
            &cases[i].metrics,
            limits,
            minimum_basis_points,
        ) {
            Ok(record) => {
                records.push(record);
                assert(case_passes(cases@[i as int], *limits, minimum_basis_points));
            },
            Err(failure) => {
                return Err((i, failure));
            },
        }
        i += 1;
    }
    Ok(records)
}

/// Whether a parity case passes.
pub open spec fn case_passes(
    case: ParityMeasurement,
    limits: ParityLimits,
    minimum_basis_points: u64,
) -> bool {
    exists|record: ParityRecord|
        case_result(case.renders, case.metrics, limits, minimum_basis_points, Ok(record))
}

/// What the canonical node stack was measured as.  A maximum is held as the
/// bits of a number that is not negative, which may be no number at all.
#[derive(Debug, Clone, Copy, PartialEq, Eq, Structural)]
pub struct CanonicalParity {
    pub in_gamut_samples: usize,
    pub non_finite: usize,
    /// Whether the linear samples are within their tolerances.
    pub linear_within: bool,
    /// The maximum against a reference that was moved away on purpose.
    pub control_max: u32,
    /// The statistics of a second render against the first.
    pub repeat_non_finite: usize,
    pub repeat_in_gamut_max: u32,
    pub repeat_over_range_max: u32,
    pub repeat_compared: usize,
    pub repeat_above_domain: usize,
}

/// Why the canonical node stack does not match its reference.
#[derive(Debug, Clone, Copy, PartialEq, Eq, Structural)]
pub enum CanonicalFailure {
    NothingInGamut,
    NonFinite,
    Linear,
    /// The moved reference passes too, or its maximum is no number.
    ControlPasses,
    RepeatNonFinite,
    RepeatDiffers,
    RepeatDiffersOverRange,
    /// Not every colour sample was compared.
    SamplesMissing,
}

/// Whether one number that is not negative is above another, both given by
/// their bits.  What is no number is above nothing, and nothing is above it.
pub open spec fn exceeds(left: u32, right: u32) -> bool {
    left <= SINGLE_INFINITY && right <= SINGLE_INFINITY && left > right
}

/// What the canonical node stack fails.
pub open spec fn canonical_failure(
    measured: CanonicalParity,
    linear_max: u32,
    size: (u32, u32),
) -> Option<CanonicalFailure> {
    if measured.in_gamut_samples == 0 {
        Some(CanonicalFailure::NothingInGamut)
    } else if measured.non_finite != 0 {
        Some(CanonicalFailure::NonFinite)
    } else if !measured.linear_within {
        Some(CanonicalFailure::Linear)
    } else if !exceeds(measured.control_max, linear_max) {
        Some(CanonicalFailure::ControlPasses)
    } else if measured.repeat_non_finite != 0 {
        Some(CanonicalFailure::RepeatNonFinite)
    } else if measured.repeat_in_gamut_max != 0 {
        Some(CanonicalFailure::RepeatDiffers)
    } else if measured.repeat_over_range_max != 0 {
        Some(CanonicalFailure::RepeatDiffersOverRange)
    } else if measured.repeat_compared + measured.repeat_above_domain != size.0 * size.1 * 3 {
        Some(CanonicalFailure::SamplesMissing)
    } else {
        None
    }
}

/// Demands that the canonical node stack matches its reference, that the same
/// demand fails on a moved reference, and that two renders agree exactly.
pub fn assert_cc7_canonical_parity(measured: &CanonicalParity, linear_max: u32, size: (u32, u32)) -> (result:
    Result<(), CanonicalFailure>)
    ensures
        match canonical_failure(*measured, linear_max, size) {
            Some(failure) => result == Err::<(), CanonicalFailure>(failure),
            None => result is Ok,
        },
{
    if measured.in_gamut_samples == 0 {
        return Err(CanonicalFailure::NothingInGamut);
    }
    if measured.non_finite != 0 {
        return Err(CanonicalFailure::NonFinite);
    }
    if !measured.linear_within {
        return Err(CanonicalFailure::Linear);
    }
    if measured.control_max <= linear_max || measured.control_max > SINGLE_INFINITY || linear_max
        > SINGLE_INFINITY {
        return Err(CanonicalFailure::ControlPasses);
    }
    if measured.repeat_non_finite != 0 {
        return Err(CanonicalFailure::RepeatNonFinite);
    }
    if measured.repeat_in_gamut_max != 0 {
        return Err(CanonicalFailure::RepeatDiffers);
    }
    if measured.repeat_over_range_max != 0 {
        return Err(CanonicalFailure::RepeatDiffersOverRange);
    }
    assert(0 <= size.0 * size.1 <= u32::MAX * u32::MAX) by (nonlinear_arith)
        requires
            0 <= size.0 <= u32::MAX,
            0 <= size.1 <= u32::MAX,
    ;
    let samples: u128 = size.0 as u128 * size.1 as u128 * 3;
    if measured.repeat_compared as u128 + measured.repeat_above_domain as u128 != samples {
        return Err(CanonicalFailure::SamplesMissing);
    }
    Ok(())
}

/// What the renders of one matte hold.
#[derive(Debug)]
pub struct MatteRenders {
    /// The pixels that the matte covers.
    pub covered: Vec<bool>,
    /// The reference with the matte's node and with none.
    pub expected_linear: Vec<u32>,
    pub baseline_linear: Vec<u32>,
    /// The coverage of the renderer under test and of the reference, in codes.
    pub actual_coverage: Vec<u8>,
    pub expected_coverage: Vec<u8>,
    pub hard_edged: bool,
    /// The renderer under test with the matte's node and with none.
    pub actual_linear: Vec<u32>,
    pub actual_baseline: Vec<u32>,
}

/// Whether the rasters of a matte have one size.
pub open spec fn matte_renders_fit(renders: MatteRenders) -> bool {
    &&& renders.expected_linear@.len() == renders.covered@.len() * 4
    &&& renders.baseline_linear@.len() == renders.covered@.len() * 4
    &&& renders.actual_linear@.len() == renders.covered@.len() * 4
    &&& renders.actual_baseline@.len() == renders.covered@.len() * 4
    &&& renders.actual_coverage@.len() == renders.expected_coverage@.len()
}

/// Why a matte's renders are not what they must be.
#[derive(Debug, Clone, Copy, PartialEq, Eq, Structural)]
pub enum MatteCaseFailure {
    /// The matte covers another number of pixels.
    CoversOther { covered: usize },
    ReferenceContainment(ContainmentFailure),
    /// The reference changes another number of pixels inside.
    ChangesOther { changed: usize },
    Coverage(CoverageMismatch),
    RendererContainment(ContainmentFailure),
}

/// How many pixels are covered.
pub open spec fn covered_count(covered: Seq<bool>) -> nat {
    how_many(covered.len(), |i: int| covered[i])
}

fn count_covered(covered: &[bool]) -> (count: usize)
    ensures
        count == covered_count(covered@),
{
    let ghost property = |i: int| covered@[i];
    let mut count: usize = 0;
    let mut i: usize = 0;
    while i < covered.len()
        invariant
            i <= covered.len(),
            property == (|j: int| covered@[j]),
            count <= i,
            count == how_many(i as nat, property),
        decreases covered.len() - i,
    {
        if covered[i] {
            count += 1;
        }
        i += 1;
    }
    count
}

/// What a matte's renders say.
pub open spec fn matte_case_result(
    renders: MatteRenders,
    expected_pixels: usize,
    minimum_basis_points: u64,
    result: Result<(), MatteCaseFailure>,
) -> bool {
    let reference = |outcome: Result<ContainmentCounts, ContainmentFailure>|
        contained(
            renders.expected_linear@,
            renders.baseline_linear@,
            renders.covered@,
            minimum_basis_points,
            outcome,
        );
    let renderer = |outcome: Result<ContainmentCounts, ContainmentFailure>|
        contained(
            renders.actual_linear@,
            renders.actual_baseline@,
            renders.covered@,
            minimum_basis_points,
            outcome,
        );
    let coverage = |outcome: Result<(), CoverageMismatch>|
        coverage_result(
            renders.actual_coverage@,
            renders.expected_coverage@,
            renders.hard_edged,
            outcome,
        );
    let changes_all = exists|counts: ContainmentCounts| #[trigger]
        reference(Ok(counts)) && counts.inside_changed_pixels == expected_pixels;
    match result {
        Ok(_) => {
            &&& covered_count(renders.covered@) == expected_pixels
            &&& changes_all
            &&& coverage(Ok(()))
            &&& exists|counts: ContainmentCounts| #[trigger] renderer(Ok(counts))
        },
        Err(MatteCaseFailure::CoversOther { covered }) => {
            &&& covered == covered_count(renders.covered@)
            &&& covered != expected_pixels
        },
        Err(MatteCaseFailure::ReferenceContainment(failure)) => {
            &&& covered_count(renders.covered@) == expected_pixels
            &&& reference(Err(failure))
        },
        Err(MatteCaseFailure::ChangesOther { changed }) => {
            &&& covered_count(renders.covered@) == expected_pixels
            &&& changed != expected_pixels
            &&& exists|counts: ContainmentCounts| #[trigger]
                reference(Ok(counts)) && counts.inside_changed_pixels == changed
        },
        Err(MatteCaseFailure::Coverage(mismatch)) => {
            &&& covered_count(renders.covered@) == expected_pixels
            &&& changes_all
            &&& coverage(Err(mismatch))
        },
        Err(MatteCaseFailure::RendererContainment(failure)) => {
            &&& covered_count(renders.covered@) == expected_pixels
            &&& changes_all
            &&& coverage(Ok(()))
            &&& renderer(Err(failure))
        },
    }
}

/// Demands everything of one matte: it covers so many pixels, the reference
/// changes all of them and no other, the renderer's coverage matches the
/// reference's, and the renderer changes no other pixel either.
pub fn assert_matte_case(
    renders: &MatteRenders,
    expected_pixels: usize,
    minimum_basis_points: u64,
) -> (result: Result<(), MatteCaseFailure>)
    requires
        matte_renders_fit(*renders),
    ensures
        matte_case_result(*renders, expected_pixels, minimum_basis_points, result),
{
    let covered: usize = count_covered(renders.covered.as_slice());
    if covered != expected_pixels {
        return Err(MatteCaseFailure::CoversOther { covered });
    }
    let ghost reference = |outcome: Result<ContainmentCounts, ContainmentFailure>|
        contained(
            renders.expected_linear@,
            renders.baseline_linear@,
            renders.covered@,
            minimum_basis_points,
            outcome,
        );
    let ghost renderer = |outcome: Result<ContainmentCounts, ContainmentFailure>|
        contained(
            renders.actual_linear@,
            renders.actual_baseline@,
            renders.covered@,
            minimum_basis_points,
            outcome,
        );
    let counts = match assert_matte_containment(
        renders.expected_linear.as_slice(),
        renders.baseline_linear.as_slice(),
        renders.covered.as_slice(),
        minimum_basis_points,
    ) {
        Ok(counts) => counts,
        Err(failure) => {
            return Err(MatteCaseFailure::ReferenceContainment(failure));
        },
    };
    assert(reference(Ok(counts)));
    if counts.inside_changed_pixels != expected_pixels {
        return Err(MatteCaseFailure::ChangesOther { changed: counts.inside_changed_pixels });
    }
    match assert_coverage_matches(
        renders.actual_coverage.as_slice(),
        renders.expected_coverage.as_slice(),
        renders.hard_edged,
    ) {
        Ok(_) => {},
        Err(mismatch) => {
            return Err(MatteCaseFailure::Coverage(mismatch));
        },
    }
    match assert_matte_containment(
        renders.actual_linear.as_slice(),
        renders.actual_baseline.as_slice(),
        renders.covered.as_slice(),
        minimum_basis_points,
    ) {
        Ok(counts) => {
            assert(renderer(Ok(counts)));
            Ok(())
        },
        Err(failure) => Err(MatteCaseFailure::RendererContainment(failure)),
    }
}

/// The statistics pass exactly where something is in gamut and none of the
/// three statistics of the monitor codes is over its own limit, and the linear
/// samples are within theirs; and what is named as failing does.
pub proof fn lemma_metrics_exactly(metrics: ParityMetrics, limits: ParityLimits)
    ensures
        metrics_failure(metrics, limits) is None <==> {
            &&& metrics.in_gamut_samples > 0
            &&& metrics.monitor_max <= limits.monitor_max
            &&& metrics.monitor_p99 <= limits.monitor_p99
            &&& metrics.monitor_mean <= limits.monitor_mean
            &&& metrics.linear_within
        },
        metrics_failure(metrics, limits) matches Some(failure) ==> {
            &&& failure is NothingInGamut <==> metrics.in_gamut_samples == 0
            &&& failure is MonitorMax ==> metrics.monitor_max > limits.monitor_max
            &&& failure is MonitorP99 ==> metrics.monitor_p99 > limits.monitor_p99
            &&& failure is MonitorMean ==> metrics.monitor_mean > limits.monitor_mean
            &&& failure is Linear ==> !metrics.linear_within
            &&& failure is NothingInGamut || failure is MonitorMax || failure is MonitorP99
                || failure is MonitorMean || failure is Linear
        },
{
}

/// A divergence is at least every finite difference in the columns of the sector
/// boundaries, and where it is not zero it is one of them.
pub proof fn lemma_divergence_by_position(differences: Seq<u32>, greatest: u32)
    requires
        differences.len() == 6_912,
        is_divergence(differences, 6_912, greatest),
    ensures
        forall|x: int, y: int, c: int|
            #![trigger differences[3 * (64 * y + x) + c]]
            0 <= y < 36 && (16 <= x < 28 || 48 <= x < 60) && 0 <= c < 3 && differences[3 * (64 * y
                + x) + c] < 0x7f80_0000 ==> differences[3 * (64 * y + x) + c] <= greatest,
        greatest > 0 ==> greatest < 0x7f80_0000 && exists|i: int|
            0 <= i < 6_912 && (16 <= i / 3 % 64 < 28 || 48 <= i / 3 % 64 < 60)
                && #[trigger] differences[i] == greatest,
{
    assert forall|x: int, y: int, c: int|
        #![trigger differences[3 * (64 * y + x) + c]]
        0 <= y < 36 && (16 <= x < 28 || 48 <= x < 60) && 0 <= c < 3 && differences[3 * (64 * y + x)
            + c] < 0x7f80_0000 implies differences[3 * (64 * y + x) + c] <= greatest by {
        let i = 3 * (64 * y + x) + c;
        assert(i / 3 == 64 * y + x);
        crate::raster::lemma_sector_boundary_columns(x, y);
        assert(diverges(differences, i));
    }
    if greatest > 0 {
        let i = choose|i: int|
            0 <= i < 6_912 && diverges(differences, i) && #[trigger] differences[i] == greatest;
        let x = i / 3 % 64;
        let y = i / 3 / 64;
        assert(i / 3 == 64 * y + x);
        crate::raster::lemma_sector_boundary_columns(x, y);
        assert(differences[i] == greatest);
    }
}

/// The canonical stack passes exactly where something was in gamut and nothing
/// was not finite, the linear samples agree, the moved reference's maximum is a
/// number over the limit, and a second render agrees exactly on three samples of
/// every pixel; and what is named as failing does.
pub proof fn lemma_canonical_exactly(measured: CanonicalParity, linear_max: u32, size: (u32, u32))
    ensures
        canonical_failure(measured, linear_max, size) is None <==> {
            &&& measured.in_gamut_samples > 0
            &&& measured.non_finite == 0
            &&& measured.linear_within
            &&& linear_max < measured.control_max <= 0x7f80_0000
            &&& measured.repeat_non_finite == 0
            &&& measured.repeat_in_gamut_max == 0
            &&& measured.repeat_over_range_max == 0
            &&& measured.repeat_compared + measured.repeat_above_domain == 3 * (size.0 * size.1)
        },
        canonical_failure(measured, linear_max, size) matches Some(failure) ==> {
            &&& failure is NothingInGamut <==> measured.in_gamut_samples == 0
            &&& failure is NonFinite ==> measured.non_finite > 0
            &&& failure is Linear ==> !measured.linear_within
            &&& failure is ControlPasses ==> measured.control_max <= linear_max
                || measured.control_max > 0x7f80_0000 || linear_max > 0x7f80_0000
            &&& failure is RepeatNonFinite ==> measured.repeat_non_finite > 0
            &&& failure is RepeatDiffers ==> measured.repeat_in_gamut_max != 0
            &&& failure is RepeatDiffersOverRange ==> measured.repeat_over_range_max != 0
        },
{
}

/// A parity case that passes has changed no colour sample outside its matte, in
/// the reference or in the renderer, and no alpha byte of the monitor anywhere.
pub proof fn lemma_passing_case_on_samples(
    renders: ParityRenders,
    metrics: ParityMetrics,
    limits: ParityLimits,
    minimum_basis_points: u64,
    record: ParityRecord,
)
    requires
        renders_fit(renders),
        case_result(renders, metrics, limits, minimum_basis_points, Ok(record)),
    ensures
        forall|i: int, c: int|
            #![trigger renders.expected_linear@[4 * i + c]]
            0 <= i < 2_304 && !renders.covered@[i] && 0 <= c < 3 ==> renders.expected_linear@[4 * i
                + c] == renders.baseline_linear@[4 * i + c],
        forall|i: int, c: int|
            #![trigger renders.actual_linear@[4 * i + c]]
            0 <= i < 2_304 && !renders.covered@[i] && 0 <= c < 3 ==> renders.actual_linear@[4 * i
                + c] == renders.actual_baseline@[4 * i + c],
        forall|i: int, c: int|
            #![trigger renders.expected_monitor@[4 * i + c]]
            0 <= i < 2_304 && 0 <= c < 4 && (c == 3 || !renders.covered@[i])
                ==> renders.expected_monitor@[4 * i + c] == renders.baseline_monitor@[4 * i + c],
        metrics.monitor_max <= limits.monitor_max,
        metrics.monitor_p99 <= limits.monitor_p99,
        metrics.monitor_mean <= limits.monitor_mean,
        metrics.linear_within,
{
    lemma_contained_exactly(
        renders.expected_linear@,
        renders.baseline_linear@,
        renders.covered@,
        minimum_basis_points,
        Ok(record.containment),
    );
    lemma_contained_exactly(
        renders.actual_linear@,
        renders.actual_baseline@,
        renders.covered@,
        minimum_basis_points,
        Ok(record.renderer_containment),
    );
    lemma_monitor_on_bytes(
        renders.expected_monitor@,
        renders.baseline_monitor@,
        renders.covered@,
    );
}

/// The number of covered pixels: none of none, and one more for a covered one.
pub proof fn lemma_covered_pixels_one_by_one(covered: Seq<bool>, next: bool)
    ensures
        covered_count(Seq::empty()) == 0,
        covered_count(covered.push(next)) == covered_count(covered) + (if next {
            1nat
        } else {
            0
        }),
{
    let longer = covered.push(next);
    crate::tally::lemma_total_same(
        covered.len(),
        |i: int|
            if (|k: int| longer[k])(i) {
                1nat
            } else {
                0nat
            },
        |i: int|
            if (|k: int| covered[k])(i) {
                1nat
            } else {
                0nat
            },
    );
}

/// A matte's case that passes covers as many pixels as it should; the reference
/// and the renderer under test each change the covered pixels alone, the
/// reference all of them; and the coverage of the two agrees.
pub proof fn lemma_passing_matte_case(
    renders: MatteRenders,
    expected_pixels: usize,
    minimum_basis_points: u64,
)
    requires
        matte_case_result(renders, expected_pixels, minimum_basis_points, Ok(())),
    ensures
        covered_count(renders.covered@) == expected_pixels,
        coverage_result(
            renders.actual_coverage@,
            renders.expected_coverage@,
            renders.hard_edged,
            Ok(()),
        ),
        exists|counts: ContainmentCounts| #[trigger]
            contained(
                renders.expected_linear@,
                renders.baseline_linear@,
                renders.covered@,
                minimum_basis_points,
                Ok(counts),
            ) && counts.inside_changed_pixels == expected_pixels,
        exists|counts: ContainmentCounts| #[trigger]
            contained(
                renders.actual_linear@,
                renders.actual_baseline@,
                renders.covered@,
                minimum_basis_points,
                Ok(counts),
            ),
{
}

/// What a matte's case fails for is true of its renders.
pub proof fn lemma_failing_matte_case(
    renders: MatteRenders,
    expected_pixels: usize,
    minimum_basis_points: u64,
    failure: MatteCaseFailure,
)
    requires
        matte_case_result(renders, expected_pixels, minimum_basis_points, Err(failure)),
    ensures
        failure is CoversOther <==> covered_count(renders.covered@) != expected_pixels,
        match failure {
            MatteCaseFailure::CoversOther { covered } => covered == covered_count(renders.covered@),
            MatteCaseFailure::ReferenceContainment(reason) => contained(
                renders.expected_linear@,
                renders.baseline_linear@,
                renders.covered@,
                minimum_basis_points,
                Err(reason),
            ),
            MatteCaseFailure::ChangesOther { changed } => changed != expected_pixels,
            MatteCaseFailure::Coverage(mismatch) => coverage_result(
                renders.actual_coverage@,
                renders.expected_coverage@,
                renders.hard_edged,
                Err(mismatch),
            ),
            MatteCaseFailure::RendererContainment(reason) => contained(
                renders.actual_linear@,
                renders.actual_baseline@,
                renders.covered@,
                minimum_basis_points,
                Err(reason),
            ),
        },
{
}

/// The differences determine the greatest one at a boundary.
proof fn lemma_divergence_is_determined(differences: Seq<u32>, count: int, left: u32, right: u32)
    requires
        is_divergence(differences, count, left),
        is_divergence(differences, count, right),
    ensures
        left == right,
{
    if left != 0 {
        let i = choose|i: int|
            0 <= i < count && diverges(differences, i) && #[trigger] differences[i] == left;
        assert(differences[i] <= right);
    }
    if right != 0 {
        let i = choose|i: int|
            0 <= i < count && diverges(differences, i) && #[trigger] differences[i] == right;
        assert(differences[i] <= left);
    }
}

/// What two outcomes of one containment can be.
proof fn lemma_one_containment(
    actual: Seq<u32>,
    baseline: Seq<u32>,
    inside: Seq<bool>,
    minimum: u64,
)
    ensures
        forall|
            left: Result<ContainmentCounts, ContainmentFailure>,
            right: Result<ContainmentCounts, ContainmentFailure>,
        |
            #[trigger] contained(actual, baseline, inside, minimum, left) && #[trigger] contained(
                actual,
                baseline,
                inside,
                minimum,
                right,
            ) ==> left == right,
{
    assert forall|
        left: Result<ContainmentCounts, ContainmentFailure>,
        right: Result<ContainmentCounts, ContainmentFailure>,
    |
        #[trigger] contained(actual, baseline, inside, minimum, left) && #[trigger] contained(
            actual,
            baseline,
            inside,
            minimum,
            right,
        ) implies left == right by {
        crate::containment::lemma_containment_is_determined(
            actual,
            baseline,
            inside,
            minimum,
            left,
            right,
        );
    }
}

/// The renders and the measured differences of a parity case determine its
/// outcome.
pub proof fn lemma_parity_case_is_determined(
    renders: ParityRenders,
    metrics: ParityMetrics,
    limits: ParityLimits,
    minimum_basis_points: u64,
    left: Result<ParityRecord, ParityFailure>,
    right: Result<ParityRecord, ParityFailure>,
)
    requires
        case_result(renders, metrics, limits, minimum_basis_points, left),
        case_result(renders, metrics, limits, minimum_basis_points, right),
    ensures
        left == right,
{
    lemma_one_containment(
        renders.expected_linear@,
        renders.baseline_linear@,
        renders.covered@,
        minimum_basis_points,
    );
    lemma_one_containment(
        renders.actual_linear@,
        renders.actual_baseline@,
        renders.covered@,
        minimum_basis_points,
    );
    if left is Ok && right is Ok {
        lemma_divergence_is_determined(
            renders.differences@,
            CC5_RASTER_SAMPLES as int,
            left->Ok_0.sector_divergence,
            right->Ok_0.sector_divergence,
        );
    }
}

/// The renders of a matte's case determine its outcome.
pub proof fn lemma_matte_case_is_determined(
    renders: MatteRenders,
    expected_pixels: usize,
    minimum_basis_points: u64,
    left: Result<(), MatteCaseFailure>,
    right: Result<(), MatteCaseFailure>,
)
    requires
        renders.actual_coverage@.len() == renders.expected_coverage@.len(),
        matte_case_result(renders, expected_pixels, minimum_basis_points, left),
        matte_case_result(renders, expected_pixels, minimum_basis_points, right),
    ensures
        left is Ok <==> right is Ok,
        left is Err ==> left->Err_0 == right->Err_0,
{
    lemma_one_containment(
        renders.expected_linear@,
        renders.baseline_linear@,
        renders.covered@,
        minimum_basis_points,
    );
    lemma_one_containment(
        renders.actual_linear@,
        renders.actual_baseline@,
        renders.covered@,
        minimum_basis_points,
    );
    assert forall|a: Result<(), CoverageMismatch>, b: Result<(), CoverageMismatch>|
        #[trigger] coverage_result(
            renders.actual_coverage@,
            renders.expected_coverage@,
            renders.hard_edged,
            a,
        ) && #[trigger] coverage_result(
            renders.actual_coverage@,
            renders.expected_coverage@,
            renders.hard_edged,
            b,
        ) implies (a is Ok <==> b is Ok) && (a is Err ==> a->Err_0 == b->Err_0) by {
        crate::raster::lemma_coverage_is_determined(
            renders.actual_coverage@,
            renders.expected_coverage@,
            renders.hard_edged,
            a,
            b,
        );
    }
}

} // verus!
