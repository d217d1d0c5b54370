//! What the cost of a frame is recorded as.

use vstd::prelude::*;

use crate::delivery_source::DELIVERY_VERIFICATION_FRAME_COUNT;
use crate::text::strings_equal;

verus! {

/// The raster whose frame the matte stack is timed on.
pub const PERFORMANCE_RESOLUTION: (u32, u32) = (1920, 1080);

/// The number of timed renders behind the first.
pub const PERFORMANCE_SAMPLES: usize = 3;

/// The time that one frame of the matte stack should take, in nanoseconds.
pub const PERFORMANCE_SOFT_BUDGET_NANOSECONDS: u64 = 41_700_000;

/// The raster whose frame a delivery is timed on.
pub const CC6_PERFORMANCE_RASTER: (u32, u32) = (1_920, 1_080);

/// The number of frames of the timed delivery.
pub const CC6_PERFORMANCE_FRAMES: u32 = 8;

/// The names of the recorded measurements.
pub const PERFORMANCE_EVIDENCE_FIELDS: [&'static str; 13] = [
    "minimum_milliseconds",
    "mean_milliseconds",
    "samples_milliseconds",
    "matte_free_milliseconds",
    "empty_stack_milliseconds",
    "empty_stack_samples_milliseconds",
    "node_stack_milliseconds",
    "readback_note",
    "soft_budget_met_by_node_stack",
    "soft_budget_milliseconds",
    "soft_budget_met",
    "gate",
    "note",
];

/// The times of the renders, in nanoseconds.
#[derive(Debug)]
pub struct Cc5PerformanceRun {
    /// With the whole stack.
    pub samples: Vec<u64>,
    /// With no node at all.
    pub empty_samples: Vec<u64>,
    /// With the same nodes and no matte.
    pub matte_free: u64,
}

/// What is recorded of the times, in nanoseconds.
#[derive(Debug, Clone, Copy, PartialEq, Eq, Structural)]
pub struct Cc5Performance {
    pub minimum: u64,
    /// The sum whose share per sample is the mean.
    pub sum: u128,
    pub empty: u64,
    /// What the stack costs beyond what every render costs.
    pub node_stack: i128,
    pub matte_free: u64,
    pub soft_budget_met: bool,
    pub soft_budget_met_by_node_stack: bool,
}

/// Whether a number is the least of some.
pub open spec fn is_least(times: Seq<u64>, least: u64) -> bool {
    &&& exists|i: int| 0 <= i < times.len() && #[trigger] times[i] == least
    &&& forall|i: int| 0 <= i < times.len() ==> least <= #[trigger] times[i]
}

/// The sum of some times.
pub open spec fn sum_of(times: Seq<u64>, count: nat) -> nat
    decreases count,
{
    if count == 0 {
        0
    } else {
        sum_of(times, (count - 1) as nat) + times[count - 1] as nat
    }
}

fn least_of(times: &Vec<u64>) -> (least: u64)
    requires
        times@.len() > 0,
    ensures
        is_least(times@, least),
{
    let mut least: u64 = times[0];
    let mut i: usize = 1;
    assert(times@[0] == least);
    while i < times.len()
        invariant
            1 <= i <= times.len(),
            exists|j: int| 0 <= j < i && #[trigger] times@[j] == least,
            forall|j: int| 0 <= j < i ==> least <= #[trigger] times@[j],
        decreases times.len() - i,
    {
        if times[i] < least {
            least = times[i];
            assert(times@[i as int] == least);
        }
        i += 1;
    }
    least
}

fn summed(times: &Vec<u64>) -> (sum: u128)
    ensures
        sum == sum_of(times@, times@.len()),
{
    let mut sum: u128 = 0;
    let mut i: usize = 0;
    while i < times.len()
        invariant
            i <= times.len(),
            sum == sum_of(times@, i as nat),
            sum <= i * u64::MAX,
        decreases times.len() - i,
    {
        assert(i * u64::MAX + u64::MAX == (i + 1) * u64::MAX) by (nonlinear_arith);
        assert(i * u64::MAX + u64::MAX <= u128::MAX) by (nonlinear_arith)
            requires
                0 <= i < usize::MAX <= u64::MAX,
        ;
        sum = sum + times[i] as u128;
        i += 1;
    }
    sum
}

/// What is recorded of the times: the least of each kind, their difference, and
/// whether they fit the soft budget.  A slow render fails nothing.
pub fn record_cc5_performance(run: &Cc5PerformanceRun) -> (record: Cc5Performance)
    requires
        run.samples@.len() > 0,
        run.empty_samples@.len() > 0,
    ensures
        is_least(run.samples@, record.minimum),
        is_least(run.empty_samples@, record.empty),
        record.sum == sum_of(run.samples@, run.samples@.len()),
        record.node_stack == record.minimum - record.empty,
        record.matte_free == run.matte_free,
        record.soft_budget_met == (record.minimum <= PERFORMANCE_SOFT_BUDGET_NANOSECONDS),
        record.soft_budget_met_by_node_stack == (record.node_stack
            <= PERFORMANCE_SOFT_BUDGET_NANOSECONDS),
{
    let minimum: u64 = least_of(&run.samples);
    let empty: u64 = least_of(&run.empty_samples);
    let node_stack: i128 = minimum as i128 - empty as i128;
    Cc5Performance {
        minimum,
        sum: summed(&run.samples),
        empty,
        node_stack,
        matte_free: run.matte_free,
        soft_budget_met: minimum <= PERFORMANCE_SOFT_BUDGET_NANOSECONDS,
        soft_budget_met_by_node_stack: node_stack <= PERFORMANCE_SOFT_BUDGET_NANOSECONDS as i128,
    }
}

/// The least time is no longer than the mean.
pub proof fn lemma_least_is_at_most_the_mean(times: Seq<u64>, least: u64, count: nat)
    requires
        is_least(times, least),
        count <= times.len(),
    ensures
        least * count <= sum_of(times, count),
    decreases count,
{
    if count == 0 {
        assert(least * 0 == 0);
    } else {
        lemma_least_is_at_most_the_mean(times, least, (count - 1) as nat);
        assert(least <= times[count - 1]);
        assert(least * count == least * (count - 1) + least) by (nonlinear_arith)
            requires
                count > 0,
        ;
    }
}

/// Whether a name is that of a recorded measurement.
pub open spec fn is_field(name: Seq<char>) -> bool {
    exists|j: int| 0 <= j < 13 && #[trigger] PERFORMANCE_EVIDENCE_FIELDS@[j]@ == name
}

/// Whether a field is among some names.
pub open spec fn is_among(names: Seq<String>, field: Seq<char>) -> bool {
    exists|i: int| 0 <= i < names.len() && (#[trigger] names[i])@ == field
}

/// Whether the names are those of the recorded measurements, in any order.
pub open spec fn are_the_fields(names: Seq<String>) -> bool {
    &&& forall|i: int| 0 <= i < names.len() ==> is_field((#[trigger] names[i])@)
    &&& forall|j: int|
        0 <= j < 13 ==> is_among(names, (#[trigger] PERFORMANCE_EVIDENCE_FIELDS@[j])@)
}

fn named_field(name: &str) -> (found: bool)
    ensures
        found == is_field(name@),
{
    let mut j: usize = 0;
    while j < 13
        invariant
            j <= 13,
            forall|k: int| 0 <= k < j ==> #[trigger] PERFORMANCE_EVIDENCE_FIELDS@[k]@ != name@,
        decreases 13 - j,
    {
        if strings_equal(PERFORMANCE_EVIDENCE_FIELDS[j], name) {
            assert(PERFORMANCE_EVIDENCE_FIELDS@[j as int]@ == name@);
            return true;
        }
        j += 1;
    }
    false
}

fn among(names: &[String], field: &str) -> (found: bool)
    ensures
        found == is_among(names@, field@),
{
    let mut i: usize = 0;
    while i < names.len()
        invariant
            i <= names.len(),
            forall|k: int| 0 <= k < i ==> (#[trigger] names@[k])@ != field@,
        decreases names.len() - i,
    {
        if strings_equal(names[i].as_str(), field) {
            assert(names@[i as int]@ == field@);
            return true;
        }
        i += 1;
    }
    false
}

/// Whether the names of a record are those of the recorded measurements.
pub fn carries_the_declared_fields(names: &[String]) -> (carried: bool)
    ensures
        carried == are_the_fields(names@),
{
    let mut i: usize = 0;
    while i < names.len()
        invariant
            i <= names.len(),
            forall|k: int| 0 <= k < i ==> is_field((#[trigger] names@[k])@),
        decreases names.len() - i,
    {
        if !named_field(names[i].as_str()) {
            assert(!is_field(names@[i as int]@));
            return false;
        }
        i += 1;
    }
    let mut j: usize = 0;
    while j < 13
        invariant
            j <= 13,
            forall|k: int|
                0 <= k < j ==> is_among(names@, (#[trigger] PERFORMANCE_EVIDENCE_FIELDS@[k])@),
        decreases 13 - j,
    {
        if !among(names, PERFORMANCE_EVIDENCE_FIELDS[j]) {
            assert(!is_among(names@, PERFORMANCE_EVIDENCE_FIELDS@[j as int]@));
            return false;
        }
        j += 1;
    }
    true
}

/// What the timed delivery showed and took.
#[derive(Debug, Clone, Copy)]
pub struct Cc6PerformanceRun {
    pub proof_size: (u32, u32),
    pub proof_full_resolution: bool,
    pub report_full_resolution: bool,
    pub report_raster: (u32, u32),
    pub skin_reported: bool,
    pub tags_reported: bool,
    /// The number of frames that a verification would sample.
    pub sampled: usize,
    /// The number of frames that the verification compared.
    pub compared: usize,
    /// The times in nanoseconds.
    pub proof: u64,
    pub report: u64,
    pub export: u64,
    pub verification: u64,
}

/// Why the timed delivery is no evidence.
#[derive(Debug, Clone, Copy, PartialEq, Eq, Structural)]
pub enum Cc6PerformanceFailure {
    ProofSizeDiffers,
    ProofNotFullResolution,
    ReportNotFullResolution,
    ReportRasterDiffers,
    SkinMissing,
    TagsMissing,
    SampleCountDiffers,
    ComparedCountDiffers,
    ProofTookNoTime,
    ReportTookNoTime,
    VerificationTookNoTime,
}

/// What is recorded of the timed delivery, in nanoseconds.
#[derive(Debug, Clone, Copy, PartialEq, Eq, Structural)]
pub struct Cc6Performance {
    pub proof_and_report: u128,
    /// Whether the report fits into one frame at 24 frames per second.
    pub report_within_soft_budget: bool,
}

/// What the timed delivery fails to show.
pub open spec fn performance_failure(run: Cc6PerformanceRun, size: (u32, u32)) -> Option<
    Cc6PerformanceFailure,
> {
    if run.proof_size != size {
        Some(Cc6PerformanceFailure::ProofSizeDiffers)
    } else if !run.proof_full_resolution {
        Some(Cc6PerformanceFailure::ProofNotFullResolution)
    } else if !run.report_full_resolution {
        Some(Cc6PerformanceFailure::ReportNotFullResolution)
    } else if run.report_raster != size {
        Some(Cc6PerformanceFailure::ReportRasterDiffers)
    } else if !run.skin_reported {
        Some(Cc6PerformanceFailure::SkinMissing)
    } else if !run.tags_reported {
        Some(Cc6PerformanceFailure::TagsMissing)
    } else if run.sampled != DELIVERY_VERIFICATION_FRAME_COUNT {
        Some(Cc6PerformanceFailure::SampleCountDiffers)
    } else if run.compared != run.sampled {
        Some(Cc6PerformanceFailure::ComparedCountDiffers)
    } else if run.proof == 0 {
        Some(Cc6PerformanceFailure::ProofTookNoTime)
    } else if run.report == 0 {
        Some(Cc6PerformanceFailure::ReportTookNoTime)
    } else if run.verification == 0 {
        Some(Cc6PerformanceFailure::VerificationTookNoTime)
    } else {
        None
    }
}

/// Demands that the timed delivery is evidence, and gives what is recorded of
/// it.  A slow report fails nothing.
pub fn assert_cc6_performance_evidence(run: &Cc6PerformanceRun, size: (u32, u32)) -> (result:
    Result<Cc6Performance, Cc6PerformanceFailure>)
    ensures
        match performance_failure(*run, size) {
            Some(failure) => result == Err::<Cc6Performance, Cc6PerformanceFailure>(failure),
            None => {
                &&& result is Ok
                &&& result->Ok_0.proof_and_report == run.proof + run.report
                &&& result->Ok_0.report_within_soft_budget == (24 * run.report <= 1_000_000_000)
            },
        },
{
    if run.proof_size.0 != size.0 || run.proof_size.1 != size.1 {
        return Err(Cc6PerformanceFailure::ProofSizeDiffers);
    }
    if !run.proof_full_resolution {
        return Err(Cc6PerformanceFailure::ProofNotFullResolution);
    }
    if !run.report_full_resolution {
        return Err(Cc6PerformanceFailure::ReportNotFullResolution);
    }
    if run.report_raster.0 != size.0 || run.report_raster.1 != size.1 {
        return Err(Cc6PerformanceFailure::ReportRasterDiffers);
    }
    if !run.skin_reported {
        return Err(Cc6PerformanceFailure::SkinMissing);
    }
    if !run.tags_reported {
        return Err(Cc6PerformanceFailure::TagsMissing);
    }
    if run.sampled != DELIVERY_VERIFICATION_FRAME_COUNT as usize {
        return Err(Cc6PerformanceFailure::SampleCountDiffers);
    }
    if run.compared != run.sampled {
        return Err(Cc6PerformanceFailure::ComparedCountDiffers);
    }
    if run.proof == 0 {
        return Err(Cc6PerformanceFailure::ProofTookNoTime);
    }
    if run.report == 0 {
        return Err(Cc6PerformanceFailure::ReportTookNoTime);
    }
    if run.verification == 0 {
        return Err(Cc6PerformanceFailure::VerificationTookNoTime);
    }
    Ok(
        Cc6Performance {
            proof_and_report: run.proof as u128 + run.report as u128,
            report_within_soft_budget: 24 * run.report as u128 <= 1_000_000_000,
        },
    )
}

/// A timed delivery is evidence exactly where the proof and the report are full
/// and of the size that is asked for, skin and tags are reported, five frames
/// were sampled and all of them compared, and each step took time; and what is
/// named as missing is.
pub proof fn lemma_performance_exactly(run: Cc6PerformanceRun, size: (u32, u32))
    ensures
        performance_failure(run, size) is None <==> {
            &&& run.proof_size.0 == size.0 && run.proof_size.1 == size.1
            &&& run.report_raster.0 == size.0 && run.report_raster.1 == size.1
            &&& run.proof_full_resolution
            &&& run.report_full_resolution
            &&& run.skin_reported
            &&& run.tags_reported
            &&& run.sampled == 5
            &&& run.compared == 5
            &&& run.proof > 0
            &&& run.report > 0
            &&& run.verification > 0
        },
        performance_failure(run, size) matches Some(failure) ==> match failure {
            Cc6PerformanceFailure::ProofSizeDiffers => run.proof_size != size,
            Cc6PerformanceFailure::ProofNotFullResolution => !run.proof_full_resolution,
            Cc6PerformanceFailure::ReportNotFullResolution => !run.report_full_resolution,
            Cc6PerformanceFailure::ReportRasterDiffers => run.report_raster != size,
            Cc6PerformanceFailure::SkinMissing => !run.skin_reported,
            Cc6PerformanceFailure::TagsMissing => !run.tags_reported,
            Cc6PerformanceFailure::SampleCountDiffers => run.sampled != 5,
            Cc6PerformanceFailure::ComparedCountDiffers => run.compared != 5,
            Cc6PerformanceFailure::ProofTookNoTime => run.proof == 0,
            Cc6PerformanceFailure::ReportTookNoTime => run.report == 0,
            Cc6PerformanceFailure::VerificationTookNoTime => run.verification == 0,
        },
{
}

/// The sum of times grows by each time, and times that are all the same sum to
/// as many times one of them.
pub proof fn lemma_sum_of_times(times: Seq<u64>, each: u64, count: nat)
    requires
        forall|i: int| 0 <= i < count ==> #[trigger] times[i] == each,
    ensures
        sum_of(times, count) == each * count,
        sum_of(times, count + 1) == sum_of(times, count) + times[count as int],
        PERFORMANCE_SOFT_BUDGET_NANOSECONDS == 41_700_000,
    decreases count,
{
    if count > 0 {
        lemma_sum_of_times(times, each, (count - 1) as nat);
        assert(times[count - 1] == each);
        assert(each * count == each * (count - 1) + each) by (nonlinear_arith)
            requires
                count > 0,
        ;
    } else {
        assert(each * 0 == 0);
    }
}

/// The names of the recorded measurements.
pub proof fn lemma_fields_in_words(name: Seq<char>)
    ensures
        is_field(name) <==> {
            ||| name == "minimum_milliseconds"@
            ||| name == "mean_milliseconds"@
            ||| name == "samples_milliseconds"@
            ||| name == "matte_free_milliseconds"@
            ||| name == "empty_stack_milliseconds"@
            ||| name == "empty_stack_samples_milliseconds"@
            ||| name == "node_stack_milliseconds"@
            ||| name == "readback_note"@
            ||| name == "soft_budget_met_by_node_stack"@
            ||| name == "soft_budget_milliseconds"@
            ||| name == "soft_budget_met"@
            ||| name == "gate"@
            ||| name == "note"@
        },
{
    assert(PERFORMANCE_EVIDENCE_FIELDS@[0]@ == "minimum_milliseconds"@);
    assert(PERFORMANCE_EVIDENCE_FIELDS@[1]@ == "mean_milliseconds"@);
    assert(PERFORMANCE_EVIDENCE_FIELDS@[2]@ == "samples_milliseconds"@);
    assert(PERFORMANCE_EVIDENCE_FIELDS@[3]@ == "matte_free_milliseconds"@);
    assert(PERFORMANCE_EVIDENCE_FIELDS@[4]@ == "empty_stack_milliseconds"@);
    assert(PERFORMANCE_EVIDENCE_FIELDS@[5]@ == "empty_stack_samples_milliseconds"@);
    assert(PERFORMANCE_EVIDENCE_FIELDS@[6]@ == "node_stack_milliseconds"@);
    assert(PERFORMANCE_EVIDENCE_FIELDS@[7]@ == "readback_note"@);
    assert(PERFORMANCE_EVIDENCE_FIELDS@[8]@ == "soft_budget_met_by_node_stack"@);
    assert(PERFORMANCE_EVIDENCE_FIELDS@[9]@ == "soft_budget_milliseconds"@);
    assert(PERFORMANCE_EVIDENCE_FIELDS@[10]@ == "soft_budget_met"@);
    assert(PERFORMANCE_EVIDENCE_FIELDS@[11]@ == "gate"@);
    assert(PERFORMANCE_EVIDENCE_FIELDS@[12]@ == "note"@);
}

/// Names are the fields of the evidence exactly where each of them is one of the
/// thirteen words and each of the thirteen words is among them.
pub proof fn lemma_evidence_fields_exactly(names: Seq<String>, i: int, j: int)
    requires
        0 <= i < names.len(),
        0 <= j < 13,
    ensures
        are_the_fields(names) ==> is_field(names[i]@),
        are_the_fields(names) ==> exists|k: int|
            0 <= k < names.len() && (#[trigger] names[k])@ == PERFORMANCE_EVIDENCE_FIELDS@[j]@,
        !is_field(names[i]@) ==> !are_the_fields(names),
        (forall|k: int| 0 <= k < names.len() ==> (#[trigger] names[k])@
            != PERFORMANCE_EVIDENCE_FIELDS@[j]@) ==> !are_the_fields(names),
        (forall|k: int| 0 <= k < names.len() ==> is_field((#[trigger] names[k])@)) && (forall|l: int|
            #![trigger PERFORMANCE_EVIDENCE_FIELDS@[l]]
            0 <= l < 13 ==> is_among(names, PERFORMANCE_EVIDENCE_FIELDS@[l]@)) ==> are_the_fields(
            names,
        ),
{
    if are_the_fields(names) {
        assert(is_among(names, PERFORMANCE_EVIDENCE_FIELDS@[j]@));
    }
}

/// The least of some times is one of them, none of them is below it, and there is
/// only one.
pub proof fn lemma_least_is_determined(times: Seq<u64>, least: u64, other: u64, i: int)
    requires
        is_least(times, least),
        0 <= i < times.len(),
    ensures
        least <= times[i],
        times.contains(least),
        is_least(times, other) ==> least == other,
        times.len() == 1 ==> least == times[0],
{
    let k = choose|k: int| 0 <= k < times.len() && #[trigger] times[k] == least;
    assert(times[k] == least);
    if is_least(times, other) {
        let j = choose|j: int| 0 <= j < times.len() && #[trigger] times[j] == other;
        assert(times[j] == other);
    }
}

/// No field is among no names; a name more adds itself and nothing else.
pub proof fn lemma_among_one_by_one(names: Seq<String>, more: String, field: Seq<char>)
    ensures
        !is_among(Seq::empty(), field),
        is_among(names.push(more), field) <==> is_among(names, field) || more@ == field,
{
    let longer = names.push(more);
    if is_among(names, field) {
        let i = choose|i: int| 0 <= i < names.len() && (#[trigger] names[i])@ == field;
        assert(longer[i]@ == field);
    }
    if more@ == field {
        assert(longer[names.len() as int]@ == field);
    }
    if is_among(longer, field) {
        let i = choose|i: int| 0 <= i < longer.len() && (#[trigger] longer[i])@ == field;
        if i < names.len() {
            assert(names[i]@ == field);
        }
    }
}

} // verus!
