//! What the delivery of a workflow scenario must meet.

use vstd::prelude::*;

use crate::delivery::{
    tagged_depth, ColorRange, ColorTag, DeliveryComparison, DeliveryEncodeDepth, DeliveryException,
    DeliveryVerification, LaneContract, QaSeverity,
};
use crate::delivery_source::{
    cc7_expected_sample_frames, sample_frame, samples_countable, DELIVERY_VERIFICATION_FRAME_COUNT,
};
use crate::delivery_lane::WHITE_POINT_FIELD;
use crate::manifest::{
    compared, declared_equals, integer_at, json_parts, keys_of, manifest_integer, JsonPart,
    ManifestFailure,
};
use crate::text::strings_equal;

verus! {

/// The bitrate that starves a scenario's encode.
pub const CC7_STARVED_BITRATE_BITS_PER_SECOND: u64 = 100_000;

/// The code of the exception on a field that the format has no syntax for.
pub const TAG_NOT_REPRESENTABLE: &'static str = "delivery_tag_not_representable";

/// The measured terms of a lane, as the manifest names them.
pub const CC7_LANE_TERMS: [&'static str; 5] = [
    "luma_max_code",
    "luma_p99_code_millionths",
    "luma_mean_code_millionths",
    "rgb_mean_code_millionths",
    "psnr_db_hundredths",
];

/// What a scenario's delivery was measured as.
#[derive(Debug)]
pub struct Cc7DeliveryMeasurement {
    /// The name of the scenario.
    pub scenario: String,
    pub depth: DeliveryEncodeDepth,
    pub verification: DeliveryVerification,
}

/// Why a scenario's delivery does not meet what it must.
#[derive(Debug, Clone, Copy, PartialEq, Eq, Structural)]
pub enum WorkflowFailure {
    DepthDiffers,
    OutputDiffers,
    PixelFormatDiffers,
    PrimariesDiffer,
    TransferDiffers,
    MatrixDiffers,
    RangeDiffers,
    TaggedDepthDiffers,
    TagsDoNotConform,
    TagsMismatch,
    SampleCountDiffers,
    /// The verification sampled other frames of the document.
    FramesDiffer,
    TechnicalFailure,
    NotWithinBudgets,
    /// An exception whose code is not among those that are allowed.
    CodeNotAllowed { index: usize },
    /// An exception that is more than information.
    NotInfo { index: usize },
    NotRepresentableCount,
    NotRepresentableField,
    /// Not exactly one exception is on a field without a syntax.
    NotRepresentableExceptions,
    CodecNotExercised,
    BudgetsDiffer,
    PsnrMissing,
    /// The manifest does not declare what was measured of a term.
    Manifest { term: usize, failure: ManifestFailure },
}

/// Whether a code is among some.
pub open spec fn is_allowed(allowed: Seq<String>, code: Seq<char>) -> bool {
    exists|i: int| 0 <= i < allowed.len() && (#[trigger] allowed[i])@ == code
}

fn allows(allowed: &[String], code: &str) -> (found: bool)
    ensures
        found == is_allowed(allowed@, code@),
{
    let mut i: usize = 0;
    while i < allowed.len()
        invariant
            i <= allowed.len(),
            forall|j: int| 0 <= j < i ==> (#[trigger] allowed@[j])@ != code@,
        decreases allowed.len() - i,
    {
        if strings_equal(allowed[i].as_str(), code) {
            assert(allowed@[i as int]@ == code@);
            return true;
        }
        i += 1;
    }
    false
}

/// Whether the sampled frames are those of a document of so many frames.
pub open spec fn document_frames(frames: Seq<i64>, duration: int) -> bool {
    &&& frames.len() == DELIVERY_VERIFICATION_FRAME_COUNT
    &&& forall|i: int|
        0 <= i < DELIVERY_VERIFICATION_FRAME_COUNT ==> #[trigger] frames[i] == sample_frame(
            duration,
            i,
        )
}

/// Whether the sampled frames are those of a document of so many frames.
pub fn samples_the_document(frames: &[i64], duration: i64) -> (sampled: bool)
    requires
        samples_countable(duration as int),
    ensures
        sampled == document_frames(frames@, duration as int),
{
    let expected = cc7_expected_sample_frames(duration);
    if frames.len() != expected.len() {
        return false;
    }
    let mut i: usize = 0;
    while i < 5
        invariant
            i <= 5,
            frames@.len() == 5,
            expected@.len() == 5,
            forall|j: int| 0 <= j < 5 ==> #[trigger] expected@[j] == sample_frame(
                duration as int,
                j,
            ),
            forall|j: int| 0 <= j < i ==> #[trigger] frames@[j] == sample_frame(duration as int, j),
        decreases 5 - i,
    {
        assert(expected@[i as int] == sample_frame(duration as int, i as int));
        if frames[i] != expected[i] {
            assert(frames@[i as int] != sample_frame(duration as int, i as int));
            return false;
        }
        i += 1;
    }
    true
}

/// What the tags and the samples of a scenario's delivery fail.
pub open spec fn scenario_probe_failure(
    measurement: Cc7DeliveryMeasurement,
    output: Seq<char>,
    duration: int,
    contract: LaneContract,
) -> Option<WorkflowFailure> {
    let verification = measurement.verification;
    let probed = verification.probed;
    if verification.delivery_bit_depth != measurement.depth {
        Some(WorkflowFailure::DepthDiffers)
    } else if verification.output_path@ != output {
        Some(WorkflowFailure::OutputDiffers)
    } else if verification.decoded_pixel_format@ != contract.pixel_format@ {
        Some(WorkflowFailure::PixelFormatDiffers)
    } else if probed.primaries != ColorTag::Bt709 {
        Some(WorkflowFailure::PrimariesDiffer)
    } else if probed.transfer != ColorTag::Bt709 {
        Some(WorkflowFailure::TransferDiffers)
    } else if probed.matrix != ColorTag::Bt709 {
        Some(WorkflowFailure::MatrixDiffers)
    } else if probed.range != ColorRange::Limited {
        Some(WorkflowFailure::RangeDiffers)
    } else if probed.bit_depth != tagged_depth(measurement.depth) {
        Some(WorkflowFailure::TaggedDepthDiffers)
    } else if !verification.tags.conforming {
        Some(WorkflowFailure::TagsDoNotConform)
    } else if verification.tags.mismatches@.len() != 0 {
        Some(WorkflowFailure::TagsMismatch)
    } else if verification.comparison.frames@.len() != DELIVERY_VERIFICATION_FRAME_COUNT {
        Some(WorkflowFailure::SampleCountDiffers)
    } else if !document_frames(verification.comparison.frames@, duration) {
        Some(WorkflowFailure::FramesDiffer)
    } else if !verification.technical_pass {
        Some(WorkflowFailure::TechnicalFailure)
    } else if !verification.comparison.within_budgets {
        Some(WorkflowFailure::NotWithinBudgets)
    } else {
        None
    }
}

fn scenario_probe_fails(
    measurement: &Cc7DeliveryMeasurement,
    output: &str,
    duration: i64,
    contract: &LaneContract,
) -> (failure: Option<WorkflowFailure>)
    requires
        samples_countable(duration as int),
    ensures
        failure == scenario_probe_failure(*measurement, output@, duration as int, *contract),
{
    let verification = &measurement.verification;
    let probed = &verification.probed;
    if verification.delivery_bit_depth != measurement.depth {
        Some(WorkflowFailure::DepthDiffers)
    } else if !strings_equal(verification.output_path.as_str(), output) {
        Some(WorkflowFailure::OutputDiffers)
    } else if !strings_equal(
        verification.decoded_pixel_format.as_str(),
        contract.pixel_format.as_str(),
    ) {
        Some(WorkflowFailure::PixelFormatDiffers)
    } else if probed.primaries != ColorTag::Bt709 {
        Some(WorkflowFailure::PrimariesDiffer)
    } else if probed.transfer != ColorTag::Bt709 {
        Some(WorkflowFailure::TransferDiffers)
    } else if probed.matrix != ColorTag::Bt709 {
        Some(WorkflowFailure::MatrixDiffers)
    } else if probed.range != ColorRange::Limited {
        Some(WorkflowFailure::RangeDiffers)
    } else if probed.bit_depth != measurement.depth.tagged() {
        Some(WorkflowFailure::TaggedDepthDiffers)
    } else if !verification.tags.conforming {
        Some(WorkflowFailure::TagsDoNotConform)
    } else if verification.tags.mismatches.len() != 0 {
        Some(WorkflowFailure::TagsMismatch)
    } else if verification.comparison.frames.len() != DELIVERY_VERIFICATION_FRAME_COUNT as usize {
        Some(WorkflowFailure::SampleCountDiffers)
    } else if !samples_the_document(verification.comparison.frames.as_slice(), duration) {
        Some(WorkflowFailure::FramesDiffer)
    } else if !verification.technical_pass {
        Some(WorkflowFailure::TechnicalFailure)
    } else if !verification.comparison.within_budgets {
        Some(WorkflowFailure::NotWithinBudgets)
    } else {
        None
    }
}

/// What an exception fails: only information under an allowed code passes.
pub open spec fn exception_fault(
    exception: DeliveryException,
    allowed: Seq<String>,
    index: usize,
) -> Option<WorkflowFailure> {
    if !is_allowed(allowed, exception.code@) {
        Some(WorkflowFailure::CodeNotAllowed { index })
    } else if exception.severity != QaSeverity::Info {
        Some(WorkflowFailure::NotInfo { index })
    } else {
        None
    }
}

/// What the exceptions, from a place on, fail first.
pub open spec fn first_fault(
    exceptions: Seq<DeliveryException>,
    allowed: Seq<String>,
    from: int,
) -> Option<WorkflowFailure>
    decreases exceptions.len() - from,
{
    if from < 0 || from >= exceptions.len() {
        None
    } else {
        match exception_fault(exceptions[from], allowed, from as usize) {
            Some(failure) => Some(failure),
            None => first_fault(exceptions, allowed, from + 1),
        }
    }
}

fn find_fault(exceptions: &Vec<DeliveryException>, allowed: &[String]) -> (failure: Option<
    WorkflowFailure,
>)
    ensures
        failure == first_fault(exceptions@, allowed@, 0),
{
    let mut index: usize = 0;
    while index < exceptions.len()
        invariant
            index <= exceptions.len(),
            first_fault(exceptions@, allowed@, 0) == first_fault(
                exceptions@,
                allowed@,
                index as int,
            ),
        decreases exceptions.len() - index,
    {
        let exception = &exceptions[index];
        if !allows(allowed, exception.code.as_str()) {
            return Some(WorkflowFailure::CodeNotAllowed { index });
        }
        if exception.severity != QaSeverity::Info {
            return Some(WorkflowFailure::NotInfo { index });
        }
        index += 1;
    }
    None
}

/// How many of the first exceptions have a code.
pub open spec fn code_count(exceptions: Seq<DeliveryException>, code: Seq<char>, count: nat) -> nat
    decreases count,
{
    if count == 0 {
        0
    } else {
        code_count(exceptions, code, (count - 1) as nat) + (if exceptions[count - 1].code@ == code {
            1nat
        } else {
            0nat
        })
    }
}

fn count_code(exceptions: &Vec<DeliveryException>, code: &str) -> (count: usize)
    ensures
        count == code_count(exceptions@, code@, exceptions@.len()),
{
    let mut count: usize = 0;
    let mut i: usize = 0;
    while i < exceptions.len()
        invariant
            i <= exceptions.len(),
            count <= i,
            count == code_count(exceptions@, code@, i as nat),
        decreases exceptions.len() - i,
    {
        if strings_equal(exceptions[i].code.as_str(), code) {
            count += 1;
        }
        i += 1;
    }
    count
}

/// What the exceptions and the differences of a scenario's delivery fail.
pub open spec fn scenario_exceptions_failure(
    verification: DeliveryVerification,
    contract: LaneContract,
    allowed: Seq<String>,
) -> Option<WorkflowFailure> {
    let tags = verification.tags;
    let exceptions = verification.exceptions@;
    if first_fault(exceptions, allowed, 0) is Some {
        first_fault(exceptions, allowed, 0)
    } else if tags.not_representable@.len() != 1 {
        Some(WorkflowFailure::NotRepresentableCount)
    } else if tags.not_representable@[0]@ != WHITE_POINT_FIELD@ {
        Some(WorkflowFailure::NotRepresentableField)
    } else if code_count(exceptions, TAG_NOT_REPRESENTABLE@, exceptions.len()) != 1 {
        Some(WorkflowFailure::NotRepresentableExceptions)
    } else if verification.comparison.combined.mean_code_diff_millionths <= 0 {
        Some(WorkflowFailure::CodecNotExercised)
    } else if verification.comparison.budgets != contract.budgets {
        Some(WorkflowFailure::BudgetsDiffer)
    } else if verification.comparison.psnr_db_hundredths is None {
        Some(WorkflowFailure::PsnrMissing)
    } else {
        None
    }
}

fn scenario_exceptions_fail(
    verification: &DeliveryVerification,
    contract: &LaneContract,
    allowed: &[String],
) -> (failure: Option<WorkflowFailure>)
    ensures
        failure == scenario_exceptions_failure(*verification, *contract, allowed@),
{
    let tags = &verification.tags;
    if let Some(failure) = find_fault(&verification.exceptions, allowed) {
        return Some(failure);
    }
    if tags.not_representable.len() != 1 {
        Some(WorkflowFailure::NotRepresentableCount)
    } else if !strings_equal(tags.not_representable[0].as_str(), WHITE_POINT_FIELD) {
        Some(WorkflowFailure::NotRepresentableField)
    } else if count_code(&verification.exceptions, TAG_NOT_REPRESENTABLE) != 1 {
        Some(WorkflowFailure::NotRepresentableExceptions)
    } else if verification.comparison.combined.mean_code_diff_millionths <= 0 {
        Some(WorkflowFailure::CodecNotExercised)
    } else if verification.comparison.budgets != contract.budgets {
        Some(WorkflowFailure::BudgetsDiffer)
    } else if verification.comparison.psnr_db_hundredths.is_none() {
        Some(WorkflowFailure::PsnrMissing)
    } else {
        None
    }
}

/// The manifest's name of a depth.
pub open spec fn depth_key(depth: DeliveryEncodeDepth) -> Seq<char> {
    match depth {
        DeliveryEncodeDepth::Eight => "eight_bit"@,
        DeliveryEncodeDepth::Ten => "ten_bit"@,
    }
}

/// What was measured of a term, where there is a signal-to-noise ratio.
pub open spec fn measured_term(comparison: DeliveryComparison, term: int) -> i64 {
    if term == 0 {
        comparison.luma.maximum_code_diff as i64
    } else if term == 1 {
        comparison.luma.p99_code_diff_millionths
    } else if term == 2 {
        comparison.luma.mean_code_diff_millionths
    } else if term == 3 {
        comparison.combined.mean_code_diff_millionths
    } else {
        comparison.psnr_db_hundredths->0 as i64
    }
}

/// What the manifest says of a term of a scenario at a depth.
pub open spec fn term_declared(
    parts: Map<Seq<Seq<char>>, JsonPart>,
    scenario: Seq<char>,
    depth: DeliveryEncodeDepth,
    term: int,
    measured: i64,
) -> Result<(), ManifestFailure> {
    compared(
        integer_at(
            parts,
            seq![
                "budgets"@,
                "delivery"@,
                scenario,
                depth_key(depth),
                CC7_LANE_TERMS@[term]@,
                "measured"@,
            ],
        ),
        measured,
    )
}

/// What the manifest fails to declare of the measured terms, from a term on.
pub open spec fn terms_failure(
    parts: Map<Seq<Seq<char>>, JsonPart>,
    measurement: Cc7DeliveryMeasurement,
    from: int,
) -> Option<WorkflowFailure>
    decreases 5 - from,
{
    if from < 0 || from >= 5 {
        None
    } else {
        match term_declared(
            parts,
            measurement.scenario@,
            measurement.depth,
            from,
            measured_term(measurement.verification.comparison, from),
        ) {
            Ok(_) => terms_failure(parts, measurement, from + 1),
            Err(failure) => Some(WorkflowFailure::Manifest { term: from as usize, failure }),
        }
    }
}

fn terms_fail(manifest: &serde_json::Value, measurement: &Cc7DeliveryMeasurement, psnr: i32) -> (failure:
    Option<WorkflowFailure>)
    requires
        measurement.verification.comparison.psnr_db_hundredths == Some(psnr),
    ensures
        failure == terms_failure(json_parts(*manifest), *measurement, 0),
{
    let comparison = &measurement.verification.comparison;
    let measured: [i64; 5] = [
        comparison.luma.maximum_code_diff as i64,
        comparison.luma.p99_code_diff_millionths,
        comparison.luma.mean_code_diff_millionths,
        comparison.combined.mean_code_diff_millionths,
        psnr as i64,
    ];
    let key = match measurement.depth {
        DeliveryEncodeDepth::Eight => "eight_bit",
        DeliveryEncodeDepth::Ten => "ten_bit",
    };
    let mut term: usize = 0;
    while term < 5
        invariant
            term <= 5,
            comparison == measurement.verification.comparison,
            key@ == depth_key(measurement.depth),
            forall|i: int| 0 <= i < 5 ==> #[trigger] measured@[i] == measured_term(*comparison, i),
            terms_failure(json_parts(*manifest), *measurement, 0) == terms_failure(
                json_parts(*manifest),
                *measurement,
                term as int,
            ),
        decreases 5 - term,
    {
        let path: [&str; 6] = [
            "budgets",
            "delivery",
            measurement.scenario.as_str(),
            key,
            CC7_LANE_TERMS[term],
            "measured",
        ];
        let declared = manifest_integer(manifest, path.as_slice());
        assert(keys_of(path@) =~= seq![
            "budgets"@,
            "delivery"@,
            measurement.scenario@,
            depth_key(measurement.depth),
            CC7_LANE_TERMS@[term as int]@,
            "measured"@,
        ]);
        assert(measured@[term as int] == measured_term(*comparison, term as int));
        match declared_equals(declared, measured[term]) {
            Ok(_) => {},
            Err(failure) => {
                return Some(WorkflowFailure::Manifest { term, failure });
            },
        }
        term += 1;
    }
    None
}

/// What a scenario's delivery fails first: its tags, its exceptions and
/// differences, or what the manifest declares of them.
pub open spec fn workflow_failure(
    measurement: Cc7DeliveryMeasurement,
    output: Seq<char>,
    duration: int,
    contract: LaneContract,
    allowed: Seq<String>,
    parts: Map<Seq<Seq<char>>, JsonPart>,
) -> Option<WorkflowFailure> {
    let probe = scenario_probe_failure(measurement, output, duration, contract);
    let exceptions = scenario_exceptions_failure(measurement.verification, contract, allowed);
    if probe is Some {
        probe
    } else if exceptions is Some {
        exceptions
    } else {
        terms_failure(parts, measurement, 0)
    }
}

/// Demands everything of a scenario's delivery: its tags are right, it samples
/// its document of `duration` frames by the closed form, it passes, fits its
/// budgets, raises nothing but allowed information, and measures what the
/// manifest declares.
pub fn assert_cc7_delivery_lane(
    measurement: &Cc7DeliveryMeasurement,
    output: &str,
    duration: i64,
    contract: &LaneContract,
    allowed: &[String],
    manifest: &serde_json::Value,
) -> (result: Result<(), WorkflowFailure>)
    requires
        samples_countable(duration as int),
    ensures
        match workflow_failure(
            *measurement,
            output@,
            duration as int,
            *contract,
            allowed@,
            json_parts(*manifest),
        ) {
            Some(failure) => result == Err::<(), WorkflowFailure>(failure),
            None => result is Ok,
        },
{
    if let Some(failure) = scenario_probe_fails(measurement, output, duration, contract) {
        return Err(failure);
    }
    if let Some(failure) = scenario_exceptions_fail(&measurement.verification, contract, allowed) {
        return Err(failure);
    }
    match measurement.verification.comparison.psnr_db_hundredths {
        Some(psnr) => match terms_fail(manifest, measurement, psnr) {
            Some(failure) => Err(failure),
            None => Ok(()),
        },
        None => Err(WorkflowFailure::PsnrMissing),
    }
}

/// What one scenario's delivery was written as and measured as.
#[derive(Debug)]
pub struct ScenarioDelivery {
    /// The number of frames of the document.
    pub duration: i64,
    /// The path that the delivery was written to.
    pub output: String,
    pub measurement: Cc7DeliveryMeasurement,
}

/// Why the deliveries of the scenarios do not all verify.
#[derive(Debug, Clone, Copy, PartialEq, Eq, Structural)]
pub enum ScenarioFailure {
    /// The verification sampled other frames.
    FramesDiffer { index: usize },
    Delivery { index: usize, failure: WorkflowFailure },
}

/// Whether a scenario's delivery samples its document and fails nothing.
pub open spec fn scenario_verifies(
    delivery: ScenarioDelivery,
    contract: LaneContract,
    allowed: Seq<String>,
    parts: Map<Seq<Seq<char>>, JsonPart>,
) -> bool {
    &&& document_frames(
        delivery.measurement.verification.comparison.frames@,
        delivery.duration as int,
    )
    &&& workflow_failure(
        delivery.measurement,
        delivery.output@,
        delivery.duration as int,
        contract,
        allowed,
        parts,
    ) is None
}

/// Demands that the delivery of every scenario verifies, in order, up to the
/// first that does not.
pub fn assert_cc7_every_scenario_verifies(
    deliveries: &[ScenarioDelivery],
    contract: &LaneContract,
    allowed: &[String],
    manifest: &serde_json::Value,
) -> (result: Result<(), ScenarioFailure>)
    requires
        forall|i: int|
            0 <= i < deliveries@.len() ==> samples_countable(
                    (#[trigger] deliveries@[i]).duration as int,
                ),
    ensures
        match result {
            Ok(_) => forall|i: int|
                0 <= i < deliveries@.len() ==> scenario_verifies(
                    #[trigger] deliveries@[i],
                    *contract,
                    allowed@,
                    json_parts(*manifest),
                ),
            Err(ScenarioFailure::FramesDiffer { index }) => {
                &&& index < deliveries@.len()
                &&& !document_frames(
                    deliveries@[index as int].measurement.verification.comparison.frames@,
                    deliveries@[index as int].duration as int,
                )
                &&& forall|i: int|
                    0 <= i < index ==> scenario_verifies(
                        #[trigger] deliveries@[i],
                        *contract,
                        allowed@,
                        json_parts(*manifest),
                    )
            },
            Err(ScenarioFailure::Delivery { index, failure }) => {
                &&& index < deliveries@.len()
                &&& document_frames(
                    deliveries@[index as int].measurement.verification.comparison.frames@,
                    deliveries@[index as int].duration as int,
                )
                &&& workflow_failure(
                    deliveries@[index as int].measurement,
                    deliveries@[index as int].output@,
                    deliveries@[index as int].duration as int,
                    *contract,
                    allowed@,
                    json_parts(*manifest),
                ) == Some(failure)
                &&& forall|i: int|
                    0 <= i < index ==> scenario_verifies(
                        #[trigger] deliveries@[i],
                        *contract,
                        allowed@,
                        json_parts(*manifest),
                    )
            },
        },
{
    let mut index: usize = 0;
    while index < deliveries.len()
        invariant
            index <= deliveries.len(),
            forall|i: int|
                0 <= i < deliveries@.len() ==> samples_countable(
                    (#[trigger] deliveries@[i]).duration as int,
                ),
            forall|i: int|
                0 <= i < index ==> scenario_verifies(
                    #[trigger] deliveries@[i],
                    *contract,
                    allowed@,
                    json_parts(*manifest),
                ),
        decreases deliveries.len() - index,
    {
        let delivery = &deliveries[index];
        if !samples_the_document(
            delivery.measurement.verification.comparison.frames.as_slice(),
            delivery.duration,
        ) {
            return Err(ScenarioFailure::FramesDiffer { index });
        }
        match assert_cc7_delivery_lane(
            &delivery.measurement,
            delivery.output.as_str(),
            delivery.duration,
            contract,
            allowed,
            manifest,
        ) {
            Ok(_) => {},
            Err(failure) => {
                return Err(ScenarioFailure::Delivery { index, failure });
            },
        }
        index += 1;
    }
    Ok(())
}

proof fn lemma_faultless(exceptions: Seq<DeliveryException>, allowed: Seq<String>, from: int)
    requires
        0 <= from,
    ensures
        first_fault(exceptions, allowed, from) is None <==> forall|i: int|
            from <= i < exceptions.len() ==> is_allowed(allowed, (#[trigger] exceptions[i]).code@)
                && exceptions[i].severity == QaSeverity::Info,
    decreases exceptions.len() - from,
{
    if from < exceptions.len() {
        lemma_faultless(exceptions, allowed, from + 1);
        assert(exception_fault(exceptions[from], allowed, from as usize) is None <==> is_allowed(
            allowed,
            exceptions[from].code@,
        ) && exceptions[from].severity == QaSeverity::Info);
    }
}

/// Whether the manifest declares what was measured of a term.
pub open spec fn declares_term(
    parts: Map<Seq<Seq<char>>, JsonPart>,
    measurement: Cc7DeliveryMeasurement,
    term: int,
) -> bool {
    integer_at(
        parts,
        seq![
            "budgets"@,
            "delivery"@,
            measurement.scenario@,
            depth_key(measurement.depth),
            CC7_LANE_TERMS@[term]@,
            "measured"@,
        ],
    ) == Some(measured_term(measurement.verification.comparison, term))
}

proof fn lemma_terms_declared(
    parts: Map<Seq<Seq<char>>, JsonPart>,
    measurement: Cc7DeliveryMeasurement,
    from: int,
)
    requires
        0 <= from <= 5,
    ensures
        terms_failure(parts, measurement, from) is None <==> forall|term: int|
            from <= term < 5 ==> #[trigger] declares_term(parts, measurement, term),
    decreases 5 - from,
{
    if from < 5 {
        lemma_terms_declared(parts, measurement, from + 1);
        assert(term_declared(
            parts,
            measurement.scenario@,
            measurement.depth,
            from,
            measured_term(measurement.verification.comparison, from),
        ) is Ok <==> declares_term(parts, measurement, from));
    }
}

/// Whether a scenario's delivery is the one that was asked for, with conforming
/// tags and the samples of a document of `duration` frames.
pub open spec fn is_the_delivery(
    measurement: Cc7DeliveryMeasurement,
    output: Seq<char>,
    duration: int,
    contract: LaneContract,
) -> bool {
    let verification = measurement.verification;
    let probed = verification.probed;
    &&& verification.delivery_bit_depth == measurement.depth
    &&& verification.output_path@ == output
    &&& verification.decoded_pixel_format@ == contract.pixel_format@
    &&& probed.primaries == ColorTag::Bt709
    &&& probed.transfer == ColorTag::Bt709
    &&& probed.matrix == ColorTag::Bt709
    &&& probed.range == ColorRange::Limited
    &&& probed.bit_depth == tagged_depth(measurement.depth)
    &&& verification.tags.conforming
    &&& verification.tags.mismatches@.len() == 0
    &&& verification.tags.not_representable@.len() == 1
    &&& verification.tags.not_representable@[0]@ == WHITE_POINT_FIELD@
    &&& document_frames(verification.comparison.frames@, duration)
}

/// A scenario's delivery passes exactly where it is the one that was asked for,
/// it passes its verification within the budgets, every exception is allowed
/// information and exactly one of them is on the field without a syntax, the
/// codec was exercised, and the manifest declares all five measured terms.
pub proof fn lemma_scenario_passes_exactly(
    measurement: Cc7DeliveryMeasurement,
    output: Seq<char>,
    duration: int,
    contract: LaneContract,
    allowed: Seq<String>,
    parts: Map<Seq<Seq<char>>, JsonPart>,
)
    ensures
        workflow_failure(measurement, output, duration, contract, allowed, parts) is None <==> {
            let verification = measurement.verification;
            let comparison = verification.comparison;
            let exceptions = verification.exceptions@;
            &&& is_the_delivery(measurement, output, duration, contract)
            &&& verification.technical_pass
            &&& comparison.within_budgets
            &&& forall|i: int|
                0 <= i < exceptions.len() ==> is_allowed(
                    allowed,
                    (#[trigger] exceptions[i]).code@,
                ) && exceptions[i].severity == QaSeverity::Info
            &&& code_count(exceptions, TAG_NOT_REPRESENTABLE@, exceptions.len()) == 1
            &&& comparison.combined.mean_code_diff_millionths > 0
            &&& comparison.budgets == contract.budgets
            &&& comparison.psnr_db_hundredths is Some
            &&& forall|term: int|
                0 <= term < 5 ==> #[trigger] declares_term(parts, measurement, term)
        },
{
    lemma_faultless(measurement.verification.exceptions@, allowed, 0);
    lemma_terms_declared(parts, measurement, 0);
}

/// A scenario's delivery that passes raises nothing but information.
pub proof fn lemma_passing_scenario_raises_only_information(
    measurement: Cc7DeliveryMeasurement,
    output: Seq<char>,
    duration: int,
    contract: LaneContract,
    allowed: Seq<String>,
    parts: Map<Seq<Seq<char>>, JsonPart>,
    i: int,
)
    requires
        workflow_failure(measurement, output, duration, contract, allowed, parts) is None,
        0 <= i < measurement.verification.exceptions@.len(),
    ensures
        measurement.verification.exceptions@[i].severity == QaSeverity::Info,
        is_allowed(allowed, measurement.verification.exceptions@[i].code@),
        measurement.verification.technical_pass,
        measurement.verification.comparison.within_budgets,
{
    lemma_faultless(measurement.verification.exceptions@, allowed, 0);
}

/// The manifest declares the measured terms exactly where under the scenario and
/// the depth each of the five names holds its own measurement.
pub proof fn lemma_terms_in_words(
    parts: Map<Seq<Seq<char>>, JsonPart>,
    measurement: Cc7DeliveryMeasurement,
    ratio: i32,
    key: Seq<char>,
)
    requires
        measurement.verification.comparison.psnr_db_hundredths == Some(ratio),
        measurement.depth is Eight ==> key == "eight_bit"@,
        measurement.depth is Ten ==> key == "ten_bit"@,
    ensures
        terms_failure(parts, measurement, 0) is None <==> {
            let comparison = measurement.verification.comparison;
            let scenario = measurement.scenario@;
            &&& integer_at(
                parts,
                seq![
                    "budgets"@,
                    "delivery"@,
                    scenario,
                    key,
                    "luma_max_code"@,
                    "measured"@,
                ],
            ) == Some(comparison.luma.maximum_code_diff as i64)
            &&& integer_at(
                parts,
                seq![
                    "budgets"@,
                    "delivery"@,
                    scenario,
                    key,
                    "luma_p99_code_millionths"@,
                    "measured"@,
                ],
            ) == Some(comparison.luma.p99_code_diff_millionths)
            &&& integer_at(
                parts,
                seq![
                    "budgets"@,
                    "delivery"@,
                    scenario,
                    key,
                    "luma_mean_code_millionths"@,
                    "measured"@,
                ],
            ) == Some(comparison.luma.mean_code_diff_millionths)
            &&& integer_at(
                parts,
                seq![
                    "budgets"@,
                    "delivery"@,
                    scenario,
                    key,
                    "rgb_mean_code_millionths"@,
                    "measured"@,
                ],
            ) == Some(comparison.combined.mean_code_diff_millionths)
            &&& integer_at(
                parts,
                seq![
                    "budgets"@,
                    "delivery"@,
                    scenario,
                    key,
                    "psnr_db_hundredths"@,
                    "measured"@,
                ],
            ) == Some(ratio as i64)
        },
{
    lemma_terms_declared(parts, measurement, 0);
    assert(CC7_LANE_TERMS@[0]@ == "luma_max_code"@);
    assert(CC7_LANE_TERMS@[1]@ == "luma_p99_code_millionths"@);
    assert(CC7_LANE_TERMS@[2]@ == "luma_mean_code_millionths"@);
    assert(CC7_LANE_TERMS@[3]@ == "rgb_mean_code_millionths"@);
    assert(CC7_LANE_TERMS@[4]@ == "psnr_db_hundredths"@);
    let d0 = declares_term(parts, measurement, 0);
    let d1 = declares_term(parts, measurement, 1);
    let d2 = declares_term(parts, measurement, 2);
    let d3 = declares_term(parts, measurement, 3);
    let d4 = declares_term(parts, measurement, 4);
    assert((d0 && d1 && d2 && d3 && d4) <==> terms_failure(parts, measurement, 0) is None);
}

/// The tags and the samples of a scenario's delivery pass exactly where each is
/// the one that is asked for, by the words and numbers of a delivery.
pub proof fn lemma_scenario_probe_in_words(
    measurement: Cc7DeliveryMeasurement,
    output: Seq<char>,
    duration: int,
    contract: LaneContract,
)
    requires
        duration >= 1,
    ensures
        scenario_probe_failure(measurement, output, duration, contract) is None <==> {
            let verification = measurement.verification;
            let probed = verification.probed;
            let frames = verification.comparison.frames@;
            &&& verification.delivery_bit_depth == measurement.depth
            &&& verification.output_path@ == output
            &&& verification.decoded_pixel_format@ == contract.pixel_format@
            &&& probed.primaries is Bt709
            &&& probed.transfer is Bt709
            &&& probed.matrix is Bt709
            &&& probed.range is Limited
            &&& measurement.depth is Eight ==> probed.bit_depth is Eight
            &&& measurement.depth is Ten ==> probed.bit_depth is Ten
            &&& verification.tags.conforming
            &&& verification.tags.mismatches@.len() == 0
            &&& frames.len() == 5
            &&& forall|i: int|
                0 <= i < 5 ==> 4 * #[trigger] frames[i] <= (duration - 1) * i < 4 * frames[i] + 4
            &&& verification.technical_pass
            &&& verification.comparison.within_budgets
        },
{
    let frames = measurement.verification.comparison.frames@;
    assert forall|i: int| 0 <= i < 5 implies (frames[i] == sample_frame(duration, i) <==> 4
        * #[trigger] frames[i] <= (duration - 1) * i < 4 * frames[i] + 4) by {
        crate::delivery_source::lemma_sample_by_share(duration, i);
    }
}

/// Whether the exception at a place is the only one among the first `count` with
/// a code.
pub open spec fn alone_with(
    exceptions: Seq<DeliveryException>,
    code: Seq<char>,
    count: int,
    at: int,
) -> bool {
    &&& 0 <= at < count
    &&& exceptions[at].code@ == code
    &&& forall|i: int| 0 <= i < count && i != at ==> (#[trigger] exceptions[i]).code@ != code
}

proof fn lemma_code_count(exceptions: Seq<DeliveryException>, code: Seq<char>, count: nat)
    ensures
        code_count(exceptions, code, count) == 0 <==> forall|i: int|
            0 <= i < count ==> (#[trigger] exceptions[i]).code@ != code,
        code_count(exceptions, code, count) == 1 <==> exists|at: int|
            #[trigger] alone_with(exceptions, code, count as int, at),
    decreases count,
{
    if count > 0 {
        let before = (count - 1) as nat;
        let last = count - 1;
        lemma_code_count(exceptions, code, before);
        if exceptions[last].code@ == code {
            if code_count(exceptions, code, before) == 0 {
                assert(alone_with(exceptions, code, count as int, last));
            }
            if exists|at: int| #[trigger] alone_with(exceptions, code, count as int, at) {
                let at = choose|at: int| #[trigger] alone_with(exceptions, code, count as int, at);
                assert(at == last);
            }
        } else {
            if exists|at: int| #[trigger] alone_with(exceptions, code, before as int, at) {
                let at = choose|at: int| #[trigger] alone_with(exceptions, code, before as int, at);
                assert(alone_with(exceptions, code, count as int, at));
            }
            if exists|at: int| #[trigger] alone_with(exceptions, code, count as int, at) {
                let at = choose|at: int| #[trigger] alone_with(exceptions, code, count as int, at);
                assert(alone_with(exceptions, code, before as int, at));
            }
        }
    }
}

/// The exceptions and the differences of a scenario's delivery pass exactly
/// where every exception is information under an allowed code, the white point
/// is the one field without a syntax, exactly one exception says so, the codec
/// was exercised, and the budgets and the ratio are there.
pub proof fn lemma_scenario_exceptions_in_words(
    verification: DeliveryVerification,
    contract: LaneContract,
    allowed: Seq<String>,
)
    ensures
        scenario_exceptions_failure(verification, contract, allowed) is None <==> {
            let exceptions = verification.exceptions@;
            &&& forall|i: int|
                0 <= i < exceptions.len() ==> (#[trigger] exceptions[i]).severity is Info
                    && is_allowed(allowed, exceptions[i].code@)
            &&& verification.tags.not_representable@.len() == 1
            &&& verification.tags.not_representable@[0]@ == "white_point"@
            &&& exists|at: int|
                #[trigger] alone_with(
                    exceptions,
                    "delivery_tag_not_representable"@,
                    exceptions.len() as int,
                    at,
                )
            &&& verification.comparison.combined.mean_code_diff_millionths > 0
            &&& verification.comparison.budgets == contract.budgets
            &&& verification.comparison.psnr_db_hundredths is Some
        },
{
    let exceptions = verification.exceptions@;
    lemma_faultless(exceptions, allowed, 0);
    lemma_code_count(exceptions, TAG_NOT_REPRESENTABLE@, exceptions.len());
}

proof fn lemma_fault_is_true(exceptions: Seq<DeliveryException>, allowed: Seq<String>, from: int)
    requires
        0 <= from,
        exceptions.len() <= usize::MAX,
    ensures
        first_fault(exceptions, allowed, from) matches Some(failure) ==> match failure {
            WorkflowFailure::CodeNotAllowed { index } => from <= index < exceptions.len()
                && !is_allowed(allowed, exceptions[index as int].code@),
            WorkflowFailure::NotInfo { index } => from <= index < exceptions.len() && !(
            exceptions[index as int].severity is Info),
            _ => false,
        },
    decreases exceptions.len() - from,
{
    if from < exceptions.len() {
        lemma_fault_is_true(exceptions, allowed, from + 1);
    }
}

/// The failure that is given is true of the delivery.
pub proof fn lemma_workflow_failure_is_true(
    measurement: Cc7DeliveryMeasurement,
    output: Seq<char>,
    duration: int,
    contract: LaneContract,
    allowed: Seq<String>,
    parts: Map<Seq<Seq<char>>, JsonPart>,
)
    requires
        workflow_failure(measurement, output, duration, contract, allowed, parts) is Some,
        measurement.verification.exceptions@.len() <= usize::MAX,
    ensures
        ({
            let failure = workflow_failure(
                measurement,
                output,
                duration,
                contract,
                allowed,
                parts,
            )->0;
            let verification = measurement.verification;
            let probed = verification.probed;
            let comparison = verification.comparison;
            &&& failure is DepthDiffers <==> verification.delivery_bit_depth != measurement.depth
            &&& failure is OutputDiffers ==> verification.output_path@ != output
            &&& failure is PixelFormatDiffers ==> verification.decoded_pixel_format@
                != contract.pixel_format@
            &&& failure is PrimariesDiffer ==> !(probed.primaries is Bt709)
            &&& failure is TransferDiffers ==> !(probed.transfer is Bt709)
            &&& failure is MatrixDiffers ==> !(probed.matrix is Bt709)
            &&& failure is RangeDiffers ==> !(probed.range is Limited)
            &&& failure is TagsDoNotConform ==> !verification.tags.conforming
            &&& failure is TagsMismatch ==> verification.tags.mismatches@.len() > 0
            &&& failure is SampleCountDiffers ==> comparison.frames@.len() != 5
            &&& failure is FramesDiffer ==> comparison.frames@.len() == 5
            &&& failure is TechnicalFailure ==> !verification.technical_pass
            &&& failure is NotWithinBudgets ==> !comparison.within_budgets
            &&& failure is NotRepresentableCount ==> verification.tags.not_representable@.len() != 1
            &&& failure is CodecNotExercised ==> comparison.combined.mean_code_diff_millionths <= 0
            &&& failure is BudgetsDiffer ==> comparison.budgets != contract.budgets
            &&& failure is PsnrMissing ==> comparison.psnr_db_hundredths is None
            &&& failure matches WorkflowFailure::CodeNotAllowed { index } ==> index
                < verification.exceptions@.len() && !is_allowed(
                allowed,
                verification.exceptions@[index as int].code@,
            )
            &&& failure matches WorkflowFailure::NotInfo { index } ==> index
                < verification.exceptions@.len() && !(
            verification.exceptions@[index as int].severity is Info)
        }),
{
    lemma_fault_is_true(measurement.verification.exceptions@, allowed, 0);
    lemma_terms_fail_as_terms(parts, measurement, 0);
}

proof fn lemma_terms_fail_as_terms(
    parts: Map<Seq<Seq<char>>, JsonPart>,
    measurement: Cc7DeliveryMeasurement,
    from: int,
)
    requires
        0 <= from,
    ensures
        terms_failure(parts, measurement, from) matches Some(failure) ==> failure is Manifest,
    decreases 5 - from,
{
    if from < 5 {
        lemma_terms_fail_as_terms(parts, measurement, from + 1);
    }
}

/// The sampled frames are those of a document exactly where there are five, each
/// at its quarter of the way to the last frame, rounded down.
pub proof fn lemma_document_frames_in_numbers(frames: Seq<i64>, duration: int)
    requires
        duration >= 1,
    ensures
        document_frames(frames, duration) <==> frames.len() == 5 && forall|i: int|
            0 <= i < 5 ==> 4 * #[trigger] frames[i] <= (duration - 1) * i < 4 * frames[i] + 4,
{
    assert forall|i: int| 0 <= i < 5 implies (frames[i] == sample_frame(duration, i) <==> 4
        * #[trigger] frames[i] <= (duration - 1) * i < 4 * frames[i] + 4) by {
        crate::delivery_source::lemma_sample_by_share(duration, i);
    }
}

/// Nothing is allowed by an empty list; a code more allows itself and nothing
/// else.
pub proof fn lemma_allowed_one_by_one(allowed: Seq<String>, more: String, code: Seq<char>)
    ensures
        !is_allowed(Seq::empty(), code),
        is_allowed(allowed.push(more), code) <==> is_allowed(allowed, code) || more@ == code,
{
    let longer = allowed.push(more);
    if is_allowed(allowed, code) {
        let i = choose|i: int| 0 <= i < allowed.len() && (#[trigger] allowed[i])@ == code;
        assert(longer[i]@ == code);
    }
    if more@ == code {
        assert(longer[allowed.len() as int]@ == code);
    }
    if is_allowed(longer, code) {
        let i = choose|i: int| 0 <= i < longer.len() && (#[trigger] longer[i])@ == code;
        if i < allowed.len() {
            assert(allowed[i]@ == code);
        }
    }
}

} // verus!
