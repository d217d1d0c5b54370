//! What a lane of the encoded round trip must meet.

use vstd::prelude::*;

use crate::delivery::{
    assert_delivery_budgets_are_distinct, depth_bits, distinct, is_double, margin, spec_margin,
    tagged_depth, ColorProvenance, ColorRange, ColorTag, ColorWhitePoint, DeliveryComparison,
    DeliveryEncodeDepth, DeliveryException, DeliveryVerification, LaneContract, LaneMeasurement,
    Margin, PlaneLegalExcursion, QaSeverity, YCbCrLegalSource,
};
use crate::delivery_source::{
    CC6_DELIVERY_SOURCE_FRAMES, CC6_DELIVERY_SOURCE_GOP, CC6_DELIVERY_SOURCE_SAMPLES,
    CC6_DELIVERY_SOURCE_SIZE,
};
use crate::text::{chars_of, contains, has_pattern, strings_equal};

verus! {

/// A plane of a decoded delivery.
#[derive(Debug, Clone, Copy, PartialEq, Eq, Structural)]
pub enum Plane {
    Luma,
    Cb,
    Cr,
}

/// A budget that has a margin.
#[derive(Debug, Clone, Copy, PartialEq, Eq, Structural)]
pub enum LaneTerm {
    LumaMax,
    LumaP99,
    LumaMean,
    RgbMean,
}

/// Why a lane does not meet what it must.
#[derive(Debug, Clone, Copy, PartialEq, Eq, Structural)]
pub enum LaneFailure {
    DepthDiffers,
    OutputDiffers,
    PixelFormatDiffers,
    PrimariesDiffer,
    TransferDiffers,
    MatrixDiffers,
    RangeDiffers,
    /// The stream carries the other depth.
    TaggedDepthDiffers,
    ProvenanceDiffers,
    ConfidenceDiffers,
    TagSourceDiffers,
    TagsDoNotConform,
    TagsMismatch,
    /// Not exactly one field lacks a syntax.
    NotRepresentableCount,
    /// The field that lacks a syntax is not the white point.
    NotRepresentableField,
    WhitePointKnown,
    FramesDiffer,
    ExtremesNoteDiffers,
    ExtremesNoteIncomplete,
    /// The extreme of the colour channels fits into the luma budget.
    ExtremesInsideBudget,
    /// An extreme of the colour channels raised an exception.
    ExtremesRaised,
    PlanesNotNative,
    PlanesDepthDiffers,
    MinimumOutsideBox { plane: Plane },
    MaximumOutsideBox { plane: Plane },
    BelowRateDiffers { plane: Plane },
    AboveRateDiffers { plane: Plane },
    ExcursionNotReported { plane: Plane },
    ExcursionSeverity { plane: Plane },
    ExcursionWithoutObserved { plane: Plane },
    ExcursionWithoutAllowed { plane: Plane },
    ExcursionReported { plane: Plane },
    EveryPlaneOverThreshold,
    /// The colour channels do not differ at all.
    CodecNotExercised,
    /// The luma plane does not differ at all.
    LumaNotExercised,
    BudgetsDiffer,
    PsnrMissing,
    MarginTooSmall { term: LaneTerm },
    PsnrUnderFloor,
    NotWithinBudgets,
    OverBudget { term: LaneTerm },
    TechnicalFailure,
    ErrorRaised,
    BudgetsNotDistinct { index: usize },
}

/// Where the tags of a written delivery are read.
pub const PROBED_TAG_SOURCE: &'static str = "probed_output_file";

/// The field that the delivery format has no syntax for.
pub const WHITE_POINT_FIELD: &'static str = "white_point";

/// What the note on the extremes of the colour channels must name.
pub const CHROMA_SUBSAMPLING: &'static str = "4:2:0";

/// The code of the exception on a plane outside the legal box.
pub const DECODED_RANGE_EXCURSION: &'static str = "decoded_range_excursion";

/// The maximum over the colour channels, which is reported and never gated.
pub const UNGATED_MAXIMUM: &'static str = "combined.maximum_code_diff";

/// The ninety-ninth percentile over the colour channels, which is reported and
/// never gated.
pub const UNGATED_P99: &'static str = "combined.p99_code_diff_millionths";

/// The field of an exception on a plane.
pub open spec fn plane_field(plane: Plane) -> Seq<char> {
    match plane {
        Plane::Luma => "decoded_ycbcr.luma"@,
        Plane::Cb => "decoded_ycbcr.cb"@,
        Plane::Cr => "decoded_ycbcr.cr"@,
    }
}

/// Whether an exception names a field.
pub open spec fn names_field(exception: DeliveryException, field: Seq<char>) -> bool {
    match exception.field {
        Some(named) => named@ == field,
        None => false,
    }
}

fn field_is(exception: &DeliveryException, field: &str) -> (named: bool)
    ensures
        named == names_field(*exception, field@),
{
    match &exception.field {
        Some(named) => strings_equal(named.as_str(), field),
        None => false,
    }
}

/// The first of two failures.
pub open spec fn first_of(a: Option<LaneFailure>, b: Option<LaneFailure>) -> Option<LaneFailure> {
    if a is Some {
        a
    } else {
        b
    }
}

/// What the tags of the written file fail.
pub open spec fn probe_failure(lane: LaneMeasurement, contract: LaneContract) -> Option<
    LaneFailure,
> {
    let verification = lane.verification;
    let probed = verification.probed;
    let tags = verification.tags;
    if verification.delivery_bit_depth != lane.depth {
        Some(LaneFailure::DepthDiffers)
    } else if verification.output_path@ != lane.output@ {
        Some(LaneFailure::OutputDiffers)
    } else if verification.decoded_pixel_format@ != contract.pixel_format@ {
        Some(LaneFailure::PixelFormatDiffers)
    } else if probed.primaries != ColorTag::Bt709 {
        Some(LaneFailure::PrimariesDiffer)
    } else if probed.transfer != ColorTag::Bt709 {
        Some(LaneFailure::TransferDiffers)
    } else if probed.matrix != ColorTag::Bt709 {
        Some(LaneFailure::MatrixDiffers)
    } else if probed.range != ColorRange::Limited {
        Some(LaneFailure::RangeDiffers)
    } else if probed.bit_depth != tagged_depth(lane.depth) {
        Some(LaneFailure::TaggedDepthDiffers)
    } else if probed.provenance != ColorProvenance::StreamMetadata {
        Some(LaneFailure::ProvenanceDiffers)
    } else if probed.confidence_basis_points != 10_000 {
        Some(LaneFailure::ConfidenceDiffers)
    } else if tags.tag_source@ != PROBED_TAG_SOURCE@ {
        Some(LaneFailure::TagSourceDiffers)
    } else if !tags.conforming {
        Some(LaneFailure::TagsDoNotConform)
    } else if tags.mismatches@.len() != 0 {
        Some(LaneFailure::TagsMismatch)
    } else if tags.not_representable@.len() != 1 {
        Some(LaneFailure::NotRepresentableCount)
    } else if tags.not_representable@[0]@ != WHITE_POINT_FIELD@ {
        Some(LaneFailure::NotRepresentableField)
    } else if probed.white_point != ColorWhitePoint::Unknown {
        Some(LaneFailure::WhitePointKnown)
    } else {
        None
    }
}

/// What the tags of the written file fail.
pub fn probe_fails(lane: &LaneMeasurement, contract: &LaneContract) -> (failure: Option<
    LaneFailure,
>)
    ensures
        failure == probe_failure(*lane, *contract),
{
    let verification = &lane.verification;
    let probed = &verification.probed;
    let tags = &verification.tags;
    if verification.delivery_bit_depth != lane.depth {
        Some(LaneFailure::DepthDiffers)
    } else if !strings_equal(verification.output_path.as_str(), lane.output.as_str()) {
        Some(LaneFailure::OutputDiffers)
    } else if !strings_equal(
        verification.decoded_pixel_format.as_str(),
        contract.pixel_format.as_str(),
    ) {
        Some(LaneFailure::PixelFormatDiffers)
    } else if probed.primaries != ColorTag::Bt709 {
        Some(LaneFailure::PrimariesDiffer)
    } else if probed.transfer != ColorTag::Bt709 {
        Some(LaneFailure::TransferDiffers)
    } else if probed.matrix != ColorTag::Bt709 {
        Some(LaneFailure::MatrixDiffers)
    } else if probed.range != ColorRange::Limited {
        Some(LaneFailure::RangeDiffers)
    } else if probed.bit_depth != lane.depth.tagged() {
        Some(LaneFailure::TaggedDepthDiffers)
    } else if probed.provenance != ColorProvenance::StreamMetadata {
        Some(LaneFailure::ProvenanceDiffers)
    } else if probed.confidence_basis_points != 10_000 {
        Some(LaneFailure::ConfidenceDiffers)
    } else if !strings_equal(tags.tag_source.as_str(), PROBED_TAG_SOURCE) {
        Some(LaneFailure::TagSourceDiffers)
    } else if !tags.conforming {
        Some(LaneFailure::TagsDoNotConform)
    } else if tags.mismatches.len() != 0 {
        Some(LaneFailure::TagsMismatch)
    } else if tags.not_representable.len() != 1 {
        Some(LaneFailure::NotRepresentableCount)
    } else if !strings_equal(tags.not_representable[0].as_str(), WHITE_POINT_FIELD) {
        Some(LaneFailure::NotRepresentableField)
    } else if probed.white_point != ColorWhitePoint::Unknown {
        Some(LaneFailure::WhitePointKnown)
    } else {
        None
    }
}

/// Whether the sampled frames are those of the delivery source.
pub open spec fn source_frames(frames: Seq<i64>) -> bool {
    &&& frames.len() == 5
    &&& forall|i: int| 0 <= i < 5 ==> #[trigger] frames[i] == CC6_DELIVERY_SOURCE_SAMPLES@[i]
}

fn frames_are_the_sources(frames: &Vec<i64>) -> (equal: bool)
    ensures
        equal == source_frames(frames@),
{
    if frames.len() != 5 {
        return false;
    }
    let mut i: usize = 0;
    while i < 5
        invariant
            i <= 5,
            frames@.len() == 5,
            forall|j: int| 0 <= j < i ==> #[trigger] frames@[j] == CC6_DELIVERY_SOURCE_SAMPLES@[j],
        decreases 5 - i,
    {
        if frames[i] as i128 != CC6_DELIVERY_SOURCE_SAMPLES[i] as i128 {
            assert(frames@[i as int] != CC6_DELIVERY_SOURCE_SAMPLES@[i as int]);
            return false;
        }
        i += 1;
    }
    true
}

/// Whether some exception names a field.
pub open spec fn some_names(exceptions: Seq<DeliveryException>, field: Seq<char>) -> bool {
    exists|i: int| 0 <= i < exceptions.len() && names_field(#[trigger] exceptions[i], field)
}

fn any_names(exceptions: &Vec<DeliveryException>, field: &str) -> (found: bool)
    ensures
        found == some_names(exceptions@, field@),
{
    let mut i: usize = 0;
    while i < exceptions.len()
        invariant
            i <= exceptions.len(),
            forall|j: int| 0 <= j < i ==> !names_field(#[trigger] exceptions@[j], field@),
        decreases exceptions.len() - i,
    {
        if field_is(&exceptions[i], field) {
            assert(names_field(exceptions@[i as int], field@));
            return true;
        }
        i += 1;
    }
    false
}

/// What the sampling and the reported extremes fail.
pub open spec fn extremes_failure(
    verification: DeliveryVerification,
    contract: LaneContract,
) -> Option<LaneFailure> {
    let comparison = verification.comparison;
    if !source_frames(comparison.frames@) {
        Some(LaneFailure::FramesDiffer)
    } else if comparison.rgb_extremes_note@ != contract.rgb_extremes_note@ {
        Some(LaneFailure::ExtremesNoteDiffers)
    } else if !contains(comparison.rgb_extremes_note@, CHROMA_SUBSAMPLING@) {
        Some(LaneFailure::ExtremesNoteIncomplete)
    } else if comparison.combined.maximum_code_diff <= comparison.budgets.luma_max_code {
        Some(LaneFailure::ExtremesInsideBudget)
    } else if some_names(verification.exceptions@, UNGATED_MAXIMUM@) || some_names(
        verification.exceptions@,
        UNGATED_P99@,
    ) {
        Some(LaneFailure::ExtremesRaised)
    } else {
        None
    }
}

/// What the sampling and the reported extremes fail.
pub fn extremes_fail(verification: &DeliveryVerification, contract: &LaneContract) -> (failure:
    Option<LaneFailure>)
    ensures
        failure == extremes_failure(*verification, *contract),
{
    let comparison = &verification.comparison;
    if !frames_are_the_sources(&comparison.frames) {
        Some(LaneFailure::FramesDiffer)
    } else if !strings_equal(
        comparison.rgb_extremes_note.as_str(),
        contract.rgb_extremes_note.as_str(),
    ) {
        Some(LaneFailure::ExtremesNoteDiffers)
    } else if !has_pattern(
        chars_of(comparison.rgb_extremes_note.as_str()).as_slice(),
        chars_of(CHROMA_SUBSAMPLING).as_slice(),
    ) {
        Some(LaneFailure::ExtremesNoteIncomplete)
    } else if comparison.combined.maximum_code_diff <= comparison.budgets.luma_max_code {
        Some(LaneFailure::ExtremesInsideBudget)
    } else if any_names(&verification.exceptions, UNGATED_MAXIMUM) || any_names(
        &verification.exceptions,
        UNGATED_P99,
    ) {
        Some(LaneFailure::ExtremesRaised)
    } else {
        None
    }
}

/// Whether an exception is that on a plane outside the legal box.
pub open spec fn is_excursion(exception: DeliveryException, plane: Plane) -> bool {
    exception.code@ == DECODED_RANGE_EXCURSION@ && names_field(exception, plane_field(plane))
}

/// The first exception, at or behind a place, on a plane outside the legal box.
pub open spec fn first_excursion(
    exceptions: Seq<DeliveryException>,
    plane: Plane,
    from: int,
) -> Option<int>
    decreases exceptions.len() - from,
{
    if from < 0 || from >= exceptions.len() {
        None
    } else if is_excursion(exceptions[from], plane) {
        Some(from)
    } else {
        first_excursion(exceptions, plane, from + 1)
    }
}

fn find_excursion(exceptions: &Vec<DeliveryException>, plane: Plane) -> (found: Option<usize>)
    ensures
        match found {
            Some(at) => first_excursion(exceptions@, plane, 0) == Some(at as int) && at
                < exceptions@.len(),
            None => first_excursion(exceptions@, plane, 0) is None,
        },
{
    let field = match plane {
        Plane::Luma => "decoded_ycbcr.luma",
        Plane::Cb => "decoded_ycbcr.cb",
        Plane::Cr => "decoded_ycbcr.cr",
    };
    let mut i: usize = 0;
    while i < exceptions.len()
        invariant
            i <= exceptions.len(),
            field@ == plane_field(plane),
            first_excursion(exceptions@, plane, 0) == first_excursion(exceptions@, plane, i as int),
        decreases exceptions.len() - i,
    {
        let exception = &exceptions[i];
        if strings_equal(exception.code.as_str(), DECODED_RANGE_EXCURSION) && field_is(
            exception,
            field,
        ) {
            return Some(i);
        }
        i += 1;
    }
    None
}

/// A count times ten thousand, or the largest number where it does not fit.
pub open spec fn saturated(count: u64) -> int {
    if count * 10_000 <= u64::MAX {
        count * 10_000
    } else {
        u64::MAX as int
    }
}

fn saturated_basis(count: u64) -> (product: u64)
    ensures
        product == saturated(count),
{
    if count <= u64::MAX / 10_000 {
        count * 10_000
    } else {
        u64::MAX
    }
}

/// The share of a plane's samples outside the legal box, on either side, in
/// basis points.
pub open spec fn excursion_basis_points(excursion: PlaneLegalExcursion, samples: int) -> int {
    (excursion.below_count + excursion.above_count) * 10_000 / samples
}

/// Whether more of a plane lies outside the legal box than goes unreported.
pub open spec fn over_threshold(
    excursion: PlaneLegalExcursion,
    samples: int,
    contract: LaneContract,
) -> bool {
    excursion_basis_points(excursion, samples) > contract.range_exception_basis_points
}

/// What the report on a plane outside the legal box fails.
pub open spec fn report_failure(
    plane: Plane,
    over: bool,
    exceptions: Seq<DeliveryException>,
) -> Option<LaneFailure> {
    match first_excursion(exceptions, plane, 0) {
        None => if over {
            Some(LaneFailure::ExcursionNotReported { plane })
        } else {
            None
        },
        Some(at) => if !over {
            Some(LaneFailure::ExcursionReported { plane })
        } else if exceptions[at].severity != QaSeverity::Warning {
            Some(LaneFailure::ExcursionSeverity { plane })
        } else if exceptions[at].observed is None {
            Some(LaneFailure::ExcursionWithoutObserved { plane })
        } else if exceptions[at].allowed is None {
            Some(LaneFailure::ExcursionWithoutAllowed { plane })
        } else {
            None
        },
    }
}

/// The highest legal code of a plane at eight bits.
pub open spec fn legal_high(plane: Plane) -> int {
    match plane {
        Plane::Luma => 235,
        _ => 240,
    }
}

/// How many samples of a plane were taken: every pixel of five frames for luma,
/// and a quarter of them for a colour difference.
pub open spec fn plane_samples(plane: Plane) -> int {
    match plane {
        Plane::Luma => CC6_DELIVERY_SOURCE_SIZE.0 * CC6_DELIVERY_SOURCE_SIZE.1 * 5,
        _ => CC6_DELIVERY_SOURCE_SIZE.0 * CC6_DELIVERY_SOURCE_SIZE.1 * 5 / 4,
    }
}

/// What a decoded plane fails.  `scale` is the number of codes of the lane for
/// one at eight bits.
pub open spec fn plane_failure(
    plane: Plane,
    excursion: PlaneLegalExcursion,
    scale: int,
    exceptions: Seq<DeliveryException>,
    contract: LaneContract,
) -> Option<LaneFailure> {
    let tolerance = contract.ebu_tolerance_codes * scale;
    if excursion.minimum_code_hundredths < (16 * scale - tolerance) * 100 {
        Some(LaneFailure::MinimumOutsideBox { plane })
    } else if excursion.maximum_code_hundredths > (legal_high(plane) * scale + tolerance) * 100 {
        Some(LaneFailure::MaximumOutsideBox { plane })
    } else if excursion.below_basis_points != saturated(excursion.below_count) / plane_samples(
        plane,
    ) {
        Some(LaneFailure::BelowRateDiffers { plane })
    } else if excursion.above_basis_points != saturated(excursion.above_count) / plane_samples(
        plane,
    ) {
        Some(LaneFailure::AboveRateDiffers { plane })
    } else {
        report_failure(
            plane,
            over_threshold(excursion, plane_samples(plane), contract),
            exceptions,
        )
    }
}

/// Whether a plane stays below the reported share, or what it fails.
fn plane_fails(
    plane: Plane,
    excursion: &PlaneLegalExcursion,
    scale: i64,
    exceptions: &Vec<DeliveryException>,
    contract: &LaneContract,
) -> (result: Result<bool, LaneFailure>)
    requires
        scale == 1 || scale == 4,
    ensures
        match result {
            Ok(over) => {
                &&& plane_failure(plane, *excursion, scale as int, exceptions@, *contract) is None
                &&& over == over_threshold(*excursion, plane_samples(plane), *contract)
            },
            Err(failure) => plane_failure(plane, *excursion, scale as int, exceptions@, *contract)
                == Some(failure),
        },
{
    let tolerance: i64 = contract.ebu_tolerance_codes as i64 * scale;
    assert(tolerance == contract.ebu_tolerance_codes * scale);
    assert(0 <= tolerance <= 4 * u32::MAX) by (nonlinear_arith)
        requires
            tolerance == contract.ebu_tolerance_codes * scale,
            1 <= scale <= 4,
    ;
    let high: i64 = match plane {
        Plane::Luma => 235,
        _ => 240,
    };
    assert(high == legal_high(plane));
    assert(0 <= high * scale <= 960) by (nonlinear_arith)
        requires
            0 <= high <= 240,
            1 <= scale <= 4,
    ;
    let samples: u64 = match plane {
        Plane::Luma => 288_000,
        _ => 72_000,
    };
    assert(samples == plane_samples(plane));
    if excursion.minimum_code_hundredths < (16 * scale - tolerance) * 100 {
        return Err(LaneFailure::MinimumOutsideBox { plane });
    }
    if excursion.maximum_code_hundredths > (high * scale + tolerance) * 100 {
        return Err(LaneFailure::MaximumOutsideBox { plane });
    }
    if excursion.below_basis_points as u64 != saturated_basis(excursion.below_count) / samples {
        return Err(LaneFailure::BelowRateDiffers { plane });
    }
    if excursion.above_basis_points as u64 != saturated_basis(excursion.above_count) / samples {
        return Err(LaneFailure::AboveRateDiffers { plane });
    }
    let combined: u128 = excursion.below_count as u128 + excursion.above_count as u128;
    let over: bool = combined * 10_000 / samples as u128
        > contract.range_exception_basis_points as u128;
    match find_excursion(exceptions, plane) {
        None => if over {
            Err(LaneFailure::ExcursionNotReported { plane })
        } else {
            Ok(over)
        },
        Some(at) => if !over {
            Err(LaneFailure::ExcursionReported { plane })
        } else if exceptions[at].severity != QaSeverity::Warning {
            Err(LaneFailure::ExcursionSeverity { plane })
        } else if exceptions[at].observed.is_none() {
            Err(LaneFailure::ExcursionWithoutObserved { plane })
        } else if exceptions[at].allowed.is_none() {
            Err(LaneFailure::ExcursionWithoutAllowed { plane })
        } else {
            Ok(over)
        },
    }
}

/// The number of codes of a lane for one at eight bits.
pub open spec fn depth_scale(depth: DeliveryEncodeDepth) -> int {
    match depth {
        DeliveryEncodeDepth::Eight => 1,
        DeliveryEncodeDepth::Ten => 4,
    }
}

/// What the decoded planes fail.
pub open spec fn planes_failure(
    depth: DeliveryEncodeDepth,
    verification: DeliveryVerification,
    contract: LaneContract,
) -> Option<LaneFailure> {
    let decoded = verification.comparison.decoded_ycbcr;
    let exceptions = verification.exceptions@;
    let scale = depth_scale(depth);
    let luma = plane_failure(Plane::Luma, decoded.luma, scale, exceptions, contract);
    let cb = plane_failure(Plane::Cb, decoded.cb, scale, exceptions, contract);
    let cr = plane_failure(Plane::Cr, decoded.cr, scale, exceptions, contract);
    if decoded.source != YCbCrLegalSource::DecodedNativePlanes {
        Some(LaneFailure::PlanesNotNative)
    } else if decoded.bit_depth != depth_bits(depth) {
        Some(LaneFailure::PlanesDepthDiffers)
    } else if luma is Some {
        luma
    } else if cb is Some {
        cb
    } else if cr is Some {
        cr
    } else if over_threshold(decoded.luma, plane_samples(Plane::Luma), contract) && over_threshold(
        decoded.cb,
        plane_samples(Plane::Cb),
        contract,
    ) && over_threshold(decoded.cr, plane_samples(Plane::Cr), contract) {
        Some(LaneFailure::EveryPlaneOverThreshold)
    } else {
        None
    }
}

/// What the decoded planes fail.
pub fn planes_fail(
    depth: DeliveryEncodeDepth,
    verification: &DeliveryVerification,
    contract: &LaneContract,
) -> (failure: Option<LaneFailure>)
    ensures
        failure == planes_failure(depth, *verification, *contract),
{
    let decoded = &verification.comparison.decoded_ycbcr;
    if decoded.source != YCbCrLegalSource::DecodedNativePlanes {
        return Some(LaneFailure::PlanesNotNative);
    }
    if decoded.bit_depth != depth.bits() {
        return Some(LaneFailure::PlanesDepthDiffers);
    }
    let scale: i64 = match depth {
        DeliveryEncodeDepth::Eight => 1,
        DeliveryEncodeDepth::Ten => 4,
    };
    let luma: bool = match plane_fails(
        Plane::Luma,
        &decoded.luma,
        scale,
        &verification.exceptions,
        contract,
    ) {
        Ok(over) => over,
        Err(failure) => {
            return Some(failure);
        },
    };
    let cb: bool = match plane_fails(
        Plane::Cb,
        &decoded.cb,
        scale,
        &verification.exceptions,
        contract,
    ) {
        Ok(over) => over,
        Err(failure) => {
            return Some(failure);
        },
    };
    let cr: bool = match plane_fails(
        Plane::Cr,
        &decoded.cr,
        scale,
        &verification.exceptions,
        contract,
    ) {
        Ok(over) => over,
        Err(failure) => {
            return Some(failure);
        },
    };
    if luma && cb && cr {
        Some(LaneFailure::EveryPlaneOverThreshold)
    } else {
        None
    }
}

/// The margins of a lane.
#[derive(Debug, Clone, Copy, PartialEq, Eq, Structural)]
pub struct LaneMargins {
    pub luma_max: Margin,
    pub luma_p99: Margin,
    pub luma_mean: Margin,
    pub rgb_mean: Margin,
    pub psnr_headroom_hundredths: i64,
}

/// The margins of a comparison that has a signal-to-noise ratio.
pub open spec fn margins_of(comparison: DeliveryComparison) -> LaneMargins {
    let budgets = comparison.budgets;
    LaneMargins {
        luma_max: spec_margin(
            comparison.luma.maximum_code_diff as i64,
            budgets.luma_max_code as i64,
        ),
        luma_p99: spec_margin(
            comparison.luma.p99_code_diff_millionths,
            budgets.luma_p99_code_millionths,
        ),
        luma_mean: spec_margin(
            comparison.luma.mean_code_diff_millionths,
            budgets.luma_mean_code_millionths,
        ),
        rgb_mean: spec_margin(
            comparison.combined.mean_code_diff_millionths,
            budgets.rgb_mean_code_millionths,
        ),
        psnr_headroom_hundredths: (comparison.psnr_db_hundredths->0
            - budgets.psnr_floor_db_hundredths) as i64,
    }
}

/// What the margins fail.
pub open spec fn margins_failure(margins: LaneMargins) -> Option<LaneFailure> {
    if !is_double(margins.luma_max) {
        Some(LaneFailure::MarginTooSmall { term: LaneTerm::LumaMax })
    } else if !is_double(margins.luma_p99) {
        Some(LaneFailure::MarginTooSmall { term: LaneTerm::LumaP99 })
    } else if !is_double(margins.luma_mean) {
        Some(LaneFailure::MarginTooSmall { term: LaneTerm::LumaMean })
    } else if !is_double(margins.rgb_mean) {
        Some(LaneFailure::MarginTooSmall { term: LaneTerm::RgbMean })
    } else if margins.psnr_headroom_hundredths <= 0 {
        Some(LaneFailure::PsnrUnderFloor)
    } else {
        None
    }
}

/// What the budgets fail.
pub open spec fn budgets_failure(comparison: DeliveryComparison) -> Option<LaneFailure> {
    let budgets = comparison.budgets;
    if !comparison.within_budgets {
        Some(LaneFailure::NotWithinBudgets)
    } else if comparison.luma.maximum_code_diff > budgets.luma_max_code {
        Some(LaneFailure::OverBudget { term: LaneTerm::LumaMax })
    } else if comparison.luma.p99_code_diff_millionths > budgets.luma_p99_code_millionths {
        Some(LaneFailure::OverBudget { term: LaneTerm::LumaP99 })
    } else if comparison.luma.mean_code_diff_millionths > budgets.luma_mean_code_millionths {
        Some(LaneFailure::OverBudget { term: LaneTerm::LumaMean })
    } else if comparison.combined.mean_code_diff_millionths > budgets.rgb_mean_code_millionths {
        Some(LaneFailure::OverBudget { term: LaneTerm::RgbMean })
    } else {
        None
    }
}

/// Whether some exception is an error.
pub open spec fn some_error(exceptions: Seq<DeliveryException>) -> bool {
    exists|i: int|
        0 <= i < exceptions.len() && (#[trigger] exceptions[i]).severity == QaSeverity::Error
}

fn any_error(exceptions: &Vec<DeliveryException>) -> (found: bool)
    ensures
        found == some_error(exceptions@),
{
    let mut i: usize = 0;
    while i < exceptions.len()
        invariant
            i <= exceptions.len(),
            forall|j: int|
                0 <= j < i ==> (#[trigger] exceptions@[j]).severity != QaSeverity::Error,
        decreases exceptions.len() - i,
    {
        if exceptions[i].severity == QaSeverity::Error {
            assert(exceptions@[i as int].severity == QaSeverity::Error);
            return true;
        }
        i += 1;
    }
    false
}

/// What the measured differences fail.
pub open spec fn difference_failure(
    verification: DeliveryVerification,
    contract: LaneContract,
) -> Option<LaneFailure> {
    let comparison = verification.comparison;
    if comparison.combined.mean_code_diff_millionths <= 0 {
        Some(LaneFailure::CodecNotExercised)
    } else if comparison.luma.maximum_code_diff == 0 {
        Some(LaneFailure::LumaNotExercised)
    } else if comparison.budgets != contract.budgets {
        Some(LaneFailure::BudgetsDiffer)
    } else if comparison.psnr_db_hundredths is None {
        Some(LaneFailure::PsnrMissing)
    } else {
        first_of(
            margins_failure(margins_of(comparison)),
            first_of(
                budgets_failure(comparison),
                if !verification.technical_pass {
                    Some(LaneFailure::TechnicalFailure)
                } else if some_error(verification.exceptions@) {
                    Some(LaneFailure::ErrorRaised)
                } else {
                    match distinct(contract.budgets, contract.monitor) {
                        Ok(_) => None,
                        Err(index) => Some(LaneFailure::BudgetsNotDistinct { index }),
                    }
                },
            ),
        )
    }
}

fn margins_fail(margins: &LaneMargins) -> (failure: Option<LaneFailure>)
    ensures
        failure == margins_failure(*margins),
{
    if !margins.luma_max.at_least_double() {
        Some(LaneFailure::MarginTooSmall { term: LaneTerm::LumaMax })
    } else if !margins.luma_p99.at_least_double() {
        Some(LaneFailure::MarginTooSmall { term: LaneTerm::LumaP99 })
    } else if !margins.luma_mean.at_least_double() {
        Some(LaneFailure::MarginTooSmall { term: LaneTerm::LumaMean })
    } else if !margins.rgb_mean.at_least_double() {
        Some(LaneFailure::MarginTooSmall { term: LaneTerm::RgbMean })
    } else if margins.psnr_headroom_hundredths <= 0 {
        Some(LaneFailure::PsnrUnderFloor)
    } else {
        None
    }
}

fn budgets_fail(comparison: &DeliveryComparison) -> (failure: Option<LaneFailure>)
    ensures
        failure == budgets_failure(*comparison),
{
    let budgets = &comparison.budgets;
    if !comparison.within_budgets {
        Some(LaneFailure::NotWithinBudgets)
    } else if comparison.luma.maximum_code_diff > budgets.luma_max_code {
        Some(LaneFailure::OverBudget { term: LaneTerm::LumaMax })
    } else if comparison.luma.p99_code_diff_millionths > budgets.luma_p99_code_millionths {
        Some(LaneFailure::OverBudget { term: LaneTerm::LumaP99 })
    } else if comparison.luma.mean_code_diff_millionths > budgets.luma_mean_code_millionths {
        Some(LaneFailure::OverBudget { term: LaneTerm::LumaMean })
    } else if comparison.combined.mean_code_diff_millionths > budgets.rgb_mean_code_millionths {
        Some(LaneFailure::OverBudget { term: LaneTerm::RgbMean })
    } else {
        None
    }
}

/// The margins of the measured differences, or what the differences fail.
pub fn differences_measured(verification: &DeliveryVerification, contract: &LaneContract) -> (result:
    Result<LaneMargins, LaneFailure>)
    ensures
        match difference_failure(*verification, *contract) {
            Some(failure) => result == Err::<LaneMargins, LaneFailure>(failure),
            None => result == Ok::<LaneMargins, LaneFailure>(margins_of(verification.comparison)),
        },
{
    let comparison = &verification.comparison;
    if comparison.combined.mean_code_diff_millionths <= 0 {
        return Err(LaneFailure::CodecNotExercised);
    }
    if comparison.luma.maximum_code_diff == 0 {
        return Err(LaneFailure::LumaNotExercised);
    }
    let budgets = comparison.budgets;
    if budgets != contract.budgets {
        return Err(LaneFailure::BudgetsDiffer);
    }
    let psnr: i32 = match comparison.psnr_db_hundredths {
        Some(psnr) => psnr,
        None => {
            return Err(LaneFailure::PsnrMissing);
        },
    };
    let margins = LaneMargins {
        luma_max: margin(comparison.luma.maximum_code_diff as i64, budgets.luma_max_code as i64),
        luma_p99: margin(
            comparison.luma.p99_code_diff_millionths,
            budgets.luma_p99_code_millionths,
        ),
        luma_mean: margin(
            comparison.luma.mean_code_diff_millionths,
            budgets.luma_mean_code_millionths,
        ),
        rgb_mean: margin(
            comparison.combined.mean_code_diff_millionths,
            budgets.rgb_mean_code_millionths,
        ),
        psnr_headroom_hundredths: psnr as i64 - budgets.psnr_floor_db_hundredths as i64,
    };
    assert(margins == margins_of(*comparison));
    if let Some(failure) = margins_fail(&margins) {
        return Err(failure);
    }
    if let Some(failure) = budgets_fail(comparison) {
        return Err(failure);
    }
    if !verification.technical_pass {
        return Err(LaneFailure::TechnicalFailure);
    }
    if any_error(&verification.exceptions) {
        return Err(LaneFailure::ErrorRaised);
    }
    match assert_delivery_budgets_are_distinct(&contract.budgets, &contract.monitor) {
        Ok(_) => Ok(margins),
        Err(index) => Err(LaneFailure::BudgetsNotDistinct { index }),
    }
}

/// What a lane fails first: its tags, its sampling and extremes, its planes, or
/// its differences.
pub open spec fn lane_failure(lane: LaneMeasurement, contract: LaneContract) -> Option<
    LaneFailure,
> {
    first_of(
        probe_failure(lane, contract),
        first_of(
            extremes_failure(lane.verification, contract),
            first_of(
                planes_failure(lane.depth, lane.verification, contract),
                difference_failure(lane.verification, contract),
            ),
        ),
    )
}

/// Demands everything of a lane that fits its budgets, and gives its margins.
pub fn assert_encoded_delivery_lane(lane: &LaneMeasurement, contract: &LaneContract) -> (result:
    Result<LaneMargins, LaneFailure>)
    ensures
        match lane_failure(*lane, *contract) {
            Some(failure) => result == Err::<LaneMargins, LaneFailure>(failure),
            None => result == Ok::<LaneMargins, LaneFailure>(
                margins_of(lane.verification.comparison),
            ),
        },
{
    if let Some(failure) = probe_fails(lane, contract) {
        return Err(failure);
    }
    if let Some(failure) = extremes_fail(&lane.verification, contract) {
        return Err(failure);
    }
    if let Some(failure) = planes_fail(lane.depth, &lane.verification, contract) {
        return Err(failure);
    }
    differences_measured(&lane.verification, contract)
}

/// Whether the written file carries the tags that were asked for.
pub open spec fn tags_meet(lane: LaneMeasurement, contract: LaneContract) -> bool {
    let verification = lane.verification;
    let probed = verification.probed;
    let tags = verification.tags;
    &&& verification.delivery_bit_depth == lane.depth
    &&& verification.output_path@ == lane.output@
    &&& verification.decoded_pixel_format@ == contract.pixel_format@
    &&& probed.primaries == ColorTag::Bt709
    &&& probed.transfer == ColorTag::Bt709
    &&& probed.matrix == ColorTag::Bt709
    &&& probed.range == ColorRange::Limited
    &&& probed.bit_depth == tagged_depth(lane.depth)
    &&& probed.provenance == ColorProvenance::StreamMetadata
    &&& probed.confidence_basis_points == 10_000
    &&& probed.white_point == ColorWhitePoint::Unknown
    &&& tags.tag_source@ == PROBED_TAG_SOURCE@
    &&& tags.conforming
    &&& tags.mismatches@.len() == 0
    &&& tags.not_representable@.len() == 1
    &&& tags.not_representable@[0]@ == WHITE_POINT_FIELD@
}

/// Whether the pinned frames were sampled, and the extremes of the colour
/// channels reported and not gated.
pub open spec fn extremes_meet(verification: DeliveryVerification, contract: LaneContract) -> bool {
    let comparison = verification.comparison;
    &&& source_frames(comparison.frames@)
    &&& comparison.rgb_extremes_note@ == contract.rgb_extremes_note@
    &&& contains(comparison.rgb_extremes_note@, CHROMA_SUBSAMPLING@)
    &&& comparison.combined.maximum_code_diff > comparison.budgets.luma_max_code
    &&& !some_names(verification.exceptions@, UNGATED_MAXIMUM@)
    &&& !some_names(verification.exceptions@, UNGATED_P99@)
}

/// Whether what is reported of a plane outside the legal box is right: nothing
/// where it is not over the threshold, and a complete warning where it is.
pub open spec fn report_meets(plane: Plane, over: bool, exceptions: Seq<DeliveryException>) -> bool {
    if over {
        exists|at: int|
            {
                &&& 0 <= at < exceptions.len()
                &&& is_excursion(#[trigger] exceptions[at], plane)
                &&& exceptions[at].severity == QaSeverity::Warning
                &&& exceptions[at].observed is Some
                &&& exceptions[at].allowed is Some
                &&& forall|i: int| 0 <= i < at ==> !is_excursion(#[trigger] exceptions[i], plane)
            }
    } else {
        forall|i: int|
            0 <= i < exceptions.len() ==> !is_excursion(#[trigger] exceptions[i], plane)
    }
}

/// Whether a decoded plane stays inside the wide box, its rates are those of
/// its population, and what is reported of it is right.
pub open spec fn plane_meets(
    plane: Plane,
    excursion: PlaneLegalExcursion,
    scale: int,
    exceptions: Seq<DeliveryException>,
    contract: LaneContract,
) -> bool {
    let tolerance = contract.ebu_tolerance_codes * scale;
    let samples = plane_samples(plane);
    &&& (16 * scale - tolerance) * 100 <= excursion.minimum_code_hundredths
    &&& excursion.maximum_code_hundredths <= (legal_high(plane) * scale + tolerance) * 100
    &&& excursion.below_basis_points == saturated(excursion.below_count) / samples
    &&& excursion.above_basis_points == saturated(excursion.above_count) / samples
    &&& report_meets(plane, over_threshold(excursion, samples, contract), exceptions)
}

/// Whether the decoded planes are native, legal and correctly reported, and one
/// of them at least stays below the threshold.
pub open spec fn planes_meet(
    depth: DeliveryEncodeDepth,
    verification: DeliveryVerification,
    contract: LaneContract,
) -> bool {
    let decoded = verification.comparison.decoded_ycbcr;
    let exceptions = verification.exceptions@;
    let scale = depth_scale(depth);
    &&& decoded.source == YCbCrLegalSource::DecodedNativePlanes
    &&& decoded.bit_depth == depth_bits(depth)
    &&& plane_meets(Plane::Luma, decoded.luma, scale, exceptions, contract)
    &&& plane_meets(Plane::Cb, decoded.cb, scale, exceptions, contract)
    &&& plane_meets(Plane::Cr, decoded.cr, scale, exceptions, contract)
    &&& !(over_threshold(decoded.luma, plane_samples(Plane::Luma), contract) && over_threshold(
        decoded.cb,
        plane_samples(Plane::Cb),
        contract,
    ) && over_threshold(decoded.cr, plane_samples(Plane::Cr), contract))
}

/// Whether the codec was exercised and every difference fits its budget with a
/// margin of two.
pub open spec fn differences_meet(
    verification: DeliveryVerification,
    contract: LaneContract,
) -> bool {
    let comparison = verification.comparison;
    let budgets = contract.budgets;
    let margins = margins_of(comparison);
    &&& comparison.combined.mean_code_diff_millionths > 0
    &&& comparison.luma.maximum_code_diff > 0
    &&& comparison.budgets == budgets
    &&& comparison.psnr_db_hundredths is Some
    &&& comparison.psnr_db_hundredths->0 > budgets.psnr_floor_db_hundredths
    &&& is_double(margins.luma_max)
    &&& is_double(margins.luma_p99)
    &&& is_double(margins.luma_mean)
    &&& is_double(margins.rgb_mean)
    &&& comparison.within_budgets
    &&& comparison.luma.maximum_code_diff <= budgets.luma_max_code
    &&& comparison.luma.p99_code_diff_millionths <= budgets.luma_p99_code_millionths
    &&& comparison.luma.mean_code_diff_millionths <= budgets.luma_mean_code_millionths
    &&& comparison.combined.mean_code_diff_millionths <= budgets.rgb_mean_code_millionths
    &&& verification.technical_pass
    &&& !some_error(verification.exceptions@)
    &&& distinct(budgets, contract.monitor) is Ok
}

/// The first exception on a plane is the one that no other precedes.
proof fn lemma_first_excursion(exceptions: Seq<DeliveryException>, plane: Plane, from: int)
    requires
        0 <= from,
    ensures
        match first_excursion(exceptions, plane, from) {
            Some(at) => {
                &&& from <= at < exceptions.len()
                &&& is_excursion(exceptions[at], plane)
                &&& forall|i: int| from <= i < at ==> !is_excursion(#[trigger] exceptions[i], plane)
            },
            None => forall|i: int|
                from <= i < exceptions.len() ==> !is_excursion(#[trigger] exceptions[i], plane),
        },
    decreases exceptions.len() - from,
{
    if from < exceptions.len() && !is_excursion(exceptions[from], plane) {
        lemma_first_excursion(exceptions, plane, from + 1);
    }
}

proof fn lemma_report(plane: Plane, over: bool, exceptions: Seq<DeliveryException>)
    ensures
        report_failure(plane, over, exceptions) is None <==> report_meets(plane, over, exceptions),
{
    lemma_first_excursion(exceptions, plane, 0);
    match first_excursion(exceptions, plane, 0) {
        Some(at) => {
            if over && report_failure(plane, over, exceptions) is None {
                assert(is_excursion(exceptions[at], plane));
            }
            if over && report_meets(plane, over, exceptions) {
                let other = choose|other: int|
                    {
                        &&& 0 <= other < exceptions.len()
                        &&& is_excursion(#[trigger] exceptions[other], plane)
                        &&& exceptions[other].severity == QaSeverity::Warning
                        &&& exceptions[other].observed is Some
                        &&& exceptions[other].allowed is Some
                        &&& forall|i: int|
                            0 <= i < other ==> !is_excursion(#[trigger] exceptions[i], plane)
                    };
                assert(is_excursion(exceptions[other], plane));
                assert(is_excursion(exceptions[at], plane));
                assert(other == at);
            }
        },
        None => {},
    }
}

/// A lane passes exactly where its tags, its samples and extremes, its planes
/// and its differences all meet what they must.
pub proof fn lemma_lane_passes_exactly(lane: LaneMeasurement, contract: LaneContract)
    ensures
        lane_failure(lane, contract) is None <==> {
            &&& tags_meet(lane, contract)
            &&& extremes_meet(lane.verification, contract)
            &&& planes_meet(lane.depth, lane.verification, contract)
            &&& differences_meet(lane.verification, contract)
        },
{
    let decoded = lane.verification.comparison.decoded_ycbcr;
    let exceptions = lane.verification.exceptions@;
    lemma_report(
        Plane::Luma,
        over_threshold(decoded.luma, plane_samples(Plane::Luma), contract),
        exceptions,
    );
    lemma_report(
        Plane::Cb,
        over_threshold(decoded.cb, plane_samples(Plane::Cb), contract),
        exceptions,
    );
    lemma_report(
        Plane::Cr,
        over_threshold(decoded.cr, plane_samples(Plane::Cr), contract),
        exceptions,
    );
    assert(probe_failure(lane, contract) is None <==> tags_meet(lane, contract));
    assert(extremes_failure(lane.verification, contract) is None <==> extremes_meet(
        lane.verification,
        contract,
    ));
    assert(planes_failure(lane.depth, lane.verification, contract) is None <==> planes_meet(
        lane.depth,
        lane.verification,
        contract,
    ));
    assert(difference_failure(lane.verification, contract) is None <==> differences_meet(
        lane.verification,
        contract,
    ));
}

/// What a lane that passes has shown: the tags that were asked for, the pinned
/// samples, differences that would fit their budgets twice, and no error.
pub proof fn lemma_passing_lane(lane: LaneMeasurement, contract: LaneContract)
    requires
        lane_failure(lane, contract) is None,
        contract.budgets.luma_p99_code_millionths >= 0,
        contract.budgets.luma_mean_code_millionths >= 0,
        contract.budgets.rgb_mean_code_millionths >= 0,
        lane.verification.comparison.luma.p99_code_diff_millionths >= 0,
        lane.verification.comparison.luma.mean_code_diff_millionths >= 0,
    ensures
        lane.verification.probed.primaries == ColorTag::Bt709,
        lane.verification.probed.transfer == ColorTag::Bt709,
        lane.verification.probed.matrix == ColorTag::Bt709,
        lane.verification.probed.range == ColorRange::Limited,
        lane.verification.probed.bit_depth == tagged_depth(lane.depth),
        source_frames(lane.verification.comparison.frames@),
        2 * lane.verification.comparison.luma.maximum_code_diff <= contract.budgets.luma_max_code,
        2 * lane.verification.comparison.luma.p99_code_diff_millionths
            <= contract.budgets.luma_p99_code_millionths,
        2 * lane.verification.comparison.luma.mean_code_diff_millionths
            <= contract.budgets.luma_mean_code_millionths,
        2 * lane.verification.comparison.combined.mean_code_diff_millionths
            <= contract.budgets.rgb_mean_code_millionths,
        lane.verification.comparison.psnr_db_hundredths is Some,
        lane.verification.comparison.psnr_db_hundredths->0
            > contract.budgets.psnr_floor_db_hundredths,
        lane.verification.technical_pass,
        !some_error(lane.verification.exceptions@),
{
}

/// A lane can fail: whatever else is reported of it, a difference over its
/// budget, an error, or a verification that did not pass fails it.
pub proof fn lemma_overrun_fails(lane: LaneMeasurement, contract: LaneContract)
    requires
        ({
            let comparison = lane.verification.comparison;
            ||| comparison.luma.maximum_code_diff > contract.budgets.luma_max_code
            ||| comparison.luma.p99_code_diff_millionths
                > contract.budgets.luma_p99_code_millionths
            ||| comparison.luma.mean_code_diff_millionths
                > contract.budgets.luma_mean_code_millionths
            ||| comparison.combined.mean_code_diff_millionths
                > contract.budgets.rgb_mean_code_millionths
            ||| comparison.psnr_db_hundredths is None
            ||| comparison.psnr_db_hundredths->0 <= contract.budgets.psnr_floor_db_hundredths
            ||| !comparison.within_budgets
            ||| !lane.verification.technical_pass
            ||| some_error(lane.verification.exceptions@)
        }),
    ensures
        lane_failure(lane, contract) is Some,
{
}

/// The delivery source spans two groups of pictures, and its last sample falls
/// into the second.
pub proof fn lemma_last_sample_in_the_second_group()
    ensures
        CC6_DELIVERY_SOURCE_FRAMES / CC6_DELIVERY_SOURCE_GOP == 1,
        CC6_DELIVERY_SOURCE_FRAMES > CC6_DELIVERY_SOURCE_GOP,
        CC6_DELIVERY_SOURCE_SAMPLES@[4] >= CC6_DELIVERY_SOURCE_GOP,
{
}

/// Whether an exception reports a plane, by the words that it must hold.
pub open spec fn reports(exception: DeliveryException, field: Seq<char>) -> bool {
    exception.code@ == "decoded_range_excursion"@ && (exception.field matches Some(named)
        && named@ == field)
}

/// Whether a plane with this many samples, between these two codes, is reported
/// as it must be: a share is what its count of ten-thousandths holds of the
/// samples, and the first report of the field, where the share of both sides is
/// over the threshold, is a warning that says what was observed and allowed.
pub open spec fn plane_shows(
    excursion: PlaneLegalExcursion,
    low: int,
    high: int,
    samples: int,
    threshold: int,
    field: Seq<char>,
    exceptions: Seq<DeliveryException>,
) -> bool {
    let below = if excursion.below_count * 10_000 > 0xffff_ffff_ffff_ffff {
        0xffff_ffff_ffff_ffff
    } else {
        excursion.below_count * 10_000
    };
    let above = if excursion.above_count * 10_000 > 0xffff_ffff_ffff_ffff {
        0xffff_ffff_ffff_ffff
    } else {
        excursion.above_count * 10_000
    };
    &&& 100 * low <= excursion.minimum_code_hundredths
    &&& excursion.maximum_code_hundredths <= 100 * high
    &&& excursion.below_basis_points * samples <= below < (excursion.below_basis_points + 1)
        * samples
    &&& excursion.above_basis_points * samples <= above < (excursion.above_basis_points + 1)
        * samples
    &&& if (excursion.below_count + excursion.above_count) * 10_000 >= (threshold + 1) * samples {
        exists|at: int|
            {
                &&& 0 <= at < exceptions.len()
                &&& reports(#[trigger] exceptions[at], field)
                &&& exceptions[at].severity is Warning
                &&& exceptions[at].observed is Some
                &&& exceptions[at].allowed is Some
                &&& forall|i: int| 0 <= i < at ==> !reports(#[trigger] exceptions[i], field)
            }
    } else {
        forall|i: int| 0 <= i < exceptions.len() ==> !reports(#[trigger] exceptions[i], field)
    }
}

/// Whether the planes of a lane show what they must, between a lowest code and
/// the highest of luma and of the colour differences.
pub open spec fn planes_show(
    verification: DeliveryVerification,
    bits: int,
    low: int,
    luma_high: int,
    chroma_high: int,
    threshold: int,
) -> bool {
    let decoded = verification.comparison.decoded_ycbcr;
    let exceptions = verification.exceptions@;
    &&& decoded.source is DecodedNativePlanes
    &&& decoded.bit_depth == bits
    &&& plane_shows(
        decoded.luma,
        low,
        luma_high,
        288_000,
        threshold,
        "decoded_ycbcr.luma"@,
        exceptions,
    )
    &&& plane_shows(
        decoded.cb,
        low,
        chroma_high,
        72_000,
        threshold,
        "decoded_ycbcr.cb"@,
        exceptions,
    )
    &&& plane_shows(
        decoded.cr,
        low,
        chroma_high,
        72_000,
        threshold,
        "decoded_ycbcr.cr"@,
        exceptions,
    )
    &&& !((decoded.luma.below_count + decoded.luma.above_count) * 10_000 >= (threshold + 1)
        * 288_000 && (decoded.cb.below_count + decoded.cb.above_count) * 10_000 >= (threshold + 1)
        * 72_000 && (decoded.cr.below_count + decoded.cr.above_count) * 10_000 >= (threshold + 1)
        * 72_000)
}

proof fn lemma_floor(number: int, divisor: int, quotient: int)
    requires
        divisor > 0,
    ensures
        number / divisor == quotient <==> quotient * divisor <= number < (quotient + 1) * divisor,
        number / divisor > quotient <==> number >= (quotient + 1) * divisor,
{
    let q = number / divisor;
    assert(q * divisor <= number < (q + 1) * divisor) by (nonlinear_arith)
        requires
            q == number / divisor,
            divisor > 0,
    ;
    assert(q > quotient ==> q * divisor >= (quotient + 1) * divisor) by (nonlinear_arith)
        requires
            divisor > 0,
    ;
    assert(q < quotient ==> (q + 1) * divisor <= quotient * divisor) by (nonlinear_arith)
        requires
            divisor > 0,
    ;
    assert(q <= quotient ==> (q + 1) * divisor <= (quotient + 1) * divisor) by (nonlinear_arith)
        requires
            divisor > 0,
    ;
}

proof fn lemma_plane_shows(
    plane: Plane,
    excursion: PlaneLegalExcursion,
    scale: int,
    exceptions: Seq<DeliveryException>,
    contract: LaneContract,
    low: int,
    high: int,
    samples: int,
    field: Seq<char>,
)
    requires
        scale == 1 || scale == 4,
        low == 16 * scale - contract.ebu_tolerance_codes * scale,
        high == legal_high(plane) * scale + contract.ebu_tolerance_codes * scale,
        samples == plane_samples(plane),
        samples > 0,
        field == plane_field(plane),
    ensures
        plane_failure(plane, excursion, scale, exceptions, contract) is None <==> plane_shows(
            excursion,
            low,
            high,
            samples,
            contract.range_exception_basis_points as int,
            field,
            exceptions,
        ),
        over_threshold(excursion, samples, contract) <==> (excursion.below_count
            + excursion.above_count) * 10_000 >= (contract.range_exception_basis_points + 1)
            * samples,
{
    let over = over_threshold(excursion, samples, contract);
    lemma_floor(saturated(excursion.below_count), samples, excursion.below_basis_points as int);
    lemma_floor(saturated(excursion.above_count), samples, excursion.above_basis_points as int);
    lemma_floor(
        (excursion.below_count + excursion.above_count) * 10_000,
        samples,
        contract.range_exception_basis_points as int,
    );
    lemma_report(plane, over, exceptions);
    assert(DECODED_RANGE_EXCURSION@ == "decoded_range_excursion"@);
    assert forall|i: int| 0 <= i < exceptions.len() implies is_excursion(exceptions[i], plane)
        == reports(#[trigger] exceptions[i], field) by {}
    let shown = plane_shows(
        excursion,
        low,
        high,
        samples,
        contract.range_exception_basis_points as int,
        field,
        exceptions,
    );
    if over && report_meets(plane, over, exceptions) {
        let at = choose|at: int|
            {
                &&& 0 <= at < exceptions.len()
                &&& is_excursion(#[trigger] exceptions[at], plane)
                &&& exceptions[at].severity == QaSeverity::Warning
                &&& exceptions[at].observed is Some
                &&& exceptions[at].allowed is Some
                &&& forall|i: int| 0 <= i < at ==> !is_excursion(#[trigger] exceptions[i], plane)
            };
        assert(reports(exceptions[at], field));
    }
    if over && shown {
        let at = choose|at: int|
            {
                &&& 0 <= at < exceptions.len()
                &&& reports(#[trigger] exceptions[at], field)
                &&& exceptions[at].severity is Warning
                &&& exceptions[at].observed is Some
                &&& exceptions[at].allowed is Some
                &&& forall|i: int| 0 <= i < at ==> !reports(#[trigger] exceptions[i], field)
            };
        assert(is_excursion(exceptions[at], plane));
    }
}

/// The box that the planes of a lane must keep to, in codes of the lane: at
/// eight bits from 16 to 235 for luma and to 240 for a colour difference, at ten
/// bits from 64 to 940 and to 960, and wider on both sides by the tolerance, of
/// which a ten-bit lane has four codes for each.  The planes pass exactly where
/// all three keep to it and are reported as they must be.
pub proof fn lemma_legal_box_in_numbers(
    verification: DeliveryVerification,
    contract: LaneContract,
)
    ensures
        planes_failure(DeliveryEncodeDepth::Eight, verification, contract) is None <==> planes_show(
            verification,
            8,
            16 - contract.ebu_tolerance_codes,
            235 + contract.ebu_tolerance_codes,
            240 + contract.ebu_tolerance_codes,
            contract.range_exception_basis_points as int,
        ),
        planes_failure(DeliveryEncodeDepth::Ten, verification, contract) is None <==> planes_show(
            verification,
            10,
            64 - 4 * contract.ebu_tolerance_codes,
            940 + 4 * contract.ebu_tolerance_codes,
            960 + 4 * contract.ebu_tolerance_codes,
            contract.range_exception_basis_points as int,
        ),
{
    let decoded = verification.comparison.decoded_ycbcr;
    let exceptions = verification.exceptions@;
    let tolerance = contract.ebu_tolerance_codes as int;
    lemma_plane_shows(
        Plane::Luma,
        decoded.luma,
        1,
        exceptions,
        contract,
        16 - tolerance,
        235 + tolerance,
        288_000,
        "decoded_ycbcr.luma"@,
    );
    lemma_plane_shows(
        Plane::Cb,
        decoded.cb,
        1,
        exceptions,
        contract,
        16 - tolerance,
        240 + tolerance,
        72_000,
        "decoded_ycbcr.cb"@,
    );
    lemma_plane_shows(
        Plane::Cr,
        decoded.cr,
        1,
        exceptions,
        contract,
        16 - tolerance,
        240 + tolerance,
        72_000,
        "decoded_ycbcr.cr"@,
    );
    lemma_plane_shows(
        Plane::Luma,
        decoded.luma,
        4,
        exceptions,
        contract,
        64 - 4 * tolerance,
        940 + 4 * tolerance,
        288_000,
        "decoded_ycbcr.luma"@,
    );
    lemma_plane_shows(
        Plane::Cb,
        decoded.cb,
        4,
        exceptions,
        contract,
        64 - 4 * tolerance,
        960 + 4 * tolerance,
        72_000,
        "decoded_ycbcr.cb"@,
    );
    lemma_plane_shows(
        Plane::Cr,
        decoded.cr,
        4,
        exceptions,
        contract,
        64 - 4 * tolerance,
        960 + 4 * tolerance,
        72_000,
        "decoded_ycbcr.cr"@,
    );
}

/// Where a plane is named as outside the box, it is, on the side that is named.
pub proof fn lemma_named_plane_is_outside(
    verification: DeliveryVerification,
    contract: LaneContract,
    plane: Plane,
    excursion: PlaneLegalExcursion,
)
    requires
        excursion == match plane {
            Plane::Luma => verification.comparison.decoded_ycbcr.luma,
            Plane::Cb => verification.comparison.decoded_ycbcr.cb,
            Plane::Cr => verification.comparison.decoded_ycbcr.cr,
        },
    ensures
        planes_failure(DeliveryEncodeDepth::Eight, verification, contract) == Some(
            LaneFailure::MinimumOutsideBox { plane },
        ) ==> excursion.minimum_code_hundredths < 100 * (16 - contract.ebu_tolerance_codes),
        planes_failure(DeliveryEncodeDepth::Ten, verification, contract) == Some(
            LaneFailure::MinimumOutsideBox { plane },
        ) ==> excursion.minimum_code_hundredths < 100 * (64 - 4 * contract.ebu_tolerance_codes),
        planes_failure(DeliveryEncodeDepth::Eight, verification, contract) == Some(
            LaneFailure::MaximumOutsideBox { plane },
        ) ==> excursion.maximum_code_hundredths > 100 * ((if plane is Luma {
            235int
        } else {
            240int
        }) + contract.ebu_tolerance_codes),
        planes_failure(DeliveryEncodeDepth::Ten, verification, contract) == Some(
            LaneFailure::MaximumOutsideBox { plane },
        ) ==> excursion.maximum_code_hundredths > 100 * ((if plane is Luma {
            940int
        } else {
            960int
        }) + 4 * contract.ebu_tolerance_codes),
{
}

/// The tags of a written file pass exactly where each of them is the one that
/// was asked for, by the words and numbers that a delivery is tagged with.
pub proof fn lemma_tags_in_words(lane: LaneMeasurement, contract: LaneContract)
    ensures
        probe_failure(lane, contract) is None <==> {
            let probed = lane.verification.probed;
            let tags = lane.verification.tags;
            &&& lane.verification.delivery_bit_depth == lane.depth
            &&& lane.verification.output_path@ == lane.output@
            &&& lane.verification.decoded_pixel_format@ == contract.pixel_format@
            &&& probed.primaries is Bt709
            &&& probed.transfer is Bt709
            &&& probed.matrix is Bt709
            &&& probed.range is Limited
            &&& lane.depth is Eight ==> probed.bit_depth is Eight
            &&& lane.depth is Ten ==> probed.bit_depth is Ten
            &&& probed.provenance is StreamMetadata
            &&& probed.confidence_basis_points == 10_000
            &&& probed.white_point is Unknown
            &&& tags.tag_source@ == "probed_output_file"@
            &&& tags.conforming
            &&& tags.mismatches@.len() == 0
            &&& tags.not_representable@.len() == 1
            &&& tags.not_representable@[0]@ == "white_point"@
        },
{
}

/// The sampling and the extremes pass exactly where the five frames are those
/// of a document of sixty, the note is the contract's and names the chroma
/// format, the extreme of the colour channels is over the luma budget, and
/// neither of its two statistics raised an exception.
pub proof fn lemma_extremes_in_words(verification: DeliveryVerification, contract: LaneContract)
    ensures
        extremes_failure(verification, contract) is None <==> {
            let comparison = verification.comparison;
            &&& comparison.frames@ =~= seq![0i64, 14i64, 29i64, 44i64, 59i64]
            &&& comparison.rgb_extremes_note@ == contract.rgb_extremes_note@
            &&& contains(comparison.rgb_extremes_note@, "4:2:0"@)
            &&& comparison.combined.maximum_code_diff > comparison.budgets.luma_max_code
            &&& forall|i: int|
                0 <= i < verification.exceptions@.len() ==> match (
                #[trigger] verification.exceptions@[i]).field {
                    Some(named) => named@ != "combined.maximum_code_diff"@ && named@
                        != "combined.p99_code_diff_millionths"@,
                    None => true,
                }
        },
{
    let frames = verification.comparison.frames@;
    let pinned = seq![0i64, 14i64, 29i64, 44i64, 59i64];
    if source_frames(frames) {
        assert forall|i: int| 0 <= i < 5 implies frames[i] == pinned[i] by {
            assert(frames[i] == CC6_DELIVERY_SOURCE_SAMPLES@[i]);
        }
        assert(frames =~= pinned);
    }
    if frames =~= pinned {
        assert forall|i: int| 0 <= i < 5 implies #[trigger] frames[i]
            == CC6_DELIVERY_SOURCE_SAMPLES@[i] by {
            assert(frames[i] == pinned[i]);
        }
    }
    let exceptions = verification.exceptions@;
    if !some_names(exceptions, UNGATED_MAXIMUM@) && !some_names(exceptions, UNGATED_P99@) {
        assert forall|i: int| 0 <= i < exceptions.len() implies match (
        #[trigger] exceptions[i]).field {
            Some(named) => named@ != "combined.maximum_code_diff"@ && named@
                != "combined.p99_code_diff_millionths"@,
            None => true,
        } by {
            assert(!names_field(exceptions[i], UNGATED_MAXIMUM@));
            assert(!names_field(exceptions[i], UNGATED_P99@));
        }
    }
}

/// Differences that cannot be negative pass exactly where the codec was
/// exercised, the budgets are the contract's and hold twice each difference,
/// the ratio is over its floor, the verification passed without an error, and
/// the budgets are no tolerance of the monitor.  The margins are then each
/// budget beside its own difference, and the headroom of the ratio.
pub proof fn lemma_differences_in_numbers(
    verification: DeliveryVerification,
    contract: LaneContract,
)
    requires
        verification.comparison.luma.p99_code_diff_millionths >= 0,
        verification.comparison.luma.mean_code_diff_millionths >= 0,
        contract.budgets.luma_p99_code_millionths >= 0,
        contract.budgets.luma_mean_code_millionths >= 0,
    ensures
        difference_failure(verification, contract) is None <==> {
            let comparison = verification.comparison;
            let budgets = contract.budgets;
            &&& comparison.combined.mean_code_diff_millionths > 0
            &&& comparison.luma.maximum_code_diff > 0
            &&& comparison.budgets == budgets
            &&& comparison.psnr_db_hundredths matches Some(ratio)
            &&& ratio > budgets.psnr_floor_db_hundredths
            &&& 2 * comparison.luma.maximum_code_diff <= budgets.luma_max_code
            &&& 2 * comparison.luma.p99_code_diff_millionths <= budgets.luma_p99_code_millionths
            &&& 2 * comparison.luma.mean_code_diff_millionths <= budgets.luma_mean_code_millionths
            &&& 2 * comparison.combined.mean_code_diff_millionths
                <= budgets.rgb_mean_code_millionths
            &&& comparison.within_budgets
            &&& verification.technical_pass
            &&& forall|i: int|
                0 <= i < verification.exceptions@.len() ==> !((
                #[trigger] verification.exceptions@[i]).severity is Error)
            &&& budgets.luma_max_code != contract.monitor.max_code
            &&& budgets.luma_p99_code_millionths != contract.monitor.p99_code_millionths
            &&& budgets.luma_mean_code_millionths != contract.monitor.mean_code_millionths
        },
        difference_failure(verification, contract) is None ==> {
            let comparison = verification.comparison;
            let budgets = contract.budgets;
            let margins = margins_of(comparison);
            &&& margins.luma_max == Margin::Ratio {
                allowed: budgets.luma_max_code as i64,
                observed: comparison.luma.maximum_code_diff as i64,
            }
            &&& margins.luma_p99 == (if comparison.luma.p99_code_diff_millionths == 0 {
                Margin::Infinite
            } else {
                Margin::Ratio {
                    allowed: budgets.luma_p99_code_millionths,
                    observed: comparison.luma.p99_code_diff_millionths,
                }
            })
            &&& margins.luma_mean == (if comparison.luma.mean_code_diff_millionths == 0 {
                Margin::Infinite
            } else {
                Margin::Ratio {
                    allowed: budgets.luma_mean_code_millionths,
                    observed: comparison.luma.mean_code_diff_millionths,
                }
            })
            &&& margins.rgb_mean == Margin::Ratio {
                allowed: budgets.rgb_mean_code_millionths,
                observed: comparison.combined.mean_code_diff_millionths,
            }
            &&& margins.psnr_headroom_hundredths == comparison.psnr_db_hundredths->0
                - budgets.psnr_floor_db_hundredths
        },
{
}

/// The failure that is given is true of the lane, and what is looked at before
/// it has passed.
pub proof fn lemma_lane_failure_is_true(lane: LaneMeasurement, contract: LaneContract)
    requires
        lane_failure(lane, contract) is Some,
    ensures
        ({
            let failure = lane_failure(lane, contract)->0;
            let verification = lane.verification;
            let probed = verification.probed;
            let tags = verification.tags;
            let comparison = verification.comparison;
            let budgets = contract.budgets;
            &&& failure is DepthDiffers <==> verification.delivery_bit_depth != lane.depth
            &&& failure is OutputDiffers ==> verification.output_path@ != lane.output@
            &&& failure is PixelFormatDiffers ==> verification.decoded_pixel_format@
                != contract.pixel_format@
            &&& failure is PrimariesDiffer ==> !(probed.primaries is Bt709)
            &&& failure is TransferDiffers ==> !(probed.transfer is Bt709)
            &&& failure is MatrixDiffers ==> !(probed.matrix is Bt709)
            &&& failure is RangeDiffers ==> !(probed.range is Limited)
            &&& failure is TaggedDepthDiffers ==> (lane.depth is Eight && !(
            probed.bit_depth is Eight)) || (lane.depth is Ten && !(probed.bit_depth is Ten))
            &&& failure is ProvenanceDiffers ==> !(probed.provenance is StreamMetadata)
            &&& failure is ConfidenceDiffers ==> probed.confidence_basis_points != 10_000
            &&& failure is TagsDoNotConform ==> !tags.conforming
            &&& failure is TagsMismatch ==> tags.mismatches@.len() > 0
            &&& failure is NotRepresentableCount ==> tags.not_representable@.len() != 1
            &&& failure is WhitePointKnown ==> probed.white_point is Known
            &&& failure is ExtremesNoteDiffers ==> comparison.rgb_extremes_note@
                != contract.rgb_extremes_note@
            &&& failure is ExtremesInsideBudget ==> comparison.combined.maximum_code_diff
                <= comparison.budgets.luma_max_code
            &&& failure is CodecNotExercised ==> comparison.combined.mean_code_diff_millionths <= 0
            &&& failure is LumaNotExercised ==> comparison.luma.maximum_code_diff == 0
            &&& failure is BudgetsDiffer ==> comparison.budgets != budgets
            &&& failure is PsnrMissing ==> comparison.psnr_db_hundredths is None
            &&& failure is PsnrUnderFloor ==> (comparison.psnr_db_hundredths matches Some(ratio)
                && ratio <= budgets.psnr_floor_db_hundredths)
            &&& failure is NotWithinBudgets ==> !comparison.within_budgets
            &&& failure is TechnicalFailure ==> !verification.technical_pass
            &&& failure is ErrorRaised ==> exists|i: int|
                0 <= i < verification.exceptions@.len() && (
                #[trigger] verification.exceptions@[i]).severity is Error
        }),
{
}

/// A margin that is named as too small is that of its own budget.
pub proof fn lemma_named_margin_is_too_small(
    verification: DeliveryVerification,
    contract: LaneContract,
    term: LaneTerm,
)
    requires
        difference_failure(verification, contract) == Some(LaneFailure::MarginTooSmall { term }),
        verification.comparison.luma.p99_code_diff_millionths >= 0,
        verification.comparison.luma.mean_code_diff_millionths >= 0,
    ensures
        match term {
            LaneTerm::LumaMax => 2 * verification.comparison.luma.maximum_code_diff
                > contract.budgets.luma_max_code,
            LaneTerm::LumaP99 => 2 * verification.comparison.luma.p99_code_diff_millionths
                > contract.budgets.luma_p99_code_millionths,
            LaneTerm::LumaMean => 2 * verification.comparison.luma.mean_code_diff_millionths
                > contract.budgets.luma_mean_code_millionths,
            LaneTerm::RgbMean => 2 * verification.comparison.combined.mean_code_diff_millionths
                > contract.budgets.rgb_mean_code_millionths,
        },
{
}

/// No exceptions name no field and hold no error; one more adds what it names
/// and what it is, and nothing else.
pub proof fn lemma_exceptions_one_by_one(
    exceptions: Seq<DeliveryException>,
    more: DeliveryException,
    field: Seq<char>,
)
    ensures
        !some_error(Seq::empty()),
        !some_names(Seq::empty(), field),
        some_error(exceptions.push(more)) <==> some_error(exceptions) || more.severity is Error,
        some_names(exceptions.push(more), field) <==> some_names(exceptions, field) || names_field(
            more,
            field,
        ),
{
    let longer = exceptions.push(more);
    let last = exceptions.len() as int;
    assert(longer[last] == more);
    assert forall|i: int| 0 <= i < last implies #[trigger] longer[i] == exceptions[i] by {}
    if some_error(exceptions) {
        let i = choose|i: int|
            0 <= i < exceptions.len() && (#[trigger] exceptions[i]).severity == QaSeverity::Error;
        assert(longer[i].severity == QaSeverity::Error);
    }
    if some_names(exceptions, field) {
        let i = choose|i: int|
            0 <= i < exceptions.len() && names_field(#[trigger] exceptions[i], field);
        assert(names_field(longer[i], field));
    }
    if some_error(longer) {
        let i = choose|i: int|
            0 <= i < longer.len() && (#[trigger] longer[i]).severity == QaSeverity::Error;
        assert(i < last ==> exceptions[i].severity == QaSeverity::Error);
    }
    if some_names(longer, field) {
        let i = choose|i: int| 0 <= i < longer.len() && names_field(#[trigger] longer[i], field);
        assert(i < last ==> names_field(exceptions[i], field));
    }
}

} // verus!
