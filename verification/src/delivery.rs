//! What the verification of a written delivery reports.

use vstd::prelude::*;

verus! {

/// The bit depth that a delivery is encoded with.
#[derive(Debug, Clone, Copy, PartialEq, Eq, Structural)]
pub enum DeliveryEncodeDepth {
    Eight,
    Ten,
}

/// The number of bits of a depth.
pub open spec fn depth_bits(depth: DeliveryEncodeDepth) -> int {
    match depth {
        DeliveryEncodeDepth::Eight => 8,
        DeliveryEncodeDepth::Ten => 10,
    }
}

/// The depth that a stream of a delivery is tagged with.
pub open spec fn tagged_depth(depth: DeliveryEncodeDepth) -> ColorBitDepth {
    match depth {
        DeliveryEncodeDepth::Eight => ColorBitDepth::Eight,
        DeliveryEncodeDepth::Ten => ColorBitDepth::Ten,
    }
}

impl DeliveryEncodeDepth {
    /// The number of bits.
    pub fn bits(self) -> (bits: u8)
        ensures
            bits == depth_bits(self),
    {
        match self {
            DeliveryEncodeDepth::Eight => 8,
            DeliveryEncodeDepth::Ten => 10,
        }
    }

    /// The depth that a stream is tagged with.
    pub fn tagged(self) -> (depth: ColorBitDepth)
        ensures
            depth == tagged_depth(self),
    {
        match self {
            DeliveryEncodeDepth::Eight => ColorBitDepth::Eight,
            DeliveryEncodeDepth::Ten => ColorBitDepth::Ten,
        }
    }
}

/// The primaries, the transfer or the matrix that a stream is tagged with.
#[derive(Debug, Clone, Copy, PartialEq, Eq, Structural)]
pub enum ColorTag {
    Unknown,
    Bt709,
    Other,
}

/// The range that a stream is tagged with.
#[derive(Debug, Clone, Copy, PartialEq, Eq, Structural)]
pub enum ColorRange {
    Unknown,
    Limited,
    Full,
}

/// The bit depth that a stream is tagged with.
#[derive(Debug, Clone, Copy, PartialEq, Eq, Structural)]
pub enum ColorBitDepth {
    Eight,
    Ten,
    Other,
}

/// The white point that a stream is tagged with.
#[derive(Debug, Clone, Copy, PartialEq, Eq, Structural)]
pub enum ColorWhitePoint {
    Unknown,
    Known,
}

/// Where a colour description comes from.
#[derive(Debug, Clone, Copy, PartialEq, Eq, Structural)]
pub enum ColorProvenance {
    StreamMetadata,
    Other,
}

/// The colour description of a stream.
#[derive(Debug, Clone, Copy, PartialEq, Eq, Structural)]
pub struct ColorDescription {
    pub primaries: ColorTag,
    pub transfer: ColorTag,
    pub matrix: ColorTag,
    pub range: ColorRange,
    pub bit_depth: ColorBitDepth,
    pub white_point: ColorWhitePoint,
    pub provenance: ColorProvenance,
    pub confidence_basis_points: u32,
}

/// What a written delivery's tags say.
#[derive(Debug)]
pub struct TagReport {
    /// Where the tags were read.
    pub tag_source: String,
    pub conforming: bool,
    /// The fields that differ from what was asked for.
    pub mismatches: Vec<String>,
    /// The fields that the format has no syntax for.
    pub not_representable: Vec<String>,
}

/// How far the decoded codes of a plane or channel lie from the reference.
#[derive(Debug, Clone, Copy, PartialEq, Eq, Structural)]
pub struct CodeDifference {
    pub maximum_code_diff: u32,
    pub p99_code_diff_millionths: i64,
    pub mean_code_diff_millionths: i64,
}

/// What the differences of a lane may be.
#[derive(Debug, Clone, Copy, PartialEq, Eq, Structural)]
pub struct DeliveryBudgets {
    pub luma_max_code: u32,
    pub luma_p99_code_millionths: i64,
    pub luma_mean_code_millionths: i64,
    pub rgb_mean_code_millionths: i64,
    pub psnr_floor_db_hundredths: i32,
}

/// How far a decoded plane leaves the legal box.
#[derive(Debug, Clone, Copy, PartialEq, Eq, Structural)]
pub struct PlaneLegalExcursion {
    pub minimum_code_hundredths: i64,
    pub maximum_code_hundredths: i64,
    pub below_count: u64,
    pub above_count: u64,
    pub below_basis_points: u32,
    pub above_basis_points: u32,
}

/// What the legality of planes was measured on.
#[derive(Debug, Clone, Copy, PartialEq, Eq, Structural)]
pub enum YCbCrLegalSource {
    DecodedNativePlanes,
    Other,
}

/// The legality of the decoded planes.
#[derive(Debug, Clone, Copy, PartialEq, Eq, Structural)]
pub struct DecodedYCbCr {
    pub source: YCbCrLegalSource,
    pub bit_depth: u8,
    pub luma: PlaneLegalExcursion,
    pub cb: PlaneLegalExcursion,
    pub cr: PlaneLegalExcursion,
}

/// The comparison of the decoded frames with the reference.
#[derive(Debug)]
pub struct DeliveryComparison {
    /// The frames that were sampled.
    pub frames: Vec<i64>,
    pub luma: CodeDifference,
    pub combined: CodeDifference,
    pub rgb_extremes_note: String,
    pub decoded_ycbcr: DecodedYCbCr,
    pub budgets: DeliveryBudgets,
    /// Nothing where the frames are identical.
    pub psnr_db_hundredths: Option<i32>,
    pub within_budgets: bool,
}

/// How much an exception weighs.
#[derive(Debug, Clone, Copy, PartialEq, Eq, Structural)]
pub enum QaSeverity {
    Info,
    Warning,
    Error,
}

/// Something that a verification has to say.
#[derive(Debug)]
pub struct DeliveryException {
    pub code: String,
    pub severity: QaSeverity,
    pub field: Option<String>,
    pub observed: Option<String>,
    pub allowed: Option<String>,
    pub message: String,
}

/// The verification of a written delivery.
#[derive(Debug)]
pub struct DeliveryVerification {
    pub delivery_bit_depth: DeliveryEncodeDepth,
    pub output_path: String,
    pub decoded_pixel_format: String,
    pub probed: ColorDescription,
    pub tags: TagReport,
    pub comparison: DeliveryComparison,
    pub exceptions: Vec<DeliveryException>,
    pub technical_pass: bool,
}

/// What a lane was asked to write, and what its verification says.
#[derive(Debug)]
pub struct LaneMeasurement {
    pub depth: DeliveryEncodeDepth,
    pub output: String,
    pub verification: DeliveryVerification,
}

/// What the delivery engine promises of a lane.
#[derive(Debug)]
pub struct LaneContract {
    /// The pixel format of the lane's depth.
    pub pixel_format: String,
    /// The budgets of the lane's depth.
    pub budgets: DeliveryBudgets,
    /// What is said beside the extremes of the colour channels.
    pub rgb_extremes_note: String,
    /// How far a code may leave the legal box, at eight bits.
    pub ebu_tolerance_codes: u32,
    /// The share of a plane outside the legal box that is reported above.
    pub range_exception_basis_points: u32,
    /// The tolerances of the monitor path.
    pub monitor: MonitorTolerances,
}

/// What the monitor's codes may differ by between two renderers.
#[derive(Debug, Clone, Copy, PartialEq, Eq, Structural)]
pub struct MonitorTolerances {
    pub max_code: u32,
    pub p99_code_millionths: i64,
    pub mean_code_millionths: i64,
}

/// A budget in relation to what was measured.
#[derive(Debug, Clone, Copy, PartialEq, Eq, Structural)]
pub enum Margin {
    /// Nothing was measured.
    Infinite,
    Ratio { allowed: i64, observed: i64 },
}

/// The margin of a budget: how often what was measured fits into it.
pub open spec fn spec_margin(observed: i64, allowed: i64) -> Margin {
    if observed == 0 {
        Margin::Infinite
    } else {
        Margin::Ratio { allowed, observed }
    }
}

/// The margin of a budget.
pub fn margin(observed: i64, allowed: i64) -> (margin: Margin)
    ensures
        margin == spec_margin(observed, allowed),
{
    if observed == 0 {
        Margin::Infinite
    } else {
        Margin::Ratio { allowed, observed }
    }
}

/// Whether a margin is two or more.
pub open spec fn is_double(margin: Margin) -> bool {
    match margin {
        Margin::Infinite => true,
        Margin::Ratio { allowed, observed } => if observed > 0 {
            allowed >= 2 * observed
        } else {
            allowed <= 2 * observed
        },
    }
}

impl Margin {
    /// Whether the margin is two or more.
    pub fn at_least_double(self) -> (double: bool)
        ensures
            double == is_double(self),
    {
        match self {
            Margin::Infinite => true,
            Margin::Ratio { allowed, observed } => if observed > 0 {
                allowed as i128 >= 2 * observed as i128
            } else {
                allowed as i128 <= 2 * observed as i128
            },
        }
    }
}

/// A budget whose margin is two or more holds what was measured, and would hold
/// twice as much.
pub proof fn lemma_double_margin_is_inside(observed: i64, allowed: i64)
    requires
        observed >= 0,
        allowed >= 0,
        is_double(spec_margin(observed, allowed)),
    ensures
        2 * observed <= allowed,
        observed <= allowed,
{
}

/// Demands that a lane's budgets are no tolerance of the monitor path.  The
/// error is the first term on which the two agree.
pub fn assert_delivery_budgets_are_distinct(
    budgets: &DeliveryBudgets,
    monitor: &MonitorTolerances,
) -> (result: Result<(), usize>)
    ensures
        result == distinct(*budgets, *monitor),
{
    if budgets.luma_max_code == monitor.max_code {
        Err(0)
    } else if budgets.luma_p99_code_millionths == monitor.p99_code_millionths {
        Err(1)
    } else if budgets.luma_mean_code_millionths == monitor.mean_code_millionths {
        Err(2)
    } else {
        Ok(())
    }
}

/// Whether a lane's budgets are no tolerance of the monitor path.
pub open spec fn distinct(budgets: DeliveryBudgets, monitor: MonitorTolerances) -> Result<
    (),
    usize,
> {
    if budgets.luma_max_code == monitor.max_code {
        Err(0)
    } else if budgets.luma_p99_code_millionths == monitor.p99_code_millionths {
        Err(1)
    } else if budgets.luma_mean_code_millionths == monitor.mean_code_millionths {
        Err(2)
    } else {
        Ok(())
    }
}

/// The bits and the tag of each depth, in numbers.
pub proof fn lemma_depths_in_numbers(depth: DeliveryEncodeDepth)
    ensures
        depth is Eight ==> depth_bits(depth) == 8 && tagged_depth(depth) is Eight,
        depth is Ten ==> depth_bits(depth) == 10 && tagged_depth(depth) is Ten,
{
}

/// A margin of two is exactly that twice what was measured fits, for everything
/// that can be measured; and a margin holds what it was made of.
pub proof fn lemma_double_margin_exactly(observed: i64, allowed: i64)
    ensures
        observed > 0 ==> (is_double(spec_margin(observed, allowed)) <==> 2 * observed <= allowed),
        observed == 0 ==> is_double(spec_margin(observed, allowed)),
        observed < 0 ==> (is_double(spec_margin(observed, allowed)) <==> allowed <= 2 * observed),
        match spec_margin(observed, allowed) {
            Margin::Infinite => observed == 0,
            Margin::Ratio { allowed: a, observed: o } => observed != 0 && a == allowed && o
                == observed,
        },
{
}

/// Budgets are distinct exactly where none of the three equals the tolerance of
/// its own kind, and the error is the place of the first that does.
pub proof fn lemma_distinct_exactly(budgets: DeliveryBudgets, monitor: MonitorTolerances)
    ensures
        distinct(budgets, monitor) is Ok <==> budgets.luma_max_code != monitor.max_code
            && budgets.luma_p99_code_millionths != monitor.p99_code_millionths
            && budgets.luma_mean_code_millionths != monitor.mean_code_millionths,
        distinct(budgets, monitor) matches Err(index) ==> {
            &&& index < 3
            &&& index == 0 <==> budgets.luma_max_code == monitor.max_code
            &&& index == 1 ==> budgets.luma_p99_code_millionths == monitor.p99_code_millionths
            &&& index == 2 ==> budgets.luma_mean_code_millionths == monitor.mean_code_millionths
                && budgets.luma_p99_code_millionths != monitor.p99_code_millionths
        },
{
}

} // verus!
