//! What must hold before a delivery is evidence: the encoder can write it, its
//! reference is full, and its grade clips.

use vstd::prelude::*;

use crate::text::strings_equal;

verus! {

/// The pixel format of the ten-bit lane, as an encoder advertises it.
pub const TEN_BIT_FORMAT: &'static str = "YUV420P10LE";

/// What is said of an encoder that advertises nothing.
pub const NO_FORMATS: &'static str = "no advertised pixel formats";

/// That an encoder cannot write a lane.
#[derive(Debug)]
pub struct EncoderPixelFormatUnavailable {
    /// The formats that the encoder advertises.
    pub observed: String,
    /// The format that the lane needs.
    pub allowed: String,
}

/// The first names with a space between them.
pub open spec fn spaced(names: Seq<String>, count: nat) -> Seq<char>
    decreases count,
{
    if count == 0 {
        Seq::empty()
    } else if count == 1 {
        names[0]@
    } else {
        spaced(names, (count - 1) as nat) + " "@ + names[count - 1]@
    }
}

fn joined_by_spaces(names: &[String]) -> (text: String)
    ensures
        text@ == spaced(names@, names@.len()),
{
    if names.len() == 0 {
        let text = "".to_owned();
        proof {
            reveal_strlit("");
        }
        assert(text@ =~= Seq::<char>::empty());
        return text;
    }
    let mut text = names[0].as_str().to_owned();
    let mut i: usize = 1;
    while i < names.len()
        invariant
            1 <= i <= names.len(),
            text@ == spaced(names@, i as nat),
        decreases names.len() - i,
    {
        text = text.concat(" ").concat(names[i].as_str());
        i += 1;
    }
    text
}

/// Whether a format is among some.
pub open spec fn advertises(formats: Seq<String>, format: Seq<char>) -> bool {
    exists|i: int| 0 <= i < formats.len() && (#[trigger] formats[i])@ == format
}

fn advertised(formats: &[String], format: &str) -> (found: bool)
    ensures
        found == advertises(formats@, format@),
{
    let mut i: usize = 0;
    while i < formats.len()
        invariant
            i <= formats.len(),
            forall|j: int| 0 <= j < i ==> (#[trigger] formats@[j])@ != format@,
        decreases formats.len() - i,
    {
        if strings_equal(formats[i].as_str(), format) {
            assert(formats@[i as int]@ == format@);
            return true;
        }
        i += 1;
    }
    false
}

/// Demands that an encoder advertises the format of the ten-bit lane, which the
/// delivery engine names `allowed`.
pub fn assert_libx264_advertises_the_ten_bit_lane(formats: &[String], allowed: &str) -> (result:
    Result<(), EncoderPixelFormatUnavailable>)
    ensures
        match result {
            Ok(_) => advertises(formats@, TEN_BIT_FORMAT@),
            Err(error) => {
                &&& !advertises(formats@, TEN_BIT_FORMAT@)
                &&& error.allowed@ == allowed@
                &&& error.observed@ == (if formats@.len() == 0 {
                    NO_FORMATS@
                } else {
                    spaced(formats@, formats@.len())
                })
            },
        },
{
    if advertised(formats, TEN_BIT_FORMAT) {
        return Ok(());
    }
    let observed = if formats.len() == 0 {
        NO_FORMATS.to_owned()
    } else {
        joined_by_spaces(formats)
    };
    Err(EncoderPixelFormatUnavailable { observed, allowed: allowed.to_owned() })
}

/// What a frame's delivery reference is.
#[derive(Debug, Clone, Copy)]
pub struct DeliveryReference {
    pub size: (u32, u32),
    /// Whether the renderer claims full resolution for it.
    pub full_resolution: bool,
    /// The length of its pixels in bytes.
    pub bytes: usize,
}

/// Why a frame's delivery reference is not full.
#[derive(Debug, Clone, Copy, PartialEq, Eq, Structural)]
pub enum ReferenceFailure {
    SizeDiffers,
    NotFullResolution,
    /// It does not hold eight bytes for each pixel.
    BytesDiffer,
}

/// What a delivery reference fails.
pub open spec fn reference_failure(reference: DeliveryReference, resolution: (u32, u32)) -> Option<
    ReferenceFailure,
> {
    if reference.size != resolution {
        Some(ReferenceFailure::SizeDiffers)
    } else if !reference.full_resolution {
        Some(ReferenceFailure::NotFullResolution)
    } else if reference.bytes != resolution.0 * resolution.1 * 8 {
        Some(ReferenceFailure::BytesDiffer)
    } else {
        None
    }
}

fn reference_fails(reference: &DeliveryReference, resolution: (u32, u32)) -> (failure: Option<
    ReferenceFailure,
>)
    ensures
        failure == reference_failure(*reference, resolution),
{
    if reference.size.0 != resolution.0 || reference.size.1 != resolution.1 {
        return Some(ReferenceFailure::SizeDiffers);
    }
    if !reference.full_resolution {
        return Some(ReferenceFailure::NotFullResolution);
    }
    assert(0 <= resolution.0 * resolution.1 <= u32::MAX * u32::MAX) by (nonlinear_arith)
        requires
            0 <= resolution.0 <= u32::MAX,
            0 <= resolution.1 <= u32::MAX,
    ;
    let bytes: u128 = resolution.0 as u128 * resolution.1 as u128 * 8;
    if reference.bytes as u128 != bytes {
        return Some(ReferenceFailure::BytesDiffer);
    }
    None
}

/// Demands that the delivery reference of every sampled frame is full.  The
/// error is the place of the first that is not.
pub fn assert_per_frame_full_resolution_reference(
    references: &[DeliveryReference],
    resolution: (u32, u32),
) -> (result: Result<(), (usize, ReferenceFailure)>)
    ensures
        match result {
            Ok(_) => forall|i: int|
                0 <= i < references@.len() ==> reference_failure(
                    #[trigger] references@[i],
                    resolution,
                ) is None,
            Err((at, failure)) => {
                &&& at < references@.len()
                &&& reference_failure(references@[at as int], resolution) == Some(failure)
                &&& forall|i: int|
                    0 <= i < at ==> reference_failure(#[trigger] references@[i], resolution) is None
            },
        },
{
    let mut i: usize = 0;
    while i < references.len()
        invariant
            i <= references.len(),
            forall|j: int|
                0 <= j < i ==> reference_failure(#[trigger] references@[j], resolution) is None,
        decreases references.len() - i,
    {
        if let Some(failure) = reference_fails(&references[i], resolution) {
            return Err((i, failure));
        }
        i += 1;
    }
    Ok(())
}

/// How far a channel of the graded source goes over range.
#[derive(Debug, Clone, Copy, PartialEq, Eq, Structural)]
pub struct ChannelOverRange {
    pub over_basis_points: u32,
    pub maximum_over_excursion_millionths: i64,
}

/// What quality control measures of the graded source.
#[derive(Debug)]
pub struct GradeReport {
    pub full_resolution: bool,
    pub clamped_basis_points: u32,
    pub out_of_gamut_basis_points: u32,
    pub red: ChannelOverRange,
    pub green: ChannelOverRange,
    pub blue: ChannelOverRange,
    pub below_black_pixel_count: u64,
    /// How the report defines the gamut.
    pub gamut_definition: String,
}

/// Why the graded source proves nothing.
#[derive(Debug, Clone, Copy, PartialEq, Eq, Structural)]
pub enum GradeFailure {
    NotFullResolution,
    NothingClamped,
    NothingOutOfGamut,
    /// A channel, red being zero, of which nothing is over range.
    NothingOver { channel: usize },
    /// A channel over range whose excursion is not recorded.
    NoExcursion { channel: usize },
    NothingBelowBlack,
    DefinitionDiffers,
}

/// What a channel of the graded source fails.
pub open spec fn channel_failure(channel: ChannelOverRange, index: usize) -> Option<GradeFailure> {
    if channel.over_basis_points == 0 {
        Some(GradeFailure::NothingOver { channel: index })
    } else if channel.maximum_over_excursion_millionths <= 0 {
        Some(GradeFailure::NoExcursion { channel: index })
    } else {
        None
    }
}

fn channel_fails(channel: &ChannelOverRange, index: usize) -> (failure: Option<GradeFailure>)
    ensures
        failure == channel_failure(*channel, index),
{
    if channel.over_basis_points == 0 {
        Some(GradeFailure::NothingOver { channel: index })
    } else if channel.maximum_over_excursion_millionths <= 0 {
        Some(GradeFailure::NoExcursion { channel: index })
    } else {
        None
    }
}

/// What the graded source fails to show.
pub open spec fn grade_failure(report: GradeReport, definition: Seq<char>) -> Option<GradeFailure> {
    if !report.full_resolution {
        Some(GradeFailure::NotFullResolution)
    } else if report.clamped_basis_points == 0 {
        Some(GradeFailure::NothingClamped)
    } else if report.out_of_gamut_basis_points == 0 {
        Some(GradeFailure::NothingOutOfGamut)
    } else if channel_failure(report.red, 0) is Some {
        channel_failure(report.red, 0)
    } else if channel_failure(report.green, 1) is Some {
        channel_failure(report.green, 1)
    } else if channel_failure(report.blue, 2) is Some {
        channel_failure(report.blue, 2)
    } else if report.below_black_pixel_count == 0 {
        Some(GradeFailure::NothingBelowBlack)
    } else if report.gamut_definition@ != definition {
        Some(GradeFailure::DefinitionDiffers)
    } else {
        None
    }
}

/// Demands that the grade of the delivery source clips: over range in every
/// channel, out of gamut, and below black.
pub fn assert_the_delivery_grade_clips(report: &GradeReport, definition: &str) -> (result: Result<
    (),
    GradeFailure,
>)
    ensures
        match grade_failure(*report, definition@) {
            Some(failure) => result == Err::<(), GradeFailure>(failure),
            None => result is Ok,
        },
{
    if !report.full_resolution {
        return Err(GradeFailure::NotFullResolution);
    }
    if report.clamped_basis_points == 0 {
        return Err(GradeFailure::NothingClamped);
    }
    if report.out_of_gamut_basis_points == 0 {
        return Err(GradeFailure::NothingOutOfGamut);
    }
    if let Some(failure) = channel_fails(&report.red, 0) {
        return Err(failure);
    }
    if let Some(failure) = channel_fails(&report.green, 1) {
        return Err(failure);
    }
    if let Some(failure) = channel_fails(&report.blue, 2) {
        return Err(failure);
    }
    if report.below_black_pixel_count == 0 {
        return Err(GradeFailure::NothingBelowBlack);
    }
    if !strings_equal(report.gamut_definition.as_str(), definition) {
        return Err(GradeFailure::DefinitionDiffers);
    }
    Ok(())
}

/// Names that are joined stand in their order with one space between two.
pub proof fn lemma_joined_names(names: Seq<String>, count: nat)
    requires
        count >= 1,
    ensures
        spaced(names, 1) == names[0]@,
        spaced(names, count + 1) == spaced(names, count) + " "@ + names[count as int]@,
        TEN_BIT_FORMAT@ == "YUV420P10LE"@,
        NO_FORMATS@ == "no advertised pixel formats"@,
{
}

/// A reference is full exactly where it has the resolution of the document in
/// both directions, claims it, and holds eight bytes for each pixel; and what is
/// named as wrong is.
pub proof fn lemma_reference_exactly(reference: DeliveryReference, resolution: (u32, u32))
    ensures
        reference_failure(reference, resolution) is None <==> {
            &&& reference.size.0 == resolution.0
            &&& reference.size.1 == resolution.1
            &&& reference.full_resolution
            &&& reference.bytes == 8 * (resolution.0 * resolution.1)
        },
        reference_failure(reference, resolution) matches Some(failure) ==> {
            &&& failure is SizeDiffers <==> reference.size != resolution
            &&& failure is NotFullResolution ==> !reference.full_resolution
            &&& failure is BytesDiffer ==> reference.bytes != 8 * (resolution.0 * resolution.1)
        },
{
}

/// A grade clips exactly where it is measured in full, something is clamped, out
/// of gamut and below black, every one of the three channels is over range by a
/// recorded excursion, and the gamut is defined as it must be; and what is named
/// as missing is.
pub proof fn lemma_grade_exactly(report: GradeReport, definition: Seq<char>)
    ensures
        grade_failure(report, definition) is None <==> {
            &&& report.full_resolution
            &&& report.clamped_basis_points > 0
            &&& report.out_of_gamut_basis_points > 0
            &&& report.red.over_basis_points > 0
            &&& report.red.maximum_over_excursion_millionths > 0
            &&& report.green.over_basis_points > 0
            &&& report.green.maximum_over_excursion_millionths > 0
            &&& report.blue.over_basis_points > 0
            &&& report.blue.maximum_over_excursion_millionths > 0
            &&& report.below_black_pixel_count > 0
            &&& report.gamut_definition@ == definition
        },
        grade_failure(report, definition) matches Some(failure) ==> match failure {
            GradeFailure::NotFullResolution => !report.full_resolution,
            GradeFailure::NothingClamped => report.clamped_basis_points == 0,
            GradeFailure::NothingOutOfGamut => report.out_of_gamut_basis_points == 0,
            GradeFailure::NothingOver { channel } => {
                &&& channel == 0 ==> report.red.over_basis_points == 0
                &&& channel == 1 ==> report.green.over_basis_points == 0
                &&& channel == 2 ==> report.blue.over_basis_points == 0
                &&& channel < 3
            },
            GradeFailure::NoExcursion { channel } => {
                &&& channel == 0 ==> report.red.maximum_over_excursion_millionths <= 0
                &&& channel == 1 ==> report.green.maximum_over_excursion_millionths <= 0
                &&& channel == 2 ==> report.blue.maximum_over_excursion_millionths <= 0
                &&& channel < 3
            },
            GradeFailure::NothingBelowBlack => report.below_black_pixel_count == 0,
            GradeFailure::DefinitionDiffers => report.gamut_definition@ != definition,
        },
{
}

/// An encoder without formats advertises none; one with a format more advertises
/// that format too and nothing else.  The ten-bit lane's format by its word.
pub proof fn lemma_advertised_one_by_one(formats: Seq<String>, more: String, format: Seq<char>)
    ensures
        !advertises(Seq::empty(), format),
        advertises(formats.push(more), format) <==> advertises(formats, format) || more@ == format,
        TEN_BIT_FORMAT@ == "YUV420P10LE"@,
{
    let longer = formats.push(more);
    if advertises(formats, format) {
        let i = choose|i: int| 0 <= i < formats.len() && (#[trigger] formats[i])@ == format;
        assert(longer[i]@ == format);
    }
    if more@ == format {
        assert(longer[formats.len() as int]@ == format);
    }
    if advertises(longer, format) {
        let i = choose|i: int| 0 <= i < longer.len() && (#[trigger] longer[i])@ == format;
        if i < formats.len() {
            assert(formats[i]@ == format);
        }
    }
}

} // verus!
