//! Secondary grades: what a matte covers, what a node clips, and what a tracked
//! window contains.

use vstd::prelude::*;

use crate::chart::{cc7_round, distance, in_rect, rounded_quotient, Cc7PixelRect};

verus! {

/// The pixels that a matte covers at all, from the first byte of each pixel of
/// its coverage.
pub fn cc7_matte_inside(coverage: &[u8]) -> (inside: Vec<bool>)
    ensures
        inside@.len() == coverage@.len() / 4,
        forall|i: int| 0 <= i < inside@.len() ==> #[trigger] inside@[i] == (coverage@[4 * i] > 0),
{
    let bytes: usize = coverage.len();
    let length: usize = bytes / 4;
    let mut inside: Vec<bool> = Vec::new();
    let mut i: usize = 0;
    while i < length
        invariant
            i <= length,
            bytes == coverage@.len(),
            length == bytes / 4,
            inside@.len() == i,
            forall|j: int| 0 <= j < i ==> #[trigger] inside@[j] == (coverage@[4 * j] > 0),
        decreases length - i,
    {
        inside.push(coverage[4 * i] > 0);
        i += 1;
    }
    inside
}

/// Why the coverage of a node's matte proves nothing.
#[derive(Debug, Clone, Copy, PartialEq, Eq, Structural)]
pub enum MatteFailure {
    MatteDisabled,
    /// The statistics are not over the whole raster.
    PixelsMissing,
}

/// The pixels that a committed node's matte covers, where the matte is enabled
/// and its statistics count every pixel of the raster.
pub fn cc7_measure_matte(
    matte_enabled: bool,
    total_pixel_count: u64,
    size: (u32, u32),
    coverage: &[u8],
) -> (result: Result<Vec<bool>, MatteFailure>)
    ensures
        match result {
            Ok(inside) => {
                &&& matte_enabled
                &&& total_pixel_count == size.0 * size.1
                &&& inside@.len() == coverage@.len() / 4
                &&& forall|i: int|
                    0 <= i < inside@.len() ==> #[trigger] inside@[i] == (coverage@[4 * i] > 0)
            },
            Err(MatteFailure::MatteDisabled) => !matte_enabled,
            Err(MatteFailure::PixelsMissing) => matte_enabled && total_pixel_count != size.0
                * size.1,
        },
{
    if !matte_enabled {
        return Err(MatteFailure::MatteDisabled);
    }
    assert(0 <= size.0 * size.1 <= u64::MAX) by (nonlinear_arith)
        requires
            0 <= size.0 <= u32::MAX,
            0 <= size.1 <= u32::MAX,
    ;
    if total_pixel_count != size.0 as u64 * size.1 as u64 {
        return Err(MatteFailure::PixelsMissing);
    }
    Ok(cc7_matte_inside(coverage))
}

/// Whether a pixel's coverage is that of a patch: covered exactly where it lies
/// in the patch.
pub open spec fn agrees(inside: Seq<bool>, width: int, patch: Cc7PixelRect, i: int) -> bool {
    inside[i] == in_rect(patch, i % width, i / width)
}

/// Demands that a matte covers exactly a patch of a raster of some width.  The
/// error is the first pixel that disagrees.
pub fn assert_covers_exactly(inside: &[bool], width: u32, patch: Cc7PixelRect) -> (result: Result<
    (),
    usize,
>)
    requires
        width > 0,
        inside@.len() <= u32::MAX,
    ensures
        match result {
            Ok(_) => forall|i: int|
                0 <= i < inside@.len() ==> #[trigger] agrees(inside@, width as int, patch, i),
            Err(at) => {
                &&& at < inside@.len()
                &&& !agrees(inside@, width as int, patch, at as int)
                &&& forall|i: int|
                    0 <= i < at ==> #[trigger] agrees(inside@, width as int, patch, i)
            },
        },
{
    let length: usize = inside.len();
    let mut i: usize = 0;
    while i < length
        invariant
            i <= length,
            length == inside@.len(),
            inside@.len() <= u32::MAX,
            width > 0,
            forall|j: int| 0 <= j < i ==> #[trigger] agrees(inside@, width as int, patch, j),
        decreases length - i,
    {
        let x: u64 = (i as u32 % width) as u64;
        let y: u64 = (i as u32 / width) as u64;
        let in_patch: bool = x >= patch.x as u64 && x < patch.x as u64 + patch.width as u64 && y
            >= patch.y as u64 && y < patch.y as u64 + patch.height as u64;
        assert(in_patch == in_rect(patch, i as int % width as int, i as int / width as int));
        if inside[i] != in_patch {
            assert(!agrees(inside@, width as int, patch, i as int));
            return Err(i);
        }
        assert(agrees(inside@, width as int, patch, i as int));
        i += 1;
    }
    Ok(())
}

/// What quality control measures of a document, in basis points.
#[derive(Debug, Clone, Copy, PartialEq, Eq, Structural)]
pub struct QcShares {
    pub clamped_basis_points: u32,
    pub out_of_gamut_basis_points: u32,
}

/// What a node adds to the shares that quality control measures.
#[derive(Debug, Clone, Copy, PartialEq, Eq, Structural)]
pub struct Cc7RangeAttribution {
    pub range_delta: i64,
    pub gamut_delta: i64,
}

/// What a node adds to the shares: those with it without those without it.
pub fn cc7_range_attribution(with_node: &QcShares, without_node: &QcShares) -> (attribution:
    Cc7RangeAttribution)
    ensures
        attribution.range_delta == with_node.clamped_basis_points
            - without_node.clamped_basis_points,
        attribution.gamut_delta == with_node.out_of_gamut_basis_points
            - without_node.out_of_gamut_basis_points,
{
    Cc7RangeAttribution {
        range_delta: with_node.clamped_basis_points as i64
            - without_node.clamped_basis_points as i64,
        gamut_delta: with_node.out_of_gamut_basis_points as i64
            - without_node.out_of_gamut_basis_points as i64,
    }
}

/// What a sample of a track needs of the window, in hundredths of a pixel.
#[derive(Debug, Clone, Copy, PartialEq, Eq, Structural)]
pub struct Cc7ContainmentSample {
    pub frame: i64,
    pub required_half_width_hundredths: i64,
    pub required_half_height_hundredths: i64,
}

/// The half extent that a window needs to contain a square, in hundredths of a
/// pixel: the distance of their centres and half the square.
pub open spec fn required_half_extent(
    centre: int,
    square: int,
    extent: int,
    square_size: int,
) -> int {
    rounded_quotient(distance(square, centre) * extent + 5_000 * square_size, 100)
}

/// Whether what a window needs is a number of 64 bits.
pub open spec fn need_fits(centre: i64, square: i64, extent: u32, square_size: u32) -> bool {
    &&& i64::MIN < square - centre <= i64::MAX
    &&& distance(square as int, centre as int) * extent + 5_000 * square_size <= i64::MAX
}

/// The half extent, in hundredths of a pixel, that a window needs to contain a
/// square of some size on an axis of some pixels.
pub fn cc7_required_half_extent_hundredths(
    centre_basis_points: i64,
    square_basis_points: i64,
    extent: u32,
    square_size: u32,
) -> (half: i64)
    requires
        need_fits(centre_basis_points, square_basis_points, extent, square_size),
    ensures
        half == required_half_extent(
            centre_basis_points as int,
            square_basis_points as int,
            extent as int,
            square_size as int,
        ),
{
    let offset: i64 = if square_basis_points >= centre_basis_points {
        square_basis_points - centre_basis_points
    } else {
        centre_basis_points - square_basis_points
    };
    assert(0 <= offset * extent) by (nonlinear_arith)
        requires
            0 <= offset,
            0 <= extent,
    ;
    cc7_round(offset * extent as i64 + 5_000 * square_size as i64, 100)
}

/// The half extent of a window in hundredths of a pixel.
pub fn cc7_window_half_extent_hundredths(basis_points: i64, extent: u32) -> (half: i64)
    requires
        i64::MIN <= basis_points * extent <= i64::MAX,
    ensures
        half == rounded_quotient(basis_points * extent, 100),
{
    cc7_round(basis_points * extent as i64, 100)
}

/// What every sample of a track needs of the window.
pub fn cc7_containment_samples(
    frames: &[i64],
    centres: &[(i64, i64)],
    squares: &[(i64, i64)],
    size: (u32, u32),
    square_size: u32,
) -> (samples: Vec<Cc7ContainmentSample>)
    requires
        centres@.len() == frames@.len(),
        squares@.len() == frames@.len(),
        forall|i: int|
            0 <= i < frames@.len() ==> need_fits(
                (#[trigger] centres@[i]).0,
                squares@[i].0,
                size.0,
                square_size,
            ) && need_fits(centres@[i].1, squares@[i].1, size.1, square_size),
    ensures
        samples@.len() == frames@.len(),
        forall|i: int|
            0 <= i < frames@.len() ==> {
                &&& (#[trigger] samples@[i]).frame == frames@[i]
                &&& samples@[i].required_half_width_hundredths == required_half_extent(
                    centres@[i].0 as int,
                    squares@[i].0 as int,
                    size.0 as int,
                    square_size as int,
                )
                &&& samples@[i].required_half_height_hundredths == required_half_extent(
                    centres@[i].1 as int,
                    squares@[i].1 as int,
                    size.1 as int,
                    square_size as int,
                )
            },
{
    let mut samples: Vec<Cc7ContainmentSample> = Vec::new();
    let length: usize = frames.len();
    let mut i: usize = 0;
    while i < length
        invariant
            i <= length,
            length == frames@.len(),
            centres@.len() == frames@.len(),
            squares@.len() == frames@.len(),
            forall|j: int|
                0 <= j < frames@.len() ==> need_fits(
                    (#[trigger] centres@[j]).0,
                    squares@[j].0,
                    size.0,
                    square_size,
                ) && need_fits(centres@[j].1, squares@[j].1, size.1, square_size),
            samples@.len() == i,
            forall|j: int|
                0 <= j < i ==> {
                    &&& (#[trigger] samples@[j]).frame == frames@[j]
                    &&& samples@[j].required_half_width_hundredths == required_half_extent(
                        centres@[j].0 as int,
                        squares@[j].0 as int,
                        size.0 as int,
                        square_size as int,
                    )
                    &&& samples@[j].required_half_height_hundredths == required_half_extent(
                        centres@[j].1 as int,
                        squares@[j].1 as int,
                        size.1 as int,
                        square_size as int,
                    )
                },
        decreases length - i,
    {
        let centre = centres[i];
        let square = squares[i];
        assert(centre == centres@[i as int] && square == squares@[i as int]);
        let width: i64 = cc7_required_half_extent_hundredths(
            centre.0,
            square.0,
            size.0,
            square_size,
        );
        let height: i64 = cc7_required_half_extent_hundredths(
            centre.1,
            square.1,
            size.1,
            square_size,
        );
        samples.push(
            Cc7ContainmentSample {
                frame: frames[i],
                required_half_width_hundredths: width,
                required_half_height_hundredths: height,
            },
        );
        i += 1;
    }
    samples
}

/// A centred window needs exactly half the square, and one that is off centre
/// needs more the farther off it is.
pub proof fn lemma_farther_needs_more(
    centre: int,
    nearer: int,
    farther: int,
    extent: int,
    square_size: int,
)
    requires
        extent >= 0,
        square_size >= 0,
        distance(nearer, centre) <= distance(farther, centre),
    ensures
        required_half_extent(centre, centre, extent, square_size) == 50 * square_size,
        required_half_extent(centre, nearer, extent, square_size) <= required_half_extent(
            centre,
            farther,
            extent,
            square_size,
        ),
{
    let near = distance(nearer, centre);
    let far = distance(farther, centre);
    assert(0 <= near * extent <= far * extent) by (nonlinear_arith)
        requires
            0 <= near <= far,
            extent >= 0,
    ;
    assert(distance(centre, centre) * extent == 0) by (nonlinear_arith)
        requires
            distance(centre, centre) == 0,
    ;
    assert((10_000 * square_size + 100) / 200 == 50 * square_size);
    assert(rounded_quotient(5_000 * square_size, 100) == 50 * square_size);
}

/// Why a tracked window does not contain its square as it must.
#[derive(Debug, Clone, Copy, PartialEq, Eq, Structural)]
pub enum ContainmentGap {
    /// A sample, by its place, that the window is too narrow for.
    Width { index: usize },
    /// A sample, by its place, that the window is too low for.
    Height { index: usize },
    /// No sample is that of the frame that is left out.
    ExcludedMissing,
    /// The frame that is left out would fit.
    ExcludedFits,
}

/// What the samples need at most, leaving one frame out.
#[derive(Debug, Clone, Copy, PartialEq, Eq, Structural)]
pub struct WorstRequirement {
    pub half_width_hundredths: i64,
    pub half_height_hundredths: i64,
}

/// Whether a sample that is not left out fits into the window.
pub open spec fn fits(sample: Cc7ContainmentSample, excluded: i64, window: (i64, i64)) -> bool {
    sample.frame == excluded || (sample.required_half_width_hundredths <= window.0
        && sample.required_half_height_hundredths <= window.1)
}

/// The last sample of a frame, of the first ones.
pub open spec fn last_of(samples: Seq<Cc7ContainmentSample>, frame: i64, count: nat) -> Option<
    Cc7ContainmentSample,
>
    decreases count,
{
    if count == 0 {
        None
    } else if samples[count - 1].frame == frame {
        Some(samples[count - 1])
    } else {
        last_of(samples, frame, (count - 1) as nat)
    }
}

/// Whether a requirement is the greatest of the first samples, on each axis,
/// that are not left out.
pub open spec fn is_worst_requirement(
    samples: Seq<Cc7ContainmentSample>,
    excluded: i64,
    count: int,
    worst: WorstRequirement,
) -> bool {
    &&& worst.half_width_hundredths >= 0
    &&& worst.half_height_hundredths >= 0
    &&& forall|i: int|
        0 <= i < count && (#[trigger] samples[i]).frame != excluded ==> {
            &&& samples[i].required_half_width_hundredths <= worst.half_width_hundredths
            &&& samples[i].required_half_height_hundredths <= worst.half_height_hundredths
        }
    &&& worst.half_width_hundredths == 0 || exists|i: int|
        0 <= i < count && (#[trigger] samples[i]).frame != excluded
            && samples[i].required_half_width_hundredths == worst.half_width_hundredths
    &&& worst.half_height_hundredths == 0 || exists|i: int|
        0 <= i < count && (#[trigger] samples[i]).frame != excluded
            && samples[i].required_half_height_hundredths == worst.half_height_hundredths
}

/// Demands that a window contains the square at every sample but that of one
/// frame, which it must not contain in width, and gives the greatest need.
pub fn assert_window_contains_the_square(
    samples: &[Cc7ContainmentSample],
    excluded: i64,
    window: (i64, i64),
) -> (result: Result<WorstRequirement, ContainmentGap>)
    ensures
        match result {
            Ok(worst) => {
                &&& forall|i: int|
                    0 <= i < samples@.len() ==> fits(#[trigger] samples@[i], excluded, window)
                &&& last_of(samples@, excluded, samples@.len()) is Some
                &&& last_of(samples@, excluded, samples@.len())->0.required_half_width_hundredths
                    > window.0
                &&& is_worst_requirement(samples@, excluded, samples@.len() as int, worst)
            },
            Err(ContainmentGap::Width { index }) => {
                &&& index < samples@.len()
                &&& samples@[index as int].frame != excluded
                &&& samples@[index as int].required_half_width_hundredths > window.0
                &&& forall|i: int| 0 <= i < index ==> fits(#[trigger] samples@[i], excluded, window)
            },
            Err(ContainmentGap::Height { index }) => {
                &&& index < samples@.len()
                &&& samples@[index as int].frame != excluded
                &&& samples@[index as int].required_half_width_hundredths <= window.0
                &&& samples@[index as int].required_half_height_hundredths > window.1
                &&& forall|i: int| 0 <= i < index ==> fits(#[trigger] samples@[i], excluded, window)
            },
            Err(ContainmentGap::ExcludedMissing) => {
                &&& forall|i: int|
                    0 <= i < samples@.len() ==> fits(#[trigger] samples@[i], excluded, window)
                &&& last_of(samples@, excluded, samples@.len()) is None
            },
            Err(ContainmentGap::ExcludedFits) => {
                &&& forall|i: int|
                    0 <= i < samples@.len() ==> fits(#[trigger] samples@[i], excluded, window)
                &&& last_of(samples@, excluded, samples@.len()) is Some
                &&& last_of(samples@, excluded, samples@.len())->0.required_half_width_hundredths
                    <= window.0
            },
        },
{
    let mut width: i64 = 0;
    let mut height: i64 = 0;
    let mut lagging: Option<Cc7ContainmentSample> = None;
    let mut index: usize = 0;
    while index < samples.len()
        invariant
            index <= samples.len(),
            forall|i: int| 0 <= i < index ==> fits(#[trigger] samples@[i], excluded, window),
            lagging == last_of(samples@, excluded, index as nat),
            is_worst_requirement(
                samples@,
                excluded,
                index as int,
                (WorstRequirement {
                    half_width_hundredths: width,
                    half_height_hundredths: height,
                }),
            ),
        decreases samples.len() - index,
    {
        let sample = samples[index];
        assert(sample == samples@[index as int]);
        if sample.frame == excluded {
            lagging = Some(sample);
        } else {
            if sample.required_half_width_hundredths > window.0 {
                return Err(ContainmentGap::Width { index });
            }
            if sample.required_half_height_hundredths > window.1 {
                return Err(ContainmentGap::Height { index });
            }
            if sample.required_half_width_hundredths > width {
                width = sample.required_half_width_hundredths;
            }
            if sample.required_half_height_hundredths > height {
                height = sample.required_half_height_hundredths;
            }
        }
        index += 1;
    }
    match lagging {
        None => Err(ContainmentGap::ExcludedMissing),
        Some(sample) => if sample.required_half_width_hundredths <= window.0 {
            Err(ContainmentGap::ExcludedFits)
        } else {
            Ok(WorstRequirement { half_width_hundredths: width, half_height_hundredths: height })
        },
    }
}

/// What a window needs is the distance of the centres and half the square, to
/// the nearest hundredth of a pixel, whichever way the square lies.
pub proof fn lemma_need_in_numbers(centre: int, square: int, extent: int, square_size: int)
    requires
        extent >= 0,
        square_size >= 0,
    ensures
        square >= centre ==> 100 * required_half_extent(centre, square, extent, square_size) - 50
            <= (square - centre) * extent + 5_000 * square_size < 100 * required_half_extent(
            centre,
            square,
            extent,
            square_size,
        ) + 50,
        required_half_extent(centre, square, extent, square_size) == required_half_extent(
            square,
            centre,
            extent,
            square_size,
        ),
{
    let offset = distance(square, centre);
    assert(offset * extent >= 0) by (nonlinear_arith)
        requires
            offset >= 0,
            extent >= 0,
    ;
    crate::chart::lemma_rounding_exactly(offset * extent + 5_000 * square_size, 100);
}

/// A matte covers exactly a patch where, in columns and rows, each pixel of the
/// patch is covered and no other is.
pub proof fn lemma_cover_by_position(inside: Seq<bool>, width: int, patch: Cc7PixelRect, x: int, y: int)
    requires
        0 <= x < width,
        0 <= y,
    ensures
        agrees(inside, width, patch, y * width + x) <==> (inside[y * width + x] <==> patch.x <= x
            < patch.x + patch.width && patch.y <= y < patch.y + patch.height),
{
    let i = y * width + x;
    assert(i % width == x && i / width == y) by (nonlinear_arith)
        requires
            i == y * width + x,
            0 <= x < width,
            0 <= y,
    ;
}

/// The last sample of a frame is the one behind which no other has the frame.
pub proof fn lemma_last_sample_of_a_frame(
    samples: Seq<Cc7ContainmentSample>,
    frame: i64,
    count: nat,
)
    requires
        count <= samples.len(),
    ensures
        match last_of(samples, frame, count) {
            Some(sample) => exists|at: int|
                {
                    &&& 0 <= at < count
                    &&& #[trigger] samples[at] == sample
                    &&& sample.frame == frame
                    &&& forall|i: int| at < i < count ==> (#[trigger] samples[i]).frame != frame
                },
            None => forall|i: int| 0 <= i < count ==> (#[trigger] samples[i]).frame != frame,
        },
    decreases count,
{
    if count > 0 {
        let last = (count - 1) as nat;
        lemma_last_sample_of_a_frame(samples, frame, last);
        if samples[last as int].frame == frame {
            assert(samples[last as int] == last_of(samples, frame, count)->0);
        } else if last_of(samples, frame, last) is Some {
            let sample = last_of(samples, frame, last)->0;
            let at = choose|at: int|
                {
                    &&& 0 <= at < last
                    &&& #[trigger] samples[at] == sample
                    &&& sample.frame == frame
                    &&& forall|i: int| at < i < last ==> (#[trigger] samples[i]).frame != frame
                };
            assert(samples[at] == sample);
        }
    }
}

/// A sample that is not left out fits exactly where the window is as wide and
/// as high as it needs.
pub proof fn lemma_fit_in_numbers(sample: Cc7ContainmentSample, excluded: i64, window: (i64, i64))
    ensures
        sample.frame == excluded ==> fits(sample, excluded, window),
        sample.frame != excluded ==> (fits(sample, excluded, window)
            <==> sample.required_half_width_hundredths <= window.0
            && sample.required_half_height_hundredths <= window.1),
{
}

/// One sample more: a sample that is left out changes nothing, and another one
/// makes each requirement the greater of its own and the one before.  Without
/// samples nothing is required.
pub proof fn lemma_worst_requirement_one_by_one(
    samples: Seq<Cc7ContainmentSample>,
    excluded: i64,
    count: int,
    before: WorstRequirement,
    worst: WorstRequirement,
)
    requires
        0 <= count < samples.len(),
        is_worst_requirement(samples, excluded, count, before),
        is_worst_requirement(samples, excluded, count + 1, worst),
    ensures
        count == 0 ==> before.half_width_hundredths == 0 && before.half_height_hundredths == 0,
        samples[count].frame == excluded ==> worst == before,
        samples[count].frame != excluded ==> worst.half_width_hundredths == (if samples[count].required_half_width_hundredths
            > before.half_width_hundredths {
            samples[count].required_half_width_hundredths
        } else {
            before.half_width_hundredths
        }),
        samples[count].frame != excluded ==> worst.half_height_hundredths == (if samples[count].required_half_height_hundredths
            > before.half_height_hundredths {
            samples[count].required_half_height_hundredths
        } else {
            before.half_height_hundredths
        }),
{
    let last = samples[count];
    if before.half_width_hundredths != 0 {
        let i = choose|i: int|
            0 <= i < count && (#[trigger] samples[i]).frame != excluded
                && samples[i].required_half_width_hundredths == before.half_width_hundredths;
        assert(samples[i].required_half_width_hundredths <= worst.half_width_hundredths);
    }
    if worst.half_width_hundredths != 0 {
        let i = choose|i: int|
            0 <= i < count + 1 && (#[trigger] samples[i]).frame != excluded
                && samples[i].required_half_width_hundredths == worst.half_width_hundredths;
        assert(i < count ==> samples[i].required_half_width_hundredths
            <= before.half_width_hundredths);
    }
    if before.half_height_hundredths != 0 {
        let i = choose|i: int|
            0 <= i < count && (#[trigger] samples[i]).frame != excluded
                && samples[i].required_half_height_hundredths == before.half_height_hundredths;
        assert(samples[i].required_half_height_hundredths <= worst.half_height_hundredths);
    }
    if worst.half_height_hundredths != 0 {
        let i = choose|i: int|
            0 <= i < count + 1 && (#[trigger] samples[i]).frame != excluded
                && samples[i].required_half_height_hundredths == worst.half_height_hundredths;
        assert(i < count ==> samples[i].required_half_height_hundredths
            <= before.half_height_hundredths);
    }
}

} // verus!
