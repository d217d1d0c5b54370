//! The small raster that mattes are measured on.

use vstd::prelude::*;

use crate::matte::{centred_window, SHAPE_RECT};
use crate::tally::{how_many, lemma_how_many_bound};

verus! {

/// The raster's width in pixels.
pub const CC5_RASTER_WIDTH: u32 = 64;

/// The raster's height in pixels.
pub const CC5_RASTER_HEIGHT: u32 = 36;

/// The raster's number of pixels.
pub const CC5_RASTER_PIXELS: usize = 2_304;

/// The width of a block of the parity raster.
pub const CC5_PARITY_BLOCK_WIDTH: u32 = 4;

/// The height of a block of the parity raster.
pub const CC5_PARITY_BLOCK_HEIGHT: u32 = 3;

/// The number of blocks beside each other in the parity raster.
pub const CC5_PARITY_BLOCK_COLUMNS: u32 = 16;

/// The number of blocks above each other in the parity raster.
pub const CC5_PARITY_BLOCK_ROWS: u32 = 12;

/// The number of samples that the blocks of the parity raster show.
pub const CC5_PARITY_SAMPLES: usize = 192;

/// The number of pixels that the centred window covers.
pub const CENTRED_WINDOW_PIXELS: usize = 576;

/// The number of pixels that the centred window leaves uncovered.
pub const CENTRED_WINDOW_OUTSIDE_PIXELS: usize = 1_728;

/// The share of the raster that the centred window covers, in basis points.
pub const CENTRED_WINDOW_BASIS_POINTS: u64 = 2_500;

/// The number of patches on the chart.
pub const CHART_PATCHES: usize = 6;

/// The width of a chart patch.
pub const CHART_PATCH_WIDTH: u32 = 8;

/// The first row of the chart patches.
pub const CHART_PATCH_TOP: u32 = 12;

/// The height of a chart patch.
pub const CHART_PATCH_HEIGHT: u32 = 12;

/// The number of pixels of a chart patch.
pub const CHART_PATCH_PIXELS: usize = 96;

/// The column of a raster position.
pub open spec fn column(index: int) -> int {
    index % 64
}

/// The row of a raster position.
pub open spec fn row(index: int) -> int {
    index / 64
}

/// The position of a pixel in the raster.
pub fn raster_index(pixel: (u32, u32)) -> (index: usize)
    requires
        pixel.1 * 64 + pixel.0 <= u32::MAX,
    ensures
        index == pixel.1 * 64 + pixel.0,
{
    (pixel.1 * CC5_RASTER_WIDTH + pixel.0) as usize
}

/// Two pixels of the raster stand at the same position only if they are the
/// same pixel, and every position is that of a pixel.
pub proof fn lemma_raster_index_is_exact(x: int, y: int)
    requires
        0 <= x < CC5_RASTER_WIDTH,
        0 <= y < CC5_RASTER_HEIGHT,
    ensures
        0 <= y * 64 + x < CC5_RASTER_PIXELS,
        column(y * 64 + x) == x,
        row(y * 64 + x) == y,
{
}

/// Whether the centred window covers a raster position, as derived by hand.
pub open spec fn in_centred_window(index: int) -> bool {
    16 <= column(index) <= 47 && 9 <= row(index) <= 26
}

/// The covered set of the centred window, as derived by hand.
pub fn hand_derived_centred_window() -> (covered: Vec<bool>)
    ensures
        covered@ == Seq::new(CC5_RASTER_PIXELS as nat, |i: int| in_centred_window(i)),
{
    let mut covered: Vec<bool> = Vec::new();
    let mut index: usize = 0;
    while index < CC5_RASTER_PIXELS
        invariant
            index <= CC5_RASTER_PIXELS,
            covered@ == Seq::new(index as nat, |i: int| in_centred_window(i)),
        decreases CC5_RASTER_PIXELS - index,
    {
        let x: u32 = index as u32 % CC5_RASTER_WIDTH;
        let y: u32 = index as u32 / CC5_RASTER_WIDTH;
        covered.push(16 <= x && x <= 47 && 9 <= y && y <= 26);
        index += 1;
        assert(covered@ =~= Seq::new(index as nat, |i: int| in_centred_window(i)));
    }
    covered
}

/// Whether a pixel's centre lies inside an unrotated rectangle: its distance
/// from the window's centre, on each axis, is at most the half extent.  All
/// in basis points of the frame, times twice its extent in pixels.
pub open spec fn centre_inside(x: int, y: int, cx: int, cy: int, hw: int, hh: int) -> bool {
    &&& -hw * 128 <= (2 * x + 1) * 10_000 - cx * 128 <= hw * 128
    &&& -hh * 72 <= (2 * y + 1) * 10_000 - cy * 72 <= hh * 72
}

/// The set derived by hand is that of the centred window, a rectangle with a
/// hard edge, neither rotated nor inverted: a position is in it exactly where
/// its pixel's centre lies inside the window.  No pixel's centre comes nearer
/// to an edge than a thirty-second of the half extent, so that no rounding of
/// the distance moves a pixel across it.
pub proof fn lemma_hand_derived_is_the_geometry(index: int)
    requires
        0 <= index < CC5_RASTER_PIXELS,
    ensures
        ({
            let window = centred_window();
            let dx = (2 * column(index) + 1) * 10_000 - window.cx * 128;
            let dy = (2 * row(index) + 1) * 10_000 - window.cy * 72;
            &&& window.shape == SHAPE_RECT
            &&& window.rotation == 0
            &&& window.feather == 0
            &&& window.invert == 0
            &&& in_centred_window(index) <==> centre_inside(
                column(index),
                row(index),
                window.cx as int,
                window.cy as int,
                window.hw as int,
                window.hh as int,
            )
            &&& 32 * dx <= 31 * window.hw * 128 || 32 * dx >= 33 * window.hw * 128
            &&& -32 * dx <= 31 * window.hw * 128 || -32 * dx >= 33 * window.hw * 128
            &&& 32 * dy <= 31 * window.hh * 72 || 32 * dy >= 33 * window.hh * 72
            &&& -32 * dy <= 31 * window.hh * 72 || -32 * dy >= 33 * window.hh * 72
        }),
{
}

/// The smallest box around the set derived by hand, and the only one: columns
/// 16 to 47 and rows 9 to 26.
pub proof fn lemma_centred_window_box(bounds: (u32, u32, u32, u32))
    ensures
        ({
            let covered = Seq::new(CC5_RASTER_PIXELS as nat, |i: int| in_centred_window(i));
            box_holds(covered, bounds) && box_touches(covered, bounds) <==> bounds == (
                16u32,
                47u32,
                9u32,
                26u32,
            )
        }),
{
    let covered = Seq::new(CC5_RASTER_PIXELS as nat, |i: int| in_centred_window(i));
    let derived = (16u32, 47u32, 9u32, 26u32);
    assert(covered[592] && column(592) == 16 && row(592) == 9);
    assert(covered[1_711] && column(1_711) == 47 && row(1_711) == 26);
    assert(box_holds(covered, derived));
    assert(box_touches(covered, derived));
    if box_holds(covered, bounds) && box_touches(covered, bounds) {
        lemma_bounding_box_is_unique(covered, bounds, derived);
    }
}

/// How many positions of one row, up to a column, the centred window covers.
proof fn lemma_row_count(y: int, columns: nat)
    requires
        0 <= y < 36,
        columns <= 64,
    ensures
        how_many(
            (y * 64 + columns) as nat,
            |i: int| in_centred_window(i),
        ) == how_many((y * 64) as nat, |i: int| in_centred_window(i)) + (if 9 <= y <= 26 {
            if columns <= 16 {
                0int
            } else if columns <= 48 {
                columns - 16
            } else {
                32
            }
        } else {
            0
        }),
    decreases columns,
{
    if columns > 0 {
        lemma_row_count(y, (columns - 1) as nat);
        lemma_raster_index_is_exact(columns - 1, y);
    }
}

proof fn lemma_rows_count(rows: nat)
    requires
        rows <= 36,
    ensures
        how_many((rows * 64) as nat, |i: int| in_centred_window(i)) == (if rows <= 9 {
            0int
        } else if rows <= 27 {
            32 * (rows - 9)
        } else {
            576
        }),
    decreases rows,
{
    if rows > 0 {
        lemma_rows_count((rows - 1) as nat);
        lemma_row_count(rows - 1, 64);
    }
}

/// The centred window covers a quarter of the raster: 576 of its pixels.
pub proof fn lemma_centred_window_count()
    ensures
        how_many(CC5_RASTER_PIXELS as nat, |i: int| in_centred_window(i)) == CENTRED_WINDOW_PIXELS,
        CENTRED_WINDOW_PIXELS + CENTRED_WINDOW_OUTSIDE_PIXELS == CC5_RASTER_PIXELS,
        CENTRED_WINDOW_PIXELS * 10_000 == CENTRED_WINDOW_BASIS_POINTS * CC5_RASTER_PIXELS,
{
    lemma_rows_count(36);
}

/// Whether every covered position lies in the box.
pub open spec fn box_holds(covered: Seq<bool>, bounds: (u32, u32, u32, u32)) -> bool {
    forall|i: int|
        0 <= i < covered.len() && #[trigger] covered[i] ==> bounds.0 <= column(i) <= bounds.1
            && bounds.2 <= row(i) <= bounds.3
}

/// Whether each side of the box touches a covered position.
pub open spec fn box_touches(covered: Seq<bool>, bounds: (u32, u32, u32, u32)) -> bool {
    &&& exists|i: int| 0 <= i < covered.len() && #[trigger] covered[i] && column(i) == bounds.0
    &&& exists|i: int| 0 <= i < covered.len() && #[trigger] covered[i] && column(i) == bounds.1
    &&& exists|i: int| 0 <= i < covered.len() && #[trigger] covered[i] && row(i) == bounds.2
    &&& exists|i: int| 0 <= i < covered.len() && #[trigger] covered[i] && row(i) == bounds.3
}

fn least(a: u32, b: u32) -> (result: u32)
    ensures
        result == (if a <= b { a } else { b }),
{
    if a <= b {
        a
    } else {
        b
    }
}

fn greatest(a: u32, b: u32) -> (result: u32)
    ensures
        result == (if a >= b { a } else { b }),
{
    if a >= b {
        a
    } else {
        b
    }
}

/// The smallest box of columns and rows, first and last of each, around a
/// covered set; `None` where nothing is covered.
pub fn covered_bounding_box(covered: &[bool]) -> (bounds: Option<(u32, u32, u32, u32)>)
    requires
        covered.len() <= 0x1_0000_0000,
    ensures
        match bounds {
            Some(bounds) => box_holds(covered@, bounds) && box_touches(covered@, bounds),
            None => forall|i: int| 0 <= i < covered.len() ==> !#[trigger] covered@[i],
        },
{
    let mut bounds: Option<(u32, u32, u32, u32)> = None;
    let length: usize = covered.len();
    let mut index: usize = 0;
    while index < length
        invariant
            index <= length,
            length == covered.len(),
            length <= 0x1_0000_0000,
            match bounds {
                Some(bounds) => {
                    &&& forall|i: int|
                        0 <= i < index && #[trigger] covered@[i] ==> bounds.0 <= column(i)
                            <= bounds.1 && bounds.2 <= row(i) <= bounds.3
                    &&& exists|i: int|
                        0 <= i < index && #[trigger] covered@[i] && column(i) == bounds.0
                    &&& exists|i: int|
                        0 <= i < index && #[trigger] covered@[i] && column(i) == bounds.1
                    &&& exists|i: int|
                        0 <= i < index && #[trigger] covered@[i] && row(i) == bounds.2
                    &&& exists|i: int|
                        0 <= i < index && #[trigger] covered@[i] && row(i) == bounds.3
                },
                None => forall|i: int| 0 <= i < index ==> !#[trigger] covered@[i],
            },
        decreases length - index,
    {
        if covered[index] {
            let x: u32 = index as u32 % CC5_RASTER_WIDTH;
            let y: u32 = index as u32 / CC5_RASTER_WIDTH;
            assert(covered@[index as int] && column(index as int) == x && row(index as int) == y);
            bounds =
            match bounds {
                None => Some((x, x, y, y)),
                Some((left, right, top, bottom)) => Some(
                    (least(left, x), greatest(right, x), least(top, y), greatest(bottom, y)),
                ),
            };
        }
        index += 1;
    }
    bounds
}

/// A covered set has one smallest box.
pub proof fn lemma_bounding_box_is_unique(
    covered: Seq<bool>,
    left: (u32, u32, u32, u32),
    right: (u32, u32, u32, u32),
)
    requires
        box_holds(covered, left),
        box_touches(covered, left),
        box_holds(covered, right),
        box_touches(covered, right),
    ensures
        left == right,
{
}

/// The sample that a position of the parity raster shows: the one of its
/// block.
pub open spec fn parity_sample(index: int) -> int {
    row(index) / 3 * 16 + column(index) / 4
}

/// The parity raster: samples as a grid of blocks.  A sample is three channel
/// values by their bits.
pub fn cc5_parity_raster(samples: &[[u32; 3]]) -> (raster: Vec<[u32; 3]>)
    requires
        samples.len() == CC5_PARITY_SAMPLES,
    ensures
        raster@ == Seq::new(CC5_RASTER_PIXELS as nat, |i: int| samples@[parity_sample(i)]),
{
    let mut raster: Vec<[u32; 3]> = Vec::new();
    let mut index: usize = 0;
    while index < CC5_RASTER_PIXELS
        invariant
            index <= CC5_RASTER_PIXELS,
            samples.len() == CC5_PARITY_SAMPLES,
            raster@ == Seq::new(index as nat, |i: int| samples@[parity_sample(i)]),
        decreases CC5_RASTER_PIXELS - index,
    {
        let x: u32 = index as u32 % CC5_RASTER_WIDTH;
        let y: u32 = index as u32 / CC5_RASTER_WIDTH;
        let block_x: u32 = x / CC5_PARITY_BLOCK_WIDTH;
        let block_y: u32 = y / CC5_PARITY_BLOCK_HEIGHT;
        raster.push(samples[(block_y * CC5_PARITY_BLOCK_COLUMNS + block_x) as usize]);
        index += 1;
        assert(raster@ =~= Seq::new(index as nat, |i: int| samples@[parity_sample(i)]));
    }
    raster
}

/// Every sample is shown: some position of the parity raster shows it, and no
/// position shows anything else.
pub proof fn lemma_parity_raster_shows_every_sample(sample: int, index: int)
    requires
        0 <= sample < CC5_PARITY_SAMPLES,
        0 <= index < CC5_RASTER_PIXELS,
    ensures
        0 <= parity_sample(index) < CC5_PARITY_SAMPLES,
        parity_sample((sample / 16 * 3) * 64 + sample % 16 * 4) == sample,
        0 <= (sample / 16 * 3) * 64 + sample % 16 * 4 < CC5_RASTER_PIXELS,
{
    let x = sample % 16 * 4;
    let y = sample / 16 * 3;
    lemma_raster_index_is_exact(x, y);
}

/// Whether the block at a position shows one of the three patterns whose
/// greatest value stands in two channels at once.
pub open spec fn on_sector_boundary(index: int) -> bool {
    4 <= column(index) / 4 % 8 <= 6
}

/// Whether the block at a position shows a pattern on the boundary between two
/// hue sectors.
pub fn is_on_sector_boundary(index: usize) -> (result: bool)
    requires
        index < CC5_RASTER_PIXELS,
    ensures
        result == on_sector_boundary(index as int),
{
    let block: u32 = index as u32 % CC5_RASTER_WIDTH / CC5_PARITY_BLOCK_WIDTH % 8;
    4 <= block && block <= 6
}

/// The three samples of the over-range raster that lie outside every channel's
/// usual range, by position and by bits: minus zero, four, and minus a
/// quarter.
pub open spec fn with_planted_samples(field: Seq<[u32; 3]>) -> Seq<[u32; 3]> {
    field.update(2int * 64 + 2, [0x8000_0000u32, 0x3e80_0000u32, 0x3f00_0000u32]).update(
        33int * 64 + 61,
        [0x4080_0000u32, 0x4080_0000u32, 0x4080_0000u32],
    ).update(33int * 64 + 2, [0xbe80_0000u32, 0x3e80_0000u32, 0x3f00_0000u32])
}

/// The field raster with a minus zero, an over-range sample and a genuine
/// negative planted outside the centred window.
pub fn cc5_over_range_raster(field: Vec<[u32; 3]>) -> (raster: Vec<[u32; 3]>)
    requires
        field.len() == CC5_RASTER_PIXELS,
    ensures
        raster@ == with_planted_samples(field@),
{
    let mut raster = field;
    raster.set(raster_index((2, 2)), [0x8000_0000, 0x3e80_0000, 0x3f00_0000]);
    raster.set(raster_index((61, 33)), [0x4080_0000, 0x4080_0000, 0x4080_0000]);
    raster.set(raster_index((2, 33)), [0xbe80_0000, 0x3e80_0000, 0x3f00_0000]);
    raster
}

/// The planted samples lie outside the centred window, so that they show what
/// a matte leaves alone.
pub proof fn lemma_planted_samples_are_outside()
    ensures
        !in_centred_window(2int * 64 + 2),
        !in_centred_window(33int * 64 + 61),
        !in_centred_window(33int * 64 + 2),
{
}

/// The chart patch that owns a raster position.
pub open spec fn patch_at(index: int) -> Option<usize> {
    if 12 <= row(index) < 24 && column(index) % 10 >= 2 && column(index) / 10 < 6 {
        Some((column(index) / 10) as usize)
    } else {
        None
    }
}

/// The chart patch, if any, that owns a raster position.
pub fn chart_patch_of(index: usize) -> (patch: Option<usize>)
    requires
        index <= u32::MAX,
    ensures
        patch == patch_at(index as int),
{
    let x: u32 = index as u32 % CC5_RASTER_WIDTH;
    let y: u32 = index as u32 / CC5_RASTER_WIDTH;
    if y < CHART_PATCH_TOP || y >= CHART_PATCH_TOP + CHART_PATCH_HEIGHT {
        return None;
    }
    let patch: usize = (x / 10) as usize;
    if x % 10 >= 2 && patch < CHART_PATCHES {
        Some(patch)
    } else {
        None
    }
}

/// The positions that a chart patch owns are a rectangle of eight columns and
/// twelve rows: the first behind the gap of its ten columns.
pub proof fn lemma_chart_patch_is_a_rectangle(patch: usize, index: int)
    requires
        patch < CHART_PATCHES,
        0 <= index < CC5_RASTER_PIXELS,
    ensures
        patch_at(index) == Some(patch) <==> (patch * 10 + 2 <= column(index) < patch * 10 + 2
            + CHART_PATCH_WIDTH && CHART_PATCH_TOP <= row(index) < CHART_PATCH_TOP
            + CHART_PATCH_HEIGHT),
        CHART_PATCH_WIDTH * CHART_PATCH_HEIGHT == CHART_PATCH_PIXELS,
{
}

/// Why a coverage raster does not match.
#[derive(Debug, Clone, Copy, PartialEq, Eq, Structural)]
pub struct CoverageMismatch {
    /// The first pixel that differs at all.
    pub first: usize,
    /// The first pixel with the greatest difference.
    pub pixel: usize,
    /// The greatest difference, in codes.
    pub codes: u8,
    /// The number of pixels that differ at all.
    pub divergent: usize,
}

/// The distance between two codes.
pub open spec fn code_distance(a: u8, b: u8) -> int {
    if a >= b {
        a - b
    } else {
        b - a
    }
}

/// The number of codes by which a coverage byte may differ.
pub open spec fn coverage_tolerance(hard_edged: bool) -> int {
    if hard_edged {
        0
    } else {
        1
    }
}

/// What the comparison of two coverage rasters says: all codes are within the
/// tolerance, or where and by how much they are not.
pub open spec fn coverage_result(
    actual: Seq<u8>,
    expected: Seq<u8>,
    hard_edged: bool,
    result: Result<(), CoverageMismatch>,
) -> bool {
    match result {
        Ok(_) => forall|i: int|
            0 <= i < actual.len() ==> #[trigger] code_distance(actual[i], expected[i])
                <= coverage_tolerance(hard_edged),
        Err(mismatch) => {
            &&& mismatch.codes > coverage_tolerance(hard_edged)
            &&& mismatch.first < actual.len()
            &&& actual[mismatch.first as int] != expected[mismatch.first as int]
            &&& forall|i: int| 0 <= i < mismatch.first ==> #[trigger] actual[i] == expected[i]
            &&& mismatch.pixel < actual.len()
            &&& code_distance(
                actual[mismatch.pixel as int],
                expected[mismatch.pixel as int],
            ) == mismatch.codes
            &&& forall|i: int|
                0 <= i < actual.len() ==> #[trigger] code_distance(actual[i], expected[i])
                    <= mismatch.codes
            &&& forall|i: int|
                0 <= i < mismatch.pixel ==> #[trigger] code_distance(actual[i], expected[i])
                    < mismatch.codes
            &&& mismatch.divergent == how_many(
                actual.len(),
                |i: int| actual[i] != expected[i],
            )
        },
    }
}

/// Holds a coverage raster against the codes that are expected.  A hard-edged
/// matte must match exactly; another may differ by one code.
pub fn assert_coverage_matches(actual: &[u8], expected: &[u8], hard_edged: bool) -> (result: Result<
    (),
    CoverageMismatch,
>)
    requires
        actual.len() == expected.len(),
    ensures
        coverage_result(actual@, expected@, hard_edged, result),
{
    let tolerance: u8 = if hard_edged {
        0
    } else {
        1
    };
    let mut first: usize = 0;
    let mut pixel: usize = 0;
    let mut codes: u8 = 0;
    let mut divergent: usize = 0;
    let length: usize = actual.len();
    let mut index: usize = 0;
    while index < length
        invariant
            index <= length,
            length == actual.len(),
            actual.len() == expected.len(),
            codes == 0 ==> pixel == 0,
            codes > 0 ==> first < index && actual@[first as int] != expected@[first as int],
            codes > 0 ==> forall|i: int|
                0 <= i < first ==> #[trigger] actual@[i] == expected@[i],
            codes == 0 ==> forall|i: int|
                0 <= i < index ==> #[trigger] actual@[i] == expected@[i],
            codes > 0 ==> pixel < index && code_distance(
                actual@[pixel as int],
                expected@[pixel as int],
            ) == codes,
            forall|i: int|
                0 <= i < index ==> #[trigger] code_distance(actual@[i], expected@[i]) <= codes,
            forall|i: int|
                0 <= i < pixel ==> #[trigger] code_distance(actual@[i], expected@[i]) < codes,
            divergent <= index,
            divergent == how_many(index as nat, |i: int| actual@[i] != expected@[i]),
        decreases length - index,
    {
        let difference: u8 = if actual[index] >= expected[index] {
            actual[index] - expected[index]
        } else {
            expected[index] - actual[index]
        };
        assert(difference == code_distance(actual@[index as int], expected@[index as int]));
        if difference > 0 {
            divergent += 1;
        }
        if difference > 0 && codes == 0 {
            first = index;
        }
        if difference > codes {
            pixel = index;
            codes = difference;
        }
        index += 1;
    }
    if codes <= tolerance {
        Ok(())
    } else {
        Err(CoverageMismatch { first, pixel, codes, divergent })
    }
}

/// How many of the first pixels of two coverage rasters differ by so many codes.
pub open spec fn differing_by(actual: Seq<u8>, expected: Seq<u8>, count: nat, codes: int) -> nat {
    how_many(count, |i: int| code_distance(actual[i], expected[i]) == codes)
}

/// The histogram of the differences of two coverage rasters: under each number
/// of codes, how many pixels differ by it.
pub fn divergence_histogram(actual: &[u8], expected: &[u8]) -> (histogram: Vec<usize>)
    requires
        actual.len() == expected.len(),
    ensures
        histogram@.len() == 256,
        forall|codes: int|
            0 <= codes < 256 ==> #[trigger] histogram@[codes] == differing_by(
                actual@,
                expected@,
                actual@.len(),
                codes,
            ),
{
    let mut histogram: Vec<usize> = Vec::new();
    while histogram.len() < 256
        invariant
            histogram.len() <= 256,
            forall|codes: int|
                0 <= codes < histogram.len() ==> #[trigger] histogram@[codes] == differing_by(
                    actual@,
                    expected@,
                    0,
                    codes,
                ),
        decreases 256 - histogram.len(),
    {
        histogram.push(0);
    }
    let length: usize = actual.len();
    let mut index: usize = 0;
    while index < length
        invariant
            index <= length,
            length == actual.len(),
            actual.len() == expected.len(),
            histogram@.len() == 256,
            forall|codes: int|
                0 <= codes < 256 ==> #[trigger] histogram@[codes] == differing_by(
                    actual@,
                    expected@,
                    index as nat,
                    codes,
                ),
        decreases length - index,
    {
        let difference: u8 = if actual[index] >= expected[index] {
            actual[index] - expected[index]
        } else {
            expected[index] - actual[index]
        };
        let place: usize = difference as usize;
        let ghost before = histogram@;
        proof {
            lemma_how_many_bound(
                index as nat,
                |i: int| code_distance(actual@[i], expected@[i]) == difference,
            );
        }
        let count: usize = histogram[place];
        assert(count == differing_by(actual@, expected@, index as nat, difference as int));
        histogram.set(place, count + 1);
        index += 1;
        proof {
            assert forall|codes: int| 0 <= codes < 256 implies #[trigger] histogram@[codes]
                == differing_by(actual@, expected@, index as nat, codes) by {
                assert(before[codes] == differing_by(
                    actual@,
                    expected@,
                    (index - 1) as nat,
                    codes,
                ));
            }
        }
    }
    histogram
}

/// The chart: each patch's sample where the patch is, and the surround's
/// elsewhere.  A sample is held as the bits of its channels.
pub fn cc5_chart_raster(patches: &[[u32; 3]; 6], surround: [u32; 3]) -> (raster: Vec<[u32; 3]>)
    ensures
        raster@ == Seq::new(
            CC5_RASTER_PIXELS as nat,
            |i: int|
                match patch_at(i) {
                    Some(patch) => patches@[patch as int],
                    None => surround,
                },
        ),
{
    let ghost chart = |i: int|
        match patch_at(i) {
            Some(patch) => patches@[patch as int],
            None => surround,
        };
    let mut raster: Vec<[u32; 3]> = Vec::new();
    let mut index: usize = 0;
    while index < CC5_RASTER_PIXELS
        invariant
            index <= CC5_RASTER_PIXELS,
            chart == (|i: int|
                match patch_at(i) {
                    Some(patch) => patches@[patch as int],
                    None => surround,
                }),
            raster@ == Seq::new(index as nat, chart),
        decreases CC5_RASTER_PIXELS - index,
    {
        match chart_patch_of(index) {
            Some(patch) => raster.push(patches[patch]),
            None => raster.push(surround),
        }
        index += 1;
        assert(raster@ =~= Seq::new(index as nat, chart));
    }
    raster
}

/// The parity raster in columns and rows: the sample of a block fills the four
/// columns and three rows of the block, and the blocks run row by row, sixteen
/// in each.
pub proof fn lemma_block_shows_its_sample(block_x: int, block_y: int, x: int, y: int)
    requires
        0 <= block_x < 16,
        0 <= block_y < 12,
        4 * block_x <= x < 4 * block_x + 4,
        3 * block_y <= y < 3 * block_y + 3,
    ensures
        0 <= 64 * y + x < 2_304,
        parity_sample(64 * y + x) == 16 * block_y + block_x,
{
    let index = 64 * y + x;
    assert(index % 64 == x && index / 64 == y);
    assert(x / 4 == block_x);
    assert(y / 3 == block_y);
}

/// The blocks on a sector boundary are the fifth, sixth and seventh of every
/// eight beside each other, in every row.
pub proof fn lemma_sector_boundary_columns(x: int, y: int)
    requires
        0 <= x < 64,
        0 <= y < 36,
    ensures
        on_sector_boundary(64 * y + x) <==> 16 <= x < 28 || 48 <= x < 60,
{
    assert((64 * y + x) % 64 == x);
}

/// Three pixels are planted, outside the centred window, and no other changes.
pub proof fn lemma_planted_samples_by_position(field: Seq<[u32; 3]>, x: int, y: int)
    requires
        field.len() == 2_304,
        0 <= x < 64,
        0 <= y < 36,
    ensures
        with_planted_samples(field).len() == 2_304,
        x == 2 && y == 2 ==> with_planted_samples(field)[64 * y + x]@ =~= seq![
            0x8000_0000u32,
            0x3e80_0000u32,
            0x3f00_0000u32,
        ],
        x == 61 && y == 33 ==> with_planted_samples(field)[64 * y + x]@ =~= seq![
            0x4080_0000u32,
            0x4080_0000u32,
            0x4080_0000u32,
        ],
        x == 2 && y == 33 ==> with_planted_samples(field)[64 * y + x]@ =~= seq![
            0xbe80_0000u32,
            0x3e80_0000u32,
            0x3f00_0000u32,
        ],
        !(x == 2 && y == 2) && !(x == 61 && y == 33) && !(x == 2 && y == 33)
            ==> with_planted_samples(field)[64 * y + x] == field[64 * y + x],
{
}

/// A position belongs to one of the six patches or to none, and in columns and
/// rows to the one whose eight columns and twelve rows it lies in.
pub proof fn lemma_patches_by_position(x: int, y: int)
    requires
        0 <= x < 64,
        0 <= y < 36,
    ensures
        match patch_at(64 * y + x) {
            Some(patch) => patch < 6 && 10 * patch + 2 <= x < 10 * patch + 10 && 12 <= y < 24,
            None => !(12 <= y < 24) || x % 10 < 2 || x >= 60,
        },
{
    assert((64 * y + x) % 64 == x && (64 * y + x) / 64 == y);
}

/// A coverage raster passes exactly where every code is the expected one, for a
/// hard edge, or at most one away from it, for a soft one.
pub proof fn lemma_coverage_in_codes(
    actual: Seq<u8>,
    expected: Seq<u8>,
    hard_edged: bool,
    result: Result<(), CoverageMismatch>,
)
    requires
        actual.len() == expected.len(),
        coverage_result(actual, expected, hard_edged, result),
    ensures
        result is Ok && hard_edged ==> actual =~= expected,
        result is Ok && !hard_edged ==> forall|i: int|
            0 <= i < actual.len() ==> -1 <= #[trigger] actual[i] - expected[i] <= 1,
        result matches Err(mismatch) ==> {
            let worst = actual[mismatch.pixel as int] - expected[mismatch.pixel as int];
            &&& worst == mismatch.codes || worst == -mismatch.codes
            &&& mismatch.codes >= (if hard_edged {
                1int
            } else {
                2int
            })
            &&& forall|i: int|
                0 <= i < actual.len() ==> -mismatch.codes <= #[trigger] actual[i] - expected[i]
                    <= mismatch.codes
        },
{
    assert forall|i: int| 0 <= i < actual.len() implies code_distance(
        actual[i],
        expected[i],
    ) >= actual[i] - expected[i] && code_distance(actual[i], expected[i]) >= expected[i]
        - actual[i] by {}
    match result {
        Ok(_) => {
            assert forall|i: int| 0 <= i < actual.len() implies -coverage_tolerance(hard_edged)
                <= #[trigger] actual[i] - expected[i] <= coverage_tolerance(hard_edged) by {
                assert(code_distance(actual[i], expected[i]) <= coverage_tolerance(hard_edged));
            }
            if hard_edged {
                assert forall|i: int| 0 <= i < actual.len() implies actual[i] == expected[i] by {
                    assert(actual[i] - expected[i] == 0);
                }
            }
        },
        Err(mismatch) => {
            assert forall|i: int| 0 <= i < actual.len() implies -mismatch.codes
                <= #[trigger] actual[i] - expected[i] <= mismatch.codes by {
                assert(code_distance(actual[i], expected[i]) <= mismatch.codes);
            }
        },
    }
}

/// How many pixels differ by so many codes does not depend on which of the two
/// rasters is named first, and counts a pixel on either side.
pub proof fn lemma_differing_by_in_codes(actual: Seq<u8>, expected: Seq<u8>, count: nat, codes: int)
    requires
        codes >= 0,
    ensures
        differing_by(actual, expected, count, codes) == how_many(
            count,
            |i: int| actual[i] - expected[i] == codes || expected[i] - actual[i] == codes,
        ),
    decreases count,
{
    let left = |i: int| code_distance(actual[i], expected[i]) == codes;
    let right = |i: int| actual[i] - expected[i] == codes || expected[i] - actual[i] == codes;
    crate::tally::lemma_total_same(
        count,
        |i: int|
            if left(i) {
                1nat
            } else {
                0nat
            },
        |i: int|
            if right(i) {
                1nat
            } else {
                0nat
            },
    );
}

/// The two coverages determine what their comparison gives.
pub proof fn lemma_coverage_is_determined(
    actual: Seq<u8>,
    expected: Seq<u8>,
    hard_edged: bool,
    left: Result<(), CoverageMismatch>,
    right: Result<(), CoverageMismatch>,
)
    requires
        actual.len() == expected.len(),
        coverage_result(actual, expected, hard_edged, left),
        coverage_result(actual, expected, hard_edged, right),
    ensures
        left is Ok <==> right is Ok,
        left is Err ==> left->Err_0 == right->Err_0,
{
    if left is Err {
        let a = left->Err_0;
        assert(code_distance(actual[a.pixel as int], expected[a.pixel as int]) == a.codes);
        if right is Err {
            let b = right->Err_0;
            assert(code_distance(actual[b.pixel as int], expected[b.pixel as int]) == b.codes);
            assert(a.codes == b.codes);
            assert(actual[a.first as int] != expected[a.first as int]);
            assert(actual[b.first as int] != expected[b.first as int]);
            assert(a.first == b.first);
            assert(a.pixel == b.pixel);
        }
    }
    if right is Err {
        let b = right->Err_0;
        assert(code_distance(actual[b.pixel as int], expected[b.pixel as int]) == b.codes);
    }
}

/// A comparison of coverages names the first pixel that differs and the first of
/// those that differ most, by their codes.
pub proof fn lemma_mismatch_names_the_first(
    actual: Seq<u8>,
    expected: Seq<u8>,
    hard_edged: bool,
    mismatch: CoverageMismatch,
    i: int,
)
    requires
        actual.len() == expected.len(),
        coverage_result(actual, expected, hard_edged, Err(mismatch)),
        0 <= i < actual.len(),
    ensures
        i < mismatch.first ==> actual[i] == expected[i],
        i < mismatch.pixel ==> -mismatch.codes < actual[i] - expected[i] < mismatch.codes,
        mismatch.first <= mismatch.pixel < actual.len(),
        actual[mismatch.first as int] != expected[mismatch.first as int],
{
    assert(i < mismatch.pixel ==> code_distance(actual[i], expected[i]) < mismatch.codes);
    let p = mismatch.pixel as int;
    assert(code_distance(actual[p], expected[p]) == mismatch.codes);
    if p < mismatch.first {
        assert(actual[p] == expected[p]);
    }
}

/// The box around the covered pixels, by column and row.
pub proof fn lemma_box_by_column_and_row(
    covered: Seq<bool>,
    bounds: (u32, u32, u32, u32),
    x: int,
    y: int,
)
    requires
        covered.len() == 2_304,
        box_holds(covered, bounds),
        0 <= x < 64,
        0 <= y < 36,
        covered[64 * y + x],
    ensures
        bounds.0 <= x <= bounds.1,
        bounds.2 <= y <= bounds.3,
{
}

} // verus!
