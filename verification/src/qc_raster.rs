//! The raster that quality control is measured on: rectangles of known
//! populations.

use vstd::prelude::*;

use crate::tally::how_many;

verus! {

/// The size of the raster: a pixel is 125 basis points wide and 250 high.
pub const CC6_QC_RASTER: (u32, u32) = (80, 40);

/// The populations: ramp, over block, under block, skin patches, product
/// patches, below-black pixel, isolated over pixel, surround.
pub const CC6_QC_RASTER_POPULATIONS: [u32; 8] = [1152, 288, 288, 384, 192, 1, 1, 894];

/// The shares of the raster in basis points: over, under in red, under in green
/// and blue, out of gamut, clamped.
pub const CC6_QC_RASTER_BASIS_POINTS: [u32; 5] = [903, 903, 3, 903, 1806];

/// The region of interest in which every counter stays below the threshold:
/// left, top, width and height in basis points.
pub const CC6_SUB_THRESHOLD_ROI: (u32, u32, u32, u32) = (0, 0, 6_125, 6_000);

/// The width in pixels of the region below the threshold.
pub const SUB_THRESHOLD_WIDTH: u32 = 49;

/// The height in pixels of the region below the threshold.
pub const SUB_THRESHOLD_HEIGHT: u32 = 24;

/// One, as the bits of a half float.
pub const HALF_ONE: u16 = 0x3c00;

/// The isolated pixel above one: 1.2 in every channel.
pub const ISOLATED_OVER: [u16; 3] = [0x3ccd, 0x3ccd, 0x3ccd];

/// The pixel below black: -0.02, -0.005 and -0.005.
pub const BELOW_BLACK: [u16; 3] = [0xa51f, 0x9d1f, 0x9d1f];

/// The block above one: 1.05 in every channel.
pub const OVER_BLOCK: [u16; 3] = [0x3c33, 0x3c33, 0x3c33];

/// The block below zero in red: -0.01, 0.5 and 0.5.
pub const UNDER_BLOCK: [u16; 3] = [0xa11f, 0x3800, 0x3800];

/// The neutral surround: 0.45 in every channel.
pub const CC6_CHART_SURROUND: [u16; 3] = [0x3733, 0x3733, 0x3733];

/// What a pixel of the raster belongs to, as its place in the populations.
pub open spec fn region(x: int, y: int) -> int {
    if x < 48 && y < 24 {
        0
    } else if x == 48 && y == 0 {
        6
    } else if x == 48 && y == 1 {
        5
    } else if x < 36 && y < 32 && y >= 24 {
        1
    } else if x < 36 && y >= 32 {
        2
    } else if 36 <= x < 60 && y >= 24 {
        3
    } else if 60 <= x < 72 && y >= 24 {
        4
    } else {
        7
    }
}

/// How often a ratio of at most one is doubled before it reaches one.
pub open spec fn doublings(numerator: int, denominator: int) -> nat
    decreases 2 * denominator - numerator,
{
    if numerator <= 0 || numerator >= denominator {
        0
    } else {
        1 + doublings(2 * numerator, denominator)
    }
}

/// A ratio after it is doubled until it reaches one.
pub open spec fn doubled(numerator: int, denominator: int) -> int
    decreases 2 * denominator - numerator,
{
    if numerator <= 0 || numerator >= denominator {
        numerator
    } else {
        doubled(2 * numerator, denominator)
    }
}

/// The bits of the half float nearest to a ratio of at most one: an exponent
/// that falls by one with each doubling, and 1024 parts of the doubled ratio.
pub open spec fn nearest_half(numerator: int, denominator: int) -> int {
    if numerator == 0 {
        0
    } else {
        (14 - doublings(numerator, denominator)) * 1024 + (2048 * doubled(numerator, denominator)
            + denominator) / (2 * denominator)
    }
}

/// The bits of the half float nearest to a ratio of at most one.
fn ratio_half(numerator: u32, denominator: u32) -> (bits: u16)
    requires
        0 <= numerator <= denominator,
        0 < denominator <= 4_096,
    ensures
        bits == nearest_half(numerator as int, denominator as int),
{
    if numerator == 0 {
        return 0;
    }
    assert(doublings(numerator as int, denominator as int) <= 12) by {
        reveal_with_fuel(doublings, 13);
    }
    let mut scaled: u32 = numerator;
    let mut exponent: u32 = 14;
    while scaled < denominator
        invariant
            0 < scaled <= 2 * denominator,
            denominator <= 4_096,
            numerator > 0,
            exponent <= 14,
            doublings(numerator as int, denominator as int) <= 12,
            doublings(numerator as int, denominator as int) == 14 - exponent + doublings(
                scaled as int,
                denominator as int,
            ),
            doubled(numerator as int, denominator as int) == doubled(
                scaled as int,
                denominator as int,
            ),
        decreases 2 * denominator - scaled,
    {
        scaled = 2 * scaled;
        exponent -= 1;
    }
    proof {
        let d = denominator as int;
        assert((2048 * scaled + d) / (2 * d) <= 2049) by (nonlinear_arith)
            requires
                0 < scaled <= 2 * d,
                d > 0,
        ;
        assert((2048 * scaled + d) / (2 * d) >= 0) by (nonlinear_arith)
            requires
                0 < scaled,
                d > 0,
        ;
    }
    (exponent * 1024 + (2048 * scaled + denominator) / (2 * denominator)) as u16
}

/// The patches whose values a display encoding decides, as the bits of half
/// floats: four of skin and two of products.
#[derive(Debug, Clone, Copy)]
pub struct QcPatches {
    pub skin: [[u16; 3]; 4],
    pub product: [[u16; 3]; 2],
}

/// A frame in the working space: four half floats for each pixel, as bits.
#[derive(Debug)]
pub struct WorkingFrame {
    pub width: u32,
    pub height: u32,
    pub pixels: Vec<u16>,
}

/// The raster with the number of pixels in each of its regions.
#[derive(Debug)]
pub struct QcRaster {
    pub frame: WorkingFrame,
    pub populations: [u32; 8],
}

/// The channel of a pixel of the ramp: it rises from zero to one from left to
/// right in red, from top to bottom in green, and halfway between them in blue.
pub open spec fn ramp(x: int, y: int, channel: int) -> int {
    if channel == 0 {
        nearest_half(x, 47)
    } else if channel == 1 {
        nearest_half(y, 23)
    } else {
        nearest_half(23 * x + 47 * y, 2_162)
    }
}

/// The colour channel of a pixel of the raster.
pub open spec fn colour(patches: QcPatches, x: int, y: int, channel: int) -> int {
    let region = region(x, y);
    if region == 0 {
        ramp(x, y, channel)
    } else if region == 1 {
        OVER_BLOCK@[channel] as int
    } else if region == 2 {
        UNDER_BLOCK@[channel] as int
    } else if region == 3 {
        patches.skin@[(if x >= 48 { 1int } else { 0 }) + (if y >= 32 { 2int } else { 0 })]@[channel] as int
    } else if region == 4 {
        patches.product@[if y >= 32 { 1int } else { 0 }]@[channel] as int
    } else if region == 5 {
        BELOW_BLACK@[channel] as int
    } else if region == 6 {
        ISOLATED_OVER@[channel] as int
    } else {
        CC6_CHART_SURROUND@[channel] as int
    }
}

/// A half float of the raster: the colour of its pixel, or one for its alpha.
pub open spec fn qc_half(patches: QcPatches, index: int) -> int {
    let pixel = index / 4;
    if index % 4 == 3 {
        HALF_ONE as int
    } else {
        colour(patches, pixel % 80, pixel / 80, index % 4)
    }
}

/// How much of a length lies between two bounds.
pub open spec fn within(length: int, from: int, to: int) -> int {
    if length <= from {
        0
    } else if length <= to {
        length - from
    } else {
        to - from
    }
}

/// How many of the first pixels of a row belong to a region.
pub open spec fn in_row(region: int, x: int, y: int) -> int {
    if region == 0 {
        if y < 24 { within(x, 0, 48) } else { 0 }
    } else if region == 1 {
        if 24 <= y < 32 { within(x, 0, 36) } else { 0 }
    } else if region == 2 {
        if y >= 32 { within(x, 0, 36) } else { 0 }
    } else if region == 3 {
        if y >= 24 { within(x, 36, 60) } else { 0 }
    } else if region == 4 {
        if y >= 24 { within(x, 60, 72) } else { 0 }
    } else if region == 5 {
        if y == 1 { within(x, 48, 49) } else { 0 }
    } else if region == 6 {
        if y == 0 { within(x, 48, 49) } else { 0 }
    } else {
        if y < 2 {
            within(x, 49, 80)
        } else if y < 24 {
            within(x, 48, 80)
        } else {
            within(x, 72, 80)
        }
    }
}

/// How many pixels of the first rows belong to a region.
pub open spec fn in_rows(region: int, y: int) -> int {
    if region == 0 {
        48 * within(y, 0, 24)
    } else if region == 1 {
        36 * within(y, 24, 32)
    } else if region == 2 {
        36 * within(y, 32, 40)
    } else if region == 3 {
        24 * within(y, 24, 40)
    } else if region == 4 {
        12 * within(y, 24, 40)
    } else if region == 5 {
        within(y, 1, 2)
    } else if region == 6 {
        within(y, 0, 1)
    } else {
        31 * within(y, 0, 2) + 32 * within(y, 2, 24) + 8 * within(y, 24, 40)
    }
}

/// A pixel adds one to the count of its own region and nothing to another.
proof fn lemma_in_row_step(which: int, x: int, y: int)
    requires
        0 <= which < 8,
        0 <= x < 80,
        0 <= y < 40,
    ensures
        in_row(which, x + 1, y) == in_row(which, x, y) + (if region(x, y) == which {
            1int
        } else {
            0
        }),
{
}

/// A row adds its own counts.
proof fn lemma_in_rows_step(which: int, y: int)
    requires
        0 <= which < 8,
        0 <= y < 40,
    ensures
        in_row(which, 0, y) == 0,
        in_rows(which, y + 1) == in_rows(which, y) + in_row(which, 80, y),
        in_rows(which, 0) == 0,
        in_rows(which, 40) == CC6_QC_RASTER_POPULATIONS@[which],
{
}

/// The colour of a pixel of the raster.
fn qc_colour(patches: &QcPatches, x: u32, y: u32) -> (result: ([u16; 3], usize))
    requires
        x < 80,
        y < 40,
    ensures
        result.1 == region(x as int, y as int),
        forall|c: int|
            0 <= c < 3 ==> #[trigger] result.0@[c] == colour(*patches, x as int, y as int, c),
{
    if x < 48 && y < 24 {
        let red: u16 = ratio_half(x, 47);
        let green: u16 = ratio_half(y, 23);
        let blue: u16 = ratio_half(23 * x + 47 * y, 2_162);
        ([red, green, blue], 0)
    } else if x == 48 && y == 0 {
        (ISOLATED_OVER, 6)
    } else if x == 48 && y == 1 {
        (BELOW_BLACK, 5)
    } else if x < 36 && y >= 24 && y < 32 {
        (OVER_BLOCK, 1)
    } else if x < 36 && y >= 32 {
        (UNDER_BLOCK, 2)
    } else if x >= 36 && x < 60 && y >= 24 {
        let mut patch: usize = 0;
        if x >= 48 {
            patch += 1;
        }
        if y >= 32 {
            patch += 2;
        }
        (patches.skin[patch], 3)
    } else if x >= 60 && x < 72 && y >= 24 {
        let patch: usize = if y >= 32 {
            1
        } else {
            0
        };
        (patches.product[patch], 4)
    } else {
        (CC6_CHART_SURROUND, 7)
    }
}

/// The raster, its pixels and their populations.
pub fn cc6_qc_raster(patches: &QcPatches) -> (raster: QcRaster)
    ensures
        raster.frame.width == CC6_QC_RASTER.0,
        raster.frame.height == CC6_QC_RASTER.1,
        raster.frame.pixels@.len() == 12_800,
        forall|i: int|
            0 <= i < 12_800 ==> #[trigger] raster.frame.pixels@[i] == qc_half(*patches, i),
        raster.populations@ == CC6_QC_RASTER_POPULATIONS@,
{
    let width: u32 = CC6_QC_RASTER.0;
    let height: u32 = CC6_QC_RASTER.1;
    let mut pixels: Vec<u16> = Vec::new();
    let mut populations: [u32; 8] = [0; 8];
    let mut y: u32 = 0;
    proof {
        assert forall|k: int| 0 <= k < 8 implies #[trigger] populations@[k] == in_rows(k, 0) by {
            lemma_in_rows_step(k, 0);
        }
    }
    while y < height
        invariant
            y <= height,
            width == 80,
            height == 40,
            pixels@.len() == 4 * (80 * y),
            forall|i: int| 0 <= i < pixels@.len() ==> #[trigger] pixels@[i] == qc_half(*patches, i),
            forall|k: int| 0 <= k < 8 ==> #[trigger] populations@[k] == in_rows(k, y as int),
        decreases height - y,
    {
        let mut x: u32 = 0;
        proof {
            assert forall|k: int| 0 <= k < 8 implies #[trigger] populations@[k] == in_rows(
                k,
                y as int,
            ) + in_row(k, 0, y as int) by {
                lemma_in_rows_step(k, y as int);
            }
        }
        while x < width
            invariant
                x <= width,
                y < height,
                width == 80,
                height == 40,
                pixels@.len() == 4 * (80 * y + x),
                forall|i: int|
                    0 <= i < pixels@.len() ==> #[trigger] pixels@[i] == qc_half(*patches, i),
                forall|k: int|
                    0 <= k < 8 ==> #[trigger] populations@[k] == in_rows(k, y as int) + in_row(
                        k,
                        x as int,
                        y as int,
                    ),
            decreases width - x,
        {
            let (rgb, population) = qc_colour(patches, x, y);
            let ghost before = populations@;
            let ghost done = pixels@;
            proof {
                assert(before[region(x as int, y as int)] == in_rows(
                    region(x as int, y as int),
                    y as int,
                ) + in_row(region(x as int, y as int), x as int, y as int));
            }
            populations[population] = populations[population] + 1;
            pixels.push(rgb[0]);
            pixels.push(rgb[1]);
            pixels.push(rgb[2]);
            pixels.push(HALF_ONE);
            proof {
                let pixel = 80 * y + x;
                assert forall|k: int| 0 <= k < 8 implies #[trigger] populations@[k] == in_rows(
                    k,
                    y as int,
                ) + in_row(k, x + 1, y as int) by {
                    lemma_in_row_step(k, x as int, y as int);
                    assert(before[k] == in_rows(k, y as int) + in_row(k, x as int, y as int));
                }
                assert forall|i: int| 0 <= i < pixels@.len() implies #[trigger] pixels@[i]
                    == qc_half(*patches, i) by {
                    if i < 4 * pixel {
                        assert(pixels@[i] == done[i]);
                    } else {
                        assert(i / 4 == pixel);
                        assert(pixel % 80 == x && pixel / 80 == y);
                        if i % 4 == 3 {
                        } else {
                            assert(pixels@[i] == rgb@[i % 4]);
                        }
                    }
                }
            }
            x += 1;
        }
        proof {
            assert forall|k: int| 0 <= k < 8 implies #[trigger] populations@[k] == in_rows(
                k,
                y + 1,
            ) by {
                lemma_in_rows_step(k, y as int);
            }
        }
        y += 1;
    }
    proof {
        assert forall|k: int| 0 <= k < 8 implies #[trigger] populations@[k]
            == CC6_QC_RASTER_POPULATIONS@[k] by {
            lemma_in_rows_step(k, 0);
        }
        assert(populations@ =~= CC6_QC_RASTER_POPULATIONS@);
    }
    QcRaster { frame: WorkingFrame { width, height, pixels }, populations }
}

/// Whether a position of a raster of some width belongs to a region.
pub open spec fn belongs(which: int, width: int) -> spec_fn(int) -> bool {
    |i: int| region(i % width, i / width) == which
}

proof fn lemma_prefix_population(which: int, count: nat)
    requires
        0 <= which < 8,
        count <= 3_200,
    ensures
        how_many(count, belongs(which, 80)) == in_rows(which, count as int / 80) + in_row(
            which,
            count as int % 80,
            count as int / 80,
        ),
    decreases count,
{
    if count == 0 {
        lemma_in_rows_step(which, 0);
    } else {
        let last = count - 1;
        lemma_prefix_population(which, last as nat);
        lemma_in_row_step(which, last % 80, last / 80);
        lemma_in_rows_step(which, last / 80);
        if last % 80 == 79 {
            assert(count as int % 80 == 0 && count as int / 80 == last / 80 + 1);
            if last / 80 + 1 < 40 {
                lemma_in_rows_step(which, last / 80 + 1);
            }
        } else {
            assert(count as int % 80 == last % 80 + 1 && count as int / 80 == last / 80);
        }
    }
}

/// The raster holds as many pixels of a region as the table of populations
/// says, and the table accounts for every pixel.
pub proof fn lemma_populations_are_the_table(which: int)
    requires
        0 <= which < 8,
    ensures
        how_many(3_200, belongs(which, CC6_QC_RASTER.0 as int)) == CC6_QC_RASTER_POPULATIONS@[which],
        1152 + 288 + 288 + 384 + 192 + 1 + 1 + 894 == CC6_QC_RASTER.0 * CC6_QC_RASTER.1,
{
    lemma_prefix_population(which, 3_200);
    lemma_in_rows_step(which, 39);
}

/// The share of the raster that a number of pixels is, in basis points.
pub open spec fn raster_basis_points(count: int) -> int {
    count * 10_000 / (CC6_QC_RASTER.0 * CC6_QC_RASTER.1)
}

/// The table of shares follows from the table of populations.  A single pixel
/// stays below a threshold of ten basis points, and a block does not.
pub proof fn lemma_shares_follow_from_populations()
    ensures
        raster_basis_points(CC6_QC_RASTER_POPULATIONS@[1] + CC6_QC_RASTER_POPULATIONS@[6])
            == CC6_QC_RASTER_BASIS_POINTS@[0],
        raster_basis_points(CC6_QC_RASTER_POPULATIONS@[2] + CC6_QC_RASTER_POPULATIONS@[5])
            == CC6_QC_RASTER_BASIS_POINTS@[1],
        raster_basis_points(CC6_QC_RASTER_POPULATIONS@[5] as int) == CC6_QC_RASTER_BASIS_POINTS@[2],
        raster_basis_points(CC6_QC_RASTER_POPULATIONS@[2] + CC6_QC_RASTER_POPULATIONS@[5])
            == CC6_QC_RASTER_BASIS_POINTS@[3],
        raster_basis_points(
            CC6_QC_RASTER_POPULATIONS@[1] + CC6_QC_RASTER_POPULATIONS@[6]
                + CC6_QC_RASTER_POPULATIONS@[2] + CC6_QC_RASTER_POPULATIONS@[5],
        ) == CC6_QC_RASTER_BASIS_POINTS@[4],
        raster_basis_points(1) < 10 <= raster_basis_points(288),
{
    assert(CC6_QC_RASTER.0 * CC6_QC_RASTER.1 == 3_200);
}

/// The populations of the region below the threshold.
pub open spec fn sub_threshold_population(which: int) -> int {
    if which == 0 {
        1_152
    } else if which == 5 || which == 6 {
        1
    } else if which == 7 {
        22
    } else {
        0
    }
}

spec fn in_sub_threshold_rows(which: int, y: int) -> int {
    if which == 0 {
        48 * y
    } else if which == 5 {
        within(y, 1, 2)
    } else if which == 6 {
        within(y, 0, 1)
    } else if which == 7 {
        within(y, 2, 24)
    } else {
        0
    }
}

proof fn lemma_prefix_sub_threshold(which: int, count: nat)
    requires
        0 <= which < 8,
        count <= 1_176,
    ensures
        how_many(count, belongs(which, 49)) == in_sub_threshold_rows(which, count as int / 49)
            + in_row(which, count as int % 49, count as int / 49),
    decreases count,
{
    if count > 0 {
        let last = count - 1;
        lemma_prefix_sub_threshold(which, last as nat);
        lemma_in_row_step(which, last % 49, last / 49);
        if last % 49 == 48 {
            assert(count as int % 49 == 0 && count as int / 49 == last / 49 + 1);
        } else {
            assert(count as int % 49 == last % 49 + 1 && count as int / 49 == last / 49);
        }
    }
}

/// The region below the threshold is 49 pixels by 24: the whole ramp, one pixel
/// of each isolated kind, and surround.  One of its pixels is less than ten
/// basis points of it.
pub proof fn lemma_sub_threshold_region(which: int)
    requires
        0 <= which < 8,
    ensures
        CC6_QC_RASTER.0 * CC6_SUB_THRESHOLD_ROI.2 == SUB_THRESHOLD_WIDTH * 10_000,
        CC6_QC_RASTER.1 * CC6_SUB_THRESHOLD_ROI.3 == SUB_THRESHOLD_HEIGHT * 10_000,
        how_many(1_176, belongs(which, SUB_THRESHOLD_WIDTH as int)) == sub_threshold_population(
            which,
        ),
        10_000int / (SUB_THRESHOLD_WIDTH * SUB_THRESHOLD_HEIGHT) < 10,
{
    lemma_prefix_sub_threshold(which, 1_176);
    assert(SUB_THRESHOLD_WIDTH * SUB_THRESHOLD_HEIGHT == 1_176);
}

/// Whether the bits are those of a number above one.
pub open spec fn above_one(bits: int) -> bool {
    HALF_ONE < bits <= 0x7c00
}

/// Whether the bits are those of a number below zero.
pub open spec fn below_zero(bits: int) -> bool {
    0x8000 < bits <= 0xfc00
}

/// Whether the patches stay between zero and one.
pub open spec fn patches_in_range(patches: QcPatches) -> bool {
    &&& forall|p: int, c: int|
        0 <= p < 4 && 0 <= c < 3 ==> 0 <= #[trigger] patches.skin@[p]@[c] <= HALF_ONE
    &&& forall|p: int, c: int|
        0 <= p < 2 && 0 <= c < 3 ==> 0 <= #[trigger] patches.product@[p]@[c] <= HALF_ONE
}

proof fn lemma_doubled(numerator: int, denominator: int)
    requires
        0 < numerator < denominator,
    ensures
        denominator <= doubled(numerator, denominator) < 2 * denominator,
        doublings(numerator, denominator) >= 1,
    decreases 2 * denominator - numerator,
{
    if 2 * numerator < denominator {
        lemma_doubled(2 * numerator, denominator);
    } else {
        reveal_with_fuel(doubled, 2);
    }
}

proof fn lemma_nearest_half_in_range(numerator: int, denominator: int)
    requires
        0 <= numerator <= denominator,
        0 < denominator <= 4_096,
    ensures
        0 <= nearest_half(numerator, denominator) <= HALF_ONE,
{
    if 0 < numerator {
        assert(doublings(numerator, denominator) <= 12) by {
            reveal_with_fuel(doublings, 13);
        }
        if numerator < denominator {
            lemma_doubled(numerator, denominator);
        }
        let top = doubled(numerator, denominator);
        if numerator == denominator {
            assert((2048 * top + denominator) / (2 * denominator) == 1024) by (nonlinear_arith)
                requires
                    top == denominator,
                    denominator > 0,
            ;
        } else {
            assert(0 <= (2048 * top + denominator) / (2 * denominator) <= 2048) by (nonlinear_arith)
                requires
                    0 <= top < 2 * denominator,
                    denominator > 0,
            ;
        }
    }
}

/// What quality control counts: a pixel is above one in some channel exactly in
/// the over block and at the isolated pixel, below zero in red exactly in the
/// under block and at the pixel below black, and below zero in green or blue
/// only at the latter.
pub proof fn lemma_regions_are_what_is_counted(patches: QcPatches, x: int, y: int)
    requires
        0 <= x < 80,
        0 <= y < 40,
        patches_in_range(patches),
    ensures
        (exists|c: int| 0 <= c < 3 && above_one(#[trigger] colour(patches, x, y, c))) <==> (region(
            x,
            y,
        ) == 1 || region(x, y) == 6),
        below_zero(colour(patches, x, y, 0)) <==> (region(x, y) == 2 || region(x, y) == 5),
        below_zero(colour(patches, x, y, 1)) <==> region(x, y) == 5,
        below_zero(colour(patches, x, y, 2)) <==> region(x, y) == 5,
{
    if region(x, y) == 0 {
        lemma_nearest_half_in_range(x, 47);
        lemma_nearest_half_in_range(y, 23);
        lemma_nearest_half_in_range(23 * x + 47 * y, 2_162);
    }
    if region(x, y) == 1 || region(x, y) == 6 {
        assert(above_one(colour(patches, x, y, 0)));
    }
}

/// Every pixel outside the ramp shows the colour of the rectangle that it lies
/// in, and no other: the block above one, the block below zero, the four skin
/// patches, the two products, the two single pixels and the surround.
pub proof fn lemma_colours_by_position(patches: QcPatches, x: int, y: int, c: int)
    requires
        0 <= x < 80,
        0 <= y < 40,
        0 <= c < 3,
    ensures
        x < 36 && 24 <= y < 32 ==> colour(patches, x, y, c) == 0x3c33,
        x < 36 && 32 <= y ==> colour(patches, x, y, c) == (if c == 0 {
            0xa11fint
        } else {
            0x3800int
        }),
        36 <= x < 48 && 24 <= y < 32 ==> colour(patches, x, y, c) == patches.skin@[0]@[c],
        48 <= x < 60 && 24 <= y < 32 ==> colour(patches, x, y, c) == patches.skin@[1]@[c],
        36 <= x < 48 && 32 <= y ==> colour(patches, x, y, c) == patches.skin@[2]@[c],
        48 <= x < 60 && 32 <= y ==> colour(patches, x, y, c) == patches.skin@[3]@[c],
        60 <= x < 72 && 24 <= y < 32 ==> colour(patches, x, y, c) == patches.product@[0]@[c],
        60 <= x < 72 && 32 <= y ==> colour(patches, x, y, c) == patches.product@[1]@[c],
        x == 48 && y == 0 ==> colour(patches, x, y, c) == 0x3ccd,
        x == 48 && y == 1 ==> colour(patches, x, y, c) == (if c == 0 {
            0xa51fint
        } else {
            0x9d1fint
        }),
        (48 <= x && y < 24 && !(x == 48 && y < 2)) || (72 <= x && 24 <= y) ==> colour(
            patches,
            x,
            y,
            c,
        ) == 0x3733,
        x < 48 && y < 24 ==> colour(patches, x, y, c) == nearest_half(
            if c == 0 {
                x
            } else if c == 1 {
                y
            } else {
                23 * x + 47 * y
            },
            if c == 0 {
                47
            } else if c == 1 {
                23
            } else {
                2_162
            },
        ),
{
}

/// A pixel's four half floats stand one behind the other, its colour and then
/// one, and the pixels run row by row.
pub proof fn lemma_halves_by_position(patches: QcPatches, x: int, y: int, c: int)
    requires
        0 <= x < 80,
        0 <= y < 40,
        0 <= c < 4,
    ensures
        qc_half(patches, 4 * (80 * y + x) + c) == (if c == 3 {
            0x3c00int
        } else {
            colour(patches, x, y, c)
        }),
{
    let index = 4 * (80 * y + x) + c;
    assert(index / 4 == 80 * y + x && index % 4 == c);
    assert((80 * y + x) % 80 == x && (80 * y + x) / 80 == y);
}

proof fn lemma_doublings_are(numerator: int, denominator: int, k: nat)
    requires
        0 < numerator,
        denominator <= numerator * vstd::arithmetic::power2::pow2(k),
        numerator * vstd::arithmetic::power2::pow2(k) < 2 * denominator,
    ensures
        doublings(numerator, denominator) == k,
        doubled(numerator, denominator) == numerator * vstd::arithmetic::power2::pow2(k),
    decreases k,
{
    if k == 0 {
        vstd::arithmetic::power2::lemma2_to64();
        assert(numerator * 1 == numerator);
    } else {
        let less = (k - 1) as nat;
        let p = vstd::arithmetic::power2::pow2(less) as int;
        vstd::arithmetic::power2::lemma_pow2_unfold(k);
        vstd::arithmetic::power2::lemma_pow2_pos(less);
        assert(numerator * (2 * p) == 2 * numerator * p) by (nonlinear_arith);
        assert(2 * numerator * p == 2 * (numerator * p)) by (nonlinear_arith);
        assert(numerator <= numerator * p) by (nonlinear_arith)
            requires
                p >= 1,
                numerator > 0,
        ;
        assert(numerator < denominator);
        lemma_doublings_are(2 * numerator, denominator, less);
    }
}

/// The half float of a ratio is the nearest there is: with `k` doublings between
/// the ratio and one, its exponent is fourteen less `k` and its fraction is the
/// nearest of 1024 parts, a half going up.
pub proof fn lemma_half_is_nearest(numerator: int, denominator: int, k: nat)
    requires
        0 < numerator,
        denominator <= numerator * vstd::arithmetic::power2::pow2(k),
        numerator * vstd::arithmetic::power2::pow2(k) < 2 * denominator,
    ensures
        ({
            let scaled = numerator * vstd::arithmetic::power2::pow2(k);
            let parts = nearest_half(numerator, denominator) - 1024 * (14 - k);
            &&& 2 * denominator * parts - denominator <= 2048 * scaled
            &&& 2048 * scaled < 2 * denominator * parts + denominator
            &&& 1024 <= parts <= 2048
        }),
        nearest_half(0, denominator) == 0,
{
    lemma_doublings_are(numerator, denominator, k);
    let scaled = doubled(numerator, denominator);
    let d = denominator;
    let parts = (2048 * scaled + d) / (2 * d);
    assert(2 * d * parts <= 2048 * scaled + d < 2 * d * parts + 2 * d && 1024 <= parts <= 2048)
        by (nonlinear_arith)
        requires
            parts == (2048 * scaled + d) / (2 * d),
            d <= scaled < 2 * d,
            d > 0,
    ;
}

/// A share in basis points is the whole part of its ten-thousandths.
pub proof fn lemma_share_in_numbers(count: int)
    requires
        count >= 0,
    ensures
        3_200 * raster_basis_points(count) <= 10_000 * count < 3_200 * raster_basis_points(count)
            + 3_200,
{
    assert(CC6_QC_RASTER.0 * CC6_QC_RASTER.1 == 3_200);
}

} // verus!
