//! Statistics of a chart on a monitor raster.

use vstd::prelude::*;

use crate::tally::total;

verus! {

/// How far every statistic keeps from the edge of a patch.
pub const CC7_PATCH_INSET_PIXELS: u32 = 2;

/// The luma weights of the three channels, in ten-thousandths.
pub const CC7_BT709_LUMA_WEIGHTS: [u64; 3] = [2_126, 7_152, 722];

/// A raster of four bytes for each pixel.
#[derive(Debug)]
pub struct RgbaImage {
    pub width: u32,
    pub height: u32,
    pub pixels: Vec<u8>,
}

/// A rectangle of pixels that does not include its right and lower edges.
#[derive(Debug, Clone, Copy, PartialEq, Eq, Structural)]
pub struct Cc7PixelRect {
    pub x: u32,
    pub y: u32,
    pub width: u32,
    pub height: u32,
}

/// A rectangle without the pixels near its edges.
pub fn cc7_inset(rect: Cc7PixelRect) -> (inner: Cc7PixelRect)
    requires
        rect.width > 2 * CC7_PATCH_INSET_PIXELS,
        rect.height > 2 * CC7_PATCH_INSET_PIXELS,
        rect.x + CC7_PATCH_INSET_PIXELS <= u32::MAX,
        rect.y + CC7_PATCH_INSET_PIXELS <= u32::MAX,
    ensures
        inner == inset(rect),
{
    Cc7PixelRect {
        x: rect.x + CC7_PATCH_INSET_PIXELS,
        y: rect.y + CC7_PATCH_INSET_PIXELS,
        width: rect.width - 2 * CC7_PATCH_INSET_PIXELS,
        height: rect.height - 2 * CC7_PATCH_INSET_PIXELS,
    }
}

/// A rectangle without the two pixels at each of its edges.
pub open spec fn inset(rect: Cc7PixelRect) -> Cc7PixelRect {
    Cc7PixelRect {
        x: (rect.x + 2) as u32,
        y: (rect.y + 2) as u32,
        width: (rect.width - 4) as u32,
        height: (rect.height - 4) as u32,
    }
}

/// Whether a pixel lies in a rectangle.
pub open spec fn in_rect(rect: Cc7PixelRect, x: int, y: int) -> bool {
    rect.x <= x < rect.x + rect.width && rect.y <= y < rect.y + rect.height
}

/// A pixel lies in the inner rectangle exactly where every pixel up to two away
/// lies in the whole one.
pub proof fn lemma_inset_keeps_its_distance(rect: Cc7PixelRect, x: int, y: int)
    requires
        rect.width > 4,
        rect.height > 4,
        rect.x + 2 <= u32::MAX,
        rect.y + 2 <= u32::MAX,
    ensures
        in_rect(inset(rect), x, y) <==> in_rect(rect, x - 2, y - 2) && in_rect(rect, x + 2, y + 2),
{
}

/// The byte at which a pixel starts.
pub open spec fn byte_of(width: int, x: int, y: int) -> int {
    (y * width + x) * 4
}

/// Whether a rectangle has pixels and the raster holds all of them.
pub open spec fn readable(image: RgbaImage, rect: Cc7PixelRect) -> bool {
    &&& rect.width > 0
    &&& rect.height > 0
    &&& rect.x + rect.width <= u32::MAX
    &&& rect.y + rect.height <= u32::MAX
    &&& rect.width * rect.height <= u32::MAX
    &&& byte_of(
        image.width as int,
        rect.x + rect.width - 1,
        rect.y + rect.height - 1,
    ) <= u32::MAX
    &&& byte_of(
        image.width as int,
        rect.x + rect.width - 1,
        rect.y + rect.height - 1,
    ) + 2 < image.pixels@.len()
}

/// A channel of a rectangle's pixel, by its place in the rectangle row by row.
pub open spec fn rect_code(image: RgbaImage, rect: Cc7PixelRect, channel: int, i: int) -> nat {
    image.pixels@[byte_of(
        image.width as int,
        rect.x + i % rect.width as int,
        rect.y + i / rect.width as int,
    ) + channel] as nat
}

/// The sum of a channel over a rectangle.
pub open spec fn rect_sum(image: RgbaImage, rect: Cc7PixelRect, channel: int) -> nat {
    total(
        (rect.width * rect.height) as nat,
        |i: int| rect_code(image, rect, channel, i),
    )
}

/// The mean of each channel over a rectangle, as a sum and a count.
#[derive(Debug, Clone, Copy, PartialEq, Eq)]
pub struct RectMean {
    pub sums: [u64; 3],
    pub count: u64,
}

/// Whether a mean is that of a rectangle.
pub open spec fn is_mean(image: RgbaImage, rect: Cc7PixelRect, mean: RectMean) -> bool {
    &&& mean.count == rect.width * rect.height
    &&& forall|c: int| 0 <= c < 3 ==> #[trigger] mean.sums@[c] == rect_sum(image, rect, c)
}

/// The mean of each channel over a rectangle.
pub fn cc7_rect_mean_codes(image: &RgbaImage, rect: Cc7PixelRect) -> (mean: RectMean)
    requires
        readable(*image, rect),
    ensures
        is_mean(*image, rect, mean),
        mean.count > 0,
        forall|c: int| 0 <= c < 3 ==> #[trigger] mean.sums@[c] <= 255 * mean.count,
{
    let ghost codes0 = |i: int| rect_code(*image, rect, 0, i);
    let ghost codes1 = |i: int| rect_code(*image, rect, 1, i);
    let ghost codes2 = |i: int| rect_code(*image, rect, 2, i);
    let count: u32 = rect.width * rect.height;
    let mut sum0: u64 = 0;
    let mut sum1: u64 = 0;
    let mut sum2: u64 = 0;
    let mut i: u32 = 0;
    while i < count
        invariant
            i <= count,
            readable(*image, rect),
            count == rect.width * rect.height,
            codes0 == (|j: int| rect_code(*image, rect, 0, j)),
            codes1 == (|j: int| rect_code(*image, rect, 1, j)),
            codes2 == (|j: int| rect_code(*image, rect, 2, j)),
            sum0 == total(i as nat, codes0),
            sum1 == total(i as nat, codes1),
            sum2 == total(i as nat, codes2),
            sum0 <= 255 * i,
            sum1 <= 255 * i,
            sum2 <= 255 * i,
        decreases count - i,
    {
        proof {
            lemma_byte_in_raster(*image, rect, i as int);
        }
        let x: u32 = rect.x + i % rect.width;
        let y: u32 = rect.y + i / rect.width;
        let index: usize = ((y * image.width + x) * 4) as usize;
        sum0 = sum0 + image.pixels[index] as u64;
        sum1 = sum1 + image.pixels[index + 1] as u64;
        sum2 = sum2 + image.pixels[index + 2] as u64;
        i += 1;
    }
    proof {
        assert(rect.width * rect.height > 0) by (nonlinear_arith)
            requires
                rect.width > 0,
                rect.height > 0,
        ;
    }
    RectMean { sums: [sum0, sum1, sum2], count: count as u64 }
}

/// The bytes of a rectangle's pixels lie in the raster.
pub proof fn lemma_byte_in_raster(image: RgbaImage, rect: Cc7PixelRect, i: int)
    requires
        readable(image, rect),
        0 <= i < rect.width * rect.height,
    ensures
        0 <= i % rect.width as int,
        i % (rect.width as int) < rect.width,
        0 <= i / rect.width as int,
        i / (rect.width as int) < rect.height,
        0 <= (rect.y + i / rect.width as int) * image.width,
        (rect.y + i / rect.width as int) * image.width + rect.x + i % rect.width as int <= u32::MAX,
        byte_of(
            image.width as int,
            rect.x + i % rect.width as int,
            rect.y + i / rect.width as int,
        ) <= u32::MAX,
        byte_of(
            image.width as int,
            rect.x + i % rect.width as int,
            rect.y + i / rect.width as int,
        ) + 2 < image.pixels@.len(),
{
    let w = rect.width as int;
    let h = rect.height as int;
    assert(0 <= i % w < w && 0 <= i / w < h) by (nonlinear_arith)
        requires
            0 <= i < w * h,
            w > 0,
    ;
    let y = rect.y + i / w;
    let bottom = rect.y + h - 1;
    let width = image.width as int;
    assert(0 <= y * width <= bottom * width) by (nonlinear_arith)
        requires
            0 <= y <= bottom,
            0 <= width,
    ;
}

/// A quotient to the nearest integer, with a half away from zero.
pub open spec fn rounded_quotient(numerator: int, denominator: int) -> int {
    if numerator >= 0 {
        (2 * numerator + denominator) / (2 * denominator)
    } else {
        -((denominator - 2 * numerator) / (2 * denominator))
    }
}

/// A quotient to the nearest integer, with a half away from zero.
pub fn cc7_round(numerator: i64, denominator: i64) -> (rounded: i64)
    requires
        denominator > 0,
    ensures
        rounded == rounded_quotient(numerator as int, denominator as int),
{
    let n: i128 = numerator as i128;
    let d: i128 = denominator as i128;
    let rounded: i128 = if n >= 0 {
        (2 * n + d) / (2 * d)
    } else {
        -((d - 2 * n) / (2 * d))
    };
    proof {
        assert(i64::MIN <= rounded <= i64::MAX) by {
            if n >= 0 {
                assert(0 <= (2 * n + d) / (2 * d) <= n || n == 0) by (nonlinear_arith)
                    requires
                        n >= 0,
                        d >= 1,
                ;
                if n == 0 {
                    assert((2 * n + d) / (2 * d) == 0) by (nonlinear_arith)
                        requires
                            n == 0,
                            d >= 1,
                    ;
                }
            } else {
                assert(0 <= (d - 2 * n) / (2 * d) <= -n) by (nonlinear_arith)
                    requires
                        n < 0,
                        d >= 1,
                ;
            }
        }
    }
    rounded as i64
}

/// A rounded quotient lies within a half of the quotient, and rounding keeps
/// the sign.
pub proof fn lemma_rounding_is_nearest(numerator: int, denominator: int)
    requires
        denominator > 0,
    ensures
        2 * numerator - denominator <= 2 * denominator * rounded_quotient(numerator, denominator),
        2 * denominator * rounded_quotient(numerator, denominator) <= 2 * numerator + denominator,
        rounded_quotient(-numerator, denominator) == -rounded_quotient(numerator, denominator),
{
    let d = denominator;
    if numerator >= 0 {
        let n = numerator;
        let q = (2 * n + d) / (2 * d);
        assert(2 * d * q <= 2 * n + d && 2 * n + d < 2 * d * q + 2 * d) by (nonlinear_arith)
            requires
                q == (2 * n + d) / (2 * d),
                d > 0,
        ;
        if n == 0 {
            assert((d - 0) / (2 * d) == 0) by (nonlinear_arith)
                requires
                    d > 0,
            ;
        }
    } else {
        let n = -numerator;
        let q = (d + 2 * n) / (2 * d);
        assert(2 * d * q <= 2 * n + d && 2 * n + d < 2 * d * q + 2 * d) by (nonlinear_arith)
            requires
                q == (d + 2 * n) / (2 * d),
                d > 0,
        ;
        assert(2 * d * (-q) == -(2 * d * q)) by (nonlinear_arith);
    }
}

/// Whether a patch survives its inset and the raster holds what is left of it.
pub open spec fn patch_fits(image: RgbaImage, patch: Cc7PixelRect) -> bool {
    &&& patch.width > 2 * CC7_PATCH_INSET_PIXELS
    &&& patch.height > 2 * CC7_PATCH_INSET_PIXELS
    &&& patch.x + CC7_PATCH_INSET_PIXELS <= u32::MAX
    &&& patch.y + CC7_PATCH_INSET_PIXELS <= u32::MAX
    &&& readable(image, inset(patch))
}

/// A channel of a patch's mean, rounded to a code.
pub open spec fn patch_code(image: RgbaImage, patch: Cc7PixelRect, channel: int) -> int {
    rounded_quotient(
        rect_sum(image, inset(patch), channel) as int,
        inset(patch).width * inset(patch).height,
    )
}

/// A patch's mean, rounded to codes.
pub fn cc7_patch_codes(image: &RgbaImage, patch: Cc7PixelRect) -> (codes: [i64; 3])
    requires
        patch_fits(*image, patch),
    ensures
        forall|c: int|
            0 <= c < 3 ==> #[trigger] codes@[c] == patch_code(*image, patch, c) && 0 <= codes@[c]
                <= 255,
{
    let mean = cc7_rect_mean_codes(image, cc7_inset(patch));
    let count: i64 = mean.count as i64;
    assert(mean.sums@[0] <= 255 * count && mean.sums@[1] <= 255 * count && mean.sums@[2] <= 255
        * count);
    let red: i64 = cc7_round(mean.sums[0] as i64, count);
    let green: i64 = cc7_round(mean.sums[1] as i64, count);
    let blue: i64 = cc7_round(mean.sums[2] as i64, count);
    proof {
        lemma_rounded_code(mean.sums@[0] as int, count as int);
        lemma_rounded_code(mean.sums@[1] as int, count as int);
        lemma_rounded_code(mean.sums@[2] as int, count as int);
    }
    [red, green, blue]
}

proof fn lemma_rounded_code(sum: int, count: int)
    requires
        count > 0,
        0 <= sum <= 255 * count,
    ensures
        0 <= rounded_quotient(sum, count) <= 255,
{
    assert(0 <= (2 * sum + count) / (2 * count) <= 255) by (nonlinear_arith)
        requires
            count > 0,
            0 <= sum <= 255 * count,
    ;
}

/// The distance of two numbers.
pub open spec fn distance(a: int, b: int) -> int {
    if a >= b {
        a - b
    } else {
        b - a
    }
}

/// How far a patch is from neutral: the greater distance of its red and of its
/// blue from its green.
pub open spec fn neutral_spread(image: RgbaImage, patch: Cc7PixelRect) -> int {
    let red = distance(patch_code(image, patch, 0), patch_code(image, patch, 1));
    let blue = distance(patch_code(image, patch, 1), patch_code(image, patch, 2));
    if red >= blue {
        red
    } else {
        blue
    }
}

/// Whether a spread is the greatest of the first patches, at the first patch
/// that has it, or zero at the first patch where all are neutral.
pub open spec fn is_worst_spread(
    image: RgbaImage,
    patches: Seq<Cc7PixelRect>,
    count: int,
    worst: (i64, usize),
) -> bool {
    &&& worst.0 >= 0
    &&& forall|i: int| 0 <= i < count ==> neutral_spread(image, #[trigger] patches[i]) <= worst.0
    &&& if worst.0 == 0 {
        worst.1 == 0
    } else {
        &&& worst.1 < count
        &&& neutral_spread(image, patches[worst.1 as int]) == worst.0
        &&& forall|i: int|
            0 <= i < worst.1 ==> neutral_spread(image, #[trigger] patches[i]) < worst.0
    }
}

/// The greatest spread of a chart's patches, and the patch that has it.
pub fn cc7_chart_neutral_spread(image: &RgbaImage, patches: &[Cc7PixelRect]) -> (worst: (i64, usize))
    requires
        forall|i: int| 0 <= i < patches@.len() ==> patch_fits(*image, #[trigger] patches@[i]),
    ensures
        is_worst_spread(*image, patches@, patches@.len() as int, worst),
{
    let mut spread: i64 = 0;
    let mut at: usize = 0;
    let mut index: usize = 0;
    while index < patches.len()
        invariant
            index <= patches.len(),
            forall|i: int| 0 <= i < patches@.len() ==> patch_fits(*image, #[trigger] patches@[i]),
            is_worst_spread(*image, patches@, index as int, (spread, at)),
        decreases patches.len() - index,
    {
        let codes = cc7_patch_codes(image, patches[index]);
        assert(codes@[0] == patch_code(*image, patches@[index as int], 0));
        assert(codes@[1] == patch_code(*image, patches@[index as int], 1));
        assert(codes@[2] == patch_code(*image, patches@[index as int], 2));
        let red: i64 = if codes[0] >= codes[1] {
            codes[0] - codes[1]
        } else {
            codes[1] - codes[0]
        };
        let blue: i64 = if codes[1] >= codes[2] {
            codes[1] - codes[2]
        } else {
            codes[2] - codes[1]
        };
        let here: i64 = if red >= blue {
            red
        } else {
            blue
        };
        if here > spread {
            spread = here;
            at = index;
        }
        index += 1;
    }
    (spread, at)
}

/// A chart's worst spread is zero exactly where each of its patches is neutral.
pub proof fn lemma_no_spread_means_neutral(
    image: RgbaImage,
    patches: Seq<Cc7PixelRect>,
    worst: (i64, usize),
)
    requires
        is_worst_spread(image, patches, patches.len() as int, worst),
    ensures
        worst.0 == 0 <==> forall|i: int|
            0 <= i < patches.len() ==> patch_code(image, #[trigger] patches[i], 0) == patch_code(
                image,
                patches[i],
                1,
            ) && patch_code(image, patches[i], 1) == patch_code(image, patches[i], 2),
{
    if worst.0 == 0 {
        assert forall|i: int| 0 <= i < patches.len() implies patch_code(
            image,
            #[trigger] patches[i],
            0,
        ) == patch_code(image, patches[i], 1) && patch_code(image, patches[i], 1) == patch_code(
            image,
            patches[i],
            2,
        ) by {
            assert(neutral_spread(image, patches[i]) <= 0);
        }
    } else {
        assert(neutral_spread(image, patches[worst.1 as int]) > 0);
    }
}

/// The luma of a mean, in ten-thousandths of a code for each of its pixels.
pub open spec fn luma_sum(image: RgbaImage, rect: Cc7PixelRect) -> int {
    2_126int * rect_sum(image, rect, 0) + 7_152int * rect_sum(image, rect, 1) + 722int * rect_sum(
        image,
        rect,
        2,
    )
}

/// The luma of a rectangle's mean, in ten-thousandths of a code for each of its
/// pixels, with the number of pixels.
pub fn cc7_chart_band_luma_mean_codes(image: &RgbaImage, band: Cc7PixelRect) -> (luma: (u64, u64))
    requires
        readable(*image, band),
    ensures
        luma.0 == luma_sum(*image, band),
        luma.1 == band.width * band.height,
        0 < luma.1 <= u32::MAX,
        luma.0 <= 2_550_000 * luma.1,
{
    let mean = cc7_rect_mean_codes(image, band);
    assert(mean.sums@[0] <= 255 * mean.count && mean.sums@[1] <= 255 * mean.count && mean.sums@[2]
        <= 255 * mean.count);
    let luma: u64 = CC7_BT709_LUMA_WEIGHTS[0] * mean.sums[0] + CC7_BT709_LUMA_WEIGHTS[1]
        * mean.sums[1] + CC7_BT709_LUMA_WEIGHTS[2] * mean.sums[2];
    (luma, mean.count)
}

/// How much brighter the mean of a rectangle is on a candidate than on a
/// reference, in millionths of a code.
pub fn cc7_chart_luma_mean_delta_millionths(
    reference: &RgbaImage,
    candidate: &RgbaImage,
    band: Cc7PixelRect,
) -> (delta: i64)
    requires
        readable(*reference, band),
        readable(*candidate, band),
    ensures
        delta == luma_delta(*reference, *candidate, band),
{
    let (before, count) = cc7_chart_band_luma_mean_codes(reference, band);
    let (after, _) = cc7_chart_band_luma_mean_codes(candidate, band);
    cc7_round(100 * (after as i64 - before as i64), count as i64)
}

/// A match is judged the same way from either side, and a raster is no brighter
/// than itself.
pub proof fn lemma_luma_delta_is_antisymmetric(
    reference: RgbaImage,
    candidate: RgbaImage,
    band: Cc7PixelRect,
)
    requires
        readable(reference, band),
    ensures
        luma_delta(reference, candidate, band) == -luma_delta(candidate, reference, band),
        luma_delta(reference, reference, band) == 0,
{
    assert(band.width * band.height > 0) by (nonlinear_arith)
        requires
            band.width > 0,
            band.height > 0,
    ;
    let difference = 100 * (luma_sum(reference, band) - luma_sum(candidate, band));
    lemma_rounding_is_nearest(difference, band.width * band.height);
    lemma_rounding_is_nearest(0, band.width * band.height);
    assert(luma_delta(reference, reference, band) == rounded_quotient(0, band.width * band.height));
    assert(-difference == 100 * (luma_sum(candidate, band) - luma_sum(reference, band)));
}

/// The greatest of three numbers.
pub open spec fn greatest(a: int, b: int, c: int) -> int {
    if a >= b && a >= c {
        a
    } else if b >= c {
        b
    } else {
        c
    }
}

/// The least of three numbers.
pub open spec fn least(a: int, b: int, c: int) -> int {
    if a <= b && a <= c {
        a
    } else if b <= c {
        b
    } else {
        c
    }
}

/// The chroma spread of a patch: the distance of its greatest and its least
/// channel sum.
pub open spec fn chroma_spread(image: RgbaImage, patch: Cc7PixelRect) -> int {
    let r = rect_sum(image, inset(patch), 0) as int;
    let g = rect_sum(image, inset(patch), 1) as int;
    let b = rect_sum(image, inset(patch), 2) as int;
    greatest(r, g, b) - least(r, g, b)
}

/// The chroma spreads of the four skin patches, each as a distance of sums and
/// the number of pixels that they are sums of.
pub fn cc7_skin_row_chroma_spread(image: &RgbaImage, patches: &[Cc7PixelRect]) -> (spreads: Vec<
    (u64, u64),
>)
    requires
        patches@.len() >= 4,
        forall|i: int| 0 <= i < 4 ==> patch_fits(*image, #[trigger] patches@[i]),
    ensures
        spreads@.len() == 4,
        forall|i: int|
            0 <= i < 4 ==> (#[trigger] spreads@[i]).0 == chroma_spread(*image, patches@[i])
                && spreads@[i].1 == inset(patches@[i]).width * inset(patches@[i]).height,
{
    let mut spreads: Vec<(u64, u64)> = Vec::new();
    let mut i: usize = 0;
    while i < 4
        invariant
            i <= 4,
            patches@.len() >= 4,
            forall|j: int| 0 <= j < 4 ==> patch_fits(*image, #[trigger] patches@[j]),
            spreads@.len() == i,
            forall|j: int|
                0 <= j < i ==> (#[trigger] spreads@[j]).0 == chroma_spread(*image, patches@[j])
                    && spreads@[j].1 == inset(patches@[j]).width * inset(patches@[j]).height,
        decreases 4 - i,
    {
        let mean = cc7_rect_mean_codes(image, cc7_inset(patches[i]));
        let r: u64 = mean.sums[0];
        let g: u64 = mean.sums[1];
        let b: u64 = mean.sums[2];
        let high: u64 = if r >= g && r >= b {
            r
        } else if g >= b {
            g
        } else {
            b
        };
        let low: u64 = if r <= g && r <= b {
            r
        } else if g <= b {
            g
        } else {
            b
        };
        assert(r == rect_sum(*image, inset(patches@[i as int]), 0));
        assert(g == rect_sum(*image, inset(patches@[i as int]), 1));
        assert(b == rect_sum(*image, inset(patches@[i as int]), 2));
        spreads.push((high - low, mean.count));
        i += 1;
    }
    spreads
}

/// The common denominator of the first fractions of a row: the product of their
/// denominators.
pub open spec fn row_denominator(row: Seq<(u64, u64)>, count: nat) -> nat
    decreases count,
{
    if count == 0 {
        1
    } else {
        row_denominator(row, (count - 1) as nat) * row[count - 1].1 as nat
    }
}

/// The sum of the first fractions of a row, over their common denominator.
pub open spec fn row_numerator(row: Seq<(u64, u64)>, count: nat) -> nat
    decreases count,
{
    if count == 0 {
        0
    } else {
        row_numerator(row, (count - 1) as nat) * row[count - 1].1 as nat + row[count - 1].0 as nat
            * row_denominator(row, (count - 1) as nat)
    }
}

/// Whether no denominator of a row is zero, and its sum can be held.
pub open spec fn row_fits(row: Seq<(u64, u64)>) -> bool {
    &&& forall|i: int| 0 <= i < row.len() ==> (#[trigger] row[i]).1 > 0
    &&& row_denominator(row, row.len()) <= u128::MAX
    &&& row_numerator(row, row.len()) <= u128::MAX
}

proof fn lemma_row_grows(row: Seq<(u64, u64)>, count: nat)
    requires
        count <= row.len(),
        forall|i: int| 0 <= i < row.len() ==> (#[trigger] row[i]).1 > 0,
    ensures
        row_denominator(row, count) <= row_denominator(row, row.len()),
        row_numerator(row, count) <= row_numerator(row, row.len()),
    decreases row.len() - count,
{
    if count < row.len() {
        lemma_row_grows(row, count + 1);
        let denominator = row_denominator(row, count);
        let numerator = row_numerator(row, count);
        let factor = row[count as int].1 as nat;
        let part = row[count as int].0 as nat;
        assert(denominator <= denominator * factor) by (nonlinear_arith)
            requires
                factor >= 1,
        ;
        assert(numerator <= numerator * factor + part * denominator) by (nonlinear_arith)
            requires
                factor >= 1,
        ;
    }
}

/// The sum of the fractions of a row: a numerator and a denominator.
fn row_sum(row: &[(u64, u64)]) -> (sum: (u128, u128))
    requires
        row_fits(row@),
    ensures
        sum.0 == row_numerator(row@, row@.len()),
        sum.1 == row_denominator(row@, row@.len()),
{
    let mut numerator: u128 = 0;
    let mut denominator: u128 = 1;
    let mut i: usize = 0;
    while i < row.len()
        invariant
            i <= row.len(),
            row_fits(row@),
            numerator == row_numerator(row@, i as nat),
            denominator == row_denominator(row@, i as nat),
        decreases row.len() - i,
    {
        let part: u128 = row[i].0 as u128;
        let factor: u128 = row[i].1 as u128;
        proof {
            lemma_row_grows(row@, (i + 1) as nat);
            assert(0 <= numerator * factor && 0 <= part * denominator) by (nonlinear_arith)
                requires
                    0 <= numerator,
                    0 <= factor,
                    0 <= part,
                    0 <= denominator,
            ;
        }
        numerator = numerator * factor + part * denominator;
        denominator = denominator * factor;
        i += 1;
    }
    (numerator, denominator)
}

/// Whether the spreads of one row sum to less than those of another, exactly: a
/// match that keeps an intended desaturation leaves the candidate's skin row
/// below the reference's.  A spread is a sum of codes over a number of pixels.
pub fn skin_row_spread_is_below(row: &[(u64, u64)], other: &[(u64, u64)]) -> (below: bool)
    requires
        row_fits(row@),
        row_fits(other@),
        row_numerator(row@, row@.len()) * row_denominator(other@, other@.len()) <= u128::MAX,
        row_numerator(other@, other@.len()) * row_denominator(row@, row@.len()) <= u128::MAX,
    ensures
        below == (row_numerator(row@, row@.len()) * row_denominator(other@, other@.len())
            < row_numerator(other@, other@.len()) * row_denominator(row@, row@.len())),
{
    let (numerator, denominator) = row_sum(row);
    let (other_numerator, other_denominator) = row_sum(other);
    numerator * other_denominator < other_numerator * denominator
}

/// Where both rows were measured over the same number of pixels in every patch,
/// the row whose distances sum to less is the one below.
pub proof fn lemma_equal_counts_compare_distances(
    row: Seq<(u64, u64)>,
    other: Seq<(u64, u64)>,
    pixels: u64,
)
    requires
        pixels > 0,
        row.len() == 4,
        other.len() == 4,
        forall|i: int| 0 <= i < 4 ==> (#[trigger] row[i]).1 == pixels,
        forall|i: int| 0 <= i < 4 ==> (#[trigger] other[i]).1 == pixels,
    ensures
        row_numerator(row, 4) * row_denominator(other, 4) < row_numerator(other, 4)
            * row_denominator(row, 4) <==> row[0].0 + row[1].0 + row[2].0 + row[3].0 < other[0].0
            + other[1].0 + other[2].0 + other[3].0,
{
    lemma_equal_counts(row, pixels as nat);
    lemma_equal_counts(other, pixels as nat);
    let a = row[0].0 + row[1].0 + row[2].0 + row[3].0;
    let b = other[0].0 + other[1].0 + other[2].0 + other[3].0;
    let scale = pixels as int * (pixels as int * pixels as int);
    let whole = scale * pixels as int;
    assert(scale > 0 && whole > 0) by (nonlinear_arith)
        requires
            scale == pixels as int * (pixels as int * pixels as int),
            whole == scale * pixels as int,
            pixels > 0,
    ;
    assert(a * scale * whole < b * scale * whole <==> a < b) by (nonlinear_arith)
        requires
            scale > 0,
            whole > 0,
    ;
}

proof fn lemma_equal_counts(row: Seq<(u64, u64)>, pixels: nat)
    requires
        row.len() == 4,
        forall|i: int| 0 <= i < 4 ==> (#[trigger] row[i]).1 == pixels,
    ensures
        row_denominator(row, 4) == pixels * (pixels * pixels) * pixels,
        row_numerator(row, 4) == (row[0].0 + row[1].0 + row[2].0 + row[3].0) * (pixels * (pixels
            * pixels)),
{
    reveal_with_fuel(row_denominator, 5);
    reveal_with_fuel(row_numerator, 5);
    let a = row[0].0 as int;
    let b = row[1].0 as int;
    let c = row[2].0 as int;
    let d = row[3].0 as int;
    let n = pixels as int;
    let none = row_numerator(row, 0) as int;
    let unit = row_denominator(row, 0) as int;
    assert(none * n + a * unit == a && unit * n == n) by (nonlinear_arith)
        requires
            none == 0,
            unit == 1,
    ;
    assert(row_denominator(row, 1) == n);
    assert(row_denominator(row, 2) == n * n);
    assert(row_denominator(row, 3) == n * n * n);
    assert(n * n * n == n * (n * n)) by (nonlinear_arith);
    assert(row_numerator(row, 1) == a);
    assert(row_numerator(row, 2) == a * n + b * n);
    assert(row_numerator(row, 3) == (a * n + b * n) * n + c * (n * n));
    assert(((a * n + b * n) * n + c * (n * n)) * n + d * (n * n * n) == (a + b + c + d) * (n * (n
        * n))) by (nonlinear_arith);
}

/// Why a monitor raster carries no claim.
#[derive(Debug, Clone, Copy, PartialEq, Eq, Structural)]
pub enum ProofFailure {
    NotFullResolution,
    SizeDiffers,
}

/// A monitor raster, where it was rendered in full at the size of its source.
pub fn cc7_monitor_raster(image: RgbaImage, full_resolution: bool, size: (u32, u32)) -> (result:
    Result<RgbaImage, ProofFailure>)
    ensures
        match result {
            Ok(raster) => raster == image && full_resolution && image.width == size.0
                && image.height == size.1,
            Err(ProofFailure::NotFullResolution) => !full_resolution,
            Err(ProofFailure::SizeDiffers) => full_resolution && (image.width != size.0
                || image.height != size.1),
        },
{
    if !full_resolution {
        return Err(ProofFailure::NotFullResolution);
    }
    if image.width != size.0 || image.height != size.1 {
        return Err(ProofFailure::SizeDiffers);
    }
    Ok(image)
}

/// What a match of a candidate to a reference measures.
#[derive(Debug, Clone, Copy)]
pub struct Cc7MatchMeasurement {
    pub unmatched_spread: (i64, usize),
    pub matched_spread: (i64, usize),
    pub unmatched_luma_millionths: i64,
    pub matched_luma_millionths: i64,
}

/// How much brighter a candidate is than a reference.
pub open spec fn luma_delta(reference: RgbaImage, candidate: RgbaImage, band: Cc7PixelRect) -> int {
    rounded_quotient(
        100 * (luma_sum(candidate, band) - luma_sum(reference, band)),
        band.width * band.height,
    )
}

/// Measures a candidate before and after its match: how far its chart is from
/// neutral, and how much brighter its band is than the reference's.
pub fn cc7_measure_match(
    reference: &RgbaImage,
    unmatched: &RgbaImage,
    matched: &RgbaImage,
    patches: &[Cc7PixelRect],
    band: Cc7PixelRect,
) -> (measured: Cc7MatchMeasurement)
    requires
        forall|i: int|
            0 <= i < patches@.len() ==> patch_fits(*unmatched, #[trigger] patches@[i])
                && patch_fits(*matched, patches@[i]),
        readable(*reference, band),
        readable(*unmatched, band),
        readable(*matched, band),
    ensures
        is_worst_spread(
            *unmatched,
            patches@,
            patches@.len() as int,
            measured.unmatched_spread,
        ),
        is_worst_spread(*matched, patches@, patches@.len() as int, measured.matched_spread),
        measured.unmatched_luma_millionths == luma_delta(*reference, *unmatched, band),
        measured.matched_luma_millionths == luma_delta(*reference, *matched, band),
{
    Cc7MatchMeasurement {
        unmatched_spread: cc7_chart_neutral_spread(unmatched, patches),
        matched_spread: cc7_chart_neutral_spread(matched, patches),
        unmatched_luma_millionths: cc7_chart_luma_mean_delta_millionths(
            reference,
            unmatched,
            band,
        ),
        matched_luma_millionths: cc7_chart_luma_mean_delta_millionths(reference, matched, band),
    }
}

/// The worst spread bounds how far red and blue lie from green on every patch,
/// on either side, and where it is not zero it is one of the two distances on
/// the patch that it names, which is the first to reach it.
pub proof fn lemma_worst_spread_on_codes(
    image: RgbaImage,
    patches: Seq<Cc7PixelRect>,
    worst: (i64, usize),
)
    requires
        is_worst_spread(image, patches, patches.len() as int, worst),
    ensures
        forall|i: int|
            0 <= i < patches.len() ==> {
                let red = patch_code(image, #[trigger] patches[i], 0);
                let green = patch_code(image, patches[i], 1);
                let blue = patch_code(image, patches[i], 2);
                &&& -worst.0 <= red - green <= worst.0
                &&& -worst.0 <= green - blue <= worst.0
                &&& i < worst.1 ==> -worst.0 < red - green < worst.0 && -worst.0 < green - blue
                    < worst.0
            },
        worst.0 == 0 ==> worst.1 == 0,
        worst.0 != 0 ==> worst.0 > 0 && worst.1 < patches.len() && {
            let patch = patches[worst.1 as int];
            let red = patch_code(image, patch, 0);
            let green = patch_code(image, patch, 1);
            let blue = patch_code(image, patch, 2);
            ||| red - green == worst.0
            ||| green - red == worst.0
            ||| green - blue == worst.0
            ||| blue - green == worst.0
        },
{
    assert forall|i: int| 0 <= i < patches.len() implies {
        let red = patch_code(image, #[trigger] patches[i], 0);
        let green = patch_code(image, patches[i], 1);
        let blue = patch_code(image, patches[i], 2);
        &&& -worst.0 <= red - green <= worst.0
        &&& -worst.0 <= green - blue <= worst.0
        &&& i < worst.1 ==> -worst.0 < red - green < worst.0 && -worst.0 < green - blue < worst.0
    } by {
        assert(neutral_spread(image, patches[i]) <= worst.0);
        if i < worst.1 {
            assert(neutral_spread(image, patches[i]) < worst.0);
        }
    }
}

/// The sum over one pixel is its byte.
pub proof fn lemma_sum_of_one_pixel(image: RgbaImage, rect: Cc7PixelRect, channel: int)
    requires
        rect.width == 1,
        rect.height == 1,
    ensures
        rect_sum(image, rect, channel) == image.pixels@[(rect.y * image.width + rect.x) * 4
            + channel],
{
    let codes = |i: int| rect_code(image, rect, channel, i);
    reveal_with_fuel(total, 2);
    assert(total(1, codes) == codes(0));
    assert((rect.width * rect.height) as nat == 1) by (nonlinear_arith)
        requires
            rect.width == 1,
            rect.height == 1,
    ;
}

/// The sum over a rectangle is the sum over its upper rows and the sum over the
/// rows below them.
pub proof fn lemma_sum_of_stacked_rows(
    image: RgbaImage,
    rect: Cc7PixelRect,
    upper: Cc7PixelRect,
    lower: Cc7PixelRect,
    channel: int,
)
    requires
        rect.width > 0,
        upper.x == rect.x && lower.x == rect.x,
        upper.width == rect.width && lower.width == rect.width,
        upper.y == rect.y && lower.y == rect.y + upper.height,
        upper.height + lower.height == rect.height,
    ensures
        rect_sum(image, rect, channel) == rect_sum(image, upper, channel) + rect_sum(
            image,
            lower,
            channel,
        ),
{
    let w = rect.width as int;
    let top = upper.height as int;
    let codes = |i: int| rect_code(image, rect, channel, i);
    let above = |i: int| rect_code(image, upper, channel, i);
    let below = |i: int| rect_code(image, lower, channel, i);
    let count = (upper.width * upper.height) as nat;
    let rest = (lower.width * lower.height) as nat;
    assert(w * top >= 0 && w * lower.height >= 0 && rect.width * rect.height == w * top + w
        * lower.height) by (nonlinear_arith)
        requires
            rect.width == w,
            w > 0,
            top >= 0,
            lower.height >= 0,
            top + lower.height == rect.height,
    ;
    assert forall|i: int| 0 <= i < rest implies #[trigger] below(i) == codes(count + i) by {
        vstd::arithmetic::div_mod::lemma_mod_multiples_vanish(top, i, w);
        vstd::arithmetic::div_mod::lemma_hoist_over_denominator(i, top, w as nat);
        assert(w * top == top * w) by (nonlinear_arith);
        assert(count + i == w * top + i);
        assert((count + i) % w == i % w);
        assert((count + i) / w == i / w + top);
    }
    crate::tally::lemma_total_splits(count, rest, codes, below);
    crate::tally::lemma_total_same(count, above, codes);
}

/// The sum over a row is the sum over its left part and the sum over what is
/// right of it.
pub proof fn lemma_sum_of_parts_of_a_row(
    image: RgbaImage,
    rect: Cc7PixelRect,
    left: Cc7PixelRect,
    right: Cc7PixelRect,
    channel: int,
)
    requires
        rect.height == 1 && left.height == 1 && right.height == 1,
        left.y == rect.y && right.y == rect.y,
        left.width > 0 && right.width > 0,
        left.x == rect.x && right.x == rect.x + left.width,
        left.width + right.width == rect.width,
    ensures
        rect_sum(image, rect, channel) == rect_sum(image, left, channel) + rect_sum(
            image,
            right,
            channel,
        ),
{
    let codes = |i: int| rect_code(image, rect, channel, i);
    let first = |i: int| rect_code(image, left, channel, i);
    let second = |i: int| rect_code(image, right, channel, i);
    let count = left.width as nat;
    let rest = right.width as nat;
    assert(rect.width * rect.height == rect.width && left.width * left.height == left.width
        && right.width * right.height == right.width) by (nonlinear_arith)
        requires
            rect.height == 1,
            left.height == 1,
            right.height == 1,
    ;
    assert forall|i: int| 0 <= i < rest implies #[trigger] second(i) == codes(count + i) by {
        vstd::arithmetic::div_mod::lemma_small_mod(i as nat, rest);
        vstd::arithmetic::div_mod::lemma_small_mod((count + i) as nat, rect.width as nat);
        vstd::arithmetic::div_mod::lemma_basic_div(i, rest as int);
        vstd::arithmetic::div_mod::lemma_basic_div(count + i, rect.width as int);
    }
    assert forall|i: int| 0 <= i < count implies #[trigger] first(i) == codes(i) by {
        vstd::arithmetic::div_mod::lemma_small_mod(i as nat, count);
        vstd::arithmetic::div_mod::lemma_small_mod(i as nat, rect.width as nat);
        vstd::arithmetic::div_mod::lemma_basic_div(i, count as int);
        vstd::arithmetic::div_mod::lemma_basic_div(i, rect.width as int);
    }
    crate::tally::lemma_total_splits(count, rest, codes, second);
    crate::tally::lemma_total_same(count, first, codes);
}

/// A rectangle's sum lies between its least and its greatest code, each times
/// the number of its pixels.
proof fn lemma_sum_is_within(
    image: RgbaImage,
    rect: Cc7PixelRect,
    channel: int,
    low: nat,
    high: nat,
)
    requires
        rect.width > 0,
        rect.height > 0,
        forall|x: int, y: int|
            #![trigger image.pixels@[(y * image.width + x) * 4 + channel]]
            rect.x <= x < rect.x + rect.width && rect.y <= y < rect.y + rect.height ==> low
                <= image.pixels@[(y * image.width + x) * 4 + channel] <= high,
    ensures
        rect.width * rect.height > 0,
        low * (rect.width * rect.height) <= rect_sum(image, rect, channel) <= high * (rect.width
            * rect.height),
{
    let w = rect.width as int;
    let h = rect.height as int;
    let codes = |i: int| rect_code(image, rect, channel, i);
    let count = (rect.width * rect.height) as nat;
    assert(w * h > 0) by (nonlinear_arith)
        requires
            w > 0,
            h > 0,
    ;
    assert forall|i: int| 0 <= i < count implies low <= #[trigger] codes(i) <= high by {
        assert(0 <= i % w < w && 0 <= i / w < h) by (nonlinear_arith)
            requires
                0 <= i < w * h,
                w > 0,
        ;
        let x = rect.x + i % w;
        let y = rect.y + i / w;
        assert(codes(i) == image.pixels@[(y * image.width + x) * 4 + channel]);
    }
    crate::tally::lemma_total_bound(count, codes, high);
    crate::tally::lemma_total_least(count, codes, low);
}

/// A patch whose inner pixels, those that are two or more away from its edges,
/// all lie between two codes has a code between the two; one that is uniform
/// has its colour.  What stands at the edges is not seen.
pub proof fn lemma_patch_code_is_within(
    image: RgbaImage,
    patch: Cc7PixelRect,
    channel: int,
    low: nat,
    high: nat,
)
    requires
        patch_fits(image, patch),
        forall|x: int, y: int|
            #![trigger image.pixels@[(y * image.width + x) * 4 + channel]]
            patch.x + 2 <= x < patch.x + patch.width - 2 && patch.y + 2 <= y < patch.y
                + patch.height - 2 ==> low <= image.pixels@[(y * image.width + x) * 4 + channel]
                <= high,
    ensures
        low <= patch_code(image, patch, channel) <= high,
        low == high ==> patch_code(image, patch, channel) == low,
{
    let inner = inset(patch);
    lemma_sum_is_within(image, inner, channel, low, high);
    let sum = rect_sum(image, inner, channel) as int;
    let count = inner.width * inner.height;
    assert(low <= (2 * sum + count) / (2 * count) <= high) by (nonlinear_arith)
        requires
            count > 0,
            low * count <= sum <= high * count,
            low >= 0,
    ;
}

/// Rounding is to the nearest, a half goes away from zero, and nothing else is
/// left open.
pub proof fn lemma_rounding_exactly(numerator: int, denominator: int)
    requires
        denominator > 0,
    ensures
        numerator >= 0 ==> 2 * denominator * rounded_quotient(numerator, denominator) - denominator
            <= 2 * numerator < 2 * denominator * rounded_quotient(numerator, denominator)
            + denominator,
        numerator < 0 ==> 2 * denominator * rounded_quotient(numerator, denominator) - denominator
            < 2 * numerator <= 2 * denominator * rounded_quotient(numerator, denominator)
            + denominator,
{
    let d = denominator;
    if numerator >= 0 {
        let n = numerator;
        let q = (2 * n + d) / (2 * d);
        assert(2 * d * q <= 2 * n + d < 2 * d * q + 2 * d) by (nonlinear_arith)
            requires
                q == (2 * n + d) / (2 * d),
                d > 0,
        ;
    } else {
        let n = -numerator;
        let q = (d + 2 * n) / (2 * d);
        assert(2 * d * q <= 2 * n + d < 2 * d * q + 2 * d) by (nonlinear_arith)
            requires
                q == (d + 2 * n) / (2 * d),
                d > 0,
        ;
        assert(2 * d * (-q) == -(2 * d * q)) by (nonlinear_arith);
    }
}

/// Two bands that are each of one colour differ in brightness by the luma of the
/// one less that of the other: green weighs most and blue least, and a step of
/// one code in all three channels is a million.
pub proof fn lemma_luma_delta_of_uniform_bands(
    reference: RgbaImage,
    candidate: RgbaImage,
    band: Cc7PixelRect,
    before: (nat, nat, nat),
    after: (nat, nat, nat),
)
    requires
        readable(reference, band),
        readable(candidate, band),
        forall|x: int, y: int, c: int|
            #![trigger reference.pixels@[(y * reference.width + x) * 4 + c]]
            band.x <= x < band.x + band.width && band.y <= y < band.y + band.height && 0 <= c < 3
                ==> reference.pixels@[(y * reference.width + x) * 4 + c] == (if c == 0 {
                before.0
            } else if c == 1 {
                before.1
            } else {
                before.2
            }),
        forall|x: int, y: int, c: int|
            #![trigger candidate.pixels@[(y * candidate.width + x) * 4 + c]]
            band.x <= x < band.x + band.width && band.y <= y < band.y + band.height && 0 <= c < 3
                ==> candidate.pixels@[(y * candidate.width + x) * 4 + c] == (if c == 0 {
                after.0
            } else if c == 1 {
                after.1
            } else {
                after.2
            }),
    ensures
        luma_delta(reference, candidate, band) == 212_600 * (after.0 - before.0) + 715_200 * (
        after.1 - before.1) + 72_200 * (after.2 - before.2),
{
    lemma_sum_is_within(reference, band, 0, before.0, before.0);
    lemma_sum_is_within(reference, band, 1, before.1, before.1);
    lemma_sum_is_within(reference, band, 2, before.2, before.2);
    lemma_sum_is_within(candidate, band, 0, after.0, after.0);
    lemma_sum_is_within(candidate, band, 1, after.1, after.1);
    lemma_sum_is_within(candidate, band, 2, after.2, after.2);
    let count = band.width * band.height;
    let step = 212_600 * (after.0 - before.0) + 715_200 * (after.1 - before.1) + 72_200 * (after.2
        - before.2);
    let difference = 100 * (luma_sum(candidate, band) - luma_sum(reference, band));
    assert(difference == step * count) by (nonlinear_arith)
        requires
            difference == 100 * (2_126 * (after.0 * count) + 7_152 * (after.1 * count) + 722 * (
            after.2 * count) - (2_126 * (before.0 * count) + 7_152 * (before.1 * count) + 722 * (
            before.2 * count))),
            step == 212_600 * (after.0 - before.0) + 715_200 * (after.1 - before.1) + 72_200 * (
            after.2 - before.2),
    ;
    let rounded = rounded_quotient(difference, count);
    lemma_rounding_exactly(difference, count);
    assert(rounded == step) by (nonlinear_arith)
        requires
            count > 0,
            difference == step * count,
            2 * count * rounded - count <= 2 * difference <= 2 * count * rounded + count,
    ;
}

/// A patch's chroma spread is at least the distance of any two of its channel
/// sums, and equals that of two of them.
pub proof fn lemma_chroma_spread_on_sums(image: RgbaImage, patch: Cc7PixelRect)
    ensures
        ({
            let inner = inset(patch);
            let r = rect_sum(image, inner, 0) as int;
            let g = rect_sum(image, inner, 1) as int;
            let b = rect_sum(image, inner, 2) as int;
            let spread = chroma_spread(image, patch);
            &&& -spread <= r - g <= spread
            &&& -spread <= g - b <= spread
            &&& -spread <= r - b <= spread
            &&& spread == r - g || spread == g - r || spread == g - b || spread == b - g || spread
                == r - b || spread == b - r
        }),
{
}

/// A row of spreads whose numbers of pixels are those of another, and which is
/// smaller on one patch and larger on none, sums to less.
pub proof fn lemma_smaller_row_sums_to_less(
    row: Seq<(u64, u64)>,
    other: Seq<(u64, u64)>,
    at: int,
)
    requires
        row.len() == other.len(),
        0 <= at < row.len(),
        forall|i: int|
            0 <= i < row.len() ==> (#[trigger] row[i]).1 == other[i].1 && row[i].1 > 0 && row[i].0
                <= other[i].0,
        row[at].0 < other[at].0,
    ensures
        row_numerator(row, row.len()) * row_denominator(other, other.len()) < row_numerator(
            other,
            other.len(),
        ) * row_denominator(row, row.len()),
{
    lemma_smaller_row(row, other, at, row.len());
    let denominator = row_denominator(row, row.len());
    let less = row_numerator(row, row.len());
    let more = row_numerator(other, other.len());
    assert(less * denominator < more * denominator) by (nonlinear_arith)
        requires
            less < more,
            denominator > 0,
    ;
}

proof fn lemma_smaller_row(row: Seq<(u64, u64)>, other: Seq<(u64, u64)>, at: int, count: nat)
    requires
        count <= row.len(),
        row.len() == other.len(),
        0 <= at < row.len(),
        forall|i: int|
            0 <= i < row.len() ==> (#[trigger] row[i]).1 == other[i].1 && row[i].1 > 0 && row[i].0
                <= other[i].0,
        row[at].0 < other[at].0,
    ensures
        row_denominator(row, count) == row_denominator(other, count),
        row_denominator(row, count) > 0,
        row_numerator(row, count) <= row_numerator(other, count),
        at < count ==> row_numerator(row, count) < row_numerator(other, count),
    decreases count,
{
    if count > 0 {
        let before = (count - 1) as nat;
        lemma_smaller_row(row, other, at, before);
        let d = row_denominator(row, before);
        let factor = row[count - 1].1 as nat;
        let a = row[count - 1].0 as nat;
        let b = other[count - 1].0 as nat;
        let n = row_numerator(row, before);
        let m = row_numerator(other, before);
        assert(d * factor > 0 && n * factor <= m * factor && a * d <= b * d) by (nonlinear_arith)
            requires
                d > 0,
                factor > 0,
                n <= m,
                a <= b,
        ;
        assert(n < m ==> n * factor < m * factor) by (nonlinear_arith)
            requires
                factor > 0,
        ;
        assert(a < b ==> a * d < b * d) by (nonlinear_arith)
            requires
                d > 0,
        ;
    }
}

/// The mean of a rectangle lies between the least and the greatest code of each
/// channel, and its count is that of the rectangle's pixels.
pub proof fn lemma_mean_is_within(
    image: RgbaImage,
    rect: Cc7PixelRect,
    mean: RectMean,
    channel: int,
    low: nat,
    high: nat,
)
    requires
        is_mean(image, rect, mean),
        0 <= channel < 3,
        rect.width > 0,
        rect.height > 0,
        forall|x: int, y: int|
            #![trigger image.pixels@[(y * image.width + x) * 4 + channel]]
            rect.x <= x < rect.x + rect.width && rect.y <= y < rect.y + rect.height ==> low
                <= image.pixels@[(y * image.width + x) * 4 + channel] <= high,
    ensures
        mean.count == rect.width * rect.height,
        low * mean.count <= mean.sums@[channel] <= high * mean.count,
{
    lemma_sum_is_within(image, rect, channel, low, high);
}

} // verus!
