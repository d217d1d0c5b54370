//! The synthetic delivery source: charts, ramps and one moving square.

use vstd::prelude::*;

use crate::recipes::{raw_source_arguments, raw_source_recipe};
use crate::naming::names_of;

verus! {

/// The size of the delivery source.
pub const CC6_DELIVERY_SOURCE_SIZE: (u32, u32) = (320, 180);

/// The frames per second of the delivery source.
pub const CC6_DELIVERY_SOURCE_FPS: u32 = 25;

/// The number of frames of the delivery source.
pub const CC6_DELIVERY_SOURCE_FRAMES: u32 = 60;

/// The frames of the delivery source that a verification samples.
pub const CC6_DELIVERY_SOURCE_SAMPLES: [u64; 5] = [0, 14, 29, 44, 59];

/// The number of frames between two key frames of the encoder: two seconds.
pub const CC6_DELIVERY_SOURCE_GOP: u32 = 50;

/// The extent of the moving square.
pub const CC6_MOVING_SQUARE_SIZE: u32 = 16;

/// The number of columns that the square moves in a frame.
pub const CC6_MOVING_SQUARE_STEP: u32 = 4;

/// The first row of the square.
pub const CC6_MOVING_SQUARE_TOP: u32 = 20;

/// The width of a patch of the neutral chart.
pub const CC6_CHART_PATCH_WIDTH: u32 = 8;

/// The width of a skin or product patch.
pub const CC6_SKIN_PATCH_WIDTH: u32 = 12;

/// The number of frames that a verification samples.
pub const DELIVERY_VERIFICATION_FRAME_COUNT: i64 = 5;

/// The display codes of the twelve patches of the neutral chart.
pub const CC6_NEUTRAL_CHART_CODES: [[u8; 3]; 12] = [
    [0, 0, 0],
    [11, 11, 11],
    [104, 104, 104],
    [180, 180, 180],
    [242, 242, 242],
    [255, 255, 255],
    [255, 0, 0],
    [0, 255, 0],
    [0, 0, 255],
    [0, 255, 255],
    [255, 0, 255],
    [255, 255, 0],
];

/// The display codes of the four skin patches and the two product patches.
pub const CC6_SKIN_AND_PRODUCT_CODES: [[u8; 3]; 6] = [
    [217, 173, 153],
    [184, 135, 112],
    [140, 97, 77],
    [82, 51, 38],
    [204, 26, 31],
    [26, 166, 191],
];

/// The display code of the surround.
pub const CC6_SURROUND_CODE: u8 = 115;

/// The luma of display codes, in parts of 2 550 000.
pub open spec fn luma_parts(r: int, g: int, b: int) -> int {
    2_126 * r + 7_152 * g + 722 * b
}

/// The colours whose luma lies exactly between two codes and which double
/// precision puts just below the middle.  Every other colour in the middle is
/// put at it or above.
pub open spec fn falls_below_middle(r: int, g: int, b: int) -> bool {
    ||| (r == 13 && g == 163 && b == 113)
    ||| (r == 30 && g == 153 && b == 162)
    ||| (r == 78 && g == 146 && b == 90)
    ||| (r == 92 && g == 24 && b == 80)
    ||| (r == 98 && g == 248 && b == 198)
    ||| (r == 126 && g == 139 && b == 18)
    ||| (r == 129 && g == 251 && b == 77)
    ||| (r == 143 && g == 129 && b == 67)
    ||| (r == 146 && g == 241 && b == 126)
    ||| (r == 163 && g == 231 && b == 175)
    ||| (r == 177 && g == 244 && b == 5)
    ||| (r == 194 && g == 234 && b == 54)
    ||| (r == 208 && g == 112 && b == 44)
    ||| (r == 211 && g == 224 && b == 103)
    ||| (r == 225 && g == 102 && b == 93)
}

/// The limited-range luma code of a colour: 16 and 219 parts of its luma,
/// rounded.
pub open spec fn luma_code(r: int, g: int, b: int) -> int {
    16 + (438 * luma_parts(r, g, b) + 2_550_000) / 5_100_000 - (if falls_below_middle(r, g, b) {
        1int
    } else {
        0int
    })
}

/// A luma code is nearest to 16 and 219 parts of the luma, and where double
/// precision puts a middle below itself, the luma lies exactly half a code
/// above the code.
pub proof fn lemma_luma_code_is_nearest(r: int, g: int, b: int)
    ensures
        -2_550_000 <= 2 * (16 * 2_550_000 + 219 * luma_parts(r, g, b)) - luma_code(r, g, b)
            * 5_100_000 <= 2_550_000,
        falls_below_middle(r, g, b) ==> 2 * (16 * 2_550_000 + 219 * luma_parts(r, g, b))
            - luma_code(r, g, b) * 5_100_000 == 2_550_000,
{
}

/// The limited-range code of a colour difference: 128 and 224 parts of it,
/// rounded.  `scale` is 255 times ten thousand times the denominator of the
/// channel.
pub open spec fn chroma_code(channel: int, luma: int, scale: int) -> int {
    (2 * (128 * scale + 224 * (10_000 * channel - luma)) + scale) / (2 * scale)
}

/// The limited-range codes of a colour.
pub open spec fn limited_codes(r: int, g: int, b: int) -> (int, int, int) {
    (
        luma_code(r, g, b),
        chroma_code(b, luma_parts(r, g, b), 4_731_780),
        chroma_code(r, luma_parts(r, g, b), 4_015_740),
    )
}

/// The limited-range codes of display codes, by the forward matrix.
pub fn bt709_limited_source_codes(rgb: [u8; 3]) -> (codes: [u8; 3])
    ensures
        codes@[0] == limited_codes(rgb@[0] as int, rgb@[1] as int, rgb@[2] as int).0,
        codes@[1] == limited_codes(rgb@[0] as int, rgb@[1] as int, rgb@[2] as int).1,
        codes@[2] == limited_codes(rgb@[0] as int, rgb@[1] as int, rgb@[2] as int).2,
        16 <= codes@[0] <= 235,
        16 <= codes@[1] <= 240,
        16 <= codes@[2] <= 240,
{
    let r: i64 = rgb[0] as i64;
    let g: i64 = rgb[1] as i64;
    let b: i64 = rgb[2] as i64;
    let luma: i64 = 2_126 * r + 7_152 * g + 722 * b;
    let below = (r == 13 && g == 163 && b == 113) || (r == 30 && g == 153 && b == 162) || (r == 78
        && g == 146 && b == 90) || (r == 92 && g == 24 && b == 80) || (r == 98 && g == 248 && b
        == 198) || (r == 126 && g == 139 && b == 18) || (r == 129 && g == 251 && b == 77) || (r
        == 143 && g == 129 && b == 67) || (r == 146 && g == 241 && b == 126) || (r == 163 && g
        == 231 && b == 175) || (r == 177 && g == 244 && b == 5) || (r == 194 && g == 234 && b == 54)
        || (r == 208 && g == 112 && b == 44) || (r == 211 && g == 224 && b == 103) || (r == 225 && g
        == 102 && b == 93);
    let mut y: i64 = 16 + (438 * luma + 2_550_000) / 5_100_000;
    if below {
        y = y - 1;
    }
    let cb: i64 = (2 * (128 * 4_731_780 + 224 * (10_000 * b - luma)) + 4_731_780) / (2 * 4_731_780);
    let cr: i64 = (2 * (128 * 4_015_740 + 224 * (10_000 * r - luma)) + 4_015_740) / (2 * 4_015_740);
    [y as u8, cb as u8, cr as u8]
}

/// A colour without hue has its chroma in the middle, and its luma rises from
/// 16 at black to 235 at white.
pub proof fn lemma_greys_are_neutral(code: u8)
    ensures
        limited_codes(code as int, code as int, code as int).1 == 128,
        limited_codes(code as int, code as int, code as int).2 == 128,
        limited_codes(code as int, code as int, code as int).0 == 16 + (438 * code + 255) / 510,
        limited_codes(0, 0, 0).0 == 16,
        limited_codes(255, 255, 255).0 == 235,
{
    let luma = luma_parts(code as int, code as int, code as int);
    assert(10_000 * code - luma == 0);
    assert(chroma_code(code as int, luma, 4_731_780) == (2 * (128 * 4_731_780int) + 4_731_780) / (2
        * 4_731_780int));
    assert(chroma_code(code as int, luma, 4_015_740) == (2 * (128 * 4_015_740int) + 4_015_740) / (2
        * 4_015_740int));
    assert(438 * (10_000 * code) + 2_550_000 == 10_000 * (438 * code + 255));
    assert((10_000 * (438 * code + 255)) / 5_100_000 == (438 * code + 255) / 510);
}

/// A grey.
pub open spec fn grey(code: int) -> (int, int, int) {
    (code, code, code)
}

/// The colour of a pixel of the base raster at a frame.
pub open spec fn base_colour(x: int, y: int, frame: int) -> (int, int, int) {
    if y < 20 {
        grey(x * 255 / 319)
    } else if y < 36 {
        if CC6_MOVING_SQUARE_STEP * frame <= x < CC6_MOVING_SQUARE_STEP * frame
            + CC6_MOVING_SQUARE_SIZE {
            grey(255)
        } else {
            grey(128)
        }
    } else if y < 52 && x < 96 {
        triple(CC6_NEUTRAL_CHART_CODES@[x / 8])
    } else if 76 <= y < 92 && x < 72 {
        triple(CC6_SKIN_AND_PRODUCT_CODES@[x / 12])
    } else if 116 <= y < 134 && 40 <= x < 120 {
        if x < 80 {
            (0, 0, 255)
        } else {
            (0, 255, 0)
        }
    } else if y >= 146 {
        grey((y - 146) * 255 / 33)
    } else {
        grey(CC6_SURROUND_CODE as int)
    }
}

/// Three codes as numbers.
pub open spec fn triple(codes: [u8; 3]) -> (int, int, int) {
    (codes@[0] as int, codes@[1] as int, codes@[2] as int)
}

/// Whether the base raster has a colour at a position: a code of the
/// horizontal ramp stays in range, and so does one of the vertical ramp; the
/// square's edges do not leave the numbers.
pub open spec fn in_base_raster(x: int, y: int, frame: int) -> bool {
    &&& y < 20 ==> x <= 320
    &&& y >= 146 ==> y < 180
    &&& CC6_MOVING_SQUARE_STEP * frame <= u32::MAX
    &&& 20 <= y < 36 ==> CC6_MOVING_SQUARE_STEP * frame + CC6_MOVING_SQUARE_SIZE <= u32::MAX
}

/// The display codes of a pixel of the base raster at a frame.
pub fn cc6_source_base_rgb(x: u32, y: u32, frame: u32) -> (rgb: [u8; 3])
    requires
        in_base_raster(x as int, y as int, frame as int),
    ensures
        triple(rgb) == base_colour(x as int, y as int, frame as int),
{
    let square_left: u32 = CC6_MOVING_SQUARE_STEP * frame;
    if y < 20 {
        let code: u8 = (x * 255 / 319) as u8;
        [code, code, code]
    } else if y < 36 {
        if square_left <= x && x < square_left + CC6_MOVING_SQUARE_SIZE {
            [255, 255, 255]
        } else {
            [128, 128, 128]
        }
    } else if y < 52 && x < 12 * CC6_CHART_PATCH_WIDTH {
        CC6_NEUTRAL_CHART_CODES[(x / CC6_CHART_PATCH_WIDTH) as usize]
    } else if 76 <= y && y < 92 && x < 6 * CC6_SKIN_PATCH_WIDTH {
        CC6_SKIN_AND_PRODUCT_CODES[(x / CC6_SKIN_PATCH_WIDTH) as usize]
    } else if 116 <= y && y < 134 && 40 <= x && x < 120 {
        if x < 80 {
            [0, 0, 255]
        } else {
            [0, 255, 0]
        }
    } else if y >= 146 {
        let code: u8 = ((y - 146) * 255 / 33) as u8;
        [code, code, code]
    } else {
        [CC6_SURROUND_CODE, CC6_SURROUND_CODE, CC6_SURROUND_CODE]
    }
}

/// The square covers a position of its band at a frame exactly where its
/// column lies in the sixteen from four times the frame on.
pub proof fn lemma_square_moves(x: int, y: int, frame: int)
    requires
        CC6_MOVING_SQUARE_TOP <= y < CC6_MOVING_SQUARE_TOP + CC6_MOVING_SQUARE_SIZE,
    ensures
        base_colour(x, y, frame) == grey(255) <==> 4 * frame <= x < 4 * frame + 16,
        base_colour(x, y, frame) == grey(128) <==> !(4 * frame <= x < 4 * frame + 16),
{
}

/// Two different frames that a verification samples show the square in columns
/// that do not overlap, so that the samples are told apart.
pub proof fn lemma_samples_show_the_square_apart(i: int, j: int, x: int, y: int)
    requires
        0 <= i < j < 5,
        CC6_MOVING_SQUARE_TOP <= y < CC6_MOVING_SQUARE_TOP + CC6_MOVING_SQUARE_SIZE,
        base_colour(x, y, CC6_DELIVERY_SOURCE_SAMPLES@[i] as int) == grey(255),
    ensures
        base_colour(x, y, CC6_DELIVERY_SOURCE_SAMPLES@[j] as int) == grey(128),
        CC6_DELIVERY_SOURCE_SAMPLES@[j] < CC6_DELIVERY_SOURCE_FRAMES,
{
}

/// One plane of a frame at an integer multiple of the base raster: `plane` is
/// zero for luma, one and two for the colour differences.
pub open spec fn plane_code(size: (u32, u32), frame: u32, plane: int, index: int) -> u8 {
    let x = index % size.0 as int / (size.0 / 320) as int;
    let y = index / size.0 as int / (size.1 / 180) as int;
    let (r, g, b) = base_colour(x, y, frame as int);
    let codes = limited_codes(r, g, b);
    if plane == 0 {
        codes.0 as u8
    } else if plane == 1 {
        codes.1 as u8
    } else {
        codes.2 as u8
    }
}

/// One plane of a frame.
pub open spec fn frame_plane(size: (u32, u32), frame: u32, plane: int) -> Seq<u8> {
    Seq::new((size.0 * size.1) as nat, |i: int| plane_code(size, frame, plane, i))
}

/// The three planes of a frame, one behind the other.
pub open spec fn frame_planes(size: (u32, u32), frame: u32) -> Seq<u8> {
    frame_plane(size, frame, 0) + frame_plane(size, frame, 1) + frame_plane(size, frame, 2)
}

/// Whether a size is an integer multiple of the base raster whose pixels can be
/// counted, and a frame one whose square stays among the numbers.
pub open spec fn frame_fits(size: (u32, u32), frame: u32) -> bool {
    &&& size.0 % 320 == 0
    &&& size.1 % 180 == 0
    &&& size.0 * size.1 <= u32::MAX
    &&& size.0 * size.1 > 0 ==> CC6_MOVING_SQUARE_STEP * frame + CC6_MOVING_SQUARE_SIZE <= u32::MAX
}

/// A position of a multiple of a raster falls into the raster.
proof fn lemma_scaled(position: int, scale: int, extent: int)
    requires
        scale > 0,
        0 <= position < extent * scale,
    ensures
        0 <= position / scale < extent,
{
    assert(0 <= position / scale < extent) by (nonlinear_arith)
        requires
            scale > 0,
            0 <= position < extent * scale,
    ;
}

/// One frame of the source as three planes, at an integer multiple of the base
/// raster.
pub fn cc6_source_frame_planes(size: (u32, u32), frame: u32) -> (planes: Vec<u8>)
    requires
        frame_fits(size, frame),
    ensures
        planes@ == frame_planes(size, frame),
{
    let width: u32 = size.0;
    let height: u32 = size.1;
    let scale_x: u32 = width / 320;
    let scale_y: u32 = height / 180;
    let mut luma: Vec<u8> = Vec::new();
    let mut cb: Vec<u8> = Vec::new();
    let mut cr: Vec<u8> = Vec::new();
    let mut y: u32 = 0;
    assert(luma@ =~= frame_plane(size, frame, 0).take(0));
    assert(cb@ =~= frame_plane(size, frame, 1).take(0));
    assert(cr@ =~= frame_plane(size, frame, 2).take(0));
    assert(0int * width == 0) by (nonlinear_arith);
    while y < height
        invariant
            y <= height,
            frame_fits(size, frame),
            width == size.0,
            height == size.1,
            scale_x == width / 320,
            scale_y == height / 180,
            luma@ == frame_plane(size, frame, 0).take(y * width),
            cb@ == frame_plane(size, frame, 1).take(y * width),
            cr@ == frame_plane(size, frame, 2).take(y * width),
        decreases height - y,
    {
        assert(y * width + width <= width * height) by (nonlinear_arith)
            requires
                0 <= y < height,
                0 <= width,
        ;
        let mut x: u32 = 0;
        while x < width
            invariant
                x <= width,
                y < height,
                y * width + width <= width * height,
                frame_fits(size, frame),
                width == size.0,
                height == size.1,
                scale_x == width / 320,
                scale_y == height / 180,
                luma@ == frame_plane(size, frame, 0).take(y * width + x),
                cb@ == frame_plane(size, frame, 1).take(y * width + x),
                cr@ == frame_plane(size, frame, 2).take(y * width + x),
            decreases width - x,
        {
            let ghost index = y * width + x;
            proof {
                assert(size.0 * size.1 > 0) by (nonlinear_arith)
                    requires
                        size.0 > 0,
                        size.1 > 0,
                ;
                assert(width == 320 * scale_x);
                assert(height == 180 * scale_y);
                assert(320 * scale_x == scale_x * 320);
                lemma_scaled(x as int, scale_x as int, 320);
                lemma_scaled(y as int, scale_y as int, 180);
                assert(index % width as int == x && index / width as int == y) by (nonlinear_arith)
                    requires
                        index == y * width + x,
                        0 <= x < width,
                        0 <= y,
                ;
            }
            let rgb = cc6_source_base_rgb(x / scale_x, y / scale_y, frame);
            let codes = bt709_limited_source_codes(rgb);
            luma.push(codes[0]);
            cb.push(codes[1]);
            cr.push(codes[2]);
            proof {
                assert(codes@[0] == plane_code(size, frame, 0, index));
                assert(codes@[1] == plane_code(size, frame, 1, index));
                assert(codes@[2] == plane_code(size, frame, 2, index));
                assert(luma@ =~= frame_plane(size, frame, 0).take(index + 1));
                assert(cb@ =~= frame_plane(size, frame, 1).take(index + 1));
                assert(cr@ =~= frame_plane(size, frame, 2).take(index + 1));
            }
            x += 1;
        }
        assert(y * width + width == (y + 1) * width) by (nonlinear_arith);
        y += 1;
    }
    proof {
        assert(height * width == width * height) by (nonlinear_arith);
        assert(luma@ =~= frame_plane(size, frame, 0));
        assert(cb@ =~= frame_plane(size, frame, 1));
        assert(cr@ =~= frame_plane(size, frame, 2));
    }
    luma.append(&mut cb);
    luma.append(&mut cr);
    luma
}

/// The planes of the first frames, one frame behind the other.
pub open spec fn frames_bytes(size: (u32, u32), frames: nat) -> Seq<u8>
    decreases frames,
{
    if frames == 0 {
        Seq::empty()
    } else {
        frames_bytes(size, (frames - 1) as nat) + frame_planes(size, (frames - 1) as u32)
    }
}

/// A file of frames holds three bytes for each pixel of each frame.
pub proof fn lemma_frames_bytes_length(size: (u32, u32), frames: nat)
    requires
        frames <= u32::MAX,
    ensures
        frames_bytes(size, frames).len() == size.0 * size.1 * 3 * frames,
    decreases frames,
{
    let pixels = size.0 * size.1;
    assert(pixels >= 0) by (nonlinear_arith)
        requires
            pixels == size.0 * size.1,
    ;
    if frames == 0 {
        assert(pixels * 3 * 0 == 0) by (nonlinear_arith);
    } else {
        let before = (frames - 1) as nat;
        lemma_frames_bytes_length(size, before);
        assert(pixels * 3 * frames == pixels * 3 * before + pixels * 3) by (nonlinear_arith)
            requires
                before == frames - 1,
        ;
    }
}

/// The delivery source before it is encoded: its raw frames, and what the
/// encoder is asked to do with the file that holds them.
#[derive(Debug)]
pub struct DeliverySource {
    pub raw: Vec<u8>,
    pub arguments: Vec<String>,
}

/// The name of the file that holds the raw frames of the delivery source.
pub const CC6_DELIVERY_RAW_NAME: &'static str = "cc6-delivery-source.yuv";

/// The name of the file that the delivery source is encoded to.
pub const CC6_DELIVERY_SOURCE_NAME: &'static str = "cc6-delivery-source.mkv";

/// The delivery source at a size and for a number of frames, with its raw
/// frames at a path.
pub fn cc6_delivery_source(raw_path: &str, size: (u32, u32), frames: u32) -> (source:
    DeliverySource)
    requires
        size.0 % 320 == 0,
        size.1 % 180 == 0,
        size.0 * size.1 <= u32::MAX,
        size.0 * size.1 * 3 * frames <= u32::MAX,
    ensures
        source.raw@ == frames_bytes(size, frames as nat),
        source.raw@.len() == size.0 * size.1 * 3 * frames,
        names_of(source.arguments@) == raw_source_arguments(
            size.0 as nat,
            size.1 as nat,
            CC6_DELIVERY_SOURCE_FPS as nat,
            raw_path@,
        ),
{
    let mut raw: Vec<u8> = Vec::new();
    let mut frame: u32 = 0;
    while frame < frames
        invariant
            frame <= frames,
            size.0 % 320 == 0,
            size.1 % 180 == 0,
            size.0 * size.1 <= u32::MAX,
            size.0 * size.1 * 3 * frames <= u32::MAX,
            raw@ == frames_bytes(size, frame as nat),
        decreases frames - frame,
    {
        proof {
            let pixels = size.0 * size.1;
            if pixels > 0 {
                assert(size.0 >= 320 && size.1 >= 180) by (nonlinear_arith)
                    requires
                        size.0 * size.1 > 0,
                        size.0 % 320 == 0,
                        size.1 % 180 == 0,
                ;
                assert(size.0 * size.1 >= 320 * 180) by (nonlinear_arith)
                    requires
                        size.0 >= 320,
                        size.1 >= 180,
                ;
                assert(172_800 * frames <= pixels * 3 * frames) by (nonlinear_arith)
                    requires
                        pixels >= 57_600,
                        frames >= 0,
                ;
            }
        }
        let mut planes = cc6_source_frame_planes(size, frame);
        raw.append(&mut planes);
        frame += 1;
    }
    proof {
        lemma_frames_bytes_length(size, frames as nat);
    }
    DeliverySource {
        raw,
        arguments: raw_source_recipe(size, CC6_DELIVERY_SOURCE_FPS, raw_path),
    }
}

/// The quotient that drops its fraction.
pub open spec fn truncated(numerator: int, denominator: int) -> int {
    if numerator >= 0 {
        numerator / denominator
    } else {
        -(-numerator / denominator)
    }
}

/// The frame that a verification samples at an index, of a document of so many
/// frames: the samples stand at equal distances from the first frame to the
/// last.
pub open spec fn sample_frame(frames: int, index: int) -> int {
    truncated((frames - 1) * index, DELIVERY_VERIFICATION_FRAME_COUNT - 1)
}

/// Whether the samples of a document of so many frames can be counted: the
/// greatest product that places one of them fits.
pub open spec fn samples_countable(frames: int) -> bool {
    i64::MIN <= (frames - 1) * (DELIVERY_VERIFICATION_FRAME_COUNT - 1) <= i64::MAX
}

/// The frames that a verification samples of a document of so many frames.
pub fn cc7_expected_sample_frames(frames: i64) -> (samples: Vec<i64>)
    requires
        samples_countable(frames as int),
    ensures
        samples@.len() == DELIVERY_VERIFICATION_FRAME_COUNT,
        forall|i: int|
            0 <= i < DELIVERY_VERIFICATION_FRAME_COUNT ==> #[trigger] samples@[i] == sample_frame(
                frames as int,
                i,
            ),
{
    let mut samples: Vec<i64> = Vec::new();
    let mut index: i64 = 0;
    while index < DELIVERY_VERIFICATION_FRAME_COUNT
        invariant
            0 <= index <= DELIVERY_VERIFICATION_FRAME_COUNT,
            samples_countable(frames as int),
            samples@.len() == index,
            forall|i: int|
                0 <= i < index ==> #[trigger] samples@[i] == sample_frame(frames as int, i),
        decreases DELIVERY_VERIFICATION_FRAME_COUNT - index,
    {
        let last: i128 = frames as i128 - 1;
        assert(-0x8000_0000_0000_0000 <= last * index <= 0x8000_0000_0000_0000) by (nonlinear_arith)
            requires
                -0x8000_0000_0000_0000 <= last * 4 <= 0x7fff_ffff_ffff_ffff,
                0 <= index <= 4,
        ;
        let product: i128 = last * index as i128;
        let quotient: i128 = if product >= 0 {
            product / 4
        } else {
            -((-product) / 4)
        };
        assert(quotient == sample_frame(frames as int, index as int));
        let sample: i64 = quotient as i64;
        samples.push(sample);
        index += 1;
    }
    samples
}

/// The samples of a document that has frames start at its first frame, end at
/// its last, never step back, and are all different where the document has at
/// least as many frames as there are samples.
pub proof fn lemma_samples_span_the_document(frames: int, i: int, j: int)
    requires
        frames >= 1,
        0 <= i < j < DELIVERY_VERIFICATION_FRAME_COUNT,
    ensures
        sample_frame(frames, 0) == 0,
        sample_frame(frames, DELIVERY_VERIFICATION_FRAME_COUNT - 1) == frames - 1,
        0 <= sample_frame(frames, i) <= sample_frame(frames, j) < frames,
        frames >= DELIVERY_VERIFICATION_FRAME_COUNT ==> sample_frame(frames, i) < sample_frame(
            frames,
            j,
        ),
{
    let last = frames - 1;
    assert(last * 0 == 0 && last * 1 == last && last * 2 == 2 * last && last * 3 == 3 * last && last
        * 4 == 4 * last);
}

/// The samples of the delivery source are those of a document of its length.
pub proof fn lemma_delivery_source_samples(index: int)
    requires
        0 <= index < DELIVERY_VERIFICATION_FRAME_COUNT,
    ensures
        CC6_DELIVERY_SOURCE_SAMPLES@[index] == sample_frame(
            CC6_DELIVERY_SOURCE_FRAMES as int,
            index,
        ),
{
}

/// Every patch of the base raster shows its own colour over all of its pixels:
/// the twelve of the chart are six rising greys and the six primary and
/// secondary colours, and below them stand four skin tones and two products.
pub proof fn lemma_patches_show_their_colours(x: int, y: int, frame: int, patch: int)
    ensures
        0 <= patch < 12 && 8 * patch <= x < 8 * patch + 8 && 36 <= y < 52 ==> base_colour(
            x,
            y,
            frame,
        ) == (if patch == 0 {
            (0int, 0int, 0int)
        } else if patch == 1 {
            (11int, 11int, 11int)
        } else if patch == 2 {
            (104int, 104int, 104int)
        } else if patch == 3 {
            (180int, 180int, 180int)
        } else if patch == 4 {
            (242int, 242int, 242int)
        } else if patch == 5 {
            (255int, 255int, 255int)
        } else if patch == 6 {
            (255int, 0int, 0int)
        } else if patch == 7 {
            (0int, 255int, 0int)
        } else if patch == 8 {
            (0int, 0int, 255int)
        } else if patch == 9 {
            (0int, 255int, 255int)
        } else if patch == 10 {
            (255int, 0int, 255int)
        } else {
            (255int, 255int, 0int)
        }),
        0 <= patch < 6 && 12 * patch <= x < 12 * patch + 12 && 76 <= y < 92 ==> base_colour(
            x,
            y,
            frame,
        ) == (if patch == 0 {
            (217int, 173int, 153int)
        } else if patch == 1 {
            (184int, 135int, 112int)
        } else if patch == 2 {
            (140int, 97int, 77int)
        } else if patch == 3 {
            (82int, 51int, 38int)
        } else if patch == 4 {
            (204int, 26int, 31int)
        } else {
            (26int, 166int, 191int)
        }),
        0 <= patch < 6 && 12 * patch <= x < 12 * patch + 12 && 76 <= y < 92 ==> base_colour(
            x,
            y,
            frame,
        ) == triple(CC6_SKIN_AND_PRODUCT_CODES@[patch]),
        0 <= patch < 12 && 8 * patch <= x < 8 * patch + 8 && 36 <= y < 52 ==> base_colour(
            x,
            y,
            frame,
        ) == triple(CC6_NEUTRAL_CHART_CODES@[patch]),
        116 <= y < 134 && 40 <= x < 80 ==> base_colour(x, y, frame) == (0int, 0int, 255int),
        116 <= y < 134 && 80 <= x < 120 ==> base_colour(x, y, frame) == (0int, 255int, 0int),
{
    if 0 <= patch < 12 && 8 * patch <= x < 8 * patch + 8 {
        assert(x / 8 == patch);
    }
    if 0 <= patch < 6 && 12 * patch <= x < 12 * patch + 12 {
        assert(x / 12 == patch);
    }
}

/// Both ramps are grey and rise from 0 to 255: the upper one over the columns of
/// the raster, the lower one over its last rows, each the same across.
pub proof fn lemma_ramps_rise(x: int, y: int, next_x: int, next_y: int, frame: int)
    requires
        0 <= x <= next_x < 320,
        0 <= y < 20,
        146 <= next_y < 180,
    ensures
        ({
            let (r, g, b) = base_colour(x, y, frame);
            &&& r == g == b
            &&& 319 * r <= 255 * x < 319 * r + 319
            &&& base_colour(next_x, y, frame).0 >= r
        }),
        base_colour(0, y, frame) == (0int, 0int, 0int),
        base_colour(319, y, frame) == (255int, 255int, 255int),
        ({
            let (r, g, b) = base_colour(x, next_y, frame);
            &&& r == g == b
            &&& 33 * r <= 255 * (next_y - 146) < 33 * r + 33
            &&& base_colour(next_x, next_y, frame) == (r, g, b)
        }),
        base_colour(x, 146, frame) == (0int, 0int, 0int),
        base_colour(x, 179, frame) == (255int, 255int, 255int),
{
}

/// Between the bands and beside the patches everything is the surround's grey,
/// and only the band of the square changes from frame to frame.
pub proof fn lemma_surround_and_stillness(x: int, y: int, frame: int, other: int)
    requires
        0 <= x < 320,
        0 <= y < 180,
    ensures
        ({
            ||| 36 <= y < 52 && x >= 96
            ||| 52 <= y < 76
            ||| 76 <= y < 92 && x >= 72
            ||| 92 <= y < 116
            ||| 116 <= y < 134 && !(40 <= x < 120)
            ||| 134 <= y < 146
        }) ==> base_colour(x, y, frame) == (115int, 115int, 115int),
        !(20 <= y < 36) ==> base_colour(x, y, frame) == base_colour(x, y, other),
        20 <= y < 36 && 4 * frame <= x < 4 * frame + 16 ==> base_colour(x, y, frame) == (
            255int,
            255int,
            255int,
        ),
        20 <= y < 36 && !(4 * frame <= x < 4 * frame + 16) ==> base_colour(x, y, frame) == (
            128int,
            128int,
            128int,
        ),
{
}

/// Each code of a colour is the nearest to what the forward matrix gives: 16 and
/// 219 parts of its luma, and 128 and 224 parts of how far blue and red are from
/// its luma, over 1.8556 and 1.5748.  Red, green and blue weigh 0.2126, 0.7152
/// and 0.0722.
pub proof fn lemma_codes_follow_the_matrix(r: int, g: int, b: int)
    requires
        0 <= r <= 255,
        0 <= g <= 255,
        0 <= b <= 255,
    ensures
        ({
            let luma = 2_126 * r + 7_152 * g + 722 * b;
            let (y, cb, cr) = limited_codes(r, g, b);
            &&& -2_550_000 <= 2 * (16 * 2_550_000 + 219 * luma) - 5_100_000 * y <= 2_550_000
            &&& -4_731_780 <= 2 * (128 * 4_731_780 + 224 * (10_000 * b - luma)) - 9_463_560 * cb
                < 4_731_780
            &&& -4_015_740 <= 2 * (128 * 4_015_740 + 224 * (10_000 * r - luma)) - 8_031_480 * cr
                < 4_015_740
            &&& 16 <= y <= 235
            &&& 16 <= cb <= 240
            &&& 16 <= cr <= 240
        }),
{
}

/// Where a pixel of a plane stands, and what it shows: at a multiple of the base
/// raster each base pixel is repeated, and the planes follow one another.
pub proof fn lemma_planes_by_position(
    size: (u32, u32),
    frame: u32,
    scale_x: int,
    scale_y: int,
    x: int,
    y: int,
)
    requires
        scale_x > 0,
        scale_y > 0,
        size.0 == 320 * scale_x,
        size.1 == 180 * scale_y,
        0 <= x < size.0,
        0 <= y < size.1,
    ensures
        ({
            let pixels = size.0 * size.1;
            let (r, g, b) = base_colour(x / scale_x, y / scale_y, frame as int);
            let planes = frame_planes(size, frame);
            &&& planes.len() == 3 * pixels
            &&& 0 <= y * size.0 + x < pixels
            &&& planes[y * size.0 + x] == limited_codes(r, g, b).0 as u8
            &&& planes[pixels + (y * size.0 + x)] == limited_codes(r, g, b).1 as u8
            &&& planes[2 * pixels + (y * size.0 + x)] == limited_codes(r, g, b).2 as u8
        }),
{
    let width = size.0 as int;
    let index = y * width + x;
    assert(0 <= index < width * size.1 && index % width == x && index / width == y)
        by (nonlinear_arith)
        requires
            index == y * width + x,
            0 <= x < width,
            0 <= y < size.1,
    ;
    assert(size.0 / 320 == scale_x);
    assert(size.1 / 180 == scale_y);
    let planes = frame_planes(size, frame);
    let pixels = size.0 * size.1;
    assert(frame_plane(size, frame, 0).len() == pixels);
    assert(frame_plane(size, frame, 1).len() == pixels);
    assert(frame_plane(size, frame, 2).len() == pixels);
    assert(planes[index] == frame_plane(size, frame, 0)[index]);
    assert(planes[pixels + index] == frame_plane(size, frame, 1)[index]);
    assert(planes[2 * pixels + index] == frame_plane(size, frame, 2)[index]);
}

/// A file of frames holds the planes of every frame at that frame's place.
pub proof fn lemma_frames_by_position(size: (u32, u32), frames: nat, frame: nat)
    requires
        frame < frames <= u32::MAX,
    ensures
        frames_bytes(size, frames).subrange(
            size.0 * size.1 * 3 * frame,
            size.0 * size.1 * 3 * (frame + 1),
        ) == frame_planes(size, frame as u32),
    decreases frames,
{
    let each = size.0 * size.1 * 3;
    let before = (frames - 1) as nat;
    lemma_frames_bytes_length(size, frames);
    lemma_frames_bytes_length(size, before);
    assert(each >= 0) by (nonlinear_arith)
        requires
            each == size.0 * size.1 * 3,
    ;
    let from = each * frame;
    let to = each * (frame + 1);
    assert(0 <= from <= to <= each * frames && to == from + each) by (nonlinear_arith)
        requires
            each >= 0,
            0 <= frame < frames,
            from == each * frame,
            to == each * (frame + 1),
    ;
    if frame < before {
        lemma_frames_by_position(size, before, frame);
        assert(to <= each * before) by (nonlinear_arith)
            requires
                each >= 0,
                frame + 1 <= before,
                to == each * (frame + 1),
        ;
        assert(frames_bytes(size, frames).subrange(from, to) =~= frames_bytes(
            size,
            before,
        ).subrange(from, to));
    } else {
        assert(frame_planes(size, frame as u32).len() == each);
        assert(frames_bytes(size, frames).subrange(from, to) =~= frame_planes(size, frame as u32));
    }
}

/// A sample stands where its share of the way from the first frame to the last
/// falls, without its fraction, on either side of zero.
pub proof fn lemma_sample_by_share(frames: int, index: int)
    requires
        0 <= index < 5,
    ensures
        frames >= 1 ==> 4 * sample_frame(frames, index) <= (frames - 1) * index < 4 * sample_frame(
            frames,
            index,
        ) + 4,
        frames < 1 ==> 4 * sample_frame(frames, index) - 4 < (frames - 1) * index <= 4
            * sample_frame(frames, index),
{
    assert(frames >= 1 ==> (frames - 1) * index >= 0) by (nonlinear_arith)
        requires
            index >= 0,
    ;
    assert(frames < 1 ==> (frames - 1) * index <= 0) by (nonlinear_arith)
        requires
            index >= 0,
    ;
}

} // verus!
