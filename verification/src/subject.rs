//! Where the tracked subject is, and whether the window holds it.

use vstd::prelude::*;

use crate::tracking::{between_keyframes, linear_keyframe, TRACK_BOX, TRACK_FRAMES};

verus! {

/// Whether sixteen bits are a half-precision number that is no number.
pub open spec fn half_is_nan(bits: u16) -> bool {
    bits % 0x8000 > 0x7c00
}

/// Plus infinity, as the bits of a half-precision number.
pub const HALF_PLUS_INFINITY: u16 = 0x7c00;

/// Minus infinity, as the bits of a half-precision number.
pub const HALF_MINUS_INFINITY: u16 = 0xfc00;

/// A number doubled so many times.
pub open spec fn doubled(number: int, times: nat) -> int
    decreases times,
{
    if times == 0 {
        number
    } else {
        2 * doubled(number, (times - 1) as nat)
    }
}

/// The exact value of a finite half-precision number, in steps of two to the
/// power of minus twenty-four: every such number is a whole number of them.
pub open spec fn half_steps(bits: u16) -> int {
    let exponent = bits as int % 0x8000 / 0x400;
    let fraction = bits as int % 0x400;
    let magnitude = if exponent == 0 {
        fraction
    } else {
        doubled(0x400 + fraction, (exponent - 1) as nat)
    };
    if bits < 0x8000 {
        magnitude
    } else {
        -magnitude
    }
}

/// Ten thousand times the linear luma of three finite channels, in the steps of
/// [`half_steps`].
pub open spec fn luma_steps(red: u16, green: u16, blue: u16) -> int {
    2_126 * half_steps(red) + 7_152 * half_steps(green) + 722 * half_steps(blue)
}

/// Whether the linear luma of three half-precision channels is above one half.
/// A luma that is no number is not: a channel is no number, or channels are
/// infinite both ways.  Otherwise an infinite channel makes the luma infinite.
pub open spec fn luma_above_half(red: u16, green: u16, blue: u16) -> bool {
    if half_is_nan(red) || half_is_nan(green) || half_is_nan(blue) {
        false
    } else if red == HALF_MINUS_INFINITY || green == HALF_MINUS_INFINITY || blue
        == HALF_MINUS_INFINITY {
        false
    } else if red == HALF_PLUS_INFINITY || green == HALF_PLUS_INFINITY || blue
        == HALF_PLUS_INFINITY {
        true
    } else {
        luma_steps(red, green, blue) > 5_000 * 0x100_0000
    }
}

/// Doubling a number below the next power of two stays below what doubling the
/// greatest of them most often gives.
proof fn lemma_doubled(number: int, times: nat, most: nat)
    requires
        0 <= number <= 0x7ff,
        times <= most,
    ensures
        0 <= doubled(number, times) <= doubled(0x7ff, most),
    decreases most,
{
    if times < most {
        lemma_doubled(number, times, (most - 1) as nat);
    } else if most > 0 {
        lemma_doubled(number, (times - 1) as nat, (most - 1) as nat);
    }
}

/// The exact value of a finite half-precision number, in steps of two to the
/// power of minus twenty-four.
fn half_value(bits: u16) -> (steps: i64)
    requires
        bits % 0x8000 < 0x7c00,
    ensures
        steps == half_steps(bits),
        -0x200_0000_0000 <= steps <= 0x200_0000_0000,
{
    let exponent: u16 = bits % 0x8000 / 0x400;
    let fraction: i64 = (bits % 0x400) as i64;
    proof {
        assert(doubled(0x7ff, 29) == 0x7ff * 0x2000_0000) by {
            reveal_with_fuel(doubled, 30);
        }
    }
    let magnitude: i64 = if exponent == 0 {
        fraction
    } else {
        let mut value: i64 = 0x400 + fraction;
        let mut times: u16 = 0;
        while times < exponent - 1
            invariant
                1 <= exponent <= 30,
                0 <= fraction < 0x400,
                times <= exponent - 1,
                value == doubled(0x400 + fraction, times as nat),
                doubled(0x7ff, 29) == 0x7ff * 0x2000_0000,
            decreases exponent - times,
        {
            proof {
                lemma_doubled(0x400 + fraction, (times + 1) as nat, 29);
            }
            value = 2 * value;
            times += 1;
        }
        proof {
            lemma_doubled(0x400 + fraction, times as nat, 29);
        }
        value
    };
    if bits < 0x8000 {
        magnitude
    } else {
        -magnitude
    }
}

/// Whether the linear luma of three half-precision channels is above one half.
pub fn is_bright(red: u16, green: u16, blue: u16) -> (bright: bool)
    ensures
        bright == luma_above_half(red, green, blue),
{
    if red % 0x8000 > 0x7c00 || green % 0x8000 > 0x7c00 || blue % 0x8000 > 0x7c00 {
        false
    } else if red == HALF_MINUS_INFINITY || green == HALF_MINUS_INFINITY || blue
        == HALF_MINUS_INFINITY {
        false
    } else if red == HALF_PLUS_INFINITY || green == HALF_PLUS_INFINITY || blue
        == HALF_PLUS_INFINITY {
        true
    } else {
        2_126 * half_value(red) + 7_152 * half_value(green) + 722 * half_value(blue) > 5_000
            * 0x100_0000
    }
}

/// Whether a pixel of four half-precision channels, the last of them its alpha,
/// shows the subject: its linear luma is above one half.
pub open spec fn shows_subject(pixels: Seq<u16>, index: int) -> bool {
    luma_above_half(pixels[4 * index], pixels[4 * index + 1], pixels[4 * index + 2])
}

/// Whether every pixel that shows the subject lies in the box.
pub open spec fn subject_inside(pixels: Seq<u16>, width: int, count: int, bounds: (i64, i64, i64, i64)) -> bool {
    forall|i: int|
        0 <= i < count && #[trigger] shows_subject(pixels, i) ==> bounds.0 <= i % width <= bounds.1
            && bounds.2 <= i / width <= bounds.3
}

/// Whether each side of the box touches a pixel that shows the subject.
pub open spec fn subject_touches(pixels: Seq<u16>, width: int, count: int, bounds: (i64, i64, i64, i64)) -> bool {
    &&& exists|i: int|
        0 <= i < count && #[trigger] shows_subject(pixels, i) && i % width == bounds.0
    &&& exists|i: int|
        0 <= i < count && #[trigger] shows_subject(pixels, i) && i % width == bounds.1
    &&& exists|i: int|
        0 <= i < count && #[trigger] shows_subject(pixels, i) && i / width == bounds.2
    &&& exists|i: int|
        0 <= i < count && #[trigger] shows_subject(pixels, i) && i / width == bounds.3
}

fn least(a: i64, b: i64) -> (result: i64)
    ensures
        result == (if a <= b { a } else { b }),
{
    if a <= b {
        a
    } else {
        b
    }
}

fn greatest(a: i64, b: i64) -> (result: i64)
    ensures
        result == (if a >= b { a } else { b }),
{
    if a >= b {
        a
    } else {
        b
    }
}

/// The smallest box around the decoded subject: its first and last column, then
/// its first and last row.  A frame holds four half-precision channels for
/// each pixel; what is left over at its end is no pixel.
pub fn subject_bounding_box(pixels: &[u16], width: u32) -> (bounds: (i64, i64, i64, i64))
    requires
        width > 0,
        pixels.len() / 4 <= 0x1_0000_0000,
        exists|i: int| 0 <= i < pixels.len() / 4 && #[trigger] shows_subject(pixels@, i),
    ensures
        subject_inside(pixels@, width as int, pixels.len() as int / 4, bounds),
        subject_touches(pixels@, width as int, pixels.len() as int / 4, bounds),
{
    let count: usize = pixels.len() / 4;
    let mut bounds: Option<(i64, i64, i64, i64)> = None;
    let mut index: usize = 0;
    while index < count
        invariant
            index <= count,
            count == pixels.len() / 4,
            count <= 0x1_0000_0000,
            width > 0,
            match bounds {
                Some(bounds) => subject_inside(pixels@, width as int, index as int, bounds)
                    && subject_touches(pixels@, width as int, index as int, bounds),
                None => forall|i: int| 0 <= i < index ==> !#[trigger] shows_subject(pixels@, i),
            },
        decreases count - index,
    {
        if is_bright(pixels[index * 4], pixels[index * 4 + 1], pixels[index * 4 + 2]) {
            let x: i64 = (index as u32 % width) as i64;
            let y: i64 = (index as u32 / width) as i64;
            assert(shows_subject(pixels@, index as int));
            assert(index as int % width as int == x && index as int / width as int == y);
            let ghost before = bounds;
            bounds =
            match bounds {
                None => Some((x, x, y, y)),
                Some((left, right, top, bottom)) => Some(
                    (least(left, x), greatest(right, x), least(top, y), greatest(bottom, y)),
                ),
            };
        }
        index += 1;
    }
    bounds.unwrap()
}

/// The last keyframe, of the first `count`, at or before a frame; minus one
/// where there is none.
pub open spec fn last_keyframe(frames: Seq<i64>, frame: int, count: int) -> int
    decreases count,
{
    if count <= 0 {
        -1
    } else if frames[count - 1] <= frame {
        count - 1
    } else {
        last_keyframe(frames, frame, count - 1)
    }
}

/// The value of a curve of linear keyframes at a frame: held before the first
/// keyframe and behind the last.  This is the curve that a timeline evaluates;
/// it is followed here exactly, in whole numbers.
pub open spec fn keyframed(frames: Seq<i64>, values: Seq<i64>, frame: int) -> int {
    let k = last_keyframe(frames, frame, frames.len() as int);
    if k < 0 {
        values[0] as int
    } else if k + 1 >= frames.len() {
        values[frames.len() - 1] as int
    } else {
        linear_keyframe(
            values[k] as int,
            values[k + 1] as int,
            frame - frames[k],
            frames[k + 1] - frames[k],
        )
    }
}

/// Whether keyframes rise strictly and have a value each, and there is one.
pub open spec fn curve_valid(frames: Seq<i64>, values: Seq<i64>) -> bool {
    &&& frames.len() == values.len()
    &&& frames.len() > 0
    &&& forall|i: int, j: int| 0 <= i < j < frames.len() ==> frames[i] < frames[j]
}

/// The value of a curve of linear keyframes at a frame.
pub fn keyframed_value(frames: &[i64], values: &[i64], frame: i64) -> (value: i64)
    requires
        curve_valid(frames@, values@),
    ensures
        value == keyframed(frames@, values@, frame as int),
{
    let length: usize = frames.len();
    let mut count: usize = length;
    while count > 0 && frames[count - 1] > frame
        invariant
            count <= length,
            length == frames.len(),
            last_keyframe(frames@, frame as int, length as int) == last_keyframe(
                frames@,
                frame as int,
                count as int,
            ),
        decreases count,
    {
        count -= 1;
    }
    if count == 0 {
        return values[0];
    }
    if count == length {
        return values[length - 1];
    }
    let k: usize = count - 1;
    assert(frames@[k as int] < frames@[k + 1]);
    between_keyframes(
        values[k],
        values[k + 1],
        frame as i128 - frames[k] as i128,
        frames[k + 1] as i128 - frames[k] as i128,
    )
}

/// Whether an unrotated rectangle with a hard edge covers the centre of a pixel
/// of the tracked shot.  A window without extent covers nothing.  This is the
/// exact geometry; a renderer that works in single precision may decide
/// otherwise on a centre that lies within rounding of the edge.
pub open spec fn window_covers(x: int, y: int, cx: int, cy: int, hw: int, hh: int) -> bool {
    &&& hw > 0
    &&& hh > 0
    &&& -hw * 1_280 <= (2 * x + 1) * 10_000 - cx * 1_280 <= hw * 1_280
    &&& -hh * 720 <= (2 * y + 1) * 10_000 - cy * 720 <= hh * 720
}

/// Whether a pixel belongs to the subject with this corner.
pub open spec fn in_subject(x: int, y: int, corner: (i64, i64)) -> bool {
    corner.0 <= x < corner.0 + TRACK_BOX && corner.1 <= y < corner.1 + TRACK_BOX
}

/// The distance from the subject's outermost pixel centre to the window's
/// nearer vertical edge, in sixteenths of a basis point of the width.
pub open spec fn margin_x(left: int, cx: int, hw: int) -> int {
    let right_side = 16 * hw - (2 * (left + TRACK_BOX - 1) + 1) * 125 + 16 * cx;
    let left_side = 16 * hw + (2 * left + 1) * 125 - 16 * cx;
    if right_side <= left_side {
        right_side
    } else {
        left_side
    }
}

/// The distance from the subject's outermost pixel centre to the window's
/// nearer horizontal edge, in ninths of a basis point of the height.
pub open spec fn margin_y(top: int, cy: int, hh: int) -> int {
    let lower_side = 9 * hh - (2 * (top + TRACK_BOX - 1) + 1) * 125 + 9 * cy;
    let upper_side = 9 * hh + (2 * top + 1) * 125 - 9 * cy;
    if lower_side <= upper_side {
        lower_side
    } else {
        upper_side
    }
}

/// A window whose margins are positive covers every pixel of the subject.
pub proof fn lemma_positive_margins_cover(x: int, y: int, corner: (i64, i64), cx: int, cy: int, hw: int, hh: int)
    requires
        margin_x(corner.0 as int, cx, hw) > 0,
        margin_y(corner.1 as int, cy, hh) > 0,
        in_subject(x, y, corner),
    ensures
        window_covers(x, y, cx, cy, hw, hh),
{
}

/// What one run over the tracked shot measured.
#[derive(Debug, Clone, Copy, PartialEq, Eq, Structural)]
pub struct TrackedWindowContainment {
    /// The smallest horizontal margin, in sixteenths of a basis point.
    pub worst_margin_x_sixteenths: i128,
    /// The smallest vertical margin, in ninths of a basis point.
    pub worst_margin_y_ninths: i128,
    /// The first frame with the smallest horizontal margin.
    pub worst_frame: i64,
    /// The number of frames held against the window.
    pub frames_asserted: i64,
    /// The number of pixels held against the window.
    pub pixels_asserted: u64,
}

/// Why a tracked window does not hold the subject.
#[derive(Debug, Clone, Copy, PartialEq, Eq, Structural)]
pub enum TrackedWindowFailure {
    /// The window leaves out this pixel of the subject.
    PixelOutside { frame: i64, x: i64, y: i64 },
    /// A smallest margin is not positive.
    MarginNotPositive { x_sixteenths: i128, y_ninths: i128 },
}

/// A window that follows keyframed centres, and the subject's corner at each
/// frame.
pub struct TrackedRun {
    pub frames: Seq<i64>,
    pub centres_x: Seq<i64>,
    pub centres_y: Seq<i64>,
    pub corners: Seq<(i64, i64)>,
    pub half_width: int,
    pub half_height: int,
}

impl TrackedRun {
    /// Whether the window covers a pixel at a frame.
    pub open spec fn covers(self, frame: int, x: int, y: int) -> bool {
        window_covers(
            x,
            y,
            keyframed(self.frames, self.centres_x, frame),
            keyframed(self.frames, self.centres_y, frame),
            self.half_width,
            self.half_height,
        )
    }

    /// Whether the window covers every pixel of the subject at a frame.
    pub open spec fn covers_frame(self, frame: int) -> bool {
        forall|x: int, y: int|
            in_subject(x, y, self.corners[frame]) ==> #[trigger] self.covers(frame, x, y)
    }

    /// The horizontal margin at a frame.
    pub open spec fn margin_x_at(self, frame: int) -> int {
        margin_x(
            self.corners[frame].0 as int,
            keyframed(self.frames, self.centres_x, frame),
            self.half_width,
        )
    }

    /// The vertical margin at a frame.
    pub open spec fn margin_y_at(self, frame: int) -> int {
        margin_y(
            self.corners[frame].1 as int,
            keyframed(self.frames, self.centres_y, frame),
            self.half_height,
        )
    }

    /// Whether these are the smallest margins of the first `count` frames, and
    /// the first of them with the smallest horizontal one.
    pub open spec fn worst(self, count: int, x: int, y: int, frame: int) -> bool {
        &&& 0 <= frame < count
        &&& self.margin_x_at(frame) == x
        &&& forall|f: int| 0 <= f < count ==> #[trigger] self.margin_x_at(f) >= x
        &&& forall|f: int| 0 <= f < frame ==> #[trigger] self.margin_x_at(f) > x
        &&& exists|f: int| 0 <= f < count && #[trigger] self.margin_y_at(f) == y
        &&& forall|f: int| 0 <= f < count ==> #[trigger] self.margin_y_at(f) >= y
    }
}

/// Whether a result is what holding a run against every pixel and every frame
/// gives: the first pixel that the window leaves out, else the smallest margins.
pub open spec fn tracked_result(
    run: TrackedRun,
    result: Result<TrackedWindowContainment, TrackedWindowFailure>,
) -> bool {
    match result {
        Ok(measured) => {
            &&& forall|f: int|
                0 <= f < TRACK_FRAMES ==> #[trigger] run.covers_frame(f)
            &&& run.worst(
                TRACK_FRAMES as int,
                measured.worst_margin_x_sixteenths as int,
                measured.worst_margin_y_ninths as int,
                measured.worst_frame as int,
            )
            &&& measured.worst_margin_x_sixteenths > 0
            &&& measured.worst_margin_y_ninths > 0
            &&& measured.frames_asserted == TRACK_FRAMES
            &&& measured.pixels_asserted == TRACK_FRAMES * TRACK_BOX * TRACK_BOX
        },
        Err(TrackedWindowFailure::PixelOutside { frame, x, y }) => {
            &&& 0 <= frame < TRACK_FRAMES
            &&& in_subject(x as int, y as int, run.corners[frame as int])
            &&& !run.covers(frame as int, x as int, y as int)
            &&& forall|f: int| 0 <= f < frame ==> #[trigger] run.covers_frame(f)
            &&& forall|u: int, v: int|
                in_subject(u, v, run.corners[frame as int]) && (v < y || (v == y && u < x))
                    ==> #[trigger] run.covers(frame as int, u, v)
        },
        Err(TrackedWindowFailure::MarginNotPositive { x_sixteenths, y_ninths }) => {
            &&& forall|f: int|
                0 <= f < TRACK_FRAMES ==> #[trigger] run.covers_frame(f)
            &&& exists|frame: int| #[trigger]
                run.worst(
                    TRACK_FRAMES as int,
                    x_sixteenths as int,
                    y_ninths as int,
                    frame,
                )
            &&& x_sixteenths <= 0 || y_ninths <= 0
        },
    }
}

/// The first pixel of the subject, row by row, that a window leaves out.
fn first_outside(corner: (i64, i64), cx: i64, cy: i64, hw: i64, hh: i64) -> (pixel: Option<
    (i64, i64),
>)
    requires
            corner.0 + TRACK_BOX <= i64::MAX,
            corner.1 + TRACK_BOX <= i64::MAX,
    ensures
        match pixel {
            None => forall|x: int, y: int|
                in_subject(x, y, corner) ==> #[trigger] window_covers(
                    x,
                    y,
                    cx as int,
                    cy as int,
                    hw as int,
                    hh as int,
                ),
            Some((x, y)) => {
                &&& in_subject(x as int, y as int, corner)
                &&& !window_covers(x as int, y as int, cx as int, cy as int, hw as int, hh as int)
                &&& forall|u: int, v: int|
                    in_subject(u, v, corner) && (v < y || (v == y && u < x))
                        ==> #[trigger] window_covers(
                        u,
                        v,
                        cx as int,
                        cy as int,
                        hw as int,
                        hh as int,
                    )
            },
        },
{
    let mut y: i64 = corner.1;
    while y < corner.1 + TRACK_BOX
        invariant
            corner.1 <= y <= corner.1 + TRACK_BOX,
            corner.0 + TRACK_BOX <= i64::MAX,
            corner.1 + TRACK_BOX <= i64::MAX,
            forall|u: int, v: int|
                in_subject(u, v, corner) && v < y ==> #[trigger] window_covers(
                    u,
                    v,
                    cx as int,
                    cy as int,
                    hw as int,
                    hh as int,
                ),
        decreases corner.1 + TRACK_BOX - y,
    {
        let mut x: i64 = corner.0;
        while x < corner.0 + TRACK_BOX
            invariant
                corner.0 <= x <= corner.0 + TRACK_BOX,
                corner.1 <= y < corner.1 + TRACK_BOX,
            corner.0 + TRACK_BOX <= i64::MAX,
            corner.1 + TRACK_BOX <= i64::MAX,
                forall|u: int, v: int|
                    in_subject(u, v, corner) && (v < y || (v == y && u < x))
                        ==> #[trigger] window_covers(
                        u,
                        v,
                        cx as int,
                        cy as int,
                        hw as int,
                        hh as int,
                    ),
            decreases corner.0 + TRACK_BOX - x,
        {
            let dx: i128 = (2 * x as i128 + 1) * 10_000 - cx as i128 * 1_280;
            let dy: i128 = (2 * y as i128 + 1) * 10_000 - cy as i128 * 720;
            let reach_x: i128 = hw as i128 * 1_280;
            let reach_y: i128 = hh as i128 * 720;
            let covered = hw > 0 && hh > 0 && -reach_x <= dx && dx <= reach_x && -reach_y <= dy
                && dy <= reach_y;
            assert(covered == window_covers(
                x as int,
                y as int,
                cx as int,
                cy as int,
                hw as int,
                hh as int,
            ));
            if !covered {
                return Some((x, y));
            }
            x += 1;
        }
        y += 1;
    }
    None
}

fn lesser(a: i128, b: i128) -> (result: i128)
    ensures
        result == (if a <= b { a } else { b }),
{
    if a <= b {
        a
    } else {
        b
    }
}

/// One axis of a list of centres.
pub open spec fn axis_of(centres: Seq<[i64; 2]>, axis: int) -> Seq<i64> {
    centres.map_values(|centre: [i64; 2]| centre@[axis])
}

fn on_axis(centres: &[[i64; 2]], axis: usize) -> (values: Vec<i64>)
    requires
        axis < 2,
    ensures
        values@ == axis_of(centres@, axis as int),
{
    let mut values: Vec<i64> = Vec::new();
    let mut i: usize = 0;
    while i < centres.len()
        invariant
            i <= centres.len(),
            axis < 2,
            values@ == axis_of(centres@, axis as int).take(i as int),
        decreases centres.len() - i,
    {
        values.push(centres[i][axis]);
        i += 1;
        assert(values@ =~= axis_of(centres@, axis as int).take(i as int));
    }
    assert(values@ =~= axis_of(centres@, axis as int));
    values
}

/// Holds a window that follows these centres at these frames against every
/// pixel of the subject at every frame of the shot, and gives the smallest
/// margins.
pub fn assert_tracked_window_contains_the_subject(
    centres: &[[i64; 2]],
    sample_frames: &[i64],
    corners: &[(i64, i64)],
    half_width_basis_points: i64,
    half_height_basis_points: i64,
) -> (result: Result<TrackedWindowContainment, TrackedWindowFailure>)
    requires
        curve_valid(sample_frames@, axis_of(centres@, 0)),
        curve_valid(sample_frames@, axis_of(centres@, 1)),
        corners.len() == TRACK_FRAMES,
        forall|i: int|
            0 <= i < corners.len() ==> (#[trigger] corners@[i]).0 + TRACK_BOX <= i64::MAX
                && corners@[i].1 + TRACK_BOX <= i64::MAX,
    ensures
        tracked_result(
            TrackedRun {
                frames: sample_frames@,
                centres_x: axis_of(centres@, 0),
                centres_y: axis_of(centres@, 1),
                corners: corners@,
                half_width: half_width_basis_points as int,
                half_height: half_height_basis_points as int,
            },
            result,
        ),
{
    let ghost run = TrackedRun {
        frames: sample_frames@,
        centres_x: axis_of(centres@, 0),
        centres_y: axis_of(centres@, 1),
        corners: corners@,
        half_width: half_width_basis_points as int,
        half_height: half_height_basis_points as int,
    };
    let centres_x = on_axis(centres, 0);
    let centres_y = on_axis(centres, 1);
    let mut worst_x: i128 = 0;
    let mut worst_y: i128 = 0;
    let mut worst_frame: i64 = 0;
    let mut pixels: u64 = 0;
    let mut frame: i64 = 0;
    while frame < TRACK_FRAMES
        invariant
            0 <= frame <= TRACK_FRAMES,
            run.frames == sample_frames@,
            run.centres_x == centres_x@,
            run.centres_y == centres_y@,
            run.corners == corners@,
            run.half_width == half_width_basis_points,
            run.half_height == half_height_basis_points,
            centres_x@ == axis_of(centres@, 0),
            centres_y@ == axis_of(centres@, 1),
            curve_valid(sample_frames@, centres_x@),
            curve_valid(sample_frames@, centres_y@),
            corners.len() == TRACK_FRAMES,
            forall|i: int|
                0 <= i < corners.len() ==> (#[trigger] corners@[i]).0 + TRACK_BOX <= i64::MAX
                && corners@[i].1 + TRACK_BOX <= i64::MAX,
            pixels == frame * TRACK_BOX * TRACK_BOX,
            forall|f: int| 0 <= f < frame ==> #[trigger] run.covers_frame(f),
            frame > 0 ==> run.worst(
                frame as int,
                worst_x as int,
                worst_y as int,
                worst_frame as int,
            ),
        decreases TRACK_FRAMES - frame,
    {
        let cx = keyframed_value(sample_frames, centres_x.as_slice(), frame);
        let cy = keyframed_value(sample_frames, centres_y.as_slice(), frame);
        let corner = corners[frame as usize];
        let outside = first_outside(
            corner,
            cx,
            cy,
            half_width_basis_points,
            half_height_basis_points,
        );
        if let Some((x, y)) = outside {
            proof {
                assert forall|u: int, v: int|
                    in_subject(u, v, corners@[frame as int]) && (v < y || (v == y && u
                        < x)) implies #[trigger] run.covers(frame as int, u, v) by {
                    assert(window_covers(
                        u,
                        v,
                        cx as int,
                        cy as int,
                        half_width_basis_points as int,
                        half_height_basis_points as int,
                    ));
                }
            }
            return Err(TrackedWindowFailure::PixelOutside { frame, x, y });
        }
        proof {
            assert forall|u: int, v: int| in_subject(
                u,
                v,
                run.corners[frame as int],
            ) implies #[trigger] run.covers(frame as int, u, v) by {
                assert(window_covers(
                    u,
                    v,
                    cx as int,
                    cy as int,
                    half_width_basis_points as int,
                    half_height_basis_points as int,
                ));
            }
            assert(run.covers_frame(frame as int));
        }
        let left: i128 = corner.0 as i128;
        let top: i128 = corner.1 as i128;
        let half_width: i128 = 16 * half_width_basis_points as i128;
        let half_height: i128 = 9 * half_height_basis_points as i128;
        let extent: i128 = TRACK_BOX as i128;
        let x_margin = lesser(
            half_width - (2 * (left + extent - 1) + 1) * 125 + 16 * cx as i128,
            half_width + (2 * left + 1) * 125 - 16 * cx as i128,
        );
        let y_margin = lesser(
            half_height - (2 * (top + extent - 1) + 1) * 125 + 9 * cy as i128,
            half_height + (2 * top + 1) * 125 - 9 * cy as i128,
        );
        assert(x_margin == run.margin_x_at(frame as int));
        assert(y_margin == run.margin_y_at(frame as int));
        if frame == 0 || x_margin < worst_x {
            worst_x = x_margin;
            worst_frame = frame;
        }
        if frame == 0 || y_margin < worst_y {
            worst_y = y_margin;
        }
        pixels += (TRACK_BOX * TRACK_BOX) as u64;
        frame += 1;
    }
    assert(run.worst(TRACK_FRAMES as int, worst_x as int, worst_y as int, worst_frame as int));
    if worst_x > 0 && worst_y > 0 {
        let measured = TrackedWindowContainment {
            worst_margin_x_sixteenths: worst_x,
            worst_margin_y_ninths: worst_y,
            worst_frame,
            frames_asserted: TRACK_FRAMES,
            pixels_asserted: pixels,
        };
        assert(tracked_result(run, Ok(measured)));
        Ok(measured)
    } else {
        let failure = TrackedWindowFailure::MarginNotPositive {
            x_sixteenths: worst_x,
            y_ninths: worst_y,
        };
        assert(run.worst(
            TRACK_FRAMES as int,
            failure->x_sixteenths as int,
            failure->y_ninths as int,
            worst_frame as int,
        ));
        assert(tracked_result(run, Err(failure)));
        Err(failure)
    }
}

/// The greatest error of a smoothed curve against the truth on one axis, and
/// the first sample that has it.
pub open spec fn worst_error(smoothed: Seq<i64>, truth: Seq<i64>, lag: int, sample: int) -> bool {
    &&& forall|i: int| 0 <= i < truth.len() ==> #[trigger] distance(smoothed[i], truth[i]) <= lag
    &&& lag == 0 ==> sample == 0
    &&& lag > 0 ==> 0 <= sample < truth.len() && distance(smoothed[sample], truth[sample]) == lag
    &&& forall|i: int| 0 <= i < sample ==> #[trigger] distance(smoothed[i], truth[i]) < lag
}

/// The distance between two values.
pub open spec fn distance(a: i64, b: i64) -> int {
    if a >= b {
        a - b
    } else {
        b - a
    }
}

/// The lag of a smoothed curve: its greatest error against the truth, and the
/// first sample that has it.
pub fn smoother_lag(smoothed: &[i64], truth: &[i64]) -> (result: (i64, usize))
    requires
        smoothed.len() == truth.len(),
        forall|i: int|
            0 <= i < truth.len() ==> #[trigger] distance(smoothed@[i], truth@[i]) <= i64::MAX,
    ensures
        worst_error(smoothed@, truth@, result.0 as int, result.1 as int),
{
    let mut lag: i64 = 0;
    let mut sample: usize = 0;
    let mut i: usize = 0;
    while i < truth.len()
        invariant
            i <= truth.len(),
            smoothed.len() == truth.len(),
            forall|j: int|
                0 <= j < truth.len() ==> #[trigger] distance(smoothed@[j], truth@[j]) <= i64::MAX,
            lag >= 0,
            forall|j: int| 0 <= j < i ==> #[trigger] distance(smoothed@[j], truth@[j]) <= lag,
            lag == 0 ==> sample == 0,
            lag > 0 ==> sample < i && distance(smoothed@[sample as int], truth@[sample as int])
                == lag,
            forall|j: int| 0 <= j < sample ==> #[trigger] distance(smoothed@[j], truth@[j]) < lag,
        decreases truth.len() - i,
    {
        assert(distance(smoothed@[i as int], truth@[i as int]) <= i64::MAX);
        let error: i64 = if smoothed[i] >= truth[i] {
            smoothed[i] - truth[i]
        } else {
            truth[i] - smoothed[i]
        };
        if error > lag {
            lag = error;
            sample = i;
        }
        i += 1;
    }
    (lag, sample)
}

/// The values of half-precision numbers.  The smallest are whole steps; one more
/// in the exponent doubles a number; a sign turns it round; one is two to the
/// power of twenty-four steps and a half is half as many.
pub proof fn lemma_half_values(bits: u16)
    requires
        bits < 0x7c00,
    ensures
        bits < 0x800 ==> half_steps(bits) == bits,
        0x400 <= bits < 0x7800 ==> half_steps((bits + 0x400) as u16) == 2 * half_steps(bits),
        half_steps((bits + 0x8000) as u16) == -half_steps(bits),
        half_steps(bits) >= 0,
        half_steps(0x3c00) == 0x100_0000,
        half_steps(0x3800) == 0x80_0000,
{
    reveal_with_fuel(doubled, 16);
    let exponent = bits as int % 0x8000 / 0x400;
    let fraction = bits as int % 0x400;
    if bits < 0x800 {
        assert(exponent == 0 || exponent == 1);
    }
    if 0x400 <= bits < 0x7800 {
        let up = (bits + 0x400) as u16;
        assert(up as int % 0x8000 / 0x400 == exponent + 1 && up as int % 0x400 == fraction);
        assert(doubled(0x400 + fraction, exponent as nat) == 2 * doubled(
            0x400 + fraction,
            (exponent - 1) as nat,
        ));
    }
    let negative = (bits + 0x8000) as u16;
    assert(negative as int % 0x8000 / 0x400 == exponent && negative as int % 0x400 == fraction);
    if exponent > 0 {
        lemma_doubled(0x400 + fraction, (exponent - 1) as nat, 29);
    }
}

/// A finite colour is bright exactly where its luma is above a half, red, green
/// and blue weighing 0.2126, 0.7152 and 0.0722: green alone can be bright at
/// one, red and blue alone or together cannot.
pub proof fn lemma_brightness_in_numbers(red: u16, green: u16, blue: u16)
    requires
        red % 0x8000 < 0x7c00,
        green % 0x8000 < 0x7c00,
        blue % 0x8000 < 0x7c00,
    ensures
        luma_above_half(red, green, blue) <==> 2 * (2_126 * half_steps(red) + 7_152 * half_steps(
            green,
        ) + 722 * half_steps(blue)) > 10_000 * 0x100_0000,
        luma_above_half(0, 0x3c00, 0),
        !luma_above_half(0x3c00, 0, 0x3c00),
        !luma_above_half(0x3800, 0x3800, 0x3800),
{
    lemma_half_values(0x3c00);
    lemma_half_values(0x3800);
    lemma_half_values(0);
}

/// A colour that is not finite is bright exactly where no channel is no number,
/// none is infinite below and one is infinite above.
pub proof fn lemma_brightness_beyond_numbers(red: u16, green: u16, blue: u16)
    requires
        red % 0x8000 >= 0x7c00 || green % 0x8000 >= 0x7c00 || blue % 0x8000 >= 0x7c00,
    ensures
        luma_above_half(red, green, blue) <==> (red < 0x7c01 || 0x8000 <= red < 0xfc00) && (green
            < 0x7c01 || 0x8000 <= green < 0xfc00) && (blue < 0x7c01 || 0x8000 <= blue < 0xfc00),
{
}

/// The pixel that decides is the one at the position: its first three channels.
pub proof fn lemma_subject_pixel_by_position(pixels: Seq<u16>, index: int)
    ensures
        shows_subject(pixels, index) <==> luma_above_half(
            pixels[4 * index],
            pixels[4 * index + 1],
            pixels[4 * index + 2],
        ),
{
}

/// The margins tell exactly whether the window covers the subject: none is
/// negative exactly where the four corners of the eighty pixels each way are
/// covered, and a half extent that is larger by one basis point adds sixteen
/// sixteenths and nine ninths.
pub proof fn lemma_margins_exactly(left: i64, top: i64, cx: int, cy: int, hw: int, hh: int)
    requires
        hw > 0,
        hh > 0,
    ensures
        margin_x(left as int, cx, hw) >= 0 && margin_y(top as int, cy, hh) >= 0 <==> window_covers(
            left as int,
            top as int,
            cx,
            cy,
            hw,
            hh,
        ) && window_covers(left + 79, top + 79, cx, cy, hw, hh),
        margin_x(left as int, cx, hw + 1) == margin_x(left as int, cx, hw) + 16,
        margin_y(top as int, cy, hh + 1) == margin_y(top as int, cy, hh) + 9,
        in_subject(left as int, top as int, (left, top)),
        in_subject(left + 79, top + 79, (left, top)),
        !in_subject(left + 80, top as int, (left, top)),
        !in_subject(left as int, top + 80, (left, top)),
        !in_subject(left - 1, top as int, (left, top)),
        !in_subject(left as int, top - 1, (left, top)),
{
}

/// A window covers a pixel of the 640 by 360 shot where the middle of the pixel
/// is no farther from the window's centre than its half extents, both in basis
/// points of the frame; without extent it covers nothing.
pub proof fn lemma_window_in_basis_points(x: int, y: int, cx: int, cy: int, hw: int, hh: int)
    ensures
        window_covers(x, y, cx, cy, hw, hh) <==> {
            &&& hw > 0
            &&& hh > 0
            &&& 1_280 * (cx - hw) <= 10_000 * (2 * x + 1) <= 1_280 * (cx + hw)
            &&& 720 * (cy - hh) <= 10_000 * (2 * y + 1) <= 720 * (cy + hh)
        },
{
}

proof fn lemma_last_keyframe_is(frames: Seq<i64>, frame: int, count: int, k: int)
    requires
        0 <= k < count <= frames.len(),
        frames[k] <= frame,
        forall|i: int| k < i < count ==> #[trigger] frames[i] > frame,
    ensures
        last_keyframe(frames, frame, count) == k,
    decreases count,
{
    if k < count - 1 {
        assert(frames[count - 1] > frame);
        lemma_last_keyframe_is(frames, frame, count - 1, k);
    }
}

proof fn lemma_no_keyframe_before(frames: Seq<i64>, frame: int, count: int)
    requires
        0 <= count <= frames.len(),
        forall|i: int| 0 <= i < count ==> #[trigger] frames[i] > frame,
    ensures
        last_keyframe(frames, frame, count) == -1,
    decreases count,
{
    if count > 0 {
        lemma_no_keyframe_before(frames, frame, count - 1);
    }
}

/// A curve takes each keyframe's value at its frame, holds the first value
/// before the first keyframe and the last behind the last, and between two
/// keyframes moves from the value of the one to that of the other as a pair of
/// them does.
pub proof fn lemma_curve_by_frame(frames: Seq<i64>, values: Seq<i64>, frame: int, k: int)
    requires
        curve_valid(frames, values),
        0 <= k < frames.len(),
    ensures
        frame == frames[k] ==> keyframed(frames, values, frame) == values[k],
        frame < frames[0] ==> keyframed(frames, values, frame) == values[0],
        frame >= frames.last() ==> keyframed(frames, values, frame) == values.last(),
        k + 1 < frames.len() && frames[k] <= frame < frames[k + 1] ==> keyframed(
            frames,
            values,
            frame,
        ) == linear_keyframe(
            values[k] as int,
            values[k + 1] as int,
            frame - frames[k],
            frames[k + 1] - frames[k],
        ),
{
    let length = frames.len() as int;
    if frame < frames[0] {
        assert forall|i: int| 0 <= i < length implies #[trigger] frames[i] > frame by {
            if i > 0 {
                assert(frames[0] < frames[i]);
            }
        }
        lemma_no_keyframe_before(frames, frame, length);
    }
    if frame >= frames.last() {
        lemma_last_keyframe_is(frames, frame, length, length - 1);
    }
    if k + 1 < length && frames[k] <= frame < frames[k + 1] {
        assert forall|i: int| k < i < length implies #[trigger] frames[i] > frame by {
            if i > k + 1 {
                assert(frames[k + 1] < frames[i]);
            }
        }
        lemma_last_keyframe_is(frames, frame, length, k);
    }
    if frame == frames[k] && k + 1 < length {
        assert(frames[k] < frames[k + 1]);
    }
}

/// A lag is as far as a smoothed curve is from the truth on either side, and is
/// reached at the sample that is named.
pub proof fn lemma_lag_in_numbers(smoothed: Seq<i64>, truth: Seq<i64>, lag: int, sample: int)
    requires
        worst_error(smoothed, truth, lag, sample),
    ensures
        forall|i: int|
            0 <= i < truth.len() ==> -lag <= #[trigger] smoothed[i] - truth[i] <= lag,
        lag > 0 ==> 0 <= sample < truth.len() && (smoothed[sample] - truth[sample] == lag
            || truth[sample] - smoothed[sample] == lag),
{
    assert forall|i: int| 0 <= i < truth.len() implies -lag <= #[trigger] smoothed[i] - truth[i]
        <= lag by {
        assert(distance(smoothed[i], truth[i]) <= lag);
    }
}

/// A run that passes holds every one of the hundred frames, and eighty by eighty
/// pixels of each.
pub proof fn lemma_passing_run_in_numbers(
    run: TrackedRun,
    measured: TrackedWindowContainment,
    frame: int,
    x: int,
    y: int,
)
    requires
        tracked_result(run, Ok(measured)),
        0 <= frame < 100,
        run.corners[frame].0 <= x < run.corners[frame].0 + 80,
        run.corners[frame].1 <= y < run.corners[frame].1 + 80,
    ensures
        run.covers(frame, x, y),
        measured.frames_asserted == 100,
        measured.pixels_asserted == 640_000,
        0 < measured.worst_margin_x_sixteenths <= run.margin_x_at(frame),
        0 < measured.worst_margin_y_ninths <= run.margin_y_at(frame),
{
    assert(run.covers_frame(frame));
    assert(in_subject(x, y, run.corners[frame]));
}

/// The box around the subject, by column and row: every pixel of the subject is
/// in it, and each of its four sides holds one.
pub proof fn lemma_box_by_column_and_row(
    pixels: Seq<u16>,
    width: int,
    height: int,
    bounds: (i64, i64, i64, i64),
    x: int,
    y: int,
)
    requires
        width > 0,
        0 <= x < width,
        0 <= y < height,
        subject_inside(pixels, width, width * height, bounds),
        shows_subject(pixels, width * y + x),
    ensures
        bounds.0 <= x <= bounds.1,
        bounds.2 <= y <= bounds.3,
{
    assert(width * y == y * width) by (nonlinear_arith);
    vstd::arithmetic::div_mod::lemma_fundamental_div_mod_converse(width * y + x, width, y, x);
    assert(0 <= width * y + x < width * height) by (nonlinear_arith)
        requires
            0 <= x < width,
            0 <= y < height,
    ;
}

/// There is only one box that holds the subject and that the subject touches on
/// all four sides.
pub proof fn lemma_one_box(
    pixels: Seq<u16>,
    width: int,
    count: int,
    left: (i64, i64, i64, i64),
    right: (i64, i64, i64, i64),
)
    requires
        subject_inside(pixels, width, count, left),
        subject_touches(pixels, width, count, left),
        subject_inside(pixels, width, count, right),
        subject_touches(pixels, width, count, right),
    ensures
        left == right,
{
}

/// The subject touches the four sides of its box: a pixel in the first and the
/// last column and in the top and the bottom row.
pub proof fn lemma_box_touches_its_sides(
    pixels: Seq<u16>,
    width: int,
    count: int,
    bounds: (i64, i64, i64, i64),
)
    requires
        width > 0,
        subject_touches(pixels, width, count, bounds),
    ensures
        exists|y: int| #[trigger] shows_subject(pixels, width * y + bounds.0),
        exists|y: int| #[trigger] shows_subject(pixels, width * y + bounds.1),
        exists|x: int| #[trigger] shows_subject(pixels, width * bounds.2 + x),
        exists|x: int| #[trigger] shows_subject(pixels, width * bounds.3 + x),
{
    let a = choose|i: int|
        0 <= i < count && #[trigger] shows_subject(pixels, i) && i % width == bounds.0;
    let b = choose|i: int|
        0 <= i < count && #[trigger] shows_subject(pixels, i) && i % width == bounds.1;
    let c = choose|i: int|
        0 <= i < count && #[trigger] shows_subject(pixels, i) && i / width == bounds.2;
    let d = choose|i: int|
        0 <= i < count && #[trigger] shows_subject(pixels, i) && i / width == bounds.3;
    vstd::arithmetic::div_mod::lemma_fundamental_div_mod(a, width);
    vstd::arithmetic::div_mod::lemma_fundamental_div_mod(b, width);
    vstd::arithmetic::div_mod::lemma_fundamental_div_mod(c, width);
    vstd::arithmetic::div_mod::lemma_fundamental_div_mod(d, width);
    assert(shows_subject(pixels, width * (a / width) + bounds.0));
    assert(shows_subject(pixels, width * (b / width) + bounds.1));
    assert(shows_subject(pixels, width * bounds.2 + c % width));
    assert(shows_subject(pixels, width * bounds.3 + d % width));
}

/// The values along an axis are the coordinates of the centres, in order.
pub proof fn lemma_axis_in_order(centres: Seq<[i64; 2]>, i: int)
    requires
        0 <= i < centres.len(),
    ensures
        axis_of(centres, 0).len() == centres.len(),
        axis_of(centres, 0)[i] == centres[i]@[0],
        axis_of(centres, 1)[i] == centres[i]@[1],
{
}

/// The margins of a run determine its worst ones: each the least of all, reached
/// at one of the frames, the horizontal one first at the frame that is named.
pub proof fn lemma_worst_margins_are_determined(
    run: TrackedRun,
    count: int,
    left: (int, int, int),
    right: (int, int, int),
)
    requires
        run.worst(count, left.0, left.1, left.2),
        run.worst(count, right.0, right.1, right.2),
    ensures
        left == right,
{
    let (x, y, frame) = left;
    let (u, v, other) = right;
    assert(run.margin_x_at(frame) == x && run.margin_x_at(other) == u);
    let a = choose|f: int| 0 <= f < count && #[trigger] run.margin_y_at(f) == y;
    let b = choose|f: int| 0 <= f < count && #[trigger] run.margin_y_at(f) == v;
    assert(run.margin_y_at(a) == y && run.margin_y_at(b) == v);
    assert(x == u);
    assert(y == v);
    assert(frame == other);
}

/// A run determines what holding it against its window gives.
pub proof fn lemma_tracked_run_is_determined(
    run: TrackedRun,
    left: Result<TrackedWindowContainment, TrackedWindowFailure>,
    right: Result<TrackedWindowContainment, TrackedWindowFailure>,
)
    requires
        tracked_result(run, left),
        tracked_result(run, right),
    ensures
        left == right,
{
    lemma_outside_is_not_covered(run, left);
    lemma_outside_is_not_covered(run, right);
    match (left, right) {
        (Ok(a), Ok(b)) => {
            lemma_worst_margins_are_determined(
                run,
                TRACK_FRAMES as int,
                (
                    a.worst_margin_x_sixteenths as int,
                    a.worst_margin_y_ninths as int,
                    a.worst_frame as int,
                ),
                (
                    b.worst_margin_x_sixteenths as int,
                    b.worst_margin_y_ninths as int,
                    b.worst_frame as int,
                ),
            );
        },
        (
            Ok(a),
            Err(TrackedWindowFailure::MarginNotPositive { x_sixteenths, y_ninths }),
        ) => {
            lemma_worst_is_one(
                run,
                a.worst_margin_x_sixteenths as int,
                a.worst_margin_y_ninths as int,
                a.worst_frame as int,
                x_sixteenths as int,
                y_ninths as int,
            );
        },
        (
            Err(TrackedWindowFailure::MarginNotPositive { x_sixteenths, y_ninths }),
            Ok(a),
        ) => {
            lemma_worst_is_one(
                run,
                a.worst_margin_x_sixteenths as int,
                a.worst_margin_y_ninths as int,
                a.worst_frame as int,
                x_sixteenths as int,
                y_ninths as int,
            );
        },
        (
            Err(TrackedWindowFailure::MarginNotPositive { x_sixteenths: x, y_ninths: y }),
            Err(TrackedWindowFailure::MarginNotPositive { x_sixteenths, y_ninths }),
        ) => {
            let frame = choose|frame: int| #[trigger]
                run.worst(TRACK_FRAMES as int, x as int, y as int, frame);
            lemma_worst_is_one(
                run,
                x as int,
                y as int,
                frame,
                x_sixteenths as int,
                y_ninths as int,
            );
        },
        _ => {},
    }
}

proof fn lemma_worst_is_one(run: TrackedRun, x: int, y: int, frame: int, u: int, v: int)
    requires
        run.worst(TRACK_FRAMES as int, x, y, frame),
        exists|other: int| #[trigger] run.worst(TRACK_FRAMES as int, u, v, other),
    ensures
        x == u,
        y == v,
{
    let other = choose|other: int| #[trigger] run.worst(TRACK_FRAMES as int, u, v, other);
    lemma_worst_margins_are_determined(run, TRACK_FRAMES as int, (x, y, frame), (u, v, other));
}

proof fn lemma_outside_is_not_covered(
    run: TrackedRun,
    result: Result<TrackedWindowContainment, TrackedWindowFailure>,
)
    requires
        tracked_result(run, result),
    ensures
        result matches Err(TrackedWindowFailure::PixelOutside { frame, x, y })
            ==> !run.covers_frame(frame as int),
{
}

/// A truth and a smoothed curve determine the lag and the first sample that has
/// it.
pub proof fn lemma_lag_is_determined(
    smoothed: Seq<i64>,
    truth: Seq<i64>,
    left: (int, int),
    right: (int, int),
)
    requires
        left.0 >= 0,
        right.0 >= 0,
        left.1 >= 0,
        right.1 >= 0,
        worst_error(smoothed, truth, left.0, left.1),
        worst_error(smoothed, truth, right.0, right.1),
    ensures
        left == right,
{
    let (lag, sample) = left;
    let (other, place) = right;
    if lag > 0 {
        assert(distance(smoothed[sample], truth[sample]) == lag);
    }
    if other > 0 {
        assert(distance(smoothed[place], truth[place]) == other);
    }
    assert(lag == other);
}

} // verus!
