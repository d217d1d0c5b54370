//! The tracked shot: a subject on an analytic path and the window that follows
//! it.

use vstd::prelude::*;

verus! {

/// The width of the tracked shot.
pub const TRACK_WIDTH: u32 = 640;

/// The height of the tracked shot.
pub const TRACK_HEIGHT: u32 = 360;

/// The number of frames of the tracked shot.
pub const TRACK_FRAMES: i64 = 100;

/// The frames per second of the tracked shot.
pub const TRACK_FPS: i64 = 25;

/// The extent of the subject, in pixels.
pub const TRACK_BOX: i64 = 80;

/// The distance between two samples of the tracker, in frames.
pub const TRACK_STEP_FRAMES: i64 = 5;

/// The half width of the tracked window, in basis points of the frame's width.
pub const TRACK_HALF_WIDTH_BASIS_POINTS: i64 = 1_300;

/// The half height of the tracked window, in basis points of the frame's
/// height.
pub const TRACK_HALF_HEIGHT_BASIS_POINTS: i64 = 1_800;

/// A quotient rounded to the nearest whole number, halves away from zero.
pub open spec fn rounded(numerator: int, denominator: int) -> int {
    if numerator >= 0 {
        (2 * numerator + denominator) / (2 * denominator)
    } else {
        -((denominator - 2 * numerator) / (2 * denominator))
    }
}

/// The value of a linear keyframe pair at a frame: the start at or before the
/// first frame, the end at or behind the last, and between them the share of
/// the way, in millionths rounded down, that the frame has gone.
pub open spec fn linear_keyframe(start: int, end: int, frame: int, span: int) -> int {
    if frame <= 0 {
        start
    } else if frame >= span {
        end
    } else {
        start + rounded((end - start) * (frame * 1_000_000 / span), 1_000_000)
    }
}

/// A part of a distance is no longer than the distance.
proof fn lemma_share_of_way(distance: int, linear: int)
    requires
        0 <= linear <= 1_000_000,
    ensures
        distance >= 0 ==> 0 <= rounded(distance * linear, 1_000_000) <= distance,
        distance <= 0 ==> distance <= rounded(distance * linear, 1_000_000) <= 0,
{
    let part = distance * linear;
    if distance >= 0 {
        assert(0 <= part <= distance * 1_000_000) by (nonlinear_arith)
            requires
                distance >= 0,
                0 <= linear <= 1_000_000,
                part == distance * linear,
        ;
        lemma_rounded_millionths(part, distance);
    }
    if distance <= 0 {
        assert(distance * 1_000_000 <= part <= 0) by (nonlinear_arith)
            requires
                distance <= 0,
                0 <= linear <= 1_000_000,
                part == distance * linear,
        ;
        lemma_rounded_millionths(part, distance);
    }
}

/// Millionths of a distance, rounded, are no more than the distance.
proof fn lemma_rounded_millionths(part: int, distance: int)
    ensures
        0 <= part <= distance * 1_000_000 ==> 0 <= rounded(part, 1_000_000) <= distance,
        distance * 1_000_000 <= part <= 0 ==> distance <= rounded(part, 1_000_000) <= 0,
{
    if distance * 1_000_000 <= part < 0 {
        let quotient = (1_000_000 - 2 * part) / 2_000_000;
        assert(0 <= quotient <= -distance);
        assert(rounded(part, 1_000_000) == -quotient);
    }
}

/// Rounding millionths keeps their order.
proof fn lemma_rounded_keeps_order(less: int, more: int)
    requires
        less <= more,
    ensures
        rounded(less, 1_000_000) <= rounded(more, 1_000_000),
{
    if less >= 0 {
        assert((2 * less + 1_000_000) / 2_000_000 <= (2 * more + 1_000_000) / 2_000_000);
    } else if more < 0 {
        assert((1_000_000 - 2 * more) / 2_000_000 <= (1_000_000 - 2 * less) / 2_000_000);
    } else {
        assert(0 <= (1_000_000 - 2 * less) / 2_000_000);
        assert(0 <= (2 * more + 1_000_000) / 2_000_000);
    }
}

/// The share of the way that a frame between the ends has gone.
proof fn lemma_linear_share(frame: int, span: int)
    requires
        0 < frame < span,
    ensures
        0 <= frame * 1_000_000 / span < 1_000_000,
{
    assert(0 <= frame * 1_000_000 / span < 1_000_000) by (nonlinear_arith)
        requires
            0 < frame < span,
    ;
}

/// The value of a linear keyframe pair at a frame.
pub fn spec_linear_keyframe(start: i64, end: i64, frame: i64, span: i64) -> (value: i64)
    requires
        i64::MIN <= end - start <= i64::MAX,
    ensures
        value == linear_keyframe(start as int, end as int, frame as int, span as int),
{
    between_keyframes(start, end, frame as i128, span as i128)
}

/// The value of a linear keyframe pair at a frame, where the distances between
/// frames and between values may be wider than the frames and values are.
pub(crate) fn between_keyframes(start: i64, end: i64, frame: i128, span: i128) -> (value: i64)
    requires
        -0x1_0000_0000_0000_0000 <= frame <= 0x1_0000_0000_0000_0000,
        -0x1_0000_0000_0000_0000 <= span <= 0x1_0000_0000_0000_0000,
    ensures
        value == linear_keyframe(start as int, end as int, frame as int, span as int),
{
    if frame <= 0 {
        return start;
    }
    if frame >= span {
        return end;
    }
    let linear: i128 = frame * 1_000_000 / span;
    let distance: i128 = end as i128 - start as i128;
    proof {
        lemma_linear_share(frame as int, span as int);
        lemma_share_of_way(distance as int, linear as int);
        assert(-0x1_0000_0000_0000_0000int * 1_000_000 <= distance * linear
            <= 0x1_0000_0000_0000_0000int * 1_000_000) by (nonlinear_arith)
            requires
                -0x1_0000_0000_0000_0000int <= distance <= 0x1_0000_0000_0000_0000int,
                0 <= linear <= 1_000_000,
        ;
    }
    let delta: i128 = distance * linear;
    let change: i128 = if delta >= 0 {
        (delta + 500_000) / 1_000_000
    } else {
        -((500_000 - delta) / 1_000_000)
    };
    assert(change == rounded(delta as int, 1_000_000));
    (start as i128 + change) as i64
}

/// A linear keyframe pair never leaves the range between its two values, and
/// takes them at its ends.
pub proof fn lemma_linear_keyframe_stays_between(start: int, end: int, frame: int, span: int)
    ensures
        start <= end ==> start <= linear_keyframe(start, end, frame, span) <= end,
        end <= start ==> end <= linear_keyframe(start, end, frame, span) <= start,
        frame <= 0 ==> linear_keyframe(start, end, frame, span) == start,
        frame > 0 && frame >= span ==> linear_keyframe(start, end, frame, span) == end,
{
    if 0 < frame < span {
        lemma_linear_share(frame, span);
        lemma_share_of_way(end - start, frame * 1_000_000 / span);
    }
}

/// A linear keyframe pair moves one way only: a later frame is never nearer to
/// the start.
pub proof fn lemma_linear_keyframe_is_monotone(
    start: int,
    end: int,
    earlier: int,
    later: int,
    span: int,
)
    requires
        earlier <= later,
    ensures
        start <= end ==> linear_keyframe(start, end, earlier, span) <= linear_keyframe(
            start,
            end,
            later,
            span,
        ),
        end <= start ==> linear_keyframe(start, end, earlier, span) >= linear_keyframe(
            start,
            end,
            later,
            span,
        ),
{
    lemma_linear_keyframe_stays_between(start, end, earlier, span);
    lemma_linear_keyframe_stays_between(start, end, later, span);
    if 0 < earlier && later < span {
        let a = earlier * 1_000_000 / span;
        let b = later * 1_000_000 / span;
        let distance = end - start;
        lemma_linear_share(earlier, span);
        lemma_linear_share(later, span);
        assert(a <= b) by (nonlinear_arith)
            requires
                0 < earlier <= later < span,
                a == earlier * 1_000_000 / span,
                b == later * 1_000_000 / span,
        ;
        if distance >= 0 {
            assert(0 <= distance * a <= distance * b) by (nonlinear_arith)
                requires
                    distance >= 0,
                    0 <= a <= b,
            ;
            lemma_rounded_keeps_order(distance * a, distance * b);
        } else {
            assert(distance * b <= distance * a <= 0) by (nonlinear_arith)
                requires
                    distance <= 0,
                    0 <= a <= b,
            ;
            lemma_rounded_keeps_order(distance * b, distance * a);
        }
    }
}

/// The frame of a sample: the first frame, then the last of every step.
pub open spec fn sample_frame(index: int) -> int {
    if index == 0 {
        0
    } else {
        TRACK_STEP_FRAMES * index - 1
    }
}

/// The frames that the tracker samples.
pub fn tracking_sample_frames() -> (frames: Vec<i64>)
    ensures
        frames@.len() == 21,
        forall|i: int| 0 <= i < 21 ==> #[trigger] frames@[i] == sample_frame(i),
{
    let mut frames: Vec<i64> = Vec::new();
    frames.push(0);
    let mut frame: i64 = TRACK_STEP_FRAMES - 1;
    while frame < TRACK_FRAMES
        invariant
            1 <= frames.len() <= 21,
            frame == TRACK_STEP_FRAMES * frames.len() - 1,
            forall|i: int| 0 <= i < frames.len() ==> #[trigger] frames@[i] == sample_frame(i),
        decreases TRACK_FRAMES + TRACK_STEP_FRAMES - frame,
    {
        frames.push(frame);
        frame += TRACK_STEP_FRAMES;
    }
    frames
}

/// The samples begin with the first frame, end with the last, rise strictly
/// and, behind the first, step evenly.
pub proof fn lemma_samples_step_evenly(index: int)
    requires
        0 <= index < 20,
    ensures
        sample_frame(0) == 0,
        sample_frame(20) == TRACK_FRAMES - 1,
        sample_frame(index) < sample_frame(index + 1),
        index > 0 ==> sample_frame(index + 1) - sample_frame(index) == TRACK_STEP_FRAMES,
{
}

/// The corner of the realised subject, for the whole pixels at or before the
/// two edges that the path gives: a stream with halved chroma snaps them to
/// even offsets.
pub fn analytic_box_corner(left: i64, top: i64) -> (corner: (i64, i64))
    ensures
        corner.0 == left as int / 2 * 2,
        corner.1 == top as int / 2 * 2,
{
    (even_at_or_below(left), even_at_or_below(top))
}

fn even_at_or_below(edge: i64) -> (even: i64)
    ensures
        even == edge as int / 2 * 2,
{
    if edge >= 0 {
        edge / 2 * 2
    } else if edge % 2 == 0 {
        edge
    } else {
        edge - 1
    }
}

/// The window centre on one axis, in basis points, that puts the subject in
/// the middle of the window.
pub open spec fn centre_of(edge: int, extent: int) -> int {
    rounded((edge + TRACK_BOX / 2) * 10_000, extent)
}

fn centre_on_axis(edge: i64, extent: i64) -> (centre: i64)
    requires
        0 < extent,
        i64::MIN <= centre_of(edge as int, extent as int) <= i64::MAX,
    ensures
        centre == centre_of(edge as int, extent as int),
{
    let numerator: i128 = (edge as i128 + TRACK_BOX as i128 / 2) * 10_000;
    let extent: i128 = extent as i128;
    if numerator >= 0 {
        ((2 * numerator + extent) / (2 * extent)) as i64
    } else {
        (-((extent - 2 * numerator) / (2 * extent))) as i64
    }
}

/// The window centre, in basis points, that puts the subject with this corner
/// in the middle of the window.
pub fn analytic_centre_basis_points(corner: (i64, i64)) -> (centre: (i64, i64))
    requires
        i64::MIN <= centre_of(corner.0 as int, TRACK_WIDTH as int) <= i64::MAX,
        i64::MIN <= centre_of(corner.1 as int, TRACK_HEIGHT as int) <= i64::MAX,
    ensures
        centre.0 == centre_of(corner.0 as int, TRACK_WIDTH as int),
        centre.1 == centre_of(corner.1 as int, TRACK_HEIGHT as int),
{
    (centre_on_axis(corner.0, TRACK_WIDTH as i64), centre_on_axis(corner.1, TRACK_HEIGHT as i64))
}

/// The raw error that the lag simulation adds to a centre, in basis points: a
/// multiplicative hash of the sample and the axis, spread over the tolerance.
pub fn tracking_raw_jitter_basis_points(sample_index: usize, axis: usize) -> (jitter: i64)
    requires
        sample_index * 2 + axis <= i64::MAX,
    ensures
        jitter == ((sample_index * 2 + axis) as i64).wrapping_mul(2_654_435_761) as int % 401 - 200,
        -200 <= jitter <= 200,
{
    let seed: i64 = (sample_index as i64 * 2 + axis as i64).wrapping_mul(2_654_435_761);
    remainder_of_401(seed) - 200
}

/// The remainder by 401, from zero up.
fn remainder_of_401(number: i64) -> (rest: i64)
    ensures
        rest == number as int % 401,
        0 <= rest <= 400,
{
    let rest: i64 = number % 401;
    if rest < 0 {
        rest + 401
    } else {
        rest
    }
}

/// Rounding is to the nearest, a half goes away from zero, and nothing else is
/// left open.
pub proof fn lemma_rounded_exactly(numerator: int, denominator: int)
    requires
        denominator > 0,
    ensures
        numerator >= 0 ==> 2 * denominator * rounded(numerator, denominator) - denominator <= 2
            * numerator < 2 * denominator * rounded(numerator, denominator) + denominator,
        numerator < 0 ==> 2 * denominator * rounded(numerator, denominator) - denominator < 2
            * numerator <= 2 * denominator * rounded(numerator, denominator) + denominator,
{
    let d = denominator;
    if numerator >= 0 {
        let q = (2 * numerator + d) / (2 * d);
        assert(2 * d * q <= 2 * numerator + d < 2 * d * q + 2 * d) by (nonlinear_arith)
            requires
                q == (2 * numerator + d) / (2 * d),
                d > 0,
        ;
    } else {
        let q = (d - 2 * numerator) / (2 * d);
        assert(2 * d * q <= d - 2 * numerator < 2 * d * q + 2 * d) by (nonlinear_arith)
            requires
                q == (d - 2 * numerator) / (2 * d),
                d > 0,
        ;
        assert(2 * d * (-q) == -(2 * d * q)) by (nonlinear_arith);
    }
}

/// Between its ends a linear pair has gone the share of the way that the frame
/// has gone of the span, in whole millionths, to the nearest value.
pub proof fn lemma_linear_keyframe_by_share(start: int, end: int, frame: int, span: int, share: int)
    requires
        0 < frame < span,
        share * span <= frame * 1_000_000,
        frame * 1_000_000 < (share + 1) * span,
    ensures
        ({
            let gone = linear_keyframe(start, end, frame, span) - start;
            &&& 2_000_000 * gone - 1_000_000 <= 2 * ((end - start) * share)
            &&& 2 * ((end - start) * share) <= 2_000_000 * gone + 1_000_000
        }),
        linear_keyframe(start, start, frame, span) == start,
{
    assert(frame * 1_000_000 / span == share) by (nonlinear_arith)
        requires
            0 < span,
            share * span <= frame * 1_000_000,
            frame * 1_000_000 < (share + 1) * span,
    ;
    lemma_rounded_exactly((end - start) * share, 1_000_000);
    lemma_linear_keyframe_stays_between(start, start, frame, span);
}

/// The centre that is given puts the subject, eighty pixels wide and high, into
/// the middle of the window, to the nearest basis point.
pub proof fn lemma_centre_in_numbers(edge: int, extent: int)
    requires
        extent > 0,
    ensures
        2 * extent * centre_of(edge, extent) - extent <= 20_000 * (edge + 40),
        20_000 * (edge + 40) <= 2 * extent * centre_of(edge, extent) + extent,
        edge + 40 >= 0 ==> 20_000 * (edge + 40) < 2 * extent * centre_of(edge, extent) + extent,
        TRACK_WIDTH == 640 && TRACK_HEIGHT == 360,
{
    lemma_rounded_exactly((edge + 40) * 10_000, extent);
    assert(TRACK_BOX / 2 == 40);
}

/// The frames that the tracker samples, in numbers.
pub proof fn lemma_sample_frames_in_numbers(index: int)
    requires
        0 < index <= 20,
    ensures
        sample_frame(index) == 5 * index - 1,
        sample_frame(0) == 0,
        sample_frame(20) == 99,
{
}

/// The shot runs at twenty-five frames a second, and the window that follows the
/// subject is wider and higher than the subject.
pub proof fn lemma_shot_in_numbers()
    ensures
        TRACK_FPS == 25,
        TRACK_HALF_WIDTH_BASIS_POINTS == 1_300,
        TRACK_HALF_HEIGHT_BASIS_POINTS == 1_800,
        2 * TRACK_HALF_WIDTH_BASIS_POINTS * TRACK_WIDTH > 10_000 * TRACK_BOX,
        2 * TRACK_HALF_HEIGHT_BASIS_POINTS * TRACK_HEIGHT > 10_000 * TRACK_BOX,
{
}

} // verus!
