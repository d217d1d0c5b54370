use half::f16;
use kinewright_media::subject::{
    assert_tracked_window_contains_the_subject, is_bright, keyframed_value, smoother_lag,
    subject_bounding_box, TrackedWindowFailure,
};
use kinewright_media::tracking::{
    analytic_box_corner, analytic_centre_basis_points, spec_linear_keyframe,
    tracking_raw_jitter_basis_points, tracking_sample_frames, TRACK_BOX, TRACK_FPS, TRACK_FRAMES,
    TRACK_HALF_HEIGHT_BASIS_POINTS, TRACK_HALF_WIDTH_BASIS_POINTS, TRACK_STEP_FRAMES,
};

/// The corner of the subject on its sinusoidal path.
fn corner(frame: i64) -> (i64, i64) {
    let t = frame as f64 / TRACK_FPS as f64;
    let phase = (2.0 * std::f64::consts::PI * t / 8.0).sin();
    analytic_box_corner(
        (320.0 + 120.0 * phase - 40.0).floor() as i64,
        (180.0 + 60.0 * phase - 40.0).floor() as i64,
    )
}

fn corners() -> Vec<(i64, i64)> {
    (0..TRACK_FRAMES).map(corner).collect()
}

#[test]
fn samples_step_evenly_to_the_last_frame() {
    let samples = tracking_sample_frames();
    assert_eq!(samples.len(), 21);
    assert_eq!(samples[0], 0);
    assert_eq!(samples[1], 4);
    assert_eq!(samples[2], 9);
    assert_eq!(*samples.last().expect("samples"), 99);
    for pair in samples[1..].windows(2) {
        assert_eq!(pair[1] - pair[0], TRACK_STEP_FRAMES);
    }
}

#[test]
fn corners_snap_to_even_pixels() {
    assert_eq!(corner(0), (280, 140));
    assert_eq!(corner(50), (400, 200));
    assert_eq!(analytic_box_corner(281, 141), (280, 140));
    assert_eq!(analytic_box_corner(-1, -3), (-2, -4));
    assert_eq!(analytic_centre_basis_points((280, 140)), (5_000, 5_000));
    assert_eq!(analytic_centre_basis_points((281, 140)), (5_016, 5_000));
}

#[test]
fn a_window_on_the_path_contains_the_subject() {
    let frames = tracking_sample_frames();
    let centres: Vec<[i64; 2]> = frames
        .iter()
        .map(|frame| {
            let centre = analytic_centre_basis_points(corner(*frame));
            [centre.0, centre.1]
        })
        .collect();
    let contained = assert_tracked_window_contains_the_subject(
        &centres,
        &frames,
        &corners(),
        TRACK_HALF_WIDTH_BASIS_POINTS,
        TRACK_HALF_HEIGHT_BASIS_POINTS,
    )
    .expect("the window contains the subject");
    assert_eq!(contained.worst_margin_x_sixteenths, 10_429);
    assert_eq!(contained.worst_margin_y_ninths, 5_824);
    assert_eq!(contained.worst_frame, 50);
    assert_eq!(contained.frames_asserted, TRACK_FRAMES);
    assert_eq!(contained.pixels_asserted, (TRACK_FRAMES * TRACK_BOX * TRACK_BOX) as u64);

    let still = vec![[5_000_i64, 5_000]; frames.len()];
    let failure = assert_tracked_window_contains_the_subject(
        &still,
        &frames,
        &corners(),
        TRACK_HALF_WIDTH_BASIS_POINTS,
        TRACK_HALF_HEIGHT_BASIS_POINTS,
    )
    .expect_err("a window that stays loses the subject");
    assert!(matches!(failure, TrackedWindowFailure::PixelOutside { .. }));
}

#[test]
fn a_keyframe_pair_moves_in_steps_of_millionths() {
    assert_eq!(spec_linear_keyframe(2_500, 7_500, -1, 24), 2_500);
    assert_eq!(spec_linear_keyframe(2_500, 7_500, 24, 24), 7_500);
    assert_eq!(spec_linear_keyframe(2_500, 7_500, 12, 24), 5_000);
    assert_eq!(spec_linear_keyframe(0, 100, 1, 3), 33);
    assert_eq!(spec_linear_keyframe(0, -100, 1, 3), -33);
    assert_eq!(keyframed_value(&[0, 10, 20], &[0, 100, 0], 5), 50);
    assert_eq!(keyframed_value(&[0, 10, 20], &[0, 100, 0], 15), 50);
    assert_eq!(keyframed_value(&[0, 10, 20], &[0, 100, 0], 99), 0);
}

#[test]
fn jitter_spreads_over_its_tolerance() {
    let values: Vec<i64> = (0..21)
        .flat_map(|sample| (0..2).map(move |axis| tracking_raw_jitter_basis_points(sample, axis)))
        .collect();
    assert!(values.iter().all(|value| (-200..=200).contains(value)));
    assert_eq!(values[0], -200);
    assert_eq!(
        values[1],
        2_654_435_761_i64.rem_euclid(401) - 200
    );
    let worst = values.iter().map(|value| value.abs()).max().expect("values");
    assert!((190..=200).contains(&worst));
}

#[test]
fn brightness_is_that_of_the_exact_luma() {
    let values: Vec<u16> = (0..=u16::MAX)
        .step_by(641)
        .chain([0, 1, 0x37ff, 0x3800, 0x3801, 0x3c00, 0x7bff, 0x8000, 0xb800, 0xfbff])
        .collect();
    for red in &values {
        for green in &values {
            for blue in [0, 0x3800, 0x3c00, 0x8001, *red] {
                let exact = [*red, *green, blue].map(|bits| f16::from_bits(bits).to_f64());
                if exact.iter().any(|value| !value.is_finite()) {
                    continue;
                }
                let luma = 2_126.0 * exact[0] + 7_152.0 * exact[1] + 722.0 * exact[2];
                assert_eq!(is_bright(*red, *green, blue), luma > 5_000.0);
            }
        }
    }
    let (infinite, below, none) = (0x7c00, 0xfc00, 0x7e00);
    assert!(is_bright(infinite, 0, 0));
    assert!(is_bright(0xfbff, 0xfbff, infinite));
    assert!(!is_bright(below, 0x3c00, 0x3c00));
    assert!(!is_bright(infinite, below, 0x3c00));
    assert!(!is_bright(0x3c00, none, 0x3c00));
    assert!(!is_bright(infinite, none, 0x3c00));
}

#[test]
fn a_subject_has_the_box_of_its_bright_pixels() {
    let bright = f16::from_f32(0.9).to_bits();
    let half = f16::from_f32(0.5).to_bits();
    let mut pixels = vec![half; 4 * 8 * 5];
    for (x, y) in [(2_usize, 1_usize), (5, 3), (3, 2)] {
        pixels[4 * (y * 8 + x) + 1] = bright;
    }
    assert_eq!(subject_bounding_box(&pixels, 8), (2, 5, 1, 3));
}

#[test]
fn a_subject_is_where_the_luma_is_and_not_the_green_alone() {
    let pixels = [1.0, 0.4, 1.0, 1.0, 0.0, 0.6, 0.0, 1.0].map(|v| f16::from_f32(v).to_bits());
    assert_eq!(subject_bounding_box(&pixels, 2), (0, 0, 0, 0));
}

#[test]
fn a_curve_spans_the_widest_values() {
    assert_eq!(
        keyframed_value(&[i64::MIN, i64::MAX], &[i64::MIN, i64::MAX], i64::MAX),
        i64::MAX
    );
    assert_eq!(keyframed_value(&[i64::MIN, i64::MAX], &[-10, 10], -1), 0);
    assert_eq!(keyframed_value(&[0, 2], &[i64::MIN, i64::MAX], 1), 0);
}

#[test]
fn a_lag_is_the_first_of_the_greatest_errors() {
    assert_eq!(smoother_lag(&[1, 5, 9, 1], &[1, 8, 6, 1]), (3, 1));
    assert_eq!(smoother_lag(&[1, 2], &[1, 2]), (0, 0));
}
