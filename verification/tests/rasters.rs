use kinewright_media::containment::{
    assert_matte_containment, assert_monitor_containment, bounded_counts, containment_counts,
    ContainmentCounts, ContainmentFailure, MonitorFailure,
};
use kinewright_media::parity::{
    assert_cc5_gpu_parity, assert_cc7_canonical_parity, assert_matte_case, sector_divergence,
    CanonicalFailure, CanonicalParity, MatteCaseFailure, MatteRenders, ParityFailure, ParityLimits,
    ParityMeasurement, ParityMetrics, ParityRenders, CC5_RASTER_SAMPLES,
};
use kinewright_media::raster::{
    assert_coverage_matches, cc5_chart_raster, cc5_over_range_raster, cc5_parity_raster,
    chart_patch_of, covered_bounding_box, divergence_histogram, hand_derived_centred_window,
    is_on_sector_boundary,
    raster_index, CoverageMismatch, CC5_RASTER_PIXELS, CENTRED_WINDOW_OUTSIDE_PIXELS,
    CENTRED_WINDOW_PIXELS, CHART_PATCH_PIXELS,
};

#[test]
fn the_centred_window_covers_a_quarter() {
    let covered = hand_derived_centred_window();
    assert_eq!(covered.len(), CC5_RASTER_PIXELS);
    let count = covered.iter().filter(|covered| **covered).count();
    assert_eq!(count, CENTRED_WINDOW_PIXELS);
    assert_eq!(covered.len() - count, CENTRED_WINDOW_OUTSIDE_PIXELS);
    assert_eq!(covered_bounding_box(&covered), Some((16, 47, 9, 26)));
    assert_eq!(covered_bounding_box(&[false; 64]), None);
    assert_eq!(raster_index((3, 2)), 131);
}

#[test]
fn a_parity_raster_shows_its_samples_in_blocks() {
    let samples: Vec<[u32; 3]> = (0..192).map(|i| [i, i + 1, i + 2]).collect();
    let raster = cc5_parity_raster(&samples);
    assert_eq!(raster.len(), CC5_RASTER_PIXELS);
    assert_eq!(raster[0], [0, 1, 2]);
    assert_eq!(raster[raster_index((3, 2))], [0, 1, 2]);
    assert_eq!(raster[raster_index((4, 0))], [1, 2, 3]);
    assert_eq!(raster[raster_index((0, 3))], [16, 17, 18]);
    assert_eq!(raster[CC5_RASTER_PIXELS - 1], [191, 192, 193]);
    assert!(is_on_sector_boundary(raster_index((16, 0))));
    assert!(!is_on_sector_boundary(raster_index((12, 0))));
    assert!(!is_on_sector_boundary(raster_index((28, 0))));
}

#[test]
fn an_over_range_raster_plants_three_samples() {
    let field = vec![[1_u32; 3]; CC5_RASTER_PIXELS];
    let raster = cc5_over_range_raster(field);
    let planted: Vec<usize> = (0..CC5_RASTER_PIXELS)
        .filter(|index| raster[*index] != [1; 3])
        .collect();
    assert_eq!(planted.len(), 3);
    assert_eq!(planted[0], 2 * 64 + 2);
    assert_eq!(raster[planted[0]].map(f32::from_bits), [-0.0, 0.25, 0.5]);
    assert_eq!(raster[33 * 64 + 61].map(f32::from_bits), [4.0; 3]);
}

#[test]
fn a_chart_patch_owns_its_rectangle() {
    let patches = [[1; 3], [2; 3], [3; 3], [4; 3], [5; 3], [6; 3]];
    let raster = cc5_chart_raster(&patches, [0; 3]);
    for patch in 0..6_usize {
        let count = (0..CC5_RASTER_PIXELS)
            .filter(|index| chart_patch_of(*index) == Some(patch))
            .count();
        assert_eq!(count, CHART_PATCH_PIXELS);
        assert_eq!(raster[raster_index((10 * patch as u32 + 2, 12))], patches[patch]);
    }
    assert_eq!(raster[raster_index((1, 12))], [0; 3]);
    assert_eq!(raster[raster_index((2, 11))], [0; 3]);
}

#[test]
fn coverage_may_differ_by_one_code_unless_its_edge_is_hard() {
    assert_eq!(assert_coverage_matches(&[1, 2, 3], &[1, 2, 3], true), Ok(()));
    assert_eq!(assert_coverage_matches(&[1, 2, 3], &[1, 3, 3], false), Ok(()));
    assert_eq!(
        assert_coverage_matches(&[1, 2, 3], &[1, 3, 3], true),
        Err(CoverageMismatch { first: 1, pixel: 1, codes: 1, divergent: 1 })
    );
    assert_eq!(
        assert_coverage_matches(&[1, 2, 9], &[2, 2, 3], false),
        Err(CoverageMismatch { first: 0, pixel: 2, codes: 6, divergent: 2 })
    );
    let histogram = divergence_histogram(&[1, 2, 9, 255], &[2, 2, 3, 0]);
    assert_eq!(histogram.len(), 256);
    assert_eq!([histogram[0], histogram[1], histogram[6], histogram[255]], [1; 4]);
    assert_eq!(histogram.iter().sum::<usize>(), 4);
}

#[test]
fn containment_counts_both_sides() {
    let baseline = vec![5_u32; 12];
    let mut actual = baseline.clone();
    actual[0] = 6;
    actual[1] = 6;
    actual[3] = 9;
    actual[8] = 7;
    let inside = [true, false, false];
    let counts = containment_counts(&actual, &baseline, &inside);
    assert_eq!(
        counts,
        ContainmentCounts {
            inside_pixels: 1,
            outside_pixels: 2,
            inside_changed_pixels: 1,
            outside_changed_pixels: 1,
            inside_changed_samples: 2,
            inside_samples: 3,
        }
    );
    assert_eq!(counts.inside_changed_basis_points(), 6_666);
    assert_eq!(
        assert_matte_containment(&actual, &baseline, &inside, 0),
        Err(ContainmentFailure::OutsideChanged { changed_pixels: 1, pixels: 2 })
    );
    actual[8] = 5;
    assert!(assert_matte_containment(&actual, &baseline, &inside, 6_666).is_ok());
    assert_eq!(
        assert_matte_containment(&actual, &baseline, &inside, 6_667),
        Err(ContainmentFailure::InsideUnchanged { changed_samples: 2, samples: 3 })
    );
    assert_eq!(bounded_counts(counts, 0).is_err(), true);
}

#[test]
fn a_monitor_keeps_its_alpha_and_its_outside() {
    let baseline = vec![1_u8; 8];
    let inside = [true, false];
    assert_eq!(assert_monitor_containment(&baseline, &baseline, &inside), Ok(()));
    let mut actual = baseline.clone();
    actual[1] = 2;
    assert_eq!(assert_monitor_containment(&actual, &baseline, &inside), Ok(()));
    actual[5] = 2;
    assert_eq!(
        assert_monitor_containment(&actual, &baseline, &inside),
        Err(MonitorFailure::OutsideChanged(1))
    );
    actual[3] = 0;
    assert_eq!(
        assert_monitor_containment(&actual, &baseline, &inside),
        Err(MonitorFailure::AlphaMoved(0))
    );
}

fn linear(change: bool) -> Vec<u32> {
    let covered = hand_derived_centred_window();
    (0..4 * CC5_RASTER_PIXELS)
        .map(|i| if change && covered[i / 4] && i % 4 != 3 { 2 } else { 1 })
        .collect()
}

fn parity_measurement() -> ParityMeasurement {
    ParityMeasurement {
        renders: ParityRenders {
            expected_linear: linear(true),
            baseline_linear: linear(false),
            expected_monitor: vec![7; 4 * CC5_RASTER_PIXELS],
            baseline_monitor: vec![7; 4 * CC5_RASTER_PIXELS],
            actual_linear: linear(true),
            actual_baseline: linear(false),
            covered: hand_derived_centred_window(),
            differences: vec![0; CC5_RASTER_SAMPLES],
        },
        metrics: ParityMetrics {
            in_gamut_samples: 10,
            monitor_max: 1,
            monitor_p99: 1.0_f64.to_bits(),
            monitor_mean: 0.25_f64.to_bits(),
            linear_within: true,
        },
    }
}

fn limits() -> ParityLimits {
    ParityLimits {
        monitor_max: 2,
        monitor_p99: 1.0_f64.to_bits(),
        monitor_mean: 0.5_f64.to_bits(),
    }
}

#[test]
fn a_parity_case_passes_or_names_its_failure() {
    let records = assert_cc5_gpu_parity(&[parity_measurement()], &limits(), 9_000).expect("parity");
    assert_eq!(records.len(), 1);
    assert_eq!(records[0].containment.inside_changed_pixels, CENTRED_WINDOW_PIXELS);
    assert_eq!(records[0].sector_divergence, 0);

    let fails = |change: &dyn Fn(&mut ParityMeasurement)| {
        let mut case = parity_measurement();
        change(&mut case);
        assert_cc5_gpu_parity(&[parity_measurement(), case], &limits(), 9_000)
            .expect_err("a failure")
    };
    assert_eq!(
        fails(&|case| case.metrics.in_gamut_samples = 0),
        (1, ParityFailure::NothingInGamut)
    );
    assert_eq!(fails(&|case| case.metrics.monitor_max = 3), (1, ParityFailure::MonitorMax));
    assert_eq!(
        fails(&|case| case.metrics.monitor_p99 = 1.01_f64.to_bits()),
        (1, ParityFailure::MonitorP99)
    );
    assert_eq!(
        fails(&|case| case.metrics.monitor_mean = 0.75_f64.to_bits()),
        (1, ParityFailure::MonitorMean)
    );
    assert_eq!(fails(&|case| case.metrics.linear_within = false), (1, ParityFailure::Linear));
    assert_eq!(
        fails(&|case| case.renders.expected_linear[0] = 9),
        (
            1,
            ParityFailure::ReferenceContainment(ContainmentFailure::OutsideChanged {
                changed_pixels: 1,
                pixels: CENTRED_WINDOW_OUTSIDE_PIXELS,
            })
        )
    );
    assert_eq!(
        fails(&|case| case.renders.expected_monitor[0] = 9),
        (1, ParityFailure::ReferenceMonitor(MonitorFailure::OutsideChanged(0)))
    );
    assert_eq!(
        fails(&|case| case.renders.actual_linear[0] = 9),
        (
            1,
            ParityFailure::RendererContainment(ContainmentFailure::OutsideChanged {
                changed_pixels: 1,
                pixels: CENTRED_WINDOW_OUTSIDE_PIXELS,
            })
        )
    );
}

#[test]
fn divergence_is_taken_at_sector_boundaries_alone() {
    let mut differences = vec![0_u32; CC5_RASTER_SAMPLES];
    differences[0] = 5.0_f32.to_bits();
    assert_eq!(sector_divergence(&differences), 0);
    differences[3 * 16] = 0.5_f32.to_bits();
    differences[3 * 17 + 2] = 0.75_f32.to_bits();
    differences[3 * 18] = f32::INFINITY.to_bits();
    differences[3 * 19] = f32::NAN.to_bits();
    assert_eq!(f32::from_bits(sector_divergence(&differences)), 0.75);
}

#[test]
fn a_canonical_stack_matches_and_its_control_does_not() {
    let measured = CanonicalParity {
        in_gamut_samples: 1,
        non_finite: 0,
        linear_within: true,
        control_max: 0.02_f32.to_bits(),
        repeat_non_finite: 0,
        repeat_in_gamut_max: 0,
        repeat_over_range_max: 0,
        repeat_compared: 10,
        repeat_above_domain: 2,
    };
    let limit = 0.01_f32.to_bits();
    let check = |measured: CanonicalParity| assert_cc7_canonical_parity(&measured, limit, (2, 2));
    assert_eq!(check(measured), Ok(()));
    assert_eq!(
        check(CanonicalParity { in_gamut_samples: 0, ..measured }),
        Err(CanonicalFailure::NothingInGamut)
    );
    assert_eq!(check(CanonicalParity { non_finite: 1, ..measured }), Err(CanonicalFailure::NonFinite));
    assert_eq!(
        check(CanonicalParity { linear_within: false, ..measured }),
        Err(CanonicalFailure::Linear)
    );
    assert_eq!(
        check(CanonicalParity { control_max: f32::NAN.to_bits(), ..measured }),
        Err(CanonicalFailure::ControlPasses)
    );
    assert_eq!(
        check(CanonicalParity { control_max: f32::INFINITY.to_bits(), ..measured }),
        Ok(())
    );
    assert_eq!(
        check(CanonicalParity { control_max: limit, ..measured }),
        Err(CanonicalFailure::ControlPasses)
    );
    assert_eq!(
        check(CanonicalParity { repeat_non_finite: 1, ..measured }),
        Err(CanonicalFailure::RepeatNonFinite)
    );
    assert_eq!(
        check(CanonicalParity { repeat_in_gamut_max: 1, ..measured }),
        Err(CanonicalFailure::RepeatDiffers)
    );
    assert_eq!(
        check(CanonicalParity { repeat_over_range_max: 1, ..measured }),
        Err(CanonicalFailure::RepeatDiffersOverRange)
    );
    assert_eq!(
        check(CanonicalParity { repeat_compared: 11, ..measured }),
        Err(CanonicalFailure::SamplesMissing)
    );
}

#[test]
fn a_matte_case_passes_or_names_its_failure() {
    let renders = || MatteRenders {
        covered: hand_derived_centred_window(),
        expected_linear: linear(true),
        baseline_linear: linear(false),
        actual_coverage: vec![3; CC5_RASTER_PIXELS],
        expected_coverage: vec![3; CC5_RASTER_PIXELS],
        hard_edged: true,
        actual_linear: linear(true),
        actual_baseline: linear(false),
    };
    assert_eq!(assert_matte_case(&renders(), 576, 9_000), Ok(()));
    assert_eq!(
        assert_matte_case(&renders(), 575, 9_000),
        Err(MatteCaseFailure::CoversOther { covered: 576 })
    );
    let mut case = renders();
    case.actual_coverage[9] = 4;
    assert_eq!(
        assert_matte_case(&case, 576, 9_000),
        Err(MatteCaseFailure::Coverage(CoverageMismatch {
            first: 9,
            pixel: 9,
            codes: 1,
            divergent: 1,
        }))
    );
    case.hard_edged = false;
    assert_eq!(assert_matte_case(&case, 576, 9_000), Ok(()));
    let mut case = renders();
    let first = 4 * raster_index((16, 9));
    for sample in &mut case.expected_linear[first..first + 3] {
        *sample = 1;
    }
    assert_eq!(
        assert_matte_case(&case, 576, 9_000),
        Err(MatteCaseFailure::ChangesOther { changed: 575 })
    );
    let mut case = renders();
    case.expected_linear = linear(false);
    assert_eq!(
        assert_matte_case(&case, 576, 9_000),
        Err(MatteCaseFailure::ReferenceContainment(ContainmentFailure::InsideUnchanged {
            changed_samples: 0,
            samples: 3 * 576,
        }))
    );
    let mut case = renders();
    case.actual_linear = linear(false);
    assert_eq!(
        assert_matte_case(&case, 576, 9_000),
        Err(MatteCaseFailure::RendererContainment(ContainmentFailure::InsideUnchanged {
            changed_samples: 0,
            samples: 3 * 576,
        }))
    );
}
