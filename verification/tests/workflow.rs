use kinewright_media::chart::{
    cc7_chart_band_luma_mean_codes, cc7_chart_luma_mean_delta_millionths, cc7_chart_neutral_spread,
    cc7_inset, cc7_measure_match, cc7_monitor_raster, cc7_patch_codes, cc7_rect_mean_codes,
    cc7_round, cc7_skin_row_chroma_spread, skin_row_spread_is_below, Cc7PixelRect, ProofFailure,
    RgbaImage,
};
use kinewright_media::delivery::{
    CodeDifference, ColorBitDepth, ColorDescription, ColorProvenance, ColorRange, ColorTag,
    ColorWhitePoint, DecodedYCbCr, DeliveryBudgets, DeliveryComparison, DeliveryEncodeDepth,
    DeliveryException, DeliveryVerification, LaneContract, MonitorTolerances, PlaneLegalExcursion,
    QaSeverity, TagReport, YCbCrLegalSource,
};
use kinewright_media::grade::{
    cc6_delivery_grade, cc7_canonical_effects, cc7_canonical_parameter_names, cc7_operation_with,
    cc7_primary_insert, effect_with, Cc7Operation,
};
use kinewright_media::log_inverse::{
    cc7_log_gate_patches, cc7_measure_log_inverse, cc7_worst_pixel_code_error, RowPatch,
};
use kinewright_media::manifest::{cc7_manifest, ManifestFailure};
use kinewright_media::proposal::{cc7_match_proposal, ControlBounds};
use kinewright_media::scene::{
    cc6_delivery_document, cc6_delivery_settings, cc7_camera_a_scene, cc7_plan_lattice,
    cc7_scenario_source_kinds, cc7_target_frame, cc7_two_clip_scene, AssetFailure, Cc7Camera, Cc7Scenario, Cc7Scene,
    Cc7SourceKind, DeliverySettings, PlanLattice, SceneAsset, SettingsFailure,
};
use kinewright_media::secondary::{
    assert_covers_exactly, assert_window_contains_the_square, cc7_containment_samples,
    cc7_measure_matte, cc7_range_attribution, cc7_required_half_extent_hundredths,
    cc7_window_half_extent_hundredths, ContainmentGap, MatteFailure, QcShares,
};
use kinewright_media::workflow_lane::{
    assert_cc7_delivery_lane, assert_cc7_every_scenario_verifies, samples_the_document,
    Cc7DeliveryMeasurement, ScenarioDelivery, ScenarioFailure, WorkflowFailure,
};

const BOUNDS: [ControlBounds; 3] = [
    ControlBounds { minimum: -5_000, maximum: 5_000 },
    ControlBounds { minimum: -100, maximum: 100 },
    ControlBounds { minimum: -100, maximum: 100 },
];

#[test]
fn a_proposal_clamps_and_leaves_out_what_is_zero() {
    let proposal = cc7_match_proposal(&[Some(250), Some(-163), Some(0)], &BOUNDS);
    let exposure = proposal.get("exposure_milli_stops").expect("exposure");
    assert!(!exposure.clamped);
    assert_eq!((exposure.delta, exposure.requested, exposure.value), (250, 250, 250));
    let temperature = proposal.get("temperature_percent").expect("temperature");
    assert!(temperature.clamped);
    assert_eq!((temperature.requested, temperature.value), (-163, -100));
    assert_eq!((temperature.minimum, temperature.maximum), (-100, 100));
    assert_eq!(proposal.get("tint_percent"), None);
    assert_eq!(proposal.value("temperature_percent"), Some(-100));
    assert_eq!(
        proposal.parameters(),
        vec![
            ("exposure_milli_stops".to_owned(), 250),
            ("temperature_percent".to_owned(), -100)
        ]
    );
    assert_eq!(cc7_match_proposal(&[None, None, Some(101)], &BOUNDS).controls.len(), 1);
}

/// A raster whose pixels are given by their place.
fn image(width: u32, height: u32, pixel: &dyn Fn(u32, u32) -> [u8; 3]) -> RgbaImage {
    let mut pixels = Vec::new();
    for y in 0..height {
        for x in 0..width {
            pixels.extend(pixel(x, y));
            pixels.push(255);
        }
    }
    RgbaImage { width, height, pixels }
}

fn rect(x: u32, y: u32, width: u32, height: u32) -> Cc7PixelRect {
    Cc7PixelRect { x, y, width, height }
}

#[test]
fn a_mean_is_taken_over_its_rectangle() {
    let raster = image(8, 8, &|x, y| [x as u8, y as u8, 10]);
    let mean = cc7_rect_mean_codes(&raster, rect(2, 3, 3, 2));
    assert_eq!(mean.count, 6);
    assert_eq!(mean.sums, [2 * (2 + 3 + 4), 3 * (3 + 4), 60]);
    assert_eq!(cc7_inset(rect(1, 1, 6, 6)), rect(3, 3, 2, 2));
    // The inner pixels alone count.
    let edged = image(6, 6, &|x, y| if (2..4).contains(&x) && (2..4).contains(&y) { [9, 8, 7] } else { [200; 3] });
    assert_eq!(cc7_patch_codes(&edged, rect(0, 0, 6, 6)), [9, 8, 7]);
}

#[test]
fn rounding_takes_a_half_away_from_zero() {
    assert_eq!(cc7_round(5, 2), 3);
    assert_eq!(cc7_round(-5, 2), -3);
    assert_eq!(cc7_round(7, 3), 2);
    assert_eq!(cc7_round(-7, 3), -2);
    assert_eq!(cc7_round(0, 9), 0);
    assert_eq!(cc7_round(i64::MIN, 1), i64::MIN);
    assert_eq!(cc7_round(i64::MAX, 1), i64::MAX);
}

#[test]
fn a_match_is_measured_on_both_sides() {
    let reference = image(12, 6, &|_, _| [100, 100, 100]);
    let candidate = image(12, 6, &|x, _| if x < 6 { [100, 96, 100] } else { [90, 96, 100] });
    let patches = [rect(0, 0, 6, 6), rect(6, 0, 6, 6)];
    assert_eq!(cc7_chart_neutral_spread(&reference, &patches), (0, 0));
    assert_eq!(cc7_chart_neutral_spread(&candidate, &patches), (6, 1));
    let band = rect(0, 0, 12, 6);
    assert_eq!(cc7_chart_band_luma_mean_codes(&reference, band), (1_000_000 * 72, 72));
    // Half the band loses ten codes of red and all of it four of green.
    let delta = -(5 * 212_600 + 4 * 715_200);
    assert_eq!(cc7_chart_luma_mean_delta_millionths(&reference, &candidate, band), delta);
    assert_eq!(cc7_chart_luma_mean_delta_millionths(&candidate, &reference, band), -delta);
    let measured = cc7_measure_match(&reference, &candidate, &reference, &patches, band);
    assert_eq!(measured.unmatched_spread, (6, 1));
    assert_eq!(measured.matched_spread, (0, 0));
    assert_eq!(measured.unmatched_luma_millionths, delta);
    assert_eq!(measured.matched_luma_millionths, 0);
    let spreads = cc7_skin_row_chroma_spread(&candidate, &[patches[1]; 4]);
    assert_eq!(spreads, vec![(40, 4); 4]);
    let neutral = cc7_skin_row_chroma_spread(&reference, &[patches[1]; 4]);
    assert!(skin_row_spread_is_below(&neutral, &spreads));
    assert!(!skin_row_spread_is_below(&spreads, &neutral));
    assert!(!skin_row_spread_is_below(&spreads, &spreads));
    // 1/2 + 1/3 is below 7/8, and 5/6 is not below itself.
    assert!(skin_row_spread_is_below(&[(1, 2), (1, 3)], &[(7, 8)]));
    assert!(!skin_row_spread_is_below(&[(1, 2), (1, 3)], &[(5, 6)]));
}

#[test]
fn a_monitor_raster_must_be_full() {
    let raster = || image(2, 2, &|_, _| [0; 3]);
    assert!(cc7_monitor_raster(raster(), true, (2, 2)).is_ok());
    assert_eq!(
        cc7_monitor_raster(raster(), false, (2, 2)).err(),
        Some(ProofFailure::NotFullResolution)
    );
    assert_eq!(
        cc7_monitor_raster(raster(), true, (2, 3)).err(),
        Some(ProofFailure::SizeDiffers)
    );
}

#[test]
fn an_inverse_is_measured_patch_by_patch() {
    let reference = image(30, 6, &|_, _| [50; 3]);
    let actual = image(30, 6, &|x, _| match x / 6 {
        0 => [52, 50, 50],
        1 => [50, 43, 50],
        2 => [50, 50, 59],
        3 => [50; 3],
        _ => [61, 50, 50],
    });
    let patch = |i: u32| rect(6 * i, 0, 6, 6);
    assert_eq!(cc7_worst_pixel_code_error(&actual, &reference, patch(1)), 7);
    let row: Vec<RowPatch> = ["skin_a", "skin_b", "skin_c", "skin_d", "product"]
        .iter()
        .enumerate()
        .map(|(i, name)| RowPatch { name: (*name).to_owned(), rect: patch(i as u32) })
        .collect();
    let chart = [patch(0), patch(3)];
    let gate = cc7_log_gate_patches(&chart, &row);
    let names: Vec<&str> = gate.iter().map(|(name, _)| name.as_str()).collect();
    assert_eq!(names, vec!["chart00", "chart01", "skin_a", "skin_b", "skin_c", "skin_d"]);
    let many = vec![patch(0); 12];
    assert_eq!(cc7_log_gate_patches(&many, &row)[11].0, "chart11");
    let measured = cc7_measure_log_inverse(&actual, &reference, &chart, &row, &[patch(4)]);
    assert_eq!(measured.gate_set_worst, 9);
    assert_eq!(measured.primaries_worst, 11);
    assert_eq!(measured.per_patch.get("chart00"), Some(2));
    assert_eq!(measured.per_patch.get("skin_b"), Some(7));
    assert_eq!(measured.per_patch.get("primary0"), Some(11));
    assert_eq!(measured.per_patch.get("product"), Some(11));
    assert_eq!(measured.per_patch.entries().len(), 8);
}

#[test]
fn a_matte_covers_exactly_its_patch() {
    let coverage: Vec<u8> = (0..12)
        .flat_map(|i| if i % 4 == 1 && i / 4 == 1 { [9, 0, 0, 255] } else { [0, 9, 9, 255] })
        .collect();
    let inside = cc7_measure_matte(true, 12, (4, 3), &coverage).expect("a matte");
    assert_eq!(inside.iter().filter(|covered| **covered).count(), 1);
    assert_eq!(assert_covers_exactly(&inside, 4, rect(1, 1, 1, 1)), Ok(()));
    assert_eq!(assert_covers_exactly(&inside, 4, rect(1, 1, 2, 1)), Err(6));
    assert_eq!(assert_covers_exactly(&inside, 4, rect(0, 0, 1, 1)), Err(0));
    assert_eq!(
        cc7_measure_matte(false, 12, (4, 3), &coverage),
        Err(MatteFailure::MatteDisabled)
    );
    assert_eq!(
        cc7_measure_matte(true, 11, (4, 3), &coverage),
        Err(MatteFailure::PixelsMissing)
    );
    let attribution = cc7_range_attribution(
        &QcShares { clamped_basis_points: 10, out_of_gamut_basis_points: 0 },
        &QcShares { clamped_basis_points: 3, out_of_gamut_basis_points: 5 },
    );
    assert_eq!((attribution.range_delta, attribution.gamut_delta), (7, -5));
}

#[test]
fn a_window_contains_a_square_but_where_it_lags() {
    assert_eq!(cc7_window_half_extent_hundredths(375, 320), 1_200);
    assert_eq!(cc7_window_half_extent_hundredths(667, 180), 1_201);
    assert_eq!(cc7_required_half_extent_hundredths(5_000, 5_000, 320, 24), 1_200);
    assert_eq!(cc7_required_half_extent_hundredths(5_000, 5_100, 320, 24), 1_520);
    assert_eq!(cc7_required_half_extent_hundredths(5_100, 5_000, 180, 24), 1_380);
    let samples = cc7_containment_samples(
        &[0, 10, 20],
        &[(5_000, 5_000), (5_000, 5_010), (5_000, 5_000)],
        &[(5_000, 5_000), (5_100, 5_000), (5_400, 5_000)],
        (320, 180),
        24,
    );
    assert_eq!(samples[1].required_half_width_hundredths, 1_520);
    assert_eq!(samples[1].required_half_height_hundredths, 1_218);
    let worst = assert_window_contains_the_square(&samples, 20, (1_800, 1_800)).expect("contained");
    assert_eq!(
        (worst.half_width_hundredths, worst.half_height_hundredths),
        (1_520, 1_218)
    );
    assert_eq!(
        assert_window_contains_the_square(&samples, 20, (1_200, 1_800)),
        Err(ContainmentGap::Width { index: 1 })
    );
    assert_eq!(
        assert_window_contains_the_square(&samples, 20, (1_800, 1_200)),
        Err(ContainmentGap::Height { index: 1 })
    );
    assert_eq!(
        assert_window_contains_the_square(&samples[..2], 20, (1_800, 1_800)),
        Err(ContainmentGap::ExcludedMissing)
    );
    assert_eq!(
        assert_window_contains_the_square(&samples, 20, (9_000, 1_800)),
        Err(ContainmentGap::ExcludedFits)
    );
}

fn asset(frames: i64) -> SceneAsset {
    SceneAsset {
        description: ColorDescription {
            primaries: ColorTag::Bt709,
            transfer: ColorTag::Bt709,
            matrix: ColorTag::Bt709,
            range: ColorRange::Limited,
            bit_depth: ColorBitDepth::Eight,
            white_point: ColorWhitePoint::Unknown,
            provenance: ColorProvenance::StreamMetadata,
            confidence_basis_points: 10_000,
        },
        resolution: Some((320, 180)),
        duration: frames,
    }
}

#[test]
fn a_scene_places_its_clips_one_behind_the_other() {
    let scene = Cc7Scene::over(&[asset(60), asset(50)], &[60, 50], (320, 180)).expect("a scene");
    assert_eq!(scene.duration, 110);
    assert_eq!((scene.clips[1].id, scene.clips[1].asset), (2, 2));
    assert_eq!((scene.clips[1].timeline_start, scene.clips[1].source_end), (60, 50));
    let fails = |change: &dyn Fn(&mut SceneAsset)| {
        let mut other = asset(50);
        change(&mut other);
        Cc7Scene::over(&[asset(60), other], &[60, 50], (320, 180)).map(|_| ()).expect_err("a failure")
    };
    assert_eq!(fails(&|a| a.description.primaries = ColorTag::Other), (1, AssetFailure::Primaries));
    assert_eq!(fails(&|a| a.description.transfer = ColorTag::Other), (1, AssetFailure::Transfer));
    assert_eq!(fails(&|a| a.description.matrix = ColorTag::Other), (1, AssetFailure::Matrix));
    assert_eq!(fails(&|a| a.description.range = ColorRange::Full), (1, AssetFailure::Range));
    assert_eq!(fails(&|a| a.description.bit_depth = ColorBitDepth::Ten), (1, AssetFailure::BitDepth));
    assert_eq!(fails(&|a| a.resolution = None), (1, AssetFailure::Resolution));
    assert_eq!(fails(&|a| a.duration = 51), (1, AssetFailure::Duration));
}

#[test]
fn scenarios_know_their_sources() {
    assert_eq!(
        cc7_scenario_source_kinds(Cc7Scenario::WhiteBalance),
        vec![Cc7SourceKind::Camera(Cc7Camera::A), Cc7SourceKind::Camera(Cc7Camera::C2)]
    );
    assert_eq!(cc7_scenario_source_kinds(Cc7Scenario::LogLike), vec![Cc7SourceKind::Log]);
    assert_eq!(cc7_scenario_source_kinds(Cc7Scenario::TrackedSecondary).len(), 1);
    assert_eq!(
        cc7_two_clip_scene(Cc7Camera::C1)[1],
        Cc7SourceKind::Camera(Cc7Camera::C1)
    );
    assert_eq!(cc7_target_frame(Cc7Scenario::MixedCamera, 60), 60);
    assert_eq!(cc7_target_frame(Cc7Scenario::CreativeLook, 60), 0);
    assert_eq!(cc7_plan_lattice(Cc7Scenario::LogLike), PlanLattice::LogInverse);
    assert_eq!(cc7_plan_lattice(Cc7Scenario::CreativeLook), PlanLattice::WarmLook);
    assert_eq!(cc7_plan_lattice(Cc7Scenario::MixedCamera), PlanLattice::Nothing);
}

#[test]
fn a_delivery_document_is_graded() {
    let effects = cc6_delivery_document(&asset(60), (320, 180), 60).expect("a document");
    assert_eq!(effects.len(), 2);
    assert_eq!(effects[0].parameters.get("gain_master_thousandths"), Some(1_800));
    assert_eq!(effects[0].parameters.get("matte_window0_shape_token"), Some(2));
    assert_eq!(effects[1].parameters.get("lift_master_basis_points"), Some(-1_600));
    assert_eq!(effects[1].parameters.get("matte_window0_center_x_basis_points"), Some(7_500));
    assert_eq!(cc6_delivery_grade()[1].parameters.entries().len(), 9);
    let mut other = asset(59);
    other.resolution = None;
    assert_eq!(
        cc6_delivery_document(&other, (320, 180), 60).map(|_| ()),
        Err(AssetFailure::Duration)
    );
    let document = DeliverySettings { resolution: (320, 180), fps: (25, 1) };
    assert!(cc6_delivery_settings(ColorBitDepth::Eight, &document, document).is_ok());
    let fails = |depth, settings| {
        cc6_delivery_settings(depth, &document, settings).map(|_| ()).expect_err("a failure")
    };
    assert_eq!(fails(ColorBitDepth::Ten, document), SettingsFailure::DeclaredDepth);
    assert_eq!(
        fails(ColorBitDepth::Eight, DeliverySettings { resolution: (1, 1), ..document }),
        SettingsFailure::Resolution
    );
    assert_eq!(
        fails(ColorBitDepth::Eight, DeliverySettings { fps: (24, 1), ..document }),
        SettingsFailure::FramesPerSecond
    );
}

fn operation(name: &str, parameters: &[(&str, i64)]) -> Cc7Operation {
    Cc7Operation {
        effect_name: name.to_owned(),
        parameters: parameters.iter().map(|(name, value)| ((*name).to_owned(), *value)).collect(),
    }
}

#[test]
fn nodes_are_built_from_their_parameters() {
    let effect = effect_with(3, "primary_correction", &[("b", 1), ("a", 2)]);
    assert_eq!((effect.id, effect.name.as_str()), (3, "primary_correction"));
    assert_eq!(effect.parameters.entries()[0], ("a".to_owned(), 2));
    let insert = cc7_primary_insert(2, &[("tint_percent".to_owned(), 4)]);
    assert_eq!((insert.clip, insert.index, insert.effect.id), (2, 0, 1));
    assert_eq!(insert.effect.name, "primary_correction");
    assert_eq!(insert.effect.parameters.get("tint_percent"), Some(4));
    let stack = [operation("one", &[("x", 1)]), operation("two", &[("y", 2)])];
    let effects = cc7_canonical_effects(&stack);
    assert_eq!((effects[1].id, effects[1].name.as_str()), (2, "two"));
    assert_eq!(effects[1].parameters.get("y"), Some(2));
    assert_eq!(
        cc7_canonical_parameter_names(&stack, &["centre"]),
        vec!["centre", "input_encoding_token", "mix_basis_points", "x", "y"]
    );
    let node = operation("node", &[("b", 1), ("a", 2)]);
    assert_eq!(
        cc7_operation_with(&node, &[("b", 9)]),
        Ok(vec![("a".to_owned(), 2), ("b".to_owned(), 9)])
    );
    assert_eq!(cc7_operation_with(&node, &[("b", 9), ("c", 1)]), Err(1));
}

fn contract() -> LaneContract {
    LaneContract {
        pixel_format: "yuv420p10le".to_owned(),
        budgets: DeliveryBudgets {
            luma_max_code: 16,
            luma_p99_code_millionths: 4_000_000,
            luma_mean_code_millionths: 800_000,
            rgb_mean_code_millionths: 1_000_000,
            psnr_floor_db_hundredths: 3_300,
        },
        rgb_extremes_note: String::new(),
        ebu_tolerance_codes: 11,
        range_exception_basis_points: 100,
        monitor: MonitorTolerances {
            max_code: 2,
            p99_code_millionths: 1,
            mean_code_millionths: 1,
        },
    }
}

fn measurement() -> Cc7DeliveryMeasurement {
    let plane = PlaneLegalExcursion {
        minimum_code_hundredths: 0,
        maximum_code_hundredths: 0,
        below_count: 0,
        above_count: 0,
        below_basis_points: 0,
        above_basis_points: 0,
    };
    Cc7DeliveryMeasurement {
        scenario: "mixed_camera".to_owned(),
        depth: DeliveryEncodeDepth::Ten,
        verification: DeliveryVerification {
            delivery_bit_depth: DeliveryEncodeDepth::Ten,
            output_path: "cc7.mp4".to_owned(),
            decoded_pixel_format: "yuv420p10le".to_owned(),
            probed: ColorDescription { bit_depth: ColorBitDepth::Ten, ..asset(0).description },
            tags: TagReport {
                tag_source: "probed_output_file".to_owned(),
                conforming: true,
                mismatches: Vec::new(),
                not_representable: vec!["white_point".to_owned()],
            },
            comparison: DeliveryComparison {
                frames: vec![0, 29, 59, 89, 119],
                luma: CodeDifference {
                    maximum_code_diff: 5,
                    p99_code_diff_millionths: 6,
                    mean_code_diff_millionths: 7,
                },
                combined: CodeDifference {
                    maximum_code_diff: 50,
                    p99_code_diff_millionths: 60,
                    mean_code_diff_millionths: 8,
                },
                rgb_extremes_note: String::new(),
                decoded_ycbcr: DecodedYCbCr {
                    source: YCbCrLegalSource::DecodedNativePlanes,
                    bit_depth: 10,
                    luma: plane,
                    cb: plane,
                    cr: plane,
                },
                budgets: contract().budgets,
                psnr_db_hundredths: Some(4_100),
                within_budgets: true,
            },
            exceptions: vec![DeliveryException {
                code: "delivery_tag_not_representable".to_owned(),
                severity: QaSeverity::Info,
                field: Some("white_point".to_owned()),
                observed: None,
                allowed: None,
                message: String::new(),
            }],
            technical_pass: true,
        },
    }
}

const MANIFEST: &str = "{\"budgets\": {\"delivery\": {\"mixed_camera\": {\"ten_bit\": {\
    \"luma_max_code\": {\"measured\": 5}, \
    \"luma_p99_code_millionths\": {\"measured\": 6}, \
    \"luma_mean_code_millionths\": {\"measured\": 7}, \
    \"rgb_mean_code_millionths\": {\"measured\": 8}, \
    \"psnr_db_hundredths\": {\"measured\": 4100}}}}}}";

fn check(measurement: &Cc7DeliveryMeasurement) -> Result<(), WorkflowFailure> {
    let manifest = cc7_manifest(MANIFEST).expect("JSON");
    let allowed = ["delivery_tag_not_representable".to_owned(), "note".to_owned()];
    assert_cc7_delivery_lane(measurement, "cc7.mp4", 120, &contract(), &allowed, &manifest)
}

#[test]
fn a_scenario_delivers_or_names_its_failure() {
    assert_eq!(check(&measurement()), Ok(()));
    let fails = |change: &dyn Fn(&mut Cc7DeliveryMeasurement)| {
        let mut other = measurement();
        change(&mut other);
        check(&other).expect_err("a failure")
    };
    assert_eq!(
        fails(&|m| m.verification.delivery_bit_depth = DeliveryEncodeDepth::Eight),
        WorkflowFailure::DepthDiffers
    );
    assert_eq!(
        fails(&|m| m.verification.output_path.push('x')),
        WorkflowFailure::OutputDiffers
    );
    assert_eq!(
        fails(&|m| m.verification.decoded_pixel_format.push('x')),
        WorkflowFailure::PixelFormatDiffers
    );
    assert_eq!(
        fails(&|m| m.verification.probed.primaries = ColorTag::Other),
        WorkflowFailure::PrimariesDiffer
    );
    assert_eq!(
        fails(&|m| m.verification.probed.transfer = ColorTag::Other),
        WorkflowFailure::TransferDiffers
    );
    assert_eq!(
        fails(&|m| m.verification.probed.matrix = ColorTag::Other),
        WorkflowFailure::MatrixDiffers
    );
    assert_eq!(
        fails(&|m| m.verification.probed.range = ColorRange::Full),
        WorkflowFailure::RangeDiffers
    );
    assert_eq!(
        fails(&|m| m.verification.probed.bit_depth = ColorBitDepth::Eight),
        WorkflowFailure::TaggedDepthDiffers
    );
    assert_eq!(
        fails(&|m| m.verification.tags.conforming = false),
        WorkflowFailure::TagsDoNotConform
    );
    assert_eq!(
        fails(&|m| m.verification.tags.mismatches.push(String::new())),
        WorkflowFailure::TagsMismatch
    );
    assert_eq!(
        fails(&|m| m.verification.comparison.frames.push(0)),
        WorkflowFailure::SampleCountDiffers
    );
    assert_eq!(
        fails(&|m| m.verification.comparison.frames = vec![0, 1, 2, 3, 4]),
        WorkflowFailure::FramesDiffer
    );
    assert_eq!(
        fails(&|m| m.verification.technical_pass = false),
        WorkflowFailure::TechnicalFailure
    );
    assert_eq!(
        fails(&|m| m.verification.comparison.within_budgets = false),
        WorkflowFailure::NotWithinBudgets
    );
    assert_eq!(
        fails(&|m| m.verification.exceptions[0].code.push('x')),
        WorkflowFailure::CodeNotAllowed { index: 0 }
    );
    assert_eq!(
        fails(&|m| m.verification.exceptions[0].severity = QaSeverity::Warning),
        WorkflowFailure::NotInfo { index: 0 }
    );
    assert_eq!(
        fails(&|m| m.verification.tags.not_representable.clear()),
        WorkflowFailure::NotRepresentableCount
    );
    assert_eq!(
        fails(&|m| m.verification.tags.not_representable[0].push('x')),
        WorkflowFailure::NotRepresentableField
    );
    assert_eq!(
        fails(&|m| m.verification.exceptions.clear()),
        WorkflowFailure::NotRepresentableExceptions
    );
    assert_eq!(
        fails(&|m| m.verification.comparison.combined.mean_code_diff_millionths = 0),
        WorkflowFailure::CodecNotExercised
    );
    assert_eq!(
        fails(&|m| m.verification.comparison.budgets.luma_max_code = 1),
        WorkflowFailure::BudgetsDiffer
    );
    assert_eq!(
        fails(&|m| m.verification.comparison.psnr_db_hundredths = None),
        WorkflowFailure::PsnrMissing
    );
    assert_eq!(
        fails(&|m| m.verification.comparison.luma.mean_code_diff_millionths = 9),
        WorkflowFailure::Manifest { term: 2, failure: ManifestFailure::Differs { declared: 7 } }
    );
    assert_eq!(
        fails(&|m| m.scenario = "log_like".to_owned()),
        WorkflowFailure::Manifest { term: 0, failure: ManifestFailure::NoInteger }
    );
}

#[test]
fn every_scenario_verifies_or_the_first_is_named() {
    let manifest = cc7_manifest(MANIFEST).expect("JSON");
    let allowed = ["delivery_tag_not_representable".to_owned()];
    let delivery = || ScenarioDelivery {
        duration: 120,
        output: "cc7.mp4".to_owned(),
        measurement: measurement(),
    };
    let verify = |deliveries: &[ScenarioDelivery]| {
        assert_cc7_every_scenario_verifies(deliveries, &contract(), &allowed, &manifest)
    };
    assert_eq!(verify(&[delivery(), delivery()]), Ok(()));
    let mut longer = delivery();
    longer.duration = 121;
    assert_eq!(
        verify(&[delivery(), longer]),
        Err(ScenarioFailure::FramesDiffer { index: 1 })
    );
    let mut moved = delivery();
    moved.output.push('x');
    assert_eq!(
        verify(&[delivery(), moved]),
        Err(ScenarioFailure::Delivery { index: 1, failure: WorkflowFailure::OutputDiffers })
    );
    assert!(samples_the_document(&[0, 14, 29, 44, 59], 60));
    assert!(!samples_the_document(&[0, 14, 29, 44], 60));
    assert!(!samples_the_document(&[0, 14, 29, 44, 58], 60));
}

#[test]
fn a_single_clip_scene_shows_camera_a() {
    assert_eq!(
        cc7_camera_a_scene(),
        vec![Cc7SourceKind::Camera(Cc7Camera::A)]
    );
    assert_eq!(
        cc7_camera_a_scene(),
        cc7_scenario_source_kinds(Cc7Scenario::CreativeLook)
    );
}
