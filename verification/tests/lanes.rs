use kinewright_media::delivery::{
    assert_delivery_budgets_are_distinct, margin, CodeDifference, ColorBitDepth, ColorDescription,
    ColorProvenance, ColorRange, ColorTag, ColorWhitePoint, DecodedYCbCr, DeliveryBudgets,
    DeliveryComparison, DeliveryEncodeDepth, DeliveryException, DeliveryVerification,
    LaneContract, LaneMeasurement, Margin, MonitorTolerances, PlaneLegalExcursion, QaSeverity,
    TagReport, YCbCrLegalSource,
};
use kinewright_media::delivery_lane::{
    assert_encoded_delivery_lane, LaneFailure, LaneTerm, Plane,
};
use kinewright_media::performance::{
    assert_cc6_performance_evidence, carries_the_declared_fields, record_cc5_performance,
    Cc5PerformanceRun, Cc6PerformanceFailure, Cc6PerformanceRun, PERFORMANCE_EVIDENCE_FIELDS,
};
use kinewright_media::preconditions::{
    assert_libx264_advertises_the_ten_bit_lane, assert_per_frame_full_resolution_reference,
    assert_the_delivery_grade_clips, ChannelOverRange, DeliveryReference, GradeFailure,
    GradeReport, ReferenceFailure,
};
use kinewright_media::starved::{assert_starved_bitrate_direction, StarvedFailure};

fn budgets() -> DeliveryBudgets {
    DeliveryBudgets {
        luma_max_code: 8,
        luma_p99_code_millionths: 2_000_000,
        luma_mean_code_millionths: 400_000,
        rgb_mean_code_millionths: 1_500_000,
        psnr_floor_db_hundredths: 3_300,
    }
}

fn contract() -> LaneContract {
    LaneContract {
        pixel_format: "yuv420p".to_owned(),
        budgets: budgets(),
        rgb_extremes_note: "dominated by 4:2:0 chroma decimation".to_owned(),
        ebu_tolerance_codes: 11,
        range_exception_basis_points: 100,
        monitor: MonitorTolerances {
            max_code: 2,
            p99_code_millionths: 1_000_000,
            mean_code_millionths: 250_000,
        },
    }
}

fn plane(below: u64, samples: u64) -> PlaneLegalExcursion {
    PlaneLegalExcursion {
        minimum_code_hundredths: 1_500,
        maximum_code_hundredths: 23_600,
        below_count: below,
        above_count: 0,
        below_basis_points: (below * 10_000 / samples) as u32,
        above_basis_points: 0,
    }
}

fn lane() -> LaneMeasurement {
    LaneMeasurement {
        depth: DeliveryEncodeDepth::Eight,
        output: "out.mp4".to_owned(),
        verification: DeliveryVerification {
            delivery_bit_depth: DeliveryEncodeDepth::Eight,
            output_path: "out.mp4".to_owned(),
            decoded_pixel_format: "yuv420p".to_owned(),
            probed: ColorDescription {
                primaries: ColorTag::Bt709,
                transfer: ColorTag::Bt709,
                matrix: ColorTag::Bt709,
                range: ColorRange::Limited,
                bit_depth: ColorBitDepth::Eight,
                white_point: ColorWhitePoint::Unknown,
                provenance: ColorProvenance::StreamMetadata,
                confidence_basis_points: 10_000,
            },
            tags: TagReport {
                tag_source: "probed_output_file".to_owned(),
                conforming: true,
                mismatches: Vec::new(),
                not_representable: vec!["white_point".to_owned()],
            },
            comparison: DeliveryComparison {
                frames: vec![0, 14, 29, 44, 59],
                luma: CodeDifference {
                    maximum_code_diff: 4,
                    p99_code_diff_millionths: 1_000_000,
                    mean_code_diff_millionths: 100_000,
                },
                combined: CodeDifference {
                    maximum_code_diff: 90,
                    p99_code_diff_millionths: 20_000_000,
                    mean_code_diff_millionths: 744_000,
                },
                rgb_extremes_note: "dominated by 4:2:0 chroma decimation".to_owned(),
                decoded_ycbcr: DecodedYCbCr {
                    source: YCbCrLegalSource::DecodedNativePlanes,
                    bit_depth: 8,
                    luma: plane(100, 288_000),
                    cb: plane(10, 72_000),
                    cr: plane(0, 72_000),
                },
                budgets: budgets(),
                psnr_db_hundredths: Some(3_800),
                within_budgets: true,
            },
            exceptions: Vec::new(),
            technical_pass: true,
        },
    }
}

fn exception(code: &str, severity: QaSeverity, field: Option<&str>) -> DeliveryException {
    DeliveryException {
        code: code.to_owned(),
        severity,
        field: field.map(str::to_owned),
        observed: Some("1".to_owned()),
        allowed: Some("0".to_owned()),
        message: "a budget never moves the file".to_owned(),
    }
}

fn lane_failure(change: &dyn Fn(&mut LaneMeasurement)) -> LaneFailure {
    let mut lane = lane();
    change(&mut lane);
    assert_encoded_delivery_lane(&lane, &contract()).expect_err("a failure")
}

#[test]
fn a_lane_inside_its_budgets_gives_its_margins() {
    let margins = assert_encoded_delivery_lane(&lane(), &contract()).expect("a passing lane");
    assert_eq!(margins.luma_max, Margin::Ratio { allowed: 8, observed: 4 });
    assert_eq!(margins.luma_p99, margin(1_000_000, 2_000_000));
    assert_eq!(margins.luma_mean, margin(100_000, 400_000));
    assert_eq!(margins.rgb_mean, margin(744_000, 1_500_000));
    assert_eq!(margins.psnr_headroom_hundredths, 500);
}

#[test]
fn a_lane_fails_on_its_tags() {
    assert_eq!(
        lane_failure(&|l| l.verification.delivery_bit_depth = DeliveryEncodeDepth::Ten),
        LaneFailure::DepthDiffers
    );
    assert_eq!(lane_failure(&|l| l.output = "other".to_owned()), LaneFailure::OutputDiffers);
    assert_eq!(
        lane_failure(&|l| l.verification.decoded_pixel_format = "yuv444p".to_owned()),
        LaneFailure::PixelFormatDiffers
    );
    assert_eq!(
        lane_failure(&|l| l.verification.probed.primaries = ColorTag::Unknown),
        LaneFailure::PrimariesDiffer
    );
    assert_eq!(lane_failure(&|l| l.verification.probed.transfer = ColorTag::Other), LaneFailure::TransferDiffers);
    assert_eq!(lane_failure(&|l| l.verification.probed.matrix = ColorTag::Other), LaneFailure::MatrixDiffers);
    assert_eq!(lane_failure(&|l| l.verification.probed.range = ColorRange::Full), LaneFailure::RangeDiffers);
    assert_eq!(
        lane_failure(&|l| l.verification.probed.bit_depth = ColorBitDepth::Ten),
        LaneFailure::TaggedDepthDiffers
    );
    assert_eq!(
        lane_failure(&|l| l.verification.probed.provenance = ColorProvenance::Other),
        LaneFailure::ProvenanceDiffers
    );
    assert_eq!(
        lane_failure(&|l| l.verification.probed.confidence_basis_points = 9_999),
        LaneFailure::ConfidenceDiffers
    );
    assert_eq!(
        lane_failure(&|l| l.verification.tags.tag_source = "request".to_owned()),
        LaneFailure::TagSourceDiffers
    );
    assert_eq!(lane_failure(&|l| l.verification.tags.conforming = false), LaneFailure::TagsDoNotConform);
    assert_eq!(
        lane_failure(&|l| l.verification.tags.mismatches.push("range".to_owned())),
        LaneFailure::TagsMismatch
    );
    assert_eq!(
        lane_failure(&|l| l.verification.tags.not_representable.clear()),
        LaneFailure::NotRepresentableCount
    );
    assert_eq!(
        lane_failure(&|l| l.verification.tags.not_representable[0] = "range".to_owned()),
        LaneFailure::NotRepresentableField
    );
    assert_eq!(
        lane_failure(&|l| l.verification.probed.white_point = ColorWhitePoint::Known),
        LaneFailure::WhitePointKnown
    );
}

#[test]
fn a_lane_fails_on_its_samples_and_extremes() {
    assert_eq!(
        lane_failure(&|l| l.verification.comparison.frames[2] = 30),
        LaneFailure::FramesDiffer
    );
    assert_eq!(
        lane_failure(&|l| l.verification.comparison.rgb_extremes_note = "4:2:0".to_owned()),
        LaneFailure::ExtremesNoteDiffers
    );
    let mut silent = contract();
    silent.rgb_extremes_note = "chroma".to_owned();
    let mut quiet = lane();
    quiet.verification.comparison.rgb_extremes_note = "chroma".to_owned();
    assert_eq!(
        assert_encoded_delivery_lane(&quiet, &silent),
        Err(LaneFailure::ExtremesNoteIncomplete)
    );
    assert_eq!(
        lane_failure(&|l| l.verification.comparison.combined.maximum_code_diff = 8),
        LaneFailure::ExtremesInsideBudget
    );
    for field in ["combined.maximum_code_diff", "combined.p99_code_diff_millionths"] {
        assert_eq!(
            lane_failure(&|l| l
                .verification
                .exceptions
                .push(exception("any", QaSeverity::Info, Some(field)))),
            LaneFailure::ExtremesRaised
        );
    }
}

#[test]
fn a_lane_fails_on_its_planes() {
    assert_eq!(
        lane_failure(&|l| l.verification.comparison.decoded_ycbcr.source = YCbCrLegalSource::Other),
        LaneFailure::PlanesNotNative
    );
    assert_eq!(
        lane_failure(&|l| l.verification.comparison.decoded_ycbcr.bit_depth = 10),
        LaneFailure::PlanesDepthDiffers
    );
    assert_eq!(
        lane_failure(&|l| l.verification.comparison.decoded_ycbcr.luma.minimum_code_hundredths = 499),
        LaneFailure::MinimumOutsideBox { plane: Plane::Luma }
    );
    assert_eq!(
        lane_failure(&|l| l.verification.comparison.decoded_ycbcr.cb.maximum_code_hundredths = 25_101),
        LaneFailure::MaximumOutsideBox { plane: Plane::Cb }
    );
    assert_eq!(
        lane_failure(&|l| l.verification.comparison.decoded_ycbcr.cr.below_basis_points = 1),
        LaneFailure::BelowRateDiffers { plane: Plane::Cr }
    );
    assert_eq!(
        lane_failure(&|l| l.verification.comparison.decoded_ycbcr.cr.above_basis_points = 1),
        LaneFailure::AboveRateDiffers { plane: Plane::Cr }
    );
    let over = |l: &mut LaneMeasurement| {
        l.verification.comparison.decoded_ycbcr.cb = plane(800, 72_000);
    };
    assert_eq!(
        lane_failure(&over),
        LaneFailure::ExcursionNotReported { plane: Plane::Cb }
    );
    let report = |severity| {
        exception("decoded_range_excursion", severity, Some("decoded_ycbcr.cb"))
    };
    assert_eq!(
        lane_failure(&|l| {
            over(l);
            l.verification.exceptions.push(report(QaSeverity::Error));
        }),
        LaneFailure::ExcursionSeverity { plane: Plane::Cb }
    );
    assert_eq!(
        lane_failure(&|l| {
            over(l);
            let mut silent = report(QaSeverity::Warning);
            silent.observed = None;
            l.verification.exceptions.push(silent);
        }),
        LaneFailure::ExcursionWithoutObserved { plane: Plane::Cb }
    );
    assert_eq!(
        lane_failure(&|l| {
            over(l);
            let mut silent = report(QaSeverity::Warning);
            silent.allowed = None;
            l.verification.exceptions.push(silent);
        }),
        LaneFailure::ExcursionWithoutAllowed { plane: Plane::Cb }
    );
    assert_eq!(
        lane_failure(&|l| l.verification.exceptions.push(report(QaSeverity::Warning))),
        LaneFailure::ExcursionReported { plane: Plane::Cb }
    );
    let mut reported = lane();
    over(&mut reported);
    reported.verification.exceptions.push(report(QaSeverity::Warning));
    assert!(assert_encoded_delivery_lane(&reported, &contract()).is_ok());
    // Just at the threshold is not over it.
    let mut at = lane();
    at.verification.comparison.decoded_ycbcr.cb = plane(720, 72_000);
    assert!(assert_encoded_delivery_lane(&at, &contract()).is_ok());
    assert_eq!(
        lane_failure(&|l| {
            l.verification.comparison.decoded_ycbcr.luma = plane(8_000, 288_000);
            l.verification.comparison.decoded_ycbcr.cb = plane(800, 72_000);
            l.verification.comparison.decoded_ycbcr.cr = plane(800, 72_000);
            for field in ["decoded_ycbcr.luma", "decoded_ycbcr.cb", "decoded_ycbcr.cr"] {
                l.verification.exceptions.push(exception(
                    "decoded_range_excursion",
                    QaSeverity::Warning,
                    Some(field),
                ));
            }
        }),
        LaneFailure::EveryPlaneOverThreshold
    );
}

#[test]
fn a_lane_fails_on_its_differences() {
    assert_eq!(
        lane_failure(&|l| l.verification.comparison.combined.mean_code_diff_millionths = 0),
        LaneFailure::CodecNotExercised
    );
    assert_eq!(
        lane_failure(&|l| l.verification.comparison.luma.maximum_code_diff = 0),
        LaneFailure::LumaNotExercised
    );
    assert_eq!(
        lane_failure(&|l| l.verification.comparison.budgets.luma_p99_code_millionths = 1),
        LaneFailure::BudgetsDiffer
    );
    assert_eq!(
        lane_failure(&|l| l.verification.comparison.psnr_db_hundredths = None),
        LaneFailure::PsnrMissing
    );
    assert_eq!(
        lane_failure(&|l| l.verification.comparison.luma.maximum_code_diff = 5),
        LaneFailure::MarginTooSmall { term: LaneTerm::LumaMax }
    );
    assert_eq!(
        lane_failure(&|l| l.verification.comparison.luma.p99_code_diff_millionths = 1_000_001),
        LaneFailure::MarginTooSmall { term: LaneTerm::LumaP99 }
    );
    assert_eq!(
        lane_failure(&|l| l.verification.comparison.luma.mean_code_diff_millionths = 200_001),
        LaneFailure::MarginTooSmall { term: LaneTerm::LumaMean }
    );
    assert_eq!(
        lane_failure(&|l| l.verification.comparison.combined.mean_code_diff_millionths = 750_001),
        LaneFailure::MarginTooSmall { term: LaneTerm::RgbMean }
    );
    assert_eq!(
        lane_failure(&|l| l.verification.comparison.psnr_db_hundredths = Some(3_300)),
        LaneFailure::PsnrUnderFloor
    );
    assert_eq!(
        lane_failure(&|l| l.verification.comparison.within_budgets = false),
        LaneFailure::NotWithinBudgets
    );
    assert_eq!(
        lane_failure(&|l| l.verification.technical_pass = false),
        LaneFailure::TechnicalFailure
    );
    assert_eq!(
        lane_failure(&|l| l.verification.exceptions.push(exception("x", QaSeverity::Error, None))),
        LaneFailure::ErrorRaised
    );
    // A budget below zero can only be met by nothing at all, and is not.
    let mut negative = contract();
    negative.budgets.luma_p99_code_millionths = -1;
    let mut none = lane();
    none.verification.comparison.budgets.luma_p99_code_millionths = -1;
    none.verification.comparison.luma.p99_code_diff_millionths = 0;
    assert_eq!(
        assert_encoded_delivery_lane(&none, &negative),
        Err(LaneFailure::OverBudget { term: LaneTerm::LumaP99 })
    );
    let mut same = contract();
    same.monitor.mean_code_millionths = 400_000;
    assert_eq!(
        assert_encoded_delivery_lane(&lane(), &same),
        Err(LaneFailure::BudgetsNotDistinct { index: 2 })
    );
}

#[test]
fn a_margin_is_a_ratio_or_infinite() {
    assert_eq!(margin(0, 5), Margin::Infinite);
    assert!(margin(0, 5).at_least_double());
    assert!(margin(2, 4).at_least_double());
    assert!(!margin(2, 3).at_least_double());
    assert!(margin(-1, -2).at_least_double());
    assert!(!margin(-1, 2).at_least_double());
    assert!(!margin(i64::MAX, i64::MAX).at_least_double());
}

#[test]
fn budgets_are_no_tolerance_of_the_monitor() {
    let contract = contract();
    let mut monitor = contract.monitor;
    assert_eq!(assert_delivery_budgets_are_distinct(&contract.budgets, &monitor), Ok(()));
    monitor.p99_code_millionths = 2_000_000;
    assert_eq!(assert_delivery_budgets_are_distinct(&contract.budgets, &monitor), Err(1));
    monitor.max_code = 8;
    assert_eq!(assert_delivery_budgets_are_distinct(&contract.budgets, &monitor), Err(0));
}

fn starved_lane() -> LaneMeasurement {
    let mut lane = lane();
    lane.verification.comparison.within_budgets = false;
    lane.verification.technical_pass = false;
    for field in [
        "luma.maximum_code_diff",
        "luma.mean_code_diff_millionths",
        "luma.p99_code_diff_millionths",
    ] {
        lane.verification.exceptions.push(exception(
            "decoded_difference_over_budget",
            QaSeverity::Error,
            Some(field),
        ));
    }
    lane.verification.exceptions.push(exception("other", QaSeverity::Info, None));
    lane
}

#[test]
fn a_starved_lane_trips_its_budgets() {
    let tripped = assert_starved_bitrate_direction(
        &starved_lane(),
        &contract(),
        true,
        ColorBitDepth::Eight,
    )
    .expect("the starved direction");
    assert_eq!(
        tripped,
        vec![
            "luma.maximum_code_diff".to_owned(),
            "luma.mean_code_diff_millionths".to_owned(),
            "luma.p99_code_diff_millionths".to_owned(),
        ]
    );
    let fails = |change: &dyn Fn(&mut LaneMeasurement)| {
        let mut lane = starved_lane();
        change(&mut lane);
        assert_starved_bitrate_direction(&lane, &contract(), true, ColorBitDepth::Eight)
            .expect_err("a failure")
    };
    assert_eq!(
        fails(&|l| l.verification.delivery_bit_depth = DeliveryEncodeDepth::Ten),
        StarvedFailure::DepthDiffers
    );
    assert_eq!(
        fails(&|l| l.verification.decoded_pixel_format.push('x')),
        StarvedFailure::PixelFormatDiffers
    );
    assert_eq!(
        fails(&|l| l.verification.comparison.within_budgets = true),
        StarvedFailure::WithinBudgets
    );
    assert_eq!(
        fails(&|l| l.verification.exceptions[1].severity = QaSeverity::Warning),
        StarvedFailure::NotAnError { index: 1 }
    );
    assert_eq!(
        fails(&|l| l.verification.exceptions[2].field = None),
        StarvedFailure::NamesNoField { index: 2 }
    );
    assert_eq!(
        fails(&|l| l.verification.exceptions[0].field = Some("red".to_owned())),
        StarvedFailure::UnexpectedField { index: 0 }
    );
    assert_eq!(
        fails(&|l| l.verification.exceptions[0].observed = None),
        StarvedFailure::WithoutObserved { index: 0 }
    );
    assert_eq!(
        fails(&|l| l.verification.exceptions[0].allowed = None),
        StarvedFailure::WithoutAllowed { index: 0 }
    );
    assert_eq!(
        fails(&|l| l.verification.exceptions[0].message = "over".to_owned()),
        StarvedFailure::MessageIncomplete { index: 0 }
    );
    assert_eq!(
        fails(&|l| l.verification.exceptions.clear()),
        StarvedFailure::NothingTripped
    );
    assert_eq!(
        fails(&|l| l.verification.technical_pass = true),
        StarvedFailure::TechnicalPass
    );
    assert_eq!(fails(&|l| l.output.push('x')), StarvedFailure::OutputMoved);
    assert_eq!(
        fails(&|l| l.verification.tags.conforming = false),
        StarvedFailure::TagsDoNotConform
    );
    assert_eq!(
        assert_starved_bitrate_direction(&starved_lane(), &contract(), false, ColorBitDepth::Eight),
        Err(StarvedFailure::OutputMissing)
    );
    assert_eq!(
        assert_starved_bitrate_direction(&starved_lane(), &contract(), true, ColorBitDepth::Ten),
        Err(StarvedFailure::TaggedDepthDiffers)
    );
    // Neither lane passes in the other direction.
    assert!(assert_encoded_delivery_lane(&starved_lane(), &contract()).is_err());
    assert_eq!(
        assert_starved_bitrate_direction(&lane(), &contract(), true, ColorBitDepth::Eight),
        Err(StarvedFailure::WithinBudgets)
    );
}

#[test]
fn an_encoder_must_advertise_ten_bits() {
    let formats = vec!["YUV420P".to_owned(), "YUV420P10LE".to_owned()];
    assert!(assert_libx264_advertises_the_ten_bit_lane(&formats, "yuv420p10le").is_ok());
    let error = assert_libx264_advertises_the_ten_bit_lane(
        &["YUV420P".to_owned(), "NV12".to_owned()],
        "yuv420p10le",
    )
    .expect_err("no ten bits");
    assert_eq!(error.observed, "YUV420P NV12");
    assert_eq!(error.allowed, "yuv420p10le");
    let error = assert_libx264_advertises_the_ten_bit_lane(&[], "yuv420p10le").expect_err("none");
    assert_eq!(error.observed, "no advertised pixel formats");
}

#[test]
fn a_reference_is_full_or_named() {
    let full = DeliveryReference { size: (4, 2), full_resolution: true, bytes: 64 };
    assert_eq!(assert_per_frame_full_resolution_reference(&[full, full], (4, 2)), Ok(()));
    let fails = |reference| assert_per_frame_full_resolution_reference(&[full, reference], (4, 2));
    assert_eq!(
        fails(DeliveryReference { size: (2, 4), ..full }),
        Err((1, ReferenceFailure::SizeDiffers))
    );
    assert_eq!(
        fails(DeliveryReference { full_resolution: false, ..full }),
        Err((1, ReferenceFailure::NotFullResolution))
    );
    assert_eq!(
        fails(DeliveryReference { bytes: 63, ..full }),
        Err((1, ReferenceFailure::BytesDiffer))
    );
}

#[test]
fn a_grade_must_clip_everywhere() {
    let over = ChannelOverRange { over_basis_points: 5, maximum_over_excursion_millionths: 7 };
    let report = || GradeReport {
        full_resolution: true,
        clamped_basis_points: 1,
        out_of_gamut_basis_points: 1,
        red: over,
        green: over,
        blue: over,
        below_black_pixel_count: 1,
        gamut_definition: "under range".to_owned(),
    };
    assert_eq!(assert_the_delivery_grade_clips(&report(), "under range"), Ok(()));
    let fails = |change: &dyn Fn(&mut GradeReport)| {
        let mut report = report();
        change(&mut report);
        assert_the_delivery_grade_clips(&report, "under range").expect_err("a failure")
    };
    assert_eq!(fails(&|r| r.full_resolution = false), GradeFailure::NotFullResolution);
    assert_eq!(fails(&|r| r.clamped_basis_points = 0), GradeFailure::NothingClamped);
    assert_eq!(fails(&|r| r.out_of_gamut_basis_points = 0), GradeFailure::NothingOutOfGamut);
    assert_eq!(
        fails(&|r| r.green.over_basis_points = 0),
        GradeFailure::NothingOver { channel: 1 }
    );
    assert_eq!(
        fails(&|r| r.blue.maximum_over_excursion_millionths = 0),
        GradeFailure::NoExcursion { channel: 2 }
    );
    assert_eq!(fails(&|r| r.below_black_pixel_count = 0), GradeFailure::NothingBelowBlack);
    assert_eq!(fails(&|r| r.gamut_definition.clear()), GradeFailure::DefinitionDiffers);
}

#[test]
fn performance_records_the_least_times() {
    let record = record_cc5_performance(&Cc5PerformanceRun {
        samples: vec![50_000_000, 45_000_000, 61_000_000],
        empty_samples: vec![9_000_000, 5_000_000, 7_000_000],
        matte_free: 30_000_000,
    });
    assert_eq!(record.minimum, 45_000_000);
    assert_eq!(record.sum, 156_000_000);
    assert_eq!(record.empty, 5_000_000);
    assert_eq!(record.node_stack, 40_000_000);
    assert_eq!(record.matte_free, 30_000_000);
    assert!(!record.soft_budget_met);
    assert!(record.soft_budget_met_by_node_stack);
    let mut names: Vec<String> = PERFORMANCE_EVIDENCE_FIELDS.map(str::to_owned).to_vec();
    names.reverse();
    assert!(carries_the_declared_fields(&names));
    names.push("other".to_owned());
    assert!(!carries_the_declared_fields(&names));
    assert!(!carries_the_declared_fields(&names[1..13]));
}

#[test]
fn a_timed_delivery_is_evidence_or_named() {
    let run = Cc6PerformanceRun {
        proof_size: (1_920, 1_080),
        proof_full_resolution: true,
        report_full_resolution: true,
        report_raster: (1_920, 1_080),
        skin_reported: true,
        tags_reported: true,
        sampled: 5,
        compared: 5,
        proof: 10,
        report: 41_666_666,
        export: 0,
        verification: 1,
    };
    let size = (1_920, 1_080);
    let summary = assert_cc6_performance_evidence(&run, size).expect("evidence");
    assert_eq!(summary.proof_and_report, 41_666_676);
    assert!(summary.report_within_soft_budget);
    let slow = Cc6PerformanceRun { report: 41_666_667, ..run };
    assert!(!assert_cc6_performance_evidence(&slow, size)
        .expect("evidence")
        .report_within_soft_budget);
    let fails = |run| assert_cc6_performance_evidence(&run, size).expect_err("a failure");
    assert_eq!(fails(Cc6PerformanceRun { proof_size: (1, 1), ..run }), Cc6PerformanceFailure::ProofSizeDiffers);
    assert_eq!(
        fails(Cc6PerformanceRun { proof_full_resolution: false, ..run }),
        Cc6PerformanceFailure::ProofNotFullResolution
    );
    assert_eq!(
        fails(Cc6PerformanceRun { report_full_resolution: false, ..run }),
        Cc6PerformanceFailure::ReportNotFullResolution
    );
    assert_eq!(fails(Cc6PerformanceRun { report_raster: (1, 1), ..run }), Cc6PerformanceFailure::ReportRasterDiffers);
    assert_eq!(fails(Cc6PerformanceRun { skin_reported: false, ..run }), Cc6PerformanceFailure::SkinMissing);
    assert_eq!(fails(Cc6PerformanceRun { tags_reported: false, ..run }), Cc6PerformanceFailure::TagsMissing);
    assert_eq!(fails(Cc6PerformanceRun { sampled: 4, ..run }), Cc6PerformanceFailure::SampleCountDiffers);
    assert_eq!(fails(Cc6PerformanceRun { compared: 4, ..run }), Cc6PerformanceFailure::ComparedCountDiffers);
    assert_eq!(fails(Cc6PerformanceRun { proof: 0, ..run }), Cc6PerformanceFailure::ProofTookNoTime);
    assert_eq!(fails(Cc6PerformanceRun { report: 0, ..run }), Cc6PerformanceFailure::ReportTookNoTime);
    assert_eq!(fails(Cc6PerformanceRun { verification: 0, ..run }), Cc6PerformanceFailure::VerificationTookNoTime);
}
