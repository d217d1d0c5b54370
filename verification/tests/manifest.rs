use kinewright_media::manifest::{
    assert_manifest_i64, cc6_manifest, cc7_manifest, declared_equals, manifest_integer,
    ManifestFailure,
};
use kinewright_media::thresholds::{
    assert_cc7_thresholds, assert_manifest_thresholds, cc7_threshold_constants, Cc7Constants,
    ThresholdFailure,
};

#[test]
fn a_manifest_declares_integers_under_paths() {
    let manifest = cc7_manifest(
        "{\"a\": {\"b\": {\"c\": 7}, \"text\": \"7\"}, \"n\": -3, \"f\": 1.0, \"big\": 9223372036854775808, \"list\": [4]}",
    )
    .expect("JSON");
    assert_eq!(manifest_integer(&manifest, &["a", "b", "c"]), Some(7));
    assert_eq!(manifest_integer(&manifest, &["a", "b"]), None);
    assert_eq!(manifest_integer(&manifest, &["a", "text"]), None);
    assert_eq!(manifest_integer(&manifest, &["n"]), Some(-3));
    assert_eq!(manifest_integer(&manifest, &["f"]), None);
    assert_eq!(manifest_integer(&manifest, &["big"]), None);
    assert_eq!(manifest_integer(&manifest, &["list", "0"]), None);
    assert_eq!(manifest_integer(&manifest, &["missing", "b"]), None);
    assert_eq!(manifest_integer(&manifest["n"], &[]), Some(-3));
    assert_eq!(manifest_integer(&manifest, &[]), None);
}

#[test]
fn a_declared_integer_must_be_the_one_in_use() {
    let manifest = cc6_manifest("{\"limit\": 5, \"name\": \"five\"}").expect("JSON");
    assert_eq!(assert_manifest_i64(&manifest, "limit", 5), Ok(()));
    assert_eq!(
        assert_manifest_i64(&manifest, "limit", 6),
        Err(ManifestFailure::Differs { declared: 5 })
    );
    assert_eq!(assert_manifest_i64(&manifest, "name", 5), Err(ManifestFailure::NoInteger));
    assert_eq!(assert_manifest_i64(&manifest, "other", 5), Err(ManifestFailure::NoInteger));
    assert_eq!(cc6_manifest("{").err(), Some(ManifestFailure::NotJson));
    assert_eq!(cc6_manifest("{} {}").err(), Some(ManifestFailure::NotJson));
    assert_eq!(declared_equals(Some(1), 1), Ok(()));
    assert_eq!(declared_equals(None, 1), Err(ManifestFailure::NoInteger));
}

fn constants() -> Cc7Constants {
    Cc7Constants {
        match_neutral_spread_max_code: 1,
        b1_residual_spread_max_code: 2,
        match_luma_mean_max_code_millionths: 3,
        log_first_percentile_min_code16: 4,
        log_p99_max_code16: 5,
        log_inverse_max_code: 6,
        log_cube_size: 7,
        feather_partial_tolerance_pixels: 8,
        look_deep_shadow_out_of_gamut_pixels: 9,
        track_min_confidence_basis_points: 10,
        track_tolerance_basis_points: 11,
        track_range_end_local_frame: 12,
        track_f2_step_frames: 13,
        unrecoverable_residual_spread_reported_code: 14,
        c2_skin_in_band_reported_basis_points: 15,
        c2_over_range_pixels_reported: 16,
        c2_over_range_basis_points_reported: 17,
        warm_whole_raster_out_of_gamut_pixels_reported: 18,
        warm_whole_raster_out_of_gamut_basis_points: 19,
        log_black_patch_reported_code: 20,
        log_primary_reported_code: 21,
        log_identity_cube_reported_code: 22,
        log_cube_bytes_reported: 23,
        track_occluded_confidence_max_reported: 24,
        track_clean_confidence_min_reported: 25,
        track_occluded_confidence_on_the_recipe_reported: 26,
        track_f2_occluded_confidence_reported: 27,
        track_worst_raw_observation_error_basis_points_reported: 28,
        track_final_keyframe_lag_basis_points_reported: 29,
        track_no_reacquisition_drift_basis_points: 30,
        d2_continuous_area_wrong_model_pixels_tenths: 31,
        source_width: 32,
        source_height: 33,
        source_fps: 34,
        source_frames: 35,
        track_frames: 36,
        surround_code: 37,
        chart_patch_width: 38,
        row_patch_width: 39,
        chart_patch_pixels: 40,
        primary_patch_count: 41,
        chart_patch_count: 42,
        row_patch_pixels: 43,
        product_patch_pixel_count: 44,
        track_square_size: 45,
        track_step_frames: 46,
        track_search_radius_percent: 47,
        track_max_width: 48,
        track_occlusion_first_frame: 49,
        track_occlusion_last_frame: 50,
        track_centre_x_pixels: 51,
        track_amplitude_x_pixels: 52,
        track_centre_y_pixels: 53,
        track_amplitude_y_pixels: 54,
        track_lagging_final_keyframe: 55,
        track_seeded_window_half_width_basis_points: 56,
        track_seeded_window_half_height_basis_points: 57,
        track_window_half_width_basis_points: 58,
        track_window_half_height_basis_points: 59,
        track_containment_required_half_width_pixels_reported: 60,
        track_containment_required_half_height_pixels_reported: 61,
        track_containment_worst_margin_x_pixels_hundredths: 62,
        track_containment_worst_margin_y_pixels_hundredths: 63,
        track_confidence_separation_min_basis_points: 64,
        feather_basis_points: 65,
        secondary_saturation_percent: 66,
        look_mix_basis_points: 67,
        log_offset_stops: 68,
        log_span_stops: 69,
        log_floor_linear_millionths: 70,
        look_blue_zero_crossing_display709_millionths: 71,
        look_blue_zero_crossing_linear_millionths: 72,
        skin_in_band_exact_basis_points: 73,
        matte_outside_changed_pixels_max: 74,
        delivery_leg_budget_seconds_linux: 75,
        scope_sixteen_bit_scale: 76,
        log_first_percentile_min_code8_prose: 77,
        log_p99_max_code8_prose: 78,
        matte_sample_hue_width_centidegrees: 79,
        matte_sample_softness: 80,
        matte_sample_band_margin_basis_points: 81,
        product_sample_hue_median_centidegrees: 82,
        product_sample_saturation_basis_points: 83,
        product_sample_luma_basis_points: 84,
    }
}

#[test]
fn every_constant_has_a_name_of_its_own() {
    let list = cc7_threshold_constants(&constants());
    assert_eq!(list.len(), 84);
    let mut names: Vec<&str> = list.iter().map(|(name, _)| *name).collect();
    assert_eq!(names[0], "cc7_match_neutral_spread_max_code");
    assert_eq!(names[83], "cc7_product_sample_luma_basis_points");
    names.sort_unstable();
    names.dedup();
    assert_eq!(names.len(), 84);
    for (index, (_, value)) in list.iter().enumerate() {
        assert_eq!(*value, index as i64 + 1);
    }
}

#[test]
fn a_manifest_declares_every_constant() {
    let entries: Vec<String> = cc7_threshold_constants(&constants())
        .iter()
        .map(|(name, value)| format!("\"{name}\": {value}"))
        .collect();
    let text = format!("{{\"thresholds\": {{{}}}}}", entries.join(", "));
    assert_eq!(assert_cc7_thresholds(&text, &constants()), Ok(()));
    let mut other = constants();
    other.log_cube_size += 1;
    assert_eq!(
        assert_cc7_thresholds(&text, &other),
        Err(ThresholdFailure::Constant {
            index: 6,
            failure: ManifestFailure::Differs { declared: 7 }
        })
    );
    assert_eq!(
        assert_cc7_thresholds("{\"thresholds\": {}}", &constants()),
        Err(ThresholdFailure::Constant { index: 0, failure: ManifestFailure::NoInteger })
    );
    assert_eq!(
        assert_cc7_thresholds("thresholds", &constants()),
        Err(ThresholdFailure::NotJson)
    );
    let manifest = cc7_manifest(&text).expect("JSON");
    assert_eq!(
        assert_manifest_thresholds(&manifest, &[("cc7_source_fps", 0)]),
        Err(ThresholdFailure::Constant {
            index: 0,
            failure: ManifestFailure::Differs { declared: constants().source_fps }
        })
    );
}

/// A manifest whose thresholds are the constants and these members.
fn with_members(further: &str) -> String {
    let entries: Vec<String> = cc7_threshold_constants(&constants())
        .iter()
        .map(|(name, value)| format!("\"{name}\": {value}"))
        .collect();
    format!("{{\"thresholds\": {{{}{further}}}}}", entries.join(", "))
}

#[test]
fn the_thresholds_are_the_constants_and_nothing_else() {
    assert_eq!(assert_cc7_thresholds(&with_members(""), &constants()), Ok(()));
    assert_eq!(
        assert_cc7_thresholds(&with_members(", \"cc7_more\": 1"), &constants()),
        Err(ThresholdFailure::Unlisted)
    );
    let list: [(&'static str, i64); 2] = [("a", 1), ("b", 2)];
    let judged = |text: &str| {
        assert_manifest_thresholds(&cc7_manifest(text).expect("JSON"), list.as_slice())
    };
    assert_eq!(judged("{\"thresholds\": {\"b\": 2, \"a\": 1}, \"more\": {\"c\": 3}}"), Ok(()));
    assert_eq!(
        judged("{\"thresholds\": {\"a\": 1, \"b\": 2, \"c\": 3}}"),
        Err(ThresholdFailure::Unlisted)
    );
    assert_eq!(
        judged("{\"thresholds\": {\"a\": 1}}"),
        Err(ThresholdFailure::Constant { index: 1, failure: ManifestFailure::NoInteger })
    );
    assert_eq!(assert_manifest_thresholds(&cc7_manifest("{\"thresholds\": {}}").expect("JSON"), &[]), Ok(()));
}

#[test]
fn a_placeholder_is_no_threshold() {
    for placeholder in ["\"to be probed\"", "null", "true", "[1]", "{\"value\": 1}"] {
        assert_eq!(
            assert_cc7_thresholds(&with_members(&format!(", \"cc7_more\": {placeholder}")), &constants()),
            Err(ThresholdFailure::NotNumber)
        );
    }
    // A number that is no integer declares no constant, but is no placeholder.
    let list: [(&'static str, i64); 1] = [("a", 1)];
    let manifest = cc7_manifest("{\"thresholds\": {\"a\": 1.5}}").expect("JSON");
    assert_eq!(
        assert_manifest_thresholds(&manifest, list.as_slice()),
        Err(ThresholdFailure::Constant { index: 0, failure: ManifestFailure::NoInteger })
    );
    let manifest = cc7_manifest("{\"thresholds\": {\"a\": 1, \"b\": 1.5}}").expect("JSON");
    assert_eq!(
        assert_manifest_thresholds(&manifest, list.as_slice()),
        Err(ThresholdFailure::Unlisted)
    );
}

#[test]
fn thresholds_that_are_no_object_declare_nothing() {
    for text in ["{}", "{\"thresholds\": 1}", "{\"thresholds\": [1]}", "{\"thresholds\": null}", "7"] {
        assert_eq!(
            assert_cc7_thresholds(text, &constants()),
            Err(ThresholdFailure::NoObject)
        );
    }
}
