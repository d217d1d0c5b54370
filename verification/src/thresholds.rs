//! The constants that the manifest must declare, each under its name.

use vstd::prelude::*;

use crate::manifest::{
    assert_manifest_i64, cc7_manifest, compared, integer_at, json_is_number, json_member,
    json_names, json_parsed, json_parts, keys_of, lemma_below, manifest_value, members_at,
    number_at, part_at, JsonPart, ManifestFailure,
};
use crate::naming::names_of;
use crate::text::strings_equal;

verus! {

/// The values of the constants that a workflow evaluation is pinned to.
#[derive(Debug, Clone, Copy, PartialEq, Eq, Structural)]
pub struct Cc7Constants {
    pub match_neutral_spread_max_code: i64,
    pub b1_residual_spread_max_code: i64,
    pub match_luma_mean_max_code_millionths: i64,
    pub log_first_percentile_min_code16: i64,
    pub log_p99_max_code16: i64,
    pub log_inverse_max_code: i64,
    pub log_cube_size: i64,
    pub feather_partial_tolerance_pixels: i64,
    pub look_deep_shadow_out_of_gamut_pixels: i64,
    pub track_min_confidence_basis_points: i64,
    pub track_tolerance_basis_points: i64,
    pub track_range_end_local_frame: i64,
    pub track_f2_step_frames: i64,
    pub unrecoverable_residual_spread_reported_code: i64,
    pub c2_skin_in_band_reported_basis_points: i64,
    pub c2_over_range_pixels_reported: i64,
    pub c2_over_range_basis_points_reported: i64,
    pub warm_whole_raster_out_of_gamut_pixels_reported: i64,
    pub warm_whole_raster_out_of_gamut_basis_points: i64,
    pub log_black_patch_reported_code: i64,
    pub log_primary_reported_code: i64,
    pub log_identity_cube_reported_code: i64,
    pub log_cube_bytes_reported: i64,
    pub track_occluded_confidence_max_reported: i64,
    pub track_clean_confidence_min_reported: i64,
    pub track_occluded_confidence_on_the_recipe_reported: i64,
    pub track_f2_occluded_confidence_reported: i64,
    pub track_worst_raw_observation_error_basis_points_reported: i64,
    pub track_final_keyframe_lag_basis_points_reported: i64,
    pub track_no_reacquisition_drift_basis_points: i64,
    pub d2_continuous_area_wrong_model_pixels_tenths: i64,
    pub source_width: i64,
    pub source_height: i64,
    pub source_fps: i64,
    pub source_frames: i64,
    pub track_frames: i64,
    pub surround_code: i64,
    pub chart_patch_width: i64,
    pub row_patch_width: i64,
    pub chart_patch_pixels: i64,
    pub primary_patch_count: i64,
    pub chart_patch_count: i64,
    pub row_patch_pixels: i64,
    pub product_patch_pixel_count: i64,
    pub track_square_size: i64,
    pub track_step_frames: i64,
    pub track_search_radius_percent: i64,
    pub track_max_width: i64,
    pub track_occlusion_first_frame: i64,
    pub track_occlusion_last_frame: i64,
    pub track_centre_x_pixels: i64,
    pub track_amplitude_x_pixels: i64,
    pub track_centre_y_pixels: i64,
    pub track_amplitude_y_pixels: i64,
    pub track_lagging_final_keyframe: i64,
    pub track_seeded_window_half_width_basis_points: i64,
    pub track_seeded_window_half_height_basis_points: i64,
    pub track_window_half_width_basis_points: i64,
    pub track_window_half_height_basis_points: i64,
    pub track_containment_required_half_width_pixels_reported: i64,
    pub track_containment_required_half_height_pixels_reported: i64,
    pub track_containment_worst_margin_x_pixels_hundredths: i64,
    pub track_containment_worst_margin_y_pixels_hundredths: i64,
    pub track_confidence_separation_min_basis_points: i64,
    pub feather_basis_points: i64,
    pub secondary_saturation_percent: i64,
    pub look_mix_basis_points: i64,
    pub log_offset_stops: i64,
    pub log_span_stops: i64,
    pub log_floor_linear_millionths: i64,
    pub look_blue_zero_crossing_display709_millionths: i64,
    pub look_blue_zero_crossing_linear_millionths: i64,
    pub skin_in_band_exact_basis_points: i64,
    pub matte_outside_changed_pixels_max: i64,
    pub delivery_leg_budget_seconds_linux: i64,
    pub scope_sixteen_bit_scale: i64,
    pub log_first_percentile_min_code8_prose: i64,
    pub log_p99_max_code8_prose: i64,
    pub matte_sample_hue_width_centidegrees: i64,
    pub matte_sample_softness: i64,
    pub matte_sample_band_margin_basis_points: i64,
    pub product_sample_hue_median_centidegrees: i64,
    pub product_sample_saturation_basis_points: i64,
    pub product_sample_luma_basis_points: i64,
}

/// The constants, each with the name under which the manifest declares it.
pub open spec fn threshold_list(constants: Cc7Constants) -> Seq<(&'static str, i64)> {
    seq![
        ("cc7_match_neutral_spread_max_code", constants.match_neutral_spread_max_code),
        ("cc7_b1_residual_spread_max_code", constants.b1_residual_spread_max_code),
        ("cc7_match_luma_mean_max_code_millionths", constants.match_luma_mean_max_code_millionths),
        ("cc7_log_first_percentile_min_code16", constants.log_first_percentile_min_code16),
        ("cc7_log_p99_max_code16", constants.log_p99_max_code16),
        ("cc7_log_inverse_max_code", constants.log_inverse_max_code),
        ("cc7_log_cube_size", constants.log_cube_size),
        ("cc7_feather_partial_tolerance_pixels", constants.feather_partial_tolerance_pixels),
        ("cc7_look_deep_shadow_out_of_gamut_pixels", constants.look_deep_shadow_out_of_gamut_pixels),
        ("cc7_track_min_confidence_basis_points", constants.track_min_confidence_basis_points),
        ("cc7_track_tolerance_basis_points", constants.track_tolerance_basis_points),
        ("cc7_track_range_end_local_frame", constants.track_range_end_local_frame),
        ("cc7_track_f2_step_frames", constants.track_f2_step_frames),
        ("cc7_unrecoverable_residual_spread_reported_code", constants.unrecoverable_residual_spread_reported_code),
        ("cc7_c2_skin_in_band_reported_basis_points", constants.c2_skin_in_band_reported_basis_points),
        ("cc7_c2_over_range_pixels_reported", constants.c2_over_range_pixels_reported),
        ("cc7_c2_over_range_basis_points_reported", constants.c2_over_range_basis_points_reported),
        ("cc7_warm_whole_raster_out_of_gamut_pixels_reported", constants.warm_whole_raster_out_of_gamut_pixels_reported),
        ("cc7_warm_whole_raster_out_of_gamut_basis_points", constants.warm_whole_raster_out_of_gamut_basis_points),
        ("cc7_log_black_patch_reported_code", constants.log_black_patch_reported_code),
        ("cc7_log_primary_reported_code", constants.log_primary_reported_code),
        ("cc7_log_identity_cube_reported_code", constants.log_identity_cube_reported_code),
        ("cc7_log_cube_bytes_reported", constants.log_cube_bytes_reported),
        ("cc7_track_occluded_confidence_max_reported", constants.track_occluded_confidence_max_reported),
        ("cc7_track_clean_confidence_min_reported", constants.track_clean_confidence_min_reported),
        ("cc7_track_occluded_confidence_on_the_recipe_reported", constants.track_occluded_confidence_on_the_recipe_reported),
        ("cc7_track_f2_occluded_confidence_reported", constants.track_f2_occluded_confidence_reported),
        ("cc7_track_worst_raw_observation_error_basis_points_reported", constants.track_worst_raw_observation_error_basis_points_reported),
        ("cc7_track_final_keyframe_lag_basis_points_reported", constants.track_final_keyframe_lag_basis_points_reported),
        ("cc7_track_no_reacquisition_drift_basis_points", constants.track_no_reacquisition_drift_basis_points),
        ("cc7_d2_continuous_area_wrong_model_pixels_tenths", constants.d2_continuous_area_wrong_model_pixels_tenths),
        ("cc7_source_width", constants.source_width),
        ("cc7_source_height", constants.source_height),
        ("cc7_source_fps", constants.source_fps),
        ("cc7_source_frames", constants.source_frames),
        ("cc7_track_frames", constants.track_frames),
        ("cc7_surround_code", constants.surround_code),
        ("cc7_chart_patch_width", constants.chart_patch_width),
        ("cc7_row_patch_width", constants.row_patch_width),
        ("cc7_chart_patch_pixels", constants.chart_patch_pixels),
        ("cc7_primary_patch_count", constants.primary_patch_count),
        ("cc7_chart_patch_count", constants.chart_patch_count),
        ("cc7_row_patch_pixels", constants.row_patch_pixels),
        ("cc7_product_patch_pixel_count", constants.product_patch_pixel_count),
        ("cc7_track_square_size", constants.track_square_size),
        ("cc7_track_step_frames", constants.track_step_frames),
        ("cc7_track_search_radius_percent", constants.track_search_radius_percent),
        ("cc7_track_max_width", constants.track_max_width),
        ("cc7_track_occlusion_first_frame", constants.track_occlusion_first_frame),
        ("cc7_track_occlusion_last_frame", constants.track_occlusion_last_frame),
        ("cc7_track_centre_x_pixels", constants.track_centre_x_pixels),
        ("cc7_track_amplitude_x_pixels", constants.track_amplitude_x_pixels),
        ("cc7_track_centre_y_pixels", constants.track_centre_y_pixels),
        ("cc7_track_amplitude_y_pixels", constants.track_amplitude_y_pixels),
        ("cc7_track_lagging_final_keyframe", constants.track_lagging_final_keyframe),
        ("cc7_track_seeded_window_half_width_basis_points", constants.track_seeded_window_half_width_basis_points),
        ("cc7_track_seeded_window_half_height_basis_points", constants.track_seeded_window_half_height_basis_points),
        ("cc7_track_window_half_width_basis_points", constants.track_window_half_width_basis_points),
        ("cc7_track_window_half_height_basis_points", constants.track_window_half_height_basis_points),
        ("cc7_track_containment_required_half_width_pixels_reported", constants.track_containment_required_half_width_pixels_reported),
        ("cc7_track_containment_required_half_height_pixels_reported", constants.track_containment_required_half_height_pixels_reported),
        ("cc7_track_containment_worst_margin_x_pixels_hundredths", constants.track_containment_worst_margin_x_pixels_hundredths),
        ("cc7_track_containment_worst_margin_y_pixels_hundredths", constants.track_containment_worst_margin_y_pixels_hundredths),
        ("cc7_track_confidence_separation_min_basis_points", constants.track_confidence_separation_min_basis_points),
        ("cc7_feather_basis_points", constants.feather_basis_points),
        ("cc7_secondary_saturation_percent", constants.secondary_saturation_percent),
        ("cc7_look_mix_basis_points", constants.look_mix_basis_points),
        ("cc7_log_offset_stops", constants.log_offset_stops),
        ("cc7_log_span_stops", constants.log_span_stops),
        ("cc7_log_floor_linear_millionths", constants.log_floor_linear_millionths),
        ("cc7_look_blue_zero_crossing_display709_millionths", constants.look_blue_zero_crossing_display709_millionths),
        ("cc7_look_blue_zero_crossing_linear_millionths", constants.look_blue_zero_crossing_linear_millionths),
        ("cc7_skin_in_band_exact_basis_points", constants.skin_in_band_exact_basis_points),
        ("cc7_matte_outside_changed_pixels_max", constants.matte_outside_changed_pixels_max),
        ("cc7_delivery_leg_budget_seconds_linux", constants.delivery_leg_budget_seconds_linux),
        ("cc7_scope_sixteen_bit_scale", constants.scope_sixteen_bit_scale),
        ("cc7_log_first_percentile_min_code8_prose", constants.log_first_percentile_min_code8_prose),
        ("cc7_log_p99_max_code8_prose", constants.log_p99_max_code8_prose),
        ("cc7_matte_sample_hue_width_centidegrees", constants.matte_sample_hue_width_centidegrees),
        ("cc7_matte_sample_softness", constants.matte_sample_softness),
        ("cc7_matte_sample_band_margin_basis_points", constants.matte_sample_band_margin_basis_points),
        ("cc7_product_sample_hue_median_centidegrees", constants.product_sample_hue_median_centidegrees),
        ("cc7_product_sample_saturation_basis_points", constants.product_sample_saturation_basis_points),
        ("cc7_product_sample_luma_basis_points", constants.product_sample_luma_basis_points),
    ]
}

/// The constants, each with the name under which the manifest declares it.
pub fn cc7_threshold_constants(constants: &Cc7Constants) -> (list: Vec<(&'static str, i64)>)
    ensures
        list@ == threshold_list(*constants),
{
    let list: Vec<(&'static str, i64)> = vec![
        ("cc7_match_neutral_spread_max_code", constants.match_neutral_spread_max_code),
        ("cc7_b1_residual_spread_max_code", constants.b1_residual_spread_max_code),
        ("cc7_match_luma_mean_max_code_millionths", constants.match_luma_mean_max_code_millionths),
        ("cc7_log_first_percentile_min_code16", constants.log_first_percentile_min_code16),
        ("cc7_log_p99_max_code16", constants.log_p99_max_code16),
        ("cc7_log_inverse_max_code", constants.log_inverse_max_code),
        ("cc7_log_cube_size", constants.log_cube_size),
        ("cc7_feather_partial_tolerance_pixels", constants.feather_partial_tolerance_pixels),
        ("cc7_look_deep_shadow_out_of_gamut_pixels", constants.look_deep_shadow_out_of_gamut_pixels),
        ("cc7_track_min_confidence_basis_points", constants.track_min_confidence_basis_points),
        ("cc7_track_tolerance_basis_points", constants.track_tolerance_basis_points),
        ("cc7_track_range_end_local_frame", constants.track_range_end_local_frame),
        ("cc7_track_f2_step_frames", constants.track_f2_step_frames),
        ("cc7_unrecoverable_residual_spread_reported_code", constants.unrecoverable_residual_spread_reported_code),
        ("cc7_c2_skin_in_band_reported_basis_points", constants.c2_skin_in_band_reported_basis_points),
        ("cc7_c2_over_range_pixels_reported", constants.c2_over_range_pixels_reported),
        ("cc7_c2_over_range_basis_points_reported", constants.c2_over_range_basis_points_reported),
        ("cc7_warm_whole_raster_out_of_gamut_pixels_reported", constants.warm_whole_raster_out_of_gamut_pixels_reported),
        ("cc7_warm_whole_raster_out_of_gamut_basis_points", constants.warm_whole_raster_out_of_gamut_basis_points),
        ("cc7_log_black_patch_reported_code", constants.log_black_patch_reported_code),
        ("cc7_log_primary_reported_code", constants.log_primary_reported_code),
        ("cc7_log_identity_cube_reported_code", constants.log_identity_cube_reported_code),
        ("cc7_log_cube_bytes_reported", constants.log_cube_bytes_reported),
        ("cc7_track_occluded_confidence_max_reported", constants.track_occluded_confidence_max_reported),
        ("cc7_track_clean_confidence_min_reported", constants.track_clean_confidence_min_reported),
        ("cc7_track_occluded_confidence_on_the_recipe_reported", constants.track_occluded_confidence_on_the_recipe_reported),
        ("cc7_track_f2_occluded_confidence_reported", constants.track_f2_occluded_confidence_reported),
        ("cc7_track_worst_raw_observation_error_basis_points_reported", constants.track_worst_raw_observation_error_basis_points_reported),
        ("cc7_track_final_keyframe_lag_basis_points_reported", constants.track_final_keyframe_lag_basis_points_reported),
        ("cc7_track_no_reacquisition_drift_basis_points", constants.track_no_reacquisition_drift_basis_points),
        ("cc7_d2_continuous_area_wrong_model_pixels_tenths", constants.d2_continuous_area_wrong_model_pixels_tenths),
        ("cc7_source_width", constants.source_width),
        ("cc7_source_height", constants.source_height),
        ("cc7_source_fps", constants.source_fps),
        ("cc7_source_frames", constants.source_frames),
        ("cc7_track_frames", constants.track_frames),
        ("cc7_surround_code", constants.surround_code),
        ("cc7_chart_patch_width", constants.chart_patch_width),
        ("cc7_row_patch_width", constants.row_patch_width),
        ("cc7_chart_patch_pixels", constants.chart_patch_pixels),
        ("cc7_primary_patch_count", constants.primary_patch_count),
        ("cc7_chart_patch_count", constants.chart_patch_count),
        ("cc7_row_patch_pixels", constants.row_patch_pixels),
        ("cc7_product_patch_pixel_count", constants.product_patch_pixel_count),
        ("cc7_track_square_size", constants.track_square_size),
        ("cc7_track_step_frames", constants.track_step_frames),
        ("cc7_track_search_radius_percent", constants.track_search_radius_percent),
        ("cc7_track_max_width", constants.track_max_width),
        ("cc7_track_occlusion_first_frame", constants.track_occlusion_first_frame),
        ("cc7_track_occlusion_last_frame", constants.track_occlusion_last_frame),
        ("cc7_track_centre_x_pixels", constants.track_centre_x_pixels),
        ("cc7_track_amplitude_x_pixels", constants.track_amplitude_x_pixels),
        ("cc7_track_centre_y_pixels", constants.track_centre_y_pixels),
        ("cc7_track_amplitude_y_pixels", constants.track_amplitude_y_pixels),
        ("cc7_track_lagging_final_keyframe", constants.track_lagging_final_keyframe),
        ("cc7_track_seeded_window_half_width_basis_points", constants.track_seeded_window_half_width_basis_points),
        ("cc7_track_seeded_window_half_height_basis_points", constants.track_seeded_window_half_height_basis_points),
        ("cc7_track_window_half_width_basis_points", constants.track_window_half_width_basis_points),
        ("cc7_track_window_half_height_basis_points", constants.track_window_half_height_basis_points),
        ("cc7_track_containment_required_half_width_pixels_reported", constants.track_containment_required_half_width_pixels_reported),
        ("cc7_track_containment_required_half_height_pixels_reported", constants.track_containment_required_half_height_pixels_reported),
        ("cc7_track_containment_worst_margin_x_pixels_hundredths", constants.track_containment_worst_margin_x_pixels_hundredths),
        ("cc7_track_containment_worst_margin_y_pixels_hundredths", constants.track_containment_worst_margin_y_pixels_hundredths),
        ("cc7_track_confidence_separation_min_basis_points", constants.track_confidence_separation_min_basis_points),
        ("cc7_feather_basis_points", constants.feather_basis_points),
        ("cc7_secondary_saturation_percent", constants.secondary_saturation_percent),
        ("cc7_look_mix_basis_points", constants.look_mix_basis_points),
        ("cc7_log_offset_stops", constants.log_offset_stops),
        ("cc7_log_span_stops", constants.log_span_stops),
        ("cc7_log_floor_linear_millionths", constants.log_floor_linear_millionths),
        ("cc7_look_blue_zero_crossing_display709_millionths", constants.look_blue_zero_crossing_display709_millionths),
        ("cc7_look_blue_zero_crossing_linear_millionths", constants.look_blue_zero_crossing_linear_millionths),
        ("cc7_skin_in_band_exact_basis_points", constants.skin_in_band_exact_basis_points),
        ("cc7_matte_outside_changed_pixels_max", constants.matte_outside_changed_pixels_max),
        ("cc7_delivery_leg_budget_seconds_linux", constants.delivery_leg_budget_seconds_linux),
        ("cc7_scope_sixteen_bit_scale", constants.scope_sixteen_bit_scale),
        ("cc7_log_first_percentile_min_code8_prose", constants.log_first_percentile_min_code8_prose),
        ("cc7_log_p99_max_code8_prose", constants.log_p99_max_code8_prose),
        ("cc7_matte_sample_hue_width_centidegrees", constants.matte_sample_hue_width_centidegrees),
        ("cc7_matte_sample_softness", constants.matte_sample_softness),
        ("cc7_matte_sample_band_margin_basis_points", constants.matte_sample_band_margin_basis_points),
        ("cc7_product_sample_hue_median_centidegrees", constants.product_sample_hue_median_centidegrees),
        ("cc7_product_sample_saturation_basis_points", constants.product_sample_saturation_basis_points),
        ("cc7_product_sample_luma_basis_points", constants.product_sample_luma_basis_points),
    ];
    assert(list@ =~= threshold_list(*constants));
    list
}

/// What the manifest says of a constant.
pub open spec fn threshold_declared(
    parts: Map<Seq<Seq<char>>, JsonPart>,
    constant: (&'static str, i64),
) -> Result<(), ManifestFailure> {
    compared(integer_at(parts, seq!["thresholds"@, constant.0@]), constant.1)
}

/// The names of the constants on a list.
pub open spec fn threshold_names(list: Seq<(&'static str, i64)>) -> Seq<Seq<char>> {
    list.map_values(|constant: (&'static str, i64)| constant.0@)
}

/// Whether the manifest declares every constant on a list.
pub open spec fn all_declared(
    parts: Map<Seq<Seq<char>>, JsonPart>,
    list: Seq<(&'static str, i64)>,
) -> bool {
    forall|i: int| 0 <= i < list.len() ==> threshold_declared(parts, #[trigger] list[i]) is Ok
}

/// Whether every one of these members of the thresholds is a number.
pub open spec fn all_numbers(parts: Map<Seq<Seq<char>>, JsonPart>, members: Set<Seq<char>>) -> bool {
    forall|name: Seq<char>| #[trigger]
        members.contains(name) ==> number_at(parts, seq!["thresholds"@, name])
}

/// Why the manifest does not declare the constants.
#[derive(Debug, Clone, Copy, PartialEq, Eq, Structural)]
pub enum ThresholdFailure {
    /// The text is no JSON document.
    NotJson,
    /// The thresholds are no object.
    NoObject,
    /// Some threshold is no number, but a placeholder.
    NotNumber,
    /// The first constant that is not declared, by its place on the list.
    Constant { index: usize, failure: ManifestFailure },
    /// Some threshold is that of no constant.
    Unlisted,
}

/// What the manifest says of constants.  The thresholds are an object whose
/// members are all numbers; each constant is declared; and the members are the
/// names of the constants, and no others.  The first of these that does not hold
/// is the failure.
pub open spec fn thresholds_declared(
    parts: Map<Seq<Seq<char>>, JsonPart>,
    list: Seq<(&'static str, i64)>,
    result: Result<(), ThresholdFailure>,
) -> bool {
    match members_at(parts, seq!["thresholds"@]) {
        None => result == Err::<(), ThresholdFailure>(ThresholdFailure::NoObject),
        Some(members) => if !all_numbers(parts, members) {
            result == Err::<(), ThresholdFailure>(ThresholdFailure::NotNumber)
        } else {
            match result {
                Ok(_) => all_declared(parts, list) && members == threshold_names(list).to_set(),
                Err(ThresholdFailure::Constant { index, failure }) => {
                    &&& index < list.len()
                    &&& threshold_declared(parts, list[index as int]) == Err::<(), ManifestFailure>(
                        failure,
                    )
                    &&& all_declared(parts, list.take(index as int))
                },
                Err(ThresholdFailure::Unlisted) => all_declared(parts, list) && members
                    != threshold_names(list).to_set(),
                Err(_) => false,
            }
        },
    }
}

/// Whether a name is that of a constant on a list.
fn is_listed(list: &[(&'static str, i64)], name: &str) -> (listed: bool)
    ensures
        listed == threshold_names(list@).contains(name@),
{
    let mut index: usize = 0;
    while index < list.len()
        invariant
            index <= list.len(),
            forall|i: int| 0 <= i < index ==> #[trigger] threshold_names(list@)[i] != name@,
        decreases list.len() - index,
    {
        assert(threshold_names(list@)[index as int] == list@[index as int].0@);
        if strings_equal(list[index].0, name) {
            return true;
        }
        index += 1;
    }
    false
}

/// Demands that the thresholds of the manifest are constants under their names,
/// and nothing else.
pub fn assert_manifest_thresholds(manifest: &serde_json::Value, list: &[(&'static str, i64)]) -> (result:
    Result<(), ThresholdFailure>)
    ensures
        thresholds_declared(json_parts(*manifest), list@, result),
{
    let ghost parts = json_parts(*manifest);
    let ghost wanted = threshold_names(list@);
    let path: [&str; 1] = ["thresholds"];
    assert(keys_of(path@) =~= seq!["thresholds"@]);
    let thresholds = match manifest_value(manifest, path.as_slice()) {
        Some(thresholds) => thresholds,
        None => {
            return Err(ThresholdFailure::NoObject);
        },
    };
    let ghost inner = json_parts(*thresholds);
    proof {
        assert(seq!["thresholds"@] + Seq::<Seq<char>>::empty() =~= seq!["thresholds"@]);
        assert(part_at(inner, Seq::empty()) == part_at(parts, seq!["thresholds"@]));
        assert forall|name: Seq<char>| #[trigger] part_at(inner, seq![name]) == part_at(
            parts,
            seq!["thresholds"@, name],
        ) by {
            assert(seq!["thresholds"@] + seq![name] =~= seq!["thresholds"@, name]);
        }
    }
    let names = match json_names(thresholds) {
        Some(names) => names,
        None => {
            return Err(ThresholdFailure::NoObject);
        },
    };
    let ghost found = names_of(names@);
    let ghost members = found.to_set();
    let mut at: usize = 0;
    while at < names.len()
        invariant
            at <= names.len(),
            inner == json_parts(*thresholds),
            found == names_of(names@),
            members == found.to_set(),
            members_at(inner, Seq::empty()) == Some(members),
            members_at(parts, seq!["thresholds"@]) == Some(members),
            forall|name: Seq<char>| #[trigger]
                part_at(inner, seq![name]) == part_at(parts, seq!["thresholds"@, name]),
            parts == json_parts(*manifest),
            forall|i: int|
                0 <= i < at ==> number_at(parts, seq!["thresholds"@, #[trigger] found[i]]),
        decreases names.len() - at,
    {
        let name = names[at].as_str();
        let number = match json_member(thresholds, name) {
            Some(member) => json_is_number(member),
            None => false,
        };
        proof {
            assert(found[at as int] == name@);
            assert(members.contains(name@));
            lemma_below(inner, name@, Seq::empty());
            assert(seq![name@] + Seq::<Seq<char>>::empty() =~= seq![name@]);
            assert(part_at(inner, seq![name@]) == part_at(parts, seq!["thresholds"@, name@]));
        }
        if !number {
            assert(!all_numbers(parts, members));
            return Err(ThresholdFailure::NotNumber);
        }
        at += 1;
    }
    assert(all_numbers(parts, members)) by {
        assert forall|name: Seq<char>| #[trigger] members.contains(name) implies number_at(
            parts,
            seq!["thresholds"@, name],
        ) by {
            let i = choose|i: int| 0 <= i < found.len() && found[i] == name;
            assert(number_at(parts, seq!["thresholds"@, found[i]]));
        }
    }
    let mut index: usize = 0;
    while index < list.len()
        invariant
            index <= list.len(),
            wanted == threshold_names(list@),
            inner == json_parts(*thresholds),
            parts == json_parts(*manifest),
            members_at(inner, Seq::empty()) == Some(members),
            members_at(parts, seq!["thresholds"@]) == Some(members),
            all_numbers(parts, members),
            forall|name: Seq<char>| #[trigger]
                part_at(inner, seq![name]) == part_at(parts, seq!["thresholds"@, name]),
            forall|i: int| 0 <= i < index ==> threshold_declared(parts, #[trigger] list@[i]) is Ok,
            forall|i: int| 0 <= i < index ==> members.contains(#[trigger] wanted[i]),
        decreases list.len() - index,
    {
        let (name, expected) = list[index];
        let result = assert_manifest_i64(thresholds, name, expected);
        assert(part_at(inner, seq![name@]) == part_at(parts, seq!["thresholds"@, name@]));
        assert(wanted[index as int] == name@);
        match result {
            Ok(_) => {},
            Err(failure) => {
                assert(all_declared(parts, list@.take(index as int)));
                return Err(ThresholdFailure::Constant { index, failure });
            },
        }
        index += 1;
    }
    let mut at: usize = 0;
    while at < names.len()
        invariant
            at <= names.len(),
            found == names_of(names@),
            members == found.to_set(),
            wanted == threshold_names(list@),
            parts == json_parts(*manifest),
            members_at(parts, seq!["thresholds"@]) == Some(members),
            all_numbers(parts, members),
            all_declared(parts, list@),
            forall|i: int| 0 <= i < at ==> wanted.contains(#[trigger] found[i]),
        decreases names.len() - at,
    {
        assert(found[at as int] == names@[at as int]@);
        if !is_listed(list, names[at].as_str()) {
            assert(members.contains(found[at as int]));
            assert(!wanted.to_set().contains(found[at as int]));
            return Err(ThresholdFailure::Unlisted);
        }
        at += 1;
    }
    assert(members =~= wanted.to_set()) by {
        assert forall|name: Seq<char>| members.contains(name) implies wanted.to_set().contains(
            name,
        ) by {
            let i = choose|i: int| 0 <= i < found.len() && found[i] == name;
            assert(wanted.contains(found[i]));
        }
        assert forall|name: Seq<char>| wanted.to_set().contains(name) implies members.contains(
            name,
        ) by {
            let i = choose|i: int| 0 <= i < wanted.len() && wanted[i] == name;
            assert(members.contains(wanted[i]));
        }
    }
    Ok(())
}

/// Demands that the thresholds of the manifest that a text is are the constants
/// under their names, and nothing else.
pub fn assert_cc7_thresholds(text: &str, constants: &Cc7Constants) -> (result: Result<
    (),
    ThresholdFailure,
>)
    ensures
        match json_parsed(text@) {
            None => result == Err::<(), ThresholdFailure>(ThresholdFailure::NotJson),
            Some(parts) => thresholds_declared(parts, threshold_list(*constants), result),
        },
{
    match cc7_manifest(text) {
        Err(_) => Err(ThresholdFailure::NotJson),
        Ok(manifest) => {
            let list = cc7_threshold_constants(constants);
            assert_manifest_thresholds(&manifest, list.as_slice())
        },
    }
}

/// A number that tells the names of the constants apart: a name's length and
/// three of its characters.
spec fn mark(name: Seq<char>) -> int {
    let late = if name.len() > 50 {
        name[35]
    } else {
        name[name.len() - 8]
    };
    name.len() * 0x100_0000 + name[11] as int * 0x1_0000 + name.last() as int * 0x100 + late as int
}

/// The marks of the names of the constants.
#[verifier::opaque]
spec fn marks() -> Seq<int> {
    seq![
        560_293_229, 526_673_261, 662_008_684, 594_753_134, 375_338_616, 409_298_285, 291_857_781,
        610_235_237, 677_737_332, 627_667_827, 544_174_963, 526_476_641, 405_959_536, 795_174_260,
        694_121_331, 559_899_762, 660_563_058, 846_161_010, 795_833_203, 560_162_164, 493_708_660,
        594_437_492, 459_629_682, 711_156_850, 661_415_026, 878_928_997, 691_168_370, 997_155_951,
        845_767_794, 762_278_771, 812_217_203, 276_260_963, 292_058_213, 241_595_253, 291_926_885,
        275_936_107, 291_792_245, 358_705_251, 325_281_891, 375_485_288, 392_131_683, 358_708_323,
        342_061_928, 492_794_981, 359_753_057, 359_953_264, 526_742_623, 325_150_817, 526_607_731,
        509_830_515, 426_079_096, 476_935_032, 426_079_097, 476_935_033, 543_253_867, 795_177_843,
        811_955_059, 677_999_475, 694_776_691, 963_601_503, 980_378_719, 913_273_720, 913_273_721,
        812_610_419, 408_908_659, 544_371_807, 427_324_275, 343_110_501, 309_228_385, 527_397_740,
        829_780_844, 762_671_980, 593_458_035, 611_678_328, 628_717_668, 459_892_073, 678_651_237,
        459_236_709, 660_697_961, 425_816_947, 694_252_403, 710_898_537, 710_898_547, 610_235_251,
    ]
}

/// The marks differ.
proof fn lemma_marks_differ()
    ensures
        marks().len() == 84,
        marks().no_duplicates(),
{
    reveal(marks);
}

proof fn lemma_marks_from_0(constants: Cc7Constants)
    ensures
        forall|i: int|
            0 <= i < 21 ==> mark((#[trigger] threshold_list(constants)[i]).0@) == marks()[i],
{
    reveal(marks);
    reveal_strlit("cc7_match_neutral_spread_max_code");
    reveal_strlit("cc7_b1_residual_spread_max_code");
    reveal_strlit("cc7_match_luma_mean_max_code_millionths");
    reveal_strlit("cc7_log_first_percentile_min_code16");
    reveal_strlit("cc7_log_p99_max_code16");
    reveal_strlit("cc7_log_inverse_max_code");
    reveal_strlit("cc7_log_cube_size");
    reveal_strlit("cc7_feather_partial_tolerance_pixels");
    reveal_strlit("cc7_look_deep_shadow_out_of_gamut_pixels");
    reveal_strlit("cc7_track_min_confidence_basis_points");
    reveal_strlit("cc7_track_tolerance_basis_points");
    reveal_strlit("cc7_track_range_end_local_frame");
    reveal_strlit("cc7_track_f2_step_frames");
    reveal_strlit("cc7_unrecoverable_residual_spread_reported_code");
    reveal_strlit("cc7_c2_skin_in_band_reported_basis_points");
    reveal_strlit("cc7_c2_over_range_pixels_reported");
    reveal_strlit("cc7_c2_over_range_basis_points_reported");
    reveal_strlit("cc7_warm_whole_raster_out_of_gamut_pixels_reported");
    reveal_strlit("cc7_warm_whole_raster_out_of_gamut_basis_points");
    reveal_strlit("cc7_log_black_patch_reported_code");
    reveal_strlit("cc7_log_primary_reported_code");
}

proof fn lemma_marks_from_21(constants: Cc7Constants)
    ensures
        forall|i: int|
            21 <= i < 42 ==> mark((#[trigger] threshold_list(constants)[i]).0@) == marks()[i],
{
    reveal(marks);
    reveal_strlit("cc7_log_identity_cube_reported_code");
    reveal_strlit("cc7_log_cube_bytes_reported");
    reveal_strlit("cc7_track_occluded_confidence_max_reported");
    reveal_strlit("cc7_track_clean_confidence_min_reported");
    reveal_strlit("cc7_track_occluded_confidence_on_the_recipe_reported");
    reveal_strlit("cc7_track_f2_occluded_confidence_reported");
    reveal_strlit("cc7_track_worst_raw_observation_error_basis_points_reported");
    reveal_strlit("cc7_track_final_keyframe_lag_basis_points_reported");
    reveal_strlit("cc7_track_no_reacquisition_drift_basis_points");
    reveal_strlit("cc7_d2_continuous_area_wrong_model_pixels_tenths");
    reveal_strlit("cc7_source_width");
    reveal_strlit("cc7_source_height");
    reveal_strlit("cc7_source_fps");
    reveal_strlit("cc7_source_frames");
    reveal_strlit("cc7_track_frames");
    reveal_strlit("cc7_surround_code");
    reveal_strlit("cc7_chart_patch_width");
    reveal_strlit("cc7_row_patch_width");
    reveal_strlit("cc7_chart_patch_pixels");
    reveal_strlit("cc7_primary_patch_count");
    reveal_strlit("cc7_chart_patch_count");
}

proof fn lemma_marks_from_42(constants: Cc7Constants)
    ensures
        forall|i: int|
            42 <= i < 63 ==> mark((#[trigger] threshold_list(constants)[i]).0@) == marks()[i],
{
    reveal(marks);
    reveal_strlit("cc7_row_patch_pixels");
    reveal_strlit("cc7_product_patch_pixel_count");
    reveal_strlit("cc7_track_square_size");
    reveal_strlit("cc7_track_step_frames");
    reveal_strlit("cc7_track_search_radius_percent");
    reveal_strlit("cc7_track_max_width");
    reveal_strlit("cc7_track_occlusion_first_frame");
    reveal_strlit("cc7_track_occlusion_last_frame");
    reveal_strlit("cc7_track_centre_x_pixels");
    reveal_strlit("cc7_track_amplitude_x_pixels");
    reveal_strlit("cc7_track_centre_y_pixels");
    reveal_strlit("cc7_track_amplitude_y_pixels");
    reveal_strlit("cc7_track_lagging_final_keyframe");
    reveal_strlit("cc7_track_seeded_window_half_width_basis_points");
    reveal_strlit("cc7_track_seeded_window_half_height_basis_points");
    reveal_strlit("cc7_track_window_half_width_basis_points");
    reveal_strlit("cc7_track_window_half_height_basis_points");
    reveal_strlit("cc7_track_containment_required_half_width_pixels_reported");
    reveal_strlit("cc7_track_containment_required_half_height_pixels_reported");
    reveal_strlit("cc7_track_containment_worst_margin_x_pixels_hundredths");
    reveal_strlit("cc7_track_containment_worst_margin_y_pixels_hundredths");
}

proof fn lemma_marks_from_63(constants: Cc7Constants)
    ensures
        forall|i: int|
            63 <= i < 84 ==> mark((#[trigger] threshold_list(constants)[i]).0@) == marks()[i],
{
    reveal(marks);
    reveal_strlit("cc7_track_confidence_separation_min_basis_points");
    reveal_strlit("cc7_feather_basis_points");
    reveal_strlit("cc7_secondary_saturation_percent");
    reveal_strlit("cc7_look_mix_basis_points");
    reveal_strlit("cc7_log_offset_stops");
    reveal_strlit("cc7_log_span_stops");
    reveal_strlit("cc7_log_floor_linear_millionths");
    reveal_strlit("cc7_look_blue_zero_crossing_display709_millionths");
    reveal_strlit("cc7_look_blue_zero_crossing_linear_millionths");
    reveal_strlit("cc7_skin_in_band_exact_basis_points");
    reveal_strlit("cc7_matte_outside_changed_pixels_max");
    reveal_strlit("cc7_delivery_leg_budget_seconds_linux");
    reveal_strlit("cc7_scope_sixteen_bit_scale");
    reveal_strlit("cc7_log_first_percentile_min_code8_prose");
    reveal_strlit("cc7_log_p99_max_code8_prose");
    reveal_strlit("cc7_matte_sample_hue_width_centidegrees");
    reveal_strlit("cc7_matte_sample_softness");
    reveal_strlit("cc7_matte_sample_band_margin_basis_points");
    reveal_strlit("cc7_product_sample_hue_median_centidegrees");
    reveal_strlit("cc7_product_sample_saturation_basis_points");
    reveal_strlit("cc7_product_sample_luma_basis_points");
}

/// The constants have eighty-four different names.
pub proof fn lemma_threshold_names_differ(constants: Cc7Constants)
    ensures
        threshold_list(constants).len() == 84,
        threshold_names(threshold_list(constants)).no_duplicates(),
{
    let list = threshold_list(constants);
    let names = threshold_names(list);
    lemma_marks_differ();
    lemma_marks_from_0(constants);
    lemma_marks_from_21(constants);
    lemma_marks_from_42(constants);
    lemma_marks_from_63(constants);
    assert(list.len() == 84);
    assert forall|i: int| 0 <= i < 84 implies mark(#[trigger] names[i]) == marks()[i] by {
        assert(names[i] == list[i].0@);
    }
    assert forall|i: int, j: int| 0 <= i < names.len() && 0 <= j < names.len() && i != j implies names[i]
        != names[j] by {
        assert(marks()[i] != marks()[j]);
    }
}

/// Where the manifest declares constants of different names, it has exactly one
/// threshold for each of them, and each threshold is the integer of a constant.
pub proof fn lemma_one_threshold_per_constant(
    parts: Map<Seq<Seq<char>>, JsonPart>,
    list: Seq<(&'static str, i64)>,
)
    requires
        thresholds_declared(parts, list, Ok(())),
        threshold_names(list).no_duplicates(),
    ensures
        members_at(parts, seq!["thresholds"@]) matches Some(members) && {
            &&& members.finite()
            &&& members.len() == list.len()
            &&& forall|name: Seq<char>| #[trigger]
                members.contains(name) ==> exists|i: int|
                    0 <= i < list.len() && (#[trigger] list[i]).0@ == name && integer_at(
                        parts,
                        seq!["thresholds"@, name],
                    ) == Some(list[i].1)
        },
{
    let names = threshold_names(list);
    let members = names.to_set();
    names.unique_seq_to_set();
    assert forall|name: Seq<char>| #[trigger] members.contains(name) implies exists|i: int|
        0 <= i < list.len() && (#[trigger] list[i]).0@ == name && integer_at(
            parts,
            seq!["thresholds"@, name],
        ) == Some(list[i].1) by {
        let i = choose|i: int| 0 <= i < names.len() && names[i] == name;
        assert(threshold_declared(parts, list[i]) is Ok);
    }
}

/// Where the thresholds of a manifest are the constants of a workflow
/// evaluation, it has exactly one threshold for each of the eighty-four.
pub proof fn lemma_eighty_four_thresholds(
    parts: Map<Seq<Seq<char>>, JsonPart>,
    constants: Cc7Constants,
)
    requires
        thresholds_declared(parts, threshold_list(constants), Ok(())),
    ensures
        members_at(parts, seq!["thresholds"@]) matches Some(members) && members.finite()
            && members.len() == 84,
{
    lemma_threshold_names_differ(constants);
    lemma_one_threshold_per_constant(parts, threshold_list(constants));
}

/// Whether a manifest declares an integer as the threshold of this name.
pub open spec fn threshold_is(
    parts: Map<Seq<Seq<char>>, JsonPart>,
    name: Seq<char>,
    value: i64,
) -> bool {
    parts.dom().contains(seq!["thresholds"@, name]) && parts[seq!["thresholds"@, name]]
        == JsonPart::Number(Some(value))
}

proof fn lemma_listed_is_declared(
    parts: Map<Seq<Seq<char>>, JsonPart>,
    list: Seq<(&'static str, i64)>,
)
    requires
        thresholds_declared(parts, list, Ok(())),
    ensures
        forall|i: int|
            0 <= i < list.len() ==> threshold_is(parts, (#[trigger] list[i]).0@, list[i].1),
{
    assert forall|i: int| 0 <= i < list.len() implies threshold_is(
        parts,
        (#[trigger] list[i]).0@,
        list[i].1,
    ) by {
        assert(threshold_declared(parts, list[i]) is Ok);
    }
}

/// Where the thresholds pass, the manifest declares each constant under its own
/// name: the first quarter of them.
pub proof fn lemma_constants_by_name_from_0(
    parts: Map<Seq<Seq<char>>, JsonPart>,
    constants: Cc7Constants,
)
    requires
        thresholds_declared(parts, threshold_list(constants), Ok(())),
    ensures
        threshold_is(parts, "cc7_match_neutral_spread_max_code"@, constants.match_neutral_spread_max_code),
        threshold_is(parts, "cc7_b1_residual_spread_max_code"@, constants.b1_residual_spread_max_code),
        threshold_is(parts, "cc7_match_luma_mean_max_code_millionths"@, constants.match_luma_mean_max_code_millionths),
        threshold_is(parts, "cc7_log_first_percentile_min_code16"@, constants.log_first_percentile_min_code16),
        threshold_is(parts, "cc7_log_p99_max_code16"@, constants.log_p99_max_code16),
        threshold_is(parts, "cc7_log_inverse_max_code"@, constants.log_inverse_max_code),
        threshold_is(parts, "cc7_log_cube_size"@, constants.log_cube_size),
        threshold_is(parts, "cc7_feather_partial_tolerance_pixels"@, constants.feather_partial_tolerance_pixels),
        threshold_is(parts, "cc7_look_deep_shadow_out_of_gamut_pixels"@, constants.look_deep_shadow_out_of_gamut_pixels),
        threshold_is(parts, "cc7_track_min_confidence_basis_points"@, constants.track_min_confidence_basis_points),
        threshold_is(parts, "cc7_track_tolerance_basis_points"@, constants.track_tolerance_basis_points),
        threshold_is(parts, "cc7_track_range_end_local_frame"@, constants.track_range_end_local_frame),
        threshold_is(parts, "cc7_track_f2_step_frames"@, constants.track_f2_step_frames),
        threshold_is(parts, "cc7_unrecoverable_residual_spread_reported_code"@, constants.unrecoverable_residual_spread_reported_code),
        threshold_is(parts, "cc7_c2_skin_in_band_reported_basis_points"@, constants.c2_skin_in_band_reported_basis_points),
        threshold_is(parts, "cc7_c2_over_range_pixels_reported"@, constants.c2_over_range_pixels_reported),
        threshold_is(parts, "cc7_c2_over_range_basis_points_reported"@, constants.c2_over_range_basis_points_reported),
        threshold_is(parts, "cc7_warm_whole_raster_out_of_gamut_pixels_reported"@, constants.warm_whole_raster_out_of_gamut_pixels_reported),
        threshold_is(parts, "cc7_warm_whole_raster_out_of_gamut_basis_points"@, constants.warm_whole_raster_out_of_gamut_basis_points),
        threshold_is(parts, "cc7_log_black_patch_reported_code"@, constants.log_black_patch_reported_code),
        threshold_is(parts, "cc7_log_primary_reported_code"@, constants.log_primary_reported_code),
{
    let list = threshold_list(constants);
    lemma_listed_is_declared(parts, list);
    assert(threshold_is(parts, list[0].0@, list[0].1));
    assert(threshold_is(parts, list[1].0@, list[1].1));
    assert(threshold_is(parts, list[2].0@, list[2].1));
    assert(threshold_is(parts, list[3].0@, list[3].1));
    assert(threshold_is(parts, list[4].0@, list[4].1));
    assert(threshold_is(parts, list[5].0@, list[5].1));
    assert(threshold_is(parts, list[6].0@, list[6].1));
    assert(threshold_is(parts, list[7].0@, list[7].1));
    assert(threshold_is(parts, list[8].0@, list[8].1));
    assert(threshold_is(parts, list[9].0@, list[9].1));
    assert(threshold_is(parts, list[10].0@, list[10].1));
    assert(threshold_is(parts, list[11].0@, list[11].1));
    assert(threshold_is(parts, list[12].0@, list[12].1));
    assert(threshold_is(parts, list[13].0@, list[13].1));
    assert(threshold_is(parts, list[14].0@, list[14].1));
    assert(threshold_is(parts, list[15].0@, list[15].1));
    assert(threshold_is(parts, list[16].0@, list[16].1));
    assert(threshold_is(parts, list[17].0@, list[17].1));
    assert(threshold_is(parts, list[18].0@, list[18].1));
    assert(threshold_is(parts, list[19].0@, list[19].1));
    assert(threshold_is(parts, list[20].0@, list[20].1));
}

/// Where the thresholds pass, the manifest declares each constant under its own
/// name: the second quarter of them.
pub proof fn lemma_constants_by_name_from_21(
    parts: Map<Seq<Seq<char>>, JsonPart>,
    constants: Cc7Constants,
)
    requires
        thresholds_declared(parts, threshold_list(constants), Ok(())),
    ensures
        threshold_is(parts, "cc7_log_identity_cube_reported_code"@, constants.log_identity_cube_reported_code),
        threshold_is(parts, "cc7_log_cube_bytes_reported"@, constants.log_cube_bytes_reported),
        threshold_is(parts, "cc7_track_occluded_confidence_max_reported"@, constants.track_occluded_confidence_max_reported),
        threshold_is(parts, "cc7_track_clean_confidence_min_reported"@, constants.track_clean_confidence_min_reported),
        threshold_is(parts, "cc7_track_occluded_confidence_on_the_recipe_reported"@, constants.track_occluded_confidence_on_the_recipe_reported),
        threshold_is(parts, "cc7_track_f2_occluded_confidence_reported"@, constants.track_f2_occluded_confidence_reported),
        threshold_is(parts, "cc7_track_worst_raw_observation_error_basis_points_reported"@, constants.track_worst_raw_observation_error_basis_points_reported),
        threshold_is(parts, "cc7_track_final_keyframe_lag_basis_points_reported"@, constants.track_final_keyframe_lag_basis_points_reported),
        threshold_is(parts, "cc7_track_no_reacquisition_drift_basis_points"@, constants.track_no_reacquisition_drift_basis_points),
        threshold_is(parts, "cc7_d2_continuous_area_wrong_model_pixels_tenths"@, constants.d2_continuous_area_wrong_model_pixels_tenths),
        threshold_is(parts, "cc7_source_width"@, constants.source_width),
        threshold_is(parts, "cc7_source_height"@, constants.source_height),
        threshold_is(parts, "cc7_source_fps"@, constants.source_fps),
        threshold_is(parts, "cc7_source_frames"@, constants.source_frames),
        threshold_is(parts, "cc7_track_frames"@, constants.track_frames),
        threshold_is(parts, "cc7_surround_code"@, constants.surround_code),
        threshold_is(parts, "cc7_chart_patch_width"@, constants.chart_patch_width),
        threshold_is(parts, "cc7_row_patch_width"@, constants.row_patch_width),
        threshold_is(parts, "cc7_chart_patch_pixels"@, constants.chart_patch_pixels),
        threshold_is(parts, "cc7_primary_patch_count"@, constants.primary_patch_count),
        threshold_is(parts, "cc7_chart_patch_count"@, constants.chart_patch_count),
{
    let list = threshold_list(constants);
    lemma_listed_is_declared(parts, list);
    assert(threshold_is(parts, list[21].0@, list[21].1));
    assert(threshold_is(parts, list[22].0@, list[22].1));
    assert(threshold_is(parts, list[23].0@, list[23].1));
    assert(threshold_is(parts, list[24].0@, list[24].1));
    assert(threshold_is(parts, list[25].0@, list[25].1));
    assert(threshold_is(parts, list[26].0@, list[26].1));
    assert(threshold_is(parts, list[27].0@, list[27].1));
    assert(threshold_is(parts, list[28].0@, list[28].1));
    assert(threshold_is(parts, list[29].0@, list[29].1));
    assert(threshold_is(parts, list[30].0@, list[30].1));
    assert(threshold_is(parts, list[31].0@, list[31].1));
    assert(threshold_is(parts, list[32].0@, list[32].1));
    assert(threshold_is(parts, list[33].0@, list[33].1));
    assert(threshold_is(parts, list[34].0@, list[34].1));
    assert(threshold_is(parts, list[35].0@, list[35].1));
    assert(threshold_is(parts, list[36].0@, list[36].1));
    assert(threshold_is(parts, list[37].0@, list[37].1));
    assert(threshold_is(parts, list[38].0@, list[38].1));
    assert(threshold_is(parts, list[39].0@, list[39].1));
    assert(threshold_is(parts, list[40].0@, list[40].1));
    assert(threshold_is(parts, list[41].0@, list[41].1));
}

/// Where the thresholds pass, the manifest declares each constant under its own
/// name: the third quarter of them.
pub proof fn lemma_constants_by_name_from_42(
    parts: Map<Seq<Seq<char>>, JsonPart>,
    constants: Cc7Constants,
)
    requires
        thresholds_declared(parts, threshold_list(constants), Ok(())),
    ensures
        threshold_is(parts, "cc7_row_patch_pixels"@, constants.row_patch_pixels),
        threshold_is(parts, "cc7_product_patch_pixel_count"@, constants.product_patch_pixel_count),
        threshold_is(parts, "cc7_track_square_size"@, constants.track_square_size),
        threshold_is(parts, "cc7_track_step_frames"@, constants.track_step_frames),
        threshold_is(parts, "cc7_track_search_radius_percent"@, constants.track_search_radius_percent),
        threshold_is(parts, "cc7_track_max_width"@, constants.track_max_width),
        threshold_is(parts, "cc7_track_occlusion_first_frame"@, constants.track_occlusion_first_frame),
        threshold_is(parts, "cc7_track_occlusion_last_frame"@, constants.track_occlusion_last_frame),
        threshold_is(parts, "cc7_track_centre_x_pixels"@, constants.track_centre_x_pixels),
        threshold_is(parts, "cc7_track_amplitude_x_pixels"@, constants.track_amplitude_x_pixels),
        threshold_is(parts, "cc7_track_centre_y_pixels"@, constants.track_centre_y_pixels),
        threshold_is(parts, "cc7_track_amplitude_y_pixels"@, constants.track_amplitude_y_pixels),
        threshold_is(parts, "cc7_track_lagging_final_keyframe"@, constants.track_lagging_final_keyframe),
        threshold_is(parts, "cc7_track_seeded_window_half_width_basis_points"@, constants.track_seeded_window_half_width_basis_points),
        threshold_is(parts, "cc7_track_seeded_window_half_height_basis_points"@, constants.track_seeded_window_half_height_basis_points),
        threshold_is(parts, "cc7_track_window_half_width_basis_points"@, constants.track_window_half_width_basis_points),
        threshold_is(parts, "cc7_track_window_half_height_basis_points"@, constants.track_window_half_height_basis_points),
        threshold_is(parts, "cc7_track_containment_required_half_width_pixels_reported"@, constants.track_containment_required_half_width_pixels_reported),
        threshold_is(parts, "cc7_track_containment_required_half_height_pixels_reported"@, constants.track_containment_required_half_height_pixels_reported),
        threshold_is(parts, "cc7_track_containment_worst_margin_x_pixels_hundredths"@, constants.track_containment_worst_margin_x_pixels_hundredths),
        threshold_is(parts, "cc7_track_containment_worst_margin_y_pixels_hundredths"@, constants.track_containment_worst_margin_y_pixels_hundredths),
{
    let list = threshold_list(constants);
    lemma_listed_is_declared(parts, list);
    assert(threshold_is(parts, list[42].0@, list[42].1));
    assert(threshold_is(parts, list[43].0@, list[43].1));
    assert(threshold_is(parts, list[44].0@, list[44].1));
    assert(threshold_is(parts, list[45].0@, list[45].1));
    assert(threshold_is(parts, list[46].0@, list[46].1));
    assert(threshold_is(parts, list[47].0@, list[47].1));
    assert(threshold_is(parts, list[48].0@, list[48].1));
    assert(threshold_is(parts, list[49].0@, list[49].1));
    assert(threshold_is(parts, list[50].0@, list[50].1));
    assert(threshold_is(parts, list[51].0@, list[51].1));
    assert(threshold_is(parts, list[52].0@, list[52].1));
    assert(threshold_is(parts, list[53].0@, list[53].1));
    assert(threshold_is(parts, list[54].0@, list[54].1));
    assert(threshold_is(parts, list[55].0@, list[55].1));
    assert(threshold_is(parts, list[56].0@, list[56].1));
    assert(threshold_is(parts, list[57].0@, list[57].1));
    assert(threshold_is(parts, list[58].0@, list[58].1));
    assert(threshold_is(parts, list[59].0@, list[59].1));
    assert(threshold_is(parts, list[60].0@, list[60].1));
    assert(threshold_is(parts, list[61].0@, list[61].1));
    assert(threshold_is(parts, list[62].0@, list[62].1));
}

/// Where the thresholds pass, the manifest declares each constant under its own
/// name: the last quarter of them.
pub proof fn lemma_constants_by_name_from_63(
    parts: Map<Seq<Seq<char>>, JsonPart>,
    constants: Cc7Constants,
)
    requires
        thresholds_declared(parts, threshold_list(constants), Ok(())),
    ensures
        threshold_is(parts, "cc7_track_confidence_separation_min_basis_points"@, constants.track_confidence_separation_min_basis_points),
        threshold_is(parts, "cc7_feather_basis_points"@, constants.feather_basis_points),
        threshold_is(parts, "cc7_secondary_saturation_percent"@, constants.secondary_saturation_percent),
        threshold_is(parts, "cc7_look_mix_basis_points"@, constants.look_mix_basis_points),
        threshold_is(parts, "cc7_log_offset_stops"@, constants.log_offset_stops),
        threshold_is(parts, "cc7_log_span_stops"@, constants.log_span_stops),
        threshold_is(parts, "cc7_log_floor_linear_millionths"@, constants.log_floor_linear_millionths),
        threshold_is(parts, "cc7_look_blue_zero_crossing_display709_millionths"@, constants.look_blue_zero_crossing_display709_millionths),
        threshold_is(parts, "cc7_look_blue_zero_crossing_linear_millionths"@, constants.look_blue_zero_crossing_linear_millionths),
        threshold_is(parts, "cc7_skin_in_band_exact_basis_points"@, constants.skin_in_band_exact_basis_points),
        threshold_is(parts, "cc7_matte_outside_changed_pixels_max"@, constants.matte_outside_changed_pixels_max),
        threshold_is(parts, "cc7_delivery_leg_budget_seconds_linux"@, constants.delivery_leg_budget_seconds_linux),
        threshold_is(parts, "cc7_scope_sixteen_bit_scale"@, constants.scope_sixteen_bit_scale),
        threshold_is(parts, "cc7_log_first_percentile_min_code8_prose"@, constants.log_first_percentile_min_code8_prose),
        threshold_is(parts, "cc7_log_p99_max_code8_prose"@, constants.log_p99_max_code8_prose),
        threshold_is(parts, "cc7_matte_sample_hue_width_centidegrees"@, constants.matte_sample_hue_width_centidegrees),
        threshold_is(parts, "cc7_matte_sample_softness"@, constants.matte_sample_softness),
        threshold_is(parts, "cc7_matte_sample_band_margin_basis_points"@, constants.matte_sample_band_margin_basis_points),
        threshold_is(parts, "cc7_product_sample_hue_median_centidegrees"@, constants.product_sample_hue_median_centidegrees),
        threshold_is(parts, "cc7_product_sample_saturation_basis_points"@, constants.product_sample_saturation_basis_points),
        threshold_is(parts, "cc7_product_sample_luma_basis_points"@, constants.product_sample_luma_basis_points),
{
    let list = threshold_list(constants);
    lemma_listed_is_declared(parts, list);
    assert(threshold_is(parts, list[63].0@, list[63].1));
    assert(threshold_is(parts, list[64].0@, list[64].1));
    assert(threshold_is(parts, list[65].0@, list[65].1));
    assert(threshold_is(parts, list[66].0@, list[66].1));
    assert(threshold_is(parts, list[67].0@, list[67].1));
    assert(threshold_is(parts, list[68].0@, list[68].1));
    assert(threshold_is(parts, list[69].0@, list[69].1));
    assert(threshold_is(parts, list[70].0@, list[70].1));
    assert(threshold_is(parts, list[71].0@, list[71].1));
    assert(threshold_is(parts, list[72].0@, list[72].1));
    assert(threshold_is(parts, list[73].0@, list[73].1));
    assert(threshold_is(parts, list[74].0@, list[74].1));
    assert(threshold_is(parts, list[75].0@, list[75].1));
    assert(threshold_is(parts, list[76].0@, list[76].1));
    assert(threshold_is(parts, list[77].0@, list[77].1));
    assert(threshold_is(parts, list[78].0@, list[78].1));
    assert(threshold_is(parts, list[79].0@, list[79].1));
    assert(threshold_is(parts, list[80].0@, list[80].1));
    assert(threshold_is(parts, list[81].0@, list[81].1));
    assert(threshold_is(parts, list[82].0@, list[82].1));
    assert(threshold_is(parts, list[83].0@, list[83].1));
}

/// Thresholds pass exactly where they are an object of numbers, whose names are
/// those of the list, each with the integer of the list.
pub proof fn lemma_thresholds_exactly(
    parts: Map<Seq<Seq<char>>, JsonPart>,
    list: Seq<(&'static str, i64)>,
    members: Set<Seq<char>>,
)
    requires
        parts.dom().contains(seq!["thresholds"@]),
        parts[seq!["thresholds"@]] == JsonPart::Object(members),
    ensures
        thresholds_declared(parts, list, Ok(())) <==> {
            &&& forall|i: int|
                0 <= i < list.len() ==> threshold_is(parts, (#[trigger] list[i]).0@, list[i].1)
            &&& forall|i: int| 0 <= i < list.len() ==> members.contains((#[trigger] list[i]).0@)
            &&& forall|name: Seq<char>| #[trigger]
                members.contains(name) ==> exists|i: int|
                    0 <= i < list.len() && (#[trigger] list[i]).0@ == name
        },
{
    let names = threshold_names(list);
    if thresholds_declared(parts, list, Ok(())) {
        lemma_listed_is_declared(parts, list);
        assert forall|i: int| 0 <= i < list.len() implies members.contains(
            (#[trigger] list[i]).0@,
        ) by {
            assert(names[i] == list[i].0@);
            assert(names.to_set().contains(names[i]));
        }
        assert forall|name: Seq<char>| #[trigger] members.contains(name) implies exists|i: int|
            0 <= i < list.len() && (#[trigger] list[i]).0@ == name by {
            let i = choose|i: int| 0 <= i < names.len() && names[i] == name;
            assert(list[i].0@ == name);
        }
    }
    let listed = forall|i: int|
        0 <= i < list.len() ==> threshold_is(parts, (#[trigger] list[i]).0@, list[i].1);
    let owned = forall|i: int| 0 <= i < list.len() ==> members.contains((#[trigger] list[i]).0@);
    let known = forall|name: Seq<char>| #[trigger]
        members.contains(name) ==> exists|i: int|
            0 <= i < list.len() && (#[trigger] list[i]).0@ == name;
    if listed && owned && known {
        assert forall|name: Seq<char>| #[trigger] members.contains(name) implies number_at(
            parts,
            seq!["thresholds"@, name],
        ) by {
            let i = choose|i: int| 0 <= i < list.len() && (#[trigger] list[i]).0@ == name;
            assert(threshold_is(parts, list[i].0@, list[i].1));
        }
        assert forall|i: int| 0 <= i < list.len() implies threshold_declared(
            parts,
            #[trigger] list[i],
        ) is Ok by {
            assert(threshold_is(parts, list[i].0@, list[i].1));
        }
        assert forall|name: Seq<char>| members.contains(name) <==> #[trigger] names.to_set().contains(
            name,
        ) by {
            if members.contains(name) {
                let i = choose|i: int| 0 <= i < list.len() && (#[trigger] list[i]).0@ == name;
                assert(names[i] == name);
            }
            if names.contains(name) {
                let i = choose|i: int| 0 <= i < names.len() && names[i] == name;
                assert(list[i].0@ == name);
            }
        }
        assert(members =~= names.to_set());
    }
}

/// A manifest and a list determine what holding them against each other gives.
pub proof fn lemma_thresholds_are_determined(
    parts: Map<Seq<Seq<char>>, JsonPart>,
    list: Seq<(&'static str, i64)>,
    left: Result<(), ThresholdFailure>,
    right: Result<(), ThresholdFailure>,
)
    requires
        thresholds_declared(parts, list, left),
        thresholds_declared(parts, list, right),
    ensures
        left is Ok <==> right is Ok,
        left is Err ==> left->Err_0 == right->Err_0,
{
    lemma_undeclared_constant(parts, list, left, right);
    lemma_undeclared_constant(parts, list, right, left);
}

proof fn lemma_undeclared_constant(
    parts: Map<Seq<Seq<char>>, JsonPart>,
    list: Seq<(&'static str, i64)>,
    left: Result<(), ThresholdFailure>,
    right: Result<(), ThresholdFailure>,
)
    requires
        thresholds_declared(parts, list, left),
        thresholds_declared(parts, list, right),
    ensures
        left matches Err(ThresholdFailure::Constant { index, failure }) ==> !all_declared(
            parts,
            list,
        ) && (right matches Err(ThresholdFailure::Constant { index: other, failure: reason })
            && index <= other),
{
    if let Err(ThresholdFailure::Constant { index, failure }) = left {
        let here = list[index as int];
        assert(threshold_declared(parts, here) is Err);
        assert(!all_declared(parts, list));
        if let Err(ThresholdFailure::Constant { index: other, failure: reason }) = right {
            if other > index {
                assert(list.take(other as int)[index as int] == here);
            }
            if index > other {
                let there = list[other as int];
                assert(list.take(index as int)[other as int] == there);
            }
        }
    }
}

} // verus!
