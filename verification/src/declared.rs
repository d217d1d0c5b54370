//! The declared tests, source file by source file.

use vstd::prelude::*;

use crate::naming::{
    deduplicated, in_order, lemma_same_multiset_same_names, names_of, precedes, slices_of, sorted,
};
use crate::text::{occurs_at, strings_equal};

verus! {

/// The matte tests that the fixtures file owns.
pub const CC5_MEDIA_TESTS: [&'static str; 22] = [
    "cc5_rasters_cover_their_controls_and_land_on_pixel_centres",
    "cc5_every_matte_control_bound_matches_a_hand_derived_expected_value",
    "cc5_degenerate_window_half_extents_weigh_exactly_zero",
    "cc5_affected_pixel_containment_is_exact_on_cpu_and_gpu",
    "cc5_window_geometry_anchors_are_hand_derived_on_cpu_and_gpu",
    "cc5_feather_anchors_and_symmetry_match_the_contract",
    "cc5_window_combine_is_hand_derived_on_cpu_and_gpu",
    "cc5_qualifier_anchors_match_the_hand_derived_values",
    "cc5_mix_and_invert_scale_the_coverage_exactly",
    "cc5_keyframed_window_motion_moves_the_covered_set",
    "cc5_gpu_compositor_matches_the_cpu_reference_on_software_fallback",
    "cc5_gpu_compositor_matches_the_cpu_reference_on_hardware",
    "cc5_matte_proof_matches_the_cpu_reference_coverage",
    "cc5_matte_scoped_scopes_measure_exactly_the_affected_set",
    "cc5_tracked_shot_window_contains_the_subject_at_every_frame",
    "cc5_migration_is_bit_identical_and_the_mask_never_interacts",
    "cc5_buffer_layout_limits_and_abi_constants_hold",
    "cc5_performance_evidence_is_recorded_on_software_fallback",
    "cc5_performance_evidence_is_recorded_on_hardware",
    "cc5_skin_and_product_qualifiers_select_only_their_patch",
    "cc5_manifest_declares_every_required_fixture_and_constant",
    "cc5_declared_test_names_exist_in_their_source_files",
];

/// The matte tests that drive the media engine, next to the seam they need.
pub const CC5_ENGINE_TESTS: [&'static str; 5] = [
    "cc5_matte_proof_reports_exact_window_coverage_and_metadata",
    "cc5_matte_proof_fails_typed_instead_of_returning_a_blank_frame",
    "cc5_matte_proof_refuses_a_clip_that_is_not_visible_at_the_frame",
    "cc5_matte_proof_ignores_a_layer_above_the_target_clip",
    "cc5_matte_proof_follows_a_keyframed_window_center",
];

/// The matte tests next to the buffer layout that they pin.
/// Not all of them carry the prefix, so they are named one by one.
pub const CC5_COMPOSITOR_TESTS: [&'static str; 3] = [
    "cc5_matte_gpu_anchors_hold_on_hardware",
    "matte_block_layout_is_the_cc5_word_map",
    "a_pre_cc5_document_renders_bit_identically",
];

/// The two matte tests that hold the inventory itself.
pub const CC5_INVENTORY_TESTS: [&'static str; 2] = [
    "cc5_manifest_declares_every_required_fixture_and_constant",
    "cc5_declared_test_names_exist_in_their_source_files",
];

/// The source files that own a matte test.
pub const CC5_TEST_SOURCES: [&'static str; 9] = [
    "crates/kinewright-media/src/cc5_fixtures.rs",
    "crates/kinewright-media/src/engine.rs",
    "crates/kinewright-media/src/compositor.rs",
    "crates/kinewright-core/tests/cc5_core.rs",
    "crates/kinewright-core/tests/cc5_core_proof.rs",
    "crates/kinewright-agent/src/server.rs",
    "crates/kinewright-agent/src/color_status.rs",
    "crates/kinewright-agent/src/color_scopes.rs",
    "crates/kinewright-agent/tests/mcp_server.rs",
];

/// The delivery tests of the media crate.
pub const CC6_MEDIA_TESTS: [&'static str; 25] = [
    "cc6_qc_raster_populations_are_the_contract_table",
    "cc6_delivery_source_moves_the_pinned_element_across_the_sampled_frames",
    "cc6_eight_bit_encoded_delivery_passes_tag_luma_and_difference_budgets",
    "cc6_ten_bit_encoded_delivery_passes_tag_luma_and_difference_budgets",
    "cc6_starved_bitrate_export_trips_the_decoded_difference_budget",
    "cc6_starved_bitrate_ten_bit_export_trips_the_decoded_difference_budget",
    "cc6_per_node_contribution_order_matches_production_z_order",
    "cc6_core_delivery_transfer_is_bit_identical_to_the_media_transfer",
    "cc6_performance_evidence_is_recorded_on_software_fallback",
    "cc6_performance_evidence_is_recorded_on_hardware",
    "cc6_manifest_declares_every_required_fixture_and_constant",
    "cc6_declared_test_names_exist_in_their_source_files",
    "cc6_working_proof_matches_the_cpu_reference_on_the_software_lane",
    "cc6_working_proof_matches_the_cpu_reference_on_hardware",
    "cc6_working_proof_refuses_a_claim_that_is_not_full_resolution",
    "cc6_decoded_native_planes_report_ycbcr_excursions_in_delivery_code_units",
    "cc6_delivery_verification_plane_out_of_container_is_typed",
    "cc6_eight_bit_export_verifies_end_to_end_through_the_production_surface",
    "cc6_verification_refuses_an_export_whose_edit_list_drops_the_last_frame",
    "cc6_delivery_reference_denominator_is_the_delivery_intermediate_white",
    "cc6_delivery_budgets_are_distinct_from_the_compositor_gate",
    "cc6_an_unseen_plane_reports_the_empty_interval_and_an_empty_sample_set_is_refused",
    "cc6_verification_refuses_budgets_from_the_other_delivery_lane",
    "cc6_verification_refuses_a_frame_count_the_sampler_would_have_clamped",
    "cc6_a_decoded_frame_that_is_not_the_requested_frame_is_refused",
];

/// The media files that own a delivery test.
pub const CC6_MEDIA_TEST_SOURCES: [&'static str; 3] = [
    "crates/kinewright-media/src/cc6_fixtures.rs",
    "crates/kinewright-media/src/compositor.rs",
    "crates/kinewright-media/src/verify.rs",
];

/// The delivery gate's own unit tests, which carry no prefix.
pub const CC6_EXPORT_TESTS: [&'static str; 10] = [
    "accepts_the_ten_bit_sdr_rec709_delivery_contract",
    "rejects_a_delivery_depth_outside_the_two_managed_lanes",
    "delivery_lane_pixel_format_matches_the_core_lane_names",
    "libx264_advertises_both_delivery_lane_pixel_formats",
    "rejects_a_pixel_format_that_does_not_carry_the_declared_delivery_depth",
    "rejects_a_delivery_pixel_format_this_build_does_not_advertise",
    "delivery_filter_converts_sixteen_bit_full_range_rgb_to_limited_yuv420p10le",
    "delivery_nominal_white_encodes_to_legal_white_through_the_export_filter",
    "ten_bit_export_probes_as_rec709_limited_ten_bit_yuv420p10le",
    "every_exported_frame_is_presented_after_the_mp4_edit_list",
];

/// The delivery tests of the core crate.
pub const CC6_CORE_TESTS: [&'static str; 20] = [
    "cc6_range_anchors_match_the_hand_derived_delivery_encode",
    "cc6_negative_range_anchors_take_the_power_branch",
    "cc6_gamut_and_range_under_describe_the_same_pixel_set",
    "cc6_bt709_forward_ycbcr_matches_the_spec_at_eight_and_ten_bits",
    "cc6_bt709_limited_ycbcr_refuses_a_depth_that_is_not_a_delivery_lane",
    "cc6_ycbcr_legal_bounds_are_strict_through_the_measurement",
    "cc6_skin_band_constants_are_derived_from_the_cc5_patches",
    "cc6_skin_diagnostics_report_circular_statistics_on_a_chosen_region",
    "cc6_working_proof_refuses_a_claim_that_is_not_full_resolution",
    "cc6_delivery_tag_check_covers_both_modes_and_marks_white_point_not_representable",
    "cc6_per_node_contribution_attributes_clipping_to_the_node_that_causes_it",
    "cc6_per_node_candidates_find_the_on_screen_clip_whatever_the_clip_order",
    "cc6_typed_qc_refusals_carry_code_field_observed_and_allowed",
    "cc6_non_finite_samples_are_counted_and_never_classified",
    "cc6_exceptions_sort_by_severity_then_code_then_field",
    "cc6_delivery_verification_sampling_is_the_closed_form_integer_rule",
    "cc6_delivery_verification_refuses_a_frame_count_outside_the_sampled_range",
    "cc6_export_settings_and_job_records_serialize_deterministically",
    "cc6_qc_refusals_keep_their_code_through_media_error",
    "cc6_plane_excursion_basis_points_count_both_directions",
];

/// The delivery tests of the agent crate.
pub const CC6_AGENT_TESTS: [&'static str; 10] = [
    "cc6_a_cancel_before_verification_records_why_the_file_is_unmeasured",
    "cc6_get_color_qc_is_evidence_only_and_revision_gated",
    "cc6_video_scopes_v2_points_at_get_color_qc_instead_of_a_fabricated_zero",
    "cc6_a_verified_export_publishes_its_decoded_comparison_on_the_record",
    "cc6_a_failing_verification_completes_the_job_and_leaves_the_output_alone",
    "cc6_a_panicking_verification_is_contained_and_leaves_the_output_alone",
    "cc6_an_unavailable_verification_records_its_reason_instead_of_a_pass",
    "cc6_cancelling_during_a_verification_leaves_the_record_cancelled_and_unverified",
    "cc6_verify_false_skips_the_measurement_and_serializes_byte_identically",
    "cc6_a_pre_cc6_job_record_deserializes_with_the_eight_bit_lane_and_no_verification",
];

/// The delivery tests of the app crate.
pub const CC6_APP_TESTS: [&'static str; 9] = [
    "cc6_a_panicking_verification_is_contained_and_the_encode_is_still_reported",
    "cc6_qc_mask_marks_only_the_flagged_pixels",
    "cc6_scopes_panel_renders_absolute_per_channel_clipping",
    "cc6_export_dialog_reports_the_verification_result",
    "cc6_export_dialog_and_queue_agree_on_delivery_color",
    "cc6_verification_block_reports_every_probed_tag_field",
    "cc6_the_dialog_names_the_verifying_stage_instead_of_freezing_the_bar",
    "cc6_cancelling_before_verification_reports_not_verified_with_the_reason",
    "cc6_conformance_cache_does_not_cross_delivery_lanes",
];

/// The two delivery tests that hold the inventory itself.
pub const CC6_INVENTORY_TESTS: [&'static str; 2] = [
    "cc6_manifest_declares_every_required_fixture_and_constant",
    "cc6_declared_test_names_exist_in_their_source_files",
];

/// The source files that own a delivery test.
pub const CC6_TEST_SOURCES: [&'static str; 10] = [
    "crates/kinewright-media/src/cc6_fixtures.rs",
    "crates/kinewright-media/src/compositor.rs",
    "crates/kinewright-media/src/verify.rs",
    "crates/kinewright-media/src/export.rs",
    "crates/kinewright-core/tests/cc6_core.rs",
    "crates/kinewright-agent/tests/mcp_server.rs",
    "crates/kinewright-agent/src/export_queue.rs",
    "crates/kinewright-app/src/preview_ui.rs",
    "crates/kinewright-app/src/color_scopes_ui.rs",
    "crates/kinewright-app/src/export_ui.rs",
];

/// The media files that own a workflow test.
pub const CC7_MEDIA_TEST_SOURCES: [&'static str; 2] = [
    "crates/kinewright-media/src/cc7_fixtures.rs",
    "crates/kinewright-media/src/cc7_sources.rs",
];

/// The workflow tests of the media crate.
pub const CC7_MEDIA_TESTS: [&'static str; 41] = [
    "cc7_mixed_camera_match_meets_the_neutral_spread_and_luma_budgets",
    "cc7_a_the_unmatched_candidate_exceeds_the_neutral_spread_budget",
    "cc7_a_the_unrecoverable_candidate_exceeds_the_neutral_spread_budget",
    "cc7_a_the_unmatched_candidate_exceeds_the_luma_mean_budget",
    "cc7_a_the_intentional_difference_survives_the_match",
    "cc7_a_skin_band_rejects_the_product_row",
    "cc7_wrong_balance_clamps_temperature_and_raises_one_range_warning",
    "cc7_b_c1_publishes_no_clamp",
    "cc7_b1_residual_spread_meets_the_match_budget",
    "cc7_b1_the_uncorrected_candidate_exceeds_the_residual_budget",
    "cc7_b_c1_raises_no_range_excursion",
    "cc7_log_inverse_lands_every_patch_inside_the_budget",
    "cc7_c_an_identity_cube_does_not_undo_the_log_curve",
    "cc7_c_the_cube_size_sweep_is_monotone_and_size_seventeen_fails",
    "cc7_product_qualifier_covers_exactly_its_patch_and_changes_nothing_outside",
    "cc7_d_a_qualifier_that_selects_two_patches_is_rejected",
    "cc7_d_the_skin_hue_is_unmoved_by_the_product_qualifier",
    "cc7_d_a_qualifier_over_the_skin_row_moves_the_skin_hue",
    "cc7_feather_counts_match_the_discrete_pixel_centre_model",
    "cc7_d_feather_zero_has_no_partial_pixels",
    "cc7_warm_look_out_of_gamut_count_is_exact_on_the_deep_shadow_patch",
    "cc7_e_the_base_scene_without_the_look_is_in_gamut",
    "cc7_tracked_window_contains_the_square_at_every_sampled_frame",
    "cc7_f_a_window_smaller_than_the_square_loses_containment",
    "cc7_every_scenario_verifies_at_eight_bits",
    "cc7_every_scenario_verifies_at_ten_bits",
    "cc7_g_a_starved_encode_trips_the_decoded_difference_budget",
    "cc7_canonical_node_stack_matches_the_cpu_reference_on_the_software_lane",
    "cc7_canonical_node_stack_matches_the_cpu_reference_on_hardware",
    "cc7_core_transcriptions_agree_with_the_pipeline",
    "cc7_scenario_luma_percentiles_match_the_manifest",
    "cc7_manifest_declares_every_required_fixture_and_constant",
    "cc7_declared_test_names_exist_in_their_source_files",
    "cc7_base_scene_populations_are_the_contract_table",
    "cc7_the_chart_band_is_achromatic_and_the_primaries_band_has_no_red",
    "cc7_camera_sources_differ_from_the_reference_at_every_neutral_patch",
    "cc7_log_source_is_not_the_base_scene",
    "cc7_tracked_source_moves_and_occludes",
    "cc7_tracked_square_never_covers_the_static_patch_row",
    "cc7_ffv1_round_trip_is_byte_exact",
    "cc7_log_like_inverse_cube_is_canonical_text_of_the_pinned_size",
];

/// The core file that owns a workflow test.
pub const CC7_CORE_TEST_SOURCES: [&'static str; 1] = ["crates/kinewright-core/tests/cc7_core.rs"];

/// The workflow tests of the core crate.
pub const CC7_CORE_TESTS: [&'static str; 12] = [
    "cc7_scenario_geometry_round_trips_through_normalized_roi",
    "cc7_chart_and_primary_codes_are_the_contract_table",
    "cc7_camera_a_patch_codes_are_the_hand_derived_display_encoding",
    "cc7_log_curve_anchors_and_patch_codes_are_the_contract_table",
    "cc7_log_inverse_error_floors_are_properties_of_the_curve",
    "cc7_camera_transforms_are_applied_in_linear_light",
    "cc7_analytic_square_path_stays_in_frame_and_clears_the_patch_row",
    "cc7_tracking_sample_frames_are_the_closed_form_distribution",
    "cc7_budgets_are_distinct_from_every_neighbouring_constant",
    "cc7_every_budget_carries_the_declared_margin",
    "cc7_canonical_operations_are_accepted_by_core_in_order",
    "cc7_the_keyframe_smoother_transcription_matches_core",
];

/// The agent file that owns a workflow test.
pub const CC7_AGENT_TEST_SOURCES: [&'static str; 1] = ["crates/kinewright-agent/tests/mcp_server.rs"];

/// The workflow tests of the agent crate.
pub const CC7_AGENT_TESTS: [&'static str; 8] = [
    "cc7_the_agent_surface_is_unchanged_by_this_slice",
    "cc7_a_mixed_camera_match_retains_the_reference_and_lands_the_canonical_grade",
    "cc7_b_wrong_balance_publishes_the_clamp_and_the_range_warning",
    "cc7_c_log_like_input_is_normalised_by_an_imported_technical_lut",
    "cc7_d_product_qualifier_selects_its_patch_and_leaves_skin_alone",
    "cc7_e_creative_look_bypass_matches_absent_and_reports_its_gamut",
    "cc7_f_tracked_secondary_drops_only_the_occluded_samples",
    "cc7_f2_the_default_floor_does_not_refuse",
];

/// The app files that own a workflow test.
pub const CC7_APP_TEST_SOURCES: [&'static str; 2] = [
    "crates/kinewright-app/src/inspector_ui.rs",
    "crates/kinewright-app/src/look_browser_ui.rs",
];

/// The workflow tests of the app crate.
pub const CC7_APP_TESTS: [&'static str; 7] = [
    "cc7_a_a_person_can_author_the_matched_primary_by_hand",
    "cc7_b_the_temperature_slider_stops_where_the_planner_clamps",
    "cc7_c_a_person_can_import_and_bind_the_technical_lut",
    "cc7_d_a_person_can_author_the_product_qualifier_by_hand",
    "cc7_d2_a_person_can_author_the_window_only_matte_by_hand",
    "cc7_f_the_person_path_is_not_available_and_says_so",
    "cc7_e_a_person_can_add_the_built_in_warm_look",
];

/// The evaluation files that own a workflow test.
pub const CC7_EVAL_TEST_SOURCES: [&'static str; 2] = [
    "crates/kinewright-agent/src/eval.rs",
    "crates/kinewright-agent/src/bin/kinewright-eval.rs",
];

/// The workflow tests of the evaluation harness.
pub const CC7_EVAL_TESTS: [&'static str; 28] = [
    "cc7_a_v5_result_serialises_byte_identically_without_measurements",
    "cc7_track_keyframes_match_expected_reads_the_committed_document",
    "cc7_a_colour_assertion_without_evidence_fails_rather_than_passing",
    "cc7_only_colour_assertions_emit_measurements",
    "cc7_a_colour_request_is_derived_from_the_assertions_only",
    "cc7_human_review_v1_files_still_load_and_score",
    "cc7_human_review_v2_round_trips_blind_id_and_questions",
    "cc7_accepted_requires_every_question_answered",
    "cc7_blind_ids_are_derived_from_the_artifact_digest",
    "cc7_patch_statistics_are_taken_on_a_two_pixel_inset",
    "cc7_coverage_cropping_is_exact_and_never_inset",
    "cc7_color_evidence_is_computed_where_the_analysis_is_alive",
    "cc7_delivery_verification_without_a_deliverable_is_recorded_as_an_error",
    "cc7_the_colour_template_marks_the_editorial_dimensions_not_applicable",
    "cc7_a_fixture_project_path_reaches_the_server",
    "cc7_the_blind_package_discloses_no_machine_provenance",
    "cc7_score_review_resolves_a_blind_form_before_binding",
    "cc7_one_viewing_scores_every_row_with_the_same_artifact",
    "cc7_a_blind_form_without_its_key_is_refused_by_name",
    "cc7_score_review_still_takes_the_plain_human_review_path",
    "cc7_every_suite_constructor_declares_a_delivery_bit_depth",
    "cc7_color_workflow_suite_is_a_packaged_benchmark",
    "cc7_the_usage_banner_lists_every_registered_suite",
    "cc7_every_color_task_carries_a_color_eval_request",
    "cc7_every_color_assertion_threshold_is_a_cc7_scenarios_constant",
    "cc7_the_color_review_template_asks_only_the_matrix_question",
    "cc7_every_color_fixture_builds_a_valid_document",
    "published_v6_manifest_tracks_the_color_workflow_suite",
];

/// The declared names without the prefix, which a prefix scan cannot find.
pub const CC7_EXPLICIT_TEST_NAMES: [&'static str; 1] = [
    "published_v6_manifest_tracks_the_color_workflow_suite",
];

/// The two workflow tests that hold the inventory itself.
pub const CC7_INVENTORY_TESTS: [&'static str; 2] = [
    "cc7_manifest_declares_every_required_fixture_and_constant",
    "cc7_declared_test_names_exist_in_their_source_files",
];

/// The helpers that a workflow gate must never reach for.
pub const CC7_FORBIDDEN_HELPERS: [&'static str; 3] = [
    "fixture_gpu_or_skip",
    "KINEWRIGHT_GPU_TESTS_MAY_SKIP",
    "std::env::var",
];

/// The typed codes of which a skip branch must assert one.
pub const CC7_SKIP_TYPED_CODES: [&'static str; 3] = [
    "matte_proof_unavailable",
    "working_proof_unavailable",
    "color_proof_render_failed",
];

/// The source files that own a workflow test.
pub const CC7_TEST_SOURCES: [&'static str; 8] = [
    "crates/kinewright-media/src/cc7_fixtures.rs",
    "crates/kinewright-media/src/cc7_sources.rs",
    "crates/kinewright-core/tests/cc7_core.rs",
    "crates/kinewright-agent/tests/mcp_server.rs",
    "crates/kinewright-agent/src/eval.rs",
    "crates/kinewright-agent/src/bin/kinewright-eval.rs",
    "crates/kinewright-app/src/inspector_ui.rs",
    "crates/kinewright-app/src/look_browser_ui.rs",
];

/// The one file that may consult the GPU skip opt-in.
pub const CC7_GPU_SKIP_OWNER: &'static str = "crates/kinewright-agent/tests/mcp_server.rs";

/// The first position of `path` among `paths`, or their number.
pub open spec fn position_from(paths: Seq<&'static str>, path: Seq<char>, from: int) -> int
    decreases paths.len() - from,
{
    if from < 0 || from >= paths.len() {
        paths.len() as int
    } else if paths[from]@ == path {
        from
    } else {
        position_from(paths, path, from + 1)
    }
}

/// The first position of `path` among `paths`, or their number.
pub open spec fn position(paths: Seq<&'static str>, path: Seq<char>) -> int {
    position_from(paths, path, 0)
}

/// The text that stands beside `path`.
fn test_source<'a>(paths: &[&'static str], texts: &[&'a str], path: &str) -> (text: &'a str)
    requires
        texts.len() == paths.len(),
        position(paths@, path@) < paths.len(),
    ensures
        text@ == texts@[position(paths@, path@)]@,
{
    let mut at: usize = 0;
    while !strings_equal(paths[at], path)
        invariant
            at < paths.len(),
            texts.len() == paths.len(),
            position(paths@, path@) < paths.len(),
            position(paths@, path@) == position_from(paths@, path@, at as int),
        decreases paths.len() - at,
    {
        assert(position_from(paths@, path@, at + 1) == position(paths@, path@));
        at += 1;
    }
    texts[at]
}

/// The text of one source of the matte tests.  `texts` holds the sources'
/// texts in the order of [`CC5_TEST_SOURCES`].
pub fn cc5_test_source<'a>(texts: &[&'a str], path: &str) -> (text: &'a str)
    requires
        texts.len() == CC5_TEST_SOURCES@.len(),
        position(CC5_TEST_SOURCES@, path@) < CC5_TEST_SOURCES@.len(),
    ensures
        text@ == texts@[position(CC5_TEST_SOURCES@, path@)]@,
{
    test_source(CC5_TEST_SOURCES.as_slice(), texts, path)
}

/// The text of one source of the delivery tests.  `texts` holds the sources'
/// texts in the order of [`CC6_TEST_SOURCES`].
pub fn cc6_test_source<'a>(texts: &[&'a str], path: &str) -> (text: &'a str)
    requires
        texts.len() == CC6_TEST_SOURCES@.len(),
        position(CC6_TEST_SOURCES@, path@) < CC6_TEST_SOURCES@.len(),
    ensures
        text@ == texts@[position(CC6_TEST_SOURCES@, path@)]@,
{
    test_source(CC6_TEST_SOURCES.as_slice(), texts, path)
}

/// The text of one source of the workflow tests.  `texts` holds the sources'
/// texts in the order of [`CC7_TEST_SOURCES`].
pub fn cc7_test_source<'a>(texts: &[&'a str], path: &str) -> (text: &'a str)
    requires
        texts.len() == CC7_TEST_SOURCES@.len(),
        position(CC7_TEST_SOURCES@, path@) < CC7_TEST_SOURCES@.len(),
    ensures
        text@ == texts@[position(CC7_TEST_SOURCES@, path@)]@,
{
    test_source(CC7_TEST_SOURCES.as_slice(), texts, path)
}

/// One crate's share of an inventory.
#[derive(Debug)]
pub struct InventoryGroup {
    pub label: &'static str,
    pub sources: Vec<&'static str>,
    pub tests: Vec<&'static str>,
}

/// A vector with the strings of a slice.
fn listed(names: &[&'static str]) -> (list: Vec<&'static str>)
    ensures
        list@ == names@,
{
    let mut list: Vec<&'static str> = Vec::new();
    let mut i: usize = 0;
    while i < names.len()
        invariant
            i <= names.len(),
            list@ == names@.take(i as int),
        decreases names.len() - i,
    {
        list.push(names[i]);
        i += 1;
        assert(list@ =~= names@.take(i as int));
    }
    assert(names@.take(names@.len() as int) =~= names@);
    list
}

/// The five shares of the workflow inventory, with the sources that own them.
pub fn cc7_inventory_groups() -> (groups: Vec<InventoryGroup>)
    ensures
        groups.len() == 5,
        groups@[0].label@ == "MEDIA"@,
        groups@[0].sources@ == CC7_MEDIA_TEST_SOURCES@,
        groups@[0].tests@ == CC7_MEDIA_TESTS@,
        groups@[1].label@ == "CORE"@,
        groups@[1].sources@ == CC7_CORE_TEST_SOURCES@,
        groups@[1].tests@ == CC7_CORE_TESTS@,
        groups@[2].label@ == "AGENT"@,
        groups@[2].sources@ == CC7_AGENT_TEST_SOURCES@,
        groups@[2].tests@ == CC7_AGENT_TESTS@,
        groups@[3].label@ == "APP"@,
        groups@[3].sources@ == CC7_APP_TEST_SOURCES@,
        groups@[3].tests@ == CC7_APP_TESTS@,
        groups@[4].label@ == "EVAL"@,
        groups@[4].sources@ == CC7_EVAL_TEST_SOURCES@,
        groups@[4].tests@ == CC7_EVAL_TESTS@,
{
    let mut groups: Vec<InventoryGroup> = Vec::new();
    groups.push(
        InventoryGroup {
            label: "MEDIA",
            sources: listed(CC7_MEDIA_TEST_SOURCES.as_slice()),
            tests: listed(CC7_MEDIA_TESTS.as_slice()),
        },
    );
    groups.push(
        InventoryGroup {
            label: "CORE",
            sources: listed(CC7_CORE_TEST_SOURCES.as_slice()),
            tests: listed(CC7_CORE_TESTS.as_slice()),
        },
    );
    groups.push(
        InventoryGroup {
            label: "AGENT",
            sources: listed(CC7_AGENT_TEST_SOURCES.as_slice()),
            tests: listed(CC7_AGENT_TESTS.as_slice()),
        },
    );
    groups.push(
        InventoryGroup {
            label: "APP",
            sources: listed(CC7_APP_TEST_SOURCES.as_slice()),
            tests: listed(CC7_APP_TESTS.as_slice()),
        },
    );
    groups.push(
        InventoryGroup {
            label: "EVAL",
            sources: listed(CC7_EVAL_TEST_SOURCES.as_slice()),
            tests: listed(CC7_EVAL_TESTS.as_slice()),
        },
    );
    groups
}

/// Adds the strings of a slice to a list of names.
fn add_names(names: &mut Vec<String>, list: &[&'static str])
    ensures
        names_of(final(names)@) == names_of(old(names)@) + slices_of(list@),
{
    let ghost before = names_of(names@);
    let mut i: usize = 0;
    assert(names_of(names@) =~= before + slices_of(list@).take(0));
    while i < list.len()
        invariant
            i <= list.len(),
            names_of(names@) == before + slices_of(list@).take(i as int),
        decreases list.len() - i,
    {
        let ghost prior = names_of(names@);
        let name = list[i].to_owned();
        let ghost view = name@;
        names.push(name);
        i += 1;
        proof {
            assert(names_of(names@) =~= prior.push(view));
            assert(slices_of(list@)[i - 1] == view);
            assert(slices_of(list@).take(i as int) =~= slices_of(list@).take(i - 1).push(view));
        }
    }
    assert(slices_of(list@).take(list@.len() as int) =~= slices_of(list@));
}

/// Every name that the workflow inventory declares, in order and once.
pub fn cc7_declared_test_names() -> (names: Vec<String>)
    ensures
        in_order(names_of(names@)),
        names_of(names@).no_duplicates(),
        forall|name: Seq<char>| #[trigger] names_of(names@).contains(name) <==> cc7_declares(name),
        names@.len() == 96,
{
    let mut names: Vec<String> = Vec::new();
    assert(names_of(names@) =~= Seq::<Seq<char>>::empty());
    add_names(&mut names, CC7_MEDIA_TESTS.as_slice());
    add_names(&mut names, CC7_CORE_TESTS.as_slice());
    add_names(&mut names, CC7_AGENT_TESTS.as_slice());
    add_names(&mut names, CC7_APP_TESTS.as_slice());
    add_names(&mut names, CC7_EVAL_TESTS.as_slice());
    let ghost all = names_of(names@);
    assert(all =~= cc7_inventory());
    let ordered = sorted(names);
    let result = deduplicated(&ordered);
    proof {
        assert forall|name: Seq<char>|
            #[trigger] names_of(result@).contains(name) <==> cc7_declares(name) by {
            lemma_same_multiset_same_names(names_of(ordered@), all, name);
            assert(names_of(ordered@).contains(name) <==> all.contains(name));
            lemma_inventory(name);
        }
        lemma_declared_names_are_ninety_six(names_of(result@));
    }
    result
}

/// A name stands in one of two lists or in the other, where it stands in both
/// together.
proof fn lemma_sum_contains(left: Seq<Seq<char>>, right: Seq<Seq<char>>, name: Seq<char>)
    ensures
        (left + right).contains(name) <==> left.contains(name) || right.contains(name),
{
    if left.contains(name) {
        let i = choose|i: int| 0 <= i < left.len() && left[i] == name;
        assert((left + right)[i] == name);
    }
    if right.contains(name) {
        let i = choose|i: int| 0 <= i < right.len() && right[i] == name;
        assert((left + right)[left.len() + i] == name);
    }
}

/// The views of a list hold a name where one of its strings has it as view.
proof fn lemma_lists_name(list: Seq<&'static str>, name: Seq<char>)
    ensures
        slices_of(list).contains(name) <==> exists|i: int|
            0 <= i < list.len() && (#[trigger] list[i])@ == name,
{
    if slices_of(list).contains(name) {
        let i = choose|i: int| 0 <= i < slices_of(list).len() && slices_of(list)[i] == name;
        assert(list[i]@ == name);
    }
    if exists|i: int| 0 <= i < list.len() && (#[trigger] list[i])@ == name {
        let i = choose|i: int| 0 <= i < list.len() && (#[trigger] list[i])@ == name;
        assert(slices_of(list)[i] == name);
    }
}

/// Whether the workflow inventory declares this name.
pub open spec fn cc7_declares(name: Seq<char>) -> bool {
    ||| exists|i: int| 0 <= i < CC7_MEDIA_TESTS@.len() && (#[trigger] CC7_MEDIA_TESTS@[i])@ == name
    ||| exists|i: int| 0 <= i < CC7_CORE_TESTS@.len() && (#[trigger] CC7_CORE_TESTS@[i])@ == name
    ||| exists|i: int| 0 <= i < CC7_AGENT_TESTS@.len() && (#[trigger] CC7_AGENT_TESTS@[i])@ == name
    ||| exists|i: int| 0 <= i < CC7_APP_TESTS@.len() && (#[trigger] CC7_APP_TESTS@[i])@ == name
    ||| exists|i: int| 0 <= i < CC7_EVAL_TESTS@.len() && (#[trigger] CC7_EVAL_TESTS@[i])@ == name
}

/// A number that tells the names of the workflow inventory apart: a name's
/// length and two of its characters.
spec fn mark(name: Seq<char>) -> int {
    name.len() * 0x1_0000 + name[4] as int * 0x100 + name[19] as int
}

/// Whether a name begins with the name of the workflow suite.
spec fn begins_with_suite(name: Seq<char>) -> bool {
    name.len() > 4 && name[0] == 'c' && name[1] == 'c' && name[2] == '7' && name[3] == '_'
}

/// The marks of a list of names.
spec fn marks_of(list: Seq<&'static str>) -> Seq<int> {
    list.map_values(|name: &'static str| mark(name@))
}

#[verifier::opaque]
spec fn media_marks() -> Seq<int> {
    seq![
        4_222_324, 4_153_695, 4_415_841, 3_826_015, 3_367_265, 2_580_837, 4_290_412, 1_794_670,
        2_974_309, 3_957_364, 2_253_426, 3_370_084, 3_302_261, 4_088_671, 4_878_437, 3_564_648,
        3_564_649, 3_564_662, 3_696_237, 2_647_144, 4_355_942, 3_237_221, 4_027_491, 3_696_236,
        2_712_950, 2_581_878, 3_827_567, 4_678_515, 4_088_691, 3_105_641, 3_175_269, 3_763_557,
        3_368_033, 3_236_460, 4_355_177, 4_416_356, 2_387_055, 2_454_637, 3_437_678, 2_188_895,
        4_090_981,
    ]
}

#[verifier::opaque]
spec fn core_marks() -> Seq<int> {
    seq![
        3_699_570, 3_302_258, 4_088_675, 3_959_922, 3_697_775, 3_236_717, 4_219_231, 3_896_415,
        3_760_756, 2_909_554, 3_564_404, 3_437_679,
    ]
}

#[verifier::opaque]
spec fn agent_marks() -> Seq<int> {
    seq![
        3_175_523, 5_005_677, 4_022_879, 4_154_228, 4_154_470, 4_154_719, 3_630_692, 2_647_654,
    ]
}

#[verifier::opaque]
spec fn app_marks() -> Seq<int> {
    seq![
        3_498_337, 3_891_826, 3_433_321, 3_630_177, 3_695_711, 3_303_028, 2_975_073,
    ]
}

#[verifier::opaque]
spec fn eval_marks() -> Seq<int> {
    seq![
        4_219_241, 4_158_559, 4_284_777, 2_912_101, 3_694_964, 3_041_375, 3_565_663, 2_974_053,
        3_301_989, 3_371_123, 3_040_110, 3_826_537, 4_678_755, 4_551_788, 2_974_051, 3_503_207,
        3_502_963, 3_633_010, 3_367_284, 3_699_561, 3_761_523, 3_171_187, 3_241_074, 3_237_227,
        4_154_725, 3_896_439, 3_106_164, 3_500_403,
    ]
}

proof fn lemma_media_marks()
    ensures
        marks_of(CC7_MEDIA_TESTS@) == media_marks(),
        media_marks().len() == 41,
        forall|i: int|
            0 <= i < 41 ==> begins_with_suite((#[trigger] CC7_MEDIA_TESTS@[i])@),
{
    reveal_strlit("cc7_mixed_camera_match_meets_the_neutral_spread_and_luma_budgets");
    reveal_strlit("cc7_a_the_unmatched_candidate_exceeds_the_neutral_spread_budget");
    reveal_strlit("cc7_a_the_unrecoverable_candidate_exceeds_the_neutral_spread_budget");
    reveal_strlit("cc7_a_the_unmatched_candidate_exceeds_the_luma_mean_budget");
    reveal_strlit("cc7_a_the_intentional_difference_survives_the_match");
    reveal_strlit("cc7_a_skin_band_rejects_the_product_row");
    reveal_strlit("cc7_wrong_balance_clamps_temperature_and_raises_one_range_warning");
    reveal_strlit("cc7_b_c1_publishes_no_clamp");
    reveal_strlit("cc7_b1_residual_spread_meets_the_match_budget");
    reveal_strlit("cc7_b1_the_uncorrected_candidate_exceeds_the_residual_budget");
    reveal_strlit("cc7_b_c1_raises_no_range_excursion");
    reveal_strlit("cc7_log_inverse_lands_every_patch_inside_the_budget");
    reveal_strlit("cc7_c_an_identity_cube_does_not_undo_the_log_curve");
    reveal_strlit("cc7_c_the_cube_size_sweep_is_monotone_and_size_seventeen_fails");
    reveal_strlit("cc7_product_qualifier_covers_exactly_its_patch_and_changes_nothing_outside");
    reveal_strlit("cc7_d_a_qualifier_that_selects_two_patches_is_rejected");
    reveal_strlit("cc7_d_the_skin_hue_is_unmoved_by_the_product_qualifier");
    reveal_strlit("cc7_d_a_qualifier_over_the_skin_row_moves_the_skin_hue");
    reveal_strlit("cc7_feather_counts_match_the_discrete_pixel_centre_model");
    reveal_strlit("cc7_d_feather_zero_has_no_partial_pixels");
    reveal_strlit("cc7_warm_look_out_of_gamut_count_is_exact_on_the_deep_shadow_patch");
    reveal_strlit("cc7_e_the_base_scene_without_the_look_is_in_gamut");
    reveal_strlit("cc7_tracked_window_contains_the_square_at_every_sampled_frame");
    reveal_strlit("cc7_f_a_window_smaller_than_the_square_loses_containment");
    reveal_strlit("cc7_every_scenario_verifies_at_eight_bits");
    reveal_strlit("cc7_every_scenario_verifies_at_ten_bits");
    reveal_strlit("cc7_g_a_starved_encode_trips_the_decoded_difference_budget");
    reveal_strlit("cc7_canonical_node_stack_matches_the_cpu_reference_on_the_software_lane");
    reveal_strlit("cc7_canonical_node_stack_matches_the_cpu_reference_on_hardware");
    reveal_strlit("cc7_core_transcriptions_agree_with_the_pipeline");
    reveal_strlit("cc7_scenario_luma_percentiles_match_the_manifest");
    reveal_strlit("cc7_manifest_declares_every_required_fixture_and_constant");
    reveal_strlit("cc7_declared_test_names_exist_in_their_source_files");
    reveal_strlit("cc7_base_scene_populations_are_the_contract_table");
    reveal_strlit("cc7_the_chart_band_is_achromatic_and_the_primaries_band_has_no_red");
    reveal_strlit("cc7_camera_sources_differ_from_the_reference_at_every_neutral_patch");
    reveal_strlit("cc7_log_source_is_not_the_base_scene");
    reveal_strlit("cc7_tracked_source_moves_and_occludes");
    reveal_strlit("cc7_tracked_square_never_covers_the_static_patch_row");
    reveal_strlit("cc7_ffv1_round_trip_is_byte_exact");
    reveal_strlit("cc7_log_like_inverse_cube_is_canonical_text_of_the_pinned_size");
    reveal(media_marks);
    assert(marks_of(CC7_MEDIA_TESTS@) =~= media_marks());
}

proof fn lemma_core_marks()
    ensures
        marks_of(CC7_CORE_TESTS@) == core_marks(),
        core_marks().len() == 12,
        forall|i: int|
            0 <= i < 12 ==> begins_with_suite((#[trigger] CC7_CORE_TESTS@[i])@),
{
    reveal_strlit("cc7_scenario_geometry_round_trips_through_normalized_roi");
    reveal_strlit("cc7_chart_and_primary_codes_are_the_contract_table");
    reveal_strlit("cc7_camera_a_patch_codes_are_the_hand_derived_display_encoding");
    reveal_strlit("cc7_log_curve_anchors_and_patch_codes_are_the_contract_table");
    reveal_strlit("cc7_log_inverse_error_floors_are_properties_of_the_curve");
    reveal_strlit("cc7_camera_transforms_are_applied_in_linear_light");
    reveal_strlit("cc7_analytic_square_path_stays_in_frame_and_clears_the_patch_row");
    reveal_strlit("cc7_tracking_sample_frames_are_the_closed_form_distribution");
    reveal_strlit("cc7_budgets_are_distinct_from_every_neighbouring_constant");
    reveal_strlit("cc7_every_budget_carries_the_declared_margin");
    reveal_strlit("cc7_canonical_operations_are_accepted_by_core_in_order");
    reveal_strlit("cc7_the_keyframe_smoother_transcription_matches_core");
    reveal(core_marks);
    assert(marks_of(CC7_CORE_TESTS@) =~= core_marks());
}

proof fn lemma_agent_marks()
    ensures
        marks_of(CC7_AGENT_TESTS@) == agent_marks(),
        agent_marks().len() == 8,
        forall|i: int|
            0 <= i < 8 ==> begins_with_suite((#[trigger] CC7_AGENT_TESTS@[i])@),
{
    reveal_strlit("cc7_the_agent_surface_is_unchanged_by_this_slice");
    reveal_strlit("cc7_a_mixed_camera_match_retains_the_reference_and_lands_the_canonical_grade");
    reveal_strlit("cc7_b_wrong_balance_publishes_the_clamp_and_the_range_warning");
    reveal_strlit("cc7_c_log_like_input_is_normalised_by_an_imported_technical_lut");
    reveal_strlit("cc7_d_product_qualifier_selects_its_patch_and_leaves_skin_alone");
    reveal_strlit("cc7_e_creative_look_bypass_matches_absent_and_reports_its_gamut");
    reveal_strlit("cc7_f_tracked_secondary_drops_only_the_occluded_samples");
    reveal_strlit("cc7_f2_the_default_floor_does_not_refuse");
    reveal(agent_marks);
    assert(marks_of(CC7_AGENT_TESTS@) =~= agent_marks());
}

proof fn lemma_app_marks()
    ensures
        marks_of(CC7_APP_TESTS@) == app_marks(),
        app_marks().len() == 7,
        forall|i: int|
            0 <= i < 7 ==> begins_with_suite((#[trigger] CC7_APP_TESTS@[i])@),
{
    reveal_strlit("cc7_a_a_person_can_author_the_matched_primary_by_hand");
    reveal_strlit("cc7_b_the_temperature_slider_stops_where_the_planner_clamps");
    reveal_strlit("cc7_c_a_person_can_import_and_bind_the_technical_lut");
    reveal_strlit("cc7_d_a_person_can_author_the_product_qualifier_by_hand");
    reveal_strlit("cc7_d2_a_person_can_author_the_window_only_matte_by_hand");
    reveal_strlit("cc7_f_the_person_path_is_not_available_and_says_so");
    reveal_strlit("cc7_e_a_person_can_add_the_built_in_warm_look");
    reveal(app_marks);
    assert(marks_of(CC7_APP_TESTS@) =~= app_marks());
}

proof fn lemma_eval_marks()
    ensures
        marks_of(CC7_EVAL_TESTS@) == eval_marks(),
        eval_marks().len() == 28,
        forall|i: int|
            0 <= i < 28 && i != 27 ==> begins_with_suite((#[trigger] CC7_EVAL_TESTS@[i])@),
{
    reveal_strlit("cc7_a_v5_result_serialises_byte_identically_without_measurements");
    reveal_strlit("cc7_track_keyframes_match_expected_reads_the_committed_document");
    reveal_strlit("cc7_a_colour_assertion_without_evidence_fails_rather_than_passing");
    reveal_strlit("cc7_only_colour_assertions_emit_measurements");
    reveal_strlit("cc7_a_colour_request_is_derived_from_the_assertions_only");
    reveal_strlit("cc7_human_review_v1_files_still_load_and_score");
    reveal_strlit("cc7_human_review_v2_round_trips_blind_id_and_questions");
    reveal_strlit("cc7_accepted_requires_every_question_answered");
    reveal_strlit("cc7_blind_ids_are_derived_from_the_artifact_digest");
    reveal_strlit("cc7_patch_statistics_are_taken_on_a_two_pixel_inset");
    reveal_strlit("cc7_coverage_cropping_is_exact_and_never_inset");
    reveal_strlit("cc7_color_evidence_is_computed_where_the_analysis_is_alive");
    reveal_strlit("cc7_delivery_verification_without_a_deliverable_is_recorded_as_an_error");
    reveal_strlit("cc7_the_colour_template_marks_the_editorial_dimensions_not_applicable");
    reveal_strlit("cc7_a_fixture_project_path_reaches_the_server");
    reveal_strlit("cc7_the_blind_package_discloses_no_machine_provenance");
    reveal_strlit("cc7_score_review_resolves_a_blind_form_before_binding");
    reveal_strlit("cc7_one_viewing_scores_every_row_with_the_same_artifact");
    reveal_strlit("cc7_a_blind_form_without_its_key_is_refused_by_name");
    reveal_strlit("cc7_score_review_still_takes_the_plain_human_review_path");
    reveal_strlit("cc7_every_suite_constructor_declares_a_delivery_bit_depth");
    reveal_strlit("cc7_color_workflow_suite_is_a_packaged_benchmark");
    reveal_strlit("cc7_the_usage_banner_lists_every_registered_suite");
    reveal_strlit("cc7_every_color_task_carries_a_color_eval_request");
    reveal_strlit("cc7_every_color_assertion_threshold_is_a_cc7_scenarios_constant");
    reveal_strlit("cc7_the_color_review_template_asks_only_the_matrix_question");
    reveal_strlit("cc7_every_color_fixture_builds_a_valid_document");
    reveal_strlit("published_v6_manifest_tracks_the_color_workflow_suite");
    reveal(eval_marks);
    assert(marks_of(CC7_EVAL_TESTS@) =~= eval_marks());
}

/// The marks of the whole inventory.
#[verifier::opaque]
spec fn all_marks() -> Seq<int> {
    seq![
        4_222_324, 4_153_695, 4_415_841, 3_826_015, 3_367_265, 2_580_837, 4_290_412, 1_794_670,
        2_974_309, 3_957_364, 2_253_426, 3_370_084, 3_302_261, 4_088_671, 4_878_437, 3_564_648,
        3_564_649, 3_564_662, 3_696_237, 2_647_144, 4_355_942, 3_237_221, 4_027_491, 3_696_236,
        2_712_950, 2_581_878, 3_827_567, 4_678_515, 4_088_691, 3_105_641, 3_175_269, 3_763_557,
        3_368_033, 3_236_460, 4_355_177, 4_416_356, 2_387_055, 2_454_637, 3_437_678, 2_188_895,
        4_090_981, 3_699_570, 3_302_258, 4_088_675, 3_959_922, 3_697_775, 3_236_717, 4_219_231,
        3_896_415, 3_760_756, 2_909_554, 3_564_404, 3_437_679, 3_175_523, 5_005_677, 4_022_879,
        4_154_228, 4_154_470, 4_154_719, 3_630_692, 2_647_654, 3_498_337, 3_891_826, 3_433_321,
        3_630_177, 3_695_711, 3_303_028, 2_975_073, 4_219_241, 4_158_559, 4_284_777, 2_912_101,
        3_694_964, 3_041_375, 3_565_663, 2_974_053, 3_301_989, 3_371_123, 3_040_110, 3_826_537,
        4_678_755, 4_551_788, 2_974_051, 3_503_207, 3_502_963, 3_633_010, 3_367_284, 3_699_561,
        3_761_523, 3_171_187, 3_241_074, 3_237_227, 4_154_725, 3_896_439, 3_106_164, 3_500_403,
    ]
}

/// The marks of the whole inventory differ.
proof fn lemma_marks_differ()
    ensures
        all_marks().len() == 96,
        all_marks().no_duplicates(),
{
    reveal(all_marks);
}

proof fn lemma_marks_add_up()
    ensures
        all_marks() == media_marks() + core_marks() + agent_marks() + app_marks() + eval_marks(),
{
    reveal(all_marks);
    reveal(media_marks);
    reveal(core_marks);
    reveal(agent_marks);
    reveal(app_marks);
    reveal(eval_marks);
    assert(all_marks() =~= media_marks() + core_marks() + agent_marks() + app_marks()
        + eval_marks());
}

/// The names of the workflow inventory, list by list.
pub open spec fn cc7_inventory() -> Seq<Seq<char>> {
    slices_of(CC7_MEDIA_TESTS@) + slices_of(CC7_CORE_TESTS@) + slices_of(CC7_AGENT_TESTS@)
        + slices_of(CC7_APP_TESTS@) + slices_of(CC7_EVAL_TESTS@)
}

/// The inventory holds the names that are declared.
proof fn lemma_inventory(name: Seq<char>)
    ensures
        cc7_inventory().contains(name) <==> cc7_declares(name),
{
    let media = slices_of(CC7_MEDIA_TESTS@);
    let core = slices_of(CC7_CORE_TESTS@);
    let agent = slices_of(CC7_AGENT_TESTS@);
    let app = slices_of(CC7_APP_TESTS@);
    let eval = slices_of(CC7_EVAL_TESTS@);
    lemma_lists_name(CC7_MEDIA_TESTS@, name);
    lemma_lists_name(CC7_CORE_TESTS@, name);
    lemma_lists_name(CC7_AGENT_TESTS@, name);
    lemma_lists_name(CC7_APP_TESTS@, name);
    lemma_lists_name(CC7_EVAL_TESTS@, name);
    lemma_sum_contains(media + core + agent + app, eval, name);
    lemma_sum_contains(media + core + agent, app, name);
    lemma_sum_contains(media + core, agent, name);
    lemma_sum_contains(media, core, name);
}

proof fn lemma_inventory_is_distinct()
    ensures
        cc7_inventory().len() == 96,
        cc7_inventory().no_duplicates(),
        cc7_inventory().last() == CC7_EXPLICIT_TEST_NAMES@[0]@,
        forall|i: int| 0 <= i < 95 ==> begins_with_suite(#[trigger] cc7_inventory()[i]),
{
    lemma_media_marks();
    lemma_core_marks();
    lemma_agent_marks();
    lemma_app_marks();
    lemma_eval_marks();
    lemma_marks_differ();
    lemma_marks_add_up();
    let marks = media_marks() + core_marks() + agent_marks() + app_marks() + eval_marks();
    let names = cc7_inventory();
    assert forall|i: int| 0 <= i < 96 implies mark(#[trigger] names[i]) == all_marks()[i] by {
        assert(marks[i] == mark(names[i])) by {
            if i < 41 {
                assert(marks_of(CC7_MEDIA_TESTS@)[i] == mark(names[i]));
            } else if i < 53 {
                assert(marks_of(CC7_CORE_TESTS@)[i - 41] == mark(names[i]));
            } else if i < 61 {
                assert(marks_of(CC7_AGENT_TESTS@)[i - 53] == mark(names[i]));
            } else if i < 68 {
                assert(marks_of(CC7_APP_TESTS@)[i - 61] == mark(names[i]));
            } else {
                assert(marks_of(CC7_EVAL_TESTS@)[i - 68] == mark(names[i]));
            }
        }
    }
    assert forall|i: int| 0 <= i < 95 implies begins_with_suite(#[trigger] names[i]) by {
        if i < 41 {
            assert(begins_with_suite(CC7_MEDIA_TESTS@[i]@));
        } else if i < 53 {
            assert(begins_with_suite(CC7_CORE_TESTS@[i - 41]@));
        } else if i < 61 {
            assert(begins_with_suite(CC7_AGENT_TESTS@[i - 53]@));
        } else if i < 68 {
            assert(begins_with_suite(CC7_APP_TESTS@[i - 61]@));
        } else {
            assert(begins_with_suite(CC7_EVAL_TESTS@[i - 68]@));
        }
    }
}

/// The workflow inventory declares ninety-six names.  In order, all of them but
/// the last begin with the name of the suite, and the last is the one that is
/// claimed explicitly.
pub proof fn lemma_declared_names_are_ninety_six(names: Seq<Seq<char>>)
    requires
        in_order(names),
        names.no_duplicates(),
        forall|name: Seq<char>| #[trigger] names.contains(name) <==> cc7_declares(name),
    ensures
        names.len() == 96,
        names.last() == CC7_EXPLICIT_TEST_NAMES@[0]@,
        forall|i: int| 0 <= i < 95 ==> occurs_at(#[trigger] names[i], "cc7_"@, 0),
{
    let inventory = cc7_inventory();
    lemma_inventory_is_distinct();
    assert forall|name: Seq<char>| names.contains(name) <==> inventory.contains(name) by {
        lemma_inventory(name);
    }
    assert(names.to_set() =~= inventory.to_set());
    names.unique_seq_to_set();
    inventory.unique_seq_to_set();
    let last = inventory.last();
    assert(inventory[95] == last);
    assert(names.contains(last));
    let at = choose|at: int| 0 <= at < names.len() && names[at] == last;
    reveal_strlit("published_v6_manifest_tracks_the_color_workflow_suite");
    reveal_strlit("cc7_");
    assert forall|i: int| 0 <= i < 96 && i != at implies begins_with_suite(
        #[trigger] names[i],
    ) by {
        assert(names.contains(names[i]));
        let k = choose|k: int| 0 <= k < inventory.len() && inventory[k] == names[i];
        assert(k != 95);
    }
    if at < 95 {
        assert(precedes(names[at], names[95]));
        assert(begins_with_suite(names[95]));
    }
    assert forall|i: int| 0 <= i < 95 implies occurs_at(#[trigger] names[i], "cc7_"@, 0) by {
        assert(names[i].subrange(0, 4) =~= "cc7_"@);
    }
}

/// The place of a path is the first at which it stands, and behind the list where
/// it does not stand.
pub proof fn lemma_place_is_first(paths: Seq<&'static str>, path: Seq<char>)
    ensures
        0 <= position(paths, path) <= paths.len(),
        position(paths, path) < paths.len() ==> paths[position(paths, path)]@ == path,
        forall|i: int| 0 <= i < position(paths, path) ==> (#[trigger] paths[i])@ != path,
{
    lemma_place_is_first_from(paths, path, 0);
}

proof fn lemma_place_is_first_from(paths: Seq<&'static str>, path: Seq<char>, from: int)
    requires
        0 <= from <= paths.len(),
    ensures
        from <= position_from(paths, path, from) <= paths.len(),
        position_from(paths, path, from) < paths.len() ==> paths[position_from(
            paths,
            path,
            from,
        )]@ == path,
        forall|i: int|
            from <= i < position_from(paths, path, from) ==> (#[trigger] paths[i])@ != path,
    decreases paths.len() - from,
{
    if from < paths.len() && paths[from]@ != path {
        lemma_place_is_first_from(paths, path, from + 1);
    }
}

} // verus!
