//! The records that the fixtures write, each under a declared name.

use vstd::prelude::*;

use crate::text::strings_equal;

verus! {

/// The contract that the matte fixtures are evidence of.
pub const CC5_CONTRACT: &'static str = "cc5_secondaries";

/// The contract that the delivery fixtures are evidence of.
pub const CC6_CONTRACT: &'static str = "cc6_qc_and_managed_delivery";

/// The contract that the workflow fixtures are evidence of.
pub const CC7_CONTRACT: &'static str = "cc7_workflow_evaluation";

/// The names of the matte records.
pub const CC5_EVIDENCE_FIXTURES: [&'static str; 17] = [
    "cc5_rasters",
    "cc5_control_bounds",
    "cc5_containment",
    "cc5_window_geometry",
    "cc5_feather",
    "cc5_combine",
    "cc5_qualifier",
    "cc5_mix_and_invert",
    "cc5_keyframed_window",
    "cc5_gpu_cpu_parity",
    "cc5_matte_proof",
    "cc5_matte_scoped_scopes",
    "cc5_tracked_shot",
    "cc5_migration_and_mask",
    "cc5_buffer_and_limits",
    "cc5_performance",
    "cc5_skin_and_product",
];

/// The names of the delivery records.
pub const CC6_EVIDENCE_FIXTURES: [&'static str; 7] = [
    "cc6_eight_bit_encoded_delivery_passes_tag_luma_and_difference_budgets",
    "cc6_ten_bit_encoded_delivery_passes_tag_luma_and_difference_budgets",
    "cc6_starved_bitrate_export_trips_the_decoded_difference_budget",
    "cc6_starved_bitrate_ten_bit_export_trips_the_decoded_difference_budget",
    "cc6_per_node_contribution_order_matches_production_z_order",
    "cc6_performance_evidence_is_recorded_on_software_fallback",
    "cc6_performance_evidence_is_recorded_on_hardware",
];

/// The names of the workflow records.
pub const CC7_EVIDENCE_FIXTURES: [&'static str; 8] = [
    "cc7_mixed_camera_match_meets_the_neutral_spread_and_luma_budgets",
    "cc7_wrong_balance_clamps_temperature_and_raises_one_range_warning",
    "cc7_log_inverse_lands_every_patch_inside_the_budget",
    "cc7_product_qualifier_covers_exactly_its_patch_and_changes_nothing_outside",
    "cc7_warm_look_out_of_gamut_count_is_exact_on_the_deep_shadow_patch",
    "cc7_every_scenario_verifies_at_eight_bits",
    "cc7_every_scenario_verifies_at_ten_bits",
    "cc7_canonical_node_stack_matches_the_cpu_reference_on_the_software_lane",
];

/// A suite of fixtures.
#[derive(Debug, Clone, Copy, PartialEq, Eq, Structural)]
pub enum Suite {
    Matte,
    Delivery,
    Workflow,
}

/// The names of a suite's records.
pub open spec fn record_names(suite: Suite) -> Seq<&'static str> {
    match suite {
        Suite::Matte => CC5_EVIDENCE_FIXTURES@,
        Suite::Delivery => CC6_EVIDENCE_FIXTURES@,
        Suite::Workflow => CC7_EVIDENCE_FIXTURES@,
    }
}

/// The contract that a suite is evidence of.
pub open spec fn suite_contract(suite: Suite) -> &'static str {
    match suite {
        Suite::Matte => CC5_CONTRACT,
        Suite::Delivery => CC6_CONTRACT,
        Suite::Workflow => CC7_CONTRACT,
    }
}

/// Whether a name is among some.
pub open spec fn is_listed(names: Seq<&'static str>, fixture: Seq<char>) -> bool {
    exists|i: int| 0 <= i < names.len() && (#[trigger] names[i])@ == fixture
}

/// Whether a suite declares a record of a name.
pub open spec fn declares_record(suite: Suite, fixture: Seq<char>) -> bool {
    is_listed(record_names(suite), fixture)
}

fn lists(names: &[&'static str], fixture: &str) -> (found: bool)
    ensures
        found == is_listed(names@, fixture@),
{
    let mut i: usize = 0;
    while i < names.len()
        invariant
            i <= names.len(),
            forall|j: int| 0 <= j < i ==> (#[trigger] names@[j])@ != fixture@,
        decreases names.len() - i,
    {
        if strings_equal(names[i], fixture) {
            assert(names@[i as int]@ == fixture@);
            return true;
        }
        i += 1;
    }
    false
}

/// The contract under which a record may be written: none where its suite does
/// not declare its name.
pub fn record_contract(suite: Suite, fixture: &str) -> (contract: Option<&'static str>)
    ensures
        contract == (if declares_record(suite, fixture@) {
            Some(suite_contract(suite))
        } else {
            None
        }),
{
    let (declared, contract) = match suite {
        Suite::Matte => (lists(CC5_EVIDENCE_FIXTURES.as_slice(), fixture), CC5_CONTRACT),
        Suite::Delivery => (lists(CC6_EVIDENCE_FIXTURES.as_slice(), fixture), CC6_CONTRACT),
        Suite::Workflow => (lists(CC7_EVIDENCE_FIXTURES.as_slice(), fixture), CC7_CONTRACT),
    };
    if declared {
        Some(contract)
    } else {
        None
    }
}

/// The contract of each suite, by name.
pub proof fn lemma_contracts_in_words(suite: Suite)
    ensures
        suite is Matte ==> suite_contract(suite)@ == "cc5_secondaries"@ && record_names(suite).len()
            == 17,
        suite is Delivery ==> suite_contract(suite)@ == "cc6_qc_and_managed_delivery"@
            && record_names(suite).len() == 7,
        suite is Workflow ==> suite_contract(suite)@ == "cc7_workflow_evaluation"@ && record_names(
            suite,
        ).len() == 8,
{
}

/// A suite declares exactly the names on its own list: the matte records with
/// the first, the delivery records with the second, the workflow records with
/// the third.
pub proof fn lemma_records_by_suite(fixture: Seq<char>)
    ensures
        declares_record(Suite::Matte, fixture) <==> exists|i: int|
            0 <= i < 17 && (#[trigger] CC5_EVIDENCE_FIXTURES@[i])@ == fixture,
        declares_record(Suite::Delivery, fixture) <==> exists|i: int|
            0 <= i < 7 && (#[trigger] CC6_EVIDENCE_FIXTURES@[i])@ == fixture,
        declares_record(Suite::Workflow, fixture) <==> exists|i: int|
            0 <= i < 8 && (#[trigger] CC7_EVIDENCE_FIXTURES@[i])@ == fixture,
{
}

} // verus!
