//! What holds of the configurations: which of them can be run, and which value the message names
//! where one cannot.

use super::config::{
    comparison_message, flow_config_message, is_valid_flow_config, sensor_sweep_message,
    PlanarHolesFlowConfig, PlanarHolesSensorDesignSweepConfig, PlanarHolesTopologyVsNaiveGpConfig,
};
use crate::scalar::Scalar;
use vstd::prelude::*;

verus! {

/// The values of a flow that have to be positive, with their names.
pub open spec fn positive_values(config: PlanarHolesFlowConfig) -> Seq<(Seq<char>, Scalar)> {
    seq![
        ("mesh_size"@, config.mesh_size),
        ("exact_kappa"@, config.exact_kappa),
        ("coexact_kappa"@, config.coexact_kappa),
        ("nondecomposed_kappa"@, config.nondecomposed_kappa),
        ("component_kappa"@, config.component_kappa),
        ("tau"@, config.tau),
        ("exact_tau_scale"@, config.exact_tau_scale),
        ("coexact_tau_scale"@, config.coexact_tau_scale),
        ("harmonic_precision"@, config.harmonic_precision),
        ("local_noise_variance"@, config.local_noise_variance),
        ("loop_noise_variance"@, config.loop_noise_variance),
        ("heldout_loop_radius_offset"@, config.heldout_loop_radius_offset),
        ("heldout_loop_angle_offset"@, config.heldout_loop_angle_offset),
    ]
}

/// The values of a flow that must not be negative, with their names.
pub open spec fn nonnegative_values(config: PlanarHolesFlowConfig) -> Seq<(Seq<char>, Scalar)> {
    seq![
        ("exact_truth_mass_norm"@, config.exact_truth_mass_norm),
        ("coexact_truth_mass_norm"@, config.coexact_truth_mass_norm),
        ("harmonic_truth_mass_norm"@, config.harmonic_truth_mass_norm),
        ("spectral_exact_expected_m1_energy"@, config.spectral_exact_expected_m1_energy),
        ("spectral_coexact_expected_m1_energy"@, config.spectral_coexact_expected_m1_energy),
        ("spectral_harmonic_expected_m1_energy"@, config.spectral_harmonic_expected_m1_energy),
    ]
}

/// The counts of a flow that must not be zero, with their names.
pub open spec fn counted(config: PlanarHolesFlowConfig) -> Seq<(Seq<char>, usize)> {
    seq![
        ("local_observation_count"@, config.local_observation_count),
        ("heldout_local_count"@, config.heldout_local_count),
        ("spectral_exact_mode_count"@, config.spectral_exact_mode_count),
        ("spectral_coexact_mode_count"@, config.spectral_coexact_mode_count),
        ("spectral_harmonic_mode_count"@, config.spectral_harmonic_mode_count),
    ]
}

/// Whether all values of a list meet a condition.
pub open spec fn all_meet<T>(
    values: Seq<(Seq<char>, T)>,
    condition: spec_fn(T) -> bool,
    count: int,
) -> bool {
    forall|i: int| 0 <= i < count ==> condition((#[trigger] values[i]).1)
}

/// A flow can be run if and only if its lengths, precisions and variances are finite and positive,
/// its truth and its energies are finite and not negative, some part of the truth is there, nothing
/// is counted as none, there are at most three harmonic modes, and the smoothness is two.
pub proof fn lemma_flows_that_can_be_run(config: PlanarHolesFlowConfig)
    ensures
        is_valid_flow_config(config) <==> {
            &&& all_meet(positive_values(config), |value: Scalar| value.positive(), 13)
            &&& all_meet(nonnegative_values(config), |value: Scalar| value.nonnegative(), 6)
            &&& !(config.exact_truth_mass_norm.rank() == 0 && config.coexact_truth_mass_norm.rank()
                == 0 && config.harmonic_truth_mass_norm.rank() == 0)
            &&& all_meet(counted(config), |count: usize| count > 0, 5)
            &&& config.spectral_harmonic_mode_count <= 3
            &&& config.alpha == 2
        },
{
    let positive = |value: Scalar| value.positive();
    let nonnegative = |value: Scalar| value.nonnegative();
    let some = |count: usize| count > 0;
    let (a, b, c) = (positive_values(config), nonnegative_values(config), counted(config));
    assert(a[0].1 == config.mesh_size);
    assert(a[1].1 == config.exact_kappa);
    assert(a[2].1 == config.coexact_kappa);
    assert(a[3].1 == config.nondecomposed_kappa);
    assert(a[4].1 == config.component_kappa);
    assert(a[5].1 == config.tau);
    assert(a[6].1 == config.exact_tau_scale);
    assert(a[7].1 == config.coexact_tau_scale);
    assert(a[8].1 == config.harmonic_precision);
    assert(a[9].1 == config.local_noise_variance);
    assert(a[10].1 == config.loop_noise_variance);
    assert(a[11].1 == config.heldout_loop_radius_offset);
    assert(a[12].1 == config.heldout_loop_angle_offset);
    assert(b[0].1 == config.exact_truth_mass_norm);
    assert(b[1].1 == config.coexact_truth_mass_norm);
    assert(b[2].1 == config.harmonic_truth_mass_norm);
    assert(b[3].1 == config.spectral_exact_expected_m1_energy);
    assert(b[4].1 == config.spectral_coexact_expected_m1_energy);
    assert(b[5].1 == config.spectral_harmonic_expected_m1_energy);
    assert(c[0].1 == config.local_observation_count);
    assert(c[1].1 == config.heldout_local_count);
    assert(c[2].1 == config.spectral_exact_mode_count);
    assert(c[3].1 == config.spectral_coexact_mode_count);
    assert(c[4].1 == config.spectral_harmonic_mode_count);
}

/// The message about a flow that cannot be run names the first of the values that have to be
/// positive and is not; where all are, the first that must not be negative and is; where none is
/// and some part of the truth is there, the first count that is zero.
pub proof fn lemma_message_names_first_fault(config: PlanarHolesFlowConfig, k: int)
    ensures
        0 <= k < 13 && all_meet(positive_values(config), |value: Scalar| value.positive(), k)
            && !positive_values(config)[k].1.positive() ==> flow_config_message(config)
            == positive_values(config)[k].0 + " must be finite and positive"@,
        0 <= k < 6 && all_meet(positive_values(config), |value: Scalar| value.positive(), 13)
            && all_meet(nonnegative_values(config), |value: Scalar| value.nonnegative(), k)
            && !nonnegative_values(config)[k].1.nonnegative() ==> flow_config_message(config)
            == nonnegative_values(config)[k].0 + " must be finite and nonnegative"@,
        0 <= k < 5 && all_meet(positive_values(config), |value: Scalar| value.positive(), 13)
            && all_meet(nonnegative_values(config), |value: Scalar| value.nonnegative(), 6) && !(
        config.exact_truth_mass_norm.rank() == 0 && config.coexact_truth_mass_norm.rank() == 0
            && config.harmonic_truth_mass_norm.rank() == 0) && all_meet(
            counted(config),
            |count: usize| count > 0,
            k,
        ) && counted(config)[k].1 == 0 ==> flow_config_message(config) == counted(config)[k].0
            + " must be positive"@,
{
    let (a, b, c) = (positive_values(config), nonnegative_values(config), counted(config));
    assert(a[0] == ("mesh_size"@, config.mesh_size));
    assert(a[1] == ("exact_kappa"@, config.exact_kappa));
    assert(a[2] == ("coexact_kappa"@, config.coexact_kappa));
    assert(a[3] == ("nondecomposed_kappa"@, config.nondecomposed_kappa));
    assert(a[4] == ("component_kappa"@, config.component_kappa));
    assert(a[5] == ("tau"@, config.tau));
    assert(a[6] == ("exact_tau_scale"@, config.exact_tau_scale));
    assert(a[7] == ("coexact_tau_scale"@, config.coexact_tau_scale));
    assert(a[8] == ("harmonic_precision"@, config.harmonic_precision));
    assert(a[9] == ("local_noise_variance"@, config.local_noise_variance));
    assert(a[10] == ("loop_noise_variance"@, config.loop_noise_variance));
    assert(a[11] == ("heldout_loop_radius_offset"@, config.heldout_loop_radius_offset));
    assert(a[12] == ("heldout_loop_angle_offset"@, config.heldout_loop_angle_offset));
    assert(b[0] == ("exact_truth_mass_norm"@, config.exact_truth_mass_norm));
    assert(b[1] == ("coexact_truth_mass_norm"@, config.coexact_truth_mass_norm));
    assert(b[2] == ("harmonic_truth_mass_norm"@, config.harmonic_truth_mass_norm));
    assert(b[3] == ("spectral_exact_expected_m1_energy"@, config.spectral_exact_expected_m1_energy));
    assert(b[4] == ("spectral_coexact_expected_m1_energy"@, config.spectral_coexact_expected_m1_energy));
    assert(b[5] == ("spectral_harmonic_expected_m1_energy"@, config.spectral_harmonic_expected_m1_energy));
    assert(c[0] == ("local_observation_count"@, config.local_observation_count));
    assert(c[1] == ("heldout_local_count"@, config.heldout_local_count));
    assert(c[2] == ("spectral_exact_mode_count"@, config.spectral_exact_mode_count));
    assert(c[3] == ("spectral_coexact_mode_count"@, config.spectral_coexact_mode_count));
    assert(c[4] == ("spectral_harmonic_mode_count"@, config.spectral_harmonic_mode_count));
}

/// A sweep over sensor designs can be run if and only if there is a budget, both variances are
/// finite and positive, and there is a design.
pub proof fn lemma_sweeps_that_can_be_run(config: PlanarHolesSensorDesignSweepConfig)
    ensures
        sensor_sweep_message(config) is None <==> {
            &&& config.total_observation_budget > 0
            &&& config.interior_loop_noise_variance.positive()
            &&& config.long_path_noise_variance.positive()
            &&& config.designs.len() > 0
        },
{
}

/// Whether a grid of values can be searched: it is not empty, and all values are finite and
/// positive.
pub open spec fn can_be_searched(values: Seq<Scalar>) -> bool {
    &&& values.len() > 0
    &&& forall|i: int| 0 <= i < values.len() ==> (#[trigger] values[i]).positive()
}

/// A comparison can be run if and only if nothing is counted as none, both variances are finite
/// and positive, and all five grids can be searched.
pub proof fn lemma_comparisons_that_can_be_run(config: PlanarHolesTopologyVsNaiveGpConfig)
    ensures
        comparison_message(config) is None <==> {
            &&& config.total_observation_budget > 0
            &&& config.validation_local_count > 0
            &&& config.validation_interior_loop_count > 0
            &&& config.validation_long_path_count > 0
            &&& config.heldout_local_count > 0
            &&& config.heldout_interior_loop_count > 0
            &&& config.heldout_long_path_count > 0
            &&& config.interior_loop_noise_variance.positive()
            &&& config.long_path_noise_variance.positive()
            &&& can_be_searched(config.hodge_kappas@)
            &&& can_be_searched(config.hodge_taus@)
            &&& can_be_searched(config.naive_kappas@)
            &&& can_be_searched(config.naive_taus@)
            &&& can_be_searched(config.observation_variance_scales@)
        },
{
}

} // verus!
