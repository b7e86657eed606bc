//! What a run is configured with, its defaults, and its checks. Paths are not part of it.

use super::kinds::{
    PlanarHolesCoexactTruthSource, PlanarHolesExactTruthSource, PlanarHolesHarmonicTruthSource,
    PlanarHolesLocalObservationDesign, PlanarHolesSensorDesignKind,
    PlanarHolesSpectralBoundaryCondition, PlanarHolesSpectralTruthFamily, PlanarHolesTruthScaling,
};
use crate::scalar::Scalar;
use vstd::prelude::*;

verus! {

/// The number of harmonic coefficients that are fixed for the canonical truth.
pub const HARMONIC_COEFFICIENT_COUNT: usize = 3;

/// The number of modes of a spectral branch unless another is asked for.
pub const DEFAULT_SPECTRAL_MODE_COUNT: usize = 160;

/// How one flow is set up, observed and modelled.
#[derive(Debug, Clone, Copy)]
pub struct PlanarHolesFlowConfig {
    pub force_mesh: bool,
    pub mesh_size: Scalar,
    pub exact_kappa: Scalar,
    pub coexact_kappa: Scalar,
    pub nondecomposed_kappa: Scalar,
    pub component_kappa: Scalar,
    pub tau: Scalar,
    pub exact_tau_scale: Scalar,
    pub coexact_tau_scale: Scalar,
    pub alpha: u32,
    pub harmonic_precision: Scalar,
    pub local_observation_count: usize,
    pub heldout_local_count: usize,
    pub local_noise_variance: Scalar,
    pub loop_noise_variance: Scalar,
    pub heldout_loop_radius_offset: Scalar,
    pub heldout_loop_angle_offset: Scalar,
    pub rng_seed: u64,
    pub exact_truth_mass_norm: Scalar,
    pub coexact_truth_mass_norm: Scalar,
    pub harmonic_truth_mass_norm: Scalar,
    pub exact_truth_source: PlanarHolesExactTruthSource,
    pub coexact_truth_source: PlanarHolesCoexactTruthSource,
    pub harmonic_truth_source: PlanarHolesHarmonicTruthSource,
    pub truth_scaling: PlanarHolesTruthScaling,
    pub local_observation_design: PlanarHolesLocalObservationDesign,
    pub sample_observation_noise: bool,
    pub include_exact_hodge_model: bool,
    pub include_exact_dense_exact_hodge_model: bool,
    pub include_exact_dense_trace_matched_exact_hodge_model: bool,
    pub include_incompressible_hodge_model: bool,
    pub include_exact_mass_incompressible_hodge_model: bool,
    pub include_sparse_lower_trace_matched_incompressible_hodge_model: bool,
    pub include_exact_lower_incompressible_hodge_model: bool,
    pub include_exact_lower_trace_matched_incompressible_hodge_model: bool,
    pub include_spectral_exact_hodge_model: bool,
    pub include_spectral_hodge_model: bool,
    pub include_spectral_incompressible_hodge_model: bool,
    pub include_naive_euclidean_vector_matern_model: bool,
    pub compute_field_coverage: bool,
    pub spectral_boundary_condition: PlanarHolesSpectralBoundaryCondition,
    pub spectral_exact_mode_count: usize,
    pub spectral_coexact_mode_count: usize,
    pub spectral_harmonic_mode_count: usize,
    pub spectral_branch_energy_normalization: bool,
    pub spectral_exact_expected_m1_energy: Scalar,
    pub spectral_coexact_expected_m1_energy: Scalar,
    pub spectral_harmonic_expected_m1_energy: Scalar,
}

/// The flow configuration that is used unless another is given.
pub open spec fn default_flow_config() -> PlanarHolesFlowConfig {
    PlanarHolesFlowConfig {
        force_mesh: true,
        mesh_size: Scalar { bits: 0x3fa7_0a3d_70a3_d70a },
        exact_kappa: Scalar { bits: 0x3ff4_0000_0000_0000 },
        coexact_kappa: Scalar { bits: 0x4020_0000_0000_0000 },
        nondecomposed_kappa: Scalar { bits: 0x4010_0000_0000_0000 },
        component_kappa: Scalar { bits: 0x4010_0000_0000_0000 },
        tau: Scalar { bits: 0x3ff0_0000_0000_0000 },
        exact_tau_scale: Scalar { bits: 0x3ff0_0000_0000_0000 },
        coexact_tau_scale: Scalar { bits: 0x3ff0_0000_0000_0000 },
        alpha: 2,
        harmonic_precision: Scalar { bits: 0x3ff0_0000_0000_0000 },
        local_observation_count: 600,
        heldout_local_count: 200,
        local_noise_variance: Scalar { bits: 0x3f1a_36e2_eb1c_432d },
        loop_noise_variance: Scalar { bits: 0x3ee4_f8b5_88e3_68f1 },
        heldout_loop_radius_offset: Scalar { bits: 0x3f99_9999_9999_999a },
        heldout_loop_angle_offset: Scalar { bits: 0x3fc9_21fb_5444_2d18 },
        rng_seed: 2026,
        exact_truth_mass_norm: Scalar { bits: 0x3ff0_0000_0000_0000 },
        coexact_truth_mass_norm: Scalar { bits: 0x3fe9_9999_9999_999a },
        harmonic_truth_mass_norm: Scalar { bits: 0x3fe6_6666_6666_6666 },
        exact_truth_source: PlanarHolesExactTruthSource::SparseAnchor,
        coexact_truth_source: PlanarHolesCoexactTruthSource::SparseAnchor,
        harmonic_truth_source: PlanarHolesHarmonicTruthSource::CanonicalFixed,
        truth_scaling: PlanarHolesTruthScaling::MassNormTargets,
        local_observation_design: PlanarHolesLocalObservationDesign::SparseInterior,
        sample_observation_noise: true,
        include_exact_hodge_model: false,
        include_exact_dense_exact_hodge_model: false,
        include_exact_dense_trace_matched_exact_hodge_model: false,
        include_incompressible_hodge_model: true,
        include_exact_mass_incompressible_hodge_model: false,
        include_sparse_lower_trace_matched_incompressible_hodge_model: false,
        include_exact_lower_incompressible_hodge_model: false,
        include_exact_lower_trace_matched_incompressible_hodge_model: false,
        include_spectral_exact_hodge_model: false,
        include_spectral_hodge_model: false,
        include_spectral_incompressible_hodge_model: false,
        include_naive_euclidean_vector_matern_model: false,
        compute_field_coverage: true,
        spectral_boundary_condition: PlanarHolesSpectralBoundaryCondition::Free,
        spectral_exact_mode_count: 160,
        spectral_coexact_mode_count: 160,
        spectral_harmonic_mode_count: 3,
        spectral_branch_energy_normalization: false,
        spectral_exact_expected_m1_energy: Scalar { bits: 0x3ff0_0000_0000_0000 },
        spectral_coexact_expected_m1_energy: Scalar { bits: 0x3ff0_0000_0000_0000 },
        spectral_harmonic_expected_m1_energy: Scalar { bits: 0x3fdf_5c28_f5c2_8f5c },
    }
}

impl Default for PlanarHolesFlowConfig {
    fn default() -> (config: Self)
        ensures
            config == default_flow_config(),
    {
        PlanarHolesFlowConfig {
            force_mesh: true,
            mesh_size: Scalar { bits: 0x3fa7_0a3d_70a3_d70a },
            exact_kappa: Scalar { bits: 0x3ff4_0000_0000_0000 },
            coexact_kappa: Scalar { bits: 0x4020_0000_0000_0000 },
            nondecomposed_kappa: Scalar { bits: 0x4010_0000_0000_0000 },
            component_kappa: Scalar { bits: 0x4010_0000_0000_0000 },
            tau: Scalar { bits: 0x3ff0_0000_0000_0000 },
            exact_tau_scale: Scalar { bits: 0x3ff0_0000_0000_0000 },
            coexact_tau_scale: Scalar { bits: 0x3ff0_0000_0000_0000 },
            alpha: 2,
            harmonic_precision: Scalar { bits: 0x3ff0_0000_0000_0000 },
            local_observation_count: 600,
            heldout_local_count: 200,
            local_noise_variance: Scalar { bits: 0x3f1a_36e2_eb1c_432d },
            loop_noise_variance: Scalar { bits: 0x3ee4_f8b5_88e3_68f1 },
            heldout_loop_radius_offset: Scalar { bits: 0x3f99_9999_9999_999a },
            heldout_loop_angle_offset: Scalar { bits: 0x3fc9_21fb_5444_2d18 },
            rng_seed: 2026,
            exact_truth_mass_norm: Scalar { bits: 0x3ff0_0000_0000_0000 },
            coexact_truth_mass_norm: Scalar { bits: 0x3fe9_9999_9999_999a },
            harmonic_truth_mass_norm: Scalar { bits: 0x3fe6_6666_6666_6666 },
            exact_truth_source: PlanarHolesExactTruthSource::SparseAnchor,
            coexact_truth_source: PlanarHolesCoexactTruthSource::SparseAnchor,
            harmonic_truth_source: PlanarHolesHarmonicTruthSource::CanonicalFixed,
            truth_scaling: PlanarHolesTruthScaling::MassNormTargets,
            local_observation_design: PlanarHolesLocalObservationDesign::SparseInterior,
            sample_observation_noise: true,
            include_exact_hodge_model: false,
            include_exact_dense_exact_hodge_model: false,
            include_exact_dense_trace_matched_exact_hodge_model: false,
            include_incompressible_hodge_model: true,
            include_exact_mass_incompressible_hodge_model: false,
            include_sparse_lower_trace_matched_incompressible_hodge_model: false,
            include_exact_lower_incompressible_hodge_model: false,
            include_exact_lower_trace_matched_incompressible_hodge_model: false,
            include_spectral_exact_hodge_model: false,
            include_spectral_hodge_model: false,
            include_spectral_incompressible_hodge_model: false,
            include_naive_euclidean_vector_matern_model: false,
            compute_field_coverage: true,
            spectral_boundary_condition: PlanarHolesSpectralBoundaryCondition::Free,
            spectral_exact_mode_count: 160,
            spectral_coexact_mode_count: 160,
            spectral_harmonic_mode_count: 3,
            spectral_branch_energy_normalization: false,
            spectral_exact_expected_m1_energy: Scalar { bits: 0x3ff0_0000_0000_0000 },
            spectral_coexact_expected_m1_energy: Scalar { bits: 0x3ff0_0000_0000_0000 },
            spectral_harmonic_expected_m1_energy: Scalar { bits: 0x3fdf_5c28_f5c2_8f5c },
        }
    }
}

/// The message for a value that has to be finite and positive.
pub open spec fn positive_text(name: Seq<char>) -> Seq<char> {
    name + " must be finite and positive"@
}

/// The message for a value that has to be finite and not negative.
pub open spec fn nonnegative_text(name: Seq<char>) -> Seq<char> {
    name + " must be finite and nonnegative"@
}

/// The message for a count that has to be positive.
pub open spec fn count_message(name: Seq<char>) -> Seq<char> {
    name + " must be positive"@
}

fn check_positive(name: &str, value: Scalar) -> (result: Result<(), String>)
    ensures
        result is Ok <==> value.positive(),
        result matches Err(message) ==> message@ == positive_text(name@),
{
    if value.is_positive() {
        Ok(())
    } else {
        let mut message = String::from_str(name);
        message.append(" must be finite and positive");
        Err(message)
    }
}

fn check_nonnegative(name: &str, value: Scalar) -> (result: Result<(), String>)
    ensures
        result is Ok <==> value.nonnegative(),
        result matches Err(message) ==> message@ == nonnegative_text(name@),
{
    if value.is_nonnegative() {
        Ok(())
    } else {
        let mut message = String::from_str(name);
        message.append(" must be finite and nonnegative");
        Err(message)
    }
}

fn check_count(name: &str, count: usize) -> (result: Result<(), String>)
    ensures
        result is Ok <==> count > 0,
        result matches Err(message) ==> message@ == count_message(name@),
{
    if count > 0 {
        Ok(())
    } else {
        let mut message = String::from_str(name);
        message.append(" must be positive");
        Err(message)
    }
}

/// Whether a flow can be run with the configuration.
pub open spec fn is_valid_flow_config(config: PlanarHolesFlowConfig) -> bool {
    &&& config.mesh_size.positive()
    &&& config.exact_kappa.positive()
    &&& config.coexact_kappa.positive()
    &&& config.nondecomposed_kappa.positive()
    &&& config.component_kappa.positive()
    &&& config.tau.positive()
    &&& config.exact_tau_scale.positive()
    &&& config.coexact_tau_scale.positive()
    &&& config.harmonic_precision.positive()
    &&& config.local_noise_variance.positive()
    &&& config.loop_noise_variance.positive()
    &&& config.heldout_loop_radius_offset.positive()
    &&& config.heldout_loop_angle_offset.positive()
    &&& config.exact_truth_mass_norm.nonnegative()
    &&& config.coexact_truth_mass_norm.nonnegative()
    &&& config.harmonic_truth_mass_norm.nonnegative()
    &&& config.spectral_exact_expected_m1_energy.nonnegative()
    &&& config.spectral_coexact_expected_m1_energy.nonnegative()
    &&& config.spectral_harmonic_expected_m1_energy.nonnegative()
    &&& config.exact_truth_mass_norm.positive() || config.coexact_truth_mass_norm.positive()
        || config.harmonic_truth_mass_norm.positive()
    &&& config.local_observation_count > 0
    &&& config.heldout_local_count > 0
    &&& config.spectral_exact_mode_count > 0
    &&& config.spectral_coexact_mode_count > 0
    &&& 0 < config.spectral_harmonic_mode_count <= HARMONIC_COEFFICIENT_COUNT
    &&& config.alpha == 2
}

/// What is said of the first value with which no flow can be run.
pub open spec fn flow_config_message(config: PlanarHolesFlowConfig) -> Seq<char> {
    if !config.mesh_size.positive() {
        positive_text("mesh_size"@)
    } else if !config.exact_kappa.positive() {
        positive_text("exact_kappa"@)
    } else if !config.coexact_kappa.positive() {
        positive_text("coexact_kappa"@)
    } else if !config.nondecomposed_kappa.positive() {
        positive_text("nondecomposed_kappa"@)
    } else if !config.component_kappa.positive() {
        positive_text("component_kappa"@)
    } else if !config.tau.positive() {
        positive_text("tau"@)
    } else if !config.exact_tau_scale.positive() {
        positive_text("exact_tau_scale"@)
    } else if !config.coexact_tau_scale.positive() {
        positive_text("coexact_tau_scale"@)
    } else if !config.harmonic_precision.positive() {
        positive_text("harmonic_precision"@)
    } else if !config.local_noise_variance.positive() {
        positive_text("local_noise_variance"@)
    } else if !config.loop_noise_variance.positive() {
        positive_text("loop_noise_variance"@)
    } else if !config.heldout_loop_radius_offset.positive() {
        positive_text("heldout_loop_radius_offset"@)
    } else if !config.heldout_loop_angle_offset.positive() {
        positive_text("heldout_loop_angle_offset"@)
    } else if !config.exact_truth_mass_norm.nonnegative() {
        nonnegative_text("exact_truth_mass_norm"@)
    } else if !config.coexact_truth_mass_norm.nonnegative() {
        nonnegative_text("coexact_truth_mass_norm"@)
    } else if !config.harmonic_truth_mass_norm.nonnegative() {
        nonnegative_text("harmonic_truth_mass_norm"@)
    } else if !config.spectral_exact_expected_m1_energy.nonnegative() {
        nonnegative_text("spectral_exact_expected_m1_energy"@)
    } else if !config.spectral_coexact_expected_m1_energy.nonnegative() {
        nonnegative_text("spectral_coexact_expected_m1_energy"@)
    } else if !config.spectral_harmonic_expected_m1_energy.nonnegative() {
        nonnegative_text("spectral_harmonic_expected_m1_energy"@)
    } else if !(config.exact_truth_mass_norm.positive() || config.coexact_truth_mass_norm.positive()
        || config.harmonic_truth_mass_norm.positive()) {
        "at least one truth branch mass norm must be positive"@
    } else if config.local_observation_count == 0 {
        count_message("local_observation_count"@)
    } else if config.heldout_local_count == 0 {
        count_message("heldout_local_count"@)
    } else if config.spectral_exact_mode_count == 0 {
        count_message("spectral_exact_mode_count"@)
    } else if config.spectral_coexact_mode_count == 0 {
        count_message("spectral_coexact_mode_count"@)
    } else if config.spectral_harmonic_mode_count == 0 {
        count_message("spectral_harmonic_mode_count"@)
    } else if config.spectral_harmonic_mode_count > HARMONIC_COEFFICIENT_COUNT {
        "spectral_harmonic_mode_count must be at most 3"@
    } else {
        "planar holes v1 expects alpha=2"@
    }
}

/// Checks that a flow can be run with the configuration.
pub fn validate_config(config: &PlanarHolesFlowConfig) -> (result: Result<(), String>)
    ensures
        result is Ok <==> is_valid_flow_config(*config),
        result matches Err(message) ==> message@ == flow_config_message(*config),
{
    check_positive("mesh_size", config.mesh_size)?;
    check_positive("exact_kappa", config.exact_kappa)?;
    check_positive("coexact_kappa", config.coexact_kappa)?;
    check_positive("nondecomposed_kappa", config.nondecomposed_kappa)?;
    check_positive("component_kappa", config.component_kappa)?;
    check_positive("tau", config.tau)?;
    check_positive("exact_tau_scale", config.exact_tau_scale)?;
    check_positive("coexact_tau_scale", config.coexact_tau_scale)?;
    check_positive("harmonic_precision", config.harmonic_precision)?;
    check_positive("local_noise_variance", config.local_noise_variance)?;
    check_positive("loop_noise_variance", config.loop_noise_variance)?;
    check_positive("heldout_loop_radius_offset", config.heldout_loop_radius_offset)?;
    check_positive("heldout_loop_angle_offset", config.heldout_loop_angle_offset)?;
    check_nonnegative("exact_truth_mass_norm", config.exact_truth_mass_norm)?;
    check_nonnegative("coexact_truth_mass_norm", config.coexact_truth_mass_norm)?;
    check_nonnegative("harmonic_truth_mass_norm", config.harmonic_truth_mass_norm)?;
    check_nonnegative("spectral_exact_expected_m1_energy", config.spectral_exact_expected_m1_energy)?;
    check_nonnegative("spectral_coexact_expected_m1_energy", config.spectral_coexact_expected_m1_energy)?;
    check_nonnegative("spectral_harmonic_expected_m1_energy", config.spectral_harmonic_expected_m1_energy)?;
    if config.exact_truth_mass_norm.is_zero() && config.coexact_truth_mass_norm.is_zero()
        && config.harmonic_truth_mass_norm.is_zero() {
        return Err(String::from_str("at least one truth branch mass norm must be positive"));
    }
    check_count("local_observation_count", config.local_observation_count)?;
    check_count("heldout_local_count", config.heldout_local_count)?;
    check_count("spectral_exact_mode_count", config.spectral_exact_mode_count)?;
    check_count("spectral_coexact_mode_count", config.spectral_coexact_mode_count)?;
    check_count("spectral_harmonic_mode_count", config.spectral_harmonic_mode_count)?;
    if config.spectral_harmonic_mode_count > HARMONIC_COEFFICIENT_COUNT {
        return Err(String::from_str("spectral_harmonic_mode_count must be at most 3"));
    }
    if config.alpha != 2 {
        return Err(String::from_str("planar holes v1 expects alpha=2"));
    }
    Ok(())
}

/// How a sparse coexact prior is compared with a spectral one.
#[derive(Debug)]
pub struct PlanarHolesPriorEquivalenceConfig {
    pub base: PlanarHolesFlowConfig,
    pub mode_counts: Vec<usize>,
    pub include_max_available: bool,
    pub include_exact_lower_mass: bool,
    pub target_coexact_expected_m1_energy: Scalar,
    pub dense_eigen_dimension_cap: usize,
}

impl Default for PlanarHolesPriorEquivalenceConfig {
    fn default() -> (config: Self)
        ensures
            config.base == default_flow_config(),
            config.mode_counts@ == seq![64usize, 160, 512, 1000],
            config.include_max_available,
            config.include_exact_lower_mass,
            config.target_coexact_expected_m1_energy == (Scalar { bits: 0x3ff0_0000_0000_0000 }),
            config.dense_eigen_dimension_cap == 600,
    {
        PlanarHolesPriorEquivalenceConfig {
            base: PlanarHolesFlowConfig::default(),
            mode_counts: vec![64, 160, 512, 1000],
            include_max_available: true,
            include_exact_lower_mass: true,
            target_coexact_expected_m1_energy: Scalar { bits: 0x3ff0_0000_0000_0000 },
            dense_eigen_dimension_cap: 600,
        }
    }
}

/// How a sparse exact prior is compared with a spectral one.
#[derive(Debug)]
pub struct PlanarHolesExactPriorEquivalenceConfig {
    pub base: PlanarHolesFlowConfig,
    pub mode_counts: Vec<usize>,
    pub include_max_available: bool,
    pub target_exact_expected_m1_energy: Scalar,
    pub dense_eigen_dimension_cap: usize,
}

impl Default for PlanarHolesExactPriorEquivalenceConfig {
    fn default() -> (config: Self)
        ensures
            config.base == default_flow_config(),
            config.mode_counts@ == seq![64usize, 160, 512, 1000],
            config.include_max_available,
            config.target_exact_expected_m1_energy == (Scalar { bits: 0x3ff0_0000_0000_0000 }),
            config.dense_eigen_dimension_cap == 600,
    {
        PlanarHolesExactPriorEquivalenceConfig {
            base: PlanarHolesFlowConfig::default(),
            mode_counts: vec![64, 160, 512, 1000],
            include_max_available: true,
            target_exact_expected_m1_energy: Scalar { bits: 0x3ff0_0000_0000_0000 },
            dense_eigen_dimension_cap: 600,
        }
    }
}

/// How truths are projected onto growing numbers of spectral modes.
#[derive(Debug)]
pub struct PlanarHolesSpectralTruthCompatibilityConfig {
    pub base: PlanarHolesFlowConfig,
    pub mode_stages: Vec<usize>,
    pub include_max_available: bool,
    pub spectral_truth_mode_count: usize,
    pub families: Vec<PlanarHolesSpectralTruthFamily>,
    pub boundary_conditions: Vec<PlanarHolesSpectralBoundaryCondition>,
}

impl Default for PlanarHolesSpectralTruthCompatibilityConfig {
    fn default() -> (config: Self)
        ensures
            config.base == default_flow_config(),
            config.mode_stages@ == seq![32usize, 64, 128, 256, 512, 1000],
            config.include_max_available,
            config.spectral_truth_mode_count == 1000,
            config.families@ == seq![
                PlanarHolesSpectralTruthFamily::SpectralCoexact,
                PlanarHolesSpectralTruthFamily::SparseAnchorCoexact,
                PlanarHolesSpectralTruthFamily::ExactMassCoexactKappa8,
                PlanarHolesSpectralTruthFamily::ExactMassCoexactKappa2,
                PlanarHolesSpectralTruthFamily::StreamfunctionDirichlet,
            ],
            config.boundary_conditions@ == seq![
                PlanarHolesSpectralBoundaryCondition::Free,
                PlanarHolesSpectralBoundaryCondition::StrongBoundaryOneForms,
            ],
    {
        PlanarHolesSpectralTruthCompatibilityConfig {
            base: PlanarHolesFlowConfig::default(),
            mode_stages: vec![32, 64, 128, 256, 512, 1000],
            include_max_available: true,
            spectral_truth_mode_count: 1000,
            families: vec![
                PlanarHolesSpectralTruthFamily::SpectralCoexact,
                PlanarHolesSpectralTruthFamily::SparseAnchorCoexact,
                PlanarHolesSpectralTruthFamily::ExactMassCoexactKappa8,
                PlanarHolesSpectralTruthFamily::ExactMassCoexactKappa2,
                PlanarHolesSpectralTruthFamily::StreamfunctionDirichlet,
            ],
            boundary_conditions: vec![
                PlanarHolesSpectralBoundaryCondition::Free,
                PlanarHolesSpectralBoundaryCondition::StrongBoundaryOneForms,
            ],
        }
    }
}

/// How the sensor designs are compared on one budget of observations.
#[derive(Debug)]
pub struct PlanarHolesSensorDesignSweepConfig {
    pub base: PlanarHolesFlowConfig,
    pub total_observation_budget: usize,
    pub heldout_local_count: usize,
    pub heldout_interior_loop_count: usize,
    pub heldout_long_path_count: usize,
    pub interior_loop_noise_variance: Scalar,
    pub long_path_noise_variance: Scalar,
    pub designs: Vec<PlanarHolesSensorDesignKind>,
}

impl Default for PlanarHolesSensorDesignSweepConfig {
    fn default() -> (config: Self)
        ensures
            config.base == default_flow_config(),
            config.total_observation_budget == 600,
            config.heldout_local_count == 200,
            config.heldout_interior_loop_count == 80,
            config.heldout_long_path_count == 80,
            config.interior_loop_noise_variance == (Scalar { bits: 0x3ee4_f8b5_88e3_68f1 }),
            config.long_path_noise_variance == (Scalar { bits: 0x3f1a_36e2_eb1c_432d }),
            config.designs@ == seq![
                PlanarHolesSensorDesignKind::SparseEdges,
                PlanarHolesSensorDesignKind::EdgesHolePeriods,
                PlanarHolesSensorDesignKind::EdgesSmallInteriorLoops,
                PlanarHolesSensorDesignKind::EdgesMultiscaleInteriorLoops,
                PlanarHolesSensorDesignKind::EdgesLongPaths,
                PlanarHolesSensorDesignKind::Hybrid,
            ],
    {
        PlanarHolesSensorDesignSweepConfig {
            base: PlanarHolesFlowConfig::default(),
            total_observation_budget: 600,
            heldout_local_count: 200,
            heldout_interior_loop_count: 80,
            heldout_long_path_count: 80,
            interior_loop_noise_variance: Scalar { bits: 0x3ee4_f8b5_88e3_68f1 },
            long_path_noise_variance: Scalar { bits: 0x3f1a_36e2_eb1c_432d },
            designs: vec![
                PlanarHolesSensorDesignKind::SparseEdges,
                PlanarHolesSensorDesignKind::EdgesHolePeriods,
                PlanarHolesSensorDesignKind::EdgesSmallInteriorLoops,
                PlanarHolesSensorDesignKind::EdgesMultiscaleInteriorLoops,
                PlanarHolesSensorDesignKind::EdgesLongPaths,
                PlanarHolesSensorDesignKind::Hybrid,
            ],
        }
    }
}

/// How models that know the topology are compared with ones that do not.
#[derive(Debug)]
pub struct PlanarHolesTopologyVsNaiveGpConfig {
    pub base: PlanarHolesFlowConfig,
    pub total_observation_budget: usize,
    pub validation_local_count: usize,
    pub validation_interior_loop_count: usize,
    pub validation_long_path_count: usize,
    pub heldout_local_count: usize,
    pub heldout_interior_loop_count: usize,
    pub heldout_long_path_count: usize,
    pub interior_loop_noise_variance: Scalar,
    pub long_path_noise_variance: Scalar,
    pub hodge_kappas: Vec<Scalar>,
    pub hodge_taus: Vec<Scalar>,
    pub naive_kappas: Vec<Scalar>,
    pub naive_taus: Vec<Scalar>,
    pub observation_variance_scales: Vec<Scalar>,
}

/// The flow configuration of the comparison: an incompressible truth without noise.
pub open spec fn default_comparison_flow_config() -> PlanarHolesFlowConfig {
    PlanarHolesFlowConfig {
        exact_truth_mass_norm: Scalar { bits: 0x0000_0000_0000_0000 },
        coexact_truth_mass_norm: Scalar { bits: 0x3ff0_0000_0000_0000 },
        harmonic_truth_mass_norm: Scalar { bits: 0x4000_0000_0000_0000 },
        coexact_truth_source: PlanarHolesCoexactTruthSource::DirichletStreamfunction,
        sample_observation_noise: false,
        ..default_flow_config()
    }
}

impl Default for PlanarHolesTopologyVsNaiveGpConfig {
    fn default() -> (config: Self)
        ensures
            config.base == default_comparison_flow_config(),
            config.total_observation_budget == 120,
            config.validation_local_count == 30,
            config.validation_interior_loop_count == 60,
            config.validation_long_path_count == 40,
            config.heldout_local_count == 40,
            config.heldout_interior_loop_count == 160,
            config.heldout_long_path_count == 80,
            config.interior_loop_noise_variance == (Scalar { bits: 0x3ee4_f8b5_88e3_68f1 }),
            config.long_path_noise_variance == (Scalar { bits: 0x3f1a_36e2_eb1c_432d }),
            config.hodge_kappas@ == seq![
                Scalar { bits: 0x3ff8_0000_0000_0000 },
                Scalar { bits: 0x4008_0000_0000_0000 },
                Scalar { bits: 0x4018_0000_0000_0000 },
                Scalar { bits: 0x4024_0000_0000_0000 },
            ],
            config.hodge_taus@ == seq![
                Scalar { bits: 0x3f9e_b851_eb85_1eb8 },
                Scalar { bits: 0x3fa9_9999_9999_999a },
                Scalar { bits: 0x3fb9_9999_9999_999a },
                Scalar { bits: 0x3fc9_9999_9999_999a },
            ],
            config.naive_kappas@ == seq![
                Scalar { bits: 0x4008_0000_0000_0000 },
                Scalar { bits: 0x4018_0000_0000_0000 },
                Scalar { bits: 0x4024_0000_0000_0000 },
            ],
            config.naive_taus@ == seq![
                Scalar { bits: 0x3fe0_0000_0000_0000 },
                Scalar { bits: 0x3ff0_0000_0000_0000 },
                Scalar { bits: 0x4000_0000_0000_0000 },
            ],
            config.observation_variance_scales@ == seq![
                Scalar { bits: 0x4024_0000_0000_0000 },
                Scalar { bits: 0x3ff0_0000_0000_0000 },
                Scalar { bits: 0x3fb9_9999_9999_999a },
            ],
    {
        let mut base = PlanarHolesFlowConfig::default();
        base.exact_truth_mass_norm = Scalar { bits: 0x0000_0000_0000_0000 };
        base.coexact_truth_mass_norm = Scalar { bits: 0x3ff0_0000_0000_0000 };
        base.harmonic_truth_mass_norm = Scalar { bits: 0x4000_0000_0000_0000 };
        base.coexact_truth_source = PlanarHolesCoexactTruthSource::DirichletStreamfunction;
        base.sample_observation_noise = false;
        PlanarHolesTopologyVsNaiveGpConfig {
            base,
            total_observation_budget: 120,
            validation_local_count: 30,
            validation_interior_loop_count: 60,
            validation_long_path_count: 40,
            heldout_local_count: 40,
            heldout_interior_loop_count: 160,
            heldout_long_path_count: 80,
            interior_loop_noise_variance: Scalar { bits: 0x3ee4_f8b5_88e3_68f1 },
            long_path_noise_variance: Scalar { bits: 0x3f1a_36e2_eb1c_432d },
            hodge_kappas: vec![
                Scalar { bits: 0x3ff8_0000_0000_0000 },
                Scalar { bits: 0x4008_0000_0000_0000 },
                Scalar { bits: 0x4018_0000_0000_0000 },
                Scalar { bits: 0x4024_0000_0000_0000 },
            ],
            hodge_taus: vec![
                Scalar { bits: 0x3f9e_b851_eb85_1eb8 },
                Scalar { bits: 0x3fa9_9999_9999_999a },
                Scalar { bits: 0x3fb9_9999_9999_999a },
                Scalar { bits: 0x3fc9_9999_9999_999a },
            ],
            naive_kappas: vec![
                Scalar { bits: 0x4008_0000_0000_0000 },
                Scalar { bits: 0x4018_0000_0000_0000 },
                Scalar { bits: 0x4024_0000_0000_0000 },
            ],
            naive_taus: vec![
                Scalar { bits: 0x3fe0_0000_0000_0000 },
                Scalar { bits: 0x3ff0_0000_0000_0000 },
                Scalar { bits: 0x4000_0000_0000_0000 },
            ],
            observation_variance_scales: vec![
                Scalar { bits: 0x4024_0000_0000_0000 },
                Scalar { bits: 0x3ff0_0000_0000_0000 },
                Scalar { bits: 0x3fb9_9999_9999_999a },
            ],
        }
    }
}

/// The default configurations can be run.
pub proof fn lemma_defaults_are_valid()
    ensures
        is_valid_flow_config(default_flow_config()),
        is_valid_flow_config(default_comparison_flow_config()),
{
}

/// What is wrong with a sweep over sensor designs, if anything.
pub open spec fn sensor_sweep_message(config: PlanarHolesSensorDesignSweepConfig) -> Option<
    Seq<char>,
> {
    if config.total_observation_budget == 0 {
        Some(count_message("total_observation_budget"@))
    } else if !config.interior_loop_noise_variance.positive() {
        Some(positive_text("interior_loop_noise_variance"@))
    } else if !config.long_path_noise_variance.positive() {
        Some(positive_text("long_path_noise_variance"@))
    } else if config.designs.len() == 0 {
        Some("at least one sensor design is required"@)
    } else {
        None
    }
}

/// Checks that a sweep over sensor designs can be run.
pub fn validate_sensor_sweep_config(config: &PlanarHolesSensorDesignSweepConfig) -> (result: Result<
    (),
    String,
>)
    ensures
        match result {
            Ok(_) => sensor_sweep_message(*config) is None,
            Err(message) => sensor_sweep_message(*config) == Some(message@),
        },
{
    check_count("total_observation_budget", config.total_observation_budget)?;
    check_positive("interior_loop_noise_variance", config.interior_loop_noise_variance)?;
    check_positive("long_path_noise_variance", config.long_path_noise_variance)?;
    if config.designs.len() == 0 {
        return Err(String::from_str("at least one sensor design is required"));
    }
    Ok(())
}

/// Whether every value of a grid is finite and positive.
pub open spec fn all_positive(values: Seq<Scalar>) -> bool {
    forall|i: int| 0 <= i < values.len() ==> (#[trigger] values[i]).positive()
}

/// What is wrong with a grid of values, if anything.
pub open spec fn grid_message(name: Seq<char>, values: Seq<Scalar>) -> Option<Seq<char>> {
    if values.len() == 0 {
        Some(name + " must not be empty"@)
    } else if !all_positive(values) {
        Some(name + " must contain only finite positive values"@)
    } else {
        None
    }
}

/// Checks that a grid holds at least one value, and finite positive values only.
pub fn validate_positive_grid(name: &str, values: &Vec<Scalar>) -> (result: Result<(), String>)
    ensures
        match result {
            Ok(_) => grid_message(name@, values@) is None,
            Err(message) => grid_message(name@, values@) == Some(message@),
        },
{
    if values.len() == 0 {
        let mut message = String::from_str(name);
        message.append(" must not be empty");
        return Err(message);
    }
    let mut index: usize = 0;
    while index < values.len()
        invariant
            index <= values.len(),
            values.len() > 0,
            forall|i: int| 0 <= i < index ==> (#[trigger] values@[i]).positive(),
        decreases values.len() - index,
    {
        if !values[index].is_positive() {
            let mut message = String::from_str(name);
            message.append(" must contain only finite positive values");
            assert(!values@[index as int].positive());
            return Err(message);
        }
        index = index + 1;
    }
    Ok(())
}

/// What is wrong with a comparison, if anything.
pub open spec fn comparison_message(config: PlanarHolesTopologyVsNaiveGpConfig) -> Option<
    Seq<char>,
> {
    if config.total_observation_budget == 0 {
        Some(count_message("total_observation_budget"@))
    } else if config.validation_local_count == 0 {
        Some(count_message("validation_local_count"@))
    } else if config.validation_interior_loop_count == 0 {
        Some(count_message("validation_interior_loop_count"@))
    } else if config.validation_long_path_count == 0 {
        Some(count_message("validation_long_path_count"@))
    } else if config.heldout_local_count == 0 {
        Some(count_message("heldout_local_count"@))
    } else if config.heldout_interior_loop_count == 0 {
        Some(count_message("heldout_interior_loop_count"@))
    } else if config.heldout_long_path_count == 0 {
        Some(count_message("heldout_long_path_count"@))
    } else if !config.interior_loop_noise_variance.positive() {
        Some(positive_text("interior_loop_noise_variance"@))
    } else if !config.long_path_noise_variance.positive() {
        Some(positive_text("long_path_noise_variance"@))
    } else if grid_message("hodge_kappas"@, config.hodge_kappas@) is Some {
        grid_message("hodge_kappas"@, config.hodge_kappas@)
    } else if grid_message("hodge_taus"@, config.hodge_taus@) is Some {
        grid_message("hodge_taus"@, config.hodge_taus@)
    } else if grid_message("naive_kappas"@, config.naive_kappas@) is Some {
        grid_message("naive_kappas"@, config.naive_kappas@)
    } else if grid_message("naive_taus"@, config.naive_taus@) is Some {
        grid_message("naive_taus"@, config.naive_taus@)
    } else {
        grid_message("observation_variance_scales"@, config.observation_variance_scales@)
    }
}

/// Checks that a comparison can be run.
pub fn validate_topology_vs_naive_config(config: &PlanarHolesTopologyVsNaiveGpConfig) -> (result:
    Result<(), String>)
    ensures
        match result {
            Ok(_) => comparison_message(*config) is None,
            Err(message) => comparison_message(*config) == Some(message@),
        },
{
    check_count("total_observation_budget", config.total_observation_budget)?;
    check_count("validation_local_count", config.validation_local_count)?;
    check_count("validation_interior_loop_count", config.validation_interior_loop_count)?;
    check_count("validation_long_path_count", config.validation_long_path_count)?;
    check_count("heldout_local_count", config.heldout_local_count)?;
    check_count("heldout_interior_loop_count", config.heldout_interior_loop_count)?;
    check_count("heldout_long_path_count", config.heldout_long_path_count)?;
    check_positive("interior_loop_noise_variance", config.interior_loop_noise_variance)?;
    check_positive("long_path_noise_variance", config.long_path_noise_variance)?;
    validate_positive_grid("hodge_kappas", &config.hodge_kappas)?;
    validate_positive_grid("hodge_taus", &config.hodge_taus)?;
    validate_positive_grid("naive_kappas", &config.naive_kappas)?;
    validate_positive_grid("naive_taus", &config.naive_taus)?;
    validate_positive_grid("observation_variance_scales", &config.observation_variance_scales)?;
    Ok(())
}

} // verus!
