//! The rows of the tables that the studies write.

use super::holes::PlanarHolesDomainKind;
use super::kinds::{
    PlanarHolesCodifferentialMetricKind, PlanarHolesFieldCoverageSubset,
    PlanarHolesLoopFunctionalKind, PlanarHolesModelKind, PlanarHolesObservationKind,
    PlanarHolesObservationScenario, PlanarHolesPriorEquivalenceGmrfVariant,
    PlanarHolesPriorEquivalenceSpectralReference, PlanarHolesSensorDesignKind,
    PlanarHolesSpectralBoundaryCondition, PlanarHolesSpectralTruthFamily,
};
use super::topology::PlanarHolesTopologySummary;
use crate::hodge::HodgeBranchKind;
use crate::scalar::Scalar;
use crate::table::{
    cell_views, column_views, count_cell, flag_cell, number_cell, signed_cell, text_cell, Cell,
    CellModel, NumberFormat,
};
use vstd::prelude::*;

verus! {

/// How well a number of spectral modes holds a truth.
#[derive(Debug)]
pub struct PlanarHolesSpectralTruthCompatibilityRow {
    pub truth_family: PlanarHolesSpectralTruthFamily,
    pub boundary_condition: PlanarHolesSpectralBoundaryCondition,
    pub requested_mode_count: usize,
    pub actual_mode_count: usize,
    pub truth_mass_norm: Scalar,
    pub projected_truth_mass_norm: Scalar,
    pub projected_energy_fraction: Scalar,
    pub projection_relative_error: Scalar,
    pub projected_truth_mahalanobis_norm: Scalar,
    pub codifferential_leakage: Scalar,
    pub boundary_lumped_energy_fraction: Scalar,
    pub unnormalized_expected_m1_energy_sq: Scalar,
    pub target_expected_m1_energy_sq: Scalar,
    pub expected_m1_energy_sq: Scalar,
    pub normalization_scale: Scalar,
}

impl PlanarHolesSpectralTruthCompatibilityRow {
    /// The names of the columns.
    pub open spec fn columns() -> Seq<Seq<char>> {
        seq![
            "truth_family"@,
            "boundary_condition"@,
            "requested_mode_count"@,
            "actual_mode_count"@,
            "truth_mass_norm"@,
            "projected_truth_mass_norm"@,
            "projected_energy_fraction"@,
            "projection_relative_error"@,
            "projected_truth_mahalanobis_norm"@,
            "codifferential_leakage"@,
            "boundary_lumped_energy_fraction"@,
            "unnormalized_expected_m1_energy_sq"@,
            "target_expected_m1_energy_sq"@,
            "expected_m1_energy_sq"@,
            "normalization_scale"@,
        ]
    }

    /// What stands in the columns.
    pub open spec fn cells(&self) -> Seq<CellModel> {
        seq![
            CellModel::Text { text: self.truth_family.name() },
            CellModel::Text { text: self.boundary_condition.name() },
            CellModel::Count { count: self.requested_mode_count as nat },
            CellModel::Count { count: self.actual_mode_count as nat },
            CellModel::Number { value: self.truth_mass_norm, format: NumberFormat::Fixed12 },
            CellModel::Number { value: self.projected_truth_mass_norm, format: NumberFormat::Fixed12 },
            CellModel::Number { value: self.projected_energy_fraction, format: NumberFormat::Fixed12 },
            CellModel::Number { value: self.projection_relative_error, format: NumberFormat::Fixed12 },
            CellModel::Number { value: self.projected_truth_mahalanobis_norm, format: NumberFormat::Fixed12 },
            CellModel::Number { value: self.codifferential_leakage, format: NumberFormat::Fixed12 },
            CellModel::Number { value: self.boundary_lumped_energy_fraction, format: NumberFormat::Fixed12 },
            CellModel::Number { value: self.unnormalized_expected_m1_energy_sq, format: NumberFormat::Fixed12 },
            CellModel::Number { value: self.target_expected_m1_energy_sq, format: NumberFormat::Fixed12 },
            CellModel::Number { value: self.expected_m1_energy_sq, format: NumberFormat::Fixed12 },
            CellModel::Number { value: self.normalization_scale, format: NumberFormat::Fixed12 },
        ]
    }

    /// Lists the names of the columns.
    pub fn column_names() -> (columns: Vec<&'static str>)
        ensures
            column_views(columns@) == Self::columns(),
    {
        let columns: Vec<&'static str> = vec![
            "truth_family",
            "boundary_condition",
            "requested_mode_count",
            "actual_mode_count",
            "truth_mass_norm",
            "projected_truth_mass_norm",
            "projected_energy_fraction",
            "projection_relative_error",
            "projected_truth_mahalanobis_norm",
            "codifferential_leakage",
            "boundary_lumped_energy_fraction",
            "unnormalized_expected_m1_energy_sq",
            "target_expected_m1_energy_sq",
            "expected_m1_energy_sq",
            "normalization_scale",
        ];
        assert(column_views(columns@) =~= Self::columns());
        columns
    }

    /// Lists what stands in the columns, one cell for each.
    pub fn to_cells(&self) -> (cells: Vec<Cell>)
        ensures
            cell_views(cells@) == self.cells(),
            cells.len() == Self::columns().len(),
    {
        let cells: Vec<Cell> = vec![
            text_cell(self.truth_family.as_str()),
            text_cell(self.boundary_condition.as_str()),
            count_cell(self.requested_mode_count),
            count_cell(self.actual_mode_count),
            number_cell(self.truth_mass_norm, NumberFormat::Fixed12),
            number_cell(self.projected_truth_mass_norm, NumberFormat::Fixed12),
            number_cell(self.projected_energy_fraction, NumberFormat::Fixed12),
            number_cell(self.projection_relative_error, NumberFormat::Fixed12),
            number_cell(self.projected_truth_mahalanobis_norm, NumberFormat::Fixed12),
            number_cell(self.codifferential_leakage, NumberFormat::Fixed12),
            number_cell(self.boundary_lumped_energy_fraction, NumberFormat::Fixed12),
            number_cell(self.unnormalized_expected_m1_energy_sq, NumberFormat::Fixed12),
            number_cell(self.target_expected_m1_energy_sq, NumberFormat::Fixed12),
            number_cell(self.expected_m1_energy_sq, NumberFormat::Fixed12),
            number_cell(self.normalization_scale, NumberFormat::Fixed12),
        ];
        assert(cell_views(cells@) =~= self.cells());
        cells
    }
}

/// How a sparse prior compares with a spectral one.
#[derive(Debug)]
pub struct PlanarHolesPriorEquivalenceRow {
    pub requested_mode_count: usize,
    pub actual_mode_count: usize,
    pub spectral_reference: PlanarHolesPriorEquivalenceSpectralReference,
    pub gmrf_variant: PlanarHolesPriorEquivalenceGmrfVariant,
    pub spectral_expected_m1_energy: Scalar,
    pub spectral_unnormalized_expected_m1_energy: Scalar,
    pub spectral_normalization_scale: Scalar,
    pub gmrf_expected_m1_energy: Scalar,
    pub gmrf_tau_scale: Scalar,
    pub required_tau_scale_to_match_spectral_trace: Scalar,
    pub trace_relative_error: Scalar,
    pub m1_frobenius_relative_error: Scalar,
    pub diag_variance_ratio_min: Scalar,
    pub diag_variance_ratio_mean: Scalar,
    pub diag_variance_ratio_max: Scalar,
    pub source_eigen_count: usize,
    pub source_eigen_relative_l2_error: Scalar,
    pub source_eigen_max_relative_error: Scalar,
    pub covariance_eigen_count: usize,
    pub spectral_covariance_eigen_min: Scalar,
    pub spectral_covariance_eigen_max: Scalar,
    pub gmrf_covariance_eigen_min: Scalar,
    pub gmrf_covariance_eigen_max: Scalar,
}

impl PlanarHolesPriorEquivalenceRow {
    /// The names of the columns.
    pub open spec fn columns() -> Seq<Seq<char>> {
        seq![
            "requested_mode_count"@,
            "actual_mode_count"@,
            "spectral_reference"@,
            "gmrf_variant"@,
            "spectral_expected_m1_energy"@,
            "spectral_unnormalized_expected_m1_energy"@,
            "spectral_normalization_scale"@,
            "gmrf_expected_m1_energy"@,
            "gmrf_tau_scale"@,
            "required_tau_scale_to_match_spectral_trace"@,
            "trace_relative_error"@,
            "m1_frobenius_relative_error"@,
            "diag_variance_ratio_min"@,
            "diag_variance_ratio_mean"@,
            "diag_variance_ratio_max"@,
            "source_eigen_count"@,
            "source_eigen_relative_l2_error"@,
            "source_eigen_max_relative_error"@,
            "covariance_eigen_count"@,
            "spectral_covariance_eigen_min"@,
            "spectral_covariance_eigen_max"@,
            "gmrf_covariance_eigen_min"@,
            "gmrf_covariance_eigen_max"@,
        ]
    }

    /// What stands in the columns.
    pub open spec fn cells(&self) -> Seq<CellModel> {
        seq![
            CellModel::Count { count: self.requested_mode_count as nat },
            CellModel::Count { count: self.actual_mode_count as nat },
            CellModel::Text { text: self.spectral_reference.name() },
            CellModel::Text { text: self.gmrf_variant.name() },
            CellModel::Number { value: self.spectral_expected_m1_energy, format: NumberFormat::Fixed12 },
            CellModel::Number { value: self.spectral_unnormalized_expected_m1_energy, format: NumberFormat::Fixed12 },
            CellModel::Number { value: self.spectral_normalization_scale, format: NumberFormat::Fixed12 },
            CellModel::Number { value: self.gmrf_expected_m1_energy, format: NumberFormat::Fixed12 },
            CellModel::Number { value: self.gmrf_tau_scale, format: NumberFormat::Fixed12 },
            CellModel::Number { value: self.required_tau_scale_to_match_spectral_trace, format: NumberFormat::Fixed12 },
            CellModel::Number { value: self.trace_relative_error, format: NumberFormat::Fixed12 },
            CellModel::Number { value: self.m1_frobenius_relative_error, format: NumberFormat::Fixed12 },
            CellModel::Number { value: self.diag_variance_ratio_min, format: NumberFormat::Fixed12 },
            CellModel::Number { value: self.diag_variance_ratio_mean, format: NumberFormat::Fixed12 },
            CellModel::Number { value: self.diag_variance_ratio_max, format: NumberFormat::Fixed12 },
            CellModel::Count { count: self.source_eigen_count as nat },
            CellModel::Number { value: self.source_eigen_relative_l2_error, format: NumberFormat::Fixed12 },
            CellModel::Number { value: self.source_eigen_max_relative_error, format: NumberFormat::Fixed12 },
            CellModel::Count { count: self.covariance_eigen_count as nat },
            CellModel::Number { value: self.spectral_covariance_eigen_min, format: NumberFormat::Fixed12 },
            CellModel::Number { value: self.spectral_covariance_eigen_max, format: NumberFormat::Fixed12 },
            CellModel::Number { value: self.gmrf_covariance_eigen_min, format: NumberFormat::Fixed12 },
            CellModel::Number { value: self.gmrf_covariance_eigen_max, format: NumberFormat::Fixed12 },
        ]
    }

    /// Lists the names of the columns.
    pub fn column_names() -> (columns: Vec<&'static str>)
        ensures
            column_views(columns@) == Self::columns(),
    {
        let columns: Vec<&'static str> = vec![
            "requested_mode_count",
            "actual_mode_count",
            "spectral_reference",
            "gmrf_variant",
            "spectral_expected_m1_energy",
            "spectral_unnormalized_expected_m1_energy",
            "spectral_normalization_scale",
            "gmrf_expected_m1_energy",
            "gmrf_tau_scale",
            "required_tau_scale_to_match_spectral_trace",
            "trace_relative_error",
            "m1_frobenius_relative_error",
            "diag_variance_ratio_min",
            "diag_variance_ratio_mean",
            "diag_variance_ratio_max",
            "source_eigen_count",
            "source_eigen_relative_l2_error",
            "source_eigen_max_relative_error",
            "covariance_eigen_count",
            "spectral_covariance_eigen_min",
            "spectral_covariance_eigen_max",
            "gmrf_covariance_eigen_min",
            "gmrf_covariance_eigen_max",
        ];
        assert(column_views(columns@) =~= Self::columns());
        columns
    }

    /// Lists what stands in the columns, one cell for each.
    pub fn to_cells(&self) -> (cells: Vec<Cell>)
        ensures
            cell_views(cells@) == self.cells(),
            cells.len() == Self::columns().len(),
    {
        let cells: Vec<Cell> = vec![
            count_cell(self.requested_mode_count),
            count_cell(self.actual_mode_count),
            text_cell(self.spectral_reference.as_str()),
            text_cell(self.gmrf_variant.as_str()),
            number_cell(self.spectral_expected_m1_energy, NumberFormat::Fixed12),
            number_cell(self.spectral_unnormalized_expected_m1_energy, NumberFormat::Fixed12),
            number_cell(self.spectral_normalization_scale, NumberFormat::Fixed12),
            number_cell(self.gmrf_expected_m1_energy, NumberFormat::Fixed12),
            number_cell(self.gmrf_tau_scale, NumberFormat::Fixed12),
            number_cell(self.required_tau_scale_to_match_spectral_trace, NumberFormat::Fixed12),
            number_cell(self.trace_relative_error, NumberFormat::Fixed12),
            number_cell(self.m1_frobenius_relative_error, NumberFormat::Fixed12),
            number_cell(self.diag_variance_ratio_min, NumberFormat::Fixed12),
            number_cell(self.diag_variance_ratio_mean, NumberFormat::Fixed12),
            number_cell(self.diag_variance_ratio_max, NumberFormat::Fixed12),
            count_cell(self.source_eigen_count),
            number_cell(self.source_eigen_relative_l2_error, NumberFormat::Fixed12),
            number_cell(self.source_eigen_max_relative_error, NumberFormat::Fixed12),
            count_cell(self.covariance_eigen_count),
            number_cell(self.spectral_covariance_eigen_min, NumberFormat::Fixed12),
            number_cell(self.spectral_covariance_eigen_max, NumberFormat::Fixed12),
            number_cell(self.gmrf_covariance_eigen_min, NumberFormat::Fixed12),
            number_cell(self.gmrf_covariance_eigen_max, NumberFormat::Fixed12),
        ];
        assert(cell_views(cells@) =~= self.cells());
        cells
    }
}

/// How well a model does with the sensors of a design.
#[derive(Debug)]
pub struct PlanarHolesSensorDesignSweepRow {
    pub design: PlanarHolesSensorDesignKind,
    pub model: PlanarHolesModelKind,
    pub model_coexact_tau_scale: Scalar,
    pub observation_count: usize,
    pub edge_observation_count: usize,
    pub interior_loop_observation_count: usize,
    pub long_path_observation_count: usize,
    pub harmonic_period_observation_count: usize,
    pub l2_error: Scalar,
    pub heldout_local_nlpd: Scalar,
    pub heldout_interior_loop_nlpd: Scalar,
    pub heldout_long_path_nlpd: Scalar,
    pub heldout_harmonic_period_nlpd: Scalar,
    pub heldout_interior_loop_relative_error: Scalar,
    pub heldout_long_path_relative_error: Scalar,
    pub heldout_harmonic_period_relative_error: Scalar,
    pub codifferential_leakage: Scalar,
    pub coexact_relative_error: Scalar,
    pub coexact_mass_correlation: Scalar,
    pub harmonic_relative_error: Scalar,
    pub harmonic_mass_correlation: Scalar,
    pub all_edge_coverage_95: Scalar,
    pub heldout_edge_coverage_95: Scalar,
}

impl PlanarHolesSensorDesignSweepRow {
    /// The names of the columns.
    pub open spec fn columns() -> Seq<Seq<char>> {
        seq![
            "design"@,
            "model"@,
            "model_coexact_tau_scale"@,
            "observation_count"@,
            "edge_observation_count"@,
            "interior_loop_observation_count"@,
            "long_path_observation_count"@,
            "harmonic_period_observation_count"@,
            "l2_error"@,
            "heldout_local_nlpd"@,
            "heldout_interior_loop_nlpd"@,
            "heldout_long_path_nlpd"@,
            "heldout_harmonic_period_nlpd"@,
            "heldout_interior_loop_relative_error"@,
            "heldout_long_path_relative_error"@,
            "heldout_harmonic_period_relative_error"@,
            "codifferential_leakage"@,
            "coexact_relative_error"@,
            "coexact_mass_correlation"@,
            "harmonic_relative_error"@,
            "harmonic_mass_correlation"@,
            "all_edge_coverage_95"@,
            "heldout_edge_coverage_95"@,
        ]
    }

    /// What stands in the columns.
    pub open spec fn cells(&self) -> Seq<CellModel> {
        seq![
            CellModel::Text { text: self.design.name() },
            CellModel::Text { text: self.model.name() },
            CellModel::Number { value: self.model_coexact_tau_scale, format: NumberFormat::Fixed12 },
            CellModel::Count { count: self.observation_count as nat },
            CellModel::Count { count: self.edge_observation_count as nat },
            CellModel::Count { count: self.interior_loop_observation_count as nat },
            CellModel::Count { count: self.long_path_observation_count as nat },
            CellModel::Count { count: self.harmonic_period_observation_count as nat },
            CellModel::Number { value: self.l2_error, format: NumberFormat::Fixed12 },
            CellModel::Number { value: self.heldout_local_nlpd, format: NumberFormat::Fixed12 },
            CellModel::Number { value: self.heldout_interior_loop_nlpd, format: NumberFormat::Fixed12 },
            CellModel::Number { value: self.heldout_long_path_nlpd, format: NumberFormat::Fixed12 },
            CellModel::Number { value: self.heldout_harmonic_period_nlpd, format: NumberFormat::Fixed12 },
            CellModel::Number { value: self.heldout_interior_loop_relative_error, format: NumberFormat::Fixed12 },
            CellModel::Number { value: self.heldout_long_path_relative_error, format: NumberFormat::Fixed12 },
            CellModel::Number { value: self.heldout_harmonic_period_relative_error, format: NumberFormat::Fixed12 },
            CellModel::Number { value: self.codifferential_leakage, format: NumberFormat::Fixed12 },
            CellModel::Number { value: self.coexact_relative_error, format: NumberFormat::Fixed12 },
            CellModel::Number { value: self.coexact_mass_correlation, format: NumberFormat::Fixed12 },
            CellModel::Number { value: self.harmonic_relative_error, format: NumberFormat::Fixed12 },
            CellModel::Number { value: self.harmonic_mass_correlation, format: NumberFormat::Fixed12 },
            CellModel::Number { value: self.all_edge_coverage_95, format: NumberFormat::Fixed12 },
            CellModel::Number { value: self.heldout_edge_coverage_95, format: NumberFormat::Fixed12 },
        ]
    }

    /// Lists the names of the columns.
    pub fn column_names() -> (columns: Vec<&'static str>)
        ensures
            column_views(columns@) == Self::columns(),
    {
        let columns: Vec<&'static str> = vec![
            "design",
            "model",
            "model_coexact_tau_scale",
            "observation_count",
            "edge_observation_count",
            "interior_loop_observation_count",
            "long_path_observation_count",
            "harmonic_period_observation_count",
            "l2_error",
            "heldout_local_nlpd",
            "heldout_interior_loop_nlpd",
            "heldout_long_path_nlpd",
            "heldout_harmonic_period_nlpd",
            "heldout_interior_loop_relative_error",
            "heldout_long_path_relative_error",
            "heldout_harmonic_period_relative_error",
            "codifferential_leakage",
            "coexact_relative_error",
            "coexact_mass_correlation",
            "harmonic_relative_error",
            "harmonic_mass_correlation",
            "all_edge_coverage_95",
            "heldout_edge_coverage_95",
        ];
        assert(column_views(columns@) =~= Self::columns());
        columns
    }

    /// Lists what stands in the columns, one cell for each.
    pub fn to_cells(&self) -> (cells: Vec<Cell>)
        ensures
            cell_views(cells@) == self.cells(),
            cells.len() == Self::columns().len(),
    {
        let cells: Vec<Cell> = vec![
            text_cell(self.design.as_str()),
            text_cell(self.model.as_str()),
            number_cell(self.model_coexact_tau_scale, NumberFormat::Fixed12),
            count_cell(self.observation_count),
            count_cell(self.edge_observation_count),
            count_cell(self.interior_loop_observation_count),
            count_cell(self.long_path_observation_count),
            count_cell(self.harmonic_period_observation_count),
            number_cell(self.l2_error, NumberFormat::Fixed12),
            number_cell(self.heldout_local_nlpd, NumberFormat::Fixed12),
            number_cell(self.heldout_interior_loop_nlpd, NumberFormat::Fixed12),
            number_cell(self.heldout_long_path_nlpd, NumberFormat::Fixed12),
            number_cell(self.heldout_harmonic_period_nlpd, NumberFormat::Fixed12),
            number_cell(self.heldout_interior_loop_relative_error, NumberFormat::Fixed12),
            number_cell(self.heldout_long_path_relative_error, NumberFormat::Fixed12),
            number_cell(self.heldout_harmonic_period_relative_error, NumberFormat::Fixed12),
            number_cell(self.codifferential_leakage, NumberFormat::Fixed12),
            number_cell(self.coexact_relative_error, NumberFormat::Fixed12),
            number_cell(self.coexact_mass_correlation, NumberFormat::Fixed12),
            number_cell(self.harmonic_relative_error, NumberFormat::Fixed12),
            number_cell(self.harmonic_mass_correlation, NumberFormat::Fixed12),
            number_cell(self.all_edge_coverage_95, NumberFormat::Fixed12),
            number_cell(self.heldout_edge_coverage_95, NumberFormat::Fixed12),
        ];
        assert(cell_views(cells@) =~= self.cells());
        cells
    }
}

/// A model in the figure of vector fields.
#[derive(Debug)]
pub struct PlanarHolesVectorFieldFigureSummaryRow {
    pub model: PlanarHolesModelKind,
    pub l2_error: Scalar,
    pub heldout_nlpd: Scalar,
    pub calibrated_heldout_nlpd: Scalar,
    pub path_integral_relative_error: Scalar,
    pub path_contrast_relative_error: Scalar,
    pub hole_loop_relative_error: Scalar,
    pub codifferential_leakage: Scalar,
    pub all_edge_coverage_95: Scalar,
    pub heldout_edge_coverage_95: Scalar,
    pub posterior_vtu_path: String,
}

impl PlanarHolesVectorFieldFigureSummaryRow {
    /// The names of the columns.
    pub open spec fn columns() -> Seq<Seq<char>> {
        seq![
            "model"@,
            "l2_error"@,
            "heldout_nlpd"@,
            "calibrated_heldout_nlpd"@,
            "path_integral_relative_error"@,
            "path_contrast_relative_error"@,
            "hole_loop_relative_error"@,
            "codifferential_leakage"@,
            "all_edge_coverage_95"@,
            "heldout_edge_coverage_95"@,
            "posterior_vtu_path"@,
        ]
    }

    /// What stands in the columns.
    pub open spec fn cells(&self) -> Seq<CellModel> {
        seq![
            CellModel::Text { text: self.model.name() },
            CellModel::Number { value: self.l2_error, format: NumberFormat::Fixed12 },
            CellModel::Number { value: self.heldout_nlpd, format: NumberFormat::Fixed12 },
            CellModel::Number { value: self.calibrated_heldout_nlpd, format: NumberFormat::Fixed12 },
            CellModel::Number { value: self.path_integral_relative_error, format: NumberFormat::Fixed12 },
            CellModel::Number { value: self.path_contrast_relative_error, format: NumberFormat::Fixed12 },
            CellModel::Number { value: self.hole_loop_relative_error, format: NumberFormat::Fixed12 },
            CellModel::Number { value: self.codifferential_leakage, format: NumberFormat::Fixed12 },
            CellModel::Number { value: self.all_edge_coverage_95, format: NumberFormat::Fixed12 },
            CellModel::Number { value: self.heldout_edge_coverage_95, format: NumberFormat::Fixed12 },
            CellModel::Text { text: self.posterior_vtu_path@ },
        ]
    }

    /// Lists the names of the columns.
    pub fn column_names() -> (columns: Vec<&'static str>)
        ensures
            column_views(columns@) == Self::columns(),
    {
        let columns: Vec<&'static str> = vec![
            "model",
            "l2_error",
            "heldout_nlpd",
            "calibrated_heldout_nlpd",
            "path_integral_relative_error",
            "path_contrast_relative_error",
            "hole_loop_relative_error",
            "codifferential_leakage",
            "all_edge_coverage_95",
            "heldout_edge_coverage_95",
            "posterior_vtu_path",
        ];
        assert(column_views(columns@) =~= Self::columns());
        columns
    }

    /// Lists what stands in the columns, one cell for each.
    pub fn to_cells(&self) -> (cells: Vec<Cell>)
        ensures
            cell_views(cells@) == self.cells(),
            cells.len() == Self::columns().len(),
    {
        let cells: Vec<Cell> = vec![
            text_cell(self.model.as_str()),
            number_cell(self.l2_error, NumberFormat::Fixed12),
            number_cell(self.heldout_nlpd, NumberFormat::Fixed12),
            number_cell(self.calibrated_heldout_nlpd, NumberFormat::Fixed12),
            number_cell(self.path_integral_relative_error, NumberFormat::Fixed12),
            number_cell(self.path_contrast_relative_error, NumberFormat::Fixed12),
            number_cell(self.hole_loop_relative_error, NumberFormat::Fixed12),
            number_cell(self.codifferential_leakage, NumberFormat::Fixed12),
            number_cell(self.all_edge_coverage_95, NumberFormat::Fixed12),
            number_cell(self.heldout_edge_coverage_95, NumberFormat::Fixed12),
            text_cell(self.posterior_vtu_path.as_str()),
        ];
        assert(cell_views(cells@) =~= self.cells());
        cells
    }
}

/// How well a model does across a barrier.
#[derive(Debug)]
pub struct PlanarHolesBarrierSummaryRow {
    pub model: PlanarHolesModelKind,
    pub train_left_edge_count: usize,
    pub validation_left_edge_count: usize,
    pub heldout_right_edge_count: usize,
    pub heldout_cross_barrier_path_count: usize,
    pub cross_barrier_local_nlpd: Scalar,
    pub cross_barrier_local_relative_error: Scalar,
    pub barrier_long_path_nlpd: Scalar,
    pub barrier_long_path_relative_error: Scalar,
    pub hole_loop_nlpd: Scalar,
    pub hole_loop_relative_error: Scalar,
    pub cross_barrier_local_coverage_95: Scalar,
    pub barrier_long_path_coverage_95: Scalar,
    pub hole_loop_coverage_95: Scalar,
    pub calibrated_cross_barrier_local_nlpd: Scalar,
    pub calibrated_barrier_long_path_nlpd: Scalar,
    pub calibrated_hole_loop_nlpd: Scalar,
    pub calibrated_cross_barrier_local_coverage_95: Scalar,
    pub calibrated_barrier_long_path_coverage_95: Scalar,
    pub calibrated_hole_loop_coverage_95: Scalar,
}

impl PlanarHolesBarrierSummaryRow {
    /// The names of the columns.
    pub open spec fn columns() -> Seq<Seq<char>> {
        seq![
            "domain"@,
            "model"@,
            "train_left_edge_count"@,
            "validation_left_edge_count"@,
            "heldout_right_edge_count"@,
            "heldout_cross_barrier_path_count"@,
            "cross_barrier_local_nlpd"@,
            "cross_barrier_local_relative_error"@,
            "barrier_long_path_nlpd"@,
            "barrier_long_path_relative_error"@,
            "hole_loop_nlpd"@,
            "hole_loop_relative_error"@,
            "cross_barrier_local_coverage_95"@,
            "barrier_long_path_coverage_95"@,
            "hole_loop_coverage_95"@,
            "calibrated_cross_barrier_local_nlpd"@,
            "calibrated_barrier_long_path_nlpd"@,
            "calibrated_hole_loop_nlpd"@,
            "calibrated_cross_barrier_local_coverage_95"@,
            "calibrated_barrier_long_path_coverage_95"@,
            "calibrated_hole_loop_coverage_95"@,
        ]
    }

    /// What stands in the columns.
    pub open spec fn cells(&self, domain: PlanarHolesDomainKind) -> Seq<CellModel> {
        seq![
            CellModel::Text { text: domain.name() },
            CellModel::Text { text: self.model.name() },
            CellModel::Count { count: self.train_left_edge_count as nat },
            CellModel::Count { count: self.validation_left_edge_count as nat },
            CellModel::Count { count: self.heldout_right_edge_count as nat },
            CellModel::Count { count: self.heldout_cross_barrier_path_count as nat },
            CellModel::Number { value: self.cross_barrier_local_nlpd, format: NumberFormat::Fixed12 },
            CellModel::Number { value: self.cross_barrier_local_relative_error, format: NumberFormat::Fixed12 },
            CellModel::Number { value: self.barrier_long_path_nlpd, format: NumberFormat::Fixed12 },
            CellModel::Number { value: self.barrier_long_path_relative_error, format: NumberFormat::Fixed12 },
            CellModel::Number { value: self.hole_loop_nlpd, format: NumberFormat::Fixed12 },
            CellModel::Number { value: self.hole_loop_relative_error, format: NumberFormat::Fixed12 },
            CellModel::Number { value: self.cross_barrier_local_coverage_95, format: NumberFormat::Fixed12 },
            CellModel::Number { value: self.barrier_long_path_coverage_95, format: NumberFormat::Fixed12 },
            CellModel::Number { value: self.hole_loop_coverage_95, format: NumberFormat::Fixed12 },
            CellModel::Number { value: self.calibrated_cross_barrier_local_nlpd, format: NumberFormat::Fixed12 },
            CellModel::Number { value: self.calibrated_barrier_long_path_nlpd, format: NumberFormat::Fixed12 },
            CellModel::Number { value: self.calibrated_hole_loop_nlpd, format: NumberFormat::Fixed12 },
            CellModel::Number { value: self.calibrated_cross_barrier_local_coverage_95, format: NumberFormat::Fixed12 },
            CellModel::Number { value: self.calibrated_barrier_long_path_coverage_95, format: NumberFormat::Fixed12 },
            CellModel::Number { value: self.calibrated_hole_loop_coverage_95, format: NumberFormat::Fixed12 },
        ]
    }

    /// Lists the names of the columns.
    pub fn column_names() -> (columns: Vec<&'static str>)
        ensures
            column_views(columns@) == Self::columns(),
    {
        let columns: Vec<&'static str> = vec![
            "domain",
            "model",
            "train_left_edge_count",
            "validation_left_edge_count",
            "heldout_right_edge_count",
            "heldout_cross_barrier_path_count",
            "cross_barrier_local_nlpd",
            "cross_barrier_local_relative_error",
            "barrier_long_path_nlpd",
            "barrier_long_path_relative_error",
            "hole_loop_nlpd",
            "hole_loop_relative_error",
            "cross_barrier_local_coverage_95",
            "barrier_long_path_coverage_95",
            "hole_loop_coverage_95",
            "calibrated_cross_barrier_local_nlpd",
            "calibrated_barrier_long_path_nlpd",
            "calibrated_hole_loop_nlpd",
            "calibrated_cross_barrier_local_coverage_95",
            "calibrated_barrier_long_path_coverage_95",
            "calibrated_hole_loop_coverage_95",
        ];
        assert(column_views(columns@) =~= Self::columns());
        columns
    }

    /// Lists what stands in the columns, one cell for each.
    pub fn to_cells(&self, domain: PlanarHolesDomainKind) -> (cells: Vec<Cell>)
        ensures
            cell_views(cells@) == self.cells(domain),
            cells.len() == Self::columns().len(),
    {
        let cells: Vec<Cell> = vec![
            text_cell(domain.as_str()),
            text_cell(self.model.as_str()),
            count_cell(self.train_left_edge_count),
            count_cell(self.validation_left_edge_count),
            count_cell(self.heldout_right_edge_count),
            count_cell(self.heldout_cross_barrier_path_count),
            number_cell(self.cross_barrier_local_nlpd, NumberFormat::Fixed12),
            number_cell(self.cross_barrier_local_relative_error, NumberFormat::Fixed12),
            number_cell(self.barrier_long_path_nlpd, NumberFormat::Fixed12),
            number_cell(self.barrier_long_path_relative_error, NumberFormat::Fixed12),
            number_cell(self.hole_loop_nlpd, NumberFormat::Fixed12),
            number_cell(self.hole_loop_relative_error, NumberFormat::Fixed12),
            number_cell(self.cross_barrier_local_coverage_95, NumberFormat::Fixed12),
            number_cell(self.barrier_long_path_coverage_95, NumberFormat::Fixed12),
            number_cell(self.hole_loop_coverage_95, NumberFormat::Fixed12),
            number_cell(self.calibrated_cross_barrier_local_nlpd, NumberFormat::Fixed12),
            number_cell(self.calibrated_barrier_long_path_nlpd, NumberFormat::Fixed12),
            number_cell(self.calibrated_hole_loop_nlpd, NumberFormat::Fixed12),
            number_cell(self.calibrated_cross_barrier_local_coverage_95, NumberFormat::Fixed12),
            number_cell(self.calibrated_barrier_long_path_coverage_95, NumberFormat::Fixed12),
            number_cell(self.calibrated_hole_loop_coverage_95, NumberFormat::Fixed12),
        ];
        assert(cell_views(cells@) =~= self.cells(domain));
        cells
    }
}

/// How well a model tells the two sides of the holes apart.
#[derive(Debug)]
pub struct PlanarHolesPathHomologySummaryRow {
    pub model: PlanarHolesModelKind,
    pub train_path_pair_count: usize,
    pub validation_path_pair_count: usize,
    pub heldout_path_pair_count: usize,
    pub path_integral_nlpd: Scalar,
    pub path_integral_relative_error: Scalar,
    pub path_integral_coverage_95: Scalar,
    pub path_contrast_nlpd: Scalar,
    pub path_contrast_relative_error: Scalar,
    pub path_contrast_coverage_95: Scalar,
    pub path_contrast_mean_abs_z: Scalar,
    pub hole_loop_nlpd: Scalar,
    pub hole_loop_relative_error: Scalar,
    pub calibrated_path_integral_nlpd: Scalar,
    pub calibrated_path_integral_coverage_95: Scalar,
    pub calibrated_path_contrast_nlpd: Scalar,
    pub calibrated_path_contrast_coverage_95: Scalar,
    pub calibrated_path_contrast_mean_abs_z: Scalar,
    pub calibrated_hole_loop_nlpd: Scalar,
    pub calibrated_hole_loop_coverage_95: Scalar,
    pub path_contrast_harmonic_pairing_rank: usize,
}

impl PlanarHolesPathHomologySummaryRow {
    /// The names of the columns.
    pub open spec fn columns() -> Seq<Seq<char>> {
        seq![
            "domain"@,
            "model"@,
            "train_path_pair_count"@,
            "validation_path_pair_count"@,
            "heldout_path_pair_count"@,
            "path_integral_nlpd"@,
            "path_integral_relative_error"@,
            "path_integral_coverage_95"@,
            "path_contrast_nlpd"@,
            "path_contrast_relative_error"@,
            "path_contrast_coverage_95"@,
            "path_contrast_mean_abs_z"@,
            "hole_loop_nlpd"@,
            "hole_loop_relative_error"@,
            "calibrated_path_integral_nlpd"@,
            "calibrated_path_integral_coverage_95"@,
            "calibrated_path_contrast_nlpd"@,
            "calibrated_path_contrast_coverage_95"@,
            "calibrated_path_contrast_mean_abs_z"@,
            "calibrated_hole_loop_nlpd"@,
            "calibrated_hole_loop_coverage_95"@,
            "path_contrast_harmonic_pairing_rank"@,
        ]
    }

    /// What stands in the columns.
    pub open spec fn cells(&self, domain: PlanarHolesDomainKind) -> Seq<CellModel> {
        seq![
            CellModel::Text { text: domain.name() },
            CellModel::Text { text: self.model.name() },
            CellModel::Count { count: self.train_path_pair_count as nat },
            CellModel::Count { count: self.validation_path_pair_count as nat },
            CellModel::Count { count: self.heldout_path_pair_count as nat },
            CellModel::Number { value: self.path_integral_nlpd, format: NumberFormat::Fixed12 },
            CellModel::Number { value: self.path_integral_relative_error, format: NumberFormat::Fixed12 },
            CellModel::Number { value: self.path_integral_coverage_95, format: NumberFormat::Fixed12 },
            CellModel::Number { value: self.path_contrast_nlpd, format: NumberFormat::Fixed12 },
            CellModel::Number { value: self.path_contrast_relative_error, format: NumberFormat::Fixed12 },
            CellModel::Number { value: self.path_contrast_coverage_95, format: NumberFormat::Fixed12 },
            CellModel::Number { value: self.path_contrast_mean_abs_z, format: NumberFormat::Fixed12 },
            CellModel::Number { value: self.hole_loop_nlpd, format: NumberFormat::Fixed12 },
            CellModel::Number { value: self.hole_loop_relative_error, format: NumberFormat::Fixed12 },
            CellModel::Number { value: self.calibrated_path_integral_nlpd, format: NumberFormat::Fixed12 },
            CellModel::Number { value: self.calibrated_path_integral_coverage_95, format: NumberFormat::Fixed12 },
            CellModel::Number { value: self.calibrated_path_contrast_nlpd, format: NumberFormat::Fixed12 },
            CellModel::Number { value: self.calibrated_path_contrast_coverage_95, format: NumberFormat::Fixed12 },
            CellModel::Number { value: self.calibrated_path_contrast_mean_abs_z, format: NumberFormat::Fixed12 },
            CellModel::Number { value: self.calibrated_hole_loop_nlpd, format: NumberFormat::Fixed12 },
            CellModel::Number { value: self.calibrated_hole_loop_coverage_95, format: NumberFormat::Fixed12 },
            CellModel::Count { count: self.path_contrast_harmonic_pairing_rank as nat },
        ]
    }

    /// Lists the names of the columns.
    pub fn column_names() -> (columns: Vec<&'static str>)
        ensures
            column_views(columns@) == Self::columns(),
    {
        let columns: Vec<&'static str> = vec![
            "domain",
            "model",
            "train_path_pair_count",
            "validation_path_pair_count",
            "heldout_path_pair_count",
            "path_integral_nlpd",
            "path_integral_relative_error",
            "path_integral_coverage_95",
            "path_contrast_nlpd",
            "path_contrast_relative_error",
            "path_contrast_coverage_95",
            "path_contrast_mean_abs_z",
            "hole_loop_nlpd",
            "hole_loop_relative_error",
            "calibrated_path_integral_nlpd",
            "calibrated_path_integral_coverage_95",
            "calibrated_path_contrast_nlpd",
            "calibrated_path_contrast_coverage_95",
            "calibrated_path_contrast_mean_abs_z",
            "calibrated_hole_loop_nlpd",
            "calibrated_hole_loop_coverage_95",
            "path_contrast_harmonic_pairing_rank",
        ];
        assert(column_views(columns@) =~= Self::columns());
        columns
    }

    /// Lists what stands in the columns, one cell for each.
    pub fn to_cells(&self, domain: PlanarHolesDomainKind) -> (cells: Vec<Cell>)
        ensures
            cell_views(cells@) == self.cells(domain),
            cells.len() == Self::columns().len(),
    {
        let cells: Vec<Cell> = vec![
            text_cell(domain.as_str()),
            text_cell(self.model.as_str()),
            count_cell(self.train_path_pair_count),
            count_cell(self.validation_path_pair_count),
            count_cell(self.heldout_path_pair_count),
            number_cell(self.path_integral_nlpd, NumberFormat::Fixed12),
            number_cell(self.path_integral_relative_error, NumberFormat::Fixed12),
            number_cell(self.path_integral_coverage_95, NumberFormat::Fixed12),
            number_cell(self.path_contrast_nlpd, NumberFormat::Fixed12),
            number_cell(self.path_contrast_relative_error, NumberFormat::Fixed12),
            number_cell(self.path_contrast_coverage_95, NumberFormat::Fixed12),
            number_cell(self.path_contrast_mean_abs_z, NumberFormat::Fixed12),
            number_cell(self.hole_loop_nlpd, NumberFormat::Fixed12),
            number_cell(self.hole_loop_relative_error, NumberFormat::Fixed12),
            number_cell(self.calibrated_path_integral_nlpd, NumberFormat::Fixed12),
            number_cell(self.calibrated_path_integral_coverage_95, NumberFormat::Fixed12),
            number_cell(self.calibrated_path_contrast_nlpd, NumberFormat::Fixed12),
            number_cell(self.calibrated_path_contrast_coverage_95, NumberFormat::Fixed12),
            number_cell(self.calibrated_path_contrast_mean_abs_z, NumberFormat::Fixed12),
            number_cell(self.calibrated_hole_loop_nlpd, NumberFormat::Fixed12),
            number_cell(self.calibrated_hole_loop_coverage_95, NumberFormat::Fixed12),
            count_cell(self.path_contrast_harmonic_pairing_rank),
        ];
        assert(cell_views(cells@) =~= self.cells(domain));
        cells
    }
}

/// How well a model does on held-out observations.
#[derive(Debug)]
pub struct PlanarHolesTopologyVsNaiveGpMetricRow {
    pub model: PlanarHolesModelKind,
    pub selected_kappa: Scalar,
    pub selected_tau: Scalar,
    pub selected_observation_variance_scale: Scalar,
    pub model_coexact_tau_scale: Scalar,
    pub spectral_coexact_requested_modes: usize,
    pub spectral_coexact_actual_modes: usize,
    pub spectral_coexact_expected_m1_energy: Scalar,
    pub spectral_harmonic_requested_modes: usize,
    pub spectral_harmonic_actual_modes: usize,
    pub spectral_harmonic_expected_m1_energy: Scalar,
    pub validation_nlpd: Scalar,
    pub training_observation_count: usize,
    pub validation_observation_count: usize,
    pub heldout_observation_count: usize,
    pub l2_error: Scalar,
    pub heldout_nlpd: Scalar,
    pub heldout_local_nlpd: Scalar,
    pub heldout_loop_nlpd: Scalar,
    pub heldout_interior_loop_nlpd: Scalar,
    pub heldout_long_path_nlpd: Scalar,
    pub heldout_local_relative_error: Scalar,
    pub heldout_loop_relative_error: Scalar,
    pub heldout_interior_loop_relative_error: Scalar,
    pub heldout_long_path_relative_error: Scalar,
    pub exterior_derivative_error: Scalar,
    pub codifferential_leakage: Scalar,
    pub all_edge_coverage_95: Scalar,
    pub heldout_edge_coverage_95: Scalar,
}

impl PlanarHolesTopologyVsNaiveGpMetricRow {
    /// The names of the columns.
    pub open spec fn columns() -> Seq<Seq<char>> {
        seq![
            "model"@,
            "selected_kappa"@,
            "selected_tau"@,
            "selected_observation_variance_scale"@,
            "model_coexact_tau_scale"@,
            "spectral_coexact_requested_modes"@,
            "spectral_coexact_actual_modes"@,
            "spectral_coexact_expected_m1_energy"@,
            "spectral_harmonic_requested_modes"@,
            "spectral_harmonic_actual_modes"@,
            "spectral_harmonic_expected_m1_energy"@,
            "validation_nlpd"@,
            "training_observation_count"@,
            "validation_observation_count"@,
            "heldout_observation_count"@,
            "l2_error"@,
            "heldout_nlpd"@,
            "heldout_local_nlpd"@,
            "heldout_loop_nlpd"@,
            "heldout_interior_loop_nlpd"@,
            "heldout_long_path_nlpd"@,
            "heldout_local_relative_error"@,
            "heldout_loop_relative_error"@,
            "heldout_interior_loop_relative_error"@,
            "heldout_long_path_relative_error"@,
            "exterior_derivative_error"@,
            "codifferential_leakage"@,
            "all_edge_coverage_95"@,
            "heldout_edge_coverage_95"@,
        ]
    }

    /// What stands in the columns.
    pub open spec fn cells(&self) -> Seq<CellModel> {
        seq![
            CellModel::Text { text: self.model.name() },
            CellModel::Number { value: self.selected_kappa, format: NumberFormat::Fixed12 },
            CellModel::Number { value: self.selected_tau, format: NumberFormat::Fixed12 },
            CellModel::Number { value: self.selected_observation_variance_scale, format: NumberFormat::Fixed12 },
            CellModel::Number { value: self.model_coexact_tau_scale, format: NumberFormat::Fixed12 },
            CellModel::Count { count: self.spectral_coexact_requested_modes as nat },
            CellModel::Count { count: self.spectral_coexact_actual_modes as nat },
            CellModel::Number { value: self.spectral_coexact_expected_m1_energy, format: NumberFormat::Fixed12 },
            CellModel::Count { count: self.spectral_harmonic_requested_modes as nat },
            CellModel::Count { count: self.spectral_harmonic_actual_modes as nat },
            CellModel::Number { value: self.spectral_harmonic_expected_m1_energy, format: NumberFormat::Fixed12 },
            CellModel::Number { value: self.validation_nlpd, format: NumberFormat::Fixed12 },
            CellModel::Count { count: self.training_observation_count as nat },
            CellModel::Count { count: self.validation_observation_count as nat },
            CellModel::Count { count: self.heldout_observation_count as nat },
            CellModel::Number { value: self.l2_error, format: NumberFormat::Fixed12 },
            CellModel::Number { value: self.heldout_nlpd, format: NumberFormat::Fixed12 },
            CellModel::Number { value: self.heldout_local_nlpd, format: NumberFormat::Fixed12 },
            CellModel::Number { value: self.heldout_loop_nlpd, format: NumberFormat::Fixed12 },
            CellModel::Number { value: self.heldout_interior_loop_nlpd, format: NumberFormat::Fixed12 },
            CellModel::Number { value: self.heldout_long_path_nlpd, format: NumberFormat::Fixed12 },
            CellModel::Number { value: self.heldout_local_relative_error, format: NumberFormat::Fixed12 },
            CellModel::Number { value: self.heldout_loop_relative_error, format: NumberFormat::Fixed12 },
            CellModel::Number { value: self.heldout_interior_loop_relative_error, format: NumberFormat::Fixed12 },
            CellModel::Number { value: self.heldout_long_path_relative_error, format: NumberFormat::Fixed12 },
            CellModel::Number { value: self.exterior_derivative_error, format: NumberFormat::Fixed12 },
            CellModel::Number { value: self.codifferential_leakage, format: NumberFormat::Fixed12 },
            CellModel::Number { value: self.all_edge_coverage_95, format: NumberFormat::Fixed12 },
            CellModel::Number { value: self.heldout_edge_coverage_95, format: NumberFormat::Fixed12 },
        ]
    }

    /// Lists the names of the columns.
    pub fn column_names() -> (columns: Vec<&'static str>)
        ensures
            column_views(columns@) == Self::columns(),
    {
        let columns: Vec<&'static str> = vec![
            "model",
            "selected_kappa",
            "selected_tau",
            "selected_observation_variance_scale",
            "model_coexact_tau_scale",
            "spectral_coexact_requested_modes",
            "spectral_coexact_actual_modes",
            "spectral_coexact_expected_m1_energy",
            "spectral_harmonic_requested_modes",
            "spectral_harmonic_actual_modes",
            "spectral_harmonic_expected_m1_energy",
            "validation_nlpd",
            "training_observation_count",
            "validation_observation_count",
            "heldout_observation_count",
            "l2_error",
            "heldout_nlpd",
            "heldout_local_nlpd",
            "heldout_loop_nlpd",
            "heldout_interior_loop_nlpd",
            "heldout_long_path_nlpd",
            "heldout_local_relative_error",
            "heldout_loop_relative_error",
            "heldout_interior_loop_relative_error",
            "heldout_long_path_relative_error",
            "exterior_derivative_error",
            "codifferential_leakage",
            "all_edge_coverage_95",
            "heldout_edge_coverage_95",
        ];
        assert(column_views(columns@) =~= Self::columns());
        columns
    }

    /// Lists what stands in the columns, one cell for each.
    pub fn to_cells(&self) -> (cells: Vec<Cell>)
        ensures
            cell_views(cells@) == self.cells(),
            cells.len() == Self::columns().len(),
    {
        let cells: Vec<Cell> = vec![
            text_cell(self.model.as_str()),
            number_cell(self.selected_kappa, NumberFormat::Fixed12),
            number_cell(self.selected_tau, NumberFormat::Fixed12),
            number_cell(self.selected_observation_variance_scale, NumberFormat::Fixed12),
            number_cell(self.model_coexact_tau_scale, NumberFormat::Fixed12),
            count_cell(self.spectral_coexact_requested_modes),
            count_cell(self.spectral_coexact_actual_modes),
            number_cell(self.spectral_coexact_expected_m1_energy, NumberFormat::Fixed12),
            count_cell(self.spectral_harmonic_requested_modes),
            count_cell(self.spectral_harmonic_actual_modes),
            number_cell(self.spectral_harmonic_expected_m1_energy, NumberFormat::Fixed12),
            number_cell(self.validation_nlpd, NumberFormat::Fixed12),
            count_cell(self.training_observation_count),
            count_cell(self.validation_observation_count),
            count_cell(self.heldout_observation_count),
            number_cell(self.l2_error, NumberFormat::Fixed12),
            number_cell(self.heldout_nlpd, NumberFormat::Fixed12),
            number_cell(self.heldout_local_nlpd, NumberFormat::Fixed12),
            number_cell(self.heldout_loop_nlpd, NumberFormat::Fixed12),
            number_cell(self.heldout_interior_loop_nlpd, NumberFormat::Fixed12),
            number_cell(self.heldout_long_path_nlpd, NumberFormat::Fixed12),
            number_cell(self.heldout_local_relative_error, NumberFormat::Fixed12),
            number_cell(self.heldout_loop_relative_error, NumberFormat::Fixed12),
            number_cell(self.heldout_interior_loop_relative_error, NumberFormat::Fixed12),
            number_cell(self.heldout_long_path_relative_error, NumberFormat::Fixed12),
            number_cell(self.exterior_derivative_error, NumberFormat::Fixed12),
            number_cell(self.codifferential_leakage, NumberFormat::Fixed12),
            number_cell(self.all_edge_coverage_95, NumberFormat::Fixed12),
            number_cell(self.heldout_edge_coverage_95, NumberFormat::Fixed12),
        ];
        assert(cell_views(cells@) =~= self.cells());
        cells
    }
}

/// The validation score of a candidate.
#[derive(Debug)]
pub struct PlanarHolesTopologyVsNaiveGpTuningRow {
    pub model: PlanarHolesModelKind,
    pub kappa: Scalar,
    pub tau: Scalar,
    pub observation_variance_scale: Scalar,
    pub validation_nlpd: Scalar,
}

impl PlanarHolesTopologyVsNaiveGpTuningRow {
    /// The names of the columns.
    pub open spec fn columns() -> Seq<Seq<char>> {
        seq![
            "model"@,
            "kappa"@,
            "tau"@,
            "observation_variance_scale"@,
            "validation_nlpd"@,
        ]
    }

    /// What stands in the columns.
    pub open spec fn cells(&self) -> Seq<CellModel> {
        seq![
            CellModel::Text { text: self.model.name() },
            CellModel::Number { value: self.kappa, format: NumberFormat::Fixed12 },
            CellModel::Number { value: self.tau, format: NumberFormat::Fixed12 },
            CellModel::Number { value: self.observation_variance_scale, format: NumberFormat::Fixed12 },
            CellModel::Number { value: self.validation_nlpd, format: NumberFormat::Fixed12 },
        ]
    }

    /// Lists the names of the columns.
    pub fn column_names() -> (columns: Vec<&'static str>)
        ensures
            column_views(columns@) == Self::columns(),
    {
        let columns: Vec<&'static str> = vec![
            "model",
            "kappa",
            "tau",
            "observation_variance_scale",
            "validation_nlpd",
        ];
        assert(column_views(columns@) =~= Self::columns());
        columns
    }

    /// Lists what stands in the columns, one cell for each.
    pub fn to_cells(&self) -> (cells: Vec<Cell>)
        ensures
            cell_views(cells@) == self.cells(),
            cells.len() == Self::columns().len(),
    {
        let cells: Vec<Cell> = vec![
            text_cell(self.model.as_str()),
            number_cell(self.kappa, NumberFormat::Fixed12),
            number_cell(self.tau, NumberFormat::Fixed12),
            number_cell(self.observation_variance_scale, NumberFormat::Fixed12),
            number_cell(self.validation_nlpd, NumberFormat::Fixed12),
        ];
        assert(cell_views(cells@) =~= self.cells());
        cells
    }
}

/// How well the variances of a model are calibrated.
#[derive(Debug)]
pub struct PlanarHolesTopologyVsNaiveGpCalibrationRow {
    pub model: PlanarHolesModelKind,
    pub kind: String,
    pub count: usize,
    pub variance_multiplier: Scalar,
    pub raw_nlpd: Scalar,
    pub calibrated_nlpd: Scalar,
    pub raw_coverage_95: Scalar,
    pub calibrated_coverage_95: Scalar,
    pub raw_mean_abs_z: Scalar,
    pub calibrated_mean_abs_z: Scalar,
    pub relative_error: Scalar,
}

impl PlanarHolesTopologyVsNaiveGpCalibrationRow {
    /// The names of the columns.
    pub open spec fn columns() -> Seq<Seq<char>> {
        seq![
            "model"@,
            "kind"@,
            "count"@,
            "variance_multiplier"@,
            "raw_nlpd"@,
            "calibrated_nlpd"@,
            "raw_coverage_95"@,
            "calibrated_coverage_95"@,
            "raw_mean_abs_z"@,
            "calibrated_mean_abs_z"@,
            "relative_error"@,
        ]
    }

    /// What stands in the columns.
    pub open spec fn cells(&self) -> Seq<CellModel> {
        seq![
            CellModel::Text { text: self.model.name() },
            CellModel::Text { text: self.kind@ },
            CellModel::Count { count: self.count as nat },
            CellModel::Number { value: self.variance_multiplier, format: NumberFormat::Fixed12 },
            CellModel::Number { value: self.raw_nlpd, format: NumberFormat::Fixed12 },
            CellModel::Number { value: self.calibrated_nlpd, format: NumberFormat::Fixed12 },
            CellModel::Number { value: self.raw_coverage_95, format: NumberFormat::Fixed12 },
            CellModel::Number { value: self.calibrated_coverage_95, format: NumberFormat::Fixed12 },
            CellModel::Number { value: self.raw_mean_abs_z, format: NumberFormat::Fixed12 },
            CellModel::Number { value: self.calibrated_mean_abs_z, format: NumberFormat::Fixed12 },
            CellModel::Number { value: self.relative_error, format: NumberFormat::Fixed12 },
        ]
    }

    /// Lists the names of the columns.
    pub fn column_names() -> (columns: Vec<&'static str>)
        ensures
            column_views(columns@) == Self::columns(),
    {
        let columns: Vec<&'static str> = vec![
            "model",
            "kind",
            "count",
            "variance_multiplier",
            "raw_nlpd",
            "calibrated_nlpd",
            "raw_coverage_95",
            "calibrated_coverage_95",
            "raw_mean_abs_z",
            "calibrated_mean_abs_z",
            "relative_error",
        ];
        assert(column_views(columns@) =~= Self::columns());
        columns
    }

    /// Lists what stands in the columns, one cell for each.
    pub fn to_cells(&self) -> (cells: Vec<Cell>)
        ensures
            cell_views(cells@) == self.cells(),
            cells.len() == Self::columns().len(),
    {
        let cells: Vec<Cell> = vec![
            text_cell(self.model.as_str()),
            text_cell(self.kind.as_str()),
            count_cell(self.count),
            number_cell(self.variance_multiplier, NumberFormat::Fixed12),
            number_cell(self.raw_nlpd, NumberFormat::Fixed12),
            number_cell(self.calibrated_nlpd, NumberFormat::Fixed12),
            number_cell(self.raw_coverage_95, NumberFormat::Fixed12),
            number_cell(self.calibrated_coverage_95, NumberFormat::Fixed12),
            number_cell(self.raw_mean_abs_z, NumberFormat::Fixed12),
            number_cell(self.calibrated_mean_abs_z, NumberFormat::Fixed12),
            number_cell(self.relative_error, NumberFormat::Fixed12),
        ];
        assert(cell_views(cells@) =~= self.cells());
        cells
    }
}

/// What a model predicts of a held-out observation.
#[derive(Debug)]
pub struct PlanarHolesHeldoutPrediction {
    pub scenario: PlanarHolesObservationScenario,
    pub model: PlanarHolesModelKind,
    pub kind: PlanarHolesObservationKind,
    pub label: String,
    pub observed_value: Scalar,
    pub truth_value: Scalar,
    pub predictive_mean: Scalar,
    pub predictive_variance: Scalar,
    pub nlpd: Scalar,
}

impl PlanarHolesHeldoutPrediction {
    /// The names of the columns.
    pub open spec fn columns() -> Seq<Seq<char>> {
        seq![
            "scenario"@,
            "model"@,
            "kind"@,
            "label"@,
            "observed_value"@,
            "truth_value"@,
            "predictive_mean"@,
            "predictive_variance"@,
            "nlpd"@,
        ]
    }

    /// What stands in the columns.
    pub open spec fn cells(&self) -> Seq<CellModel> {
        seq![
            CellModel::Text { text: self.scenario.name() },
            CellModel::Text { text: self.model.name() },
            CellModel::Text { text: self.kind.name() },
            CellModel::Text { text: self.label@ },
            CellModel::Number { value: self.observed_value, format: NumberFormat::Fixed12 },
            CellModel::Number { value: self.truth_value, format: NumberFormat::Fixed12 },
            CellModel::Number { value: self.predictive_mean, format: NumberFormat::Fixed12 },
            CellModel::Number { value: self.predictive_variance, format: NumberFormat::Fixed12 },
            CellModel::Number { value: self.nlpd, format: NumberFormat::Fixed12 },
        ]
    }

    /// Lists the names of the columns.
    pub fn column_names() -> (columns: Vec<&'static str>)
        ensures
            column_views(columns@) == Self::columns(),
    {
        let columns: Vec<&'static str> = vec![
            "scenario",
            "model",
            "kind",
            "label",
            "observed_value",
            "truth_value",
            "predictive_mean",
            "predictive_variance",
            "nlpd",
        ];
        assert(column_views(columns@) =~= Self::columns());
        columns
    }

    /// Lists what stands in the columns, one cell for each.
    pub fn to_cells(&self) -> (cells: Vec<Cell>)
        ensures
            cell_views(cells@) == self.cells(),
            cells.len() == Self::columns().len(),
    {
        let cells: Vec<Cell> = vec![
            text_cell(self.scenario.as_str()),
            text_cell(self.model.as_str()),
            text_cell(self.kind.as_str()),
            text_cell(self.label.as_str()),
            number_cell(self.observed_value, NumberFormat::Fixed12),
            number_cell(self.truth_value, NumberFormat::Fixed12),
            number_cell(self.predictive_mean, NumberFormat::Fixed12),
            number_cell(self.predictive_variance, NumberFormat::Fixed12),
            number_cell(self.nlpd, NumberFormat::Fixed12),
        ];
        assert(cell_views(cells@) =~= self.cells());
        cells
    }
}

/// How often the intervals of a model hold the truth.
#[derive(Debug)]
pub struct PlanarHolesFieldCoverageSummary {
    pub scenario: PlanarHolesObservationScenario,
    pub model: PlanarHolesModelKind,
    pub subset: PlanarHolesFieldCoverageSubset,
    pub edge_count: usize,
    pub weight_sum: Scalar,
    pub coverage_95: Scalar,
    pub mass_weighted_coverage_95: Scalar,
    pub mean_abs_z: Scalar,
    pub rms_z: Scalar,
    pub p95_abs_z: Scalar,
    pub mean_posterior_std: Scalar,
    pub mass_weighted_mean_posterior_std: Scalar,
    pub latent_nlpd: Scalar,
}

impl PlanarHolesFieldCoverageSummary {
    /// The names of the columns.
    pub open spec fn columns() -> Seq<Seq<char>> {
        seq![
            "scenario"@,
            "model"@,
            "subset"@,
            "edge_count"@,
            "weight_sum"@,
            "coverage_95"@,
            "mass_weighted_coverage_95"@,
            "mean_abs_z"@,
            "rms_z"@,
            "p95_abs_z"@,
            "mean_posterior_std"@,
            "mass_weighted_mean_posterior_std"@,
            "latent_nlpd"@,
        ]
    }

    /// What stands in the columns.
    pub open spec fn cells(&self) -> Seq<CellModel> {
        seq![
            CellModel::Text { text: self.scenario.name() },
            CellModel::Text { text: self.model.name() },
            CellModel::Text { text: self.subset.name() },
            CellModel::Count { count: self.edge_count as nat },
            CellModel::Number { value: self.weight_sum, format: NumberFormat::Fixed12 },
            CellModel::Number { value: self.coverage_95, format: NumberFormat::Fixed12 },
            CellModel::Number { value: self.mass_weighted_coverage_95, format: NumberFormat::Fixed12 },
            CellModel::Number { value: self.mean_abs_z, format: NumberFormat::Fixed12 },
            CellModel::Number { value: self.rms_z, format: NumberFormat::Fixed12 },
            CellModel::Number { value: self.p95_abs_z, format: NumberFormat::Fixed12 },
            CellModel::Number { value: self.mean_posterior_std, format: NumberFormat::Fixed12 },
            CellModel::Number { value: self.mass_weighted_mean_posterior_std, format: NumberFormat::Fixed12 },
            CellModel::Number { value: self.latent_nlpd, format: NumberFormat::Fixed12 },
        ]
    }

    /// Lists the names of the columns.
    pub fn column_names() -> (columns: Vec<&'static str>)
        ensures
            column_views(columns@) == Self::columns(),
    {
        let columns: Vec<&'static str> = vec![
            "scenario",
            "model",
            "subset",
            "edge_count",
            "weight_sum",
            "coverage_95",
            "mass_weighted_coverage_95",
            "mean_abs_z",
            "rms_z",
            "p95_abs_z",
            "mean_posterior_std",
            "mass_weighted_mean_posterior_std",
            "latent_nlpd",
        ];
        assert(column_views(columns@) =~= Self::columns());
        columns
    }

    /// Lists what stands in the columns, one cell for each.
    pub fn to_cells(&self) -> (cells: Vec<Cell>)
        ensures
            cell_views(cells@) == self.cells(),
            cells.len() == Self::columns().len(),
    {
        let cells: Vec<Cell> = vec![
            text_cell(self.scenario.as_str()),
            text_cell(self.model.as_str()),
            text_cell(self.subset.as_str()),
            count_cell(self.edge_count),
            number_cell(self.weight_sum, NumberFormat::Fixed12),
            number_cell(self.coverage_95, NumberFormat::Fixed12),
            number_cell(self.mass_weighted_coverage_95, NumberFormat::Fixed12),
            number_cell(self.mean_abs_z, NumberFormat::Fixed12),
            number_cell(self.rms_z, NumberFormat::Fixed12),
            number_cell(self.p95_abs_z, NumberFormat::Fixed12),
            number_cell(self.mean_posterior_std, NumberFormat::Fixed12),
            number_cell(self.mass_weighted_mean_posterior_std, NumberFormat::Fixed12),
            number_cell(self.latent_nlpd, NumberFormat::Fixed12),
        ];
        assert(cell_views(cells@) =~= self.cells());
        cells
    }
}

/// How far a model is from the truth.
#[derive(Debug)]
pub struct PlanarHolesModelMetrics {
    pub scenario: PlanarHolesObservationScenario,
    pub model: PlanarHolesModelKind,
    pub observation_count: usize,
    pub l2_error_absolute: Scalar,
    pub l2_error: Scalar,
    pub heldout_nlpd: Scalar,
    pub heldout_local_nlpd: Scalar,
    pub heldout_loop_nlpd: Scalar,
    pub heldout_harmonic_period_nlpd: Scalar,
    pub exterior_derivative_error_absolute: Scalar,
    pub exterior_derivative_truth_norm: Scalar,
    pub exterior_derivative_error: Scalar,
    pub codifferential_error_absolute: Scalar,
    pub codifferential_truth_norm: Scalar,
    pub codifferential_error_relative: Scalar,
    pub codifferential_leakage: Scalar,
    pub codifferential_error: Scalar,
    pub codifferential_metric_kind: PlanarHolesCodifferentialMetricKind,
    pub relative_circulation_error: Scalar,
    pub relative_harmonic_period_error: Scalar,
    pub relative_coexact_annular_error: Scalar,
    pub relative_total_annular_error: Scalar,
    pub mean_abs_circulation_error: Scalar,
    pub max_abs_circulation_error: Scalar,
}

impl PlanarHolesModelMetrics {
    /// The names of the columns.
    pub open spec fn columns() -> Seq<Seq<char>> {
        seq![
            "scenario"@,
            "model"@,
            "observation_count"@,
            "l2_error"@,
            "l2_error_absolute"@,
            "heldout_nlpd"@,
            "heldout_local_nlpd"@,
            "heldout_loop_nlpd"@,
            "heldout_harmonic_period_nlpd"@,
            "exterior_derivative_error"@,
            "exterior_derivative_error_absolute"@,
            "exterior_derivative_truth_norm"@,
            "codifferential_error"@,
            "codifferential_metric_kind"@,
            "codifferential_error_relative"@,
            "codifferential_leakage"@,
            "codifferential_error_absolute"@,
            "codifferential_truth_norm"@,
            "relative_circulation_error"@,
            "relative_harmonic_period_error"@,
            "relative_coexact_annular_error"@,
            "relative_total_annular_error"@,
            "mean_abs_circulation_error"@,
            "max_abs_circulation_error"@,
        ]
    }

    /// What stands in the columns.
    pub open spec fn cells(&self) -> Seq<CellModel> {
        seq![
            CellModel::Text { text: self.scenario.name() },
            CellModel::Text { text: self.model.name() },
            CellModel::Count { count: self.observation_count as nat },
            CellModel::Number { value: self.l2_error, format: NumberFormat::Fixed12 },
            CellModel::Number { value: self.l2_error_absolute, format: NumberFormat::Fixed12 },
            CellModel::Number { value: self.heldout_nlpd, format: NumberFormat::Fixed12 },
            CellModel::Number { value: self.heldout_local_nlpd, format: NumberFormat::Fixed12 },
            CellModel::Number { value: self.heldout_loop_nlpd, format: NumberFormat::Fixed12 },
            CellModel::Number { value: self.heldout_harmonic_period_nlpd, format: NumberFormat::Fixed12 },
            CellModel::Number { value: self.exterior_derivative_error, format: NumberFormat::Fixed12 },
            CellModel::Number { value: self.exterior_derivative_error_absolute, format: NumberFormat::Fixed12 },
            CellModel::Number { value: self.exterior_derivative_truth_norm, format: NumberFormat::Fixed12 },
            CellModel::Number { value: self.codifferential_error, format: NumberFormat::Fixed12 },
            CellModel::Text { text: self.codifferential_metric_kind.name() },
            CellModel::Number { value: self.codifferential_error_relative, format: NumberFormat::Fixed12 },
            CellModel::Number { value: self.codifferential_leakage, format: NumberFormat::Fixed12 },
            CellModel::Number { value: self.codifferential_error_absolute, format: NumberFormat::Fixed12 },
            CellModel::Number { value: self.codifferential_truth_norm, format: NumberFormat::Fixed12 },
            CellModel::Number { value: self.relative_circulation_error, format: NumberFormat::Fixed12 },
            CellModel::Number { value: self.relative_harmonic_period_error, format: NumberFormat::Fixed12 },
            CellModel::Number { value: self.relative_coexact_annular_error, format: NumberFormat::Fixed12 },
            CellModel::Number { value: self.relative_total_annular_error, format: NumberFormat::Fixed12 },
            CellModel::Number { value: self.mean_abs_circulation_error, format: NumberFormat::Fixed12 },
            CellModel::Number { value: self.max_abs_circulation_error, format: NumberFormat::Fixed12 },
        ]
    }

    /// Lists the names of the columns.
    pub fn column_names() -> (columns: Vec<&'static str>)
        ensures
            column_views(columns@) == Self::columns(),
    {
        let columns: Vec<&'static str> = vec![
            "scenario",
            "model",
            "observation_count",
            "l2_error",
            "l2_error_absolute",
            "heldout_nlpd",
            "heldout_local_nlpd",
            "heldout_loop_nlpd",
            "heldout_harmonic_period_nlpd",
            "exterior_derivative_error",
            "exterior_derivative_error_absolute",
            "exterior_derivative_truth_norm",
            "codifferential_error",
            "codifferential_metric_kind",
            "codifferential_error_relative",
            "codifferential_leakage",
            "codifferential_error_absolute",
            "codifferential_truth_norm",
            "relative_circulation_error",
            "relative_harmonic_period_error",
            "relative_coexact_annular_error",
            "relative_total_annular_error",
            "mean_abs_circulation_error",
            "max_abs_circulation_error",
        ];
        assert(column_views(columns@) =~= Self::columns());
        columns
    }

    /// Lists what stands in the columns, one cell for each.
    pub fn to_cells(&self) -> (cells: Vec<Cell>)
        ensures
            cell_views(cells@) == self.cells(),
            cells.len() == Self::columns().len(),
    {
        let cells: Vec<Cell> = vec![
            text_cell(self.scenario.as_str()),
            text_cell(self.model.as_str()),
            count_cell(self.observation_count),
            number_cell(self.l2_error, NumberFormat::Fixed12),
            number_cell(self.l2_error_absolute, NumberFormat::Fixed12),
            number_cell(self.heldout_nlpd, NumberFormat::Fixed12),
            number_cell(self.heldout_local_nlpd, NumberFormat::Fixed12),
            number_cell(self.heldout_loop_nlpd, NumberFormat::Fixed12),
            number_cell(self.heldout_harmonic_period_nlpd, NumberFormat::Fixed12),
            number_cell(self.exterior_derivative_error, NumberFormat::Fixed12),
            number_cell(self.exterior_derivative_error_absolute, NumberFormat::Fixed12),
            number_cell(self.exterior_derivative_truth_norm, NumberFormat::Fixed12),
            number_cell(self.codifferential_error, NumberFormat::Fixed12),
            text_cell(self.codifferential_metric_kind.as_str()),
            number_cell(self.codifferential_error_relative, NumberFormat::Fixed12),
            number_cell(self.codifferential_leakage, NumberFormat::Fixed12),
            number_cell(self.codifferential_error_absolute, NumberFormat::Fixed12),
            number_cell(self.codifferential_truth_norm, NumberFormat::Fixed12),
            number_cell(self.relative_circulation_error, NumberFormat::Fixed12),
            number_cell(self.relative_harmonic_period_error, NumberFormat::Fixed12),
            number_cell(self.relative_coexact_annular_error, NumberFormat::Fixed12),
            number_cell(self.relative_total_annular_error, NumberFormat::Fixed12),
            number_cell(self.mean_abs_circulation_error, NumberFormat::Fixed12),
            number_cell(self.max_abs_circulation_error, NumberFormat::Fixed12),
        ];
        assert(cell_views(cells@) =~= self.cells());
        cells
    }
}

/// What a model says of the flow around a hole.
#[derive(Debug)]
pub struct PlanarHolesPeriodSummary {
    pub scenario: PlanarHolesObservationScenario,
    pub model: PlanarHolesModelKind,
    pub hole_index: usize,
    pub hole_name: String,
    pub truth_period: Scalar,
    pub posterior_mean: Scalar,
    pub posterior_std: Scalar,
    pub posterior_lower_95: Scalar,
    pub posterior_upper_95: Scalar,
    pub residual: Scalar,
    pub abs_residual_over_std: Scalar,
    pub covered_95: bool,
}

impl PlanarHolesPeriodSummary {
    /// The names of the columns.
    pub open spec fn columns() -> Seq<Seq<char>> {
        seq![
            "scenario"@,
            "model"@,
            "hole_index"@,
            "hole_name"@,
            "truth_period"@,
            "posterior_mean"@,
            "posterior_std"@,
            "posterior_lower_95"@,
            "posterior_upper_95"@,
            "residual"@,
            "abs_residual_over_std"@,
            "covered_95"@,
        ]
    }

    /// What stands in the columns.
    pub open spec fn cells(&self) -> Seq<CellModel> {
        seq![
            CellModel::Text { text: self.scenario.name() },
            CellModel::Text { text: self.model.name() },
            CellModel::Count { count: self.hole_index as nat },
            CellModel::Text { text: self.hole_name@ },
            CellModel::Number { value: self.truth_period, format: NumberFormat::Fixed12 },
            CellModel::Number { value: self.posterior_mean, format: NumberFormat::Fixed12 },
            CellModel::Number { value: self.posterior_std, format: NumberFormat::Fixed12 },
            CellModel::Number { value: self.posterior_lower_95, format: NumberFormat::Fixed12 },
            CellModel::Number { value: self.posterior_upper_95, format: NumberFormat::Fixed12 },
            CellModel::Number { value: self.residual, format: NumberFormat::Fixed12 },
            CellModel::Number { value: self.abs_residual_over_std, format: NumberFormat::Fixed12 },
            CellModel::Flag { flag: self.covered_95 },
        ]
    }

    /// Lists the names of the columns.
    pub fn column_names() -> (columns: Vec<&'static str>)
        ensures
            column_views(columns@) == Self::columns(),
    {
        let columns: Vec<&'static str> = vec![
            "scenario",
            "model",
            "hole_index",
            "hole_name",
            "truth_period",
            "posterior_mean",
            "posterior_std",
            "posterior_lower_95",
            "posterior_upper_95",
            "residual",
            "abs_residual_over_std",
            "covered_95",
        ];
        assert(column_views(columns@) =~= Self::columns());
        columns
    }

    /// Lists what stands in the columns, one cell for each.
    pub fn to_cells(&self) -> (cells: Vec<Cell>)
        ensures
            cell_views(cells@) == self.cells(),
            cells.len() == Self::columns().len(),
    {
        let cells: Vec<Cell> = vec![
            text_cell(self.scenario.as_str()),
            text_cell(self.model.as_str()),
            count_cell(self.hole_index),
            text_cell(self.hole_name.as_str()),
            number_cell(self.truth_period, NumberFormat::Fixed12),
            number_cell(self.posterior_mean, NumberFormat::Fixed12),
            number_cell(self.posterior_std, NumberFormat::Fixed12),
            number_cell(self.posterior_lower_95, NumberFormat::Fixed12),
            number_cell(self.posterior_upper_95, NumberFormat::Fixed12),
            number_cell(self.residual, NumberFormat::Fixed12),
            number_cell(self.abs_residual_over_std, NumberFormat::Fixed12),
            flag_cell(self.covered_95),
        ];
        assert(cell_views(cells@) =~= self.cells());
        cells
    }
}

/// What a model says of a functional of the flow around a hole.
#[derive(Debug)]
pub struct PlanarHolesLoopFunctionalSummary {
    pub scenario: PlanarHolesObservationScenario,
    pub model: PlanarHolesModelKind,
    pub functional: PlanarHolesLoopFunctionalKind,
    pub hole_index: usize,
    pub hole_name: String,
    pub truth_value: Scalar,
    pub posterior_mean: Scalar,
    pub posterior_std: Scalar,
    pub posterior_lower_95: Scalar,
    pub posterior_upper_95: Scalar,
    pub residual: Scalar,
    pub abs_residual_over_std: Scalar,
    pub covered_95: bool,
}

impl PlanarHolesLoopFunctionalSummary {
    /// The names of the columns.
    pub open spec fn columns() -> Seq<Seq<char>> {
        seq![
            "scenario"@,
            "model"@,
            "functional"@,
            "hole_index"@,
            "hole_name"@,
            "truth_value"@,
            "posterior_mean"@,
            "posterior_std"@,
            "posterior_lower_95"@,
            "posterior_upper_95"@,
            "residual"@,
            "abs_residual_over_std"@,
            "covered_95"@,
        ]
    }

    /// What stands in the columns.
    pub open spec fn cells(&self) -> Seq<CellModel> {
        seq![
            CellModel::Text { text: self.scenario.name() },
            CellModel::Text { text: self.model.name() },
            CellModel::Text { text: self.functional.name() },
            CellModel::Count { count: self.hole_index as nat },
            CellModel::Text { text: self.hole_name@ },
            CellModel::Number { value: self.truth_value, format: NumberFormat::Fixed12 },
            CellModel::Number { value: self.posterior_mean, format: NumberFormat::Fixed12 },
            CellModel::Number { value: self.posterior_std, format: NumberFormat::Fixed12 },
            CellModel::Number { value: self.posterior_lower_95, format: NumberFormat::Fixed12 },
            CellModel::Number { value: self.posterior_upper_95, format: NumberFormat::Fixed12 },
            CellModel::Number { value: self.residual, format: NumberFormat::Fixed12 },
            CellModel::Number { value: self.abs_residual_over_std, format: NumberFormat::Fixed12 },
            CellModel::Flag { flag: self.covered_95 },
        ]
    }

    /// Lists the names of the columns.
    pub fn column_names() -> (columns: Vec<&'static str>)
        ensures
            column_views(columns@) == Self::columns(),
    {
        let columns: Vec<&'static str> = vec![
            "scenario",
            "model",
            "functional",
            "hole_index",
            "hole_name",
            "truth_value",
            "posterior_mean",
            "posterior_std",
            "posterior_lower_95",
            "posterior_upper_95",
            "residual",
            "abs_residual_over_std",
            "covered_95",
        ];
        assert(column_views(columns@) =~= Self::columns());
        columns
    }

    /// Lists what stands in the columns, one cell for each.
    pub fn to_cells(&self) -> (cells: Vec<Cell>)
        ensures
            cell_views(cells@) == self.cells(),
            cells.len() == Self::columns().len(),
    {
        let cells: Vec<Cell> = vec![
            text_cell(self.scenario.as_str()),
            text_cell(self.model.as_str()),
            text_cell(self.functional.as_str()),
            count_cell(self.hole_index),
            text_cell(self.hole_name.as_str()),
            number_cell(self.truth_value, NumberFormat::Fixed12),
            number_cell(self.posterior_mean, NumberFormat::Fixed12),
            number_cell(self.posterior_std, NumberFormat::Fixed12),
            number_cell(self.posterior_lower_95, NumberFormat::Fixed12),
            number_cell(self.posterior_upper_95, NumberFormat::Fixed12),
            number_cell(self.residual, NumberFormat::Fixed12),
            number_cell(self.abs_residual_over_std, NumberFormat::Fixed12),
            flag_cell(self.covered_95),
        ];
        assert(cell_views(cells@) =~= self.cells());
        cells
    }
}

/// How well a model recovers a branch of the truth.
#[derive(Debug)]
pub struct PlanarHolesBranchRecoverySummary {
    pub scenario: PlanarHolesObservationScenario,
    pub model: PlanarHolesModelKind,
    pub branch: HodgeBranchKind,
    pub truth_mass_norm: Scalar,
    pub posterior_mass_norm: Scalar,
    pub error_mass_norm: Scalar,
    pub relative_error: Scalar,
    pub mass_correlation: Scalar,
}

impl PlanarHolesBranchRecoverySummary {
    /// The names of the columns.
    pub open spec fn columns() -> Seq<Seq<char>> {
        seq![
            "scenario"@,
            "model"@,
            "branch"@,
            "truth_mass_norm"@,
            "posterior_mass_norm"@,
            "error_mass_norm"@,
            "relative_error"@,
            "mass_correlation"@,
        ]
    }

    /// What stands in the columns.
    pub open spec fn cells(&self) -> Seq<CellModel> {
        seq![
            CellModel::Text { text: self.scenario.name() },
            CellModel::Text { text: self.model.name() },
            CellModel::Text { text: self.branch.name() },
            CellModel::Number { value: self.truth_mass_norm, format: NumberFormat::Fixed12 },
            CellModel::Number { value: self.posterior_mass_norm, format: NumberFormat::Fixed12 },
            CellModel::Number { value: self.error_mass_norm, format: NumberFormat::Fixed12 },
            CellModel::Number { value: self.relative_error, format: NumberFormat::Fixed12 },
            CellModel::Number { value: self.mass_correlation, format: NumberFormat::Fixed12 },
        ]
    }

    /// Lists the names of the columns.
    pub fn column_names() -> (columns: Vec<&'static str>)
        ensures
            column_views(columns@) == Self::columns(),
    {
        let columns: Vec<&'static str> = vec![
            "scenario",
            "model",
            "branch",
            "truth_mass_norm",
            "posterior_mass_norm",
            "error_mass_norm",
            "relative_error",
            "mass_correlation",
        ];
        assert(column_views(columns@) =~= Self::columns());
        columns
    }

    /// Lists what stands in the columns, one cell for each.
    pub fn to_cells(&self) -> (cells: Vec<Cell>)
        ensures
            cell_views(cells@) == self.cells(),
            cells.len() == Self::columns().len(),
    {
        let cells: Vec<Cell> = vec![
            text_cell(self.scenario.as_str()),
            text_cell(self.model.as_str()),
            text_cell(self.branch.as_str()),
            number_cell(self.truth_mass_norm, NumberFormat::Fixed12),
            number_cell(self.posterior_mass_norm, NumberFormat::Fixed12),
            number_cell(self.error_mass_norm, NumberFormat::Fixed12),
            number_cell(self.relative_error, NumberFormat::Fixed12),
            number_cell(self.mass_correlation, NumberFormat::Fixed12),
        ];
        assert(cell_views(cells@) =~= self.cells());
        cells
    }
}

/// How well the modes of a branch hold the truth.
#[derive(Debug)]
pub struct PlanarHolesSpectralBranchDiagnostic {
    pub model: PlanarHolesModelKind,
    pub branch: HodgeBranchKind,
    pub requested_mode_count: usize,
    pub actual_mode_count: usize,
    pub unnormalized_expected_m1_energy: Scalar,
    pub target_expected_m1_energy: Scalar,
    pub normalization_scale: Scalar,
    pub expected_m1_energy: Scalar,
    pub truth_mass_norm: Scalar,
    pub projected_truth_mass_norm: Scalar,
    pub projection_relative_error: Scalar,
    pub projected_truth_mahalanobis_norm: Scalar,
}

impl PlanarHolesSpectralBranchDiagnostic {
    /// The names of the columns.
    pub open spec fn columns() -> Seq<Seq<char>> {
        seq![
            "model"@,
            "branch"@,
            "requested_mode_count"@,
            "actual_mode_count"@,
            "unnormalized_expected_m1_energy_sq"@,
            "target_expected_m1_energy_sq"@,
            "normalization_scale"@,
            "expected_m1_energy_sq"@,
            "truth_mass_norm"@,
            "projected_truth_mass_norm"@,
            "projection_relative_error"@,
            "projected_truth_mahalanobis_norm"@,
        ]
    }

    /// What stands in the columns.
    pub open spec fn cells(&self) -> Seq<CellModel> {
        seq![
            CellModel::Text { text: self.model.name() },
            CellModel::Text { text: self.branch.name() },
            CellModel::Count { count: self.requested_mode_count as nat },
            CellModel::Count { count: self.actual_mode_count as nat },
            CellModel::Number { value: self.unnormalized_expected_m1_energy, format: NumberFormat::Fixed12 },
            CellModel::Number { value: self.target_expected_m1_energy, format: NumberFormat::Fixed12 },
            CellModel::Number { value: self.normalization_scale, format: NumberFormat::Fixed12 },
            CellModel::Number { value: self.expected_m1_energy, format: NumberFormat::Fixed12 },
            CellModel::Number { value: self.truth_mass_norm, format: NumberFormat::Fixed12 },
            CellModel::Number { value: self.projected_truth_mass_norm, format: NumberFormat::Fixed12 },
            CellModel::Number { value: self.projection_relative_error, format: NumberFormat::Fixed12 },
            CellModel::Number { value: self.projected_truth_mahalanobis_norm, format: NumberFormat::Fixed12 },
        ]
    }

    /// Lists the names of the columns.
    pub fn column_names() -> (columns: Vec<&'static str>)
        ensures
            column_views(columns@) == Self::columns(),
    {
        let columns: Vec<&'static str> = vec![
            "model",
            "branch",
            "requested_mode_count",
            "actual_mode_count",
            "unnormalized_expected_m1_energy_sq",
            "target_expected_m1_energy_sq",
            "normalization_scale",
            "expected_m1_energy_sq",
            "truth_mass_norm",
            "projected_truth_mass_norm",
            "projection_relative_error",
            "projected_truth_mahalanobis_norm",
        ];
        assert(column_views(columns@) =~= Self::columns());
        columns
    }

    /// Lists what stands in the columns, one cell for each.
    pub fn to_cells(&self) -> (cells: Vec<Cell>)
        ensures
            cell_views(cells@) == self.cells(),
            cells.len() == Self::columns().len(),
    {
        let cells: Vec<Cell> = vec![
            text_cell(self.model.as_str()),
            text_cell(self.branch.as_str()),
            count_cell(self.requested_mode_count),
            count_cell(self.actual_mode_count),
            number_cell(self.unnormalized_expected_m1_energy, NumberFormat::Fixed12),
            number_cell(self.target_expected_m1_energy, NumberFormat::Fixed12),
            number_cell(self.normalization_scale, NumberFormat::Fixed12),
            number_cell(self.expected_m1_energy, NumberFormat::Fixed12),
            number_cell(self.truth_mass_norm, NumberFormat::Fixed12),
            number_cell(self.projected_truth_mass_norm, NumberFormat::Fixed12),
            number_cell(self.projection_relative_error, NumberFormat::Fixed12),
            number_cell(self.projected_truth_mahalanobis_norm, NumberFormat::Fixed12),
        ];
        assert(cell_views(cells@) =~= self.cells());
        cells
    }
}

/// How much energy the first modes of a branch hold.
#[derive(Debug)]
pub struct PlanarHolesSpectralEnergyDiagnostic {
    pub model: PlanarHolesModelKind,
    pub branch: HodgeBranchKind,
    pub mode_index: usize,
    pub cumulative_projected_energy: Scalar,
    pub cumulative_projected_energy_fraction: Scalar,
    pub cumulative_prior_energy: Scalar,
    pub cumulative_prior_energy_fraction: Scalar,
}

impl PlanarHolesSpectralEnergyDiagnostic {
    /// The names of the columns.
    pub open spec fn columns() -> Seq<Seq<char>> {
        seq![
            "model"@,
            "branch"@,
            "mode_index"@,
            "cumulative_projected_energy"@,
            "cumulative_projected_energy_fraction"@,
            "cumulative_prior_energy"@,
            "cumulative_prior_energy_fraction"@,
        ]
    }

    /// What stands in the columns.
    pub open spec fn cells(&self) -> Seq<CellModel> {
        seq![
            CellModel::Text { text: self.model.name() },
            CellModel::Text { text: self.branch.name() },
            CellModel::Count { count: self.mode_index as nat },
            CellModel::Number { value: self.cumulative_projected_energy, format: NumberFormat::Fixed12 },
            CellModel::Number { value: self.cumulative_projected_energy_fraction, format: NumberFormat::Fixed12 },
            CellModel::Number { value: self.cumulative_prior_energy, format: NumberFormat::Fixed12 },
            CellModel::Number { value: self.cumulative_prior_energy_fraction, format: NumberFormat::Fixed12 },
        ]
    }

    /// Lists the names of the columns.
    pub fn column_names() -> (columns: Vec<&'static str>)
        ensures
            column_views(columns@) == Self::columns(),
    {
        let columns: Vec<&'static str> = vec![
            "model",
            "branch",
            "mode_index",
            "cumulative_projected_energy",
            "cumulative_projected_energy_fraction",
            "cumulative_prior_energy",
            "cumulative_prior_energy_fraction",
        ];
        assert(column_views(columns@) =~= Self::columns());
        columns
    }

    /// Lists what stands in the columns, one cell for each.
    pub fn to_cells(&self) -> (cells: Vec<Cell>)
        ensures
            cell_views(cells@) == self.cells(),
            cells.len() == Self::columns().len(),
    {
        let cells: Vec<Cell> = vec![
            text_cell(self.model.as_str()),
            text_cell(self.branch.as_str()),
            count_cell(self.mode_index),
            number_cell(self.cumulative_projected_energy, NumberFormat::Fixed12),
            number_cell(self.cumulative_projected_energy_fraction, NumberFormat::Fixed12),
            number_cell(self.cumulative_prior_energy, NumberFormat::Fixed12),
            number_cell(self.cumulative_prior_energy_fraction, NumberFormat::Fixed12),
        ];
        assert(cell_views(cells@) =~= self.cells());
        cells
    }
}

/// How much of the energy of a field lies on the boundary.
#[derive(Debug)]
pub struct BoundaryDiagnosticRow {
    pub scenario: &'static str,
    pub model: &'static str,
    pub field: &'static str,
    pub boundary_edge_count: usize,
    pub boundary_lumped_energy: Scalar,
    pub total_lumped_energy: Scalar,
    pub boundary_lumped_energy_fraction: Scalar,
}

impl BoundaryDiagnosticRow {
    /// The names of the columns.
    pub open spec fn columns() -> Seq<Seq<char>> {
        seq![
            "scenario"@,
            "model"@,
            "field"@,
            "boundary_edge_count"@,
            "boundary_lumped_energy"@,
            "total_lumped_energy"@,
            "boundary_lumped_energy_fraction"@,
        ]
    }

    /// What stands in the columns.
    pub open spec fn cells(&self) -> Seq<CellModel> {
        seq![
            CellModel::Text { text: self.scenario@ },
            CellModel::Text { text: self.model@ },
            CellModel::Text { text: self.field@ },
            CellModel::Count { count: self.boundary_edge_count as nat },
            CellModel::Number {
                value: self.boundary_lumped_energy,
                format: NumberFormat::Fixed12,
            },
            CellModel::Number { value: self.total_lumped_energy, format: NumberFormat::Fixed12 },
            CellModel::Number {
                value: self.boundary_lumped_energy_fraction,
                format: NumberFormat::Fixed12,
            },
        ]
    }

    /// Lists the names of the columns.
    pub fn column_names() -> (columns: Vec<&'static str>)
        ensures
            column_views(columns@) == Self::columns(),
    {
        let columns: Vec<&'static str> = vec![
            "scenario",
            "model",
            "field",
            "boundary_edge_count",
            "boundary_lumped_energy",
            "total_lumped_energy",
            "boundary_lumped_energy_fraction",
        ];
        assert(column_views(columns@) =~= Self::columns());
        columns
    }

    /// Lists what stands in the columns, one cell for each.
    pub fn to_cells(&self) -> (cells: Vec<Cell>)
        ensures
            cell_views(cells@) == self.cells(),
            cells.len() == Self::columns().len(),
    {
        let cells: Vec<Cell> = vec![
            text_cell(self.scenario),
            text_cell(self.model),
            text_cell(self.field),
            count_cell(self.boundary_edge_count),
            number_cell(self.boundary_lumped_energy, NumberFormat::Fixed12),
            number_cell(self.total_lumped_energy, NumberFormat::Fixed12),
            number_cell(self.boundary_lumped_energy_fraction, NumberFormat::Fixed12),
        ];
        assert(cell_views(cells@) =~= self.cells());
        cells
    }
}

/// The names of the columns of a topology summary that come before the pairing ranks.
pub open spec fn topology_columns() -> Seq<Seq<char>> {
    seq![
        "vertices"@,
        "edges"@,
        "faces"@,
        "euler_characteristic"@,
        "b0"@,
        "b1"@,
        "b2"@,
        "boundary_edges"@,
    ]
}

/// What stands in the columns of a topology summary that come before the pairing ranks.
pub open spec fn topology_cells(summary: PlanarHolesTopologySummary) -> Seq<CellModel> {
    seq![
        CellModel::Count { count: summary.vertex_count as nat },
        CellModel::Count { count: summary.edge_count as nat },
        CellModel::Count { count: summary.face_count as nat },
        CellModel::Signed { number: summary.euler_characteristic as int },
        CellModel::Count { count: summary.b0 as nat },
        CellModel::Count { count: summary.b1 as nat },
        CellModel::Count { count: summary.b2 as nat },
        CellModel::Count { count: summary.boundary_edge_count as nat },
    ]
}

fn topology_column_names() -> (columns: Vec<&'static str>)
    ensures
        column_views(columns@) == topology_columns(),
{
    let columns: Vec<&'static str> = vec![
        "vertices",
        "edges",
        "faces",
        "euler_characteristic",
        "b0",
        "b1",
        "b2",
        "boundary_edges",
    ];
    assert(column_views(columns@) =~= topology_columns());
    columns
}

fn topology_row(summary: &PlanarHolesTopologySummary) -> (cells: Vec<Cell>)
    ensures
        cell_views(cells@) == topology_cells(*summary),
{
    let cells: Vec<Cell> = vec![
        count_cell(summary.vertex_count),
        count_cell(summary.edge_count),
        count_cell(summary.face_count),
        signed_cell(summary.euler_characteristic as i64),
        count_cell(summary.b0),
        count_cell(summary.b1),
        count_cell(summary.b2),
        count_cell(summary.boundary_edge_count),
    ];
    assert(cell_views(cells@) =~= topology_cells(*summary));
    cells
}

/// The topology summary of a flow: the names of its columns, and its only row.
pub fn flow_topology_table(
    summary: &PlanarHolesTopologySummary,
    train_rank: usize,
    heldout_rank: usize,
) -> (table: (Vec<&'static str>, Vec<Cell>))
    ensures
        column_views(table.0@) == topology_columns() + seq![
            "train_cycle_harmonic_pairing_rank"@,
            "heldout_cycle_harmonic_pairing_rank"@,
        ],
        cell_views(table.1@) == topology_cells(*summary) + seq![
            CellModel::Count { count: train_rank as nat },
            CellModel::Count { count: heldout_rank as nat },
        ],
{
    let mut columns = topology_column_names();
    let ghost names = column_views(columns@);
    columns.push("train_cycle_harmonic_pairing_rank");
    columns.push("heldout_cycle_harmonic_pairing_rank");
    let mut cells = topology_row(summary);
    let ghost row = cell_views(cells@);
    cells.push(count_cell(train_rank));
    cells.push(count_cell(heldout_rank));
    assert(column_views(columns@) =~= names + seq![
        "train_cycle_harmonic_pairing_rank"@,
        "heldout_cycle_harmonic_pairing_rank"@,
    ]);
    assert(cell_views(cells@) =~= row + seq![
        CellModel::Count { count: train_rank as nat },
        CellModel::Count { count: heldout_rank as nat },
    ]);
    (columns, cells)
}

/// The topology summary of a comparison study: the names of its columns, and its only row.
pub fn study_topology_table(
    summary: &PlanarHolesTopologySummary,
    train_rank: usize,
    validation_rank: usize,
    heldout_rank: usize,
) -> (table: (Vec<&'static str>, Vec<Cell>))
    ensures
        column_views(table.0@) == topology_columns() + seq![
            "train_cycle_harmonic_pairing_rank"@,
            "validation_cycle_harmonic_pairing_rank"@,
            "heldout_cycle_harmonic_pairing_rank"@,
        ],
        cell_views(table.1@) == topology_cells(*summary) + seq![
            CellModel::Count { count: train_rank as nat },
            CellModel::Count { count: validation_rank as nat },
            CellModel::Count { count: heldout_rank as nat },
        ],
{
    let mut columns = topology_column_names();
    let ghost names = column_views(columns@);
    columns.push("train_cycle_harmonic_pairing_rank");
    columns.push("validation_cycle_harmonic_pairing_rank");
    columns.push("heldout_cycle_harmonic_pairing_rank");
    let mut cells = topology_row(summary);
    let ghost row = cell_views(cells@);
    cells.push(count_cell(train_rank));
    cells.push(count_cell(validation_rank));
    cells.push(count_cell(heldout_rank));
    assert(column_views(columns@) =~= names + seq![
        "train_cycle_harmonic_pairing_rank"@,
        "validation_cycle_harmonic_pairing_rank"@,
        "heldout_cycle_harmonic_pairing_rank"@,
    ]);
    assert(cell_views(cells@) =~= row + seq![
        CellModel::Count { count: train_rank as nat },
        CellModel::Count { count: validation_rank as nat },
        CellModel::Count { count: heldout_rank as nat },
    ]);
    (columns, cells)
}

/// Names the mean of a branch of a posterior in the table of branch sizes.
pub fn branch_mean_name(
    scenario: PlanarHolesObservationScenario,
    model: PlanarHolesModelKind,
    branch: HodgeBranchKind,
) -> (name: String)
    ensures
        name@ == scenario.name() + "_"@ + model.name() + "_"@ + branch.name(),
{
    let mut name = String::from_str(scenario.as_str());
    name.append("_");
    name.append(model.as_str());
    name.append("_");
    name.append(branch.as_str());
    name
}

/// Names the file of the mean of a model in the figure of vector fields.
pub fn posterior_mean_file(model: PlanarHolesModelKind) -> (name: String)
    ensures
        name@ == "posterior_mean_"@ + model.name() + ".vtu"@,
{
    let mut name = String::from_str("posterior_mean_");
    name.append(model.as_str());
    name.append(".vtu");
    name
}

} // verus!
