//! The rows of the tables of pushforward covariances.

use super::{SphereBranchPushforwardComponent, SphereBranchPushforwardModel};
use crate::scalar::Scalar;
use crate::table::{
    cell_views, column_views, count_cell, number_cell, text_cell, Cell, CellModel, NumberFormat,
};
use vstd::prelude::*;

verus! {

/// The variance of one component of a pushforward at one point.
#[derive(Debug)]
pub struct SphereBranchComponentVarianceRow {
    pub refinement_level: usize,
    pub h: Scalar,
    pub model: SphereBranchPushforwardModel,
    pub component: SphereBranchPushforwardComponent,
    pub point_index: usize,
    pub cell_index: usize,
    pub component_index: usize,
    pub functional_id: String,
    pub model_variance: Scalar,
    pub analytic_variance: Scalar,
    pub absolute_error: Scalar,
    pub relative_error: Scalar,
}

impl SphereBranchComponentVarianceRow {
    /// The names of the columns.
    pub open spec fn columns() -> Seq<Seq<char>> {
        seq![
            "refinement_level"@,
            "h"@,
            "model"@,
            "component"@,
            "point_index"@,
            "cell_index"@,
            "component_index"@,
            "functional_id"@,
            "model_variance"@,
            "analytic_variance"@,
            "absolute_error"@,
            "relative_error"@,
        ]
    }

    /// What stands in the columns.
    pub open spec fn cells(&self) -> Seq<CellModel> {
        seq![
            CellModel::Count { count: self.refinement_level as nat },
            CellModel::Number { value: self.h, format: NumberFormat::Scientific17 },
            CellModel::Text { text: self.model.name() },
            CellModel::Text { text: self.component.name() },
            CellModel::Count { count: self.point_index as nat },
            CellModel::Count { count: self.cell_index as nat },
            CellModel::Count { count: self.component_index as nat },
            CellModel::Text { text: self.functional_id@ },
            CellModel::Number { value: self.model_variance, format: NumberFormat::Scientific17 },
            CellModel::Number { value: self.analytic_variance, format: NumberFormat::Scientific17 },
            CellModel::Number { value: self.absolute_error, format: NumberFormat::Scientific17 },
            CellModel::Number { value: self.relative_error, format: NumberFormat::Scientific17 },
        ]
    }

    /// Lists the names of the columns.
    pub fn column_names() -> (columns: Vec<&'static str>)
        ensures
            column_views(columns@) == Self::columns(),
    {
        let columns: Vec<&'static str> = vec![
            "refinement_level",
            "h",
            "model",
            "component",
            "point_index",
            "cell_index",
            "component_index",
            "functional_id",
            "model_variance",
            "analytic_variance",
            "absolute_error",
            "relative_error",
        ];
        assert(column_views(columns@) =~= Self::columns());
        columns
    }

    /// Lists what stands in the columns, one cell for each.
    pub fn to_cells(&self) -> (cells: Vec<Cell>)
        ensures
            cell_views(cells@) == self.cells(),
            cells.len() == Self::columns().len(),
    {
        let cells: Vec<Cell> = vec![
            count_cell(self.refinement_level),
            number_cell(self.h, NumberFormat::Scientific17),
            text_cell(self.model.as_str()),
            text_cell(self.component.as_str()),
            count_cell(self.point_index),
            count_cell(self.cell_index),
            count_cell(self.component_index),
            text_cell(self.functional_id.as_str()),
            number_cell(self.model_variance, NumberFormat::Scientific17),
            number_cell(self.analytic_variance, NumberFormat::Scientific17),
            number_cell(self.absolute_error, NumberFormat::Scientific17),
            number_cell(self.relative_error, NumberFormat::Scientific17),
        ];
        assert(cell_views(cells@) =~= self.cells());
        cells
    }
}

/// How a covariance compares with the analytic one on one mesh.
#[derive(Debug)]
pub struct SphereBranchCovarianceSummaryRow {
    pub refinement_level: usize,
    pub h: Scalar,
    pub vertex_count: usize,
    pub edge_count: usize,
    pub cell_count: usize,
    pub selected_cell_count: usize,
    pub model: SphereBranchPushforwardModel,
    pub component: SphereBranchPushforwardComponent,
    pub latent_dofs: usize,
    pub precision_nnz: usize,
    pub covariance_dimension: usize,
    pub relative_frobenius_error: Scalar,
    pub diagonal_relative_l2_error: Scalar,
    pub best_scalar_rescaled_relative_frobenius_error: Scalar,
    pub best_scalar: Scalar,
    pub model_trace: Scalar,
    pub analytic_trace: Scalar,
    pub trace_ratio: Scalar,
}

impl SphereBranchCovarianceSummaryRow {
    /// The names of the columns.
    pub open spec fn columns() -> Seq<Seq<char>> {
        seq![
            "refinement_level"@,
            "h"@,
            "vertex_count"@,
            "edge_count"@,
            "cell_count"@,
            "selected_cell_count"@,
            "model"@,
            "component"@,
            "latent_dofs"@,
            "precision_nnz"@,
            "covariance_dimension"@,
            "relative_frobenius_error"@,
            "diagonal_relative_l2_error"@,
            "best_scalar_rescaled_relative_frobenius_error"@,
            "best_scalar"@,
            "model_trace"@,
            "analytic_trace"@,
            "trace_ratio"@,
        ]
    }

    /// What stands in the columns.
    pub open spec fn cells(&self) -> Seq<CellModel> {
        seq![
            CellModel::Count { count: self.refinement_level as nat },
            CellModel::Number { value: self.h, format: NumberFormat::Scientific17 },
            CellModel::Count { count: self.vertex_count as nat },
            CellModel::Count { count: self.edge_count as nat },
            CellModel::Count { count: self.cell_count as nat },
            CellModel::Count { count: self.selected_cell_count as nat },
            CellModel::Text { text: self.model.name() },
            CellModel::Text { text: self.component.name() },
            CellModel::Count { count: self.latent_dofs as nat },
            CellModel::Count { count: self.precision_nnz as nat },
            CellModel::Count { count: self.covariance_dimension as nat },
            CellModel::Number { value: self.relative_frobenius_error, format: NumberFormat::Scientific17 },
            CellModel::Number { value: self.diagonal_relative_l2_error, format: NumberFormat::Scientific17 },
            CellModel::Number { value: self.best_scalar_rescaled_relative_frobenius_error, format: NumberFormat::Scientific17 },
            CellModel::Number { value: self.best_scalar, format: NumberFormat::Scientific17 },
            CellModel::Number { value: self.model_trace, format: NumberFormat::Scientific17 },
            CellModel::Number { value: self.analytic_trace, format: NumberFormat::Scientific17 },
            CellModel::Number { value: self.trace_ratio, format: NumberFormat::Scientific17 },
        ]
    }

    /// Lists the names of the columns.
    pub fn column_names() -> (columns: Vec<&'static str>)
        ensures
            column_views(columns@) == Self::columns(),
    {
        let columns: Vec<&'static str> = vec![
            "refinement_level",
            "h",
            "vertex_count",
            "edge_count",
            "cell_count",
            "selected_cell_count",
            "model",
            "component",
            "latent_dofs",
            "precision_nnz",
            "covariance_dimension",
            "relative_frobenius_error",
            "diagonal_relative_l2_error",
            "best_scalar_rescaled_relative_frobenius_error",
            "best_scalar",
            "model_trace",
            "analytic_trace",
            "trace_ratio",
        ];
        assert(column_views(columns@) =~= Self::columns());
        columns
    }

    /// Lists what stands in the columns, one cell for each.
    pub fn to_cells(&self) -> (cells: Vec<Cell>)
        ensures
            cell_views(cells@) == self.cells(),
            cells.len() == Self::columns().len(),
    {
        let cells: Vec<Cell> = vec![
            count_cell(self.refinement_level),
            number_cell(self.h, NumberFormat::Scientific17),
            count_cell(self.vertex_count),
            count_cell(self.edge_count),
            count_cell(self.cell_count),
            count_cell(self.selected_cell_count),
            text_cell(self.model.as_str()),
            text_cell(self.component.as_str()),
            count_cell(self.latent_dofs),
            count_cell(self.precision_nnz),
            count_cell(self.covariance_dimension),
            number_cell(self.relative_frobenius_error, NumberFormat::Scientific17),
            number_cell(self.diagonal_relative_l2_error, NumberFormat::Scientific17),
            number_cell(self.best_scalar_rescaled_relative_frobenius_error, NumberFormat::Scientific17),
            number_cell(self.best_scalar, NumberFormat::Scientific17),
            number_cell(self.model_trace, NumberFormat::Scientific17),
            number_cell(self.analytic_trace, NumberFormat::Scientific17),
            number_cell(self.trace_ratio, NumberFormat::Scientific17),
        ];
        assert(cell_views(cells@) =~= self.cells());
        cells
    }
}

/// How the errors of a covariance change with the mesh width.
#[derive(Debug)]
pub struct SphereBranchFitSummaryRow {
    pub model: SphereBranchPushforwardModel,
    pub component: SphereBranchPushforwardComponent,
    pub diagnostic: String,
    pub value: Scalar,
    pub expected: String,
    pub status: String,
}

impl SphereBranchFitSummaryRow {
    /// The names of the columns.
    pub open spec fn columns() -> Seq<Seq<char>> {
        seq![
            "model"@,
            "component"@,
            "diagnostic"@,
            "value"@,
            "expected"@,
            "status"@,
        ]
    }

    /// What stands in the columns.
    pub open spec fn cells(&self) -> Seq<CellModel> {
        seq![
            CellModel::Text { text: self.model.name() },
            CellModel::Text { text: self.component.name() },
            CellModel::Text { text: self.diagnostic@ },
            CellModel::Number { value: self.value, format: NumberFormat::Scientific17 },
            CellModel::Text { text: self.expected@ },
            CellModel::Text { text: self.status@ },
        ]
    }

    /// Lists the names of the columns.
    pub fn column_names() -> (columns: Vec<&'static str>)
        ensures
            column_views(columns@) == Self::columns(),
    {
        let columns: Vec<&'static str> = vec![
            "model",
            "component",
            "diagnostic",
            "value",
            "expected",
            "status",
        ];
        assert(column_views(columns@) =~= Self::columns());
        columns
    }

    /// Lists what stands in the columns, one cell for each.
    pub fn to_cells(&self) -> (cells: Vec<Cell>)
        ensures
            cell_views(cells@) == self.cells(),
            cells.len() == Self::columns().len(),
    {
        let cells: Vec<Cell> = vec![
            text_cell(self.model.as_str()),
            text_cell(self.component.as_str()),
            text_cell(self.diagnostic.as_str()),
            number_cell(self.value, NumberFormat::Scientific17),
            text_cell(self.expected.as_str()),
            text_cell(self.status.as_str()),
        ];
        assert(cell_views(cells@) =~= self.cells());
        cells
    }
}

} // verus!
