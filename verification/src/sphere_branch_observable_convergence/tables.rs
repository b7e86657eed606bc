//! The rows of the tables of observable variances.

use super::SphereBranchObservableModel;
use crate::hodge::HodgeBranchKind;
use crate::scalar::Scalar;
use crate::table::{
    cell_views, column_views, count_cell, number_cell, signed_cell, text_cell, Cell, CellModel,
    NumberFormat,
};
use vstd::prelude::*;

verus! {

/// The variance of one smooth observable.
#[derive(Debug)]
pub struct SphereObservableVarianceRow {
    pub refinement_level: usize,
    pub h: Scalar,
    pub vertex_count: usize,
    pub edge_count: usize,
    pub cell_count: usize,
    pub model: SphereBranchObservableModel,
    pub prior_branch: HodgeBranchKind,
    pub observable_branch: HodgeBranchKind,
    pub kind: &'static str,
    pub ell: usize,
    pub m: i64,
    pub observable_id: String,
    pub latent_dofs: usize,
    pub precision_nnz: usize,
    pub factor_nnz: usize,
    pub row_nnz: usize,
    pub model_variance: Scalar,
    pub analytic_variance: Scalar,
    pub target_scale: Scalar,
    pub absolute_error: Scalar,
    pub scaled_error: Scalar,
    pub build_seconds: Scalar,
    pub factor_seconds: Scalar,
    pub variance_seconds: Scalar,
}

impl SphereObservableVarianceRow {
    /// The names of the columns.
    pub open spec fn columns() -> Seq<Seq<char>> {
        seq![
            "refinement_level"@,
            "h"@,
            "vertex_count"@,
            "edge_count"@,
            "cell_count"@,
            "model"@,
            "prior_branch"@,
            "observable_branch"@,
            "kind"@,
            "ell"@,
            "m"@,
            "observable_id"@,
            "latent_dofs"@,
            "precision_nnz"@,
            "factor_nnz"@,
            "row_nnz"@,
            "model_variance"@,
            "analytic_variance"@,
            "target_scale"@,
            "absolute_error"@,
            "scaled_error"@,
            "build_seconds"@,
            "factor_seconds"@,
            "variance_seconds"@,
        ]
    }

    /// What stands in the columns.
    pub open spec fn cells(&self) -> Seq<CellModel> {
        seq![
            CellModel::Count { count: self.refinement_level as nat },
            CellModel::Number { value: self.h, format: NumberFormat::Scientific17 },
            CellModel::Count { count: self.vertex_count as nat },
            CellModel::Count { count: self.edge_count as nat },
            CellModel::Count { count: self.cell_count as nat },
            CellModel::Text { text: self.model.name() },
            CellModel::Text { text: self.prior_branch.name() },
            CellModel::Text { text: self.observable_branch.name() },
            CellModel::Text { text: self.kind@ },
            CellModel::Count { count: self.ell as nat },
            CellModel::Signed { number: self.m as int },
            CellModel::Text { text: self.observable_id@ },
            CellModel::Count { count: self.latent_dofs as nat },
            CellModel::Count { count: self.precision_nnz as nat },
            CellModel::Count { count: self.factor_nnz as nat },
            CellModel::Count { count: self.row_nnz as nat },
            CellModel::Number { value: self.model_variance, format: NumberFormat::Scientific17 },
            CellModel::Number { value: self.analytic_variance, format: NumberFormat::Scientific17 },
            CellModel::Number { value: self.target_scale, format: NumberFormat::Scientific17 },
            CellModel::Number { value: self.absolute_error, format: NumberFormat::Scientific17 },
            CellModel::Number { value: self.scaled_error, format: NumberFormat::Scientific17 },
            CellModel::Number { value: self.build_seconds, format: NumberFormat::Fixed6 },
            CellModel::Number { value: self.factor_seconds, format: NumberFormat::Fixed6 },
            CellModel::Number { value: self.variance_seconds, format: NumberFormat::Fixed6 },
        ]
    }

    /// Lists the names of the columns.
    pub fn column_names() -> (columns: Vec<&'static str>)
        ensures
            column_views(columns@) == Self::columns(),
    {
        let columns: Vec<&'static str> = vec![
            "refinement_level",
            "h",
            "vertex_count",
            "edge_count",
            "cell_count",
            "model",
            "prior_branch",
            "observable_branch",
            "kind",
            "ell",
            "m",
            "observable_id",
            "latent_dofs",
            "precision_nnz",
            "factor_nnz",
            "row_nnz",
            "model_variance",
            "analytic_variance",
            "target_scale",
            "absolute_error",
            "scaled_error",
            "build_seconds",
            "factor_seconds",
            "variance_seconds",
        ];
        assert(column_views(columns@) =~= Self::columns());
        columns
    }

    /// Lists what stands in the columns, one cell for each.
    pub fn to_cells(&self) -> (cells: Vec<Cell>)
        ensures
            cell_views(cells@) == self.cells(),
            cells.len() == Self::columns().len(),
    {
        let cells: Vec<Cell> = vec![
            count_cell(self.refinement_level),
            number_cell(self.h, NumberFormat::Scientific17),
            count_cell(self.vertex_count),
            count_cell(self.edge_count),
            count_cell(self.cell_count),
            text_cell(self.model.as_str()),
            text_cell(self.prior_branch.as_str()),
            text_cell(self.observable_branch.as_str()),
            text_cell(self.kind),
            count_cell(self.ell),
            signed_cell(self.m),
            text_cell(self.observable_id.as_str()),
            count_cell(self.latent_dofs),
            count_cell(self.precision_nnz),
            count_cell(self.factor_nnz),
            count_cell(self.row_nnz),
            number_cell(self.model_variance, NumberFormat::Scientific17),
            number_cell(self.analytic_variance, NumberFormat::Scientific17),
            number_cell(self.target_scale, NumberFormat::Scientific17),
            number_cell(self.absolute_error, NumberFormat::Scientific17),
            number_cell(self.scaled_error, NumberFormat::Scientific17),
            number_cell(self.build_seconds, NumberFormat::Fixed6),
            number_cell(self.factor_seconds, NumberFormat::Fixed6),
            number_cell(self.variance_seconds, NumberFormat::Fixed6),
        ];
        assert(cell_views(cells@) =~= self.cells());
        cells
    }
}

/// The variances of the smooth observables of a kind on one mesh.
#[derive(Debug)]
pub struct SphereObservableSummaryRow {
    pub refinement_level: usize,
    pub h: Scalar,
    pub model: SphereBranchObservableModel,
    pub prior_branch: HodgeBranchKind,
    pub observable_branch: HodgeBranchKind,
    pub kind: &'static str,
    pub count: usize,
    pub mean_model_variance: Scalar,
    pub median_model_variance: Scalar,
    pub rms_scaled_error: Scalar,
    pub median_scaled_error: Scalar,
    pub max_scaled_error: Scalar,
}

impl SphereObservableSummaryRow {
    /// The names of the columns.
    pub open spec fn columns() -> Seq<Seq<char>> {
        seq![
            "refinement_level"@,
            "h"@,
            "model"@,
            "prior_branch"@,
            "observable_branch"@,
            "kind"@,
            "count"@,
            "mean_model_variance"@,
            "median_model_variance"@,
            "rms_scaled_error"@,
            "median_scaled_error"@,
            "max_scaled_error"@,
        ]
    }

    /// What stands in the columns.
    pub open spec fn cells(&self) -> Seq<CellModel> {
        seq![
            CellModel::Count { count: self.refinement_level as nat },
            CellModel::Number { value: self.h, format: NumberFormat::Scientific17 },
            CellModel::Text { text: self.model.name() },
            CellModel::Text { text: self.prior_branch.name() },
            CellModel::Text { text: self.observable_branch.name() },
            CellModel::Text { text: self.kind@ },
            CellModel::Count { count: self.count as nat },
            CellModel::Number { value: self.mean_model_variance, format: NumberFormat::Scientific17 },
            CellModel::Number { value: self.median_model_variance, format: NumberFormat::Scientific17 },
            CellModel::Number { value: self.rms_scaled_error, format: NumberFormat::Scientific17 },
            CellModel::Number { value: self.median_scaled_error, format: NumberFormat::Scientific17 },
            CellModel::Number { value: self.max_scaled_error, format: NumberFormat::Scientific17 },
        ]
    }

    /// Lists the names of the columns.
    pub fn column_names() -> (columns: Vec<&'static str>)
        ensures
            column_views(columns@) == Self::columns(),
    {
        let columns: Vec<&'static str> = vec![
            "refinement_level",
            "h",
            "model",
            "prior_branch",
            "observable_branch",
            "kind",
            "count",
            "mean_model_variance",
            "median_model_variance",
            "rms_scaled_error",
            "median_scaled_error",
            "max_scaled_error",
        ];
        assert(column_views(columns@) =~= Self::columns());
        columns
    }

    /// Lists what stands in the columns, one cell for each.
    pub fn to_cells(&self) -> (cells: Vec<Cell>)
        ensures
            cell_views(cells@) == self.cells(),
            cells.len() == Self::columns().len(),
    {
        let cells: Vec<Cell> = vec![
            count_cell(self.refinement_level),
            number_cell(self.h, NumberFormat::Scientific17),
            text_cell(self.model.as_str()),
            text_cell(self.prior_branch.as_str()),
            text_cell(self.observable_branch.as_str()),
            text_cell(self.kind),
            count_cell(self.count),
            number_cell(self.mean_model_variance, NumberFormat::Scientific17),
            number_cell(self.median_model_variance, NumberFormat::Scientific17),
            number_cell(self.rms_scaled_error, NumberFormat::Scientific17),
            number_cell(self.median_scaled_error, NumberFormat::Scientific17),
            number_cell(self.max_scaled_error, NumberFormat::Scientific17),
        ];
        assert(cell_views(cells@) =~= self.cells());
        cells
    }
}

/// How the errors of the smooth observables of a kind change with the mesh width.
#[derive(Debug)]
pub struct SphereObservableFitSummaryRow {
    pub model: SphereBranchObservableModel,
    pub prior_branch: HodgeBranchKind,
    pub observable_branch: HodgeBranchKind,
    pub kind: &'static str,
    pub diagnostic: String,
    pub value: Scalar,
    pub expected: String,
    pub status: String,
}

impl SphereObservableFitSummaryRow {
    /// The names of the columns.
    pub open spec fn columns() -> Seq<Seq<char>> {
        seq![
            "model"@,
            "prior_branch"@,
            "observable_branch"@,
            "kind"@,
            "diagnostic"@,
            "value"@,
            "expected"@,
            "status"@,
        ]
    }

    /// What stands in the columns.
    pub open spec fn cells(&self) -> Seq<CellModel> {
        seq![
            CellModel::Text { text: self.model.name() },
            CellModel::Text { text: self.prior_branch.name() },
            CellModel::Text { text: self.observable_branch.name() },
            CellModel::Text { text: self.kind@ },
            CellModel::Text { text: self.diagnostic@ },
            CellModel::Number { value: self.value, format: NumberFormat::Scientific17 },
            CellModel::Text { text: self.expected@ },
            CellModel::Text { text: self.status@ },
        ]
    }

    /// Lists the names of the columns.
    pub fn column_names() -> (columns: Vec<&'static str>)
        ensures
            column_views(columns@) == Self::columns(),
    {
        let columns: Vec<&'static str> = vec![
            "model",
            "prior_branch",
            "observable_branch",
            "kind",
            "diagnostic",
            "value",
            "expected",
            "status",
        ];
        assert(column_views(columns@) =~= Self::columns());
        columns
    }

    /// Lists what stands in the columns, one cell for each.
    pub fn to_cells(&self) -> (cells: Vec<Cell>)
        ensures
            cell_views(cells@) == self.cells(),
            cells.len() == Self::columns().len(),
    {
        let cells: Vec<Cell> = vec![
            text_cell(self.model.as_str()),
            text_cell(self.prior_branch.as_str()),
            text_cell(self.observable_branch.as_str()),
            text_cell(self.kind),
            text_cell(self.diagnostic.as_str()),
            number_cell(self.value, NumberFormat::Scientific17),
            text_cell(self.expected.as_str()),
            text_cell(self.status.as_str()),
        ];
        assert(cell_views(cells@) =~= self.cells());
        cells
    }
}

/// The variance of one component of the field at one point.
#[derive(Debug)]
pub struct SpherePointwiseVarianceRow {
    pub refinement_level: usize,
    pub h: Scalar,
    pub vertex_count: usize,
    pub edge_count: usize,
    pub cell_count: usize,
    pub model: SphereBranchObservableModel,
    pub prior_branch: HodgeBranchKind,
    pub point_index: usize,
    pub cell_index: usize,
    pub component_index: usize,
    pub component_name: &'static str,
    pub target_x: Scalar,
    pub target_y: Scalar,
    pub target_z: Scalar,
    pub eval_x: Scalar,
    pub eval_y: Scalar,
    pub eval_z: Scalar,
    pub direction_error: Scalar,
    pub latent_dofs: usize,
    pub precision_nnz: usize,
    pub factor_nnz: usize,
    pub row_nnz: usize,
    pub model_variance: Scalar,
    pub analytic_variance: Scalar,
    pub absolute_error: Scalar,
    pub relative_error: Scalar,
    pub build_seconds: Scalar,
    pub factor_seconds: Scalar,
    pub variance_seconds: Scalar,
}

impl SpherePointwiseVarianceRow {
    /// The names of the columns.
    pub open spec fn columns() -> Seq<Seq<char>> {
        seq![
            "refinement_level"@,
            "h"@,
            "vertex_count"@,
            "edge_count"@,
            "cell_count"@,
            "model"@,
            "prior_branch"@,
            "point_index"@,
            "cell_index"@,
            "component_index"@,
            "component_name"@,
            "target_x"@,
            "target_y"@,
            "target_z"@,
            "eval_x"@,
            "eval_y"@,
            "eval_z"@,
            "direction_error"@,
            "latent_dofs"@,
            "precision_nnz"@,
            "factor_nnz"@,
            "row_nnz"@,
            "model_variance"@,
            "analytic_variance"@,
            "absolute_error"@,
            "relative_error"@,
            "build_seconds"@,
            "factor_seconds"@,
            "variance_seconds"@,
        ]
    }

    /// What stands in the columns.
    pub open spec fn cells(&self) -> Seq<CellModel> {
        seq![
            CellModel::Count { count: self.refinement_level as nat },
            CellModel::Number { value: self.h, format: NumberFormat::Scientific17 },
            CellModel::Count { count: self.vertex_count as nat },
            CellModel::Count { count: self.edge_count as nat },
            CellModel::Count { count: self.cell_count as nat },
            CellModel::Text { text: self.model.name() },
            CellModel::Text { text: self.prior_branch.name() },
            CellModel::Count { count: self.point_index as nat },
            CellModel::Count { count: self.cell_index as nat },
            CellModel::Count { count: self.component_index as nat },
            CellModel::Text { text: self.component_name@ },
            CellModel::Number { value: self.target_x, format: NumberFormat::Scientific17 },
            CellModel::Number { value: self.target_y, format: NumberFormat::Scientific17 },
            CellModel::Number { value: self.target_z, format: NumberFormat::Scientific17 },
            CellModel::Number { value: self.eval_x, format: NumberFormat::Scientific17 },
            CellModel::Number { value: self.eval_y, format: NumberFormat::Scientific17 },
            CellModel::Number { value: self.eval_z, format: NumberFormat::Scientific17 },
            CellModel::Number { value: self.direction_error, format: NumberFormat::Scientific17 },
            CellModel::Count { count: self.latent_dofs as nat },
            CellModel::Count { count: self.precision_nnz as nat },
            CellModel::Count { count: self.factor_nnz as nat },
            CellModel::Count { count: self.row_nnz as nat },
            CellModel::Number { value: self.model_variance, format: NumberFormat::Scientific17 },
            CellModel::Number { value: self.analytic_variance, format: NumberFormat::Scientific17 },
            CellModel::Number { value: self.absolute_error, format: NumberFormat::Scientific17 },
            CellModel::Number { value: self.relative_error, format: NumberFormat::Scientific17 },
            CellModel::Number { value: self.build_seconds, format: NumberFormat::Fixed6 },
            CellModel::Number { value: self.factor_seconds, format: NumberFormat::Fixed6 },
            CellModel::Number { value: self.variance_seconds, format: NumberFormat::Fixed6 },
        ]
    }

    /// Lists the names of the columns.
    pub fn column_names() -> (columns: Vec<&'static str>)
        ensures
            column_views(columns@) == Self::columns(),
    {
        let columns: Vec<&'static str> = vec![
            "refinement_level",
            "h",
            "vertex_count",
            "edge_count",
            "cell_count",
            "model",
            "prior_branch",
            "point_index",
            "cell_index",
            "component_index",
            "component_name",
            "target_x",
            "target_y",
            "target_z",
            "eval_x",
            "eval_y",
            "eval_z",
            "direction_error",
            "latent_dofs",
            "precision_nnz",
            "factor_nnz",
            "row_nnz",
            "model_variance",
            "analytic_variance",
            "absolute_error",
            "relative_error",
            "build_seconds",
            "factor_seconds",
            "variance_seconds",
        ];
        assert(column_views(columns@) =~= Self::columns());
        columns
    }

    /// Lists what stands in the columns, one cell for each.
    pub fn to_cells(&self) -> (cells: Vec<Cell>)
        ensures
            cell_views(cells@) == self.cells(),
            cells.len() == Self::columns().len(),
    {
        let cells: Vec<Cell> = vec![
            count_cell(self.refinement_level),
            number_cell(self.h, NumberFormat::Scientific17),
            count_cell(self.vertex_count),
            count_cell(self.edge_count),
            count_cell(self.cell_count),
            text_cell(self.model.as_str()),
            text_cell(self.prior_branch.as_str()),
            count_cell(self.point_index),
            count_cell(self.cell_index),
            count_cell(self.component_index),
            text_cell(self.component_name),
            number_cell(self.target_x, NumberFormat::Scientific17),
            number_cell(self.target_y, NumberFormat::Scientific17),
            number_cell(self.target_z, NumberFormat::Scientific17),
            number_cell(self.eval_x, NumberFormat::Scientific17),
            number_cell(self.eval_y, NumberFormat::Scientific17),
            number_cell(self.eval_z, NumberFormat::Scientific17),
            number_cell(self.direction_error, NumberFormat::Scientific17),
            count_cell(self.latent_dofs),
            count_cell(self.precision_nnz),
            count_cell(self.factor_nnz),
            count_cell(self.row_nnz),
            number_cell(self.model_variance, NumberFormat::Scientific17),
            number_cell(self.analytic_variance, NumberFormat::Scientific17),
            number_cell(self.absolute_error, NumberFormat::Scientific17),
            number_cell(self.relative_error, NumberFormat::Scientific17),
            number_cell(self.build_seconds, NumberFormat::Fixed6),
            number_cell(self.factor_seconds, NumberFormat::Fixed6),
            number_cell(self.variance_seconds, NumberFormat::Fixed6),
        ];
        assert(cell_views(cells@) =~= self.cells());
        cells
    }
}

/// The variances of the components of a family on one mesh.
#[derive(Debug)]
pub struct SpherePointwiseSummaryRow {
    pub refinement_level: usize,
    pub h: Scalar,
    pub model: SphereBranchObservableModel,
    pub prior_branch: HodgeBranchKind,
    pub component_family: &'static str,
    pub count: usize,
    pub mean_model_variance: Scalar,
    pub median_model_variance: Scalar,
    pub rms_relative_error: Scalar,
    pub median_relative_error: Scalar,
    pub max_relative_error: Scalar,
}

impl SpherePointwiseSummaryRow {
    /// The names of the columns.
    pub open spec fn columns() -> Seq<Seq<char>> {
        seq![
            "refinement_level"@,
            "h"@,
            "model"@,
            "prior_branch"@,
            "component_family"@,
            "count"@,
            "mean_model_variance"@,
            "median_model_variance"@,
            "rms_relative_error"@,
            "median_relative_error"@,
            "max_relative_error"@,
        ]
    }

    /// What stands in the columns.
    pub open spec fn cells(&self) -> Seq<CellModel> {
        seq![
            CellModel::Count { count: self.refinement_level as nat },
            CellModel::Number { value: self.h, format: NumberFormat::Scientific17 },
            CellModel::Text { text: self.model.name() },
            CellModel::Text { text: self.prior_branch.name() },
            CellModel::Text { text: self.component_family@ },
            CellModel::Count { count: self.count as nat },
            CellModel::Number { value: self.mean_model_variance, format: NumberFormat::Scientific17 },
            CellModel::Number { value: self.median_model_variance, format: NumberFormat::Scientific17 },
            CellModel::Number { value: self.rms_relative_error, format: NumberFormat::Scientific17 },
            CellModel::Number { value: self.median_relative_error, format: NumberFormat::Scientific17 },
            CellModel::Number { value: self.max_relative_error, format: NumberFormat::Scientific17 },
        ]
    }

    /// Lists the names of the columns.
    pub fn column_names() -> (columns: Vec<&'static str>)
        ensures
            column_views(columns@) == Self::columns(),
    {
        let columns: Vec<&'static str> = vec![
            "refinement_level",
            "h",
            "model",
            "prior_branch",
            "component_family",
            "count",
            "mean_model_variance",
            "median_model_variance",
            "rms_relative_error",
            "median_relative_error",
            "max_relative_error",
        ];
        assert(column_views(columns@) =~= Self::columns());
        columns
    }

    /// Lists what stands in the columns, one cell for each.
    pub fn to_cells(&self) -> (cells: Vec<Cell>)
        ensures
            cell_views(cells@) == self.cells(),
            cells.len() == Self::columns().len(),
    {
        let cells: Vec<Cell> = vec![
            count_cell(self.refinement_level),
            number_cell(self.h, NumberFormat::Scientific17),
            text_cell(self.model.as_str()),
            text_cell(self.prior_branch.as_str()),
            text_cell(self.component_family),
            count_cell(self.count),
            number_cell(self.mean_model_variance, NumberFormat::Scientific17),
            number_cell(self.median_model_variance, NumberFormat::Scientific17),
            number_cell(self.rms_relative_error, NumberFormat::Scientific17),
            number_cell(self.median_relative_error, NumberFormat::Scientific17),
            number_cell(self.max_relative_error, NumberFormat::Scientific17),
        ];
        assert(cell_views(cells@) =~= self.cells());
        cells
    }
}

/// How the errors of the components of a family change with the mesh width.
#[derive(Debug)]
pub struct SpherePointwiseFitSummaryRow {
    pub model: SphereBranchObservableModel,
    pub prior_branch: HodgeBranchKind,
    pub component_family: &'static str,
    pub diagnostic: String,
    pub value: Scalar,
    pub expected: String,
    pub status: String,
}

impl SpherePointwiseFitSummaryRow {
    /// The names of the columns.
    pub open spec fn columns() -> Seq<Seq<char>> {
        seq![
            "model"@,
            "prior_branch"@,
            "component_family"@,
            "diagnostic"@,
            "value"@,
            "expected"@,
            "status"@,
        ]
    }

    /// What stands in the columns.
    pub open spec fn cells(&self) -> Seq<CellModel> {
        seq![
            CellModel::Text { text: self.model.name() },
            CellModel::Text { text: self.prior_branch.name() },
            CellModel::Text { text: self.component_family@ },
            CellModel::Text { text: self.diagnostic@ },
            CellModel::Number { value: self.value, format: NumberFormat::Scientific17 },
            CellModel::Text { text: self.expected@ },
            CellModel::Text { text: self.status@ },
        ]
    }

    /// Lists the names of the columns.
    pub fn column_names() -> (columns: Vec<&'static str>)
        ensures
            column_views(columns@) == Self::columns(),
    {
        let columns: Vec<&'static str> = vec![
            "model",
            "prior_branch",
            "component_family",
            "diagnostic",
            "value",
            "expected",
            "status",
        ];
        assert(column_views(columns@) =~= Self::columns());
        columns
    }

    /// Lists what stands in the columns, one cell for each.
    pub fn to_cells(&self) -> (cells: Vec<Cell>)
        ensures
            cell_views(cells@) == self.cells(),
            cells.len() == Self::columns().len(),
    {
        let cells: Vec<Cell> = vec![
            text_cell(self.model.as_str()),
            text_cell(self.prior_branch.as_str()),
            text_cell(self.component_family),
            text_cell(self.diagnostic.as_str()),
            number_cell(self.value, NumberFormat::Scientific17),
            text_cell(self.expected.as_str()),
            text_cell(self.status.as_str()),
        ];
        assert(cell_views(cells@) =~= self.cells());
        cells
    }
}

} // verus!
