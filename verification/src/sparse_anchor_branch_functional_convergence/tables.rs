//! The rows of the tables of functional variances.

use super::{BranchFunctionalComponent, BranchFunctionalModel, BranchObservableKind};
use crate::scalar::Scalar;
use crate::table::{
    cell_views, column_views, count_cell, number_cell, text_cell, Cell, CellModel, NumberFormat,
};
use vstd::prelude::*;

verus! {

/// The variance of one functional.
#[derive(Debug)]
pub struct BranchFunctionalVarianceRow {
    pub n: usize,
    pub h: Scalar,
    pub alpha: u32,
    pub model: BranchFunctionalModel,
    pub component: BranchFunctionalComponent,
    pub observable_kind: BranchObservableKind,
    pub functional_id: String,
    pub latent_dofs: usize,
    pub precision_nnz: usize,
    pub transform_nnz: usize,
    pub support_entries: usize,
    pub geometric_measure: Scalar,
    pub raw_variance: Scalar,
    pub normalized_variance: Scalar,
    pub status: String,
}

impl BranchFunctionalVarianceRow {
    /// The names of the columns.
    pub open spec fn columns() -> Seq<Seq<char>> {
        seq![
            "n"@,
            "h"@,
            "alpha"@,
            "model"@,
            "component"@,
            "observable_kind"@,
            "functional_id"@,
            "latent_dofs"@,
            "precision_nnz"@,
            "transform_nnz"@,
            "support_entries"@,
            "geometric_measure"@,
            "raw_variance"@,
            "normalized_variance"@,
            "status"@,
        ]
    }

    /// What stands in the columns.
    pub open spec fn cells(&self) -> Seq<CellModel> {
        seq![
            CellModel::Count { count: self.n as nat },
            CellModel::Number { value: self.h, format: NumberFormat::Fixed17 },
            CellModel::Count { count: self.alpha as nat },
            CellModel::Text { text: self.model.name() },
            CellModel::Text { text: self.component.name() },
            CellModel::Text { text: self.observable_kind.name() },
            CellModel::Text { text: self.functional_id@ },
            CellModel::Count { count: self.latent_dofs as nat },
            CellModel::Count { count: self.precision_nnz as nat },
            CellModel::Count { count: self.transform_nnz as nat },
            CellModel::Count { count: self.support_entries as nat },
            CellModel::Number { value: self.geometric_measure, format: NumberFormat::Scientific17 },
            CellModel::Number { value: self.raw_variance, format: NumberFormat::Scientific17 },
            CellModel::Number { value: self.normalized_variance, format: NumberFormat::Scientific17 },
            CellModel::Text { text: self.status@ },
        ]
    }

    /// Lists the names of the columns.
    pub fn column_names() -> (columns: Vec<&'static str>)
        ensures
            column_views(columns@) == Self::columns(),
    {
        let columns: Vec<&'static str> = vec![
            "n",
            "h",
            "alpha",
            "model",
            "component",
            "observable_kind",
            "functional_id",
            "latent_dofs",
            "precision_nnz",
            "transform_nnz",
            "support_entries",
            "geometric_measure",
            "raw_variance",
            "normalized_variance",
            "status",
        ];
        assert(column_views(columns@) =~= Self::columns());
        columns
    }

    /// Lists what stands in the columns, one cell for each.
    pub fn to_cells(&self) -> (cells: Vec<Cell>)
        ensures
            cell_views(cells@) == self.cells(),
            cells.len() == Self::columns().len(),
    {
        let cells: Vec<Cell> = vec![
            count_cell(self.n),
            number_cell(self.h, NumberFormat::Fixed17),
            count_cell(self.alpha as usize),
            text_cell(self.model.as_str()),
            text_cell(self.component.as_str()),
            text_cell(self.observable_kind.as_str()),
            text_cell(self.functional_id.as_str()),
            count_cell(self.latent_dofs),
            count_cell(self.precision_nnz),
            count_cell(self.transform_nnz),
            count_cell(self.support_entries),
            number_cell(self.geometric_measure, NumberFormat::Scientific17),
            number_cell(self.raw_variance, NumberFormat::Scientific17),
            number_cell(self.normalized_variance, NumberFormat::Scientific17),
            text_cell(self.status.as_str()),
        ];
        assert(cell_views(cells@) =~= self.cells());
        cells
    }
}

/// The variances of the functionals of a kind on one mesh.
#[derive(Debug)]
pub struct BranchFunctionalSummaryRow {
    pub n: usize,
    pub model: BranchFunctionalModel,
    pub component: BranchFunctionalComponent,
    pub observable_kind: BranchObservableKind,
    pub count: usize,
    pub mean_raw_variance: Scalar,
    pub median_raw_variance: Scalar,
    pub min_raw_variance: Scalar,
    pub max_raw_variance: Scalar,
    pub stddev_raw_variance: Scalar,
    pub median_normalized_variance: Scalar,
}

impl BranchFunctionalSummaryRow {
    /// The names of the columns.
    pub open spec fn columns() -> Seq<Seq<char>> {
        seq![
            "n"@,
            "model"@,
            "component"@,
            "observable_kind"@,
            "count"@,
            "mean_raw_variance"@,
            "median_raw_variance"@,
            "min_raw_variance"@,
            "max_raw_variance"@,
            "stddev_raw_variance"@,
            "median_normalized_variance"@,
        ]
    }

    /// What stands in the columns.
    pub open spec fn cells(&self) -> Seq<CellModel> {
        seq![
            CellModel::Count { count: self.n as nat },
            CellModel::Text { text: self.model.name() },
            CellModel::Text { text: self.component.name() },
            CellModel::Text { text: self.observable_kind.name() },
            CellModel::Count { count: self.count as nat },
            CellModel::Number { value: self.mean_raw_variance, format: NumberFormat::Scientific17 },
            CellModel::Number { value: self.median_raw_variance, format: NumberFormat::Scientific17 },
            CellModel::Number { value: self.min_raw_variance, format: NumberFormat::Scientific17 },
            CellModel::Number { value: self.max_raw_variance, format: NumberFormat::Scientific17 },
            CellModel::Number { value: self.stddev_raw_variance, format: NumberFormat::Scientific17 },
            CellModel::Number { value: self.median_normalized_variance, format: NumberFormat::Scientific17 },
        ]
    }

    /// Lists the names of the columns.
    pub fn column_names() -> (columns: Vec<&'static str>)
        ensures
            column_views(columns@) == Self::columns(),
    {
        let columns: Vec<&'static str> = vec![
            "n",
            "model",
            "component",
            "observable_kind",
            "count",
            "mean_raw_variance",
            "median_raw_variance",
            "min_raw_variance",
            "max_raw_variance",
            "stddev_raw_variance",
            "median_normalized_variance",
        ];
        assert(column_views(columns@) =~= Self::columns());
        columns
    }

    /// Lists what stands in the columns, one cell for each.
    pub fn to_cells(&self) -> (cells: Vec<Cell>)
        ensures
            cell_views(cells@) == self.cells(),
            cells.len() == Self::columns().len(),
    {
        let cells: Vec<Cell> = vec![
            count_cell(self.n),
            text_cell(self.model.as_str()),
            text_cell(self.component.as_str()),
            text_cell(self.observable_kind.as_str()),
            count_cell(self.count),
            number_cell(self.mean_raw_variance, NumberFormat::Scientific17),
            number_cell(self.median_raw_variance, NumberFormat::Scientific17),
            number_cell(self.min_raw_variance, NumberFormat::Scientific17),
            number_cell(self.max_raw_variance, NumberFormat::Scientific17),
            number_cell(self.stddev_raw_variance, NumberFormat::Scientific17),
            number_cell(self.median_normalized_variance, NumberFormat::Scientific17),
        ];
        assert(cell_views(cells@) =~= self.cells());
        cells
    }
}

/// How the variances of the functionals of a kind change as the mesh is refined.
#[derive(Debug)]
pub struct BranchFunctionalFitSummaryRow {
    pub model: BranchFunctionalModel,
    pub component: BranchFunctionalComponent,
    pub observable_kind: BranchObservableKind,
    pub diagnostic: String,
    pub value: Scalar,
    pub expected: String,
    pub status: String,
}

impl BranchFunctionalFitSummaryRow {
    /// The names of the columns.
    pub open spec fn columns() -> Seq<Seq<char>> {
        seq![
            "model"@,
            "component"@,
            "observable_kind"@,
            "diagnostic"@,
            "value"@,
            "expected"@,
            "status"@,
        ]
    }

    /// What stands in the columns.
    pub open spec fn cells(&self) -> Seq<CellModel> {
        seq![
            CellModel::Text { text: self.model.name() },
            CellModel::Text { text: self.component.name() },
            CellModel::Text { text: self.observable_kind.name() },
            CellModel::Text { text: self.diagnostic@ },
            CellModel::Number { value: self.value, format: NumberFormat::Scientific17 },
            CellModel::Text { text: self.expected@ },
            CellModel::Text { text: self.status@ },
        ]
    }

    /// Lists the names of the columns.
    pub fn column_names() -> (columns: Vec<&'static str>)
        ensures
            column_views(columns@) == Self::columns(),
    {
        let columns: Vec<&'static str> = vec![
            "model",
            "component",
            "observable_kind",
            "diagnostic",
            "value",
            "expected",
            "status",
        ];
        assert(column_views(columns@) =~= Self::columns());
        columns
    }

    /// Lists what stands in the columns, one cell for each.
    pub fn to_cells(&self) -> (cells: Vec<Cell>)
        ensures
            cell_views(cells@) == self.cells(),
            cells.len() == Self::columns().len(),
    {
        let cells: Vec<Cell> = vec![
            text_cell(self.model.as_str()),
            text_cell(self.component.as_str()),
            text_cell(self.observable_kind.as_str()),
            text_cell(self.diagnostic.as_str()),
            number_cell(self.value, NumberFormat::Scientific17),
            text_cell(self.expected.as_str()),
            text_cell(self.status.as_str()),
        ];
        assert(cell_views(cells@) =~= self.cells());
        cells
    }
}

} // verus!
