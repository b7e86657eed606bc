//! Variances of smooth one-form observables on refined spheres.

pub mod harmonic_laws;
pub mod harmonics;
pub mod norms;
pub mod observable_laws;
pub mod pointwise;
pub mod tables;

use crate::grouping::{
    are_ordered_groups, group_by_key, is_grouping, lemma_ordered_group, ordered_groups, IndexGroup,
};
use crate::hodge::HodgeBranchKind;
use crate::order::{comparable, extreme_or_infinity, find_extreme};
use crate::scalar::Scalar;
use crate::sphere_surface::SphereSurface;
use crate::text::{
    as_lines, count_text, decimal, join_lines, list_text, listed_numbers, signed_decimal,
    signed_text, string_views,
};
use tables::{
    SphereObservableFitSummaryRow, SphereObservableSummaryRow, SphereObservableVarianceRow,
};
use vstd::prelude::*;

verus! {

/// A prior whose observable variances are reported.
#[derive(Debug, Clone, Copy, PartialEq, Eq, PartialOrd, Ord, Structural)]
pub enum SphereBranchObservableModel {
    OrdinaryPotential,
    SpectrallyCorrected,
}

impl SphereBranchObservableModel {
    /// The name that stands for the variant in tables and labels.
    pub open spec fn name(self) -> Seq<char> {
        match self {
            SphereBranchObservableModel::OrdinaryPotential => "ordinary_potential"@,
            SphereBranchObservableModel::SpectrallyCorrected => "spectrally_corrected"@,
        }
    }

    /// The name as it is reported.
    pub fn as_str(self) -> (text: &'static str)
        ensures
            text@ == self.name(),
    {
        match self {
            SphereBranchObservableModel::OrdinaryPotential => "ordinary_potential",
            SphereBranchObservableModel::SpectrallyCorrected => "spectrally_corrected",
        }
    }

    /// The place of the model in the order of the models.
    pub open spec fn place(self) -> int {
        match self {
            SphereBranchObservableModel::OrdinaryPotential => 0,
            SphereBranchObservableModel::SpectrallyCorrected => 1,
        }
    }

    /// No two variants have the same name.
    pub proof fn lemma_names_distinct(
        left: SphereBranchObservableModel,
        right: SphereBranchObservableModel,
    )
        requires
            left.name() == right.name(),
        ensures
            left == right,
    {
        reveal_strlit("ordinary_potential");
        reveal_strlit("spectrally_corrected");
        assert("ordinary_potential"@.len() == 18);
        assert("spectrally_corrected"@.len() == 20);
    }
}

/// How observable variances are computed on refined spheres.
#[derive(Debug)]
pub struct SphereBranchObservableConvergenceConfig {
    pub levels: Vec<usize>,
    pub kappa: Scalar,
    pub tau: Scalar,
    pub lmax: usize,
    pub pointwise_analytic_lmax: usize,
}

/// The scalar one.
pub open spec fn one() -> Scalar {
    Scalar { bits: 0x3ff0_0000_0000_0000 }
}

impl Default for SphereBranchObservableConvergenceConfig {
    fn default() -> (config: Self)
        ensures
            config.levels@ == seq![1usize, 2, 3, 4, 5],
            config.kappa == one(),
            config.tau == one(),
            config.lmax == 3,
            config.pointwise_analytic_lmax == 400,
    {
        let levels: Vec<usize> = vec![1, 2, 3, 4, 5];
        assert(levels@ =~= seq![1usize, 2, 3, 4, 5]);
        SphereBranchObservableConvergenceConfig {
            levels,
            kappa: Scalar { bits: 0x3ff0_0000_0000_0000 },
            tau: Scalar { bits: 0x3ff0_0000_0000_0000 },
            lmax: 3,
            pointwise_analytic_lmax: 400,
        }
    }
}

impl SphereBranchObservableConvergenceConfig {
    /// A cheap configuration for quick runs.
    pub fn smoke() -> (config: Self)
        ensures
            config.levels@ == seq![1usize],
            config.kappa == one(),
            config.tau == one(),
            config.lmax == 1,
            config.pointwise_analytic_lmax == 8,
    {
        let levels: Vec<usize> = vec![1];
        assert(levels@ =~= seq![1usize]);
        SphereBranchObservableConvergenceConfig {
            levels,
            kappa: Scalar { bits: 0x3ff0_0000_0000_0000 },
            tau: Scalar { bits: 0x3ff0_0000_0000_0000 },
            lmax: 1,
            pointwise_analytic_lmax: 8,
        }
    }

    /// The configuration of the submitted thesis: one level finer than the default, which keeps
    /// interactive runs manageable.
    pub fn thesis_submitted() -> (config: Self)
        ensures
            config.levels@ == seq![1usize, 2, 3, 4, 5, 6],
            config.kappa == one(),
            config.tau == one(),
            config.lmax == 3,
            config.pointwise_analytic_lmax == 400,
    {
        let levels: Vec<usize> = vec![1, 2, 3, 4, 5, 6];
        assert(levels@ =~= seq![1usize, 2, 3, 4, 5, 6]);
        SphereBranchObservableConvergenceConfig {
            levels,
            kappa: Scalar { bits: 0x3ff0_0000_0000_0000 },
            tau: Scalar { bits: 0x3ff0_0000_0000_0000 },
            lmax: 3,
            pointwise_analytic_lmax: 400,
        }
    }

    /// What a configuration must not be, in the order of the tests, or nothing.
    pub open spec fn fault(&self) -> Option<Seq<char>> {
        if self.levels.len() == 0 {
            Some("at least one sphere refinement level is required"@)
        } else if !self.kappa.positive() {
            Some("kappa must be finite and positive"@)
        } else if !self.tau.positive() {
            Some("tau must be finite and positive"@)
        } else if self.lmax == 0 || self.lmax > 3 {
            Some("lmax must be in 1..=3 for the built-in real harmonics"@)
        } else if self.pointwise_analytic_lmax == 0 {
            Some("pointwise_analytic_lmax must be positive"@)
        } else {
            None
        }
    }
}

/// Tests a configuration.
pub fn validate_config(config: &SphereBranchObservableConvergenceConfig) -> (result: Result<
    (),
    String,
>)
    ensures
        match result {
            Ok(_) => config.fault() is None,
            Err(message) => config.fault() == Some(message@),
        },
{
    if config.levels.len() == 0 {
        return Err(String::from_str("at least one sphere refinement level is required"));
    }
    if !config.kappa.is_positive() {
        return Err(String::from_str("kappa must be finite and positive"));
    }
    if !config.tau.is_positive() {
        return Err(String::from_str("tau must be finite and positive"));
    }
    if config.lmax == 0 || config.lmax > 3 {
        return Err(String::from_str("lmax must be in 1..=3 for the built-in real harmonics"));
    }
    if config.pointwise_analytic_lmax == 0 {
        return Err(String::from_str("pointwise_analytic_lmax must be positive"));
    }
    Ok(())
}

/// The field of a harmonic in a branch of the Hodge decomposition.
#[derive(Debug, Clone, Copy, PartialEq, Eq, PartialOrd, Ord, Structural)]
pub struct SphereObservable {
    pub branch: HodgeBranchKind,
    pub ell: usize,
    pub m: i64,
}

impl SphereObservable {
    /// The name of the observable.
    pub open spec fn name(self) -> Seq<char> {
        self.branch.name() + "_l"@ + decimal(self.ell as nat) + "_m"@ + signed_decimal(
            self.m as int,
        )
    }

    pub fn id(self) -> (id: String)
        ensures
            id@ == self.name(),
    {
        let mut id = String::from_str(self.branch.as_str());
        id.append("_l");
        id.append(count_text(self.ell).as_str());
        id.append("_m");
        id.append(signed_text(self.m).as_str());
        id
    }
}

/// The eigenvalue of the Laplace operator on the harmonics of a degree.
pub fn lambda_for_ell(ell: usize) -> (lambda: usize)
    requires
        ell * (ell + 1) <= usize::MAX,
    ensures
        lambda == ell * (ell + 1),
{
    assert(ell + 1 <= usize::MAX) by (nonlinear_arith)
        requires
            ell * (ell + 1) <= usize::MAX,
            usize::MAX >= 2,
    ;
    ell * (ell + 1)
}

/// The branches in which priors and observables are reported.
pub open spec fn report_branches() -> Seq<HodgeBranchKind> {
    seq![HodgeBranchKind::Exact, HodgeBranchKind::Coexact]
}

/// The observables of one degree: the orders rise, and every order is taken in both branches.
pub open spec fn degree_observables(ell: nat) -> Seq<SphereObservable> {
    Seq::new(
        (2 * (2 * ell + 1)) as nat,
        |i: int|
            SphereObservable {
                branch: report_branches()[i % 2],
                ell: ell as usize,
                m: (i / 2 - ell) as i64,
            },
    )
}

/// The observables up to a degree.
pub open spec fn observable_list(lmax: nat) -> Seq<SphereObservable>
    decreases lmax,
{
    if lmax == 0 {
        Seq::empty()
    } else {
        observable_list((lmax - 1) as nat) + degree_observables(lmax)
    }
}

/// Lists the observables up to a degree.
pub fn observables(lmax: usize) -> (list: Vec<SphereObservable>)
    requires
        lmax <= 0x7fff_ffff,
    ensures
        list@ == observable_list(lmax as nat),
{
    let mut list: Vec<SphereObservable> = Vec::new();
    let mut done: usize = 0;
    while done < lmax
        invariant
            done <= lmax,
            lmax <= 0x7fff_ffff,
            list@ == observable_list(done as nat),
        decreases lmax - done,
    {
        let ell: usize = done + 1;
        let ghost before = list@;
        let mut m: i64 = -(ell as i64);
        assert(degree_observables(ell as nat).take(0) =~= Seq::empty());
        while m <= ell as i64
            invariant
                ell <= 0x7fff_ffff,
                -(ell as int) <= m <= ell + 1,
                list@ == before + degree_observables(ell as nat).take(2 * (m + ell)),
            decreases ell + 1 - m,
        {
            let ghost part = degree_observables(ell as nat);
            let ghost place = 2 * (m + ell);
            list.push(SphereObservable { branch: HodgeBranchKind::Exact, ell, m });
            list.push(SphereObservable { branch: HodgeBranchKind::Coexact, ell, m });
            proof {
                assert(place % 2 == 0 && (place + 1) % 2 == 1);
                assert(place / 2 == m + ell && (place + 1) / 2 == m + ell);
                assert(part[place] == (SphereObservable {
                    branch: HodgeBranchKind::Exact,
                    ell,
                    m,
                }));
                assert(part[place + 1] == (SphereObservable {
                    branch: HodgeBranchKind::Coexact,
                    ell,
                    m,
                }));
                assert(part.take(place + 2) =~= part.take(place).push(part[place]).push(
                    part[place + 1],
                ));
                assert(list@ =~= before + part.take(place + 2));
            }
            m = m + 1;
        }
        proof {
            let part = degree_observables(ell as nat);
            assert(part.take(2 * (m + ell)) =~= part);
        }
        done = ell;
    }
    list
}

/// There are `2 lmax (lmax + 2)` observables up to a degree: two for every order of every degree.
pub proof fn lemma_observable_count(lmax: nat)
    ensures
        observable_list(lmax).len() == 2 * lmax * (lmax + 2),
    decreases lmax,
{
    if lmax > 0 {
        let less = (lmax - 1) as nat;
        lemma_observable_count(less);
        assert(2 * less * (less + 2) + 2 * (2 * lmax + 1) == 2 * lmax * (lmax + 2))
            by (nonlinear_arith)
            requires
                less == lmax - 1,
        ;
    } else {
        assert(2 * lmax * (lmax + 2) == 0) by (nonlinear_arith)
            requires
                lmax == 0,
        ;
    }
}

/// Every observable up to degree three belongs to a harmonic, so that its field is defined.
pub proof fn lemma_observables_have_harmonics(lmax: nat, place: int)
    requires
        lmax <= 3,
        0 <= place < observable_list(lmax).len(),
    ensures
        harmonics::is_harmonic(
            observable_list(lmax)[place].ell as int,
            observable_list(lmax)[place].m as int,
        ),
        report_branches().contains(observable_list(lmax)[place].branch),
    decreases lmax,
{
    let before = observable_list((lmax - 1) as nat);
    if place < before.len() {
        lemma_observables_have_harmonics((lmax - 1) as nat, place);
    } else {
        let i = place - before.len();
        let observable = observable_list(lmax)[place];
        assert(observable == degree_observables(lmax)[i]);
        assert(observable.branch == report_branches()[i % 2]);
        assert(0 <= i / 2 <= 2 * lmax);
    }
}

/// The variance that an observable should have under a prior: that of its degree where the prior
/// lies in its branch, and none where it lies in another.
pub open spec fn target_variance(
    prior_branch: HodgeBranchKind,
    observable: SphereObservable,
    matched: Scalar,
) -> Scalar {
    if prior_branch == observable.branch {
        matched
    } else {
        Scalar { bits: 0 }
    }
}

/// Gives the variance that an observable should have under a prior.
pub fn analytic_target_variance(
    prior_branch: HodgeBranchKind,
    observable: SphereObservable,
    matched: Scalar,
) -> (variance: Scalar)
    ensures
        variance == target_variance(prior_branch, observable, matched),
{
    if prior_branch == observable.branch {
        matched
    } else {
        Scalar { bits: 0 }
    }
}

/// A mesh of the sphere by its sizes.
#[derive(Debug, Clone, Copy, PartialEq, Eq, Structural)]
pub struct SphereMesh {
    pub refinement_level: usize,
    pub h: Scalar,
    pub vertex_count: usize,
    pub edge_count: usize,
    pub cell_count: usize,
}

/// Counts the simplices of a surface. The mesh width is given.
pub fn measure_surface(refinement_level: usize, h: Scalar, surface: &SphereSurface) -> (mesh:
    SphereMesh)
    ensures
        mesh.refinement_level == refinement_level,
        mesh.h == h,
        mesh.vertex_count == surface.positions.len(),
        mesh.edge_count == surface.edges.len(),
        mesh.cell_count == surface.faces.len(),
{
    SphereMesh {
        refinement_level,
        h,
        vertex_count: surface.positions.len(),
        edge_count: surface.edges.len(),
        cell_count: surface.faces.len(),
    }
}

/// A model of a prior with the branch that it is a prior of.
#[derive(Debug, Clone, Copy, PartialEq, Eq, Structural)]
pub struct PriorCase {
    pub model: SphereBranchObservableModel,
    pub prior_branch: HodgeBranchKind,
}

/// Lists the priors that are reported on every mesh.
pub fn prior_cases() -> (cases: Vec<PriorCase>)
    ensures
        cases@ == seq![
            PriorCase {
                model: SphereBranchObservableModel::OrdinaryPotential,
                prior_branch: HodgeBranchKind::Exact,
            },
            PriorCase {
                model: SphereBranchObservableModel::OrdinaryPotential,
                prior_branch: HodgeBranchKind::Coexact,
            },
            PriorCase {
                model: SphereBranchObservableModel::SpectrallyCorrected,
                prior_branch: HodgeBranchKind::Exact,
            },
            PriorCase {
                model: SphereBranchObservableModel::SpectrallyCorrected,
                prior_branch: HodgeBranchKind::Coexact,
            },
        ],
{
    vec![
        PriorCase {
            model: SphereBranchObservableModel::OrdinaryPotential,
            prior_branch: HodgeBranchKind::Exact,
        },
        PriorCase {
            model: SphereBranchObservableModel::OrdinaryPotential,
            prior_branch: HodgeBranchKind::Coexact,
        },
        PriorCase {
            model: SphereBranchObservableModel::SpectrallyCorrected,
            prior_branch: HodgeBranchKind::Exact,
        },
        PriorCase {
            model: SphereBranchObservableModel::SpectrallyCorrected,
            prior_branch: HodgeBranchKind::Coexact,
        },
    ]
}

/// A prior with its sizes and the times that its variances took.
#[derive(Debug, Clone, Copy, PartialEq, Eq, Structural)]
pub struct PriorReport {
    pub model: SphereBranchObservableModel,
    pub prior_branch: HodgeBranchKind,
    pub latent_dofs: usize,
    pub precision_nnz: usize,
    pub factor_nnz: usize,
    pub build_seconds: Scalar,
    pub factor_seconds: Scalar,
    pub variance_seconds: Scalar,
}

/// The message for a solve that returned another number of variances than was asked for.
pub open spec fn solve_message(returned: nat, smooth: nat, pointwise: nat) -> Seq<char> {
    "variance solve returned "@ + decimal(returned) + " rows for "@ + decimal(smooth)
        + " smooth + "@ + decimal(pointwise) + " pointwise rows"@
}

/// Parts the variances of a solve into those of the smooth observables, which come first, and
/// those of the components at points.
pub fn split_variances(values: &Vec<Scalar>, smooth_count: usize, pointwise_count: usize) -> (result:
    Result<(Vec<Scalar>, Vec<Scalar>), String>)
    ensures
        match result {
            Ok((smooth, pointwise)) => {
                &&& smooth.len() == smooth_count
                &&& pointwise.len() == pointwise_count
                &&& values@ == smooth@ + pointwise@
            },
            Err(message) => values.len() != smooth_count + pointwise_count && message@
                == solve_message(
                values@.len(),
                smooth_count as nat,
                pointwise_count as nat,
            ),
        },
{
    if smooth_count > values.len() || values.len() - smooth_count != pointwise_count {
        let mut message = String::from_str("variance solve returned ");
        message.append(count_text(values.len()).as_str());
        message.append(" rows for ");
        message.append(count_text(smooth_count).as_str());
        message.append(" smooth + ");
        message.append(count_text(pointwise_count).as_str());
        message.append(" pointwise rows");
        return Err(message);
    }
    let mut smooth: Vec<Scalar> = Vec::new();
    let mut pointwise: Vec<Scalar> = Vec::new();
    let mut index: usize = 0;
    while index < values.len()
        invariant
            index <= values.len(),
            smooth_count <= values.len(),
            smooth.len() == if index < smooth_count { index } else { smooth_count },
            pointwise.len() == index - smooth.len(),
            values@.take(index as int) == smooth@ + pointwise@,
        decreases values.len() - index,
    {
        assert(values@.take(index + 1) =~= values@.take(index as int).push(values@[index as int]));
        if index < smooth_count {
            smooth.push(values[index]);
            assert(pointwise@ =~= Seq::empty());
        } else {
            pointwise.push(values[index]);
        }
        assert(values@.take(index + 1) =~= smooth@ + pointwise@);
        index = index + 1;
    }
    assert(values@.take(index as int) =~= values@);
    Ok((smooth, pointwise))
}

/// The variance of an observable with its errors: the target is the variance of the degree where
/// the branches match, and the scale is that variance kept from zero.
#[derive(Debug, Clone, Copy, PartialEq, Eq, Structural)]
pub struct SmoothVariance {
    pub model_variance: Scalar,
    pub matched_variance: Scalar,
    pub target_scale: Scalar,
    pub absolute_error: Scalar,
    pub scaled_error: Scalar,
}

/// What a row shows: the branch of the prior, or what leaks from it.
pub open spec fn kind_name(matched: bool) -> Seq<char> {
    if matched {
        "matched"@
    } else {
        "leakage"@
    }
}

/// Whether a row reports the variance of an observable.
pub open spec fn reports_observable(
    mesh: SphereMesh,
    report: PriorReport,
    observable: SphereObservable,
    row_nnz: usize,
    variance: SmoothVariance,
    row: SphereObservableVarianceRow,
) -> bool {
    &&& row.refinement_level == mesh.refinement_level
    &&& row.h == mesh.h
    &&& row.vertex_count == mesh.vertex_count
    &&& row.edge_count == mesh.edge_count
    &&& row.cell_count == mesh.cell_count
    &&& row.model == report.model
    &&& row.prior_branch == report.prior_branch
    &&& row.observable_branch == observable.branch
    &&& row.kind@ == kind_name(report.prior_branch == observable.branch)
    &&& row.ell == observable.ell
    &&& row.m == observable.m
    &&& row.observable_id@ == observable.name()
    &&& row.latent_dofs == report.latent_dofs
    &&& row.precision_nnz == report.precision_nnz
    &&& row.factor_nnz == report.factor_nnz
    &&& row.row_nnz == row_nnz
    &&& row.model_variance == variance.model_variance
    &&& row.analytic_variance == target_variance(
        report.prior_branch,
        observable,
        variance.matched_variance,
    )
    &&& row.target_scale == variance.target_scale
    &&& row.absolute_error == variance.absolute_error
    &&& row.scaled_error == variance.scaled_error
    &&& row.build_seconds == report.build_seconds
    &&& row.factor_seconds == report.factor_seconds
    &&& row.variance_seconds == report.variance_seconds
}

/// Makes the rows of the smooth observables under a prior.
pub fn variance_rows_for_prior(
    mesh: &SphereMesh,
    report: &PriorReport,
    observables: &Vec<SphereObservable>,
    row_nnz: &Vec<usize>,
    variances: &Vec<SmoothVariance>,
) -> (rows: Vec<SphereObservableVarianceRow>)
    requires
        row_nnz.len() >= observables.len(),
        variances.len() >= observables.len(),
    ensures
        rows.len() == observables.len(),
        forall|i: int|
            0 <= i < rows.len() ==> reports_observable(
                *mesh,
                *report,
                observables@[i],
                row_nnz@[i],
                variances@[i],
                #[trigger] rows@[i],
            ),
{
    let mut rows: Vec<SphereObservableVarianceRow> = Vec::new();
    let mut index: usize = 0;
    while index < observables.len()
        invariant
            index <= observables.len(),
            row_nnz.len() >= observables.len(),
            variances.len() >= observables.len(),
            rows.len() == index,
            forall|i: int|
                0 <= i < rows.len() ==> reports_observable(
                    *mesh,
                    *report,
                    observables@[i],
                    row_nnz@[i],
                    variances@[i],
                    #[trigger] rows@[i],
                ),
        decreases observables.len() - index,
    {
        let observable: SphereObservable = observables[index];
        let variance: SmoothVariance = variances[index];
        let kind: &'static str = if report.prior_branch == observable.branch {
            "matched"
        } else {
            "leakage"
        };
        rows.push(
            SphereObservableVarianceRow {
                refinement_level: mesh.refinement_level,
                h: mesh.h,
                vertex_count: mesh.vertex_count,
                edge_count: mesh.edge_count,
                cell_count: mesh.cell_count,
                model: report.model,
                prior_branch: report.prior_branch,
                observable_branch: observable.branch,
                kind,
                ell: observable.ell,
                m: observable.m,
                observable_id: observable.id(),
                latent_dofs: report.latent_dofs,
                precision_nnz: report.precision_nnz,
                factor_nnz: report.factor_nnz,
                row_nnz: row_nnz[index],
                model_variance: variance.model_variance,
                analytic_variance: analytic_target_variance(
                    report.prior_branch,
                    observable,
                    variance.matched_variance,
                ),
                target_scale: variance.target_scale,
                absolute_error: variance.absolute_error,
                scaled_error: variance.scaled_error,
                build_seconds: report.build_seconds,
                factor_seconds: report.factor_seconds,
                variance_seconds: report.variance_seconds,
            },
        );
        index = index + 1;
    }
    rows
}

/// The place of a branch in the order of the branches.
pub open spec fn branch_place(branch: HodgeBranchKind) -> int {
    match branch {
        HodgeBranchKind::Exact => 0,
        HodgeBranchKind::Coexact => 1,
        HodgeBranchKind::Harmonic => 2,
    }
}

pub(crate) fn place_of_branch(branch: HodgeBranchKind) -> (place: usize)
    ensures
        place == branch_place(branch),
{
    match branch {
        HodgeBranchKind::Exact => 0,
        HodgeBranchKind::Coexact => 1,
        HodgeBranchKind::Harmonic => 2,
    }
}

pub(crate) fn place_of_model(model: SphereBranchObservableModel) -> (place: usize)
    ensures
        place == model.place(),
{
    match model {
        SphereBranchObservableModel::OrdinaryPotential => 0,
        SphereBranchObservableModel::SpectrallyCorrected => 1,
    }
}

/// A number that orders models and branches: by model, then by the branch of the prior, then by
/// the branch of the observable.
pub open spec fn observable_code(
    model: SphereBranchObservableModel,
    prior_branch: HodgeBranchKind,
    observable_branch: HodgeBranchKind,
) -> usize {
    ((model.place() * 3 + branch_place(prior_branch)) * 3 + branch_place(
        observable_branch,
    )) as usize
}

/// The code tells models and branches apart.
pub proof fn lemma_observable_code(
    left: (SphereBranchObservableModel, HodgeBranchKind, HodgeBranchKind),
    right: (SphereBranchObservableModel, HodgeBranchKind, HodgeBranchKind),
)
    ensures
        observable_code(left.0, left.1, left.2) == observable_code(right.0, right.1, right.2)
            <==> left == right,
{
}

fn code_of(
    model: SphereBranchObservableModel,
    prior_branch: HodgeBranchKind,
    observable_branch: HodgeBranchKind,
) -> (code: usize)
    ensures
        code == observable_code(model, prior_branch, observable_branch),
{
    (place_of_model(model) * 3 + place_of_branch(prior_branch)) * 3 + place_of_branch(
        observable_branch,
    )
}

/// The keys by which rows are summed up: by level, model and branches, which settle the kind.
pub open spec fn summary_keys(rows: Seq<SphereObservableVarianceRow>) -> Seq<(usize, usize)> {
    rows.map_values(
        |row: SphereObservableVarianceRow|
            (
                row.refinement_level,
                observable_code(row.model, row.prior_branch, row.observable_branch),
            ),
    )
}

/// Whether the kind of every row is the one that its branches settle.
pub open spec fn rows_are_consistent(rows: Seq<SphereObservableVarianceRow>) -> bool {
    forall|i: int|
        0 <= i < rows.len() ==> (#[trigger] rows[i]).kind@ == kind_name(
            rows[i].prior_branch == rows[i].observable_branch,
        )
}

/// Groups the rows that are summed up together, in the order of level, model and branches.
pub fn summary_groups(rows: &Vec<SphereObservableVarianceRow>) -> (groups: Vec<IndexGroup>)
    requires
        rows_are_consistent(rows@),
    ensures
        is_grouping(summary_keys(rows@), groups@),
{
    let mut keys: Vec<(usize, usize)> = Vec::new();
    let mut index: usize = 0;
    while index < rows.len()
        invariant
            index <= rows.len(),
            keys@ == summary_keys(rows@).take(index as int),
        decreases rows.len() - index,
    {
        let row: &SphereObservableVarianceRow = &rows[index];
        keys.push(
            (row.refinement_level, code_of(row.model, row.prior_branch, row.observable_branch)),
        );
        assert(summary_keys(rows@).take(index + 1) =~= summary_keys(rows@).take(
            index as int,
        ).push(summary_keys(rows@)[index as int]));
        index = index + 1;
    }
    assert(keys@ =~= summary_keys(rows@));
    group_by_key(&keys)
}

/// The statistics of the variances and errors of a group.
#[derive(Debug, Clone, Copy, PartialEq, Eq, Structural)]
pub struct ErrorStatistics {
    pub mean_variance: Scalar,
    pub median_variance: Scalar,
    pub rms_error: Scalar,
    pub median_error: Scalar,
}

/// The scaled errors of a group.
pub open spec fn scaled_errors(rows: Seq<SphereObservableVarianceRow>, members: Seq<usize>) -> Seq<
    Scalar,
> {
    members.map_values(|member: usize| rows[member as int].scaled_error)
}

/// Lists the values whose extremes a group reports.
fn list_scaled_errors(rows: &Vec<SphereObservableVarianceRow>, members: &Vec<usize>) -> (values: Vec<
    Scalar,
>)
    requires
        forall|i: int| 0 <= i < members.len() ==> #[trigger] members@[i] < rows.len(),
    ensures
        values@ == scaled_errors(rows@, members@),
{
    let mut values: Vec<Scalar> = Vec::new();
    while values.len() < members.len()
        invariant
            values.len() <= members.len(),
            forall|i: int| 0 <= i < members.len() ==> #[trigger] members@[i] < rows.len(),
            forall|i: int|
                0 <= i < values.len() ==> #[trigger] values@[i] == scaled_errors(
                    rows@,
                    members@,
                )[i],
        decreases members.len() - values.len(),
    {
        let member: usize = members[values.len()];
        values.push(rows[member].scaled_error);
    }
    assert(values@ =~= scaled_errors(rows@, members@));
    values
}

/// Makes the row that sums up a group of rows.
pub fn summary_row(
    rows: &Vec<SphereObservableVarianceRow>,
    members: &Vec<usize>,
    statistics: ErrorStatistics,
) -> (row: SphereObservableSummaryRow)
    requires
        members.len() > 0,
        forall|i: int| 0 <= i < members.len() ==> #[trigger] members@[i] < rows.len(),
    ensures
        row.refinement_level == rows@[members@[0] as int].refinement_level,
        row.h == rows@[members@[0] as int].h,
        row.model == rows@[members@[0] as int].model,
        row.prior_branch == rows@[members@[0] as int].prior_branch,
        row.observable_branch == rows@[members@[0] as int].observable_branch,
        row.kind@ == rows@[members@[0] as int].kind@,
        row.count == members.len(),
        row.mean_model_variance == statistics.mean_variance,
        row.median_model_variance == statistics.median_variance,
        row.rms_scaled_error == statistics.rms_error,
        row.median_scaled_error == statistics.median_error,
        row.max_scaled_error == extreme_or_infinity(scaled_errors(rows@, members@), false),
{
    let errors = list_scaled_errors(rows, members);
    let first: &SphereObservableVarianceRow = &rows[members[0]];
    SphereObservableSummaryRow {
        refinement_level: first.refinement_level,
        h: first.h,
        model: first.model,
        prior_branch: first.prior_branch,
        observable_branch: first.observable_branch,
        kind: first.kind,
        count: members.len(),
        mean_model_variance: statistics.mean_variance,
        median_model_variance: statistics.median_variance,
        rms_scaled_error: statistics.rms_error,
        median_scaled_error: statistics.median_error,
        max_scaled_error: find_extreme(&errors, false),
    }
}

/// The keys by which summaries are fitted: by model and branches.
pub open spec fn fit_keys(rows: Seq<SphereObservableSummaryRow>) -> Seq<(usize, usize)> {
    rows.map_values(
        |row: SphereObservableSummaryRow|
            (0usize, observable_code(row.model, row.prior_branch, row.observable_branch)),
    )
}

/// The mesh widths of summaries.
pub open spec fn summary_widths(rows: Seq<SphereObservableSummaryRow>) -> Seq<Scalar> {
    rows.map_values(|row: SphereObservableSummaryRow| row.h)
}

/// Whether the kind of every summary is the one that its branches settle.
pub open spec fn summaries_are_consistent(rows: Seq<SphereObservableSummaryRow>) -> bool {
    forall|i: int|
        0 <= i < rows.len() ==> (#[trigger] rows[i]).kind@ == kind_name(
            rows[i].prior_branch == rows[i].observable_branch,
        )
}

/// Groups the summaries that are fitted together, in the order of model and branches, each group
/// by mesh width, finest first. One summary alone is not fitted.
pub fn fit_groups(rows: &Vec<SphereObservableSummaryRow>) -> (groups: Vec<IndexGroup>)
    requires
        summaries_are_consistent(rows@),
        comparable(summary_widths(rows@)),
    ensures
        are_ordered_groups(
            fit_keys(rows@),
            summary_widths(rows@).map_values(|width: Scalar| width.rank()),
            groups@,
        ),
{
    let mut keys: Vec<(usize, usize)> = Vec::new();
    let mut widths: Vec<Scalar> = Vec::new();
    let mut index: usize = 0;
    while index < rows.len()
        invariant
            index <= rows.len(),
            keys@ == fit_keys(rows@).take(index as int),
            widths@ == summary_widths(rows@).take(index as int),
        decreases rows.len() - index,
    {
        let row: &SphereObservableSummaryRow = &rows[index];
        keys.push((0, code_of(row.model, row.prior_branch, row.observable_branch)));
        widths.push(row.h);
        proof {
            assert(fit_keys(rows@).take(index + 1) =~= fit_keys(rows@).take(index as int).push(
                fit_keys(rows@)[index as int],
            ));
            assert(summary_widths(rows@).take(index + 1) =~= summary_widths(rows@).take(
                index as int,
            ).push(summary_widths(rows@)[index as int]));
        }
        index = index + 1;
    }
    assert(keys@ =~= fit_keys(rows@));
    assert(widths@ =~= summary_widths(rows@));
    ordered_groups(&keys, &widths)
}

/// The summaries of a fitted group agree in model and branches.
pub proof fn lemma_fit_group(
    rows: Seq<SphereObservableSummaryRow>,
    groups: Seq<IndexGroup>,
    group: int,
    left: int,
    right: int,
)
    requires
        are_ordered_groups(
            fit_keys(rows),
            summary_widths(rows).map_values(|width: Scalar| width.rank()),
            groups,
        ),
        0 <= group < groups.len(),
        0 <= left < groups[group].members.len(),
        0 <= right < groups[group].members.len(),
    ensures
        rows[groups[group].members@[left] as int].model
            == rows[groups[group].members@[right] as int].model,
        rows[groups[group].members@[left] as int].prior_branch
            == rows[groups[group].members@[right] as int].prior_branch,
        rows[groups[group].members@[left] as int].observable_branch
            == rows[groups[group].members@[right] as int].observable_branch,
{
    let ranks = summary_widths(rows).map_values(|width: Scalar| width.rank());
    lemma_ordered_group(fit_keys(rows), ranks, groups, group);
    let a = rows[groups[group].members@[left] as int];
    let b = rows[groups[group].members@[right] as int];
    assert(fit_keys(rows)[groups[group].members@[left] as int] == groups[group].key);
    assert(fit_keys(rows)[groups[group].members@[right] as int] == groups[group].key);
    lemma_observable_code(
        (a.model, a.prior_branch, a.observable_branch),
        (b.model, b.prior_branch, b.observable_branch),
    );
}

/// The names and expectations of the two rows of a fit.
pub open spec fn fit_texts(matched: bool, slope: bool) -> (Seq<char>, Seq<char>, Seq<char>) {
    let status = if matched {
        "variance_convergence_diagnostic"@
    } else {
        "leakage_diagnostic"@
    };
    if slope {
        if matched {
            (
                "loglog_slope_matched_rms_relative_error_vs_h"@,
                "positive under variance convergence"@,
                status,
            )
        } else {
            (
                "loglog_slope_leakage_rms_ratio_vs_h"@,
                "positive if leakage decays; finest value should be small"@,
                status,
            )
        }
    } else if matched {
        ("finest_rms_relative_error"@, "small on the finest mesh"@, status)
    } else {
        ("finest_rms_leakage_ratio"@, "small on the finest mesh"@, status)
    }
}

/// Whether a row reports a value of a fit.
pub open spec fn reports_fit(
    summary: SphereObservableSummaryRow,
    slope: bool,
    value: Scalar,
    row: SphereObservableFitSummaryRow,
) -> bool {
    let texts = fit_texts(summary.kind@ == "matched"@, slope);
    &&& row.model == summary.model
    &&& row.prior_branch == summary.prior_branch
    &&& row.observable_branch == summary.observable_branch
    &&& row.kind@ == summary.kind@
    &&& row.diagnostic@ == texts.0
    &&& row.value == value
    &&& row.expected@ == texts.1
    &&& row.status@ == texts.2
}

fn fit_row(summary: &SphereObservableSummaryRow, slope: bool, value: Scalar) -> (row:
    SphereObservableFitSummaryRow)
    ensures
        reports_fit(*summary, slope, value, row),
{
    let matched: bool = String::from_str(summary.kind) == String::from_str("matched");
    let (diagnostic, expected): (&str, &str) = if slope {
        if matched {
            (
                "loglog_slope_matched_rms_relative_error_vs_h",
                "positive under variance convergence",
            )
        } else {
            (
                "loglog_slope_leakage_rms_ratio_vs_h",
                "positive if leakage decays; finest value should be small",
            )
        }
    } else if matched {
        ("finest_rms_relative_error", "small on the finest mesh")
    } else {
        ("finest_rms_leakage_ratio", "small on the finest mesh")
    };
    let status: &str = if matched {
        "variance_convergence_diagnostic"
    } else {
        "leakage_diagnostic"
    };
    SphereObservableFitSummaryRow {
        model: summary.model,
        prior_branch: summary.prior_branch,
        observable_branch: summary.observable_branch,
        kind: summary.kind,
        diagnostic: String::from_str(diagnostic),
        value,
        expected: String::from_str(expected),
        status: String::from_str(status),
    }
}

/// Makes the two rows of a fit: the slope of the errors over the mesh width, and the error on the
/// finest mesh, which is the first of the group.
pub fn fit_summary_rows(
    rows: &Vec<SphereObservableSummaryRow>,
    members: &Vec<usize>,
    slope: Scalar,
) -> (pair: Vec<SphereObservableFitSummaryRow>)
    requires
        members.len() > 0,
        members@[0] < rows.len(),
    ensures
        pair.len() == 2,
        reports_fit(rows@[members@[0] as int], true, slope, pair@[0]),
        reports_fit(
            rows@[members@[0] as int],
            false,
            rows@[members@[0] as int].rms_scaled_error,
            pair@[1],
        ),
{
    let finest: &SphereObservableSummaryRow = &rows[members[0]];
    let mut pair: Vec<SphereObservableFitSummaryRow> = Vec::new();
    pair.push(fit_row(finest, true, slope));
    pair.push(fit_row(finest, false, finest.rms_scaled_error));
    pair
}

/// The lines of the report, where the parameters of the prior are given as texts.
pub open spec fn report_lines(
    config: SphereBranchObservableConvergenceConfig,
    kappa: Seq<char>,
    tau: Seq<char>,
) -> Seq<Seq<char>> {
    seq![
        "# Sphere Exact/Coexact Observable Convergence"@,
        ""@,
        "- levels: "@ + ("["@ + listed_numbers(config.levels@) + "]"@),
        "- kappa: "@ + kappa,
        "- tau: "@ + tau,
        "- alpha: 2"@,
        "- lmax: "@ + decimal(config.lmax as nat),
        "- pointwise_analytic_lmax: "@ + decimal(config.pointwise_analytic_lmax as nat),
        "- observables: normalized real vector spherical harmonics dY/sqrt(lambda) and star dY/sqrt(lambda)"@,
        "- computation: transformed marginal variances by sparse Cholesky factorization plus RHS solves; no full transformed covariance"@,
        "- timings: build_seconds includes branch-prior construction and internal validation; factor_seconds is the experiment factorization reused for variance RHS solves"@,
        "- matched rows compare exact-on-exact and coexact-on-coexact variances to analytic alpha=2 branch variances"@,
        "- leakage rows report exact observables under coexact priors and coexact observables under exact priors, scaled by the matched analytic variance"@,
        ""@,
        "## Output Files"@,
        "- observable_variance.csv, summary.csv, fit_summary.csv: thesis-primary smooth exact/coexact mode observables with analytic variance targets"@,
        "- pointwise_variance.csv, pointwise_summary.csv, pointwise_fit_summary.csv: ambient x/y/z Whitney-reconstructed barycenter field-value diagnostics"@,
        ""@,
        "## Pointwise Diagnostic"@,
        "- requested points: the 8 normalized cube-corner directions (+/-1,+/-1,+/-1)/sqrt(3)"@,
        "- evaluation points: nearest unique triangle barycenters on each mesh, normalized before analytic evaluation"@,
        "- analytic pointwise targets: diagonal ambient-component variances from the matching exact or coexact vector-spherical-harmonic branch kernel"@,
        "- interpretation: pointwise ambient values are a harder local-field diagnostic, not a pure exact/coexact observable family and not a replacement for the smooth-mode convergence result"@,
    ]
}

/// Writes the report.
pub fn readme_text(
    config: &SphereBranchObservableConvergenceConfig,
    kappa: &str,
    tau: &str,
) -> (text: String)
    ensures
        text@ == as_lines(report_lines(*config, kappa@, tau@)),
{
    let mut level_line = String::from_str("- levels: ");
    level_line.append(list_text(&config.levels).as_str());
    let mut kappa_line = String::from_str("- kappa: ");
    kappa_line.append(kappa);
    let mut tau_line = String::from_str("- tau: ");
    tau_line.append(tau);
    let mut degree_line = String::from_str("- lmax: ");
    degree_line.append(count_text(config.lmax).as_str());
    let mut analytic_line = String::from_str("- pointwise_analytic_lmax: ");
    analytic_line.append(count_text(config.pointwise_analytic_lmax).as_str());
    let lines: Vec<String> = vec![
        String::from_str("# Sphere Exact/Coexact Observable Convergence"),
        String::from_str(""),
        level_line,
        kappa_line,
        tau_line,
        String::from_str("- alpha: 2"),
        degree_line,
        analytic_line,
        String::from_str(
            "- observables: normalized real vector spherical harmonics dY/sqrt(lambda) and star dY/sqrt(lambda)",
        ),
        String::from_str(
            "- computation: transformed marginal variances by sparse Cholesky factorization plus RHS solves; no full transformed covariance",
        ),
        String::from_str(
            "- timings: build_seconds includes branch-prior construction and internal validation; factor_seconds is the experiment factorization reused for variance RHS solves",
        ),
        String::from_str(
            "- matched rows compare exact-on-exact and coexact-on-coexact variances to analytic alpha=2 branch variances",
        ),
        String::from_str(
            "- leakage rows report exact observables under coexact priors and coexact observables under exact priors, scaled by the matched analytic variance",
        ),
        String::from_str(""),
        String::from_str("## Output Files"),
        String::from_str(
            "- observable_variance.csv, summary.csv, fit_summary.csv: thesis-primary smooth exact/coexact mode observables with analytic variance targets",
        ),
        String::from_str(
            "- pointwise_variance.csv, pointwise_summary.csv, pointwise_fit_summary.csv: ambient x/y/z Whitney-reconstructed barycenter field-value diagnostics",
        ),
        String::from_str(""),
        String::from_str("## Pointwise Diagnostic"),
        String::from_str(
            "- requested points: the 8 normalized cube-corner directions (+/-1,+/-1,+/-1)/sqrt(3)",
        ),
        String::from_str(
            "- evaluation points: nearest unique triangle barycenters on each mesh, normalized before analytic evaluation",
        ),
        String::from_str(
            "- analytic pointwise targets: diagonal ambient-component variances from the matching exact or coexact vector-spherical-harmonic branch kernel",
        ),
        String::from_str(
            "- interpretation: pointwise ambient values are a harder local-field diagnostic, not a pure exact/coexact observable family and not a replacement for the smooth-mode convergence result",
        ),
    ];
    assert(string_views(lines@) =~= report_lines(*config, kappa@, tau@));
    join_lines(&lines)
}

} // verus!
