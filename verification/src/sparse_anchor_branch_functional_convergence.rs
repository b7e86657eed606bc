//! Functional variances of full and decomposed one-form priors on refined cubes.

pub mod functional_laws;
pub mod tables;

use crate::grouping::{
    group_by_key, is_grouping, is_ranked, lists_members, order_by_level, IndexGroup,
};
use crate::hodge::HodgeBranchKind;
use crate::index_set::strictly_increasing;
use crate::order::{
    comparable, extreme_or_infinity, find_extreme, is_first_least, least_place, running_least,
};
use crate::reconstruction::{copy_row, BarycenterReconstruction, WeightedEntry};
use crate::scalar::Scalar;
use crate::text::{
    as_lines, count_text, decimal, join_lines, lemma_padded_order, list_text, listed_numbers,
    string_views, text_before, three_digit_text, zero_padded,
};
use tables::{
    BranchFunctionalFitSummaryRow, BranchFunctionalSummaryRow, BranchFunctionalVarianceRow,
};
use vstd::prelude::*;

verus! {

/// A prior whose functional variances are reported.
#[derive(Debug, Clone, Copy, PartialEq, Eq, PartialOrd, Ord, Structural)]
pub enum BranchFunctionalModel {
    BaselineHodgeMatern,
    FormMatern,
    PotentialMatern,
}

impl BranchFunctionalModel {
    /// The name that stands for the variant in tables and labels.
    pub open spec fn name(self) -> Seq<char> {
        match self {
            BranchFunctionalModel::BaselineHodgeMatern => "baseline_hodge_matern"@,
            BranchFunctionalModel::FormMatern => "form_matern"@,
            BranchFunctionalModel::PotentialMatern => "potential_matern"@,
        }
    }

    /// The name as it is reported.
    pub fn as_str(self) -> (text: &'static str)
        ensures
            text@ == self.name(),
    {
        match self {
            BranchFunctionalModel::BaselineHodgeMatern => "baseline_hodge_matern",
            BranchFunctionalModel::FormMatern => "form_matern",
            BranchFunctionalModel::PotentialMatern => "potential_matern",
        }
    }

    /// The place of the model in the order of the models.
    pub open spec fn place(self) -> int {
        match self {
            BranchFunctionalModel::BaselineHodgeMatern => 0,
            BranchFunctionalModel::FormMatern => 1,
            BranchFunctionalModel::PotentialMatern => 2,
        }
    }

    /// No two variants have the same name.
    pub proof fn lemma_names_distinct(left: BranchFunctionalModel, right: BranchFunctionalModel)
        requires
            left.name() == right.name(),
        ensures
            left == right,
    {
        reveal_strlit("baseline_hodge_matern");
        reveal_strlit("form_matern");
        reveal_strlit("potential_matern");
        assert("baseline_hodge_matern"@.len() == 21);
        assert("form_matern"@.len() == 11);
        assert("potential_matern"@.len() == 16);
    }
}

/// The part of a one-form that a prior describes.
#[derive(Debug, Clone, Copy, PartialEq, Eq, PartialOrd, Ord, Structural)]
pub enum BranchFunctionalComponent {
    Full1Form,
    Exact,
    Coexact,
    JointTotal,
}

impl BranchFunctionalComponent {
    /// The name that stands for the variant in tables and labels.
    pub open spec fn name(self) -> Seq<char> {
        match self {
            BranchFunctionalComponent::Full1Form => "full_1form"@,
            BranchFunctionalComponent::Exact => "exact"@,
            BranchFunctionalComponent::Coexact => "coexact"@,
            BranchFunctionalComponent::JointTotal => "joint_total"@,
        }
    }

    /// The name as it is reported.
    pub fn as_str(self) -> (text: &'static str)
        ensures
            text@ == self.name(),
    {
        match self {
            BranchFunctionalComponent::Full1Form => "full_1form",
            BranchFunctionalComponent::Exact => "exact",
            BranchFunctionalComponent::Coexact => "coexact",
            BranchFunctionalComponent::JointTotal => "joint_total",
        }
    }

    /// The place of the component in the order of the components.
    pub open spec fn place(self) -> int {
        match self {
            BranchFunctionalComponent::Full1Form => 0,
            BranchFunctionalComponent::Exact => 1,
            BranchFunctionalComponent::Coexact => 2,
            BranchFunctionalComponent::JointTotal => 3,
        }
    }

    /// No two variants have the same name.
    pub proof fn lemma_names_distinct(
        left: BranchFunctionalComponent,
        right: BranchFunctionalComponent,
    )
        requires
            left.name() == right.name(),
        ensures
            left == right,
    {
        reveal_strlit("full_1form");
        reveal_strlit("exact");
        reveal_strlit("coexact");
        reveal_strlit("joint_total");
        assert("full_1form"@.len() == 10);
        assert("exact"@.len() == 5);
        assert("coexact"@.len() == 7);
        assert("joint_total"@.len() == 11);
    }

    /// Lists the branches of the Hodge decomposition that make up the component. The full
    /// one-form is not made up of branches.
    pub fn branches(self) -> (result: Result<Vec<HodgeBranchKind>, String>)
        ensures
            match result {
                Ok(branches) => self != BranchFunctionalComponent::Full1Form && branches@
                    == self.parts(),
                Err(message) => self == BranchFunctionalComponent::Full1Form && message@
                    == FULL_COMPONENT_MESSAGE@,
            },
    {
        match self {
            BranchFunctionalComponent::Exact => {
                let branches = vec![HodgeBranchKind::Exact];
                assert(branches@ =~= self.parts());
                Ok(branches)
            },
            BranchFunctionalComponent::Coexact => {
                let branches = vec![HodgeBranchKind::Coexact];
                assert(branches@ =~= self.parts());
                Ok(branches)
            },
            BranchFunctionalComponent::JointTotal => {
                let branches = vec![HodgeBranchKind::Exact, HodgeBranchKind::Coexact];
                assert(branches@ =~= self.parts());
                Ok(branches)
            },
            BranchFunctionalComponent::Full1Form => Err(String::from_str(FULL_COMPONENT_MESSAGE)),
        }
    }

    /// The branches that make up the component.
    pub open spec fn parts(self) -> Seq<HodgeBranchKind> {
        match self {
            BranchFunctionalComponent::Full1Form => Seq::empty(),
            BranchFunctionalComponent::Exact => seq![HodgeBranchKind::Exact],
            BranchFunctionalComponent::Coexact => seq![HodgeBranchKind::Coexact],
            BranchFunctionalComponent::JointTotal => seq![
                HodgeBranchKind::Exact,
                HodgeBranchKind::Coexact,
            ],
        }
    }
}

/// Says that the full one-form is not made up of branches.
pub const FULL_COMPONENT_MESSAGE: &'static str =
    "full 1-form component is only valid for the baseline Hodge-Matern model";

/// What is read off a one-form.
#[derive(Debug, Clone, Copy, PartialEq, Eq, PartialOrd, Ord, Structural)]
pub enum BranchObservableKind {
    Line,
    PointComponent,
    PointTrace,
}

impl BranchObservableKind {
    /// The name that stands for the variant in tables and labels.
    pub open spec fn name(self) -> Seq<char> {
        match self {
            BranchObservableKind::Line => "line"@,
            BranchObservableKind::PointComponent => "point_component"@,
            BranchObservableKind::PointTrace => "point_trace"@,
        }
    }

    /// The name as it is reported.
    pub fn as_str(self) -> (text: &'static str)
        ensures
            text@ == self.name(),
    {
        match self {
            BranchObservableKind::Line => "line",
            BranchObservableKind::PointComponent => "point_component",
            BranchObservableKind::PointTrace => "point_trace",
        }
    }

    /// The place of the kind in the order of the kinds.
    pub open spec fn place(self) -> int {
        match self {
            BranchObservableKind::Line => 0,
            BranchObservableKind::PointComponent => 1,
            BranchObservableKind::PointTrace => 2,
        }
    }

    /// No two variants have the same name.
    pub proof fn lemma_names_distinct(left: BranchObservableKind, right: BranchObservableKind)
        requires
            left.name() == right.name(),
        ensures
            left == right,
    {
        reveal_strlit("line");
        reveal_strlit("point_component");
        reveal_strlit("point_trace");
        assert("line"@.len() == 4);
        assert("point_component"@.len() == 15);
        assert("point_trace"@.len() == 11);
    }
}

/// How functional variances are computed on refined cubes.
#[derive(Debug)]
pub struct BranchFunctionalConvergenceConfig {
    pub levels: Vec<usize>,
    pub kappa: Scalar,
    pub tau: Scalar,
}

impl Default for BranchFunctionalConvergenceConfig {
    fn default() -> (config: Self)
        ensures
            config.levels@ == seq![4usize, 8, 12, 16, 20, 24],
            config.kappa == (Scalar { bits: 0x4010_0000_0000_0000 }),
            config.tau == (Scalar { bits: 0x3ff0_0000_0000_0000 }),
    {
        let levels: Vec<usize> = vec![4, 8, 12, 16, 20, 24];
        assert(levels@ =~= seq![4usize, 8, 12, 16, 20, 24]);
        BranchFunctionalConvergenceConfig {
            levels,
            kappa: Scalar { bits: 0x4010_0000_0000_0000 },
            tau: Scalar { bits: 0x3ff0_0000_0000_0000 },
        }
    }
}

/// Whether a mesh level puts the observed points on mesh vertices.
pub open spec fn valid_level(level: usize) -> bool {
    level > 0 && level % 4 == 0
}

/// The message for a mesh level that does not.
pub open spec fn level_message(level: nat) -> Seq<char> {
    "mesh level "@ + decimal(level) + " is invalid; levels must be positive multiples of 4"@
}

/// Whether the first level that is not valid has the given place.
pub open spec fn first_invalid_level(levels: Seq<usize>, place: int) -> bool {
    &&& 0 <= place < levels.len()
    &&& !valid_level(levels[place])
    &&& forall|i: int| 0 <= i < place ==> valid_level(#[trigger] levels[i])
}

/// Tests a configuration.
pub fn validate_config(config: &BranchFunctionalConvergenceConfig) -> (result: Result<(), String>)
    ensures
        match result {
            Ok(_) => {
                &&& config.levels.len() > 0
                &&& config.kappa.finite() && config.kappa.positive()
                &&& config.tau.finite() && config.tau.positive()
                &&& forall|i: int|
                    0 <= i < config.levels.len() ==> valid_level(#[trigger] config.levels@[i])
            },
            Err(message) => if config.levels.len() == 0 {
                message@ == "at least one mesh level is required"@
            } else if !(config.kappa.finite() && config.kappa.positive()) {
                message@ == "kappa must be finite and positive"@
            } else if !(config.tau.finite() && config.tau.positive()) {
                message@ == "tau must be finite and positive"@
            } else {
                exists|i: int| #[trigger]
                    first_invalid_level(config.levels@, i) && message@ == level_message(
                        config.levels@[i] as nat,
                    )
            },
        },
{
    if config.levels.len() == 0 {
        return Err(String::from_str("at least one mesh level is required"));
    }
    if !config.kappa.is_finite() || !config.kappa.is_positive() {
        return Err(String::from_str("kappa must be finite and positive"));
    }
    if !config.tau.is_finite() || !config.tau.is_positive() {
        return Err(String::from_str("tau must be finite and positive"));
    }
    let mut index: usize = 0;
    while index < config.levels.len()
        invariant
            index <= config.levels.len(),
            config.levels.len() > 0,
            config.kappa.finite() && config.kappa.positive(),
            config.tau.finite() && config.tau.positive(),
            forall|i: int| 0 <= i < index ==> valid_level(#[trigger] config.levels@[i]),
        decreases config.levels.len() - index,
    {
        let level: usize = config.levels[index];
        if level == 0 || level % 4 != 0 {
            let mut message = String::from_str("mesh level ");
            message.append(count_text(level).as_str());
            message.append(" is invalid; levels must be positive multiples of 4");
            assert(first_invalid_level(config.levels@, index as int));
            return Err(message);
        }
        index = index + 1;
    }
    Ok(())
}

/// The components that are reported of a model.
pub open spec fn model_components(model: BranchFunctionalModel) -> Seq<BranchFunctionalComponent> {
    match model {
        BranchFunctionalModel::BaselineHodgeMatern => seq![BranchFunctionalComponent::Full1Form],
        BranchFunctionalModel::FormMatern | BranchFunctionalModel::PotentialMatern => seq![
            BranchFunctionalComponent::Exact,
            BranchFunctionalComponent::Coexact,
        ],
    }
}

/// Lists the components that are reported of a model.
pub fn components_for_model(model: BranchFunctionalModel) -> (components: Vec<
    BranchFunctionalComponent,
>)
    ensures
        components@ == model_components(model),
{
    let components = match model {
        BranchFunctionalModel::BaselineHodgeMatern => vec![BranchFunctionalComponent::Full1Form],
        BranchFunctionalModel::FormMatern | BranchFunctionalModel::PotentialMatern => vec![
            BranchFunctionalComponent::Exact,
            BranchFunctionalComponent::Coexact,
        ],
    };
    assert(components@ =~= model_components(model));
    components
}

/// A model with one of its components.
#[derive(Debug, Clone, Copy, PartialEq, Eq, Structural)]
pub struct ReportCase {
    pub model: BranchFunctionalModel,
    pub component: BranchFunctionalComponent,
}

/// Lists the models and components that are reported on every mesh.
pub fn report_cases() -> (cases: Vec<ReportCase>)
    ensures
        cases@ == seq![
            ReportCase {
                model: BranchFunctionalModel::BaselineHodgeMatern,
                component: BranchFunctionalComponent::Full1Form,
            },
            ReportCase {
                model: BranchFunctionalModel::FormMatern,
                component: BranchFunctionalComponent::Exact,
            },
            ReportCase {
                model: BranchFunctionalModel::FormMatern,
                component: BranchFunctionalComponent::Coexact,
            },
            ReportCase {
                model: BranchFunctionalModel::PotentialMatern,
                component: BranchFunctionalComponent::Exact,
            },
            ReportCase {
                model: BranchFunctionalModel::PotentialMatern,
                component: BranchFunctionalComponent::Coexact,
            },
        ],
        forall|c: int|
            0 <= c < cases.len() ==> model_components((#[trigger] cases@[c]).model).contains(
                cases@[c].component,
            ),
{
    let models: Vec<BranchFunctionalModel> = vec![
        BranchFunctionalModel::BaselineHodgeMatern,
        BranchFunctionalModel::FormMatern,
        BranchFunctionalModel::PotentialMatern,
    ];
    let mut cases: Vec<ReportCase> = Vec::new();
    let baseline = components_for_model(models[0]);
    let form = components_for_model(models[1]);
    let potential = components_for_model(models[2]);
    cases.push(ReportCase { model: models[0], component: baseline[0] });
    cases.push(ReportCase { model: models[1], component: form[0] });
    cases.push(ReportCase { model: models[1], component: form[1] });
    cases.push(ReportCase { model: models[2], component: potential[0] });
    cases.push(ReportCase { model: models[2], component: potential[1] });
    proof {
        assert forall|c: int| 0 <= c < cases.len() implies model_components(
            (#[trigger] cases@[c]).model,
        ).contains(cases@[c].component) by {
            if c == 0 {
                assert(model_components(cases@[c].model)[0] == cases@[c].component);
            } else if c == 1 || c == 3 {
                assert(model_components(cases@[c].model)[0] == cases@[c].component);
            } else {
                assert(model_components(cases@[c].model)[1] == cases@[c].component);
            }
        }
    }
    cases
}

/// The message for a component that the baseline does not have.
pub open spec fn baseline_message(component: BranchFunctionalComponent) -> Seq<char> {
    "baseline Hodge-Matern model requires component "@
        + BranchFunctionalComponent::Full1Form.name() + ", got "@ + component.name()
}

/// Lists the branches that a prior is built from, none for the baseline, or says why a model does
/// not have a component.
pub fn prior_branches(model: BranchFunctionalModel, component: BranchFunctionalComponent) -> (result:
    Result<Vec<HodgeBranchKind>, String>)
    ensures
        match result {
            Ok(branches) => {
                &&& branches@ == component.parts()
                &&& (model == BranchFunctionalModel::BaselineHodgeMatern) == (component
                    == BranchFunctionalComponent::Full1Form)
            },
            Err(message) => if model == BranchFunctionalModel::BaselineHodgeMatern {
                component != BranchFunctionalComponent::Full1Form && message@ == baseline_message(
                    component,
                )
            } else {
                component == BranchFunctionalComponent::Full1Form && message@
                    == FULL_COMPONENT_MESSAGE@
            },
        },
{
    match model {
        BranchFunctionalModel::BaselineHodgeMatern => {
            if component != BranchFunctionalComponent::Full1Form {
                let mut message = String::from_str(
                    "baseline Hodge-Matern model requires component ",
                );
                message.append(BranchFunctionalComponent::Full1Form.as_str());
                message.append(", got ");
                message.append(component.as_str());
                return Err(message);
            }
            let none: Vec<HodgeBranchKind> = Vec::new();
            assert(none@ =~= component.parts());
            Ok(none)
        },
        _ => component.branches(),
    }
}

/// The message for an operator that does not fit the baseline prior.
pub open spec fn columns_message(columns: nat, dofs: nat) -> Seq<char> {
    "ambient operator has "@ + decimal(columns) + " columns but baseline prior has "@ + decimal(
        dofs,
    ) + " dofs"@
}

/// Tests that an operator fits the baseline prior, which describes the edge values themselves.
pub fn check_baseline_columns(columns: usize, dofs: usize) -> (result: Result<(), String>)
    ensures
        match result {
            Ok(_) => columns == dofs,
            Err(message) => columns != dofs && message@ == columns_message(
                columns as nat,
                dofs as nat,
            ),
        },
{
    if columns == dofs {
        return Ok(());
    }
    let mut message = String::from_str("ambient operator has ");
    message.append(count_text(columns).as_str());
    message.append(" columns but baseline prior has ");
    message.append(count_text(dofs).as_str());
    message.append(" dofs");
    Err(message)
}

/// An observed point of the unit cube, with its coordinates in quarters.
#[derive(Debug)]
pub struct PointTarget {
    pub numerators: (usize, usize, usize),
    pub id: String,
}

/// The name of an observed point.
pub open spec fn point_id(index: nat, x: nat, y: nat, z: nat) -> Seq<char> {
    "point_"@ + zero_padded(index, 3) + "_q"@ + decimal(x) + decimal(y) + decimal(z)
}

/// The coordinates of an observed point: those of the first vary slowest.
pub open spec fn point_numerators(index: int) -> (int, int, int) {
    (1 + index / 9, 1 + (index / 3) % 3, 1 + index % 3)
}

/// Whether a target is the observed point of the given number.
pub open spec fn is_point_target(index: int, target: PointTarget) -> bool {
    &&& target.numerators.0 == point_numerators(index).0
    &&& target.numerators.1 == point_numerators(index).1
    &&& target.numerators.2 == point_numerators(index).2
    &&& target.id@ == point_id(
        index as nat,
        target.numerators.0 as nat,
        target.numerators.1 as nat,
        target.numerators.2 as nat,
    )
}

/// Lists the 27 observed points, which lie at quarters of the cube in every direction.
pub fn point_targets() -> (targets: Vec<PointTarget>)
    ensures
        targets.len() == 27,
        forall|i: int| 0 <= i < 27 ==> is_point_target(i, #[trigger] targets@[i]),
{
    let mut targets: Vec<PointTarget> = Vec::new();
    let mut index: usize = 0;
    while index < 27
        invariant
            index <= 27,
            targets.len() == index,
            forall|i: int| 0 <= i < index ==> is_point_target(i, #[trigger] targets@[i]),
        decreases 27 - index,
    {
        let x: usize = 1 + index / 9;
        let y: usize = 1 + (index / 3) % 3;
        let z: usize = 1 + index % 3;
        let mut id = String::from_str("point_");
        id.append(three_digit_text(index).as_str());
        id.append("_q");
        id.append(count_text(x).as_str());
        id.append(count_text(y).as_str());
        id.append(count_text(z).as_str());
        targets.push(PointTarget { numerators: (x, y, z), id });
        index = index + 1;
    }
    targets
}

/// The observed points are named in the order of their numbers, so that a table sorted by name
/// lists them as they are numbered, and no two have the same name.
pub proof fn lemma_point_ids_rise(left: int, right: int)
    requires
        0 <= left < right < 27,
    ensures
        text_before(target_id(left), target_id(right)),
{
    let (a, b) = (point_numerators(left), point_numerators(right));
    let left_rest = "_q"@ + decimal(a.0 as nat) + decimal(a.1 as nat) + decimal(a.2 as nat);
    let right_rest = "_q"@ + decimal(b.0 as nat) + decimal(b.1 as nat) + decimal(b.2 as nat);
    lemma_padded_order("point_"@, left as nat, right as nat, left_rest, right_rest);
    assert("point_"@ + zero_padded(left as nat, 3) + left_rest =~= target_id(left));
    assert("point_"@ + zero_padded(right as nat, 3) + right_rest =~= target_id(right));
}

/// Finds the cell whose barycenter is nearest, given the squared distances of all cells.
pub fn nearest_cell_barycenter(distances: &Vec<Scalar>) -> (result: Result<usize, String>)
    ensures
        match result {
            Ok(cell) => {
                &&& running_least(distances@, distances.len() as int) == Some(cell as int)
                &&& cell < distances.len()
                &&& comparable(distances@) ==> is_first_least(distances@, cell as int)
            },
            Err(message) => distances.len() == 0 && message@
                == "mesh has no top-dimensional cells"@,
        },
{
    match least_place(distances) {
        Some(cell) => Ok(cell),
        None => Err(String::from_str("mesh has no top-dimensional cells")),
    }
}

/// A component of the field at an observed point, with the row that reads it off the edges.
#[derive(Debug)]
pub struct PointComponentObservable {
    pub point_index: usize,
    pub point_id: String,
    pub component_index: usize,
    pub row: Vec<WeightedEntry>,
}

/// The name of the observed point with the given number.
pub open spec fn target_id(point: int) -> Seq<char> {
    point_id(
        point as nat,
        point_numerators(point).0 as nat,
        point_numerators(point).1 as nat,
        point_numerators(point).2 as nat,
    )
}

/// The cell that is nearest to an observed point.
pub open spec fn nearest_cell(distances: Seq<Vec<Scalar>>, point: int) -> Option<int> {
    running_least(distances[point]@, distances[point].len() as int)
}

/// Whether the components of the field at an observed point can be read off the edges.
pub open spec fn point_is_covered(
    reconstruction: BarycenterReconstruction,
    distances: Seq<Vec<Scalar>>,
    point: int,
) -> bool {
    &&& distances[point].len() > 0
    &&& reconstruction.covers(nearest_cell(distances, point)->Some_0)
}

/// Whether an observable reads a component of the field at an observed point, at the cell that is
/// nearest to the point.
pub open spec fn reads_component(
    reconstruction: BarycenterReconstruction,
    distances: Seq<Vec<Scalar>>,
    point: int,
    component: int,
    observable: PointComponentObservable,
) -> bool {
    &&& observable.point_index == point
    &&& observable.point_id@ == target_id(point)
    &&& observable.component_index == component
    &&& nearest_cell(distances, point) is Some
    &&& observable.row@ == reconstruction.row_at(
        component,
        nearest_cell(distances, point)->Some_0,
    )
}

/// The message for an observed point whose components cannot be read.
pub open spec fn uncovered_message(distances: Seq<Vec<Scalar>>, point: int) -> Seq<char> {
    if distances[point].len() == 0 {
        "mesh has no top-dimensional cells"@
    } else {
        "nearest cell index "@ + decimal(nearest_cell(distances, point)->Some_0 as nat)
            + " is outside reconstruction rows"@
    }
}

/// Whether the first observed point whose components cannot be read has the given number.
pub open spec fn first_uncovered(
    reconstruction: BarycenterReconstruction,
    distances: Seq<Vec<Scalar>>,
    point: int,
) -> bool {
    &&& 0 <= point < 27
    &&& !point_is_covered(reconstruction, distances, point)
    &&& forall|p: int|
        0 <= p < point ==> #[trigger] point_is_covered(reconstruction, distances, p)
}

/// Reads every component of the field at every observed point, given the squared distances from
/// the points to all cells. The components of a point stand next to each other.
pub fn point_component_observables(
    reconstruction: &BarycenterReconstruction,
    distances: &Vec<Vec<Scalar>>,
) -> (result: Result<Vec<PointComponentObservable>, String>)
    requires
        distances.len() == 27,
        27 * reconstruction.components.len() <= usize::MAX,
    ensures
        match result {
            Ok(observables) => {
                &&& observables.len() == 27 * reconstruction.components.len()
                &&& forall|p: int|
                    0 <= p < 27 ==> #[trigger] point_is_covered(
                        *reconstruction,
                        distances@,
                        p,
                    )
                &&& forall|k: int|
                    0 <= k < observables.len() ==> reads_component(
                        *reconstruction,
                        distances@,
                        k / reconstruction.components.len() as int,
                        k % reconstruction.components.len() as int,
                        #[trigger] observables@[k],
                    )
            },
            Err(message) => exists|p: int| #[trigger]
                first_uncovered(*reconstruction, distances@, p) && message@ == uncovered_message(
                    distances@,
                    p,
                ),
        },
{
    let count: usize = reconstruction.components.len();
    let targets = point_targets();
    let mut observables: Vec<PointComponentObservable> = Vec::new();
    let mut point: usize = 0;
    while point < 27
        invariant
            point <= 27,
            distances.len() == 27,
            27 * count <= usize::MAX,
            count == reconstruction.components.len(),
            targets.len() == 27,
            forall|i: int| 0 <= i < 27 ==> is_point_target(i, #[trigger] targets@[i]),
            observables.len() == point * count,
            forall|p: int|
                0 <= p < point ==> #[trigger] point_is_covered(*reconstruction, distances@, p),
            forall|k: int|
                0 <= k < observables.len() ==> reads_component(
                    *reconstruction,
                    distances@,
                    k / count as int,
                    k % count as int,
                    #[trigger] observables@[k],
                ),
        decreases 27 - point,
    {
        let cell: usize = match nearest_cell_barycenter(&distances[point]) {
            Ok(cell) => cell,
            Err(message) => {
                assert(first_uncovered(*reconstruction, distances@, point as int));
                return Err(message);
            },
        };
        let mut component: usize = 0;
        while component < count
            invariant
                point < 27,
                distances.len() == 27,
                27 * count <= usize::MAX,
                component <= count,
                count == reconstruction.components.len(),
                targets.len() == 27,
                is_point_target(point as int, targets@[point as int]),
                distances@[point as int].len() > 0,
                nearest_cell(distances@, point as int) == Some(cell as int),
                observables.len() == point * count + component,
                forall|p: int|
                    0 <= p < point ==> #[trigger] point_is_covered(
                        *reconstruction,
                        distances@,
                        p,
                    ),
                forall|c: int|
                    0 <= c < component ==> cell < (#[trigger] reconstruction.components@[c]).len(),
                forall|k: int|
                    0 <= k < observables.len() ==> reads_component(
                        *reconstruction,
                        distances@,
                        k / count as int,
                        k % count as int,
                        #[trigger] observables@[k],
                    ),
            decreases count - component,
        {
            let rows: &Vec<Vec<WeightedEntry>> = &reconstruction.components[component];
            if cell >= rows.len() {
                let mut message = String::from_str("nearest cell index ");
                message.append(count_text(cell).as_str());
                message.append(" is outside reconstruction rows");
                assert(!reconstruction.covers(cell as int)) by {
                    assert(reconstruction.components@[component as int].len() <= cell);
                }
                assert(first_uncovered(*reconstruction, distances@, point as int));
                return Err(message);
            }
            let observable = PointComponentObservable {
                point_index: point,
                point_id: String::from_str(targets[point].id.as_str()),
                component_index: component,
                row: copy_row(&rows[cell]),
            };
            proof {
                let k = observables.len() as int;
                assert(k == point * count + component);
                vstd::arithmetic::div_mod::lemma_fundamental_div_mod_converse(
                    k,
                    count as int,
                    point as int,
                    component as int,
                );
                assert(reads_component(
                    *reconstruction,
                    distances@,
                    k / count as int,
                    k % count as int,
                    observable,
                ));
            }
            observables.push(observable);
            component = component + 1;
        }
        proof {
            assert(point_is_covered(*reconstruction, distances@, point as int));
            assert((point + 1) * count == point * count + count) by (nonlinear_arith);
        }
        point = point + 1;
    }
    Ok(observables)
}

/// Names a component of the field at an observed point.
pub fn component_functional_id(observable: &PointComponentObservable) -> (id: String)
    ensures
        id@ == component_id(*observable),
{
    let mut id = String::from_str(observable.point_id.as_str());
    id.append("_component");
    id.append(count_text(observable.component_index).as_str());
    id
}

/// The name of a component of the field at an observed point.
pub open spec fn component_id(observable: PointComponentObservable) -> Seq<char> {
    observable.point_id@ + "_component"@ + decimal(observable.component_index as nat)
}

/// The keys by which components are collected at their points.
pub open spec fn point_keys(observables: Seq<PointComponentObservable>) -> Seq<(usize, usize)> {
    observables.map_values(|observable: PointComponentObservable| (observable.point_index, 0usize))
}

/// Groups the components by the point at which they are taken. The trace at a point sums up the
/// variances of its group.
pub fn point_trace_groups(observables: &Vec<PointComponentObservable>) -> (groups: Vec<IndexGroup>)
    ensures
        is_grouping(point_keys(observables@), groups@),
{
    let mut keys: Vec<(usize, usize)> = Vec::new();
    let mut index: usize = 0;
    while index < observables.len()
        invariant
            index <= observables.len(),
            keys@ == point_keys(observables@).take(index as int),
        decreases observables.len() - index,
    {
        keys.push((observables[index].point_index, 0));
        assert(point_keys(observables@).take(index + 1) =~= point_keys(observables@).take(
            index as int,
        ).push(point_keys(observables@)[index as int]));
        index = index + 1;
    }
    assert(keys@ =~= point_keys(observables@));
    group_by_key(&keys)
}

/// The number of entries in the rows of the first `count` members of a group.
pub open spec fn support_sum(
    observables: Seq<PointComponentObservable>,
    members: Seq<usize>,
    count: int,
) -> int
    decreases count,
{
    if count <= 0 {
        0
    } else {
        support_sum(observables, members, count - 1) + observables[members[count
            - 1] as int].row.len()
    }
}

/// The number of entries in the first `count` rows.
pub open spec fn support_total(observables: Seq<PointComponentObservable>, count: int) -> int
    decreases count,
{
    if count <= 0 {
        0
    } else {
        support_total(observables, count - 1) + observables[count - 1].row.len()
    }
}

proof fn lemma_support_total_grows(
    observables: Seq<PointComponentObservable>,
    low: int,
    high: int,
)
    requires
        low <= high,
    ensures
        support_total(observables, low) <= support_total(observables, high),
    decreases high - low,
{
    if low < high {
        lemma_support_total_grows(observables, low, high - 1);
    }
}

proof fn lemma_support_sum_fits(
    observables: Seq<PointComponentObservable>,
    members: Seq<usize>,
    count: int,
    limit: int,
)
    requires
        strictly_increasing(members),
        0 <= count <= members.len(),
        0 <= limit,
        forall|i: int| 0 <= i < count ==> #[trigger] members[i] < limit,
    ensures
        support_sum(observables, members, count) <= support_total(observables, limit),
    decreases count,
{
    if count > 0 {
        let last = members[count - 1] as int;
        assert forall|i: int| 0 <= i < count - 1 implies #[trigger] members[i] < last by {
            assert(members[i] < members[count - 1]);
        }
        lemma_support_sum_fits(observables, members, count - 1, last);
        lemma_support_total_grows(observables, last + 1, limit);
    } else {
        lemma_support_total_grows(observables, 0, limit);
    }
}

/// Adds up the numbers of entries in the rows of the members of a group.
pub fn trace_support(observables: &Vec<PointComponentObservable>, members: &Vec<usize>) -> (support:
    usize)
    requires
        strictly_increasing(members@),
        forall|i: int| 0 <= i < members.len() ==> #[trigger] members@[i] < observables.len(),
        support_total(observables@, observables.len() as int) <= usize::MAX,
    ensures
        support == support_sum(observables@, members@, members.len() as int),
{
    let mut support: usize = 0;
    let mut index: usize = 0;
    while index < members.len()
        invariant
            index <= members.len(),
            strictly_increasing(members@),
            forall|i: int| 0 <= i < members.len() ==> #[trigger] members@[i] < observables.len(),
            support_total(observables@, observables.len() as int) <= usize::MAX,
            support == support_sum(observables@, members@, index as int),
        decreases members.len() - index,
    {
        proof {
            lemma_support_sum_fits(
                observables@,
                members@,
                index + 1,
                observables.len() as int,
            );
            assert(members@[index as int] < observables.len());
        }
        support = support + observables[members[index]].row.len();
        index = index + 1;
    }
    support
}

/// What is expected of the variances of a kind under refinement.
pub open spec fn expected_status(
    model: BranchFunctionalModel,
    observable_kind: BranchObservableKind,
) -> Seq<char> {
    match (model, observable_kind) {
        (BranchFunctionalModel::PotentialMatern, BranchObservableKind::Line) => {
            "expected_log_borderline_growth"@
        },
        (BranchFunctionalModel::PotentialMatern, _) => "expected_point_growth"@,
        _ => "expected_convergent"@,
    }
}

/// Says what is expected of the variances of a kind under refinement.
pub fn status_for(model: BranchFunctionalModel, observable_kind: BranchObservableKind) -> (status:
    &'static str)
    ensures
        status@ == expected_status(model, observable_kind),
{
    match (model, observable_kind) {
        (BranchFunctionalModel::BaselineHodgeMatern, _) => "expected_convergent",
        (BranchFunctionalModel::FormMatern, _) => "expected_convergent",
        (BranchFunctionalModel::PotentialMatern, BranchObservableKind::Line) => {
            "expected_log_borderline_growth"
        },
        (BranchFunctionalModel::PotentialMatern, _) => "expected_point_growth",
    }
}

/// The sizes of a prior.
#[derive(Debug, Clone, Copy, PartialEq, Eq, Structural)]
pub struct PriorSizes {
    pub latent_dofs: usize,
    pub precision_nnz: usize,
    /// The entries of the map to the edge values, where the prior is not on them already.
    pub latent_to_ambient_nnz: Option<usize>,
}

impl PriorSizes {
    /// The entries of the map to the edge values; where there is none it would be the identity.
    pub open spec fn map_entries(self) -> usize {
        match self.latent_to_ambient_nnz {
            Some(entries) => entries,
            None => self.latent_dofs,
        }
    }

    pub fn transform_nnz(self) -> (entries: usize)
        ensures
            entries == self.map_entries(),
    {
        match self.latent_to_ambient_nnz {
            Some(entries) => entries,
            None => self.latent_dofs,
        }
    }
}

/// A variance as it was computed, and divided by the squared measure of its functional.
#[derive(Debug, Clone, Copy, PartialEq, Eq, Structural)]
pub struct MeasuredVariance {
    pub geometric_measure: Scalar,
    pub raw_variance: Scalar,
    pub normalized_variance: Scalar,
}

/// A mesh with a prior on it.
#[derive(Debug, Clone, Copy, PartialEq, Eq, Structural)]
pub struct MeshCase {
    pub n: usize,
    pub h: Scalar,
    pub case: ReportCase,
    pub prior: PriorSizes,
}

/// A functional by its name and the number of edges that it reads.
#[derive(Debug)]
pub struct NamedFunctional {
    pub id: String,
    pub support_entries: usize,
}

/// Whether a row reports the variance of a functional.
pub open spec fn reports(
    mesh: MeshCase,
    observable_kind: BranchObservableKind,
    id: Seq<char>,
    support_entries: int,
    variance: MeasuredVariance,
    row: BranchFunctionalVarianceRow,
) -> bool {
    &&& row.n == mesh.n
    &&& row.h == mesh.h
    &&& row.alpha == 2
    &&& row.model == mesh.case.model
    &&& row.component == mesh.case.component
    &&& row.observable_kind == observable_kind
    &&& row.functional_id@ == id
    &&& row.latent_dofs == mesh.prior.latent_dofs
    &&& row.precision_nnz == mesh.prior.precision_nnz
    &&& row.transform_nnz == mesh.prior.map_entries()
    &&& row.support_entries == support_entries
    &&& row.geometric_measure == variance.geometric_measure
    &&& row.raw_variance == variance.raw_variance
    &&& row.normalized_variance == variance.normalized_variance
    &&& row.status@ == expected_status(mesh.case.model, observable_kind)
}

/// Makes the row of one functional.
pub fn variance_row(
    mesh: &MeshCase,
    observable_kind: BranchObservableKind,
    functional_id: String,
    support_entries: usize,
    variance: MeasuredVariance,
) -> (row: BranchFunctionalVarianceRow)
    ensures
        reports(
            *mesh,
            observable_kind,
            functional_id@,
            support_entries as int,
            variance,
            row,
        ),
{
    BranchFunctionalVarianceRow {
        n: mesh.n,
        h: mesh.h,
        alpha: 2,
        model: mesh.case.model,
        component: mesh.case.component,
        observable_kind,
        functional_id,
        latent_dofs: mesh.prior.latent_dofs,
        precision_nnz: mesh.prior.precision_nnz,
        transform_nnz: mesh.prior.transform_nnz(),
        support_entries,
        geometric_measure: variance.geometric_measure,
        raw_variance: variance.raw_variance,
        normalized_variance: variance.normalized_variance,
        status: String::from_str(status_for(mesh.case.model, observable_kind)),
    }
}

/// The smaller of two lengths.
pub open spec fn shorter(left: nat, right: nat) -> nat {
    if left <= right {
        left
    } else {
        right
    }
}

/// Makes the rows of line integrals with their variances.
pub fn line_rows(
    mesh: &MeshCase,
    observables: &Vec<NamedFunctional>,
    variances: &Vec<MeasuredVariance>,
) -> (rows: Vec<BranchFunctionalVarianceRow>)
    ensures
        rows.len() == shorter(observables@.len(), variances@.len()),
        forall|i: int|
            0 <= i < rows.len() ==> reports(
                *mesh,
                BranchObservableKind::Line,
                observables@[i].id@,
                observables@[i].support_entries as int,
                variances@[i],
                #[trigger] rows@[i],
            ),
{
    let mut rows: Vec<BranchFunctionalVarianceRow> = Vec::new();
    let mut index: usize = 0;
    while index < observables.len() && index < variances.len()
        invariant
            index <= observables.len(),
            index <= variances.len(),
            rows.len() == index,
            forall|i: int|
                0 <= i < rows.len() ==> reports(
                    *mesh,
                    BranchObservableKind::Line,
                    observables@[i].id@,
                    observables@[i].support_entries as int,
                    variances@[i],
                    #[trigger] rows@[i],
                ),
        decreases observables.len() - index,
    {
        rows.push(
            variance_row(
                mesh,
                BranchObservableKind::Line,
                String::from_str(observables[index].id.as_str()),
                observables[index].support_entries,
                variances[index],
            ),
        );
        index = index + 1;
    }
    rows
}

/// Makes the rows of the components at the observed points with their variances.
pub fn point_component_rows(
    mesh: &MeshCase,
    observables: &Vec<PointComponentObservable>,
    variances: &Vec<MeasuredVariance>,
) -> (rows: Vec<BranchFunctionalVarianceRow>)
    ensures
        rows.len() == shorter(observables@.len(), variances@.len()),
        forall|i: int|
            0 <= i < rows.len() ==> reports(
                *mesh,
                BranchObservableKind::PointComponent,
                component_id(observables@[i]),
                observables@[i].row.len() as int,
                variances@[i],
                #[trigger] rows@[i],
            ),
{
    let mut rows: Vec<BranchFunctionalVarianceRow> = Vec::new();
    let mut index: usize = 0;
    while index < observables.len() && index < variances.len()
        invariant
            index <= observables.len(),
            index <= variances.len(),
            rows.len() == index,
            forall|i: int|
                0 <= i < rows.len() ==> reports(
                    *mesh,
                    BranchObservableKind::PointComponent,
                    component_id(observables@[i]),
                    observables@[i].row.len() as int,
                    variances@[i],
                    #[trigger] rows@[i],
                ),
        decreases observables.len() - index,
    {
        rows.push(
            variance_row(
                mesh,
                BranchObservableKind::PointComponent,
                component_functional_id(&observables[index]),
                observables[index].row.len(),
                variances[index],
            ),
        );
        index = index + 1;
    }
    rows
}

/// Whether the rows report the traces of the groups.
pub open spec fn reports_traces(
    mesh: MeshCase,
    observables: Seq<PointComponentObservable>,
    groups: Seq<IndexGroup>,
    traces: Seq<MeasuredVariance>,
    rows: Seq<BranchFunctionalVarianceRow>,
) -> bool {
    &&& rows.len() == shorter(groups.len(), traces.len())
    &&& forall|g: int|
        0 <= g < rows.len() ==> reports(
            mesh,
            BranchObservableKind::PointTrace,
            observables[groups[g].members@[0] as int].point_id@,
            support_sum(observables, groups[g].members@, groups[g].members.len() as int),
            traces[g],
            #[trigger] rows[g],
        )
}

/// Makes the rows of the traces at the observed points: one for every point, in the order of the
/// points, with the given sums of variances.
pub fn point_trace_rows(
    mesh: &MeshCase,
    observables: &Vec<PointComponentObservable>,
    traces: &Vec<MeasuredVariance>,
) -> (rows: Vec<BranchFunctionalVarianceRow>)
    requires
        support_total(observables@, observables.len() as int) <= usize::MAX,
    ensures
        exists|groups: Seq<IndexGroup>| #[trigger]
            is_grouping(point_keys(observables@), groups) && reports_traces(
                *mesh,
                observables@,
                groups,
                traces@,
                rows@,
            ),
{
    let groups = point_trace_groups(observables);
    let mut rows: Vec<BranchFunctionalVarianceRow> = Vec::new();
    let mut index: usize = 0;
    while index < groups.len() && index < traces.len()
        invariant
            support_total(observables@, observables.len() as int) <= usize::MAX,
            is_grouping(point_keys(observables@), groups@),
            index <= groups.len(),
            index <= traces.len(),
            rows.len() == index,
            forall|g: int|
                0 <= g < rows.len() ==> reports(
                    *mesh,
                    BranchObservableKind::PointTrace,
                    observables@[groups@[g].members@[0] as int].point_id@,
                    support_sum(
                        observables@,
                        groups@[g].members@,
                        groups@[g].members.len() as int,
                    ),
                    traces@[g],
                    #[trigger] rows@[g],
                ),
        decreases groups.len() - index,
    {
        let group: &IndexGroup = &groups[index];
        proof {
            assert(lists_members(point_keys(observables@), group.key, group.members@));
            assert forall|i: int| 0 <= i < group.members.len() implies #[trigger] group.members@[i]
                < observables.len() by {
                assert(group.members@.contains(group.members@[i]));
            }
            assert(group.members@[0] < observables.len());
        }
        let support: usize = trace_support(observables, &group.members);
        rows.push(
            variance_row(
                mesh,
                BranchObservableKind::PointTrace,
                String::from_str(observables[group.members[0]].point_id.as_str()),
                support,
                traces[index],
            ),
        );
        index = index + 1;
    }
    assert(reports_traces(*mesh, observables@, groups@, traces@, rows@));
    rows
}

/// A number that orders models, components and kinds: by model, then by component, then by kind.
pub open spec fn case_code(
    model: BranchFunctionalModel,
    component: BranchFunctionalComponent,
    observable_kind: BranchObservableKind,
) -> usize {
    ((model.place() * 4 + component.place()) * 3 + observable_kind.place()) as usize
}

/// The code tells models, components and kinds apart, and orders them.
pub proof fn lemma_case_code(
    left: (BranchFunctionalModel, BranchFunctionalComponent, BranchObservableKind),
    right: (BranchFunctionalModel, BranchFunctionalComponent, BranchObservableKind),
)
    ensures
        case_code(left.0, left.1, left.2) == case_code(right.0, right.1, right.2) <==> left
            == right,
        left.0.place() < right.0.place() ==> case_code(left.0, left.1, left.2) < case_code(
            right.0,
            right.1,
            right.2,
        ),
        left.0 == right.0 && left.1.place() < right.1.place() ==> case_code(
            left.0,
            left.1,
            left.2,
        ) < case_code(right.0, right.1, right.2),
        left.0 == right.0 && left.1 == right.1 && left.2.place() < right.2.place() ==> case_code(
            left.0,
            left.1,
            left.2,
        ) < case_code(right.0, right.1, right.2),
{
}

fn code_of(
    model: BranchFunctionalModel,
    component: BranchFunctionalComponent,
    observable_kind: BranchObservableKind,
) -> (code: usize)
    ensures
        code == case_code(model, component, observable_kind),
{
    let first: usize = match model {
        BranchFunctionalModel::BaselineHodgeMatern => 0,
        BranchFunctionalModel::FormMatern => 1,
        BranchFunctionalModel::PotentialMatern => 2,
    };
    let second: usize = match component {
        BranchFunctionalComponent::Full1Form => 0,
        BranchFunctionalComponent::Exact => 1,
        BranchFunctionalComponent::Coexact => 2,
        BranchFunctionalComponent::JointTotal => 3,
    };
    let third: usize = match observable_kind {
        BranchObservableKind::Line => 0,
        BranchObservableKind::PointComponent => 1,
        BranchObservableKind::PointTrace => 2,
    };
    (first * 4 + second) * 3 + third
}

/// The keys by which rows are summed up: by mesh, model, component and kind.
pub open spec fn summary_keys(rows: Seq<BranchFunctionalVarianceRow>) -> Seq<(usize, usize)> {
    rows.map_values(
        |row: BranchFunctionalVarianceRow|
            (row.n, case_code(row.model, row.component, row.observable_kind)),
    )
}

/// Groups the rows that are summed up together, in the order of mesh, model, component and kind.
pub fn summary_groups(rows: &Vec<BranchFunctionalVarianceRow>) -> (groups: Vec<IndexGroup>)
    ensures
        is_grouping(summary_keys(rows@), groups@),
{
    let mut keys: Vec<(usize, usize)> = Vec::new();
    let mut index: usize = 0;
    while index < rows.len()
        invariant
            index <= rows.len(),
            keys@ == summary_keys(rows@).take(index as int),
        decreases rows.len() - index,
    {
        let row: &BranchFunctionalVarianceRow = &rows[index];
        keys.push((row.n, code_of(row.model, row.component, row.observable_kind)));
        assert(summary_keys(rows@).take(index + 1) =~= summary_keys(rows@).take(
            index as int,
        ).push(summary_keys(rows@)[index as int]));
        index = index + 1;
    }
    assert(keys@ =~= summary_keys(rows@));
    group_by_key(&keys)
}

/// The statistics of the variances of a group.
#[derive(Debug, Clone, Copy, PartialEq, Eq, Structural)]
pub struct VarianceStatistics {
    pub mean_raw: Scalar,
    pub median_raw: Scalar,
    pub deviation_raw: Scalar,
    pub median_normalized: Scalar,
}

/// The variances of a group.
pub open spec fn raw_variances(rows: Seq<BranchFunctionalVarianceRow>, members: Seq<usize>) -> Seq<
    Scalar,
> {
    members.map_values(|member: usize| rows[member as int].raw_variance)
}

/// Lists the values whose extremes a group reports.
fn list_raw_variances(rows: &Vec<BranchFunctionalVarianceRow>, members: &Vec<usize>) -> (values: Vec<
    Scalar,
>)
    requires
        forall|i: int| 0 <= i < members.len() ==> #[trigger] members@[i] < rows.len(),
    ensures
        values@ == raw_variances(rows@, members@),
{
    let mut values: Vec<Scalar> = Vec::new();
    while values.len() < members.len()
        invariant
            values.len() <= members.len(),
            forall|i: int| 0 <= i < members.len() ==> #[trigger] members@[i] < rows.len(),
            forall|i: int|
                0 <= i < values.len() ==> #[trigger] values@[i] == raw_variances(
                    rows@,
                    members@,
                )[i],
        decreases members.len() - values.len(),
    {
        let member: usize = members[values.len()];
        values.push(rows[member].raw_variance);
    }
    assert(values@ =~= raw_variances(rows@, members@));
    values
}

/// Makes the row that sums up a group of rows.
pub fn summary_row(
    rows: &Vec<BranchFunctionalVarianceRow>,
    members: &Vec<usize>,
    statistics: VarianceStatistics,
) -> (row: BranchFunctionalSummaryRow)
    requires
        members.len() > 0,
        forall|i: int| 0 <= i < members.len() ==> #[trigger] members@[i] < rows.len(),
    ensures
        row.n == rows@[members@[0] as int].n,
        row.model == rows@[members@[0] as int].model,
        row.component == rows@[members@[0] as int].component,
        row.observable_kind == rows@[members@[0] as int].observable_kind,
        row.count == members.len(),
        row.mean_raw_variance == statistics.mean_raw,
        row.median_raw_variance == statistics.median_raw,
        row.min_raw_variance == extreme_or_infinity(raw_variances(rows@, members@), true),
        row.max_raw_variance == extreme_or_infinity(raw_variances(rows@, members@), false),
        row.stddev_raw_variance == statistics.deviation_raw,
        row.median_normalized_variance == statistics.median_normalized,
{
    let raw = list_raw_variances(rows, members);
    let first: &BranchFunctionalVarianceRow = &rows[members[0]];
    BranchFunctionalSummaryRow {
        n: first.n,
        model: first.model,
        component: first.component,
        observable_kind: first.observable_kind,
        count: members.len(),
        mean_raw_variance: statistics.mean_raw,
        median_raw_variance: statistics.median_raw,
        min_raw_variance: find_extreme(&raw, true),
        max_raw_variance: find_extreme(&raw, false),
        stddev_raw_variance: statistics.deviation_raw,
        median_normalized_variance: statistics.median_normalized,
    }
}

/// How a fit over refined meshes is made.
#[derive(Debug, Clone, Copy, PartialEq, Eq, Structural)]
pub enum FitDiagnostic {
    /// The slope of the median variance over the logarithm of the level.
    SlopeVsLogLevel,
    /// The slope of the logarithm of the median variance over the logarithm of the level.
    LogLogSlope,
    /// The relative change of the median variance between the two finest meshes.
    FinestRelativeChange,
}

impl FitDiagnostic {
    /// The name of the diagnostic.
    pub open spec fn name(self) -> Seq<char> {
        match self {
            FitDiagnostic::SlopeVsLogLevel => "slope_vs_log_n"@,
            FitDiagnostic::LogLogSlope => "loglog_slope_vs_n"@,
            FitDiagnostic::FinestRelativeChange => "finest_relative_change"@,
        }
    }

    /// What is expected of the value.
    pub open spec fn expectation(self) -> Seq<char> {
        match self {
            FitDiagnostic::SlopeVsLogLevel => "positive"@,
            FitDiagnostic::LogLogSlope => "positive, near +1 for point trace"@,
            FitDiagnostic::FinestRelativeChange => "small under convergence"@,
        }
    }

    /// What the value tells.
    pub open spec fn meaning(self) -> Seq<char> {
        match self {
            FitDiagnostic::SlopeVsLogLevel => "borderline_log_diagnostic"@,
            FitDiagnostic::LogLogSlope => "point_growth_diagnostic"@,
            FitDiagnostic::FinestRelativeChange => "convergence_diagnostic"@,
        }
    }
}

/// The diagnostic of a model and a kind.
pub open spec fn diagnostic_for(
    model: BranchFunctionalModel,
    observable_kind: BranchObservableKind,
) -> FitDiagnostic {
    match (model, observable_kind) {
        (BranchFunctionalModel::PotentialMatern, BranchObservableKind::Line) => {
            FitDiagnostic::SlopeVsLogLevel
        },
        (BranchFunctionalModel::PotentialMatern, _) => FitDiagnostic::LogLogSlope,
        _ => FitDiagnostic::FinestRelativeChange,
    }
}

/// The summaries that one fit is made of, coarsest mesh first.
#[derive(Debug)]
pub struct FitGroup {
    pub model: BranchFunctionalModel,
    pub component: BranchFunctionalComponent,
    pub observable_kind: BranchObservableKind,
    pub diagnostic: FitDiagnostic,
    pub members: Vec<usize>,
}

/// The keys by which summaries are fitted: by model, component and kind.
pub open spec fn fit_keys(rows: Seq<BranchFunctionalSummaryRow>) -> Seq<(usize, usize)> {
    rows.map_values(
        |row: BranchFunctionalSummaryRow|
            (0usize, case_code(row.model, row.component, row.observable_kind)),
    )
}

/// The groups with at least two summaries.
pub open spec fn fitted(groups: Seq<IndexGroup>) -> Seq<IndexGroup> {
    groups.filter(|group: IndexGroup| group.members.len() >= 2)
}

/// Whether a fit is made of the summaries of a group.
pub open spec fn is_fit_group(
    rows: Seq<BranchFunctionalSummaryRow>,
    group: IndexGroup,
    fit: FitGroup,
) -> bool {
    &&& group.key.1 == case_code(fit.model, fit.component, fit.observable_kind)
    &&& fit.diagnostic == diagnostic_for(fit.model, fit.observable_kind)
    &&& is_ranked(
        rows.map_values(|row: BranchFunctionalSummaryRow| row.n as int),
        group.members@,
        fit.members@,
    )
}

/// Whether the fits are those of the groups with at least two summaries.
pub open spec fn are_fit_groups(
    rows: Seq<BranchFunctionalSummaryRow>,
    groups: Seq<IndexGroup>,
    fits: Seq<FitGroup>,
) -> bool {
    &&& fits.len() == fitted(groups).len()
    &&& forall|f: int|
        #![trigger fits[f]]
        0 <= f < fits.len() ==> is_fit_group(rows, fitted(groups)[f], fits[f])
}

fn diagnostic_of(model: BranchFunctionalModel, observable_kind: BranchObservableKind) -> (diagnostic:
    FitDiagnostic)
    ensures
        diagnostic == diagnostic_for(model, observable_kind),
{
    match (model, observable_kind) {
        (BranchFunctionalModel::PotentialMatern, BranchObservableKind::Line) => {
            FitDiagnostic::SlopeVsLogLevel
        },
        (BranchFunctionalModel::PotentialMatern, _) => FitDiagnostic::LogLogSlope,
        _ => FitDiagnostic::FinestRelativeChange,
    }
}

/// Groups the summaries that are fitted together, in the order of model, component and kind. One
/// summary alone is not fitted.
pub fn fit_groups(rows: &Vec<BranchFunctionalSummaryRow>) -> (fits: Vec<FitGroup>)
    ensures
        exists|groups: Seq<IndexGroup>| #[trigger]
            is_grouping(fit_keys(rows@), groups) && are_fit_groups(rows@, groups, fits@),
{
    let mut keys: Vec<(usize, usize)> = Vec::new();
    let mut levels: Vec<usize> = Vec::new();
    let mut index: usize = 0;
    while index < rows.len()
        invariant
            index <= rows.len(),
            keys@ == fit_keys(rows@).take(index as int),
            levels.len() == index,
            forall|i: int| 0 <= i < index ==> #[trigger] levels@[i] == rows@[i].n,
        decreases rows.len() - index,
    {
        let row: &BranchFunctionalSummaryRow = &rows[index];
        keys.push((0, code_of(row.model, row.component, row.observable_kind)));
        levels.push(row.n);
        assert(fit_keys(rows@).take(index + 1) =~= fit_keys(rows@).take(index as int).push(
            fit_keys(rows@)[index as int],
        ));
        index = index + 1;
    }
    assert(keys@ =~= fit_keys(rows@));
    let ghost ranks = rows@.map_values(|row: BranchFunctionalSummaryRow| row.n as int);
    assert(levels@.map_values(|level: usize| level as int) =~= ranks);
    let groups = group_by_key(&keys);
    let ghost enough = |group: IndexGroup| group.members.len() >= 2;
    let mut fits: Vec<FitGroup> = Vec::new();
    let mut place: usize = 0;
    proof {
        reveal(Seq::filter);
        assert(groups@.take(0).filter(enough) =~= Seq::empty());
    }
    while place < groups.len()
        invariant
            place <= groups.len(),
            is_grouping(fit_keys(rows@), groups@),
            levels.len() == rows.len(),
            ranks == rows@.map_values(|row: BranchFunctionalSummaryRow| row.n as int),
            levels@.map_values(|level: usize| level as int) == ranks,
            enough == (|group: IndexGroup| group.members.len() >= 2),
            fits.len() == groups@.take(place as int).filter(enough).len(),
            forall|f: int|
                #![trigger fits@[f]]
                0 <= f < fits.len() ==> is_fit_group(
                    rows@,
                    groups@.take(place as int).filter(enough)[f],
                    fits@[f],
                ),
        decreases groups.len() - place,
    {
        let group: &IndexGroup = &groups[place];
        proof {
            reveal(Seq::filter);
            assert(groups@.take(place + 1).drop_last() =~= groups@.take(place as int));
            assert(groups@.take(place + 1).last() == *group);
        }
        if group.members.len() >= 2 {
            proof {
                assert(lists_members(fit_keys(rows@), group.key, group.members@));
                assert forall|i: int| 0 <= i < group.members.len() implies #[trigger] group.members@[i]
                    < rows.len() by {
                    assert(group.members@.contains(group.members@[i]));
                }
                assert(group.members@[0] < rows.len());
                assert(group.members@.contains(group.members@[0]));
            }
            let first: &BranchFunctionalSummaryRow = &rows[group.members[0]];
            let members = order_by_level(&levels, &group.members);
            fits.push(
                FitGroup {
                    model: first.model,
                    component: first.component,
                    observable_kind: first.observable_kind,
                    diagnostic: diagnostic_of(first.model, first.observable_kind),
                    members,
                },
            );
        }
        place = place + 1;
    }
    assert(groups@.take(place as int) =~= groups@);
    assert(are_fit_groups(rows@, groups@, fits@));
    fits
}

/// Makes the row of a fit.
pub fn fit_summary_row(fit: &FitGroup, value: Scalar) -> (row: BranchFunctionalFitSummaryRow)
    ensures
        row.model == fit.model,
        row.component == fit.component,
        row.observable_kind == fit.observable_kind,
        row.diagnostic@ == fit.diagnostic.name(),
        row.value == value,
        row.expected@ == fit.diagnostic.expectation(),
        row.status@ == fit.diagnostic.meaning(),
{
    let diagnostic: &str = match fit.diagnostic {
        FitDiagnostic::SlopeVsLogLevel => "slope_vs_log_n",
        FitDiagnostic::LogLogSlope => "loglog_slope_vs_n",
        FitDiagnostic::FinestRelativeChange => "finest_relative_change",
    };
    let expected: &str = match fit.diagnostic {
        FitDiagnostic::SlopeVsLogLevel => "positive",
        FitDiagnostic::LogLogSlope => "positive, near +1 for point trace",
        FitDiagnostic::FinestRelativeChange => "small under convergence",
    };
    let status: &str = match fit.diagnostic {
        FitDiagnostic::SlopeVsLogLevel => "borderline_log_diagnostic",
        FitDiagnostic::LogLogSlope => "point_growth_diagnostic",
        FitDiagnostic::FinestRelativeChange => "convergence_diagnostic",
    };
    BranchFunctionalFitSummaryRow {
        model: fit.model,
        component: fit.component,
        observable_kind: fit.observable_kind,
        diagnostic: String::from_str(diagnostic),
        value,
        expected: String::from_str(expected),
        status: String::from_str(status),
    }
}

/// The lines of the report, where the numbers of the configuration are given as texts.
pub open spec fn report_lines(levels: Seq<usize>, kappa: Seq<char>, tau: Seq<char>) -> Seq<
    Seq<char>,
> {
    seq![
        "# Hodge-Decomposed Cube Mesh-Invariance Report"@,
        ""@,
        "- levels: "@ + ("["@ + listed_numbers(levels) + "]"@),
        "- kappa: "@ + kappa,
        "- tau: "@ + tau,
        "- alpha: 2"@,
        "- observables: 27 fixed line integrals, 81 Whitney 1-form barycenter component rows, and 27 barycenter trace rows"@,
        "- models: baseline_hodge_matern full_1form, form_matern exact/coexact, and potential_matern exact/coexact"@,
        ""@,
        "All variances are exact sparse-solve transformed variances of sparse pushforward rows. No dense edge-space covariance matrix is formed."@,
    ]
}

/// Writes the report.
pub fn readme_text(levels: &Vec<usize>, kappa: &str, tau: &str) -> (text: String)
    ensures
        text@ == as_lines(report_lines(levels@, kappa@, tau@)),
{
    let mut level_line = String::from_str("- levels: ");
    level_line.append(list_text(levels).as_str());
    let mut kappa_line = String::from_str("- kappa: ");
    kappa_line.append(kappa);
    let mut tau_line = String::from_str("- tau: ");
    tau_line.append(tau);
    let lines: Vec<String> = vec![
        String::from_str("# Hodge-Decomposed Cube Mesh-Invariance Report"),
        String::from_str(""),
        level_line,
        kappa_line,
        tau_line,
        String::from_str("- alpha: 2"),
        String::from_str(
            "- observables: 27 fixed line integrals, 81 Whitney 1-form barycenter component rows, and 27 barycenter trace rows",
        ),
        String::from_str(
            "- models: baseline_hodge_matern full_1form, form_matern exact/coexact, and potential_matern exact/coexact",
        ),
        String::from_str(""),
        String::from_str(
            "All variances are exact sparse-solve transformed variances of sparse pushforward rows. No dense edge-space covariance matrix is formed.",
        ),
    ];
    assert(string_views(lines@) =~= report_lines(levels@, kappa@, tau@));
    join_lines(&lines)
}

} // verus!
