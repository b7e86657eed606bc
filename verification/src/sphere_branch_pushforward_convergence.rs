//! Covariances of one-form pushforwards on refined spheres.

pub mod pushforward_laws;
pub mod tables;

use crate::grouping::{are_ordered_groups, ordered_groups, IndexGroup};
use crate::hodge::HodgeBranchKind;
use crate::index_set::strictly_increasing;
use crate::order::comparable;
use crate::reconstruction::{copy_row, BarycenterReconstruction, WeightedEntry};
use crate::scalar::Scalar;
use crate::sphere_surface::{
    build_surface, coordinate_bits, faces_at, lemma_faces_fit, sphere_parts, SphereSurface,
    FINEST_LEVEL,
};
use crate::text::{count_text, decimal, three_digit_text, zero_padded};
use tables::{
    SphereBranchComponentVarianceRow, SphereBranchCovarianceSummaryRow, SphereBranchFitSummaryRow,
};
use vstd::prelude::*;

verus! {

/// A prior whose pushforward covariances are reported.
#[derive(Debug, Clone, Copy, PartialEq, Eq, PartialOrd, Ord, Structural)]
pub enum SphereBranchPushforwardModel {
    OrdinaryPotential,
    SpectrallyCorrected,
}

impl SphereBranchPushforwardModel {
    /// The name that stands for the variant in tables and labels.
    pub open spec fn name(self) -> Seq<char> {
        match self {
            SphereBranchPushforwardModel::OrdinaryPotential => "ordinary_potential"@,
            SphereBranchPushforwardModel::SpectrallyCorrected => "spectrally_corrected"@,
        }
    }

    /// The name as it is reported.
    pub fn as_str(self) -> (text: &'static str)
        ensures
            text@ == self.name(),
    {
        match self {
            SphereBranchPushforwardModel::OrdinaryPotential => "ordinary_potential",
            SphereBranchPushforwardModel::SpectrallyCorrected => "spectrally_corrected",
        }
    }

    /// The place of the model in the order of the models.
    pub open spec fn place(self) -> int {
        match self {
            SphereBranchPushforwardModel::OrdinaryPotential => 0,
            SphereBranchPushforwardModel::SpectrallyCorrected => 1,
        }
    }

    /// No two variants have the same name.
    pub proof fn lemma_names_distinct(
        left: SphereBranchPushforwardModel,
        right: SphereBranchPushforwardModel,
    )
        requires
            left.name() == right.name(),
        ensures
            left == right,
    {
        reveal_strlit("ordinary_potential");
        reveal_strlit("spectrally_corrected");
        assert("ordinary_potential"@.len() == 18);
        assert("spectrally_corrected"@.len() == 20);
    }
}

/// The part of a one-form that is pushed forward.
#[derive(Debug, Clone, Copy, PartialEq, Eq, PartialOrd, Ord, Structural)]
pub enum SphereBranchPushforwardComponent {
    Exact,
    Coexact,
    Joint,
}

impl SphereBranchPushforwardComponent {
    /// The name that stands for the variant in tables and labels.
    pub open spec fn name(self) -> Seq<char> {
        match self {
            SphereBranchPushforwardComponent::Exact => "exact"@,
            SphereBranchPushforwardComponent::Coexact => "coexact"@,
            SphereBranchPushforwardComponent::Joint => "joint"@,
        }
    }

    /// The name as it is reported.
    pub fn as_str(self) -> (text: &'static str)
        ensures
            text@ == self.name(),
    {
        match self {
            SphereBranchPushforwardComponent::Exact => "exact",
            SphereBranchPushforwardComponent::Coexact => "coexact",
            SphereBranchPushforwardComponent::Joint => "joint",
        }
    }

    /// The place of the component in the order of the components.
    pub open spec fn place(self) -> int {
        match self {
            SphereBranchPushforwardComponent::Exact => 0,
            SphereBranchPushforwardComponent::Coexact => 1,
            SphereBranchPushforwardComponent::Joint => 2,
        }
    }

    /// No two variants have the same name.
    pub proof fn lemma_names_distinct(
        left: SphereBranchPushforwardComponent,
        right: SphereBranchPushforwardComponent,
    )
        requires
            left.name() == right.name(),
        ensures
            left == right,
    {
        reveal_strlit("exact");
        reveal_strlit("coexact");
        reveal_strlit("joint");
        assert("exact"@[0] == 'e');
        assert("coexact"@.len() == 7);
        assert("exact"@.len() == 5 && "joint"@.len() == 5);
        assert("joint"@[0] == 'j');
    }

    /// The branches that make up the component.
    pub open spec fn parts(self) -> Seq<HodgeBranchKind> {
        match self {
            SphereBranchPushforwardComponent::Exact => seq![HodgeBranchKind::Exact],
            SphereBranchPushforwardComponent::Coexact => seq![HodgeBranchKind::Coexact],
            SphereBranchPushforwardComponent::Joint => seq![
                HodgeBranchKind::Exact,
                HodgeBranchKind::Coexact,
            ],
        }
    }

    /// Lists the branches that make up the component.
    pub fn branches(self) -> (branches: Vec<HodgeBranchKind>)
        ensures
            branches@ == self.parts(),
    {
        let branches: Vec<HodgeBranchKind> = match self {
            SphereBranchPushforwardComponent::Exact => vec![HodgeBranchKind::Exact],
            SphereBranchPushforwardComponent::Coexact => vec![HodgeBranchKind::Coexact],
            SphereBranchPushforwardComponent::Joint => vec![
                HodgeBranchKind::Exact,
                HodgeBranchKind::Coexact,
            ],
        };
        assert(branches@ =~= self.parts());
        branches
    }
}

/// How pushforward covariances are computed on refined spheres.
#[derive(Debug)]
pub struct SphereBranchPushforwardConvergenceConfig {
    pub refinement_levels: Vec<usize>,
    pub kappa: Scalar,
    pub tau: Scalar,
    pub analytic_lmax: usize,
    pub max_cells: usize,
}

impl Default for SphereBranchPushforwardConvergenceConfig {
    fn default() -> (config: Self)
        ensures
            config.refinement_levels@ == seq![1usize, 2, 3, 4],
            config.kappa == (Scalar { bits: 0x3ff0_0000_0000_0000 }),
            config.tau == (Scalar { bits: 0x3ff0_0000_0000_0000 }),
            config.analytic_lmax == 50,
            config.max_cells == 24,
    {
        let refinement_levels: Vec<usize> = vec![1, 2, 3, 4];
        assert(refinement_levels@ =~= seq![1usize, 2, 3, 4]);
        SphereBranchPushforwardConvergenceConfig {
            refinement_levels,
            kappa: Scalar { bits: 0x3ff0_0000_0000_0000 },
            tau: Scalar { bits: 0x3ff0_0000_0000_0000 },
            analytic_lmax: 50,
            max_cells: 24,
        }
    }
}

impl SphereBranchPushforwardConvergenceConfig {
    /// What a configuration must not be, in the order of the tests, or nothing.
    pub open spec fn fault(&self) -> Option<Seq<char>> {
        if self.refinement_levels.len() == 0 {
            Some("at least one sphere refinement level is required"@)
        } else if !self.kappa.positive() {
            Some("kappa must be finite and positive"@)
        } else if !self.tau.positive() {
            Some("tau must be finite and positive"@)
        } else if self.analytic_lmax == 0 {
            Some("analytic_lmax must be positive"@)
        } else if self.max_cells == 0 {
            Some("max_cells must be positive"@)
        } else {
            None
        }
    }
}

/// Tests a configuration.
pub fn validate_config(config: &SphereBranchPushforwardConvergenceConfig) -> (result: Result<
    (),
    String,
>)
    ensures
        match result {
            Ok(_) => config.fault() is None,
            Err(message) => config.fault() == Some(message@),
        },
{
    if config.refinement_levels.len() == 0 {
        return Err(String::from_str("at least one sphere refinement level is required"));
    }
    if !config.kappa.is_positive() {
        return Err(String::from_str("kappa must be finite and positive"));
    }
    if !config.tau.is_positive() {
        return Err(String::from_str("tau must be finite and positive"));
    }
    if config.analytic_lmax == 0 {
        return Err(String::from_str("analytic_lmax must be positive"));
    }
    if config.max_cells == 0 {
        return Err(String::from_str("max_cells must be positive"));
    }
    Ok(())
}

/// A model with one of its components.
#[derive(Debug, Clone, Copy, PartialEq, Eq, Structural)]
pub struct PushforwardCase {
    pub model: SphereBranchPushforwardModel,
    pub component: SphereBranchPushforwardComponent,
}

/// The models in the order in which they are reported.
pub open spec fn model_at(index: int) -> SphereBranchPushforwardModel {
    if index == 0 {
        SphereBranchPushforwardModel::OrdinaryPotential
    } else {
        SphereBranchPushforwardModel::SpectrallyCorrected
    }
}

/// The components in the order in which they are reported.
pub open spec fn component_at(index: int) -> SphereBranchPushforwardComponent {
    if index == 0 {
        SphereBranchPushforwardComponent::Exact
    } else if index == 1 {
        SphereBranchPushforwardComponent::Coexact
    } else {
        SphereBranchPushforwardComponent::Joint
    }
}

/// Lists the models and components that are reported on every mesh.
pub fn report_cases() -> (cases: Vec<PushforwardCase>)
    ensures
        cases@ == Seq::new(
            6,
            |i: int| PushforwardCase { model: model_at(i / 3), component: component_at(i % 3) },
        ),
{
    let models: Vec<SphereBranchPushforwardModel> = vec![
        SphereBranchPushforwardModel::OrdinaryPotential,
        SphereBranchPushforwardModel::SpectrallyCorrected,
    ];
    let components: Vec<SphereBranchPushforwardComponent> = vec![
        SphereBranchPushforwardComponent::Exact,
        SphereBranchPushforwardComponent::Coexact,
        SphereBranchPushforwardComponent::Joint,
    ];
    let mut cases: Vec<PushforwardCase> = Vec::new();
    let mut index: usize = 0;
    while index < 6
        invariant
            index <= 6,
            models.len() == 2,
            forall|i: int| 0 <= i < 2 ==> #[trigger] models@[i] == model_at(i),
            components.len() == 3,
            forall|i: int| 0 <= i < 3 ==> #[trigger] components@[i] == component_at(i),
            cases.len() == index,
            forall|i: int|
                0 <= i < index ==> #[trigger] cases@[i] == (PushforwardCase {
                    model: model_at(i / 3),
                    component: component_at(i % 3),
                }),
        decreases 6 - index,
    {
        cases.push(PushforwardCase { model: models[index / 3], component: components[index % 3] });
        index = index + 1;
    }
    assert(cases@ =~= Seq::new(
        6,
        |i: int| PushforwardCase { model: model_at(i / 3), component: component_at(i % 3) },
    ));
    cases
}

/// The places of evenly spaced items: all of them, or as many as are wanted.
pub open spec fn spaced(len: nat, max_count: nat) -> Seq<usize> {
    if len <= max_count {
        Seq::new(len, |i: int| i as usize)
    } else {
        Seq::new(max_count, |i: int| (i * len / max_count as int) as usize)
    }
}

/// Spreads at most `max_count` places evenly over `len` items.
pub fn evenly_spaced_indices(len: usize, max_count: usize) -> (places: Vec<usize>)
    requires
        max_count < len ==> (max_count - 1) * len <= usize::MAX,
    ensures
        places@ == spaced(len as nat, max_count as nat),
{
    let mut places: Vec<usize> = Vec::new();
    if len <= max_count {
        let mut index: usize = 0;
        while index < len
            invariant
                index <= len,
                places.len() == index,
                forall|i: int| 0 <= i < index ==> #[trigger] places@[i] == i,
            decreases len - index,
        {
            places.push(index);
            index = index + 1;
        }
        assert(places@ =~= spaced(len as nat, max_count as nat));
        return places;
    }
    let mut index: usize = 0;
    while index < max_count
        invariant
            index <= max_count,
            max_count < len,
            (max_count - 1) * len <= usize::MAX,
            places.len() == index,
            forall|i: int|
                0 <= i < index ==> #[trigger] places@[i] == (i * len / max_count as int) as usize,
        decreases max_count - index,
    {
        assert(index * len <= (max_count - 1) * len) by (nonlinear_arith)
            requires
                index <= max_count - 1,
                0 <= len,
        ;
        places.push(index * len / max_count);
        index = index + 1;
    }
    assert(places@ =~= spaced(len as nat, max_count as nat));
    places
}

/// Builds the surface of a level and chooses at most `max_cells` of its faces.
pub fn build_level(level: usize, max_cells: usize) -> (result: (SphereSurface, Vec<usize>))
    requires
        level <= FINEST_LEVEL,
        max_cells < faces_at(level as nat) ==> (max_cells - 1) * faces_at(level as nat)
            <= usize::MAX,
    ensures
        coordinate_bits(result.0.positions@) == sphere_parts(level).0,
        result.0.edges@ == sphere_parts(level).1,
        result.0.faces@ == sphere_parts(level).2,
        result.0.wf(),
        result.1@ == spaced(faces_at(level as nat), max_cells as nat),
{
    let surface = build_surface(level);
    proof {
        lemma_faces_fit(level as nat);
    }
    let selected = evenly_spaced_indices(surface.faces.len(), max_cells);
    (surface, selected)
}

/// Evenly spaced places are as many as are wanted but no more than there are items, lie among the
/// items, rise without repeating, and start with the first item.
pub proof fn lemma_spaced(len: nat, max_count: nat)
    requires
        len <= usize::MAX,
    ensures
        spaced(len, max_count).len() == if len <= max_count {
            len
        } else {
            max_count
        },
        forall|i: int|
            0 <= i < spaced(len, max_count).len() ==> #[trigger] spaced(len, max_count)[i] < len,
        strictly_increasing(spaced(len, max_count)),
        spaced(len, max_count).len() > 0 ==> spaced(len, max_count)[0] == 0,
{
    let places = spaced(len, max_count);
    if len > max_count {
        assert forall|i: int| 0 <= i < places.len() implies #[trigger] places[i] < len && places[i]
            == i * len / max_count as int by {
            lemma_spaced_place(len as int, max_count as int, i);
        }
        assert forall|i: int, j: int| 0 <= i < j < places.len() implies #[trigger] places[i]
            < #[trigger] places[j] by {
            lemma_spaced_rise(len as int, max_count as int, i, j);
        }
        if max_count > 0 {
            assert(0 * len == 0);
            assert(places[0] == 0);
        }
    }
}

proof fn lemma_spaced_place(len: int, max_count: int, i: int)
    requires
        0 <= i < max_count < len,
    ensures
        0 <= i * len / max_count < len,
{
    assert(0 <= i * len < max_count * len) by (nonlinear_arith)
        requires
            0 <= i < max_count < len,
    ;
    assert(0 <= i * len / max_count < len) by (nonlinear_arith)
        requires
            0 <= i * len < max_count * len,
            0 < max_count,
    ;
}

proof fn lemma_spaced_rise(len: int, max_count: int, i: int, j: int)
    requires
        0 <= i < j < max_count < len,
    ensures
        i * len / max_count < j * len / max_count,
{
    assert(i * len + max_count <= j * len) by (nonlinear_arith)
        requires
            0 <= i < j < max_count < len,
    ;
    assert((i * len + max_count) / max_count == i * len / max_count + 1) by {
        vstd::arithmetic::div_mod::lemma_div_plus_one(i * len, max_count);
    }
    vstd::arithmetic::div_mod::lemma_div_is_ordered(i * len + max_count, j * len, max_count);
}

/// The message for a chosen cell that the mesh does not have.
pub open spec fn cell_message(cell: nat) -> Seq<char> {
    "selected cell "@ + decimal(cell) + " is out of bounds"@
}

/// Whether the first chosen cell that a component has no row for is at the given place.
pub open spec fn first_unread(
    reconstruction: BarycenterReconstruction,
    cells: Seq<usize>,
    component: int,
    point: int,
) -> bool {
    &&& 0 <= component < reconstruction.components.len()
    &&& 0 <= point < cells.len()
    &&& !reads(reconstruction, cells, component, point)
    &&& forall|c: int, p: int|
        0 <= c < reconstruction.components.len() && 0 <= p < cells.len() && (c < component || (c
            == component && p < point)) ==> #[trigger] reads(reconstruction, cells, c, p)
}

/// Whether a component can be read at a chosen cell.
pub open spec fn reads(
    reconstruction: BarycenterReconstruction,
    cells: Seq<usize>,
    component: int,
    point: int,
) -> bool {
    cells[point] < reconstruction.components@[component].len()
}

/// Stacks the rows that read the components of the field at the chosen cells: the components come
/// one after the other, each at all cells.
pub fn stacked_barycenter_reconstruction_operator(
    reconstruction: &BarycenterReconstruction,
    selected_cells: &Vec<usize>,
) -> (result: Result<Vec<Vec<WeightedEntry>>, String>)
    requires
        reconstruction.components.len() * selected_cells.len() <= usize::MAX,
    ensures
        match result {
            Ok(rows) => {
                &&& rows.len() == reconstruction.components.len() * selected_cells.len()
                &&& forall|c: int, p: int|
                    0 <= c < reconstruction.components.len() && 0 <= p < selected_cells.len()
                        ==> #[trigger] reads(*reconstruction, selected_cells@, c, p)
                &&& forall|k: int|
                    0 <= k < rows.len() ==> (#[trigger] rows@[k])@ == reconstruction.row_at(
                        k / selected_cells.len() as int,
                        selected_cells@[k % selected_cells.len() as int] as int,
                    )
            },
            Err(message) => exists|c: int, p: int| #[trigger]
                first_unread(*reconstruction, selected_cells@, c, p) && message@ == cell_message(
                    selected_cells@[p] as nat,
                ),
        },
{
    let count: usize = selected_cells.len();
    let mut rows: Vec<Vec<WeightedEntry>> = Vec::new();
    let mut component: usize = 0;
    while component < reconstruction.components.len()
        invariant
            component <= reconstruction.components.len(),
            count == selected_cells.len(),
            rows.len() == component * count,
            forall|c: int, p: int|
                0 <= c < component && 0 <= p < count ==> #[trigger] reads(
                    *reconstruction,
                    selected_cells@,
                    c,
                    p,
                ),
            forall|k: int|
                0 <= k < rows.len() ==> (#[trigger] rows@[k])@ == reconstruction.row_at(
                    k / count as int,
                    selected_cells@[k % count as int] as int,
                ),
        decreases reconstruction.components.len() - component,
    {
        let component_rows: &Vec<Vec<WeightedEntry>> = &reconstruction.components[component];
        let mut point: usize = 0;
        while point < count
            invariant
                point <= count,
                component < reconstruction.components.len(),
                count == selected_cells.len(),
                *component_rows == reconstruction.components@[component as int],
                rows.len() == component * count + point,
                forall|c: int, p: int|
                    0 <= c < reconstruction.components.len() && 0 <= p < count && (c < component
                        || (c == component && p < point)) ==> #[trigger] reads(
                        *reconstruction,
                        selected_cells@,
                        c,
                        p,
                    ),
                forall|k: int|
                    0 <= k < rows.len() ==> (#[trigger] rows@[k])@ == reconstruction.row_at(
                        k / count as int,
                        selected_cells@[k % count as int] as int,
                    ),
            decreases count - point,
        {
            let cell: usize = selected_cells[point];
            if cell >= component_rows.len() {
                let mut message = String::from_str("selected cell ");
                message.append(count_text(cell).as_str());
                message.append(" is out of bounds");
                assert(!reads(*reconstruction, selected_cells@, component as int, point as int));
                assert(first_unread(
                    *reconstruction,
                    selected_cells@,
                    component as int,
                    point as int,
                ));
                return Err(message);
            }
            let row = copy_row(&component_rows[cell]);
            proof {
                vstd::arithmetic::div_mod::lemma_fundamental_div_mod_converse(
                    rows.len() as int,
                    count as int,
                    component as int,
                    point as int,
                );
            }
            rows.push(row);
            point = point + 1;
        }
        proof {
            assert((component + 1) * count == component * count + count) by (nonlinear_arith);
        }
        component = component + 1;
    }
    Ok(rows)
}

/// Tests that all chosen cells are cells of the mesh.
pub fn check_selected_cells(cell_count: usize, selected_cells: &Vec<usize>) -> (result: Result<
    (),
    String,
>)
    ensures
        match result {
            Ok(_) => forall|p: int|
                0 <= p < selected_cells.len() ==> #[trigger] selected_cells@[p] < cell_count,
            Err(message) => exists|p: int|
                {
                    &&& 0 <= p < selected_cells.len()
                    &&& #[trigger] selected_cells@[p] >= cell_count
                    &&& message@ == cell_message(selected_cells@[p] as nat)
                    &&& forall|q: int| 0 <= q < p ==> #[trigger] selected_cells@[q] < cell_count
                },
        },
{
    let mut index: usize = 0;
    while index < selected_cells.len()
        invariant
            index <= selected_cells.len(),
            forall|p: int| 0 <= p < index ==> #[trigger] selected_cells@[p] < cell_count,
        decreases selected_cells.len() - index,
    {
        if selected_cells[index] >= cell_count {
            let mut message = String::from_str("selected cell ");
            message.append(count_text(selected_cells[index]).as_str());
            message.append(" is out of bounds");
            assert(selected_cells@[index as int] >= cell_count);
            return Err(message);
        }
        index = index + 1;
    }
    Ok(())
}

/// The encoding of the largest length of a barycenter that counts as zero.
pub const ZERO_LENGTH_BITS: u64 = 0x3d06_849b_86a1_2b9b;

/// Tests that a barycenter can be moved to the unit sphere, given its length.
pub fn check_barycenter_length(length: Scalar) -> (result: Result<(), String>)
    ensures
        match result {
            Ok(_) => !length.le(Scalar { bits: ZERO_LENGTH_BITS }),
            Err(message) => length.le(Scalar { bits: ZERO_LENGTH_BITS }) && message@
                == "cannot normalize zero barycenter"@,
        },
{
    if length.at_most(Scalar { bits: ZERO_LENGTH_BITS }) {
        return Err(String::from_str("cannot normalize zero barycenter"));
    }
    Ok(())
}

/// The name of a component at a chosen cell.
pub open spec fn functional_name(point: nat, cell: nat, component: nat) -> Seq<char> {
    "point_"@ + zero_padded(point, 3) + "_cell"@ + decimal(cell) + "_component"@ + decimal(
        component,
    )
}

/// The variance of a component with its errors.
#[derive(Debug, Clone, Copy, PartialEq, Eq, Structural)]
pub struct ComponentVariance {
    pub model_variance: Scalar,
    pub analytic_variance: Scalar,
    pub absolute_error: Scalar,
    pub relative_error: Scalar,
}

/// Whether row `k` reports the variance of a component at a chosen cell.
pub open spec fn reports_component(
    refinement_level: usize,
    h: Scalar,
    case: PushforwardCase,
    cells: Seq<usize>,
    k: int,
    variance: ComponentVariance,
    row: SphereBranchComponentVarianceRow,
) -> bool {
    let component = k / cells.len() as int;
    let point = k % cells.len() as int;
    &&& row.refinement_level == refinement_level
    &&& row.h == h
    &&& row.model == case.model
    &&& row.component == case.component
    &&& row.point_index == point
    &&& row.cell_index == cells[point]
    &&& row.component_index == component
    &&& row.functional_id@ == functional_name(point as nat, cells[point] as nat, component as nat)
    &&& row.model_variance == variance.model_variance
    &&& row.analytic_variance == variance.analytic_variance
    &&& row.absolute_error == variance.absolute_error
    &&& row.relative_error == variance.relative_error
}

/// Makes the rows of the components at the chosen cells. There is at least one cell where there is
/// a variance.
pub fn component_variance_rows(
    refinement_level: usize,
    h: Scalar,
    case: PushforwardCase,
    selected_cells: &Vec<usize>,
    variances: &Vec<ComponentVariance>,
) -> (rows: Vec<SphereBranchComponentVarianceRow>)
    requires
        variances.len() > 0 ==> selected_cells.len() > 0,
    ensures
        rows.len() == variances.len(),
        forall|k: int|
            0 <= k < rows.len() ==> reports_component(
                refinement_level,
                h,
                case,
                selected_cells@,
                k,
                variances@[k],
                #[trigger] rows@[k],
            ),
{
    let mut rows: Vec<SphereBranchComponentVarianceRow> = Vec::new();
    let mut index: usize = 0;
    while index < variances.len()
        invariant
            index <= variances.len(),
            variances.len() > 0 ==> selected_cells.len() > 0,
            rows.len() == index,
            forall|k: int|
                0 <= k < rows.len() ==> reports_component(
                    refinement_level,
                    h,
                    case,
                    selected_cells@,
                    k,
                    variances@[k],
                    #[trigger] rows@[k],
                ),
        decreases variances.len() - index,
    {
        let component_index: usize = index / selected_cells.len();
        let point_index: usize = index % selected_cells.len();
        let cell_index: usize = selected_cells[point_index];
        let variance: ComponentVariance = variances[index];
        let mut functional_id = String::from_str("point_");
        functional_id.append(three_digit_text(point_index).as_str());
        functional_id.append("_cell");
        functional_id.append(count_text(cell_index).as_str());
        functional_id.append("_component");
        functional_id.append(count_text(component_index).as_str());
        rows.push(
            SphereBranchComponentVarianceRow {
                refinement_level,
                h,
                model: case.model,
                component: case.component,
                point_index,
                cell_index,
                component_index,
                functional_id,
                model_variance: variance.model_variance,
                analytic_variance: variance.analytic_variance,
                absolute_error: variance.absolute_error,
                relative_error: variance.relative_error,
            },
        );
        index = index + 1;
    }
    rows
}

/// The shape of a matrix.
#[derive(Debug, Clone, Copy, PartialEq, Eq, Structural)]
pub struct MatrixShape {
    pub rows: usize,
    pub columns: usize,
}

/// The message for covariances of different shapes.
pub open spec fn shape_message(model: MatrixShape, analytic: MatrixShape) -> Seq<char> {
    "covariance shape mismatch: model "@ + decimal(model.rows as nat) + "x"@ + decimal(
        model.columns as nat,
    ) + ", analytic "@ + decimal(analytic.rows as nat) + "x"@ + decimal(analytic.columns as nat)
}

/// Tests that two covariances have the same shape.
pub fn check_shapes(model: MatrixShape, analytic: MatrixShape) -> (result: Result<(), String>)
    ensures
        match result {
            Ok(_) => model == analytic,
            Err(message) => model != analytic && message@ == shape_message(model, analytic),
        },
{
    if model == analytic {
        return Ok(());
    }
    let mut message = String::from_str("covariance shape mismatch: model ");
    message.append(count_text(model.rows).as_str());
    message.append("x");
    message.append(count_text(model.columns).as_str());
    message.append(", analytic ");
    message.append(count_text(analytic.rows).as_str());
    message.append("x");
    message.append(count_text(analytic.columns).as_str());
    Err(message)
}

/// A mesh of the sphere by its sizes, with the number of chosen cells.
#[derive(Debug, Clone, Copy, PartialEq, Eq, Structural)]
pub struct LevelSizes {
    pub refinement_level: usize,
    pub h: Scalar,
    pub vertex_count: usize,
    pub edge_count: usize,
    pub cell_count: usize,
    pub selected_cell_count: usize,
}

/// Counts the simplices of a surface and the chosen cells. The mesh width is given.
pub fn measure_level(
    refinement_level: usize,
    h: Scalar,
    surface: &SphereSurface,
    selected_cells: &Vec<usize>,
) -> (level: LevelSizes)
    ensures
        level.refinement_level == refinement_level,
        level.h == h,
        level.vertex_count == surface.positions.len(),
        level.edge_count == surface.edges.len(),
        level.cell_count == surface.faces.len(),
        level.selected_cell_count == selected_cells.len(),
{
    LevelSizes {
        refinement_level,
        h,
        vertex_count: surface.positions.len(),
        edge_count: surface.edges.len(),
        cell_count: surface.faces.len(),
        selected_cell_count: selected_cells.len(),
    }
}

/// A covariance by its sizes.
#[derive(Debug, Clone, Copy, PartialEq, Eq, Structural)]
pub struct CovarianceSizes {
    pub latent_dofs: usize,
    pub precision_nnz: usize,
    pub model: MatrixShape,
    pub analytic: MatrixShape,
}

/// How a covariance differs from the analytic one.
#[derive(Debug, Clone, Copy, PartialEq, Eq, Structural)]
pub struct CovarianceErrors {
    pub relative_frobenius_error: Scalar,
    pub diagonal_relative_l2_error: Scalar,
    pub rescaled_relative_frobenius_error: Scalar,
    pub best_scalar: Scalar,
    pub model_trace: Scalar,
    pub analytic_trace: Scalar,
    pub trace_ratio: Scalar,
}

/// Makes the row that compares a covariance with the analytic one, which must have the same shape.
pub fn covariance_summary_row(
    level: LevelSizes,
    case: PushforwardCase,
    sizes: CovarianceSizes,
    errors: CovarianceErrors,
) -> (result: Result<SphereBranchCovarianceSummaryRow, String>)
    ensures
        match result {
            Ok(row) => {
                &&& sizes.model == sizes.analytic
                &&& row.refinement_level == level.refinement_level
                &&& row.h == level.h
                &&& row.vertex_count == level.vertex_count
                &&& row.edge_count == level.edge_count
                &&& row.cell_count == level.cell_count
                &&& row.selected_cell_count == level.selected_cell_count
                &&& row.model == case.model
                &&& row.component == case.component
                &&& row.latent_dofs == sizes.latent_dofs
                &&& row.precision_nnz == sizes.precision_nnz
                &&& row.covariance_dimension == sizes.model.rows
                &&& row.relative_frobenius_error == errors.relative_frobenius_error
                &&& row.diagonal_relative_l2_error == errors.diagonal_relative_l2_error
                &&& row.best_scalar_rescaled_relative_frobenius_error
                    == errors.rescaled_relative_frobenius_error
                &&& row.best_scalar == errors.best_scalar
                &&& row.model_trace == errors.model_trace
                &&& row.analytic_trace == errors.analytic_trace
                &&& row.trace_ratio == errors.trace_ratio
            },
            Err(message) => sizes.model != sizes.analytic && message@ == shape_message(
                sizes.model,
                sizes.analytic,
            ),
        },
{
    match check_shapes(sizes.model, sizes.analytic) {
        Err(message) => Err(message),
        Ok(_) => Ok(
            SphereBranchCovarianceSummaryRow {
                refinement_level: level.refinement_level,
                h: level.h,
                vertex_count: level.vertex_count,
                edge_count: level.edge_count,
                cell_count: level.cell_count,
                selected_cell_count: level.selected_cell_count,
                model: case.model,
                component: case.component,
                latent_dofs: sizes.latent_dofs,
                precision_nnz: sizes.precision_nnz,
                covariance_dimension: sizes.model.rows,
                relative_frobenius_error: errors.relative_frobenius_error,
                diagonal_relative_l2_error: errors.diagonal_relative_l2_error,
                best_scalar_rescaled_relative_frobenius_error:
                    errors.rescaled_relative_frobenius_error,
                best_scalar: errors.best_scalar,
                model_trace: errors.model_trace,
                analytic_trace: errors.analytic_trace,
                trace_ratio: errors.trace_ratio,
            },
        ),
    }
}

/// A number that orders models and components: by model, then by component.
pub open spec fn case_code(case: PushforwardCase) -> usize {
    (case.model.place() * 3 + case.component.place()) as usize
}

/// The code tells models and components apart.
pub proof fn lemma_case_code(left: PushforwardCase, right: PushforwardCase)
    ensures
        case_code(left) == case_code(right) <==> left == right,
{
}

fn code_of(case: PushforwardCase) -> (code: usize)
    ensures
        code == case_code(case),
{
    let first: usize = match case.model {
        SphereBranchPushforwardModel::OrdinaryPotential => 0,
        SphereBranchPushforwardModel::SpectrallyCorrected => 1,
    };
    let second: usize = match case.component {
        SphereBranchPushforwardComponent::Exact => 0,
        SphereBranchPushforwardComponent::Coexact => 1,
        SphereBranchPushforwardComponent::Joint => 2,
    };
    first * 3 + second
}

/// The keys by which summaries are fitted: by model and component.
pub open spec fn fit_keys(rows: Seq<SphereBranchCovarianceSummaryRow>) -> Seq<(usize, usize)> {
    rows.map_values(
        |row: SphereBranchCovarianceSummaryRow|
            (
                0usize,
                case_code(PushforwardCase { model: row.model, component: row.component }),
            ),
    )
}

/// The mesh widths of summaries.
pub open spec fn summary_widths(rows: Seq<SphereBranchCovarianceSummaryRow>) -> Seq<Scalar> {
    rows.map_values(|row: SphereBranchCovarianceSummaryRow| row.h)
}

/// Groups the summaries that are fitted together, in the order of model and component, each group
/// by mesh width, finest first. One summary alone is not fitted.
pub fn fit_groups(rows: &Vec<SphereBranchCovarianceSummaryRow>) -> (groups: Vec<IndexGroup>)
    requires
        comparable(summary_widths(rows@)),
    ensures
        are_ordered_groups(
            fit_keys(rows@),
            summary_widths(rows@).map_values(|width: Scalar| width.rank()),
            groups@,
        ),
{
    let mut keys: Vec<(usize, usize)> = Vec::new();
    let mut widths: Vec<Scalar> = Vec::new();
    let mut index: usize = 0;
    while index < rows.len()
        invariant
            index <= rows.len(),
            keys@ == fit_keys(rows@).take(index as int),
            widths@ == summary_widths(rows@).take(index as int),
        decreases rows.len() - index,
    {
        let row: &SphereBranchCovarianceSummaryRow = &rows[index];
        keys.push((0, code_of(PushforwardCase { model: row.model, component: row.component })));
        widths.push(row.h);
        proof {
            let full = fit_keys(rows@);
            let wide = summary_widths(rows@);
            assert(full.take(index + 1) =~= full.take(index as int).push(full[index as int]));
            assert(wide.take(index + 1) =~= wide.take(index as int).push(wide[index as int]));
        }
        index = index + 1;
    }
    assert(keys@ =~= fit_keys(rows@));
    assert(widths@ =~= summary_widths(rows@));
    ordered_groups(&keys, &widths)
}

/// What is expected of the fits of a model.
pub open spec fn model_status(model: SphereBranchPushforwardModel) -> Seq<char> {
    match model {
        SphereBranchPushforwardModel::SpectrallyCorrected => "expected_convergent"@,
        SphereBranchPushforwardModel::OrdinaryPotential => "diagnostic_baseline"@,
    }
}

/// Says what is expected of the fits of a model.
pub fn fit_status(model: SphereBranchPushforwardModel) -> (status: &'static str)
    ensures
        status@ == model_status(model),
{
    match model {
        SphereBranchPushforwardModel::SpectrallyCorrected => "expected_convergent",
        SphereBranchPushforwardModel::OrdinaryPotential => "diagnostic_baseline",
    }
}

/// Whether a row reports a slope of a fit.
pub open spec fn reports_fit(
    summary: SphereBranchCovarianceSummaryRow,
    diagnostic: Seq<char>,
    expected: Seq<char>,
    value: Scalar,
    row: SphereBranchFitSummaryRow,
) -> bool {
    &&& row.model == summary.model
    &&& row.component == summary.component
    &&& row.diagnostic@ == diagnostic
    &&& row.value == value
    &&& row.expected@ == expected
    &&& row.status@ == model_status(summary.model)
}

fn fit_row(
    summary: &SphereBranchCovarianceSummaryRow,
    diagnostic: &str,
    expected: &str,
    value: Scalar,
) -> (row: SphereBranchFitSummaryRow)
    ensures
        reports_fit(*summary, diagnostic@, expected@, value, row),
{
    SphereBranchFitSummaryRow {
        model: summary.model,
        component: summary.component,
        diagnostic: String::from_str(diagnostic),
        value,
        expected: String::from_str(expected),
        status: String::from_str(fit_status(summary.model)),
    }
}

/// Makes the two rows of a fit: the slopes of the error of the covariance and of the error of its
/// diagonal over the mesh width.
pub fn fit_summary_rows(
    rows: &Vec<SphereBranchCovarianceSummaryRow>,
    members: &Vec<usize>,
    frobenius_slope: Scalar,
    diagonal_slope: Scalar,
) -> (pair: Vec<SphereBranchFitSummaryRow>)
    requires
        members.len() > 0,
        members@[0] < rows.len(),
    ensures
        pair.len() == 2,
        reports_fit(
            rows@[members@[0] as int],
            "loglog_slope_relative_frobenius_vs_h"@,
            "positive under convergence"@,
            frobenius_slope,
            pair@[0],
        ),
        reports_fit(
            rows@[members@[0] as int],
            "loglog_slope_diagonal_relative_l2_vs_h"@,
            "positive under diagonal convergence"@,
            diagonal_slope,
            pair@[1],
        ),
{
    let first: &SphereBranchCovarianceSummaryRow = &rows[members[0]];
    let mut pair: Vec<SphereBranchFitSummaryRow> = Vec::new();
    pair.push(
        fit_row(
            first,
            "loglog_slope_relative_frobenius_vs_h",
            "positive under convergence",
            frobenius_slope,
        ),
    );
    pair.push(
        fit_row(
            first,
            "loglog_slope_diagonal_relative_l2_vs_h",
            "positive under diagonal convergence",
            diagonal_slope,
        ),
    );
    pair
}

} // verus!
