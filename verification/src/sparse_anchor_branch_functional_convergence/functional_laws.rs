//! What holds of the observed points, of what is expected of the variances, and of the rows that
//! are collected, summed up and fitted together.

use super::tables::{BranchFunctionalSummaryRow, BranchFunctionalVarianceRow};
use super::{
    are_fit_groups, diagnostic_for, expected_status, fit_keys, fitted, is_fit_group,
    lemma_case_code, model_components, point_keys, point_numerators, summary_keys, support_sum,
    valid_level, BranchFunctionalComponent, BranchFunctionalModel, BranchObservableKind, FitGroup,
    PointComponentObservable,
};
use crate::grouping::{is_grouping, lemma_grouped_together, ranked_before, together, IndexGroup};
use crate::hodge::HodgeBranchKind;
use crate::order::lemma_filter_keeps_places;
use vstd::prelude::*;

verus! {

/// Whether a number of quarters of a side lies at the vertex of the given number, where the side
/// is cut into `level` parts.
pub open spec fn lies_at_vertex(level: usize, quarters: int, vertex: int) -> bool {
    4 * vertex == quarters * level
}

/// A level is valid if and only if the first quarter of a side lies at a vertex of its mesh; the
/// second and the third then do too, so that all observed points are vertices.
pub proof fn lemma_valid_levels(level: usize)
    ensures
        valid_level(level) <==> level > 0 && exists|vertex: int| #[trigger]
            lies_at_vertex(level, 1, vertex),
        valid_level(level) ==> (exists|vertex: int| #[trigger] lies_at_vertex(level, 2, vertex))
            && (exists|vertex: int| #[trigger] lies_at_vertex(level, 3, vertex)),
{
    if valid_level(level) {
        let part = level as int / 4;
        assert(lies_at_vertex(level, 1, part));
        assert(lies_at_vertex(level, 2, 2 * part));
        assert(lies_at_vertex(level, 3, 3 * part));
    }
    if exists|vertex: int| #[trigger] lies_at_vertex(level, 1, vertex) {
        let vertex = choose|vertex: int| #[trigger] lies_at_vertex(level, 1, vertex);
        assert(level == 4 * vertex);
    }
}

/// The observed points are the 27 points whose coordinates are one, two or three quarters: each of
/// them has exactly one number.
pub proof fn lemma_points_fill_grid(x: int, y: int, z: int)
    requires
        1 <= x <= 3,
        1 <= y <= 3,
        1 <= z <= 3,
    ensures
        exists|index: int| 0 <= index < 27 && #[trigger] point_numerators(index) == (x, y, z),
        forall|index: int|
            0 <= index < 27 ==> {
                let point = #[trigger] point_numerators(index);
                1 <= point.0 <= 3 && 1 <= point.1 <= 3 && 1 <= point.2 <= 3
            },
        forall|i: int, j: int|
            0 <= i < 27 && 0 <= j < 27 && #[trigger] point_numerators(i)
                == #[trigger] point_numerators(j) ==> i == j,
{
    let index = 9 * (x - 1) + 3 * (y - 1) + (z - 1);
    assert(index / 9 == x - 1 && (index / 3) % 3 == y - 1 && index % 3 == z - 1);
    assert(point_numerators(index) == (x, y, z));
}

/// Only the baseline is reported as a whole; the other models are reported in their exact and
/// coexact parts, each of which is the branch of its name.
pub proof fn lemma_reported_components(
    model: BranchFunctionalModel,
    component: BranchFunctionalComponent,
)
    ensures
        model_components(model).contains(component) <==> if model is BaselineHodgeMatern {
            component is Full1Form
        } else {
            component is Exact || component is Coexact
        },
        component.parts().contains(HodgeBranchKind::Exact) <==> component is Exact
            || component is JointTotal,
        component.parts().contains(HodgeBranchKind::Coexact) <==> component is Coexact
            || component is JointTotal,
        !component.parts().contains(HodgeBranchKind::Harmonic),
        component.parts().no_duplicates(),
{
    let all = model_components(model);
    if model is BaselineHodgeMatern {
        assert(all[0] == BranchFunctionalComponent::Full1Form);
    } else {
        assert(all[0] == BranchFunctionalComponent::Exact);
        assert(all[1] == BranchFunctionalComponent::Coexact);
    }
    if component is Exact || component is JointTotal {
        assert(component.parts()[0] == HodgeBranchKind::Exact);
    }
    if component is Coexact {
        assert(component.parts()[0] == HodgeBranchKind::Coexact);
    }
    if component is JointTotal {
        assert(component.parts()[1] == HodgeBranchKind::Coexact);
    }
}

/// The variances of all models but the potential one are expected to converge, and are judged by
/// how much they change on the finest mesh. Those of the potential model are expected to grow:
/// along lines with the logarithm of the level, at points with a power of it.
pub proof fn lemma_growth_is_expected(model: BranchFunctionalModel, kind: BranchObservableKind)
    ensures
        expected_status(model, kind) == "expected_convergent"@ <==> !(model is PotentialMatern),
        diagnostic_for(model, kind) is FinestRelativeChange <==> !(model is PotentialMatern),
        diagnostic_for(model, kind) is SlopeVsLogLevel <==> model is PotentialMatern
            && kind is Line,
        expected_status(model, kind) == "expected_log_borderline_growth"@ <==> diagnostic_for(
            model,
            kind,
        ) is SlopeVsLogLevel,
{
    reveal_strlit("expected_convergent");
    reveal_strlit("expected_log_borderline_growth");
    reveal_strlit("expected_point_growth");
    assert("expected_convergent"@.len() == 19);
    assert("expected_log_borderline_growth"@.len() == 30);
    assert("expected_point_growth"@.len() == 21);
}

/// Two components are collected in one trace if and only if they are taken at the same point.
pub proof fn lemma_components_collected_together(
    observables: Seq<PointComponentObservable>,
    groups: Seq<IndexGroup>,
    left: usize,
    right: usize,
)
    requires
        is_grouping(point_keys(observables), groups),
        left < observables.len(),
        right < observables.len(),
    ensures
        together(groups, left, right) <==> observables[left as int].point_index
            == observables[right as int].point_index,
{
    lemma_grouped_together(point_keys(observables), groups, left, right);
}

/// The entries of a trace are those of all its components: one component more adds its entries.
pub proof fn lemma_support_adds_up(
    observables: Seq<PointComponentObservable>,
    members: Seq<usize>,
    member: usize,
)
    requires
        member < observables.len(),
    ensures
        support_sum(observables, members.push(member), members.len() as int + 1) == support_sum(
            observables,
            members,
            members.len() as int,
        ) + observables[member as int].row.len(),
        support_sum(observables, Seq::empty(), 0) == 0,
{
    lemma_support_of_front(observables, members, member, members.len() as int);
}

proof fn lemma_support_of_front(
    observables: Seq<PointComponentObservable>,
    members: Seq<usize>,
    member: usize,
    count: int,
)
    requires
        0 <= count <= members.len(),
    ensures
        support_sum(observables, members.push(member), count) == support_sum(
            observables,
            members,
            count,
        ),
    decreases count,
{
    if count > 0 {
        lemma_support_of_front(observables, members, member, count - 1);
    }
}

/// Two rows are summed up together if and only if they agree in mesh, model, component and kind.
pub proof fn lemma_rows_summed_up_together(
    rows: Seq<BranchFunctionalVarianceRow>,
    groups: Seq<IndexGroup>,
    left: usize,
    right: usize,
)
    requires
        is_grouping(summary_keys(rows), groups),
        left < rows.len(),
        right < rows.len(),
    ensures
        together(groups, left, right) <==> {
            let (a, b) = (rows[left as int], rows[right as int]);
            &&& a.n == b.n
            &&& a.model == b.model
            &&& a.component == b.component
            &&& a.observable_kind == b.observable_kind
        },
{
    let (a, b) = (rows[left as int], rows[right as int]);
    lemma_grouped_together(summary_keys(rows), groups, left, right);
    lemma_case_code(
        (a.model, a.component, a.observable_kind),
        (b.model, b.component, b.observable_kind),
    );
}

/// Every fit is made of two or more summaries of one model, component and kind, from coarse to
/// fine, and two different summaries that agree in these are fitted together.
pub proof fn lemma_summaries_fitted_together(
    rows: Seq<BranchFunctionalSummaryRow>,
    groups: Seq<IndexGroup>,
    fits: Seq<FitGroup>,
)
    requires
        is_grouping(fit_keys(rows), groups),
        are_fit_groups(rows, groups, fits),
    ensures
        forall|f: int|
            #![trigger fits[f]]
            0 <= f < fits.len() ==> fits[f].members.len() >= 2,
        forall|f: int, i: int|
            #![trigger fits[f].members@[i]]
            0 <= f < fits.len() && 0 <= i < fits[f].members.len() ==> {
                let row = rows[fits[f].members@[i] as int];
                &&& fits[f].members@[i] < rows.len()
                &&& row.model == fits[f].model
                &&& row.component == fits[f].component
                &&& row.observable_kind == fits[f].observable_kind
            },
        forall|f: int, i: int, j: int|
            #![trigger fits[f].members@[i], fits[f].members@[j]]
            0 <= f < fits.len() && 0 <= i <= j < fits[f].members.len()
                ==> rows[fits[f].members@[i] as int].n <= rows[fits[f].members@[j] as int].n,
        forall|left: usize, right: usize|
            #![trigger rows[left as int], rows[right as int]]
            left < rows.len() && right < rows.len() && left != right && rows[left as int].model
                == rows[right as int].model && rows[left as int].component
                == rows[right as int].component && rows[left as int].observable_kind
                == rows[right as int].observable_kind ==> exists|f: int|
                #![trigger fits[f]]
                0 <= f < fits.len() && fits[f].members@.contains(left)
                    && fits[f].members@.contains(right),
{
    let keys = fit_keys(rows);
    let enough = |group: IndexGroup| group.members.len() >= 2;
    let kept = fitted(groups);
    assert(kept == groups.filter(enough));
    let places = lemma_filter_keeps_places(groups, enough);
    assert forall|f: int| #![trigger fits[f]] 0 <= f < fits.len() implies fits[f].members.len()
        >= 2 by {
        assert(is_fit_group(rows, kept[f], fits[f]));
        assert(places.contains(places[f]));
    }
    assert forall|f: int, i: int|
        #![trigger fits[f].members@[i]]
        0 <= f < fits.len() && 0 <= i < fits[f].members.len() implies ({
        let row = rows[fits[f].members@[i] as int];
        &&& fits[f].members@[i] < rows.len()
        &&& row.model == fits[f].model
        &&& row.component == fits[f].component
        &&& row.observable_kind == fits[f].observable_kind
    }) by {
        let fit = fits[f];
        let p = fit.members@[i];
        assert(is_fit_group(rows, kept[f], fit));
        assert(fit.members@.contains(p));
        let group = groups[places[f]];
        assert(kept[f] == group);
        assert(group.members@.contains(p));
        assert(keys[p as int] == group.key);
        let row = rows[p as int];
        lemma_case_code(
            (row.model, row.component, row.observable_kind),
            (fit.model, fit.component, fit.observable_kind),
        );
    }
    let ranks = rows.map_values(|row: BranchFunctionalSummaryRow| row.n as int);
    assert forall|f: int, i: int, j: int|
        #![trigger fits[f].members@[i], fits[f].members@[j]]
        0 <= f < fits.len() && 0 <= i <= j
            < fits[f].members.len() implies rows[fits[f].members@[i] as int].n
        <= rows[fits[f].members@[j] as int].n by {
        assert(is_fit_group(rows, kept[f], fits[f]));
        if i < j {
            assert(ranked_before(ranks, fits[f].members@[i], fits[f].members@[j]));
        }
        assert(fits[f].members@[i] < rows.len() && fits[f].members@[j] < rows.len());
    }
    assert forall|left: usize, right: usize|
        #![trigger rows[left as int], rows[right as int]]
        left < rows.len() && right < rows.len() && left != right && rows[left as int].model
            == rows[right as int].model && rows[left as int].component
            == rows[right as int].component && rows[left as int].observable_kind
            == rows[right as int].observable_kind implies exists|f: int|
        #![trigger fits[f]]
        0 <= f < fits.len() && fits[f].members@.contains(left) && fits[f].members@.contains(
            right,
        ) by {
        lemma_grouped_together(keys, groups, left, right);
        assert(keys[left as int] == keys[right as int]);
        let g = choose|g: int|
            #![trigger groups[g]]
            0 <= g < groups.len() && groups[g].members@.contains(left)
                && groups[g].members@.contains(right);
        let members = groups[g].members@;
        let i = choose|i: int| 0 <= i < members.len() && members[i] == left;
        let j = choose|j: int| 0 <= j < members.len() && members[j] == right;
        assert(i != j);
        assert(enough(groups[g]));
        assert(places.contains(g));
        let f = choose|f: int| 0 <= f < places.len() && places[f] == g;
        assert(kept[f] == groups[g]);
        assert(is_fit_group(rows, kept[f], fits[f]));
        assert(fits[f].members@.contains(left) && fits[f].members@.contains(right));
    }
}

} // verus!
