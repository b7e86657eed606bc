//! What holds of the cells at which fields are compared, of the cases that are reported, and of
//! the summaries that are fitted together.

use super::tables::SphereBranchCovarianceSummaryRow;
use super::{
    component_at, fit_keys, lemma_case_code, model_at, spaced, summary_widths, PushforwardCase,
    SphereBranchPushforwardComponent, SphereBranchPushforwardConvergenceConfig,
};
use crate::grouping::{
    are_ordered_groups, lemma_ordered_group, lemma_ordered_together, together, IndexGroup,
};
use crate::hodge::HodgeBranchKind;
use crate::scalar::Scalar;
use vstd::prelude::*;

verus! {

/// Places are spread evenly: where fewer are wanted than there are items, the place of number `i`
/// is the last one that lies at most `i` of as many equal parts behind the start. Where all are
/// wanted, every item has a place.
pub proof fn lemma_places_are_even(len: nat, max_count: nat, i: int)
    requires
        len <= usize::MAX,
        0 <= i < spaced(len, max_count).len(),
    ensures
        max_count < len ==> max_count * spaced(len, max_count)[i] <= i * len < max_count * (spaced(
            len,
            max_count,
        )[i] + 1),
        len <= max_count ==> spaced(len, max_count)[i] == i,
{
    if max_count < len {
        let (whole, parts) = (i * len, max_count as int);
        let place = whole / parts;
        assert(0 <= whole) by (nonlinear_arith)
            requires
                whole == i * len,
                i >= 0,
        ;
        vstd::arithmetic::div_mod::lemma_fundamental_div_mod(whole, parts);
        vstd::arithmetic::div_mod::lemma_mod_bound(whole, parts);
        vstd::arithmetic::div_mod::lemma_div_pos_is_pos(whole, parts);
        assert(parts * (place + 1) == parts * place + parts) by (nonlinear_arith);
        assert(place < len) by (nonlinear_arith)
            requires
                parts * place <= i * len,
                i < parts,
                parts > 0,
                len > 0,
        ;
        assert(spaced(len, max_count)[i] == place);
    }
}

/// Every model is reported with every component, each case once.
pub proof fn lemma_cases_cover(case: PushforwardCase)
    ensures
        exists|i: int|
            #![trigger model_at(i / 3), component_at(i % 3)]
            0 <= i < 6 && case == (PushforwardCase {
                model: model_at(i / 3),
                component: component_at(i % 3),
            }),
        forall|i: int, j: int|
            #![trigger component_at(i % 3), component_at(j % 3)]
            0 <= i < j < 6 ==> (PushforwardCase {
                model: model_at(i / 3),
                component: component_at(i % 3),
            }) != (PushforwardCase { model: model_at(j / 3), component: component_at(j % 3) }),
{
    let i: int = (if case.model is OrdinaryPotential {
        0int
    } else {
        3int
    }) + (if case.component is Exact {
        0int
    } else if case.component is Coexact {
        1int
    } else {
        2int
    });
    assert(case == (PushforwardCase { model: model_at(i / 3), component: component_at(i % 3) }));
}

/// The joint component is made of the parts of the exact and of the coexact one, and of no other.
pub proof fn lemma_joint_component()
    ensures
        SphereBranchPushforwardComponent::Joint.parts()
            == SphereBranchPushforwardComponent::Exact.parts()
            + SphereBranchPushforwardComponent::Coexact.parts(),
        forall|component: SphereBranchPushforwardComponent|
            #![trigger component.parts()]
            component.parts().len() > 0 && component.parts().no_duplicates()
                && !component.parts().contains(HodgeBranchKind::Harmonic),
        SphereBranchPushforwardComponent::Exact.parts().contains(HodgeBranchKind::Exact),
        SphereBranchPushforwardComponent::Coexact.parts().contains(HodgeBranchKind::Coexact),
{
    assert(SphereBranchPushforwardComponent::Exact.parts()[0] == HodgeBranchKind::Exact);
    assert(SphereBranchPushforwardComponent::Coexact.parts()[0] == HodgeBranchKind::Coexact);
}

/// The convergence can be studied if and only if there is a level, the parameters of the prior are
/// finite and positive, the sums have terms, and there are cells to look at.
pub proof fn lemma_studies_that_can_be_run(config: SphereBranchPushforwardConvergenceConfig)
    ensures
        config.fault() is None <==> {
            &&& config.refinement_levels.len() > 0
            &&& config.kappa.positive()
            &&& config.tau.positive()
            &&& config.analytic_lmax > 0
            &&& config.max_cells > 0
        },
{
}

/// Two summaries are fitted together if and only if they agree in model and component; along a fit
/// the mesh width does not fall.
pub proof fn lemma_summaries_fitted_together(
    rows: Seq<SphereBranchCovarianceSummaryRow>,
    groups: Seq<IndexGroup>,
    left: usize,
    right: usize,
)
    requires
        are_ordered_groups(
            fit_keys(rows),
            summary_widths(rows).map_values(|width: Scalar| width.rank()),
            groups,
        ),
        left < rows.len(),
        right < rows.len(),
        left != right,
    ensures
        together(groups, left, right) <==> rows[left as int].model == rows[right as int].model
            && rows[left as int].component == rows[right as int].component,
        forall|g: int, i: int, j: int|
            #![trigger groups[g].members@[i], groups[g].members@[j]]
            0 <= g < groups.len() && 0 <= i <= j < groups[g].members.len()
                ==> rows[groups[g].members@[i] as int].h.rank()
                <= rows[groups[g].members@[j] as int].h.rank(),
{
    let (a, b) = (rows[left as int], rows[right as int]);
    let ranks = summary_widths(rows).map_values(|width: Scalar| width.rank());
    lemma_ordered_together(fit_keys(rows), ranks, groups, left, right);
    lemma_case_code(
        PushforwardCase { model: a.model, component: a.component },
        PushforwardCase { model: b.model, component: b.component },
    );
    assert forall|g: int, i: int, j: int|
        #![trigger groups[g].members@[i], groups[g].members@[j]]
        0 <= g < groups.len() && 0 <= i <= j
            < groups[g].members.len() implies rows[groups[g].members@[i] as int].h.rank()
        <= rows[groups[g].members@[j] as int].h.rank() by {
        lemma_ordered_group(fit_keys(rows), ranks, groups, g);
        assert(ranks[groups[g].members@[i] as int] <= ranks[groups[g].members@[j] as int]);
    }
}

} // verus!
