//! What holds of the observables on the sphere and of the rows about them: which observables are
//! listed, which configurations can be run, and which rows are summed up and fitted together.

use super::pointwise::{
    are_components, are_families, family_fit_keys, family_keys, family_of, family_widths,
    lemma_family_code, FamilySummary,
};
use super::tables::{
    SphereObservableSummaryRow, SphereObservableVarianceRow, SpherePointwiseVarianceRow,
};
use super::{
    degree_observables, fit_keys, kind_name, lemma_observable_code, observable_list,
    report_branches, summary_keys, summary_widths, target_variance,
    SphereBranchObservableConvergenceConfig, SphereObservable,
};
use crate::grouping::{
    are_ordered_groups, is_grouping, lemma_grouped_together, lemma_ordered_group,
    lemma_ordered_together, together, IndexGroup,
};
use crate::hodge::HodgeBranchKind;
use crate::scalar::Scalar;
use vstd::prelude::*;

verus! {

/// Whether an observable is an exact or a coexact one of a degree up to `lmax` and one of the
/// orders of that degree.
pub open spec fn is_observable(observable: SphereObservable, lmax: nat) -> bool {
    &&& observable.branch is Exact || observable.branch is Coexact
    &&& 1 <= observable.ell <= lmax
    &&& -observable.ell <= observable.m <= observable.ell
}

/// Whether an observable comes before another: by degree, and by order where the degrees are
/// equal, the exact one before the coexact one.
pub open spec fn observed_before(left: SphereObservable, right: SphereObservable) -> bool {
    ||| left.ell < right.ell
    ||| left.ell == right.ell && left.m < right.m
    ||| left.ell == right.ell && left.m == right.m && left.branch is Exact
        && right.branch is Coexact
}

/// The observables are all exact and coexact ones of every degree and order, in their order, and
/// so none is listed twice.
pub proof fn lemma_observables_are_listed(lmax: nat)
    requires
        lmax <= 0x7fff_ffff,
    ensures
        forall|observable: SphereObservable| #[trigger]
            observable_list(lmax).contains(observable) <==> is_observable(observable, lmax),
        forall|i: int, j: int|
            0 <= i < j < observable_list(lmax).len() ==> observed_before(
                #[trigger] observable_list(lmax)[i],
                #[trigger] observable_list(lmax)[j],
            ),
    decreases lmax,
{
    if lmax > 0 {
        let less = (lmax - 1) as nat;
        lemma_observables_are_listed(less);
        let before = observable_list(less);
        let block = degree_observables(lmax);
        let all = observable_list(lmax);
        assert(all == before + block);
        assert(report_branches()[0] == HodgeBranchKind::Exact);
        assert(report_branches()[1] == HodgeBranchKind::Coexact);
        assert forall|k: int| 0 <= k < block.len() implies is_observable(
            #[trigger] block[k],
            lmax,
        ) && block[k].ell == lmax && block[k].m == k / 2 - lmax && (block[k].branch is Exact <==> k
            % 2 == 0) by {}
        assert forall|observable: SphereObservable| #[trigger]
            all.contains(observable) <==> is_observable(observable, lmax) by {
            if all.contains(observable) {
                let i = choose|i: int| 0 <= i < all.len() && all[i] == observable;
                if i < before.len() {
                    assert(before[i] == observable);
                    assert(before.contains(observable));
                } else {
                    assert(block[i - before.len()] == observable);
                }
            }
            if is_observable(observable, lmax) {
                if observable.ell < lmax {
                    assert(before.contains(observable));
                    let i = choose|i: int| 0 <= i < before.len() && before[i] == observable;
                    assert(all[i] == observable);
                } else {
                    let k = 2 * (observable.m + lmax) + (if observable.branch is Exact {
                        0int
                    } else {
                        1int
                    });
                    assert(k / 2 == observable.m + lmax);
                    assert(block[k] == observable);
                    assert(all[before.len() + k] == observable);
                }
            }
        }
        assert forall|i: int, j: int| 0 <= i < j < all.len() implies observed_before(
            #[trigger] all[i],
            #[trigger] all[j],
        ) by {
            if j < before.len() {
                assert(all[i] == before[i] && all[j] == before[j]);
            } else if i < before.len() {
                assert(all[i] == before[i]);
                assert(before.contains(before[i]));
                assert(all[j] == block[j - before.len()]);
            } else {
                let (k, l) = (i - before.len(), j - before.len());
                assert(all[i] == block[k] && all[j] == block[l]);
                assert(k / 2 <= l / 2);
            }
        }
    }
}

/// The convergence can be studied if and only if there is a level, the parameters of the prior are
/// finite and positive, the degree is one of the three whose harmonics are known, and the pointwise
/// sums have terms.
pub proof fn lemma_studies_that_can_be_run(config: SphereBranchObservableConvergenceConfig)
    ensures
        config.fault() is None <==> {
            &&& config.levels.len() > 0
            &&& config.kappa.positive()
            &&& config.tau.positive()
            &&& 1 <= config.lmax <= 3
            &&& config.pointwise_analytic_lmax > 0
        },
{
}

/// An observable of the branch of a prior should have the matched variance, and one of another
/// branch should vanish; the rows about the two are named apart.
pub proof fn lemma_other_branches_vanish(
    prior_branch: HodgeBranchKind,
    observable: SphereObservable,
    matched: Scalar,
)
    ensures
        observable.branch == prior_branch ==> target_variance(prior_branch, observable, matched)
            == matched,
        observable.branch != prior_branch ==> target_variance(
            prior_branch,
            observable,
            matched,
        ).bits == 0,
        kind_name(true) != kind_name(false),
{
    reveal_strlit("matched");
    reveal_strlit("leakage");
    assert("matched"@[0] != "leakage"@[0]);
}

/// Two rows are summed up together if and only if they agree in level, model, the branch of the
/// prior and the branch of the observable.
pub proof fn lemma_rows_summed_up_together(
    rows: Seq<SphereObservableVarianceRow>,
    groups: Seq<IndexGroup>,
    left: usize,
    right: usize,
)
    requires
        is_grouping(summary_keys(rows), groups),
        left < rows.len(),
        right < rows.len(),
    ensures
        together(groups, left, right) <==> {
            let (a, b) = (rows[left as int], rows[right as int]);
            &&& a.refinement_level == b.refinement_level
            &&& a.model == b.model
            &&& a.prior_branch == b.prior_branch
            &&& a.observable_branch == b.observable_branch
        },
{
    let (a, b) = (rows[left as int], rows[right as int]);
    lemma_grouped_together(summary_keys(rows), groups, left, right);
    lemma_observable_code(
        (a.model, a.prior_branch, a.observable_branch),
        (b.model, b.prior_branch, b.observable_branch),
    );
}

/// Two summaries are fitted together if and only if they agree in model and both branches; along a
/// fit the mesh width does not fall.
pub proof fn lemma_summaries_fitted_together(
    rows: Seq<SphereObservableSummaryRow>,
    groups: Seq<IndexGroup>,
    left: usize,
    right: usize,
)
    requires
        are_ordered_groups(
            fit_keys(rows),
            summary_widths(rows).map_values(|width: Scalar| width.rank()),
            groups,
        ),
        left < rows.len(),
        right < rows.len(),
        left != right,
    ensures
        together(groups, left, right) <==> {
            let (a, b) = (rows[left as int], rows[right as int]);
            &&& a.model == b.model
            &&& a.prior_branch == b.prior_branch
            &&& a.observable_branch == b.observable_branch
        },
        forall|g: int, i: int, j: int|
            #![trigger groups[g].members@[i], groups[g].members@[j]]
            0 <= g < groups.len() && 0 <= i <= j < groups[g].members.len()
                ==> rows[groups[g].members@[i] as int].h.rank()
                <= rows[groups[g].members@[j] as int].h.rank(),
{
    let (a, b) = (rows[left as int], rows[right as int]);
    let ranks = summary_widths(rows).map_values(|width: Scalar| width.rank());
    lemma_ordered_together(fit_keys(rows), ranks, groups, left, right);
    lemma_observable_code(
        (a.model, a.prior_branch, a.observable_branch),
        (b.model, b.prior_branch, b.observable_branch),
    );
    assert forall|g: int, i: int, j: int|
        #![trigger groups[g].members@[i], groups[g].members@[j]]
        0 <= g < groups.len() && 0 <= i <= j
            < groups[g].members.len() implies rows[groups[g].members@[i] as int].h.rank()
        <= rows[groups[g].members@[j] as int].h.rank() by {
        lemma_ordered_group(fit_keys(rows), ranks, groups, g);
        assert(ranks[groups[g].members@[i] as int] <= ranks[groups[g].members@[j] as int]);
    }
}

/// Every pointwise row is summed up twice, at an even place with its own component and at the odd
/// place after it with all components. Two places are summed up together if and only if their rows
/// agree in level, model and branch, and either both places are odd, or both are even and the rows
/// agree in the component.
pub proof fn lemma_components_summed_up_together(
    rows: Seq<SpherePointwiseVarianceRow>,
    groups: Seq<IndexGroup>,
    left: usize,
    right: usize,
)
    requires
        are_components(rows),
        is_grouping(family_keys(rows), groups),
        left < 2 * rows.len(),
        right < 2 * rows.len(),
    ensures
        together(groups, left, right) <==> {
            let (a, b) = (rows[left as int / 2], rows[right as int / 2]);
            &&& a.refinement_level == b.refinement_level
            &&& a.model == b.model
            &&& a.prior_branch == b.prior_branch
            &&& left % 2 == right % 2
            &&& left % 2 == 0 ==> a.component_index == b.component_index
        },
{
    let (a, b) = (rows[left as int / 2], rows[right as int / 2]);
    assert(a.component_index < 3 && b.component_index < 3);
    let (f, g) = (family_of(rows, left), family_of(rows, right));
    lemma_grouped_together(family_keys(rows), groups, left, right);
    lemma_family_code((a.model, a.prior_branch, f), (b.model, b.prior_branch, g));
}

/// Two pointwise summaries are fitted together if and only if they agree in model, branch and
/// family of components.
pub proof fn lemma_families_fitted_together(
    summaries: Seq<FamilySummary>,
    groups: Seq<IndexGroup>,
    left: usize,
    right: usize,
)
    requires
        are_families(summaries),
        are_ordered_groups(
            family_fit_keys(summaries),
            family_widths(summaries).map_values(|width: Scalar| width.rank()),
            groups,
        ),
        left < summaries.len(),
        right < summaries.len(),
        left != right,
    ensures
        together(groups, left, right) <==> {
            let (a, b) = (summaries[left as int], summaries[right as int]);
            &&& a.row.model == b.row.model
            &&& a.row.prior_branch == b.row.prior_branch
            &&& a.family == b.family
        },
{
    let (a, b) = (summaries[left as int], summaries[right as int]);
    let ranks = family_widths(summaries).map_values(|width: Scalar| width.rank());
    lemma_ordered_together(family_fit_keys(summaries), ranks, groups, left, right);
    lemma_family_code(
        (a.row.model, a.row.prior_branch, a.family as int),
        (b.row.model, b.row.prior_branch, b.family as int),
    );
}

} // verus!
