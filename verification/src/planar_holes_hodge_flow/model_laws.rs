//! What holds of the models and of their parts: which switch asks for which model, which branches
//! a model is made of, and where the columns of its branches lie; which bases and comparisons are
//! planned; and which entry of a table counts for a model.

use super::config::PlanarHolesFlowConfig;
use super::kinds::{
    PlanarHolesFieldCoverageSubset, PlanarHolesModelKind, PlanarHolesPriorEquivalenceGmrfVariant,
    PlanarHolesPriorEquivalenceSpectralReference, PlanarHolesSpectralBoundaryCondition,
};
use super::models::{
    branch_layout, branch_width, branches_of, columns_before, is_spectral, lemma_planned_models,
    planned, BranchColumns,
};
use super::spectral_plans::{
    comparisons, projection_stage, projection_stages, variant_block, PriorComparison,
};
use super::summaries::{coverage_of, multiplier_of};
use super::tables::{
    PlanarHolesFieldCoverageSummary, PlanarHolesTopologyVsNaiveGpCalibrationRow,
};
use crate::hodge::HodgeBranchKind;
use crate::order::lemma_filter_keeps_places;
use crate::scalar::Scalar;
use vstd::prelude::*;

verus! {

/// A configuration has a model built if and only if the switch of the model is on; four models are
/// always built.
pub proof fn lemma_switches_ask_for_models(config: PlanarHolesFlowConfig)
    ensures
        planned(config).contains(PlanarHolesModelKind::ExactHodgeMatern)
            <==> config.include_exact_hodge_model,
        planned(config).contains(PlanarHolesModelKind::ExactDenseExactHodgeMatern)
            <==> config.include_exact_dense_exact_hodge_model,
        planned(config).contains(PlanarHolesModelKind::ExactDenseTraceMatchedExactHodgeMatern)
            <==> config.include_exact_dense_trace_matched_exact_hodge_model,
        planned(config).contains(PlanarHolesModelKind::IncompressibleHodgeMatern)
            <==> config.include_incompressible_hodge_model,
        planned(config).contains(PlanarHolesModelKind::ExactMassIncompressibleHodgeMatern)
            <==> config.include_exact_mass_incompressible_hodge_model,
        planned(config).contains(
            PlanarHolesModelKind::SparseLowerTraceMatchedIncompressibleHodgeMatern,
        )
            <==> config.include_sparse_lower_trace_matched_incompressible_hodge_model,
        planned(config).contains(PlanarHolesModelKind::ExactLowerIncompressibleHodgeMatern)
            <==> config.include_exact_lower_incompressible_hodge_model,
        planned(config).contains(
            PlanarHolesModelKind::ExactLowerTraceMatchedIncompressibleHodgeMatern,
        )
            <==> config.include_exact_lower_trace_matched_incompressible_hodge_model,
        planned(config).contains(PlanarHolesModelKind::SpectralExactHodgeGp)
            <==> config.include_spectral_exact_hodge_model,
        planned(config).contains(PlanarHolesModelKind::SpectralHodgeGp)
            <==> config.include_spectral_hodge_model,
        planned(config).contains(PlanarHolesModelKind::SpectralIncompressibleHodgeGp)
            <==> config.include_spectral_incompressible_hodge_model,
        planned(config).contains(PlanarHolesModelKind::NaiveEuclideanVectorMatern)
            <==> config.include_naive_euclidean_vector_matern_model,
        planned(config).contains(PlanarHolesModelKind::HodgeMatern),
        planned(config).contains(PlanarHolesModelKind::NondecomposedFeec),
        planned(config).contains(PlanarHolesModelKind::ComponentwiseMatern),
        planned(config).contains(PlanarHolesModelKind::PostHocProjectedVectorMatern),
{
    lemma_planned_models(config);
}

/// Whether a model has a part in a branch.
pub open spec fn has_branch(model: PlanarHolesModelKind, branch: HodgeBranchKind) -> bool {
    exists|i: int| 0 <= i < branches_of(model).len() && #[trigger] branches_of(model)[i] == branch
}

/// The Hodge models are made of all three branches, the incompressible ones of all but the exact,
/// the exact ones of that alone; a spectral model is made of the branches of the sparse model that
/// it stands beside. A model has a harmonic part if and only if it has a coexact one. The models
/// that do not decompose the field have no branches.
pub proof fn lemma_model_branches(model: PlanarHolesModelKind)
    ensures
        has_branch(model, HodgeBranchKind::Coexact) <==> has_branch(
            model,
            HodgeBranchKind::Harmonic,
        ),
        has_branch(model, HodgeBranchKind::Exact) && has_branch(model, HodgeBranchKind::Coexact)
            <==> model is HodgeMatern || model is SpectralHodgeGp,
        branches_of(PlanarHolesModelKind::HodgeMatern) == branches_of(
            PlanarHolesModelKind::ExactHodgeMatern,
        ) + branches_of(PlanarHolesModelKind::IncompressibleHodgeMatern),
        has_branch(model, HodgeBranchKind::Exact) && !has_branch(model, HodgeBranchKind::Coexact)
            <==> model is ExactHodgeMatern || model is ExactDenseExactHodgeMatern
            || model is ExactDenseTraceMatchedExactHodgeMatern || model is SpectralExactHodgeGp,
        branches_of(model).len() == 0 <==> model is NondecomposedFeec
            || model is ComponentwiseMatern || model is PostHocProjectedVectorMatern
            || model is NaiveEuclideanVectorMatern,
        is_spectral(model) ==> branches_of(model).len() > 0,
        branches_of(model).no_duplicates(),
{
    let branches = branches_of(model);
    if branches.len() == 3 {
        assert(branches[0] == HodgeBranchKind::Exact);
        assert(branches[1] == HodgeBranchKind::Coexact);
        assert(branches[2] == HodgeBranchKind::Harmonic);
    } else if branches.len() == 2 {
        assert(branches[0] == HodgeBranchKind::Coexact);
        assert(branches[1] == HodgeBranchKind::Harmonic);
    } else if branches.len() == 1 {
        assert(branches[0] == HodgeBranchKind::Exact);
    }
}

/// Whether the columns of a branch, as many as it is wide, lie in a range.
pub open spec fn lies_between(columns: BranchColumns, width: nat, from: int, to: int) -> bool {
    from <= columns.offset && columns.offset + width <= to
}

/// The columns of a spectral model are laid out side by side: every listed branch that has columns
/// is there once, in the order of the decomposition, within the columns of all branches, and no
/// column belongs to two branches. The exact columns come first, and the harmonic ones last.
pub proof fn lemma_branches_lie_side_by_side(
    branches: Seq<HodgeBranchKind>,
    exact: nat,
    coexact: nat,
    harmonic: nat,
)
    requires
        exact + coexact + harmonic <= usize::MAX,
    ensures
        ({
            let layout = branch_layout(branches, exact, coexact, harmonic);
            let width = |branch: HodgeBranchKind| branch_width(branch, exact, coexact, harmonic);
            &&& forall|i: int|
                #![trigger layout[i]]
                0 <= i < layout.len() ==> branches.contains(layout[i].branch) && width(
                    layout[i].branch,
                ) > 0 && lies_between(
                    layout[i],
                    width(layout[i].branch),
                    0,
                    (exact + coexact + harmonic) as int,
                )
            &&& forall|i: int, j: int|
                #![trigger layout[i], layout[j]]
                0 <= i < j < layout.len() ==> layout[i].branch != layout[j].branch && lies_between(
                    layout[i],
                    width(layout[i].branch),
                    0,
                    layout[j].offset as int,
                )
            &&& forall|branch: HodgeBranchKind| #[trigger]
                branches.contains(branch) && width(branch) > 0 ==> exists|i: int|
                    0 <= i < layout.len() && (#[trigger] layout[i]).branch == branch
            &&& forall|i: int|
                #![trigger layout[i]]
                0 <= i < layout.len() ==> (layout[i].branch is Exact ==> layout[i].offset == 0) && (
                layout[i].branch is Harmonic ==> layout[i].offset == exact + coexact)
        }),
{
    let all = HodgeBranchKind::in_order();
    let keeps = |branch: HodgeBranchKind|
        branches.contains(branch) && branch_width(branch, exact, coexact, harmonic) > 0;
    let kept = all.filter(keeps);
    let layout = branch_layout(branches, exact, coexact, harmonic);
    let places = lemma_filter_keeps_places(all, keeps);
    assert(all.len() == 3);
    assert(all[0] == HodgeBranchKind::Exact);
    assert(all[1] == HodgeBranchKind::Coexact);
    assert(all[2] == HodgeBranchKind::Harmonic);
    assert(layout.len() == kept.len());
    assert forall|i: int| #![trigger layout[i]] 0 <= i < layout.len() implies layout[i].branch
        == all[places[i]] && keeps(layout[i].branch) && layout[i].offset == columns_before(
        layout[i].branch,
        exact,
        coexact,
    ) by {
        assert(kept[i] == all[places[i]]);
        assert(places.contains(places[i]));
    }
    assert forall|i: int, j: int| #![trigger layout[i], layout[j]] 0 <= i < j
        < layout.len() implies layout[i].branch != layout[j].branch && lies_between(
        layout[i],
        branch_width(layout[i].branch, exact, coexact, harmonic),
        0,
        layout[j].offset as int,
    ) by {
        assert(places[i] < places[j]);
    }
    assert forall|branch: HodgeBranchKind| #[trigger]
        branches.contains(branch) && branch_width(branch, exact, coexact, harmonic)
            > 0 implies exists|i: int|
        0 <= i < layout.len() && (#[trigger] layout[i]).branch == branch by {
        let p: int = match branch {
            HodgeBranchKind::Exact => 0,
            HodgeBranchKind::Coexact => 1,
            HodgeBranchKind::Harmonic => 2,
        };
        assert(keeps(all[p]));
        assert(places.contains(p));
        let i = choose|i: int| 0 <= i < places.len() && places[i] == p;
        assert(layout[i].branch == branch);
    }
}

/// A basis is planned for every boundary condition with every mode count, and no other.
pub proof fn lemma_bases_are_planned(
    config: PlanarHolesFlowConfig,
    conditions: Seq<PlanarHolesSpectralBoundaryCondition>,
    counts: Seq<usize>,
    first: int,
)
    requires
        0 <= first <= conditions.len(),
    ensures
        projection_stages(config, conditions, counts, first).len() == first * counts.len(),
        forall|c: int, s: int|
            #![trigger conditions[c], counts[s]]
            0 <= c < first && 0 <= s < counts.len() ==> projection_stages(
                config,
                conditions,
                counts,
                first,
            ).contains(projection_stage(config, conditions[c], counts[s])),
        forall|k: int|
            #![trigger projection_stages(config, conditions, counts, first)[k]]
            0 <= k < first * counts.len() ==> {
                let stage = projection_stages(config, conditions, counts, first)[k];
                &&& conditions.contains(stage.boundary_condition)
                &&& counts.contains(stage.requested_mode_count)
                &&& stage.config.spectral_boundary_condition == stage.boundary_condition
                &&& stage.config.spectral_coexact_mode_count == stage.requested_mode_count
            },
    decreases first,
{
    let n = counts.len() as int;
    if first > 0 {
        lemma_bases_are_planned(config, conditions, counts, first - 1);
        let before = projection_stages(config, conditions, counts, first - 1);
        let block = Seq::new(
            counts.len(),
            |s: int| projection_stage(config, conditions[first - 1], counts[s]),
        );
        let all = projection_stages(config, conditions, counts, first);
        assert(all == before + block);
        assert(first * n == (first - 1) * n + n) by (nonlinear_arith);
        assert forall|c: int, s: int|
            #![trigger conditions[c], counts[s]]
            0 <= c < first && 0 <= s < counts.len() implies all.contains(
            projection_stage(config, conditions[c], counts[s]),
        ) by {
            let stage = projection_stage(config, conditions[c], counts[s]);
            if c < first - 1 {
                assert(before.contains(stage));
                let k = choose|k: int| 0 <= k < before.len() && before[k] == stage;
                assert(all[k] == stage);
            } else {
                assert(all[before.len() + s] == stage);
            }
        }
        assert forall|k: int| #![trigger all[k]] 0 <= k < first * n implies ({
            let stage = all[k];
            &&& conditions.contains(stage.boundary_condition)
            &&& counts.contains(stage.requested_mode_count)
            &&& stage.config.spectral_boundary_condition == stage.boundary_condition
            &&& stage.config.spectral_coexact_mode_count == stage.requested_mode_count
        }) by {
            if k < before.len() {
                assert(all[k] == before[k]);
            } else {
                let s = k - before.len();
                assert(all[k] == projection_stage(config, conditions[first - 1], counts[s]));
                assert(conditions[first - 1] == all[k].boundary_condition);
                assert(counts[s] == all[k].requested_mode_count);
            }
        }
    } else {
        assert(first * n == 0) by (nonlinear_arith)
            requires
                first == 0,
        ;
    }
}

/// Every variant is compared with both spectral priors for every mode count, and no other
/// comparison is planned.
pub proof fn lemma_comparisons_are_planned(
    counts: Seq<usize>,
    variants: Seq<PlanarHolesPriorEquivalenceGmrfVariant>,
    first: int,
    comparison: PriorComparison,
)
    requires
        0 <= first <= counts.len(),
    ensures
        comparisons(counts, variants, first).contains(comparison) <==> variants.contains(
            comparison.variant,
        ) && exists|s: int|
            0 <= s < first && #[trigger] counts[s] == comparison.requested_mode_count,
    decreases first,
{
    if first > 0 {
        lemma_comparisons_are_planned(counts, variants, first - 1, comparison);
        let count = counts[first - 1];
        let raw_kind = PlanarHolesPriorEquivalenceSpectralReference::Raw;
        let scaled_kind = PlanarHolesPriorEquivalenceSpectralReference::EnergyNormalized;
        let before = comparisons(counts, variants, first - 1);
        let raw = variant_block(count, raw_kind, variants);
        let scaled = variant_block(count, scaled_kind, variants);
        let all = comparisons(counts, variants, first);
        assert(all == before + raw + scaled);
        if all.contains(comparison) {
            let k = choose|k: int| 0 <= k < all.len() && all[k] == comparison;
            if k < before.len() {
                assert(before[k] == comparison);
                assert(before.contains(comparison));
            } else {
                let v = if k < before.len() + raw.len() {
                    k - before.len()
                } else {
                    k - before.len() - raw.len()
                };
                assert(variants[v] == comparison.variant);
                assert(counts[first - 1] == comparison.requested_mode_count);
            }
        }
        if variants.contains(comparison.variant) && exists|s: int|
            0 <= s < first && #[trigger] counts[s] == comparison.requested_mode_count {
            let v = choose|v: int| 0 <= v < variants.len() && variants[v] == comparison.variant;
            let s = choose|s: int|
                0 <= s < first && #[trigger] counts[s] == comparison.requested_mode_count;
            if s < first - 1 {
                assert(before.contains(comparison));
                let k = choose|k: int| 0 <= k < before.len() && before[k] == comparison;
                assert(all[k] == comparison);
            } else if comparison.reference == raw_kind {
                assert(all[before.len() + v] == comparison);
            } else {
                assert(all[before.len() + raw.len() + v] == comparison);
            }
        }
    }
}

/// The variances of a model are multiplied by what its first row for all kinds says, if that is
/// finite and positive; they are left as they are if it is not, or if there is no such row.
pub proof fn lemma_first_overall_row_counts(
    rows: Seq<PlanarHolesTopologyVsNaiveGpCalibrationRow>,
    model: PlanarHolesModelKind,
)
    ensures
        forall|p: int|
            #![trigger rows[p]]
            0 <= p < rows.len() && rows[p].model == model && rows[p].kind@ == "all"@ && (forall|
                q: int,
            |
                0 <= q < p ==> (#[trigger] rows[q]).model != model || rows[q].kind@ != "all"@)
                ==> multiplier_of(rows, model) == (if rows[p].variance_multiplier.finite()
                && rows[p].variance_multiplier.positive() {
                rows[p].variance_multiplier
            } else {
                Scalar { bits: 0x3ff0_0000_0000_0000 }
            }),
        (forall|q: int|
            0 <= q < rows.len() ==> (#[trigger] rows[q]).model != model || rows[q].kind@ != "all"@)
            ==> multiplier_of(rows, model) == (Scalar { bits: 0x3ff0_0000_0000_0000 }),
    decreases rows.len(),
{
    if rows.len() > 0 {
        let rest = rows.skip(1);
        lemma_first_overall_row_counts(rest, model);
        assert forall|p: int|
            #![trigger rows[p]]
            0 <= p < rows.len() && rows[p].model == model && rows[p].kind@ == "all"@ && (forall|
                q: int,
            |
                0 <= q < p ==> (#[trigger] rows[q]).model != model || rows[q].kind@
                    != "all"@) implies multiplier_of(rows, model) == (
        if rows[p].variance_multiplier.finite() && rows[p].variance_multiplier.positive() {
            rows[p].variance_multiplier
        } else {
            Scalar { bits: 0x3ff0_0000_0000_0000 }
        }) by {
            if p > 0 {
                assert(rows[0].model != model || rows[0].kind@ != "all"@);
                assert(rest[p - 1] == rows[p]);
                assert forall|q: int| 0 <= q < p - 1 implies (#[trigger] rest[q]).model != model
                    || rest[q].kind@ != "all"@ by {
                    assert(rest[q] == rows[q + 1]);
                }
            }
        }
        if forall|q: int|
            0 <= q < rows.len() ==> (#[trigger] rows[q]).model != model || rows[q].kind@ != "all"@ {
            assert(rows[0].model != model || rows[0].kind@ != "all"@);
            assert forall|q: int| 0 <= q < rest.len() implies (#[trigger] rest[q]).model != model
                || rest[q].kind@ != "all"@ by {
                assert(rest[q] == rows[q + 1]);
            }
        }
    }
}

/// The coverage of a subset of edges under a model is that of the first summary of both, if there
/// is one.
pub proof fn lemma_first_summary_counts(
    summaries: Seq<PlanarHolesFieldCoverageSummary>,
    model: PlanarHolesModelKind,
    subset: PlanarHolesFieldCoverageSubset,
)
    ensures
        coverage_of(summaries, model, subset) is None <==> forall|q: int|
            0 <= q < summaries.len() ==> (#[trigger] summaries[q]).model != model
                || summaries[q].subset != subset,
        coverage_of(summaries, model, subset) is Some ==> exists|p: int|
            #![trigger summaries[p]]
            0 <= p < summaries.len() && summaries[p].model == model && summaries[p].subset == subset
                && coverage_of(summaries, model, subset) == Some(summaries[p].coverage_95) && (
            forall|q: int|
                0 <= q < p ==> (#[trigger] summaries[q]).model != model || summaries[q].subset
                    != subset),
    decreases summaries.len(),
{
    if summaries.len() > 0 {
        let rest = summaries.skip(1);
        lemma_first_summary_counts(rest, model, subset);
        let first_fits = summaries[0].model == model && summaries[0].subset == subset;
        assert(forall|q: int| 0 <= q < rest.len() ==> #[trigger] rest[q] == summaries[q + 1]);
        if !first_fits {
            if coverage_of(rest, model, subset) is Some {
                let p = choose|p: int|
                    #![trigger rest[p]]
                    0 <= p < rest.len() && rest[p].model == model && rest[p].subset == subset
                        && coverage_of(rest, model, subset) == Some(rest[p].coverage_95) && (forall|
                        q: int,
                    |
                        0 <= q < p ==> (#[trigger] rest[q]).model != model || rest[q].subset
                            != subset);
                assert(summaries[p + 1] == rest[p]);
                assert forall|q: int| 0 <= q < p + 1 implies (#[trigger] summaries[q]).model
                    != model || summaries[q].subset != subset by {
                    if q > 0 {
                        assert(rest[q - 1] == summaries[q]);
                    }
                }
            } else {
                assert forall|q: int| 0 <= q < summaries.len() implies (
                #[trigger] summaries[q]).model != model || summaries[q].subset != subset by {
                    if q > 0 {
                        assert(rest[q - 1] == summaries[q]);
                    }
                }
            }
        }
    }
}

} // verus!
