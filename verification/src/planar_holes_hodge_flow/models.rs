//! Which models are compared, what they are made of, and how a candidate is selected.

use super::config::{PlanarHolesFlowConfig, HARMONIC_COEFFICIENT_COUNT};
use super::kinds::PlanarHolesModelKind;
use crate::hodge::{has_branch, HodgeBranchKind};
use crate::scalar::Scalar;
use vstd::prelude::*;

verus! {

/// The models in the order in which they are built.
pub open spec fn model_order() -> Seq<PlanarHolesModelKind> {
    seq![
        PlanarHolesModelKind::HodgeMatern,
        PlanarHolesModelKind::ExactHodgeMatern,
        PlanarHolesModelKind::ExactDenseExactHodgeMatern,
        PlanarHolesModelKind::ExactDenseTraceMatchedExactHodgeMatern,
        PlanarHolesModelKind::IncompressibleHodgeMatern,
        PlanarHolesModelKind::ExactMassIncompressibleHodgeMatern,
        PlanarHolesModelKind::SparseLowerTraceMatchedIncompressibleHodgeMatern,
        PlanarHolesModelKind::ExactLowerIncompressibleHodgeMatern,
        PlanarHolesModelKind::ExactLowerTraceMatchedIncompressibleHodgeMatern,
        PlanarHolesModelKind::SpectralExactHodgeGp,
        PlanarHolesModelKind::SpectralHodgeGp,
        PlanarHolesModelKind::SpectralIncompressibleHodgeGp,
        PlanarHolesModelKind::NondecomposedFeec,
        PlanarHolesModelKind::ComponentwiseMatern,
        PlanarHolesModelKind::PostHocProjectedVectorMatern,
        PlanarHolesModelKind::NaiveEuclideanVectorMatern,
    ]
}

/// Whether a configuration asks for a model. Four models are always built.
pub open spec fn included(config: PlanarHolesFlowConfig, model: PlanarHolesModelKind) -> bool {
    match model {
        PlanarHolesModelKind::HodgeMatern
        | PlanarHolesModelKind::NondecomposedFeec
        | PlanarHolesModelKind::ComponentwiseMatern
        | PlanarHolesModelKind::PostHocProjectedVectorMatern => true,
        PlanarHolesModelKind::ExactHodgeMatern => config.include_exact_hodge_model,
        PlanarHolesModelKind::ExactDenseExactHodgeMatern => {
            config.include_exact_dense_exact_hodge_model
        },
        PlanarHolesModelKind::ExactDenseTraceMatchedExactHodgeMatern => {
            config.include_exact_dense_trace_matched_exact_hodge_model
        },
        PlanarHolesModelKind::IncompressibleHodgeMatern => {
            config.include_incompressible_hodge_model
        },
        PlanarHolesModelKind::ExactMassIncompressibleHodgeMatern => {
            config.include_exact_mass_incompressible_hodge_model
        },
        PlanarHolesModelKind::SparseLowerTraceMatchedIncompressibleHodgeMatern => {
            config.include_sparse_lower_trace_matched_incompressible_hodge_model
        },
        PlanarHolesModelKind::ExactLowerIncompressibleHodgeMatern => {
            config.include_exact_lower_incompressible_hodge_model
        },
        PlanarHolesModelKind::ExactLowerTraceMatchedIncompressibleHodgeMatern => {
            config.include_exact_lower_trace_matched_incompressible_hodge_model
        },
        PlanarHolesModelKind::SpectralExactHodgeGp => config.include_spectral_exact_hodge_model,
        PlanarHolesModelKind::SpectralHodgeGp => config.include_spectral_hodge_model,
        PlanarHolesModelKind::SpectralIncompressibleHodgeGp => {
            config.include_spectral_incompressible_hodge_model
        },
        PlanarHolesModelKind::NaiveEuclideanVectorMatern => {
            config.include_naive_euclidean_vector_matern_model
        },
    }
}

/// Tests whether a configuration asks for a model.
pub fn is_included(config: &PlanarHolesFlowConfig, model: PlanarHolesModelKind) -> (yes: bool)
    ensures
        yes == included(*config, model),
{
    match model {
        PlanarHolesModelKind::HodgeMatern
        | PlanarHolesModelKind::NondecomposedFeec
        | PlanarHolesModelKind::ComponentwiseMatern
        | PlanarHolesModelKind::PostHocProjectedVectorMatern => true,
        PlanarHolesModelKind::ExactHodgeMatern => config.include_exact_hodge_model,
        PlanarHolesModelKind::ExactDenseExactHodgeMatern => {
            config.include_exact_dense_exact_hodge_model
        },
        PlanarHolesModelKind::ExactDenseTraceMatchedExactHodgeMatern => {
            config.include_exact_dense_trace_matched_exact_hodge_model
        },
        PlanarHolesModelKind::IncompressibleHodgeMatern => {
            config.include_incompressible_hodge_model
        },
        PlanarHolesModelKind::ExactMassIncompressibleHodgeMatern => {
            config.include_exact_mass_incompressible_hodge_model
        },
        PlanarHolesModelKind::SparseLowerTraceMatchedIncompressibleHodgeMatern => {
            config.include_sparse_lower_trace_matched_incompressible_hodge_model
        },
        PlanarHolesModelKind::ExactLowerIncompressibleHodgeMatern => {
            config.include_exact_lower_incompressible_hodge_model
        },
        PlanarHolesModelKind::ExactLowerTraceMatchedIncompressibleHodgeMatern => {
            config.include_exact_lower_trace_matched_incompressible_hodge_model
        },
        PlanarHolesModelKind::SpectralExactHodgeGp => config.include_spectral_exact_hodge_model,
        PlanarHolesModelKind::SpectralHodgeGp => config.include_spectral_hodge_model,
        PlanarHolesModelKind::SpectralIncompressibleHodgeGp => {
            config.include_spectral_incompressible_hodge_model
        },
        PlanarHolesModelKind::NaiveEuclideanVectorMatern => {
            config.include_naive_euclidean_vector_matern_model
        },
    }
}

/// The models that a configuration asks for, in the order in which they are built.
pub open spec fn planned(config: PlanarHolesFlowConfig) -> Seq<PlanarHolesModelKind> {
    model_order().filter(|model: PlanarHolesModelKind| included(config, model))
}

/// Lists the models that a configuration asks for.
pub fn planned_models(config: &PlanarHolesFlowConfig) -> (models: Vec<PlanarHolesModelKind>)
    ensures
        models@ == planned(*config),
{
    let order: Vec<PlanarHolesModelKind> = vec![
        PlanarHolesModelKind::HodgeMatern,
        PlanarHolesModelKind::ExactHodgeMatern,
        PlanarHolesModelKind::ExactDenseExactHodgeMatern,
        PlanarHolesModelKind::ExactDenseTraceMatchedExactHodgeMatern,
        PlanarHolesModelKind::IncompressibleHodgeMatern,
        PlanarHolesModelKind::ExactMassIncompressibleHodgeMatern,
        PlanarHolesModelKind::SparseLowerTraceMatchedIncompressibleHodgeMatern,
        PlanarHolesModelKind::ExactLowerIncompressibleHodgeMatern,
        PlanarHolesModelKind::ExactLowerTraceMatchedIncompressibleHodgeMatern,
        PlanarHolesModelKind::SpectralExactHodgeGp,
        PlanarHolesModelKind::SpectralHodgeGp,
        PlanarHolesModelKind::SpectralIncompressibleHodgeGp,
        PlanarHolesModelKind::NondecomposedFeec,
        PlanarHolesModelKind::ComponentwiseMatern,
        PlanarHolesModelKind::PostHocProjectedVectorMatern,
        PlanarHolesModelKind::NaiveEuclideanVectorMatern,
    ];
    assert(order@ =~= model_order());
    let mut models: Vec<PlanarHolesModelKind> = Vec::new();
    let mut index: usize = 0;
    let ghost keeps = |model: PlanarHolesModelKind| included(*config, model);
    proof {
        reveal(Seq::filter);
        assert(order@.take(0).filter(keeps) =~= Seq::empty());
    }
    while index < order.len()
        invariant
            index <= order.len(),
            keeps == (|model: PlanarHolesModelKind| included(*config, model)),
            models@ == order@.take(index as int).filter(keeps),
        decreases order.len() - index,
    {
        proof {
            reveal(Seq::filter);
            assert(order@.take(index + 1).drop_last() =~= order@.take(index as int));
        }
        if is_included(config, order[index]) {
            models.push(order[index]);
        }
        index = index + 1;
    }
    assert(order@.take(index as int) =~= order@);
    models
}

/// Every model that a configuration asks for is planned, none twice, and the first is always the
/// Hodge model.
pub proof fn lemma_planned_models(config: PlanarHolesFlowConfig)
    ensures
        planned(config).no_duplicates(),
        forall|model: PlanarHolesModelKind| #[trigger]
            planned(config).contains(model) <==> included(config, model),
        planned(config).len() >= 4,
        planned(config)[0] == PlanarHolesModelKind::HodgeMatern,
{
    let keeps = |model: PlanarHolesModelKind| included(config, model);
    let order = model_order();
    assert(order.no_duplicates());
    lemma_kept_items(order, keeps);
    assert forall|model: PlanarHolesModelKind| #[trigger]
        planned(config).contains(model) <==> included(config, model) by {
        lemma_order_complete(model);
        assert(order.filter(keeps).contains(model) <==> order.contains(model) && keeps(model));
    }
    lemma_first_kept(order, keeps);
    let kept = planned(config);
    assert(kept.contains(PlanarHolesModelKind::HodgeMatern));
    assert(kept.contains(PlanarHolesModelKind::NondecomposedFeec));
    assert(kept.contains(PlanarHolesModelKind::ComponentwiseMatern));
    assert(kept.contains(PlanarHolesModelKind::PostHocProjectedVectorMatern));
}

proof fn lemma_order_complete(model: PlanarHolesModelKind)
    ensures
        model_order().contains(model),
{
    let order = model_order();
    assert(order[0] == PlanarHolesModelKind::HodgeMatern);
    assert(order[1] == PlanarHolesModelKind::ExactHodgeMatern);
    assert(order[2] == PlanarHolesModelKind::ExactDenseExactHodgeMatern);
    assert(order[3] == PlanarHolesModelKind::ExactDenseTraceMatchedExactHodgeMatern);
    assert(order[4] == PlanarHolesModelKind::IncompressibleHodgeMatern);
    assert(order[5] == PlanarHolesModelKind::ExactMassIncompressibleHodgeMatern);
    assert(order[6] == PlanarHolesModelKind::SparseLowerTraceMatchedIncompressibleHodgeMatern);
    assert(order[7] == PlanarHolesModelKind::ExactLowerIncompressibleHodgeMatern);
    assert(order[8] == PlanarHolesModelKind::ExactLowerTraceMatchedIncompressibleHodgeMatern);
    assert(order[9] == PlanarHolesModelKind::SpectralExactHodgeGp);
    assert(order[10] == PlanarHolesModelKind::SpectralHodgeGp);
    assert(order[11] == PlanarHolesModelKind::SpectralIncompressibleHodgeGp);
    assert(order[12] == PlanarHolesModelKind::NondecomposedFeec);
    assert(order[13] == PlanarHolesModelKind::ComponentwiseMatern);
    assert(order[14] == PlanarHolesModelKind::PostHocProjectedVectorMatern);
    assert(order[15] == PlanarHolesModelKind::NaiveEuclideanVectorMatern);
}

/// A filter keeps the items that it is asked to, and doubles none.
proof fn lemma_kept_items(
    items: Seq<PlanarHolesModelKind>,
    keeps: spec_fn(PlanarHolesModelKind) -> bool,
)
    requires
        items.no_duplicates(),
    ensures
        items.filter(keeps).no_duplicates(),
        forall|item: PlanarHolesModelKind| #[trigger]
            items.filter(keeps).contains(item) <==> items.contains(item) && keeps(item),
    decreases items.len(),
{
    reveal(Seq::filter);
    if items.len() > 0 {
        let rest = items.drop_last();
        lemma_kept_items(rest, keeps);
        let kept = rest.filter(keeps);
        assert forall|item: PlanarHolesModelKind| #[trigger]
            items.filter(keeps).contains(item) <==> items.contains(item) && keeps(item) by {
            assert(items.contains(item) <==> rest.contains(item) || item == items.last()) by {
                if items.contains(item) {
                    let i = choose|i: int| 0 <= i < items.len() && items[i] == item;
                    if i < rest.len() {
                        assert(rest[i] == item);
                    }
                }
                if rest.contains(item) {
                    let i = choose|i: int| 0 <= i < rest.len() && rest[i] == item;
                    assert(items[i] == item);
                }
            }
            assert(kept.contains(item) <==> rest.contains(item) && keeps(item));
            if keeps(items.last()) {
                let more = kept.push(items.last());
                assert(more.contains(item) <==> kept.contains(item) || item == items.last()) by {
                    if kept.contains(item) {
                        let i = choose|i: int| 0 <= i < kept.len() && kept[i] == item;
                        assert(more[i] == item);
                    }
                    assert(more[kept.len() as int] == items.last());
                    if more.contains(item) {
                        let i = choose|i: int| 0 <= i < more.len() && more[i] == item;
                        if i < kept.len() {
                            assert(kept[i] == item);
                        }
                    }
                }
            }
        }
        if keeps(items.last()) {
            assert(!rest.contains(items.last())) by {
                if rest.contains(items.last()) {
                    let i = choose|i: int| 0 <= i < rest.len() && rest[i] == items.last();
                    assert(items[i] == items[items.len() - 1]);
                }
            }
            assert(!kept.contains(items.last()));
            let more = kept.push(items.last());
            assert forall|i: int, j: int|
                0 <= i < more.len() && 0 <= j < more.len() && i != j implies more[i] != more[j] by {
                if i < kept.len() && j < kept.len() {
                    assert(kept[i] != kept[j]);
                } else if i < kept.len() {
                    assert(kept.contains(kept[i]));
                } else {
                    assert(kept.contains(kept[j]));
                }
            }
        }
    }
}

/// A first item that is kept comes first.
proof fn lemma_first_kept(
    items: Seq<PlanarHolesModelKind>,
    keeps: spec_fn(PlanarHolesModelKind) -> bool,
)
    requires
        items.len() > 0,
        keeps(items[0]),
    ensures
        items.filter(keeps).len() > 0,
        items.filter(keeps)[0] == items[0],
    decreases items.len(),
{
    reveal(Seq::filter);
    if items.len() > 1 {
        lemma_first_kept(items.drop_last(), keeps);
    } else {
        assert(items.drop_last() =~= Seq::empty());
    }
}

/// The branches of the Hodge decomposition that a model is made of, none for the models that do
/// not decompose the field.
pub open spec fn branches_of(model: PlanarHolesModelKind) -> Seq<HodgeBranchKind> {
    match model {
        PlanarHolesModelKind::HodgeMatern | PlanarHolesModelKind::SpectralHodgeGp => seq![
            HodgeBranchKind::Exact,
            HodgeBranchKind::Coexact,
            HodgeBranchKind::Harmonic,
        ],
        PlanarHolesModelKind::ExactHodgeMatern
        | PlanarHolesModelKind::ExactDenseExactHodgeMatern
        | PlanarHolesModelKind::ExactDenseTraceMatchedExactHodgeMatern
        | PlanarHolesModelKind::SpectralExactHodgeGp => seq![HodgeBranchKind::Exact],
        PlanarHolesModelKind::IncompressibleHodgeMatern
        | PlanarHolesModelKind::ExactMassIncompressibleHodgeMatern
        | PlanarHolesModelKind::SparseLowerTraceMatchedIncompressibleHodgeMatern
        | PlanarHolesModelKind::ExactLowerIncompressibleHodgeMatern
        | PlanarHolesModelKind::ExactLowerTraceMatchedIncompressibleHodgeMatern
        | PlanarHolesModelKind::SpectralIncompressibleHodgeGp => seq![
            HodgeBranchKind::Coexact,
            HodgeBranchKind::Harmonic,
        ],
        PlanarHolesModelKind::NondecomposedFeec
        | PlanarHolesModelKind::ComponentwiseMatern
        | PlanarHolesModelKind::PostHocProjectedVectorMatern
        | PlanarHolesModelKind::NaiveEuclideanVectorMatern => Seq::empty(),
    }
}

/// Whether a model has its branches from modes of a spectrum, so that a branch without modes is
/// missing.
pub open spec fn is_spectral(model: PlanarHolesModelKind) -> bool {
    model == PlanarHolesModelKind::SpectralHodgeGp || model
        == PlanarHolesModelKind::SpectralExactHodgeGp || model
        == PlanarHolesModelKind::SpectralIncompressibleHodgeGp
}

/// The place of a branch in the decomposition.
pub open spec fn branch_rank(branch: HodgeBranchKind) -> int {
    match branch {
        HodgeBranchKind::Exact => 0,
        HodgeBranchKind::Coexact => 1,
        HodgeBranchKind::Harmonic => 2,
    }
}

/// Whether branches stand in the order of the decomposition, each once.
pub open spec fn branches_rise(branches: Seq<HodgeBranchKind>) -> bool {
    forall|i: int, j: int|
        0 <= i < j < branches.len() ==> branch_rank(#[trigger] branches[i]) < branch_rank(
            #[trigger] branches[j],
        )
}

/// Whether branches are those that a model has parts in: all branches that it is made of, of a
/// spectral model those that have modes.
pub open spec fn branches_fit(
    model: PlanarHolesModelKind,
    branches: Seq<HodgeBranchKind>,
) -> bool {
    &&& branches_rise(branches)
    &&& forall|i: int|
        0 <= i < branches.len() ==> branches_of(model).contains(#[trigger] branches[i])
    &&& !is_spectral(model) ==> branches == branches_of(model)
}

/// Finds the place of a branch in the decomposition.
fn rank_of_branch(branch: HodgeBranchKind) -> (rank: usize)
    ensures
        rank == branch_rank(branch),
{
    match branch {
        HodgeBranchKind::Exact => 0,
        HodgeBranchKind::Coexact => 1,
        HodgeBranchKind::Harmonic => 2,
    }
}

/// Decides whether branches are those that a model has parts in.
pub fn check_branches(model: PlanarHolesModelKind, branches: &Vec<HodgeBranchKind>) -> (fit: bool)
    ensures
        fit == branches_fit(model, branches@),
{
    let all = model_branches(model);
    let mut index: usize = 0;
    while index < branches.len()
        invariant
            all@ == branches_of(model),
            index <= branches.len(),
            forall|i: int, j: int|
                0 <= i < j < index ==> branch_rank(#[trigger] branches@[i]) < branch_rank(
                    #[trigger] branches@[j],
                ),
            forall|i: int|
                0 <= i < index ==> branches_of(model).contains(#[trigger] branches@[i]),
        decreases branches.len() - index,
    {
        let branch: HodgeBranchKind = branches[index];
        if !has_branch(&all, branch) {
            assert(!branches_of(model).contains(branches@[index as int]));
            return false;
        }
        if index > 0 && rank_of_branch(branches[index - 1]) >= rank_of_branch(branch) {
            assert(branch_rank(branches@[index - 1]) >= branch_rank(branches@[index as int]));
            return false;
        }
        index = index + 1;
    }
    let spectral: bool = model == PlanarHolesModelKind::SpectralHodgeGp || model
        == PlanarHolesModelKind::SpectralExactHodgeGp || model
        == PlanarHolesModelKind::SpectralIncompressibleHodgeGp;
    if spectral {
        return true;
    }
    if branches.len() != all.len() {
        return false;
    }
    let mut place: usize = 0;
    while place < all.len()
        invariant
            all@ == branches_of(model),
            !is_spectral(model),
            branches.len() == all.len(),
            place <= all.len(),
            forall|i: int| 0 <= i < place ==> #[trigger] branches@[i] == all@[i],
        decreases all.len() - place,
    {
        if branches[place] != all[place] {
            assert(branches@[place as int] != all@[place as int]);
            return false;
        }
        place = place + 1;
    }
    assert(branches@ =~= all@);
    true
}

/// Lists the branches of the Hodge decomposition that a model is made of.
pub fn model_branches(model: PlanarHolesModelKind) -> (branches: Vec<HodgeBranchKind>)
    ensures
        branches@ == branches_of(model),
{
    let branches: Vec<HodgeBranchKind> = match model {
        PlanarHolesModelKind::HodgeMatern | PlanarHolesModelKind::SpectralHodgeGp => vec![
            HodgeBranchKind::Exact,
            HodgeBranchKind::Coexact,
            HodgeBranchKind::Harmonic,
        ],
        PlanarHolesModelKind::ExactHodgeMatern
        | PlanarHolesModelKind::ExactDenseExactHodgeMatern
        | PlanarHolesModelKind::ExactDenseTraceMatchedExactHodgeMatern
        | PlanarHolesModelKind::SpectralExactHodgeGp => vec![HodgeBranchKind::Exact],
        PlanarHolesModelKind::IncompressibleHodgeMatern
        | PlanarHolesModelKind::ExactMassIncompressibleHodgeMatern
        | PlanarHolesModelKind::SparseLowerTraceMatchedIncompressibleHodgeMatern
        | PlanarHolesModelKind::ExactLowerIncompressibleHodgeMatern
        | PlanarHolesModelKind::ExactLowerTraceMatchedIncompressibleHodgeMatern
        | PlanarHolesModelKind::SpectralIncompressibleHodgeGp => vec![
            HodgeBranchKind::Coexact,
            HodgeBranchKind::Harmonic,
        ],
        PlanarHolesModelKind::NondecomposedFeec
        | PlanarHolesModelKind::ComponentwiseMatern
        | PlanarHolesModelKind::PostHocProjectedVectorMatern
        | PlanarHolesModelKind::NaiveEuclideanVectorMatern => Vec::new(),
    };
    assert(branches@ =~= branches_of(model));
    branches
}

/// Which scale of the coexact precision a model reports.
#[derive(Debug, Clone, Copy, PartialEq, Eq, Structural)]
pub enum CoexactTauRule {
    /// None.
    NotReported,
    /// The configured scale.
    Configured,
    /// The configured scale times the one that matches the expected energy.
    TraceMatched,
}

/// Tells which scale of the coexact precision a model reports.
pub fn coexact_tau_rule(model: PlanarHolesModelKind) -> (rule: CoexactTauRule)
    ensures
        rule == CoexactTauRule::TraceMatched <==> (model
            == PlanarHolesModelKind::SparseLowerTraceMatchedIncompressibleHodgeMatern || model
            == PlanarHolesModelKind::ExactLowerTraceMatchedIncompressibleHodgeMatern),
        rule == CoexactTauRule::NotReported <==> (branches_of(model).len() == 0 || (branches_of(
            model,
        ) == seq![HodgeBranchKind::Exact] && model != PlanarHolesModelKind::SpectralExactHodgeGp)),
{
    let rule = match model {
        PlanarHolesModelKind::HodgeMatern
        | PlanarHolesModelKind::IncompressibleHodgeMatern
        | PlanarHolesModelKind::ExactMassIncompressibleHodgeMatern
        | PlanarHolesModelKind::ExactLowerIncompressibleHodgeMatern
        | PlanarHolesModelKind::SpectralExactHodgeGp
        | PlanarHolesModelKind::SpectralHodgeGp
        | PlanarHolesModelKind::SpectralIncompressibleHodgeGp => CoexactTauRule::Configured,
        PlanarHolesModelKind::SparseLowerTraceMatchedIncompressibleHodgeMatern
        | PlanarHolesModelKind::ExactLowerTraceMatchedIncompressibleHodgeMatern => {
            CoexactTauRule::TraceMatched
        },
        PlanarHolesModelKind::ExactHodgeMatern
        | PlanarHolesModelKind::ExactDenseExactHodgeMatern
        | PlanarHolesModelKind::ExactDenseTraceMatchedExactHodgeMatern
        | PlanarHolesModelKind::NondecomposedFeec
        | PlanarHolesModelKind::ComponentwiseMatern
        | PlanarHolesModelKind::PostHocProjectedVectorMatern
        | PlanarHolesModelKind::NaiveEuclideanVectorMatern => CoexactTauRule::NotReported,
    };
    proof {
        let three = seq![
            HodgeBranchKind::Exact,
            HodgeBranchKind::Coexact,
            HodgeBranchKind::Harmonic,
        ];
        let two = seq![HodgeBranchKind::Coexact, HodgeBranchKind::Harmonic];
        let one = seq![HodgeBranchKind::Exact];
        assert(three.len() == 3 && two.len() == 2 && one.len() == 1);
    }
    rule
}

/// The name of a model in a figure.
pub open spec fn display_name(model: PlanarHolesModelKind) -> Seq<char> {
    match model {
        PlanarHolesModelKind::SpectralIncompressibleHodgeGp => "Spectral coexact+harmonic GP"@,
        PlanarHolesModelKind::ExactLowerTraceMatchedIncompressibleHodgeMatern => {
            "Exact-lower trace-matched GMRF"@
        },
        PlanarHolesModelKind::IncompressibleHodgeMatern => "Sparse coexact+harmonic GMRF"@,
        PlanarHolesModelKind::NondecomposedFeec => "Nondecomposed FEEC GMRF"@,
        PlanarHolesModelKind::NaiveEuclideanVectorMatern => "Naive Euclidean vector GP"@,
        _ => model.name(),
    }
}

/// Names a model in a figure.
pub fn display_model_name(model: PlanarHolesModelKind) -> (text: &'static str)
    ensures
        text@ == display_name(model),
{
    match model {
        PlanarHolesModelKind::SpectralIncompressibleHodgeGp => "Spectral coexact+harmonic GP",
        PlanarHolesModelKind::ExactLowerTraceMatchedIncompressibleHodgeMatern => {
            "Exact-lower trace-matched GMRF"
        },
        PlanarHolesModelKind::IncompressibleHodgeMatern => "Sparse coexact+harmonic GMRF",
        PlanarHolesModelKind::NondecomposedFeec => "Nondecomposed FEEC GMRF",
        PlanarHolesModelKind::NaiveEuclideanVectorMatern => "Naive Euclidean vector GP",
        _ => model.as_str(),
    }
}

/// How many modes of each branch a spectral model asks for.
#[derive(Debug, Clone, Copy, PartialEq, Eq, Structural)]
pub struct SpectralModes {
    pub exact: usize,
    pub coexact: usize,
    pub harmonic: usize,
}

/// Counts the modes that a spectral model with the given branches asks for.
pub fn spectral_modes(config: &PlanarHolesFlowConfig, branches: &Vec<HodgeBranchKind>) -> (modes:
    SpectralModes)
    ensures
        modes.exact == (if branches@.contains(HodgeBranchKind::Exact) {
            config.spectral_exact_mode_count
        } else {
            0
        }),
        modes.coexact == (if branches@.contains(HodgeBranchKind::Coexact) {
            config.spectral_coexact_mode_count
        } else {
            0
        }),
        modes.harmonic == (if branches@.contains(HodgeBranchKind::Harmonic) {
            config.spectral_harmonic_mode_count
        } else {
            0
        }),
{
    SpectralModes {
        exact: if has_branch(branches, HodgeBranchKind::Exact) {
            config.spectral_exact_mode_count
        } else {
            0
        },
        coexact: if has_branch(branches, HodgeBranchKind::Coexact) {
            config.spectral_coexact_mode_count
        } else {
            0
        },
        harmonic: if has_branch(branches, HodgeBranchKind::Harmonic) {
            config.spectral_harmonic_mode_count
        } else {
            0
        },
    }
}

/// The latent columns of a branch.
#[derive(Debug, Clone, Copy, PartialEq, Eq, Structural)]
pub struct BranchColumns {
    pub branch: HodgeBranchKind,
    pub offset: usize,
}

/// The columns before those of a branch.
pub open spec fn columns_before(
    branch: HodgeBranchKind,
    exact_width: nat,
    coexact_width: nat,
) -> nat {
    match branch {
        HodgeBranchKind::Exact => 0,
        HodgeBranchKind::Coexact => exact_width,
        HodgeBranchKind::Harmonic => exact_width + coexact_width,
    }
}

/// The number of columns of a branch.
pub open spec fn branch_width(
    branch: HodgeBranchKind,
    exact_width: nat,
    coexact_width: nat,
    harmonic_width: nat,
) -> nat {
    match branch {
        HodgeBranchKind::Exact => exact_width,
        HodgeBranchKind::Coexact => coexact_width,
        HodgeBranchKind::Harmonic => harmonic_width,
    }
}

/// The columns of the branches of a spectral model: the listed branches that have any, in the
/// order of the decomposition, each after the columns of those before it.
pub open spec fn branch_layout(
    branches: Seq<HodgeBranchKind>,
    exact_width: nat,
    coexact_width: nat,
    harmonic_width: nat,
) -> Seq<BranchColumns> {
    HodgeBranchKind::in_order().filter(
        |branch: HodgeBranchKind|
            branches.contains(branch) && branch_width(
                branch,
                exact_width,
                coexact_width,
                harmonic_width,
            ) > 0,
    ).map_values(
        |branch: HodgeBranchKind|
            BranchColumns {
                branch,
                offset: columns_before(branch, exact_width, coexact_width) as usize,
            },
    )
}

/// Lays out the columns of the branches of a spectral model.
pub fn spectral_branch_layout(
    branches: &Vec<HodgeBranchKind>,
    exact_width: usize,
    coexact_width: usize,
    harmonic_width: usize,
) -> (layout: Vec<BranchColumns>)
    requires
        exact_width + coexact_width <= usize::MAX,
    ensures
        layout@ == branch_layout(
            branches@,
            exact_width as nat,
            coexact_width as nat,
            harmonic_width as nat,
        ),
{
    let mut layout: Vec<BranchColumns> = Vec::new();
    if exact_width > 0 && has_branch(branches, HodgeBranchKind::Exact) {
        layout.push(BranchColumns { branch: HodgeBranchKind::Exact, offset: 0 });
    }
    if coexact_width > 0 && has_branch(branches, HodgeBranchKind::Coexact) {
        layout.push(BranchColumns { branch: HodgeBranchKind::Coexact, offset: exact_width });
    }
    if harmonic_width > 0 && has_branch(branches, HodgeBranchKind::Harmonic) {
        layout.push(
            BranchColumns {
                branch: HodgeBranchKind::Harmonic,
                offset: exact_width + coexact_width,
            },
        );
    }
    proof {
        reveal(Seq::filter);
        let keeps = |branch: HodgeBranchKind|
            branches@.contains(branch) && branch_width(
                branch,
                exact_width as nat,
                coexact_width as nat,
                harmonic_width as nat,
            ) > 0;
        let order = HodgeBranchKind::in_order();
        let two = order.drop_last();
        let one = two.drop_last();
        let none = one.drop_last();
        assert(none =~= Seq::empty());
        assert(order.last() == HodgeBranchKind::Harmonic);
        assert(two.last() == HodgeBranchKind::Coexact);
        assert(one.last() == HodgeBranchKind::Exact);
        assert(none.filter(keeps) =~= Seq::empty());
        assert(one.filter(keeps) == if keeps(HodgeBranchKind::Exact) {
            none.filter(keeps).push(HodgeBranchKind::Exact)
        } else {
            none.filter(keeps)
        });
        assert(two.filter(keeps) == if keeps(HodgeBranchKind::Coexact) {
            one.filter(keeps).push(HodgeBranchKind::Coexact)
        } else {
            one.filter(keeps)
        });
        assert(order.filter(keeps) == if keeps(HodgeBranchKind::Harmonic) {
            two.filter(keeps).push(HodgeBranchKind::Harmonic)
        } else {
            two.filter(keeps)
        });
        assert(layout@ =~= branch_layout(
            branches@,
            exact_width as nat,
            coexact_width as nat,
            harmonic_width as nat,
        ));
    }
    layout
}

/// The expected energy that a branch of a spectral model is scaled to, where it is.
pub fn spectral_energy_target(config: &PlanarHolesFlowConfig, expected_m1_energy: Scalar) -> (target:
    Option<Scalar>)
    ensures
        target == (if config.spectral_branch_energy_normalization {
            Some(expected_m1_energy)
        } else {
            None
        }),
{
    if config.spectral_branch_energy_normalization {
        Some(expected_m1_energy)
    } else {
        None
    }
}

/// The configuration of the reference models: no exact modes, one harmonic mode per hole, and the
/// energies of the branches scaled to 1 and 4.
pub open spec fn referenced(config: PlanarHolesFlowConfig) -> PlanarHolesFlowConfig {
    PlanarHolesFlowConfig {
        spectral_exact_mode_count: 0,
        spectral_harmonic_mode_count: HARMONIC_COEFFICIENT_COUNT,
        spectral_branch_energy_normalization: true,
        spectral_coexact_expected_m1_energy: Scalar { bits: 0x3ff0_0000_0000_0000 },
        spectral_harmonic_expected_m1_energy: Scalar { bits: 0x4010_0000_0000_0000 },
        ..config
    }
}

/// Sets up the configuration of the reference models.
pub fn reference_config(config: &PlanarHolesFlowConfig) -> (reference: PlanarHolesFlowConfig)
    ensures
        reference == referenced(*config),
{
    let mut reference: PlanarHolesFlowConfig = *config;
    reference.spectral_exact_mode_count = 0;
    reference.spectral_harmonic_mode_count = HARMONIC_COEFFICIENT_COUNT;
    reference.spectral_branch_energy_normalization = true;
    reference.spectral_coexact_expected_m1_energy = Scalar { bits: 0x3ff0_0000_0000_0000 };
    reference.spectral_harmonic_expected_m1_energy = Scalar { bits: 0x4010_0000_0000_0000 };
    reference
}

/// Whether a model is one of the references without tuned parameters.
pub open spec fn is_reference(model: PlanarHolesModelKind) -> bool {
    model == PlanarHolesModelKind::IncompressibleHodgeMatern || model
        == PlanarHolesModelKind::SparseLowerTraceMatchedIncompressibleHodgeMatern || model
        == PlanarHolesModelKind::ExactLowerTraceMatchedIncompressibleHodgeMatern || model
        == PlanarHolesModelKind::SpectralIncompressibleHodgeGp
}

/// Whether a model is one of those whose parameters are tuned.
pub open spec fn is_tuned(model: PlanarHolesModelKind) -> bool {
    model == PlanarHolesModelKind::NondecomposedFeec || model
        == PlanarHolesModelKind::NaiveEuclideanVectorMatern
}

/// Tests that a model can be built from a pair of tuned parameters.
pub fn check_tuned_model(model: PlanarHolesModelKind) -> (result: Result<(), String>)
    ensures
        match result {
            Ok(_) => is_tuned(model),
            Err(message) => !is_tuned(model) && message@ == "unsupported topology-vs-naive model "@
                + model.name(),
        },
{
    match model {
        PlanarHolesModelKind::NondecomposedFeec
        | PlanarHolesModelKind::NaiveEuclideanVectorMatern => Ok(()),
        _ => {
            let mut message = String::from_str("unsupported topology-vs-naive model ");
            message.append(model.as_str());
            Err(message)
        },
    }
}

/// Tests that a model can be built as a reference.
pub fn check_reference_model(model: PlanarHolesModelKind) -> (result: Result<(), String>)
    ensures
        match result {
            Ok(_) => is_reference(model),
            Err(message) => !is_reference(model) && message@
                == "unsupported fixed topology reference model "@ + model.name(),
        },
{
    match model {
        PlanarHolesModelKind::IncompressibleHodgeMatern
        | PlanarHolesModelKind::SparseLowerTraceMatchedIncompressibleHodgeMatern
        | PlanarHolesModelKind::ExactLowerTraceMatchedIncompressibleHodgeMatern
        | PlanarHolesModelKind::SpectralIncompressibleHodgeGp => Ok(()),
        _ => {
            let mut message = String::from_str("unsupported fixed topology reference model ");
            message.append(model.as_str());
            Err(message)
        },
    }
}

/// How a model is built before it is conditioned.
#[derive(Debug, Clone, Copy)]
pub enum ModelSetup {
    /// With an inverse range and a scale of its own.
    Tuned { kappa: Scalar, tau: Scalar },
    /// As a reference, from a configuration.
    Reference { config: PlanarHolesFlowConfig },
}

/// Decides how a model of a comparison is built: a tuned one with the parameters of its candidate,
/// a reference from the configuration of the references.
pub fn model_setup(
    model: PlanarHolesModelKind,
    candidate: Candidate,
    config: &PlanarHolesFlowConfig,
) -> (result: Result<ModelSetup, String>)
    ensures
        is_tuned(model) ==> result == Ok::<ModelSetup, String>(
            (ModelSetup::Tuned { kappa: candidate.kappa, tau: candidate.tau }),
        ),
        is_reference(model) ==> result == Ok::<ModelSetup, String>(
            (ModelSetup::Reference { config: referenced(*config) }),
        ),
        !is_tuned(model) && !is_reference(model) ==> match result {
            Ok(_) => false,
            Err(message) => message@ == "unsupported fixed topology reference model "@
                + model.name(),
        },
{
    if check_tuned_model(model).is_ok() {
        return Ok(ModelSetup::Tuned { kappa: candidate.kappa, tau: candidate.tau });
    }
    match check_reference_model(model) {
        Ok(_) => Ok(ModelSetup::Reference { config: reference_config(config) }),
        Err(message) => Err(message),
    }
}

/// The inverse range that is reported for a reference model: that of its coexact branch.
pub fn fixed_reference_kappa(model: PlanarHolesModelKind, config: &PlanarHolesFlowConfig) -> (kappa:
    Option<Scalar>)
    ensures
        kappa == (if is_reference(model) {
            Some(config.coexact_kappa)
        } else {
            None
        }),
{
    match model {
        PlanarHolesModelKind::IncompressibleHodgeMatern
        | PlanarHolesModelKind::SparseLowerTraceMatchedIncompressibleHodgeMatern
        | PlanarHolesModelKind::ExactLowerTraceMatchedIncompressibleHodgeMatern
        | PlanarHolesModelKind::SpectralIncompressibleHodgeGp => Some(config.coexact_kappa),
        _ => None,
    }
}

/// The two factors of the precision scale that is reported for a reference model.
pub fn fixed_reference_tau(model: PlanarHolesModelKind, config: &PlanarHolesFlowConfig) -> (factors:
    Option<(Scalar, Scalar)>)
    ensures
        factors == (if is_reference(model) {
            Some((config.tau, config.coexact_tau_scale))
        } else {
            None
        }),
{
    match model {
        PlanarHolesModelKind::IncompressibleHodgeMatern
        | PlanarHolesModelKind::SparseLowerTraceMatchedIncompressibleHodgeMatern
        | PlanarHolesModelKind::ExactLowerTraceMatchedIncompressibleHodgeMatern
        | PlanarHolesModelKind::SpectralIncompressibleHodgeGp => Some(
            (config.tau, config.coexact_tau_scale),
        ),
        _ => None,
    }
}

/// A set of models that are compared on held-out observations.
#[derive(Debug, Clone, Copy, PartialEq, Eq, Structural)]
pub enum ComparedModels {
    /// The tuned models alone.
    Tuned,
    /// The tuned models, and references with a sparse mass.
    TunedAndReferences,
    /// The models of the figure of vector fields.
    Figure,
}

impl ComparedModels {
    /// The models in the order in which they are reported.
    pub open spec fn listed(self) -> Seq<PlanarHolesModelKind> {
        match self {
            ComparedModels::Tuned => seq![
                PlanarHolesModelKind::NondecomposedFeec,
                PlanarHolesModelKind::NaiveEuclideanVectorMatern,
            ],
            ComparedModels::TunedAndReferences => seq![
                PlanarHolesModelKind::NondecomposedFeec,
                PlanarHolesModelKind::NaiveEuclideanVectorMatern,
                PlanarHolesModelKind::IncompressibleHodgeMatern,
                PlanarHolesModelKind::SparseLowerTraceMatchedIncompressibleHodgeMatern,
                PlanarHolesModelKind::SpectralIncompressibleHodgeGp,
            ],
            ComparedModels::Figure => seq![
                PlanarHolesModelKind::SpectralIncompressibleHodgeGp,
                PlanarHolesModelKind::ExactLowerTraceMatchedIncompressibleHodgeMatern,
                PlanarHolesModelKind::IncompressibleHodgeMatern,
                PlanarHolesModelKind::NondecomposedFeec,
                PlanarHolesModelKind::NaiveEuclideanVectorMatern,
            ],
        }
    }

    /// Lists the models; each is a tuned one or a reference.
    pub fn models(self) -> (models: Vec<PlanarHolesModelKind>)
        ensures
            models@ == self.listed(),
            forall|i: int|
                0 <= i < models.len() ==> is_tuned(#[trigger] models@[i]) || is_reference(
                    models@[i],
                ),
    {
        let models = match self {
            ComparedModels::Tuned => vec![
                PlanarHolesModelKind::NondecomposedFeec,
                PlanarHolesModelKind::NaiveEuclideanVectorMatern,
            ],
            ComparedModels::TunedAndReferences => vec![
                PlanarHolesModelKind::NondecomposedFeec,
                PlanarHolesModelKind::NaiveEuclideanVectorMatern,
                PlanarHolesModelKind::IncompressibleHodgeMatern,
                PlanarHolesModelKind::SparseLowerTraceMatchedIncompressibleHodgeMatern,
                PlanarHolesModelKind::SpectralIncompressibleHodgeGp,
            ],
            ComparedModels::Figure => vec![
                PlanarHolesModelKind::SpectralIncompressibleHodgeGp,
                PlanarHolesModelKind::ExactLowerTraceMatchedIncompressibleHodgeMatern,
                PlanarHolesModelKind::IncompressibleHodgeMatern,
                PlanarHolesModelKind::NondecomposedFeec,
                PlanarHolesModelKind::NaiveEuclideanVectorMatern,
            ],
        };
        assert(models@ =~= self.listed());
        models
    }
}

/// The parameters of a candidate.
#[derive(Debug, Clone, Copy, PartialEq, Eq, Structural)]
pub struct Candidate {
    pub kappa: Scalar,
    pub tau: Scalar,
    pub observation_variance_scale: Scalar,
}

/// The candidate of a given number: the scales vary fastest, the inverse ranges slowest.
pub open spec fn candidate_at(
    kappas: Seq<Scalar>,
    taus: Seq<Scalar>,
    scales: Seq<Scalar>,
    number: int,
) -> Candidate {
    Candidate {
        kappa: kappas[number / (taus.len() * scales.len()) as int],
        tau: taus[(number / scales.len() as int) % taus.len() as int],
        observation_variance_scale: scales[number % scales.len() as int],
    }
}

/// Whether the score of a given number is finite, below all finite scores before it, and not
/// above any after it.
pub open spec fn is_first_minimum(scores: Seq<Scalar>, number: int) -> bool {
    &&& 0 <= number < scores.len()
    &&& scores[number].finite()
    &&& forall|j: int|
        0 <= j < number && (#[trigger] scores[j]).finite() ==> scores[number].lt(scores[j])
    &&& forall|j: int|
        number < j < scores.len() && (#[trigger] scores[j]).finite() ==> !scores[j].lt(
            scores[number],
        )
}

/// Whether a score is finite.
pub open spec fn any_finite(scores: Seq<Scalar>) -> bool {
    exists|j: int| 0 <= j < scores.len() && (#[trigger] scores[j]).finite()
}

/// Finds the first of the least finite scores.
pub fn first_minimum(scores: &Vec<Scalar>) -> (best: Option<usize>)
    ensures
        match best {
            Some(number) => is_first_minimum(scores@, number as int),
            None => !any_finite(scores@),
        },
{
    let mut best: Option<usize> = None;
    let mut index: usize = 0;
    while index < scores.len()
        invariant
            index <= scores.len(),
            match best {
                Some(number) => is_first_minimum(scores@.take(index as int), number as int),
                None => forall|j: int| 0 <= j < index ==> !(#[trigger] scores@[j]).finite(),
            },
        decreases scores.len() - index,
    {
        let score: Scalar = scores[index];
        let ghost shorter = scores@.take(index as int);
        let ghost longer = scores@.take(index + 1);
        assert(forall|j: int| 0 <= j < index ==> #[trigger] longer[j] == shorter[j]);
        assert(longer[index as int] == score);
        if score.is_finite() {
            match best {
                Some(number) => {
                    if score.less_than(scores[number]) {
                        proof {
                            assert forall|j: int|
                                0 <= j < index && (#[trigger] longer[j]).finite() implies longer[index as int].lt(
                            longer[j]) by {
                                assert(longer[j] == shorter[j]);
                                assert(shorter[number as int].finite());
                                crate::scalar::lemma_scalar_order(
                                    score,
                                    shorter[number as int],
                                    shorter[j],
                                );
                            }
                        }
                        best = Some(index);
                    } else {
                        proof {
                            assert(longer[number as int] == shorter[number as int]);
                        }
                    }
                },
                None => {
                    best = Some(index);
                },
            }
        } else {
            proof {
                if best is Some {
                    let number = best->Some_0 as int;
                    assert(longer[number] == shorter[number]);
                }
            }
        }
        index = index + 1;
    }
    assert(scores@.take(index as int) =~= scores@);
    best
}

/// Gives the candidate of a given number.
pub fn candidate_of(
    kappas: &Vec<Scalar>,
    taus: &Vec<Scalar>,
    scales: &Vec<Scalar>,
    number: usize,
) -> (candidate: Candidate)
    requires
        number < kappas.len() * taus.len() * scales.len() <= usize::MAX,
    ensures
        candidate == candidate_at(kappas@, taus@, scales@, number as int),
{
    proof {
        lemma_candidate_in_grid(
            kappas.len() as int,
            taus.len() as int,
            scales.len() as int,
            number as int,
        );
    }
    let per_kappa: usize = taus.len() * scales.len();
    Candidate {
        kappa: kappas[number / per_kappa],
        tau: taus[(number / scales.len()) % taus.len()],
        observation_variance_scale: scales[number % scales.len()],
    }
}

/// Selects the candidate with the least finite validation score, the first of them where several
/// have it. `scores` lists the score of every candidate, in the order of their numbers.
pub fn select_topology_vs_naive_candidate(
    model: PlanarHolesModelKind,
    kappas: &Vec<Scalar>,
    taus: &Vec<Scalar>,
    scales: &Vec<Scalar>,
    scores: &Vec<Scalar>,
) -> (result: Result<(usize, Candidate), String>)
    requires
        scores.len() == kappas.len() * taus.len() * scales.len(),
    ensures
        match result {
            Ok((number, candidate)) => is_first_minimum(scores@, number as int) && candidate
                == candidate_at(kappas@, taus@, scales@, number as int),
            Err(message) => !any_finite(scores@) && message@
                == "no finite validation score for topology-vs-naive model "@ + model.name(),
        },
{
    match first_minimum(scores) {
        Some(number) => {
            let candidate = candidate_of(kappas, taus, scales, number);
            Ok((number, candidate))
        },
        None => {
            let mut message = String::from_str(
                "no finite validation score for topology-vs-naive model ",
            );
            message.append(model.as_str());
            Err(message)
        },
    }
}

proof fn lemma_candidate_in_grid(kappas: int, taus: int, scales: int, number: int)
    requires
        0 <= kappas,
        0 <= taus,
        0 <= scales,
        0 <= number < kappas * taus * scales,
    ensures
        0 < kappas,
        0 < taus,
        0 < scales,
        0 < taus * scales <= kappas * taus * scales,
        0 <= number / (taus * scales) < kappas,
        0 <= (number / scales) % taus < taus,
        0 <= number % scales < scales,
{
    assert(kappas > 0 && taus > 0 && scales > 0) by (nonlinear_arith)
        requires
            0 <= kappas,
            0 <= taus,
            0 <= scales,
            0 < kappas * taus * scales,
    ;
    let block = taus * scales;
    assert(0 < block) by (nonlinear_arith)
        requires
            0 < taus,
            0 < scales,
            block == taus * scales,
    ;
    assert(kappas * taus * scales == kappas * block) by (nonlinear_arith)
        requires
            block == taus * scales,
    ;
    assert(block <= kappas * block) by (nonlinear_arith)
        requires
            0 < kappas,
            0 < block,
    ;
    assert(0 <= number / block < kappas) by (nonlinear_arith)
        requires
            0 < block,
            0 <= number < kappas * block,
    ;
    assert(0 <= number / scales) by (nonlinear_arith)
        requires
            0 <= number,
            0 < scales,
    ;
    assert(0 <= (number / scales) % taus < taus) by (nonlinear_arith)
        requires
            0 < taus,
    ;
    assert(0 <= number % scales < scales) by (nonlinear_arith)
        requires
            0 < scales,
    ;
}

/// Every choice of an inverse range, a precision scale and a variance scale is a candidate, and
/// the candidates are numbered as the nested grids list them.
pub proof fn lemma_candidates_cover_grid(
    kappas: Seq<Scalar>,
    taus: Seq<Scalar>,
    scales: Seq<Scalar>,
    k: int,
    t: int,
    s: int,
)
    requires
        0 <= k < kappas.len(),
        0 <= t < taus.len(),
        0 <= s < scales.len(),
    ensures
        ({
            let number = (k * taus.len() + t) * scales.len() + s;
            &&& 0 <= number < kappas.len() * taus.len() * scales.len()
            &&& candidate_at(kappas, taus, scales, number) == (Candidate {
                kappa: kappas[k],
                tau: taus[t],
                observation_variance_scale: scales[s],
            })
        }),
{
    let (a, b, c) = (kappas.len() as int, taus.len() as int, scales.len() as int);
    let row = k * b + t;
    let number = row * c + s;
    assert(0 <= row < a * b) by (nonlinear_arith)
        requires
            0 <= k < a,
            0 <= t < b,
            row == k * b + t,
    ;
    assert(0 <= number < a * b * c) by (nonlinear_arith)
        requires
            0 <= row < a * b,
            0 <= s < c,
            number == row * c + s,
    ;
    assert(number / c == row && number % c == s) by (nonlinear_arith)
        requires
            0 <= s < c,
            number == row * c + s,
    ;
    assert(row / b == k && row % b == t) by (nonlinear_arith)
        requires
            0 <= t < b,
            row == k * b + t,
    ;
    assert(b * c > 0) by (nonlinear_arith)
        requires
            0 < b,
            0 < c,
    ;
    let rest = t * c + s;
    assert(0 <= rest < b * c) by (nonlinear_arith)
        requires
            0 <= t < b,
            0 <= s < c,
            rest == t * c + s,
    ;
    assert(number == k * (b * c) + rest) by (nonlinear_arith)
        requires
            row == k * b + t,
            number == row * c + s,
            rest == t * c + s,
    ;
    let block = b * c;
    assert(number / block == k) by (nonlinear_arith)
        requires
            0 <= rest < block,
            number == k * block + rest,
    ;
}

/// The message for a precision scale that is not finite and positive. `scale_text` is the scale
/// as it is written out.
pub open spec fn tau_scale_message(subject: Seq<char>, scale_text: Seq<char>) -> Seq<char> {
    "invalid "@ + subject + " tau scale "@ + scale_text
}

/// Tests that a precision scale is finite and positive.
pub fn check_tau_scale(subject: &str, scale: Scalar, scale_text: &str) -> (result: Result<
    (),
    String,
>)
    ensures
        match result {
            Ok(_) => scale.finite() && scale.positive(),
            Err(message) => !(scale.finite() && scale.positive()) && message@
                == tau_scale_message(subject@, scale_text@),
        },
{
    if scale.is_finite() && scale.is_positive() {
        Ok(())
    } else {
        let mut message = String::from_str("invalid ");
        message.append(subject);
        message.append(" tau scale ");
        message.append(scale_text);
        Err(message)
    }
}

/// How the mass of one-forms is inverted.
#[derive(Debug, Clone, Copy, PartialEq, Eq, Structural)]
pub enum OneFormMassInverse {
    RowSumLumped,
    Nc1ProjectedSparseInverse,
    BarycentricDualSparseInverse,
}

impl OneFormMassInverse {
    /// The name that stands for the way in tables and labels.
    pub open spec fn name(self) -> Seq<char> {
        match self {
            OneFormMassInverse::RowSumLumped => "row_sum_lumped"@,
            OneFormMassInverse::Nc1ProjectedSparseInverse => "nc1_projected_sparse_inverse"@,
            OneFormMassInverse::BarycentricDualSparseInverse => {
                "barycentric_dual_sparse_inverse"@
            },
        }
    }
}

/// Names a way of inverting the mass of one-forms.
pub fn one_form_mass_inverse_name(strategy: OneFormMassInverse) -> (text: &'static str)
    ensures
        text@ == strategy.name(),
{
    match strategy {
        OneFormMassInverse::RowSumLumped => "row_sum_lumped",
        OneFormMassInverse::Nc1ProjectedSparseInverse => "nc1_projected_sparse_inverse",
        OneFormMassInverse::BarycentricDualSparseInverse => "barycentric_dual_sparse_inverse",
    }
}

/// The ways of inverting the mass of one-forms whose transforms are diagnosed.
pub fn diagnosed_mass_inverses() -> (strategies: Vec<OneFormMassInverse>)
    ensures
        strategies@ == seq![
            OneFormMassInverse::RowSumLumped,
            OneFormMassInverse::Nc1ProjectedSparseInverse,
        ],
{
    let strategies: Vec<OneFormMassInverse> = vec![
        OneFormMassInverse::RowSumLumped,
        OneFormMassInverse::Nc1ProjectedSparseInverse,
    ];
    assert(strategies@ =~= seq![
        OneFormMassInverse::RowSumLumped,
        OneFormMassInverse::Nc1ProjectedSparseInverse,
    ]);
    strategies
}

} // verus!
