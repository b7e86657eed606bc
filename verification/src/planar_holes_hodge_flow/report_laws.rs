//! What holds of reported values: when they are defined, which functionals and branches are
//! reported, and in which order.

use super::kinds::PlanarHolesLoopFunctionalKind;
use super::models::branch_rank;
use super::reports::{
    branch_stats, by_branch, correlation, diagnosed_branches, matching_scale, of_branch, relative,
    reported_eigenvalues, reported_functionals, scores_within, undefined, BranchRecovery,
    ComparedEigenvalues, SpectralBranchStats,
};
use crate::hodge::HodgeBranchKind;
use crate::order::lemma_filter_keeps_places;
use crate::scalar::Scalar;
use vstd::prelude::*;

verus! {

/// A quotient is reported as it is where the size of its denominator is a number above the double
/// that is taken for zero, and as a NaN elsewhere; the sign of the denominator does not matter.
pub proof fn lemma_quotients_are_defined(quotient: Scalar, denominator: Scalar)
    ensures
        relative(quotient, denominator) == quotient || relative(quotient, denominator).nan(),
        0x3ddb_7cdf_d9d7_bdbb < denominator.magnitude() < 0x7ff0_0000_0000_0000 ==> relative(
            quotient,
            denominator,
        ) == quotient,
        denominator.magnitude() <= 0x3ddb_7cdf_d9d7_bdbb || denominator.magnitude()
            >= 0x7ff0_0000_0000_0000 ==> relative(quotient, denominator).nan(),
{
}

/// A correlation is the same for both orders of the norms. It is defined where both are above the
/// double that is taken for zero, and a NaN elsewhere.
pub proof fn lemma_correlations_are_defined(quotient: Scalar, left: Scalar, right: Scalar)
    ensures
        correlation(quotient, left, right) == correlation(quotient, right, left),
        !left.nan() && !right.nan() && left.rank() > 0x3ddb_7cdf_d9d7_bdbb && right.rank()
            > 0x3ddb_7cdf_d9d7_bdbb ==> correlation(quotient, left, right) == quotient,
        left.nan() || left.rank() <= 0x3ddb_7cdf_d9d7_bdbb ==> correlation(
            quotient,
            left,
            right,
        ).nan(),
{
}

/// A scale is defined where both energies are finite and positive, and a NaN elsewhere; it does not
/// matter which of the two is not.
pub proof fn lemma_scales_are_defined(root: Scalar, current: Scalar, target: Scalar)
    ensures
        current.positive() && target.positive() ==> matching_scale(root, current, target) == root,
        !current.positive() ==> matching_scale(root, current, target).nan(),
        !target.positive() ==> matching_scale(root, current, target).nan(),
{
}

/// The total flow along the cycles is reported of every model and first; the harmonic periods if
/// and only if the model has a harmonic part, the coexact flow if and only if it has a coexact one.
pub proof fn lemma_functionals_are_reported(branches: Seq<HodgeBranchKind>)
    ensures
        ({
            let reported = reported_functionals(branches);
            &&& reported.no_duplicates()
            &&& reported[0] == PlanarHolesLoopFunctionalKind::TotalAnnular
            &&& reported.contains(PlanarHolesLoopFunctionalKind::HarmonicPeriod)
                <==> branches.contains(HodgeBranchKind::Harmonic)
            &&& reported.contains(PlanarHolesLoopFunctionalKind::CoexactAnnular)
                <==> branches.contains(HodgeBranchKind::Coexact)
        }),
{
    let reported = reported_functionals(branches);
    if branches.contains(HodgeBranchKind::Harmonic) {
        assert(reported[1] == PlanarHolesLoopFunctionalKind::HarmonicPeriod);
        if branches.contains(HodgeBranchKind::Coexact) {
            assert(reported[2] == PlanarHolesLoopFunctionalKind::CoexactAnnular);
        }
    } else if branches.contains(HodgeBranchKind::Coexact) {
        assert(reported[1] == PlanarHolesLoopFunctionalKind::CoexactAnnular);
    }
}

proof fn lemma_of_branch(recoveries: Seq<BranchRecovery>, branch: HodgeBranchKind)
    ensures
        forall|i: int|
            0 <= i < of_branch(recoveries, branch).len() ==> (#[trigger] of_branch(
                recoveries,
                branch,
            )[i]).branch == branch,
{
    let keeps = |recovery: BranchRecovery| recovery.branch == branch;
    let places = lemma_filter_keeps_places(recoveries, keeps);
    assert forall|i: int| 0 <= i < of_branch(recoveries, branch).len() implies (
    #[trigger] of_branch(recoveries, branch)[i]).branch == branch by {
        assert(places.contains(places[i]));
    }
}

/// Recoveries are reported in the order of the branches, as many as there are and no others.
pub proof fn lemma_recoveries_by_branch(recoveries: Seq<BranchRecovery>)
    ensures
        by_branch(recoveries).to_multiset() == recoveries.to_multiset(),
        forall|i: int, j: int|
            0 <= i < j < by_branch(recoveries).len() ==> branch_rank(
                (#[trigger] by_branch(recoveries)[i]).branch,
            ) <= branch_rank((#[trigger] by_branch(recoveries)[j]).branch),
{
    reveal(by_branch);
    let exact = of_branch(recoveries, HodgeBranchKind::Exact);
    let coexact = of_branch(recoveries, HodgeBranchKind::Coexact);
    let harmonic = of_branch(recoveries, HodgeBranchKind::Harmonic);
    lemma_of_branch(recoveries, HodgeBranchKind::Exact);
    lemma_of_branch(recoveries, HodgeBranchKind::Coexact);
    lemma_of_branch(recoveries, HodgeBranchKind::Harmonic);
    let all = by_branch(recoveries);
    assert forall|k: int| 0 <= k < all.len() implies branch_rank((#[trigger] all[k]).branch) == (
    if k < exact.len() {
        0int
    } else if k < exact.len() + coexact.len() {
        1int
    } else {
        2int
    }) by {
        if k < exact.len() {
            assert(all[k] == exact[k]);
        } else if k < exact.len() + coexact.len() {
            assert(all[k] == coexact[k - exact.len()]);
        } else {
            assert(all[k] == harmonic[k - exact.len() - coexact.len()]);
        }
    }
    lemma_branches_share_out(recoveries);
}

proof fn lemma_branches_share_out(recoveries: Seq<BranchRecovery>)
    ensures
        (of_branch(recoveries, HodgeBranchKind::Exact) + of_branch(
            recoveries,
            HodgeBranchKind::Coexact,
        ) + of_branch(recoveries, HodgeBranchKind::Harmonic)).to_multiset()
            == recoveries.to_multiset(),
    decreases recoveries.len(),
{
    broadcast use vstd::seq_lib::group_to_multiset_ensures;

    let (e, c, h) = (HodgeBranchKind::Exact, HodgeBranchKind::Coexact, HodgeBranchKind::Harmonic);
    let exact = of_branch(recoveries, e);
    let coexact = of_branch(recoveries, c);
    let harmonic = of_branch(recoveries, h);
    vstd::seq_lib::lemma_multiset_commutative(exact + coexact, harmonic);
    vstd::seq_lib::lemma_multiset_commutative(exact, coexact);
    reveal(Seq::filter);
    if recoveries.len() > 0 {
        let shorter = recoveries.drop_last();
        let last = recoveries.last();
        lemma_branches_share_out(shorter);
        let (a, b, d) = (of_branch(shorter, e), of_branch(shorter, c), of_branch(shorter, h));
        vstd::seq_lib::lemma_multiset_commutative(a + b, d);
        vstd::seq_lib::lemma_multiset_commutative(a, b);
        assert(recoveries =~= shorter.push(last));
        assert(recoveries.to_multiset() =~= shorter.to_multiset().insert(last));
        if last.branch == e {
            assert(exact == a.push(last) && coexact == b && harmonic == d);
        } else if last.branch == c {
            assert(exact == a && coexact == b.push(last) && harmonic == d);
        } else {
            assert(exact == a && coexact == b && harmonic == d.push(last));
        }
        assert((exact + coexact + harmonic).to_multiset() =~= (a + b + d).to_multiset().insert(
            last,
        ));
    } else {
        assert((exact + coexact + harmonic) =~= recoveries);
    }
}

/// The number of scores within an interval is that of the places at which the size of a deviation
/// is at most 1.96 in doubles: there is a list of those places that has as many.
pub proof fn lemma_scores_within_are_counted(scores: Seq<Scalar>, count: int) -> (places: Seq<int>)
    requires
        0 <= count <= scores.len(),
    ensures
        places.len() == scores_within(scores, count),
        forall|i: int, j: int|
            0 <= i < j < places.len() ==> #[trigger] places[i] < #[trigger] places[j],
        forall|p: int| #[trigger]
            places.contains(p) <==> 0 <= p < count && !scores[p].nan() && scores[p].rank()
                <= 0x3fff_5c28_f5c2_8f5c,
    decreases count,
{
    if count <= 0 {
        Seq::empty()
    } else {
        let before = lemma_scores_within_are_counted(scores, count - 1);
        let last = count - 1;
        let covered = scores[last].le(Scalar { bits: 0x3fff_5c28_f5c2_8f5c });
        let places = if covered {
            before.push(last)
        } else {
            before
        };
        assert forall|i: int, j: int| 0 <= i < j < places.len() implies #[trigger] places[i]
            < #[trigger] places[j] by {
            assert(before.contains(before[i]));
            assert(places[i] == before[i]);
            if j < before.len() {
                assert(places[j] == before[j]);
            }
        }
        assert forall|p: int| #[trigger]
            places.contains(p) <==> 0 <= p < count && !scores[p].nan() && scores[p].rank()
                <= 0x3fff_5c28_f5c2_8f5c by {
            if before.contains(p) {
                let i = choose|i: int| 0 <= i < before.len() && before[i] == p;
                assert(places[i] == p);
            }
            if covered {
                assert(places[before.len() as int] == last);
            }
            if places.contains(p) {
                let i = choose|i: int| 0 <= i < places.len() && places[i] == p;
                if i < before.len() {
                    assert(before[i] == p);
                    assert(before.contains(p));
                }
            }
        }
        places
    }
}

/// The modes of a branch are those of its first entry, if it has one.
pub proof fn lemma_first_entry_counts(stats: Seq<SpectralBranchStats>, branch: HodgeBranchKind)
    ensures
        branch_stats(stats, branch) is None <==> forall|q: int|
            0 <= q < stats.len() ==> (#[trigger] stats[q]).branch != branch,
        branch_stats(stats, branch) is Some ==> exists|p: int|
            #![trigger stats[p]]
            0 <= p < stats.len() && stats[p].branch == branch && branch_stats(stats, branch)
                == Some(stats[p]) && forall|q: int|
                0 <= q < p ==> (#[trigger] stats[q]).branch != branch,
    decreases stats.len(),
{
    if stats.len() > 0 && stats[0].branch != branch {
        let rest = stats.skip(1);
        lemma_first_entry_counts(rest, branch);
        if branch_stats(rest, branch) is Some {
            let p = choose|p: int|
                #![trigger rest[p]]
                0 <= p < rest.len() && rest[p].branch == branch && branch_stats(rest, branch)
                    == Some(rest[p]) && forall|q: int|
                    0 <= q < p ==> (#[trigger] rest[q]).branch != branch;
            assert(stats[p + 1] == rest[p]);
            assert forall|q: int| 0 <= q < p + 1 implies (#[trigger] stats[q]).branch != branch by {
                if q > 0 {
                    assert(rest[q - 1] == stats[q]);
                }
            }
        } else {
            assert forall|q: int| 0 <= q < stats.len() implies (#[trigger] stats[q]).branch
                != branch by {
                if q > 0 {
                    assert(rest[q - 1] == stats[q]);
                }
            }
        }
    }
}

/// The branches whose projections are reported are those that have a transform and modes, each
/// once, in the order of the branches.
pub proof fn lemma_branches_are_diagnosed(
    transforms: Seq<HodgeBranchKind>,
    stats: Seq<SpectralBranchStats>,
)
    ensures
        forall|branch: HodgeBranchKind| #[trigger]
            diagnosed_branches(transforms, stats).contains(branch) <==> transforms.contains(branch)
                && exists|p: int| 0 <= p < stats.len() && (#[trigger] stats[p]).branch == branch,
        forall|i: int, j: int|
            0 <= i < j < diagnosed_branches(transforms, stats).len() ==> branch_rank(
                #[trigger] diagnosed_branches(transforms, stats)[i],
            ) < branch_rank(#[trigger] diagnosed_branches(transforms, stats)[j]),
{
    let all = HodgeBranchKind::in_order();
    let keeps = |branch: HodgeBranchKind|
        transforms.contains(branch) && branch_stats(stats, branch) is Some;
    let kept = diagnosed_branches(transforms, stats);
    let places = lemma_filter_keeps_places(all, keeps);
    assert(all[0] == HodgeBranchKind::Exact);
    assert(all[1] == HodgeBranchKind::Coexact);
    assert(all[2] == HodgeBranchKind::Harmonic);
    assert forall|branch: HodgeBranchKind| #[trigger]
        kept.contains(branch) <==> transforms.contains(branch) && exists|p: int|
            0 <= p < stats.len() && (#[trigger] stats[p]).branch == branch by {
        lemma_first_entry_counts(stats, branch);
        if kept.contains(branch) {
            let i = choose|i: int| 0 <= i < kept.len() && kept[i] == branch;
            assert(places.contains(places[i]));
        }
        if keeps(branch) {
            let p = branch_rank(branch);
            assert(all[p] == branch);
            assert(places.contains(p));
            let i = choose|i: int| 0 <= i < places.len() && places[i] == p;
            assert(kept[i] == branch);
        }
    }
    assert forall|i: int, j: int| 0 <= i < j < kept.len() implies branch_rank(#[trigger] kept[i])
        < branch_rank(#[trigger] kept[j]) by {
        assert(places[i] < places[j]);
        assert(kept[i] == all[places[i]] && kept[j] == all[places[j]]);
    }
}

/// As many eigenvalues are reported as both covariances have; where the covariances are too large
/// there are none, and their bounds are NaN.
pub proof fn lemma_eigenvalues_of_both(eigenvalues: Option<ComparedEigenvalues>)
    ensures
        ({
            let reported = reported_eigenvalues(eigenvalues);
            match eigenvalues {
                Some(found) => {
                    &&& reported.0 <= found.spectral_count && reported.0 <= found.gmrf_count
                    &&& reported.0 == found.spectral_count || reported.0 == found.gmrf_count
                    &&& reported.1 == found.spectral_min && reported.2 == found.spectral_max
                    &&& reported.3 == found.gmrf_min && reported.4 == found.gmrf_max
                },
                None => reported.0 == 0 && reported.1.nan() && reported.2.nan()
                    && reported.3.nan() && reported.4.nan(),
            }
        }),
        undefined().nan(),
{
}

} // verus!
