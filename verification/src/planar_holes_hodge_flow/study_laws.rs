//! What holds of the studies: which domains and cycles are accepted, which edges stay reserved,
//! how the circles lie, and which truths and references are set up.

use super::config::{PlanarHolesFlowConfig, PlanarHolesSpectralTruthCompatibilityConfig};
use super::designs::at_most;
use super::edge_plans::{study_strips, ComparisonStudy};
use super::hole_cycles::{column_used, contents, SignedMatrix};
use super::kinds::{
    PlanarHolesPriorEquivalenceSpectralReference, PlanarHolesSensorDesignKind,
    PlanarHolesSpectralTruthFamily,
};
use super::models::referenced;
use super::observation_plans::{design_loops, BuiltCycles};
use super::sensor_plans::{beyond_training, heldout_circle, validation_circle};
use super::sensors::SensorRow;
use super::spectral_plans::{
    coexact_reference, exact_reference, family_config, most_coexact_modes, most_exact_modes,
};
use super::studies::{flow_fault, rank_fault, study_reserved, StudyCycles};
use super::topology::{topology_message, PlanarHolesTopologySummary};
use crate::scalar::Scalar;
use vstd::prelude::*;

verus! {

/// A domain is accepted if and only if it is connected, has three holes, and is bounded.
pub proof fn lemma_accepted_domains(summary: PlanarHolesTopologySummary)
    ensures
        topology_message(summary) is None <==> summary.b0 == 1 && summary.b1 == 3 && summary.b2 == 0
            && summary.boundary_edge_count > 0,
{
}

/// The cycles of a study are accepted if and only if those of all three parts tell the holes apart.
pub proof fn lemma_accepted_cycles(ranks: (usize, usize, usize), hole_count: usize)
    ensures
        rank_fault(ranks, hole_count) is None <==> ranks.0 == hole_count && ranks.1 == hole_count
            && ranks.2 == hole_count,
{
}

/// The cycles of a flow are accepted if and only if those of both parts tell the holes apart, and
/// the held-out rows are not the training rows over again.
pub proof fn lemma_accepted_flow_cycles(
    ranks: (usize, usize),
    hole_count: usize,
    train: SignedMatrix,
    heldout: SignedMatrix,
)
    ensures
        flow_fault(ranks, hole_count, train, heldout) is None <==> ranks.0 == hole_count && ranks.1
            == hole_count && contents(train) != contents(heldout),
{
}

/// An edge is reserved if and only if a cycle of one of the three parts or of a further family
/// runs through it.
pub proof fn lemma_reserved_edges(
    cycles: StudyCycles,
    validation: Seq<BuiltCycles>,
    heldout: Seq<BuiltCycles>,
    edge: usize,
)
    ensures
        study_reserved(cycles, validation, heldout).contains(edge) <==> {
            ||| column_used(cycles.train.matrix, edge)
            ||| column_used(cycles.validation.matrix, edge)
            ||| column_used(cycles.heldout.matrix, edge)
            ||| exists|f: int|
                0 <= f < validation.len() && column_used((#[trigger] validation[f]).matrix, edge)
            ||| exists|f: int|
                0 <= f < heldout.len() && column_used((#[trigger] heldout[f]).matrix, edge)
        },
{
}

/// The design with small loops takes them, and no other design does.
pub proof fn lemma_loops_of_designs(
    design: PlanarHolesSensorDesignKind,
    small: Seq<SensorRow>,
    multiscale: Seq<SensorRow>,
)
    ensures
        design is EdgesSmallInteriorLoops ==> design_loops(design, small, multiscale) == small,
        !(design is EdgesSmallInteriorLoops) ==> design_loops(design, small, multiscale)
            == multiscale,
{
}

/// An offset beyond the training circles is at least the offset that is asked for and at least the
/// widest of the training ones, and it is one of the two.
pub proof fn lemma_beyond_training(offset: Scalar)
    ensures
        !offset.nan() ==> offset.le(beyond_training(offset)),
        (Scalar { bits: 0x3fb3_3333_3333_3333 }).le(beyond_training(offset)),
        beyond_training(offset) == offset || beyond_training(offset).bits == 0x3fb3_3333_3333_3333,
{
}

/// The circles for validation and those that are held out lie outside the rims, and are neither
/// equally wide nor turned alike: the held-out ones are the wider ones, and turned less. On the
/// default domain the held-out ones are at least as wide as any that is trained on.
pub proof fn lemma_circles_lie_apart(study: ComparisonStudy, config: PlanarHolesFlowConfig)
    ensures
        validation_circle(study).0.positive() && validation_circle(study).1.positive(),
        validation_circle(study).0.lt(heldout_circle(study, config).0),
        !(study is Topology) ==> heldout_circle(study, config).1.positive() && heldout_circle(
            study,
            config,
        ).1.lt(validation_circle(study).1),
        study is Topology ==> heldout_circle(study, config).1 == config.heldout_loop_angle_offset
            && (!config.heldout_loop_radius_offset.nan() ==> config.heldout_loop_radius_offset.le(
            heldout_circle(study, config).0,
        )),
{
}

/// The barrier study trains and validates in strips that end where the barrier is still to the
/// right, and holds out in a strip that begins beyond them; the other studies take edges from
/// anywhere.
pub proof fn lemma_strips_lie_apart(study: ComparisonStudy)
    ensures
        study is Barrier ==> match study_strips(study) {
            (
                Some((train_low, train_high)),
                Some((validation_low, validation_high)),
                Some((heldout_low, heldout_high)),
            ) => {
                &&& train_low.lt(train_high) && validation_low.lt(validation_high)
                &&& train_high.lt(heldout_low) && validation_high.lt(heldout_low)
                &&& heldout_low.lt(heldout_high)
            },
            _ => false,
        },
        !(study is Barrier) ==> study_strips(study).0 is None && study_strips(study).1 is None
            && study_strips(study).2 is None,
{
}

/// Whether a truth is coexact alone, with unit size and under a free boundary, and comes from no
/// more modes than are asked for and than there are.
pub open spec fn is_coexact_truth(
    config: PlanarHolesSpectralTruthCompatibilityConfig,
    most: usize,
    set: PlanarHolesFlowConfig,
) -> bool {
    &&& set.exact_truth_mass_norm.rank() == 0 && set.harmonic_truth_mass_norm.rank() == 0
    &&& set.coexact_truth_mass_norm.bits == 0x3ff0_0000_0000_0000
    &&& set.spectral_boundary_condition is Free
    &&& set.spectral_coexact_mode_count <= most && set.spectral_coexact_mode_count
        <= config.spectral_truth_mode_count
    &&& set.spectral_coexact_mode_count == most || set.spectral_coexact_mode_count
        == config.spectral_truth_mode_count
    &&& set.rng_seed == config.base.rng_seed && set.mesh_size == config.base.mesh_size
    &&& set.tau == config.base.tau
}

/// The truths of all families are coexact alone, with unit size and under a free boundary, and come
/// from no more modes than there are; the configuration is otherwise kept.
pub proof fn lemma_truths_are_coexact(
    config: PlanarHolesSpectralTruthCompatibilityConfig,
    family: PlanarHolesSpectralTruthFamily,
    most: usize,
)
    ensures
        is_coexact_truth(config, most, family_config(config, family, most)),
{
    let set = family_config(config, family, most);
    assert(set.exact_truth_mass_norm.bits == 0);
    assert(set.harmonic_truth_mass_norm.bits == 0);
    assert(set.coexact_truth_mass_norm.bits == 0x3ff0_0000_0000_0000);
    assert(set.spectral_boundary_condition is Free);
    let modes = at_most(config.spectral_truth_mode_count as nat, most as nat) as usize;
    assert(set.spectral_coexact_mode_count == modes);
    assert(set.rng_seed == config.base.rng_seed);
    assert(set.mesh_size == config.base.mesh_size);
    assert(set.tau == config.base.tau);
}

/// Every family has a source of its own for the coexact part, but for the two of exact mass, which
/// have a range of eight and a range of two. The spectral family alone draws its harmonic part from
/// the spectrum, and leaves its samples unscaled.
pub proof fn lemma_truth_families_differ(
    config: PlanarHolesSpectralTruthCompatibilityConfig,
    family: PlanarHolesSpectralTruthFamily,
    most: usize,
)
    ensures
        ({
            let set = family_config(config, family, most);
            match family {
                PlanarHolesSpectralTruthFamily::SpectralCoexact => {
                    &&& set.coexact_truth_source is SpectralGp
                    &&& set.harmonic_truth_source is SpectralGp
                    &&& set.truth_scaling is RawPriorSamples
                },
                PlanarHolesSpectralTruthFamily::SparseAnchorCoexact => {
                    &&& set.coexact_truth_source is SparseAnchor
                    &&& set.harmonic_truth_source is CanonicalFixed
                    &&& set.truth_scaling is MassNormTargets
                },
                PlanarHolesSpectralTruthFamily::ExactMassCoexactKappa8 => {
                    &&& set.coexact_truth_source is ExactMassCoexact
                    &&& set.coexact_kappa.bits == 0x4020_0000_0000_0000
                    &&& set.truth_scaling is MassNormTargets
                },
                PlanarHolesSpectralTruthFamily::ExactMassCoexactKappa2 => {
                    &&& set.coexact_truth_source is ExactMassCoexact
                    &&& set.coexact_kappa.bits == 0x4000_0000_0000_0000
                    &&& set.truth_scaling is MassNormTargets
                },
                PlanarHolesSpectralTruthFamily::StreamfunctionDirichlet => {
                    &&& set.coexact_truth_source is DirichletStreamfunction
                    &&& set.harmonic_truth_source is CanonicalFixed
                    &&& set.truth_scaling is MassNormTargets
                },
            }
        }),
{
    match family {
        PlanarHolesSpectralTruthFamily::SpectralCoexact => {},
        PlanarHolesSpectralTruthFamily::SparseAnchorCoexact => {},
        PlanarHolesSpectralTruthFamily::ExactMassCoexactKappa8 => {},
        PlanarHolesSpectralTruthFamily::ExactMassCoexactKappa2 => {},
        PlanarHolesSpectralTruthFamily::StreamfunctionDirichlet => {},
    }
}

/// A spectral reference has the modes of one branch alone, under a free boundary, and is scaled to
/// the target where it is the normalized one. The two references are each other's mirror image.
pub proof fn lemma_spectral_references(
    config: PlanarHolesFlowConfig,
    modes: usize,
    reference: PlanarHolesPriorEquivalenceSpectralReference,
    target: Scalar,
)
    ensures
        ({
            let coexact = coexact_reference(config, modes, reference, target);
            let exact = exact_reference(config, modes, reference, target);
            &&& coexact.spectral_coexact_mode_count == modes && exact.spectral_exact_mode_count
                == modes
            &&& coexact.spectral_exact_mode_count == 0 && exact.spectral_coexact_mode_count == 0
            &&& coexact.spectral_harmonic_mode_count == 0 && exact.spectral_harmonic_mode_count == 0
            &&& coexact.spectral_branch_energy_normalization <==> reference is EnergyNormalized
            &&& exact.spectral_branch_energy_normalization <==> reference is EnergyNormalized
            &&& coexact.spectral_coexact_expected_m1_energy == target
                && exact.spectral_exact_expected_m1_energy == target
            &&& coexact.spectral_boundary_condition is Free
                && exact.spectral_boundary_condition is Free
            &&& coexact.tau == config.tau && exact.tau == config.tau
            &&& coexact.coexact_kappa == config.coexact_kappa && exact.exact_kappa
                == config.exact_kappa
        }),
{
}

/// The reference models have no exact modes and a harmonic mode for each of the three holes; the
/// energy of the harmonic branch is four times that of the coexact one, and both count.
pub proof fn lemma_reference_models(config: PlanarHolesFlowConfig)
    ensures
        referenced(config).spectral_exact_mode_count == 0,
        referenced(config).spectral_harmonic_mode_count == 3,
        referenced(config).spectral_coexact_mode_count == config.spectral_coexact_mode_count,
        referenced(config).spectral_branch_energy_normalization,
        referenced(config).spectral_coexact_expected_m1_energy.bits == 0x3ff0_0000_0000_0000,
        referenced(config).spectral_harmonic_expected_m1_energy.bits == 0x4010_0000_0000_0000,
        referenced(config).coexact_kappa == config.coexact_kappa,
        referenced(config).rng_seed == config.rng_seed,
{
}

/// There are at most as many coexact modes as there are vertices or cells, whichever are more, and
/// fewer exact modes than vertices, by one.
pub proof fn lemma_available_modes(vertices: usize, cells: usize)
    ensures
        most_coexact_modes(vertices, cells) >= vertices,
        most_coexact_modes(vertices, cells) >= cells,
        most_coexact_modes(vertices, cells) == vertices || most_coexact_modes(vertices, cells)
            == cells,
        vertices > 0 ==> most_exact_modes(vertices) + 1 == vertices,
        vertices == 0 ==> most_exact_modes(vertices) == 0,
{
}

} // verus!
