//! How truths are made, how many modes are looked at, and which priors are compared.

use super::config::{
    PlanarHolesExactPriorEquivalenceConfig, PlanarHolesFlowConfig,
    PlanarHolesPriorEquivalenceConfig, PlanarHolesSpectralTruthCompatibilityConfig,
    HARMONIC_COEFFICIENT_COUNT,
};
use super::designs::at_most;
use super::kinds::{
    PlanarHolesCoexactTruthSource, PlanarHolesExactTruthSource, PlanarHolesHarmonicTruthSource,
    PlanarHolesPriorEquivalenceGmrfVariant, PlanarHolesPriorEquivalenceSpectralReference,
    PlanarHolesSpectralBoundaryCondition, PlanarHolesSpectralTruthFamily, PlanarHolesTruthScaling,
};
use crate::index_set::{strictly_increasing, IndexSet};
use crate::random::numbers;
use crate::scalar::Scalar;
use crate::text::{count_text, decimal};
use vstd::prelude::*;

verus! {

/// The number 1 as a scalar.
pub const ONE: u64 = 0x3ff0_0000_0000_0000;

/// The number 2 as a scalar.
pub const TWO: u64 = 0x4000_0000_0000_0000;

/// The number 8 as a scalar.
pub const EIGHT: u64 = 0x4020_0000_0000_0000;

/// The double next to 0.49.
pub const HARMONIC_ENERGY: u64 = 0x3fdf_5c28_f5c2_8f5c;

/// The most modes that a coexact branch can have: the larger of the numbers of vertices and of
/// cells.
pub open spec fn most_coexact_modes(vertex_count: usize, cell_count: usize) -> usize {
    if vertex_count < cell_count {
        cell_count
    } else {
        vertex_count
    }
}

/// The most modes that an exact branch can have: one less than there are vertices.
pub open spec fn most_exact_modes(vertex_count: usize) -> usize {
    if vertex_count > 0 {
        (vertex_count - 1) as usize
    } else {
        0
    }
}

/// The most modes that a coexact branch can have.
pub fn coexact_modes_available(vertex_count: usize, cell_count: usize) -> (most: usize)
    ensures
        most == most_coexact_modes(vertex_count, cell_count),
{
    if vertex_count < cell_count {
        cell_count
    } else {
        vertex_count
    }
}

/// The most modes that an exact branch can have.
pub fn exact_modes_available(vertex_count: usize) -> (most: usize)
    ensures
        most == most_exact_modes(vertex_count),
{
    if vertex_count > 0 {
        vertex_count - 1
    } else {
        0
    }
}

/// Whether `stages` lists the requested mode counts, and the most that are available where that
/// is asked for, in increasing order.
pub open spec fn is_mode_schedule(
    requested: Seq<usize>,
    include_max_available: bool,
    max_available: usize,
    stages: Seq<usize>,
) -> bool {
    &&& strictly_increasing(stages)
    &&& forall|count: usize| #[trigger]
        stages.contains(count) <==> requested.contains(count) || (include_max_available && count
            == max_available)
}

/// Lists the mode counts that are looked at, in increasing order and each once.
pub fn mode_schedule(
    requested: &Vec<usize>,
    include_max_available: bool,
    max_available: usize,
) -> (stages: Vec<usize>)
    ensures
        is_mode_schedule(requested@, include_max_available, max_available, stages@),
{
    let mut set = IndexSet::new();
    set.extend(requested);
    if include_max_available {
        set.insert(max_available);
    }
    let mut stages: Vec<usize> = Vec::new();
    let items: &Vec<usize> = set.as_vec();
    let mut position: usize = 0;
    while position < items.len()
        invariant
            position <= items.len(),
            stages@ == items@.take(position as int),
        decreases items.len() - position,
    {
        stages.push(items[position]);
        assert(items@.take(position + 1) =~= items@.take(position as int).push(
            items@[position as int],
        ));
        position = position + 1;
    }
    assert(stages@ =~= items@);
    proof {
        assert forall|count: usize| #[trigger] stages@.contains(count) <==> requested@.contains(
            count,
        ) || (include_max_available && count == max_available) by {
            assert(set@.contains(count) == stages@.to_set().contains(count));
            assert(requested@.to_set().contains(count) == requested@.contains(count));
        }
    }
    stages
}

/// The configuration with a single coexact part of unit size, and the energies of the branches
/// scaled to 1, 1 and 0.49.
pub open spec fn coexact_only(config: PlanarHolesFlowConfig, mode_count: usize) -> PlanarHolesFlowConfig {
    PlanarHolesFlowConfig {
        exact_truth_mass_norm: Scalar { bits: 0 },
        coexact_truth_mass_norm: Scalar { bits: ONE },
        harmonic_truth_mass_norm: Scalar { bits: 0 },
        spectral_branch_energy_normalization: true,
        spectral_exact_expected_m1_energy: Scalar { bits: ONE },
        spectral_coexact_expected_m1_energy: Scalar { bits: ONE },
        spectral_harmonic_expected_m1_energy: Scalar { bits: HARMONIC_ENERGY },
        spectral_exact_mode_count: mode_count,
        spectral_coexact_mode_count: mode_count,
        spectral_harmonic_mode_count: HARMONIC_COEFFICIENT_COUNT,
        ..config
    }
}

fn with_coexact_only(config: &PlanarHolesFlowConfig, mode_count: usize) -> (result:
    PlanarHolesFlowConfig)
    ensures
        result == coexact_only(*config, mode_count),
{
    PlanarHolesFlowConfig {
        exact_truth_mass_norm: Scalar { bits: 0 },
        coexact_truth_mass_norm: Scalar { bits: ONE },
        harmonic_truth_mass_norm: Scalar { bits: 0 },
        spectral_branch_energy_normalization: true,
        spectral_exact_expected_m1_energy: Scalar { bits: ONE },
        spectral_coexact_expected_m1_energy: Scalar { bits: ONE },
        spectral_harmonic_expected_m1_energy: Scalar { bits: HARMONIC_ENERGY },
        spectral_exact_mode_count: mode_count,
        spectral_coexact_mode_count: mode_count,
        spectral_harmonic_mode_count: HARMONIC_COEFFICIENT_COUNT,
        ..*config
    }
}

/// A basis that truths are projected on.
#[derive(Debug, Clone, Copy)]
pub struct ProjectionStage {
    pub boundary_condition: PlanarHolesSpectralBoundaryCondition,
    pub requested_mode_count: usize,
    pub config: PlanarHolesFlowConfig,
}

/// The basis of one boundary condition and mode count.
pub open spec fn projection_stage(
    config: PlanarHolesFlowConfig,
    boundary_condition: PlanarHolesSpectralBoundaryCondition,
    requested_mode_count: usize,
) -> ProjectionStage {
    ProjectionStage {
        boundary_condition,
        requested_mode_count,
        config: PlanarHolesFlowConfig {
            spectral_boundary_condition: boundary_condition,
            ..coexact_only(config, requested_mode_count)
        },
    }
}

fn stage_for(
    config: &PlanarHolesFlowConfig,
    boundary_condition: PlanarHolesSpectralBoundaryCondition,
    requested_mode_count: usize,
) -> (stage: ProjectionStage)
    ensures
        stage == projection_stage(*config, boundary_condition, requested_mode_count),
{
    ProjectionStage {
        boundary_condition,
        requested_mode_count,
        config: PlanarHolesFlowConfig {
            spectral_boundary_condition: boundary_condition,
            ..with_coexact_only(config, requested_mode_count)
        },
    }
}

/// The bases for all mode counts under the first `count` boundary conditions.
pub open spec fn projection_stages(
    config: PlanarHolesFlowConfig,
    boundary_conditions: Seq<PlanarHolesSpectralBoundaryCondition>,
    stages: Seq<usize>,
    count: int,
) -> Seq<ProjectionStage>
    decreases count,
{
    if count <= 0 {
        Seq::empty()
    } else {
        projection_stages(config, boundary_conditions, stages, count - 1) + Seq::new(
            stages.len(),
            |s: int| projection_stage(config, boundary_conditions[count - 1], stages[s]),
        )
    }
}

/// Lists the bases that truths are projected on: for every boundary condition, every mode count.
pub fn compatibility_projection_stages(
    config: &PlanarHolesFlowConfig,
    boundary_conditions: &Vec<PlanarHolesSpectralBoundaryCondition>,
    stages: &Vec<usize>,
) -> (bases: Vec<ProjectionStage>)
    ensures
        bases@ == projection_stages(
            *config,
            boundary_conditions@,
            stages@,
            boundary_conditions.len() as int,
        ),
{
    let mut bases: Vec<ProjectionStage> = Vec::new();
    let mut index: usize = 0;
    while index < boundary_conditions.len()
        invariant
            index <= boundary_conditions.len(),
            bases@ == projection_stages(
                *config,
                boundary_conditions@,
                stages@,
                index as int,
            ),
        decreases boundary_conditions.len() - index,
    {
        let boundary_condition = boundary_conditions[index];
        let ghost before = bases@;
        let ghost block = Seq::new(
            stages@.len(),
            |s: int| projection_stage(*config, boundary_condition, stages@[s]),
        );
        let mut position: usize = 0;
        assert(before + block.take(0) =~= before);
        while position < stages.len()
            invariant
                position <= stages.len(),
                block == Seq::new(
                    stages@.len(),
                    |s: int| projection_stage(*config, boundary_condition, stages@[s]),
                ),
                bases@ == before + block.take(position as int),
            decreases stages.len() - position,
        {
            let stage = stage_for(config, boundary_condition, stages[position]);
            assert(stage == block[position as int]);
            bases.push(stage);
            assert(before + block.take(position + 1) =~= (before + block.take(
                position as int,
            )).push(block[position as int]));
            position = position + 1;
        }
        assert(block.take(position as int) =~= block);
        index = index + 1;
    }
    bases
}

/// The configuration of a family of truths: a coexact part alone, from the source of the family.
pub open spec fn family_config(
    config: PlanarHolesSpectralTruthCompatibilityConfig,
    family: PlanarHolesSpectralTruthFamily,
    max_available: usize,
) -> PlanarHolesFlowConfig {
    let common = PlanarHolesFlowConfig {
        truth_scaling: PlanarHolesTruthScaling::MassNormTargets,
        spectral_boundary_condition: PlanarHolesSpectralBoundaryCondition::Free,
        harmonic_truth_source: PlanarHolesHarmonicTruthSource::CanonicalFixed,
        ..coexact_only(
            config.base,
            at_most(config.spectral_truth_mode_count as nat, max_available as nat) as usize,
        )
    };
    match family {
        PlanarHolesSpectralTruthFamily::SpectralCoexact => PlanarHolesFlowConfig {
            coexact_truth_source: PlanarHolesCoexactTruthSource::SpectralGp,
            harmonic_truth_source: PlanarHolesHarmonicTruthSource::SpectralGp,
            truth_scaling: PlanarHolesTruthScaling::RawPriorSamples,
            ..common
        },
        PlanarHolesSpectralTruthFamily::SparseAnchorCoexact => PlanarHolesFlowConfig {
            coexact_truth_source: PlanarHolesCoexactTruthSource::SparseAnchor,
            ..common
        },
        PlanarHolesSpectralTruthFamily::ExactMassCoexactKappa8 => PlanarHolesFlowConfig {
            coexact_truth_source: PlanarHolesCoexactTruthSource::ExactMassCoexact,
            coexact_kappa: Scalar { bits: EIGHT },
            ..common
        },
        PlanarHolesSpectralTruthFamily::ExactMassCoexactKappa2 => PlanarHolesFlowConfig {
            coexact_truth_source: PlanarHolesCoexactTruthSource::ExactMassCoexact,
            coexact_kappa: Scalar { bits: TWO },
            ..common
        },
        PlanarHolesSpectralTruthFamily::StreamfunctionDirichlet => PlanarHolesFlowConfig {
            coexact_truth_source: PlanarHolesCoexactTruthSource::DirichletStreamfunction,
            ..common
        },
    }
}

/// Sets up the configuration of a family of truths.
pub fn truth_family_config(
    config: &PlanarHolesSpectralTruthCompatibilityConfig,
    family: PlanarHolesSpectralTruthFamily,
    max_available: usize,
) -> (truth_config: PlanarHolesFlowConfig)
    ensures
        truth_config == family_config(*config, family, max_available),
{
    let mode_count: usize = if config.spectral_truth_mode_count < max_available {
        config.spectral_truth_mode_count
    } else {
        max_available
    };
    let common = PlanarHolesFlowConfig {
        truth_scaling: PlanarHolesTruthScaling::MassNormTargets,
        spectral_boundary_condition: PlanarHolesSpectralBoundaryCondition::Free,
        harmonic_truth_source: PlanarHolesHarmonicTruthSource::CanonicalFixed,
        ..with_coexact_only(&config.base, mode_count)
    };
    match family {
        PlanarHolesSpectralTruthFamily::SpectralCoexact => PlanarHolesFlowConfig {
            coexact_truth_source: PlanarHolesCoexactTruthSource::SpectralGp,
            harmonic_truth_source: PlanarHolesHarmonicTruthSource::SpectralGp,
            truth_scaling: PlanarHolesTruthScaling::RawPriorSamples,
            ..common
        },
        PlanarHolesSpectralTruthFamily::SparseAnchorCoexact => PlanarHolesFlowConfig {
            coexact_truth_source: PlanarHolesCoexactTruthSource::SparseAnchor,
            ..common
        },
        PlanarHolesSpectralTruthFamily::ExactMassCoexactKappa8 => PlanarHolesFlowConfig {
            coexact_truth_source: PlanarHolesCoexactTruthSource::ExactMassCoexact,
            coexact_kappa: Scalar { bits: EIGHT },
            ..common
        },
        PlanarHolesSpectralTruthFamily::ExactMassCoexactKappa2 => PlanarHolesFlowConfig {
            coexact_truth_source: PlanarHolesCoexactTruthSource::ExactMassCoexact,
            coexact_kappa: Scalar { bits: TWO },
            ..common
        },
        PlanarHolesSpectralTruthFamily::StreamfunctionDirichlet => PlanarHolesFlowConfig {
            coexact_truth_source: PlanarHolesCoexactTruthSource::DirichletStreamfunction,
            ..common
        },
    }
}

/// A comparison of a sparse prior with a spectral one.
#[derive(Debug, Clone, Copy, PartialEq, Eq, Structural)]
pub struct PriorComparison {
    pub requested_mode_count: usize,
    pub reference: PlanarHolesPriorEquivalenceSpectralReference,
    pub variant: PlanarHolesPriorEquivalenceGmrfVariant,
}

/// The comparisons of the first `count` mode counts: with the raw and then with the normalized
/// spectral prior, every variant.
pub open spec fn comparisons(
    stages: Seq<usize>,
    variants: Seq<PlanarHolesPriorEquivalenceGmrfVariant>,
    count: int,
) -> Seq<PriorComparison>
    decreases count,
{
    if count <= 0 {
        Seq::empty()
    } else {
        comparisons(stages, variants, count - 1) + variant_block(
            stages[count - 1],
            PlanarHolesPriorEquivalenceSpectralReference::Raw,
            variants,
        ) + variant_block(
            stages[count - 1],
            PlanarHolesPriorEquivalenceSpectralReference::EnergyNormalized,
            variants,
        )
    }
}

/// The comparisons of one mode count with one spectral prior.
pub open spec fn variant_block(
    requested_mode_count: usize,
    reference: PlanarHolesPriorEquivalenceSpectralReference,
    variants: Seq<PlanarHolesPriorEquivalenceGmrfVariant>,
) -> Seq<PriorComparison> {
    variants.map_values(
        |variant: PlanarHolesPriorEquivalenceGmrfVariant|
            PriorComparison { requested_mode_count, reference, variant },
    )
}

fn push_variants(
    plan: &mut Vec<PriorComparison>,
    requested_mode_count: usize,
    reference: PlanarHolesPriorEquivalenceSpectralReference,
    variants: &Vec<PlanarHolesPriorEquivalenceGmrfVariant>,
)
    ensures
        final(plan)@ == old(plan)@ + variant_block(requested_mode_count, reference, variants@),
{
    let ghost start = plan@;
    let ghost block = variant_block(requested_mode_count, reference, variants@);
    let mut index: usize = 0;
    assert(start + block.take(0) =~= start);
    while index < variants.len()
        invariant
            index <= variants.len(),
            block == variant_block(requested_mode_count, reference, variants@),
            plan@ == start + block.take(index as int),
        decreases variants.len() - index,
    {
        plan.push(PriorComparison { requested_mode_count, reference, variant: variants[index] });
        assert(start + block.take(index + 1) =~= (start + block.take(index as int)).push(
            block[index as int],
        ));
        index = index + 1;
    }
    assert(block.take(index as int) =~= block);
}

fn plan_comparisons(
    stages: &Vec<usize>,
    variants: &Vec<PlanarHolesPriorEquivalenceGmrfVariant>,
) -> (plan: Vec<PriorComparison>)
    ensures
        plan@ == comparisons(stages@, variants@, stages.len() as int),
{
    let mut plan: Vec<PriorComparison> = Vec::new();
    let mut index: usize = 0;
    while index < stages.len()
        invariant
            index <= stages.len(),
            plan@ == comparisons(stages@, variants@, index as int),
        decreases stages.len() - index,
    {
        push_variants(
            &mut plan,
            stages[index],
            PlanarHolesPriorEquivalenceSpectralReference::Raw,
            variants,
        );
        push_variants(
            &mut plan,
            stages[index],
            PlanarHolesPriorEquivalenceSpectralReference::EnergyNormalized,
            variants,
        );
        index = index + 1;
    }
    plan
}

/// The sparse coexact priors that are compared with spectral ones, those with an exact lower mass
/// only where they are asked for.
pub open spec fn coexact_variants(include_exact_lower_mass: bool) -> Seq<
    PlanarHolesPriorEquivalenceGmrfVariant,
> {
    if include_exact_lower_mass {
        seq![
            PlanarHolesPriorEquivalenceGmrfVariant::SparseLower,
            PlanarHolesPriorEquivalenceGmrfVariant::SparseLowerTraceMatched,
            PlanarHolesPriorEquivalenceGmrfVariant::ExactLower,
            PlanarHolesPriorEquivalenceGmrfVariant::ExactLowerTraceMatched,
        ]
    } else {
        seq![
            PlanarHolesPriorEquivalenceGmrfVariant::SparseLower,
            PlanarHolesPriorEquivalenceGmrfVariant::SparseLowerTraceMatched,
        ]
    }
}

/// The sparse exact priors that are compared with spectral ones.
pub open spec fn exact_variants() -> Seq<PlanarHolesPriorEquivalenceGmrfVariant> {
    seq![
        PlanarHolesPriorEquivalenceGmrfVariant::ExactLumped,
        PlanarHolesPriorEquivalenceGmrfVariant::ExactLumpedTraceMatched,
        PlanarHolesPriorEquivalenceGmrfVariant::ExactDense,
        PlanarHolesPriorEquivalenceGmrfVariant::ExactDenseTraceMatched,
        PlanarHolesPriorEquivalenceGmrfVariant::ExactOrdinaryPotentialDense,
        PlanarHolesPriorEquivalenceGmrfVariant::ExactOrdinaryPotentialDenseTraceMatched,
    ]
}

/// Plans the comparisons of sparse coexact priors with spectral ones.
pub fn prior_equivalence_plan(
    config: &PlanarHolesPriorEquivalenceConfig,
    vertex_count: usize,
    cell_count: usize,
) -> (plan: Vec<PriorComparison>)
    ensures
        exists|stages: Seq<usize>| #[trigger]
            is_mode_schedule(
                config.mode_counts@,
                config.include_max_available,
                most_coexact_modes(vertex_count, cell_count),
                stages,
            ) && plan@ == comparisons(
                stages,
                coexact_variants(config.include_exact_lower_mass),
                stages.len() as int,
            ),
{
    let stages = mode_schedule(
        &config.mode_counts,
        config.include_max_available,
        coexact_modes_available(vertex_count, cell_count),
    );
    let mut variants: Vec<PlanarHolesPriorEquivalenceGmrfVariant> = vec![
        PlanarHolesPriorEquivalenceGmrfVariant::SparseLower,
        PlanarHolesPriorEquivalenceGmrfVariant::SparseLowerTraceMatched,
    ];
    if config.include_exact_lower_mass {
        variants.push(PlanarHolesPriorEquivalenceGmrfVariant::ExactLower);
        variants.push(PlanarHolesPriorEquivalenceGmrfVariant::ExactLowerTraceMatched);
    }
    assert(variants@ =~= coexact_variants(config.include_exact_lower_mass));
    plan_comparisons(&stages, &variants)
}

/// Plans the comparisons of sparse exact priors with spectral ones.
pub fn exact_prior_equivalence_plan(
    config: &PlanarHolesExactPriorEquivalenceConfig,
    vertex_count: usize,
) -> (plan: Vec<PriorComparison>)
    ensures
        exists|stages: Seq<usize>| #[trigger]
            is_mode_schedule(
                config.mode_counts@,
                config.include_max_available,
                most_exact_modes(vertex_count),
                stages,
            ) && plan@ == comparisons(stages, exact_variants(), stages.len() as int),
{
    let stages = mode_schedule(
        &config.mode_counts,
        config.include_max_available,
        exact_modes_available(vertex_count),
    );
    let variants: Vec<PlanarHolesPriorEquivalenceGmrfVariant> = vec![
        PlanarHolesPriorEquivalenceGmrfVariant::ExactLumped,
        PlanarHolesPriorEquivalenceGmrfVariant::ExactLumpedTraceMatched,
        PlanarHolesPriorEquivalenceGmrfVariant::ExactDense,
        PlanarHolesPriorEquivalenceGmrfVariant::ExactDenseTraceMatched,
        PlanarHolesPriorEquivalenceGmrfVariant::ExactOrdinaryPotentialDense,
        PlanarHolesPriorEquivalenceGmrfVariant::ExactOrdinaryPotentialDenseTraceMatched,
    ];
    assert(variants@ =~= exact_variants());
    plan_comparisons(&stages, &variants)
}

/// The configuration of the spectral prior with coexact modes alone and a free boundary.
pub open spec fn coexact_reference(
    config: PlanarHolesFlowConfig,
    mode_count: usize,
    reference: PlanarHolesPriorEquivalenceSpectralReference,
    target: Scalar,
) -> PlanarHolesFlowConfig {
    PlanarHolesFlowConfig {
        spectral_exact_mode_count: 0,
        spectral_coexact_mode_count: mode_count,
        spectral_harmonic_mode_count: 0,
        spectral_branch_energy_normalization: reference
            == PlanarHolesPriorEquivalenceSpectralReference::EnergyNormalized,
        spectral_coexact_expected_m1_energy: target,
        spectral_boundary_condition: PlanarHolesSpectralBoundaryCondition::Free,
        ..config
    }
}

/// The configuration of the spectral prior with exact modes alone and a free boundary.
pub open spec fn exact_reference(
    config: PlanarHolesFlowConfig,
    mode_count: usize,
    reference: PlanarHolesPriorEquivalenceSpectralReference,
    target: Scalar,
) -> PlanarHolesFlowConfig {
    PlanarHolesFlowConfig {
        spectral_exact_mode_count: mode_count,
        spectral_coexact_mode_count: 0,
        spectral_harmonic_mode_count: 0,
        spectral_branch_energy_normalization: reference
            == PlanarHolesPriorEquivalenceSpectralReference::EnergyNormalized,
        spectral_exact_expected_m1_energy: target,
        spectral_boundary_condition: PlanarHolesSpectralBoundaryCondition::Free,
        ..config
    }
}

/// Sets up the spectral prior of a comparison of coexact priors; it is scaled to the target energy
/// where the comparison is with the normalized one.
pub fn coexact_reference_config(
    config: &PlanarHolesFlowConfig,
    comparison: PriorComparison,
    target: Scalar,
) -> (result: PlanarHolesFlowConfig)
    ensures
        result == coexact_reference(
            *config,
            comparison.requested_mode_count,
            comparison.reference,
            target,
        ),
{
    PlanarHolesFlowConfig {
        spectral_exact_mode_count: 0,
        spectral_coexact_mode_count: comparison.requested_mode_count,
        spectral_harmonic_mode_count: 0,
        spectral_branch_energy_normalization: comparison.reference
            == PlanarHolesPriorEquivalenceSpectralReference::EnergyNormalized,
        spectral_coexact_expected_m1_energy: target,
        spectral_boundary_condition: PlanarHolesSpectralBoundaryCondition::Free,
        ..*config
    }
}

/// Sets up the spectral prior of a comparison of exact priors; it is scaled to the target energy
/// where the comparison is with the normalized one.
pub fn exact_reference_config(
    config: &PlanarHolesFlowConfig,
    comparison: PriorComparison,
    target: Scalar,
) -> (result: PlanarHolesFlowConfig)
    ensures
        result == exact_reference(
            *config,
            comparison.requested_mode_count,
            comparison.reference,
            target,
        ),
{
    PlanarHolesFlowConfig {
        spectral_exact_mode_count: comparison.requested_mode_count,
        spectral_coexact_mode_count: 0,
        spectral_harmonic_mode_count: 0,
        spectral_branch_energy_normalization: comparison.reference
            == PlanarHolesPriorEquivalenceSpectralReference::EnergyNormalized,
        spectral_exact_expected_m1_energy: target,
        spectral_boundary_condition: PlanarHolesSpectralBoundaryCondition::Free,
        ..*config
    }
}

/// The sparse priors that the variants of a comparison are built from.
#[derive(Debug, Clone, Copy, PartialEq, Eq, Structural)]
pub enum GmrfBase {
    /// Coexact, with the sparse or with the exact inverse of the lower mass.
    SparseLower,
    ExactLower,
    /// Exact, with the lumped or with the dense inverse of the mass.
    ExactLumped,
    ExactDense,
    /// Exact, from an ordinary potential, with the dense inverse of the mass.
    ExactOrdinaryPotentialDense,
}

/// A sparse prior of a comparison: what it is built from, and whether its scale is chosen so that
/// its energy is that of the spectral prior.
#[derive(Debug, Clone, Copy, PartialEq, Eq, Structural)]
pub struct GmrfRecipe {
    pub base: GmrfBase,
    pub trace_matched: bool,
}

/// Says how a variant is built.
pub fn gmrf_recipe(variant: PlanarHolesPriorEquivalenceGmrfVariant) -> (recipe: GmrfRecipe)
    ensures
        recipe.base == match variant {
            PlanarHolesPriorEquivalenceGmrfVariant::SparseLower
            | PlanarHolesPriorEquivalenceGmrfVariant::SparseLowerTraceMatched => {
                GmrfBase::SparseLower
            },
            PlanarHolesPriorEquivalenceGmrfVariant::ExactLower
            | PlanarHolesPriorEquivalenceGmrfVariant::ExactLowerTraceMatched => {
                GmrfBase::ExactLower
            },
            PlanarHolesPriorEquivalenceGmrfVariant::ExactLumped
            | PlanarHolesPriorEquivalenceGmrfVariant::ExactLumpedTraceMatched => {
                GmrfBase::ExactLumped
            },
            PlanarHolesPriorEquivalenceGmrfVariant::ExactDense
            | PlanarHolesPriorEquivalenceGmrfVariant::ExactDenseTraceMatched => {
                GmrfBase::ExactDense
            },
            PlanarHolesPriorEquivalenceGmrfVariant::ExactOrdinaryPotentialDense
            | PlanarHolesPriorEquivalenceGmrfVariant::ExactOrdinaryPotentialDenseTraceMatched => {
                GmrfBase::ExactOrdinaryPotentialDense
            },
        },
        recipe.trace_matched <==> match variant {
            PlanarHolesPriorEquivalenceGmrfVariant::SparseLowerTraceMatched
            | PlanarHolesPriorEquivalenceGmrfVariant::ExactLowerTraceMatched
            | PlanarHolesPriorEquivalenceGmrfVariant::ExactLumpedTraceMatched
            | PlanarHolesPriorEquivalenceGmrfVariant::ExactDenseTraceMatched
            | PlanarHolesPriorEquivalenceGmrfVariant::ExactOrdinaryPotentialDenseTraceMatched => {
                true
            },
            _ => false,
        },
{
    let (base, trace_matched) = match variant {
        PlanarHolesPriorEquivalenceGmrfVariant::SparseLower => (GmrfBase::SparseLower, false),
        PlanarHolesPriorEquivalenceGmrfVariant::SparseLowerTraceMatched => (
            GmrfBase::SparseLower,
            true,
        ),
        PlanarHolesPriorEquivalenceGmrfVariant::ExactLower => (GmrfBase::ExactLower, false),
        PlanarHolesPriorEquivalenceGmrfVariant::ExactLowerTraceMatched => (
            GmrfBase::ExactLower,
            true,
        ),
        PlanarHolesPriorEquivalenceGmrfVariant::ExactLumped => (GmrfBase::ExactLumped, false),
        PlanarHolesPriorEquivalenceGmrfVariant::ExactLumpedTraceMatched => (
            GmrfBase::ExactLumped,
            true,
        ),
        PlanarHolesPriorEquivalenceGmrfVariant::ExactDense => (GmrfBase::ExactDense, false),
        PlanarHolesPriorEquivalenceGmrfVariant::ExactDenseTraceMatched => (
            GmrfBase::ExactDense,
            true,
        ),
        PlanarHolesPriorEquivalenceGmrfVariant::ExactOrdinaryPotentialDense => (
            GmrfBase::ExactOrdinaryPotentialDense,
            false,
        ),
        PlanarHolesPriorEquivalenceGmrfVariant::ExactOrdinaryPotentialDenseTraceMatched => (
            GmrfBase::ExactOrdinaryPotentialDense,
            true,
        ),
    };
    GmrfRecipe { base, trace_matched }
}

/// Tests the scale of a sparse prior, which has to be finite and positive. The text is the scale
/// written out.
pub fn check_prior_scale(scale: Scalar, text: &str) -> (result: Result<(), String>)
    ensures
        match result {
            Ok(_) => scale.positive(),
            Err(message) => !scale.positive() && message@ == "invalid tau scale "@ + text@,
        },
{
    if scale.is_positive() {
        return Ok(());
    }
    let mut message = String::from_str("invalid tau scale ");
    message.append(text);
    Err(message)
}

/// There are two comparisons of every variant for each mode count.
pub proof fn lemma_comparison_count(
    stages: Seq<usize>,
    variants: Seq<PlanarHolesPriorEquivalenceGmrfVariant>,
    count: int,
)
    requires
        0 <= count <= stages.len(),
    ensures
        comparisons(stages, variants, count).len() == 2 * count * variants.len(),
    decreases count,
{
    if count > 0 {
        lemma_comparison_count(stages, variants, count - 1);
        let n = variants.len() as int;
        assert(2 * count * n == 2 * (count - 1) * n + n + n) by (nonlinear_arith);
    } else {
        assert(2 * count * variants.len() == 0) by (nonlinear_arith)
            requires
                count == 0,
        ;
    }
}

/// The message for a transform that has too few rows.
pub open spec fn row_count_message(rows: nat, full_rows: nat) -> Seq<char> {
    "spectral transform has "@ + decimal(rows) + " rows but expected "@ + decimal(full_rows)
}

/// The message for a transform whose missing rows are not those of the boundary.
pub open spec fn boundary_rows_message(rows: nat, boundary: nat, full_rows: nat) -> Seq<char> {
    "strong-boundary reduced transform has "@ + decimal(rows) + " rows, boundary has "@ + decimal(
        boundary,
    ) + ", full edge count is "@ + decimal(full_rows)
}

/// Whether `targets` lists the edges that are not on the boundary, in increasing order.
pub open spec fn lists_interior(boundary: Set<usize>, full_rows: nat, targets: Seq<usize>) -> bool {
    &&& strictly_increasing(targets)
    &&& forall|e: usize| #[trigger]
        targets.contains(e) <==> e < full_rows && !boundary.contains(e)
}

/// Finds the edge that each row of a spectral transform belongs to. Where the boundary edges are
/// held at zero the transform has a row for every other edge; else it has one for every edge.
pub fn expand_spectral_rows(
    rows: usize,
    full_rows: usize,
    boundary_condition: PlanarHolesSpectralBoundaryCondition,
    boundary_edges: &IndexSet,
) -> (result: Result<Vec<usize>, String>)
    requires
        boundary_edges.wf(),
        rows + boundary_edges.sequence().len() <= usize::MAX,
    ensures
        match result {
            Ok(targets) => if rows == full_rows {
                targets@ == numbers(full_rows as nat)
            } else {
                &&& boundary_condition
                    == PlanarHolesSpectralBoundaryCondition::StrongBoundaryOneForms
                &&& rows + boundary_edges.sequence().len() == full_rows
                &&& lists_interior(boundary_edges@, full_rows as nat, targets@)
                &&& (forall|e: usize| #[trigger] boundary_edges@.contains(e) ==> e < full_rows)
                    ==> targets.len() == rows
            },
            Err(message) => if boundary_condition
                != PlanarHolesSpectralBoundaryCondition::StrongBoundaryOneForms {
                rows != full_rows && message@ == row_count_message(rows as nat, full_rows as nat)
            } else {
                rows != full_rows && rows + boundary_edges.sequence().len() != full_rows && message@
                    == boundary_rows_message(
                    rows as nat,
                    boundary_edges.sequence().len(),
                    full_rows as nat,
                )
            },
        },
{
    if rows == full_rows {
        let mut all: Vec<usize> = Vec::new();
        while all.len() < full_rows
            invariant
                all.len() <= full_rows,
                forall|i: int| 0 <= i < all.len() ==> #[trigger] all@[i] == i,
            decreases full_rows - all.len(),
        {
            let next: usize = all.len();
            all.push(next);
        }
        assert(all@ =~= numbers(full_rows as nat));
        return Ok(all);
    }
    match boundary_condition {
        PlanarHolesSpectralBoundaryCondition::StrongBoundaryOneForms => {},
        _ => {
            let mut message = String::from_str("spectral transform has ");
            message.append(count_text(rows).as_str());
            message.append(" rows but expected ");
            message.append(count_text(full_rows).as_str());
            return Err(message);
        },
    }
    if rows + boundary_edges.len() != full_rows {
        let mut message = String::from_str("strong-boundary reduced transform has ");
        message.append(count_text(rows).as_str());
        message.append(" rows, boundary has ");
        message.append(count_text(boundary_edges.len()).as_str());
        message.append(", full edge count is ");
        message.append(count_text(full_rows).as_str());
        return Err(message);
    }
    let mut targets: Vec<usize> = Vec::new();
    let mut edge: usize = 0;
    let ghost boundary = boundary_edges.sequence();
    let ghost mut passed: int = 0;
    while edge < full_rows
        invariant
            boundary_edges.wf(),
            edge <= full_rows,
            boundary == boundary_edges.sequence(),
            0 <= passed <= boundary.len(),
            targets.len() + passed == edge,
            forall|i: int| 0 <= i < passed ==> #[trigger] boundary[i] < edge,
            forall|i: int| passed <= i < boundary.len() ==> #[trigger] boundary[i] >= edge,
            strictly_increasing(targets@),
            forall|i: int| 0 <= i < targets.len() ==> #[trigger] targets@[i] < edge,
            forall|e: usize| #[trigger]
                targets@.contains(e) <==> e < edge && !boundary_edges@.contains(e),
        decreases full_rows - edge,
    {
        if !boundary_edges.contains(edge) {
            let ghost before = targets@;
            targets.push(edge);
            proof {
                assert forall|e: usize| #[trigger] targets@.contains(e) <==> before.contains(e) || e
                    == edge by {
                    if before.contains(e) {
                        let i = choose|i: int| 0 <= i < before.len() && before[i] == e;
                        assert(targets@[i] == e);
                    }
                    assert(targets@[before.len() as int] == edge);
                    if targets@.contains(e) {
                        let i = choose|i: int| 0 <= i < targets@.len() && targets@[i] == e;
                        if i < before.len() {
                            assert(before[i] == e);
                        }
                    }
                }
                assert forall|i: int| passed <= i < boundary.len() implies #[trigger] boundary[i]
                    >= edge + 1 by {
                    if boundary[i] == edge {
                        assert(boundary_edges@.contains(boundary[i]));
                    }
                }
            }
        } else {
            proof {
                assert(boundary.to_set().contains(edge));
                let i = choose|i: int| 0 <= i < boundary.len() && boundary[i] == edge;
                assert(i >= passed);
                if i > passed {
                    assert(boundary[passed] < boundary[i]);
                }
                passed = passed + 1;
                assert forall|j: int| passed <= j < boundary.len() implies #[trigger] boundary[j]
                    >= edge + 1 by {
                    assert(boundary[i] < boundary[j]);
                }
            }
        }
        edge = edge + 1;
    }
    proof {
        if forall|e: usize| #[trigger] boundary_edges@.contains(e) ==> e < full_rows {
            if passed < boundary.len() {
                assert(boundary_edges@.contains(boundary[passed]));
            }
        }
    }
    Ok(targets)
}

/// Where the exact part of a truth comes from: nowhere where its size is not positive.
#[derive(Debug, Clone, Copy, PartialEq, Eq, Structural)]
pub struct ExactSample {
    pub source: PlanarHolesExactTruthSource,
    /// What is added to the seed of the configuration, where the sample is random.
    pub seed_offset: Option<u64>,
}

/// The sample that the exact part of a truth is made of.
pub fn exact_truth_sample(config: &PlanarHolesFlowConfig) -> (sample: Option<ExactSample>)
    ensures
        sample is None <==> config.exact_truth_mass_norm.le(Scalar { bits: 0 }),
        match sample {
            Some(drawn) => drawn.source == config.exact_truth_source && drawn.seed_offset == (
            match config.exact_truth_source {
                PlanarHolesExactTruthSource::SparseAnchor => Some(101u64),
                PlanarHolesExactTruthSource::ExactDenseGmrf => Some(1501u64),
                PlanarHolesExactTruthSource::SpectralGp => Some(1101u64),
                PlanarHolesExactTruthSource::AnalyticPotential => None,
            }),
            None => true,
        },
{
    if config.exact_truth_mass_norm.at_most(Scalar { bits: 0 }) {
        return None;
    }
    let seed_offset: Option<u64> = match config.exact_truth_source {
        PlanarHolesExactTruthSource::SparseAnchor => Some(101),
        PlanarHolesExactTruthSource::ExactDenseGmrf => Some(1501),
        PlanarHolesExactTruthSource::SpectralGp => Some(1101),
        PlanarHolesExactTruthSource::AnalyticPotential => None,
    };
    Some(ExactSample { source: config.exact_truth_source, seed_offset })
}

/// Where the coexact part of a truth comes from.
#[derive(Debug, Clone, Copy, PartialEq, Eq, Structural)]
pub struct CoexactSample {
    pub source: PlanarHolesCoexactTruthSource,
    /// What is added to the seed of the configuration.
    pub seed_offset: u64,
}

/// The sample that the coexact part of a truth is made of.
pub fn coexact_truth_sample(config: &PlanarHolesFlowConfig) -> (sample: Option<CoexactSample>)
    ensures
        sample is None <==> config.coexact_truth_mass_norm.le(Scalar { bits: 0 }),
        match sample {
            Some(drawn) => drawn.source == config.coexact_truth_source && drawn.seed_offset == (
            match config.coexact_truth_source {
                PlanarHolesCoexactTruthSource::SparseAnchor => 202u64,
                PlanarHolesCoexactTruthSource::ExactMassCoexact => 202,
                PlanarHolesCoexactTruthSource::ExactLowerMassCoexact => 2602,
                PlanarHolesCoexactTruthSource::SpectralGp => 1202,
                PlanarHolesCoexactTruthSource::DirichletStreamfunction => 2402,
            }),
            None => true,
        },
{
    if config.coexact_truth_mass_norm.at_most(Scalar { bits: 0 }) {
        return None;
    }
    let seed_offset: u64 = match config.coexact_truth_source {
        PlanarHolesCoexactTruthSource::SparseAnchor => 202,
        PlanarHolesCoexactTruthSource::ExactMassCoexact => 202,
        PlanarHolesCoexactTruthSource::ExactLowerMassCoexact => 2602,
        PlanarHolesCoexactTruthSource::SpectralGp => 1202,
        PlanarHolesCoexactTruthSource::DirichletStreamfunction => 2402,
    };
    Some(CoexactSample { source: config.coexact_truth_source, seed_offset })
}

/// Where the harmonic part of a truth comes from.
#[derive(Debug, Clone, Copy, PartialEq, Eq, Structural)]
pub struct HarmonicSample {
    pub source: PlanarHolesHarmonicTruthSource,
    /// What is added to the seed of the configuration, where the sample is random.
    pub seed_offset: Option<u64>,
}

/// The sample that the harmonic part of a truth is made of.
pub fn harmonic_truth_sample(config: &PlanarHolesFlowConfig) -> (sample: Option<HarmonicSample>)
    ensures
        sample is None <==> config.harmonic_truth_mass_norm.le(Scalar { bits: 0 }),
        match sample {
            Some(drawn) => drawn.source == config.harmonic_truth_source && drawn.seed_offset == (
            match config.harmonic_truth_source {
                PlanarHolesHarmonicTruthSource::CanonicalFixed => None,
                PlanarHolesHarmonicTruthSource::SpectralGp => Some(1303u64),
            }),
            None => true,
        },
{
    if config.harmonic_truth_mass_norm.at_most(Scalar { bits: 0 }) {
        return None;
    }
    let seed_offset: Option<u64> = match config.harmonic_truth_source {
        PlanarHolesHarmonicTruthSource::CanonicalFixed => None,
        PlanarHolesHarmonicTruthSource::SpectralGp => Some(1303),
    };
    Some(HarmonicSample { source: config.harmonic_truth_source, seed_offset })
}

/// Tests whether a part of the truth comes from the spectral model.
pub fn needs_spectral_truth(config: &PlanarHolesFlowConfig) -> (needed: bool)
    ensures
        needed == (config.exact_truth_source == PlanarHolesExactTruthSource::SpectralGp
            || config.coexact_truth_source == PlanarHolesCoexactTruthSource::SpectralGp
            || config.harmonic_truth_source == PlanarHolesHarmonicTruthSource::SpectralGp),
{
    config.exact_truth_source == PlanarHolesExactTruthSource::SpectralGp
        || config.coexact_truth_source == PlanarHolesCoexactTruthSource::SpectralGp
        || config.harmonic_truth_source == PlanarHolesHarmonicTruthSource::SpectralGp
}

/// Tests whether the truth has to be free of divergence: it has no exact part, and its coexact
/// part comes from a source that is free of divergence on the mesh.
pub fn truth_is_incompressible(config: &PlanarHolesFlowConfig) -> (checked: bool)
    ensures
        checked == ((config.coexact_truth_source == PlanarHolesCoexactTruthSource::ExactMassCoexact
            || config.coexact_truth_source
            == PlanarHolesCoexactTruthSource::DirichletStreamfunction)
            && config.exact_truth_mass_norm.rank() == 0),
{
    let source_is_free: bool = match config.coexact_truth_source {
        PlanarHolesCoexactTruthSource::ExactMassCoexact
        | PlanarHolesCoexactTruthSource::DirichletStreamfunction => true,
        _ => false,
    };
    source_is_free && config.exact_truth_mass_norm.is_zero()
}

} // verus!
