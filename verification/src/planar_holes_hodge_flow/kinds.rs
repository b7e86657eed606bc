//! The named alternatives of the study, and the names under which they are reported.

use vstd::prelude::*;

verus! {

/// Where the coexact part of the truth comes from.
#[derive(Debug, Clone, Copy, PartialEq, Eq, Structural)]
pub enum PlanarHolesCoexactTruthSource {
    SparseAnchor,
    ExactMassCoexact,
    ExactLowerMassCoexact,
    SpectralGp,
    DirichletStreamfunction,
}

impl PlanarHolesCoexactTruthSource {
    /// The name that stands for the variant in tables, labels and paths.
    pub open spec fn name(self) -> Seq<char> {
        match self {
            PlanarHolesCoexactTruthSource::SparseAnchor => "sparse_anchor"@,
            PlanarHolesCoexactTruthSource::ExactMassCoexact => "exact_mass_coexact"@,
            PlanarHolesCoexactTruthSource::ExactLowerMassCoexact => "exact_lower_mass_coexact"@,
            PlanarHolesCoexactTruthSource::SpectralGp => "spectral_gp"@,
            PlanarHolesCoexactTruthSource::DirichletStreamfunction => "dirichlet_streamfunction"@,
        }
    }

    /// The name as it is reported.
    pub fn as_str(self) -> (text: &'static str)
        ensures
            text@ == self.name(),
    {
        match self {
            PlanarHolesCoexactTruthSource::SparseAnchor => "sparse_anchor",
            PlanarHolesCoexactTruthSource::ExactMassCoexact => "exact_mass_coexact",
            PlanarHolesCoexactTruthSource::ExactLowerMassCoexact => "exact_lower_mass_coexact",
            PlanarHolesCoexactTruthSource::SpectralGp => "spectral_gp",
            PlanarHolesCoexactTruthSource::DirichletStreamfunction => "dirichlet_streamfunction",
        }
    }

    /// No two variants have the same name.
    pub proof fn lemma_names_distinct(left: PlanarHolesCoexactTruthSource, right: PlanarHolesCoexactTruthSource)
        requires
            left.name() == right.name(),
        ensures
            left == right,
    {
        reveal_strlit("sparse_anchor");
        reveal_strlit("exact_mass_coexact");
        reveal_strlit("exact_lower_mass_coexact");
        reveal_strlit("spectral_gp");
        reveal_strlit("dirichlet_streamfunction");
        assert("sparse_anchor"@.len() == 13 && "sparse_anchor"@[0] == 's');
        assert("exact_mass_coexact"@.len() == 18 && "exact_mass_coexact"@[0] == 'e');
        assert("exact_lower_mass_coexact"@.len() == 24 && "exact_lower_mass_coexact"@[0] == 'e');
        assert("spectral_gp"@.len() == 11 && "spectral_gp"@[0] == 's');
        assert("dirichlet_streamfunction"@.len() == 24 && "dirichlet_streamfunction"@[0] == 'd');
    }
}

/// Where the exact part of the truth comes from.
#[derive(Debug, Clone, Copy, PartialEq, Eq, Structural)]
pub enum PlanarHolesExactTruthSource {
    SparseAnchor,
    ExactDenseGmrf,
    SpectralGp,
    AnalyticPotential,
}

impl PlanarHolesExactTruthSource {
    /// The name that stands for the variant in tables, labels and paths.
    pub open spec fn name(self) -> Seq<char> {
        match self {
            PlanarHolesExactTruthSource::SparseAnchor => "sparse_anchor"@,
            PlanarHolesExactTruthSource::ExactDenseGmrf => "exact_dense_gmrf"@,
            PlanarHolesExactTruthSource::SpectralGp => "spectral_gp"@,
            PlanarHolesExactTruthSource::AnalyticPotential => "analytic_potential"@,
        }
    }

    /// The name as it is reported.
    pub fn as_str(self) -> (text: &'static str)
        ensures
            text@ == self.name(),
    {
        match self {
            PlanarHolesExactTruthSource::SparseAnchor => "sparse_anchor",
            PlanarHolesExactTruthSource::ExactDenseGmrf => "exact_dense_gmrf",
            PlanarHolesExactTruthSource::SpectralGp => "spectral_gp",
            PlanarHolesExactTruthSource::AnalyticPotential => "analytic_potential",
        }
    }

    /// No two variants have the same name.
    pub proof fn lemma_names_distinct(left: PlanarHolesExactTruthSource, right: PlanarHolesExactTruthSource)
        requires
            left.name() == right.name(),
        ensures
            left == right,
    {
        reveal_strlit("sparse_anchor");
        reveal_strlit("exact_dense_gmrf");
        reveal_strlit("spectral_gp");
        reveal_strlit("analytic_potential");
        assert("sparse_anchor"@.len() == 13);
        assert("exact_dense_gmrf"@.len() == 16);
        assert("spectral_gp"@.len() == 11);
        assert("analytic_potential"@.len() == 18);
    }
}

/// Where the harmonic part of the truth comes from.
#[derive(Debug, Clone, Copy, PartialEq, Eq, Structural)]
pub enum PlanarHolesHarmonicTruthSource {
    CanonicalFixed,
    SpectralGp,
}

impl PlanarHolesHarmonicTruthSource {
    /// The name that stands for the variant in tables, labels and paths.
    pub open spec fn name(self) -> Seq<char> {
        match self {
            PlanarHolesHarmonicTruthSource::CanonicalFixed => "canonical_fixed"@,
            PlanarHolesHarmonicTruthSource::SpectralGp => "spectral_gp"@,
        }
    }

    /// The name as it is reported.
    pub fn as_str(self) -> (text: &'static str)
        ensures
            text@ == self.name(),
    {
        match self {
            PlanarHolesHarmonicTruthSource::CanonicalFixed => "canonical_fixed",
            PlanarHolesHarmonicTruthSource::SpectralGp => "spectral_gp",
        }
    }

    /// No two variants have the same name.
    pub proof fn lemma_names_distinct(left: PlanarHolesHarmonicTruthSource, right: PlanarHolesHarmonicTruthSource)
        requires
            left.name() == right.name(),
        ensures
            left == right,
    {
        reveal_strlit("canonical_fixed");
        reveal_strlit("spectral_gp");
        assert("canonical_fixed"@.len() == 15);
        assert("spectral_gp"@.len() == 11);
    }
}

/// How the parts of the truth are scaled.
#[derive(Debug, Clone, Copy, PartialEq, Eq, Structural)]
pub enum PlanarHolesTruthScaling {
    MassNormTargets,
    RawPriorSamples,
}

impl PlanarHolesTruthScaling {
    /// The name that stands for the variant in tables, labels and paths.
    pub open spec fn name(self) -> Seq<char> {
        match self {
            PlanarHolesTruthScaling::MassNormTargets => "mass_norm_targets"@,
            PlanarHolesTruthScaling::RawPriorSamples => "raw_prior_samples"@,
        }
    }

    /// The name as it is reported.
    pub fn as_str(self) -> (text: &'static str)
        ensures
            text@ == self.name(),
    {
        match self {
            PlanarHolesTruthScaling::MassNormTargets => "mass_norm_targets",
            PlanarHolesTruthScaling::RawPriorSamples => "raw_prior_samples",
        }
    }

    /// No two variants have the same name.
    pub proof fn lemma_names_distinct(left: PlanarHolesTruthScaling, right: PlanarHolesTruthScaling)
        requires
            left.name() == right.name(),
        ensures
            left == right,
    {
        reveal_strlit("mass_norm_targets");
        reveal_strlit("raw_prior_samples");
        assert("mass_norm_targets"@.len() == 17 && "mass_norm_targets"@[0] == 'm');
        assert("raw_prior_samples"@.len() == 17 && "raw_prior_samples"@[0] == 'r');
    }
}

/// Which edges are observed one by one.
#[derive(Debug, Clone, Copy, PartialEq, Eq, Structural)]
pub enum PlanarHolesLocalObservationDesign {
    SparseInterior,
    HalfInteriorEdges,
    AllEdges,
}

impl PlanarHolesLocalObservationDesign {
    /// The name that stands for the variant in tables, labels and paths.
    pub open spec fn name(self) -> Seq<char> {
        match self {
            PlanarHolesLocalObservationDesign::SparseInterior => "sparse_interior"@,
            PlanarHolesLocalObservationDesign::HalfInteriorEdges => "half_interior_edges"@,
            PlanarHolesLocalObservationDesign::AllEdges => "all_edges"@,
        }
    }

    /// The name as it is reported.
    pub fn as_str(self) -> (text: &'static str)
        ensures
            text@ == self.name(),
    {
        match self {
            PlanarHolesLocalObservationDesign::SparseInterior => "sparse_interior",
            PlanarHolesLocalObservationDesign::HalfInteriorEdges => "half_interior_edges",
            PlanarHolesLocalObservationDesign::AllEdges => "all_edges",
        }
    }

    /// No two variants have the same name.
    pub proof fn lemma_names_distinct(left: PlanarHolesLocalObservationDesign, right: PlanarHolesLocalObservationDesign)
        requires
            left.name() == right.name(),
        ensures
            left == right,
    {
        reveal_strlit("sparse_interior");
        reveal_strlit("half_interior_edges");
        reveal_strlit("all_edges");
        assert("sparse_interior"@.len() == 15);
        assert("half_interior_edges"@.len() == 19);
        assert("all_edges"@.len() == 9);
    }
}

/// What spectral modes do at the boundary.
#[derive(Debug, Clone, Copy, PartialEq, Eq, Structural)]
pub enum PlanarHolesSpectralBoundaryCondition {
    Free,
    StrongBoundaryOneForms,
}

impl PlanarHolesSpectralBoundaryCondition {
    /// The name that stands for the variant in tables, labels and paths.
    pub open spec fn name(self) -> Seq<char> {
        match self {
            PlanarHolesSpectralBoundaryCondition::Free => "free"@,
            PlanarHolesSpectralBoundaryCondition::StrongBoundaryOneForms => "strong_boundary_one_forms"@,
        }
    }

    /// The name as it is reported.
    pub fn as_str(self) -> (text: &'static str)
        ensures
            text@ == self.name(),
    {
        match self {
            PlanarHolesSpectralBoundaryCondition::Free => "free",
            PlanarHolesSpectralBoundaryCondition::StrongBoundaryOneForms => "strong_boundary_one_forms",
        }
    }

    /// No two variants have the same name.
    pub proof fn lemma_names_distinct(left: PlanarHolesSpectralBoundaryCondition, right: PlanarHolesSpectralBoundaryCondition)
        requires
            left.name() == right.name(),
        ensures
            left == right,
    {
        reveal_strlit("free");
        reveal_strlit("strong_boundary_one_forms");
        assert("free"@.len() == 4);
        assert("strong_boundary_one_forms"@.len() == 25);
    }
}

/// A model of the flow.
#[derive(Debug, Clone, Copy, PartialEq, Eq, PartialOrd, Ord, Structural)]
pub enum PlanarHolesModelKind {
    HodgeMatern,
    ExactHodgeMatern,
    ExactDenseExactHodgeMatern,
    ExactDenseTraceMatchedExactHodgeMatern,
    IncompressibleHodgeMatern,
    ExactMassIncompressibleHodgeMatern,
    SparseLowerTraceMatchedIncompressibleHodgeMatern,
    ExactLowerIncompressibleHodgeMatern,
    ExactLowerTraceMatchedIncompressibleHodgeMatern,
    SpectralExactHodgeGp,
    SpectralHodgeGp,
    SpectralIncompressibleHodgeGp,
    NondecomposedFeec,
    ComponentwiseMatern,
    PostHocProjectedVectorMatern,
    NaiveEuclideanVectorMatern,
}

impl PlanarHolesModelKind {
    /// The name that stands for the variant in tables, labels and paths.
    pub open spec fn name(self) -> Seq<char> {
        match self {
            PlanarHolesModelKind::HodgeMatern => "feec_hodge_matern"@,
            PlanarHolesModelKind::ExactHodgeMatern => "feec_exact_matern"@,
            PlanarHolesModelKind::ExactDenseExactHodgeMatern => "feec_exact_dense_0form_exact_matern"@,
            PlanarHolesModelKind::ExactDenseTraceMatchedExactHodgeMatern => "feec_exact_dense_0form_trace_matched_exact_matern"@,
            PlanarHolesModelKind::IncompressibleHodgeMatern => "feec_coexact_harmonic_matern"@,
            PlanarHolesModelKind::ExactMassIncompressibleHodgeMatern => "feec_exact_mass_coexact_harmonic_matern"@,
            PlanarHolesModelKind::SparseLowerTraceMatchedIncompressibleHodgeMatern => "feec_sparse_lower_trace_matched_coexact_harmonic_matern"@,
            PlanarHolesModelKind::ExactLowerIncompressibleHodgeMatern => "feec_exact_lower_coexact_harmonic_matern"@,
            PlanarHolesModelKind::ExactLowerTraceMatchedIncompressibleHodgeMatern => "feec_exact_lower_trace_matched_coexact_harmonic_matern"@,
            PlanarHolesModelKind::SpectralExactHodgeGp => "spectral_exact_gp"@,
            PlanarHolesModelKind::SpectralHodgeGp => "spectral_hodge_gp"@,
            PlanarHolesModelKind::SpectralIncompressibleHodgeGp => "spectral_coexact_harmonic_gp"@,
            PlanarHolesModelKind::NondecomposedFeec => "nondecomposed_feec_hodge_matern"@,
            PlanarHolesModelKind::ComponentwiseMatern => "componentwise_scalar_matern"@,
            PlanarHolesModelKind::PostHocProjectedVectorMatern => "posthoc_projected_vector_matern"@,
            PlanarHolesModelKind::NaiveEuclideanVectorMatern => "naive_euclidean_vector_matern"@,
        }
    }

    /// The name as it is reported.
    pub fn as_str(self) -> (text: &'static str)
        ensures
            text@ == self.name(),
    {
        match self {
            PlanarHolesModelKind::HodgeMatern => "feec_hodge_matern",
            PlanarHolesModelKind::ExactHodgeMatern => "feec_exact_matern",
            PlanarHolesModelKind::ExactDenseExactHodgeMatern => "feec_exact_dense_0form_exact_matern",
            PlanarHolesModelKind::ExactDenseTraceMatchedExactHodgeMatern => "feec_exact_dense_0form_trace_matched_exact_matern",
            PlanarHolesModelKind::IncompressibleHodgeMatern => "feec_coexact_harmonic_matern",
            PlanarHolesModelKind::ExactMassIncompressibleHodgeMatern => "feec_exact_mass_coexact_harmonic_matern",
            PlanarHolesModelKind::SparseLowerTraceMatchedIncompressibleHodgeMatern => "feec_sparse_lower_trace_matched_coexact_harmonic_matern",
            PlanarHolesModelKind::ExactLowerIncompressibleHodgeMatern => "feec_exact_lower_coexact_harmonic_matern",
            PlanarHolesModelKind::ExactLowerTraceMatchedIncompressibleHodgeMatern => "feec_exact_lower_trace_matched_coexact_harmonic_matern",
            PlanarHolesModelKind::SpectralExactHodgeGp => "spectral_exact_gp",
            PlanarHolesModelKind::SpectralHodgeGp => "spectral_hodge_gp",
            PlanarHolesModelKind::SpectralIncompressibleHodgeGp => "spectral_coexact_harmonic_gp",
            PlanarHolesModelKind::NondecomposedFeec => "nondecomposed_feec_hodge_matern",
            PlanarHolesModelKind::ComponentwiseMatern => "componentwise_scalar_matern",
            PlanarHolesModelKind::PostHocProjectedVectorMatern => "posthoc_projected_vector_matern",
            PlanarHolesModelKind::NaiveEuclideanVectorMatern => "naive_euclidean_vector_matern",
        }
    }

    /// No two variants have the same name.
    pub proof fn lemma_names_distinct(left: PlanarHolesModelKind, right: PlanarHolesModelKind)
        requires
            left.name() == right.name(),
        ensures
            left == right,
    {
        reveal_strlit("feec_hodge_matern");
        reveal_strlit("feec_exact_matern");
        reveal_strlit("feec_exact_dense_0form_exact_matern");
        reveal_strlit("feec_exact_dense_0form_trace_matched_exact_matern");
        reveal_strlit("feec_coexact_harmonic_matern");
        reveal_strlit("feec_exact_mass_coexact_harmonic_matern");
        reveal_strlit("feec_sparse_lower_trace_matched_coexact_harmonic_matern");
        reveal_strlit("feec_exact_lower_coexact_harmonic_matern");
        reveal_strlit("feec_exact_lower_trace_matched_coexact_harmonic_matern");
        reveal_strlit("spectral_exact_gp");
        reveal_strlit("spectral_hodge_gp");
        reveal_strlit("spectral_coexact_harmonic_gp");
        reveal_strlit("nondecomposed_feec_hodge_matern");
        reveal_strlit("componentwise_scalar_matern");
        reveal_strlit("posthoc_projected_vector_matern");
        reveal_strlit("naive_euclidean_vector_matern");
        assert("feec_hodge_matern"@.len() == 17 && "feec_hodge_matern"@[5] == 'h' && "feec_hodge_matern"@[9] == 'e');
        assert("feec_exact_matern"@.len() == 17 && "feec_exact_matern"@[5] == 'e' && "feec_exact_matern"@[9] == 't');
        assert("feec_exact_dense_0form_exact_matern"@.len() == 35 && "feec_exact_dense_0form_exact_matern"@[5] == 'e' && "feec_exact_dense_0form_exact_matern"@[9] == 't');
        assert("feec_exact_dense_0form_trace_matched_exact_matern"@.len() == 49 && "feec_exact_dense_0form_trace_matched_exact_matern"@[5] == 'e' && "feec_exact_dense_0form_trace_matched_exact_matern"@[9] == 't');
        assert("feec_coexact_harmonic_matern"@.len() == 28 && "feec_coexact_harmonic_matern"@[5] == 'c' && "feec_coexact_harmonic_matern"@[9] == 'a');
        assert("feec_exact_mass_coexact_harmonic_matern"@.len() == 39 && "feec_exact_mass_coexact_harmonic_matern"@[5] == 'e' && "feec_exact_mass_coexact_harmonic_matern"@[9] == 't');
        assert("feec_sparse_lower_trace_matched_coexact_harmonic_matern"@.len() == 55 && "feec_sparse_lower_trace_matched_coexact_harmonic_matern"@[5] == 's' && "feec_sparse_lower_trace_matched_coexact_harmonic_matern"@[9] == 's');
        assert("feec_exact_lower_coexact_harmonic_matern"@.len() == 40 && "feec_exact_lower_coexact_harmonic_matern"@[5] == 'e' && "feec_exact_lower_coexact_harmonic_matern"@[9] == 't');
        assert("feec_exact_lower_trace_matched_coexact_harmonic_matern"@.len() == 54 && "feec_exact_lower_trace_matched_coexact_harmonic_matern"@[5] == 'e' && "feec_exact_lower_trace_matched_coexact_harmonic_matern"@[9] == 't');
        assert("spectral_exact_gp"@.len() == 17 && "spectral_exact_gp"@[5] == 'r' && "spectral_exact_gp"@[9] == 'e');
        assert("spectral_hodge_gp"@.len() == 17 && "spectral_hodge_gp"@[5] == 'r' && "spectral_hodge_gp"@[9] == 'h');
        assert("spectral_coexact_harmonic_gp"@.len() == 28 && "spectral_coexact_harmonic_gp"@[5] == 'r' && "spectral_coexact_harmonic_gp"@[9] == 'c');
        assert("nondecomposed_feec_hodge_matern"@.len() == 31 && "nondecomposed_feec_hodge_matern"@[5] == 'c' && "nondecomposed_feec_hodge_matern"@[9] == 'o');
        assert("componentwise_scalar_matern"@.len() == 27 && "componentwise_scalar_matern"@[5] == 'n' && "componentwise_scalar_matern"@[9] == 'w');
        assert("posthoc_projected_vector_matern"@.len() == 31 && "posthoc_projected_vector_matern"@[5] == 'o' && "posthoc_projected_vector_matern"@[9] == 'r');
        assert("naive_euclidean_vector_matern"@.len() == 29 && "naive_euclidean_vector_matern"@[5] == '_' && "naive_euclidean_vector_matern"@[9] == 'l');
    }
}

/// Which observations a scenario trains on.
#[derive(Debug, Clone, Copy, PartialEq, Eq, PartialOrd, Ord, Structural)]
pub enum PlanarHolesObservationScenario {
    LocalOnly,
    LocalPlusLoops,
    LocalPlusHarmonicPeriods,
}

impl PlanarHolesObservationScenario {
    /// The name that stands for the variant in tables, labels and paths.
    pub open spec fn name(self) -> Seq<char> {
        match self {
            PlanarHolesObservationScenario::LocalOnly => "local_only"@,
            PlanarHolesObservationScenario::LocalPlusLoops => "local_plus_loops"@,
            PlanarHolesObservationScenario::LocalPlusHarmonicPeriods => "local_plus_harmonic_periods"@,
        }
    }

    /// The name as it is reported.
    pub fn as_str(self) -> (text: &'static str)
        ensures
            text@ == self.name(),
    {
        match self {
            PlanarHolesObservationScenario::LocalOnly => "local_only",
            PlanarHolesObservationScenario::LocalPlusLoops => "local_plus_loops",
            PlanarHolesObservationScenario::LocalPlusHarmonicPeriods => "local_plus_harmonic_periods",
        }
    }

    /// All variants, in order.
    pub fn all() -> (all: [PlanarHolesObservationScenario; 3])
        ensures
            all@ == seq![
                PlanarHolesObservationScenario::LocalOnly,
                PlanarHolesObservationScenario::LocalPlusLoops,
                PlanarHolesObservationScenario::LocalPlusHarmonicPeriods,
            ],
            forall|variant: PlanarHolesObservationScenario| #[trigger] all@.contains(variant),
            all@.no_duplicates(),
    {
        let all = [
            PlanarHolesObservationScenario::LocalOnly,
            PlanarHolesObservationScenario::LocalPlusLoops,
            PlanarHolesObservationScenario::LocalPlusHarmonicPeriods,
        ];
        proof {
            assert forall|variant: PlanarHolesObservationScenario| #[trigger] all@.contains(variant) by {
                match variant {
                    PlanarHolesObservationScenario::LocalOnly => {
                        assert(all@[0] == variant);
                    },
                    PlanarHolesObservationScenario::LocalPlusLoops => {
                        assert(all@[1] == variant);
                    },
                    PlanarHolesObservationScenario::LocalPlusHarmonicPeriods => {
                        assert(all@[2] == variant);
                    },
                }
            }
        }
        all
    }

    /// No two variants have the same name.
    pub proof fn lemma_names_distinct(left: PlanarHolesObservationScenario, right: PlanarHolesObservationScenario)
        requires
            left.name() == right.name(),
        ensures
            left == right,
    {
        reveal_strlit("local_only");
        reveal_strlit("local_plus_loops");
        reveal_strlit("local_plus_harmonic_periods");
        assert("local_only"@.len() == 10);
        assert("local_plus_loops"@.len() == 16);
        assert("local_plus_harmonic_periods"@.len() == 27);
    }
}

/// How the codifferential of a posterior mean is judged.
#[derive(Debug, Clone, Copy, PartialEq, Eq, Structural)]
pub enum PlanarHolesCodifferentialMetricKind {
    RelativeError,
    Leakage,
}

impl PlanarHolesCodifferentialMetricKind {
    /// The name that stands for the variant in tables, labels and paths.
    pub open spec fn name(self) -> Seq<char> {
        match self {
            PlanarHolesCodifferentialMetricKind::RelativeError => "relative_error"@,
            PlanarHolesCodifferentialMetricKind::Leakage => "leakage"@,
        }
    }

    /// The name as it is reported.
    pub fn as_str(self) -> (text: &'static str)
        ensures
            text@ == self.name(),
    {
        match self {
            PlanarHolesCodifferentialMetricKind::RelativeError => "relative_error",
            PlanarHolesCodifferentialMetricKind::Leakage => "leakage",
        }
    }

    /// No two variants have the same name.
    pub proof fn lemma_names_distinct(left: PlanarHolesCodifferentialMetricKind, right: PlanarHolesCodifferentialMetricKind)
        requires
            left.name() == right.name(),
        ensures
            left == right,
    {
        reveal_strlit("relative_error");
        reveal_strlit("leakage");
        assert("relative_error"@.len() == 14);
        assert("leakage"@.len() == 7);
    }
}

/// Which spectral prior a sparse prior is compared with.
#[derive(Debug, Clone, Copy, PartialEq, Eq, Structural)]
pub enum PlanarHolesPriorEquivalenceSpectralReference {
    Raw,
    EnergyNormalized,
}

impl PlanarHolesPriorEquivalenceSpectralReference {
    /// The name that stands for the variant in tables, labels and paths.
    pub open spec fn name(self) -> Seq<char> {
        match self {
            PlanarHolesPriorEquivalenceSpectralReference::Raw => "spectral_raw"@,
            PlanarHolesPriorEquivalenceSpectralReference::EnergyNormalized => "spectral_energy_normalized"@,
        }
    }

    /// The name as it is reported.
    pub fn as_str(self) -> (text: &'static str)
        ensures
            text@ == self.name(),
    {
        match self {
            PlanarHolesPriorEquivalenceSpectralReference::Raw => "spectral_raw",
            PlanarHolesPriorEquivalenceSpectralReference::EnergyNormalized => "spectral_energy_normalized",
        }
    }

    /// No two variants have the same name.
    pub proof fn lemma_names_distinct(left: PlanarHolesPriorEquivalenceSpectralReference, right: PlanarHolesPriorEquivalenceSpectralReference)
        requires
            left.name() == right.name(),
        ensures
            left == right,
    {
        reveal_strlit("spectral_raw");
        reveal_strlit("spectral_energy_normalized");
        assert("spectral_raw"@.len() == 12);
        assert("spectral_energy_normalized"@.len() == 26);
    }
}

/// A sparse prior that is compared with a spectral one.
#[derive(Debug, Clone, Copy, PartialEq, Eq, Structural)]
pub enum PlanarHolesPriorEquivalenceGmrfVariant {
    SparseLower,
    SparseLowerTraceMatched,
    ExactLower,
    ExactLowerTraceMatched,
    ExactLumped,
    ExactLumpedTraceMatched,
    ExactDense,
    ExactDenseTraceMatched,
    ExactOrdinaryPotentialDense,
    ExactOrdinaryPotentialDenseTraceMatched,
}

impl PlanarHolesPriorEquivalenceGmrfVariant {
    /// The name that stands for the variant in tables, labels and paths.
    pub open spec fn name(self) -> Seq<char> {
        match self {
            PlanarHolesPriorEquivalenceGmrfVariant::SparseLower => "exact_mass_gmrf_sparse_lower"@,
            PlanarHolesPriorEquivalenceGmrfVariant::SparseLowerTraceMatched => "exact_mass_gmrf_sparse_lower_trace_matched"@,
            PlanarHolesPriorEquivalenceGmrfVariant::ExactLower => "exact_mass_gmrf_exact_lower"@,
            PlanarHolesPriorEquivalenceGmrfVariant::ExactLowerTraceMatched => "exact_mass_gmrf_exact_lower_trace_matched"@,
            PlanarHolesPriorEquivalenceGmrfVariant::ExactLumped => "exact_gmrf_lumped_0form"@,
            PlanarHolesPriorEquivalenceGmrfVariant::ExactLumpedTraceMatched => "exact_gmrf_lumped_0form_trace_matched"@,
            PlanarHolesPriorEquivalenceGmrfVariant::ExactDense => "exact_gmrf_dense_0form"@,
            PlanarHolesPriorEquivalenceGmrfVariant::ExactDenseTraceMatched => "exact_gmrf_dense_0form_trace_matched"@,
            PlanarHolesPriorEquivalenceGmrfVariant::ExactOrdinaryPotentialDense => "exact_ordinary_potential_dense_0form"@,
            PlanarHolesPriorEquivalenceGmrfVariant::ExactOrdinaryPotentialDenseTraceMatched => "exact_ordinary_potential_dense_0form_trace_matched"@,
        }
    }

    /// The name as it is reported.
    pub fn as_str(self) -> (text: &'static str)
        ensures
            text@ == self.name(),
    {
        match self {
            PlanarHolesPriorEquivalenceGmrfVariant::SparseLower => "exact_mass_gmrf_sparse_lower",
            PlanarHolesPriorEquivalenceGmrfVariant::SparseLowerTraceMatched => "exact_mass_gmrf_sparse_lower_trace_matched",
            PlanarHolesPriorEquivalenceGmrfVariant::ExactLower => "exact_mass_gmrf_exact_lower",
            PlanarHolesPriorEquivalenceGmrfVariant::ExactLowerTraceMatched => "exact_mass_gmrf_exact_lower_trace_matched",
            PlanarHolesPriorEquivalenceGmrfVariant::ExactLumped => "exact_gmrf_lumped_0form",
            PlanarHolesPriorEquivalenceGmrfVariant::ExactLumpedTraceMatched => "exact_gmrf_lumped_0form_trace_matched",
            PlanarHolesPriorEquivalenceGmrfVariant::ExactDense => "exact_gmrf_dense_0form",
            PlanarHolesPriorEquivalenceGmrfVariant::ExactDenseTraceMatched => "exact_gmrf_dense_0form_trace_matched",
            PlanarHolesPriorEquivalenceGmrfVariant::ExactOrdinaryPotentialDense => "exact_ordinary_potential_dense_0form",
            PlanarHolesPriorEquivalenceGmrfVariant::ExactOrdinaryPotentialDenseTraceMatched => "exact_ordinary_potential_dense_0form_trace_matched",
        }
    }

    /// No two variants have the same name.
    pub proof fn lemma_names_distinct(left: PlanarHolesPriorEquivalenceGmrfVariant, right: PlanarHolesPriorEquivalenceGmrfVariant)
        requires
            left.name() == right.name(),
        ensures
            left == right,
    {
        reveal_strlit("exact_mass_gmrf_sparse_lower");
        reveal_strlit("exact_mass_gmrf_sparse_lower_trace_matched");
        reveal_strlit("exact_mass_gmrf_exact_lower");
        reveal_strlit("exact_mass_gmrf_exact_lower_trace_matched");
        reveal_strlit("exact_gmrf_lumped_0form");
        reveal_strlit("exact_gmrf_lumped_0form_trace_matched");
        reveal_strlit("exact_gmrf_dense_0form");
        reveal_strlit("exact_gmrf_dense_0form_trace_matched");
        reveal_strlit("exact_ordinary_potential_dense_0form");
        reveal_strlit("exact_ordinary_potential_dense_0form_trace_matched");
        assert("exact_mass_gmrf_sparse_lower"@.len() == 28 && "exact_mass_gmrf_sparse_lower"@[6] == 'm');
        assert("exact_mass_gmrf_sparse_lower_trace_matched"@.len() == 42 && "exact_mass_gmrf_sparse_lower_trace_matched"@[6] == 'm');
        assert("exact_mass_gmrf_exact_lower"@.len() == 27 && "exact_mass_gmrf_exact_lower"@[6] == 'm');
        assert("exact_mass_gmrf_exact_lower_trace_matched"@.len() == 41 && "exact_mass_gmrf_exact_lower_trace_matched"@[6] == 'm');
        assert("exact_gmrf_lumped_0form"@.len() == 23 && "exact_gmrf_lumped_0form"@[6] == 'g');
        assert("exact_gmrf_lumped_0form_trace_matched"@.len() == 37 && "exact_gmrf_lumped_0form_trace_matched"@[6] == 'g');
        assert("exact_gmrf_dense_0form"@.len() == 22 && "exact_gmrf_dense_0form"@[6] == 'g');
        assert("exact_gmrf_dense_0form_trace_matched"@.len() == 36 && "exact_gmrf_dense_0form_trace_matched"@[6] == 'g');
        assert("exact_ordinary_potential_dense_0form"@.len() == 36 && "exact_ordinary_potential_dense_0form"@[6] == 'o');
        assert("exact_ordinary_potential_dense_0form_trace_matched"@.len() == 50 && "exact_ordinary_potential_dense_0form_trace_matched"@[6] == 'o');
    }
}

/// What an observation reads, and what it is used for.
#[derive(Debug, Clone, Copy, PartialEq, Eq, PartialOrd, Ord, Structural)]
pub enum PlanarHolesObservationKind {
    Local,
    TrainLoop,
    TrainHarmonicPeriod,
    TrainInteriorLoop,
    TrainLongPath,
    TrainPathHomology,
    HeldoutLocal,
    HeldoutLoop,
    HeldoutHarmonicPeriod,
    HeldoutInteriorLoop,
    HeldoutLongPath,
    HeldoutPathHomology,
    HeldoutPathContrast,
}

impl PlanarHolesObservationKind {
    /// The name that stands for the variant in tables, labels and paths.
    pub open spec fn name(self) -> Seq<char> {
        match self {
            PlanarHolesObservationKind::Local => "local"@,
            PlanarHolesObservationKind::TrainLoop => "train_loop"@,
            PlanarHolesObservationKind::TrainHarmonicPeriod => "train_harmonic_period"@,
            PlanarHolesObservationKind::TrainInteriorLoop => "train_interior_loop"@,
            PlanarHolesObservationKind::TrainLongPath => "train_long_path"@,
            PlanarHolesObservationKind::TrainPathHomology => "train_path_homology"@,
            PlanarHolesObservationKind::HeldoutLocal => "heldout_local"@,
            PlanarHolesObservationKind::HeldoutLoop => "heldout_loop"@,
            PlanarHolesObservationKind::HeldoutHarmonicPeriod => "heldout_harmonic_period"@,
            PlanarHolesObservationKind::HeldoutInteriorLoop => "heldout_interior_loop"@,
            PlanarHolesObservationKind::HeldoutLongPath => "heldout_long_path"@,
            PlanarHolesObservationKind::HeldoutPathHomology => "heldout_path_homology"@,
            PlanarHolesObservationKind::HeldoutPathContrast => "heldout_path_contrast"@,
        }
    }

    /// The name as it is reported.
    pub fn as_str(self) -> (text: &'static str)
        ensures
            text@ == self.name(),
    {
        match self {
            PlanarHolesObservationKind::Local => "local",
            PlanarHolesObservationKind::TrainLoop => "train_loop",
            PlanarHolesObservationKind::TrainHarmonicPeriod => "train_harmonic_period",
            PlanarHolesObservationKind::TrainInteriorLoop => "train_interior_loop",
            PlanarHolesObservationKind::TrainLongPath => "train_long_path",
            PlanarHolesObservationKind::TrainPathHomology => "train_path_homology",
            PlanarHolesObservationKind::HeldoutLocal => "heldout_local",
            PlanarHolesObservationKind::HeldoutLoop => "heldout_loop",
            PlanarHolesObservationKind::HeldoutHarmonicPeriod => "heldout_harmonic_period",
            PlanarHolesObservationKind::HeldoutInteriorLoop => "heldout_interior_loop",
            PlanarHolesObservationKind::HeldoutLongPath => "heldout_long_path",
            PlanarHolesObservationKind::HeldoutPathHomology => "heldout_path_homology",
            PlanarHolesObservationKind::HeldoutPathContrast => "heldout_path_contrast",
        }
    }

    /// No two variants have the same name.
    pub proof fn lemma_names_distinct(left: PlanarHolesObservationKind, right: PlanarHolesObservationKind)
        requires
            left.name() == right.name(),
        ensures
            left == right,
    {
        reveal_strlit("local");
        reveal_strlit("train_loop");
        reveal_strlit("train_harmonic_period");
        reveal_strlit("train_interior_loop");
        reveal_strlit("train_long_path");
        reveal_strlit("train_path_homology");
        reveal_strlit("heldout_local");
        reveal_strlit("heldout_loop");
        reveal_strlit("heldout_harmonic_period");
        reveal_strlit("heldout_interior_loop");
        reveal_strlit("heldout_long_path");
        reveal_strlit("heldout_path_homology");
        reveal_strlit("heldout_path_contrast");
        assert("local"@.len() == 5);
        assert("train_loop"@.len() == 10 && "train_loop"@[9] == 'p');
        assert("train_harmonic_period"@.len() == 21 && "train_harmonic_period"@[9] == 'm' && "train_harmonic_period"@[13] == 'c');
        assert("train_interior_loop"@.len() == 19 && "train_interior_loop"@[9] == 'e' && "train_interior_loop"@[13] == 'r');
        assert("train_long_path"@.len() == 15 && "train_long_path"@[9] == 'g' && "train_long_path"@[13] == 't');
        assert("train_path_homology"@.len() == 19 && "train_path_homology"@[9] == 'h' && "train_path_homology"@[13] == 'm');
        assert("heldout_local"@.len() == 13 && "heldout_local"@[9] == 'o');
        assert("heldout_loop"@.len() == 12 && "heldout_loop"@[9] == 'o');
        assert("heldout_harmonic_period"@.len() == 23 && "heldout_harmonic_period"@[9] == 'a' && "heldout_harmonic_period"@[13] == 'n');
        assert("heldout_interior_loop"@.len() == 21 && "heldout_interior_loop"@[9] == 'n' && "heldout_interior_loop"@[13] == 'i');
        assert("heldout_long_path"@.len() == 17 && "heldout_long_path"@[9] == 'o' && "heldout_long_path"@[13] == 'p');
        assert("heldout_path_homology"@.len() == 21 && "heldout_path_homology"@[9] == 'a' && "heldout_path_homology"@[13] == 'h');
        assert("heldout_path_contrast"@.len() == 21 && "heldout_path_contrast"@[9] == 'a' && "heldout_path_contrast"@[13] == 'c');
    }
}

/// What is read off along a loop.
#[derive(Debug, Clone, Copy, PartialEq, Eq, PartialOrd, Ord, Structural)]
pub enum PlanarHolesLoopFunctionalKind {
    TotalAnnular,
    HarmonicPeriod,
    CoexactAnnular,
}

impl PlanarHolesLoopFunctionalKind {
    /// The name that stands for the variant in tables, labels and paths.
    pub open spec fn name(self) -> Seq<char> {
        match self {
            PlanarHolesLoopFunctionalKind::TotalAnnular => "total_annular"@,
            PlanarHolesLoopFunctionalKind::HarmonicPeriod => "harmonic_period"@,
            PlanarHolesLoopFunctionalKind::CoexactAnnular => "coexact_annular"@,
        }
    }

    /// The name as it is reported.
    pub fn as_str(self) -> (text: &'static str)
        ensures
            text@ == self.name(),
    {
        match self {
            PlanarHolesLoopFunctionalKind::TotalAnnular => "total_annular",
            PlanarHolesLoopFunctionalKind::HarmonicPeriod => "harmonic_period",
            PlanarHolesLoopFunctionalKind::CoexactAnnular => "coexact_annular",
        }
    }

    /// No two variants have the same name.
    pub proof fn lemma_names_distinct(left: PlanarHolesLoopFunctionalKind, right: PlanarHolesLoopFunctionalKind)
        requires
            left.name() == right.name(),
        ensures
            left == right,
    {
        reveal_strlit("total_annular");
        reveal_strlit("harmonic_period");
        reveal_strlit("coexact_annular");
        assert("total_annular"@.len() == 13 && "total_annular"@[0] == 't');
        assert("harmonic_period"@.len() == 15 && "harmonic_period"@[0] == 'h');
        assert("coexact_annular"@.len() == 15 && "coexact_annular"@[0] == 'c');
    }
}

/// The edges over which coverage is averaged.
#[derive(Debug, Clone, Copy, PartialEq, Eq, PartialOrd, Ord, Structural)]
pub enum PlanarHolesFieldCoverageSubset {
    AllEdges,
    HeldoutLocalEdges,
}

impl PlanarHolesFieldCoverageSubset {
    /// The name that stands for the variant in tables, labels and paths.
    pub open spec fn name(self) -> Seq<char> {
        match self {
            PlanarHolesFieldCoverageSubset::AllEdges => "all_edges"@,
            PlanarHolesFieldCoverageSubset::HeldoutLocalEdges => "heldout_local_edges"@,
        }
    }

    /// The name as it is reported.
    pub fn as_str(self) -> (text: &'static str)
        ensures
            text@ == self.name(),
    {
        match self {
            PlanarHolesFieldCoverageSubset::AllEdges => "all_edges",
            PlanarHolesFieldCoverageSubset::HeldoutLocalEdges => "heldout_local_edges",
        }
    }

    /// No two variants have the same name.
    pub proof fn lemma_names_distinct(left: PlanarHolesFieldCoverageSubset, right: PlanarHolesFieldCoverageSubset)
        requires
            left.name() == right.name(),
        ensures
            left == right,
    {
        reveal_strlit("all_edges");
        reveal_strlit("heldout_local_edges");
        assert("all_edges"@.len() == 9);
        assert("heldout_local_edges"@.len() == 19);
    }
}

/// A family of truths that is projected onto spectral modes.
#[derive(Debug, Clone, Copy, PartialEq, Eq, PartialOrd, Ord, Structural)]
pub enum PlanarHolesSpectralTruthFamily {
    SpectralCoexact,
    SparseAnchorCoexact,
    ExactMassCoexactKappa8,
    ExactMassCoexactKappa2,
    StreamfunctionDirichlet,
}

impl PlanarHolesSpectralTruthFamily {
    /// The name that stands for the variant in tables, labels and paths.
    pub open spec fn name(self) -> Seq<char> {
        match self {
            PlanarHolesSpectralTruthFamily::SpectralCoexact => "spectral_coexact"@,
            PlanarHolesSpectralTruthFamily::SparseAnchorCoexact => "sparse_anchor_coexact"@,
            PlanarHolesSpectralTruthFamily::ExactMassCoexactKappa8 => "exact_mass_coexact_kappa_8"@,
            PlanarHolesSpectralTruthFamily::ExactMassCoexactKappa2 => "exact_mass_coexact_kappa_2"@,
            PlanarHolesSpectralTruthFamily::StreamfunctionDirichlet => "streamfunction_dirichlet"@,
        }
    }

    /// The name as it is reported.
    pub fn as_str(self) -> (text: &'static str)
        ensures
            text@ == self.name(),
    {
        match self {
            PlanarHolesSpectralTruthFamily::SpectralCoexact => "spectral_coexact",
            PlanarHolesSpectralTruthFamily::SparseAnchorCoexact => "sparse_anchor_coexact",
            PlanarHolesSpectralTruthFamily::ExactMassCoexactKappa8 => "exact_mass_coexact_kappa_8",
            PlanarHolesSpectralTruthFamily::ExactMassCoexactKappa2 => "exact_mass_coexact_kappa_2",
            PlanarHolesSpectralTruthFamily::StreamfunctionDirichlet => "streamfunction_dirichlet",
        }
    }

    /// All variants, in order.
    pub fn all() -> (all: [PlanarHolesSpectralTruthFamily; 5])
        ensures
            all@ == seq![
                PlanarHolesSpectralTruthFamily::SpectralCoexact,
                PlanarHolesSpectralTruthFamily::SparseAnchorCoexact,
                PlanarHolesSpectralTruthFamily::ExactMassCoexactKappa8,
                PlanarHolesSpectralTruthFamily::ExactMassCoexactKappa2,
                PlanarHolesSpectralTruthFamily::StreamfunctionDirichlet,
            ],
            forall|variant: PlanarHolesSpectralTruthFamily| #[trigger] all@.contains(variant),
            all@.no_duplicates(),
    {
        let all = [
            PlanarHolesSpectralTruthFamily::SpectralCoexact,
            PlanarHolesSpectralTruthFamily::SparseAnchorCoexact,
            PlanarHolesSpectralTruthFamily::ExactMassCoexactKappa8,
            PlanarHolesSpectralTruthFamily::ExactMassCoexactKappa2,
            PlanarHolesSpectralTruthFamily::StreamfunctionDirichlet,
        ];
        proof {
            assert forall|variant: PlanarHolesSpectralTruthFamily| #[trigger] all@.contains(variant) by {
                match variant {
                    PlanarHolesSpectralTruthFamily::SpectralCoexact => {
                        assert(all@[0] == variant);
                    },
                    PlanarHolesSpectralTruthFamily::SparseAnchorCoexact => {
                        assert(all@[1] == variant);
                    },
                    PlanarHolesSpectralTruthFamily::ExactMassCoexactKappa8 => {
                        assert(all@[2] == variant);
                    },
                    PlanarHolesSpectralTruthFamily::ExactMassCoexactKappa2 => {
                        assert(all@[3] == variant);
                    },
                    PlanarHolesSpectralTruthFamily::StreamfunctionDirichlet => {
                        assert(all@[4] == variant);
                    },
                }
            }
        }
        all
    }

    /// No two variants have the same name.
    pub proof fn lemma_names_distinct(left: PlanarHolesSpectralTruthFamily, right: PlanarHolesSpectralTruthFamily)
        requires
            left.name() == right.name(),
        ensures
            left == right,
    {
        reveal_strlit("spectral_coexact");
        reveal_strlit("sparse_anchor_coexact");
        reveal_strlit("exact_mass_coexact_kappa_8");
        reveal_strlit("exact_mass_coexact_kappa_2");
        reveal_strlit("streamfunction_dirichlet");
        assert("spectral_coexact"@.len() == 16);
        assert("sparse_anchor_coexact"@.len() == 21);
        assert("exact_mass_coexact_kappa_8"@.len() == 26 && "exact_mass_coexact_kappa_8"@[25] == '8');
        assert("exact_mass_coexact_kappa_2"@.len() == 26 && "exact_mass_coexact_kappa_2"@[25] == '2');
        assert("streamfunction_dirichlet"@.len() == 24);
    }
}

/// How a budget of observations is spent.
#[derive(Debug, Clone, Copy, PartialEq, Eq, PartialOrd, Ord, Structural)]
pub enum PlanarHolesSensorDesignKind {
    SparseEdges,
    EdgesHolePeriods,
    EdgesSmallInteriorLoops,
    EdgesMultiscaleInteriorLoops,
    EdgesLongPaths,
    Hybrid,
}

impl PlanarHolesSensorDesignKind {
    /// The name that stands for the variant in tables, labels and paths.
    pub open spec fn name(self) -> Seq<char> {
        match self {
            PlanarHolesSensorDesignKind::SparseEdges => "sparse_edges"@,
            PlanarHolesSensorDesignKind::EdgesHolePeriods => "edges_hole_periods"@,
            PlanarHolesSensorDesignKind::EdgesSmallInteriorLoops => "edges_small_interior_loops"@,
            PlanarHolesSensorDesignKind::EdgesMultiscaleInteriorLoops => "edges_multiscale_interior_loops"@,
            PlanarHolesSensorDesignKind::EdgesLongPaths => "edges_long_paths"@,
            PlanarHolesSensorDesignKind::Hybrid => "hybrid_edges_loops_paths_periods"@,
        }
    }

    /// The name as it is reported.
    pub fn as_str(self) -> (text: &'static str)
        ensures
            text@ == self.name(),
    {
        match self {
            PlanarHolesSensorDesignKind::SparseEdges => "sparse_edges",
            PlanarHolesSensorDesignKind::EdgesHolePeriods => "edges_hole_periods",
            PlanarHolesSensorDesignKind::EdgesSmallInteriorLoops => "edges_small_interior_loops",
            PlanarHolesSensorDesignKind::EdgesMultiscaleInteriorLoops => "edges_multiscale_interior_loops",
            PlanarHolesSensorDesignKind::EdgesLongPaths => "edges_long_paths",
            PlanarHolesSensorDesignKind::Hybrid => "hybrid_edges_loops_paths_periods",
        }
    }

    /// All variants, in order.
    pub fn all() -> (all: [PlanarHolesSensorDesignKind; 6])
        ensures
            all@ == seq![
                PlanarHolesSensorDesignKind::SparseEdges,
                PlanarHolesSensorDesignKind::EdgesHolePeriods,
                PlanarHolesSensorDesignKind::EdgesSmallInteriorLoops,
                PlanarHolesSensorDesignKind::EdgesMultiscaleInteriorLoops,
                PlanarHolesSensorDesignKind::EdgesLongPaths,
                PlanarHolesSensorDesignKind::Hybrid,
            ],
            forall|variant: PlanarHolesSensorDesignKind| #[trigger] all@.contains(variant),
            all@.no_duplicates(),
    {
        let all = [
            PlanarHolesSensorDesignKind::SparseEdges,
            PlanarHolesSensorDesignKind::EdgesHolePeriods,
            PlanarHolesSensorDesignKind::EdgesSmallInteriorLoops,
            PlanarHolesSensorDesignKind::EdgesMultiscaleInteriorLoops,
            PlanarHolesSensorDesignKind::EdgesLongPaths,
            PlanarHolesSensorDesignKind::Hybrid,
        ];
        proof {
            assert forall|variant: PlanarHolesSensorDesignKind| #[trigger] all@.contains(variant) by {
                match variant {
                    PlanarHolesSensorDesignKind::SparseEdges => {
                        assert(all@[0] == variant);
                    },
                    PlanarHolesSensorDesignKind::EdgesHolePeriods => {
                        assert(all@[1] == variant);
                    },
                    PlanarHolesSensorDesignKind::EdgesSmallInteriorLoops => {
                        assert(all@[2] == variant);
                    },
                    PlanarHolesSensorDesignKind::EdgesMultiscaleInteriorLoops => {
                        assert(all@[3] == variant);
                    },
                    PlanarHolesSensorDesignKind::EdgesLongPaths => {
                        assert(all@[4] == variant);
                    },
                    PlanarHolesSensorDesignKind::Hybrid => {
                        assert(all@[5] == variant);
                    },
                }
            }
        }
        all
    }

    /// No two variants have the same name.
    pub proof fn lemma_names_distinct(left: PlanarHolesSensorDesignKind, right: PlanarHolesSensorDesignKind)
        requires
            left.name() == right.name(),
        ensures
            left == right,
    {
        reveal_strlit("sparse_edges");
        reveal_strlit("edges_hole_periods");
        reveal_strlit("edges_small_interior_loops");
        reveal_strlit("edges_multiscale_interior_loops");
        reveal_strlit("edges_long_paths");
        reveal_strlit("hybrid_edges_loops_paths_periods");
        assert("sparse_edges"@.len() == 12);
        assert("edges_hole_periods"@.len() == 18);
        assert("edges_small_interior_loops"@.len() == 26);
        assert("edges_multiscale_interior_loops"@.len() == 31);
        assert("edges_long_paths"@.len() == 16);
        assert("hybrid_edges_loops_paths_periods"@.len() == 32);
    }
}

} // verus!
