//! The course of a sensor sweep: every design with every model, and what is reported of them.

use crate::planar_holes_hodge_flow::comparison::continues;
use crate::planar_holes_hodge_flow::config::PlanarHolesSensorDesignSweepConfig;
use crate::planar_holes_hodge_flow::designs::SensorDesignCounts;
use crate::planar_holes_hodge_flow::kinds::{PlanarHolesModelKind, PlanarHolesSensorDesignKind};
use crate::planar_holes_hodge_flow::models::{lemma_planned_models, planned, planned_models};
use crate::planar_holes_hodge_flow::reports::{
    reports_sweep, sensor_design_sweep_row, SweepErrors,
};
use crate::planar_holes_hodge_flow::tables::{
    PlanarHolesFieldCoverageSummary, PlanarHolesSensorDesignSweepRow,
};
use crate::scalar::Scalar;
use vstd::prelude::*;

verus! {

/// A design with a model that is conditioned on its observations.
#[derive(Debug, Clone, Copy, PartialEq, Eq, Structural)]
pub struct SweepCase {
    pub design: PlanarHolesSensorDesignKind,
    pub model: PlanarHolesModelKind,
    /// Whether it is the first case of its design, so that the observations are taken anew.
    pub opens_design: bool,
}

/// What conditioning a model on the observations of a design gave.
#[derive(Debug)]
pub struct SweepOutcome {
    pub coexact_tau_scale: Scalar,
    /// The observations that the design asks for.
    pub counts: SensorDesignCounts,
    /// The observations that were made.
    pub observation_count: usize,
    pub errors: SweepErrors,
    pub coverage: Vec<PlanarHolesFieldCoverageSummary>,
}

/// A sensor sweep under way.
#[derive(Debug)]
pub struct SweepRun {
    pub designs: Vec<PlanarHolesSensorDesignKind>,
    pub models: Vec<PlanarHolesModelKind>,
    pub rows: Vec<PlanarHolesSensorDesignSweepRow>,
}

/// The case of a given number: the models vary fastest.
pub open spec fn case_at(
    designs: Seq<PlanarHolesSensorDesignKind>,
    models: Seq<PlanarHolesModelKind>,
    number: int,
) -> SweepCase {
    SweepCase {
        design: designs[number / models.len() as int],
        model: models[number % models.len() as int],
        opens_design: number % models.len() as int == 0,
    }
}

/// A number below the product of two counts splits into a place below each of them.
proof fn lemma_split(number: int, outer: int, inner: int)
    requires
        0 <= number < outer * inner,
        0 < inner,
    ensures
        0 <= number / inner < outer,
        0 <= number % inner < inner,
{
    assert(0 <= number / inner && number == (number / inner) * inner + number % inner && 0 <= number
        % inner < inner) by (nonlinear_arith)
        requires
            0 <= number,
            0 < inner,
    ;
    let quotient = number / inner;
    assert(quotient < outer) by (nonlinear_arith)
        requires
            quotient * inner <= number,
            number < outer * inner,
            0 < inner,
    ;
}

/// Copies a list of designs.
fn copy_designs(designs: &Vec<PlanarHolesSensorDesignKind>) -> (copy: Vec<
    PlanarHolesSensorDesignKind,
>)
    ensures
        copy@ == designs@,
{
    let mut copy: Vec<PlanarHolesSensorDesignKind> = Vec::new();
    while copy.len() < designs.len()
        invariant
            copy.len() <= designs.len(),
            forall|i: int| 0 <= i < copy.len() ==> #[trigger] copy@[i] == designs@[i],
        decreases designs.len() - copy.len(),
    {
        let next: usize = copy.len();
        copy.push(designs[next]);
    }
    assert(copy@ =~= designs@);
    copy
}

impl SweepRun {
    /// The number of cases.
    pub open spec fn case_count(&self) -> int {
        (self.designs.len() * self.models.len()) as int
    }

    /// Whether there are models, the cases can be counted, and the rows belong to the first cases
    /// in their order.
    pub open spec fn wf(&self) -> bool {
        &&& self.models.len() > 0
        &&& self.rows.len() <= self.case_count() <= usize::MAX
        &&& forall|i: int|
            0 <= i < self.rows.len() ==> {
                let case = case_at(self.designs@, self.models@, i);
                &&& (#[trigger] self.rows@[i]).design == case.design
                &&& self.rows@[i].model == case.model
            }
    }

    /// Sets out on a sweep over the designs of a configuration, with all models that it asks for.
    pub fn new(config: &PlanarHolesSensorDesignSweepConfig) -> (run: Self)
        requires
            config.designs.len() * planned(config.base).len() <= usize::MAX,
        ensures
            run.wf(),
            run.designs@ == config.designs@,
            run.models@ == planned(config.base),
            run.rows.len() == 0,
    {
        proof {
            lemma_planned_models(config.base);
        }
        let run = SweepRun {
            designs: copy_designs(&config.designs),
            models: planned_models(&config.base),
            rows: Vec::new(),
        };
        assert(0 <= run.designs.len() * run.models.len()) by (nonlinear_arith);
        run
    }

    /// The case that is next, where there is one.
    pub fn next_case(&self) -> (case: Option<SweepCase>)
        requires
            self.wf(),
        ensures
            case == (if self.rows.len() < self.case_count() {
                Some(case_at(self.designs@, self.models@, self.rows.len() as int))
            } else {
                None
            }),
    {
        let number: usize = self.rows.len();
        if number < self.designs.len() * self.models.len() {
            proof {
                lemma_split(number as int, self.designs.len() as int, self.models.len() as int);
            }
            let place: usize = number % self.models.len();
            Some(
                SweepCase {
                    design: self.designs[number / self.models.len()],
                    model: self.models[place],
                    opens_design: place == 0,
                },
            )
        } else {
            None
        }
    }

    /// Takes in what the case that was next gave, and reports it.
    pub fn record_case(&mut self, outcome: SweepOutcome)
        requires
            old(self).wf(),
            old(self).rows.len() < old(self).case_count(),
        ensures
            final(self).wf(),
            final(self).designs@ == old(self).designs@,
            final(self).models@ == old(self).models@,
            final(self).rows.len() == old(self).rows.len() + 1,
            continues(old(self).rows@, final(self).rows@),
            ({
                let case = case_at(old(self).designs@, old(self).models@, old(self).rows.len() as int);
                reports_sweep(
                    case.design,
                    case.model,
                    outcome.coexact_tau_scale,
                    outcome.counts,
                    outcome.observation_count,
                    outcome.errors,
                    outcome.coverage@,
                    final(self).rows@.last(),
                )
            }),
    {
        let ghost before = self.rows@;
        let number: usize = self.rows.len();
        proof {
            lemma_split(number as int, self.designs.len() as int, self.models.len() as int);
        }
        let row = sensor_design_sweep_row(
            self.designs[number / self.models.len()],
            self.models[number % self.models.len()],
            outcome.coexact_tau_scale,
            outcome.counts,
            outcome.observation_count,
            outcome.errors,
            &outcome.coverage,
        );
        self.rows.push(row);
        assert(self.rows@.take(before.len() as int) =~= before);
    }
}

/// At the end of a sweep every design is reported with every model: the row of a design and a
/// model stands behind those of all earlier designs and of the earlier models.
pub proof fn lemma_sweep_covers_cases(run: SweepRun, design: int, model: int)
    requires
        run.wf(),
        run.rows.len() == run.case_count(),
        0 <= design < run.designs.len(),
        0 <= model < run.models.len(),
    ensures
        design * run.models.len() + model < run.rows.len(),
        run.rows@[design * run.models.len() + model].design == run.designs@[design],
        run.rows@[design * run.models.len() + model].model == run.models@[model],
{
    let inner = run.models.len() as int;
    let outer = run.designs.len() as int;
    let number = design * inner + model;
    assert(0 <= number < outer * inner) by (nonlinear_arith)
        requires
            0 <= design < outer,
            0 <= model < inner,
            number == design * inner + model,
    ;
    assert(number / inner == design && number % inner == model) by (nonlinear_arith)
        requires
            0 <= model < inner,
            number == design * inner + model,
    ;
    let row = run.rows@[number];
}

} // verus!
