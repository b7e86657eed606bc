//! What holds of the counts of a design: which kinds of sensors it has, and how large a part of
//! the budget each takes.

use super::designs::{at_most, lines_in, loops_in, paths_in, periods_in};
use super::edge_plans::{half_rounded, train_edge_count, ComparisonStudy};
use super::kinds::PlanarHolesSensorDesignKind;
use super::selection::fraction_count;
use vstd::prelude::*;

verus! {

/// Whether a number is the part of a total that a divisor gives, rounded down.
pub open spec fn is_part(number: nat, total: nat, divisor: nat) -> bool {
    divisor * number <= total < divisor * (number + 1)
}

/// Whether a number is such a part of a budget, but one sensor where the part is less than that
/// and the budget has room for any.
pub open spec fn is_share(number: nat, total: nat, divisor: nat) -> bool {
    if total >= divisor {
        is_part(number, total, divisor)
    } else {
        total > 0 <==> number == 1
    }
}

/// Which sensors besides edges a design has, and how many: a sixth of the budget as small loops, a
/// quarter as loops of several sizes, a sixth as long paths, or the periods of the holes as far as
/// the budget goes; a hybrid design has a fifth as loops, an eighth as paths, and the periods.
pub proof fn lemma_design_sensors(
    design: PlanarHolesSensorDesignKind,
    total: nat,
    harmonic_periods: nat,
)
    ensures
        ({
            let loops = loops_in(design, total);
            let paths = paths_in(design, total);
            let periods = periods_in(design, total, harmonic_periods);
            &&& lines_in(design, total, harmonic_periods) == loops + paths + periods
            &&& loops > 0 ==> design is EdgesSmallInteriorLoops
                || design is EdgesMultiscaleInteriorLoops || design is Hybrid
            &&& paths > 0 ==> design is EdgesLongPaths || design is Hybrid
            &&& periods > 0 ==> design is EdgesHolePeriods || design is Hybrid
            &&& design is EdgesSmallInteriorLoops ==> is_share(loops, total, 6)
            &&& design is EdgesMultiscaleInteriorLoops ==> is_share(loops, total, 4)
            &&& design is EdgesLongPaths ==> is_share(paths, total, 6)
            &&& design is Hybrid ==> is_part(loops, total, 5) && is_part(paths, total, 8)
            &&& design is EdgesHolePeriods || design is Hybrid ==> periods <= harmonic_periods
                && periods <= total && (periods == harmonic_periods || periods == total)
            &&& loops <= total && paths <= total
        }),
{
}

/// A larger budget asks for no fewer sensors of any kind.
pub proof fn lemma_budget_grows(
    design: PlanarHolesSensorDesignKind,
    total: nat,
    more: nat,
    harmonic_periods: nat,
)
    requires
        total <= more,
    ensures
        loops_in(design, total) <= loops_in(design, more),
        paths_in(design, total) <= paths_in(design, more),
        periods_in(design, total, harmonic_periods) <= periods_in(design, more, harmonic_periods),
{
}

/// The smaller of two numbers is one of them, and not above the other.
pub proof fn lemma_at_most(value: nat, limit: nat)
    ensures
        at_most(value, limit) <= value,
        at_most(value, limit) <= limit,
        at_most(value, limit) == value || at_most(value, limit) == limit,
        at_most(value, limit) == at_most(limit, value),
{
}

/// Half of the candidates are those that are drawn, rounded up; what is left is as many, or one
/// less.
pub proof fn lemma_half_is_drawn(available: nat)
    ensures
        ({
            let drawn = fraction_count(half_rounded(available), available);
            &&& drawn <= available
            &&& drawn == available - drawn || drawn == available - drawn + 1
        }),
{
}

/// A fraction draws what is asked for, but at least one candidate where there is any, and never
/// more than there are.
pub proof fn lemma_fraction_is_drawn(rounded: nat, available: nat)
    ensures
        fraction_count(rounded, available) <= available,
        available > 0 ==> fraction_count(rounded, available) > 0,
        1 <= rounded <= available ==> fraction_count(rounded, available) == rounded,
        rounded > available ==> fraction_count(rounded, available) == available,
{
}

/// The topology study trains on edges for what the lines of a hybrid design leave of the budget;
/// edges and lines together spend it. The other studies train on as many edges as the budget says.
pub proof fn lemma_train_edges_spend_budget(study: ComparisonStudy, budget: nat, hole_count: nat)
    ensures
        study is Topology ==> {
            let lines = lines_in(PlanarHolesSensorDesignKind::Hybrid, budget, hole_count);
            let edges = train_edge_count(study, budget, hole_count);
            if lines <= budget {
                edges + lines == budget
            } else {
                edges == 0
            }
        },
        !(study is Topology) ==> train_edge_count(study, budget, hole_count) == budget,
{
}

} // verus!
