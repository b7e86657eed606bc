//! How a budget of observations is spread over kinds of sensors.

use super::kinds::PlanarHolesSensorDesignKind;
use vstd::prelude::*;

verus! {

/// How many sensors of each kind a design asks for.
#[derive(Debug, Clone, Copy, PartialEq, Eq, Structural)]
pub struct SensorDesignCounts {
    pub edge_count: usize,
    pub interior_loop_count: usize,
    pub long_path_count: usize,
    pub harmonic_period_count: usize,
}

/// The smaller of two numbers.
pub open spec fn at_most(value: nat, limit: nat) -> nat {
    if value < limit {
        value
    } else {
        limit
    }
}

/// The share of a budget: a part of it, at least one, but not more than the budget.
pub open spec fn share(total: nat, parts: nat) -> nat {
    at_most(
        if total / parts > 1 {
            total / parts
        } else {
            1
        },
        total,
    )
}

/// The number of interior loops in a design.
pub open spec fn loops_in(design: PlanarHolesSensorDesignKind, total: nat) -> nat {
    match design {
        PlanarHolesSensorDesignKind::EdgesSmallInteriorLoops => share(total, 6),
        PlanarHolesSensorDesignKind::EdgesMultiscaleInteriorLoops => share(total, 4),
        PlanarHolesSensorDesignKind::Hybrid => total / 5,
        _ => 0,
    }
}

/// The number of long paths in a design.
pub open spec fn paths_in(design: PlanarHolesSensorDesignKind, total: nat) -> nat {
    match design {
        PlanarHolesSensorDesignKind::EdgesLongPaths => share(total, 6),
        PlanarHolesSensorDesignKind::Hybrid => total / 8,
        _ => 0,
    }
}

/// The number of harmonic periods in a design.
pub open spec fn periods_in(
    design: PlanarHolesSensorDesignKind,
    total: nat,
    harmonic_periods: nat,
) -> nat {
    match design {
        PlanarHolesSensorDesignKind::EdgesHolePeriods
        | PlanarHolesSensorDesignKind::Hybrid => at_most(harmonic_periods, total),
        _ => 0,
    }
}

/// The number of sensors in a design that are not edges.
pub open spec fn lines_in(
    design: PlanarHolesSensorDesignKind,
    total: nat,
    harmonic_periods: nat,
) -> nat {
    periods_in(design, total, harmonic_periods) + loops_in(design, total) + paths_in(design, total)
}

/// Spreads a budget over the kinds of sensors that a design has. What the other kinds leave of
/// the budget goes to edges.
pub fn sensor_design_counts(
    design: PlanarHolesSensorDesignKind,
    total: usize,
    harmonic_periods: usize,
) -> (counts: SensorDesignCounts)
    requires
        lines_in(design, total as nat, harmonic_periods as nat) <= usize::MAX,
    ensures
        counts.interior_loop_count == loops_in(design, total as nat),
        counts.long_path_count == paths_in(design, total as nat),
        counts.harmonic_period_count == periods_in(design, total as nat, harmonic_periods as nat),
        counts.edge_count == (if lines_in(design, total as nat, harmonic_periods as nat) <= total {
            total - lines_in(design, total as nat, harmonic_periods as nat)
        } else {
            0
        }),
{
    let periods: usize = if harmonic_periods < total {
        harmonic_periods
    } else {
        total
    };
    match design {
        PlanarHolesSensorDesignKind::SparseEdges => SensorDesignCounts {
            edge_count: total,
            interior_loop_count: 0,
            long_path_count: 0,
            harmonic_period_count: 0,
        },
        PlanarHolesSensorDesignKind::EdgesHolePeriods => SensorDesignCounts {
            edge_count: total - periods,
            interior_loop_count: 0,
            long_path_count: 0,
            harmonic_period_count: periods,
        },
        PlanarHolesSensorDesignKind::EdgesSmallInteriorLoops => {
            let loops: usize = budget_share(total, 6);
            SensorDesignCounts {
                edge_count: total - loops,
                interior_loop_count: loops,
                long_path_count: 0,
                harmonic_period_count: 0,
            }
        },
        PlanarHolesSensorDesignKind::EdgesMultiscaleInteriorLoops => {
            let loops: usize = budget_share(total, 4);
            SensorDesignCounts {
                edge_count: total - loops,
                interior_loop_count: loops,
                long_path_count: 0,
                harmonic_period_count: 0,
            }
        },
        PlanarHolesSensorDesignKind::EdgesLongPaths => {
            let paths: usize = budget_share(total, 6);
            SensorDesignCounts {
                edge_count: total - paths,
                interior_loop_count: 0,
                long_path_count: paths,
                harmonic_period_count: 0,
            }
        },
        PlanarHolesSensorDesignKind::Hybrid => {
            let loops: usize = total / 5;
            let paths: usize = total / 8;
            let used: usize = periods + loops + paths;
            SensorDesignCounts {
                edge_count: if used <= total {
                    total - used
                } else {
                    0
                },
                interior_loop_count: loops,
                long_path_count: paths,
                harmonic_period_count: periods,
            }
        },
    }
}

fn budget_share(total: usize, parts: usize) -> (result: usize)
    requires
        parts > 0,
    ensures
        result == share(total as nat, parts as nat),
        result <= total,
{
    let part: usize = total / parts;
    let wanted: usize = if part > 1 {
        part
    } else {
        1
    };
    if wanted < total {
        wanted
    } else {
        total
    }
}

/// The counts of a design add up to the budget, as long as the sensors that are not edges fit
/// into it. Only a hybrid design with more periods than its loops and paths leave room for goes
/// over the budget; it then has no edges.
pub proof fn lemma_counts_spend_budget(
    design: PlanarHolesSensorDesignKind,
    total: nat,
    harmonic_periods: nat,
)
    ensures
        design != PlanarHolesSensorDesignKind::Hybrid ==> lines_in(design, total, harmonic_periods)
            <= total,
        at_most(harmonic_periods, total) + total / 5 + total / 8 <= total ==> lines_in(
            design,
            total,
            harmonic_periods,
        ) <= total,
        harmonic_periods <= 3 && total >= 5 ==> lines_in(design, total, harmonic_periods) <= total,
{
}

/// Limits the counts of a design to the sensors that are there.
pub fn available_counts(
    counts: SensorDesignCounts,
    edges: usize,
    interior_loops: usize,
    long_paths: usize,
    harmonic_periods: usize,
) -> (limited: SensorDesignCounts)
    ensures
        limited.edge_count == at_most(counts.edge_count as nat, edges as nat),
        limited.interior_loop_count == at_most(
            counts.interior_loop_count as nat,
            interior_loops as nat,
        ),
        limited.long_path_count == at_most(counts.long_path_count as nat, long_paths as nat),
        limited.harmonic_period_count == at_most(
            counts.harmonic_period_count as nat,
            harmonic_periods as nat,
        ),
{
    SensorDesignCounts {
        edge_count: if counts.edge_count < edges {
            counts.edge_count
        } else {
            edges
        },
        interior_loop_count: if counts.interior_loop_count < interior_loops {
            counts.interior_loop_count
        } else {
            interior_loops
        },
        long_path_count: if counts.long_path_count < long_paths {
            counts.long_path_count
        } else {
            long_paths
        },
        harmonic_period_count: if counts.harmonic_period_count < harmonic_periods {
            counts.harmonic_period_count
        } else {
            harmonic_periods
        },
    }
}

} // verus!
