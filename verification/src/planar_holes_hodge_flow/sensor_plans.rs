//! Which loops, paths and circles the studies use as sensors.

use super::config::{
    PlanarHolesFlowConfig, PlanarHolesSensorDesignSweepConfig, PlanarHolesTopologyVsNaiveGpConfig,
};
use super::designs::{lines_in, loops_in, paths_in, sensor_design_counts};
use super::edge_plans::ComparisonStudy;
use super::grid::PathFamily;
use super::kinds::PlanarHolesSensorDesignKind;
use crate::scalar::Scalar;
use vstd::prelude::*;

verus! {

/// Loops to look for: their radii in thousandths, how many, and how they are drawn and labelled.
#[derive(Debug)]
pub struct LoopPool {
    pub radii: Vec<u32>,
    pub count: usize,
    pub seed: u64,
    pub prefix: &'static str,
}

impl LoopPool {
    /// Whether the pool is the one described.
    pub open spec fn asks(&self, radii: Seq<u32>, count: nat, seed: int, prefix: Seq<char>) -> bool {
        &&& self.radii@ == radii
        &&& self.count == count
        &&& self.seed == seed
        &&& self.prefix@ == prefix
    }
}

/// Paths to look for: which, how many, and how they are drawn and labelled.
#[derive(Debug, Clone, Copy)]
pub struct PathPool {
    pub family: PathFamily,
    pub count: usize,
    pub seed: u64,
    pub prefix: &'static str,
}

impl PathPool {
    /// Whether the pool is the one described.
    pub open spec fn asks(
        &self,
        family: PathFamily,
        count: nat,
        seed: int,
        prefix: Seq<char>,
    ) -> bool {
        &&& self.family == family
        &&& self.count == count
        &&& self.seed == seed
        &&& self.prefix@ == prefix
    }
}

/// Circles around the holes: how much wider than the hole, and at which angle they start.
#[derive(Debug, Clone, Copy)]
pub struct CycleCircle {
    pub radius_offset: Scalar,
    pub angle_offset: Scalar,
    pub name: &'static str,
}

impl CycleCircle {
    /// Whether the circles are the ones described.
    pub open spec fn asks(
        &self,
        radius_offset: Scalar,
        angle_offset: Scalar,
        name: Seq<char>,
    ) -> bool {
        &&& self.radius_offset == radius_offset
        &&& self.angle_offset == angle_offset
        &&& self.name@ == name
    }
}

/// The pools of loops of a sensor sweep: small ones, ones of several sizes, and held-out ones.
pub fn sweep_loop_pools(config: &PlanarHolesSensorDesignSweepConfig) -> (pools: Vec<LoopPool>)
    requires
        config.base.rng_seed + 912 <= u64::MAX,
    ensures
        pools.len() == 3,
        pools@[0].asks(
            seq![55u32],
            config.total_observation_budget as nat,
            config.base.rng_seed + 910,
            "small_loop"@,
        ),
        pools@[1].asks(
            seq![55u32, 95, 135],
            config.total_observation_budget as nat,
            config.base.rng_seed + 911,
            "multiscale_loop"@,
        ),
        pools@[2].asks(
            seq![65u32, 105, 145],
            config.heldout_interior_loop_count as nat,
            config.base.rng_seed + 912,
            "heldout_interior_loop"@,
        ),
{
    let pools = vec![
        LoopPool {
            radii: vec![55],
            count: config.total_observation_budget,
            seed: config.base.rng_seed + 910,
            prefix: "small_loop",
        },
        LoopPool {
            radii: vec![55, 95, 135],
            count: config.total_observation_budget,
            seed: config.base.rng_seed + 911,
            prefix: "multiscale_loop",
        },
        LoopPool {
            radii: vec![65, 105, 145],
            count: config.heldout_interior_loop_count,
            seed: config.base.rng_seed + 912,
            prefix: "heldout_interior_loop",
        },
    ];
    assert(pools@[0].radii@ =~= seq![55u32]);
    assert(pools@[1].radii@ =~= seq![55u32, 95, 135]);
    assert(pools@[2].radii@ =~= seq![65u32, 105, 145]);
    pools
}

/// The pools of paths of a sensor sweep: for training, and held-out ones.
pub fn sweep_path_pools(config: &PlanarHolesSensorDesignSweepConfig) -> (pools: Vec<PathPool>)
    requires
        config.base.rng_seed + 914 <= u64::MAX,
    ensures
        pools.len() == 2,
        pools@[0].asks(
            PathFamily::Long,
            config.total_observation_budget as nat,
            config.base.rng_seed + 913,
            "long_path"@,
        ),
        pools@[1].asks(
            PathFamily::Long,
            config.heldout_long_path_count as nat,
            config.base.rng_seed + 914,
            "heldout_long_path"@,
        ),
{
    vec![
        PathPool {
            family: PathFamily::Long,
            count: config.total_observation_budget,
            seed: config.base.rng_seed + 913,
            prefix: "long_path",
        },
        PathPool {
            family: PathFamily::Long,
            count: config.heldout_long_path_count,
            seed: config.base.rng_seed + 914,
            prefix: "heldout_long_path",
        },
    ]
}

/// The pools of loops of a comparison study: for training, for validation, and held-out ones.
/// Only the study on the default domain with loops and paths has any.
pub fn study_loop_pools(
    study: ComparisonStudy,
    config: &PlanarHolesTopologyVsNaiveGpConfig,
    hole_count: usize,
) -> (pools: Vec<LoopPool>)
    requires
        study == ComparisonStudy::Topology ==> config.base.rng_seed + 205 <= u64::MAX,
        study == ComparisonStudy::Topology ==> lines_in(
            PlanarHolesSensorDesignKind::Hybrid,
            config.total_observation_budget as nat,
            hole_count as nat,
        ) <= usize::MAX,
    ensures
        study != ComparisonStudy::Topology ==> pools.len() == 0,
        study == ComparisonStudy::Topology ==> {
            &&& pools.len() == 3
            &&& pools@[0].asks(
                seq![55u32, 95, 135],
                loops_in(
                    PlanarHolesSensorDesignKind::Hybrid,
                    config.total_observation_budget as nat,
                ),
                config.base.rng_seed + 203,
                "train_interior_loop"@,
            )
            &&& pools@[1].asks(
                seq![75u32, 115],
                config.validation_interior_loop_count as nat,
                config.base.rng_seed + 204,
                "validation_interior_loop"@,
            )
            &&& pools@[2].asks(
                seq![65u32, 105, 145],
                config.heldout_interior_loop_count as nat,
                config.base.rng_seed + 205,
                "heldout_interior_loop"@,
            )
        },
{
    match study {
        ComparisonStudy::Topology => {
            let counts = sensor_design_counts(
                PlanarHolesSensorDesignKind::Hybrid,
                config.total_observation_budget,
                hole_count,
            );
            let pools = vec![
                LoopPool {
                    radii: vec![55, 95, 135],
                    count: counts.interior_loop_count,
                    seed: config.base.rng_seed + 203,
                    prefix: "train_interior_loop",
                },
                LoopPool {
                    radii: vec![75, 115],
                    count: config.validation_interior_loop_count,
                    seed: config.base.rng_seed + 204,
                    prefix: "validation_interior_loop",
                },
                LoopPool {
                    radii: vec![65, 105, 145],
                    count: config.heldout_interior_loop_count,
                    seed: config.base.rng_seed + 205,
                    prefix: "heldout_interior_loop",
                },
            ];
            assert(pools@[0].radii@ =~= seq![55u32, 95, 135]);
            assert(pools@[1].radii@ =~= seq![75u32, 115]);
            assert(pools@[2].radii@ =~= seq![65u32, 105, 145]);
            pools
        },
        _ => Vec::new(),
    }
}

/// The pools of paths of a comparison study: for training, for validation, and held-out ones on
/// the default domain; for validation left of the barrier, and held-out ones across it, on the
/// domain with a barrier.
pub fn study_path_pools(
    study: ComparisonStudy,
    config: &PlanarHolesTopologyVsNaiveGpConfig,
    hole_count: usize,
) -> (pools: Vec<PathPool>)
    requires
        study == ComparisonStudy::Topology ==> config.base.rng_seed + 208 <= u64::MAX,
        study == ComparisonStudy::Barrier ==> config.base.rng_seed + 504 <= u64::MAX,
        study == ComparisonStudy::Topology ==> lines_in(
            PlanarHolesSensorDesignKind::Hybrid,
            config.total_observation_budget as nat,
            hole_count as nat,
        ) <= usize::MAX,
    ensures
        match study {
            ComparisonStudy::Topology => {
                &&& pools.len() == 3
                &&& pools@[0].asks(
                    PathFamily::Long,
                    paths_in(
                        PlanarHolesSensorDesignKind::Hybrid,
                        config.total_observation_budget as nat,
                    ),
                    config.base.rng_seed + 206,
                    "train_long_path"@,
                )
                &&& pools@[1].asks(
                    PathFamily::Long,
                    config.validation_long_path_count as nat,
                    config.base.rng_seed + 207,
                    "validation_long_path"@,
                )
                &&& pools@[2].asks(
                    PathFamily::Long,
                    config.heldout_long_path_count as nat,
                    config.base.rng_seed + 208,
                    "heldout_long_path"@,
                )
            },
            ComparisonStudy::Barrier => {
                &&& pools.len() == 2
                &&& pools@[0].asks(
                    (PathFamily::SameSide { low: 120, high: 430 }),
                    config.validation_long_path_count as nat,
                    config.base.rng_seed + 503,
                    "validation_left_path"@,
                )
                &&& pools@[1].asks(
                    PathFamily::CrossBarrier,
                    config.heldout_long_path_count as nat,
                    config.base.rng_seed + 504,
                    "heldout_cross_barrier_path"@,
                )
            },
            ComparisonStudy::PathHomology => pools.len() == 0,
        },
{
    match study {
        ComparisonStudy::Topology => {
            let counts = sensor_design_counts(
                PlanarHolesSensorDesignKind::Hybrid,
                config.total_observation_budget,
                hole_count,
            );
            vec![
                PathPool {
                    family: PathFamily::Long,
                    count: counts.long_path_count,
                    seed: config.base.rng_seed + 206,
                    prefix: "train_long_path",
                },
                PathPool {
                    family: PathFamily::Long,
                    count: config.validation_long_path_count,
                    seed: config.base.rng_seed + 207,
                    prefix: "validation_long_path",
                },
                PathPool {
                    family: PathFamily::Long,
                    count: config.heldout_long_path_count,
                    seed: config.base.rng_seed + 208,
                    prefix: "heldout_long_path",
                },
            ]
        },
        ComparisonStudy::Barrier => vec![
            PathPool {
                family: PathFamily::SameSide { low: 120, high: 430 },
                count: config.validation_long_path_count,
                seed: config.base.rng_seed + 503,
                prefix: "validation_left_path",
            },
            PathPool {
                family: PathFamily::CrossBarrier,
                count: config.heldout_long_path_count,
                seed: config.base.rng_seed + 504,
                prefix: "heldout_cross_barrier_path",
            },
        ],
        ComparisonStudy::PathHomology => Vec::new(),
    }
}

/// The double next to 0.075.
pub const WIDEST_TRAINING_OFFSET: u64 = 0x3fb3_3333_3333_3333;

/// The circles of a flow and of a sensor sweep: for training on the rims of the holes, and
/// held-out ones as configured.
pub fn flow_circles(config: &PlanarHolesFlowConfig) -> (circles: Vec<CycleCircle>)
    ensures
        circles.len() == 2,
        circles@[0].asks(Scalar { bits: 0 }, Scalar { bits: 0 }, "train"@),
        circles@[1].asks(
            config.heldout_loop_radius_offset,
            config.heldout_loop_angle_offset,
            "heldout"@,
        ),
{
    vec![
        CycleCircle {
            radius_offset: Scalar { bits: 0 },
            angle_offset: Scalar { bits: 0 },
            name: "train",
        },
        CycleCircle {
            radius_offset: config.heldout_loop_radius_offset,
            angle_offset: config.heldout_loop_angle_offset,
            name: "heldout",
        },
    ]
}

/// The larger of an offset and the widest offset that is used in training.
pub open spec fn beyond_training(offset: Scalar) -> Scalar {
    let widest = Scalar { bits: WIDEST_TRAINING_OFFSET };
    if offset.nan() || offset.lt(widest) {
        widest
    } else {
        offset
    }
}

/// How far the validation circles of a study lie outside the rims, and where they start: next to
/// 0.045 and a turn of pi/11, 0.008 and pi/13, or 0.030 and pi/11.
pub open spec fn validation_circle(study: ComparisonStudy) -> (Scalar, Scalar) {
    match study {
        ComparisonStudy::Topology => (
            Scalar { bits: 0x3fa7_0a3d_70a3_d70a },
            Scalar { bits: 0x3fd2_4742_6bd4_7de3 },
        ),
        ComparisonStudy::Barrier => (
            Scalar { bits: 0x3f80_624d_d2f1_a9fc },
            Scalar { bits: 0x3fce_eebf_2ca2_ada7 },
        ),
        ComparisonStudy::PathHomology => (
            Scalar { bits: 0x3f9e_b851_eb85_1eb8 },
            Scalar { bits: 0x3fd2_4742_6bd4_7de3 },
        ),
    }
}

/// How far the held-out circles of a study lie outside the rims, and where they start: as
/// configured but beyond the training circles, next to 0.015 and pi/17, or 0.055 and pi/17.
pub open spec fn heldout_circle(study: ComparisonStudy, config: PlanarHolesFlowConfig) -> (
    Scalar,
    Scalar,
) {
    match study {
        ComparisonStudy::Topology => (
            beyond_training(config.heldout_loop_radius_offset),
            config.heldout_loop_angle_offset,
        ),
        ComparisonStudy::Barrier => (
            Scalar { bits: 0x3f8e_b851_eb85_1eb8 },
            Scalar { bits: 0x3fc7_a783_2222_0c53 },
        ),
        ComparisonStudy::PathHomology => (
            Scalar { bits: 0x3fac_28f5_c28f_5c29 },
            Scalar { bits: 0x3fc7_a783_2222_0c53 },
        ),
    }
}

/// The circles of a comparison study: for training, for validation, and held-out ones.
pub fn study_circles(study: ComparisonStudy, config: &PlanarHolesFlowConfig) -> (circles: Vec<
    CycleCircle,
>)
    ensures
        circles.len() == 3,
        circles@[0].asks(Scalar { bits: 0 }, Scalar { bits: 0 }, "train"@),
        circles@[1].asks(validation_circle(study).0, validation_circle(study).1, "validation"@),
        circles@[2].asks(
            heldout_circle(study, *config).0,
            heldout_circle(study, *config).1,
            "heldout"@,
        ),
{
    let validation: (Scalar, Scalar) = match study {
        ComparisonStudy::Topology => (
            Scalar { bits: 0x3fa7_0a3d_70a3_d70a },
            Scalar { bits: 0x3fd2_4742_6bd4_7de3 },
        ),
        ComparisonStudy::Barrier => (
            Scalar { bits: 0x3f80_624d_d2f1_a9fc },
            Scalar { bits: 0x3fce_eebf_2ca2_ada7 },
        ),
        ComparisonStudy::PathHomology => (
            Scalar { bits: 0x3f9e_b851_eb85_1eb8 },
            Scalar { bits: 0x3fd2_4742_6bd4_7de3 },
        ),
    };
    let heldout: (Scalar, Scalar) = match study {
        ComparisonStudy::Topology => {
            let widest = Scalar { bits: WIDEST_TRAINING_OFFSET };
            let offset: Scalar = config.heldout_loop_radius_offset;
            (
                if offset.is_nan() || offset.less_than(widest) {
                    widest
                } else {
                    offset
                },
                config.heldout_loop_angle_offset,
            )
        },
        ComparisonStudy::Barrier => (
            Scalar { bits: 0x3f8e_b851_eb85_1eb8 },
            Scalar { bits: 0x3fc7_a783_2222_0c53 },
        ),
        ComparisonStudy::PathHomology => (
            Scalar { bits: 0x3fac_28f5_c28f_5c29 },
            Scalar { bits: 0x3fc7_a783_2222_0c53 },
        ),
    };
    vec![
        CycleCircle {
            radius_offset: Scalar { bits: 0 },
            angle_offset: Scalar { bits: 0 },
            name: "train",
        },
        CycleCircle {
            radius_offset: validation.0,
            angle_offset: validation.1,
            name: "validation",
        },
        CycleCircle { radius_offset: heldout.0, angle_offset: heldout.1, name: "heldout" },
    ]
}

/// Further validation circles of the study on the default domain, at offsets next to 0.030 and
/// 0.060 and turns of pi/7 and pi/5.
pub fn extra_validation_circles() -> (circles: Vec<CycleCircle>)
    ensures
        circles.len() == 2,
        circles@[0].asks(
            Scalar { bits: 0x3f9e_b851_eb85_1eb8 },
            Scalar { bits: 0x3fdc_b91f_3bbb_a140 },
            "validation_inner"@,
        ),
        circles@[1].asks(
            Scalar { bits: 0x3fae_b851_eb85_1eb8 },
            Scalar { bits: 0x3fe4_1b2f_769c_f0e0 },
            "validation_outer"@,
        ),
{
    vec![
        CycleCircle {
            radius_offset: Scalar { bits: 0x3f9e_b851_eb85_1eb8 },
            angle_offset: Scalar { bits: 0x3fdc_b91f_3bbb_a140 },
            name: "validation_inner",
        },
        CycleCircle {
            radius_offset: Scalar { bits: 0x3fae_b851_eb85_1eb8 },
            angle_offset: Scalar { bits: 0x3fe4_1b2f_769c_f0e0 },
            name: "validation_outer",
        },
    ]
}

/// Further held-out circles of the study on the default domain, at offsets next to 0.025, 0.050
/// and 0.080 and turns of pi/8, pi/10 and pi/13.
pub fn extra_heldout_circles() -> (circles: Vec<CycleCircle>)
    ensures
        circles.len() == 3,
        circles@[0].asks(
            Scalar { bits: 0x3f99_9999_9999_999a },
            Scalar { bits: 0x3fd9_21fb_5444_2d18 },
            "heldout_inner"@,
        ),
        circles@[1].asks(
            Scalar { bits: 0x3fa9_9999_9999_999a },
            Scalar { bits: 0x3fd4_1b2f_769c_f0e0 },
            "heldout_middle"@,
        ),
        circles@[2].asks(
            Scalar { bits: 0x3fb4_7ae1_47ae_147b },
            Scalar { bits: 0x3fce_eebf_2ca2_ada7 },
            "heldout_outer"@,
        ),
{
    vec![
        CycleCircle {
            radius_offset: Scalar { bits: 0x3f99_9999_9999_999a },
            angle_offset: Scalar { bits: 0x3fd9_21fb_5444_2d18 },
            name: "heldout_inner",
        },
        CycleCircle {
            radius_offset: Scalar { bits: 0x3fa9_9999_9999_999a },
            angle_offset: Scalar { bits: 0x3fd4_1b2f_769c_f0e0 },
            name: "heldout_middle",
        },
        CycleCircle {
            radius_offset: Scalar { bits: 0x3fb4_7ae1_47ae_147b },
            angle_offset: Scalar { bits: 0x3fce_eebf_2ca2_ada7 },
            name: "heldout_outer",
        },
    ]
}

/// The circles that the pairs of paths around the holes follow: for training, for validation, and
/// two held-out families, at offsets next to 0.025, 0.040, 0.035 and 0.060 and turns of 0, pi/10,
/// pi/5 and -pi/8.
pub fn path_homology_circles() -> (circles: Vec<CycleCircle>)
    ensures
        circles.len() == 4,
        circles@[0].asks(
            Scalar { bits: 0x3f99_9999_9999_999a },
            Scalar { bits: 0 },
            "train_path_family"@,
        ),
        circles@[1].asks(
            Scalar { bits: 0x3fa4_7ae1_47ae_147b },
            Scalar { bits: 0x3fd4_1b2f_769c_f0e0 },
            "validation_path_family"@,
        ),
        circles@[2].asks(
            Scalar { bits: 0x3fa1_eb85_1eb8_51ec },
            Scalar { bits: 0x3fe4_1b2f_769c_f0e0 },
            "heldout_path_family_a"@,
        ),
        circles@[3].asks(
            Scalar { bits: 0x3fae_b851_eb85_1eb8 },
            Scalar { bits: 0xbfd9_21fb_5444_2d18 },
            "heldout_path_family_b"@,
        ),
{
    vec![
        CycleCircle {
            radius_offset: Scalar { bits: 0x3f99_9999_9999_999a },
            angle_offset: Scalar { bits: 0 },
            name: "train_path_family",
        },
        CycleCircle {
            radius_offset: Scalar { bits: 0x3fa4_7ae1_47ae_147b },
            angle_offset: Scalar { bits: 0x3fd4_1b2f_769c_f0e0 },
            name: "validation_path_family",
        },
        CycleCircle {
            radius_offset: Scalar { bits: 0x3fa1_eb85_1eb8_51ec },
            angle_offset: Scalar { bits: 0x3fe4_1b2f_769c_f0e0 },
            name: "heldout_path_family_a",
        },
        CycleCircle {
            radius_offset: Scalar { bits: 0x3fae_b851_eb85_1eb8 },
            angle_offset: Scalar { bits: 0xbfd9_21fb_5444_2d18 },
            name: "heldout_path_family_b",
        },
    ]
}

} // verus!
