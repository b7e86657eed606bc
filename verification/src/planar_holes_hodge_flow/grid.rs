//! Grid points of the unit square that keep their distance from the holes.

use super::holes::PlanarHoleSpec;
use crate::random::{
    after_shuffle, is_permutation, seeded, seeded_generator, shuffled, shuffled_order,
};
use crate::text::{count_text, decimal, three_digit_text, zero_padded};
use rand::rngs::StdRng;
use vstd::prelude::*;

verus! {

/// A point of a square grid: its coordinates are `ix` and `iy` divided by the number of cells
/// along a side.
#[derive(Debug, Clone, Copy, PartialEq, Eq, Structural)]
pub struct GridPoint {
    pub ix: u32,
    pub iy: u32,
}

/// The squared distance of a grid point from the center of a hole, in units of one thousandth of
/// a grid cell.
pub open spec fn squared_distance(point: GridPoint, cells: u32, hole: PlanarHoleSpec) -> int {
    let dx = 1000 * point.ix - cells * hole.center.0;
    let dy = 1000 * point.iy - cells * hole.center.1;
    dx * dx + dy * dy
}

/// Whether a grid point is farther than `clearance` thousandths from the edge of a hole.
pub open spec fn clear_of_hole(
    point: GridPoint,
    cells: u32,
    clearance: u32,
    hole: PlanarHoleSpec,
) -> bool {
    let reach = cells * (hole.radius + clearance);
    squared_distance(point, cells, hole) > reach * reach
}

/// Whether a grid point is at least `margin` thousandths away from the sides of the square.
pub open spec fn clear_of_sides(point: GridPoint, cells: u32, margin: u32) -> bool {
    &&& cells * margin <= 1000 * point.ix <= cells * (1000 - margin)
    &&& cells * margin <= 1000 * point.iy <= cells * (1000 - margin)
}

/// Whether a grid point keeps its distance from the sides and from all holes.
pub open spec fn clear(
    point: GridPoint,
    cells: u32,
    margin: u32,
    clearance: u32,
    holes: Seq<PlanarHoleSpec>,
) -> bool {
    &&& clear_of_sides(point, cells, margin)
    &&& forall|h: int|
        0 <= h < holes.len() ==> clear_of_hole(point, cells, clearance, #[trigger] holes[h])
}

fn is_clear_of_hole(point: GridPoint, cells: u32, clearance: u32, hole: &PlanarHoleSpec) -> (yes:
    bool)
    requires
        cells <= 1000,
    ensures
        yes == clear_of_hole(point, cells, clearance, *hole),
{
    let n: i128 = cells as i128;
    let cx: i128 = hole.center.0 as i128;
    let cy: i128 = hole.center.1 as i128;
    let reach_base: i128 = hole.radius as i128 + clearance as i128;
    proof {
        assert(0 <= n * cx <= 1000 * 0xffff_ffff) by (nonlinear_arith)
            requires
                0 <= n <= 1000,
                0 <= cx <= 0xffff_ffff,
        ;
        assert(0 <= n * cy <= 1000 * 0xffff_ffff) by (nonlinear_arith)
            requires
                0 <= n <= 1000,
                0 <= cy <= 0xffff_ffff,
        ;
        assert(0 <= n * reach_base <= 1000 * 0x2_0000_0000) by (nonlinear_arith)
            requires
                0 <= n <= 1000,
                0 <= reach_base <= 0x2_0000_0000,
        ;
    }
    let dx: i128 = 1000 * (point.ix as i128) - n * cx;
    let dy: i128 = 1000 * (point.iy as i128) - n * cy;
    let reach: i128 = n * reach_base;
    proof {
        assert(0 <= dx * dx <= 0x1_0000_0000_0000 * 0x1_0000_0000_0000) by (nonlinear_arith)
            requires
                -0x1_0000_0000_0000 <= dx <= 0x1_0000_0000_0000,
        ;
        assert(0 <= dy * dy <= 0x1_0000_0000_0000 * 0x1_0000_0000_0000) by (nonlinear_arith)
            requires
                -0x1_0000_0000_0000 <= dy <= 0x1_0000_0000_0000,
        ;
        assert(0 <= reach * reach <= 0x1_0000_0000_0000 * 0x1_0000_0000_0000) by (nonlinear_arith)
            requires
                0 <= reach <= 0x1_0000_0000_0000,
        ;
    }
    dx * dx + dy * dy > reach * reach
}

fn is_clear(
    point: GridPoint,
    cells: u32,
    margin: u32,
    clearance: u32,
    holes: &Vec<PlanarHoleSpec>,
) -> (yes: bool)
    requires
        cells <= 1000,
    ensures
        yes == clear(point, cells, margin, clearance, holes@),
{
    let n: i128 = cells as i128;
    let m: i128 = margin as i128;
    proof {
        assert(0 <= n * m <= 1000 * 0xffff_ffff) by (nonlinear_arith)
            requires
                0 <= n <= 1000,
                0 <= m <= 0xffff_ffff,
        ;
        assert(-1000 * 0xffff_ffff <= n * (1000 - m) <= 1000 * 1000) by (nonlinear_arith)
            requires
                0 <= n <= 1000,
                0 <= m <= 0xffff_ffff,
        ;
    }
    let low: i128 = n * m;
    let high: i128 = n * (1000 - m);
    let x: i128 = 1000 * (point.ix as i128);
    let y: i128 = 1000 * (point.iy as i128);
    if x < low || x > high || y < low || y > high {
        return false;
    }
    let mut index: usize = 0;
    while index < holes.len()
        invariant
            index <= holes.len(),
            cells <= 1000,
            forall|h: int|
                0 <= h < index ==> clear_of_hole(point, cells, clearance, #[trigger] holes@[h]),
        decreases holes.len() - index,
    {
        if !is_clear_of_hole(point, cells, clearance, &holes[index]) {
            assert(!clear_of_hole(point, cells, clearance, holes@[index as int]));
            return false;
        }
        index = index + 1;
    }
    true
}

/// The number of grid cells along a side for the centers of loops and for long paths.
pub const COARSE_CELLS: u32 = 19;

/// The number of grid cells along a side for paths along and across the barrier.
pub const FINE_CELLS: u32 = 25;

/// Whether a loop around the grid point with the given radius keeps its distance from the sides
/// and the holes.
pub open spec fn valid_loop_center(
    point: GridPoint,
    radius: u32,
    holes: Seq<PlanarHoleSpec>,
) -> bool {
    clear(point, COARSE_CELLS, (radius + 45) as u32, (radius + 45) as u32, holes)
}

/// Tests whether a loop around the grid point stays clear of the sides and the holes, so that it
/// can be contracted to a point.
pub fn valid_contractible_loop_center(
    point: GridPoint,
    radius: u32,
    holes: &Vec<PlanarHoleSpec>,
) -> (valid: bool)
    requires
        radius <= 1000,
    ensures
        valid == valid_loop_center(point, radius, holes@),
{
    is_clear(point, COARSE_CELLS, radius + 45, radius + 45, holes)
}

/// Whether a path may end at the grid point.
pub open spec fn valid_endpoint(
    point: GridPoint,
    cells: u32,
    holes: Seq<PlanarHoleSpec>,
) -> bool {
    clear(point, cells, 80, 80, holes)
}

/// Tests whether a path may end at the grid point.
pub fn valid_long_path_endpoint(point: GridPoint, cells: u32, holes: &Vec<PlanarHoleSpec>) -> (valid:
    bool)
    requires
        cells <= 1000,
    ensures
        valid == valid_endpoint(point, cells, holes@),
{
    is_clear(point, cells, 80, 80, holes)
}

/// A loop that keeps its distance from the holes: its center and its radius in thousandths.
#[derive(Debug, Clone, Copy, PartialEq, Eq, Structural)]
pub struct LoopCandidate {
    pub center: GridPoint,
    pub radius: u32,
}

/// The loop of the given number: for each radius in turn, the centers with both coordinates from
/// 2 to 17, column by column.
pub open spec fn nth_loop(radii: Seq<u32>, k: int) -> LoopCandidate {
    LoopCandidate {
        center: GridPoint { ix: (2 + (k / 16) % 16) as u32, iy: (2 + k % 16) as u32 },
        radius: radii[k / 256],
    }
}

/// The loops that keep their distance from the sides and the holes, in order.
pub open spec fn valid_loops(radii: Seq<u32>, holes: Seq<PlanarHoleSpec>) -> Seq<LoopCandidate> {
    Seq::new(256 * radii.len(), |k: int| nth_loop(radii, k)).filter(
        |candidate: LoopCandidate| valid_loop_center(candidate.center, candidate.radius, holes),
    )
}

/// Lists the loops that keep their distance from the sides and the holes.
pub fn contractible_loop_candidates(radii: &Vec<u32>, holes: &Vec<PlanarHoleSpec>) -> (candidates:
    Vec<LoopCandidate>)
    requires
        forall|r: int| 0 <= r < radii.len() ==> #[trigger] radii@[r] <= 1000,
        256 * radii.len() <= usize::MAX,
    ensures
        candidates@ == valid_loops(radii@, holes@),
{
    let total: usize = 256 * radii.len();
    let ghost all = Seq::new(256 * radii@.len(), |k: int| nth_loop(radii@, k));
    let ghost valid = |candidate: LoopCandidate|
        valid_loop_center(candidate.center, candidate.radius, holes@);
    let mut candidates: Vec<LoopCandidate> = Vec::new();
    let mut k: usize = 0;
    proof {
        reveal(Seq::filter);
        assert(all.take(0).filter(valid) =~= Seq::<LoopCandidate>::empty());
    }
    while k < total
        invariant
            k <= total,
            total == 256 * radii.len(),
            forall|r: int| 0 <= r < radii.len() ==> #[trigger] radii@[r] <= 1000,
            all == Seq::new(256 * radii@.len(), |k: int| nth_loop(radii@, k)),
            valid == (|candidate: LoopCandidate|
                valid_loop_center(candidate.center, candidate.radius, holes@)),
            candidates@ == all.take(k as int).filter(valid),
        decreases total - k,
    {
        let radius: u32 = radii[k / 256];
        assert(radii@[k as int / 256] <= 1000);
        let center = GridPoint { ix: (2 + (k / 16) % 16) as u32, iy: (2 + k % 16) as u32 };
        let candidate = LoopCandidate { center, radius };
        proof {
            reveal(Seq::filter);
            assert(all[k as int] == candidate);
            assert(all.take(k + 1).drop_last() =~= all.take(k as int));
            assert(all.take(k + 1).last() == candidate);
        }
        if valid_contractible_loop_center(center, radius, holes) {
            candidates.push(candidate);
        }
        k = k + 1;
    }
    assert(all.take(k as int) =~= all);
    candidates
}

/// The items in the given order.
pub open spec fn arranged<T>(items: Seq<T>, order: Seq<usize>) -> Seq<T> {
    Seq::new(order.len(), |i: int| items[order[i] as int])
}

/// Puts the items in the given order.
pub fn arrange<T: Copy>(items: &Vec<T>, order: &Vec<usize>) -> (result: Vec<T>)
    requires
        is_permutation(order@, items.len() as nat),
    ensures
        result@ == arranged(items@, order@),
{
    let mut result: Vec<T> = Vec::new();
    let mut index: usize = 0;
    while index < order.len()
        invariant
            index <= order.len(),
            is_permutation(order@, items.len() as nat),
            result.len() == index,
            forall|i: int| 0 <= i < index ==> #[trigger] result@[i] == items@[order@[i] as int],
        decreases order.len() - index,
    {
        assert(order@[index as int] < items.len());
        result.push(items[order[index]]);
        index = index + 1;
    }
    assert(result@ =~= arranged(items@, order@));
    result
}

/// Lists the loops that keep their distance from the sides and the holes in a random order, and
/// hands on the generator that shuffled them.
pub fn shuffled_loop_candidates(radii: &Vec<u32>, holes: &Vec<PlanarHoleSpec>, seed: u64) -> (result:
    (Vec<LoopCandidate>, StdRng))
    requires
        forall|r: int| 0 <= r < radii.len() ==> #[trigger] radii@[r] <= 1000,
        256 * radii.len() <= usize::MAX,
    ensures
        result.0@ == arranged(
            valid_loops(radii@, holes@),
            shuffled(seeded(seed), valid_loops(radii@, holes@).len()),
        ),
        is_permutation(
            shuffled(seeded(seed), valid_loops(radii@, holes@).len()),
            valid_loops(radii@, holes@).len(),
        ),
        result.1 == after_shuffle(seeded(seed), valid_loops(radii@, holes@).len()),
{
    let mut generator = seeded_generator(seed);
    let candidates = contractible_loop_candidates(radii, holes);
    let order = shuffled_order(candidates.len(), &mut generator);
    let result = arrange(&candidates, &order);
    (result, generator)
}

/// Which long paths are looked for.
#[derive(Debug, Clone, Copy, PartialEq, Eq, Structural)]
pub enum PathFamily {
    /// Paths between any two points far from each other.
    Long,
    /// Paths within a vertical strip, given in thousandths, between points far above each other.
    SameSide { low: u32, high: u32 },
    /// Paths from one side of the barrier to the other.
    CrossBarrier,
}

impl PathFamily {
    /// The number of grid cells along a side.
    pub open spec fn cells(self) -> u32 {
        match self {
            PathFamily::Long => COARSE_CELLS,
            _ => FINE_CELLS,
        }
    }

    /// The number of grid points along a side; the first coordinate is 2.
    pub open spec fn side(self) -> int {
        match self {
            PathFamily::Long => 16,
            _ => 22,
        }
    }

    /// Whether a path of the family may end at the point.
    pub open spec fn admits(self, point: GridPoint) -> bool {
        match self {
            PathFamily::Long => true,
            PathFamily::SameSide { low, high } => FINE_CELLS * low <= 1000 * point.ix
                <= FINE_CELLS * high,
            PathFamily::CrossBarrier => left_of_barrier(point) || right_of_barrier(point),
        }
    }

    /// Whether a path of the family may join the two points.
    pub open spec fn joins(self, start: GridPoint, end: GridPoint) -> bool {
        let dx = start.ix - end.ix;
        let dy = start.iy - end.iy;
        match self {
            PathFamily::Long => 10000 * (dx * dx + dy * dy) >= (55 * COARSE_CELLS) * (55
                * COARSE_CELLS),
            PathFamily::SameSide { .. } => 100 * distance(dy) >= 35 * FINE_CELLS,
            PathFamily::CrossBarrier => ((left_of_barrier(start) && right_of_barrier(end)) || (
            right_of_barrier(start) && left_of_barrier(end))) && 100 * distance(dy) <= 55
                * FINE_CELLS,
        }
    }

    fn admits_point(self, point: GridPoint) -> (yes: bool)
        ensures
            yes == self.admits(point),
    {
        match self {
            PathFamily::Long => true,
            PathFamily::SameSide { low, high } => {
                let x: u64 = 1000 * (point.ix as u64);
                25 * (low as u64) <= x && x <= 25 * (high as u64)
            },
            PathFamily::CrossBarrier => is_left_of_barrier(point) || is_right_of_barrier(point),
        }
    }

    fn joins_points(self, start: GridPoint, end: GridPoint) -> (yes: bool)
        requires
            start.ix <= 1000,
            start.iy <= 1000,
            end.ix <= 1000,
            end.iy <= 1000,
        ensures
            yes == self.joins(start, end),
    {
        let dx: i64 = start.ix as i64 - end.ix as i64;
        let dy: i64 = start.iy as i64 - end.iy as i64;
        let rise: i64 = if dy < 0 {
            -dy
        } else {
            dy
        };
        match self {
            PathFamily::Long => {
                assert(0 <= dx * dx <= 1000000) by (nonlinear_arith)
                    requires
                        -1000 <= dx <= 1000,
                ;
                assert(0 <= dy * dy <= 1000000) by (nonlinear_arith)
                    requires
                        -1000 <= dy <= 1000,
                ;
                10000 * (dx * dx + dy * dy) >= 1045 * 1045
            },
            PathFamily::SameSide { .. } => 100 * rise >= 875,
            PathFamily::CrossBarrier => {
                ((is_left_of_barrier(start) && is_right_of_barrier(end)) || (is_right_of_barrier(
                    start,
                ) && is_left_of_barrier(end))) && 100 * rise <= 1375
            },
        }
    }
}

/// The absolute value.
pub open spec fn distance(difference: int) -> int {
    if difference < 0 {
        -difference
    } else {
        difference
    }
}

/// Whether a point of the fine grid lies at most three tenths to the right.
pub open spec fn left_of_barrier(point: GridPoint) -> bool {
    10 * point.ix <= 3 * FINE_CELLS
}

/// Whether a point of the fine grid lies at least seven tenths to the right.
pub open spec fn right_of_barrier(point: GridPoint) -> bool {
    10 * point.ix >= 7 * FINE_CELLS
}

fn is_left_of_barrier(point: GridPoint) -> (yes: bool)
    ensures
        yes == left_of_barrier(point),
{
    10 * (point.ix as u64) <= 75
}

fn is_right_of_barrier(point: GridPoint) -> (yes: bool)
    ensures
        yes == right_of_barrier(point),
{
    10 * (point.ix as u64) >= 175
}

/// The grid point of the given number, column by column.
pub open spec fn nth_point(side: int, k: int) -> GridPoint {
    GridPoint { ix: (2 + k / side) as u32, iy: (2 + k % side) as u32 }
}

/// The points at which paths of the family may end, in order.
pub open spec fn endpoints(family: PathFamily, holes: Seq<PlanarHoleSpec>) -> Seq<GridPoint> {
    Seq::new(
        (family.side() * family.side()) as nat,
        |k: int| nth_point(family.side(), k),
    ).filter(
        |point: GridPoint| valid_endpoint(point, family.cells(), holes) && family.admits(point),
    )
}

/// Lists the points at which paths of the family may end.
pub fn path_endpoints(family: PathFamily, holes: &Vec<PlanarHoleSpec>) -> (points: Vec<GridPoint>)
    ensures
        points@ == endpoints(family, holes@),
        forall|i: int|
            0 <= i < points.len() ==> (#[trigger] points@[i]).ix <= 1000 && points@[i].iy <= 1000,
{
    let side: usize = match family {
        PathFamily::Long => 16,
        _ => 22,
    };
    let cells: u32 = match family {
        PathFamily::Long => COARSE_CELLS,
        _ => FINE_CELLS,
    };
    let total: usize = match family {
        PathFamily::Long => 256,
        _ => 484,
    };
    let ghost all = Seq::new(
        (family.side() * family.side()) as nat,
        |k: int| nth_point(family.side(), k),
    );
    let ghost valid = |point: GridPoint|
        valid_endpoint(point, family.cells(), holes@) && family.admits(point);
    let mut points: Vec<GridPoint> = Vec::new();
    let mut k: usize = 0;
    proof {
        reveal(Seq::filter);
        assert(all.take(0).filter(valid) =~= Seq::<GridPoint>::empty());
        assert(all.len() == total);
    }
    while k < total
        invariant
            k <= total,
            total == all.len(),
            total <= 484,
            side == family.side(),
            side == 16 || side == 22,
            cells == family.cells(),
            cells <= 1000,
            all == Seq::new(
                (family.side() * family.side()) as nat,
                |k: int| nth_point(family.side(), k),
            ),
            valid == (|point: GridPoint|
                valid_endpoint(point, family.cells(), holes@) && family.admits(point)),
            points@ == all.take(k as int).filter(valid),
            forall|i: int|
                0 <= i < points.len() ==> (#[trigger] points@[i]).ix <= 1000 && points@[i].iy
                    <= 1000,
        decreases total - k,
    {
        let point = GridPoint { ix: (2 + k / side) as u32, iy: (2 + k % side) as u32 };
        proof {
            reveal(Seq::filter);
            assert(0 <= k as int / side as int <= 484 && 0 <= k as int % side as int <= 484)
                by (nonlinear_arith)
                requires
                    0 <= k <= 484,
                    side == 16 || side == 22,
            ;
            assert(all[k as int] == point);
            assert(all.take(k + 1).drop_last() =~= all.take(k as int));
            assert(all.take(k + 1).last() == point);
        }
        if valid_long_path_endpoint(point, cells, holes) && family.admits_point(point) {
            points.push(point);
        }
        k = k + 1;
    }
    assert(all.take(k as int) =~= all);
    points
}

/// The pairs of point `i` with the points after it and before `end` that the family joins.
pub open spec fn pairs_with(family: PathFamily, points: Seq<GridPoint>, i: int, end: int) -> Seq<
    (GridPoint, GridPoint),
>
    decreases end - i,
{
    if end <= i + 1 {
        Seq::empty()
    } else {
        let before = pairs_with(family, points, i, end - 1);
        if family.joins(points[i], points[end - 1]) {
            before.push((points[i], points[end - 1]))
        } else {
            before
        }
    }
}

/// The pairs that the family joins, with the first point among the first `count`.
pub open spec fn joined_pairs(family: PathFamily, points: Seq<GridPoint>, count: int) -> Seq<
    (GridPoint, GridPoint),
>
    decreases count,
{
    if count <= 0 {
        Seq::empty()
    } else {
        joined_pairs(family, points, count - 1) + pairs_with(
            family,
            points,
            count - 1,
            points.len() as int,
        )
    }
}

/// Lists the pairs of points that the family joins.
pub fn path_pairs(family: PathFamily, points: &Vec<GridPoint>) -> (pairs: Vec<
    (GridPoint, GridPoint),
>)
    requires
        forall|i: int|
            0 <= i < points.len() ==> (#[trigger] points@[i]).ix <= 1000 && points@[i].iy <= 1000,
    ensures
        pairs@ == joined_pairs(family, points@, points.len() as int),
{
    let mut pairs: Vec<(GridPoint, GridPoint)> = Vec::new();
    let mut i: usize = 0;
    while i < points.len()
        invariant
            i <= points.len(),
            forall|i: int|
                0 <= i < points.len() ==> (#[trigger] points@[i]).ix <= 1000 && points@[i].iy
                    <= 1000,
            pairs@ == joined_pairs(family, points@, i as int),
        decreases points.len() - i,
    {
        let start: GridPoint = points[i];
        let ghost before = pairs@;
        let mut j: usize = i + 1;
        assert(pairs@ =~= before + pairs_with(family, points@, i as int, j as int));
        while j < points.len()
            invariant
                i < j <= points.len(),
                forall|i: int|
                    0 <= i < points.len() ==> (#[trigger] points@[i]).ix <= 1000 && points@[i].iy
                        <= 1000,
                start == points@[i as int],
                pairs@ == before + pairs_with(family, points@, i as int, j as int),
            decreases points.len() - j,
        {
            let end: GridPoint = points[j];
            assert(points@[i as int].ix <= 1000 && points@[j as int].ix <= 1000);
            if family.joins_points(start, end) {
                pairs.push((start, end));
            }
            assert(pairs@ =~= before + pairs_with(family, points@, i as int, j + 1));
            j = j + 1;
        }
        i = i + 1;
    }
    pairs
}

/// Whether `pairs` are the pairs that the family joins, when the points and then the pairs are
/// shuffled by a generator.
pub open spec fn is_shuffled_pairs(
    family: PathFamily,
    holes: Seq<PlanarHoleSpec>,
    generator: StdRng,
    pairs: Seq<(GridPoint, GridPoint)>,
) -> bool {
    let count = endpoints(family, holes).len();
    let point_order = shuffled(generator, count);
    let points = arranged(endpoints(family, holes), point_order);
    let all = joined_pairs(family, points, points.len() as int);
    let pair_order = shuffled(after_shuffle(generator, count), all.len());
    &&& is_permutation(point_order, count)
    &&& is_permutation(pair_order, all.len())
    &&& pairs == arranged(all, pair_order)
}

/// Lists the pairs of points that the family joins in a random order.
pub fn shuffled_path_candidates(family: PathFamily, holes: &Vec<PlanarHoleSpec>, seed: u64) -> (pairs:
    Vec<(GridPoint, GridPoint)>)
    ensures
        is_shuffled_pairs(family, holes@, seeded(seed), pairs@),
{
    let mut generator = seeded_generator(seed);
    let points = path_endpoints(family, holes);
    let point_order = shuffled_order(points.len(), &mut generator);
    let mixed = arrange(&points, &point_order);
    proof {
        assert forall|i: int| 0 <= i < mixed.len() implies (#[trigger] mixed@[i]).ix <= 1000
            && mixed@[i].iy <= 1000 by {
            assert(point_order@[i] < points.len());
            assert(mixed@[i] == points@[point_order@[i] as int]);
        }
    }
    let pairs = path_pairs(family, &mixed);
    let pair_order = shuffled_order(pairs.len(), &mut generator);
    let result = arrange(&pairs, &pair_order);
    result
}

/// The quotient of two numbers rounded to three decimal places.
pub open spec fn three_places(numerator: int, denominator: int) -> Seq<char> {
    let thousandths = (2000 * numerator + denominator) / (2 * denominator);
    decimal((thousandths / 1000) as nat) + "."@ + zero_padded((thousandths % 1000) as nat, 3)
}

/// Writes the quotient of two numbers with three decimal places.
pub fn three_places_text(numerator: u32, denominator: u32) -> (text: String)
    requires
        0 < denominator <= 1000,
    ensures
        text@ == three_places(numerator as int, denominator as int),
{
    let top: u64 = 2000 * (numerator as u64) + denominator as u64;
    let bottom: u64 = 2 * (denominator as u64);
    let thousandths: u64 = top / bottom;
    let mut text = crate::text::decimal_text(thousandths / 1000);
    text.append(".");
    text.append(three_digit_text((thousandths % 1000) as usize).as_str());
    text
}

/// The label of a loop row.
pub open spec fn loop_label(prefix: Seq<char>, number: int, candidate: LoopCandidate) -> Seq<char> {
    prefix + "_"@ + decimal(number as nat) + "_r"@ + three_places(candidate.radius as int, 1000)
        + "_x"@ + three_places(candidate.center.ix as int, COARSE_CELLS as int) + "_y"@
        + three_places(candidate.center.iy as int, COARSE_CELLS as int)
}

/// Writes the label of a loop row.
pub fn loop_label_text(prefix: &str, number: usize, candidate: LoopCandidate) -> (text: String)
    ensures
        text@ == loop_label(prefix@, number as int, candidate),
{
    let mut text = String::from_str(prefix);
    text.append("_");
    text.append(count_text(number).as_str());
    text.append("_r");
    text.append(three_places_text(candidate.radius, 1000).as_str());
    text.append("_x");
    text.append(three_places_text(candidate.center.ix, COARSE_CELLS).as_str());
    text.append("_y");
    text.append(three_places_text(candidate.center.iy, COARSE_CELLS).as_str());
    text
}

/// The label of a path row.
pub open spec fn path_label(
    prefix: Seq<char>,
    number: int,
    cells: u32,
    start: GridPoint,
    end: GridPoint,
) -> Seq<char> {
    prefix + "_"@ + decimal(number as nat) + "_x"@ + three_places(start.ix as int, cells as int)
        + "_y"@ + three_places(start.iy as int, cells as int) + "_to_x"@ + three_places(
        end.ix as int,
        cells as int,
    ) + "_y"@ + three_places(end.iy as int, cells as int)
}

/// Writes the label of a path row.
pub fn path_label_text(
    prefix: &str,
    number: usize,
    cells: u32,
    start: GridPoint,
    end: GridPoint,
) -> (text: String)
    requires
        0 < cells <= 1000,
    ensures
        text@ == path_label(prefix@, number as int, cells, start, end),
{
    let mut text = String::from_str(prefix);
    text.append("_");
    text.append(count_text(number).as_str());
    text.append("_x");
    text.append(three_places_text(start.ix, cells).as_str());
    text.append("_y");
    text.append(three_places_text(start.iy, cells).as_str());
    text.append("_to_x");
    text.append(three_places_text(end.ix, cells).as_str());
    text.append("_y");
    text.append(three_places_text(end.iy, cells).as_str());
    text
}

} // verus!
