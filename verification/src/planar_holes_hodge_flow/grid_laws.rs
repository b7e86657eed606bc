//! What holds of the loops and of the ends of the paths on the grid: how far they stay from the
//! sides and the holes, which of them are listed, and how their places are written.

use super::grid::{
    arranged, clear_of_hole, endpoints, is_shuffled_pairs, joined_pairs, nth_loop, nth_point,
    pairs_with, three_places, valid_endpoint, valid_loop_center, valid_loops, GridPoint,
    LoopCandidate, PathFamily,
};
use super::holes::PlanarHoleSpec;
use crate::order::lemma_filter_keeps_places;
use crate::random::{after_shuffle, is_permutation, shuffled};
use crate::text::{
    all_digits, decimal, lemma_decimal_reads_back, lemma_numeral_concat, lemma_padding_reads_back,
    lemma_three_digits, numeral, ten_power, zero_padded,
};
use rand::rngs::StdRng;
use vstd::prelude::*;

verus! {

/// Whether a point lies farther than `margin` from the rims of all holes, and at least that far
/// from the sides of the square. The unit is a thousandth of the square divided by `cells`.
pub open spec fn stays_clear(
    x: int,
    y: int,
    cells: int,
    margin: int,
    holes: Seq<PlanarHoleSpec>,
) -> bool {
    &&& cells * margin <= x && x + cells * margin <= cells * 1000
    &&& cells * margin <= y && y + cells * margin <= cells * 1000
    &&& forall|h: int|
        #![trigger holes[h]]
        0 <= h < holes.len() ==> length_exceeds(
            x - cells * holes[h].center.0,
            y - cells * holes[h].center.1,
            cells * (holes[h].radius + margin),
        )
}

/// Whether a vector is longer than a given length.
pub open spec fn length_exceeds(x: int, y: int, length: int) -> bool {
    x * x + y * y > length * length
}

/// A vector that is not longer than `a`, added to one that is not longer than `b`, is not longer
/// than `a + b`.
proof fn lemma_triangle(ux: int, uy: int, vx: int, vy: int, a: int, b: int)
    requires
        a >= 0,
        b >= 0,
        !length_exceeds(ux, uy, a),
        !length_exceeds(vx, vy, b),
    ensures
        !length_exceeds(ux + vx, uy + vy, a + b),
{
    let (p, q, r, s) = (ux * vx, uy * vy, ux * vy, uy * vx);
    let (left, right) = (ux * ux + uy * uy, vx * vx + vy * vy);
    let dot = p + q;
    assert(p * q == r * s) by (nonlinear_arith)
        requires
            p == ux * vx,
            q == uy * vy,
            r == ux * vy,
            s == uy * vx,
    ;
    assert(dot * dot == p * p + 2 * (p * q) + q * q) by (nonlinear_arith)
        requires
            dot == p + q,
    ;
    assert(0 <= (r - s) * (r - s)) by (nonlinear_arith);
    assert((r - s) * (r - s) == r * r - 2 * (r * s) + s * s) by (nonlinear_arith);
    assert(p * p == (ux * ux) * (vx * vx)) by (nonlinear_arith)
        requires
            p == ux * vx,
    ;
    assert(q * q == (uy * uy) * (vy * vy)) by (nonlinear_arith)
        requires
            q == uy * vy,
    ;
    assert(r * r == (ux * ux) * (vy * vy)) by (nonlinear_arith)
        requires
            r == ux * vy,
    ;
    assert(s * s == (uy * uy) * (vx * vx)) by (nonlinear_arith)
        requires
            s == uy * vx,
    ;
    let (ux2, uy2, vx2, vy2) = (ux * ux, uy * uy, vx * vx, vy * vy);
    assert((ux2 + uy2) * (vx2 + vy2) == ux2 * vx2 + ux2 * vy2 + uy2 * vx2 + uy2 * vy2)
        by (nonlinear_arith);
    assert(dot * dot <= left * right);
    assert(0 <= ux2) by (nonlinear_arith)
        requires
            ux2 == ux * ux,
    ;
    assert(0 <= uy2) by (nonlinear_arith)
        requires
            uy2 == uy * uy,
    ;
    assert(0 <= vx2) by (nonlinear_arith)
        requires
            vx2 == vx * vx,
    ;
    assert(0 <= vy2) by (nonlinear_arith)
        requires
            vy2 == vy * vy,
    ;
    let (a2, b2, ab) = (a * a, b * b, a * b);
    assert(left * right <= a2 * b2) by (nonlinear_arith)
        requires
            0 <= left <= a2,
            0 <= right <= b2,
    ;
    assert(a2 * b2 == ab * ab) by (nonlinear_arith)
        requires
            a2 == a * a,
            b2 == b * b,
            ab == a * b,
    ;
    assert(0 <= ab) by (nonlinear_arith)
        requires
            ab == a * b,
            a >= 0,
            b >= 0,
    ;
    assert(dot <= ab) by (nonlinear_arith)
        requires
            dot * dot <= ab * ab,
            0 <= ab,
    ;
    assert((ux + vx) * (ux + vx) == ux2 + 2 * p + vx2) by (nonlinear_arith)
        requires
            ux2 == ux * ux,
            p == ux * vx,
            vx2 == vx * vx,
    ;
    assert((uy + vy) * (uy + vy) == uy2 + 2 * q + vy2) by (nonlinear_arith)
        requires
            uy2 == uy * uy,
            q == uy * vy,
            vy2 == vy * vy,
    ;
    assert((a + b) * (a + b) == a2 + 2 * ab + b2) by (nonlinear_arith)
        requires
            a2 == a * a,
            b2 == b * b,
            ab == a * b,
    ;
}

/// A grid point is taken as the center of a loop if and only if it stays clear by 45 thousandths
/// more than the radius, and as the end of a path if and only if it stays clear by 80 thousandths.
pub proof fn lemma_grid_points_stay_clear(
    point: GridPoint,
    radius: u32,
    cells: u32,
    holes: Seq<PlanarHoleSpec>,
)
    requires
        radius <= 1000,
    ensures
        valid_loop_center(point, radius, holes) <==> stays_clear(
            1000 * point.ix,
            1000 * point.iy,
            19,
            radius + 45,
            holes,
        ),
        valid_endpoint(point, cells, holes) <==> stays_clear(
            1000 * point.ix,
            1000 * point.iy,
            cells as int,
            80,
            holes,
        ),
{
    let (x, y) = (1000 * point.ix, 1000 * point.iy);
    let wide = (radius + 45) as u32;
    assert(cells * (1000 - 80) == cells * 1000 - cells * 80) by (nonlinear_arith);
    assert forall|h: int| 0 <= h < holes.len() implies clear_of_hole(
        point,
        19,
        wide,
        #[trigger] holes[h],
    ) == length_exceeds(
        x - 19 * holes[h].center.0,
        y - 19 * holes[h].center.1,
        19 * (holes[h].radius + wide),
    ) by {}
    assert forall|h: int| 0 <= h < holes.len() implies clear_of_hole(
        point,
        cells,
        80,
        #[trigger] holes[h],
    ) == length_exceeds(
        x - cells * holes[h].center.0,
        y - cells * holes[h].center.1,
        cells * (holes[h].radius + 80),
    ) by {}
}

/// A loop around a center that is taken, and all that it encloses, stays clear of the holes and of
/// the sides by 45 thousandths, so that the loop can be contracted to a point.
pub proof fn lemma_loops_enclose_no_hole(
    point: GridPoint,
    radius: u32,
    holes: Seq<PlanarHoleSpec>,
    x: int,
    y: int,
)
    requires
        radius <= 1000,
        valid_loop_center(point, radius, holes),
        !length_exceeds(x - 1000 * point.ix, y - 1000 * point.iy, 19 * radius),
    ensures
        stays_clear(x, y, 19, 45, holes),
{
    lemma_grid_points_stay_clear(point, radius, 19, holes);
    let (px, py) = (1000 * point.ix, 1000 * point.iy);
    let (ux, uy) = (px - x, py - y);
    let reach = 19 * radius;
    assert(ux * ux == (x - px) * (x - px)) by (nonlinear_arith)
        requires
            ux == px - x,
    ;
    assert(uy * uy == (y - py) * (y - py)) by (nonlinear_arith)
        requires
            uy == py - y,
    ;
    assert(-reach <= ux <= reach && -reach <= uy <= reach) by (nonlinear_arith)
        requires
            ux * ux + uy * uy <= reach * reach,
            reach >= 0,
    ;
    assert forall|h: int| #![trigger holes[h]] 0 <= h < holes.len() implies length_exceeds(
        x - 19 * holes[h].center.0,
        y - 19 * holes[h].center.1,
        19 * (holes[h].radius + 45),
    ) by {
        let hole = holes[h];
        let (vx, vy) = (x - 19 * hole.center.0, y - 19 * hole.center.1);
        let far = 19 * (hole.radius + 45);
        if !length_exceeds(vx, vy, far) {
            lemma_triangle(ux, uy, vx, vy, reach, far);
            assert(ux + vx == px - 19 * hole.center.0 && uy + vy == py - 19 * hole.center.1);
            assert(reach + far == 19 * (hole.radius + (radius + 45)));
        }
    }
}

/// The loops that are listed are those of the radii around the grid points from 2 to 17 that are
/// taken as centers. Where no radius is given twice, no loop is listed twice.
pub proof fn lemma_loops_are_listed(radii: Seq<u32>, holes: Seq<PlanarHoleSpec>)
    ensures
        forall|candidate: LoopCandidate| #[trigger]
            valid_loops(radii, holes).contains(candidate) <==> {
                &&& radii.contains(candidate.radius)
                &&& 2 <= candidate.center.ix <= 17
                &&& 2 <= candidate.center.iy <= 17
                &&& valid_loop_center(candidate.center, candidate.radius, holes)
            },
        radii.no_duplicates() ==> valid_loops(radii, holes).no_duplicates(),
{
    let all = Seq::new(256 * radii.len(), |k: int| nth_loop(radii, k));
    let valid = |candidate: LoopCandidate|
        valid_loop_center(candidate.center, candidate.radius, holes);
    let listed = valid_loops(radii, holes);
    assert(listed == all.filter(valid));
    let places = lemma_filter_keeps_places(all, valid);
    assert forall|candidate: LoopCandidate| #[trigger] listed.contains(candidate) <==> {
        &&& radii.contains(candidate.radius)
        &&& 2 <= candidate.center.ix <= 17
        &&& 2 <= candidate.center.iy <= 17
        &&& valid_loop_center(candidate.center, candidate.radius, holes)
    } by {
        if listed.contains(candidate) {
            let i = choose|i: int| 0 <= i < listed.len() && listed[i] == candidate;
            let k = places[i];
            assert(places.contains(k));
            assert(all[k] == nth_loop(radii, k));
            assert(0 <= k / 256 < radii.len());
            assert(radii[k / 256] == candidate.radius);
        }
        if radii.contains(candidate.radius) && 2 <= candidate.center.ix <= 17 && 2
            <= candidate.center.iy <= 17 && valid(candidate) {
            let r = choose|r: int| 0 <= r < radii.len() && radii[r] == candidate.radius;
            let (ix, iy) = (candidate.center.ix - 2, candidate.center.iy - 2);
            let k = 256 * r + 16 * ix + iy;
            assert(k / 256 == r && k / 16 == 16 * r + ix && (k / 16) % 16 == ix && k % 16 == iy);
            assert(all[k] == candidate);
            assert(places.contains(k));
            let i = choose|i: int| 0 <= i < places.len() && places[i] == k;
            assert(listed[i] == candidate);
        }
    }
    if radii.no_duplicates() {
        assert forall|i: int, j: int| 0 <= i < listed.len() && 0 <= j < listed.len() && i
            != j implies listed[i] != listed[j] by {
            let (k, l) = (places[i], places[j]);
            assert(all[k] == nth_loop(radii, k) && all[l] == nth_loop(radii, l));
            if listed[i] == listed[j] {
                assert(0 <= k / 256 < radii.len() && 0 <= l / 256 < radii.len());
                assert(radii[k / 256] == radii[l / 256]);
                assert(k / 256 == l / 256);
                assert((k / 16) % 16 == (l / 16) % 16 && k % 16 == l % 16);
                assert(k == l);
                if i < j {
                    assert(places[i] < places[j]);
                } else {
                    assert(places[j] < places[i]);
                }
            }
        }
    }
}

/// The ends of the paths of a family are the grid points that stay clear and that the family
/// admits, from 2 to 17 on the coarse grid and from 2 to 23 on the fine one, each once.
pub proof fn lemma_endpoints_are_listed(family: PathFamily, holes: Seq<PlanarHoleSpec>)
    ensures
        forall|point: GridPoint| #[trigger]
            endpoints(family, holes).contains(point) <==> {
                let (most, cells) = if family is Long {
                    (17int, 19u32)
                } else {
                    (23int, 25u32)
                };
                &&& 2 <= point.ix <= most
                &&& 2 <= point.iy <= most
                &&& valid_endpoint(point, cells, holes)
                &&& family.admits(point)
            },
        endpoints(family, holes).no_duplicates(),
{
    let side = family.side();
    let all = Seq::new((side * side) as nat, |k: int| nth_point(side, k));
    let valid = |point: GridPoint|
        valid_endpoint(point, family.cells(), holes) && family.admits(point);
    let listed = endpoints(family, holes);
    assert(side == 16 || side == 22);
    assert(side * side == 256 || side * side == 484) by (nonlinear_arith)
        requires
            side == 16 || side == 22,
    ;
    assert(listed == all.filter(valid));
    let places = lemma_filter_keeps_places(all, valid);
    assert forall|point: GridPoint| #[trigger] listed.contains(point) <==> {
        &&& 2 <= point.ix <= side + 1
        &&& 2 <= point.iy <= side + 1
        &&& valid_endpoint(point, family.cells(), holes)
        &&& family.admits(point)
    } by {
        if listed.contains(point) {
            let i = choose|i: int| 0 <= i < listed.len() && listed[i] == point;
            let k = places[i];
            assert(places.contains(k));
            assert(all[k] == nth_point(side, k));
            if side == 16 {
                assert(point == nth_point(16, k));
            } else {
                assert(point == nth_point(22, k));
            }
        }
        if 2 <= point.ix <= side + 1 && 2 <= point.iy <= side + 1 && valid(point) {
            let k = side * (point.ix - 2) + (point.iy - 2);
            if side == 16 {
                assert(k / 16 == point.ix - 2 && k % 16 == point.iy - 2);
            } else {
                assert(k / 22 == point.ix - 2 && k % 22 == point.iy - 2);
            }
            assert(all[k] == point);
            assert(places.contains(k));
            let i = choose|i: int| 0 <= i < places.len() && places[i] == k;
            assert(listed[i] == point);
        }
    }
    assert forall|i: int, j: int| 0 <= i < listed.len() && 0 <= j < listed.len() && i
        != j implies listed[i] != listed[j] by {
        let (k, l) = (places[i], places[j]);
        assert(all[k] == nth_point(side, k) && all[l] == nth_point(side, l));
        if i < j {
            assert(places[i] < places[j]);
        } else {
            assert(places[j] < places[i]);
        }
        if side == 16 {
            assert(k / 16 != l / 16 || k % 16 != l % 16);
        } else {
            assert(k / 22 != l / 22 || k % 22 != l % 22);
        }
    }
}

/// Which points a family joins does not depend on their order. Long paths have ends that are 0.55
/// apart or more; paths along the barrier rise or fall by 0.35 or more, within their strip; paths
/// across the barrier lead from at most 0.3 to at least 0.7 or back, and rise or fall by 0.55 at
/// most.
pub proof fn lemma_families_join(family: PathFamily, start: GridPoint, end: GridPoint)
    ensures
        family.joins(start, end) == family.joins(end, start),
        family is Long ==> (family.joins(start, end) <==> 10000 * ((start.ix - end.ix) * (start.ix
            - end.ix) + (start.iy - end.iy) * (start.iy - end.iy)) >= 1045 * 1045),
        family is SameSide ==> (family.joins(start, end) <==> 100 * (start.iy - end.iy) >= 875
            || 100 * (end.iy - start.iy) >= 875),
        family is SameSide ==> (family.admits(start) <==> 25 * family->low <= 1000 * start.ix <= 25
            * family->high),
        family is CrossBarrier ==> (family.joins(start, end) <==> (10 * start.ix <= 75 && 10
            * end.ix >= 175 || 10 * end.ix <= 75 && 10 * start.ix >= 175) && -1375 <= 100 * (
        start.iy - end.iy) <= 1375),
        family is CrossBarrier ==> (family.admits(start) <==> 10 * start.ix <= 75 || 10 * start.ix
            >= 175),
        family is Long ==> family.admits(start),
{
    let (dx, dy) = (start.ix - end.ix, start.iy - end.iy);
    assert((-dx) * (-dx) == dx * dx) by (nonlinear_arith);
    assert((-dy) * (-dy) == dy * dy) by (nonlinear_arith);
    assert(end.ix - start.ix == -dx && end.iy - start.iy == -dy);
}

/// Every number below the count stands in a permutation.
proof fn lemma_permutation_covers(order: Seq<usize>, count: nat, number: int)
    requires
        is_permutation(order, count),
        0 <= number < count,
    ensures
        exists|i: int| 0 <= i < order.len() && #[trigger] order[i] == number,
{
    let wide = order.map_values(|n: usize| n as int);
    assert forall|i: int, j: int| 0 <= i < wide.len() && 0 <= j < wide.len() && i
        != j implies wide[i] != wide[j] by {
        assert(order[i] != order[j]);
    }
    wide.unique_seq_to_set();
    let range = vstd::set_lib::set_int_range(0, count as int);
    vstd::set_lib::lemma_int_range(0, count as int);
    assert forall|n: int| #[trigger] wide.to_set().contains(n) implies range.contains(n) by {
        let i = choose|i: int| 0 <= i < wide.len() && wide[i] == n;
        assert(order[i] < count);
    }
    vstd::set_lib::lemma_subset_equality(wide.to_set(), range);
    assert(range.contains(number));
    assert(wide.to_set().contains(number));
    let i = choose|i: int| 0 <= i < wide.len() && wide[i] == number;
    assert(order[i] == number);
}

/// Items in another order are the same items.
pub proof fn lemma_arranged_items<T>(items: Seq<T>, order: Seq<usize>)
    requires
        is_permutation(order, items.len()),
    ensures
        arranged(items, order).len() == items.len(),
        forall|item: T| #[trigger] arranged(items, order).contains(item) <==> items.contains(item),
        items.no_duplicates() ==> arranged(items, order).no_duplicates(),
{
    let other = arranged(items, order);
    assert forall|item: T| #[trigger] other.contains(item) <==> items.contains(item) by {
        if other.contains(item) {
            let i = choose|i: int| 0 <= i < other.len() && other[i] == item;
            assert(order[i] < items.len());
            assert(items[order[i] as int] == item);
        }
        if items.contains(item) {
            let k = choose|k: int| 0 <= k < items.len() && items[k] == item;
            lemma_permutation_covers(order, items.len(), k);
            let i = choose|i: int| 0 <= i < order.len() && #[trigger] order[i] == k;
            assert(other[i] == item);
        }
    }
    if items.no_duplicates() {
        assert forall|i: int, j: int| 0 <= i < other.len() && 0 <= j < other.len() && i
            != j implies other[i] != other[j] by {
            assert(order[i] != order[j]);
            assert(order[i] < items.len() && order[j] < items.len());
        }
    }
}

proof fn lemma_pairs_with(
    family: PathFamily,
    points: Seq<GridPoint>,
    i: int,
    end: int,
    pair: (GridPoint, GridPoint),
)
    requires
        0 <= i < points.len(),
        end <= points.len(),
    ensures
        pairs_with(family, points, i, end).contains(pair) <==> pair.0 == points[i] && exists|j: int|
            i < j < end && pair.1 == #[trigger] points[j] && family.joins(points[i], points[j]),
    decreases end - i,
{
    if end > i + 1 {
        let before = pairs_with(family, points, i, end - 1);
        let all = pairs_with(family, points, i, end);
        lemma_pairs_with(family, points, i, end - 1, pair);
        if before.contains(pair) {
            let k = choose|k: int| 0 <= k < before.len() && before[k] == pair;
            assert(all[k] == pair);
            assert(all.contains(pair));
        }
        if all.contains(pair) {
            let k = choose|k: int| 0 <= k < all.len() && all[k] == pair;
            if k < before.len() {
                assert(before[k] == pair);
                assert(before.contains(pair));
            } else {
                assert(pair == (points[i], points[end - 1]));
            }
        }
        if pair.0 == points[i] && exists|j: int|
            i < j < end && pair.1 == #[trigger] points[j] && family.joins(points[i], points[j]) {
            let j = choose|j: int|
                i < j < end && pair.1 == #[trigger] points[j] && family.joins(
                    points[i],
                    points[j],
                );
            if j == end - 1 {
                assert(all == before.push(pair));
                assert(all[before.len() as int] == pair);
                assert(all.contains(pair));
            } else {
                assert(before.contains(pair));
            }
        }
    }
}

/// Whether a pair is one of two points of a list that the family joins, the one that stands before
/// the other first.
pub open spec fn is_joined_pair(
    family: PathFamily,
    points: Seq<GridPoint>,
    count: int,
    pair: (GridPoint, GridPoint),
) -> bool {
    exists|i: int, j: int|
        #![trigger points[i], points[j]]
        0 <= i < count && i < j < points.len() && pair == (points[i], points[j]) && family.joins(
            points[i],
            points[j],
        )
}

proof fn lemma_joined_pairs(
    family: PathFamily,
    points: Seq<GridPoint>,
    count: int,
    pair: (GridPoint, GridPoint),
)
    requires
        count <= points.len(),
    ensures
        joined_pairs(family, points, count).contains(pair) <==> is_joined_pair(
            family,
            points,
            count,
            pair,
        ),
    decreases count,
{
    if count > 0 {
        let before = joined_pairs(family, points, count - 1);
        let block = pairs_with(family, points, count - 1, points.len() as int);
        let all = joined_pairs(family, points, count);
        lemma_joined_pairs(family, points, count - 1, pair);
        lemma_pairs_with(family, points, count - 1, points.len() as int, pair);
        assert(all == before + block);
        if before.contains(pair) {
            let k = choose|k: int| 0 <= k < before.len() && before[k] == pair;
            assert(all[k] == pair);
            assert(all.contains(pair));
        }
        if block.contains(pair) {
            let k = choose|k: int| 0 <= k < block.len() && block[k] == pair;
            assert(all[before.len() + k] == pair);
            assert(all.contains(pair));
            let j = choose|j: int|
                count - 1 < j < points.len() && pair.1 == #[trigger] points[j] && family.joins(
                    points[count - 1],
                    points[j],
                );
            assert(pair == (points[count - 1], points[j]));
        }
        if all.contains(pair) {
            let k = choose|k: int| 0 <= k < all.len() && all[k] == pair;
            if k < before.len() {
                assert(before[k] == pair);
                assert(before.contains(pair));
            } else {
                assert(block[k - before.len()] == pair);
                assert(block.contains(pair));
            }
        }
        if is_joined_pair(family, points, count, pair) {
            let (i, j) = choose|i: int, j: int|
                #![trigger points[i], points[j]]
                0 <= i < count && i < j < points.len() && pair == (points[i], points[j])
                    && family.joins(points[i], points[j]);
            if i < count - 1 {
                assert(is_joined_pair(family, points, count - 1, pair));
            }
        }
    }
}

/// The paths that are looked for lead between two different ends that the family joins, and
/// between any two such ends there is one, in one of the two directions.
pub proof fn lemma_paths_join_endpoints(
    family: PathFamily,
    holes: Seq<PlanarHoleSpec>,
    generator: StdRng,
    pairs: Seq<(GridPoint, GridPoint)>,
)
    requires
        is_shuffled_pairs(family, holes, generator, pairs),
    ensures
        forall|pair: (GridPoint, GridPoint)| #[trigger]
            pairs.contains(pair) ==> endpoints(family, holes).contains(pair.0) && endpoints(
                family,
                holes,
            ).contains(pair.1) && pair.0 != pair.1 && family.joins(pair.0, pair.1),
        forall|start: GridPoint, end: GridPoint|
            #![trigger family.joins(start, end)]
            endpoints(family, holes).contains(start) && endpoints(family, holes).contains(end)
                && start != end && family.joins(start, end) ==> pairs.contains((start, end))
                || pairs.contains((end, start)),
{
    let ends = endpoints(family, holes);
    let point_order = shuffled(generator, ends.len());
    let points = arranged(ends, point_order);
    let all = joined_pairs(family, points, points.len() as int);
    let pair_order = shuffled(after_shuffle(generator, ends.len()), all.len());
    lemma_endpoints_are_listed(family, holes);
    lemma_arranged_items(ends, point_order);
    lemma_arranged_items(all, pair_order);
    assert forall|pair: (GridPoint, GridPoint)| #[trigger]
        pairs.contains(pair) implies ends.contains(pair.0) && ends.contains(pair.1) && pair.0
        != pair.1 && family.joins(pair.0, pair.1) by {
        lemma_joined_pairs(family, points, points.len() as int, pair);
        assert(all.contains(pair));
        let (i, j) = choose|i: int, j: int|
            #![trigger points[i], points[j]]
            0 <= i < points.len() && i < j < points.len() && pair == (points[i], points[j])
                && family.joins(points[i], points[j]);
        assert(points.contains(points[i]) && points.contains(points[j]));
    }
    assert forall|start: GridPoint, end: GridPoint|
        #![trigger family.joins(start, end)]
        ends.contains(start) && ends.contains(end) && start != end && family.joins(
            start,
            end,
        ) implies pairs.contains((start, end)) || pairs.contains((end, start)) by {
        assert(points.contains(start) && points.contains(end));
        let i = choose|i: int| 0 <= i < points.len() && points[i] == start;
        let j = choose|j: int| 0 <= j < points.len() && points[j] == end;
        lemma_families_join(family, start, end);
        if i < j {
            assert(is_joined_pair(family, points, points.len() as int, (points[i], points[j])));
            lemma_joined_pairs(family, points, points.len() as int, (start, end));
            assert(all.contains((start, end)));
        } else {
            assert(is_joined_pair(family, points, points.len() as int, (points[j], points[i])));
            lemma_joined_pairs(family, points, points.len() as int, (end, start));
            assert(all.contains((end, start)));
        }
    }
}

/// A quotient stands in a label as the nearest number of thousandths: three digits follow the
/// point, and the digits without the point are that number. Of two numbers that are equally near
/// it is the larger.
pub proof fn lemma_three_places_read_back(numerator: int, denominator: int)
    requires
        numerator >= 0,
        denominator > 0,
    ensures
        ({
            let text = three_places(numerator, denominator);
            let point = text.len() - 4;
            let thousandths = numeral(text.take(point) + text.skip(point + 1));
            &&& point >= 1
            &&& text[point] == '.'
            &&& all_digits(text.take(point)) && all_digits(text.skip(point + 1))
            &&& -denominator <= 2 * (1000 * numerator - thousandths * denominator) < denominator
        }),
{
    let (top, bottom) = (2000 * numerator + denominator, 2 * denominator);
    let thousandths = top / bottom;
    vstd::arithmetic::div_mod::lemma_fundamental_div_mod(top, bottom);
    vstd::arithmetic::div_mod::lemma_mod_bound(top, bottom);
    vstd::arithmetic::div_mod::lemma_div_pos_is_pos(top, bottom);
    assert(bottom * thousandths == 2 * (thousandths * denominator)) by (nonlinear_arith)
        requires
            bottom == 2 * denominator,
    ;
    let (high, low) = ((thousandths / 1000) as nat, (thousandths % 1000) as nat);
    let (whole, part) = (decimal(high), zero_padded(low, 3));
    reveal_strlit(".");
    let text = three_places(numerator, denominator);
    assert(text =~= whole + "."@ + part);
    lemma_decimal_reads_back(high);
    lemma_padding_reads_back(low, 3);
    lemma_three_digits(low);
    lemma_numeral_concat(whole, part);
    let point = whole.len() as int;
    assert(text.take(point) =~= whole);
    assert(text.skip(point + 1) =~= part);
    reveal_with_fuel(ten_power, 4);
    assert(ten_power(3) == 1000);
    assert(part.len() == 3);
    assert(numeral(whole + part) == high * 1000 + low);
    assert(numeral(whole + part) == thousandths);
    assert(top == 2 * (thousandths * denominator) + top % bottom);
    assert(numeral(text.take(point) + text.skip(point + 1)) * denominator == thousandths
        * denominator);
    assert(text[point] == '.');
}

} // verus!
