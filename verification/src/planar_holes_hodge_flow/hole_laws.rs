//! What the geometry script draws: a square, and in it every hole as a circle that goes once around
//! its center.

use super::holes::{
    geo_script, hole_lines, holes_lines, square_lines, twelve_places, PlanarHoleSpec,
};
use crate::text::{
    all_digits, decimal, lemma_decimal_reads_back, lemma_numeral_concat, lemma_padding_reads_back,
    lemma_three_digits, lemma_zeros, numeral, ten_power, zero_padded,
};
use vstd::prelude::*;

verus! {

/// A point that stands in the script with the given number and coordinates.
pub open spec fn gmsh_point(id: nat, x: Seq<char>, y: Seq<char>) -> Seq<char> {
    "Point("@ + decimal(id) + ") = {"@ + x + ", "@ + y + ", 0, lc};\n"@
}

/// An arc around the second point from the first to the third.
pub open spec fn gmsh_arc(id: nat, from: nat, around: nat, to: nat) -> Seq<char> {
    "Circle("@ + decimal(id) + ") = {"@ + decimal(from) + ", "@ + decimal(around) + ", "@ + decimal(
        to,
    ) + "};\n"@
}

/// A straight line from one point to another.
pub open spec fn gmsh_line(id: nat, from: nat, to: nat) -> Seq<char> {
    "Line("@ + decimal(id) + ") = {"@ + decimal(from) + ", "@ + decimal(to) + "};\n"@
}

/// A closed curve of four curves.
pub open spec fn gmsh_loop(id: nat, first: nat, second: nat, third: nat, fourth: nat) -> Seq<char> {
    "Curve Loop("@ + decimal(id) + ") = {"@ + decimal(first) + ", "@ + decimal(second) + ", "@
        + decimal(third) + ", "@ + decimal(fourth) + "};\n"@
}

/// Whether four points are the compass points of a circle: the first lies to the east of the
/// center, at the distance of the radius, and each other is the one before it turned left around
/// the center by a right angle, as is the first after the fourth.
pub open spec fn are_compass_points(
    points: Seq<(int, int)>,
    center: (int, int),
    radius: int,
) -> bool {
    &&& points.len() == 4
    &&& points[0] == (center.0 + radius, center.1)
    &&& turned_left(points[0], points[1], center)
    &&& turned_left(points[1], points[2], center)
    &&& turned_left(points[2], points[3], center)
    &&& turned_left(points[3], points[0], center)
}

/// Whether the second point is the first, turned left around the center by a right angle.
pub open spec fn turned_left(from: (int, int), to: (int, int), center: (int, int)) -> bool {
    to.0 - center.0 == -(from.1 - center.1) && to.1 - center.1 == from.0 - center.0
}

/// A circle in the script: its center, four points, the arcs from each point to the next and from
/// the last to the first, and the closed curve of the arcs. Points and curves are numbered on.
pub open spec fn drawn_circle(
    point: nat,
    curve: nat,
    closed: nat,
    center: (int, int),
    points: Seq<(int, int)>,
) -> Seq<char> {
    gmsh_point(point, twelve_places(center.0), twelve_places(center.1)) + gmsh_point(
        point + 1,
        twelve_places(points[0].0),
        twelve_places(points[0].1),
    ) + gmsh_point(point + 2, twelve_places(points[1].0), twelve_places(points[1].1)) + gmsh_point(
        point + 3,
        twelve_places(points[2].0),
        twelve_places(points[2].1),
    ) + gmsh_point(point + 4, twelve_places(points[3].0), twelve_places(points[3].1)) + gmsh_arc(
        curve,
        point + 1,
        point,
        point + 2,
    ) + gmsh_arc(curve + 1, point + 2, point, point + 3) + gmsh_arc(
        curve + 2,
        point + 3,
        point,
        point + 4,
    ) + gmsh_arc(curve + 3, point + 4, point, point + 1) + gmsh_loop(
        closed,
        curve,
        curve + 1,
        curve + 2,
        curve + 3,
    )
}

/// A hole is drawn as the circle around its center with its radius. The numbers of its points and
/// curves follow those of the square and of the holes before it without a gap.
pub proof fn lemma_hole_is_drawn_as_circle(index: nat, hole: PlanarHoleSpec)
    ensures
        exists|points: Seq<(int, int)>|
            {
                &&& #[trigger] are_compass_points(
                    points,
                    (hole.center.0 as int, hole.center.1 as int),
                    hole.radius as int,
                )
                &&& hole_lines(index as int, hole) == drawn_circle(
                    5 + 5 * index,
                    5 + 4 * index,
                    2 + index,
                    (hole.center.0 as int, hole.center.1 as int),
                    points,
                )
            },
{
    reveal(hole_lines);
    let (x, y, r) = (hole.center.0 as int, hole.center.1 as int, hole.radius as int);
    let points = seq![(x + r, y), (x, y + r), (x - r, y), (x, y - r)];
    assert(are_compass_points(points, (x, y), r));
}

/// The compass points of a circle all lie on it, opposite ones have the center in their middle, and
/// no two of them are the same unless the radius is zero.
pub proof fn lemma_compass_points(points: Seq<(int, int)>, center: (int, int), radius: int)
    requires
        are_compass_points(points, center, radius),
    ensures
        forall|k: int|
            0 <= k < 4 ==> {
                let (dx, dy) = ((#[trigger] points[k]).0 - center.0, points[k].1 - center.1);
                dx * dx + dy * dy == radius * radius
            },
        points[0].0 + points[2].0 == 2 * center.0 && points[0].1 + points[2].1 == 2 * center.1,
        points[1].0 + points[3].0 == 2 * center.0 && points[1].1 + points[3].1 == 2 * center.1,
        radius != 0 ==> points.no_duplicates(),
{
    assert forall|k: int| 0 <= k < 4 implies {
        let (dx, dy) = ((#[trigger] points[k]).0 - center.0, points[k].1 - center.1);
        dx * dx + dy * dy == radius * radius
    } by {
        let (dx, dy) = (points[k].0 - center.0, points[k].1 - center.1);
        assert((dx == radius || dx == -radius) && dy == 0 || (dy == radius || dy == -radius) && dx
            == 0);
        assert(dx * dx + dy * dy == radius * radius) by (nonlinear_arith)
            requires
                (dx == radius || dx == -radius) && dy == 0 || (dy == radius || dy == -radius) && dx
                    == 0,
        ;
    }
}

/// The coordinates stand in the script as decimal fractions with twelve places: read without the
/// point, the digits are the number of thousandths with nine zeros. A minus sign stands in front of
/// negative ones and of no others.
pub proof fn lemma_coordinates_read_back(value: int)
    ensures
        ({
            let size = if value < 0 {
                -value
            } else {
                value
            };
            let text = if value < 0 {
                twelve_places(value).skip(1)
            } else {
                twelve_places(value)
            };
            let point = text.len() - 13;
            &&& point >= 1
            &&& text[point] == '.'
            &&& all_digits(text.take(point)) && all_digits(text.skip(point + 1))
            &&& numeral(text.take(point) + text.skip(point + 1)) == size * 1_000_000_000
            &&& value < 0 ==> twelve_places(value)[0] == '-'
        }),
{
    let size = if value < 0 {
        -value
    } else {
        value
    };
    let (high, low) = ((size / 1000) as nat, (size % 1000) as nat);
    let (whole, part, zeros) = (decimal(high), zero_padded(low, 3), "000000000"@);
    reveal_strlit(".");
    reveal_strlit("-");
    reveal_strlit("000000000");
    let text = if value < 0 {
        twelve_places(value).skip(1)
    } else {
        twelve_places(value)
    };
    let digits = whole + "."@ + part + zeros;
    assert(text =~= digits);
    lemma_decimal_reads_back(high);
    lemma_padding_reads_back(low, 3);
    lemma_three_digits(low);
    lemma_zeros(zeros);
    lemma_numeral_concat(part, zeros);
    lemma_numeral_concat(whole, part + zeros);
    let point = whole.len() as int;
    assert(text.take(point) =~= whole);
    assert(text.skip(point + 1) =~= part + zeros);
    reveal_with_fuel(ten_power, 13);
    assert(ten_power(9) == 1_000_000_000);
    assert(ten_power(12) == 1_000_000_000_000);
    assert(size == 1000 * high + low);
}

/// The part of the script that draws the unit square: its corners in turn, the sides from each to
/// the next and from the last to the first, and the closed curve of the sides.
pub open spec fn drawn_square() -> Seq<char> {
    gmsh_point(1, decimal(0), decimal(0)) + gmsh_point(2, decimal(1), decimal(0)) + gmsh_point(
        3,
        decimal(1),
        decimal(1),
    ) + gmsh_point(4, decimal(0), decimal(1)) + gmsh_line(1, 1, 2) + gmsh_line(2, 2, 3) + gmsh_line(
        3,
        3,
        4,
    ) + gmsh_line(4, 4, 1) + gmsh_loop(1, 1, 2, 3, 4)
}

/// The part of the script that fills the first closed curve and leaves out the others.
pub open spec fn drawn_surface(first: nat, second: nat, third: nat, fourth: nat) -> Seq<char> {
    "Plane Surface(1) = {"@ + decimal(first) + ", "@ + decimal(second) + ", "@ + decimal(third)
        + ", "@ + decimal(fourth) + "};\n"@ + "Physical Surface(\"domain\") = {1};\n"@
}

proof fn lemma_digits()
    ensures
        decimal(0) == seq!['0'],
        decimal(1) == seq!['1'],
        decimal(2) == seq!['2'],
        decimal(3) == seq!['3'],
        decimal(4) == seq!['4'],
{
    assert(decimal(0) =~= seq!['0']);
    assert(decimal(1) =~= seq!['1']);
    assert(decimal(2) =~= seq!['2']);
    assert(decimal(3) =~= seq!['3']);
    assert(decimal(4) =~= seq!['4']);
}

proof fn lemma_corners()
    ensures
        "Point(1) = {0, 0, 0, lc};\n"@ == gmsh_point(1, decimal(0), decimal(0)),
        "Point(2) = {1, 0, 0, lc};\n"@ == gmsh_point(2, decimal(1), decimal(0)),
        "Point(3) = {1, 1, 0, lc};\n"@ == gmsh_point(3, decimal(1), decimal(1)),
        "Point(4) = {0, 1, 0, lc};\n"@ == gmsh_point(4, decimal(0), decimal(1)),
{
    lemma_digits();
    reveal_strlit("Point(");
    reveal_strlit(") = {");
    reveal_strlit(", ");
    reveal_strlit(", 0, lc};\n");
    reveal_strlit("Point(1) = {0, 0, 0, lc};\n");
    reveal_strlit("Point(2) = {1, 0, 0, lc};\n");
    reveal_strlit("Point(3) = {1, 1, 0, lc};\n");
    reveal_strlit("Point(4) = {0, 1, 0, lc};\n");
    assert("Point(1) = {0, 0, 0, lc};\n"@ =~= gmsh_point(1, decimal(0), decimal(0)));
    assert("Point(2) = {1, 0, 0, lc};\n"@ =~= gmsh_point(2, decimal(1), decimal(0)));
    assert("Point(3) = {1, 1, 0, lc};\n"@ =~= gmsh_point(3, decimal(1), decimal(1)));
    assert("Point(4) = {0, 1, 0, lc};\n"@ =~= gmsh_point(4, decimal(0), decimal(1)));
}

proof fn lemma_sides()
    ensures
        "Line(1) = {1, 2};\nLine(2) = {2, 3};\nLine(3) = {3, 4};\nLine(4) = {4, 1};\n"@
            == gmsh_line(1, 1, 2) + gmsh_line(2, 2, 3) + gmsh_line(3, 3, 4) + gmsh_line(4, 4, 1),
        "Curve Loop(1) = {1, 2, 3, 4};\n"@ == gmsh_loop(1, 1, 2, 3, 4),
        "Plane Surface(1) = {1, 2, 3, 4};\n"@ + "Physical Surface(\"domain\") = {1};\n"@
            == drawn_surface(1, 2, 3, 4),
{
    lemma_digits();
    reveal_strlit("Line(");
    reveal_strlit(") = {");
    reveal_strlit(", ");
    reveal_strlit("};\n");
    reveal_strlit("Curve Loop(");
    reveal_strlit("Curve Loop(1) = {1, 2, 3, 4};\n");
    reveal_strlit("Plane Surface(1) = {");
    reveal_strlit("Plane Surface(1) = {1, 2, 3, 4};\n");
    reveal_strlit("Line(1) = {1, 2};\nLine(2) = {2, 3};\nLine(3) = {3, 4};\nLine(4) = {4, 1};\n");
    assert("Line(1) = {1, 2};\nLine(2) = {2, 3};\nLine(3) = {3, 4};\nLine(4) = {4, 1};\n"@
        =~= gmsh_line(1, 1, 2) + gmsh_line(2, 2, 3) + gmsh_line(3, 3, 4) + gmsh_line(4, 4, 1));
    assert("Curve Loop(1) = {1, 2, 3, 4};\n"@ =~= gmsh_loop(1, 1, 2, 3, 4));
    assert("Plane Surface(1) = {1, 2, 3, 4};\n"@ =~= "Plane Surface(1) = {"@ + decimal(1) + ", "@
        + decimal(2) + ", "@ + decimal(3) + ", "@ + decimal(4) + "};\n"@);
}

proof fn lemma_hole_places(holes: Seq<PlanarHoleSpec>, count: int) -> (places: Seq<int>)
    requires
        0 <= count <= holes.len(),
    ensures
        places.len() == count + 1,
        places[0] == 0,
        places[count] == holes_lines(holes, count).len(),
        forall|h: int|
            0 <= h < count ==> 0 <= #[trigger] places[h] <= places[h + 1] <= holes_lines(
                holes,
                count,
            ).len() && holes_lines(holes, count).subrange(places[h], places[h + 1]) == hole_lines(
                h,
                holes[h],
            ),
    decreases count,
{
    if count == 0 {
        seq![0int]
    } else {
        let before = lemma_hole_places(holes, count - 1);
        let (front, last) = (
            holes_lines(holes, count - 1),
            hole_lines(count - 1, holes[count - 1]),
        );
        let whole = holes_lines(holes, count);
        let places = before.push(whole.len() as int);
        assert forall|h: int| 0 <= h < count implies 0 <= #[trigger] places[h] <= places[h + 1]
            <= whole.len() && whole.subrange(places[h], places[h + 1]) == hole_lines(
            h,
            holes[h],
        ) by {
            if h < count - 1 {
                assert(before[h] <= before[h + 1]);
                assert(whole.subrange(places[h], places[h + 1]) =~= front.subrange(
                    before[h],
                    before[h + 1],
                ));
            } else {
                assert(whole.subrange(places[h], places[h + 1]) =~= last);
            }
        }
        places
    }
}

/// The script sets the mesh size, draws the unit square, then every hole in turn, and then fills
/// the square and leaves out three closed curves. With three holes these are their circles.
pub proof fn lemma_script_draws_domain(mesh_size: Seq<char>, holes: Seq<PlanarHoleSpec>)
    ensures
        ({
            let script = geo_script(mesh_size, holes);
            let front = "lc = "@ + mesh_size + ";\n"@ + "Mesh.Algorithm = 6;\n"@ + drawn_square();
            let back = drawn_surface(1, 2, 3, 4);
            exists|places: Seq<int>|
                {
                    &&& places.len() == holes.len() + 1
                    &&& places[0] == front.len()
                    &&& places[holes.len() as int] == script.len() - back.len()
                    &&& script.take(places[0]) == front
                    &&& script.skip(places[holes.len() as int]) == back
                    &&& forall|h: int|
                        0 <= h < holes.len() ==> 0 <= #[trigger] places[h] <= places[h + 1]
                            <= script.len() && script.subrange(places[h], places[h + 1])
                            == hole_lines(h, holes[h])
                }
        }),
{
    let head = "lc = "@ + mesh_size + ";\n"@ + "Mesh.Algorithm = 6;\n"@;
    let front = head + drawn_square();
    let back = drawn_surface(1, 2, 3, 4);
    let middle = holes_lines(holes, holes.len() as int);
    lemma_corners();
    lemma_sides();
    lemma_regrouped(
        head,
        gmsh_point(1, decimal(0), decimal(0)),
        gmsh_point(2, decimal(1), decimal(0)),
        gmsh_point(3, decimal(1), decimal(1)),
        gmsh_point(4, decimal(0), decimal(1)),
        seq![gmsh_line(1, 1, 2), gmsh_line(2, 2, 3), gmsh_line(3, 3, 4), gmsh_line(4, 4, 1)],
        gmsh_loop(1, 1, 2, 3, 4),
    );
    assert(square_lines(mesh_size) == front);
    lemma_last_two(
        front + middle,
        "Plane Surface(1) = {1, 2, 3, 4};\n"@,
        "Physical Surface(\"domain\") = {1};\n"@,
    );
    let script = geo_script(mesh_size, holes);
    assert(script == front + middle + back);
    let places = lemma_places_in_script(holes, front, back);
    assert(places.len() == holes.len() + 1);
}

proof fn lemma_regrouped(
    head: Seq<char>,
    a: Seq<char>,
    b: Seq<char>,
    c: Seq<char>,
    d: Seq<char>,
    sides: Seq<Seq<char>>,
    closed: Seq<char>,
)
    requires
        sides.len() == 4,
    ensures
        head + a + b + c + d + (sides[0] + sides[1] + sides[2] + sides[3]) + closed == head + (a + b
            + c + d + sides[0] + sides[1] + sides[2] + sides[3] + closed),
{
    let corners = a + b + c + d;
    assert(head + a + b + c + d =~= head + corners);
    let lines = sides[0] + sides[1] + sides[2] + sides[3];
    assert(corners + sides[0] + sides[1] + sides[2] + sides[3] =~= corners + lines);
    assert(head + corners + lines + closed =~= head + (corners + lines + closed));
}

proof fn lemma_last_two(front: Seq<char>, a: Seq<char>, b: Seq<char>)
    ensures
        front + a + b == front + (a + b),
{
    assert(front + a + b =~= front + (a + b));
}

proof fn lemma_places_in_script(
    holes: Seq<PlanarHoleSpec>,
    front: Seq<char>,
    back: Seq<char>,
) -> (places: Seq<int>)
    ensures
        ({
            let script = front + holes_lines(holes, holes.len() as int) + back;
            &&& places.len() == holes.len() + 1
            &&& places[0] == front.len()
            &&& places[holes.len() as int] == script.len() - back.len()
            &&& script.take(places[0]) == front
            &&& script.skip(places[holes.len() as int]) == back
            &&& forall|h: int|
                0 <= h < holes.len() ==> 0 <= #[trigger] places[h] <= places[h + 1] <= script.len()
                    && script.subrange(places[h], places[h + 1]) == hole_lines(h, holes[h])
        }),
{
    let middle = holes_lines(holes, holes.len() as int);
    let script = front + middle + back;
    let inner = lemma_hole_places(holes, holes.len() as int);
    let places = Seq::new(holes.len() + 1, |h: int| front.len() + inner[h]);
    assert(script.take(places[0]) =~= front);
    assert(script.skip(places[holes.len() as int]) =~= back);
    assert forall|h: int| 0 <= h < holes.len() implies 0 <= #[trigger] places[h] <= places[h + 1]
        <= script.len() && script.subrange(places[h], places[h + 1]) == hole_lines(h, holes[h]) by {
        assert(inner[h] <= inner[h + 1]);
        assert(script.subrange(places[h], places[h + 1]) =~= middle.subrange(
            inner[h],
            inner[h + 1],
        ));
    }
    places
}

} // verus!
