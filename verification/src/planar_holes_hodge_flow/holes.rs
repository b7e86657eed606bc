//! The circular holes of the domain, and the geometry script of the mesh generator.

use crate::text::{decimal, decimal_text, three_digit_text, zero_padded};
use vstd::prelude::*;

verus! {

/// A circular hole in the unit square. Lengths are in thousandths.
#[derive(Debug)]
pub struct PlanarHoleSpec {
    pub name: String,
    pub center: (u32, u32),
    pub radius: u32,
}

/// Which holes the unit square has.
#[derive(Debug, Clone, Copy, PartialEq, Eq, Structural)]
pub enum PlanarHolesDomainKind {
    Default,
    Barrier,
}

impl PlanarHolesDomainKind {
    /// The name that stands for the variant in tables.
    pub open spec fn name(self) -> Seq<char> {
        match self {
            PlanarHolesDomainKind::Default => "default_three_holes"@,
            PlanarHolesDomainKind::Barrier => "vertical_barrier_three_holes"@,
        }
    }

    /// The name as it is reported.
    pub fn as_str(self) -> (text: &'static str)
        ensures
            text@ == self.name(),
    {
        match self {
            PlanarHolesDomainKind::Default => "default_three_holes",
            PlanarHolesDomainKind::Barrier => "vertical_barrier_three_holes",
        }
    }
}

impl PlanarHoleSpec {
    pub open spec fn is(&self, name: Seq<char>, x: u32, y: u32, radius: u32) -> bool {
        self.name@ == name && self.center == (x, y) && self.radius == radius
    }
}

/// The three islands of the default domain.
pub open spec fn is_default_domain(holes: Seq<PlanarHoleSpec>) -> bool {
    &&& holes.len() == 3
    &&& holes[0].is("lower_left_island"@, 300, 340, 85)
    &&& holes[1].is("upper_island"@, 550, 680, 95)
    &&& holes[2].is("right_island"@, 760, 360, 75)
}

/// The three islands in a row that part the barrier domain.
pub open spec fn is_barrier_domain(holes: Seq<PlanarHoleSpec>) -> bool {
    &&& holes.len() == 3
    &&& holes[0].is("lower_barrier_island"@, 500, 280, 95)
    &&& holes[1].is("middle_barrier_island"@, 500, 500, 95)
    &&& holes[2].is("upper_barrier_island"@, 500, 720, 95)
}

/// The three holes of the default domain.
pub fn default_holes() -> (holes: Vec<PlanarHoleSpec>)
    ensures
        is_default_domain(holes@),
{
    vec![
        PlanarHoleSpec {
            name: String::from_str("lower_left_island"),
            center: (300, 340),
            radius: 85,
        },
        PlanarHoleSpec { name: String::from_str("upper_island"), center: (550, 680), radius: 95 },
        PlanarHoleSpec { name: String::from_str("right_island"), center: (760, 360), radius: 75 },
    ]
}

/// The holes that stand in a row as a barrier.
pub fn barrier_holes() -> (holes: Vec<PlanarHoleSpec>)
    ensures
        is_barrier_domain(holes@),
{
    vec![
        PlanarHoleSpec {
            name: String::from_str("lower_barrier_island"),
            center: (500, 280),
            radius: 95,
        },
        PlanarHoleSpec {
            name: String::from_str("middle_barrier_island"),
            center: (500, 500),
            radius: 95,
        },
        PlanarHoleSpec {
            name: String::from_str("upper_barrier_island"),
            center: (500, 720),
            radius: 95,
        },
    ]
}

/// The holes of a domain.
pub fn holes_for_domain(domain: PlanarHolesDomainKind) -> (holes: Vec<PlanarHoleSpec>)
    ensures
        match domain {
            PlanarHolesDomainKind::Default => is_default_domain(holes@),
            PlanarHolesDomainKind::Barrier => is_barrier_domain(holes@),
        },
{
    match domain {
        PlanarHolesDomainKind::Default => default_holes(),
        PlanarHolesDomainKind::Barrier => barrier_holes(),
    }
}

/// Whether a hole lies inside the open unit square.
pub open spec fn inside_square(hole: PlanarHoleSpec) -> bool {
    &&& hole.radius < hole.center.0
    &&& hole.center.0 + hole.radius < 1000
    &&& hole.radius < hole.center.1
    &&& hole.center.1 + hole.radius < 1000
}

/// Whether two holes do not touch.
pub open spec fn apart(left: PlanarHoleSpec, right: PlanarHoleSpec) -> bool {
    let dx = left.center.0 - right.center.0;
    let dy = left.center.1 - right.center.1;
    let reach = left.radius + right.radius;
    dx * dx + dy * dy > reach * reach
}

/// In both domains, the holes lie inside the square and do not touch one another.
pub proof fn lemma_holes_are_disjoint(holes: Seq<PlanarHoleSpec>)
    requires
        is_default_domain(holes) || is_barrier_domain(holes),
    ensures
        forall|i: int| 0 <= i < holes.len() ==> inside_square(#[trigger] holes[i]),
        forall|i: int, j: int|
            0 <= i < j < holes.len() ==> apart(#[trigger] holes[i], #[trigger] holes[j]),
{
    assert forall|i: int, j: int| 0 <= i < j < holes.len() implies apart(
        #[trigger] holes[i],
        #[trigger] holes[j],
    ) by {
        assert(i == 0 && j == 1 || i == 0 && j == 2 || i == 1 && j == 2);
        let dx = holes[i].center.0 - holes[j].center.0;
        let dy = holes[i].center.1 - holes[j].center.1;
        let reach = holes[i].radius + holes[j].radius;
        if is_default_domain(holes) {
            if i == 0 && j == 1 {
                assert(dx == -250 && dy == -340 && reach == 180);
                assert(dx * dx + dy * dy > reach * reach) by (nonlinear_arith)
                    requires
                        dx == -250,
                        dy == -340,
                        reach == 180,
                ;
            } else if i == 0 && j == 2 {
                assert(dx * dx + dy * dy > reach * reach) by (nonlinear_arith)
                    requires
                        dx == -460,
                        dy == -20,
                        reach == 160,
                ;
            } else {
                assert(dx * dx + dy * dy > reach * reach) by (nonlinear_arith)
                    requires
                        dx == -210,
                        dy == 320,
                        reach == 170,
                ;
            }
        } else {
            assert(dx * dx + dy * dy > reach * reach) by (nonlinear_arith)
                requires
                    dx == 0,
                    dy == -220 || dy == -440,
                    reach == 190,
            ;
        }
    }
}

/// A number of thousandths with twelve decimal places.
pub open spec fn twelve_places(value: int) -> Seq<char> {
    let size = if value < 0 {
        -value
    } else {
        value
    };
    let digits = decimal((size / 1000) as nat) + "."@ + zero_padded((size % 1000) as nat, 3)
        + "000000000"@;
    if value < 0 {
        "-"@ + digits
    } else {
        digits
    }
}

fn twelve_places_text(value: i64) -> (text: String)
    requires
        -0x2_0000_0000 < value < 0x2_0000_0000,
    ensures
        text@ == twelve_places(value as int),
{
    let size: u64 = if value < 0 {
        (-value) as u64
    } else {
        value as u64
    };
    let mut text = String::from_str(
        if value < 0 {
            "-"
        } else {
            ""
        },
    );
    proof {
        reveal_strlit("");
    }
    text.append(decimal_text(size / 1000).as_str());
    text.append(".");
    text.append(three_digit_text((size % 1000) as usize).as_str());
    text.append("000000000");
    proof {
        assert(text@ =~= twelve_places(value as int));
    }
    text
}

/// A point of the geometry script.
pub open spec fn point_line(id: int, x: int, y: int) -> Seq<char> {
    "Point("@ + decimal(id as nat) + ") = {"@ + twelve_places(x) + ", "@ + twelve_places(y)
        + ", 0, lc};\n"@
}

/// A quarter circle of the geometry script.
pub open spec fn circle_line(id: int, from: int, center: int, to: int) -> Seq<char> {
    "Circle("@ + decimal(id as nat) + ") = {"@ + decimal(from as nat) + ", "@ + decimal(
        center as nat,
    ) + ", "@ + decimal(to as nat) + "};\n"@
}

/// The closed curve of four curves in a row.
pub open spec fn curve_loop_line(id: int, first: int) -> Seq<char> {
    "Curve Loop("@ + decimal(id as nat) + ") = {"@ + decimal(first as nat) + ", "@ + decimal(
        (first + 1) as nat,
    ) + ", "@ + decimal((first + 2) as nat) + ", "@ + decimal((first + 3) as nat) + "};\n"@
}

/// The square: four corners and the sides between them.
pub open spec fn square_lines(mesh_size: Seq<char>) -> Seq<char> {
    "lc = "@ + mesh_size + ";\n"@ + "Mesh.Algorithm = 6;\n"@ + "Point(1) = {0, 0, 0, lc};\n"@
        + "Point(2) = {1, 0, 0, lc};\n"@ + "Point(3) = {1, 1, 0, lc};\n"@
        + "Point(4) = {0, 1, 0, lc};\n"@
        + "Line(1) = {1, 2};\nLine(2) = {2, 3};\nLine(3) = {3, 4};\nLine(4) = {4, 1};\n"@
        + "Curve Loop(1) = {1, 2, 3, 4};\n"@
}

/// The hole of the given index: its center, its four compass points, the four quarter circles
/// between them, and the closed curve that they make.
#[verifier::opaque]
pub open spec fn hole_lines(index: int, hole: PlanarHoleSpec) -> Seq<char> {
    let point = 5 + 5 * index;
    let curve = 5 + 4 * index;
    let (x, y) = (hole.center.0 as int, hole.center.1 as int);
    let r = hole.radius as int;
    point_line(point, x, y) + point_line(point + 1, x + r, y) + point_line(point + 2, x, y + r)
        + point_line(point + 3, x - r, y) + point_line(point + 4, x, y - r) + circle_line(
        curve,
        point + 1,
        point,
        point + 2,
    ) + circle_line(curve + 1, point + 2, point, point + 3) + circle_line(
        curve + 2,
        point + 3,
        point,
        point + 4,
    ) + circle_line(curve + 3, point + 4, point, point + 1) + curve_loop_line(2 + index, curve)
}

/// The first `count` holes, one after the other.
pub open spec fn holes_lines(holes: Seq<PlanarHoleSpec>, count: int) -> Seq<char>
    decreases count,
{
    if count <= 0 {
        Seq::empty()
    } else {
        holes_lines(holes, count - 1) + hole_lines(count - 1, holes[count - 1])
    }
}

/// The geometry script: the square, the holes, and the surface between them.
pub open spec fn geo_script(mesh_size: Seq<char>, holes: Seq<PlanarHoleSpec>) -> Seq<char> {
    square_lines(mesh_size) + holes_lines(holes, holes.len() as int)
        + "Plane Surface(1) = {1, 2, 3, 4};\n"@ + "Physical Surface(\"domain\") = {1};\n"@
}

fn point_text(id: u64, x: i64, y: i64) -> (text: String)
    requires
        -0x2_0000_0000 < x < 0x2_0000_0000,
        -0x2_0000_0000 < y < 0x2_0000_0000,
    ensures
        text@ == point_line(id as int, x as int, y as int),
{
    let mut text = String::from_str("Point(");
    text.append(decimal_text(id).as_str());
    text.append(") = {");
    text.append(twelve_places_text(x).as_str());
    text.append(", ");
    text.append(twelve_places_text(y).as_str());
    text.append(", 0, lc};\n");
    text
}

fn circle_text(id: u64, from: u64, center: u64, to: u64) -> (text: String)
    ensures
        text@ == circle_line(id as int, from as int, center as int, to as int),
{
    let mut text = String::from_str("Circle(");
    text.append(decimal_text(id).as_str());
    text.append(") = {");
    text.append(decimal_text(from).as_str());
    text.append(", ");
    text.append(decimal_text(center).as_str());
    text.append(", ");
    text.append(decimal_text(to).as_str());
    text.append("};\n");
    text
}

fn curve_loop_text(id: u64, first: u64) -> (text: String)
    requires
        first + 3 <= u64::MAX,
    ensures
        text@ == curve_loop_line(id as int, first as int),
{
    let mut text = String::from_str("Curve Loop(");
    text.append(decimal_text(id).as_str());
    text.append(") = {");
    text.append(decimal_text(first).as_str());
    text.append(", ");
    text.append(decimal_text(first + 1).as_str());
    text.append(", ");
    text.append(decimal_text(first + 2).as_str());
    text.append(", ");
    text.append(decimal_text(first + 3).as_str());
    text.append("};\n");
    text
}

fn hole_text(index: u64, hole: &PlanarHoleSpec) -> (text: String)
    requires
        9 + 5 * index <= u64::MAX,
    ensures
        text@ == hole_lines(index as int, *hole),
{
    reveal(hole_lines);
    let point: u64 = 5 + 5 * index;
    let curve: u64 = 5 + 4 * index;
    let x: i64 = hole.center.0 as i64;
    let y: i64 = hole.center.1 as i64;
    let r: i64 = hole.radius as i64;
    let mut text = point_text(point, x, y);
    text.append(point_text(point + 1, x + r, y).as_str());
    text.append(point_text(point + 2, x, y + r).as_str());
    text.append(point_text(point + 3, x - r, y).as_str());
    text.append(point_text(point + 4, x, y - r).as_str());
    text.append(circle_text(curve, point + 1, point, point + 2).as_str());
    text.append(circle_text(curve + 1, point + 2, point, point + 3).as_str());
    text.append(circle_text(curve + 2, point + 3, point, point + 4).as_str());
    text.append(circle_text(curve + 3, point + 4, point, point + 1).as_str());
    text.append(curve_loop_text(2 + index, curve).as_str());
    text
}

fn holes_text(holes: &Vec<PlanarHoleSpec>) -> (text: String)
    requires
        9 + 5 * holes.len() <= u64::MAX,
    ensures
        text@ == holes_lines(holes@, holes.len() as int),
{
    let mut text = String::new();
    let mut index: usize = 0;
    while index < holes.len()
        invariant
            index <= holes.len(),
            9 + 5 * holes.len() <= u64::MAX,
            text@ == holes_lines(holes@, index as int),
        decreases holes.len() - index,
    {
        text.append(hole_text(index as u64, &holes[index]).as_str());
        index = index + 1;
    }
    text
}

/// Writes the geometry script for a square with the given holes. The mesh size is given as text
/// with twelve decimal places.
pub fn planar_holes_geo_for_holes(mesh_size: &str, holes: &Vec<PlanarHoleSpec>) -> (geo: String)
    requires
        9 + 5 * holes.len() <= u64::MAX,
    ensures
        geo@ == geo_script(mesh_size@, holes@),
{
    let mut geo = String::from_str("lc = ");
    geo.append(mesh_size);
    geo.append(";\n");
    geo.append("Mesh.Algorithm = 6;\n");
    geo.append("Point(1) = {0, 0, 0, lc};\n");
    geo.append("Point(2) = {1, 0, 0, lc};\n");
    geo.append("Point(3) = {1, 1, 0, lc};\n");
    geo.append("Point(4) = {0, 1, 0, lc};\n");
    geo.append(
        "Line(1) = {1, 2};\nLine(2) = {2, 3};\nLine(3) = {3, 4};\nLine(4) = {4, 1};\n",
    );
    geo.append("Curve Loop(1) = {1, 2, 3, 4};\n");
    geo.append(holes_text(holes).as_str());
    geo.append("Plane Surface(1) = {1, 2, 3, 4};\n");
    geo.append("Physical Surface(\"domain\") = {1};\n");
    geo
}

/// Writes the geometry script for the default domain.
pub fn planar_holes_geo(mesh_size: &str) -> (geo: String)
    ensures
        exists|holes: Seq<PlanarHoleSpec>| #[trigger]
            is_default_domain(holes) && geo@ == geo_script(mesh_size@, holes),
{
    let holes = default_holes();
    planar_holes_geo_for_holes(mesh_size, &holes)
}

} // verus!
