use feg_case_studies::planar_holes_hodge_flow::mesh::MeshTopology;
use feg_case_studies::planar_holes_hodge_flow::mesh_file::{
    check_bytes, check_contents, read_planar_mesh, MshBlock, MshContents, LINE_KIND, POINT_KIND,
    TETRAHEDRON_KIND, TRIANGLE_KIND,
};
use feg_case_studies::planar_holes_hodge_flow::models::{
    diagnosed_mass_inverses, one_form_mass_inverse_name,
};
use feg_case_studies::planar_holes_hodge_flow::topology::summarize_topology;
use feg_case_studies::scalar::Scalar;

const NODES: &str = "1 5 1 5\n2 1 0 5\n1\n2\n3\n4\n5\n0 0 0\n1 0 0\n1 1 0\n0 1 0\n0.5 2.5e-1 0\n";
const ELEMENTS: &str = "2 4 1 4\n1 1 1 2\n1 1 2\n2 2 3\n2 1 2 2\n3 1 2 3\n4 4 3 1\n";
const MESSAGE: &str = "mesh file does not hold a mesh in MSH format 4.1";

fn file(format: &str, nodes: &str, elements: &str) -> Vec<u8> {
    format!(
        "$MeshFormat\n{format}\n$EndMeshFormat\n$Nodes\n{nodes}$EndNodes\n$Elements\n{elements}$EndElements\n"
    )
    .into_bytes()
}

fn ordinary() -> String {
    String::from_utf8(file("4.1 0 8", NODES, ELEMENTS)).unwrap()
}

fn read(bytes: &Vec<u8>) -> (Vec<Vec<f64>>, MeshTopology) {
    let (points, topology) = read_planar_mesh(bytes).unwrap();
    let float = |value: &Scalar| f64::from_bits(value.bits);
    (points.iter().map(|point| point.iter().map(float).collect()).collect(), topology)
}

fn assert_square(bytes: &Vec<u8>) {
    let (points, topology) = read(bytes);
    assert_eq!(
        points,
        vec![vec![0.0, 0.0], vec![1.0, 0.0], vec![1.0, 1.0], vec![0.0, 1.0]]
    );
    assert_eq!(topology.vertex_count, 4);
    assert_eq!(topology.edges, vec![(0, 1), (0, 2), (1, 2), (0, 3), (2, 3)]);
    assert_eq!(topology.cells, vec![vec![0, 1, 2], vec![0, 2, 3]]);
}

fn refuse(bytes: &Vec<u8>) {
    assert_eq!(read_planar_mesh(bytes).unwrap_err(), MESSAGE);
}

#[test]
fn text_files_are_read() {
    let bytes = ordinary().into_bytes();
    assert!(check_bytes(&bytes));
    assert_square(&bytes);
    let (_, topology) = read(&bytes);
    assert_eq!(summarize_topology(&topology).b1, 0);
}

#[test]
fn meshes_are_those_of_the_parser() {
    let bytes = ordinary().into_bytes();
    let (complex, coords) = simplicial::io::gmsh::gmsh2coord_complex(&bytes);
    let (points, topology) = read(&bytes);
    assert_eq!(points.len(), coords.coord_iter().count());
    assert_eq!(topology.edges.len(), complex.skeleton_raw(1).len());
    assert_eq!(topology.cells.len(), complex.skeleton_raw(2).len());
    assert_eq!(mshio::parse_msh_bytes(&bytes).unwrap().total_element_count(), 4);
}

#[test]
fn format_lines_may_be_spelt_differently() {
    for format in
        ["4.1 0 8", "4.10 0 8", "41e-1 0 8", "4.1\t00\t4", "4.1\n0\n8", "4.1 0 3", "4.1 000 0"]
    {
        assert_square(&file(format, NODES, ELEMENTS));
    }
}

#[test]
fn other_line_breaks_and_sections_are_read() {
    assert_square(&ordinary().replace('\n', "\r\n").into_bytes());
    let names = "$EndMeshFormat\n\n \n$PhysicalNames\n1\n2 1 \"domain\"\n$EndPhysicalNames\n\
        $Entities\n1 0 0 0\n1 0 0 0 0\n$EndEntities\n";
    assert_square(&ordinary().replace("$EndMeshFormat\n", names).into_bytes());
}

#[test]
fn counts_in_comments_do_not_matter() {
    let comment = "$Comments\n$Nodes\n1 0 1 1\n$Elements\n0 0 1 1\n$Entities\n$EndComments\n";
    assert_square(&ordinary().replace("$Elements\n", &format!("{comment}$Elements\n")).into_bytes());
    assert_square(&format!("{}{comment}", ordinary()).into_bytes());
    let format = "4.1 0 8\n$Nodes\n0 0 0 0";
    assert_square(&file(format, NODES, ELEMENTS));
}

fn binary(size: usize, little: bool) -> Vec<u8> {
    let number = |bytes: &mut Vec<u8>, value: u64, width: usize| {
        let mut digits: Vec<u8> = (0..width)
            .map(|place| if place < 8 { (value >> (8 * place)) as u8 } else { 0 })
            .collect();
        if !little {
            digits.reverse();
        }
        bytes.extend(digits);
    };
    let mut bytes = format!("$MeshFormat\n4.1 1 {size}\n").into_bytes();
    number(&mut bytes, 1, 4);
    bytes.extend(b"\n$EndMeshFormat\n$Nodes\n");
    [1, 4, 1, 4].iter().for_each(|&value| number(&mut bytes, value, size));
    [2, 1, 0].iter().for_each(|&value| number(&mut bytes, value, 4));
    [4, 1, 2, 3, 4].iter().for_each(|&value| number(&mut bytes, value, size));
    let coordinates: [f64; 12] = [0.0, 0.0, 0.0, 1.0, 0.0, 0.0, 1.0, 1.0, 0.0, 0.0, 1.0, 0.0];
    coordinates.iter().for_each(|value| number(&mut bytes, value.to_bits(), 8));
    bytes.extend(b"\n$EndNodes\n$Elements\n");
    [1, 2, 1, 2].iter().for_each(|&value| number(&mut bytes, value, size));
    [2, 1, 2].iter().for_each(|&value| number(&mut bytes, value, 4));
    [2, 1, 1, 2, 3, 2, 1, 3, 4].iter().for_each(|&value| number(&mut bytes, value, size));
    bytes.extend(b"\n$EndElements\n");
    bytes
}

#[test]
fn binary_files_are_read() {
    for size in [1, 2, 4, 8, 16] {
        assert_square(&binary(size, true));
        assert_square(&binary(size, false));
    }
    refuse(&binary(3, true));
    let mut bytes = binary(8, true);
    let elements = bytes.windows(10).position(|part| part == b"$Elements\n").unwrap();
    bytes[elements + 18] = 0;
    assert!(!check_bytes(&bytes));
    refuse(&bytes);
}

#[test]
fn files_that_cannot_be_parsed_are_refused() {
    refuse(&Vec::new());
    refuse(&b"$MeshFormat\n4.1 0 8".to_vec());
    refuse(&file("2.2 0 8", NODES, ELEMENTS));
    refuse(&file("4.1 2 8", NODES, ELEMENTS));
    refuse(&file("4.1 0 2147483648", NODES, ELEMENTS));
    assert_square(&file("4.1 0 2147483647", NODES, ELEMENTS));
    refuse(&file("4.1 0 8", "1 0 1 1\n", ELEMENTS));
    refuse(&file("4.1 0 8", NODES, "0 00 1 1\n"));
    refuse(&file("4.1 0 8", "1 5 0 5\n", ELEMENTS));
    refuse(&file("4.1 0 8", NODES, "1 1 1 1\n2 1 2 1\n1 1 2\n"));
    refuse(&ordinary().replace("Nodes", "Knots").into_bytes());
    refuse(&ordinary().replace("Elements", "Parts").into_bytes());
}

#[test]
fn repeated_sections_are_refused() {
    let nodes = format!("$Nodes\n{NODES}$EndNodes\n");
    refuse(&format!("{}{nodes}", ordinary()).into_bytes());
    refuse(&format!("{}{nodes}{nodes}$Nodes\n1 0 1 1\n", ordinary()).into_bytes());
    let entities = "$Entities\n0 0 0 0\n$EndEntities\n";
    assert_square(&format!("{}{entities}", ordinary()).into_bytes());
    let twice = format!("{}{entities}{entities}$Nodes\n1 0 1 1\n", ordinary()).into_bytes();
    assert!(!check_bytes(&twice));
    refuse(&twice);
}

#[test]
fn files_without_a_mesh_are_refused() {
    let refused = |elements: &str| {
        let bytes = file("4.1 0 8", NODES, elements);
        assert!(check_bytes(&bytes));
        refuse(&bytes);
    };
    refused("1 1 1 1\n2 1 2 1\n1 0 1 2\n");
    refused("1 1 1 1\n2 1 2 1\n1 1 2 1\n");
    refused("1 1 1 1\n2 1 2 1\n1 1 2 6\n");
    refused("1 1 1 1\n0 1 15 1\n1 1\n");
    refused("1 3 1 3\n2 1 2 3\n1 1 2 3\n2 1 2 4\n3 1 2 5\n");
    refused("1 3 1 3\n1 1 1 3\n1 1 2\n2 1 3\n3 1 4\n");
}

#[test]
fn lines_and_tetrahedra_are_cells_too() {
    let lines = file("4.1 0 8", NODES, "1 2 1 2\n1 1 1 2\n1 2 1\n2 2 4\n");
    let (points, topology) = read(&lines);
    assert_eq!(points, vec![vec![0.0, 0.0], vec![1.0, 0.0], vec![0.0, 1.0]]);
    assert_eq!(topology.edges, vec![(0, 1), (1, 2)]);
    assert_eq!(topology.cells, vec![vec![0, 1], vec![1, 2]]);
    let lifted = NODES.replace("0 1 0\n", "0 1 3\n");
    let solid = "2 2 1 2\n2 1 2 1\n1 1 2 3\n3 1 4 1\n2 2 1 4 3\n";
    let (points, topology) = read(&file("4.1 0 8", &lifted, solid));
    assert_eq!(points[3], vec![0.0, 1.0, 3.0]);
    assert_eq!(topology.edges.len(), 6);
    assert_eq!(topology.cells, vec![vec![0, 1, 2, 3]]);
}

#[test]
fn repeated_cells_count_once() {
    let elements = "1 3 1 3\n2 1 2 3\n1 1 2 3\n2 3 2 1\n3 1 3 4\n";
    assert_square(&file("4.1 0 8", NODES, elements));
}

fn contents(blocks: Vec<MshBlock>) -> MshContents {
    MshContents { has_entities: false, node_counts: Some(vec![2, 2]), blocks: Some(blocks) }
}

#[test]
fn sections_are_tested_for_a_mesh() {
    let block = |kind: i32, elements: Vec<Vec<u64>>| MshBlock { kind, elements };
    let triangle = || block(TRIANGLE_KIND, vec![vec![1, 2, 3]]);
    assert!(check_contents(&contents(vec![triangle()])));
    assert!(check_contents(&contents(vec![block(POINT_KIND, vec![vec![9]]), triangle()])));
    assert!(check_contents(&contents(vec![block(3, vec![vec![0, 0]]), triangle()])));
    assert!(check_contents(&contents(vec![block(TETRAHEDRON_KIND, Vec::new()), triangle()])));
    assert!(check_contents(&contents(vec![block(LINE_KIND, vec![vec![4, 1]])])));
    assert!(check_contents(&contents(vec![
        block(TRIANGLE_KIND, vec![vec![7, 8, 9]]),
        block(TETRAHEDRON_KIND, vec![vec![4, 3, 2, 1]]),
    ])));
    assert!(!check_contents(&contents(vec![block(LINE_KIND, vec![vec![1, 1]]), triangle()])));
    assert!(!check_contents(&contents(vec![block(POINT_KIND, vec![vec![0]]), triangle()])));
    assert!(!check_contents(&contents(vec![block(TRIANGLE_KIND, vec![vec![1, 2, 5]])])));
    assert!(!check_contents(&contents(vec![block(TRIANGLE_KIND, vec![vec![1, 2]])])));
    assert!(!check_contents(&contents(Vec::new())));
    let mut sections = contents(vec![triangle()]);
    sections.node_counts = None;
    assert!(!check_contents(&sections));
    sections = contents(Vec::new());
    sections.blocks = None;
    assert!(!check_contents(&sections));
}

#[test]
fn two_mass_inverses_are_diagnosed() {
    let names: Vec<&str> =
        diagnosed_mass_inverses().into_iter().map(one_form_mass_inverse_name).collect();
    assert_eq!(names, vec!["row_sum_lumped", "nc1_projected_sparse_inverse"]);
}
