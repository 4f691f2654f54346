use cat_engine::color::Color;
use cat_engine::video::graphics::{Cube, DrawCall, Edge, Mesh, ProjectionError};

type World = (f64, f64, f64);
type Screen = (f64, f64);

fn line(a: usize, b: usize) -> Edge {
    Edge::Line { a, b }
}

fn triangle(a: usize, b: usize, c: usize, texture: usize) -> Edge {
    Edge::Triangle { a, b, c, texture }
}

/// The eight corners of a box, from its first corner and the offsets of the others.
fn corners_of(cube: &Cube<World>) -> [World; 8] {
    let (x, y, z) = *cube.position();
    cube.corner_offsets().map(|(dx, dy, dz)| (x + dx as f64, y + dy as f64, z + dz as f64))
}

/// Perspective for a camera that looks along +z without turning.
fn project_straight(
    point: World,
    camera: World,
    fov: f64,
    width: i32,
    height: i32,
) -> Result<Screen, ProjectionError> {
    let (dx, dy, dz) = (point.0 - camera.0, point.1 - camera.1, point.2 - camera.2);
    if dz <= 0.1 {
        Err(ProjectionError::OutOfBounds)
    } else {
        Ok((width as f64 / 2.0 + dx * fov / dz, height as f64 / 2.0 + dy * fov / dz))
    }
}

fn numbered(count: usize) -> Vec<Result<usize, ProjectionError>> {
    (0..count).map(Ok).collect()
}

#[test]
fn new_mesh_keeps_vertices_and_edges() {
    let mesh = Mesh::new(vec![10u8, 20, 30], vec![line(0, 1), line(1, 2)]);
    assert_eq!(mesh.vertices(), &vec![10u8, 20, 30]);
    assert_eq!(mesh.edges(), &vec![line(0, 1), line(1, 2)]);
    assert!(mesh.is_well_formed());
}

#[test]
fn append_box_on_empty_mesh_makes_8_vertices_and_12_edges() {
    let mut mesh: Mesh<u8> = Mesh::new(Vec::new(), Vec::new());
    mesh.append_box([0, 1, 2, 3, 4, 5, 6, 7], None);
    assert_eq!(mesh.vertices().len(), 8);
    assert_eq!(mesh.edges().len(), 12);
    assert!(mesh.is_well_formed());
}

#[test]
fn append_box_wireframe_makes_the_twelve_edges_in_order() {
    let mut mesh: Mesh<u8> = Mesh::new(Vec::new(), Vec::new());
    mesh.append_box([0, 1, 2, 3, 4, 5, 6, 7], None);
    assert_eq!(
        mesh.edges(),
        &vec![
            line(0, 1),
            line(1, 2),
            line(2, 3),
            line(3, 0),
            line(4, 5),
            line(5, 6),
            line(6, 7),
            line(7, 4),
            line(0, 4),
            line(1, 5),
            line(2, 6),
            line(3, 7),
        ]
    );
}

#[test]
fn append_box_textured_makes_two_triangles_per_face() {
    let mut mesh: Mesh<u8> = Mesh::new(Vec::new(), Vec::new());
    mesh.append_box([0, 1, 2, 3, 4, 5, 6, 7], Some(9));
    assert_eq!(mesh.vertices().len(), 8);
    assert_eq!(
        mesh.edges(),
        &vec![
            triangle(0, 1, 2, 9),
            triangle(0, 2, 3, 9),
            triangle(4, 5, 6, 9),
            triangle(4, 6, 7, 9),
            triangle(0, 3, 7, 9),
            triangle(0, 7, 4, 9),
            triangle(1, 5, 6, 9),
            triangle(1, 6, 2, 9),
            triangle(0, 1, 5, 9),
            triangle(0, 5, 4, 9),
            triangle(3, 2, 6, 9),
            triangle(3, 6, 7, 9),
        ]
    );
}

#[test]
fn append_box_twice_makes_16_vertices_and_24_edges_without_collisions() {
    let mut mesh: Mesh<u8> = Mesh::new(Vec::new(), Vec::new());
    mesh.append_box([0, 1, 2, 3, 4, 5, 6, 7], None);
    mesh.append_box([10, 11, 12, 13, 14, 15, 16, 17], None);
    assert_eq!(mesh.vertices().len(), 16);
    assert_eq!(mesh.edges().len(), 24);
    assert_eq!(
        mesh.vertices(),
        &vec![0, 1, 2, 3, 4, 5, 6, 7, 10, 11, 12, 13, 14, 15, 16, 17]
    );
    for (k, edge) in mesh.edges().iter().enumerate() {
        let (a, b) = match *edge {
            Edge::Line { a, b } => (a, b),
            _ => panic!("a wireframe box holds line segments only"),
        };
        if k < 12 {
            assert!(a < 8 && b < 8);
        } else {
            assert!((8..16).contains(&a) && (8..16).contains(&b));
        }
    }
    assert_eq!(mesh.edges()[12], line(8, 9));
    assert_eq!(mesh.edges()[15], line(11, 8));
    assert_eq!(mesh.edges()[23], line(11, 15));
    assert!(mesh.is_well_formed());
}

#[test]
fn append_box_keeps_what_is_there() {
    let mut mesh = Mesh::new(vec![70u8, 71, 72], vec![line(2, 0), triangle(0, 1, 2, 5)]);
    mesh.append_box([0, 1, 2, 3, 4, 5, 6, 7], Some(1));
    assert_eq!(&mesh.vertices()[..3], &[70, 71, 72]);
    assert_eq!(&mesh.vertices()[3..], &[0, 1, 2, 3, 4, 5, 6, 7]);
    assert_eq!(&mesh.edges()[..2], &[line(2, 0), triangle(0, 1, 2, 5)]);
    assert_eq!(mesh.edges()[2], triangle(3, 4, 5, 1));
    assert_eq!(mesh.edges()[13], triangle(6, 9, 10, 1));
    assert_eq!(mesh.edges().len(), 14);
}

#[test]
fn is_well_formed_finds_an_index_out_of_range() {
    assert!(!Mesh::new(vec![1u8, 2], vec![line(0, 2)]).is_well_formed());
    assert!(!Mesh::new(vec![1u8, 2], vec![line(0, 1), triangle(0, 1, 2, 0)]).is_well_formed());
    assert!(!Mesh::new(
        vec![1u8, 2, 3, 4],
        vec![Edge::Quad { a: 0, b: 1, c: 2, d: 4, texture: 0 }]
    )
    .is_well_formed());
    assert!(!Mesh::<u8>::new(vec![], vec![line(0, 0)]).is_well_formed());
    assert!(Mesh::new(vec![1u8, 2], vec![line(1, 1)]).is_well_formed());
    assert!(Mesh::<u8>::new(vec![], vec![]).is_well_formed());
}

#[test]
fn edge_is_in_range_compares_every_index() {
    assert!(line(0, 4).is_in_range(5));
    assert!(!line(0, 5).is_in_range(5));
    assert!(!line(5, 0).is_in_range(5));
    assert!(triangle(1, 2, 3, 100).is_in_range(4));
    assert!(!triangle(1, 2, 4, 0).is_in_range(4));
    assert!(!Edge::Quad { a: 0, b: 0, c: 0, d: 1, texture: 0 }.is_in_range(1));
}

#[test]
fn cube_corner_offsets_follow_width_and_height() {
    let cube = Cube::new((1.0, 2.0, 3.0), 2, 3, 7);
    assert_eq!(cube.position(), &(1.0, 2.0, 3.0));
    assert_eq!(cube.texture_index, 7);
    assert_eq!(
        cube.corner_offsets(),
        [
            (0, 0, 0),
            (2, 0, 0),
            (2, -3, 0),
            (0, -3, 0),
            (0, 0, -2),
            (2, 0, -2),
            (2, -3, -2),
            (0, -3, -2),
        ]
    );
}

#[test]
fn cube_corner_offsets_at_the_limits() {
    let cube = Cube::new((), i32::MIN, i32::MAX, 0);
    let offsets = cube.corner_offsets();
    assert_eq!(offsets[6], (-2147483648, -2147483647, 2147483648));
    assert_eq!(offsets[0], (0, 0, 0));
}

#[test]
fn draw_line_segment_is_one_line_in_the_given_color() {
    let red = Color::new(255, 0, 0);
    let mesh = Mesh::new(vec![(), ()], vec![line(1, 0)]);
    let calls = mesh.draw(Some(red), &vec![Ok((1.5, 2.5)), Ok((3.0, 4.0))]);
    assert_eq!(
        calls,
        vec![DrawCall::Line { from: (3.0, 4.0), to: (1.5, 2.5), color: Some(red) }]
    );
    let plain = mesh.draw(None, &vec![Ok((1.5, 2.5)), Ok((3.0, 4.0))]);
    assert_eq!(plain, vec![DrawCall::Line { from: (3.0, 4.0), to: (1.5, 2.5), color: None }]);
}

#[test]
fn draw_triangle_is_three_lines_and_its_texture() {
    let mesh = Mesh::new(vec![(), (), ()], vec![triangle(2, 0, 1, 42)]);
    let calls = mesh.draw(None, &numbered(3));
    assert_eq!(
        calls,
        vec![
            DrawCall::Line { from: 2, to: 0, color: None },
            DrawCall::Line { from: 2, to: 1, color: None },
            DrawCall::Line { from: 0, to: 1, color: None },
            DrawCall::TexturedQuad { anchor: 2, texture: 42 },
        ]
    );
}

#[test]
fn draw_quad_is_six_lines_and_its_texture() {
    let mesh = Mesh::new(
        vec![(), (), (), ()],
        vec![Edge::Quad { a: 0, b: 1, c: 2, d: 3, texture: 5 }],
    );
    let calls = mesh.draw(None, &numbered(4));
    assert_eq!(
        calls,
        vec![
            DrawCall::Line { from: 0, to: 1, color: None },
            DrawCall::Line { from: 0, to: 2, color: None },
            DrawCall::Line { from: 0, to: 3, color: None },
            DrawCall::Line { from: 1, to: 2, color: None },
            DrawCall::Line { from: 1, to: 3, color: None },
            DrawCall::Line { from: 2, to: 3, color: None },
            DrawCall::TexturedQuad { anchor: 0, texture: 5 },
        ]
    );
}

#[test]
fn draw_skips_an_element_with_any_vertex_out_of_view() {
    let mesh = Mesh::new(
        vec![(), (), (), ()],
        vec![
            line(0, 1),
            line(1, 2),
            triangle(1, 2, 3, 8),
            triangle(0, 1, 3, 8),
            Edge::Quad { a: 0, b: 1, c: 2, d: 3, texture: 8 },
            line(3, 0),
        ],
    );
    let projected = vec![Ok(0), Ok(1), Err(ProjectionError::OutOfBounds), Ok(3)];
    let calls = mesh.draw(None, &projected);
    assert_eq!(
        calls,
        vec![
            DrawCall::Line { from: 0, to: 1, color: None },
            DrawCall::Line { from: 0, to: 1, color: None },
            DrawCall::Line { from: 0, to: 3, color: None },
            DrawCall::Line { from: 1, to: 3, color: None },
            DrawCall::TexturedQuad { anchor: 0, texture: 8 },
            DrawCall::Line { from: 3, to: 0, color: None },
        ]
    );
}

#[test]
fn draw_with_nothing_in_view_draws_nothing() {
    let mut mesh: Mesh<u8> = Mesh::new(Vec::new(), Vec::new());
    mesh.append_box([0, 1, 2, 3, 4, 5, 6, 7], Some(3));
    let projected: Vec<Result<u8, ProjectionError>> = vec![Err(ProjectionError::OutOfBounds); 8];
    assert_eq!(mesh.draw(None, &projected), vec![]);
}

#[test]
fn draw_of_an_empty_mesh_draws_nothing() {
    let mesh: Mesh<u8> = Mesh::new(Vec::new(), Vec::new());
    let projected: Vec<Result<u8, ProjectionError>> = Vec::new();
    assert_eq!(mesh.draw(None, &projected), vec![]);
}

#[test]
fn draw_follows_the_order_of_the_elements() {
    let mesh = Mesh::new(vec![(), (), ()], vec![line(2, 1), line(0, 2), line(1, 0)]);
    let calls = mesh.draw(None, &numbered(3));
    assert_eq!(
        calls,
        vec![
            DrawCall::Line { from: 2, to: 1, color: None },
            DrawCall::Line { from: 0, to: 2, color: None },
            DrawCall::Line { from: 1, to: 0, color: None },
        ]
    );
}

#[test]
fn box_in_front_of_the_camera_is_drawn_as_12_lines() {
    let cube = Cube::new((0.0, 0.0, 0.0), 2, 2, 0);
    let mut mesh: Mesh<World> = Mesh::new(Vec::new(), Vec::new());
    mesh.append_box(corners_of(&cube), None);
    assert_eq!(
        mesh.vertices(),
        &vec![
            (0.0, 0.0, 0.0),
            (2.0, 0.0, 0.0),
            (2.0, -2.0, 0.0),
            (0.0, -2.0, 0.0),
            (0.0, 0.0, -2.0),
            (2.0, 0.0, -2.0),
            (2.0, -2.0, -2.0),
            (0.0, -2.0, -2.0),
        ]
    );

    let camera = (0.0, 0.0, -10.0);
    let projected: Vec<Result<Screen, ProjectionError>> = mesh
        .vertices()
        .iter()
        .map(|&vertex| project_straight(vertex, camera, 300.0, 800, 600))
        .collect();
    assert!(projected.iter().all(|place| place.is_ok()));

    let white = Color::new(255, 255, 255);
    let calls = mesh.draw(Some(white), &projected);
    assert_eq!(calls.len(), 12);
    assert!(calls.iter().all(|call| matches!(call, DrawCall::Line { color: Some(c), .. } if *c == white)));
    assert_eq!(
        calls[0],
        DrawCall::Line { from: (400.0, 300.0), to: (460.0, 300.0), color: Some(white) }
    );
    assert_eq!(
        calls[8],
        DrawCall::Line { from: (400.0, 300.0), to: (400.0, 300.0), color: Some(white) }
    );
    assert_eq!(
        calls[10],
        DrawCall::Line { from: (460.0, 240.0), to: (475.0, 225.0), color: Some(white) }
    );
}

#[test]
fn box_with_its_back_behind_the_camera_keeps_the_front_face_only() {
    let cube = Cube::new((0.0, 0.0, 1.0), 2, 2, 0);
    let mut mesh: Mesh<World> = Mesh::new(Vec::new(), Vec::new());
    mesh.append_box(corners_of(&cube), None);
    let camera = (0.0, 0.0, 0.0);
    let projected: Vec<Result<Screen, ProjectionError>> = mesh
        .vertices()
        .iter()
        .map(|&vertex| project_straight(vertex, camera, 300.0, 800, 600))
        .collect();
    let calls = mesh.draw(None, &projected);
    assert_eq!(
        calls,
        vec![
            DrawCall::Line { from: (400.0, 300.0), to: (1000.0, 300.0), color: None },
            DrawCall::Line { from: (1000.0, 300.0), to: (1000.0, -300.0), color: None },
            DrawCall::Line { from: (1000.0, -300.0), to: (400.0, -300.0), color: None },
            DrawCall::Line { from: (400.0, -300.0), to: (400.0, 300.0), color: None },
        ]
    );
}

#[test]
fn projection_error_says_out_of_bounds() {
    assert_eq!(ProjectionError::OutOfBounds.message(), "out of bounds");
}
