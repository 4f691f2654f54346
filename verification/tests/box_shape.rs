use cat_engine::video::box_shape::{face_corners, wire_ends};
use cat_engine::video::graphics::{Cube, DrawCall, Mesh, ProjectionError};

#[test]
fn wire_ends_are_the_twelve_edges_of_a_box() {
    let expected = [
        (0, 1),
        (1, 2),
        (2, 3),
        (3, 0),
        (4, 5),
        (5, 6),
        (6, 7),
        (7, 4),
        (0, 4),
        (1, 5),
        (2, 6),
        (3, 7),
    ];
    for (k, ends) in expected.iter().enumerate() {
        assert_eq!(wire_ends(k), *ends);
    }
    assert_eq!(wire_ends(12), (3, 7));
    assert_eq!(wire_ends(usize::MAX), (3, 7));
}

#[test]
fn wire_ends_differ_along_one_axis() {
    let offsets = Cube::new((), 1, 1, 0).corner_offsets();
    for k in 0..12 {
        let (i, j) = wire_ends(k);
        let (p, q) = (offsets[i], offsets[j]);
        let differing =
            (p.0 != q.0) as u8 + (p.1 != q.1) as u8 + (p.2 != q.2) as u8;
        assert_eq!(differing, 1);
    }
}

#[test]
fn every_two_neighbouring_corners_have_one_wire() {
    let offsets = Cube::new((), 1, 1, 0).corner_offsets();
    for i in 0..8 {
        for j in 0..8 {
            let (p, q) = (offsets[i], offsets[j]);
            let differing =
                (p.0 != q.0) as u8 + (p.1 != q.1) as u8 + (p.2 != q.2) as u8;
            let wires = (0..12)
                .filter(|&k| wire_ends(k) == (i, j) || wire_ends(k) == (j, i))
                .count();
            assert_eq!(wires, if differing == 1 { 1 } else { 0 });
        }
    }
}

#[test]
fn face_corners_are_the_six_sides_of_a_box() {
    assert_eq!(face_corners(0), (0, 1, 2, 3));
    assert_eq!(face_corners(1), (4, 5, 6, 7));
    assert_eq!(face_corners(2), (0, 3, 7, 4));
    assert_eq!(face_corners(3), (1, 5, 6, 2));
    assert_eq!(face_corners(4), (0, 1, 5, 4));
    assert_eq!(face_corners(5), (3, 2, 6, 7));
    assert_eq!(face_corners(6), (3, 2, 6, 7));
}

#[test]
fn face_corners_lie_in_one_plane() {
    let offsets = Cube::new((), 3, 5, 0).corner_offsets();
    for f in 0..6 {
        let (a, b, c, d) = face_corners(f);
        let on = [offsets[a], offsets[b], offsets[c], offsets[d]];
        let flat_x = on.iter().all(|p| p.0 == on[0].0);
        let flat_y = on.iter().all(|p| p.1 == on[0].1);
        let flat_z = on.iter().all(|p| p.2 == on[0].2);
        assert_eq!(flat_x as u8 + flat_y as u8 + flat_z as u8, 1);
    }
}

#[test]
fn textured_box_in_view_is_drawn_as_36_lines_and_12_textures() {
    let mut mesh: Mesh<u8> = Mesh::new(Vec::new(), Vec::new());
    mesh.append_box([0, 1, 2, 3, 4, 5, 6, 7], Some(4));
    let projected: Vec<Result<usize, ProjectionError>> = (0..8).map(Ok).collect();
    let calls = mesh.draw(None, &projected);
    assert_eq!(calls.len(), 48);
    let lines = calls.iter().filter(|call| matches!(call, DrawCall::Line { .. })).count();
    assert_eq!(lines, 36);
    // The second triangle of the right face: corners 1, 6 and 2.
    assert_eq!(
        &calls[28..32],
        &[
            DrawCall::Line { from: 1, to: 6, color: None },
            DrawCall::Line { from: 1, to: 2, color: None },
            DrawCall::Line { from: 6, to: 2, color: None },
            DrawCall::TexturedQuad { anchor: 1, texture: 4 },
        ]
    );
}
