use vstd::prelude::*;

verus! {

/// Where the `i`-th of the eight corners of a box lies, as three answers:
/// is it on the right, is it at the bottom, is it at the back. The corners
/// of the front face come first, from the top left one clockwise, then those
/// of the back face in the same order.
pub open spec fn box_corner(i: int) -> (bool, bool, bool) {
    if i == 0 {
        (false, false, false)
    } else if i == 1 {
        (true, false, false)
    } else if i == 2 {
        (true, true, false)
    } else if i == 3 {
        (false, true, false)
    } else if i == 4 {
        (false, false, true)
    } else if i == 5 {
        (true, false, true)
    } else if i == 6 {
        (true, true, true)
    } else {
        (false, true, true)
    }
}

/// How far the `i`-th corner of a box lies from its first corner along the
/// three axes, for a box of the given width and height whose depth is its
/// width: right is `+x`, down is `-y`, back is `-z`.
pub open spec fn corner_offset(i: int, width: int, height: int) -> (int, int, int) {
    let (right, down, back) = box_corner(i);
    (
        if right {
            width
        } else {
            0
        },
        if down {
            -height
        } else {
            0
        },
        if back {
            -width
        } else {
            0
        },
    )
}

/// The two corners that the `k`-th of the twelve edges of a box joins, as
/// corner numbers: the four edges of the front face, clockwise from its top
/// edge, then those of the back face likewise, then the four edges that join
/// a front corner to the back corner behind it.
pub open spec fn box_wire(k: int) -> (int, int) {
    if k == 0 {
        (0, 1)
    } else if k == 1 {
        (1, 2)
    } else if k == 2 {
        (2, 3)
    } else if k == 3 {
        (3, 0)
    } else if k == 4 {
        (4, 5)
    } else if k == 5 {
        (5, 6)
    } else if k == 6 {
        (6, 7)
    } else if k == 7 {
        (7, 4)
    } else if k == 8 {
        (0, 4)
    } else if k == 9 {
        (1, 5)
    } else if k == 10 {
        (2, 6)
    } else {
        (3, 7)
    }
}

/// The four corners of the `f`-th of the six faces of a box, as corner
/// numbers, going round the face: front, back, left, right, top, bottom.
pub open spec fn box_face(f: int) -> (int, int, int, int) {
    if f == 0 {
        (0, 1, 2, 3)
    } else if f == 1 {
        (4, 5, 6, 7)
    } else if f == 2 {
        (0, 3, 7, 4)
    } else if f == 3 {
        (1, 5, 6, 2)
    } else if f == 4 {
        (0, 1, 5, 4)
    } else {
        (3, 2, 6, 7)
    }
}

/// The three corners of the `k`-th of the twelve triangles of a box. Face
/// `k / 2` is cut along the diagonal from its first corner to its third; the
/// even triangle holds its second corner and the odd one its fourth.
pub open spec fn box_triangle(k: int) -> (int, int, int) {
    let (a, b, c, d) = box_face(k / 2);
    if k % 2 == 0 {
        (a, b, c)
    } else {
        (a, c, d)
    }
}

/// Two corners of a box are neighbours where they are the two ends of one of
/// its edges: they differ in exactly one of the three answers of
/// [`box_corner`].
pub open spec fn neighbours(i: int, j: int) -> bool {
    let (right_i, down_i, back_i) = box_corner(i);
    let (right_j, down_j, back_j) = box_corner(j);
    ||| right_i != right_j && down_i == down_j && back_i == back_j
    ||| right_i == right_j && down_i != down_j && back_i == back_j
    ||| right_i == right_j && down_i == down_j && back_i != back_j
}

/// The `k`-th edge of the wireframe joins the corners `i` and `j`, in either
/// direction.
pub open spec fn wire_joins(k: int, i: int, j: int) -> bool {
    box_wire(k) == (i, j) || box_wire(k) == (j, i)
}

/// Corner `i` lies on the side of the box that `axis` and `far` name: on the
/// left or right for axis 0, at the top or bottom for axis 1, at the front or
/// back for axis 2, the second of each where `far` holds.
pub open spec fn on_side(i: int, axis: int, far: bool) -> bool {
    let (right, down, back) = box_corner(i);
    if axis == 0 {
        right == far
    } else if axis == 1 {
        down == far
    } else {
        back == far
    }
}

/// The side of the box that its `f`-th face covers, as [`on_side`] names it.
pub open spec fn face_side(f: int) -> (int, bool) {
    if f == 0 {
        (2, false)
    } else if f == 1 {
        (2, true)
    } else if f == 2 {
        (0, false)
    } else if f == 3 {
        (0, true)
    } else if f == 4 {
        (1, false)
    } else {
        (1, true)
    }
}

/// The eight corners are the eight combinations of right, bottom and back:
/// no two corners lie in the same place.
pub proof fn lemma_corners_differ(i: int, j: int)
    requires
        0 <= i < 8,
        0 <= j < 8,
        i != j,
    ensures
        box_corner(i) != box_corner(j),
{
}

/// The wireframe is the twelve edges of the box, each once: every edge of
/// the wireframe joins two neighbouring corners, every two neighbouring
/// corners are joined by an edge of the wireframe, and by one only.
pub proof fn lemma_wireframe_is_the_edges_of_the_box()
    ensures
        forall|k: int|
            0 <= k < 12 ==> {
                let (i, j) = #[trigger] box_wire(k);
                0 <= i < 8 && 0 <= j < 8 && neighbours(i, j)
            },
        forall|i: int, j: int|
            0 <= i < 8 && 0 <= j < 8 && #[trigger] neighbours(i, j) ==> exists|k: int|
                0 <= k < 12 && wire_joins(k, i, j),
        forall|k: int, l: int, i: int, j: int|
            0 <= k < 12 && 0 <= l < 12 && #[trigger] wire_joins(k, i, j) && #[trigger] wire_joins(
                l,
                i,
                j,
            ) ==> k == l,
{
    assert forall|i: int, j: int|
        0 <= i < 8 && 0 <= j < 8 && #[trigger] neighbours(i, j) implies exists|k: int|
        0 <= k < 12 && wire_joins(k, i, j) by {
        assert(wire_joins(0, i, j) || wire_joins(1, i, j) || wire_joins(2, i, j) || wire_joins(
            3,
            i,
            j,
        ) || wire_joins(4, i, j) || wire_joins(5, i, j) || wire_joins(6, i, j) || wire_joins(
            7,
            i,
            j,
        ) || wire_joins(8, i, j) || wire_joins(9, i, j) || wire_joins(10, i, j) || wire_joins(
            11,
            i,
            j,
        ));
    }
}

/// Each face is one side of the box: its four corners are distinct, they are
/// the corners on that side, and going round the face leads from each corner
/// to a neighbour. The six faces cover the six sides.
pub proof fn lemma_faces_are_the_sides_of_the_box()
    ensures
        forall|f: int, i: int|
            0 <= f < 6 && 0 <= i < 8 ==> {
                let (a, b, c, d) = box_face(f);
                (i == a || i == b || i == c || i == d) <==> #[trigger] on_side(
                    i,
                    face_side(f).0,
                    face_side(f).1,
                )
            },
        forall|f: int|
            0 <= f < 6 ==> {
                let (a, b, c, d) = #[trigger] box_face(f);
                &&& a != b && a != c && a != d && b != c && b != d && c != d
                &&& neighbours(a, b) && neighbours(b, c) && neighbours(c, d) && neighbours(d, a)
            },
        forall|f: int, g: int| 0 <= f < g < 6 ==> #[trigger] face_side(f) != #[trigger] face_side(g),
{
}

/// The two triangles of a face cover it: both hold the first and the third
/// corner of the face, the even one also the second and the odd one the
/// fourth, and each holds three different corners.
pub proof fn lemma_triangles_cover_the_faces(f: int)
    requires
        0 <= f < 6,
    ensures
        ({
            let (a, b, c, d) = box_face(f);
            &&& box_triangle(2 * f) == (a, b, c)
            &&& box_triangle(2 * f + 1) == (a, c, d)
            &&& a != b && b != c && a != c && c != d && a != d
        }),
{
}

/// The box is axis-aligned: the two ends of every edge of the wireframe lie
/// in the same place along two of the three axes, and the four corners of
/// every face lie in the same place along one.
pub proof fn lemma_box_is_axis_aligned(width: int, height: int)
    ensures
        forall|k: int|
            0 <= k < 12 ==> {
                let (i, j) = #[trigger] box_wire(k);
                let p = corner_offset(i, width, height);
                let q = corner_offset(j, width, height);
                ||| p.0 == q.0 && p.1 == q.1
                ||| p.0 == q.0 && p.2 == q.2
                ||| p.1 == q.1 && p.2 == q.2
            },
        forall|f: int|
            0 <= f < 6 ==> {
                let (a, b, c, d) = #[trigger] box_face(f);
                let p = corner_offset(a, width, height);
                let q = corner_offset(b, width, height);
                let r = corner_offset(c, width, height);
                let s = corner_offset(d, width, height);
                ||| p.0 == q.0 && q.0 == r.0 && r.0 == s.0
                ||| p.1 == q.1 && q.1 == r.1 && r.1 == s.1
                ||| p.2 == q.2 && q.2 == r.2 && r.2 == s.2
            },
{
}

/// The two corners that the `k`-th edge of the wireframe joins; see
/// [`box_wire`]. Every `k` from 11 on names the last edge.
pub fn wire_ends(k: usize) -> (ends: (usize, usize))
    ensures
        (ends.0 as int, ends.1 as int) == box_wire(k as int),
{
    match k {
        0 => (0, 1),
        1 => (1, 2),
        2 => (2, 3),
        3 => (3, 0),
        4 => (4, 5),
        5 => (5, 6),
        6 => (6, 7),
        7 => (7, 4),
        8 => (0, 4),
        9 => (1, 5),
        10 => (2, 6),
        _ => (3, 7),
    }
}

/// The four corners of the `f`-th face, going round it; see [`box_face`].
/// Every `f` from 5 on names the last face.
pub fn face_corners(f: usize) -> (corners: (usize, usize, usize, usize))
    ensures
        (corners.0 as int, corners.1 as int, corners.2 as int, corners.3 as int) == box_face(
            f as int,
        ),
{
    match f {
        0 => (0, 1, 2, 3),
        1 => (4, 5, 6, 7),
        2 => (0, 3, 7, 4),
        3 => (1, 5, 6, 2),
        4 => (0, 1, 5, 4),
        _ => (3, 2, 6, 7),
    }
}

} // verus!
