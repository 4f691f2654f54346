use crate::color::Color;
use crate::video::box_shape::{box_triangle, box_wire, corner_offset, face_corners, wire_ends};
use vstd::prelude::*;

verus! {

/// One element of a mesh: a line segment between two vertices, or a textured
/// face on three or four of them. Vertices are named by their index in the
/// mesh; a texture is named by the handle under which the renderer keeps it.
#[derive(Clone, Copy, Debug, PartialEq, Eq)]
pub enum Edge {
    /// A line segment from vertex `a` to vertex `b`.
    Line { a: usize, b: usize },
    /// A textured triangle on the vertices `a`, `b` and `c`.
    Triangle { a: usize, b: usize, c: usize, texture: usize },
    /// A textured quadrilateral on the vertices `a`, `b`, `c` and `d`.
    Quad { a: usize, b: usize, c: usize, d: usize, texture: usize },
}

impl Edge {
    /// Every vertex index that the element names lies in `lo..hi`.
    pub open spec fn within(self, lo: int, hi: int) -> bool {
        match self {
            Edge::Line { a, b } => lo <= a < hi && lo <= b < hi,
            Edge::Triangle { a, b, c, .. } => lo <= a < hi && lo <= b < hi && lo <= c < hi,
            Edge::Quad { a, b, c, d, .. } => {
                lo <= a < hi && lo <= b < hi && lo <= c < hi && lo <= d < hi
            },
        }
    }

    /// Every vertex index that the element names exists in a mesh of `count`
    /// vertices.
    pub open spec fn in_range(self, count: nat) -> bool {
        self.within(0, count as int)
    }

    /// Tells whether every vertex index that the element names is below
    /// `count`.
    pub fn is_in_range(&self, count: usize) -> (ok: bool)
        ensures
            ok == self.in_range(count as nat),
    {
        match *self {
            Edge::Line { a, b } => a < count && b < count,
            Edge::Triangle { a, b, c, .. } => a < count && b < count && c < count,
            Edge::Quad { a, b, c, d, .. } => a < count && b < count && c < count && d < count,
        }
    }
}

/// The `k`-th element of a box whose first corner is vertex `base`: an edge
/// of the wireframe where there is no texture, a textured triangle where
/// there is one.
pub open spec fn box_edge(base: nat, k: int, texture: Option<usize>) -> Edge {
    match texture {
        None => {
            let (a, b) = box_wire(k);
            Edge::Line { a: (base + a) as usize, b: (base + b) as usize }
        },
        Some(texture) => {
            let (a, b, c) = box_triangle(k);
            Edge::Triangle {
                a: (base + a) as usize,
                b: (base + b) as usize,
                c: (base + c) as usize,
                texture,
            }
        },
    }
}

/// The twelve elements of a box whose first corner is vertex `base`.
pub open spec fn box_edges(base: nat, texture: Option<usize>) -> Seq<Edge> {
    Seq::new(12, |k: int| box_edge(base, k, texture))
}

fn make_box_edge(base: usize, k: usize, texture: Option<usize>) -> (edge: Edge)
    requires
        k < 12,
        base + 8 <= usize::MAX,
    ensures
        edge == box_edge(base as nat, k as int, texture),
        edge.within(base as int, base + 8),
{
    match texture {
        None => {
            let (a, b) = wire_ends(k);
            Edge::Line { a: base + a, b: base + b }
        },
        Some(texture) => {
            let (a, b, c, d) = face_corners(k / 2);
            if k % 2 == 0 {
                Edge::Triangle { a: base + a, b: base + b, c: base + c, texture }
            } else {
                Edge::Triangle { a: base + a, b: base + c, c: base + d, texture }
            }
        },
    }
}

/// Why a vertex has no place on the screen.
#[derive(Clone, Copy, Debug, PartialEq, Eq)]
pub enum ProjectionError {
    /// The vertex is behind the camera or too near to it.
    OutOfBounds,
}

impl ProjectionError {
    /// The error in words.
    pub fn message(&self) -> (text: String)
        ensures
            text@ == "out of bounds"@,
    {
        "out of bounds".to_string()
    }
}

/// One call on the renderer. `S` is the type of a point on the screen.
#[derive(Debug, PartialEq)]
pub enum DrawCall<S> {
    /// A line segment between two points, in the colour given, or in the
    /// renderer's own where none is.
    Line { from: S, to: S, color: Option<Color> },
    /// A textured quadrilateral placed at `anchor`.
    TexturedQuad { anchor: S, texture: usize },
}

/// The renderer calls that one element of a mesh gives rise to, where
/// `projected[i]` is the place of vertex `i` on the screen, or the reason why
/// it has none.
///
/// An element of which any vertex has no place on the screen is left out as
/// a whole. A line segment is one line. A face is one line between every two
/// of its vertices, the earlier named vertex first, and then its texture,
/// anchored at its first vertex.
pub open spec fn edge_calls<S>(
    edge: Edge,
    color: Option<Color>,
    projected: Seq<Result<S, ProjectionError>>,
) -> Seq<DrawCall<S>> {
    match edge {
        Edge::Line { a, b } => {
            match (projected[a as int], projected[b as int]) {
                (Ok(p), Ok(q)) => seq![DrawCall::Line { from: p, to: q, color }],
                _ => Seq::empty(),
            }
        },
        Edge::Triangle { a, b, c, texture } => {
            match (projected[a as int], projected[b as int], projected[c as int]) {
                (Ok(p), Ok(q), Ok(r)) => seq![
                    DrawCall::Line { from: p, to: q, color },
                    DrawCall::Line { from: p, to: r, color },
                    DrawCall::Line { from: q, to: r, color },
                    DrawCall::TexturedQuad { anchor: p, texture },
                ],
                _ => Seq::empty(),
            }
        },
        Edge::Quad { a, b, c, d, texture } => {
            match (
                projected[a as int],
                projected[b as int],
                projected[c as int],
                projected[d as int],
            ) {
                (Ok(p), Ok(q), Ok(r), Ok(s)) => seq![
                    DrawCall::Line { from: p, to: q, color },
                    DrawCall::Line { from: p, to: r, color },
                    DrawCall::Line { from: p, to: s, color },
                    DrawCall::Line { from: q, to: r, color },
                    DrawCall::Line { from: q, to: s, color },
                    DrawCall::Line { from: r, to: s, color },
                    DrawCall::TexturedQuad { anchor: p, texture },
                ],
                _ => Seq::empty(),
            }
        },
    }
}

/// The renderer calls that a sequence of elements gives rise to: those of
/// each element, in the order of the elements.
pub open spec fn draw_calls<S>(
    edges: Seq<Edge>,
    color: Option<Color>,
    projected: Seq<Result<S, ProjectionError>>,
) -> Seq<DrawCall<S>>
    decreases edges.len(),
{
    if edges.len() == 0 {
        Seq::empty()
    } else {
        draw_calls(edges.drop_last(), color, projected) + edge_calls(
            edges.last(),
            color,
            projected,
        )
    }
}

/// What a mesh is: its vertices in the order of their indices, and its
/// elements in the order in which they are drawn.
#[verifier::ext_equal]
pub struct MeshModel<P> {
    pub vertices: Seq<P>,
    pub edges: Seq<Edge>,
}

impl<P> MeshModel<P> {
    /// The mesh without vertices and elements.
    pub open spec fn empty() -> Self {
        MeshModel { vertices: Seq::empty(), edges: Seq::empty() }
    }

    /// Every element names only vertices that the mesh has.
    pub open spec fn well_formed(self) -> bool {
        forall|i: int|
            0 <= i < self.edges.len() ==> (#[trigger] self.edges[i]).in_range(self.vertices.len())
    }

    /// The mesh with a box appended: `corners` become the vertices after
    /// those that are there, and the twelve elements of the box, which name
    /// these new vertices, come after the elements that are there.
    pub open spec fn with_box(self, corners: Seq<P>, texture: Option<usize>) -> Self {
        MeshModel {
            vertices: self.vertices + corners,
            edges: self.edges + box_edges(self.vertices.len(), texture),
        }
    }
}

/// Vertices and the elements drawn between them. `P` is the type of a point
/// in the world.
pub struct Mesh<P> {
    vertices: Vec<P>,
    edges: Vec<Edge>,
}

impl<P> View for Mesh<P> {
    type V = MeshModel<P>;

    closed spec fn view(&self) -> MeshModel<P> {
        MeshModel { vertices: self.vertices@, edges: self.edges@ }
    }
}

impl<P> Mesh<P> {
    /// Builds a mesh of the given vertices and elements. Nothing is checked:
    /// see [`Mesh::is_well_formed`].
    pub fn new(vertices: Vec<P>, edges: Vec<Edge>) -> (mesh: Self)
        ensures
            mesh@.vertices == vertices@,
            mesh@.edges == edges@,
    {
        Mesh { vertices, edges }
    }

    /// The vertices, in the order of their indices.
    pub fn vertices(&self) -> (vertices: &Vec<P>)
        ensures
            vertices@ == self@.vertices,
    {
        &self.vertices
    }

    /// The elements, in the order in which they are drawn.
    pub fn edges(&self) -> (edges: &Vec<Edge>)
        ensures
            edges@ == self@.edges,
    {
        &self.edges
    }

    /// Tells whether every element names only vertices that the mesh has.
    pub fn is_well_formed(&self) -> (ok: bool)
        ensures
            ok == self@.well_formed(),
    {
        let count = self.vertices.len();
        let mut i: usize = 0;
        while i < self.edges.len()
            invariant
                0 <= i <= self.edges.len(),
                count == self.vertices.len(),
                forall|j: int| 0 <= j < i ==> (#[trigger] self.edges@[j]).in_range(count as nat),
            decreases self.edges.len() - i,
        {
            if !self.edges[i].is_in_range(count) {
                assert(!self@.edges[i as int].in_range(self@.vertices.len()));
                return false;
            }
            i += 1;
        }
        true
    }

    /// Plans one frame: the renderer calls for the elements of the mesh, in
    /// their order. `projected[i]` is the place of vertex `i` on the screen,
    /// or an error where the vertex is too near the camera or behind it. An
    /// element with such a vertex is not drawn at all, and the error goes no
    /// further.
    pub fn draw<S: Copy>(
        &self,
        color: Option<Color>,
        projected: &Vec<Result<S, ProjectionError>>,
    ) -> (calls: Vec<DrawCall<S>>)
        requires
            self@.well_formed(),
            projected@.len() == self@.vertices.len(),
        ensures
            calls@ == draw_calls(self@.edges, color, projected@),
    {
        let mut calls: Vec<DrawCall<S>> = Vec::new();
        let mut i: usize = 0;
        while i < self.edges.len()
            invariant
                0 <= i <= self.edges.len(),
                self@.well_formed(),
                projected@.len() == self@.vertices.len(),
                calls@ == draw_calls(self@.edges.take(i as int), color, projected@),
            decreases self.edges.len() - i,
        {
            let edge = self.edges[i];
            let ghost before = calls@;
            proof {
                assert(self@.edges[i as int].in_range(self@.vertices.len()));
                assert(self@.edges.take(i + 1).drop_last() == self@.edges.take(i as int));
                assert(self@.edges.take(i + 1).last() == edge);
            }
            match edge {
                Edge::Line { a, b } => {
                    match (projected[a], projected[b]) {
                        (Ok(p), Ok(q)) => {
                            calls.push(DrawCall::Line { from: p, to: q, color });
                        },
                        _ => {},
                    }
                },
                Edge::Triangle { a, b, c, texture } => {
                    match (projected[a], projected[b], projected[c]) {
                        (Ok(p), Ok(q), Ok(r)) => {
                            calls.push(DrawCall::Line { from: p, to: q, color });
                            calls.push(DrawCall::Line { from: p, to: r, color });
                            calls.push(DrawCall::Line { from: q, to: r, color });
                            calls.push(DrawCall::TexturedQuad { anchor: p, texture });
                        },
                        _ => {},
                    }
                },
                Edge::Quad { a, b, c, d, texture } => {
                    match (projected[a], projected[b], projected[c], projected[d]) {
                        (Ok(p), Ok(q), Ok(r), Ok(s)) => {
                            calls.push(DrawCall::Line { from: p, to: q, color });
                            calls.push(DrawCall::Line { from: p, to: r, color });
                            calls.push(DrawCall::Line { from: p, to: s, color });
                            calls.push(DrawCall::Line { from: q, to: r, color });
                            calls.push(DrawCall::Line { from: q, to: s, color });
                            calls.push(DrawCall::Line { from: r, to: s, color });
                            calls.push(DrawCall::TexturedQuad { anchor: p, texture });
                        },
                        _ => {},
                    }
                },
            }
            assert(calls@ =~= before + edge_calls(edge, color, projected@));
            i += 1;
        }
        assert(self@.edges.take(self.edges.len() as int) == self@.edges);
        calls
    }
}

impl<P: Copy> Mesh<P> {
    /// Appends a box. `corners` are its eight corners: those of the front
    /// face from the top left one clockwise, then those of the back face in
    /// the same order. Without a texture the box is its twelve edges; with
    /// one it is twelve triangles, two to each face, that all carry the
    /// texture.
    pub fn append_box(&mut self, corners: [P; 8], texture: Option<usize>)
        requires
            old(self)@.vertices.len() + 8 <= usize::MAX,
        ensures
            final(self)@ == old(self)@.with_box(corners@, texture),
    {
        let base = self.vertices.len();
        let mut i: usize = 0;
        while i < 8
            invariant
                0 <= i <= 8,
                self.vertices@ == old(self).vertices@ + corners@.take(i as int),
                self.edges@ == old(self).edges@,
            decreases 8 - i,
        {
            self.vertices.push(corners[i]);
            assert(corners@.take(i + 1) == corners@.take(i as int).push(corners@[i as int]));
            i += 1;
        }
        assert(corners@.take(8) == corners@);
        let mut k: usize = 0;
        while k < 12
            invariant
                0 <= k <= 12,
                base == old(self).vertices@.len(),
                base + 8 <= usize::MAX,
                self.vertices@ == old(self).vertices@ + corners@,
                self.edges@ == old(self).edges@ + box_edges(base as nat, texture).take(k as int),
            decreases 12 - k,
        {
            let edge = make_box_edge(base, k, texture);
            self.edges.push(edge);
            assert(box_edges(base as nat, texture).take(k + 1) == box_edges(
                base as nat,
                texture,
            ).take(k as int).push(edge));
            k += 1;
        }
        assert(box_edges(base as nat, texture).take(12) == box_edges(base as nat, texture));
    }
}

/// Appending a box changes nothing that is there: the vertices and the
/// elements of the mesh keep their indices. Eight vertices and twelve
/// elements are new, the new vertices are the corners, the new elements name
/// new vertices only, and a mesh whose elements named only vertices that it
/// had is still such a mesh.
pub proof fn lemma_with_box_extends<P>(mesh: MeshModel<P>, corners: Seq<P>, texture: Option<usize>)
    requires
        corners.len() == 8,
        mesh.vertices.len() + 8 <= usize::MAX,
    ensures
        ({
            let after = mesh.with_box(corners, texture);
            let base = mesh.vertices.len() as int;
            let first = mesh.edges.len() as int;
            &&& after.vertices.len() == base + 8
            &&& after.edges.len() == first + 12
            &&& forall|i: int| 0 <= i < base ==> after.vertices[i] == mesh.vertices[i]
            &&& forall|i: int| 0 <= i < 8 ==> after.vertices[base + i] == corners[i]
            &&& forall|i: int| 0 <= i < first ==> after.edges[i] == mesh.edges[i]
            &&& forall|k: int| 0 <= k < 12 ==> (#[trigger] after.edges[first + k]).within(base, base + 8)
            &&& forall|k: int|
                0 <= k < 12 ==> match texture {
                    None => (#[trigger] after.edges[first + k]) is Line,
                    Some(texture) => after.edges[first + k] is Triangle && after.edges[first
                        + k]->Triangle_texture == texture,
                }
            &&& mesh.well_formed() ==> after.well_formed()
        }),
{
    let after = mesh.with_box(corners, texture);
    let base = mesh.vertices.len() as int;
    let first = mesh.edges.len() as int;
    assert forall|k: int| 0 <= k < 12 implies (#[trigger] after.edges[first + k]).within(
        base,
        base + 8,
    ) by {
        assert(after.edges[first + k] == box_edge(base as nat, k, texture));
    }
    assert forall|k: int| 0 <= k < 12 implies match texture {
        None => (#[trigger] after.edges[first + k]) is Line,
        Some(texture) => after.edges[first + k] is Triangle && after.edges[first
            + k]->Triangle_texture == texture,
    } by {
        assert(after.edges[first + k] == box_edge(base as nat, k, texture));
    }
    if mesh.well_formed() {
        assert forall|i: int| 0 <= i < after.edges.len() implies (#[trigger] after.edges[i]).in_range(
            after.vertices.len(),
        ) by {
            if i < first {
                assert(mesh.edges[i].in_range(mesh.vertices.len()));
            } else {
                assert(after.edges[first + (i - first)].within(base, base + 8));
            }
        }
    }
}

/// One box in an empty mesh makes eight vertices and twelve elements, a
/// second one sixteen and twenty-four. The elements of the first box name
/// the first eight vertices and those of the second box the last eight, so
/// that neither box names a vertex of the other.
pub proof fn lemma_two_boxes_apart<P>(
    first: Seq<P>,
    first_texture: Option<usize>,
    second: Seq<P>,
    second_texture: Option<usize>,
)
    requires
        first.len() == 8,
        second.len() == 8,
    ensures
        ({
            let one = MeshModel::<P>::empty().with_box(first, first_texture);
            let two = one.with_box(second, second_texture);
            &&& one.vertices.len() == 8
            &&& one.edges.len() == 12
            &&& one.well_formed()
            &&& two.vertices.len() == 16
            &&& two.edges.len() == 24
            &&& two.well_formed()
            &&& forall|k: int| 0 <= k < 12 ==> (#[trigger] two.edges[k]).within(0, 8)
            &&& forall|k: int| 12 <= k < 24 ==> (#[trigger] two.edges[k]).within(8, 16)
        }),
{
    let none = MeshModel::<P>::empty();
    let one = none.with_box(first, first_texture);
    let two = one.with_box(second, second_texture);
    lemma_with_box_extends(none, first, first_texture);
    lemma_with_box_extends(one, second, second_texture);
    assert forall|k: int| 0 <= k < 12 implies (#[trigger] two.edges[k]).within(0, 8) by {
        assert(two.edges[k] == one.edges[k]);
        assert(one.edges[0 + k].within(0, 8));
    }
    assert forall|k: int| 12 <= k < 24 implies (#[trigger] two.edges[k]).within(8, 16) by {
        assert(two.edges[12 + (k - 12)].within(8, 16));
    }
}

/// Elements are drawn in their order: the calls for two runs of elements,
/// one after the other, are the calls for the first run and then those for
/// the second.
pub proof fn lemma_draw_calls_in_order<S>(
    front: Seq<Edge>,
    back: Seq<Edge>,
    color: Option<Color>,
    projected: Seq<Result<S, ProjectionError>>,
)
    ensures
        draw_calls(front + back, color, projected) == draw_calls(front, color, projected)
            + draw_calls(back, color, projected),
    decreases back.len(),
{
    if back.len() == 0 {
        assert(front + back == front);
        assert(draw_calls(front, color, projected) + Seq::<DrawCall<S>>::empty() == draw_calls(
            front,
            color,
            projected,
        ));
    } else {
        lemma_draw_calls_in_order(front, back.drop_last(), color, projected);
        assert((front + back).drop_last() == front + back.drop_last());
        assert((front + back).last() == back.last());
        assert(draw_calls(front + back, color, projected) =~= draw_calls(front, color, projected)
            + draw_calls(back, color, projected));
    }
}

/// Whether the vertex `i` has a place on the screen.
pub open spec fn in_view<S>(projected: Seq<Result<S, ProjectionError>>, i: usize) -> bool {
    projected[i as int] is Ok
}

/// An element is drawn as a whole or not at all: it gives rise to calls if
/// and only if every vertex that it names has a place on the screen, and
/// then to one line for a line segment, to three lines and a texture for a
/// triangle, and to six lines and a texture for a quadrilateral.
pub proof fn lemma_edge_all_or_nothing<S>(
    edge: Edge,
    color: Option<Color>,
    projected: Seq<Result<S, ProjectionError>>,
)
    ensures
        match edge {
            Edge::Line { a, b } => {
                let seen = in_view(projected, a) && in_view(projected, b);
                edge_calls(edge, color, projected).len() == if seen {
                    1int
                } else {
                    0int
                }
            },
            Edge::Triangle { a, b, c, .. } => {
                let seen = in_view(projected, a) && in_view(projected, b) && in_view(projected, c);
                edge_calls(edge, color, projected).len() == if seen {
                    4int
                } else {
                    0int
                }
            },
            Edge::Quad { a, b, c, d, .. } => {
                let seen = in_view(projected, a) && in_view(projected, b) && in_view(projected, c)
                    && in_view(projected, d);
                edge_calls(edge, color, projected).len() == if seen {
                    7int
                } else {
                    0int
                }
            },
        },
{
}

/// Where no vertex has a place on the screen, nothing is drawn.
pub proof fn lemma_nothing_in_view<S>(
    edges: Seq<Edge>,
    color: Option<Color>,
    projected: Seq<Result<S, ProjectionError>>,
)
    requires
        forall|i: int| 0 <= i < projected.len() ==> projected[i] is Err,
        forall|i: int| 0 <= i < edges.len() ==> (#[trigger] edges[i]).in_range(projected.len()),
    ensures
        draw_calls(edges, color, projected) == Seq::<DrawCall<S>>::empty(),
    decreases edges.len(),
{
    if edges.len() > 0 {
        lemma_nothing_in_view(edges.drop_last(), color, projected);
        assert(edges[edges.len() - 1].in_range(projected.len()));
        assert(edge_calls(edges.last(), color, projected) =~= Seq::<DrawCall<S>>::empty());
        assert(draw_calls(edges, color, projected) =~= Seq::<DrawCall<S>>::empty());
    }
}

/// A wireframe box of which every corner has a place on the screen is drawn
/// as twelve lines, the `k`-th between the places of the two corners that
/// the `k`-th edge of the box joins.
pub proof fn lemma_wireframe_box_in_view<P, S>(
    corners: Seq<P>,
    color: Option<Color>,
    projected: Seq<Result<S, ProjectionError>>,
)
    requires
        corners.len() == 8,
        projected.len() == 8,
        forall|i: int| 0 <= i < 8 ==> projected[i] is Ok,
    ensures
        ({
            let mesh = MeshModel::<P>::empty().with_box(corners, None);
            let calls = draw_calls(mesh.edges, color, projected);
            &&& calls.len() == 12
            &&& forall|k: int|
                0 <= k < 12 ==> #[trigger] calls[k] == (DrawCall::Line {
                    from: projected[box_wire(k).0]->Ok_0,
                    to: projected[box_wire(k).1]->Ok_0,
                    color,
                })
        }),
{
    let mesh = MeshModel::<P>::empty().with_box(corners, None);
    assert(mesh.edges =~= box_edges(0, None));
    lemma_wireframe_prefix_in_view(12, color, projected);
    assert(mesh.edges.take(12) == mesh.edges);
}

proof fn lemma_wireframe_prefix_in_view<S>(n: int, color: Option<Color>, projected: Seq<Result<S, ProjectionError>>)
    requires
        0 <= n <= 12,
        projected.len() == 8,
        forall|i: int| 0 <= i < 8 ==> projected[i] is Ok,
    ensures
        ({
            let calls = draw_calls(box_edges(0, None).take(n), color, projected);
            &&& calls.len() == n
            &&& forall|k: int|
                0 <= k < n ==> #[trigger] calls[k] == (DrawCall::Line {
                    from: projected[box_wire(k).0]->Ok_0,
                    to: projected[box_wire(k).1]->Ok_0,
                    color,
                })
        }),
    decreases n,
{
    if n > 0 {
        lemma_wireframe_prefix_in_view(n - 1, color, projected);
        let edges = box_edges(0, None).take(n);
        assert(edges.drop_last() == box_edges(0, None).take(n - 1));
        assert(edges.last() == box_edge(0, n - 1, None));
        let (a, b) = box_wire(n - 1);
        assert(0 <= a < 8 && 0 <= b < 8);
        assert(projected[a] is Ok && projected[b] is Ok);
    }
}

/// What a box is: the place of its first corner, its width, which is also
/// its depth, its height, and the handle of its texture.
pub struct CubeModel<P> {
    pub position: P,
    pub width: int,
    pub height: int,
    pub texture_index: usize,
}

/// An axis-aligned box, as deep as it is wide. Its first corner is the top
/// left corner of its front face. `P` is the type of a point in the world.
pub struct Cube<P> {
    position: P,
    width: i32,
    height: i32,
    pub texture_index: usize,
}

impl<P> View for Cube<P> {
    type V = CubeModel<P>;

    closed spec fn view(&self) -> CubeModel<P> {
        CubeModel {
            position: self.position,
            width: self.width as int,
            height: self.height as int,
            texture_index: self.texture_index,
        }
    }
}

impl<P> Cube<P> {
    /// Builds the box with the given first corner, width, height and texture.
    pub fn new(position: P, width: i32, height: i32, texture_index: usize) -> (cube: Self)
        ensures
            cube@ == (CubeModel {
                position,
                width: width as int,
                height: height as int,
                texture_index,
            }),
    {
        Cube { position, width, height, texture_index }
    }

    /// The place of the first corner.
    pub fn position(&self) -> (position: &P)
        ensures
            *position == self@.position,
    {
        &self.position
    }

    /// How far each of the eight corners lies from the first one along the
    /// three axes, in the order in which [`Mesh::append_box`] takes the
    /// corners.
    pub fn corner_offsets(&self) -> (offsets: [(i64, i64, i64); 8])
        ensures
            forall|i: int|
                0 <= i < 8 ==> (
                    (#[trigger] offsets@[i]).0 as int,
                    offsets@[i].1 as int,
                    offsets@[i].2 as int,
                ) == corner_offset(i, self@.width, self@.height),
    {
        let right: i64 = self.width as i64;
        let down: i64 = -(self.height as i64);
        let back: i64 = -(self.width as i64);
        [
            (0, 0, 0),
            (right, 0, 0),
            (right, down, 0),
            (0, down, 0),
            (0, 0, back),
            (right, 0, back),
            (right, down, back),
            (0, down, back),
        ]
    }
}

} // verus!
