//! The extracted surface: a triangle soup with one record per face and three records per
//! face for its boundary edges.

use crate::vector::IVec3;
use vstd::prelude::*;

verus! {

/// A triangle, as three indices into the vertex list of its mesh.
#[derive(Clone, Copy, Debug, PartialEq, Eq, Structural)]
pub struct Face {
    pub v1: usize,
    pub v2: usize,
    pub v3: usize,
}

/// A boundary edge of a triangle, as two indices into the vertex list of its mesh.
#[derive(Clone, Copy, Debug, PartialEq, Eq, Structural)]
pub struct Edge {
    pub v1: usize,
    pub v2: usize,
}

/// A vertex of the surface: the grid edge, from corner `v1` to corner `v2`, on which the
/// surface crosses. Where along the edge it lies is for the caller's refinement to say.
#[derive(Clone, Copy, Debug, PartialEq, Eq, Structural)]
pub struct Crossing {
    pub v1: IVec3,
    pub v2: IVec3,
}

/// One triangle of the surface: its three vertices in the order of the triangle pattern,
/// and whether its winding is reversed with respect to that order.
pub struct Triangle {
    pub a: Crossing,
    pub b: Crossing,
    pub c: Crossing,
    pub inverted: bool,
}

/// A triangle soup. Vertices are not shared: triangle `i` owns vertices `3i`, `3i + 1` and
/// `3i + 2`.
#[derive(Debug)]
pub struct Mesh {
    pub verts: Vec<Crossing>,
    pub faces: Vec<Face>,
    pub edges: Vec<Edge>,
}

/// The face record of the triangle that owns the vertices from `base` on.
pub open spec fn face_record(base: int, inverted: bool) -> Face {
    Face {
        v1: base as usize,
        v2: (if inverted {
            base + 2
        } else {
            base + 1
        }) as usize,
        v3: (if inverted {
            base + 1
        } else {
            base + 2
        }) as usize,
    }
}

/// The `k`-th edge record of the triangle that owns the vertices from `base` on. The edge
/// loop does not depend on the winding.
pub open spec fn edge_record(base: int, k: int) -> Edge {
    Edge { v1: (base + k) as usize, v2: (base + (k + 1) % 3) as usize }
}

impl View for Mesh {
    type V = Seq<Triangle>;

    /// The triangles of the mesh, in the order in which they were appended.
    open spec fn view(&self) -> Seq<Triangle> {
        Seq::new(
            self.faces@.len(),
            |i: int|
                Triangle {
                    a: self.verts@[3 * i],
                    b: self.verts@[3 * i + 1],
                    c: self.verts@[3 * i + 2],
                    inverted: self.faces@[i].v2 == 3 * i + 2,
                },
        )
    }
}

impl Mesh {
    /// The three lists describe one sequence of triangles: three fresh vertices and three
    /// edge records per face, every face over its own three vertices.
    pub open spec fn wf(&self) -> bool {
        &&& self.verts@.len() == 3 * self.faces@.len()
        &&& self.edges@.len() == 3 * self.faces@.len()
        &&& self.verts@.len() <= usize::MAX
        &&& forall|i: int|
            0 <= i < self.faces@.len() ==> #[trigger] self.faces@[i] == face_record(
                3 * i,
                self.faces@[i].v2 == 3 * i + 2,
            )
        &&& forall|j: int|
            0 <= j < self.edges@.len() ==> #[trigger] self.edges@[j] == edge_record(
                3 * (j / 3),
                j % 3,
            )
    }

    /// Appends one triangle over the three vertices `a`, `b`, `c`: its face record, wound
    /// `(0, 1, 2)` or, where `inverted` holds, `(0, 2, 1)`, its three edge records and its
    /// three vertices.
    pub fn push_triangle(&mut self, a: Crossing, b: Crossing, c: Crossing, inverted: bool)
        requires
            old(self).wf(),
            old(self).verts@.len() + 3 <= usize::MAX,
        ensures
            final(self).wf(),
            final(self)@ == old(self)@.push(Triangle { a, b, c, inverted }),
            final(self).faces@ == old(self).faces@.push(
                face_record(old(self).verts@.len() as int, inverted),
            ),
    {
        let face_vert_start_index = self.verts.len();
        self.faces.push(
            Face {
                v1: face_vert_start_index,
                v2: face_vert_start_index + if inverted {
                    2
                } else {
                    1
                },
                v3: face_vert_start_index + if inverted {
                    1
                } else {
                    2
                },
            },
        );
        self.edges.push(Edge { v1: face_vert_start_index, v2: face_vert_start_index + 1 });
        self.edges.push(Edge { v1: face_vert_start_index + 1, v2: face_vert_start_index + 2 });
        self.edges.push(Edge { v1: face_vert_start_index + 2, v2: face_vert_start_index });
        self.verts.push(a);
        self.verts.push(b);
        self.verts.push(c);
    }
}

impl Default for Mesh {
    /// The mesh without triangles.
    fn default() -> (mesh: Mesh)
        ensures
            mesh.wf(),
            mesh@ == Seq::<Triangle>::empty(),
            mesh.verts@.len() == 0,
            mesh.faces@.len() == 0,
            mesh.edges@.len() == 0,
    {
        Mesh { verts: Vec::new(), faces: Vec::new(), edges: Vec::new() }
    }
}

/// A well-formed mesh is determined by its triangles: two that hold the same triangles
/// hold the same vertex, face and edge lists.
pub proof fn lemma_triangles_determine_mesh(first: Mesh, second: Mesh)
    requires
        first.wf(),
        second.wf(),
        first@ == second@,
    ensures
        first.verts@ == second.verts@,
        first.faces@ == second.faces@,
        first.edges@ == second.edges@,
{
    assert(first.faces@.len() == second.faces@.len()) by {
        assert(first@.len() == first.faces@.len());
        assert(second@.len() == second.faces@.len());
    }
    assert forall|i: int| 0 <= i < first.faces@.len() implies first.faces@[i]
        == second.faces@[i] by {
        assert(first@[i].inverted == (first.faces@[i].v2 == 3 * i + 2));
        assert(second@[i].inverted == (second.faces@[i].v2 == 3 * i + 2));
    }
    assert forall|j: int| 0 <= j < first.verts@.len() implies first.verts@[j]
        == second.verts@[j] by {
        let i = j / 3;
        assert(first@[i].a == first.verts@[3 * i] && second@[i].a == second.verts@[3 * i]);
        assert(first@[i].b == first.verts@[3 * i + 1] && second@[i].b == second.verts@[3 * i + 1]);
        assert(first@[i].c == first.verts@[3 * i + 2] && second@[i].c == second.verts@[3 * i + 2]);
    }
}

/// In a well-formed mesh every index of a face or an edge names a vertex of the mesh.
pub proof fn lemma_indices_in_range(mesh: Mesh)
    requires
        mesh.wf(),
    ensures
        forall|i: int|
            0 <= i < mesh.faces@.len() ==> {
                let f = #[trigger] mesh.faces@[i];
                f.v1 < mesh.verts@.len() && f.v2 < mesh.verts@.len() && f.v3 < mesh.verts@.len()
            },
        forall|j: int|
            0 <= j < mesh.edges@.len() ==> {
                let e = #[trigger] mesh.edges@[j];
                e.v1 < mesh.verts@.len() && e.v2 < mesh.verts@.len()
            },
{
}

} // verus!
