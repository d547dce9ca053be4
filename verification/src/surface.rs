//! The surface as a mathematical object: which triangles a tetrahedron, a cell and a whole
//! sweep contribute for a given classification of the grid corners, and what holds of them.

use crate::mesh::{lemma_triangles_determine_mesh, Crossing, Mesh, Triangle};
use crate::orientation::{cell_inverse, cell_offset, in_cell};
use crate::tables::{
    edge_end, lemma_edges_join_distinct_ends, lemma_pattern_covers_crossing_edges,
    lemma_pattern_edges_cross, lemma_pattern_shape, lemma_pattern_triangles_use_distinct_edges,
    lemma_tet_edges_are_short, lemma_tets_name_distinct_corners, mask_bit, tet_corner, tri_edge,
    NO_EDGE,
};
use crate::vector::IVec3;
use vstd::prelude::*;

verus! {

/// The grid corner labelled `n` in the cell at `cell`.
pub open spec fn cell_corner(cell: IVec3, n: int) -> IVec3
    recommends
        0 <= n < 8,
{
    cell.plus(cell_offset(cell, n))
}

/// The eight grid corners of the cell at `cell`, by label.
pub open spec fn cell_corners(cell: IVec3) -> Seq<IVec3> {
    Seq::new(8, |n: int| cell_corner(cell, n))
}

/// For each corner of the cell at `cell`, by label, whether `samples` marks it inside.
pub open spec fn cell_inside(samples: Set<IVec3>, cell: IVec3) -> Seq<bool> {
    Seq::new(8, |n: int| samples.contains(cell_corner(cell, n)))
}

/// `w` where `b` holds, else nothing.
pub open spec fn weight(b: bool, w: int) -> int {
    if b {
        w
    } else {
        0
    }
}

/// The vertex mask of tetrahedron `t`: bit `k` is set where the corner at position `k` of
/// the tetrahedron is inside.
pub open spec fn tet_mask(inside: Seq<bool>, t: int) -> int
    recommends
        inside.len() == 8,
        0 <= t < 5,
{
    weight(inside[tet_corner(t, 0)], 1) + weight(inside[tet_corner(t, 1)], 2) + weight(
        inside[tet_corner(t, 2)],
        4,
    ) + weight(inside[tet_corner(t, 3)], 8)
}

/// The row of the triangle pattern that serves `mask`: a mask above seven shares the row of
/// its complement.
pub open spec fn compressed_mask(mask: int) -> int {
    if mask > 7 {
        15 - mask
    } else {
        mask
    }
}

/// The number of triangles in row `compressed` of the triangle pattern.
pub open spec fn triangle_count(compressed: int) -> nat
    recommends
        0 <= compressed < 8,
{
    if tri_edge(compressed, 0) == NO_EDGE {
        0
    } else if tri_edge(compressed, 3) == NO_EDGE {
        1
    } else {
        2
    }
}

/// The surface vertex on edge `e` of tetrahedron `t`.
pub open spec fn tet_crossing(corners: Seq<IVec3>, t: int, e: int) -> Crossing
    recommends
        corners.len() == 8,
        0 <= t < 5,
        0 <= e < 6,
{
    Crossing {
        v1: corners[tet_corner(t, edge_end(e, 0))],
        v2: corners[tet_corner(t, edge_end(e, 1))],
    }
}

/// The triangle in slot `slot` of row `compressed`, over the corners of tetrahedron `t`.
pub open spec fn tet_triangle(
    corners: Seq<IVec3>,
    t: int,
    compressed: int,
    slot: int,
    inverted: bool,
) -> Triangle
    recommends
        corners.len() == 8,
        0 <= t < 5,
        0 <= compressed < 8,
        0 <= slot < triangle_count(compressed),
{
    Triangle {
        a: tet_crossing(corners, t, tri_edge(compressed, 3 * slot)),
        b: tet_crossing(corners, t, tri_edge(compressed, 3 * slot + 1)),
        c: tet_crossing(corners, t, tri_edge(compressed, 3 * slot + 2)),
        inverted,
    }
}

/// The triangles of tetrahedron `t` of a cell with the given corners and classification.
/// The winding is reversed once for a mask above seven and once for a mirrored cell.
pub open spec fn tet_triangles(
    corners: Seq<IVec3>,
    inside: Seq<bool>,
    grid_inverse: bool,
    t: int,
) -> Seq<Triangle>
    recommends
        corners.len() == 8,
        inside.len() == 8,
        0 <= t < 5,
{
    let mask = tet_mask(inside, t);
    let compressed = compressed_mask(mask);
    let inverted = (mask > 7) != grid_inverse;
    Seq::new(
        triangle_count(compressed),
        |slot: int| tet_triangle(corners, t, compressed, slot, inverted),
    )
}

/// The triangles of the first `count` tetrahedra of the cell at `cell`.
pub open spec fn cell_triangles_upto(samples: Set<IVec3>, cell: IVec3, count: int) -> Seq<
    Triangle,
>
    decreases count,
{
    if count <= 0 {
        Seq::empty()
    } else {
        cell_triangles_upto(samples, cell, count - 1) + tet_triangles(
            cell_corners(cell),
            cell_inside(samples, cell),
            cell_inverse(cell),
            count - 1,
        )
    }
}

/// The triangles of the cell at `cell`: those of its five tetrahedra, in the order of
/// `CELL_TO_TETS`.
pub open spec fn cell_triangles(samples: Set<IVec3>, cell: IVec3) -> Seq<Triangle> {
    cell_triangles_upto(samples, cell, 5)
}

/// The cell with the given coordinates.
pub open spec fn cell_at(x: int, y: int, z: int) -> IVec3 {
    IVec3 { x: x as i32, y: y as i32, z: z as i32 }
}

/// The triangles of the cells `(x, y, 0)` to `(x, y, nz - 1)`, in that order.
pub open spec fn row_triangles(samples: Set<IVec3>, x: int, y: int, nz: int) -> Seq<Triangle>
    decreases nz,
{
    if nz <= 0 {
        Seq::empty()
    } else {
        row_triangles(samples, x, y, nz - 1) + cell_triangles(samples, cell_at(x, y, nz - 1))
    }
}

/// The triangles of the rows `(x, 0)` to `(x, ny - 1)`, in that order.
pub open spec fn slab_triangles(samples: Set<IVec3>, x: int, ny: int, nz: int) -> Seq<Triangle>
    decreases ny,
{
    if ny <= 0 {
        Seq::empty()
    } else {
        slab_triangles(samples, x, ny - 1, nz) + row_triangles(samples, x, ny - 1, nz)
    }
}

/// The surface of a sweep over `nx` by `ny` by `nz` cells from the origin: the triangles of
/// every cell, with `x` outermost and `z` innermost.
pub open spec fn grid_triangles(samples: Set<IVec3>, nx: int, ny: int, nz: int) -> Seq<
    Triangle,
>
    decreases nx,
{
    if nx <= 0 {
        Seq::empty()
    } else {
        grid_triangles(samples, nx - 1, ny, nz) + slab_triangles(samples, nx - 1, ny, nz)
    }
}

/// A tetrahedron has at most two triangles, a cell at most ten.
pub proof fn lemma_cell_triangles_len(samples: Set<IVec3>, cell: IVec3, count: int)
    requires
        0 <= count <= 5,
    ensures
        cell_triangles_upto(samples, cell, count).len() <= 2 * count,
    decreases count,
{
    if count > 0 {
        lemma_cell_triangles_len(samples, cell, count - 1);
    }
}

/// Whether `p` is a corner of a sweep over `nx` by `ny` by `nz` cells from the origin.
pub open spec fn swept_corner(p: IVec3, nx: int, ny: int, nz: int) -> bool {
    &&& 0 <= p.x <= nx
    &&& 0 <= p.y <= ny
    &&& 0 <= p.z <= nz
}

/// Whether two classifications agree on every corner of a sweep over `nx` by `ny` by `nz`
/// cells from the origin.
pub open spec fn agree_on_sweep(
    samples_a: Set<IVec3>,
    samples_b: Set<IVec3>,
    nx: int,
    ny: int,
    nz: int,
) -> bool {
    forall|p: IVec3|
        swept_corner(p, nx, ny, nz) ==> samples_a.contains(p) == samples_b.contains(p)
}

/// Whether the two ends of the grid edge of `c` lie on different sides of the surface.
pub open spec fn crosses(samples: Set<IVec3>, c: Crossing) -> bool {
    samples.contains(c.v1) != samples.contains(c.v2)
}

/// Whether each of the three vertices of `t` lies on a grid edge that crosses the surface.
pub open spec fn cuts_surface(samples: Set<IVec3>, t: Triangle) -> bool {
    &&& crosses(samples, t.a)
    &&& crosses(samples, t.b)
    &&& crosses(samples, t.c)
}

/// The corners of a cell of the sweep are corners of the sweep.
proof fn lemma_cell_corners_are_swept(x: int, y: int, z: int, nx: int, ny: int, nz: int, n: int)
    requires
        0 <= x < nx < i32::MAX,
        0 <= y < ny < i32::MAX,
        0 <= z < nz < i32::MAX,
        0 <= n < 8,
    ensures
        swept_corner(cell_corner(cell_at(x, y, z), n), nx, ny, nz),
{
}

/// The surface of a cell depends on the classification of its eight corners only.
pub proof fn lemma_cell_reads_own_corners(
    samples_a: Set<IVec3>,
    samples_b: Set<IVec3>,
    cell: IVec3,
    count: int,
)
    requires
        0 <= count <= 5,
        forall|n: int|
            0 <= n < 8 ==> samples_a.contains(#[trigger] cell_corner(cell, n))
                == samples_b.contains(cell_corner(cell, n)),
    ensures
        cell_triangles_upto(samples_a, cell, count) == cell_triangles_upto(
            samples_b,
            cell,
            count,
        ),
    decreases count,
{
    if count > 0 {
        lemma_cell_reads_own_corners(samples_a, samples_b, cell, count - 1);
    }
}

/// The surface of a sweep depends on the classification of the corners of the sweep only:
/// two classifications that agree there give the same triangles.
pub proof fn lemma_sweep_reads_swept_corners(
    samples_a: Set<IVec3>,
    samples_b: Set<IVec3>,
    nx: int,
    ny: int,
    nz: int,
)
    requires
        0 <= nx < i32::MAX,
        0 <= ny < i32::MAX,
        0 <= nz < i32::MAX,
        agree_on_sweep(samples_a, samples_b, nx, ny, nz),
    ensures
        grid_triangles(samples_a, nx, ny, nz) == grid_triangles(samples_b, nx, ny, nz),
{
    lemma_grid_reads_swept_corners(samples_a, samples_b, nx, ny, nz, nx);
}

/// A row of a sweep depends on the classification of the corners of the sweep only.
proof fn lemma_row_reads_swept_corners(
    samples_a: Set<IVec3>,
    samples_b: Set<IVec3>,
    nx: int,
    ny: int,
    nz: int,
    x: int,
    y: int,
    count: int,
)
    requires
        0 <= x < nx < i32::MAX,
        0 <= y < ny < i32::MAX,
        0 <= count <= nz < i32::MAX,
        agree_on_sweep(samples_a, samples_b, nx, ny, nz),
    ensures
        row_triangles(samples_a, x, y, count) == row_triangles(samples_b, x, y, count),
    decreases count,
{
    if count > 0 {
        lemma_row_reads_swept_corners(samples_a, samples_b, nx, ny, nz, x, y, count - 1);
        let cell = cell_at(x, y, count - 1);
        assert forall|n: int| 0 <= n < 8 implies samples_a.contains(
            #[trigger] cell_corner(cell, n),
        ) == samples_b.contains(cell_corner(cell, n)) by {
            lemma_cell_corners_are_swept(x, y, count - 1, nx, ny, nz, n);
        }
        lemma_cell_reads_own_corners(samples_a, samples_b, cell, 5);
    }
}

/// A slab of a sweep depends on the classification of the corners of the sweep only.
proof fn lemma_slab_reads_swept_corners(
    samples_a: Set<IVec3>,
    samples_b: Set<IVec3>,
    nx: int,
    ny: int,
    nz: int,
    x: int,
    count: int,
)
    requires
        0 <= x < nx < i32::MAX,
        0 <= count <= ny < i32::MAX,
        0 <= nz < i32::MAX,
        agree_on_sweep(samples_a, samples_b, nx, ny, nz),
    ensures
        slab_triangles(samples_a, x, count, nz) == slab_triangles(samples_b, x, count, nz),
    decreases count,
{
    if count > 0 {
        lemma_slab_reads_swept_corners(samples_a, samples_b, nx, ny, nz, x, count - 1);
        lemma_row_reads_swept_corners(samples_a, samples_b, nx, ny, nz, x, count - 1, nz);
    }
}

/// The first slabs of a sweep depend on the classification of the corners of the sweep
/// only.
proof fn lemma_grid_reads_swept_corners(
    samples_a: Set<IVec3>,
    samples_b: Set<IVec3>,
    nx: int,
    ny: int,
    nz: int,
    count: int,
)
    requires
        0 <= count <= nx < i32::MAX,
        0 <= ny < i32::MAX,
        0 <= nz < i32::MAX,
        agree_on_sweep(samples_a, samples_b, nx, ny, nz),
    ensures
        grid_triangles(samples_a, count, ny, nz) == grid_triangles(samples_b, count, ny, nz),
    decreases count,
{
    if count > 0 {
        lemma_grid_reads_swept_corners(samples_a, samples_b, nx, ny, nz, count - 1);
        lemma_slab_reads_swept_corners(samples_a, samples_b, nx, ny, nz, count - 1, ny);
    }
}

/// Two sweeps of the same extent over classifications that agree on the corners of the
/// sweep produce the same mesh, list for list.
pub proof fn lemma_march_is_deterministic(
    mesh_a: Mesh,
    mesh_b: Mesh,
    samples_a: Set<IVec3>,
    samples_b: Set<IVec3>,
    nx: int,
    ny: int,
    nz: int,
)
    requires
        0 <= nx < i32::MAX,
        0 <= ny < i32::MAX,
        0 <= nz < i32::MAX,
        agree_on_sweep(samples_a, samples_b, nx, ny, nz),
        mesh_a.wf(),
        mesh_b.wf(),
        mesh_a@ == grid_triangles(samples_a, nx, ny, nz),
        mesh_b@ == grid_triangles(samples_b, nx, ny, nz),
    ensures
        mesh_a.verts@ == mesh_b.verts@,
        mesh_a.faces@ == mesh_b.faces@,
        mesh_a.edges@ == mesh_b.edges@,
{
    lemma_sweep_reads_swept_corners(samples_a, samples_b, nx, ny, nz);
    lemma_triangles_determine_mesh(mesh_a, mesh_b);
}

/// The triangles of tetrahedron `t` of the cell at `cell`.
pub open spec fn triangles_of(samples: Set<IVec3>, cell: IVec3, t: int) -> Seq<Triangle>
    recommends
        0 <= t < 5,
{
    tet_triangles(cell_corners(cell), cell_inside(samples, cell), cell_inverse(cell), t)
}

/// Where a triangle of a sweep comes from: triangle `slot` of tetrahedron `tet` of the cell
/// at `(x, y, z)`.
pub struct Origin {
    pub x: int,
    pub y: int,
    pub z: int,
    pub tet: int,
    pub slot: int,
}

impl Origin {
    /// The cell of the origin.
    pub open spec fn cell(self) -> IVec3 {
        cell_at(self.x, self.y, self.z)
    }

    /// Whether the origin names a triangle of a sweep over `nx` by `ny` by `nz` cells.
    pub open spec fn within(self, samples: Set<IVec3>, nx: int, ny: int, nz: int) -> bool {
        &&& 0 <= self.x < nx
        &&& 0 <= self.y < ny
        &&& 0 <= self.z < nz
        &&& 0 <= self.tet < 5
        &&& 0 <= self.slot < triangles_of(samples, self.cell(), self.tet).len()
    }

    /// The triangle at the origin.
    pub open spec fn triangle(self, samples: Set<IVec3>) -> Triangle {
        triangles_of(samples, self.cell(), self.tet)[self.slot]
    }
}

/// Whether `p` is one of the eight corners of the cell at `cell`.
pub open spec fn is_corner_of(p: IVec3, cell: IVec3) -> bool {
    in_cell((p.x as int, p.y as int, p.z as int), cell)
}

/// The number of axes along which two grid corners differ.
pub open spec fn differing_axes(p: IVec3, q: IVec3) -> int {
    (if p.x != q.x {
        1int
    } else {
        0int
    }) + (if p.y != q.y {
        1int
    } else {
        0int
    }) + (if p.z != q.z {
        1int
    } else {
        0int
    })
}

/// Whether the grid edge of `c` is an edge or a face diagonal of the cell at `cell`.
pub open spec fn spans_cell(c: Crossing, cell: IVec3) -> bool {
    &&& is_corner_of(c.v1, cell)
    &&& is_corner_of(c.v2, cell)
    &&& 1 <= differing_axes(c.v1, c.v2) <= 2
}

/// Whether `t` is a triangle across the cell at `cell`: each of its vertices lies on an
/// edge or a face diagonal of the cell that crosses the surface, and no two of them lie on
/// the same.
pub open spec fn cuts_cell(samples: Set<IVec3>, t: Triangle, cell: IVec3) -> bool {
    &&& cuts_surface(samples, t)
    &&& spans_cell(t.a, cell)
    &&& spans_cell(t.b, cell)
    &&& spans_cell(t.c, cell)
    &&& t.a != t.b
    &&& t.a != t.c
    &&& t.b != t.c
}

/// The vertex mask and its complement record the classification of the four corners.
proof fn lemma_mask_bits(inside: Seq<bool>, t: int, k: int)
    requires
        0 <= t < 5,
        0 <= k < 4,
    ensures
        0 <= tet_mask(inside, t) < 16,
        mask_bit(tet_mask(inside, t), k) == inside[tet_corner(t, k)],
        mask_bit(15 - tet_mask(inside, t), k) == !inside[tet_corner(t, k)],
{
}

/// Every edge of a tetrahedron is an edge or a face diagonal of its cell.
proof fn lemma_tet_edge_spans_cell(cell: IVec3, t: int, e: int)
    requires
        cell.x < i32::MAX,
        cell.y < i32::MAX,
        cell.z < i32::MAX,
        0 <= t < 5,
        0 <= e < 6,
    ensures
        spans_cell(tet_crossing(cell_corners(cell), t, e), cell),
{
    lemma_edges_join_distinct_ends(e);
    lemma_tets_name_distinct_corners(t, 0, edge_end(e, 0));
    lemma_tets_name_distinct_corners(t, 0, edge_end(e, 1));
    lemma_tet_edges_are_short(t, e);
}

/// Different edges of a tetrahedron carry different vertices.
proof fn lemma_tet_edges_differ(cell: IVec3, t: int, e1: int, e2: int)
    requires
        cell.x < i32::MAX,
        cell.y < i32::MAX,
        cell.z < i32::MAX,
        0 <= t < 5,
        0 <= e1 < 6,
        0 <= e2 < 6,
        e1 != e2,
    ensures
        tet_crossing(cell_corners(cell), t, e1) != tet_crossing(cell_corners(cell), t, e2),
{
    lemma_edges_join_distinct_ends(e1);
    lemma_edges_join_distinct_ends(e2);
    let a1 = tet_corner(t, edge_end(e1, 0));
    let b1 = tet_corner(t, edge_end(e1, 1));
    let a2 = tet_corner(t, edge_end(e2, 0));
    let b2 = tet_corner(t, edge_end(e2, 1));
    lemma_tets_name_distinct_corners(t, edge_end(e1, 0), edge_end(e2, 0));
    lemma_tets_name_distinct_corners(t, edge_end(e1, 1), edge_end(e2, 1));
    lemma_labels_name_distinct_corners(cell, a1, a2);
    lemma_labels_name_distinct_corners(cell, b1, b2);
}

/// Differently labelled corners of a cell are different corners.
proof fn lemma_labels_name_distinct_corners(cell: IVec3, m: int, n: int)
    requires
        cell.x < i32::MAX,
        cell.y < i32::MAX,
        cell.z < i32::MAX,
        0 <= m < 8,
        0 <= n < 8,
    ensures
        m != n ==> cell_corners(cell)[m] != cell_corners(cell)[n],
{
}

/// Every triangle of a tetrahedron is a triangle across its cell.
pub proof fn lemma_tet_triangles_cut_cell(samples: Set<IVec3>, cell: IVec3, t: int, slot: int)
    requires
        cell.x < i32::MAX,
        cell.y < i32::MAX,
        cell.z < i32::MAX,
        0 <= t < 5,
        0 <= slot < triangles_of(samples, cell, t).len(),
    ensures
        cuts_cell(samples, triangles_of(samples, cell, t)[slot], cell),
{
    let corners = cell_corners(cell);
    let inside = cell_inside(samples, cell);
    let row = compressed_mask(tet_mask(inside, t));
    lemma_mask_bits(inside, t, 0);
    lemma_pattern_triangles_use_distinct_edges(row, slot);
    assert forall|k: int| 0 <= k < 3 implies {
        let e = #[trigger] tri_edge(row, 3 * slot + k);
        &&& 0 <= e < 6
        &&& crosses(samples, tet_crossing(corners, t, e))
        &&& spans_cell(tet_crossing(corners, t, e), cell)
    } by {
        let e = tri_edge(row, 3 * slot + k);
        lemma_pattern_shape(row, 3 * slot + k);
        lemma_pattern_edges_cross(row, 3 * slot + k);
        lemma_edges_join_distinct_ends(e);
        lemma_mask_bits(inside, t, edge_end(e, 0));
        lemma_mask_bits(inside, t, edge_end(e, 1));
        lemma_tets_name_distinct_corners(t, 0, edge_end(e, 0));
        lemma_tets_name_distinct_corners(t, 0, edge_end(e, 1));
        lemma_tet_edge_spans_cell(cell, t, e);
    }
    let e1 = tri_edge(row, 3 * slot + 0);
    let e2 = tri_edge(row, 3 * slot + 1);
    let e3 = tri_edge(row, 3 * slot + 2);
    lemma_tet_edges_differ(cell, t, e1, e2);
    lemma_tet_edges_differ(cell, t, e1, e3);
    lemma_tet_edges_differ(cell, t, e2, e3);
}

/// An edge whose ends are classified differently has ends that the row of the triangle
/// pattern marks differently.
proof fn lemma_crossing_edge_shows_in_mask(inside: Seq<bool>, t: int, e: int)
    requires
        0 <= t < 5,
        0 <= e < 6,
        inside[tet_corner(t, edge_end(e, 0))] != inside[tet_corner(t, edge_end(e, 1))],
    ensures
        0 <= compressed_mask(tet_mask(inside, t)) < 8,
        mask_bit(compressed_mask(tet_mask(inside, t)), edge_end(e, 0)) != mask_bit(
            compressed_mask(tet_mask(inside, t)),
            edge_end(e, 1),
        ),
{
    lemma_edges_join_distinct_ends(e);
    lemma_mask_bits(inside, t, edge_end(e, 0));
    lemma_mask_bits(inside, t, edge_end(e, 1));
}

/// Every edge of a tetrahedron that crosses the surface carries a vertex of one of the
/// triangles of the tetrahedron. Returns the slot of such a triangle.
pub proof fn lemma_tet_covers_crossing_edges(
    samples: Set<IVec3>,
    cell: IVec3,
    t: int,
    e: int,
) -> (slot: int)
    requires
        0 <= t < 5,
        0 <= e < 6,
        crosses(samples, tet_crossing(cell_corners(cell), t, e)),
    ensures
        0 <= slot < triangles_of(samples, cell, t).len(),
        ({
            let found = triangles_of(samples, cell, t)[slot];
            let vertex = tet_crossing(cell_corners(cell), t, e);
            found.a == vertex || found.b == vertex || found.c == vertex
        }),
{
    let inside = cell_inside(samples, cell);
    let row = compressed_mask(tet_mask(inside, t));
    lemma_edges_join_distinct_ends(e);
    lemma_tets_name_distinct_corners(t, 0, edge_end(e, 0));
    lemma_tets_name_distinct_corners(t, 0, edge_end(e, 1));
    lemma_crossing_edge_shows_in_mask(inside, t, e);
    let at = lemma_pattern_covers_crossing_edges(row, e);
    lemma_pattern_shape(row, at);
    lemma_pattern_shape(row, 0);
    lemma_pattern_shape(row, 3);
    let slot = at / 3;
    assert(at == 3 * slot || at == 3 * slot + 1 || at == 3 * slot + 2);
    slot
}

/// Where a triangle of a cell comes from.
proof fn lemma_cell_triangle_origin(samples: Set<IVec3>, cell: IVec3, count: int, i: int) -> (at:
    (int, int))
    requires
        0 <= count <= 5,
        0 <= i < cell_triangles_upto(samples, cell, count).len(),
    ensures
        0 <= at.0 < count,
        0 <= at.1 < triangles_of(samples, cell, at.0).len(),
        cell_triangles_upto(samples, cell, count)[i] == triangles_of(samples, cell, at.0)[at.1],
    decreases count,
{
    let before = cell_triangles_upto(samples, cell, count - 1);
    if i < before.len() {
        lemma_cell_triangle_origin(samples, cell, count - 1, i)
    } else {
        (count - 1, i - before.len())
    }
}

/// Where a triangle of a row comes from.
proof fn lemma_row_triangle_origin(samples: Set<IVec3>, x: int, y: int, count: int, i: int) -> (o:
    Origin)
    requires
        0 <= i < row_triangles(samples, x, y, count).len(),
    ensures
        o.x == x,
        o.y == y,
        0 <= o.z < count,
        0 <= o.tet < 5,
        0 <= o.slot < triangles_of(samples, o.cell(), o.tet).len(),
        row_triangles(samples, x, y, count)[i] == o.triangle(samples),
    decreases count,
{
    let before = row_triangles(samples, x, y, count - 1);
    if i < before.len() {
        lemma_row_triangle_origin(samples, x, y, count - 1, i)
    } else {
        let at = lemma_cell_triangle_origin(
            samples,
            cell_at(x, y, count - 1),
            5,
            i - before.len(),
        );
        Origin { x, y, z: count - 1, tet: at.0, slot: at.1 }
    }
}

/// Where a triangle of a slab comes from.
proof fn lemma_slab_triangle_origin(
    samples: Set<IVec3>,
    x: int,
    count: int,
    nz: int,
    i: int,
) -> (o: Origin)
    requires
        0 <= i < slab_triangles(samples, x, count, nz).len(),
    ensures
        o.x == x,
        0 <= o.y < count,
        0 <= o.z < nz,
        0 <= o.tet < 5,
        0 <= o.slot < triangles_of(samples, o.cell(), o.tet).len(),
        slab_triangles(samples, x, count, nz)[i] == o.triangle(samples),
    decreases count,
{
    let before = slab_triangles(samples, x, count - 1, nz);
    if i < before.len() {
        lemma_slab_triangle_origin(samples, x, count - 1, nz, i)
    } else {
        lemma_row_triangle_origin(samples, x, count - 1, nz, i - before.len())
    }
}

/// Every triangle of a sweep is a triangle of a tetrahedron of one of its cells. Returns
/// where triangle `i` comes from.
pub proof fn lemma_triangle_origin(samples: Set<IVec3>, nx: int, ny: int, nz: int, i: int) -> (o:
    Origin)
    requires
        0 <= i < grid_triangles(samples, nx, ny, nz).len(),
    ensures
        o.within(samples, nx, ny, nz),
        grid_triangles(samples, nx, ny, nz)[i] == o.triangle(samples),
    decreases nx,
{
    let before = grid_triangles(samples, nx - 1, ny, nz);
    if i < before.len() {
        lemma_triangle_origin(samples, nx - 1, ny, nz, i)
    } else {
        lemma_slab_triangle_origin(samples, nx - 1, ny, nz, i - before.len())
    }
}

/// Where triangle `slot` of tetrahedron `t` stands among the triangles of its cell.
proof fn lemma_cell_holds_triangle(
    samples: Set<IVec3>,
    cell: IVec3,
    count: int,
    t: int,
    slot: int,
) -> (i: int)
    requires
        0 <= t < count <= 5,
        0 <= slot < triangles_of(samples, cell, t).len(),
    ensures
        0 <= i < cell_triangles_upto(samples, cell, count).len(),
        cell_triangles_upto(samples, cell, count)[i] == triangles_of(samples, cell, t)[slot],
    decreases count,
{
    let before = cell_triangles_upto(samples, cell, count - 1);
    if t == count - 1 {
        before.len() + slot
    } else {
        lemma_cell_holds_triangle(samples, cell, count - 1, t, slot)
    }
}

/// Where a triangle of a cell of a row stands among the triangles of the row.
proof fn lemma_row_holds_triangle(samples: Set<IVec3>, count: int, o: Origin) -> (i: int)
    requires
        0 <= o.z < count,
        0 <= o.tet < 5,
        0 <= o.slot < triangles_of(samples, o.cell(), o.tet).len(),
    ensures
        0 <= i < row_triangles(samples, o.x, o.y, count).len(),
        row_triangles(samples, o.x, o.y, count)[i] == o.triangle(samples),
    decreases count,
{
    let before = row_triangles(samples, o.x, o.y, count - 1);
    if o.z == count - 1 {
        before.len() + lemma_cell_holds_triangle(samples, o.cell(), 5, o.tet, o.slot)
    } else {
        lemma_row_holds_triangle(samples, count - 1, o)
    }
}

/// Where a triangle of a cell of a slab stands among the triangles of the slab.
proof fn lemma_slab_holds_triangle(samples: Set<IVec3>, count: int, nz: int, o: Origin) -> (i:
    int)
    requires
        0 <= o.y < count,
        0 <= o.z < nz,
        0 <= o.tet < 5,
        0 <= o.slot < triangles_of(samples, o.cell(), o.tet).len(),
    ensures
        0 <= i < slab_triangles(samples, o.x, count, nz).len(),
        slab_triangles(samples, o.x, count, nz)[i] == o.triangle(samples),
    decreases count,
{
    let before = slab_triangles(samples, o.x, count - 1, nz);
    if o.y == count - 1 {
        before.len() + lemma_row_holds_triangle(samples, nz, o)
    } else {
        lemma_slab_holds_triangle(samples, count - 1, nz, o)
    }
}

/// Every triangle of every tetrahedron of every cell of a sweep is a triangle of the sweep.
/// Returns where the triangle at `o` stands in the sweep.
pub proof fn lemma_sweep_holds_triangle(
    samples: Set<IVec3>,
    nx: int,
    ny: int,
    nz: int,
    o: Origin,
) -> (i: int)
    requires
        o.within(samples, nx, ny, nz),
    ensures
        0 <= i < grid_triangles(samples, nx, ny, nz).len(),
        grid_triangles(samples, nx, ny, nz)[i] == o.triangle(samples),
    decreases nx,
{
    let before = grid_triangles(samples, nx - 1, ny, nz);
    if o.x == nx - 1 {
        before.len() + lemma_slab_holds_triangle(samples, ny, nz, o)
    } else {
        lemma_sweep_holds_triangle(samples, nx - 1, ny, nz, o)
    }
}

/// Whether every triangle of `ts` has its three vertices on grid edges that cross the
/// surface.
pub open spec fn all_cut_surface(samples: Set<IVec3>, ts: Seq<Triangle>) -> bool {
    forall|i: int| 0 <= i < ts.len() ==> cuts_surface(samples, #[trigger] ts[i])
}

/// The surface passes only where the field changes sides: every vertex of every triangle
/// of a sweep lies on a grid edge with one end inside and the other outside.
pub proof fn lemma_surface_cuts_crossing_edges(samples: Set<IVec3>, nx: int, ny: int, nz: int)
    requires
        nx < i32::MAX,
        ny < i32::MAX,
        nz < i32::MAX,
    ensures
        all_cut_surface(samples, grid_triangles(samples, nx, ny, nz)),
{
    let surface = grid_triangles(samples, nx, ny, nz);
    assert forall|i: int| 0 <= i < surface.len() implies cuts_surface(
        samples,
        #[trigger] surface[i],
    ) by {
        let o = lemma_triangle_origin(samples, nx, ny, nz, i);
        lemma_tet_triangles_cut_cell(samples, o.cell(), o.tet, o.slot);
    }
}

/// Every triangle of a sweep is a triangle across one of the cells of the sweep: each of
/// its vertices lies on an edge or a face diagonal of that cell that crosses the surface,
/// and no two of them on the same. Returns where triangle `i` comes from.
pub proof fn lemma_surface_triangles_cut_cells(
    samples: Set<IVec3>,
    nx: int,
    ny: int,
    nz: int,
    i: int,
) -> (o: Origin)
    requires
        nx < i32::MAX,
        ny < i32::MAX,
        nz < i32::MAX,
        0 <= i < grid_triangles(samples, nx, ny, nz).len(),
    ensures
        o.within(samples, nx, ny, nz),
        grid_triangles(samples, nx, ny, nz)[i] == o.triangle(samples),
        cuts_cell(samples, grid_triangles(samples, nx, ny, nz)[i], o.cell()),
{
    let o = lemma_triangle_origin(samples, nx, ny, nz, i);
    lemma_tet_triangles_cut_cell(samples, o.cell(), o.tet, o.slot);
    o
}

/// The surface is cut wherever the field changes sides within a tetrahedron: every edge
/// of every tetrahedron of every cell of a sweep that crosses the surface carries a vertex
/// of a triangle of the sweep. Returns the index of such a triangle.
pub proof fn lemma_surface_covers_crossing_edges(
    samples: Set<IVec3>,
    nx: int,
    ny: int,
    nz: int,
    x: int,
    y: int,
    z: int,
    t: int,
    e: int,
) -> (i: int)
    requires
        0 <= x < nx,
        0 <= y < ny,
        0 <= z < nz,
        0 <= t < 5,
        0 <= e < 6,
        crosses(samples, tet_crossing(cell_corners(cell_at(x, y, z)), t, e)),
    ensures
        0 <= i < grid_triangles(samples, nx, ny, nz).len(),
        ({
            let found = grid_triangles(samples, nx, ny, nz)[i];
            let vertex = tet_crossing(cell_corners(cell_at(x, y, z)), t, e);
            found.a == vertex || found.b == vertex || found.c == vertex
        }),
{
    let slot = lemma_tet_covers_crossing_edges(samples, cell_at(x, y, z), t, e);
    lemma_sweep_holds_triangle(samples, nx, ny, nz, Origin { x, y, z, tet: t, slot })
}

/// A field that lies on one side of the iso-value at every corner of the sweep has no
/// surface: the sweep produces no triangle.
pub proof fn lemma_uniform_field_has_no_surface(
    samples: Set<IVec3>,
    nx: int,
    ny: int,
    nz: int,
    inside: bool,
)
    requires
        0 <= nx < i32::MAX,
        0 <= ny < i32::MAX,
        0 <= nz < i32::MAX,
        forall|p: IVec3| swept_corner(p, nx, ny, nz) ==> samples.contains(p) == inside,
    ensures
        grid_triangles(samples, nx, ny, nz) == Seq::<Triangle>::empty(),
{
    let constant = if inside {
        Set::<IVec3>::full()
    } else {
        Set::<IVec3>::empty()
    };
    lemma_sweep_reads_swept_corners(samples, constant, nx, ny, nz);
    lemma_surface_cuts_crossing_edges(constant, nx, ny, nz);
    let surface = grid_triangles(constant, nx, ny, nz);
    if surface.len() > 0 {
        assert(cuts_surface(constant, surface[0]));
    }
}

} // verus!
