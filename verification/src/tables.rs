//! The constant tables that drive the extraction: the labelling of a cell's corners, the split
//! of a cell into tetrahedra, the edges of a tetrahedron, and the triangle pattern of each
//! inside/outside configuration.

use crate::vector::IVec3;
use vstd::prelude::*;

verus! {

/// The eight corners of the unit cube, as `[x, y, z]`, in their canonical order.
pub const GRID_VERT_OFFSETS: [[i32; 3]; 8] = [
    [0, 0, 0],
    [1, 0, 0],
    [1, 1, 0],
    [0, 1, 0],
    [0, 0, 1],
    [1, 0, 1],
    [1, 1, 1],
    [0, 1, 1],
];

/// The five tetrahedra of a cell, each as four corner labels. The first label of a tetrahedron
/// is its apex, the other three form its base.
pub const CELL_TO_TETS: [[usize; 4]; 5] = [
    [0, 2, 7, 5],
    [1, 0, 5, 2],
    [3, 2, 7, 0],
    [4, 0, 7, 5],
    [6, 2, 5, 7],
];

/// The six edges of a tetrahedron, each as a pair of positions within its four corners.
pub const TET_EDGES: [[usize; 2]; 6] = [[0, 1], [0, 2], [0, 3], [1, 2], [2, 3], [3, 1]];

/// Marks an unused slot of `VMASK_TO_TRI_EDGES`.
pub const NO_EDGE: i8 = -1;

/// For each vertex mask below eight, up to two triangles, each as three edge indices into
/// `TET_EDGES`. Unused slots hold `NO_EDGE`. A mask `m` above seven uses the row of `15 - m`
/// with the winding reversed.
pub const VMASK_TO_TRI_EDGES: [[i8; 6]; 8] = [
    [-1, -1, -1, -1, -1, -1],
    [0, 1, 2, -1, -1, -1],
    [0, 5, 3, -1, -1, -1],
    [1, 2, 3, 3, 2, 5],
    [1, 3, 4, -1, -1, -1],
    [4, 2, 3, 3, 2, 0],
    [1, 0, 4, 4, 0, 5],
    [2, 5, 4, -1, -1, -1],
];

/// The offset of corner `n` of the unit cube.
pub open spec fn unit_corner(n: int) -> IVec3
    recommends
        0 <= n < 8,
{
    IVec3 {
        x: GRID_VERT_OFFSETS[n][0],
        y: GRID_VERT_OFFSETS[n][1],
        z: GRID_VERT_OFFSETS[n][2],
    }
}

/// The corner label at position `k` of tetrahedron `t`.
pub open spec fn tet_corner(t: int, k: int) -> int
    recommends
        0 <= t < 5,
        0 <= k < 4,
{
    CELL_TO_TETS[t][k] as int
}

/// The position, within a tetrahedron's corners, of end `side` of edge `e`.
pub open spec fn edge_end(e: int, side: int) -> int
    recommends
        0 <= e < 6,
        0 <= side < 2,
{
    TET_EDGES[e][side] as int
}

/// The entry of the triangle pattern of `mask` at `slot`.
pub open spec fn tri_edge(mask: int, slot: int) -> int
    recommends
        0 <= mask < 8,
        0 <= slot < 6,
{
    VMASK_TO_TRI_EDGES[mask][slot] as int
}

/// Whether corner position `k` of a tetrahedron is marked inside by `mask`.
pub open spec fn mask_bit(mask: int, k: int) -> bool
    recommends
        0 <= mask < 16,
        0 <= k < 4,
{
    if k == 0 {
        mask % 2 == 1
    } else if k == 1 {
        (mask / 2) % 2 == 1
    } else if k == 2 {
        (mask / 4) % 2 == 1
    } else {
        (mask / 8) % 2 == 1
    }
}

/// The offset of corner `n` of the unit cube.
pub fn grid_vert_offset(n: usize) -> (offset: IVec3)
    requires
        n < 8,
    ensures
        offset == unit_corner(n as int),
        0 <= offset.x <= 1,
        0 <= offset.y <= 1,
        0 <= offset.z <= 1,
{
    IVec3 { x: GRID_VERT_OFFSETS[n][0], y: GRID_VERT_OFFSETS[n][1], z: GRID_VERT_OFFSETS[n][2] }
}

/// Every tetrahedron names four distinct corners of the cell.
pub proof fn lemma_tets_name_distinct_corners(t: int, j: int, k: int)
    requires
        0 <= t < 5,
        0 <= j < 4,
        0 <= k < 4,
    ensures
        0 <= tet_corner(t, k) < 8,
        j != k ==> tet_corner(t, j) != tet_corner(t, k),
{
}

/// Every edge joins two distinct corner positions of a tetrahedron.
pub proof fn lemma_edges_join_distinct_ends(e: int)
    requires
        0 <= e < 6,
    ensures
        0 <= edge_end(e, 0) < 4,
        0 <= edge_end(e, 1) < 4,
        edge_end(e, 0) != edge_end(e, 1),
{
}

/// The shape of a row of the triangle pattern: each entry is an edge index or `NO_EDGE`, a
/// triangle is either wholly present or wholly absent, the second is absent where the first
/// is, and only the masks with no corner inside have no triangle at all.
pub proof fn lemma_pattern_shape(mask: int, slot: int)
    requires
        0 <= mask < 8,
        0 <= slot < 6,
    ensures
        tri_edge(mask, slot) == NO_EDGE || 0 <= tri_edge(mask, slot) < 6,
        tri_edge(mask, 0) == NO_EDGE <==> mask == 0,
        tri_edge(mask, 0) != NO_EDGE ==> tri_edge(mask, 1) != NO_EDGE && tri_edge(mask, 2)
            != NO_EDGE,
        tri_edge(mask, 3) != NO_EDGE ==> tri_edge(mask, 0) != NO_EDGE && tri_edge(mask, 4)
            != NO_EDGE && tri_edge(mask, 5) != NO_EDGE,
{
}

/// Every edge that a triangle of the pattern names joins an inside corner to an outside one:
/// the surface is cut only where the field changes sides.
pub proof fn lemma_pattern_edges_cross(mask: int, slot: int)
    requires
        0 <= mask < 8,
        0 <= slot < 6,
        tri_edge(mask, slot) != NO_EDGE,
    ensures
        mask_bit(mask, edge_end(tri_edge(mask, slot), 0)) != mask_bit(
            mask,
            edge_end(tri_edge(mask, slot), 1),
        ),
{
}

/// The three vertices of a triangle of the pattern lie on three different edges.
pub proof fn lemma_pattern_triangles_use_distinct_edges(mask: int, triangle: int)
    requires
        0 <= mask < 8,
        0 <= triangle < 2,
        tri_edge(mask, 3 * triangle) != NO_EDGE,
    ensures
        tri_edge(mask, 3 * triangle) != tri_edge(mask, 3 * triangle + 1),
        tri_edge(mask, 3 * triangle) != tri_edge(mask, 3 * triangle + 2),
        tri_edge(mask, 3 * triangle + 1) != tri_edge(mask, 3 * triangle + 2),
{
}

/// Every edge that joins an inside corner to an outside one is named by a triangle of the
/// pattern: the surface is cut wherever the field changes sides.
pub proof fn lemma_pattern_covers_crossing_edges(mask: int, e: int) -> (slot: int)
    requires
        0 <= mask < 8,
        0 <= e < 6,
        mask_bit(mask, edge_end(e, 0)) != mask_bit(mask, edge_end(e, 1)),
    ensures
        0 <= slot < 6,
        tri_edge(mask, slot) == e,
{
    if tri_edge(mask, 0) == e {
        0
    } else if tri_edge(mask, 1) == e {
        1
    } else if tri_edge(mask, 2) == e {
        2
    } else if tri_edge(mask, 3) == e {
        3
    } else if tri_edge(mask, 4) == e {
        4
    } else {
        5
    }
}

/// The number of axes along which two corners of the unit cube differ.
pub open spec fn unit_distance(m: int, n: int) -> int
    recommends
        0 <= m < 8,
        0 <= n < 8,
{
    (if unit_corner(m).x != unit_corner(n).x {
        1int
    } else {
        0int
    }) + (if unit_corner(m).y != unit_corner(n).y {
        1int
    } else {
        0int
    }) + (if unit_corner(m).z != unit_corner(n).z {
        1int
    } else {
        0int
    })
}

/// Every edge of every tetrahedron is an edge or a face diagonal of the cell, never its
/// space diagonal.
pub proof fn lemma_tet_edges_are_short(t: int, e: int)
    requires
        0 <= t < 5,
        0 <= e < 6,
    ensures
        1 <= unit_distance(tet_corner(t, edge_end(e, 0)), tet_corner(t, edge_end(e, 1))) <= 2,
{
}

} // verus!
