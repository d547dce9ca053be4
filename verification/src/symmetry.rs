//! Mirror symmetry: a sweep over a mirrored classification produces the mirror image of the
//! surface, with every winding reversed.
//!
//! A sweep has an even or an odd number of cells along an axis. Where it is even, the
//! mirror image of a cell is a cell of the opposite orientation along that axis, so the
//! tetrahedra of the one are the mirror images of the tetrahedra of the other.

use crate::mesh::{Crossing, Triangle};
use crate::orientation::{cell_inverse, flips};
use crate::surface::{
    cell_corner, cell_corners, cell_inside, compressed_mask, tet_crossing, tet_mask,
    tet_triangles, Origin,
};
use crate::tables::{
    edge_end, lemma_edges_join_distinct_ends, lemma_pattern_shape,
    lemma_tets_name_distinct_corners, tet_corner, tri_edge,
};
use crate::vector::IVec3;
use vstd::prelude::*;

verus! {

/// The mirror image of the grid corner `p` in a sweep of `n` cells along `axis`: the axes
/// are numbered 0 for `x`, 1 for `y` and 2 for `z`.
pub open spec fn mirror_corner(p: IVec3, axis: int, n: int) -> IVec3 {
    if axis == 0 {
        IVec3 { x: (n - p.x) as i32, y: p.y, z: p.z }
    } else if axis == 1 {
        IVec3 { x: p.x, y: (n - p.y) as i32, z: p.z }
    } else {
        IVec3 { x: p.x, y: p.y, z: (n - p.z) as i32 }
    }
}

/// The classification that marks a corner inside where `samples` marks its mirror image
/// inside.
pub open spec fn mirror_samples(samples: Set<IVec3>, axis: int, n: int) -> Set<IVec3> {
    Set::new(|p: IVec3| samples.contains(mirror_corner(p, axis, n)))
}

/// The mirror image of a surface vertex.
pub open spec fn mirror_crossing(c: Crossing, axis: int, n: int) -> Crossing {
    Crossing { v1: mirror_corner(c.v1, axis, n), v2: mirror_corner(c.v2, axis, n) }
}

/// The mirror image of a triangle: its vertices mirrored, its winding reversed.
pub open spec fn mirror_triangle(t: Triangle, axis: int, n: int) -> Triangle {
    Triangle {
        a: mirror_crossing(t.a, axis, n),
        b: mirror_crossing(t.b, axis, n),
        c: mirror_crossing(t.c, axis, n),
        inverted: !t.inverted,
    }
}

/// The origin in the mirror image of the cell of `o`.
pub open spec fn mirror_origin(o: Origin, axis: int, n: int) -> Origin {
    if axis == 0 {
        Origin { x: n - 1 - o.x, ..o }
    } else if axis == 1 {
        Origin { y: n - 1 - o.y, ..o }
    } else {
        Origin { z: n - 1 - o.z, ..o }
    }
}

/// The extent of a sweep over `nx` by `ny` by `nz` cells along `axis`.
pub open spec fn extent(nx: int, ny: int, nz: int, axis: int) -> int {
    if axis == 0 {
        nx
    } else if axis == 1 {
        ny
    } else {
        nz
    }
}

/// In a sweep of an even number of cells along an axis, the corner labelled `m` of the
/// mirror image of a cell is the mirror image of the corner labelled `m` of the cell, and
/// the two cells have opposite orientations.
pub proof fn lemma_mirrored_cell_mirrors_labels(o: Origin, axis: int, n: int, m: int)
    requires
        0 <= axis < 3,
        0 <= o.x < i32::MAX,
        0 <= o.y < i32::MAX,
        0 <= o.z < i32::MAX,
        extent(o.x + 1, o.y + 1, o.z + 1, axis) <= n < i32::MAX,
        n % 2 == 0,
        0 <= m < 8,
    ensures
        cell_corner(mirror_origin(o, axis, n).cell(), m) == mirror_corner(
            cell_corner(o.cell(), m),
            axis,
            n,
        ),
        mirror_corner(cell_corner(mirror_origin(o, axis, n).cell(), m), axis, n) == cell_corner(
            o.cell(),
            m,
        ),
        cell_inverse(mirror_origin(o, axis, n).cell()) != cell_inverse(o.cell()),
{
    let image = mirror_origin(o, axis, n);
    if axis == 0 {
        lemma_mirrored_coordinate_flips(o.x, n);
        assert(image.cell().y == o.cell().y && image.cell().z == o.cell().z);
    } else if axis == 1 {
        lemma_mirrored_coordinate_flips(o.y, n);
        assert(image.cell().x == o.cell().x && image.cell().z == o.cell().z);
    } else {
        lemma_mirrored_coordinate_flips(o.z, n);
        assert(image.cell().x == o.cell().x && image.cell().y == o.cell().y);
    }
}

/// In a sweep of an even number of cells along an axis, a cell and its mirror image have
/// coordinates of different parity along that axis.
proof fn lemma_mirrored_coordinate_flips(k: int, n: int)
    requires
        0 <= k < n,
        n % 2 == 0,
    ensures
        flips(n - 1 - k) != flips(k),
{
}

/// In a sweep of an even number of cells along an axis, the mirror image of a cell has the
/// mirrored corners, the classification of the cell under the mirrored classification, and
/// the opposite orientation.
proof fn lemma_mirrored_cell_is_mirrored(samples: Set<IVec3>, axis: int, n: int, o: Origin)
    requires
        0 <= axis < 3,
        0 <= o.x < i32::MAX,
        0 <= o.y < i32::MAX,
        0 <= o.z < i32::MAX,
        extent(o.x + 1, o.y + 1, o.z + 1, axis) <= n < i32::MAX,
        n % 2 == 0,
    ensures
        forall|m: int|
            0 <= m < 8 ==> #[trigger] cell_corners(mirror_origin(o, axis, n).cell())[m]
                == mirror_corner(cell_corners(o.cell())[m], axis, n),
        cell_inside(mirror_samples(samples, axis, n), mirror_origin(o, axis, n).cell())
            == cell_inside(samples, o.cell()),
        cell_inverse(mirror_origin(o, axis, n).cell()) != cell_inverse(o.cell()),
{
    let image = mirror_origin(o, axis, n).cell();
    let mirrored = mirror_samples(samples, axis, n);
    assert forall|m: int| 0 <= m < 8 implies #[trigger] cell_corners(image)[m] == mirror_corner(
        cell_corners(o.cell())[m],
        axis,
        n,
    ) && cell_inside(mirrored, image)[m] == cell_inside(samples, o.cell())[m] by {
        lemma_mirrored_cell_mirrors_labels(o, axis, n, m);
        assert(mirrored.contains(cell_corner(image, m)) == samples.contains(
            mirror_corner(cell_corner(image, m), axis, n),
        ));
    }
    lemma_mirrored_cell_mirrors_labels(o, axis, n, 0);
    assert(cell_inside(mirrored, image) =~= cell_inside(samples, o.cell()));
}

/// Over mirrored corners, the same classification and the opposite orientation, a
/// tetrahedron has the mirror images of its triangles.
proof fn lemma_mirrored_tet_has_mirrored_triangles(
    corners: Seq<IVec3>,
    image: Seq<IVec3>,
    inside: Seq<bool>,
    grid_inverse: bool,
    t: int,
    slot: int,
    axis: int,
    n: int,
)
    requires
        0 <= t < 5,
        forall|m: int| 0 <= m < 8 ==> #[trigger] image[m] == mirror_corner(corners[m], axis, n),
        0 <= slot < tet_triangles(corners, inside, grid_inverse, t).len(),
    ensures
        tet_triangles(image, inside, !grid_inverse, t).len() == tet_triangles(
            corners,
            inside,
            grid_inverse,
            t,
        ).len(),
        tet_triangles(image, inside, !grid_inverse, t)[slot] == mirror_triangle(
            tet_triangles(corners, inside, grid_inverse, t)[slot],
            axis,
            n,
        ),
{
    let row = compressed_mask(tet_mask(inside, t));
    assert forall|k: int| 0 <= k < 3 implies tet_crossing(
        image,
        t,
        #[trigger] tri_edge(row, 3 * slot + k),
    ) == mirror_crossing(tet_crossing(corners, t, tri_edge(row, 3 * slot + k)), axis, n) by {
        let e = tri_edge(row, 3 * slot + k);
        lemma_pattern_shape(row, 3 * slot + k);
        lemma_edges_join_distinct_ends(e);
        lemma_tets_name_distinct_corners(t, 0, edge_end(e, 0));
        lemma_tets_name_distinct_corners(t, 0, edge_end(e, 1));
        assert(image[tet_corner(t, edge_end(e, 0))] == mirror_corner(
            corners[tet_corner(t, edge_end(e, 0))],
            axis,
            n,
        ));
        assert(image[tet_corner(t, edge_end(e, 1))] == mirror_corner(
            corners[tet_corner(t, edge_end(e, 1))],
            axis,
            n,
        ));
    }
}

/// A sweep of an even number of cells along an axis turns the mirror image of a
/// classification into the mirror image of the surface: the triangle at the mirror image
/// of an origin is the mirror image of the triangle at the origin, with its winding
/// reversed.
pub proof fn lemma_mirrored_field_has_mirrored_surface(
    samples: Set<IVec3>,
    nx: int,
    ny: int,
    nz: int,
    axis: int,
    o: Origin,
)
    requires
        0 <= axis < 3,
        nx < i32::MAX,
        ny < i32::MAX,
        nz < i32::MAX,
        extent(nx, ny, nz, axis) % 2 == 0,
        o.within(samples, nx, ny, nz),
    ensures
        ({
            let n = extent(nx, ny, nz, axis);
            let mirrored = mirror_samples(samples, axis, n);
            &&& mirror_origin(o, axis, n).within(mirrored, nx, ny, nz)
            &&& mirror_origin(o, axis, n).triangle(mirrored) == mirror_triangle(
                o.triangle(samples),
                axis,
                n,
            )
        }),
{
    let n = extent(nx, ny, nz, axis);
    lemma_mirrored_cell_is_mirrored(samples, axis, n, o);
    lemma_mirrored_tet_has_mirrored_triangles(
        cell_corners(o.cell()),
        cell_corners(mirror_origin(o, axis, n).cell()),
        cell_inside(samples, o.cell()),
        cell_inverse(o.cell()),
        o.tet,
        o.slot,
        axis,
        n,
    );
}

} // verus!
