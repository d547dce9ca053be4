//! The marcher: sweeps the cells of a domain, splits each into tetrahedra and appends the
//! triangles of every tetrahedron that the surface cuts.

use crate::mesh::{lemma_indices_in_range, Crossing, Mesh};
use crate::orientation::{cell_inverse, cell_offset, cell_offsets, get_vert_offsets};
use crate::samples::SampleGrid;
use crate::surface::{
    cell_at, cell_corner, cell_corners, cell_inside, cell_triangles, cell_triangles_upto,
    grid_triangles, lemma_cell_triangles_len, row_triangles, slab_triangles, tet_crossing,
    tet_mask, tet_triangle, tet_triangles, triangle_count,
};
use crate::tables::{
    lemma_pattern_shape, CELL_TO_TETS, NO_EDGE, TET_EDGES, VMASK_TO_TRI_EDGES,
};
use crate::vector::IVec3;
use vstd::prelude::*;

verus! {

/// The surface vertex on the edge between positions `TET_EDGES[edge]` of a tetrahedron.
fn edge_crossing(corners: &[IVec3; 8], t: usize, edge: i8) -> (crossing: Crossing)
    requires
        t < 5,
        0 <= edge < 6,
    ensures
        crossing == tet_crossing(corners@, t as int, edge as int),
{
    let edge_vert_offs = TET_EDGES[edge as usize];
    let vert_offs_1 = edge_vert_offs[0];
    let vert_offs_2 = edge_vert_offs[1];
    Crossing {
        v1: corners[CELL_TO_TETS[t][vert_offs_1]],
        v2: corners[CELL_TO_TETS[t][vert_offs_2]],
    }
}

/// Appends the triangles of tetrahedron `t` of a cell: none where its four corners lie on
/// one side of the surface, else one or two, as the triangle pattern says.
pub fn march_tetrahedron(
    mesh: &mut Mesh,
    corners: &[IVec3; 8],
    inside: &[bool; 8],
    grid_inverse: bool,
    t: usize,
)
    requires
        old(mesh).wf(),
        old(mesh).verts@.len() + 6 <= usize::MAX,
        t < 5,
    ensures
        final(mesh).wf(),
        final(mesh)@ == old(mesh)@ + tet_triangles(corners@, inside@, grid_inverse, t as int),
{
    let tetrahedron_indices = CELL_TO_TETS[t];
    let mut mask: u8 = 0;
    if inside[tetrahedron_indices[0]] {
        mask += 1;
    }
    if inside[tetrahedron_indices[1]] {
        mask += 2;
    }
    if inside[tetrahedron_indices[2]] {
        mask += 4;
    }
    if inside[tetrahedron_indices[3]] {
        mask += 8;
    }
    let compressed_mask = (if mask > 7 {
        15 - mask
    } else {
        mask
    }) as usize;
    let inversed_mask = (mask > 7) != grid_inverse;
    let ghost before = mesh@;
    let ghost row = compressed_mask as int;
    let mut face_index: usize = 0;
    while face_index < 2 && VMASK_TO_TRI_EDGES[compressed_mask][face_index * 3] != NO_EDGE
        invariant
            mesh.wf(),
            mesh.verts@.len() + 3 * (2 - face_index) <= usize::MAX,
            t < 5,
            face_index <= 2,
            row == compressed_mask < 8,
            face_index <= triangle_count(row),
            mesh@ == before + Seq::new(
                face_index as nat,
                |slot: int| tet_triangle(corners@, t as int, row, slot, inversed_mask),
            ),
        decreases 2 - face_index,
    {
        let e1 = VMASK_TO_TRI_EDGES[compressed_mask][face_index * 3];
        let e2 = VMASK_TO_TRI_EDGES[compressed_mask][face_index * 3 + 1];
        let e3 = VMASK_TO_TRI_EDGES[compressed_mask][face_index * 3 + 2];
        proof {
            lemma_pattern_shape(row, 3 * face_index);
            lemma_pattern_shape(row, 3 * face_index + 1);
            lemma_pattern_shape(row, 3 * face_index + 2);
        }
        let a = edge_crossing(corners, t, e1);
        let b = edge_crossing(corners, t, e2);
        let c = edge_crossing(corners, t, e3);
        mesh.push_triangle(a, b, c, inversed_mask);
        proof {
        }
        face_index += 1;
    }
    proof {
        lemma_pattern_shape(row, 0);
    }
}

/// Appends the triangles of the cell at `cell_pos`.
pub fn march_cell(mesh: &mut Mesh, samples: &SampleGrid, cell_pos: IVec3)
    requires
        old(mesh).wf(),
        old(mesh).verts@.len() + 30 <= usize::MAX,
        samples.wf(),
        cell_pos.x < i32::MAX,
        cell_pos.y < i32::MAX,
        cell_pos.z < i32::MAX,
    ensures
        final(mesh).wf(),
        final(mesh)@ == old(mesh)@ + cell_triangles(samples@, cell_pos),
{
    let (grid_to_verts_offsets, grid_inverse) = get_vert_offsets(cell_pos);
    let mut vert_positions = [cell_pos;8];
    let mut vert_is_inside = [false;8];
    for n in 0..8
        invariant
            samples.wf(),
            cell_pos.x < i32::MAX,
            cell_pos.y < i32::MAX,
            cell_pos.z < i32::MAX,
            grid_to_verts_offsets@ == cell_offsets(cell_pos),
            forall|k: int| 0 <= k < n ==> vert_positions@[k] == cell_corner(cell_pos, k),
            forall|k: int|
                0 <= k < n ==> vert_is_inside@[k] == samples@.contains(cell_corner(cell_pos, k)),
    {
        let offset = grid_to_verts_offsets[n];
        let grid_position = cell_pos + offset;
        vert_positions[n] = grid_position;
        vert_is_inside[n] = samples.is_inside(grid_position);
    }
    let ghost before = mesh@;
    for t in 0..5
        invariant
            mesh.wf(),
            mesh.verts@.len() + 6 * (5 - t) <= usize::MAX,
            vert_positions@ == cell_corners(cell_pos),
            vert_is_inside@ == cell_inside(samples@, cell_pos),
            grid_inverse == cell_inverse(cell_pos),
            mesh@ == before + cell_triangles_upto(samples@, cell_pos, t as int),
    {
        march_tetrahedron(mesh, &vert_positions, &vert_is_inside, grid_inverse, t);
        assert(mesh@ =~= before + cell_triangles_upto(samples@, cell_pos, t + 1));
    }
}

/// The extraction grid and the surfaces extracted over it so far.
///
/// A domain has `width` by `height` by `depth` cells. A march sweeps the cells from the
/// origin; with `sweep_past_end` it goes on one cell past the end of the domain along each
/// axis, over the cells `(0, 0, 0)` to `(width, height, depth)`, whose corners reach
/// `(width + 1, height + 1, depth + 1)`.
#[derive(Debug)]
pub struct Domain {
    pub width: usize,
    pub height: usize,
    pub depth: usize,
    /// Whether a march visits `width + 1` by `height + 1` by `depth + 1` cells rather than
    /// the cells of the domain only. `Domain::new` sets it.
    pub sweep_past_end: bool,
    pub meshes: Vec<Mesh>,
}

/// A cell of a sweep has fewer cells before it than the sweep has cells.
proof fn lemma_cells_before(x: int, y: int, z: int, nx: int, ny: int, nz: int)
    by (nonlinear_arith)
    requires
        0 <= x < nx,
        0 <= y < ny,
        0 <= z < nz,
    ensures
        x * (ny * nz) + y * nz + z + 1 <= nx * ny * nz,
{
    assert((x * ny + y + 1) * nz <= (nx * ny) * nz);
}

/// A sweep within another has no more cells.
proof fn lemma_cells_within(nx: int, ny: int, nz: int, mx: int, my: int, mz: int)
    by (nonlinear_arith)
    requires
        0 <= nx <= mx,
        0 <= ny <= my,
        0 <= nz <= mz,
    ensures
        0 <= nx * ny * nz <= mx * my * mz,
        nx * (ny * nz) == nx * ny * nz,
{
}

/// The most triangles that a sweep over `nx` by `ny` by `nz` cells can append: five
/// tetrahedra of two triangles for every cell.
pub open spec fn max_triangles(nx: int, ny: int, nz: int) -> int {
    10 * (nx * ny * nz)
}

/// The limits of the machine on a domain of `width` by `height` by `depth` cells: every
/// corner of its widest sweep has `i32` coordinates, and the largest surface that such a
/// sweep can produce has `usize` vertex indices.
pub open spec fn sweep_fits(width: int, height: int, depth: int) -> bool {
    &&& 0 <= width < i32::MAX
    &&& 0 <= height < i32::MAX
    &&& 0 <= depth < i32::MAX
    &&& 3 * max_triangles(width + 1, height + 1, depth + 1) <= usize::MAX
}

impl Domain {
    /// The number of cells that a march visits along each axis.
    pub open spec fn sweep(&self) -> (int, int, int) {
        if self.sweep_past_end {
            (self.width + 1, self.height + 1, self.depth + 1)
        } else {
            (self.width as int, self.height as int, self.depth as int)
        }
    }

    /// The sweep of the domain is within the limits of the machine.
    pub open spec fn wf(&self) -> bool {
        sweep_fits(self.width as int, self.height as int, self.depth as int)
    }

    /// A domain of `width` by `height` by `depth` cells without surfaces, swept one cell
    /// past its end, or `None` where that sweep exceeds the limits of the machine.
    pub fn new(width: usize, height: usize, depth: usize) -> (domain: Option<Domain>)
        ensures
            domain is Some <==> sweep_fits(width as int, height as int, depth as int),
            domain matches Some(d) ==> d.width == width && d.height == height && d.depth
                == depth && d.sweep_past_end && d.meshes@.len() == 0,
    {
        let limit = i32::MAX as usize;
        if width >= limit || height >= limit || depth >= limit {
            return None;
        }
        let nx = width + 1;
        let ny = height + 1;
        let nz = depth + 1;
        let slab = match nx.checked_mul(ny) {
            Some(slab) => slab,
            None => {
                assert(nx * ny * nz >= nx * ny) by (nonlinear_arith)
                    requires
                        nx * ny >= 0,
                        nz >= 1,
                ;
                return None;
            },
        };
        let cells = match slab.checked_mul(nz) {
            Some(cells) => cells,
            None => {
                return None;
            },
        };
        match cells.checked_mul(30) {
            Some(_) => Some(
                Domain { width, height, depth, sweep_past_end: true, meshes: Vec::new() },
            ),
            None => None,
        }
    }

    /// The number of grid vertices along each axis of the domain: one more than it has
    /// cells.
    pub fn vertex_grid_size(&self) -> (size: IVec3)
        requires
            self.wf(),
        ensures
            size.x == self.width + 1,
            size.y == self.height + 1,
            size.z == self.depth + 1,
    {
        IVec3 {
            x: self.width as i32 + 1,
            y: self.height as i32 + 1,
            z: self.depth as i32 + 1,
        }
    }

    /// The number of cells that a march visits along each axis.
    pub fn cell_grid_size(&self) -> (size: IVec3)
        requires
            self.wf(),
        ensures
            (size.x as int, size.y as int, size.z as int) == self.sweep(),
    {
        if self.sweep_past_end {
            self.vertex_grid_size()
        } else {
            IVec3 { x: self.width as i32, y: self.height as i32, z: self.depth as i32 }
        }
    }

    /// Extracts the surface that `samples` describes and appends it, as one mesh, to the
    /// meshes of the domain.
    ///
    /// The cells are visited with `x` outermost and `z` innermost. Every vertex of the mesh
    /// names the grid edge that the surface crosses; vertices are not shared between
    /// triangles.
    pub fn march_tetrahedras(&mut self, samples: &SampleGrid)
        requires
            old(self).wf(),
            samples.wf(),
        ensures
            final(self).width == old(self).width,
            final(self).height == old(self).height,
            final(self).depth == old(self).depth,
            final(self).sweep_past_end == old(self).sweep_past_end,
            final(self).meshes@.len() == old(self).meshes@.len() + 1,
            final(self).meshes@.drop_last() == old(self).meshes@,
            final(self).meshes@.last().wf(),
            final(self).meshes@.last()@ == grid_triangles(
                samples@,
                old(self).sweep().0,
                old(self).sweep().1,
                old(self).sweep().2,
            ),
            final(self).meshes@.last().verts@.len() == 3 * final(self).meshes@.last().faces@.len(),
            final(self).meshes@.last().edges@.len() == 3 * final(self).meshes@.last().faces@.len(),
            final(self).meshes@.last().faces@.len() <= max_triangles(
                old(self).sweep().0,
                old(self).sweep().1,
                old(self).sweep().2,
            ),
            forall|i: int|
                0 <= i < final(self).meshes@.last().faces@.len() ==> {
                    let f = #[trigger] final(self).meshes@.last().faces@[i];
                    let count = final(self).meshes@.last().verts@.len();
                    f.v1 < count && f.v2 < count && f.v3 < count
                },
    {
        let mut mesh = Mesh::default();
        let max_cell_position = self.cell_grid_size();
        let ghost nx = max_cell_position.x as int;
        let ghost ny = max_cell_position.y as int;
        let ghost nz = max_cell_position.z as int;
        proof {
            lemma_cells_within(nx, ny, nz, self.width + 1, self.height + 1, self.depth + 1);
        }
        for x in 0..max_cell_position.x
            invariant
                samples.wf(),
                0 <= nx == max_cell_position.x,
                0 <= ny == max_cell_position.y,
                0 <= nz == max_cell_position.z,
                30 * (nx * ny * nz) <= usize::MAX,
                mesh.wf(),
                mesh.faces@.len() <= 10 * (x * (ny * nz)),
                mesh@ == grid_triangles(samples@, x as int, ny, nz),
        {
            for y in 0..max_cell_position.y
                invariant
                    samples.wf(),
                    0 <= x < nx == max_cell_position.x,
                    0 <= ny == max_cell_position.y,
                    0 <= nz == max_cell_position.z,
                    30 * (nx * ny * nz) <= usize::MAX,
                    mesh.wf(),
                    mesh.faces@.len() <= 10 * (x * (ny * nz) + y * nz),
                    mesh@ == grid_triangles(samples@, x as int, ny, nz) + slab_triangles(
                        samples@,
                        x as int,
                        y as int,
                        nz,
                    ),
            {
                for z in 0..max_cell_position.z
                    invariant
                        samples.wf(),
                        0 <= x < nx == max_cell_position.x,
                        0 <= y < ny == max_cell_position.y,
                        0 <= nz == max_cell_position.z,
                        30 * (nx * ny * nz) <= usize::MAX,
                        mesh.wf(),
                        mesh.faces@.len() <= 10 * (x * (ny * nz) + y * nz + z),
                        mesh@ == grid_triangles(samples@, x as int, ny, nz) + slab_triangles(
                            samples@,
                            x as int,
                            y as int,
                            nz,
                        ) + row_triangles(samples@, x as int, y as int, z as int),
                {
                    let cell_pos = IVec3 { x, y, z };
                    proof {
                        lemma_cells_before(x as int, y as int, z as int, nx, ny, nz);
                        lemma_cell_triangles_len(samples@, cell_pos, 5);
                    }
                    let ghost so_far = mesh@;
                    march_cell(&mut mesh, samples, cell_pos);
                    assert(cell_pos == cell_at(x as int, y as int, z as int));
                    assert(mesh@.len() == so_far.len() + cell_triangles(samples@, cell_pos).len());
                    assert(mesh@ =~= grid_triangles(samples@, x as int, ny, nz) + slab_triangles(
                        samples@,
                        x as int,
                        y as int,
                        nz,
                    ) + row_triangles(samples@, x as int, y as int, z + 1));
                }
                assert((y + 1) * nz == y * nz + nz) by (nonlinear_arith);
            }
            assert((x + 1) * (ny * nz) == x * (ny * nz) + ny * nz) by (nonlinear_arith);
        }
        proof {
            lemma_indices_in_range(mesh);
        }
        self.meshes.push(mesh);
    }

    /// A classification of the corners of the widest sweep, all outside: the grid to fill
    /// in before a march.
    pub fn sample_grid(&self) -> (grid: SampleGrid)
        requires
            self.wf(),
        ensures
            grid.wf(),
            grid.size() == (
                (self.width + 2) as nat,
                (self.height + 2) as nat,
                (self.depth + 2) as nat,
            ),
            grid@ == Set::<IVec3>::empty(),
    {
        proof {
            lemma_corners_fit(self.width as int, self.height as int, self.depth as int);
        }
        SampleGrid::new(self.width + 2, self.height + 2, self.depth + 2).unwrap()
    }
}

/// A sweep has at most eight times as many corners as cells.
proof fn lemma_corners_fit(width: int, height: int, depth: int)
    by (nonlinear_arith)
    requires
        0 <= width,
        0 <= height,
        0 <= depth,
    ensures
        (width + 2) * (height + 2) * (depth + 2) <= 8 * ((width + 1) * (height + 1) * (depth
            + 1)),
{
}

} // verus!
