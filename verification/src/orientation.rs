//! Cell orientation: the corner labelling of a cell is mirrored along each axis on which the
//! cell's coordinate is odd, so that neighbouring cells cut their shared face along the same
//! diagonal.

use crate::tables::{grid_vert_offset, unit_corner};
use crate::vector::IVec3;
use vstd::prelude::*;

verus! {

/// Whether a cell with coordinate `c` along some axis is mirrored along that axis: whether
/// the absolute value of `c` is odd.
pub open spec fn flips(c: int) -> bool {
    (if c < 0 { -c } else { c }) % 2 == 1
}

/// One component of a unit-cube offset, mirrored where `flip` holds.
pub open spec fn flip_component(c: int, flip: bool) -> int {
    if flip {
        1 - c
    } else {
        c
    }
}

/// The offset of the corner labelled `n` in the cell at `cell`.
pub open spec fn cell_offset(cell: IVec3, n: int) -> IVec3
    recommends
        0 <= n < 8,
{
    IVec3 {
        x: flip_component(unit_corner(n).x as int, flips(cell.x as int)) as i32,
        y: flip_component(unit_corner(n).y as int, flips(cell.y as int)) as i32,
        z: flip_component(unit_corner(n).z as int, flips(cell.z as int)) as i32,
    }
}

/// The eight corner offsets of the cell at `cell`, by label.
pub open spec fn cell_offsets(cell: IVec3) -> Seq<IVec3> {
    Seq::new(8, |n: int| cell_offset(cell, n))
}

/// Whether the cell at `cell` is mirrored an odd number of times, which reverses the
/// orientation of everything defined by its labels.
pub open spec fn cell_inverse(cell: IVec3) -> bool {
    flips(cell.x as int) != (flips(cell.y as int) != flips(cell.z as int))
}

/// Whether a cell with coordinate `c` along some axis is mirrored along that axis.
fn is_odd(c: i32) -> (odd: bool)
    ensures
        odd == flips(c as int),
{
    c % 2 != 0
}

/// The corner offsets of the cell at `cell_pos`, by label, and whether the cell's orientation
/// is reversed.
pub fn get_vert_offsets(cell_pos: IVec3) -> (out: ([IVec3; 8], bool))
    ensures
        out.0@ == cell_offsets(cell_pos),
        out.1 == cell_inverse(cell_pos),
{
    let flip_x = is_odd(cell_pos.x);
    let flip_y = is_odd(cell_pos.y);
    let flip_z = is_odd(cell_pos.z);
    let grid_inverse = flip_x != (flip_y != flip_z);

    let mut result = [IVec3 { x: 0, y: 0, z: 0 };8];
    for index in 0..8
        invariant
            flip_x == flips(cell_pos.x as int),
            flip_y == flips(cell_pos.y as int),
            flip_z == flips(cell_pos.z as int),
            forall|n: int| 0 <= n < index ==> result@[n] == cell_offset(cell_pos, n),
    {
        let mut offset = grid_vert_offset(index);
        if flip_x {
            offset.x = 1 - offset.x;
        }
        if flip_y {
            offset.y = 1 - offset.y;
        }
        if flip_z {
            offset.z = 1 - offset.z;
        }
        result[index] = offset;
    }
    (result, grid_inverse)
}

/// Whether `b` is the cell one step from `a` along exactly one axis.
pub open spec fn adjacent(a: IVec3, b: IVec3) -> bool {
    let dx = b.x - a.x;
    let dy = b.y - a.y;
    let dz = b.z - a.z;
    ||| (dx == 1 || dx == -1) && dy == 0 && dz == 0
    ||| dx == 0 && (dy == 1 || dy == -1) && dz == 0
    ||| dx == 0 && dy == 0 && (dz == 1 || dz == -1)
}

/// The grid position of the corner labelled `n` in the cell at `cell`.
pub open spec fn corner_position(cell: IVec3, n: int) -> (int, int, int)
    recommends
        0 <= n < 8,
{
    (
        cell.x + cell_offset(cell, n).x,
        cell.y + cell_offset(cell, n).y,
        cell.z + cell_offset(cell, n).z,
    )
}

/// Whether the grid position `p` is a corner of the cell at `cell`.
pub open spec fn in_cell(p: (int, int, int), cell: IVec3) -> bool {
    &&& cell.x <= p.0 <= cell.x + 1
    &&& cell.y <= p.1 <= cell.y + 1
    &&& cell.z <= p.2 <= cell.z + 1
}

/// Two cells that share a face label the corners of that face alike: a label names a corner
/// of the shared face in the one cell exactly where it does so in the other, and it names
/// the same corner in both. The corners that the two cells produce for the shared face are
/// thus the same four, under the same labels, and every tetrahedron, being a set of labels,
/// meets the shared face in the same triangle from either side.
pub proof fn lemma_adjacent_cells_label_shared_face_alike(a: IVec3, b: IVec3, n: int)
    requires
        adjacent(a, b),
        0 <= n < 8,
    ensures
        in_cell(corner_position(a, n), b) <==> in_cell(corner_position(b, n), a),
        in_cell(corner_position(a, n), b) ==> corner_position(a, n) == corner_position(b, n),
{
}

/// Neighbouring cells have opposite orientations.
pub proof fn lemma_adjacent_cells_alternate(a: IVec3, b: IVec3)
    requires
        adjacent(a, b),
    ensures
        cell_inverse(a) != cell_inverse(b),
{
}

} // verus!
