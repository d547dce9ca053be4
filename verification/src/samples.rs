//! The classification of grid corners as inside or outside the surface.

use crate::vector::IVec3;
use vstd::prelude::*;

verus! {

/// For every corner of a box of grid corners, whether the field there exceeds the iso-value.
///
/// The view is the set of corners marked inside. A corner that the grid does not cover is
/// outside.
pub struct SampleGrid {
    nx: usize,
    ny: usize,
    nz: usize,
    inside: Vec<bool>,
}

/// The position of corner `(x, y, z)` in the row-major layout of a grid with `ny` by `nz`
/// corners per slab.
pub open spec fn flat_index(x: int, y: int, z: int, ny: int, nz: int) -> int {
    (x * ny + y) * nz + z
}

/// A covered corner has a position inside the layout.
proof fn lemma_flat_index_bounds(x: int, y: int, z: int, nx: int, ny: int, nz: int)
    by (nonlinear_arith)
    requires
        0 <= x < nx,
        0 <= y < ny,
        0 <= z < nz,
    ensures
        0 <= x * ny <= x * ny + y < nx * ny,
        0 <= (x * ny + y) * nz <= flat_index(x, y, z, ny, nz) < nx * ny * nz,
        nx * ny <= nx * ny * nz,
{
    assert(x * ny + y + 1 <= nx * ny);
}

/// Distinct covered corners have distinct positions.
proof fn lemma_flat_index_injective(
    x1: int,
    y1: int,
    z1: int,
    x2: int,
    y2: int,
    z2: int,
    ny: int,
    nz: int,
)
    by (nonlinear_arith)
    requires
        0 <= x1,
        0 <= y1 < ny,
        0 <= z1 < nz,
        0 <= x2,
        0 <= y2 < ny,
        0 <= z2 < nz,
        x1 != x2 || y1 != y2 || z1 != z2,
    ensures
        flat_index(x1, y1, z1, ny, nz) != flat_index(x2, y2, z2, ny, nz),
{
    assert(x1 * ny + y1 != x2 * ny + y2 || z1 != z2);
}

impl View for SampleGrid {
    type V = Set<IVec3>;

    closed spec fn view(&self) -> Set<IVec3> {
        Set::new(
            |p: IVec3|
                self.covers(p) && self.inside@[flat_index(
                    p.x as int,
                    p.y as int,
                    p.z as int,
                    self.ny as int,
                    self.nz as int,
                )],
        )
    }
}

impl SampleGrid {
    /// The number of corners along each axis.
    pub closed spec fn size(&self) -> (nat, nat, nat) {
        (self.nx as nat, self.ny as nat, self.nz as nat)
    }

    /// The grid holds one sample for each corner of its box.
    pub closed spec fn wf(&self) -> bool {
        self.inside.len() == self.nx * self.ny * self.nz
    }

    /// Whether `p` is a corner of the grid's box, which starts at the origin.
    pub open spec fn covers(&self, p: IVec3) -> bool {
        &&& 0 <= p.x < self.size().0
        &&& 0 <= p.y < self.size().1
        &&& 0 <= p.z < self.size().2
    }

    /// A grid of `nx` by `ny` by `nz` corners, all outside, or `None` where that many samples
    /// cannot be addressed.
    pub fn new(nx: usize, ny: usize, nz: usize) -> (grid: Option<SampleGrid>)
        ensures
            grid is Some <==> nx * ny * nz <= usize::MAX,
            grid matches Some(g) ==> g.wf() && g.size() == (nx as nat, ny as nat, nz as nat)
                && g@ == Set::<IVec3>::empty(),
    {
        if nx == 0 || ny == 0 || nz == 0 {
            assert(nx * ny * nz == 0) by (nonlinear_arith)
                requires
                    nx == 0 || ny == 0 || nz == 0,
            ;
            return Some(SampleGrid { nx, ny, nz, inside: Vec::new() });
        }
        let slab = match nx.checked_mul(ny) {
            Some(slab) => slab,
            None => {
                assert(nx * ny * nz >= nx * ny) by (nonlinear_arith)
                    requires
                        nz >= 1,
                        nx * ny >= 0,
                ;
                return None;
            },
        };
        let len = match slab.checked_mul(nz) {
            Some(len) => len,
            None => {
                return None;
            },
        };
        let mut inside: Vec<bool> = Vec::new();
        while inside.len() < len
            invariant
                inside@.len() <= len,
                forall|i: int| 0 <= i < inside@.len() ==> !inside@[i],
            decreases len - inside@.len(),
        {
            inside.push(false);
        }
        let g = SampleGrid { nx, ny, nz, inside };
        assert(g@ =~= Set::<IVec3>::empty()) by {
            assert forall|p: IVec3| !g@.contains(p) by {
                if g.covers(p) {
                    lemma_flat_index_bounds(
                        p.x as int,
                        p.y as int,
                        p.z as int,
                        nx as int,
                        ny as int,
                        nz as int,
                    );
                }
            }
        }
        Some(g)
    }

    /// Marks corner `p` as inside or outside. Returns whether the grid covers `p`; a corner
    /// that it does not cover stays outside.
    pub fn set(&mut self, p: IVec3, inside: bool) -> (stored: bool)
        requires
            old(self).wf(),
        ensures
            final(self).wf(),
            final(self).size() == old(self).size(),
            stored == old(self).covers(p),
            final(self)@ == if !stored {
                old(self)@
            } else if inside {
                old(self)@.insert(p)
            } else {
                old(self)@.remove(p)
            },
    {
        match self.position(p) {
            None => false,
            Some(at) => {
                self.inside[at] = inside;
                proof {
                    let ny = self.ny as int;
                    let nz = self.nz as int;
                    let expected = if inside {
                        old(self)@.insert(p)
                    } else {
                        old(self)@.remove(p)
                    };
                    assert forall|q: IVec3| self@.contains(q) == expected.contains(q) by {
                        if self.covers(q) && q != p {
                            lemma_flat_index_bounds(
                                q.x as int,
                                q.y as int,
                                q.z as int,
                                self.nx as int,
                                ny,
                                nz,
                            );
                            lemma_flat_index_injective(
                                p.x as int,
                                p.y as int,
                                p.z as int,
                                q.x as int,
                                q.y as int,
                                q.z as int,
                                ny,
                                nz,
                            );
                        }
                    }
                }
                true
            },
        }
    }

    /// Whether corner `p` is marked inside.
    pub fn is_inside(&self, p: IVec3) -> (inside: bool)
        requires
            self.wf(),
        ensures
            inside == self@.contains(p),
    {
        match self.position(p) {
            None => false,
            Some(at) => self.inside[at],
        }
    }

    /// Where the sample of corner `p` is stored, if the grid covers `p`.
    fn position(&self, p: IVec3) -> (at: Option<usize>)
        requires
            self.wf(),
        ensures
            at is Some <==> self.covers(p),
            at matches Some(i) ==> i < self.inside@.len() && i == flat_index(
                p.x as int,
                p.y as int,
                p.z as int,
                self.ny as int,
                self.nz as int,
            ),
    {
        if p.x < 0 || p.y < 0 || p.z < 0 {
            return None;
        }
        let x = p.x as usize;
        let y = p.y as usize;
        let z = p.z as usize;
        if x >= self.nx || y >= self.ny || z >= self.nz {
            return None;
        }
        proof {
            lemma_flat_index_bounds(
                x as int,
                y as int,
                z as int,
                self.nx as int,
                self.ny as int,
                self.nz as int,
            );
        }
        Some((x * self.ny + y) * self.nz + z)
    }
}

} // verus!
