use marching_tetrahedra::marcher::{march_cell, march_tetrahedron, Domain};
use marching_tetrahedra::mesh::{Crossing, Edge, Face, Mesh};
use marching_tetrahedra::orientation::get_vert_offsets;
use marching_tetrahedra::samples::SampleGrid;
use marching_tetrahedra::tables::{CELL_TO_TETS, TET_EDGES};
use marching_tetrahedra::vector::IVec3;

fn at(x: i32, y: i32, z: i32) -> IVec3 {
    IVec3 { x, y, z }
}

fn crossing(a: (i32, i32, i32), b: (i32, i32, i32)) -> Crossing {
    Crossing { v1: at(a.0, a.1, a.2), v2: at(b.0, b.1, b.2) }
}

/// Eight distinct points that stand for the corners of a cell, by label.
fn labelled_corners() -> [IVec3; 8] {
    let mut corners = [at(0, 0, 0); 8];
    for n in 0..8 {
        corners[n] = at(100 + n as i32, 0, 0);
    }
    corners
}

fn check_shape(mesh: &Mesh) {
    assert_eq!(mesh.verts.len(), 3 * mesh.faces.len());
    assert_eq!(mesh.edges.len(), 3 * mesh.faces.len());
    for (i, face) in mesh.faces.iter().enumerate() {
        assert_eq!(face.v1, 3 * i);
        assert!(
            (face.v2, face.v3) == (3 * i + 1, 3 * i + 2)
                || (face.v2, face.v3) == (3 * i + 2, 3 * i + 1)
        );
        assert!(face.v1 < mesh.verts.len());
        assert!(face.v2 < mesh.verts.len());
        assert!(face.v3 < mesh.verts.len());
        assert_eq!(mesh.edges[3 * i], Edge { v1: 3 * i, v2: 3 * i + 1 });
        assert_eq!(mesh.edges[3 * i + 1], Edge { v1: 3 * i + 1, v2: 3 * i + 2 });
        assert_eq!(mesh.edges[3 * i + 2], Edge { v1: 3 * i + 2, v2: 3 * i });
    }
}

#[test]
fn push_triangle_appends_face_edges_and_vertices() {
    let mut mesh = Mesh::default();
    assert!(mesh.verts.is_empty() && mesh.faces.is_empty() && mesh.edges.is_empty());
    let a = crossing((0, 0, 0), (1, 0, 0));
    let b = crossing((0, 0, 0), (0, 1, 0));
    let c = crossing((0, 0, 0), (0, 0, 1));
    mesh.push_triangle(a, b, c, false);
    mesh.push_triangle(c, b, a, true);
    assert_eq!(mesh.verts, vec![a, b, c, c, b, a]);
    assert_eq!(
        mesh.faces,
        vec![Face { v1: 0, v2: 1, v3: 2 }, Face { v1: 3, v2: 5, v3: 4 }]
    );
    assert_eq!(
        mesh.edges,
        vec![
            Edge { v1: 0, v2: 1 },
            Edge { v1: 1, v2: 2 },
            Edge { v1: 2, v2: 0 },
            Edge { v1: 3, v2: 4 },
            Edge { v1: 4, v2: 5 },
            Edge { v1: 5, v2: 3 },
        ]
    );
    check_shape(&mesh);
}

/// The triangle pattern, written out once more: for each of the sixteen masks, the edges of
/// its triangles and whether the mask itself reverses the winding.
const PATTERN: [(&[[usize; 3]], bool); 16] = [
    (&[], false),
    (&[[0, 1, 2]], false),
    (&[[0, 5, 3]], false),
    (&[[1, 2, 3], [3, 2, 5]], false),
    (&[[1, 3, 4]], false),
    (&[[4, 2, 3], [3, 2, 0]], false),
    (&[[1, 0, 4], [4, 0, 5]], false),
    (&[[2, 5, 4]], false),
    (&[[2, 5, 4]], true),
    (&[[1, 0, 4], [4, 0, 5]], true),
    (&[[4, 2, 3], [3, 2, 0]], true),
    (&[[1, 3, 4]], true),
    (&[[1, 2, 3], [3, 2, 5]], true),
    (&[[0, 5, 3]], true),
    (&[[0, 1, 2]], true),
    (&[], true),
];

#[test]
fn every_mask_of_every_tetrahedron_follows_the_pattern() {
    let corners = labelled_corners();
    for t in 0..5 {
        for mask in 0..16usize {
            for grid_inverse in [false, true] {
                let mut inside = [false; 8];
                for k in 0..4 {
                    inside[CELL_TO_TETS[t][k]] = mask & (1 << k) != 0;
                }
                let mut mesh = Mesh::default();
                march_tetrahedron(&mut mesh, &corners, &inside, grid_inverse, t);
                let (triangles, mask_inverts) = PATTERN[mask];
                assert_eq!(mesh.faces.len(), triangles.len());
                check_shape(&mesh);
                let inverted = mask_inverts != grid_inverse;
                for (i, edges) in triangles.iter().enumerate() {
                    let expected_face = if inverted {
                        Face { v1: 3 * i, v2: 3 * i + 2, v3: 3 * i + 1 }
                    } else {
                        Face { v1: 3 * i, v2: 3 * i + 1, v3: 3 * i + 2 }
                    };
                    assert_eq!(mesh.faces[i], expected_face);
                    for k in 0..3 {
                        let ends = TET_EDGES[edges[k]];
                        let expected = Crossing {
                            v1: corners[CELL_TO_TETS[t][ends[0]]],
                            v2: corners[CELL_TO_TETS[t][ends[1]]],
                        };
                        assert_eq!(mesh.verts[3 * i + k], expected);
                        assert_ne!(
                            inside[CELL_TO_TETS[t][ends[0]]],
                            inside[CELL_TO_TETS[t][ends[1]]]
                        );
                    }
                }
            }
        }
    }
}

#[test]
fn tetrahedron_appends_after_what_the_mesh_holds() {
    let corners = labelled_corners();
    let mut inside = [false; 8];
    inside[0] = true;
    inside[2] = true;
    let mut mesh = Mesh::default();
    march_tetrahedron(&mut mesh, &corners, &inside, false, 0);
    assert_eq!(mesh.faces.len(), 2);
    let first = mesh.verts.clone();
    march_tetrahedron(&mut mesh, &corners, &inside, true, 2);
    assert_eq!(mesh.faces.len(), 4);
    assert_eq!(&mesh.verts[..6], &first[..]);
    assert_eq!(mesh.faces[0], Face { v1: 0, v2: 1, v3: 2 });
    assert_eq!(mesh.faces[1], Face { v1: 3, v2: 4, v3: 5 });
    check_shape(&mesh);
}

#[test]
fn one_inside_corner_of_an_even_cell() {
    let mut domain = Domain::new(0, 0, 0).unwrap();
    let mut samples = domain.sample_grid();
    assert!(samples.set(at(0, 0, 0), true));
    domain.march_tetrahedras(&samples);
    assert_eq!(domain.meshes.len(), 1);
    let mesh = &domain.meshes[0];
    let o = (0, 0, 0);
    assert_eq!(
        mesh.verts,
        vec![
            crossing(o, (1, 1, 0)),
            crossing(o, (0, 1, 1)),
            crossing(o, (1, 0, 1)),
            crossing((1, 0, 0), o),
            crossing((1, 1, 0), o),
            crossing(o, (1, 0, 1)),
            crossing((0, 1, 0), o),
            crossing(o, (1, 1, 0)),
            crossing((0, 1, 1), o),
            crossing((0, 0, 1), o),
            crossing((1, 0, 1), o),
            crossing(o, (0, 1, 1)),
        ]
    );
    assert_eq!(
        mesh.faces,
        vec![
            Face { v1: 0, v2: 1, v3: 2 },
            Face { v1: 3, v2: 4, v3: 5 },
            Face { v1: 6, v2: 8, v3: 7 },
            Face { v1: 9, v2: 10, v3: 11 },
        ]
    );
    check_shape(mesh);
}

#[test]
fn mirrored_cell_mirrors_its_corners_and_reverses_winding() {
    let mut mesh = Mesh::default();
    let mut samples = SampleGrid::new(3, 2, 2).unwrap();
    assert!(samples.set(at(2, 0, 0), true));
    march_cell(&mut mesh, &samples, at(1, 0, 0));
    let o = (2, 0, 0);
    assert_eq!(mesh.faces.len(), 4);
    assert_eq!(
        &mesh.verts[..3],
        &[crossing(o, (1, 1, 0)), crossing(o, (2, 1, 1)), crossing(o, (1, 0, 1))]
    );
    assert_eq!(
        mesh.faces,
        vec![
            Face { v1: 0, v2: 2, v3: 1 },
            Face { v1: 3, v2: 5, v3: 4 },
            Face { v1: 6, v2: 7, v3: 8 },
            Face { v1: 9, v2: 11, v3: 10 },
        ]
    );
    check_shape(&mesh);
}

#[test]
fn sweep_reaches_one_cell_past_the_domain() {
    let mut domain = Domain::new(1, 1, 1).unwrap();
    let size = domain.vertex_grid_size();
    assert_eq!((size.x, size.y, size.z), (2, 2, 2));
    let mut samples = domain.sample_grid();
    assert!(samples.set(at(2, 2, 2), true));
    assert!(!samples.set(at(3, 2, 2), true));
    domain.march_tetrahedras(&samples);
    let mesh = &domain.meshes[0];
    assert!(!mesh.faces.is_empty());
    for vert in &mesh.verts {
        for end in [vert.v1, vert.v2] {
            assert!(1 <= end.x && end.x <= 2);
            assert!(1 <= end.y && end.y <= 2);
            assert!(1 <= end.z && end.z <= 2);
        }
    }
    check_shape(mesh);
}

#[test]
fn sweep_can_stop_at_the_end_of_the_domain() {
    let mut domain = Domain::new(1, 1, 1).unwrap();
    assert!(domain.sweep_past_end);
    let size = domain.cell_grid_size();
    assert_eq!((size.x, size.y, size.z), (2, 2, 2));
    domain.sweep_past_end = false;
    let size = domain.cell_grid_size();
    assert_eq!((size.x, size.y, size.z), (1, 1, 1));
    let size = domain.vertex_grid_size();
    assert_eq!((size.x, size.y, size.z), (2, 2, 2));

    let mut beyond = domain.sample_grid();
    assert!(beyond.set(at(2, 2, 2), true));
    domain.march_tetrahedras(&beyond);
    assert!(domain.meshes[0].faces.is_empty());

    let mut within = domain.sample_grid();
    assert!(within.set(at(1, 1, 1), true));
    domain.march_tetrahedras(&within);
    let mut expected = Mesh::default();
    march_cell(&mut expected, &within, at(0, 0, 0));
    assert_eq!(domain.meshes[1].faces.len(), 1);
    assert_eq!(domain.meshes[1].verts, expected.verts);
    assert_eq!(domain.meshes[1].faces, expected.faces);

    domain.sweep_past_end = true;
    domain.march_tetrahedras(&within);
    assert_eq!(domain.meshes[2].faces.len(), 8);
    check_shape(&domain.meshes[2]);

    let mut empty = Domain::new(0, 3, 3).unwrap();
    empty.sweep_past_end = false;
    let mut samples = empty.sample_grid();
    assert!(samples.set(at(0, 1, 1), true));
    empty.march_tetrahedras(&samples);
    assert!(empty.meshes[0].faces.is_empty());
}

#[test]
fn one_inside_corner_is_enclosed_by_its_eight_cells() {
    // A corner with odd coordinates is an apex of one tetrahedron in each cell around it,
    // one with even coordinates a corner of four.
    for (corner, faces) in [(at(1, 1, 1), 8), (at(2, 2, 2), 32), (at(1, 3, 1), 8)] {
        let mut domain = Domain::new(4, 4, 4).unwrap();
        let mut samples = domain.sample_grid();
        assert!(samples.set(corner, true));
        domain.march_tetrahedras(&samples);
        let mesh = &domain.meshes[0];
        assert_eq!(mesh.faces.len(), faces);
        check_shape(mesh);
        for vert in &mesh.verts {
            assert!(vert.v1 == corner || vert.v2 == corner);
        }
    }
}

#[test]
fn cells_are_visited_with_x_outermost_and_z_innermost() {
    let mut domain = Domain::new(1, 1, 1).unwrap();
    let mut samples = domain.sample_grid();
    for x in 0..3 {
        for y in 0..3 {
            for z in 0..3 {
                samples.set(at(x, y, z), (x + y + z) % 2 == 0);
            }
        }
    }
    domain.march_tetrahedras(&samples);
    let mesh = &domain.meshes[0];
    let mut expected = Mesh::default();
    for x in 0..2 {
        for y in 0..2 {
            for z in 0..2 {
                march_cell(&mut expected, &samples, at(x, y, z));
            }
        }
    }
    assert!(!mesh.faces.is_empty());
    assert_eq!(mesh.verts, expected.verts);
    assert_eq!(mesh.faces, expected.faces);
    assert_eq!(mesh.edges, expected.edges);
}

fn checker(domain: &Domain, modulus: i32) -> SampleGrid {
    let mut samples = domain.sample_grid();
    let size = domain.vertex_grid_size();
    for x in 0..size.x + 1 {
        for y in 0..size.y + 1 {
            for z in 0..size.z + 1 {
                let inside = (x * x + 3 * y + 5 * z * z + x * y * z) % modulus == 0;
                assert!(samples.set(at(x, y, z), inside));
            }
        }
    }
    samples
}

#[test]
fn counts_and_indices_are_consistent() {
    for modulus in 2..6 {
        let mut domain = Domain::new(3, 2, 4).unwrap();
        let samples = checker(&domain, modulus);
        domain.march_tetrahedras(&samples);
        let mesh = &domain.meshes[0];
        assert!(!mesh.faces.is_empty());
        check_shape(mesh);
        assert!(mesh.faces.len() <= 10 * 4 * 3 * 5);
    }
}

#[test]
fn every_vertex_lies_on_an_edge_that_crosses() {
    let mut domain = Domain::new(3, 2, 4).unwrap();
    let samples = checker(&domain, 3);
    domain.march_tetrahedras(&samples);
    let mesh = &domain.meshes[0];
    assert!(!mesh.verts.is_empty());
    for vert in &mesh.verts {
        assert_ne!(samples.is_inside(vert.v1), samples.is_inside(vert.v2));
        let d = (
            (vert.v1.x - vert.v2.x).abs(),
            (vert.v1.y - vert.v2.y).abs(),
            (vert.v1.z - vert.v2.z).abs(),
        );
        assert!(d.0 <= 1 && d.1 <= 1 && d.2 <= 1);
        assert!(d.0 + d.1 + d.2 == 1 || d.0 + d.1 + d.2 == 2);
    }
}

#[test]
fn every_crossing_edge_of_every_tetrahedron_carries_a_vertex() {
    let mut domain = Domain::new(3, 2, 4).unwrap();
    let samples = checker(&domain, 3);
    domain.march_tetrahedras(&samples);
    let mesh = &domain.meshes[0];
    let size = domain.cell_grid_size();
    let mut crossing_edges = 0;
    for x in 0..size.x {
        for y in 0..size.y {
            for z in 0..size.z {
                let cell = at(x, y, z);
                let (offsets, _) = get_vert_offsets(cell);
                for tet in CELL_TO_TETS {
                    for edge in TET_EDGES {
                        let v1 = cell + offsets[tet[edge[0]]];
                        let v2 = cell + offsets[tet[edge[1]]];
                        if samples.is_inside(v1) != samples.is_inside(v2) {
                            crossing_edges += 1;
                            assert!(mesh.verts.contains(&Crossing { v1, v2 }));
                        }
                    }
                }
            }
        }
    }
    assert!(crossing_edges > 0);
}

#[test]
fn every_triangle_has_three_different_vertices_in_one_cell() {
    let mut domain = Domain::new(3, 2, 4).unwrap();
    let samples = checker(&domain, 3);
    domain.march_tetrahedras(&samples);
    let mesh = &domain.meshes[0];
    assert!(!mesh.faces.is_empty());
    for face in &mesh.faces {
        let (a, b, c) = (mesh.verts[face.v1], mesh.verts[face.v2], mesh.verts[face.v3]);
        assert!(a != b && a != c && b != c);
        let ends = [a.v1, a.v2, b.v1, b.v2, c.v1, c.v2];
        let low = |pick: fn(&IVec3) -> i32| ends.iter().map(pick).min().unwrap();
        let high = |pick: fn(&IVec3) -> i32| ends.iter().map(pick).max().unwrap();
        assert!(high(|p| p.x) - low(|p| p.x) <= 1);
        assert!(high(|p| p.y) - low(|p| p.y) <= 1);
        assert!(high(|p| p.z) - low(|p| p.z) <= 1);
        assert!(0 <= low(|p| p.x) && high(|p| p.x) <= 4);
        assert!(0 <= low(|p| p.y) && high(|p| p.y) <= 3);
        assert!(0 <= low(|p| p.z) && high(|p| p.z) <= 5);
    }
}

#[test]
fn cell_with_negative_coordinates() {
    let mut samples = SampleGrid::new(2, 2, 2).unwrap();
    assert!(samples.set(at(0, 0, 0), true));
    let mut mesh = Mesh::default();
    march_cell(&mut mesh, &samples, at(-1, -1, -1));
    let o = (0, 0, 0);
    assert_eq!(
        &mesh.verts[..3],
        &[crossing(o, (-1, -1, 0)), crossing(o, (0, -1, -1)), crossing(o, (-1, 0, -1))]
    );
    assert_eq!(
        mesh.faces,
        vec![
            Face { v1: 0, v2: 2, v3: 1 },
            Face { v1: 3, v2: 5, v3: 4 },
            Face { v1: 6, v2: 7, v3: 8 },
            Face { v1: 9, v2: 11, v3: 10 },
        ]
    );
    let mut mesh = Mesh::default();
    march_cell(&mut mesh, &samples, at(-1, 0, 0));
    assert_eq!(mesh.faces.len(), 4);
    assert_eq!(mesh.faces[0], Face { v1: 0, v2: 2, v3: 1 });
    let mut mesh = Mesh::default();
    march_cell(&mut mesh, &samples, at(-2, 0, 0));
    assert!(mesh.faces.is_empty());
}

/// The triangles of a mesh, each as its three vertices and whether its winding is reversed.
fn triangles(mesh: &Mesh) -> Vec<([Crossing; 3], bool)> {
    mesh.faces
        .iter()
        .map(|f| ([mesh.verts[f.v1], mesh.verts[f.v1 + 1], mesh.verts[f.v1 + 2]], f.v2 == f.v1 + 2))
        .collect()
}

fn sort_key(t: &([Crossing; 3], bool)) -> Vec<i32> {
    let mut key = Vec::new();
    for c in &t.0 {
        key.extend([c.v1.x, c.v1.y, c.v1.z, c.v2.x, c.v2.y, c.v2.z]);
    }
    key.push(t.1 as i32);
    key
}

#[test]
fn mirrored_field_has_the_mirrored_surface_wound_the_other_way() {
    // The sweep visits 4 by 3 by 6 cells: an even number along x and z.
    for (axis, n) in [(0, 4), (2, 6)] {
        let mirror = |p: IVec3| match axis {
            0 => at(n - p.x, p.y, p.z),
            _ => at(p.x, p.y, n - p.z),
        };
        let mut domain = Domain::new(3, 2, 5).unwrap();
        let samples = checker(&domain, 3);
        let mut mirrored = domain.sample_grid();
        for x in 0..5 {
            for y in 0..4 {
                for z in 0..7 {
                    assert!(mirrored.set(at(x, y, z), samples.is_inside(mirror(at(x, y, z)))));
                }
            }
        }
        domain.march_tetrahedras(&samples);
        domain.march_tetrahedras(&mirrored);
        let mut expected: Vec<_> = triangles(&domain.meshes[0])
            .into_iter()
            .map(|(verts, inverted)| {
                (verts.map(|c| Crossing { v1: mirror(c.v1), v2: mirror(c.v2) }), !inverted)
            })
            .collect();
        let mut found = triangles(&domain.meshes[1]);
        assert!(!found.is_empty());
        expected.sort_by_key(sort_key);
        found.sort_by_key(sort_key);
        assert_eq!(found, expected);
    }
}

#[test]
fn field_on_one_side_has_no_surface() {
    let mut domain = Domain::new(2, 2, 2).unwrap();
    let outside = domain.sample_grid();
    domain.march_tetrahedras(&outside);
    let mut inside = domain.sample_grid();
    for x in 0..4 {
        for y in 0..4 {
            for z in 0..4 {
                assert!(inside.set(at(x, y, z), true));
            }
        }
    }
    domain.march_tetrahedras(&inside);
    assert_eq!(domain.meshes.len(), 2);
    for mesh in &domain.meshes {
        assert!(mesh.faces.is_empty());
        assert!(mesh.verts.is_empty());
        assert!(mesh.edges.is_empty());
    }
}

#[test]
fn grid_that_misses_corners_reads_them_as_outside() {
    let mut domain = Domain::new(1, 1, 1).unwrap();
    let mut small = SampleGrid::new(2, 2, 2).unwrap();
    for x in 0..2 {
        for y in 0..2 {
            for z in 0..2 {
                assert!(small.set(at(x, y, z), true));
            }
        }
    }
    let mut full = domain.sample_grid();
    for x in 0..2 {
        for y in 0..2 {
            for z in 0..2 {
                assert!(full.set(at(x, y, z), true));
            }
        }
    }
    domain.march_tetrahedras(&small);
    domain.march_tetrahedras(&full);
    assert!(!domain.meshes[0].faces.is_empty());
    assert_eq!(domain.meshes[0].verts, domain.meshes[1].verts);
    assert_eq!(domain.meshes[0].faces, domain.meshes[1].faces);
    assert_eq!(domain.meshes[0].edges, domain.meshes[1].edges);
}

#[test]
fn march_is_deterministic_and_appends_one_mesh() {
    let mut first = Domain::new(3, 2, 4).unwrap();
    let mut second = Domain::new(3, 2, 4).unwrap();
    let samples = checker(&first, 3);
    let again = checker(&second, 3);
    first.march_tetrahedras(&samples);
    second.march_tetrahedras(&again);
    assert_eq!(first.meshes.len(), 1);
    assert_eq!(first.meshes[0].verts, second.meshes[0].verts);
    assert_eq!(first.meshes[0].faces, second.meshes[0].faces);
    assert_eq!(first.meshes[0].edges, second.meshes[0].edges);

    let kept = first.meshes[0].verts.clone();
    let other = checker(&first, 2);
    first.march_tetrahedras(&other);
    assert_eq!(first.meshes.len(), 2);
    assert_eq!(first.meshes[0].verts, kept);
    assert_ne!(first.meshes[1].verts, kept);
    assert_eq!((first.width, first.height, first.depth), (3, 2, 4));
}

#[test]
fn domain_limits() {
    let domain = Domain::new(32, 32, 32).unwrap();
    assert_eq!((domain.width, domain.height, domain.depth), (32, 32, 32));
    assert!(domain.meshes.is_empty());
    let size = domain.vertex_grid_size();
    assert_eq!((size.x, size.y, size.z), (33, 33, 33));
    let size = Domain::new(0, 5, 9).unwrap().vertex_grid_size();
    assert_eq!((size.x, size.y, size.z), (1, 6, 10));

    let limit = i32::MAX as usize;
    assert!(Domain::new(limit, 0, 0).is_none());
    assert!(Domain::new(0, limit, 0).is_none());
    assert!(Domain::new(0, 0, limit).is_none());
    assert!(Domain::new(usize::MAX, 0, 0).is_none());
    assert!(Domain::new(limit - 1, limit - 1, limit - 1).is_none());
    if usize::BITS == 64 {
        assert!(Domain::new(limit - 1, 0, 0).is_some());
        // 30 * 2^21 * 2^21 * 2^21 exceeds 2^64, 30 * 2^20 * 2^20 * 2^19 does not.
        assert!(Domain::new((1 << 21) - 1, (1 << 21) - 1, (1 << 21) - 1).is_none());
        assert!(Domain::new((1 << 20) - 1, (1 << 20) - 1, (1 << 19) - 1).is_some());
    }
}
