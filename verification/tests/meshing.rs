//! Greedy meshing behavior on small hand-built models.

use vox_mesh::geom::{Rgba, Vec3i, VoxelCell};
use vox_mesh::grid::build_grid;
use vox_mesh::mesh::{mesh_model, Mesh};

fn palette_with(entries: &[(usize, Rgba)]) -> Vec<Rgba> {
    let mut p = vec![Rgba { r: 0, g: 0, b: 0, a: 255 }; 256];
    for (i, c) in entries {
        p[*i] = *c;
    }
    p
}

fn quad_count(m: &Mesh) -> usize {
    assert_eq!(m.positions.len() % 4, 0);
    assert_eq!(m.normals.len(), m.positions.len());
    assert_eq!(m.uvs.len(), m.positions.len());
    assert_eq!(m.colors.len(), m.positions.len());
    assert_eq!(m.indices.len() / 6, m.positions.len() / 4);
    m.positions.len() / 4
}

/// The corners of quad `q` as a list.
fn quad_corners(m: &Mesh, q: usize) -> [Vec3i; 4] {
    [
        m.positions[4 * q],
        m.positions[4 * q + 1],
        m.positions[4 * q + 2],
        m.positions[4 * q + 3],
    ]
}

/// Extent of quad `q` along each axis (max - min of its corners).
fn quad_extent(m: &Mesh, q: usize) -> (i64, i64, i64) {
    let cs = quad_corners(m, q);
    let min = |f: fn(&Vec3i) -> i64| cs.iter().map(f).min().unwrap();
    let max = |f: fn(&Vec3i) -> i64| cs.iter().map(f).max().unwrap();
    (
        max(|c| c.x) - min(|c| c.x),
        max(|c| c.y) - min(|c| c.y),
        max(|c| c.z) - min(|c| c.z),
    )
}

#[test]
fn single_voxel_cube_six_quads() {
    let voxels = vec![VoxelCell { x: 0, y: 0, z: 0, index: 5 }];
    let g = build_grid(1, 1, 1, &voxels).unwrap();
    let palette = palette_with(&[(5, Rgba { r: 10, g: 20, b: 30, a: 255 })]);
    let m = mesh_model(&g, &palette, 16);

    assert_eq!(quad_count(&m), 6);
    assert_eq!(m.positions.len(), 24);
    assert_eq!(m.indices.len(), 36);

    // One quad per face direction, each a unit square.
    let mut normals_seen = Vec::new();
    for q in 0..6 {
        let n = m.normals[4 * q];
        assert!(!normals_seen.contains(&n));
        normals_seen.push(n);
        let (ex, ey, ez) = quad_extent(&m, q);
        let mut extents = [ex, ey, ez];
        extents.sort();
        assert_eq!(extents, [0, 1, 1]);
    }
    // All vertices carry the voxel's palette color and texel.
    for c in &m.colors {
        assert_eq!(*c, Rgba { r: 10, g: 20, b: 30, a: 255 });
    }
    for uv in &m.uvs {
        assert_eq!((uv.u, uv.v), (5, 0));
    }
    // Every index addresses a vertex.
    for i in &m.indices {
        assert!(*i < m.positions.len());
    }
}

#[test]
fn greedy_merge_slab_top_and_bottom() {
    // A 2 x 2 x 1 slab of one palette index (source Z is the thin axis,
    // which becomes the target's vertical Y axis).
    let mut voxels = Vec::new();
    for x in 0..2u8 {
        for y in 0..2u8 {
            voxels.push(VoxelCell { x, y, z: 0, index: 1 });
        }
    }
    let g = build_grid(2, 2, 1, &voxels).unwrap();
    let palette = palette_with(&[(1, Rgba { r: 9, g: 9, b: 9, a: 255 })]);
    let m = mesh_model(&g, &palette, 16);

    // Top and bottom merge to one 2 x 2 quad each; the four sides are
    // one 2 x 1 quad each (height 1): six quads in all, not twenty.
    assert_eq!(quad_count(&m), 6);
    for q in 0..6 {
        let n = m.normals[4 * q];
        let (ex, ey, ez) = quad_extent(&m, q);
        if n.y != 0 {
            assert_eq!((ex, ey, ez), (2, 0, 2));
        } else {
            // Side faces are one voxel tall.
            assert_eq!(ey, 1);
            assert_eq!(ex.max(ez), 2);
        }
    }
}

#[test]
fn material_boundary_never_merges() {
    // Two adjacent voxels of different palette indices: coplanar faces
    // must not merge, so every face stays a unit quad.
    let voxels = vec![
        VoxelCell { x: 0, y: 0, z: 0, index: 1 },
        VoxelCell { x: 1, y: 0, z: 0, index: 2 },
    ];
    let g = build_grid(2, 1, 1, &voxels).unwrap();
    let palette = palette_with(&[
        (1, Rgba { r: 1, g: 0, b: 0, a: 255 }),
        (2, Rgba { r: 0, g: 1, b: 0, a: 255 }),
    ]);
    let m = mesh_model(&g, &palette, 16);

    // Five visible faces per voxel; the shared face pair is hidden.
    assert_eq!(quad_count(&m), 10);
    for q in 0..10 {
        let (ex, ey, ez) = quad_extent(&m, q);
        let mut extents = [ex, ey, ez];
        extents.sort();
        assert_eq!(extents, [0, 1, 1], "no quad may span two materials");
        // Each quad's four corners share one color.
        let c = m.colors[4 * q];
        for k in 1..4 {
            assert_eq!(m.colors[4 * q + k], c);
        }
    }
}

#[test]
fn greedy_merge_vertical_column() {
    // Two voxels stacked along the source's vertical axis: each side
    // face merges into a single 1 x 2 quad, so the column meshes with
    // six quads like a single stretched box.
    let voxels = vec![
        VoxelCell { x: 0, y: 0, z: 0, index: 3 },
        VoxelCell { x: 0, y: 0, z: 1, index: 3 },
    ];
    let g = build_grid(1, 1, 2, &voxels).unwrap();
    let palette = palette_with(&[(3, Rgba { r: 7, g: 7, b: 7, a: 255 })]);
    let m = mesh_model(&g, &palette, 16);
    assert_eq!(quad_count(&m), 6);
    for q in 0..6 {
        let n = m.normals[4 * q];
        let (ex, ey, ez) = quad_extent(&m, q);
        if n.y != 0 {
            assert_eq!((ex, ey, ez), (1, 0, 1));
        } else {
            assert_eq!(ey, 2, "side faces span the whole column");
        }
    }
}

#[test]
fn empty_model_empty_mesh() {
    let voxels = Vec::new();
    let g = build_grid(2, 2, 2, &voxels).unwrap();
    let palette = palette_with(&[]);
    let m = mesh_model(&g, &palette, 16);
    assert_eq!(quad_count(&m), 0);
    assert_eq!(m.positions.len(), 0);
    assert_eq!(m.indices.len(), 0);
}

#[test]
fn out_of_bounds_voxel_rejected() {
    let voxels = vec![VoxelCell { x: 2, y: 0, z: 0, index: 1 }];
    let r = build_grid(2, 1, 1, &voxels);
    assert_eq!(r.unwrap_err(), vox_mesh::geom::VoxError::VoxelOutOfBounds);
}

#[test]
fn grid_padding_and_axis_swap() {
    // A voxel at source (0, 0, 0) of a 1 x 2 x 3 model lands at buffer
    // cell (1, 1, 1) of a 3 x 5 x 4 buffer (Y/Z swapped, one-cell
    // border).
    let voxels = vec![VoxelCell { x: 0, y: 0, z: 0, index: 7 }];
    let g = build_grid(1, 2, 3, &voxels).unwrap();
    assert_eq!((g.dx, g.dy, g.dz), (3, 5, 4));
    assert_eq!(g.at(1, 1, 1), 7);
    assert_eq!(g.at(0, 0, 0), 0);
    assert_eq!(g.at(2, 4, 3), 0);
}
