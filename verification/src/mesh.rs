//! Mesh generation: merged rectangles become quads, quads become flat
//! vertex and index buffers.
//!
//! Vertex positions are exact integers: rectangle corners in buffer
//! space, shifted back by the buffer center so the mesh is centered on
//! the model's pivot, with the X axis negated (the source format's X
//! axis is reversed relative to the target convention).  Triangle
//! winding is the naive quad winding with the first/third and
//! fourth/sixth entries swapped, which keeps front faces front-facing
//! after the X flip.

use vstd::prelude::*;
use vstd::arithmetic::div_mod::lemma_fundamental_div_mod_converse;

use crate::geom::{Rgba, TexCoord, Vec3i};
use crate::grid::{GridView, VoxelGrid};
use crate::mesher::{
    axis_dim, axis_dim_of, build_mask, cell_x, cell_y, cell_z, dir_axis, dir_positive,
    greedy_rects, greedy_spec, lemma_greedy_rects_wf, mask_du, mask_dv, mask_spec, rect_wf,
    Rect,
};

verus! {

/// One merged rectangular face: four corner positions in target space,
/// the shared face normal, the palette index it carries, and whether the
/// face points toward the negative side of its axis (which flips the
/// winding).
#[derive(Clone, Copy, Debug, PartialEq, Eq, Structural)]
pub struct Quad {
    pub key: u8,
    pub c0: Vec3i,
    pub c1: Vec3i,
    pub c2: Vec3i,
    pub c3: Vec3i,
    pub normal: Vec3i,
    pub neg: bool,
}

/// A buffer-space point moved to target space: shifted back by the
/// buffer center `floor(dim / 2)` on every axis, then X negated.
pub open spec fn target_point(g: GridView, gx: int, gy: int, gz: int) -> Vec3i {
    Vec3i {
        x: (g.dx / 2 - gx) as i64,
        y: (gy - g.dy / 2) as i64,
        z: (gz - g.dz / 2) as i64,
    }
}

/// Corner of a quad at in-plane position `(uu, vv)` on the face plane
/// `c` of layers perpendicular to axis `a`.
pub open spec fn quad_corner(g: GridView, a: int, c: int, uu: int, vv: int) -> Vec3i {
    target_point(g, cell_x(a, c, uu, vv), cell_y(a, c, uu, vv), cell_z(a, c, uu, vv))
}

/// The unit normal of faces pointing in direction `d`, in target space
/// (X negated).
pub open spec fn dir_normal(d: int) -> Vec3i {
    let a = dir_axis(d);
    if a == 0 {
        if dir_positive(d) {
            Vec3i { x: (-1) as i64, y: 0, z: 0 }
        } else {
            Vec3i { x: 1, y: 0, z: 0 }
        }
    } else if a == 1 {
        if dir_positive(d) {
            Vec3i { x: 0, y: 1, z: 0 }
        } else {
            Vec3i { x: 0, y: (-1) as i64, z: 0 }
        }
    } else {
        if dir_positive(d) {
            Vec3i { x: 0, y: 0, z: 1 }
        } else {
            Vec3i { x: 0, y: 0, z: (-1) as i64 }
        }
    }
}

/// The quad of one merged rectangle: the face lies on the far plane of
/// the layer for a positive direction and on the near plane otherwise.
pub open spec fn quad_of(g: GridView, d: int, n: int, r: Rect) -> Quad {
    let a = dir_axis(d);
    let c = if dir_positive(d) {
        n + 1
    } else {
        n
    };
    Quad {
        key: r.key,
        c0: quad_corner(g, a, c, r.i as int, r.j as int),
        c1: quad_corner(g, a, c, r.i + r.w, r.j as int),
        c2: quad_corner(g, a, c, r.i + r.w, r.j + r.h),
        c3: quad_corner(g, a, c, r.i as int, r.j + r.h),
        normal: dir_normal(d),
        neg: !dir_positive(d),
    }
}

/// All quads of one layer, in rectangle scan order.
pub open spec fn layer_quads(g: GridView, d: int, n: int) -> Seq<Quad> {
    greedy_spec(mask_spec(g, d, n), mask_du(g, d), mask_dv(g, d)).map_values(
        |r: Rect| quad_of(g, d, n, r),
    )
}

/// The quads of direction `d`'s first `n` layers.
pub open spec fn layers_upto(g: GridView, d: int, n: int) -> Seq<Quad>
    decreases n
{
    if n <= 0 {
        Seq::empty()
    } else {
        layers_upto(g, d, n - 1) + layer_quads(g, d, n - 1)
    }
}

/// The quads of the first `d` face directions.
pub open spec fn dirs_upto(g: GridView, d: int) -> Seq<Quad>
    decreases d
{
    if d <= 0 {
        Seq::empty()
    } else {
        dirs_upto(g, d - 1) + layers_upto(g, d - 1, axis_dim(g, dir_axis(d - 1)))
    }
}

/// Every quad of the buffer: directions in ascending order, layers in
/// ascending order, rectangles in scan order.
pub open spec fn all_quads(g: GridView) -> Seq<Quad> {
    dirs_upto(g, 6)
}

/// The buffer extents a mesh can be generated from: nonempty on every
/// axis, and small enough that coordinates fit the integer vertex type
/// and layer indices never reach the machine word limit.  Buffers built
/// from a decoded model (whose extents are 32-bit sizes plus the border)
/// always satisfy this.
pub open spec fn meshable(g: GridView) -> bool {
    &&& g.wf()
    &&& 1 <= g.dx <= 0x1_0000_0001
    &&& 1 <= g.dy <= 0x1_0000_0001
    &&& 1 <= g.dz <= 0x1_0000_0001
    &&& g.dx < usize::MAX
    &&& g.dy < usize::MAX
    &&& g.dz < usize::MAX
}

/// Mask extents of one face direction.
fn mask_dims(g: &VoxelGrid, d: usize) -> (r: (usize, usize))
    requires
        d < 6,
    ensures
        r.0 == mask_du(g@, d as int),
        r.1 == mask_dv(g@, d as int),
{
    let a = d / 2;
    let ua = if a == 0 { 1 } else if a == 1 { 2 } else { 0 };
    let va = if a == 0 { 2 } else if a == 1 { 0 } else { 1 };
    (axis_dim_of(g, ua), axis_dim_of(g, va))
}

/// Generate the quads of one layer of one face direction.
fn quads_for_layer(g: &VoxelGrid, d: usize, n: usize) -> (out: Vec<Quad>)
    requires
        meshable(g@),
        d < 6,
        n < axis_dim(g@, dir_axis(d as int)),
    ensures
        out@ == layer_quads(g@, d as int, n as int),
{
    let mask = build_mask(g, d, n);
    let (du, dv) = mask_dims(g, d);
    let rects = greedy_rects(&mask, du, dv);
    proof {
        lemma_greedy_rects_wf(
            mask@,
            Seq::new((du as int * dv as int) as nat, |t: int| false),
            du as int,
            dv as int,
            0,
        );
    }
    let a = d / 2;
    let positive = d % 2 == 0;
    let c: usize = if positive {
        n + 1
    } else {
        n
    };
    let cx = g.dx / 2;
    let cy = g.dy / 2;
    let cz = g.dz / 2;
    let mut out: Vec<Quad> = Vec::new();
    let mut ri: usize = 0;
    while ri < rects.len()
        invariant
            ri <= rects.len(),
            meshable(g@),
            d < 6,
            a == dir_axis(d as int),
            a < 3,
            positive == dir_positive(d as int),
            n < axis_dim(g@, dir_axis(d as int)),
            c == if positive { n + 1int } else { n as int },
            c <= axis_dim(g@, a as int),
            cx == g.dx as int / 2,
            cy == g.dy as int / 2,
            cz == g.dz as int / 2,
            rects@ == greedy_spec(mask_spec(g@, d as int, n as int), mask_du(g@, d as int), mask_dv(g@, d as int)),
            forall|q: int| 0 <= q < rects@.len() ==> rect_wf(
                mask_spec(g@, d as int, n as int),
                mask_du(g@, d as int),
                mask_dv(g@, d as int),
                #[trigger] rects@[q],
            ),
            out@.len() == ri,
            forall|t: int| 0 <= t < ri ==> out@[t] == quad_of(g@, d as int, n as int, rects@[t]),
        decreases rects.len() - ri,
    {
        let r = rects[ri];
        assert(rect_wf(
            mask_spec(g@, d as int, n as int),
            mask_du(g@, d as int),
            mask_dv(g@, d as int),
            r,
        ));
        let i1 = r.i + r.w;
        let j1 = r.j + r.h;
        let p0 = corner_point(g, a, c, r.i, r.j, cx, cy, cz);
        let p1 = corner_point(g, a, c, i1, r.j, cx, cy, cz);
        let p2 = corner_point(g, a, c, i1, j1, cx, cy, cz);
        let p3 = corner_point(g, a, c, r.i, j1, cx, cy, cz);
        let s: i64 = if positive {
            1
        } else {
            -1
        };
        let normal = if a == 0 {
            Vec3i { x: -s, y: 0, z: 0 }
        } else if a == 1 {
            Vec3i { x: 0, y: s, z: 0 }
        } else {
            Vec3i { x: 0, y: 0, z: s }
        };
        let q = Quad { key: r.key, c0: p0, c1: p1, c2: p2, c3: p3, normal, neg: !positive };
        out.push(q);
        ri = ri + 1;
    }
    assert(out@ =~= layer_quads(g@, d as int, n as int));
    out
}

/// One corner position in target space.
fn corner_point(g: &VoxelGrid, a: usize, c: usize, uu: usize, vv: usize, cx: usize, cy: usize, cz: usize) -> (p: Vec3i)
    requires
        a < 3,
        c <= 0x1_0000_0001,
        uu <= 0x1_0000_0001,
        vv <= 0x1_0000_0001,
        cx <= 0x1_0000_0001,
        cy <= 0x1_0000_0001,
        cz <= 0x1_0000_0001,
        cx == g.dx as int / 2,
        cy == g.dy as int / 2,
        cz == g.dz as int / 2,
    ensures
        p == quad_corner(g@, a as int, c as int, uu as int, vv as int),
{
    let (gx, gy, gz) = if a == 0 {
        (c, uu, vv)
    } else if a == 1 {
        (vv, c, uu)
    } else {
        (uu, vv, c)
    };
    Vec3i {
        x: cx as i64 - gx as i64,
        y: gy as i64 - cy as i64,
        z: gz as i64 - cz as i64,
    }
}

/// Generate every quad of the buffer, in deterministic order.
pub fn quads_of_grid(g: &VoxelGrid) -> (out: Vec<Quad>)
    requires
        meshable(g@),
    ensures
        out@ == all_quads(g@),
{
    let mut out: Vec<Quad> = Vec::new();
    let mut d: usize = 0;
    assert(out@ + dirs_upto(g@, 0) =~= dirs_upto(g@, 0));
    while d < 6
        invariant
            d <= 6,
            meshable(g@),
            out@ == dirs_upto(g@, d as int),
        decreases 6 - d,
    {
        let da = axis_dim_of(g, d / 2);
        let mut n: usize = 0;
        assert(dirs_upto(g@, d as int) + layers_upto(g@, d as int, 0) =~= dirs_upto(g@, d as int));
        while n < da
            invariant
                n <= da,
                d < 6,
                meshable(g@),
                da == axis_dim(g@, dir_axis(d as int)),
                out@ == dirs_upto(g@, d as int) + layers_upto(g@, d as int, n as int),
            decreases da - n,
        {
            let layer = quads_for_layer(g, d, n);
            let mut li: usize = 0;
            while li < layer.len()
                invariant
                    li <= layer.len(),
                    out@ == dirs_upto(g@, d as int) + layers_upto(g@, d as int, n as int)
                        + layer@.take(li as int),
                decreases layer.len() - li,
            {
                out.push(layer[li]);
                assert(layer@.take(li + 1) =~= layer@.take(li as int).push(layer@[li as int]));
                li = li + 1;
            }
            assert(layer@.take(layer@.len() as int) =~= layer@);
            assert(layers_upto(g@, d as int, n + 1) == layers_upto(g@, d as int, n as int)
                + layer_quads(g@, d as int, n as int));
            n = n + 1;
        }
        assert(dirs_upto(g@, d + 1) == dirs_upto(g@, d as int) + layers_upto(
            g@, d as int, axis_dim(g@, dir_axis(d as int)),
        ));
        d = d + 1;
    }
    out
}


/// Corner `c` (0 to 3) of a quad.
pub open spec fn corner_at(q: Quad, c: int) -> Vec3i {
    if c == 0 {
        q.c0
    } else if c == 1 {
        q.c1
    } else if c == 2 {
        q.c2
    } else {
        q.c3
    }
}

/// Flat vertex positions: four corners per quad.
pub open spec fn positions_spec(qs: Seq<Quad>) -> Seq<Vec3i> {
    Seq::new((4 * qs.len()) as nat, |t: int| corner_at(qs[t / 4], t % 4))
}

/// Flat vertex normals: each quad's normal, repeated for its four
/// corners.
pub open spec fn normals_spec(qs: Seq<Quad>) -> Seq<Vec3i> {
    Seq::new((4 * qs.len()) as nat, |t: int| qs[t / 4].normal)
}

/// Flat vertex colors: the palette color of each quad's index, repeated
/// for its four corners.
pub open spec fn colors_spec(qs: Seq<Quad>, palette: Seq<Rgba>) -> Seq<Rgba> {
    Seq::new((4 * qs.len()) as nat, |t: int| palette[qs[t / 4].key as int])
}

/// Flat texture coordinates: the texel of each quad's palette index in a
/// row-major square texture of width `tw`, repeated for its four
/// corners.
pub open spec fn uvs_spec(qs: Seq<Quad>, tw: int) -> Seq<TexCoord> {
    Seq::new(
        (4 * qs.len()) as nat,
        |t: int| TexCoord {
            u: (qs[t / 4].key as int % tw) as u32,
            v: (qs[t / 4].key as int / tw) as u32,
        },
    )
}

/// Triangle index offset within a quad: the naive winding
/// `[0, 1, 2, 2, 3, 0]` (or its mirror for negative-side faces) with the
/// first/third and fourth/sixth entries swapped to correct for the
/// source format's reversed X axis.
pub open spec fn winding(neg: bool, s: int) -> int {
    if !neg {
        if s == 0 {
            2
        } else if s == 1 {
            1
        } else if s == 2 {
            0
        } else if s == 3 {
            0
        } else if s == 4 {
            3
        } else {
            2
        }
    } else {
        if s == 0 {
            2
        } else if s == 1 {
            3
        } else if s == 2 {
            0
        } else if s == 3 {
            0
        } else if s == 4 {
            1
        } else {
            2
        }
    }
}

/// Flat triangle indices: six per quad, into the flat vertex buffers.
pub open spec fn indices_spec(qs: Seq<Quad>) -> Seq<usize> {
    Seq::new(
        (6 * qs.len()) as nat,
        |t: int| (4 * (t / 6) + winding(qs[t / 6].neg, t % 6)) as usize,
    )
}

/// One generated mesh: flat vertex buffers and a triangle index list.
/// Buffers are exact integers; a host converts them to its vertex
/// format.  Immutable once built.
#[derive(Clone, Debug, PartialEq, Eq)]
pub struct Mesh {
    pub positions: Vec<Vec3i>,
    pub normals: Vec<Vec3i>,
    pub uvs: Vec<TexCoord>,
    pub colors: Vec<Rgba>,
    pub indices: Vec<usize>,
}

/// Assemble the flat mesh buffers from a quad list.
pub fn mesh_from_quads(quads: &Vec<Quad>, palette: &Vec<Rgba>, tw: u32) -> (m: Mesh)
    requires
        palette@.len() == 256,
        1 <= tw,
    ensures
        m.positions@ == positions_spec(quads@),
        m.normals@ == normals_spec(quads@),
        m.uvs@ == uvs_spec(quads@, tw as int),
        m.colors@ == colors_spec(quads@, palette@),
        m.indices@ == indices_spec(quads@),
{
    let mut positions: Vec<Vec3i> = Vec::new();
    let mut normals: Vec<Vec3i> = Vec::new();
    let mut uvs: Vec<TexCoord> = Vec::new();
    let mut colors: Vec<Rgba> = Vec::new();
    let mut indices: Vec<usize> = Vec::new();
    let mut qi: usize = 0;
    while qi < quads.len()
        invariant
            qi <= quads.len(),
            palette@.len() == 256,
            1 <= tw,
            positions@.len() == 4 * qi,
            normals@.len() == 4 * qi,
            uvs@.len() == 4 * qi,
            colors@.len() == 4 * qi,
            indices@.len() == 6 * qi,
            forall|t: int| 0 <= t < 4 * qi ==> positions@[t] == corner_at(quads@[t / 4], t % 4),
            forall|t: int| 0 <= t < 4 * qi ==> normals@[t] == quads@[t / 4].normal,
            forall|t: int| 0 <= t < 4 * qi ==> uvs@[t] == (TexCoord {
                u: (quads@[t / 4].key as int % tw as int) as u32,
                v: (quads@[t / 4].key as int / tw as int) as u32,
            }),
            forall|t: int| 0 <= t < 4 * qi ==> colors@[t] == palette@[quads@[t / 4].key as int],
            forall|t: int| 0 <= t < 6 * qi ==> indices@[t] == (4 * (t / 6) + winding(
                quads@[t / 6].neg, t % 6,
            )) as usize,
        decreases quads.len() - qi,
    {
        let q = quads[qi];
        let base = positions.len();
        positions.push(q.c0);
        positions.push(q.c1);
        positions.push(q.c2);
        positions.push(q.c3);
        normals.push(q.normal);
        normals.push(q.normal);
        normals.push(q.normal);
        normals.push(q.normal);
        let uv = TexCoord { u: (q.key as u32) % tw, v: (q.key as u32) / tw };
        uvs.push(uv);
        uvs.push(uv);
        uvs.push(uv);
        uvs.push(uv);
        let color = palette[q.key as usize];
        colors.push(color);
        colors.push(color);
        colors.push(color);
        colors.push(color);
        let hi = positions.len();
        assert(hi == base + 4);
        if !q.neg {
            indices.push(base + 2);
            indices.push(base + 1);
            indices.push(base);
            indices.push(base);
            indices.push(base + 3);
            indices.push(base + 2);
        } else {
            indices.push(base + 2);
            indices.push(base + 3);
            indices.push(base);
            indices.push(base);
            indices.push(base + 1);
            indices.push(base + 2);
        }
        proof {
            assert forall|t: int| 4 * qi <= t < 4 * (qi + 1) implies #[trigger] (t / 4) == qi
                && t % 4 == t - 4 * qi by {
                lemma_fundamental_div_mod_converse(t, 4, qi as int, t - 4 * qi);
            }
            assert forall|t: int| 6 * qi <= t < 6 * (qi + 1) implies #[trigger] (t / 6) == qi
                && t % 6 == t - 6 * qi by {
                lemma_fundamental_div_mod_converse(t, 6, qi as int, t - 6 * qi);
            }
        }
        qi = qi + 1;
    }
    proof {
        assert(positions@ =~= positions_spec(quads@));
        assert(normals@ =~= normals_spec(quads@));
        assert(uvs@ =~= uvs_spec(quads@, tw as int));
        assert(colors@ =~= colors_spec(quads@, palette@));
        assert(indices@ =~= indices_spec(quads@));
    }
    Mesh { positions, normals, uvs, colors, indices }
}

/// Generate the full mesh of one padded voxel buffer: greedy-merged
/// quads over all six face directions, centered on the model pivot, with
/// per-vertex colors and palette-texture coordinates.
pub fn mesh_model(g: &VoxelGrid, palette: &Vec<Rgba>, tw: u32) -> (m: Mesh)
    requires
        meshable(g@),
        palette@.len() == 256,
        1 <= tw,
    ensures
        m.positions@ == positions_spec(all_quads(g@)),
        m.normals@ == normals_spec(all_quads(g@)),
        m.uvs@ == uvs_spec(all_quads(g@), tw as int),
        m.colors@ == colors_spec(all_quads(g@), palette@),
        m.indices@ == indices_spec(all_quads(g@)),
{
    let quads = quads_of_grid(g);
    mesh_from_quads(&quads, palette, tw)
}

} // verus!
