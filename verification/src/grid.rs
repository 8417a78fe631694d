//! Dense padded voxel buffers built from a decoded model's sparse voxel
//! list.
//!
//! The buffer adds a one-cell empty border on every side of the model and
//! swaps the source's Z-up axes into the target's Y-up convention: a
//! source voxel `(x, y, z)` lands at buffer cell `(x + 1, z + 1, y + 1)`.

use vstd::prelude::*;
use vstd::arithmetic::div_mod::lemma_fundamental_div_mod_converse;

use crate::geom::{VoxError, VoxelCell};

verus! {

/// Flat index of cell `(x, y, z)` in a buffer of extents `(dx, dy, dz)`,
/// row-major over `(x, y, z)` (`z` varies fastest).
pub open spec fn grid_index(dy: int, dz: int, x: int, y: int, z: int) -> int {
    (x * dy + y) * dz + z
}

/// A dense voxel buffer: cell values are palette indices, 0 means empty.
#[derive(Clone, Debug, PartialEq, Eq)]
pub struct VoxelGrid {
    pub dx: usize,
    pub dy: usize,
    pub dz: usize,
    pub data: Vec<u8>,
}

/// The mathematical contents of a voxel buffer: its extents and cell
/// values.
pub ghost struct GridView {
    pub dx: int,
    pub dy: int,
    pub dz: int,
    pub data: Seq<u8>,
}

impl GridView {
    /// The buffer holds exactly one byte per cell.
    pub open spec fn wf(&self) -> bool {
        self.data.len() == self.dx * self.dy * self.dz
    }

    /// Cell value as a total function: out-of-range coordinates read as
    /// empty, so a boundary neighbor never needs special-casing.
    pub open spec fn spec_at(&self, x: int, y: int, z: int) -> u8 {
        if 0 <= x < self.dx && 0 <= y < self.dy && 0 <= z < self.dz {
            self.data[grid_index(self.dy, self.dz, x, y, z)]
        } else {
            0u8
        }
    }
}

impl View for VoxelGrid {
    type V = GridView;

    open spec fn view(&self) -> GridView {
        GridView {
            dx: self.dx as int,
            dy: self.dy as int,
            dz: self.dz as int,
            data: self.data@,
        }
    }
}

impl VoxelGrid {
    /// The buffer holds exactly one byte per cell.
    pub open spec fn wf(&self) -> bool {
        self@.wf()
    }

    /// Cell value as a total function.
    pub open spec fn spec_at(&self, x: int, y: int, z: int) -> u8 {
        self@.spec_at(x, y, z)
    }

    /// Flat index of an in-range cell.
    pub fn flat_index(&self, x: usize, y: usize, z: usize) -> (i: usize)
        requires
            self.wf(),
            x < self.dx,
            y < self.dy,
            z < self.dz,
        ensures
            i == grid_index(self.dy as int, self.dz as int, x as int, y as int, z as int),
            i < self.data@.len(),
    {
        let _len = self.data.len();
        proof {
            lemma_grid_index_in_range(
                self.dx as int, self.dy as int, self.dz as int,
                x as int, y as int, z as int,
            );
            assert(self.dx * self.dy <= self.dx * self.dy * self.dz) by (nonlinear_arith)
                requires self.dx >= 0 && self.dy >= 0 && self.dz >= 1;
        }
        (x * self.dy + y) * self.dz + z
    }

    /// Read one cell; any coordinate outside the buffer reads as empty.
    pub fn at(&self, x: usize, y: usize, z: usize) -> (v: u8)
        requires
            self.wf(),
        ensures
            v == self.spec_at(x as int, y as int, z as int),
    {
        if x < self.dx && y < self.dy && z < self.dz {
            let i = self.flat_index(x, y, z);
            self.data[i]
        } else {
            0
        }
    }
}

/// An in-range cell has an in-range flat index, and the intermediate
/// products of computing it stay below the buffer length.
proof fn lemma_grid_index_in_range(dx: int, dy: int, dz: int, x: int, y: int, z: int)
    requires
        0 <= x < dx,
        0 <= y < dy,
        0 <= z < dz,
    ensures
        0 <= grid_index(dy, dz, x, y, z) < dx * dy * dz,
        x * dy + y < dx * dy,
{
    assert(0 <= (x * dy + y) * dz + z < dx * dy * dz && x * dy + y < dx * dy)
        by (nonlinear_arith)
        requires
            0 <= x < dx,
            0 <= y < dy,
            0 <= z < dz;
}

/// Flat indices determine their coordinates: two distinct in-range cells
/// never share an index.
proof fn lemma_grid_index_injective(
    dy: int, dz: int,
    x1: int, y1: int, z1: int,
    x2: int, y2: int, z2: int,
)
    requires
        0 <= y1 < dy,
        0 <= z1 < dz,
        0 <= y2 < dy,
        0 <= z2 < dz,
        0 <= x1,
        0 <= x2,
        grid_index(dy, dz, x1, y1, z1) == grid_index(dy, dz, x2, y2, z2),
    ensures
        x1 == x2 && y1 == y2 && z1 == z2,
{
    let e = grid_index(dy, dz, x1, y1, z1);
    lemma_fundamental_div_mod_converse(e, dz, x1 * dy + y1, z1);
    lemma_fundamental_div_mod_converse(e, dz, x2 * dy + y2, z2);
    lemma_fundamental_div_mod_converse(e / dz, dy, x1, y1);
    lemma_fundamental_div_mod_converse(e / dz, dy, x2, y2);
}

/// The contents of the padded buffer for a model of source size
/// `(sx, sy, sz)` after placing each voxel of `vs` in order: all cells
/// start empty, and a later voxel overwrites an earlier one at the same
/// cell.
pub open spec fn spec_grid_data(sx: int, sy: int, sz: int, vs: Seq<VoxelCell>) -> Seq<u8>
    decreases vs.len()
{
    if vs.len() == 0 {
        Seq::new(((sx + 2) * (sz + 2) * (sy + 2)) as nat, |i: int| 0u8)
    } else {
        let v = vs.last();
        spec_grid_data(sx, sy, sz, vs.drop_last()).update(
            grid_index(sz + 2, sy + 2, v.x + 1, v.z + 1, v.y + 1),
            v.index,
        )
    }
}

/// The buffer contents the grid builder produces for one model.
pub open spec fn model_grid_view(sx: int, sy: int, sz: int, vs: Seq<VoxelCell>) -> GridView {
    GridView { dx: sx + 2, dy: sz + 2, dz: sy + 2, data: spec_grid_data(sx, sy, sz, vs) }
}

/// Whether every voxel of `vs` lies inside the declared model size.
pub open spec fn spec_voxels_in_bounds(sx: int, sy: int, sz: int, vs: Seq<VoxelCell>) -> bool {
    forall|i: int| 0 <= i < vs.len() ==>
        (#[trigger] vs[i]).x < sx && vs[i].y < sy && vs[i].z < sz
}

/// Build the padded dense buffer for one model.
///
/// The buffer extents are `(sx + 2, sz + 2, sy + 2)`: source Y/Z are
/// swapped (the source is Z-up, the target Y-up) and a one-cell empty
/// border surrounds the model, so no solid voxel ever touches the buffer
/// boundary.  A voxel outside the declared model size is a fatal
/// malformed-input error and rejects the model.
pub fn build_grid(sx: u32, sy: u32, sz: u32, voxels: &Vec<VoxelCell>) -> (r: Result<
    VoxelGrid,
    VoxError,
>)
    requires
        (sx + 2) * (sy + 2) * (sz + 2) <= usize::MAX,
    ensures
        match r {
            Ok(g) => {
                &&& spec_voxels_in_bounds(sx as int, sy as int, sz as int, voxels@)
                &&& g.wf()
                &&& g.dx == sx + 2
                &&& g.dy == sz + 2
                &&& g.dz == sy + 2
                &&& g.data@ == spec_grid_data(sx as int, sy as int, sz as int, voxels@)
                &&& g@ == model_grid_view(sx as int, sy as int, sz as int, voxels@)
            },
            Err(e) => {
                &&& e == VoxError::VoxelOutOfBounds
                &&& !spec_voxels_in_bounds(sx as int, sy as int, sz as int, voxels@)
            },
        },
{
    let mut i: usize = 0;
    while i < voxels.len()
        invariant
            i <= voxels.len(),
            forall|j: int| 0 <= j < i ==>
                (#[trigger] voxels@[j]).x < sx && voxels@[j].y < sy && voxels@[j].z < sz,
        decreases voxels.len() - i,
    {
        let v = voxels[i];
        if v.x as u32 >= sx || v.y as u32 >= sy || v.z as u32 >= sz {
            return Err(VoxError::VoxelOutOfBounds);
        }
        i = i + 1;
    }
    assert(voxels@ =~= voxels@.take(voxels.len() as int));

    proof {
        assert(sx + 2 <= (sx + 2) * (sy + 2) * (sz + 2)
            && sy + 2 <= (sx + 2) * (sy + 2) * (sz + 2)
            && sz + 2 <= (sx + 2) * (sy + 2) * (sz + 2)
            && (sx + 2) * (sz + 2) <= (sx + 2) * (sy + 2) * (sz + 2)) by (nonlinear_arith)
            requires sx >= 0 && sy >= 0 && sz >= 0;
    }
    let dx = sx as usize + 2;
    let dy = sz as usize + 2;
    let dz = sy as usize + 2;
    proof {
        assert(dx * dy * dz == (sx + 2) * (sy + 2) * (sz + 2) && dx * dy <= dx * dy * dz)
            by (nonlinear_arith)
            requires
                dx == sx + 2,
                dy == sz + 2,
                dz == sy + 2;
    }
    let n = (dx * dy) * dz;
    let mut data: Vec<u8> = Vec::new();
    let mut k: usize = 0;
    while k < n
        invariant
            k <= n,
            data@.len() == k,
            forall|t: int| 0 <= t < k ==> data@[t] == 0u8,
        decreases n - k,
    {
        data.push(0u8);
        k = k + 1;
    }
    assert(data@ =~= spec_grid_data(sx as int, sy as int, sz as int, voxels@.take(0)));

    let mut g = VoxelGrid { dx, dy, dz, data };
    let mut i: usize = 0;
    while i < voxels.len()
        invariant
            i <= voxels.len(),
            g.dx == sx + 2,
            g.dy == sz + 2,
            g.dz == sy + 2,
            g.data@.len() == g.dx * g.dy * g.dz,
            spec_voxels_in_bounds(sx as int, sy as int, sz as int, voxels@),
            g.data@ == spec_grid_data(sx as int, sy as int, sz as int, voxels@.take(i as int)),
        decreases voxels.len() - i,
    {
        let v = voxels[i];
        let idx = g.flat_index(v.x as usize + 1, v.z as usize + 1, v.y as usize + 1);
        g.data.set(idx, v.index);
        proof {
            let vs = voxels@.take(i + 1);
            assert(vs.drop_last() =~= voxels@.take(i as int));
            assert(vs.last() == voxels@[i as int]);
        }
        i = i + 1;
    }
    assert(voxels@.take(voxels.len() as int) =~= voxels@);
    Ok(g)
}


/// A built buffer holds one byte per cell.
proof fn lemma_grid_data_len(sx: int, sy: int, sz: int, vs: Seq<VoxelCell>)
    requires
        0 <= sx,
        0 <= sy,
        0 <= sz,
        spec_voxels_in_bounds(sx, sy, sz, vs),
    ensures
        spec_grid_data(sx, sy, sz, vs).len() == ((sx + 2) * (sz + 2) * (sy + 2)) as nat,
    decreases vs.len(),
{
    assert((sx + 2) * (sz + 2) * (sy + 2) >= 0) by (nonlinear_arith)
        requires 0 <= sx && 0 <= sy && 0 <= sz;
    if vs.len() == 0 {
        assert(spec_grid_data(sx, sy, sz, vs) == Seq::new(
            ((sx + 2) * (sz + 2) * (sy + 2)) as nat,
            |i: int| 0u8,
        ));
    } else {
        assert(spec_voxels_in_bounds(sx, sy, sz, vs.drop_last())) by {
            assert(forall|i: int|
                0 <= i < vs.len() - 1 ==> vs.drop_last()[i] == #[trigger] vs[i]);
        }
        lemma_grid_data_len(sx, sy, sz, vs.drop_last());
        let v = vs.last();
        assert(v.x < sx && v.y < sy && v.z < sz);
        lemma_grid_index_in_range(sx + 2, sz + 2, sy + 2, v.x + 1, v.z + 1, v.y + 1);
        assert(spec_grid_data(sx, sy, sz, vs) == spec_grid_data(
            sx, sy, sz, vs.drop_last(),
        ).update(grid_index(sz + 2, sy + 2, v.x + 1, v.z + 1, v.y + 1), v.index));
    }
}

/// The palette index the voxel list leaves at buffer cell `(x, y, z)`:
/// that of the last voxel placed there, or 0 if none was.
pub open spec fn last_write(vs: Seq<VoxelCell>, x: int, y: int, z: int) -> u8
    decreases vs.len()
{
    if vs.len() == 0 {
        0u8
    } else {
        let v = vs.last();
        if v.x + 1 == x && v.z + 1 == y && v.y + 1 == z {
            v.index
        } else {
            last_write(vs.drop_last(), x, y, z)
        }
    }
}

/// The direct meaning of a built buffer: every cell holds the index of
/// the last voxel the model placed there, and is empty otherwise.
pub proof fn lemma_grid_cell_value(
    sx: int, sy: int, sz: int,
    vs: Seq<VoxelCell>,
    x: int, y: int, z: int,
)
    requires
        0 <= sx,
        0 <= sy,
        0 <= sz,
        spec_voxels_in_bounds(sx, sy, sz, vs),
        0 <= x < sx + 2,
        0 <= y < sz + 2,
        0 <= z < sy + 2,
    ensures
        model_grid_view(sx, sy, sz, vs).spec_at(x, y, z) == last_write(vs, x, y, z),
    decreases vs.len(),
{
    let g = model_grid_view(sx, sy, sz, vs);
    lemma_grid_data_len(sx, sy, sz, vs);
    let ci = grid_index(sz + 2, sy + 2, x, y, z);
    lemma_grid_index_in_range(sx + 2, sz + 2, sy + 2, x, y, z);
    if vs.len() == 0 {
        assert(g.spec_at(x, y, z) == 0);
    } else {
        let prev = vs.drop_last();
        assert(spec_voxels_in_bounds(sx, sy, sz, prev)) by {
            assert(forall|i: int|
                0 <= i < prev.len() ==> prev[i] == #[trigger] vs[i]);
        }
        lemma_grid_cell_value(sx, sy, sz, prev, x, y, z);
        lemma_grid_data_len(sx, sy, sz, prev);
        let gp = model_grid_view(sx, sy, sz, prev);
        let v = vs.last();
        assert(v.x < sx && v.y < sy && v.z < sz);
        lemma_grid_index_in_range(sx + 2, sz + 2, sy + 2, v.x + 1, v.z + 1, v.y + 1);
        let vi = grid_index(sz + 2, sy + 2, v.x + 1, v.z + 1, v.y + 1);
        assert(g.data == gp.data.update(vi, v.index));
        if v.x + 1 == x && v.z + 1 == y && v.y + 1 == z {
            assert(gp.data.update(vi, v.index)[ci] == v.index);
        } else {
            if ci == vi {
                lemma_grid_index_injective(
                    sz + 2, sy + 2, x, y, z, v.x + 1, v.z + 1, v.y + 1,
                );
                assert(false);
            }
            assert(gp.data.update(vi, v.index)[ci] == gp.data[ci]);
        }
    }
}

/// Whether a cell lies on the boundary of the buffer.
pub open spec fn border_cell(g: GridView, x: int, y: int, z: int) -> bool {
    &&& 0 <= x < g.dx
    &&& 0 <= y < g.dy
    &&& 0 <= z < g.dz
    &&& (x == 0 || x == g.dx - 1 || y == 0 || y == g.dy - 1 || z == 0 || z == g.dz - 1)
}

/// The border invariant of built buffers: no solid voxel ever touches
/// the boundary, so the mesher always sees an empty neighbor beyond the
/// model's extent and emits every boundary face.
pub proof fn lemma_built_grid_border_empty(sx: int, sy: int, sz: int, vs: Seq<VoxelCell>)
    requires
        spec_voxels_in_bounds(sx, sy, sz, vs),
        0 <= sx,
        0 <= sy,
        0 <= sz,
    ensures
        forall|x: int, y: int, z: int|
            border_cell(model_grid_view(sx, sy, sz, vs), x, y, z) ==> model_grid_view(
                sx, sy, sz, vs,
            ).spec_at(x, y, z) == 0,
    decreases vs.len(),
{
    let g = model_grid_view(sx, sy, sz, vs);
    lemma_grid_data_len(sx, sy, sz, vs);
    if vs.len() == 0 {
        assert forall|x: int, y: int, z: int|
            border_cell(g, x, y, z) implies g.spec_at(x, y, z) == 0 by {
            lemma_grid_index_in_range(g.dx, g.dy, g.dz, x, y, z);
        }
    } else {
        let prev = vs.drop_last();
        assert(spec_voxels_in_bounds(sx, sy, sz, prev)) by {
            assert(forall|i: int| 0 <= i < prev.len() ==> prev[i] == #[trigger] vs[i]);
        }
        lemma_built_grid_border_empty(sx, sy, sz, prev);
        let v = vs.last();
        let gp = model_grid_view(sx, sy, sz, prev);
        lemma_grid_data_len(sx, sy, sz, prev);
        let vi = grid_index(sz + 2, sy + 2, v.x + 1, v.z + 1, v.y + 1);
        assert(v.x < sx && v.y < sy && v.z < sz);
        lemma_grid_index_in_range(sx + 2, sz + 2, sy + 2, v.x + 1, v.z + 1, v.y + 1);
        assert(g.data == gp.data.update(vi, v.index));
        assert forall|x: int, y: int, z: int|
            border_cell(g, x, y, z) implies g.spec_at(x, y, z) == 0 by {
            lemma_grid_index_in_range(g.dx, g.dy, g.dz, x, y, z);
            let ci = grid_index(sz + 2, sy + 2, x, y, z);
            if ci == vi {
                lemma_grid_index_injective(
                    sz + 2, sy + 2, x, y, z, v.x + 1, v.z + 1, v.y + 1,
                );
                assert(false);
            }
            assert(0 <= ci < gp.data.len());
            assert(gp.data.update(vi, v.index)[ci] == gp.data[ci]);
            assert(g.spec_at(x, y, z) == gp.spec_at(x, y, z));
        }
    }
}

} // verus!
