//! The greedy face-merging core: per-layer visibility masks and maximal
//! rectangle extraction.
//!
//! For each of the six axis-aligned face directions and each layer
//! perpendicular to it, a 2D mask records which cells expose a visible
//! face (a solid voxel with an empty neighbor on that side), keyed by the
//! solid voxel's palette index.  Rectangles of equal nonzero key are then
//! merged greedily: scanning cells in row-major order, each unvisited
//! keyed cell starts a rectangle that first grows along the row, then
//! down across full rows, and is marked visited.  Ties are broken by the
//! first unscanned cell, so the result is deterministic.

use vstd::prelude::*;
use vstd::arithmetic::div_mod::{
    lemma_div_pos_is_pos, lemma_fundamental_div_mod, lemma_fundamental_div_mod_converse,
    lemma_mod_bound, lemma_multiply_divide_lt,
};

use crate::grid::{GridView, VoxelGrid};

verus! {

/// The axis a face direction is perpendicular to (0 = X, 1 = Y, 2 = Z).
pub open spec fn dir_axis(d: int) -> int {
    d / 2
}

/// Whether the face direction points toward the positive side of its
/// axis.
pub open spec fn dir_positive(d: int) -> bool {
    d % 2 == 0
}

/// Buffer extent along one axis.
pub open spec fn axis_dim(g: GridView, a: int) -> int {
    if a == 0 {
        g.dx
    } else if a == 1 {
        g.dy
    } else {
        g.dz
    }
}

/// The first in-plane axis of a layer perpendicular to `a` (mask rows run
/// along it).
pub open spec fn u_axis(a: int) -> int {
    if a == 0 {
        1
    } else if a == 1 {
        2
    } else {
        0
    }
}

/// The second in-plane axis of a layer perpendicular to `a`.
pub open spec fn v_axis(a: int) -> int {
    if a == 0 {
        2
    } else if a == 1 {
        0
    } else {
        1
    }
}

/// Buffer coordinates of the cell at layer `n`, row position `i`, column
/// position `j` for layers perpendicular to axis `a`.
pub open spec fn cell_x(a: int, n: int, i: int, j: int) -> int {
    if a == 0 {
        n
    } else if a == 1 {
        j
    } else {
        i
    }
}

pub open spec fn cell_y(a: int, n: int, i: int, j: int) -> int {
    if a == 0 {
        i
    } else if a == 1 {
        n
    } else {
        j
    }
}

pub open spec fn cell_z(a: int, n: int, i: int, j: int) -> int {
    if a == 0 {
        j
    } else if a == 1 {
        i
    } else {
        n
    }
}

/// Mask entry for one cell: the solid voxel's palette index when its
/// face toward direction `d` is visible (the neighbor on that side is
/// empty or beyond the buffer), 0 otherwise.
pub open spec fn mask_cell(g: GridView, d: int, n: int, i: int, j: int) -> u8 {
    let a = dir_axis(d);
    let step: int = if dir_positive(d) {
        1
    } else {
        -1
    };
    let key = g.spec_at(cell_x(a, n, i, j), cell_y(a, n, i, j), cell_z(a, n, i, j));
    let nb = g.spec_at(
        cell_x(a, n + step, i, j),
        cell_y(a, n + step, i, j),
        cell_z(a, n + step, i, j),
    );
    if key != 0 && nb == 0 {
        key
    } else {
        0
    }
}

/// Mask row length for direction `d`.
pub open spec fn mask_du(g: GridView, d: int) -> int {
    axis_dim(g, u_axis(dir_axis(d)))
}

/// Mask column count for direction `d`.
pub open spec fn mask_dv(g: GridView, d: int) -> int {
    axis_dim(g, v_axis(dir_axis(d)))
}

/// The whole visibility mask of layer `n`, row-major: cell `(i, j)` is at
/// index `j * du + i`.
pub open spec fn mask_spec(g: GridView, d: int, n: int) -> Seq<u8> {
    Seq::new(
        (mask_du(g, d) * mask_dv(g, d)) as nat,
        |k: int| mask_cell(g, d, n, k % mask_du(g, d), k / mask_du(g, d)),
    )
}

/// One merged rectangle of the mask: `w * h` cells of palette index
/// `key`, with lowest cell `(i, j)`.
#[derive(Clone, Copy, Debug, PartialEq, Eq, Structural)]
pub struct Rect {
    pub i: usize,
    pub j: usize,
    pub w: usize,
    pub h: usize,
    pub key: u8,
}

/// The cell `(i, j)` still extends a rectangle of key `key`: same mask
/// key and not yet claimed by an earlier rectangle.
pub open spec fn cell_ok(mask: Seq<u8>, vis: Seq<bool>, du: int, i: int, j: int, key: u8) -> bool {
    mask[j * du + i] == key && !vis[j * du + i]
}

/// Length of the run of extendable cells starting at `(i, j)` going
/// right.
pub open spec fn run_w(mask: Seq<u8>, vis: Seq<bool>, du: int, i: int, j: int, key: u8) -> int
    decreases du - i
{
    if i < du && cell_ok(mask, vis, du, i, j, key) {
        1 + run_w(mask, vis, du, i + 1, j, key)
    } else {
        0
    }
}

/// All of row `j`'s cells `[i0, i0 + w)` are extendable.
pub open spec fn row_ok(
    mask: Seq<u8>,
    vis: Seq<bool>,
    du: int,
    i0: int,
    w: int,
    j: int,
    key: u8,
) -> bool {
    forall|t: int| i0 <= t < i0 + w ==> cell_ok(mask, vis, du, t, j, key)
}

/// Number of consecutive rows from `j` downward whose segment
/// `[i0, i0 + w)` is fully extendable.
pub open spec fn run_h(
    mask: Seq<u8>,
    vis: Seq<bool>,
    du: int,
    dv: int,
    i0: int,
    w: int,
    j: int,
    key: u8,
) -> int
    decreases dv - j
{
    if j < dv && row_ok(mask, vis, du, i0, w, j, key) {
        1 + run_h(mask, vis, du, dv, i0, w, j + 1, key)
    } else {
        0
    }
}

/// Whether flat mask index `t` lies inside rectangle `r`.
pub open spec fn rect_covers(du: int, r: Rect, t: int) -> bool {
    let ti = t % du;
    let tj = t / du;
    r.i <= ti < r.i + r.w && r.j <= tj < r.j + r.h
}

/// The visited set after claiming rectangle `r`.
pub open spec fn mark_rect(vis: Seq<bool>, du: int, r: Rect) -> Seq<bool> {
    Seq::new(
        vis.len(),
        |t: int|
            if rect_covers(du, r, t) {
                true
            } else {
                vis[t]
            },
    )
}

/// The rectangles the greedy scan emits from flat index `k` onward,
/// given the cells already visited.
pub open spec fn greedy_from(
    mask: Seq<u8>,
    vis: Seq<bool>,
    du: int,
    dv: int,
    k: int,
) -> Seq<Rect>
    decreases du * dv - k
{
    if 0 <= k < du * dv {
        if mask[k] != 0 && !vis[k] {
            let i = k % du;
            let j = k / du;
            let key = mask[k];
            let w = run_w(mask, vis, du, i, j, key);
            let h = run_h(mask, vis, du, dv, i, w, j, key);
            let r = Rect { i: i as usize, j: j as usize, w: w as usize, h: h as usize, key };
            seq![r] + greedy_from(mask, mark_rect(vis, du, r), du, dv, k + 1)
        } else {
            greedy_from(mask, vis, du, dv, k + 1)
        }
    } else {
        Seq::empty()
    }
}

/// All rectangles of one mask, scanned from the lowest cell with no cell
/// visited yet.
pub open spec fn greedy_spec(mask: Seq<u8>, du: int, dv: int) -> Seq<Rect> {
    greedy_from(mask, Seq::new((du * dv) as nat, |t: int| false), du, dv, 0)
}


/// Relates a flat mask index to its row/column pair.
proof fn lemma_cell_index(du: int, dv: int, k: int)
    requires
        0 <= k < du * dv,
        0 <= du,
        0 <= dv,
    ensures
        1 <= du,
        1 <= dv,
        0 <= k % du < du,
        0 <= k / du < dv,
        (k / du) * du + (k % du) == k,
{
    assert(1 <= du && 1 <= dv) by (nonlinear_arith)
        requires 0 <= k < du * dv && 0 <= du && 0 <= dv;
    lemma_mod_bound(k, du);
    lemma_multiply_divide_lt(k, du, dv);
    lemma_div_pos_is_pos(k, du);
    lemma_fundamental_div_mod(k, du);
}

/// A row/column pair determines its flat mask index and lies inside the
/// mask.
proof fn lemma_mask_index(du: int, dv: int, i: int, j: int)
    requires
        0 <= i < du,
        0 <= j < dv,
    ensures
        0 <= j * du + i < du * dv,
        (j * du + i) % du == i,
        (j * du + i) / du == j,
{
    assert(0 <= j * du + i < du * dv) by (nonlinear_arith)
        requires 0 <= i < du && 0 <= j < dv;
    lemma_fundamental_div_mod_converse(j * du + i, du, j, i);
}

/// A flat index splits into its row/column pair.
proof fn lemma_flat_coords(du: int, t: int)
    requires
        1 <= du,
        0 <= t,
    ensures
        t == (t / du) * du + (t % du),
        0 <= t % du < du,
        0 <= t / du,
{
    lemma_fundamental_div_mod(t, du);
    lemma_mod_bound(t, du);
    lemma_div_pos_is_pos(t, du);
    assert(du * (t / du) == (t / du) * du) by (nonlinear_arith);
}

/// The run length is exactly the distance to the first non-extendable
/// cell.
proof fn lemma_run_w_at(
    mask: Seq<u8>,
    vis: Seq<bool>,
    du: int,
    i: int,
    j: int,
    key: u8,
    t: int,
)
    requires
        i <= t <= du,
        forall|s: int| i <= s < t ==> cell_ok(mask, vis, du, s, j, key),
        t == du || !cell_ok(mask, vis, du, t, j, key),
    ensures
        run_w(mask, vis, du, i, j, key) == t - i,
    decreases t - i,
{
    if i < t {
        lemma_run_w_at(mask, vis, du, i + 1, j, key, t);
    }
}

/// Every cell inside the run is extendable, and the run stays inside the
/// row.
proof fn lemma_run_w_cells(mask: Seq<u8>, vis: Seq<bool>, du: int, i: int, j: int, key: u8)
    requires
        0 <= i <= du,
    ensures
        0 <= run_w(mask, vis, du, i, j, key),
        i + run_w(mask, vis, du, i, j, key) <= du,
        forall|s: int|
            i <= s < i + run_w(mask, vis, du, i, j, key) ==> cell_ok(mask, vis, du, s, j, key),
    decreases du - i,
{
    if i < du && cell_ok(mask, vis, du, i, j, key) {
        lemma_run_w_cells(mask, vis, du, i + 1, j, key);
    }
}

/// The row count is exactly the distance to the first row whose segment
/// is not fully extendable.
proof fn lemma_run_h_at(
    mask: Seq<u8>,
    vis: Seq<bool>,
    du: int,
    dv: int,
    i0: int,
    w: int,
    j: int,
    key: u8,
    t: int,
)
    requires
        j <= t <= dv,
        forall|s: int| j <= s < t ==> row_ok(mask, vis, du, i0, w, s, key),
        t == dv || !row_ok(mask, vis, du, i0, w, t, key),
    ensures
        run_h(mask, vis, du, dv, i0, w, j, key) == t - j,
    decreases t - j,
{
    if j < t {
        lemma_run_h_at(mask, vis, du, dv, i0, w, j + 1, key, t);
    }
}

/// Every row of the run is fully extendable, and the run stays inside
/// the mask.
proof fn lemma_run_h_rows(
    mask: Seq<u8>,
    vis: Seq<bool>,
    du: int,
    dv: int,
    i0: int,
    w: int,
    j: int,
    key: u8,
)
    requires
        0 <= j <= dv,
    ensures
        0 <= run_h(mask, vis, du, dv, i0, w, j, key),
        j + run_h(mask, vis, du, dv, i0, w, j, key) <= dv,
        forall|s: int|
            j <= s < j + run_h(mask, vis, du, dv, i0, w, j, key) ==> row_ok(
                mask, vis, du, i0, w, s, key,
            ),
    decreases dv - j,
{
    if j < dv && row_ok(mask, vis, du, i0, w, j, key) {
        lemma_run_h_rows(mask, vis, du, dv, i0, w, j + 1, key);
    }
}

/// Rectangle `r` lies inside the mask, is at least one cell in both
/// directions, and every cell it covers carries its own nonzero key: a
/// merged face never crosses a material boundary.
pub open spec fn rect_wf(mask: Seq<u8>, du: int, dv: int, r: Rect) -> bool {
    &&& 1 <= r.w
    &&& 1 <= r.h
    &&& r.i + r.w <= du
    &&& r.j + r.h <= dv
    &&& r.key != 0
    &&& forall|ti: int, tj: int|
        r.i <= ti < r.i + r.w && r.j <= tj < r.j + r.h ==> mask[#[trigger] (tj * du + ti)]
            == r.key
}

/// Every rectangle the greedy scan emits is well-formed: in particular
/// no rectangle mixes two palette indices.
pub proof fn lemma_greedy_rects_wf(mask: Seq<u8>, vis: Seq<bool>, du: int, dv: int, k: int)
    requires
        mask.len() == du * dv,
        vis.len() == du * dv,
        0 <= du <= usize::MAX,
        0 <= dv <= usize::MAX,
        0 <= k,
    ensures
        forall|q: int|
            0 <= q < greedy_from(mask, vis, du, dv, k).len() ==> rect_wf(
                mask, du, dv, #[trigger] greedy_from(mask, vis, du, dv, k)[q],
            ),
    decreases du * dv - k,
{
    if k < du * dv {
        if mask[k] != 0 && !vis[k] {
            lemma_cell_index(du, dv, k);
            let i = k % du;
            let j = k / du;
            let key = mask[k];
            let w = run_w(mask, vis, du, i, j, key);
            let h = run_h(mask, vis, du, dv, i, w, j, key);
            let r = Rect { i: i as usize, j: j as usize, w: w as usize, h: h as usize, key };
            assert(cell_ok(mask, vis, du, i, j, key));
            lemma_run_w_cells(mask, vis, du, i, j, key);
            lemma_run_w_cells(mask, vis, du, i + 1, j, key);
            assert(w == 1 + run_w(mask, vis, du, i + 1, j, key));
            assert(w >= 1);
            lemma_run_h_rows(mask, vis, du, dv, i, w, j, key);
            assert(row_ok(mask, vis, du, i, w, j, key)) by {
                assert(forall|t: int|
                    i <= t < i + w ==> cell_ok(mask, vis, du, t, j, key));
            }
            lemma_run_h_rows(mask, vis, du, dv, i, w, j + 1, key);
            assert(h == 1 + run_h(mask, vis, du, dv, i, w, j + 1, key));
            assert(h >= 1);
            assert forall|ti: int, tj: int|
                r.i <= ti < r.i + r.w && r.j <= tj < r.j + r.h implies mask[#[trigger] (tj * du
                + ti)] == r.key by {
                assert(row_ok(mask, vis, du, i, w, tj, key));
                assert(cell_ok(mask, vis, du, ti, tj, key));
            }
            assert(rect_wf(mask, du, dv, r));
            lemma_greedy_rects_wf(mask, mark_rect(vis, du, r), du, dv, k + 1);
            let tail = greedy_from(mask, mark_rect(vis, du, r), du, dv, k + 1);
            assert(greedy_from(mask, vis, du, dv, k) == seq![r] + tail);
            assert forall|q: int|
                0 <= q < greedy_from(mask, vis, du, dv, k).len() implies rect_wf(
                mask, du, dv, #[trigger] greedy_from(mask, vis, du, dv, k)[q],
            ) by {
                if q == 0 {
                    assert(greedy_from(mask, vis, du, dv, k)[0] == r);
                } else {
                    assert(greedy_from(mask, vis, du, dv, k)[q] == tail[q - 1]);
                }
            }
        } else {
            lemma_greedy_rects_wf(mask, vis, du, dv, k + 1);
            assert(greedy_from(mask, vis, du, dv, k) == greedy_from(mask, vis, du, dv, k + 1));
        }
    } else {
        assert(greedy_from(mask, vis, du, dv, k) =~= Seq::<Rect>::empty());
    }
}

/// Every visible face is claimed by some rectangle: a nonzero mask cell
/// not yet visited when the scan starts at `k` is covered by one of the
/// rectangles the scan emits.
proof fn lemma_greedy_covers(mask: Seq<u8>, vis: Seq<bool>, du: int, dv: int, k: int, t: int)
    requires
        mask.len() == du * dv,
        vis.len() == du * dv,
        0 <= du <= usize::MAX,
        0 <= dv <= usize::MAX,
        0 <= k <= t < du * dv,
        mask[t] != 0,
        !vis[t],
    ensures
        exists|q: int|
            0 <= q < greedy_from(mask, vis, du, dv, k).len() && rect_covers(
                du, #[trigger] greedy_from(mask, vis, du, dv, k)[q], t,
            ),
    decreases du * dv - k,
{
    lemma_cell_index(du, dv, k);
    lemma_cell_index(du, dv, t);
    let out = greedy_from(mask, vis, du, dv, k);
    if mask[k] != 0 && !vis[k] {
        let i = k % du;
        let j = k / du;
        let key = mask[k];
        let w = run_w(mask, vis, du, i, j, key);
        let h = run_h(mask, vis, du, dv, i, w, j, key);
        let r = Rect { i: i as usize, j: j as usize, w: w as usize, h: h as usize, key };
        assert(cell_ok(mask, vis, du, i, j, key));
        lemma_run_w_cells(mask, vis, du, i, j, key);
        lemma_run_w_cells(mask, vis, du, i + 1, j, key);
        assert(w == 1 + run_w(mask, vis, du, i + 1, j, key));
        assert(row_ok(mask, vis, du, i, w, j, key)) by {
            assert(forall|s: int| i <= s < i + w ==> cell_ok(mask, vis, du, s, j, key));
        }
        lemma_run_h_rows(mask, vis, du, dv, i, w, j, key);
        lemma_run_h_rows(mask, vis, du, dv, i, w, j + 1, key);
        assert(h == 1 + run_h(mask, vis, du, dv, i, w, j + 1, key));
        let vis2 = mark_rect(vis, du, r);
        let tail = greedy_from(mask, vis2, du, dv, k + 1);
        assert(out == seq![r] + tail);
        if rect_covers(du, r, t) {
            assert(out[0] == r);
            assert(rect_covers(du, out[0], t));
        } else {
            assert(!vis2[t]);
            assert(t != k) by {
                assert(rect_covers(du, r, k));
            }
            lemma_greedy_covers(mask, vis2, du, dv, k + 1, t);
            let q = choose|q: int|
                0 <= q < tail.len() && rect_covers(du, #[trigger] tail[q], t);
            assert(out[q + 1] == tail[q]);
            assert(rect_covers(du, out[q + 1], t));
        }
    } else {
        assert(t != k);
        lemma_greedy_covers(mask, vis, du, dv, k + 1, t);
        let tail = greedy_from(mask, vis, du, dv, k + 1);
        assert(out == tail);
    }
}

/// Rectangles claim only cells unvisited when the scan starts, and no
/// two emitted rectangles share a cell: no face is emitted twice.
proof fn lemma_greedy_disjoint(mask: Seq<u8>, vis: Seq<bool>, du: int, dv: int, k: int)
    requires
        mask.len() == du * dv,
        vis.len() == du * dv,
        0 <= du <= usize::MAX,
        0 <= dv <= usize::MAX,
        0 <= k,
    ensures
        forall|q: int, t: int|
            0 <= q < greedy_from(mask, vis, du, dv, k).len() && 0 <= t < du * dv && #[trigger]
            rect_covers(du, greedy_from(mask, vis, du, dv, k)[q], t) ==> !vis[t],
        forall|q1: int, q2: int, t: int|
            0 <= q1 < q2 < greedy_from(mask, vis, du, dv, k).len() && 0 <= t < du * dv ==> !(
            #[trigger] rect_covers(du, greedy_from(mask, vis, du, dv, k)[q1], t) && #[trigger]
            rect_covers(du, greedy_from(mask, vis, du, dv, k)[q2], t)),
    decreases du * dv - k,
{
    if 0 <= k < du * dv {
        if mask[k] != 0 && !vis[k] {
            lemma_cell_index(du, dv, k);
            let i = k % du;
            let j = k / du;
            let key = mask[k];
            let w = run_w(mask, vis, du, i, j, key);
            let h = run_h(mask, vis, du, dv, i, w, j, key);
            let r = Rect { i: i as usize, j: j as usize, w: w as usize, h: h as usize, key };
            lemma_run_w_cells(mask, vis, du, i, j, key);
            lemma_run_h_rows(mask, vis, du, dv, i, w, j, key);
            let vis2 = mark_rect(vis, du, r);
            let tail = greedy_from(mask, vis2, du, dv, k + 1);
            let out = greedy_from(mask, vis, du, dv, k);
            assert(out == seq![r] + tail);
            lemma_greedy_disjoint(mask, vis2, du, dv, k + 1);
            // Cells of the head rectangle were extendable, hence
            // unvisited.
            assert forall|t: int|
                0 <= t < du * dv && rect_covers(du, r, t) implies !vis[t] by {
                lemma_cell_index(du, dv, t);
                let ti = t % du;
                let tj = t / du;
                assert(row_ok(mask, vis, du, i, w, tj, key));
                assert(cell_ok(mask, vis, du, ti, tj, key));
                assert(tj * du + ti == t);
            }
            assert forall|q: int, t: int|
                0 <= q < out.len() && 0 <= t < du * dv && rect_covers(du, out[q], t)
                implies !vis[t] by {
                if q == 0 {
                    assert(out[0] == r);
                } else {
                    assert(out[q] == tail[q - 1]);
                    assert(!vis2[t]);
                }
            }
            assert forall|q1: int, q2: int, t: int|
                0 <= q1 < q2 < out.len() && 0 <= t < du * dv implies !(rect_covers(
                du, out[q1], t,
            ) && rect_covers(du, out[q2], t)) by {
                if q1 == 0 {
                    assert(out[0] == r);
                    assert(out[q2] == tail[q2 - 1]);
                    if rect_covers(du, r, t) && rect_covers(du, tail[q2 - 1], t) {
                        assert(!vis2[t]);
                        assert(vis2[t]);
                    }
                } else {
                    assert(out[q1] == tail[q1 - 1]);
                    assert(out[q2] == tail[q2 - 1]);
                }
            }
        } else {
            lemma_greedy_disjoint(mask, vis, du, dv, k + 1);
            assert(greedy_from(mask, vis, du, dv, k) == greedy_from(mask, vis, du, dv, k + 1));
        }
    } else {
        assert(greedy_from(mask, vis, du, dv, k) =~= Seq::<Rect>::empty());
    }
}

/// The merging guarantee: every visible face (nonzero mask cell) lies in
/// exactly one of the rectangles the greedy merge emits — each face
/// contributes to one quad, and no face is emitted twice.
pub proof fn lemma_faces_exactly_once(mask: Seq<u8>, du: int, dv: int, t: int)
    requires
        mask.len() == du * dv,
        0 <= du <= usize::MAX,
        0 <= dv <= usize::MAX,
        0 <= t < du * dv,
        mask[t] != 0,
    ensures
        exists|q: int|
            0 <= q < greedy_spec(mask, du, dv).len() && rect_covers(
                du, #[trigger] greedy_spec(mask, du, dv)[q], t,
            ),
        forall|q1: int, q2: int|
            0 <= q1 < q2 < greedy_spec(mask, du, dv).len() ==> !(#[trigger] rect_covers(
                du, greedy_spec(mask, du, dv)[q1], t,
            ) && #[trigger] rect_covers(du, greedy_spec(mask, du, dv)[q2], t)),
{
    let vis0 = Seq::new((du * dv) as nat, |x: int| false);
    lemma_greedy_covers(mask, vis0, du, dv, 0, t);
    lemma_greedy_disjoint(mask, vis0, du, dv, 0);
    let out = greedy_spec(mask, du, dv);
    assert(out == greedy_from(mask, vis0, du, dv, 0));
    let q = choose|q: int|
        0 <= q < greedy_from(mask, vis0, du, dv, 0).len() && rect_covers(
            du, #[trigger] greedy_from(mask, vis0, du, dv, 0)[q], t,
        );
    assert(0 <= q < out.len() && rect_covers(du, out[q], t));
}

/// A merged face never crosses a material boundary: every rectangle the
/// greedy merge emits covers cells of one single nonzero palette index,
/// so two adjacent coplanar cells of different palette indices are never
/// merged into one quad.
pub proof fn lemma_no_material_mixing(mask: Seq<u8>, du: int, dv: int)
    requires
        mask.len() == du * dv,
        0 <= du <= usize::MAX,
        0 <= dv <= usize::MAX,
    ensures
        forall|q: int|
            0 <= q < greedy_spec(mask, du, dv).len() ==> rect_wf(
                mask, du, dv, #[trigger] greedy_spec(mask, du, dv)[q],
            ),
{
    lemma_greedy_rects_wf(mask, Seq::new((du * dv) as nat, |t: int| false), du, dv, 0);
}

/// Buffer extent along one axis.
pub fn axis_dim_of(g: &VoxelGrid, a: usize) -> (r: usize)
    requires
        a < 3,
    ensures
        r == axis_dim(g@, a as int),
{
    if a == 0 {
        g.dx
    } else if a == 1 {
        g.dy
    } else {
        g.dz
    }
}

/// Buffer coordinates of a mask cell (layer `n` may be one past either
/// end of the axis when reading a neighbor; callers pass it as `int`-like
/// offsets resolved beforehand).
fn cell_coords(a: usize, n: usize, i: usize, j: usize) -> (c: (usize, usize, usize))
    requires
        a < 3,
    ensures
        c.0 == cell_x(a as int, n as int, i as int, j as int),
        c.1 == cell_y(a as int, n as int, i as int, j as int),
        c.2 == cell_z(a as int, n as int, i as int, j as int),
{
    if a == 0 {
        (n, i, j)
    } else if a == 1 {
        (j, n, i)
    } else {
        (i, j, n)
    }
}

/// Build the visibility mask of layer `n` for face direction `d`.
pub fn build_mask(g: &VoxelGrid, d: usize, n: usize) -> (m: Vec<u8>)
    requires
        g.wf(),
        d < 6,
        g.dx < usize::MAX,
        g.dy < usize::MAX,
        g.dz < usize::MAX,
        n < axis_dim(g@, dir_axis(d as int)),
    ensures
        m@ == mask_spec(g@, d as int, n as int),
        m@.len() == mask_du(g@, d as int) * mask_dv(g@, d as int),
{
    let a = d / 2;
    let positive = d % 2 == 0;
    let ua = if a == 0 { 1 } else if a == 1 { 2 } else { 0 };
    let va = if a == 0 { 2 } else if a == 1 { 0 } else { 1 };
    let du = axis_dim_of(g, ua);
    let dv = axis_dim_of(g, va);
    let total = g.data.len();
    proof {
        assert(du * dv <= total) by (nonlinear_arith)
            requires
                total == g.dx * g.dy * g.dz,
                du >= 0,
                dv >= 0,
                (a == 0 ==> du == g.dy && dv == g.dz && g.dx >= 1)
                    && (a == 1 ==> du == g.dz && dv == g.dx && g.dy >= 1)
                    && (a == 2 ==> du == g.dx && dv == g.dy && g.dz >= 1),
                a == 0 || a == 1 || a == 2;
    }
    let len = du * dv;
    let mut m: Vec<u8> = Vec::new();
    let mut k: usize = 0;
    while k < len
        invariant
            k <= len,
            len == du * dv,
            du == mask_du(g@, d as int),
            dv == mask_dv(g@, d as int),
            a == dir_axis(d as int),
            a < 3,
            positive == dir_positive(d as int),
            g.wf(),
            g.dx < usize::MAX,
            g.dy < usize::MAX,
            g.dz < usize::MAX,
            n < axis_dim(g@, a as int),
            m@.len() == k,
            forall|t: int|
                0 <= t < k ==> m@[t] == mask_cell(g@, d as int, n as int, t % (du as int), t / (du as int)),
        decreases len - k,
    {
        proof {
            lemma_cell_index(du as int, dv as int, k as int);
        }
        let i = k % du;
        let j = k / du;
        let (x, y, z) = cell_coords(a, n, i, j);
        let key = g.at(x, y, z);
        let nb: u8 = if positive {
            let (nx, ny, nz) = cell_coords(a, n + 1, i, j);
            g.at(nx, ny, nz)
        } else {
            if n == 0 {
                proof {
                    assert(g.spec_at(
                        cell_x(a as int, -1, i as int, j as int),
                        cell_y(a as int, -1, i as int, j as int),
                        cell_z(a as int, -1, i as int, j as int),
                    ) == 0);
                }
                0
            } else {
                let (nx, ny, nz) = cell_coords(a, n - 1, i, j);
                g.at(nx, ny, nz)
            }
        };
        let cell = if key != 0 && nb == 0 {
            key
        } else {
            0
        };
        m.push(cell);
        k = k + 1;
    }
    assert(m@ =~= mask_spec(g@, d as int, n as int));
    m
}

/// Length of the run of extendable cells from `(i, j)` rightward.
fn scan_w(mask: &Vec<u8>, vis: &Vec<bool>, du: usize, dv: usize, i: usize, j: usize, key: u8) -> (w: usize)
    requires
        mask@.len() == du * dv,
        vis@.len() == du * dv,
        i < du,
        j < dv,
    ensures
        w == run_w(mask@, vis@, du as int, i as int, j as int, key),
        i + w <= du,
{
    let _len = mask.len();
    let mut t: usize = i;
    loop
        invariant
            i <= t <= du,
            j < dv,
            mask@.len() == du * dv,
            mask@.len() <= usize::MAX,
            vis@.len() == du * dv,
            forall|s: int| i <= s < t ==> cell_ok(mask@, vis@, du as int, s, j as int, key),
        ensures
            i <= t <= du,
            forall|s: int| i <= s < t ==> cell_ok(mask@, vis@, du as int, s, j as int, key),
            t == du || !cell_ok(mask@, vis@, du as int, t as int, j as int, key),
        decreases du - t,
    {
        if t == du {
            break;
        }
        proof {
            lemma_mask_index(du as int, dv as int, t as int, j as int);
        }
        let idx = j * du + t;
        if mask[idx] != key || vis[idx] {
            break;
        }
        t = t + 1;
    }
    proof {
        lemma_run_w_at(mask@, vis@, du as int, i as int, j as int, key, t as int);
    }
    t - i
}

/// Whether all cells `[i0, i0 + w)` of row `jj` are extendable.
fn row_all(mask: &Vec<u8>, vis: &Vec<bool>, du: usize, dv: usize, i0: usize, w: usize, jj: usize, key: u8) -> (r: bool)
    requires
        mask@.len() == du * dv,
        vis@.len() == du * dv,
        i0 + w <= du,
        jj < dv,
    ensures
        r == row_ok(mask@, vis@, du as int, i0 as int, w as int, jj as int, key),
{
    let _len = mask.len();
    let mut t: usize = i0;
    while t < i0 + w
        invariant
            i0 <= t <= i0 + w,
            i0 + w <= du,
            jj < dv,
            mask@.len() == du * dv,
            mask@.len() <= usize::MAX,
            vis@.len() == du * dv,
            forall|s: int| i0 <= s < t ==> cell_ok(mask@, vis@, du as int, s, jj as int, key),
        decreases i0 + w - t,
    {
        proof {
            lemma_mask_index(du as int, dv as int, t as int, jj as int);
        }
        let idx = jj * du + t;
        if mask[idx] != key || vis[idx] {
            assert(!cell_ok(mask@, vis@, du as int, t as int, jj as int, key));
            return false;
        }
        t = t + 1;
    }
    true
}

/// Number of fully extendable rows from `j` downward.
fn scan_h(mask: &Vec<u8>, vis: &Vec<bool>, du: usize, dv: usize, i0: usize, w: usize, j: usize, key: u8) -> (h: usize)
    requires
        mask@.len() == du * dv,
        vis@.len() == du * dv,
        i0 + w <= du,
        j < dv,
    ensures
        h == run_h(mask@, vis@, du as int, dv as int, i0 as int, w as int, j as int, key),
        j + h <= dv,
{
    let mut t: usize = j;
    loop
        invariant
            j <= t <= dv,
            i0 + w <= du,
            mask@.len() == du * dv,
            vis@.len() == du * dv,
            forall|s: int| j <= s < t ==> row_ok(mask@, vis@, du as int, i0 as int, w as int, s, key),
        ensures
            j <= t <= dv,
            forall|s: int| j <= s < t ==> row_ok(mask@, vis@, du as int, i0 as int, w as int, s, key),
            t == dv || !row_ok(mask@, vis@, du as int, i0 as int, w as int, t as int, key),
        decreases dv - t,
    {
        if t == dv {
            break;
        }
        if !row_all(mask, vis, du, dv, i0, w, t, key) {
            break;
        }
        t = t + 1;
    }
    proof {
        lemma_run_h_at(mask@, vis@, du as int, dv as int, i0 as int, w as int, j as int, key, t as int);
    }
    t - j
}

/// The visited cells after the rows `[r.j, jj)` are fully claimed and row
/// `jj` is claimed up to column `ii`.
spec fn mark_upto(vis0: Seq<bool>, du: int, r: Rect, jj: int, ii: int) -> Seq<bool> {
    Seq::new(
        vis0.len(),
        |t: int|
            if {
                let ti = t % du;
                let tj = t / du;
                r.i <= ti < r.i + r.w && (r.j <= tj < jj || (tj == jj && r.i <= ti < ii))
            } {
                true
            } else {
                vis0[t]
            },
    )
}

/// Claim every cell of rectangle `r`.
fn mark_visited(vis: &mut Vec<bool>, du: usize, dv: usize, r: Rect)
    requires
        old(vis)@.len() == du * dv,
        r.i + r.w <= du,
        r.j + r.h <= dv,
    ensures
        final(vis)@ == mark_rect(old(vis)@, du as int, r),
{
    let ghost vis0 = old(vis)@;
    let _len = vis.len();
    let mut jj: usize = r.j;
    assert(vis@ =~= mark_upto(vis0, du as int, r, r.j as int, r.i as int));
    while jj < r.j + r.h
        invariant
            r.j <= jj <= r.j + r.h,
            r.i + r.w <= du,
            r.j + r.h <= dv,
            vis@.len() == du * dv,
            vis@.len() <= usize::MAX,
            vis0.len() == du * dv,
            vis@ == mark_upto(vis0, du as int, r, jj as int, r.i as int),
        decreases r.j + r.h - jj,
    {
        let mut ii: usize = r.i;
        while ii < r.i + r.w
            invariant
                r.i <= ii <= r.i + r.w,
                r.j <= jj < r.j + r.h,
                r.i + r.w <= du,
                r.j + r.h <= dv,
                vis@.len() == du * dv,
                vis@.len() <= usize::MAX,
                vis0.len() == du * dv,
                vis@ == mark_upto(vis0, du as int, r, jj as int, ii as int),
            decreases r.i + r.w - ii,
        {
            proof {
                lemma_mask_index(du as int, dv as int, ii as int, jj as int);
            }
            let idx = jj * du + ii;
            let ghost prev = vis@;
            vis.set(idx, true);
            proof {
                assert forall|t: int| 0 <= t < vis0.len() implies vis@[t] == mark_upto(
                    vis0, du as int, r, jj as int, ii + 1,
                )[t] by {
                    lemma_flat_coords(du as int, t);
                }
                assert(vis@ =~= mark_upto(vis0, du as int, r, jj as int, ii + 1));
            }
            ii = ii + 1;
        }
        assert(mark_upto(vis0, du as int, r, jj as int, r.i + r.w) =~= mark_upto(
            vis0, du as int, r, jj + 1, r.i as int,
        ));
        jj = jj + 1;
    }
    assert(mark_upto(vis0, du as int, r, r.j + r.h, r.i as int) =~= mark_rect(vis0, du as int, r));
}

/// Extract the merged rectangles of one mask in deterministic scan
/// order.
pub fn greedy_rects(mask: &Vec<u8>, du: usize, dv: usize) -> (out: Vec<Rect>)
    requires
        mask@.len() == du * dv,
    ensures
        out@ == greedy_spec(mask@, du as int, dv as int),
{
    let n = mask.len();
    let mut vis: Vec<bool> = Vec::new();
    let mut z: usize = 0;
    while z < n
        invariant
            z <= n,
            vis@.len() == z,
            forall|t: int| 0 <= t < z ==> !vis@[t],
        decreases n - z,
    {
        vis.push(false);
        z = z + 1;
    }
    assert(vis@ =~= Seq::new((du as int * dv as int) as nat, |t: int| false));

    let mut out: Vec<Rect> = Vec::new();
    let mut k: usize = 0;
    assert(out@ + greedy_from(mask@, vis@, du as int, dv as int, 0) =~= greedy_spec(
        mask@, du as int, dv as int,
    ));
    while k < n
        invariant
            k <= n,
            n == du * dv,
            mask@.len() == n,
            vis@.len() == n,
            out@ + greedy_from(mask@, vis@, du as int, dv as int, k as int) == greedy_spec(
                mask@, du as int, dv as int,
            ),
        decreases n - k,
    {
        let ghost visb = vis@;
        let ghost outb = out@;
        if mask[k] != 0 && !vis[k] {
            proof {
                lemma_cell_index(du as int, dv as int, k as int);
            }
            let i = k % du;
            let j = k / du;
            let key = mask[k];
            let w = scan_w(mask, &vis, du, dv, i, j, key);
            let h = scan_h(mask, &vis, du, dv, i, w, j, key);
            let r = Rect { i, j, w, h, key };
            mark_visited(&mut vis, du, dv, r);
            out.push(r);
            proof {
                assert(greedy_from(mask@, visb, du as int, dv as int, k as int) == seq![r]
                    + greedy_from(mask@, mark_rect(visb, du as int, r), du as int, dv as int, k + 1));
                assert(outb + (seq![r] + greedy_from(mask@, vis@, du as int, dv as int, k + 1))
                    =~= out@ + greedy_from(mask@, vis@, du as int, dv as int, k + 1));
            }
        } else {
            proof {
                assert(greedy_from(mask@, vis@, du as int, dv as int, k as int) == greedy_from(
                    mask@, vis@, du as int, dv as int, k + 1,
                ));
            }
        }
        k = k + 1;
    }
    proof {
        assert(greedy_from(mask@, vis@, du as int, dv as int, n as int) =~= Seq::<Rect>::empty());
        assert(out@ + Seq::<Rect>::empty() =~= out@);
    }
    out
}

} // verus!
