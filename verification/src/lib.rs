//! Conversion of decoded voxel models into renderable data.
//!
//! The crate turns the output of an external voxel-file decoder
//! (palette-indexed voxel grids, per-color material properties, and a
//! scene graph with bit-packed transforms) into triangle-mesh buffers,
//! synthesized palette textures, and a flat list of positioned mesh
//! instances.  All geometry is produced over exact integer coordinates;
//! converting buffers to the floating-point types of a rendering engine
//! is left to the host.

pub mod dict;
pub mod geom;
pub mod grid;
pub mod material;
pub mod mesh;
pub mod mesher;
pub mod numeric;
pub mod pipeline;
pub mod rotation;
pub mod scene;

use vstd::prelude::*;

verus! {

/// The smallest power of two `w` with `w * w >= len`: the side length of
/// the square texture that holds one texel per palette entry.
pub open spec fn spec_tex_width_from(w: nat, len: nat) -> nat
    decreases 2 * len - w when 1 <= w via spec_tex_width_from_dec
{
    if w * w >= len {
        w
    } else {
        spec_tex_width_from(w * 2, len)
    }
}

#[via_fn]
proof fn spec_tex_width_from_dec(w: nat, len: nat) {
    assert(1 <= w && w * w < len ==> w < len) by (nonlinear_arith);
}

pub open spec fn spec_tex_width(len: nat) -> nat {
    spec_tex_width_from(1, len)
}

/// Side length of the square palette texture: the smallest power of two
/// whose square holds `len` texels.
pub fn tex_width(len: u32) -> (w: u32)
    ensures
        w == spec_tex_width(len as nat),
        w * w >= len,
        1 <= w <= 0x2_0000,
{
    let mut w: u32 = 1;
    loop
        invariant
            1 <= w <= 0x2_0000,
            spec_tex_width(len as nat) == spec_tex_width_from(w as nat, len as nat),
        ensures
            w * w >= len,
        decreases 2 * (len as int) - w,
    {
        assert((w as u64) * (w as u64) < 0x1_0000_0000_0000u64) by (nonlinear_arith)
            requires w <= 0x2_0000u64;
        let ww: u64 = (w as u64) * (w as u64);
        if ww >= len as u64 {
            break;
        }
        assert(w < 0x1_0000) by (nonlinear_arith)
            requires
                w * w < len,
                len < 0x1_0000_0000,
                1 <= w;
        assert(w <= w * w) by (nonlinear_arith)
            requires 1 <= w;
        w = w * 2;
    }
    w
}

} // verus!
