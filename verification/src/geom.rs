//! Plain value types shared across the pipeline.

use vstd::prelude::*;

verus! {

/// One color of the 256-entry palette, or one texel of a synthesized
/// texture.
#[derive(Clone, Copy, Debug, PartialEq, Eq, Structural)]
pub struct Rgba {
    pub r: u8,
    pub g: u8,
    pub b: u8,
    pub a: u8,
}

/// An exact integer point or direction in target space (Y-up,
/// right-handed).  Mesh positions and normals are integers: voxel faces
/// lie on unit-grid lines.
#[derive(Clone, Copy, Debug, PartialEq, Eq, Structural)]
pub struct Vec3i {
    pub x: i64,
    pub y: i64,
    pub z: i64,
}

/// A texel coordinate into the synthesized palette texture.
#[derive(Clone, Copy, Debug, PartialEq, Eq, Structural)]
pub struct TexCoord {
    pub u: u32,
    pub v: u32,
}

/// One voxel of a decoded model: source-space coordinates and the
/// 1-based palette index (0 is reserved for empty cells).
#[derive(Clone, Copy, Debug, PartialEq, Eq, Structural)]
pub struct VoxelCell {
    pub x: u8,
    pub y: u8,
    pub z: u8,
    pub index: u8,
}

/// Fatal conditions: each aborts the whole-file conversion.
#[derive(Clone, Copy, Debug, PartialEq, Eq, Structural)]
pub enum VoxError {
    /// Material records are present but their count differs from the
    /// palette length.
    MaterialCountMismatch,
    /// A voxel lies outside its model's declared size.
    VoxelOutOfBounds,
}

} // verus!
