//! Material synthesis: palette textures, optional emissive textures, and
//! the opacity flag, from per-color material property records.
//!
//! Property records are parsed once into a closed union (diffuse, glass
//! with an alpha, emissive with a strength); downstream logic matches on
//! that union.  A record with an unrecognized type, or a glass or
//! emissive record whose decimal value is missing or malformed, counts
//! as diffuse.  Alphas are clamped to the unit range and strengths to
//! the parseable maximum, in exact milli-units.

use vstd::prelude::*;

use crate::dict::{lookup, lookup_attr, Dict};
use crate::geom::{Rgba, VoxError};
use crate::numeric::{parse_decimal_spec, parse_decimal_milli};
use crate::{spec_tex_width, spec_tex_width_from, tex_width};

verus! {

/// One parsed material record.
#[derive(Clone, Copy, Debug, PartialEq, Eq, Structural)]
pub enum MaterialKind {
    /// Plain opaque color.
    Diffuse,
    /// Translucent: the palette texel's alpha is replaced by this value
    /// (milli-units, clamped to `0..=1000`).
    Glass { alpha_milli: u32 },
    /// Emissive: palette color scaled by this strength (milli-units,
    /// nonnegative).
    Emit { strength_milli: u64 },
}

/// The record a property dictionary encodes.
pub open spec fn material_spec(d: Dict) -> MaterialKind {
    match lookup(d.entries@, "_type"@) {
        None => MaterialKind::Diffuse,
        Some(t) => if t == "_glass"@ {
            match lookup(d.entries@, "_alpha"@) {
                None => MaterialKind::Diffuse,
                Some(v) => match parse_decimal_spec(v) {
                    None => MaterialKind::Diffuse,
                    Some(m) => MaterialKind::Glass {
                        alpha_milli: if m < 0 {
                            0
                        } else if m > 1000 {
                            1000
                        } else {
                            m as u32
                        },
                    },
                },
            }
        } else if t == "_emit"@ {
            match lookup(d.entries@, "_emit"@) {
                None => MaterialKind::Diffuse,
                Some(v) => match parse_decimal_spec(v) {
                    None => MaterialKind::Diffuse,
                    Some(m) => MaterialKind::Emit {
                        strength_milli: if m < 0 {
                            0
                        } else if m > 10_000_000_000_000 {
                            10_000_000_000_000
                        } else {
                            m as u64
                        },
                    },
                },
            }
        } else {
            MaterialKind::Diffuse
        },
    }
}

/// Parse one property dictionary.
pub fn parse_material(d: &Dict) -> (r: MaterialKind)
    ensures
        r == material_spec(*d),
{
    let t = match lookup_attr(d, "_type") {
        Some(t) => t,
        None => {
            return MaterialKind::Diffuse;
        },
    };
    let glass: String = "_glass".to_owned();
    let emit: String = "_emit".to_owned();
    if t == glass {
        let v = match lookup_attr(d, "_alpha") {
            Some(v) => v,
            None => {
                return MaterialKind::Diffuse;
            },
        };
        match parse_decimal_milli(v.as_str()) {
            None => MaterialKind::Diffuse,
            Some(m) => MaterialKind::Glass {
                alpha_milli: if m < 0 {
                    0
                } else if m > 1000 {
                    1000
                } else {
                    m as u32
                },
            },
        }
    } else if t == emit {
        let v = match lookup_attr(d, "_emit") {
            Some(v) => v,
            None => {
                return MaterialKind::Diffuse;
            },
        };
        match parse_decimal_milli(v.as_str()) {
            None => MaterialKind::Diffuse,
            Some(m) => MaterialKind::Emit {
                strength_milli: if m < 0 {
                    0
                } else if m > 10_000_000_000_000 {
                    10_000_000_000_000
                } else {
                    m as u64
                },
            },
        }
    } else {
        MaterialKind::Diffuse
    }
}

/// The records of a property dictionary list, in order.
pub open spec fn materials_of(dicts: Seq<Dict>) -> Seq<MaterialKind> {
    Seq::new(dicts.len(), |i: int| material_spec(dicts[i]))
}

/// Some record among the first `upto` is glass: the whole synthesized
/// material must render blended.
pub open spec fn any_glass(mats: Seq<MaterialKind>, upto: int) -> bool {
    exists|i: int| 0 <= i < upto && i < mats.len() && (#[trigger] mats[i]) is Glass
}

/// Some record among the first `upto` is emissive: an emissive texture
/// is produced.
pub open spec fn any_emit(mats: Seq<MaterialKind>, upto: int) -> bool {
    exists|i: int| 0 <= i < upto && i < mats.len() && (#[trigger] mats[i]) is Emit
}

/// Derive the opacity and emissiveness of the whole material: `opaque`
/// unless some consulted record is glass, emissive when some consulted
/// record is emissive.  Records beyond the palette length are not
/// consulted.
pub fn get_properties(palette: &Vec<Rgba>, mats: &Vec<MaterialKind>) -> (r: (bool, bool))
    ensures
        r.0 == !any_glass(mats@, palette@.len() as int),
        r.1 == any_emit(mats@, palette@.len() as int),
{
    let mut opaque = true;
    let mut emissive = false;
    let mut i: usize = 0;
    while i < palette.len()
        invariant
            i <= palette@.len(),
            opaque == !any_glass(mats@, i as int),
            emissive == any_emit(mats@, i as int),
        decreases palette@.len() - i,
    {
        if i < mats.len() {
            match mats[i] {
                MaterialKind::Glass { .. } => {
                    opaque = false;
                },
                MaterialKind::Emit { .. } => {
                    emissive = true;
                },
                MaterialKind::Diffuse => {
                },
            }
        }
        i = i + 1;
    }
    (opaque, emissive)
}

/// The alpha texel of a glass record: `round(alpha * 255)`, ties away
/// from zero, computed exactly from milli-units.
pub open spec fn glass_alpha_texel(alpha_milli: u32) -> u8 {
    ((alpha_milli * 510 + 1000) / 2000) as u8
}

/// One texel of the base-color texture: the palette color, with its
/// alpha replaced for glass records; trailing texels are transparent
/// black.
pub open spec fn base_texel(palette: Seq<Rgba>, mats: Seq<MaterialKind>, t: int) -> Rgba {
    if 0 <= t < palette.len() {
        let c = palette[t];
        if t < mats.len() && mats[t] is Glass {
            Rgba { r: c.r, g: c.g, b: c.b, a: glass_alpha_texel(mats[t]->Glass_alpha_milli) }
        } else {
            c
        }
    } else {
        Rgba { r: 0, g: 0, b: 0, a: 0 }
    }
}

/// The whole base-color texture, row-major in a `w` by `w` square.
pub open spec fn base_texture_spec(palette: Seq<Rgba>, mats: Seq<MaterialKind>, w: int) -> Seq<
    Rgba,
> {
    Seq::new((w * w) as nat, |t: int| base_texel(palette, mats, t))
}

/// One emissive channel: `round(channel * strength)`, ties away from
/// zero, clamped to 255.
pub open spec fn emissive_channel(c: u8, strength_milli: u64) -> u8 {
    let v = (2 * c * strength_milli + 1000) / 2000;
    if v > 255 {
        255u8
    } else {
        v as u8
    }
}

/// One texel of the emissive texture: the scaled palette color, fully
/// opaque, for emissive records; transparent black everywhere else.
pub open spec fn emissive_texel(palette: Seq<Rgba>, mats: Seq<MaterialKind>, t: int) -> Rgba {
    if 0 <= t < palette.len() && t < mats.len() && mats[t] is Emit {
        let c = palette[t];
        let s = mats[t]->Emit_strength_milli;
        Rgba {
            r: emissive_channel(c.r, s),
            g: emissive_channel(c.g, s),
            b: emissive_channel(c.b, s),
            a: 255,
        }
    } else {
        Rgba { r: 0, g: 0, b: 0, a: 0 }
    }
}

/// The whole emissive texture, row-major in a `w` by `w` square.
pub open spec fn emissive_texture_spec(
    palette: Seq<Rgba>,
    mats: Seq<MaterialKind>,
    w: int,
) -> Seq<Rgba> {
    Seq::new((w * w) as nat, |t: int| emissive_texel(palette, mats, t))
}

/// The synthesized material of one voxel file: a base-color texture, an
/// emissive texture only when some record is emissive, and the opacity
/// flag selecting opaque versus blended rendering.  One such material is
/// shared by every mesh of the file.
#[derive(Clone, Debug, PartialEq, Eq)]
pub struct MaterialOutput {
    pub width: u32,
    pub base: Vec<Rgba>,
    pub emissive: Option<Vec<Rgba>>,
    pub opaque: bool,
}

/// Parse every property dictionary, keeping order.
pub fn parse_materials(dicts: &Vec<Dict>) -> (out: Vec<MaterialKind>)
    ensures
        out@ == materials_of(dicts@),
        forall|i: int| 0 <= i < out@.len() ==> ((#[trigger] out@[i]) matches
            MaterialKind::Glass { alpha_milli } ==> alpha_milli <= 1000),
        forall|i: int| 0 <= i < out@.len() ==> ((#[trigger] out@[i]) matches
            MaterialKind::Emit { strength_milli } ==> strength_milli <= 10_000_000_000_000),
{
    let mut out: Vec<MaterialKind> = Vec::new();
    let mut i: usize = 0;
    while i < dicts.len()
        invariant
            i <= dicts@.len(),
            out@.len() == i,
            forall|t: int| 0 <= t < i ==> out@[t] == material_spec(dicts@[t]),
            forall|t: int| 0 <= t < i ==> ((#[trigger] out@[t]) matches
                MaterialKind::Glass { alpha_milli } ==> alpha_milli <= 1000),
            forall|t: int| 0 <= t < i ==> ((#[trigger] out@[t]) matches
                MaterialKind::Emit { strength_milli } ==> strength_milli <= 10_000_000_000_000),
        decreases dicts@.len() - i,
    {
        let m = parse_material(&dicts[i]);
        proof {
            assert(m == material_spec(dicts@[i as int]));
            assert(m matches MaterialKind::Glass { alpha_milli } ==> alpha_milli <= 1000);
            assert(m matches MaterialKind::Emit { strength_milli }
                ==> strength_milli <= 10_000_000_000_000);
        }
        out.push(m);
        i = i + 1;
    }
    assert(out@ =~= materials_of(dicts@));
    out
}

/// Synthesize the file's single shared material from the palette and its
/// aligned property records.  Records present but not aligned one to one
/// with the palette are a fatal error that rejects the asset; absent
/// records make every color opaque diffuse.
pub fn synthesize_material(palette: &Vec<Rgba>, materials: &Vec<Dict>) -> (r: Result<
    MaterialOutput,
    VoxError,
>)
    requires
        palette@.len() == 256,
    ensures
        match r {
            Err(e) => e == VoxError::MaterialCountMismatch && materials@.len() != 0
                && materials@.len() != palette@.len(),
            Ok(out) => {
                &&& (materials@.len() == 0 || materials@.len() == palette@.len())
                &&& out.width == spec_tex_width(palette@.len() as nat)
                &&& out.width == 16
                &&& out.base@ == base_texture_spec(
                    palette@, materials_of(materials@), out.width as int,
                )
                &&& out.opaque == !any_glass(materials_of(materials@), palette@.len() as int)
                &&& match out.emissive {
                    Some(em) => any_emit(materials_of(materials@), palette@.len() as int)
                        && em@ == emissive_texture_spec(
                        palette@, materials_of(materials@), out.width as int,
                    ),
                    None => !any_emit(materials_of(materials@), palette@.len() as int),
                }
            },
        },
{
    if materials.len() != 0 && materials.len() != palette.len() {
        return Err(VoxError::MaterialCountMismatch);
    }
    let mats = parse_materials(materials);
    let w = tex_width(palette.len() as u32);
    proof {
        assert(spec_tex_width_from(16, 256) == 16);
        assert(spec_tex_width_from(8, 256) == 16);
        assert(spec_tex_width_from(4, 256) == 16);
        assert(spec_tex_width_from(2, 256) == 16);
        assert(spec_tex_width_from(1, 256) == 16);
        assert(spec_tex_width(256) == 16);
    }
    let n: usize = 256;
    let mut base: Vec<Rgba> = Vec::new();
    let mut t: usize = 0;
    while t < n
        invariant
            t <= n,
            n == 256,
            w == 16,
            palette@.len() == 256,
            mats@ == materials_of(materials@),
            forall|q: int| 0 <= q < mats@.len() ==> ((#[trigger] mats@[q]) matches
                MaterialKind::Glass { alpha_milli } ==> alpha_milli <= 1000),
            base@.len() == t,
            forall|q: int| 0 <= q < t ==> base@[q] == base_texel(palette@, mats@, q),
        decreases n - t,
    {
        let c = palette[t];
        let texel = if t < mats.len() {
            match mats[t] {
                MaterialKind::Glass { alpha_milli } => Rgba {
                    r: c.r,
                    g: c.g,
                    b: c.b,
                    a: ((alpha_milli * 510 + 1000) / 2000) as u8,
                },
                _ => c,
            }
        } else {
            c
        };
        base.push(texel);
        t = t + 1;
    }
    assert(base@ =~= base_texture_spec(palette@, mats@, 16));

    let (opaque, emissive_flag) = get_properties(palette, &mats);
    let emissive: Option<Vec<Rgba>> = if emissive_flag {
        let mut em: Vec<Rgba> = Vec::new();
        let mut t: usize = 0;
        while t < n
            invariant
                t <= n,
                n == 256,
                palette@.len() == 256,
                mats@ == materials_of(materials@),
                forall|q: int| 0 <= q < mats@.len() ==> ((#[trigger] mats@[q]) matches
                    MaterialKind::Emit { strength_milli }
                    ==> strength_milli <= 10_000_000_000_000),
                em@.len() == t,
                forall|q: int| 0 <= q < t ==> em@[q] == emissive_texel(palette@, mats@, q),
            decreases n - t,
        {
            let c = palette[t];
            let texel = if t < mats.len() {
                match mats[t] {
                    MaterialKind::Emit { strength_milli } => {
                        let sr = scale_channel(c.r, strength_milli);
                        let sg = scale_channel(c.g, strength_milli);
                        let sb = scale_channel(c.b, strength_milli);
                        Rgba { r: sr, g: sg, b: sb, a: 255 }
                    },
                    _ => Rgba { r: 0, g: 0, b: 0, a: 0 },
                }
            } else {
                Rgba { r: 0, g: 0, b: 0, a: 0 }
            };
            em.push(texel);
            t = t + 1;
        }
        assert(em@ =~= emissive_texture_spec(palette@, mats@, 16));
        Some(em)
    } else {
        None
    };
    Ok(MaterialOutput { width: w, base, emissive, opaque })
}

/// Scale one color channel by an emissive strength, rounding ties away
/// from zero and clamping to the channel maximum.
fn scale_channel(c: u8, strength_milli: u64) -> (r: u8)
    requires
        strength_milli <= 10_000_000_000_000,
    ensures
        r == emissive_channel(c, strength_milli),
{
    proof {
        assert(2 * (c as int) * (strength_milli as int) <= 2 * 255 * 10_000_000_000_000)
            by (nonlinear_arith)
            requires
                c <= 255,
                strength_milli <= 10_000_000_000_000;
    }
    let v = (2 * (c as u64) * strength_milli + 1000) / 2000;
    if v > 255 {
        255
    } else {
        v as u8
    }
}

} // verus!
