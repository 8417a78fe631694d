//! Material synthesis: opacity derivation, emissive gating, texture
//! texels, and the fatal count check.

use vox_mesh::dict::{Attr, Dict};
use vox_mesh::geom::{Rgba, VoxError};
use vox_mesh::material::{parse_material, synthesize_material, MaterialKind};
use vox_mesh::tex_width;

fn dict(pairs: &[(&str, &str)]) -> Dict {
    Dict {
        entries: pairs
            .iter()
            .map(|(k, v)| Attr { key: (*k).to_owned(), value: (*v).to_owned() })
            .collect(),
    }
}

fn empty_dicts(n: usize) -> Vec<Dict> {
    (0..n).map(|_| dict(&[])).collect()
}

fn palette_with(entries: &[(usize, Rgba)]) -> Vec<Rgba> {
    let mut p = vec![Rgba { r: 0, g: 0, b: 0, a: 255 }; 256];
    for (i, c) in entries {
        p[*i] = *c;
    }
    p
}

#[test]
fn opacity_derivation_glass_then_diffuse() {
    let palette = palette_with(&[
        (0, Rgba { r: 1, g: 2, b: 3, a: 255 }),
        (1, Rgba { r: 4, g: 5, b: 6, a: 255 }),
    ]);
    let mut mats = empty_dicts(256);
    mats[0] = dict(&[("_type", "_glass"), ("_alpha", "0.5")]);
    let out = synthesize_material(&palette, &mats).unwrap();
    assert!(!out.opaque);
    assert_eq!(out.width, 16);
    assert_eq!(out.base.len(), 256);
    // round(0.5 * 255) with ties away from zero.
    assert_eq!(out.base[0], Rgba { r: 1, g: 2, b: 3, a: 128 });
    assert_eq!(out.base[1], Rgba { r: 4, g: 5, b: 6, a: 255 });
}

#[test]
fn opacity_derivation_absent_materials() {
    let palette = palette_with(&[]);
    let none: Vec<Dict> = Vec::new();
    let out = synthesize_material(&palette, &none).unwrap();
    assert!(out.opaque);
    assert!(out.emissive.is_none());
}

#[test]
fn glass_without_alpha_stays_opaque() {
    let palette = palette_with(&[]);
    let mut mats = empty_dicts(256);
    mats[0] = dict(&[("_type", "_glass")]);
    mats[1] = dict(&[("_type", "_glass"), ("_alpha", "nonsense")]);
    let out = synthesize_material(&palette, &mats).unwrap();
    assert!(out.opaque);
}

#[test]
fn emissive_gating_and_clamping() {
    let palette = palette_with(&[
        (0, Rgba { r: 255, g: 0, b: 0, a: 255 }),
        (1, Rgba { r: 0, g: 255, b: 0, a: 255 }),
    ]);
    let mut mats = empty_dicts(256);
    mats[0] = dict(&[("_type", "_emit"), ("_emit", "2.0")]);
    let out = synthesize_material(&palette, &mats).unwrap();
    let em = out.emissive.expect("one emissive record must produce a texture");
    // 255 * 2 clamps to the channel maximum; emissive texels are opaque.
    assert_eq!(em[0], Rgba { r: 255, g: 0, b: 0, a: 255 });
    // Non-emissive records yield transparent black.
    assert_eq!(em[1], Rgba { r: 0, g: 0, b: 0, a: 0 });
    assert_eq!(em.len(), 256);
}

#[test]
fn no_emissive_texture_when_all_diffuse() {
    let palette = palette_with(&[]);
    let mats = empty_dicts(256);
    let out = synthesize_material(&palette, &mats).unwrap();
    assert!(out.emissive.is_none());
}

#[test]
fn emissive_scaling_exact() {
    let palette = palette_with(&[(3, Rgba { r: 100, g: 40, b: 7, a: 255 })]);
    let mut mats = empty_dicts(256);
    mats[3] = dict(&[("_type", "_emit"), ("_emit", "0.5")]);
    let out = synthesize_material(&palette, &mats).unwrap();
    let em = out.emissive.unwrap();
    // round(c * 0.5) with ties away from zero: 50, 20, round(3.5) = 4.
    assert_eq!(em[3], Rgba { r: 50, g: 20, b: 4, a: 255 });
}

#[test]
fn material_count_mismatch_is_fatal() {
    let palette = palette_with(&[]);
    let mats = empty_dicts(3);
    let r = synthesize_material(&palette, &mats);
    assert_eq!(r.unwrap_err(), VoxError::MaterialCountMismatch);
}

#[test]
fn unknown_material_types_are_diffuse() {
    assert_eq!(parse_material(&dict(&[])), MaterialKind::Diffuse);
    assert_eq!(parse_material(&dict(&[("_type", "_metal")])), MaterialKind::Diffuse);
    assert_eq!(
        parse_material(&dict(&[("_type", "_glass"), ("_alpha", "0.25")])),
        MaterialKind::Glass { alpha_milli: 250 },
    );
    assert_eq!(
        parse_material(&dict(&[("_type", "_emit"), ("_emit", "1.5")])),
        MaterialKind::Emit { strength_milli: 1500 },
    );
    // Out-of-range alphas clamp to the unit range.
    assert_eq!(
        parse_material(&dict(&[("_type", "_glass"), ("_alpha", "7")])),
        MaterialKind::Glass { alpha_milli: 1000 },
    );
}

#[test]
fn texture_width_is_smallest_square_power_of_two() {
    assert_eq!(tex_width(256), 16);
    assert_eq!(tex_width(257), 32);
    assert_eq!(tex_width(10), 4);
    assert_eq!(tex_width(1), 1);
    assert_eq!(tex_width(0), 1);
    assert_eq!(tex_width(2), 2);
}
