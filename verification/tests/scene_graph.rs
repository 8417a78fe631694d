//! Scene resolution: packed-rotation decoding, transform attributes,
//! pivots, and dangling-reference tolerance.

use vox_mesh::dict::{Attr, Dict};
use vox_mesh::numeric::{parse_decimal_milli, parse_u32_attr};
use vox_mesh::rotation::{decode_rotation, Rot};
use vox_mesh::scene::{
    extract_rotation, extract_translation, fallback_instances, resolve_scene, ModelSize,
    SceneNode,
};

fn dict(pairs: &[(&str, &str)]) -> Dict {
    Dict {
        entries: pairs
            .iter()
            .map(|(k, v)| Attr { key: (*k).to_owned(), value: (*v).to_owned() })
            .collect(),
    }
}

fn identity() -> Rot {
    Rot { a0: 0, a1: 1, a2: 2, n0: false, n1: false, n2: false }
}

#[test]
fn rotation_decode_table() {
    // The reference encoding: bits 0-1 and 2-3 pick the source axes of
    // matrix rows 0 and 1, bits 4-6 negate rows 0-2; the result is then
    // conjugated into target coordinates (X negated, Y/Z swapped).
    // Expected values are signed permutations computed by hand from that
    // rule.
    assert_eq!(decode_rotation(0b0000100), identity());
    // 90 degrees about the source's vertical axis becomes 90 degrees
    // about the target's vertical axis.
    assert_eq!(
        decode_rotation(0b0010001),
        Rot { a0: 2, a1: 1, a2: 0, n0: false, n1: false, n2: true },
    );
    // A 3-cycle of the axes.
    assert_eq!(
        decode_rotation(0b0000010),
        Rot { a0: 1, a1: 2, a2: 0, n0: true, n1: false, n2: true },
    );
    // Sign bits flip rows: a half turn about the source X axis keeps
    // the axes and negates the two others after the remap.
    assert_eq!(
        decode_rotation(0b1100100),
        Rot { a0: 0, a1: 1, a2: 2, n0: false, n1: true, n2: true },
    );
}

#[test]
fn rotation_decode_rejects_malformed_packings() {
    // Two rows reading the same axis is not a permutation: identity.
    assert_eq!(decode_rotation(0b0000000), identity());
    // An axis index of 3 is out of range: identity.
    assert_eq!(decode_rotation(0b0000011), identity());
}

#[test]
fn translation_attribute_decoding() {
    let frames = vec![dict(&[("_t", "1 2 3")])];
    // (x, y, z) maps to (-x, z, y), in milli-units.
    assert_eq!(extract_translation(&frames), Some((-1000, 3000, 2000)));

    let frames = vec![dict(&[("_t", "-4.5 0 12")])];
    assert_eq!(extract_translation(&frames), Some((4500, 12000, 0)));

    assert_eq!(extract_translation(&vec![dict(&[])]), None);
    assert_eq!(extract_translation(&vec![dict(&[("_t", "1 2")])]), None);
    assert_eq!(extract_translation(&vec![dict(&[("_t", "1 2 3 4")])]), None);
    assert_eq!(extract_translation(&vec![dict(&[("_t", "a 2 3")])]), None);
    assert_eq!(extract_translation(&Vec::new()), None);
}

#[test]
fn rotation_attribute_decoding() {
    let frames = vec![dict(&[("_r", "4")])];
    assert_eq!(extract_rotation(&frames), Some(identity()));
    assert_eq!(extract_rotation(&vec![dict(&[])]), None);
    assert_eq!(extract_rotation(&vec![dict(&[("_r", "-1")])]), None);
    assert_eq!(extract_rotation(&vec![dict(&[("_r", "4.2")])]), None);
}

#[test]
fn decimal_parsing_exact() {
    assert_eq!(parse_decimal_milli("0.5"), Some(500));
    assert_eq!(parse_decimal_milli("-1.25"), Some(-1250));
    assert_eq!(parse_decimal_milli("2.0"), Some(2000));
    assert_eq!(parse_decimal_milli("17"), Some(17000));
    // Ties round away from zero at the thousandths.
    assert_eq!(parse_decimal_milli("0.0005"), Some(1));
    assert_eq!(parse_decimal_milli(""), None);
    assert_eq!(parse_decimal_milli("1e5"), None);
    assert_eq!(parse_decimal_milli("."), None);
    assert_eq!(parse_u32_attr("123"), Some(123));
    assert_eq!(parse_u32_attr("4294967295"), Some(u32::MAX));
    assert_eq!(parse_u32_attr("4294967296"), None);
    assert_eq!(parse_u32_attr("-1"), None);
}

#[test]
fn shape_instance_pivot_and_translation() {
    // Transform node with a translation above a single-model shape.
    let nodes = vec![
        SceneNode::Transform { frames: vec![dict(&[("_t", "3 5 7")])], child: 1 },
        SceneNode::Shape { models: vec![0] },
    ];
    let sizes = vec![ModelSize { x: 1, y: 1, z: 1 }];
    let out = resolve_scene(&nodes, &sizes);
    assert_eq!(out.len(), 1);
    let inst = out[0];
    assert_eq!(inst.mesh_id, 0);
    assert_eq!(inst.material_id, 0);
    assert_eq!(inst.rot, identity());
    // Pivot of a unit model is (-1, 1, 1) after the border correction
    // and X negation; the instance sits at -pivot plus the remapped
    // translation (-3, 7, 5).
    assert_eq!((inst.tx, inst.ty, inst.tz), (1 - 3, -1 + 7, -1 + 5));
}

#[test]
fn shape_instance_identity_transform() {
    let nodes = vec![SceneNode::Shape { models: vec![0] }];
    let sizes = vec![ModelSize { x: 1, y: 1, z: 1 }];
    let out = resolve_scene(&nodes, &sizes);
    assert_eq!(out.len(), 1);
    assert_eq!((out[0].tx, out[0].ty, out[0].tz), (1, -1, -1));
}

#[test]
fn dangling_reference_safety() {
    // A group whose children include an out-of-range index yields the
    // same instance list as the group without it, and never fails.
    let with_dangling = vec![
        SceneNode::Group { children: vec![7, 1] },
        SceneNode::Shape { models: vec![0] },
    ];
    let without = vec![
        SceneNode::Group { children: vec![1] },
        SceneNode::Shape { models: vec![0] },
    ];
    let sizes = vec![ModelSize { x: 2, y: 3, z: 4 }];
    let a = resolve_scene(&with_dangling, &sizes);
    let b = resolve_scene(&without, &sizes);
    assert_eq!(a, b);
    assert_eq!(a.len(), 1);
}

#[test]
fn dangling_model_reference_skipped() {
    let nodes = vec![SceneNode::Shape { models: vec![9, 0] }];
    let sizes = vec![ModelSize { x: 1, y: 1, z: 1 }];
    let out = resolve_scene(&nodes, &sizes);
    assert_eq!(out.len(), 1);
    assert_eq!(out[0].mesh_id, 0);
}

#[test]
fn cyclic_scene_terminates() {
    // Two transform nodes referencing each other: the depth guard makes
    // the walk finite and empty of instances.
    let nodes = vec![
        SceneNode::Transform { frames: vec![dict(&[])], child: 1 },
        SceneNode::Transform { frames: vec![dict(&[])], child: 0 },
    ];
    let sizes: Vec<ModelSize> = Vec::new();
    let out = resolve_scene(&nodes, &sizes);
    assert_eq!(out.len(), 0);
}

#[test]
fn empty_scene_no_instances() {
    let nodes: Vec<SceneNode> = Vec::new();
    let sizes = vec![ModelSize { x: 1, y: 1, z: 1 }];
    assert_eq!(resolve_scene(&nodes, &sizes).len(), 0);
}

#[test]
fn fallback_one_instance_per_model() {
    let out = fallback_instances(2);
    assert_eq!(out.len(), 2);
    assert_eq!(out[0].mesh_id, 0);
    assert_eq!(out[1].mesh_id, 1);
    for inst in &out {
        assert_eq!((inst.tx, inst.ty, inst.tz), (0, 0, 0));
        assert_eq!(inst.rot, identity());
    }
}

#[test]
fn rotation_applies_to_pivot() {
    // 90 degrees about the target's vertical axis carries the pivot
    // offset along.
    let nodes = vec![
        SceneNode::Transform { frames: vec![dict(&[("_r", "17")])], child: 1 },
        SceneNode::Shape { models: vec![0] },
    ];
    let sizes = vec![ModelSize { x: 1, y: 1, z: 1 }];
    let out = resolve_scene(&nodes, &sizes);
    assert_eq!(out.len(), 1);
    let rot = decode_rotation(17);
    assert_eq!(out[0].rot, rot);
    // -pivot = (1, -1, -1); row r of the rotation reads component
    // axis(r) with its sign: rows (z, y, -x) give (-1, -1, -1).
    assert_eq!((out[0].tx, out[0].ty, out[0].tz), (-1, -1, -1));
}
