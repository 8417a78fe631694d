//! The whole conversion: determinism, fallback, and fatal errors.

use vox_mesh::dict::{Attr, Dict};
use vox_mesh::geom::{Rgba, VoxError, VoxelCell};
use vox_mesh::pipeline::{convert, VoxModel};
use vox_mesh::scene::{ModelSize, SceneNode};

fn dict(pairs: &[(&str, &str)]) -> Dict {
    Dict {
        entries: pairs
            .iter()
            .map(|(k, v)| Attr { key: (*k).to_owned(), value: (*v).to_owned() })
            .collect(),
    }
}

fn test_palette() -> Vec<Rgba> {
    let mut p = vec![Rgba { r: 0, g: 0, b: 0, a: 255 }; 256];
    p[1] = Rgba { r: 200, g: 10, b: 10, a: 255 };
    p[2] = Rgba { r: 10, g: 200, b: 10, a: 255 };
    p
}

fn test_models() -> Vec<VoxModel> {
    vec![
        VoxModel {
            size: ModelSize { x: 1, y: 1, z: 1 },
            voxels: vec![VoxelCell { x: 0, y: 0, z: 0, index: 1 }],
        },
        VoxModel {
            size: ModelSize { x: 2, y: 1, z: 1 },
            voxels: vec![
                VoxelCell { x: 0, y: 0, z: 0, index: 1 },
                VoxelCell { x: 1, y: 0, z: 0, index: 2 },
            ],
        },
    ]
}

fn test_scene() -> Vec<SceneNode> {
    vec![
        SceneNode::Group { children: vec![1, 3] },
        SceneNode::Transform { frames: vec![dict(&[("_t", "1 2 3"), ("_r", "17")])], child: 2 },
        SceneNode::Shape { models: vec![0] },
        SceneNode::Shape { models: vec![1] },
    ]
}

fn test_materials() -> Vec<Dict> {
    let mut mats: Vec<Dict> = (0..256).map(|_| dict(&[])).collect();
    mats[1] = dict(&[("_type", "_glass"), ("_alpha", "0.5")]);
    mats[2] = dict(&[("_type", "_emit"), ("_emit", "1.0")]);
    mats
}

#[test]
fn pipeline_idempotence() {
    // Running the full pipeline twice on identical input yields
    // bit-identical meshes, material and instances.
    let models = test_models();
    let palette = test_palette();
    let materials = test_materials();
    let scene = test_scene();
    let a = convert(&models, &palette, &materials, &scene).unwrap();
    let b = convert(&models, &palette, &materials, &scene).unwrap();
    assert_eq!(a, b);
}

#[test]
fn pipeline_produces_all_components() {
    let models = test_models();
    let palette = test_palette();
    let materials = test_materials();
    let scene = test_scene();
    let out = convert(&models, &palette, &materials, &scene).unwrap();
    assert_eq!(out.meshes.len(), 2);
    assert!(!out.material.opaque);
    assert!(out.material.emissive.is_some());
    assert_eq!(out.instances.len(), 2);
    // The single-voxel model: six quads.
    assert_eq!(out.meshes[0].positions.len(), 24);
    // The two-material row: ten quads.
    assert_eq!(out.meshes[1].positions.len(), 40);
}

#[test]
fn pipeline_fallback_without_scene() {
    let models = test_models();
    let palette = test_palette();
    let out = convert(&models, &palette, &Vec::new(), &Vec::new()).unwrap();
    assert_eq!(out.instances.len(), 2);
    assert_eq!(out.instances[0].mesh_id, 0);
    assert_eq!(out.instances[1].mesh_id, 1);
    assert_eq!(
        (out.instances[0].tx, out.instances[0].ty, out.instances[0].tz),
        (0, 0, 0),
    );
    assert!(out.material.opaque);
    assert!(out.material.emissive.is_none());
}

#[test]
fn pipeline_rejects_material_count_mismatch() {
    let models = test_models();
    let palette = test_palette();
    let mats = vec![dict(&[]), dict(&[])];
    let r = convert(&models, &palette, &mats, &Vec::new());
    assert_eq!(r.unwrap_err(), VoxError::MaterialCountMismatch);
}

#[test]
fn pipeline_rejects_out_of_bounds_voxel() {
    let mut models = test_models();
    models[1].voxels.push(VoxelCell { x: 5, y: 0, z: 0, index: 1 });
    let palette = test_palette();
    let r = convert(&models, &palette, &Vec::new(), &Vec::new());
    assert_eq!(r.unwrap_err(), VoxError::VoxelOutOfBounds);
}

#[test]
fn pipeline_dangling_scene_reference_tolerated() {
    let models = test_models();
    let palette = test_palette();
    let with_dangling = vec![
        SceneNode::Group { children: vec![99, 1] },
        SceneNode::Shape { models: vec![0] },
    ];
    let without = vec![
        SceneNode::Group { children: vec![1] },
        SceneNode::Shape { models: vec![0] },
    ];
    let a = convert(&models, &palette, &Vec::new(), &with_dangling).unwrap();
    let b = convert(&models, &palette, &Vec::new(), &without).unwrap();
    assert_eq!(a.instances, b.instances);
    assert_eq!(a.instances.len(), 1);
}
