//! The full per-file conversion: decoded models, palette, material
//! records and scene nodes in; meshes, one shared material, and a flat
//! instance list out.
//!
//! The pipeline is a pure function of its inputs: every component of the
//! output is pinned to a specification function of the input values, so
//! two runs over identical input yield identical output.

use vstd::prelude::*;

use crate::dict::Dict;
use crate::geom::{Rgba, VoxError, VoxelCell};
use crate::grid::{build_grid, model_grid_view, spec_voxels_in_bounds, GridView};
use crate::material::{
    any_emit, any_glass, base_texture_spec, emissive_texture_spec, materials_of,
    synthesize_material, MaterialOutput,
};
use crate::mesh::{
    all_quads, colors_spec, indices_spec, mesh_model, meshable, normals_spec, positions_spec,
    uvs_spec, Mesh,
};
use crate::scene::{
    fallback_instances, fallback_spec, resolve_scene, resolve_scene_spec, Instance, ModelSize,
    SceneNode,
};
verus! {

/// One decoded model: its declared size and sparse voxel list.
#[derive(Clone, Debug, PartialEq, Eq)]
pub struct VoxModel {
    pub size: ModelSize,
    pub voxels: Vec<VoxelCell>,
}

/// Everything one file converts to.  Meshes are indexed by model id;
/// `material` is the single material all of them share.
#[derive(Clone, Debug, PartialEq, Eq)]
pub struct VoxOutput {
    pub meshes: Vec<Mesh>,
    pub material: MaterialOutput,
    pub instances: Vec<Instance>,
}

/// The padded buffer contents of one model.
pub open spec fn grid_view_of(m: VoxModel) -> GridView {
    model_grid_view(m.size.x as int, m.size.y as int, m.size.z as int, m.voxels@)
}

/// The model sizes, in model order, for pivot computation.
pub open spec fn sizes_of(models: Seq<VoxModel>) -> Seq<ModelSize> {
    models.map_values(|m: VoxModel| m.size)
}

/// A mesh is exactly the one generated from a buffer: all five flat
/// buffers equal their specifications.
pub open spec fn mesh_matches(m: Mesh, g: GridView, palette: Seq<Rgba>) -> bool {
    &&& m.positions@ == positions_spec(all_quads(g))
    &&& m.normals@ == normals_spec(all_quads(g))
    &&& m.uvs@ == uvs_spec(all_quads(g), 16)
    &&& m.colors@ == colors_spec(all_quads(g), palette)
    &&& m.indices@ == indices_spec(all_quads(g))
}

/// Every voxel of every model lies inside its declared size.
pub open spec fn all_models_in_bounds(models: Seq<VoxModel>) -> bool {
    forall|i: int| 0 <= i < models.len() ==> spec_voxels_in_bounds(
        (#[trigger] models[i]).size.x as int,
        models[i].size.y as int,
        models[i].size.z as int,
        models[i].voxels@,
    )
}

/// The relation `convert` guarantees between its inputs and a successful
/// output: every component equals its specification.  Two outputs
/// standing in this relation to the same inputs are identical.
pub open spec fn convert_ok(
    out: VoxOutput,
    models: Seq<VoxModel>,
    palette: Seq<Rgba>,
    materials: Seq<Dict>,
    scene: Seq<SceneNode>,
) -> bool {
    &&& out.material.width == 16
    &&& out.material.base@ == base_texture_spec(palette, materials_of(materials), 16)
    &&& out.material.opaque == !any_glass(materials_of(materials), palette.len() as int)
    &&& match out.material.emissive {
        Some(em) => any_emit(materials_of(materials), palette.len() as int) && em@
            == emissive_texture_spec(palette, materials_of(materials), 16),
        None => !any_emit(materials_of(materials), palette.len() as int),
    }
    &&& out.meshes@.len() == models.len()
    &&& forall|i: int| 0 <= i < models.len() ==> mesh_matches(
        #[trigger] out.meshes@[i],
        grid_view_of(models[i]),
        palette,
    )
    &&& out.instances@ == if scene.len() == 0 {
        fallback_spec(models.len() as int)
    } else {
        resolve_scene_spec(scene, sizes_of(models))
    }
}

/// Convert one decoded file.
///
/// Fatal conditions reject the whole file: material records present but
/// not aligned one to one with the palette, and a voxel outside its
/// model's declared size.  Everything else is absorbed locally, as the
/// components' specifications state.  When the file carries no scene
/// graph, the output holds one identity-transform instance per model.
pub fn convert(
    models: &Vec<VoxModel>,
    palette: &Vec<Rgba>,
    materials: &Vec<Dict>,
    scene: &Vec<SceneNode>,
) -> (r: Result<VoxOutput, VoxError>)
    requires
        palette@.len() == 256,
        models@.len() <= u32::MAX,
        forall|i: int| 0 <= i < models@.len() ==> ((#[trigger] models@[i]).size.x + 2) * (
        models@[i].size.y + 2) * (models@[i].size.z + 2) <= usize::MAX,
    ensures
        match r {
            Err(VoxError::MaterialCountMismatch) => materials@.len() != 0 && materials@.len()
                != palette@.len(),
            Err(VoxError::VoxelOutOfBounds) => (materials@.len() == 0 || materials@.len()
                == palette@.len()) && !all_models_in_bounds(models@),
            Ok(out) => (materials@.len() == 0 || materials@.len() == palette@.len())
                && all_models_in_bounds(models@) && convert_ok(
                out, models@, palette@, materials@, scene@,
            ),
        },
{
    let material = match synthesize_material(palette, materials) {
        Ok(m) => m,
        Err(e) => {
            return Err(e);
        },
    };
    let mut meshes: Vec<Mesh> = Vec::new();
    let mut sizes: Vec<ModelSize> = Vec::new();
    let mut i: usize = 0;
    while i < models.len()
        invariant
            i <= models@.len(),
            palette@.len() == 256,
            material.width == 16,
            materials@.len() == 0 || materials@.len() == palette@.len(),
            forall|q: int| 0 <= q < models@.len() ==> ((#[trigger] models@[q]).size.x + 2) * (
            models@[q].size.y + 2) * (models@[q].size.z + 2) <= usize::MAX,
            meshes@.len() == i,
            forall|q: int| 0 <= q < i ==> mesh_matches(
                #[trigger] meshes@[q], grid_view_of(models@[q]), palette@,
            ),
            sizes@.len() == i,
            forall|q: int| 0 <= q < i ==> sizes@[q] == models@[q].size,
            forall|q: int| 0 <= q < i ==> spec_voxels_in_bounds(
                (#[trigger] models@[q]).size.x as int,
                models@[q].size.y as int,
                models@[q].size.z as int,
                models@[q].voxels@,
            ),
        decreases models@.len() - i,
    {
        let m = &models[i];
        let g = match build_grid(m.size.x, m.size.y, m.size.z, &m.voxels) {
            Ok(g) => g,
            Err(e) => {
                return Err(e);
            },
        };
        proof {
            let sx = m.size.x as int;
            let sy = m.size.y as int;
            let sz = m.size.z as int;
            assert((sx + 2) * (sz + 2) * (sy + 2) == (sx + 2) * (sy + 2) * (sz + 2))
                by (nonlinear_arith);
            assert(g@.dx * g@.dy * g@.dz <= usize::MAX);
            assert(g@.dx < usize::MAX && g@.dy < usize::MAX && g@.dz < usize::MAX)
                by (nonlinear_arith)
                requires
                    g@.dx >= 2,
                    g@.dy >= 2,
                    g@.dz >= 2,
                    g@.dx * g@.dy * g@.dz <= usize::MAX;
            assert(meshable(g@));
        }
        let mesh = mesh_model(&g, palette, material.width);
        meshes.push(mesh);
        sizes.push(m.size);
        i = i + 1;
    }
    let instances = if scene.len() == 0 {
        fallback_instances(models.len())
    } else {
        assert(sizes@ =~= sizes_of(models@));
        resolve_scene(scene, &sizes)
    };
    Ok(VoxOutput { meshes, material, instances })
}

/// The pipeline is deterministic: any two outputs that `convert`
/// guarantees for the same inputs are identical, component by component
/// — running the conversion twice on identical input yields bit-identical
/// meshes, material and instances.
pub proof fn lemma_pipeline_deterministic(
    o1: VoxOutput,
    o2: VoxOutput,
    models: Seq<VoxModel>,
    palette: Seq<Rgba>,
    materials: Seq<Dict>,
    scene: Seq<SceneNode>,
)
    requires
        convert_ok(o1, models, palette, materials, scene),
        convert_ok(o2, models, palette, materials, scene),
    ensures
        o1.material.width == o2.material.width,
        o1.material.base@ == o2.material.base@,
        o1.material.opaque == o2.material.opaque,
        o1.material.emissive is Some <==> o2.material.emissive is Some,
        o1.material.emissive matches Some(e1) ==> o2.material.emissive matches Some(e2) && e1@
            == e2@,
        o1.meshes@.len() == o2.meshes@.len(),
        forall|i: int| 0 <= i < o1.meshes@.len() ==> (#[trigger] o1.meshes@[i]).positions@
            == o2.meshes@[i].positions@ && o1.meshes@[i].normals@ == o2.meshes@[i].normals@
            && o1.meshes@[i].uvs@ == o2.meshes@[i].uvs@ && o1.meshes@[i].colors@
            == o2.meshes@[i].colors@ && o1.meshes@[i].indices@ == o2.meshes@[i].indices@,
        o1.instances@ == o2.instances@,
{
}

} // verus!
