//! Scene-graph resolution: walking the node tree, decoding packed
//! transforms, and emitting positioned mesh instances.
//!
//! The walk is depth-first and pre-order, composing transforms
//! multiplicatively on the way down.  A dangling child or model index
//! contributes nothing and never aborts the walk.  A fuel counter equal
//! to the node count bounds the depth: an acyclic graph is never
//! truncated (no simple path visits more nodes than exist), while a
//! cyclic one yields a defined, finite result instead of unbounded
//! recursion.  Translations are exact milli-units; only the first frame
//! of a transform node is consulted.

use vstd::prelude::*;

use crate::dict::{lookup, lookup_attr, Dict};
use vstd::string::StrSliceExecFns;
use crate::numeric::{parse_decimal_spec, parse_decimal_milli, parse_u32_spec, parse_u32_attr};
use crate::rotation::{
    compose, compose_spec, decode_rotation, decode_spec, lemma_compose, rot_comp, rotate_point,
    Rot,
};

verus! {

/// A decoded model's declared size, in source axes.
#[derive(Clone, Copy, Debug, PartialEq, Eq, Structural)]
pub struct ModelSize {
    pub x: u32,
    pub y: u32,
    pub z: u32,
}

/// One node of the flat scene-node array; node 0 is the root.
#[derive(Clone, Debug, PartialEq, Eq)]
pub enum SceneNode {
    /// Carries per-frame attribute dictionaries and one child; only the
    /// first frame is honored.
    Transform { frames: Vec<Dict>, child: u32 },
    /// Pure structural grouping: fans out to all children unchanged.
    Group { children: Vec<u32> },
    /// A leaf instantiating the meshes of the referenced models.
    Shape { models: Vec<u32> },
}

/// An accumulated transform: a target-space rotation and a translation
/// in exact milli-units.
#[derive(Clone, Copy, Debug, PartialEq, Eq, Structural)]
pub struct Pose {
    pub rot: Rot,
    pub tx: i128,
    pub ty: i128,
    pub tz: i128,
}

impl Pose {
    pub open spec fn spec_identity() -> Pose {
        Pose { rot: Rot::spec_identity(), tx: 0, ty: 0, tz: 0 }
    }
}

/// One positioned mesh instance: the translation is in whole voxel
/// units (milli-units floored), the rotation a target-space signed
/// permutation, and `material_id` indexes the pipeline's material list,
/// which holds the single material shared by the whole file.  Packed
/// transforms carry no scale, so instances inherit the identity scale.
#[derive(Clone, Copy, Debug, PartialEq, Eq, Structural)]
pub struct Instance {
    pub mesh_id: u32,
    pub material_id: u32,
    pub tx: i128,
    pub ty: i128,
    pub tz: i128,
    pub rot: Rot,
}

/// Space positions splitting a translation attribute into exactly three
/// tokens.
pub open spec fn find_space(s: Seq<char>, from: int) -> Option<int>
    decreases s.len() - from when 0 <= from
{
    if from >= s.len() {
        None
    } else if s[from] == ' ' {
        Some(from)
    } else {
        find_space(s, from + 1)
    }
}

/// The translation a frame dictionary declares: exactly three
/// space-separated decimal numbers `(x, y, z)`, remapped to target axes
/// as `(-x, z, y)`, in milli-units.  `None` when absent or malformed.
pub open spec fn translation_spec(frames: Seq<Dict>) -> Option<(i64, i64, i64)> {
    if frames.len() == 0 {
        None
    } else {
        match lookup(frames[0].entries@, "_t"@) {
            None => None,
            Some(s) => match find_space(s, 0) {
                None => None,
                Some(p1) => match find_space(s, p1 + 1) {
                    None => None,
                    Some(p2) => if find_space(s, p2 + 1) is Some {
                        None
                    } else {
                        let x = parse_decimal_spec(s.subrange(0, p1));
                        let y = parse_decimal_spec(s.subrange(p1 + 1, p2));
                        let z = parse_decimal_spec(s.subrange(p2 + 1, s.len() as int));
                        if x is Some && y is Some && z is Some {
                            Some(
                                (
                                    (-(x->Some_0 as int)) as i64,
                                    z->Some_0,
                                    y->Some_0,
                                ),
                            )
                        } else {
                            None
                        }
                    },
                },
            },
        }
    }
}

/// The rotation a frame dictionary declares: one packed unsigned
/// integer, decoded to a target-space rotation.  `None` when absent or
/// malformed.
pub open spec fn rotation_spec(frames: Seq<Dict>) -> Option<Rot> {
    if frames.len() == 0 {
        None
    } else {
        match lookup(frames[0].entries@, "_r"@) {
            None => None,
            Some(s) => match parse_u32_spec(s) {
                None => None,
                Some(p) => Some(decode_spec(p)),
            },
        }
    }
}

/// Find the first space at or after `from`.
fn scan_space(s: &str, from: usize) -> (r: Option<usize>)
    requires
        from <= s@.len(),
    ensures
        match r {
            Some(p) => find_space(s@, from as int) == Some(p as int) && from <= p < s@.len(),
            None => find_space(s@, from as int) is None,
        },
{
    let len = s.unicode_len();
    let mut t: usize = from;
    let mut space: Option<usize> = None;
    loop
        invariant_except_break
            space is None,
        invariant
            from <= t <= len,
            len == s@.len(),
            find_space(s@, from as int) == find_space(s@, t as int),
        ensures
            match space {
                Some(p) => find_space(s@, from as int) == Some(p as int) && from <= p < len,
                None => find_space(s@, from as int) is None,
            },
        decreases len - t,
    {
        if t >= len {
            break;
        }
        if s.get_char(t) == ' ' {
            space = Some(t);
            break;
        }
        t = t + 1;
    }
    space
}

/// Decode the translation of a transform node's first frame.
pub fn extract_translation(frames: &Vec<Dict>) -> (r: Option<(i64, i64, i64)>)
    ensures
        r == translation_spec(frames@),
        r matches Some(t) ==> -10_000_000_000_000 <= t.0 <= 10_000_000_000_000
            && -10_000_000_000_000 <= t.1 <= 10_000_000_000_000
            && -10_000_000_000_000 <= t.2 <= 10_000_000_000_000,
{
    if frames.len() == 0 {
        return None;
    }
    let s = match lookup_attr(&frames[0], "_t") {
        Some(s) => s,
        None => {
            return None;
        },
    };
    let sref = s.as_str();
    let len = sref.unicode_len();
    let p1 = match scan_space(sref, 0) {
        Some(p) => p,
        None => {
            return None;
        },
    };
    let p2 = match scan_space(sref, p1 + 1) {
        Some(p) => p,
        None => {
            return None;
        },
    };
    if scan_space(sref, p2 + 1).is_some() {
        return None;
    }
    let t1 = sref.substring_char(0, p1);
    let t2 = sref.substring_char(p1 + 1, p2);
    let t3 = sref.substring_char(p2 + 1, len);
    let x = match parse_decimal_milli(t1) {
        Some(v) => v,
        None => {
            return None;
        },
    };
    let y = match parse_decimal_milli(t2) {
        Some(v) => v,
        None => {
            return None;
        },
    };
    let z = match parse_decimal_milli(t3) {
        Some(v) => v,
        None => {
            return None;
        },
    };
    Some((-x, z, y))
}

/// Decode the rotation of a transform node's first frame.
pub fn extract_rotation(frames: &Vec<Dict>) -> (r: Option<Rot>)
    ensures
        r == rotation_spec(frames@),
        r matches Some(q) ==> q.wf(),
{
    if frames.len() == 0 {
        return None;
    }
    let s = match lookup_attr(&frames[0], "_r") {
        Some(s) => s,
        None => {
            return None;
        },
    };
    let packed = match parse_u32_attr(s.as_str()) {
        Some(p) => p,
        None => {
            return None;
        },
    };
    Some(decode_rotation(packed))
}

/// The local transform of a transform node's first frame: missing or
/// malformed attributes yield the identity component.
pub open spec fn local_pose(frames: Seq<Dict>) -> Pose {
    let rot = match rotation_spec(frames) {
        Some(r) => r,
        None => Rot::spec_identity(),
    };
    match translation_spec(frames) {
        Some(t) => Pose { rot, tx: t.0 as i128, ty: t.1 as i128, tz: t.2 as i128 },
        None => Pose { rot, tx: 0, ty: 0, tz: 0 },
    }
}

/// Composition `parent * local`: rotations compose, the local
/// translation is rotated into the parent frame and offset.
pub open spec fn compose_pose(p: Pose, l: Pose) -> Pose {
    Pose {
        rot: compose_spec(p.rot, l.rot),
        tx: (rot_comp(p.rot, 0, l.tx as int, l.ty as int, l.tz as int) + p.tx) as i128,
        ty: (rot_comp(p.rot, 1, l.tx as int, l.ty as int, l.tz as int) + p.ty) as i128,
        tz: (rot_comp(p.rot, 2, l.tx as int, l.ty as int, l.tz as int) + p.tz) as i128,
    }
}

/// The instance a shape leaf emits for one model: the model's pivot
/// (size remapped to target axes, halved, with the one-cell grid border
/// correction, X negated) is carried through the accumulated transform
/// and floored to whole units.
pub open spec fn instance_of(sz: ModelSize, id: u32, p: Pose) -> Instance {
    let mpx = (sz.x as int / 2 + 1) * 1000;
    let mpy = (-(sz.z as int / 2 + 1)) * 1000;
    let mpz = (-(sz.y as int / 2 + 1)) * 1000;
    Instance {
        mesh_id: id,
        material_id: 0,
        tx: (((rot_comp(p.rot, 0, mpx, mpy, mpz) + p.tx) as i128) as int / 1000) as i128,
        ty: (((rot_comp(p.rot, 1, mpx, mpy, mpz) + p.ty) as i128) as int / 1000) as i128,
        tz: (((rot_comp(p.rot, 2, mpx, mpy, mpz) + p.tz) as i128) as int / 1000) as i128,
        rot: p.rot,
    }
}

/// The instances of a shape leaf's first `upto` model references, in
/// order; a reference with no model of that index is skipped.
pub open spec fn shape_instances(
    models: Seq<u32>,
    sizes: Seq<ModelSize>,
    p: Pose,
    upto: int,
) -> Seq<Instance>
    decreases upto
{
    if upto <= 0 {
        Seq::empty()
    } else {
        shape_instances(models, sizes, p, upto - 1) + {
            let id = models[upto - 1];
            if id < sizes.len() {
                seq![instance_of(sizes[id as int], id, p)]
            } else {
                Seq::empty()
            }
        }
    }
}

/// The instances a walk from node `idx` emits with accumulated pose `p`
/// and `fuel` levels of depth left.  An out-of-range node index or
/// exhausted fuel contributes nothing.
pub open spec fn resolve_node(
    nodes: Seq<SceneNode>,
    sizes: Seq<ModelSize>,
    idx: int,
    p: Pose,
    fuel: nat,
) -> Seq<Instance>
    decreases fuel, 0int
{
    if fuel == 0 || !(0 <= idx < nodes.len()) {
        Seq::empty()
    } else {
        match nodes[idx] {
            SceneNode::Transform { frames, child } => resolve_node(
                nodes,
                sizes,
                child as int,
                compose_pose(p, local_pose(frames@)),
                (fuel - 1) as nat,
            ),
            SceneNode::Group { children } => resolve_children(
                nodes,
                sizes,
                children@,
                p,
                (fuel - 1) as nat,
                children@.len() as int,
            ),
            SceneNode::Shape { models } => shape_instances(models@, sizes, p, models@.len() as int),
        }
    }
}

/// The instances of a group's first `upto` children, in order.
pub open spec fn resolve_children(
    nodes: Seq<SceneNode>,
    sizes: Seq<ModelSize>,
    cs: Seq<u32>,
    p: Pose,
    fuel: nat,
    upto: int,
) -> Seq<Instance>
    decreases fuel, 1int + upto
{
    if upto <= 0 {
        Seq::empty()
    } else {
        resolve_children(nodes, sizes, cs, p, fuel, upto - 1) + resolve_node(
            nodes,
            sizes,
            cs[upto - 1] as int,
            p,
            fuel,
        )
    }
}

/// The full instance list of a scene: a pre-order walk from node 0 with
/// the identity transform.  An empty node array yields no instances.
pub open spec fn resolve_scene_spec(nodes: Seq<SceneNode>, sizes: Seq<ModelSize>) -> Seq<
    Instance,
> {
    if nodes.len() == 0 {
        Seq::empty()
    } else {
        resolve_node(nodes, sizes, 0, Pose::spec_identity(), nodes.len())
    }
}


/// Depth-budgeted translation bound: a pose that has composed `used`
/// local transforms stays within `used` steps of the origin.  Each local
/// translation and each pivot offset is below one step, so the walk
/// never overflows its exact integers.
pub open spec fn pose_bounded(p: Pose, used: int) -> bool {
    &&& -(used * 0x1_0000_0000_0000) <= p.tx <= used * 0x1_0000_0000_0000
    &&& -(used * 0x1_0000_0000_0000) <= p.ty <= used * 0x1_0000_0000_0000
    &&& -(used * 0x1_0000_0000_0000) <= p.tz <= used * 0x1_0000_0000_0000
}

/// The identity pose.
pub fn pose_identity() -> (p: Pose)
    ensures
        p == Pose::spec_identity(),
        p.rot.wf(),
{
    Pose { rot: crate::rotation::Rot::identity(), tx: 0, ty: 0, tz: 0 }
}

/// Milli-units floored to whole units.
fn floor_div_1000(a: i128) -> (q: i128)
    requires
        -0x4000_0000_0000_0000_0000_0000_0000_0000 < a
            < 0x4000_0000_0000_0000_0000_0000_0000_0000,
    ensures
        q == a as int / 1000,
{
    if a >= 0 {
        let q = a / 1000;
        assert(q == a as int / 1000);
        q
    } else {
        let m = -a;
        let q = (m + 999) / 1000;
        proof {
            vstd::arithmetic::div_mod::lemma_fundamental_div_mod(m as int + 999, 1000);
            vstd::arithmetic::div_mod::lemma_fundamental_div_mod(a as int, 1000);
        }
        -q
    }
}

/// Emit the instance of one resolved model reference.
fn emit_instance(sz: &ModelSize, id: u32, p: &Pose) -> (r: Instance)
    requires
        p.rot.wf(),
        -0x1_0000_0000_0000_0000_0000_0000_0000 <= p.tx
            <= 0x1_0000_0000_0000_0000_0000_0000_0000,
        -0x1_0000_0000_0000_0000_0000_0000_0000 <= p.ty
            <= 0x1_0000_0000_0000_0000_0000_0000_0000,
        -0x1_0000_0000_0000_0000_0000_0000_0000 <= p.tz
            <= 0x1_0000_0000_0000_0000_0000_0000_0000,
    ensures
        r == instance_of(*sz, id, *p),
{
    let mpx: i128 = ((sz.x / 2) as i128 + 1) * 1000;
    let mpy: i128 = -(((sz.z / 2) as i128 + 1) * 1000);
    let mpz: i128 = -(((sz.y / 2) as i128 + 1) * 1000);
    let (rx, ry, rz) = rotate_point(&p.rot, mpx, mpy, mpz);
    let tx = floor_div_1000(rx + p.tx);
    let ty = floor_div_1000(ry + p.ty);
    let tz = floor_div_1000(rz + p.tz);
    Instance { mesh_id: id, material_id: 0, tx, ty, tz, rot: p.rot }
}

/// Walk one node, appending the instances of its subtree to `out`.
fn resolve_node_exec(
    nodes: &Vec<SceneNode>,
    sizes: &Vec<ModelSize>,
    idx: u32,
    p: Pose,
    fuel: usize,
    out: &mut Vec<Instance>,
)
    requires
        p.rot.wf(),
        fuel <= nodes@.len(),
        pose_bounded(p, nodes@.len() - fuel),
    ensures
        final(out)@ == old(out)@ + resolve_node(nodes@, sizes@, idx as int, p, fuel as nat),
    decreases fuel,
{
    let n_nodes = nodes.len();
    assert(n_nodes <= 0xFFFF_FFFF_FFFF_FFFFu128 as usize || usize::MAX <= u64::MAX);
    if fuel == 0 || idx as usize >= nodes.len() {
        assert(resolve_node(nodes@, sizes@, idx as int, p, fuel as nat) =~= Seq::<
            Instance,
        >::empty());
        assert(out@ + Seq::<Instance>::empty() =~= out@);
        return;
    }
    let ghost entry = out@;
    let node = &nodes[idx as usize];
    match node {
        SceneNode::Transform { frames, child } => {
            let lrot = match extract_rotation(frames) {
                Some(r) => r,
                None => crate::rotation::Rot::identity(),
            };
            let (ltx, lty, ltz): (i64, i64, i64) = match extract_translation(frames) {
                Some(t) => t,
                None => (0, 0, 0),
            };
            let l = Pose { rot: lrot, tx: ltx as i128, ty: lty as i128, tz: ltz as i128 };
            assert(l == local_pose(frames@));
            let (rx, ry, rz) = rotate_point(&p.rot, l.tx, l.ty, l.tz);
            let np = Pose {
                rot: compose(&p.rot, &l.rot),
                tx: rx + p.tx,
                ty: ry + p.ty,
                tz: rz + p.tz,
            };
            proof {
                lemma_compose(p.rot, l.rot, 0, 0, 0);
                assert(np == compose_pose(p, l));
            }
            resolve_node_exec(nodes, sizes, *child, np, fuel - 1, out);
        },
        SceneNode::Group { children } => {
            let mut ci: usize = 0;
            while ci < children.len()
                invariant
                    ci <= children@.len(),
                    p.rot.wf(),
                    fuel >= 1,
                    fuel <= nodes@.len(),
                    nodes@.len() <= usize::MAX,
                    pose_bounded(p, nodes@.len() - fuel),
                    nodes@[idx as int] == (SceneNode::Group { children: *children }),
                    out@ == entry + resolve_children(
                        nodes@, sizes@, children@, p, (fuel - 1) as nat, ci as int,
                    ),
                decreases children@.len() - ci,
            {
                let child = children[ci];
                resolve_node_exec(nodes, sizes, child, p, fuel - 1, out);
                ci = ci + 1;
            }
        },
        SceneNode::Shape { models } => {
            let mut mi: usize = 0;
            while mi < models.len()
                invariant
                    mi <= models@.len(),
                    p.rot.wf(),
                    pose_bounded(p, nodes@.len() - fuel),
                    fuel <= nodes@.len(),
                    nodes@.len() <= usize::MAX,
                    sizes@.len() == sizes.len(),
                    nodes@[idx as int] == (SceneNode::Shape { models: *models }),
                    out@ == entry + shape_instances(models@, sizes@, p, mi as int),
                decreases models@.len() - mi,
            {
                let id = models[mi];
                if (id as usize) < sizes.len() {
                    let inst = emit_instance(&sizes[id as usize], id, &p);
                    out.push(inst);
                }
                mi = mi + 1;
            }
        },
    }
}

/// Resolve the whole scene graph: a pre-order walk from node 0 under the
/// identity transform, skipping dangling references and bounding depth
/// by the node count.  An empty scene yields no instances.
pub fn resolve_scene(nodes: &Vec<SceneNode>, sizes: &Vec<ModelSize>) -> (out: Vec<Instance>)
    ensures
        out@ == resolve_scene_spec(nodes@, sizes@),
{
    let mut out: Vec<Instance> = Vec::new();
    if nodes.len() > 0 {
        let p = pose_identity();
        resolve_node_exec(nodes, sizes, 0, p, nodes.len(), &mut out);
        assert(Seq::<Instance>::empty() + resolve_node(
            nodes@, sizes@, 0, Pose::spec_identity(), nodes@.len(),
        ) =~= resolve_node(nodes@, sizes@, 0, Pose::spec_identity(), nodes@.len()));
    }
    out
}

/// The fallback instance list when the file carries no scene graph: one
/// instance per model with the identity transform.
pub open spec fn fallback_spec(n: int) -> Seq<Instance> {
    Seq::new(
        n as nat,
        |i: int| Instance {
            mesh_id: i as u32,
            material_id: 0,
            tx: 0,
            ty: 0,
            tz: 0,
            rot: Rot::spec_identity(),
        },
    )
}

/// One identity-transform instance per model, for files without a scene
/// graph.
pub fn fallback_instances(n_models: usize) -> (out: Vec<Instance>)
    requires
        n_models <= u32::MAX,
    ensures
        out@ == fallback_spec(n_models as int),
{
    let mut out: Vec<Instance> = Vec::new();
    let mut i: usize = 0;
    while i < n_models
        invariant
            i <= n_models <= u32::MAX,
            out@.len() == i,
            forall|t: int| 0 <= t < i ==> out@[t] == fallback_spec(n_models as int)[t],
        decreases n_models - i,
    {
        let p = pose_identity();
        out.push(Instance { mesh_id: i as u32, material_id: 0, tx: 0, ty: 0, tz: 0, rot: p.rot });
        i = i + 1;
    }
    assert(out@ =~= fallback_spec(n_models as int));
    out
}


/// Walking a group's children consults only the first `upto` entries:
/// two child lists that agree there resolve identically.
proof fn lemma_resolve_children_prefix(
    nodes: Seq<SceneNode>,
    sizes: Seq<ModelSize>,
    a: Seq<u32>,
    b: Seq<u32>,
    p: Pose,
    fuel: nat,
    upto: int,
)
    requires
        forall|i: int| 0 <= i < upto ==> a[i] == b[i],
    ensures
        resolve_children(nodes, sizes, a, p, fuel, upto) == resolve_children(
            nodes, sizes, b, p, fuel, upto,
        ),
    decreases upto,
{
    if upto > 0 {
        lemma_resolve_children_prefix(nodes, sizes, a, b, p, fuel, upto - 1);
    }
}

/// Dangling references are ignored without failing the walk: a group
/// whose children include an index with no node produces exactly the
/// instance list it would produce with that index omitted.
pub proof fn lemma_dangling_child_ignored(
    nodes: Seq<SceneNode>,
    sizes: Seq<ModelSize>,
    cs1: Seq<u32>,
    bad: u32,
    cs2: Seq<u32>,
    p: Pose,
    fuel: nat,
)
    requires
        bad >= nodes.len(),
    ensures
        resolve_children(
            nodes, sizes, cs1 + seq![bad] + cs2, p, fuel, cs1.len() + 1 + cs2.len() as int,
        ) == resolve_children(nodes, sizes, cs1 + cs2, p, fuel, cs1.len() + cs2.len() as int),
    decreases cs2.len(),
{
    let s1 = cs1 + seq![bad] + cs2;
    let s2 = cs1 + cs2;
    if cs2.len() == 0 {
        let l1 = cs1.len() as int;
        assert(s1[l1] == bad);
        assert(resolve_node(nodes, sizes, bad as int, p, fuel) =~= Seq::<Instance>::empty());
        assert(resolve_children(nodes, sizes, s1, p, fuel, l1 + 1) == resolve_children(
            nodes, sizes, s1, p, fuel, l1,
        ) + resolve_node(nodes, sizes, bad as int, p, fuel));
        lemma_resolve_children_prefix(nodes, sizes, s1, s2, p, fuel, l1);
        assert(resolve_children(nodes, sizes, s2, p, fuel, l1) + Seq::<Instance>::empty()
            =~= resolve_children(nodes, sizes, s2, p, fuel, l1));
    } else {
        let cs2p = cs2.drop_last();
        let last = cs2.last();
        let l1: int = cs1.len() + 1 + cs2.len() as int;
        let l2: int = cs1.len() + cs2.len() as int;
        assert(s1[l1 - 1] == last);
        assert(s2[l2 - 1] == last);
        let s1p = cs1 + seq![bad] + cs2p;
        let s2p = cs1 + cs2p;
        assert(forall|i: int| 0 <= i < l1 - 1 ==> s1[i] == s1p[i]);
        assert(forall|i: int| 0 <= i < l2 - 1 ==> s2[i] == s2p[i]);
        lemma_resolve_children_prefix(nodes, sizes, s1, s1p, p, fuel, l1 - 1);
        lemma_resolve_children_prefix(nodes, sizes, s2, s2p, p, fuel, l2 - 1);
        lemma_dangling_child_ignored(nodes, sizes, cs1, bad, cs2p, p, fuel);
    }
}

} // verus!
