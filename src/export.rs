//! What the scene exporter needs from decoded meshes: submeshes cut from the
//! face array, joint indices for bone identities, and material texture paths.
use vstd::prelude::*;
use vstd::string::StringExecFns;

use crate::d3dmesh::first_index;
use crate::error::DecodeError;
use crate::materials::Material as MeshMaterial;
use crate::mesh::{BoneReference, Face};
use crate::polygons::PolygonInfo;
use crate::skeleton::{Joint, Skeleton};
use crate::textures::{Texture, TextureMap, TextureType};

verus! {

/// The faces of one polygon group and the material it uses.
#[derive(Debug, Clone)]
pub struct SeparatedMesh {
    pub faces: Vec<Face>,
    pub material_index: u32,
}

/// Whether the face range of `p` lies within `n` faces.
pub open spec fn range_ok(p: PolygonInfo, n: nat) -> bool {
    p.polygon_start + p.polygon_count <= n
}

/// Cuts the face array into one submesh per polygon group.
pub fn separate_mesh(polygons: &Vec<PolygonInfo>, faces: &Vec<Face>) -> (r: Result<
    Vec<SeparatedMesh>,
    DecodeError,
>)
    ensures
        r is Ok <==> forall|i: int|
            0 <= i < polygons@.len() ==> range_ok(#[trigger] polygons@[i], faces@.len()),
        r is Ok ==> r->Ok_0@.len() == polygons@.len() && forall|i: int|
            0 <= i < polygons@.len() ==> {
                let p = #[trigger] polygons@[i];
                &&& r->Ok_0@[i].material_index == p.mat_num
                &&& r->Ok_0@[i].faces@ == faces@.subrange(
                    p.polygon_start as int,
                    p.polygon_start + p.polygon_count,
                )
            },
{
    let mut out: Vec<SeparatedMesh> = Vec::new();
    let mut i: usize = 0;
    while i < polygons.len()
        invariant
            i <= polygons@.len(),
            out@.len() == i,
            forall|k: int| 0 <= k < i ==> range_ok(#[trigger] polygons@[k], faces@.len()),
            forall|k: int|
                0 <= k < i ==> {
                    let p = #[trigger] polygons@[k];
                    &&& out@[k].material_index == p.mat_num
                    &&& out@[k].faces@ == faces@.subrange(
                        p.polygon_start as int,
                        p.polygon_start + p.polygon_count,
                    )
                },
        decreases polygons@.len() - i,
    {
        let p = polygons[i];
        let start = p.polygon_start as usize;
        let count = p.polygon_count as usize;
        if start > faces.len() || count > faces.len() - start {
            return Err(DecodeError::UnresolvedReference { value: p.polygon_start as u64 });
        }
        let mut part: Vec<Face> = Vec::new();
        let mut k: usize = 0;
        while k < count
            invariant
                start + count <= faces.len(),
                k <= count,
                part@ == faces@.subrange(start as int, start + k),
            decreases count - k,
        {
            part.push(faces[start + k]);
            k = k + 1;
            assert(part@ =~= faces@.subrange(start as int, start + k));
        }
        out.push(SeparatedMesh { faces: part, material_index: p.mat_num });
        i = i + 1;
    }
    Ok(out)
}

/// The identities of the joints of `joints`, in order.
pub open spec fn joint_ids(joints: Seq<Joint>) -> Seq<u64> {
    joints.map_values(|j: Joint| j.id)
}

/// Four joint indices of a vertex.
pub type JointInfo = [u8; 4];

/// The index of the first joint whose identity is `id`, if it fits in a byte.
fn find_joint(skeleton: &Skeleton, id: u64) -> (r: Option<u8>)
    ensures
        r is Some <==> 0 <= first_index(joint_ids(skeleton.joints@), id) < 256,
        r is Some ==> r->Some_0 == first_index(joint_ids(skeleton.joints@), id),
{
    let ghost ids = joint_ids(skeleton.joints@);
    let mut i: usize = 0;
    while i < skeleton.joints.len()
        invariant
            ids == joint_ids(skeleton.joints@),
            i <= skeleton.joints@.len(),
            first_index(ids.subrange(0, i as int), id) == -1,
        decreases skeleton.joints@.len() - i,
    {
        assert(ids.subrange(0, i + 1).drop_last() =~= ids.subrange(0, i as int));
        if skeleton.joints[i].id == id {
            proof {
                crate::d3dmesh::lemma_first_index_prefix(ids, id, i + 1);
            }
            if i < 256 {
                return Some(i as u8);
            }
            return None;
        }
        i = i + 1;
    }
    assert(ids.subrange(0, ids.len() as int) =~= ids);
    None
}

/// Whether every identity of `refs` names one of the first 256 joints.
pub open spec fn refs_resolvable(joints: Seq<Joint>, refs: Seq<BoneReference>) -> bool {
    forall|i: int, k: int|
        0 <= i < refs.len() && 0 <= k < 4 ==> 0 <= first_index(
            joint_ids(joints),
            #[trigger] refs[i][k],
        ) < 256
}

/// Translates the bone identities of each vertex into indices of the
/// skeleton's joints (the first joint with that identity).
pub fn bone_ids_to_indices(skeleton: &Skeleton, bone_references: &Vec<BoneReference>) -> (r:
    Result<Vec<JointInfo>, DecodeError>)
    ensures
        r is Ok <==> refs_resolvable(skeleton.joints@, bone_references@),
        r is Ok ==> r->Ok_0@.len() == bone_references@.len() && forall|i: int, k: int|
            0 <= i < bone_references@.len() && 0 <= k < 4 ==> r->Ok_0@[i][k] == first_index(
                joint_ids(skeleton.joints@),
                #[trigger] bone_references@[i][k],
            ),
{
    let mut out: Vec<JointInfo> = Vec::new();
    let mut i: usize = 0;
    while i < bone_references.len()
        invariant
            i <= bone_references@.len(),
            out@.len() == i,
            forall|j: int, k: int|
                0 <= j < i && 0 <= k < 4 ==> 0 <= first_index(
                    joint_ids(skeleton.joints@),
                    #[trigger] bone_references@[j][k],
                ) < 256 && out@[j][k] == first_index(
                    joint_ids(skeleton.joints@),
                    bone_references@[j][k],
                ),
        decreases bone_references@.len() - i,
    {
        let refs = bone_references[i];
        let mut info: JointInfo = [0, 0, 0, 0];
        let mut k: usize = 0;
        while k < 4
            invariant
                k <= 4,
                refs == bone_references@[i as int],
                i < bone_references@.len(),
                forall|m: int|
                    0 <= m < k ==> 0 <= first_index(joint_ids(skeleton.joints@), #[trigger] refs[m])
                        < 256 && info[m] == first_index(joint_ids(skeleton.joints@), refs[m]),
            decreases 4 - k,
        {
            match find_joint(skeleton, refs[k]) {
                Some(index) => {
                    info.set(k, index);
                },
                None => {
                    return Err(DecodeError::UnresolvedReference { value: refs[k] });
                },
            }
            k = k + 1;
        }
        out.push(info);
        i = i + 1;
    }
    Ok(out)
}

/// The file name that `name` becomes with its extension replaced by (or
/// extended with) `png`.
pub uninterp spec fn png_file_name(name: Seq<char>) -> Seq<char>;

/// Relies on std's `Path::with_extension`: the result depends on the name
/// alone; a name given as text stays valid text.
#[verifier::external_body]
fn with_png_extension(name: &str) -> (r: String)
    ensures
        r@ == png_file_name(name@),
{
    std::path::Path::new(name).with_extension("png").to_string_lossy().into_owned()
}

/// Joins a folder and a file name with a slash.
fn join_path(folder: &str, file: &str) -> (r: String)
    ensures
        r@ == folder@ + seq!['/'] + file@,
{
    let mut r = folder.to_owned();
    r.append("/");
    r.append(file);
    proof {
        reveal_strlit("/");
    }
    r
}

/// The path of a texture's picture: `texture_folder`, a slash, and the name
/// with a `png` extension.
pub open spec fn texture_path(texture_folder: Seq<char>, name: Seq<char>) -> Seq<char> {
    texture_folder + seq!['/'] + png_file_name(name)
}

/// Makes the path under `texture_folder` of the picture of a texture.
pub fn texture_name_to_path(texture_folder: &str, texture_name: &str) -> (r: String)
    ensures
        r@ == texture_path(texture_folder@, texture_name@),
{
    let file = with_png_extension(texture_name);
    join_path(texture_folder, file.as_str())
}

/// The texture pictures of a material in the exported scene.
#[derive(Debug, Clone)]
pub struct Material {
    pub diffuse_texture: Option<String>,
    pub normal_texture: Option<String>,
    pub occlusion_roughness_metal_specular_texture: Option<String>,
}

/// The name of the last texture of `textures` of `kind` that fills the main
/// map or map A.
pub open spec fn last_texture_of(textures: Seq<Texture>, kind: TextureType) -> Option<Seq<char>>
    decreases textures.len(),
{
    if textures.len() == 0 {
        None
    } else {
        let t = textures.last();
        if (t.map == TextureMap::MapBase || t.map == TextureMap::MapA) && t.kind == kind {
            Some(t.name@)
        } else {
            last_texture_of(textures.drop_last(), kind)
        }
    }
}

/// Whether `slot` holds the path of the texture that `found` names.
pub open spec fn path_slot(slot: Option<String>, found: Option<Seq<char>>, folder: Seq<char>) -> bool {
    match found {
        Some(name) => slot is Some && slot->Some_0@ == texture_path(folder, name),
        None => slot is None,
    }
}

/// Whether `m` holds the paths of the textures of `textures`.
pub open spec fn converted(m: Material, textures: Seq<Texture>, folder: Seq<char>) -> bool {
    &&& path_slot(m.diffuse_texture, last_texture_of(textures, TextureType::Diffuse), folder)
    &&& path_slot(m.normal_texture, last_texture_of(textures, TextureType::Normal), folder)
    &&& path_slot(
        m.occlusion_roughness_metal_specular_texture,
        last_texture_of(textures, TextureType::Specular),
        folder,
    )
}

/// Picks the diffuse, normal and specular pictures of one material.
fn convert_material(texture_folder: &str, material: &MeshMaterial) -> (r: Material)
    ensures
        converted(r, material.textures@, texture_folder@),
{
    let mut info = Material {
        diffuse_texture: None,
        normal_texture: None,
        occlusion_roughness_metal_specular_texture: None,
    };
    let mut i: usize = 0;
    while i < material.textures.len()
        invariant
            i <= material.textures@.len(),
            converted(info, material.textures@.subrange(0, i as int), texture_folder@),
        decreases material.textures@.len() - i,
    {
        let texture = &material.textures[i];
        let ghost sub = material.textures@.subrange(0, i + 1);
        assert(sub.drop_last() =~= material.textures@.subrange(0, i as int));
        if texture.map == TextureMap::MapBase || texture.map == TextureMap::MapA {
            match texture.kind {
                TextureType::Diffuse => {
                    info.diffuse_texture = Some(
                        texture_name_to_path(texture_folder, texture.name.as_str()),
                    );
                },
                TextureType::Normal => {
                    info.normal_texture = Some(
                        texture_name_to_path(texture_folder, texture.name.as_str()),
                    );
                },
                TextureType::Specular => {
                    info.occlusion_roughness_metal_specular_texture = Some(
                        texture_name_to_path(texture_folder, texture.name.as_str()),
                    );
                },
                _ => {},
            }
        }
        i = i + 1;
    }
    assert(material.textures@.subrange(0, i as int) =~= material.textures@);
    info
}

/// Picks the diffuse, normal and specular pictures of each material.
pub fn convert_materials(texture_folder: &str, materials: &Vec<MeshMaterial>) -> (r: Vec<Material>)
    ensures
        r@.len() == materials@.len(),
        forall|i: int|
            0 <= i < materials@.len() ==> converted(
                #[trigger] r@[i],
                materials@[i].textures@,
                texture_folder@,
            ),
{
    let mut out: Vec<Material> = Vec::new();
    let mut i: usize = 0;
    while i < materials.len()
        invariant
            i <= materials@.len(),
            out@.len() == i,
            forall|k: int|
                0 <= k < i ==> converted(#[trigger] out@[k], materials@[k].textures@, texture_folder@),
        decreases materials@.len() - i,
    {
        let m = convert_material(texture_folder, &materials[i]);
        out.push(m);
        i = i + 1;
    }
    out
}

} // verus!
