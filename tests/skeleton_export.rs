use telltale_decode::checksum_mapping::ChecksumMap;
use telltale_decode::cursor::Cursor;
use telltale_decode::error::DecodeError;
use telltale_decode::export::{bone_ids_to_indices, convert_materials, separate_mesh, texture_name_to_path};
use telltale_decode::materials::Material;
use telltale_decode::mesh::Face;
use telltale_decode::polygons::PolygonInfo;
use telltale_decode::skeleton::{bind_chain, bind_chains, Joint, Skeleton};
use telltale_decode::textures::{Texture, TextureMap, TextureType};

fn u32le(v: u32) -> Vec<u8> {
    v.to_le_bytes().to_vec()
}

/// A joint record with the given identity, parent index and translation.
fn joint_bytes(id: u64, parent: u32, translation: [f32; 3]) -> Vec<u8> {
    let mut bytes = id.to_le_bytes().to_vec();
    bytes.extend(0u64.to_le_bytes());
    bytes.extend(u32le(parent));
    bytes.extend(vec![0; 12]);
    for t in translation {
        bytes.extend(t.to_le_bytes());
    }
    for q in [0.0f32, 0.0, 0.0, 1.0] {
        bytes.extend(q.to_le_bytes());
    }
    bytes.extend(vec![0; 0x48]);
    bytes.extend(u32le(1));
    bytes.extend(vec![0; 12]);
    bytes.extend(vec![0; 4]);
    bytes.extend(u32le(0));
    bytes.extend(vec![0; 0x20]);
    bytes
}

fn skeleton_bytes(joints: &[Vec<u8>]) -> Vec<u8> {
    let mut bytes = b"5VSM".to_vec();
    bytes.extend(u32le(0));
    bytes.extend(vec![0; 8]);
    bytes.extend(u32le(0));
    bytes.extend(u32le(0));
    bytes.extend(u32le(joints.len() as u32));
    for j in joints {
        bytes.extend_from_slice(j);
    }
    bytes
}

fn joint(id: u64, parent: Option<u32>) -> Joint {
    Joint { parent, translation: [0; 3], rotation: [0; 4], name: String::new(), id }
}

#[test]
fn two_joint_skeleton() {
    let names = ChecksumMap::new(&vec!["root".to_string()]);
    let root_id = crc::Crc::<u64>::new(&crc::CRC_64_ECMA_182).checksum(b"root");
    let bytes = skeleton_bytes(&[
        joint_bytes(root_id, 0xFFFF_FFFF, [0.0, 0.0, 0.0]),
        joint_bytes(0xFF, 0, [0.0, 1.0, 0.0]),
    ]);
    let skeleton = Skeleton::parse(&mut Cursor::new(bytes), &names).unwrap();
    assert_eq!(skeleton.joints.len(), 2);
    assert_eq!(skeleton.joints[0].name, "root");
    assert_eq!(skeleton.joints[0].parent, None);
    assert_eq!(skeleton.joints[1].name, "00000000000000ff");
    assert_eq!(skeleton.joints[1].parent, Some(0));
    assert_eq!(skeleton.joints[1].translation, [0, 1.0f32.to_bits(), 0]);
    assert_eq!(skeleton.joints[1].rotation[3], 1.0f32.to_bits());
    assert_eq!(bind_chains(&skeleton).unwrap(), vec![vec![0], vec![1, 0]]);
}

#[test]
fn parent_index_sentinel() {
    let names = ChecksumMap::new(&vec![]);
    let bytes = skeleton_bytes(&[joint_bytes(1, 1_000_000, [0.0; 3]), joint_bytes(2, 1_000_001, [0.0; 3])]);
    let skeleton = Skeleton::parse(&mut Cursor::new(bytes), &names).unwrap();
    assert_eq!(skeleton.joints[0].parent, Some(1_000_000));
    assert_eq!(skeleton.joints[1].parent, None);
}

#[test]
fn bind_chain_rejects_bad_parents() {
    assert!(matches!(
        bind_chain(&vec![Some(5)], 0),
        Err(DecodeError::UnresolvedReference { .. })
    ));
    assert!(bind_chain(&vec![Some(1), Some(0)], 0).is_err());
    assert_eq!(bind_chain(&vec![None, Some(0), Some(1)], 2).unwrap(), vec![2, 1, 0]);
}

#[test]
fn bone_ids_become_joint_indices() {
    let skeleton = Skeleton { joints: vec![joint(10, None), joint(20, Some(0)), joint(20, Some(0))] };
    let indices = bone_ids_to_indices(&skeleton, &vec![[20, 10, 10, 20]]).unwrap();
    assert_eq!(indices, vec![[1, 0, 0, 1]]);
    assert!(matches!(
        bone_ids_to_indices(&skeleton, &vec![[20, 10, 30, 20]]),
        Err(DecodeError::UnresolvedReference { value: 30 })
    ));
}

fn info(start: u32, count: u32, mat_num: u32) -> PolygonInfo {
    PolygonInfo {
        vertex_start: 0,
        vertex_min: 0,
        vertex_max: 0,
        polygon_start: start,
        polygon_count: count,
        face_point_count: count * 3,
        mat_num,
        lod_level: 0,
    }
}

#[test]
fn mesh_is_separated_by_polygon_groups() {
    let faces: Vec<Face> = (0..4u16).map(|i| Face { a: i, b: i, c: i }).collect();
    let parts = separate_mesh(&vec![info(0, 1, 2), info(1, 3, 0)], &faces).unwrap();
    assert_eq!(parts.len(), 2);
    assert_eq!(parts[0].faces, vec![faces[0]]);
    assert_eq!(parts[0].material_index, 2);
    assert_eq!(parts[1].faces, faces[1..4].to_vec());
    assert!(separate_mesh(&vec![info(2, 3, 0)], &faces).is_err());
}

#[test]
fn texture_paths() {
    assert_eq!(texture_name_to_path("textures", "wall.d3dtx"), "textures/wall.png");
    assert_eq!(texture_name_to_path("t", "plain"), "t/plain.png");
}

#[test]
fn materials_pick_their_pictures() {
    let texture =
        |kind, map, name: &str| Texture { kind, map, name: name.to_string(), unresolved: None };
    let material = Material {
        material_id: 1,
        unknown_section: None,
        textures: vec![
            texture(TextureType::Diffuse, TextureMap::MapBase, "d1"),
            texture(TextureType::Diffuse, TextureMap::MapB, "d2"),
            texture(TextureType::Normal, TextureMap::MapA, "n"),
            texture(TextureType::Specular, TextureMap::MapBase, "s"),
            texture(TextureType::Gloss, TextureMap::MapBase, "g"),
        ],
    };
    let converted = convert_materials("tex", &vec![material]);
    assert_eq!(converted[0].diffuse_texture, Some("tex/d1.png".to_string()));
    assert_eq!(converted[0].normal_texture, Some("tex/n.png".to_string()));
    assert_eq!(
        converted[0].occlusion_roughness_metal_specular_texture,
        Some("tex/s.png".to_string())
    );
}

#[test]
fn skeleton_needs_versioned_container() {
    let names = ChecksumMap::new(&vec![]);
    let r = Skeleton::parse(&mut Cursor::new(b"ERTM0000".to_vec()), &names);
    assert!(matches!(r, Err(DecodeError::UnsupportedFormat { magic: 1297371717 })));
}

#[test]
fn truncated_joint_fails() {
    let names = ChecksumMap::new(&vec![]);
    let mut joint = joint_bytes(1, 0xFFFF_FFFF, [0.0; 3]);
    joint.truncate(100);
    let bytes = skeleton_bytes(&[joint]);
    assert!(Skeleton::parse(&mut Cursor::new(bytes), &names).is_err());
}

#[test]
fn bind_chains_fail_on_a_cycle() {
    let skeleton = Skeleton { joints: vec![joint(1, Some(1))] };
    assert!(bind_chains(&skeleton).is_err());
}
