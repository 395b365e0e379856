use telltale_decode::checksum_mapping::ChecksumMap;
use telltale_decode::cursor::Cursor;
use telltale_decode::d3dmesh::fix_material_index;
use telltale_decode::error::{Channel, DecodeError};
use telltale_decode::materials::{Material, MaterialGroup};
use telltale_decode::mesh::{
    packed_weights, parse_positions, resolve_bones, BoneInfo, Face, Mesh, RawPosition,
    WEIGHT_DENOMINATOR,
};
use telltale_decode::polygons::PolygonInfo;
use telltale_decode::textures::{TextureMap, TextureType};

fn u32le(v: u32) -> Vec<u8> {
    v.to_le_bytes().to_vec()
}

fn u64le(v: u64) -> Vec<u8> {
    v.to_le_bytes().to_vec()
}

fn crc64(text: &str) -> u64 {
    crc::Crc::<u64>::new(&crc::CRC_64_ECMA_182).checksum(text.as_bytes())
}

/// A material record with the given section bytes and `section_count`.
fn material_bytes(id: u64, sections: &[u8], section_count: u32, padding: usize) -> Vec<u8> {
    let mut body = Vec::new();
    body.extend(u32le(0));
    body.extend(u32le(0));
    body.extend(u32le(0));
    body.extend(u32le(0)); // no hash pairs
    body.extend(u32le(section_count));
    body.extend_from_slice(sections);
    body.extend(vec![0xAB; padding]);
    let mut bytes = u64le(id);
    bytes.extend(u32le(0));
    bytes.extend(u32le(0));
    // the header size counts itself: the record ends 16 + size bytes in
    bytes.extend(u32le(body.len() as u32 + 4));
    bytes.extend(body);
    bytes
}

#[test]
fn unknown_section_keeps_earlier_textures() {
    let mut sections = u64le(0x52a09151f1c3f2c7);
    sections.extend(u32le(1));
    sections.extend(u64le(0x8648fa82d1dbee1a));
    sections.extend(u64le(crc64("tex_a")));
    sections.extend(u64le(0x1111_2222_3333_4444));
    sections.extend(u32le(0));
    // a third section that would not decode
    sections.extend(u64le(0xb76e07d6bb899bfe));
    sections.extend(u32le(0xFFFF_FFFF));
    let bytes = material_bytes(77, &sections, 3, 5);
    let total = bytes.len() as u64;
    let mut cursor = Cursor::new(bytes);
    let names = ChecksumMap::new(&vec!["tex_a".to_string()]);
    let material = Material::parse(&mut cursor, 0, &names).unwrap();
    assert_eq!(material.material_id, 77);
    assert_eq!(material.textures.len(), 1);
    assert_eq!(material.textures[0].kind, TextureType::Diffuse);
    assert_eq!(material.textures[0].map, TextureMap::MapBase);
    assert_eq!(material.textures[0].name, "tex_a");
    assert_eq!(material.unknown_section, Some(0x1111_2222_3333_4444));
    assert_eq!(cursor.position(), total);
}

#[test]
fn unnamed_texture_is_unknown() {
    let mut sections = u64le(0x52a09151f1c3f2c7);
    sections.extend(u32le(2));
    sections.extend(u64le(0x1e3f6b9f2550389d));
    sections.extend(u64le(0));
    sections.extend(u64le(0x1e3f6b9f2550389d));
    sections.extend(u64le(crc64("n")));
    let bytes = material_bytes(1, &sections, 1, 0);
    let mut cursor = Cursor::new(bytes);
    let names = ChecksumMap::new(&vec!["n".to_string()]);
    let material = Material::parse(&mut cursor, 0, &names).unwrap();
    assert_eq!(material.textures[0].kind, TextureType::Unknown);
    assert_eq!(material.textures[0].map, TextureMap::Unknown);
    assert_eq!(material.textures[0].name, "");
    assert_eq!(material.textures[1].kind, TextureType::Normal);
    assert_eq!(material.textures[1].name, "n");
}

#[test]
fn section_records_are_passed_over() {
    // two records of three floats (20 bytes each), then a section with no payload
    let mut sections = u64le(0x394c43af4ff52c94);
    sections.extend(u32le(2));
    sections.extend(vec![0; 40]);
    sections.extend(u64le(0x0000000000000000));
    sections.extend(u32le(9));
    let bytes = material_bytes(5, &sections, 2, 3);
    let total = bytes.len() as u64;
    let mut cursor = Cursor::new(bytes);
    let names = ChecksumMap::new(&vec![]);
    let material = Material::parse(&mut cursor, 0, &names).unwrap();
    assert!(material.textures.is_empty());
    assert_eq!(cursor.position(), total);
}

#[test]
fn truncated_section_fails() {
    let mut sections = u64le(0xb76e07d6bb899bfe);
    sections.extend(u32le(1));
    sections.extend(vec![0; 10]);
    let bytes = material_bytes(5, &sections, 1, 0);
    let mut cursor = Cursor::new(bytes);
    let names = ChecksumMap::new(&vec![]);
    assert!(Material::parse(&mut cursor, 0, &names).is_err());
}

#[test]
fn material_group_record() {
    let mut bytes = u32le(0);
    bytes.extend(u64le(0xABCD));
    bytes.extend(vec![0; 0x40]);
    let mut cursor = Cursor::new(bytes);
    let group = MaterialGroup::parse(&mut cursor).unwrap();
    assert_eq!(group.material_id, 0xABCD);
    assert_eq!(cursor.position(), 76);
}

fn polygon(mat_num: u32) -> PolygonInfo {
    PolygonInfo {
        vertex_start: 0,
        vertex_min: 0,
        vertex_max: 0,
        polygon_start: 0,
        polygon_count: 1,
        face_point_count: 3,
        mat_num,
        lod_level: 0,
    }
}

#[test]
fn material_index_resolution() {
    let names = ChecksumMap::new(&vec![]);
    let mut materials = Vec::new();
    for id in [10u64, 20, 20] {
        let bytes = material_bytes(id, &[], 0, 0);
        materials.push(Material::parse(&mut Cursor::new(bytes), 0, &names).unwrap());
    }
    let groups = vec![MaterialGroup { material_id: 20 }, MaterialGroup { material_id: 10 }];
    let mut polygons = vec![polygon(0), polygon(1)];
    fix_material_index(&mut polygons, &groups, &materials).unwrap();
    // duplicate identities resolve to the first material
    assert_eq!(polygons[0].mat_num, 1);
    assert_eq!(polygons[1].mat_num, 0);
}

#[test]
fn material_index_unresolved() {
    let names = ChecksumMap::new(&vec![]);
    let materials = vec![Material::parse(&mut Cursor::new(material_bytes(10, &[], 0, 0)), 0, &names).unwrap()];
    let groups = vec![MaterialGroup { material_id: 99 }];
    let mut polygons = vec![polygon(0)];
    assert!(matches!(
        fix_material_index(&mut polygons, &groups, &materials),
        Err(DecodeError::UnresolvedReference { value: 99 })
    ));
    let mut polygons = vec![polygon(3)];
    assert!(matches!(
        fix_material_index(&mut polygons, &groups, &materials),
        Err(DecodeError::UnresolvedReference { value: 3 })
    ));
}

#[test]
fn packed_weights_sum_to_one() {
    for word in [0u32, 1, 0x3FF, 0x12345678, 0xC000_0000, 0xFFFF_FFFF, 0x8765_4321] {
        let w = packed_weights(word);
        assert_eq!(w[0] + w[1] + w[2] + w[3], WEIGHT_DENOMINATOR);
    }
}

#[test]
fn packed_weights_fields() {
    // low field full: second weight 1/8
    assert_eq!(packed_weights(0x3FF), [21483, 3069, 0, 0]);
    // middle field full: third weight 1/3; high field full: fourth 1/4
    assert_eq!(packed_weights(0x3FF << 10), [16368, 0, 8184, 0]);
    assert_eq!(packed_weights(0x3FF << 20), [18414, 0, 0, 6138]);
    // top bits 3: 3/8 more on the second weight
    assert_eq!(packed_weights(0xC000_0000), [15345, 9207, 0, 0]);
}

/// Buffer description with the given layout entries (type, format, layer)
/// and face buffer counts, face data right after it.
fn mesh_header(entries: &[(u32, u32, u32)], face_counts: &[u32]) -> Vec<u8> {
    let mut bytes = vec![0; 8];
    bytes.extend(u32le(face_counts.len() as u32));
    bytes.extend(u32le(entries.len() as u32));
    bytes.extend(u32le(0));
    for &(kind, format, layer) in entries {
        bytes.extend(u32le(kind - 1));
        bytes.extend(u32le(format - 1));
        bytes.extend(u32le(layer - 1));
        bytes.extend(u32le(0));
        bytes.extend(u32le(0));
    }
    for &count in face_counts {
        bytes.extend(vec![0; 12]);
        bytes.extend(u32le(count));
        bytes.extend(u32le(count * 2));
    }
    bytes
}

#[test]
fn position_only_mesh() {
    let mut bytes = mesh_header(&[(1, 4, 1)], &[3]);
    let face_start = bytes.len() as u64;
    for index in [0u16, 1, 2] {
        bytes.extend(index.to_le_bytes());
    }
    for v in [1u32, 2, 3, 4, 5, 6] {
        bytes.extend(u32le(v));
    }
    let mut cursor = Cursor::new(bytes);
    let mesh = Mesh::parse(&mut cursor, face_start, 0, 0, 2, &vec![]).unwrap();
    assert_eq!(mesh.positions.len(), 2);
    assert_eq!(mesh.positions[1], RawPosition::Float { x: 4, y: 5, z: 6 });
    assert!(mesh.normals.is_empty());
    assert!(mesh.uv.is_empty());
    assert!(mesh.weights.is_empty());
    assert!(mesh.bones.is_empty());
    assert_eq!(mesh.faces, vec![Face { a: 0, b: 1, c: 2 }]);
}

#[test]
fn mesh_channels_in_order() {
    // positions (16-bit), bone slots, normals (8-bit), first UV layer (u16)
    let mut bytes = mesh_header(&[(1, 27, 1), (5, 33, 1), (2, 38, 1), (7, 25, 1)], &[0]);
    let face_start = bytes.len() as u64;
    bytes.extend([1u8, 0, 2, 0, 3, 0, 0, 0]);
    bytes.extend([1u8, 0, 1, 0]);
    bytes.extend([127u8, 0, 0x81, 0]);
    bytes.extend([0xFFu8, 0xFF, 0, 0]);
    let mut cursor = Cursor::new(bytes);
    let mesh = Mesh::parse(&mut cursor, face_start, 0, 1, 1, &vec![100, 200]).unwrap();
    assert_eq!(mesh.positions, vec![RawPosition::Norm16 { x: 1, y: 2, z: 3 }]);
    assert_eq!(mesh.bones, vec![[200, 100, 200, 100]]);
    assert_eq!(mesh.uv.len(), 1);
    assert_eq!(mesh.uv[0].layer, 0);
    assert!(mesh.faces.is_empty());
}

#[test]
fn unknown_vertex_layout() {
    let bytes = mesh_header(&[(9, 4, 1)], &[0]);
    let mut cursor = Cursor::new(bytes);
    assert!(matches!(
        Mesh::parse(&mut cursor, 0, 0, 0, 1, &vec![]),
        Err(DecodeError::UnknownVertexLayout { kind: 9, layer: 1 })
    ));
}

#[test]
fn unknown_mesh_flags() {
    let bytes = mesh_header(&[], &[0]);
    let start = bytes.len() as u64;
    let mut cursor = Cursor::new(bytes);
    assert!(matches!(
        Mesh::parse(&mut cursor, start, 0, 0x02, 0, &vec![]),
        Err(DecodeError::UnknownMeshFlags { flags: 2 })
    ));
}

#[test]
fn too_many_face_buffers() {
    let bytes = mesh_header(&[], &[0, 0, 0]);
    let mut cursor = Cursor::new(bytes);
    assert!(matches!(
        Mesh::parse(&mut cursor, 0, 0, 0, 0, &vec![]),
        Err(DecodeError::TooManyFaceBuffers { count: 3 })
    ));
}

#[test]
fn unknown_position_format() {
    let mut cursor = Cursor::new(vec![0; 16]);
    assert!(matches!(
        parse_positions(&mut cursor, 1, 5),
        Err(DecodeError::UnknownEncoding { channel: Channel::Position, code: 5 })
    ));
}

#[test]
fn bone_slots_resolve() {
    let infos = vec![BoneInfo { bone_1: 0, bone_2: 1, bone_3: 1, bone_4: 0 }];
    assert_eq!(resolve_bones(&infos, &vec![7, 8]).unwrap(), vec![[7, 8, 8, 7]]);
    assert!(matches!(
        resolve_bones(&infos, &vec![7]),
        Err(DecodeError::UnresolvedReference { value: 1 })
    ));
}

#[test]
fn mesh_file_version_is_checked() {
    let mut bytes = b"6VSM".to_vec();
    bytes.extend(u32le(0));
    bytes.extend(vec![0; 8]);
    bytes.extend(u32le(0));
    bytes.extend(u32le(8));
    bytes.extend(u32le(0));
    bytes.push(54);
    let names = ChecksumMap::new(&vec![]);
    let r = telltale_decode::d3dmesh::Data::parse(&mut Cursor::new(bytes), &names);
    assert!(matches!(r, Err(DecodeError::UnsupportedVersion { version: 54 })));
}

#[test]
fn polygon_groups_of_first_level() {
    let mut record = vec![0u8; 48];
    for v in [1u32, 9, 2, 30, 4, 12, 0x10] {
        record.extend(u32le(v));
    }
    record.extend(vec![0; 8]);
    record.extend(u32le(0));
    record.extend(u32le(3));
    record.extend(u32le(0));
    assert_eq!(record.len(), 96);
    let mut bytes = u32le(344);
    bytes.extend(u32le(2));
    // most detailed level: one polygon group
    bytes.extend(u32le(104));
    bytes.extend(u32le(1));
    bytes.extend(record.clone());
    bytes.extend(u32le(8));
    bytes.extend(u32le(0));
    bytes.extend(vec![0; 92]);
    bytes.extend(u32le(0));
    bytes.extend(u32le(1));
    bytes.extend(vec![0; 8]);
    // second level: nothing kept
    bytes.extend(u32le(8));
    bytes.extend(u32le(0));
    bytes.extend(u32le(8));
    bytes.extend(u32le(0));
    bytes.extend(vec![0; 92]);
    bytes.extend(u32le(0));
    bytes.extend(u32le(0));
    assert_eq!(bytes.len(), 344);
    let mut cursor = Cursor::new(bytes);
    let infos = PolygonInfo::parse(&mut cursor).unwrap();
    assert_eq!(cursor.position(), 344);
    assert_eq!(
        infos,
        vec![PolygonInfo {
            vertex_start: 2,
            vertex_min: 1,
            vertex_max: 9,
            polygon_start: 10,
            polygon_count: 4,
            face_point_count: 12,
            mat_num: 3,
            lod_level: 0,
        }]
    );
}

#[test]
fn whole_mesh_file() {
    let mut b = b"6VSM".to_vec();
    b.extend(u32le(0));
    b.extend(vec![0; 8]);
    b.extend(u32le(0));
    b.extend(u32le(12));
    b.extend(u32le(4));
    b.extend_from_slice(b"mesh");
    b.push(55);
    b.extend(vec![0; 0x14]);
    b.extend(u32le(1));
    b.extend(material_bytes(42, &[], 0, 0));
    b.extend(vec![0; 5]);
    let face_offset_at = b.len();
    b.extend(u32le(0));
    // polygon section: one level with one group using material group 0
    b.extend(u32le(212));
    b.extend(u32le(1));
    b.extend(u32le(96));
    b.extend(u32le(1));
    let mut record = vec![0u8; 48];
    for v in [0u32, 2, 0, 0, 1, 3, 0, 0, 0, 0] {
        record.extend(u32le(v));
    }
    assert_eq!(record.len(), 88);
    b.extend(record);
    b.extend(u32le(8));
    b.extend(u32le(0));
    b.extend(vec![0; 92]);
    b.extend(u32le(0));
    b.extend(u32le(0));
    b.extend(u32le(4));
    // material groups
    b.extend(u32le(84));
    b.extend(u32le(1));
    b.extend(u32le(0));
    b.extend(u64le(42));
    b.extend(vec![0; 0x40]);
    b.extend(u32le(4));
    // bone identities: none
    b.extend(u32le(8));
    b.extend(u32le(0));
    b.extend(u32le(4));
    b.extend(u32le(4));
    // clamps, vertex count and flags
    b.extend(vec![0; 104]);
    b.extend(u32le(3));
    b.extend(u32le(0));
    b.extend(u32le(4));
    b.extend(u32le(0));
    // vertex section
    b.extend(mesh_header(&[(1, 4, 1)], &[3]));
    let face_data_start = b.len();
    let offset = (face_data_start - face_offset_at) as u32;
    b[face_offset_at..face_offset_at + 4].copy_from_slice(&offset.to_le_bytes());
    for index in [0u16, 1, 2] {
        b.extend(index.to_le_bytes());
    }
    for v in 0..9u32 {
        b.extend(u32le(v));
    }
    let names = ChecksumMap::new(&vec![]);
    let data = telltale_decode::d3dmesh::Data::parse(&mut Cursor::new(b), &names).unwrap();
    assert_eq!(data.materials.len(), 1);
    assert_eq!(data.materials[0].material_id, 42);
    assert_eq!(data.polygons.len(), 1);
    assert_eq!(data.polygons[0].mat_num, 0);
    assert_eq!(data.polygons[0].face_point_count, 3);
    assert_eq!(data.mesh.faces, vec![Face { a: 0, b: 1, c: 2 }]);
    assert_eq!(data.mesh.positions.len(), 3);
    assert_eq!(data.mesh.positions[2], RawPosition::Float { x: 6, y: 7, z: 8 });
    assert_eq!(data.uv_clamps.len(), 6);
}

#[test]
fn declared_channels_replace_interleaved_values() {
    let mut bytes = mesh_header(&[(1, 4, 1), (5, 33, 1)], &[0]);
    let face_start = bytes.len() as u64;
    for v in [1u32, 2, 3] {
        bytes.extend(u32le(v));
    }
    bytes.extend([1u8, 0, 0, 0]);
    let vert_start = bytes.len() as u64;
    for v in [7u32, 8, 9] {
        bytes.extend(u32le(v));
    }
    bytes.extend([0u8, 0, 0, 0]);
    bytes.extend(vec![0; 8]);
    let mut cursor = Cursor::new(bytes);
    let mesh = Mesh::parse(&mut cursor, face_start, vert_start, 0x31, 1, &vec![100, 200]).unwrap();
    assert_eq!(mesh.positions, vec![RawPosition::Float { x: 1, y: 2, z: 3 }]);
    assert_eq!(mesh.bones, vec![[200, 100, 100, 100]]);
}

#[test]
fn interleaved_values_without_channels() {
    let mut bytes = mesh_header(&[], &[0]);
    let face_start = bytes.len() as u64;
    let vert_start = bytes.len() as u64;
    for v in [7u32, 8, 9] {
        bytes.extend(u32le(v));
    }
    bytes.extend([1u8, 1, 0, 0]);
    bytes.extend(vec![0; 8]);
    let mut cursor = Cursor::new(bytes);
    let mesh = Mesh::parse(&mut cursor, face_start, vert_start, 0x31, 1, &vec![100, 200]).unwrap();
    assert_eq!(mesh.positions, vec![RawPosition::Float { x: 7, y: 8, z: 9 }]);
    assert_eq!(mesh.bones, vec![[200, 200, 100, 100]]);
}

#[test]
fn mesh_names_unknown_channel_format() {
    let bytes = mesh_header(&[(1, 5, 1)], &[0]);
    let start = bytes.len() as u64;
    let mut cursor = Cursor::new(bytes);
    assert!(matches!(
        Mesh::parse(&mut cursor, start, 0, 0, 1, &vec![]),
        Err(DecodeError::UnknownEncoding { channel: Channel::Position, code: 5 })
    ));
}

#[test]
fn mesh_weights_and_normals_values() {
    let mut bytes = mesh_header(&[(4, 42, 1), (2, 26, 1)], &[0]);
    let start = bytes.len() as u64;
    bytes.extend(u32le(0x3FF));
    for v in [1i16, -2, 3, 0] {
        bytes.extend(v.to_le_bytes());
    }
    let mut cursor = Cursor::new(bytes);
    let mesh = Mesh::parse(&mut cursor, start, 0, 0, 1, &vec![]).unwrap();
    assert_eq!(mesh.weights, vec![telltale_decode::mesh::RawWeights::Packed(0x3FF)]);
    assert_eq!(
        mesh.normals,
        vec![telltale_decode::mesh::RawNormal::Snorm16 { x: 1, y: -2, z: 3 }]
    );
}

#[test]
fn zero_content_hash_is_absent() {
    // the empty identifier has checksum 0, so the table holds the key 0
    let names = ChecksumMap::new(&vec!["".to_string(), "n".to_string()]);
    assert_eq!(names.get_mapping(0), Some("".to_string()));
    let mut sections = u64le(0x52a09151f1c3f2c7);
    sections.extend(u32le(2));
    sections.extend(u64le(0x8648fa82d1dbee1a));
    sections.extend(u64le(0));
    sections.extend(u64le(0x8648fa82d1dbee1a));
    sections.extend(u64le(0x5555));
    let bytes = material_bytes(1, &sections, 1, 0);
    let material = Material::parse(&mut Cursor::new(bytes), 0, &names).unwrap();
    assert_eq!(material.unknown_section, None);
    assert_eq!(material.textures[0].kind, TextureType::Unknown);
    assert_eq!(material.textures[0].map, TextureMap::Unknown);
    assert_eq!(material.textures[0].name, "");
    assert_eq!(material.textures[0].unresolved, None);
    assert_eq!(material.textures[1].kind, TextureType::Unknown);
    assert_eq!(material.textures[1].unresolved, Some(0x5555));
}
