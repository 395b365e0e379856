//! Mesh files: header, materials, polygon groups, clamps and vertex data,
//! with polygon groups resolved to material indices.
use vstd::prelude::*;
use vstd::utf8::decode_utf8;

use crate::byte_reading::{
    envelope_end, envelope_ok, is_versioned, name_frame, name_ok, skip_envelope, D3DName,
};
use crate::checksum_mapping::ChecksumMap;
use crate::cursor::{fits, le_u32, le_u64, Cursor};
use crate::error::DecodeError;
use crate::materials::{is_material_at, material_end, material_ok, Material, MaterialGroup};
use crate::mesh::{is_mesh_at, mesh_ok, Mesh};
use crate::polygons::{lods_end, polygon_records, PolygonInfo};

verus! {

/// The name and version from the start of a mesh file.
pub struct D3DHeader {
    name: String,
    version: u8,
}

impl D3DHeader {
    pub closed spec fn spec_name(&self) -> Seq<char> {
        self.name@
    }

    pub closed spec fn spec_version(&self) -> u8 {
        self.version
    }

    /// Reads the envelope, the name record and the version byte.
    pub fn parse(input: &mut Cursor) -> (r: Result<D3DHeader, DecodeError>)
        ensures
            final(input).bytes() == old(input).bytes(),
            ({
                let s = old(input).bytes();
                let p = old(input).pos() as int;
                let q = envelope_end(s, p);
                let (start, len) = name_frame(s, q);
                &&& r is Ok <==> envelope_ok(s, p) && name_ok(s, q) && start + len + 1 <= s.len()
                &&& fits(s, p as u64, 4) && !is_versioned(le_u32(s, p)) ==> r == Err::<
                    D3DHeader,
                    DecodeError,
                >(DecodeError::UnsupportedFormat { magic: le_u32(s, p) })
                &&& r is Ok ==> {
                    &&& r->Ok_0.spec_name() == decode_utf8(s.subrange(start, start + len))
                    &&& r->Ok_0.spec_version() == s[start + len]
                    &&& final(input).pos() == start + len + 1
                }
            }),
    {
        skip_envelope(input)?;
        let name = D3DName::parse(input)?;
        let version = input.read_u8()?;
        Ok(D3DHeader { name: name.to_string(), version })
    }

    /// The name of the mesh.
    pub fn name(&self) -> (r: &str)
        ensures
            r@ == self.spec_name(),
    {
        self.name.as_str()
    }

    /// The format version of the mesh file.
    pub fn version(&self) -> (r: u8)
        ensures
            r == self.spec_version(),
    {
        self.version
    }
}

/// The axis whose packed positions carry two extra bits of precision.
#[derive(Debug, Clone, Copy, PartialEq, Eq, Structural)]
pub enum ModelOrientation {
    Q,
    X,
    Y,
    Z,
}

/// Whether the 32-bit float with bit pattern `bits` differs from zero
/// (either sign of zero counts as zero).
pub open spec fn float_nonzero(bits: u32) -> bool {
    bits % 0x8000_0000 != 0
}

/// The dominant axis: the last of X, Y, Z whose flag float is not zero.
pub open spec fn orientation_of(x: u32, y: u32, z: u32) -> ModelOrientation {
    if float_nonzero(z) {
        ModelOrientation::Z
    } else if float_nonzero(y) {
        ModelOrientation::Y
    } else if float_nonzero(x) {
        ModelOrientation::X
    } else {
        ModelOrientation::Q
    }
}

/// Picks the dominant axis from the three flag floats, given as bit patterns.
pub fn model_orientation(x: u32, y: u32, z: u32) -> (r: ModelOrientation)
    ensures
        r == orientation_of(x, y, z),
{
    let mut orientation = ModelOrientation::Q;
    if x % 0x8000_0000 != 0 {
        orientation = ModelOrientation::X;
    }
    if y % 0x8000_0000 != 0 {
        orientation = ModelOrientation::Y;
    }
    if z % 0x8000_0000 != 0 {
        orientation = ModelOrientation::Z;
    }
    orientation
}

/// The range that quantized positions are fractions of, as float bit
/// patterns, and the dominant axis of packed positions.
#[derive(Debug, Clone, Copy)]
pub struct ModelClamps {
    pub mesh_min: [u32; 3],
    pub mesh_max: [u32; 3],
    pub orientation: ModelOrientation,
}

/// The range of one layer of quantized texture coordinates, as float bit
/// patterns.
#[derive(Debug, Clone, Copy)]
pub struct UVClamps {
    pub multiplier: [u32; 2],
    pub start: [u32; 2],
}

/// Everything decoded from a mesh file.
#[derive(Debug, Clone)]
pub struct Data {
    pub materials: Vec<Material>,
    pub mesh: Mesh,
    pub polygons: Vec<PolygonInfo>,
    pub model_clamps: ModelClamps,
    pub uv_clamps: Vec<Option<UVClamps>>,
}

/// The index of the first of `ids` equal to `id`, or -1.
pub open spec fn first_index(ids: Seq<u64>, id: u64) -> int
    decreases ids.len(),
{
    if ids.len() == 0 {
        -1
    } else {
        let earlier = first_index(ids.drop_last(), id);
        if earlier >= 0 {
            earlier
        } else if ids.last() == id {
            ids.len() - 1
        } else {
            -1
        }
    }
}

/// The identities of `materials`, in order.
pub open spec fn material_ids(materials: Seq<Material>) -> Seq<u64> {
    materials.map_values(|m: Material| m.material_id)
}

/// The material index that polygon group entry `mat_num` resolves to, or -1.
pub open spec fn resolved_material(
    mat_num: u32,
    groups: Seq<MaterialGroup>,
    materials: Seq<Material>,
) -> int {
    if mat_num < groups.len() {
        first_index(material_ids(materials), groups[mat_num as int].material_id)
    } else {
        -1
    }
}

proof fn lemma_first_index_range(ids: Seq<u64>, id: u64)
    ensures
        -1 <= first_index(ids, id) < ids.len(),
        first_index(ids, id) >= 0 ==> ids[first_index(ids, id)] == id,
    decreases ids.len(),
{
    if ids.len() > 0 {
        lemma_first_index_range(ids.drop_last(), id);
    }
}

pub(crate) proof fn lemma_first_index_prefix(ids: Seq<u64>, id: u64, k: int)
    requires
        0 <= k <= ids.len(),
        first_index(ids.subrange(0, k), id) >= 0,
    ensures
        first_index(ids, id) == first_index(ids.subrange(0, k), id),
    decreases ids.len(),
{
    if ids.len() == k {
        assert(ids.subrange(0, k) =~= ids);
    } else {
        assert(ids.drop_last().subrange(0, k) =~= ids.subrange(0, k));
        lemma_first_index_prefix(ids.drop_last(), id, k);
    }
}

/// The index of the first material whose identity is `id`.
fn find_material(materials: &Vec<Material>, id: u64) -> (r: Option<u32>)
    requires
        materials@.len() <= u32::MAX,
    ensures
        r is Some <==> first_index(material_ids(materials@), id) >= 0,
        r is Some ==> r->Some_0 == first_index(material_ids(materials@), id),
{
    let mut i: usize = 0;
    while i < materials.len()
        invariant
            materials@.len() <= u32::MAX,
            i <= materials@.len(),
            first_index(material_ids(materials@).subrange(0, i as int), id) == -1,
        decreases materials.len() - i,
    {
        let ghost ids = material_ids(materials@);
        assert(ids.subrange(0, i + 1).drop_last() =~= ids.subrange(0, i as int));
        if materials[i].material_id == id {
            proof {
                lemma_first_index_prefix(ids, id, i + 1);
            }
            return Some(i as u32);
        }
        i = i + 1;
    }
    assert(material_ids(materials@).subrange(0, materials@.len() as int) =~= material_ids(
        materials@,
    ));
    None
}

/// Replaces each polygon group's material-group number with the index of
/// the first material that the material group names.
pub fn fix_material_index(
    polygons: &mut Vec<PolygonInfo>,
    material_groups: &Vec<MaterialGroup>,
    materials: &Vec<Material>,
) -> (r: Result<(), DecodeError>)
    requires
        materials@.len() <= u32::MAX,
    ensures
        r is Ok <==> forall|i: int|
            0 <= i < old(polygons)@.len() ==> resolved_material(
                #[trigger] old(polygons)@[i].mat_num,
                material_groups@,
                materials@,
            ) >= 0,
        r is Ok ==> {
            &&& final(polygons)@.len() == old(polygons)@.len()
            &&& forall|i: int|
                0 <= i < old(polygons)@.len() ==> {
                    let old_p = old(polygons)@[i];
                    let new_p = #[trigger] final(polygons)@[i];
                    &&& new_p.mat_num == resolved_material(
                        old_p.mat_num,
                        material_groups@,
                        materials@,
                    )
                    &&& new_p == PolygonInfo { mat_num: new_p.mat_num, ..old_p }
                    &&& new_p.mat_num < materials@.len()
                }
        },
{
    let ghost start = polygons@;
    let mut i: usize = 0;
    while i < polygons.len()
        invariant
            materials@.len() <= u32::MAX,
            start == old(polygons)@,
            polygons@.len() == start.len(),
            i <= start.len(),
            forall|j: int|
                0 <= j < i ==> resolved_material(
                    #[trigger] start[j].mat_num,
                    material_groups@,
                    materials@,
                ) >= 0,
            forall|j: int|
                0 <= j < start.len() ==> {
                    let new_p = #[trigger] polygons@[j];
                    if j < i {
                        &&& new_p.mat_num == resolved_material(
                            start[j].mat_num,
                            material_groups@,
                            materials@,
                        )
                        &&& new_p == PolygonInfo { mat_num: new_p.mat_num, ..start[j] }
                        &&& new_p.mat_num < materials@.len()
                    } else {
                        new_p == start[j]
                    }
                },
        decreases start.len() - i,
    {
        let group_index = polygons[i].mat_num as usize;
        if group_index >= material_groups.len() {
            assert(resolved_material(start[i as int].mat_num, material_groups@, materials@) == -1);
            return Err(DecodeError::UnresolvedReference { value: group_index as u64 });
        }
        let material_id = material_groups[group_index].material_id;
        proof {
            lemma_first_index_range(material_ids(materials@), material_id);
        }
        match find_material(materials, material_id) {
            Some(index) => {
                let mut polygon = polygons[i];
                polygon.mat_num = index;
                polygons.set(i, polygon);
            },
            None => {
                return Err(DecodeError::UnresolvedReference { value: material_id });
            },
        }
        i = i + 1;
    }
    Ok(())
}

/// Moves past a section that starts with its own length.
fn skip_sized_section(input: &mut Cursor) -> (r: Result<(), DecodeError>)
    ensures
        final(input).bytes() == old(input).bytes(),
        ({
            let s = old(input).bytes();
            let p = old(input).pos() as int;
            &&& r is Ok <==> p + 4 <= s.len() && p + le_u32(s, p) <= u64::MAX
            &&& r is Ok ==> final(input).pos() == p + le_u32(s, p)
        }),
{
    let start = input.position();
    let len = input.read_u32()?;
    if start > u64::MAX - len as u64 {
        return Err(DecodeError::SeekOutOfRange { offset: start });
    }
    input.seek_to(start + len as u64);
    Ok(())
}

/// Whether the material-group section at `g` can be read: records of 76
/// bytes, of which the first 12 are read.
pub open spec fn groups_ok(s: Seq<u8>, g: int) -> bool {
    &&& g + 8 <= s.len()
    &&& forall|i: int|
        0 <= i < le_u32(s, g + 4) ==> #[trigger] (g + 8 + 76 * i) + 12 <= s.len() && g + 8 + 76 * i
            + 76 <= u64::MAX
    &&& g + le_u32(s, g) <= u64::MAX
}

/// Reads the material-group section.
fn parse_material_groups(input: &mut Cursor) -> (r: Result<Vec<MaterialGroup>, DecodeError>)
    ensures
        final(input).bytes() == old(input).bytes(),
        ({
            let s = old(input).bytes();
            let g = old(input).pos() as int;
            &&& r is Ok <==> groups_ok(s, g)
            &&& r is Ok ==> {
                &&& final(input).pos() == g + le_u32(s, g)
                &&& r->Ok_0@.len() == le_u32(s, g + 4)
                &&& forall|i: int|
                    0 <= i < r->Ok_0@.len() ==> (#[trigger] r->Ok_0@[i]).material_id == le_u64(
                        s,
                        g + 8 + 76 * i + 4,
                    )
            }
        }),
{
    let ghost s = input.bytes();
    let ghost g = input.pos() as int;
    let start = input.position();
    let len = input.read_u32()?;
    let count = input.read_u32()?;
    let mut groups: Vec<MaterialGroup> = Vec::new();
    let mut i: u32 = 0;
    while i < count
        invariant
            s == old(input).bytes(),
            g == old(input).pos(),
            g + 8 <= s.len(),
            count == le_u32(s, g + 4),
            input.bytes() == s,
            i <= count,
            input.pos() == g + 8 + 76 * i,
            groups@.len() == i,
            forall|j: int|
                0 <= j < i ==> #[trigger] (g + 8 + 76 * j) + 12 <= s.len() && g + 8 + 76 * j + 76
                    <= u64::MAX,
            forall|j: int|
                0 <= j < i ==> (#[trigger] groups@[j]).material_id == le_u64(s, g + 8 + 76 * j + 4),
        decreases count - i,
    {
        let group = match MaterialGroup::parse(input) {
            Ok(group) => group,
            Err(err) => {
                assert(!((g + 8 + 76 * i) + 12 <= s.len() && g + 8 + 76 * i + 76 <= u64::MAX));
                return Err(err);
            },
        };
        groups.push(group);
        i = i + 1;
    }
    if start > u64::MAX - len as u64 {
        return Err(DecodeError::SeekOutOfRange { offset: start });
    }
    input.seek_to(start + len as u64);
    Ok(groups)
}

/// Whether the bone identity section at `b` can be read: records of 56
/// bytes, of which the first 8 are read.
pub open spec fn bone_ids_ok(s: Seq<u8>, b: int) -> bool {
    &&& b + 8 <= s.len()
    &&& forall|i: int|
        0 <= i < le_u32(s, b + 4) ==> #[trigger] (b + 8 + 56 * i) + 8 <= s.len() && b + 8 + 56 * i
            + 56 <= u64::MAX
    &&& b + le_u32(s, b) <= u64::MAX
}

/// Reads the bone identity section: each record holds a 64-bit identity and
/// 48 bytes that are passed over.
fn parse_bone_ids(input: &mut Cursor) -> (r: Result<Vec<u64>, DecodeError>)
    ensures
        final(input).bytes() == old(input).bytes(),
        ({
            let s = old(input).bytes();
            let p = old(input).pos() as int;
            &&& r is Ok <==> bone_ids_ok(s, p)
            &&& r is Ok ==> {
                &&& final(input).pos() == p + le_u32(s, p)
                &&& r->Ok_0@.len() == le_u32(s, p + 4)
                &&& forall|i: int|
                    0 <= i < r->Ok_0@.len() ==> #[trigger] r->Ok_0@[i] == le_u64(s, p + 8 + 56 * i)
            }
        }),
{
    let ghost s = input.bytes();
    let ghost p = input.pos() as int;
    let start = input.position();
    let len = input.read_u32()?;
    let count = input.read_u32()?;
    let mut ids: Vec<u64> = Vec::new();
    let mut i: u32 = 0;
    while i < count
        invariant
            s == old(input).bytes(),
            p == old(input).pos(),
            p + 8 <= s.len(),
            count == le_u32(s, p + 4),
            input.bytes() == s,
            i <= count,
            input.pos() == p + 8 + 56 * i,
            ids@.len() == i,
            forall|j: int|
                0 <= j < i ==> #[trigger] (p + 8 + 56 * j) + 8 <= s.len() && p + 8 + 56 * j + 56
                    <= u64::MAX,
            forall|j: int| 0 <= j < i ==> #[trigger] ids@[j] == le_u64(s, p + 8 + 56 * j),
        decreases count - i,
    {
        let id = match input.read_u64() {
            Ok(id) => id,
            Err(err) => {
                assert(!((p + 8 + 56 * i) + 8 <= s.len()));
                return Err(err);
            },
        };
        ids.push(id);
        match input.seek_by(0x30) {
            Ok(()) => {},
            Err(err) => {
                assert(!(p + 8 + 56 * i + 56 <= u64::MAX));
                return Err(err);
            },
        }
        i = i + 1;
    }
    if start > u64::MAX - len as u64 {
        return Err(DecodeError::SeekOutOfRange { offset: start });
    }
    input.seek_to(start + len as u64);
    Ok(ids)
}

/// Reads the position clamps: the range corners and the orientation flags.
fn parse_model_clamps(input: &mut Cursor) -> (r: Result<ModelClamps, DecodeError>)
    ensures
        final(input).bytes() == old(input).bytes(),
        ({
            let s = old(input).bytes();
            let p = old(input).pos() as int;
            &&& r is Ok <==> p + 80 <= s.len() && p + 104 <= u64::MAX
            &&& r is Ok ==> {
                let c = r->Ok_0;
                &&& c.mesh_min@ == seq![le_u32(s, p + 8), le_u32(s, p + 12), le_u32(s, p + 16)]
                &&& c.mesh_max@ == seq![le_u32(s, p + 20), le_u32(s, p + 24), le_u32(s, p + 28)]
                &&& c.orientation == orientation_of(
                    le_u32(s, p + 68),
                    le_u32(s, p + 72),
                    le_u32(s, p + 76),
                )
                &&& final(input).pos() == p + 104
            }
        }),
{
    proof {
        input.lemma_len_fits();
    }
    input.seek_by(0x08)?;
    let min_x = input.read_u32()?;
    let min_y = input.read_u32()?;
    let min_z = input.read_u32()?;
    let max_x = input.read_u32()?;
    let max_y = input.read_u32()?;
    let max_z = input.read_u32()?;
    input.seek_by(0x24)?;
    let flag_x = input.read_u32()?;
    let flag_y = input.read_u32()?;
    let flag_z = input.read_u32()?;
    let orientation = model_orientation(flag_x, flag_y, flag_z);
    input.seek_by(0x18)?;
    let c = ModelClamps {
        mesh_min: [min_x, min_y, min_z],
        mesh_max: [max_x, max_y, max_z],
        orientation,
    };
    assert(c.mesh_min@ =~= seq![min_x, min_y, min_z]);
    assert(c.mesh_max@ =~= seq![max_x, max_y, max_z]);
    Ok(c)
}

/// Whether the texture-coordinate clamps at `u` can be read: a count, then
/// records of 20 bytes whose layer number is below six.
pub open spec fn uv_clamps_ok(s: Seq<u8>, u: int) -> bool {
    &&& u + 4 <= s.len()
    &&& forall|i: int|
        0 <= i < le_u32(s, u) ==> #[trigger] (u + 4 + 20 * i) + 20 <= s.len() && le_u32(
            s,
            u + 4 + 20 * i,
        ) < 6
}

/// Reads the texture-coordinate clamps: a count, then records of a layer
/// number (below six) and four floats.
fn parse_uv_clamps(input: &mut Cursor) -> (r: Result<Vec<Option<UVClamps>>, DecodeError>)
    ensures
        final(input).bytes() == old(input).bytes(),
        ({
            let s = old(input).bytes();
            let u = old(input).pos() as int;
            &&& r is Ok <==> uv_clamps_ok(s, u)
            &&& r is Ok ==> final(input).pos() == u + 4 + 20 * le_u32(s, u)
        }),
        r is Ok ==> r->Ok_0@.len() == 6,
{
    let ghost s = input.bytes();
    let ghost u = input.pos() as int;
    let count = input.read_u32()?;
    let mut clamps: Vec<Option<UVClamps>> = vec![None, None, None, None, None, None];
    let mut i: u32 = 0;
    while i < count
        invariant
            s == old(input).bytes(),
            u == old(input).pos(),
            u + 4 <= s.len(),
            count == le_u32(s, u),
            input.bytes() == s,
            i <= count,
            input.pos() == u + 4 + 20 * i,
            clamps@.len() == 6,
            forall|j: int|
                0 <= j < i ==> #[trigger] (u + 4 + 20 * j) + 20 <= s.len() && le_u32(
                    s,
                    u + 4 + 20 * j,
                ) < 6,
        decreases count - i,
    {
        if !input.has(20) {
            assert(!((u + 4 + 20 * i) + 20 <= s.len()));
            return Err(DecodeError::UnexpectedEnd { offset: input.position() });
        }
        let layer = input.read_u32()?;
        let u_multiplier = input.read_u32()?;
        let v_multiplier = input.read_u32()?;
        let u_start = input.read_u32()?;
        let v_start = input.read_u32()?;
        if layer >= 6 {
            assert(!(le_u32(s, u + 4 + 20 * i) < 6));
            return Err(DecodeError::UvLayerOutOfRange { layer });
        }
        clamps.set(
            layer as usize,
            Some(UVClamps { multiplier: [u_multiplier, v_multiplier], start: [u_start, v_start] }),
        );
        i = i + 1;
    }
    Ok(clamps)
}

/// The mesh file version that is decoded.
pub const MESH_VERSION: u8 = 55;

/// The offset of material record `i` of the list that starts at `m`.
pub open spec fn material_start(s: Seq<u8>, m: int, i: nat) -> int
    decreases i,
{
    if i == 0 {
        m
    } else {
        material_end(s, material_start(s, m, (i - 1) as nat))
    }
}

/// The offset just after the header (envelope, name, version) of a mesh
/// file at `p`.
pub open spec fn mesh_header_end(s: Seq<u8>, p: int) -> int {
    let (start, len) = name_frame(s, envelope_end(s, p));
    start + len + 1
}

/// The offset of the material count of a mesh file at `p`.
pub open spec fn material_count_at(s: Seq<u8>, p: int) -> int {
    mesh_header_end(s, p) + 20
}

/// Whether the header and the materials of a mesh file at `p` decode.
#[verifier::opaque]
pub open spec fn materials_stage_ok(s: Seq<u8>, p: int) -> bool {
    let e = envelope_end(s, p);
    let h = mesh_header_end(s, p);
    let m = material_count_at(s, p);
    &&& envelope_ok(s, p)
    &&& name_ok(s, e)
    &&& h <= s.len()
    &&& s[h - 1] == MESH_VERSION
    &&& m + 4 <= s.len()
    &&& forall|i: nat| i < le_u32(s, m) ==> material_ok(s, #[trigger] material_start(s, m + 4, i))
}

/// The offset after the materials of a mesh file at `p`.
pub open spec fn materials_end(s: Seq<u8>, p: int) -> int {
    let m = material_count_at(s, p);
    material_start(s, m + 4, le_u32(s, m) as nat)
}

/// Reads the header and the materials of a mesh file.
fn parse_materials_stage(input: &mut Cursor, texture_mapping: &ChecksumMap) -> (r: Result<
    Vec<Material>,
    DecodeError,
>)
    ensures
        final(input).bytes() == old(input).bytes(),
        ({
            let s = old(input).bytes();
            let p = old(input).pos() as int;
            let m = material_count_at(s, p);
            &&& r is Ok <==> materials_stage_ok(s, p)
            &&& r is Ok ==> {
                &&& final(input).pos() == materials_end(s, p)
                &&& r->Ok_0@.len() == le_u32(s, m)
                &&& forall|i: int|
                    0 <= i < r->Ok_0@.len() ==> is_material_at(
                        #[trigger] r->Ok_0@[i],
                        s,
                        material_start(s, m + 4, i as nat),
                        texture_mapping.view(),
                    )
            }
            &&& fits(s, p as u64, 4) && !is_versioned(le_u32(s, p)) ==> r == Err::<
                Vec<Material>,
                DecodeError,
            >(DecodeError::UnsupportedFormat { magic: le_u32(s, p) })
            &&& envelope_ok(s, p) && name_ok(s, envelope_end(s, p)) && mesh_header_end(s, p)
                <= s.len() && s[mesh_header_end(s, p) - 1] != MESH_VERSION ==> r == Err::<
                Vec<Material>,
                DecodeError,
            >(DecodeError::UnsupportedVersion { version: s[mesh_header_end(s, p) - 1] })
        }),
{
    reveal(materials_stage_ok);
    let ghost s = input.bytes();
    let ghost p = input.pos() as int;
    proof {
        input.lemma_len_fits();
    }
    let header = D3DHeader::parse(input)?;
    if header.version() != MESH_VERSION {
        return Err(DecodeError::UnsupportedVersion { version: header.version() });
    }
    input.seek_by(0x14)?;
    let ghost m = input.pos() as int;
    let material_count = input.read_u32()?;
    let mut materials: Vec<Material> = Vec::new();
    let mut id: u32 = 0;
    while id < material_count
        invariant
            s == old(input).bytes(),
            p == old(input).pos(),
            m == material_count_at(s, p),
            m + 4 <= s.len(),
            envelope_ok(s, p),
            name_ok(s, envelope_end(s, p)),
            mesh_header_end(s, p) <= s.len(),
            s[mesh_header_end(s, p) - 1] == MESH_VERSION,
            material_count == le_u32(s, m),
            input.bytes() == s,
            id <= material_count,
            materials@.len() == id,
            input.pos() == material_start(s, m + 4, id as nat),
            forall|i: nat| i < id ==> material_ok(s, #[trigger] material_start(s, m + 4, i)),
            forall|i: int|
                0 <= i < id ==> is_material_at(
                    #[trigger] materials@[i],
                    s,
                    material_start(s, m + 4, i as nat),
                    texture_mapping.view(),
                ),
        decreases material_count - id,
    {
        let material = match Material::parse(input, id, texture_mapping) {
            Ok(material) => material,
            Err(err) => {
                assert(!material_ok(s, material_start(s, m + 4, id as nat)));
                proof {
                    reveal(materials_stage_ok);
                }
                return Err(err);
            },
        };
        materials.push(material);
        id = id + 1;
    }
    Ok(materials)
}

/// The offset after a section at `x` that starts with its own length.
pub open spec fn sized_end(s: Seq<u8>, x: int) -> int {
    x + le_u32(s, x)
}

/// Whether a section that starts with its own length can be passed over at `x`.
pub open spec fn sized_ok(s: Seq<u8>, x: int) -> bool {
    x + 4 <= s.len() && sized_end(s, x) <= u64::MAX
}

/// The offset of the polygon section when the materials end at `t`.
pub open spec fn polygons_at(t: int) -> int {
    t + 9
}

/// The offsets of the material-group and bone identity sections and of the
/// clamps, when the materials end at `t`.
pub open spec fn groups_at(s: Seq<u8>, t: int) -> int {
    sized_end(s, sized_end(s, polygons_at(t)))
}

pub open spec fn bone_ids_at(s: Seq<u8>, t: int) -> int {
    sized_end(s, sized_end(s, groups_at(s, t)))
}

pub open spec fn clamps_at(s: Seq<u8>, t: int) -> int {
    sized_end(s, sized_end(s, sized_end(s, bone_ids_at(s, t))))
}

/// Whether the sections between the materials (ending at `t`) and the
/// clamps decode.
#[verifier::opaque]
pub open spec fn sections_stage_ok(s: Seq<u8>, t: int) -> bool {
    let pq = polygons_at(t);
    let g4 = sized_end(s, pq);
    let g6 = sized_end(s, groups_at(s, t));
    let g8 = sized_end(s, bone_ids_at(s, t));
    let g9 = sized_end(s, g8);
    &&& t + 9 <= s.len()
    &&& t + 5 + le_u32(s, t + 5) <= u64::MAX
    &&& pq + 8 <= s.len()
    &&& lods_end(s, pq + 8, le_u32(s, pq + 4) as nat) is Some
    &&& sized_end(s, pq) <= u64::MAX
    &&& sized_ok(s, g4)
    &&& groups_ok(s, groups_at(s, t))
    &&& sized_ok(s, g6)
    &&& bone_ids_ok(s, bone_ids_at(s, t))
    &&& sized_ok(s, g8)
    &&& sized_ok(s, g9)
}

/// The bone identities of a mesh file whose materials end at `t`.
pub open spec fn file_bone_ids(s: Seq<u8>, t: int) -> Seq<u64> {
    let b = bone_ids_at(s, t);
    Seq::new(le_u32(s, b + 4) as nat, |i: int| le_u64(s, b + 8 + 56 * i))
}

/// What the sections between the materials and the clamps hold.
struct Sections {
    face_data_start: u64,
    polygons: Vec<PolygonInfo>,
    groups: Vec<MaterialGroup>,
    bone_ids: Vec<u64>,
}

/// Reads the sections between the materials and the clamps.
fn parse_sections_stage(input: &mut Cursor) -> (r: Result<Sections, DecodeError>)
    ensures
        final(input).bytes() == old(input).bytes(),
        ({
            let s = old(input).bytes();
            let t = old(input).pos() as int;
            let pq = polygons_at(t);
            let g = groups_at(s, t);
            &&& r is Ok <==> sections_stage_ok(s, t)
            &&& r is Ok ==> {
                let x = r->Ok_0;
                &&& final(input).pos() == clamps_at(s, t)
                &&& x.face_data_start == t + 5 + le_u32(s, t + 5)
                &&& x.polygons@ == if le_u32(s, pq + 4) > 0 {
                    polygon_records(s, pq + 16, le_u32(s, pq + 12) as nat)
                } else {
                    Seq::empty()
                }
                &&& x.groups@.len() == le_u32(s, g + 4)
                &&& forall|i: int|
                    0 <= i < x.groups@.len() ==> (#[trigger] x.groups@[i]).material_id == le_u64(
                        s,
                        g + 8 + 76 * i + 4,
                    )
                &&& x.bone_ids@ == file_bone_ids(s, t)
            }
        }),
{
    reveal(sections_stage_ok);
    let ghost s = input.bytes();
    let ghost t = input.pos() as int;
    proof {
        input.lemma_len_fits();
    }
    input.seek_by(0x05)?;
    let face_base = input.position();
    let face_offset = input.read_u32()?;
    if face_base > u64::MAX - face_offset as u64 {
        return Err(DecodeError::SeekOutOfRange { offset: face_base });
    }
    let face_data_start = face_base + face_offset as u64;
    let polygons = PolygonInfo::parse(input)?;
    skip_sized_section(input)?;
    let groups = parse_material_groups(input)?;
    skip_sized_section(input)?;
    let bone_ids = parse_bone_ids(input)?;
    assert(bone_ids@ =~= file_bone_ids(s, t));
    skip_sized_section(input)?;
    skip_sized_section(input)?;
    Ok(Sections { face_data_start, polygons, groups, bone_ids })
}

/// The offset of the texture-coordinate clamps when the clamps are at `c`.
pub open spec fn uv_clamps_at(s: Seq<u8>, c: int) -> int {
    sized_end(s, c + 112)
}

/// The offset after the texture-coordinate clamps.
pub open spec fn after_uv_clamps(s: Seq<u8>, c: int) -> int {
    let u = uv_clamps_at(s, c);
    u + 4 + 20 * le_u32(s, u)
}

/// Whether the clamps, vertex counts and vertex buffer offsets at `c` decode.
#[verifier::opaque]
pub open spec fn vertex_stage_ok(s: Seq<u8>, c: int) -> bool {
    let w = after_uv_clamps(s, c);
    &&& c + 80 <= s.len()
    &&& c + 104 <= u64::MAX
    &&& c + 112 <= s.len()
    &&& sized_ok(s, c + 112)
    &&& uv_clamps_ok(s, uv_clamps_at(s, c))
    &&& le_u32(s, c + 108) == 0x31 ==> w + 44 <= s.len() && sized_end(s, w + 36) <= u64::MAX
}

/// Where the vertex section starts, and where the interleaved buffer starts.
pub open spec fn vertex_section_at(s: Seq<u8>, c: int) -> int {
    let w = after_uv_clamps(s, c);
    if le_u32(s, c + 108) == 0x31 {
        sized_end(s, w + 36)
    } else {
        w
    }
}

pub open spec fn interleaved_at(s: Seq<u8>, c: int) -> u64 {
    let w = after_uv_clamps(s, c);
    if le_u32(s, c + 108) == 0x31 {
        (w + 44) as u64
    } else {
        0
    }
}

/// What the clamps and vertex buffer description hold.
struct VertexInfo {
    model_clamps: ModelClamps,
    vert_count: u32,
    vert_flags: u32,
    uv_clamps: Vec<Option<UVClamps>>,
    vert_start: u64,
}

/// Reads the clamps, the vertex count and flags, the texture-coordinate
/// clamps and, for flag 0x31, where the interleaved buffer is.
fn parse_vertex_stage(input: &mut Cursor) -> (r: Result<VertexInfo, DecodeError>)
    ensures
        final(input).bytes() == old(input).bytes(),
        ({
            let s = old(input).bytes();
            let c = old(input).pos() as int;
            &&& r is Ok <==> vertex_stage_ok(s, c)
            &&& r is Ok ==> {
                let v = r->Ok_0;
                &&& final(input).pos() == vertex_section_at(s, c)
                &&& v.vert_count == le_u32(s, c + 104)
                &&& v.vert_flags == le_u32(s, c + 108)
                &&& v.vert_start == interleaved_at(s, c)
                &&& v.uv_clamps@.len() == 6
            }
        }),
{
    reveal(vertex_stage_ok);
    let ghost s = input.bytes();
    let ghost c = input.pos() as int;
    proof {
        input.lemma_len_fits();
    }
    let model_clamps = parse_model_clamps(input)?;
    let vert_count = input.read_u32()?;
    let vert_flags = input.read_u32()?;
    skip_sized_section(input)?;
    let uv_clamps = parse_uv_clamps(input)?;
    let mut vert_start: u64 = 0;
    if vert_flags == 0x31 {
        input.seek_by(0x24)?;
        let parameter_base = input.position();
        let parameter_offset = input.read_u32()?;
        let _vertex_buffer_size = input.read_u32()?;
        vert_start = input.position();
        if parameter_base > u64::MAX - parameter_offset as u64 {
            return Err(DecodeError::SeekOutOfRange { offset: parameter_base });
        }
        input.seek_to(parameter_base + parameter_offset as u64);
    }
    Ok(VertexInfo { model_clamps, vert_count, vert_flags, uv_clamps, vert_start })
}

/// Whether polygon group entry `mat_num` resolves: it names a material
/// group, and some material has that group's identity.
pub open spec fn resolves(mat_num: u32, group_ids: Seq<u64>, material_ids: Seq<u64>) -> bool {
    mat_num < group_ids.len() && first_index(material_ids, group_ids[mat_num as int]) >= 0
}

/// The polygon groups of the most detailed level of a mesh file whose
/// materials end at `t`.
pub open spec fn file_polygons(s: Seq<u8>, t: int) -> Seq<PolygonInfo> {
    let pq = polygons_at(t);
    if le_u32(s, pq + 4) > 0 {
        polygon_records(s, pq + 16, le_u32(s, pq + 12) as nat)
    } else {
        Seq::empty()
    }
}

/// The material identities of the material groups of a mesh file whose
/// materials end at `t`.
pub open spec fn file_group_ids(s: Seq<u8>, t: int) -> Seq<u64> {
    let g = groups_at(s, t);
    Seq::new(le_u32(s, g + 4) as nat, |i: int| le_u64(s, g + 8 + 76 * i + 4))
}

/// The identities of the materials of a mesh file at `p`.
pub open spec fn file_material_ids(s: Seq<u8>, p: int) -> Seq<u64> {
    let m = material_count_at(s, p);
    Seq::new(le_u32(s, m) as nat, |i: int| le_u64(s, material_start(s, m + 4, i as nat)))
}

/// Whether a whole mesh file at `p` decodes.
pub open spec fn mesh_file_ok(s: Seq<u8>, p: int) -> bool {
    let t = materials_end(s, p);
    let c = clamps_at(s, t);
    let polygons = file_polygons(s, t);
    let group_ids = file_group_ids(s, t);
    let mat_ids = file_material_ids(s, p);
    &&& materials_stage_ok(s, p)
    &&& sections_stage_ok(s, t)
    &&& vertex_stage_ok(s, c)
    &&& mesh_ok(
        s,
        vertex_section_at(s, c),
        (t + 5 + le_u32(s, t + 5)) as u64,
        interleaved_at(s, c),
        le_u32(s, c + 108),
        le_u32(s, c + 104),
        le_u32(s, bone_ids_at(s, t) + 4) as nat,
    )
    &&& forall|i: int|
        0 <= i < polygons.len() ==> resolves(#[trigger] polygons[i].mat_num, group_ids, mat_ids)
}

impl Data {
    /// Decodes a whole mesh file; every polygon group of the result names a
    /// material of the result.
    #[verifier::rlimit(80)]
    pub fn parse(input: &mut Cursor, texture_mapping: &ChecksumMap) -> (r: Result<
        Data,
        DecodeError,
    >)
        ensures
            final(input).bytes() == old(input).bytes(),
            ({
                let s = old(input).bytes();
                let p = old(input).pos() as int;
                &&& r is Ok <==> mesh_file_ok(s, p)
                &&& fits(s, p as u64, 4) && !is_versioned(le_u32(s, p)) ==> r == Err::<
                    Data,
                    DecodeError,
                >(DecodeError::UnsupportedFormat { magic: le_u32(s, p) })
                &&& envelope_ok(s, p) && name_ok(s, envelope_end(s, p)) && mesh_header_end(s, p)
                    <= s.len() && s[mesh_header_end(s, p) - 1] != MESH_VERSION ==> r == Err::<
                    Data,
                    DecodeError,
                >(DecodeError::UnsupportedVersion { version: s[mesh_header_end(s, p) - 1] })
            }),
            r is Ok ==> {
                let d = r->Ok_0;
                let s = old(input).bytes();
                let p = old(input).pos() as int;
                let t = materials_end(s, p);
                let c = clamps_at(s, t);
                let m = material_count_at(s, p);
                let polygons = file_polygons(s, t);
                &&& forall|i: int|
                    0 <= i < d.materials@.len() ==> is_material_at(
                        #[trigger] d.materials@[i],
                        s,
                        material_start(s, m + 4, i as nat),
                        texture_mapping.view(),
                    )
                &&& d.polygons@.len() == polygons.len()
                &&& forall|i: int|
                    0 <= i < polygons.len() ==> #[trigger] d.polygons@[i] == PolygonInfo {
                        mat_num: first_index(
                            file_material_ids(s, p),
                            file_group_ids(s, t)[polygons[i].mat_num as int],
                        ) as u32,
                        ..polygons[i]
                    }
                &&& is_mesh_at(
                    d.mesh,
                    s,
                    vertex_section_at(s, c),
                    (t + 5 + le_u32(s, t + 5)) as u64,
                    interleaved_at(s, c),
                    le_u32(s, c + 108),
                    le_u32(s, c + 104),
                    file_bone_ids(s, t),
                )
                &&& d.materials@.len() == le_u32(s, material_count_at(s, p))
                &&& d.uv_clamps@.len() == 6
                &&& forall|i: int|
                    0 <= i < d.polygons@.len() ==> #[trigger] d.polygons@[i].mat_num
                        < d.materials@.len()
            },
    {
        let ghost s = input.bytes();
        let ghost p = input.pos() as int;
        let materials = parse_materials_stage(input, texture_mapping)?;
        let ghost t = input.pos() as int;
        let sections = parse_sections_stage(input)?;
        let info = parse_vertex_stage(input)?;
        let mesh = Mesh::parse(
            input,
            sections.face_data_start,
            info.vert_start,
            info.vert_flags,
            info.vert_count,
            &sections.bone_ids,
        )?;
        let mut polygons = sections.polygons;
        let ghost before = polygons@;
        let ghost group_ids = file_group_ids(s, t);
        let ghost mat_ids = file_material_ids(s, p);
        proof {
            assert(before == file_polygons(s, t));
            assert(material_ids(materials@) =~= mat_ids);
            assert forall|i: int| 0 <= i < before.len() implies resolved_material(
                #[trigger] before[i].mat_num,
                sections.groups@,
                materials@,
            ) >= 0 <==> resolves(before[i].mat_num, group_ids, mat_ids) by {
                let x = before[i].mat_num;
                if x < sections.groups@.len() {
                    assert(sections.groups@[x as int].material_id == group_ids[x as int]);
                }
            }
        }
        match fix_material_index(&mut polygons, &sections.groups, &materials) {
            Ok(()) => {},
            Err(err) => {
                proof {
                    let i = choose|i: int|
                        0 <= i < before.len() && resolved_material(
                            #[trigger] before[i].mat_num,
                            sections.groups@,
                            materials@,
                        ) < 0;
                    assert(!resolves(before[i].mat_num, group_ids, mat_ids));
                    assert(!mesh_file_ok(s, p));
                }
                return Err(err);
            },
        }
        proof {
            assert forall|i: int| 0 <= i < before.len() implies #[trigger] polygons@[i]
                == PolygonInfo {
                mat_num: first_index(mat_ids, group_ids[before[i].mat_num as int]) as u32,
                ..before[i]
            } by {
                let x = before[i].mat_num;
                assert(sections.groups@[x as int].material_id == group_ids[x as int]);
            }
        }
        Ok(
            Data {
                materials,
                mesh,
                polygons,
                model_clamps: info.model_clamps,
                uv_clamps: info.uv_clamps,
            },
        )
    }
}

} // verus!
