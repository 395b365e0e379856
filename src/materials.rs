//! Materials of a mesh file and the groups that refer to them.
use vstd::prelude::*;

use crate::checksum_mapping::ChecksumMap;
use crate::cursor::{fits, le_u32, le_u64, Cursor};
use crate::error::DecodeError;
use crate::textures::{is_texture_record, Texture};

verus! {

/// How the payload of a material section is laid out.
#[derive(Debug, Clone, Copy, PartialEq, Eq, Structural)]
pub enum SectionShape {
    /// No payload.
    Empty,
    /// No payload, but the stream is moved by a fixed correction.
    Seek(i64),
    /// `count` records of the given number of bytes, all skipped.
    Records(u64),
    /// `count` texture usage records.
    Textures,
    /// A section with no known layout: the scan stops.
    Unknown,
}

/// The layout that the section hash `hash` selects.
#[verifier::opaque]
pub open spec fn section_shape(hash: u64) -> SectionShape {
    if hash == 0x0000000000000000 || hash == 0xa98f0652295de685 || hash == 0xfa21e4c88ae64d31
        || hash == 0x254edc517b59bb47 || hash == 0x7caceebcd26d075c || hash == 0xded5e1937b1689ef
        || hash == 0x181afb3ebb8f90ae || hash == 0x8c44858f42cd32d5 {
        SectionShape::Empty
    } else if hash == 0x264ac2f2544e517c || hash == 0x4e7d91f16f97a3c2 || hash
        == 0xfec9ffdf25b43917 {
        SectionShape::Seek(-4i64)
    } else if hash == 0x873c2f1835428297 {
        SectionShape::Seek(8i64)
    } else if hash == 0xb76e07d6bb899bfe || hash == 0xc16762f7763d62ab || hash
        == 0xe2ba743e952f9338 {
        SectionShape::Records(24u64)
    } else if hash == 0x004f023463d89fb0 || hash == 0x7bbca244e61f1a07 {
        SectionShape::Records(16u64)
    } else if hash == 0xbae4cbd77f139a91 {
        SectionShape::Records(12u64)
    } else if hash == 0x9004c5587575d6c0 {
        SectionShape::Records(9u64)
    } else if hash == 0x394c43af4ff52c94 {
        SectionShape::Records(20u64)
    } else if hash == 0x52a09151f1c3f2c7 {
        SectionShape::Textures
    } else {
        SectionShape::Unknown
    }
}

/// Looks up the layout that a section hash selects.
pub fn section_shape_of(hash: u64) -> (r: SectionShape)
    ensures
        r == section_shape(hash),
        r matches SectionShape::Records(n) ==> n <= 24,
{
    reveal(section_shape);
    match hash {
        0x0000000000000000 | 0xa98f0652295de685 | 0xfa21e4c88ae64d31 | 0x254edc517b59bb47
        | 0x7caceebcd26d075c | 0xded5e1937b1689ef | 0x181afb3ebb8f90ae | 0x8c44858f42cd32d5 => {
            SectionShape::Empty
        },
        0x264ac2f2544e517c | 0x4e7d91f16f97a3c2 | 0xfec9ffdf25b43917 => SectionShape::Seek(-4),
        0x873c2f1835428297 => SectionShape::Seek(8),
        0xb76e07d6bb899bfe | 0xc16762f7763d62ab | 0xe2ba743e952f9338 => SectionShape::Records(24),
        0x004f023463d89fb0 | 0x7bbca244e61f1a07 => SectionShape::Records(16),
        0xbae4cbd77f139a91 => SectionShape::Records(12),
        0x9004c5587575d6c0 => SectionShape::Records(9),
        0x394c43af4ff52c94 => SectionShape::Records(20),
        0x52a09151f1c3f2c7 => SectionShape::Textures,
        _ => SectionShape::Unknown,
    }
}

/// The (usage hash, content hash) pairs of `count` texture records at `r`.
pub open spec fn texture_pairs(s: Seq<u8>, r: int, count: int) -> Seq<(u64, u64)> {
    Seq::new(count as nat, |j: int| (le_u64(s, r + 16 * j), le_u64(s, r + 16 * j + 8)))
}

/// Decodes the header of the section at `q` and passes over its payload:
/// `None` where a read would run past the data, else the offset after it,
/// its texture records, and whether the scan stops there.
pub open spec fn section_step(s: Seq<u8>, q: int) -> Option<(int, Seq<(u64, u64)>, bool)> {
    if !(0 <= q && q + 12 <= s.len()) {
        None
    } else {
        let hash = le_u64(s, q);
        let count = le_u32(s, q + 8) as int;
        let r = q + 12;
        match section_shape(hash) {
            SectionShape::Unknown => Some((r, Seq::empty(), true)),
            SectionShape::Empty => Some((r, Seq::empty(), false)),
            SectionShape::Seek(d) => if r + d < 0 || r + d > u64::MAX {
                None
            } else {
                Some((r + d, Seq::empty(), false))
            },
            SectionShape::Records(n) => if n * count > 0 && r + n * count > s.len() {
                None
            } else {
                Some((r + n * count, Seq::empty(), false))
            },
            SectionShape::Textures => if count > 0 && r + 16 * count > s.len() {
                None
            } else {
                Some((r + 16 * count, texture_pairs(s, r, count), false))
            },
        }
    }
}

/// Scans `left` sections starting at `q`: `None` where a read would run past
/// the data, else the texture records met before the end of the list or the
/// first section of unknown layout.
pub open spec fn scan_sections(s: Seq<u8>, q: int, left: nat) -> Option<Seq<(u64, u64)>>
    decreases left,
{
    if left == 0 {
        Some(Seq::empty())
    } else {
        match section_step(s, q) {
            None => None,
            Some((next, t, stop)) => if stop {
                Some(t)
            } else {
                after(t, scan_sections(s, next, (left - 1) as nat))
            },
        }
    }
}

/// The hash of the section of unknown layout that ends a scan of `left`
/// sections from `q`, if one does.
pub open spec fn scan_unknown(s: Seq<u8>, q: int, left: nat) -> Option<u64>
    decreases left,
{
    if left == 0 {
        None
    } else {
        match section_step(s, q) {
            None => None,
            Some((next, t, stop)) => if stop {
                Some(le_u64(s, q))
            } else {
                scan_unknown(s, next, (left - 1) as nat)
            },
        }
    }
}

/// `scan` with `done` in front of its records.
pub open spec fn after(done: Seq<(u64, u64)>, scan: Option<Seq<(u64, u64)>>) -> Option<
    Seq<(u64, u64)>,
> {
    match scan {
        Some(t) => Some(done + t),
        None => None,
    }
}

/// `now` is `before` with one texture appended for each record of `t`.
pub open spec fn records_appended(
    before: Seq<Texture>,
    now: Seq<Texture>,
    t: Seq<(u64, u64)>,
    names: Map<u64, Seq<char>>,
) -> bool {
    &&& now.len() == before.len() + t.len()
    &&& forall|k: int| 0 <= k < before.len() ==> now[k] == before[k]
    &&& forall|k: int|
        before.len() <= k < now.len() ==> is_texture_record(
            #[trigger] now[k],
            t[k - before.len()].0,
            t[k - before.len()].1,
            names,
        )
}

proof fn lemma_records_appended_trans(
    a: Seq<Texture>,
    b: Seq<Texture>,
    c: Seq<Texture>,
    t1: Seq<(u64, u64)>,
    t2: Seq<(u64, u64)>,
    names: Map<u64, Seq<char>>,
)
    requires
        records_appended(a, b, t1, names),
        records_appended(b, c, t2, names),
    ensures
        records_appended(a, c, t1 + t2, names),
{
    let t = t1 + t2;
    assert forall|k: int| a.len() <= k < c.len() implies is_texture_record(
        #[trigger] c[k],
        t[k - a.len()].0,
        t[k - a.len()].1,
        names,
    ) by {
        if k < b.len() {
            assert(c[k] == b[k]);
        }
    }
}

/// Reads `count` texture usage records and appends them to `textures`.
fn parse_textures(
    input: &mut Cursor,
    count: u32,
    texture_mapping: &ChecksumMap,
    textures: &mut Vec<Texture>,
) -> (r: Result<(), DecodeError>)
    ensures
        final(input).bytes() == old(input).bytes(),
        ({
            let s = old(input).bytes();
            let p = old(input).pos() as int;
            &&& r is Ok <==> count == 0 || p + 16 * count <= s.len()
            &&& r is Ok ==> final(input).pos() == p + 16 * count && records_appended(
                old(textures)@,
                final(textures)@,
                texture_pairs(s, p, count as int),
                texture_mapping.view(),
            )
        }),
{
    let ghost s = input.bytes();
    let ghost p = input.pos() as int;
    let ghost before = textures@;
    let mut j: u32 = 0;
    assert(texture_pairs(s, p, 0) =~= Seq::<(u64, u64)>::empty());
    while j < count
        invariant
            s == old(input).bytes(),
            p == old(input).pos(),
            before == old(textures)@,
            input.bytes() == s,
            j <= count,
            input.pos() == p + 16 * j,
            j > 0 ==> input.pos() <= s.len(),
            records_appended(before, textures@, texture_pairs(s, p, j as int), texture_mapping.view()),
        decreases count - j,
    {
        let ghost prev = textures@;
        let t = Texture::parse(input, texture_mapping)?;
        textures.push(t);
        proof {
            let tp = texture_pairs(s, p, j + 1);
            assert(tp.drop_last() =~= texture_pairs(s, p, j as int));
            assert forall|k: int| before.len() <= k < textures@.len() implies is_texture_record(
                #[trigger] textures@[k],
                tp[k - before.len()].0,
                tp[k - before.len()].1,
                texture_mapping.view(),
            ) by {
                if k < prev.len() {
                    assert(textures@[k] == prev[k]);
                }
            }
        }
        j = j + 1;
    }
    Ok(())
}

/// Reads one section of a material and appends the textures it holds.
/// `Ok(true)` means the section had no known layout and the scan stops.
fn parse_section(
    input: &mut Cursor,
    texture_mapping: &ChecksumMap,
    textures: &mut Vec<Texture>,
) -> (r: Result<Option<u64>, DecodeError>)
    ensures
        final(input).bytes() == old(input).bytes(),
        ({
            let s = old(input).bytes();
            let q = old(input).pos() as int;
            &&& r is Ok <==> section_step(s, q) is Some
            &&& r is Ok ==> {
                let (next, t, stop) = section_step(s, q)->Some_0;
                &&& final(input).pos() == next
                &&& r->Ok_0 == if stop {
                    Some(le_u64(s, q))
                } else {
                    None
                }
                &&& records_appended(old(textures)@, final(textures)@, t, texture_mapping.view())
            }
        }),
{
    let ghost s = input.bytes();
    let ghost q = input.pos() as int;
    let hash = input.read_u64()?;
    let count = input.read_u32()?;
    let ghost r = input.pos() as int;
    let shape = section_shape_of(hash);
    match shape {
        SectionShape::Unknown => {
            return Ok(Some(hash));
        },
        SectionShape::Empty => {},
        SectionShape::Seek(delta) => {
            input.seek_by(delta)?;
        },
        SectionShape::Records(size) => {
            assert(size * count <= 24 * 0xFFFF_FFFF) by (nonlinear_arith)
                requires
                    size <= 24,
                    count <= 0xFFFF_FFFF,
            ;
            input.skip(size * count as u64)?;
        },
        SectionShape::Textures => {
            parse_textures(input, count, texture_mapping, textures)?;
        },
    }
    Ok(None)
}

/// Reads `count` sections, keeping the textures of those before the first
/// section of unknown layout.
fn parse_sections(input: &mut Cursor, count: u32, texture_mapping: &ChecksumMap) -> (r: Result<
    (Vec<Texture>, Option<u64>),
    DecodeError,
>)
    ensures
        final(input).bytes() == old(input).bytes(),
        ({
            let s = old(input).bytes();
            let q = old(input).pos() as int;
            let scan = scan_sections(s, q, count as nat);
            &&& r is Ok <==> scan is Some
            &&& r is Ok ==> records_appended(
                Seq::empty(),
                r->Ok_0.0@,
                scan->Some_0,
                texture_mapping.view(),
            )
            &&& r is Ok ==> r->Ok_0.1 == scan_unknown(s, q, count as nat)
        }),
{
    let ghost s = input.bytes();
    let ghost q0 = input.pos() as int;
    let ghost mut done: Seq<(u64, u64)> = Seq::empty();
    let mut textures: Vec<Texture> = Vec::new();
    let mut stopped = false;
    let mut unknown: Option<u64> = None;
    let mut i: u32 = 0;
    while i < count && !stopped
        invariant
            s == old(input).bytes(),
            q0 == old(input).pos(),
            stopped ==> unknown == scan_unknown(s, q0, count as nat),
            !stopped ==> unknown is None && scan_unknown(s, q0, count as nat) == scan_unknown(
                s,
                input.pos() as int,
                (count - i) as nat,
            ),
            input.bytes() == s,
            i <= count,
            records_appended(Seq::empty(), textures@, done, texture_mapping.view()),
            stopped ==> scan_sections(s, q0, count as nat) == Some(done),
            !stopped ==> scan_sections(s, q0, count as nat) == after(
                done,
                scan_sections(s, input.pos() as int, (count - i) as nat),
            ),
        decreases count - i,
    {
        let ghost q = input.pos() as int;
        let ghost prev = textures@;
        let found = parse_section(input, texture_mapping, &mut textures)?;
        proof {
            let (next, t, st) = section_step(s, q)->Some_0;
            lemma_records_appended_trans(
                Seq::empty(),
                prev,
                textures@,
                done,
                t,
                texture_mapping.view(),
            );
            if !st {
                assert(scan_sections(s, q, (count - i) as nat) == after(
                    t,
                    scan_sections(s, next, (count - i - 1) as nat),
                ));
                match scan_sections(s, next, (count - i - 1) as nat) {
                    Some(rest) => {
                        assert(done + (t + rest) =~= (done + t) + rest);
                    },
                    None => {},
                }
            }
            done = done + t;
        }
        stopped = found.is_some();
        unknown = found;
        i = i + 1;
    }
    if !stopped {
        assert(done + Seq::<(u64, u64)>::empty() =~= done);
    }
    Ok((textures, unknown))
}

/// Decodes `k` sections of known layout from `q`: the offset after them and
/// their texture records; `None` where one fails or has no known layout.
pub open spec fn scan_known(s: Seq<u8>, q: int, k: nat) -> Option<(int, Seq<(u64, u64)>)>
    decreases k,
{
    if k == 0 {
        Some((q, Seq::empty()))
    } else {
        match section_step(s, q) {
            Some((next, t, stop)) => if stop {
                None
            } else {
                match scan_known(s, next, (k - 1) as nat) {
                    Some((u, rest)) => Some((u, t + rest)),
                    None => None,
                }
            },
            None => None,
        }
    }
}

/// Sections of known layout followed by one of unknown layout: the scan
/// yields the records of the known sections, whatever follows the unknown
/// one (even bytes that would not decode).
pub proof fn lemma_unknown_section_ends_scan(s: Seq<u8>, q: int, left: nat, k: nat)
    requires
        k < left,
        scan_known(s, q, k) is Some,
        0 <= scan_known(s, q, k)->Some_0.0,
        scan_known(s, q, k)->Some_0.0 + 12 <= s.len(),
        section_shape(le_u64(s, scan_known(s, q, k)->Some_0.0)) == SectionShape::Unknown,
    ensures
        scan_sections(s, q, left) == Some(scan_known(s, q, k)->Some_0.1),
    decreases k,
{
    if k == 0 {
        assert(scan_known(s, q, k)->Some_0.1 =~= Seq::<(u64, u64)>::empty());
    } else {
        let (next, t, stop) = section_step(s, q)->Some_0;
        lemma_unknown_section_ends_scan(s, next, (left - 1) as nat, (k - 1) as nat);
    }
}

/// A material whose section list holds `k` sections of known layout and
/// then one of unknown layout decodes, with the textures of those `k`
/// sections; `Material::parse` then leaves the stream at the material's
/// declared end.
pub proof fn lemma_unknown_section_material(s: Seq<u8>, p: int, k: nat)
    requires
        ({
            let q = material_sections_at(s, p);
            let u = scan_known(s, q + 4, k);
            &&& p + 36 <= s.len()
            &&& (le_u32(s, p + 32) == 0 || q <= s.len())
            &&& q + 4 <= s.len()
            &&& k < le_u32(s, q)
            &&& u is Some
            &&& 0 <= u->Some_0.0
            &&& u->Some_0.0 + 12 <= s.len()
            &&& section_shape(le_u64(s, u->Some_0.0)) == SectionShape::Unknown
            &&& material_end(s, p) <= u64::MAX
        }),
    ensures
        material_ok(s, p),
        material_textures(s, p) == scan_known(s, material_sections_at(s, p) + 4, k)->Some_0.1,
{
    let q = material_sections_at(s, p);
    lemma_unknown_section_ends_scan(s, q + 4, le_u32(s, q) as nat, k);
}

/// A material: its identity and the textures it uses.
#[derive(Debug, Clone)]
pub struct Material {
    pub textures: Vec<Texture>,
    pub material_id: u64,
    /// The hash of the section of unknown layout that ended the scan of the
    /// material's sections, if one did (worth a warning).
    pub unknown_section: Option<u64>,
}

/// Offset of the section-count field of a material record at `p`.
pub open spec fn material_sections_at(s: Seq<u8>, p: int) -> int {
    p + 36 + 8 * le_u32(s, p + 32)
}

/// Offset just past a material record at `p`, as its header declares it.
pub open spec fn material_end(s: Seq<u8>, p: int) -> int {
    p + 16 + le_u32(s, p + 16)
}

/// Whether the material record at `p` decodes.
pub open spec fn material_ok(s: Seq<u8>, p: int) -> bool {
    let q = material_sections_at(s, p);
    &&& p + 36 <= s.len()
    &&& (le_u32(s, p + 32) == 0 || q <= s.len())
    &&& q + 4 <= s.len()
    &&& scan_sections(s, q + 4, le_u32(s, q) as nat) is Some
    &&& material_end(s, p) <= u64::MAX
}

/// The texture records of the material record at `p`.
pub open spec fn material_textures(s: Seq<u8>, p: int) -> Seq<(u64, u64)> {
    let q = material_sections_at(s, p);
    scan_sections(s, q + 4, le_u32(s, q) as nat)->Some_0
}

/// Whether `m` is the material decoded from the record at `p`: its identity
/// and one texture for each texture record that its sections hold.
pub open spec fn is_material_at(m: Material, s: Seq<u8>, p: int, names: Map<u64, Seq<char>>) -> bool {
    let t = material_textures(s, p);
    let q = material_sections_at(s, p);
    &&& m.material_id == le_u64(s, p)
    &&& m.unknown_section == scan_unknown(s, q + 4, le_u32(s, q) as nat)
    &&& m.textures@.len() == t.len()
    &&& forall|j: int|
        0 <= j < t.len() ==> is_texture_record(#[trigger] m.textures@[j], t[j].0, t[j].1, names)
}

impl Material {
    /// Reads one material record and leaves the stream at its declared end,
    /// whatever its sections held.
    pub fn parse(input: &mut Cursor, _index: u32, texture_mapping: &ChecksumMap) -> (r: Result<
        Material,
        DecodeError,
    >)
        ensures
            final(input).bytes() == old(input).bytes(),
            ({
                let s = old(input).bytes();
                let p = old(input).pos() as int;
                &&& r is Ok <==> material_ok(s, p)
                &&& r is Ok ==> final(input).pos() == material_end(s, p) && is_material_at(
                    r->Ok_0,
                    s,
                    p,
                    texture_mapping.view(),
                )
            }),
    {
        let ghost s = input.bytes();
        let ghost p = input.pos() as int;
        let material_id = input.read_u64()?;
        let _unknown_hash_2 = input.read_u32()?;
        let _unknown_hash_1 = input.read_u32()?;
        let header_size = input.read_u32()?;
        let section_end = input.position() as u128 + header_size as u128 - 4;
        if section_end > u64::MAX as u128 {
            return Err(DecodeError::SeekOutOfRange { offset: input.position() });
        }
        let _unknown_1 = input.read_u32()?;
        let _unknown_2 = input.read_u32()?;
        let _header_size_b = input.read_u32()?;
        let pair_count = input.read_u32()?;
        input.skip(8 * pair_count as u64)?;
        let section_count = input.read_u32()?;
        let (textures, unknown_section) = parse_sections(input, section_count, texture_mapping)?;
        input.seek_to(section_end as u64);
        Ok(Material { textures, material_id, unknown_section })
    }
}

/// A material group names the material that a polygon group uses.
#[derive(Debug, Clone, Copy, PartialEq, Eq, Structural)]
pub struct MaterialGroup {
    pub material_id: u64,
}

impl MaterialGroup {
    /// Reads one material group record of 76 bytes.
    pub fn parse(input: &mut Cursor) -> (r: Result<MaterialGroup, DecodeError>)
        ensures
            final(input).bytes() == old(input).bytes(),
            ({
                let s = old(input).bytes();
                let p = old(input).pos() as int;
                &&& r is Ok <==> fits(s, p as u64, 12) && p + 76 <= u64::MAX
                &&& r is Ok ==> r->Ok_0.material_id == le_u64(s, p + 4) && final(input).pos() == p
                    + 76
            }),
    {
        let _unknown = input.read_u32()?;
        let material_id = input.read_u64()?;
        input.seek_by(0x40)?;
        Ok(MaterialGroup { material_id })
    }
}

} // verus!
