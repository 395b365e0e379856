//! Polygon groups: ranges of the face array with their material.
use vstd::prelude::*;

use crate::cursor::{le_u32, Cursor};
use crate::error::DecodeError;

verus! {

/// One submesh of the most detailed level: a range of faces and vertices
/// and the material group (after assembly: the material) that it uses.
#[derive(Debug, Clone, Copy, PartialEq, Eq, Structural)]
pub struct PolygonInfo {
    pub vertex_start: u32,
    pub vertex_min: u32,
    pub vertex_max: u32,
    pub polygon_start: u32,
    pub polygon_count: u32,
    pub face_point_count: u32,
    pub mat_num: u32,
    pub lod_level: u32,
}

/// Bytes of the polygon record at `q`: eight more when its second header
/// length is 16.
pub open spec fn polygon_record_len(s: Seq<u8>, q: int) -> int {
    if le_u32(s, q + 72) == 0x10 {
        96
    } else {
        88
    }
}

/// The polygon record at `q`, read as a group of the most detailed level.
pub open spec fn polygon_record(s: Seq<u8>, q: int) -> PolygonInfo {
    PolygonInfo {
        vertex_min: le_u32(s, q + 48),
        vertex_max: le_u32(s, q + 52),
        vertex_start: le_u32(s, q + 56),
        polygon_start: le_u32(s, q + 60) / 3,
        polygon_count: le_u32(s, q + 64),
        face_point_count: le_u32(s, q + 68),
        mat_num: le_u32(s, q + polygon_record_len(s, q) - 8),
        lod_level: 0,
    }
}

/// The offset after `n` polygon records that start at `q`.
pub open spec fn polygon_records_end(s: Seq<u8>, q: int, n: nat) -> int
    decreases n,
{
    if n == 0 {
        q
    } else {
        let e = polygon_records_end(s, q, (n - 1) as nat);
        e + polygon_record_len(s, e)
    }
}

/// The `n` polygon records that start at `q`.
pub open spec fn polygon_records(s: Seq<u8>, q: int, n: nat) -> Seq<PolygonInfo>
    decreases n,
{
    if n == 0 {
        Seq::empty()
    } else {
        polygon_records(s, q, (n - 1) as nat).push(
            polygon_record(s, polygon_records_end(s, q, (n - 1) as nat)),
        )
    }
}

/// Whether the polygon record at `q` can be read.
pub open spec fn polygon_record_ok(s: Seq<u8>, q: int) -> bool {
    q + 76 <= s.len() && q + polygon_record_len(s, q) <= s.len()
}

/// Whether the `n` polygon records from `q` can be read.
pub open spec fn polygon_records_ok(s: Seq<u8>, q: int, n: nat) -> bool {
    forall|i: nat| i < n ==> polygon_record_ok(s, #[trigger] polygon_records_end(s, q, i))
}

/// Whether the `n` entries of the secondary polygon list from `q` can be
/// passed over: only the second header length of each is read.
pub open spec fn secondary_entries_ok(s: Seq<u8>, q: int, n: nat) -> bool {
    &&& forall|i: nat| i < n ==> #[trigger] polygon_records_end(s, q, i) + 76 <= s.len()
    &&& polygon_records_end(s, q, n) <= u64::MAX
}

/// The offset after the level-of-detail record at `l`, or `None` where a read
/// would run past the data or an offset past the largest one: the polygon
/// groups and their section end, the secondary list and its section end, 92
/// bytes, and a bone identity list of 8-byte entries.
pub open spec fn lod_step(s: Seq<u8>, l: int) -> Option<int> {
    let total = le_u32(s, l + 4);
    let b = l + le_u32(s, l);
    let count_b = le_u32(s, b + 4);
    let c = b + le_u32(s, b);
    let next = c + 100 + 8 * le_u32(s, c + 96);
    if l + 8 <= s.len() && polygon_records_ok(s, l + 8, total as nat) && b <= u64::MAX && b + 8
        <= s.len() && secondary_entries_ok(s, b + 8, count_b as nat) && c + 100 <= s.len()
        && next <= u64::MAX {
        Some(next)
    } else {
        None
    }
}

/// The offset after `n` level-of-detail records from `l`, or `None`.
pub open spec fn lods_end(s: Seq<u8>, l: int, n: nat) -> Option<int>
    decreases n,
{
    if n == 0 {
        Some(l)
    } else {
        match lods_end(s, l, (n - 1) as nat) {
            Some(e) => lod_step(s, e),
            None => None,
        }
    }
}

/// Moves to `base + len`, as a length-prefixed section that started at
/// `base` declares its end.
fn seek_section_end(input: &mut Cursor, base: u64, len: u32) -> (r: Result<(), DecodeError>)
    ensures
        final(input).bytes() == old(input).bytes(),
        r is Ok <==> base + len <= u64::MAX,
        r is Ok ==> final(input).pos() == base + len,
{
    if base > u64::MAX - len as u64 {
        return Err(DecodeError::SeekOutOfRange { offset: base });
    }
    input.seek_to(base + len as u64);
    Ok(())
}

/// Reads one polygon record.
fn parse_polygon_record(input: &mut Cursor) -> (r: Result<PolygonInfo, DecodeError>)
    ensures
        final(input).bytes() == old(input).bytes(),
        ({
            let s = old(input).bytes();
            let q = old(input).pos() as int;
            &&& r is Ok <==> q + 76 <= s.len() && q + polygon_record_len(s, q) <= s.len()
            &&& r is Ok ==> r->Ok_0 == polygon_record(s, q) && final(input).pos() == q
                + polygon_record_len(s, q)
        }),
{
    let ghost s = input.bytes();
    let ghost q = input.pos() as int;
    input.skip(48)?;
    let vertex_min = input.read_u32()?;
    let vertex_max = input.read_u32()?;
    let vertex_start = input.read_u32()?;
    let face_point_start = input.read_u32()?;
    let polygon_count = input.read_u32()?;
    let face_point_count = input.read_u32()?;
    let header_length_2 = input.read_u32()?;
    if header_length_2 == 0x10 {
        input.skip(8)?;
    }
    let _unknown = input.read_u32()?;
    let mat_num = input.read_u32()?;
    let _unknown = input.read_u32()?;
    Ok(
        PolygonInfo {
            vertex_start,
            vertex_min,
            vertex_max,
            polygon_start: face_point_start / 3,
            polygon_count,
            face_point_count,
            mat_num,
            lod_level: 0,
        },
    )
}

proof fn lemma_records_end_mono(s: Seq<u8>, q: int, i: nat, n: nat)
    requires
        i <= n,
    ensures
        polygon_records_end(s, q, i) <= polygon_records_end(s, q, n),
    decreases n,
{
    if i < n {
        lemma_records_end_mono(s, q, i, (n - 1) as nat);
    }
}

/// Reads one level-of-detail record; its polygon groups are appended to
/// `infos` when `keep` is set.
fn parse_lod(input: &mut Cursor, keep: bool, infos: &mut Vec<PolygonInfo>) -> (r: Result<
    (),
    DecodeError,
>)
    ensures
        final(input).bytes() == old(input).bytes(),
        ({
            let s = old(input).bytes();
            let l = old(input).pos() as int;
            &&& r is Ok <==> lod_step(s, l) is Some
            &&& r is Ok ==> final(input).pos() == lod_step(s, l)->Some_0
            &&& r is Ok ==> final(infos)@ == if keep {
                old(infos)@ + polygon_records(s, l + 8, le_u32(s, l + 4) as nat)
            } else {
                old(infos)@
            }
        }),
{
    let ghost s = input.bytes();
    let ghost l = input.pos() as int;
    let ghost before = infos@;
    proof {
        input.lemma_len_fits();
    }
    let part_start = input.position();
    let part_len = input.read_u32()?;
    let polygon_total = input.read_u32()?;
    let ghost q0 = input.pos() as int;
    let mut i: u32 = 0;
    while i < polygon_total
        invariant
            s == old(input).bytes(),
            l == old(input).pos(),
            before == old(infos)@,
            q0 == l + 8,
            l + 8 <= s.len(),
            polygon_total == le_u32(s, l + 4),
            input.bytes() == s,
            i <= polygon_total,
            input.pos() == polygon_records_end(s, q0, i as nat),
            forall|k: nat| k < i ==> polygon_record_ok(s, #[trigger] polygon_records_end(s, q0, k)),
            keep ==> infos@ == before + polygon_records(s, q0, i as nat),
            !keep ==> infos@ == before,
        decreases polygon_total - i,
    {
        let info = match parse_polygon_record(input) {
            Ok(info) => info,
            Err(err) => {
                assert(!polygon_record_ok(s, polygon_records_end(s, q0, i as nat)));
                return Err(err);
            },
        };
        if keep {
            infos.push(info);
            assert(infos@ =~= before + polygon_records(s, q0, (i + 1) as nat));
        }
        i = i + 1;
    }
    seek_section_end(input, part_start, part_len)?;
    let lod_b_start = input.position();
    let lod_b_len = input.read_u32()?;
    let polygon_2_count = input.read_u32()?;
    let ghost b8 = input.pos() as int;
    let mut k: u32 = 0;
    while k < polygon_2_count
        invariant
            s == old(input).bytes(),
            l == old(input).pos(),
            input.bytes() == s,
            s.len() <= u64::MAX,
            b8 == lod_b_start + 8,
            lod_b_start == l + le_u32(s, l),
            polygon_2_count == le_u32(s, lod_b_start + 4),
            k <= polygon_2_count,
            input.pos() == polygon_records_end(s, b8, k as nat),
            forall|j: nat| j < k ==> #[trigger] polygon_records_end(s, b8, j) + 76 <= s.len(),
        decreases polygon_2_count - k,
    {
        let ghost e = input.pos() as int;
        proof {
            lemma_records_end_mono(s, b8, (k + 1) as nat, polygon_2_count as nat);
        }
        match input.seek_by(0x48) {
            Ok(()) => {},
            Err(err) => {
                assert(!(polygon_records_end(s, b8, k as nat) + 76 <= s.len()));
                return Err(err);
            },
        }
        let header_length_2 = match input.read_u32() {
            Ok(v) => v,
            Err(err) => {
                assert(!(polygon_records_end(s, b8, k as nat) + 76 <= s.len()));
                return Err(err);
            },
        };
        assert(header_length_2 == le_u32(s, e + 72));
        if header_length_2 == 0x10 {
            input.seek_by(0x08)?;
        }
        input.seek_by(0x0C)?;
        k = k + 1;
    }
    seek_section_end(input, lod_b_start, lod_b_len)?;
    input.seek_by(0x5C)?;
    let _id_header_length = input.read_u32()?;
    let bone_id_total = input.read_u32()?;
    input.seek_by(8 * bone_id_total as i64)?;
    Ok(())
}

impl PolygonInfo {
    /// Reads the level-of-detail section and keeps the polygon groups of the
    /// most detailed level; the stream is left at the section's declared end.
    pub fn parse(input: &mut Cursor) -> (r: Result<Vec<PolygonInfo>, DecodeError>)
        ensures
            final(input).bytes() == old(input).bytes(),
            ({
                let s = old(input).bytes();
                let p = old(input).pos() as int;
                &&& r is Ok <==> p + 8 <= s.len() && lods_end(s, p + 8, le_u32(s, p + 4) as nat)
                    is Some && p + le_u32(s, p) <= u64::MAX
                &&& r is Ok ==> {
                    &&& final(input).pos() == p + le_u32(s, p)
                    &&& r->Ok_0@ == if le_u32(s, p + 4) > 0 {
                        polygon_records(s, p + 16, le_u32(s, p + 12) as nat)
                    } else {
                        Seq::empty()
                    }
                }
            }),
    {
        let ghost s = input.bytes();
        let ghost p = input.pos() as int;
        let mut infos: Vec<PolygonInfo> = Vec::new();
        let section_start = input.position();
        let section_len = input.read_u32()?;
        let lod_count = input.read_u32()?;
        let mut lod_level: u32 = 0;
        while lod_level < lod_count
            invariant
                s == old(input).bytes(),
                p == old(input).pos(),
                input.bytes() == s,
                section_start == p,
                section_len == le_u32(s, p),
                lod_count == le_u32(s, p + 4),
                p + 8 <= s.len(),
                lod_level <= lod_count,
                lods_end(s, p + 8, lod_level as nat) == Some(input.pos() as int),
                lod_level == 0 ==> input.pos() == p + 8 && infos@ == Seq::<PolygonInfo>::empty(),
                lod_level > 0 ==> infos@ == polygon_records(s, p + 16, le_u32(s, p + 12) as nat),
            decreases lod_count - lod_level,
        {
            match parse_lod(input, lod_level == 0, &mut infos) {
                Ok(()) => {},
                Err(err) => {
                    proof {
                        lemma_lods_end_none(s, p + 8, lod_level as nat, lod_count as nat);
                    }
                    return Err(err);
                },
            }
            if lod_level == 0 {
                assert(infos@ =~= polygon_records(s, p + 16, le_u32(s, p + 12) as nat));
            }
            lod_level = lod_level + 1;
        }
        seek_section_end(input, section_start, section_len)?;
        Ok(infos)
    }
}

proof fn lemma_lods_end_none(s: Seq<u8>, l: int, i: nat, n: nat)
    requires
        i < n,
        lods_end(s, l, i) is Some,
        lod_step(s, lods_end(s, l, i)->Some_0) is None,
    ensures
        lods_end(s, l, n) is None,
    decreases n,
{
    if n > i + 1 {
        lemma_lods_end_none(s, l, i, (n - 1) as nat);
    }
}

} // verus!
