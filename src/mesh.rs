//! Vertex and face data of a mesh, decoded to the integers that the file
//! stores; scaling them to coordinates is left to the caller.
use vstd::prelude::*;

use crate::cursor::{le_u16, le_u32, Cursor};
use crate::error::{Channel, DecodeError};

verus! {

/// A triangle: three indices into the vertex arrays.
#[derive(Debug, Clone, Copy, PartialEq, Eq, Structural)]
pub struct Face {
    pub a: u16,
    pub b: u16,
    pub c: u16,
}

/// A stored vertex position.
#[derive(Debug, Clone, Copy, PartialEq, Eq, Structural)]
pub enum RawPosition {
    /// Three 32-bit floats, as their bit patterns.
    Float { x: u32, y: u32, z: u32 },
    /// Three 16-bit fractions of the model's bounding range.
    Norm16 { x: u16, y: u16, z: u16 },
    /// Three 10-bit fractions, and two bits that refine the dominant axis.
    Packed(u32),
}

/// A stored set of four bone weights.
#[derive(Debug, Clone, Copy, PartialEq, Eq, Structural)]
pub enum RawWeights {
    /// Four 16-bit fractions.
    Norm16 { w1: u16, w2: u16, w3: u16, w4: u16 },
    /// Three 10-bit fields and a 2-bit bias; the first weight is the rest.
    Packed(u32),
}

/// A stored normal, before scaling and re-normalisation.
#[derive(Debug, Clone, Copy, PartialEq, Eq, Structural)]
pub enum RawNormal {
    Snorm8 { x: i8, y: i8, z: i8 },
    Snorm16 { x: i16, y: i16, z: i16 },
}

/// A stored texture coordinate.
#[derive(Debug, Clone, Copy, PartialEq, Eq, Structural)]
pub enum RawUv {
    /// Two 32-bit floats, as their bit patterns.
    Float { u: u32, v: u32 },
    /// Two signed 16-bit fractions of the layer's range.
    Snorm16 { u: i16, v: i16 },
    /// Two unsigned 16-bit fractions of the layer's range.
    Unorm16 { u: u16, v: u16 },
}

/// The four bone-table slots of a vertex.
#[derive(Debug, Clone, Copy, PartialEq, Eq, Structural)]
pub struct BoneInfo {
    pub bone_1: u8,
    pub bone_2: u8,
    pub bone_3: u8,
    pub bone_4: u8,
}

/// The four resolved bone identities of a vertex.
pub type BoneReference = [u64; 4];

/// Bytes per vertex of a position channel of `format`; zero for a format
/// with no decoder.
pub open spec fn position_size(format: u64) -> int {
    if format == 4 {
        12
    } else if format == 27 {
        8
    } else if format == 42 {
        4
    } else {
        0
    }
}

/// The position of `format` stored at `q`.
pub open spec fn position_at(s: Seq<u8>, q: int, format: u64) -> RawPosition {
    if format == 4 {
        RawPosition::Float { x: le_u32(s, q), y: le_u32(s, q + 4), z: le_u32(s, q + 8) }
    } else if format == 27 {
        RawPosition::Norm16 { x: le_u16(s, q), y: le_u16(s, q + 2), z: le_u16(s, q + 4) }
    } else {
        RawPosition::Packed(le_u32(s, q))
    }
}

/// Bytes per vertex of a weight channel of `format`.
pub open spec fn weights_size(format: u64) -> int {
    if format == 27 {
        8
    } else if format == 42 {
        4
    } else {
        0
    }
}

/// The weights of `format` stored at `q`.
pub open spec fn weights_at(s: Seq<u8>, q: int, format: u64) -> RawWeights {
    if format == 27 {
        RawWeights::Norm16 {
            w1: le_u16(s, q),
            w2: le_u16(s, q + 2),
            w3: le_u16(s, q + 4),
            w4: le_u16(s, q + 6),
        }
    } else {
        RawWeights::Packed(le_u32(s, q))
    }
}

/// Bytes per vertex of a normal channel of `format`.
pub open spec fn normal_size(format: u64) -> int {
    if format == 38 {
        4
    } else if format == 26 {
        8
    } else {
        0
    }
}

/// The normal of `format` stored at `q`.
pub open spec fn normal_at(s: Seq<u8>, q: int, format: u64) -> RawNormal {
    if format == 38 {
        RawNormal::Snorm8 { x: s[q] as i8, y: s[q + 1] as i8, z: s[q + 2] as i8 }
    } else {
        RawNormal::Snorm16 {
            x: le_u16(s, q) as i16,
            y: le_u16(s, q + 2) as i16,
            z: le_u16(s, q + 4) as i16,
        }
    }
}

/// Bytes per vertex of a texture-coordinate channel of `format`.
pub open spec fn uv_size(format: u64) -> int {
    if format == 3 {
        8
    } else if format == 24 || format == 25 {
        4
    } else {
        0
    }
}

/// The texture coordinate of `format` stored at `q`.
pub open spec fn uv_at(s: Seq<u8>, q: int, format: u64) -> RawUv {
    if format == 3 {
        RawUv::Float { u: le_u32(s, q), v: le_u32(s, q + 4) }
    } else if format == 24 {
        RawUv::Snorm16 { u: le_u16(s, q) as i16, v: le_u16(s, q + 2) as i16 }
    } else {
        RawUv::Unorm16 { u: le_u16(s, q), v: le_u16(s, q + 2) }
    }
}

/// The bone slots stored at `q`.
pub open spec fn bone_info_at(s: Seq<u8>, q: int) -> BoneInfo {
    BoneInfo { bone_1: s[q], bone_2: s[q + 1], bone_3: s[q + 2], bone_4: s[q + 3] }
}

/// The face stored at `q`.
pub open spec fn face_at(s: Seq<u8>, q: int) -> Face {
    Face { a: le_u16(s, q), b: le_u16(s, q + 2), c: le_u16(s, q + 4) }
}

/// Whether `n` records of `size` bytes can be read from `p`.
pub open spec fn records_fit(s: Seq<u8>, p: int, size: int, n: int) -> bool {
    n == 0 || p + size * n <= s.len()
}

proof fn lemma_record_in_range(p: int, size: int, i: int, n: int)
    requires
        0 <= i < n,
        size >= 0,
    ensures
        p + size * i + size <= p + size * n,
        size * (i + 1) == size * i + size,
{
    assert(size * i + size <= size * n) by (nonlinear_arith)
        requires
            0 <= i < n,
            size >= 0,
    ;
    assert(size * (i + 1) == size * i + size) by (nonlinear_arith);
}

/// Checks up front that `n` records of `size` bytes are there.
fn check_records(input: &Cursor, size: u64, n: u32) -> (r: bool)
    requires
        size <= 24,
    ensures
        r == records_fit(input.bytes(), input.pos() as int, size as int, n as int),
{
    if n == 0 {
        return true;
    }
    let len = input.len() as u64;
    let p = input.position();
    proof {
        lemma_record_in_range(0, size as int, 0, n as int);
        assert(size * n <= 24 * 0xFFFF_FFFF) by (nonlinear_arith)
            requires
                size <= 24,
                n <= 0xFFFF_FFFF,
        ;
    }
    p <= len && size * (n as u64) <= len - p
}

/// Reads the position channel: `vert_count` positions of `format`.
pub fn parse_positions(input: &mut Cursor, vert_count: u32, format: u64) -> (r: Result<Vec<RawPosition>, DecodeError>)
    ensures
        final(input).bytes() == old(input).bytes(),
        ({
            let s = old(input).bytes();
            let p = old(input).pos() as int;
            let size = position_size(format);
            &&& r is Ok <==> size > 0 && records_fit(s, p, size, vert_count as int)
            &&& r is Ok ==> final(input).pos() == p + size * vert_count && r->Ok_0@ == Seq::new(
                vert_count as nat,
                |i: int| position_at(s, p + position_size(format) * i, format),
            )
            &&& size == 0 ==> r == Err::<Vec<RawPosition>, DecodeError>(
                DecodeError::UnknownEncoding { channel: Channel::Position, code: format },
            )
        }),
{
    let ghost s = input.bytes();
    let ghost p = input.pos() as int;
    let size: u64 = if format == 4 {
        12
    } else if format == 27 {
        8
    } else if format == 42 {
        4
    } else {
        return Err(DecodeError::UnknownEncoding { channel: Channel::Position, code: format });
    };
    if !check_records(input, size, vert_count) {
        return Err(DecodeError::UnexpectedEnd { offset: input.position() });
    }
    let mut out: Vec<RawPosition> = Vec::new();
    let mut i: u32 = 0;
    while i < vert_count
        invariant
            s == old(input).bytes(),
            p == old(input).pos(),
            input.bytes() == s,
            size == position_size(format),
            size > 0,
            records_fit(s, p, size as int, vert_count as int),
            i <= vert_count,
            input.pos() == p + size * i,
            out@ == Seq::new(i as nat, |j: int| position_at(s, p + position_size(format) * j, format)),
        decreases vert_count - i,
    {
        proof {
            lemma_record_in_range(p, size as int, i as int, vert_count as int);
        }
        let item = if format == 4 {
            let x = input.read_u32()?;
            let y = input.read_u32()?;
            let z = input.read_u32()?;
            RawPosition::Float { x, y, z }
        } else if format == 27 {
            let x = input.read_u16()?;
            let y = input.read_u16()?;
            let z = input.read_u16()?;
            let _w = input.read_u16()?;
            RawPosition::Norm16 { x, y, z }
        } else {
            let word = input.read_u32()?;
            RawPosition::Packed(word)
        };
        out.push(item);
        i = i + 1;
        assert(out@ =~= Seq::new(i as nat, |j: int| position_at(s, p + position_size(format) * j, format)));
    }
    Ok(out)
}

/// Reads the bone-weight channel: `vert_count` weight sets of `format`.
pub fn parse_weights(input: &mut Cursor, vert_count: u32, format: u64) -> (r: Result<Vec<RawWeights>, DecodeError>)
    ensures
        final(input).bytes() == old(input).bytes(),
        ({
            let s = old(input).bytes();
            let p = old(input).pos() as int;
            let size = weights_size(format);
            &&& r is Ok <==> size > 0 && records_fit(s, p, size, vert_count as int)
            &&& r is Ok ==> final(input).pos() == p + size * vert_count && r->Ok_0@ == Seq::new(
                vert_count as nat,
                |i: int| weights_at(s, p + weights_size(format) * i, format),
            )
            &&& size == 0 ==> r == Err::<Vec<RawWeights>, DecodeError>(
                DecodeError::UnknownEncoding { channel: Channel::Weights, code: format },
            )
        }),
{
    let ghost s = input.bytes();
    let ghost p = input.pos() as int;
    let size: u64 = if format == 27 {
        8
    } else if format == 42 {
        4
    } else {
        return Err(DecodeError::UnknownEncoding { channel: Channel::Weights, code: format });
    };
    if !check_records(input, size, vert_count) {
        return Err(DecodeError::UnexpectedEnd { offset: input.position() });
    }
    let mut out: Vec<RawWeights> = Vec::new();
    let mut i: u32 = 0;
    while i < vert_count
        invariant
            s == old(input).bytes(),
            p == old(input).pos(),
            input.bytes() == s,
            size == weights_size(format),
            size > 0,
            records_fit(s, p, size as int, vert_count as int),
            i <= vert_count,
            input.pos() == p + size * i,
            out@ == Seq::new(i as nat, |j: int| weights_at(s, p + weights_size(format) * j, format)),
        decreases vert_count - i,
    {
        proof {
            lemma_record_in_range(p, size as int, i as int, vert_count as int);
        }
        let item = if format == 27 {
            let w1 = input.read_u16()?;
            let w2 = input.read_u16()?;
            let w3 = input.read_u16()?;
            let w4 = input.read_u16()?;
            RawWeights::Norm16 { w1, w2, w3, w4 }
        } else {
            let word = input.read_u32()?;
            RawWeights::Packed(word)
        };
        out.push(item);
        i = i + 1;
        assert(out@ =~= Seq::new(i as nat, |j: int| weights_at(s, p + weights_size(format) * j, format)));
    }
    Ok(out)
}

/// Reads the normal channel: `vert_count` normals of `format`.
pub fn parse_normals(input: &mut Cursor, vert_count: u32, format: u64) -> (r: Result<Vec<RawNormal>, DecodeError>)
    ensures
        final(input).bytes() == old(input).bytes(),
        ({
            let s = old(input).bytes();
            let p = old(input).pos() as int;
            let size = normal_size(format);
            &&& r is Ok <==> size > 0 && records_fit(s, p, size, vert_count as int)
            &&& r is Ok ==> final(input).pos() == p + size * vert_count && r->Ok_0@ == Seq::new(
                vert_count as nat,
                |i: int| normal_at(s, p + normal_size(format) * i, format),
            )
            &&& size == 0 ==> r == Err::<Vec<RawNormal>, DecodeError>(
                DecodeError::UnknownEncoding { channel: Channel::Normals, code: format },
            )
        }),
{
    let ghost s = input.bytes();
    let ghost p = input.pos() as int;
    let size: u64 = if format == 38 {
        4
    } else if format == 26 {
        8
    } else {
        return Err(DecodeError::UnknownEncoding { channel: Channel::Normals, code: format });
    };
    if !check_records(input, size, vert_count) {
        return Err(DecodeError::UnexpectedEnd { offset: input.position() });
    }
    let mut out: Vec<RawNormal> = Vec::new();
    let mut i: u32 = 0;
    while i < vert_count
        invariant
            s == old(input).bytes(),
            p == old(input).pos(),
            input.bytes() == s,
            size == normal_size(format),
            size > 0,
            records_fit(s, p, size as int, vert_count as int),
            i <= vert_count,
            input.pos() == p + size * i,
            out@ == Seq::new(i as nat, |j: int| normal_at(s, p + normal_size(format) * j, format)),
        decreases vert_count - i,
    {
        proof {
            lemma_record_in_range(p, size as int, i as int, vert_count as int);
        }
        let item = if format == 38 {
            let x = input.read_i8()?;
            let y = input.read_i8()?;
            let z = input.read_i8()?;
            let _w = input.read_i8()?;
            RawNormal::Snorm8 { x, y, z }
        } else {
            let x = input.read_i16()?;
            let y = input.read_i16()?;
            let z = input.read_i16()?;
            let _w = input.read_i16()?;
            RawNormal::Snorm16 { x, y, z }
        };
        out.push(item);
        i = i + 1;
        assert(out@ =~= Seq::new(i as nat, |j: int| normal_at(s, p + normal_size(format) * j, format)));
    }
    Ok(out)
}

/// Reads one texture-coordinate channel: `vert_count` coordinates of `format`.
pub fn parse_uv_list(input: &mut Cursor, vert_count: u32, format: u64) -> (r: Result<Vec<RawUv>, DecodeError>)
    ensures
        final(input).bytes() == old(input).bytes(),
        ({
            let s = old(input).bytes();
            let p = old(input).pos() as int;
            let size = uv_size(format);
            &&& r is Ok <==> size > 0 && records_fit(s, p, size, vert_count as int)
            &&& r is Ok ==> final(input).pos() == p + size * vert_count && r->Ok_0@ == Seq::new(
                vert_count as nat,
                |i: int| uv_at(s, p + uv_size(format) * i, format),
            )
            &&& size == 0 ==> r == Err::<Vec<RawUv>, DecodeError>(
                DecodeError::UnknownEncoding { channel: Channel::Uv, code: format },
            )
        }),
{
    let ghost s = input.bytes();
    let ghost p = input.pos() as int;
    let size: u64 = if format == 3 {
        8
    } else if format == 24 {
        4
    } else if format == 25 {
        4
    } else {
        return Err(DecodeError::UnknownEncoding { channel: Channel::Uv, code: format });
    };
    if !check_records(input, size, vert_count) {
        return Err(DecodeError::UnexpectedEnd { offset: input.position() });
    }
    let mut out: Vec<RawUv> = Vec::new();
    let mut i: u32 = 0;
    while i < vert_count
        invariant
            s == old(input).bytes(),
            p == old(input).pos(),
            input.bytes() == s,
            size == uv_size(format),
            size > 0,
            records_fit(s, p, size as int, vert_count as int),
            i <= vert_count,
            input.pos() == p + size * i,
            out@ == Seq::new(i as nat, |j: int| uv_at(s, p + uv_size(format) * j, format)),
        decreases vert_count - i,
    {
        proof {
            lemma_record_in_range(p, size as int, i as int, vert_count as int);
        }
        let item = if format == 3 {
            let u = input.read_u32()?;
            let v = input.read_u32()?;
            RawUv::Float { u, v }
        } else if format == 24 {
            let u = input.read_i16()?;
            let v = input.read_i16()?;
            RawUv::Snorm16 { u, v }
        } else {
            let u = input.read_u16()?;
            let v = input.read_u16()?;
            RawUv::Unorm16 { u, v }
        };
        out.push(item);
        i = i + 1;
        assert(out@ =~= Seq::new(i as nat, |j: int| uv_at(s, p + uv_size(format) * j, format)));
    }
    Ok(out)
}

/// Bytes per vertex of a bone-slot channel of `format`.
pub open spec fn bone_slots_size(format: u64) -> int {
    if format == 33 {
        4
    } else {
        0
    }
}

impl BoneInfo {
    /// Reads the four bone-table slots of one vertex.
    pub fn parse(input: &mut Cursor) -> (r: Result<BoneInfo, DecodeError>)
        ensures
            final(input).bytes() == old(input).bytes(),
            r is Ok <==> old(input).pos() + 4 <= old(input).bytes().len(),
            r is Ok ==> r->Ok_0 == bone_info_at(old(input).bytes(), old(input).pos() as int)
                && final(input).pos() == old(input).pos() + 4,
    {
        let bone_1 = input.read_u8()?;
        let bone_2 = input.read_u8()?;
        let bone_3 = input.read_u8()?;
        let bone_4 = input.read_u8()?;
        Ok(BoneInfo { bone_1, bone_2, bone_3, bone_4 })
    }
}

impl Face {
    /// Reads the three indices of one face.
    pub fn parse(input: &mut Cursor) -> (r: Result<Face, DecodeError>)
        ensures
            final(input).bytes() == old(input).bytes(),
            r is Ok <==> old(input).pos() + 6 <= old(input).bytes().len(),
            r is Ok ==> r->Ok_0 == face_at(old(input).bytes(), old(input).pos() as int)
                && final(input).pos() == old(input).pos() + 6,
    {
        let a = input.read_u16()?;
        let b = input.read_u16()?;
        let c = input.read_u16()?;
        Ok(Face { a, b, c })
    }
}

/// Reads the bone-slot channel: `vert_count` slot quadruples of `format`.
pub fn parse_bone_slots(input: &mut Cursor, vert_count: u32, format: u64) -> (r: Result<
    Vec<BoneInfo>,
    DecodeError,
>)
    ensures
        final(input).bytes() == old(input).bytes(),
        ({
            let s = old(input).bytes();
            let p = old(input).pos() as int;
            let size = bone_slots_size(format);
            &&& r is Ok <==> size > 0 && records_fit(s, p, size, vert_count as int)
            &&& r is Ok ==> final(input).pos() == p + size * vert_count && r->Ok_0@ == Seq::new(
                vert_count as nat,
                |i: int| bone_info_at(s, p + 4 * i),
            )
            &&& size == 0 ==> r == Err::<Vec<BoneInfo>, DecodeError>(
                DecodeError::UnknownEncoding { channel: Channel::Bones, code: format },
            )
        }),
{
    let ghost s = input.bytes();
    let ghost p = input.pos() as int;
    if format != 33 {
        return Err(DecodeError::UnknownEncoding { channel: Channel::Bones, code: format });
    }
    if !check_records(input, 4, vert_count) {
        return Err(DecodeError::UnexpectedEnd { offset: input.position() });
    }
    let mut out: Vec<BoneInfo> = Vec::new();
    let mut i: u32 = 0;
    while i < vert_count
        invariant
            s == old(input).bytes(),
            p == old(input).pos(),
            input.bytes() == s,
            records_fit(s, p, 4, vert_count as int),
            i <= vert_count,
            input.pos() == p + 4 * i,
            out@ == Seq::new(i as nat, |j: int| bone_info_at(s, p + 4 * j)),
        decreases vert_count - i,
    {
        proof {
            lemma_record_in_range(p, 4, i as int, vert_count as int);
        }
        let item = BoneInfo::parse(input)?;
        out.push(item);
        i = i + 1;
        assert(out@ =~= Seq::new(i as nat, |j: int| bone_info_at(s, p + 4 * j)));
    }
    Ok(out)
}

/// Reads `count` faces.
pub fn parse_faces(input: &mut Cursor, count: u32) -> (r: Result<Vec<Face>, DecodeError>)
    ensures
        final(input).bytes() == old(input).bytes(),
        ({
            let s = old(input).bytes();
            let p = old(input).pos() as int;
            &&& r is Ok <==> records_fit(s, p, 6, count as int)
            &&& r is Ok ==> final(input).pos() == p + 6 * count && r->Ok_0@ == Seq::new(
                count as nat,
                |i: int| face_at(s, p + 6 * i),
            )
        }),
{
    let ghost s = input.bytes();
    let ghost p = input.pos() as int;
    if !check_records(input, 6, count) {
        return Err(DecodeError::UnexpectedEnd { offset: input.position() });
    }
    let mut out: Vec<Face> = Vec::new();
    let mut i: u32 = 0;
    while i < count
        invariant
            s == old(input).bytes(),
            p == old(input).pos(),
            input.bytes() == s,
            records_fit(s, p, 6, count as int),
            i <= count,
            input.pos() == p + 6 * i,
            out@ == Seq::new(i as nat, |j: int| face_at(s, p + 6 * j)),
        decreases count - i,
    {
        proof {
            lemma_record_in_range(p, 6, i as int, count as int);
        }
        let item = Face::parse(input)?;
        out.push(item);
        i = i + 1;
        assert(out@ =~= Seq::new(i as nat, |j: int| face_at(s, p + 6 * j)));
    }
    Ok(out)
}

/// Passes over a channel whose values are not kept: four bytes per vertex
/// in each accepted format.
pub fn skip_channel(input: &mut Cursor, vert_count: u32, format: u64, channel: Channel) -> (r:
    Result<(), DecodeError>)
    ensures
        final(input).bytes() == old(input).bytes(),
        ({
            let s = old(input).bytes();
            let p = old(input).pos() as int;
            let known = if channel == Channel::Colors || channel == Channel::Colors2 {
                format == 33 || format == 39
            } else {
                format == 38
            };
            &&& r is Ok <==> known && records_fit(s, p, 4, vert_count as int)
            &&& r is Ok ==> final(input).pos() == p + 4 * vert_count
            &&& !known ==> r == Err::<(), DecodeError>(
                DecodeError::UnknownEncoding { channel, code: format },
            )
        }),
{
    let known = if channel == Channel::Colors || channel == Channel::Colors2 {
        format == 33 || format == 39
    } else {
        format == 38
    };
    if !known {
        return Err(DecodeError::UnknownEncoding { channel, code: format });
    }
    input.skip(4 * vert_count as u64)
}

/// Reads one vertex of the interleaved buffer that some meshes store
/// first: a float position, the bone slots, and eight bytes passed over.
fn parse_position_with_bones(input: &mut Cursor) -> (r: Result<(RawPosition, BoneInfo), DecodeError>)
    ensures
        final(input).bytes() == old(input).bytes(),
        ({
            let s = old(input).bytes();
            let p = old(input).pos() as int;
            &&& r is Ok <==> p + 16 <= s.len() && p + 24 <= u64::MAX
            &&& r is Ok ==> final(input).pos() == p + 24 && r->Ok_0 == (
                position_at(s, p, 4),
                bone_info_at(s, p + 12),
            )
        }),
{
    let x = input.read_u32()?;
    let y = input.read_u32()?;
    let z = input.read_u32()?;
    let bones = BoneInfo::parse(input)?;
    input.seek_by(8)?;
    Ok((RawPosition::Float { x, y, z }, bones))
}

/// Whether `vert_count` vertices of the interleaved buffer can be read from `q`.
pub open spec fn interleaved_ok(s: Seq<u8>, q: int, vert_count: u32) -> bool {
    forall|i: int|
        0 <= i < vert_count ==> #[trigger] (q + 24 * i) + 16 <= s.len() && q + 24 * i + 24
            <= u64::MAX
}

/// Reads `vert_count` vertices of the interleaved position and bone-slot buffer.
fn parse_positions_with_bones(input: &mut Cursor, vert_count: u32) -> (r: Result<
    (Vec<RawPosition>, Vec<BoneInfo>),
    DecodeError,
>)
    ensures
        final(input).bytes() == old(input).bytes(),
        ({
            let s = old(input).bytes();
            let p = old(input).pos() as int;
            &&& r is Ok <==> interleaved_ok(s, p, vert_count)
            &&& r is Ok ==> {
                &&& r->Ok_0.0@ == Seq::new(vert_count as nat, |i: int| position_at(s, p + 24 * i, 4))
                &&& r->Ok_0.1@ == Seq::new(vert_count as nat, |i: int| bone_info_at(s, p + 24 * i + 12))
            }
        }),
{
    let ghost s = input.bytes();
    let ghost p = input.pos() as int;
    let mut positions: Vec<RawPosition> = Vec::new();
    let mut bones: Vec<BoneInfo> = Vec::new();
    let mut i: u32 = 0;
    while i < vert_count
        invariant
            s == old(input).bytes(),
            p == old(input).pos(),
            input.bytes() == s,
            i <= vert_count,
            input.pos() == p + 24 * i,
            forall|j: int|
                0 <= j < i ==> #[trigger] (p + 24 * j) + 16 <= s.len() && p + 24 * j + 24 <= u64::MAX,
            positions@ == Seq::new(i as nat, |j: int| position_at(s, p + 24 * j, 4)),
            bones@ == Seq::new(i as nat, |j: int| bone_info_at(s, p + 24 * j + 12)),
        decreases vert_count - i,
    {
        let (position, slots) = match parse_position_with_bones(input) {
            Ok(v) => v,
            Err(err) => {
                assert(!((p + 24 * i) + 16 <= s.len() && p + 24 * i + 24 <= u64::MAX));
                return Err(err);
            },
        };
        positions.push(position);
        bones.push(slots);
        i = i + 1;
        assert(positions@ =~= Seq::new(i as nat, |j: int| position_at(s, p + 24 * j, 4)));
        assert(bones@ =~= Seq::new(i as nat, |j: int| bone_info_at(s, p + 24 * j + 12)));
    }
    Ok((positions, bones))
}

/// Common denominator of the four weights decoded from a packed word.
pub const WEIGHT_DENOMINATOR: i32 = 24552;

/// The four weights of a packed word, as numerators over
/// `WEIGHT_DENOMINATOR`: the second is the low field over 1023 * 8 plus the
/// top two bits over 8, the third the middle field over 1023 * 3, the fourth
/// the high field over 1023 * 4, and the first what remains of one.
pub open spec fn packed_weight_parts(word: u32) -> Seq<int> {
    let low = word as int % 1024;
    let mid = (word as int / 1024) % 1024;
    let high = (word as int / 1048576) % 1024;
    let top = word as int / 1073741824;
    let w2 = 3 * low + 3069 * top;
    let w3 = 8 * mid;
    let w4 = 6 * high;
    seq![24552 - w2 - w3 - w4, w2, w3, w4]
}

/// Decodes a packed bone-weight word into four numerators over
/// `WEIGHT_DENOMINATOR`.
pub fn packed_weights(word: u32) -> (r: [i32; 4])
    ensures
        r@ == packed_weight_parts(word).map_values(|v: int| v as i32),
        forall|k: int| 0 <= k < 4 ==> r[k] as int == packed_weight_parts(word)[k],
{
    let low = (word % 1024) as i32;
    let mid = ((word / 1024) % 1024) as i32;
    let high = ((word / 1048576) % 1024) as i32;
    let top = (word / 1073741824) as i32;
    let w2 = 3 * low + 3069 * top;
    let w3 = 8 * mid;
    let w4 = 6 * high;
    let r = [WEIGHT_DENOMINATOR - w2 - w3 - w4, w2, w3, w4];
    assert(r@ =~= packed_weight_parts(word).map_values(|v: int| v as i32));
    r
}

/// The four weights decoded from any packed word add up to exactly one.
pub proof fn lemma_packed_weights_sum_to_one(word: u32)
    ensures
        ({
            let w = packed_weight_parts(word);
            w[0] + w[1] + w[2] + w[3] == WEIGHT_DENOMINATOR
        }),
{
}

/// Number of vertex channel slots that a layout table can fill.
pub const SLOT_COUNT: usize = 14;

/// Slot indices of the channels, in the order their data is stored.
pub const SLOT_POSITION: usize = 0;
pub const SLOT_WEIGHTS: usize = 1;
pub const SLOT_BONES: usize = 2;
pub const SLOT_NORMALS: usize = 3;
pub const SLOT_TANGENTS: usize = 4;
pub const SLOT_BINORMALS: usize = 5;
pub const SLOT_UV5: usize = 6;
pub const SLOT_UV6: usize = 7;
pub const SLOT_COLORS: usize = 8;
pub const SLOT_COLORS2: usize = 9;
pub const SLOT_UV1: usize = 10;

/// The channel slot that a `(type, layer)` pair of a layout entry (both
/// counted from one) fills; -1 for a pair with no channel.
pub open spec fn slot_of(kind: u64, layer: u64) -> int {
    if kind == 1 && layer == 1 {
        0
    } else if kind == 4 && layer == 1 {
        1
    } else if kind == 5 && layer == 1 {
        2
    } else if kind == 2 && layer == 1 {
        3
    } else if kind == 3 && layer == 1 {
        4
    } else if kind == 2 && layer == 2 {
        5
    } else if kind == 7 && layer == 5 {
        6
    } else if kind == 7 && layer == 6 {
        7
    } else if kind == 6 && layer == 1 {
        8
    } else if kind == 6 && layer == 2 {
        9
    } else if kind == 7 && layer == 1 {
        10
    } else if kind == 7 && layer == 2 {
        11
    } else if kind == 7 && layer == 3 {
        12
    } else if kind == 7 && layer == 4 {
        13
    } else {
        -1
    }
}

/// Looks up the channel slot of a `(type, layer)` pair.
pub fn layout_slot(kind: u64, layer: u64) -> (r: Option<usize>)
    ensures
        r is Some <==> slot_of(kind, layer) >= 0,
        r is Some ==> r->Some_0 == slot_of(kind, layer) && r->Some_0 < SLOT_COUNT,
{
    match (kind, layer) {
        (1, 1) => Some(0),
        (4, 1) => Some(1),
        (5, 1) => Some(2),
        (2, 1) => Some(3),
        (3, 1) => Some(4),
        (2, 2) => Some(5),
        (7, 5) => Some(6),
        (7, 6) => Some(7),
        (6, 1) => Some(8),
        (6, 2) => Some(9),
        (7, 1) => Some(10),
        (7, 2) => Some(11),
        (7, 3) => Some(12),
        (7, 4) => Some(13),
        _ => None,
    }
}

/// The type of layout entry `i` of the table at `q`, counted from one.
pub open spec fn entry_kind(s: Seq<u8>, q: int, i: int) -> u64 {
    (le_u32(s, q + 20 * i) + 1) as u64
}

/// The numeric format of layout entry `i`, counted from one.
pub open spec fn entry_format(s: Seq<u8>, q: int, i: int) -> u64 {
    (le_u32(s, q + 20 * i + 4) + 1) as u64
}

/// The layer of layout entry `i`, counted from one.
pub open spec fn entry_layer(s: Seq<u8>, q: int, i: int) -> u64 {
    (le_u32(s, q + 20 * i + 8) + 1) as u64
}

/// The format of each channel slot after the first `n` entries of the layout
/// table at `q` (0 where no entry named the slot; a later entry wins).
pub open spec fn layout_after(s: Seq<u8>, q: int, n: nat) -> Seq<u64>
    decreases n,
{
    if n == 0 {
        Seq::new(SLOT_COUNT as nat, |k: int| 0u64)
    } else {
        let i = n - 1;
        let prev = layout_after(s, q, (n - 1) as nat);
        let slot = slot_of(entry_kind(s, q, i), entry_layer(s, q, i));
        if slot >= 0 {
            prev.update(slot, entry_format(s, q, i))
        } else {
            prev
        }
    }
}

proof fn lemma_layout_len(s: Seq<u8>, q: int, n: nat)
    ensures
        layout_after(s, q, n).len() == SLOT_COUNT,
    decreases n,
{
    if n > 0 {
        lemma_layout_len(s, q, (n - 1) as nat);
    }
}

/// Whether every one of the first `n` entries of the table at `q` names a channel.
pub open spec fn layout_known(s: Seq<u8>, q: int, n: nat) -> bool {
    forall|i: int| 0 <= i < n ==> slot_of(entry_kind(s, q, i), entry_layer(s, q, i)) >= 0
}

/// Reads a layout table of `count` entries of 20 bytes.
pub fn parse_layout(input: &mut Cursor, count: u32) -> (r: Result<Vec<u64>, DecodeError>)
    ensures
        final(input).bytes() == old(input).bytes(),
        ({
            let s = old(input).bytes();
            let p = old(input).pos() as int;
            &&& r is Ok <==> records_fit(s, p, 20, count as int) && layout_known(s, p, count as nat)
            &&& r is Ok ==> final(input).pos() == p + 20 * count && r->Ok_0@ == layout_after(
                s,
                p,
                count as nat,
            ) && r->Ok_0@.len() == SLOT_COUNT
            &&& forall|k: nat|
                records_fit(s, p, 20, count as int) && k < count && layout_known(s, p, k) && slot_of(
                    #[trigger] entry_kind(s, p, k as int),
                    entry_layer(s, p, k as int),
                ) < 0 ==> r == Err::<Vec<u64>, DecodeError>(
                    DecodeError::UnknownVertexLayout {
                        kind: entry_kind(s, p, k as int),
                        layer: entry_layer(s, p, k as int),
                    },
                )
        }),
{
    let ghost s = input.bytes();
    let ghost p = input.pos() as int;
    if !check_records(input, 20, count) {
        return Err(DecodeError::UnexpectedEnd { offset: input.position() });
    }
    let mut formats: Vec<u64> = Vec::new();
    let mut k: usize = 0;
    while k < SLOT_COUNT
        invariant
            k <= SLOT_COUNT,
            formats@ == Seq::new(k as nat, |j: int| 0u64),
        decreases SLOT_COUNT - k,
    {
        formats.push(0);
        k = k + 1;
        assert(formats@ =~= Seq::new(k as nat, |j: int| 0u64));
    }
    let mut i: u32 = 0;
    while i < count
        invariant
            s == old(input).bytes(),
            p == old(input).pos(),
            input.bytes() == s,
            records_fit(s, p, 20, count as int),
            i <= count,
            input.pos() == p + 20 * i,
            layout_known(s, p, i as nat),
            formats@ == layout_after(s, p, i as nat),
            formats@.len() == SLOT_COUNT,
        decreases count - i,
    {
        proof {
            lemma_layout_len(s, p, i as nat);
            lemma_record_in_range(p, 20, i as int, count as int);
        }
        let kind = input.read_u32()? as u64 + 1;
        let format = input.read_u32()? as u64 + 1;
        let layer = input.read_u32()? as u64 + 1;
        let _buffer = input.read_u32()?;
        let _offset = input.read_u32()?;
        match layout_slot(kind, layer) {
            Some(slot) => {
                formats.set(slot, format);
            },
            None => {
                assert(kind == entry_kind(s, p, i as int) && layer == entry_layer(s, p, i as int));
                assert(slot_of(entry_kind(s, p, i as int), entry_layer(s, p, i as int)) < 0);
                return Err(DecodeError::UnknownVertexLayout { kind, layer });
            },
        }
        i = i + 1;
    }
    Ok(formats)
}

/// Translates each vertex's bone slots through the file's bone table.
pub fn resolve_bones(infos: &Vec<BoneInfo>, bone_ids: &Vec<u64>) -> (r: Result<
    Vec<BoneReference>,
    DecodeError,
>)
    ensures
        r is Ok <==> forall|i: int|
            0 <= i < infos@.len() ==> {
                let b = #[trigger] infos@[i];
                &&& b.bone_1 < bone_ids@.len()
                &&& b.bone_2 < bone_ids@.len()
                &&& b.bone_3 < bone_ids@.len()
                &&& b.bone_4 < bone_ids@.len()
            },
        r is Ok ==> r->Ok_0@.len() == infos@.len() && forall|i: int|
            0 <= i < infos@.len() ==> {
                let b = #[trigger] infos@[i];
                r->Ok_0@[i]@ == seq![
                    bone_ids@[b.bone_1 as int],
                    bone_ids@[b.bone_2 as int],
                    bone_ids@[b.bone_3 as int],
                    bone_ids@[b.bone_4 as int],
                ]
            },
{
    let mut out: Vec<BoneReference> = Vec::new();
    let n = bone_ids.len();
    let mut i: usize = 0;
    while i < infos.len()
        invariant
            n == bone_ids@.len(),
            i <= infos@.len(),
            out@.len() == i,
            forall|j: int|
                0 <= j < i ==> {
                    let b = #[trigger] infos@[j];
                    &&& b.bone_1 < n
                    &&& b.bone_2 < n
                    &&& b.bone_3 < n
                    &&& b.bone_4 < n
                    &&& out@[j]@ == seq![
                        bone_ids@[b.bone_1 as int],
                        bone_ids@[b.bone_2 as int],
                        bone_ids@[b.bone_3 as int],
                        bone_ids@[b.bone_4 as int],
                    ]
                },
        decreases infos.len() - i,
    {
        let b = infos[i];
        if b.bone_1 as usize >= n {
            return Err(DecodeError::UnresolvedReference { value: b.bone_1 as u64 });
        }
        if b.bone_2 as usize >= n {
            return Err(DecodeError::UnresolvedReference { value: b.bone_2 as u64 });
        }
        if b.bone_3 as usize >= n {
            return Err(DecodeError::UnresolvedReference { value: b.bone_3 as u64 });
        }
        if b.bone_4 as usize >= n {
            return Err(DecodeError::UnresolvedReference { value: b.bone_4 as u64 });
        }
        let ids: BoneReference = [
            bone_ids[b.bone_1 as usize],
            bone_ids[b.bone_2 as usize],
            bone_ids[b.bone_3 as usize],
            bone_ids[b.bone_4 as usize],
        ];
        out.push(ids);
        i = i + 1;
        assert(out@[i - 1]@ =~= seq![
            bone_ids@[b.bone_1 as int],
            bone_ids@[b.bone_2 as int],
            bone_ids@[b.bone_3 as int],
            bone_ids@[b.bone_4 as int],
        ]);
    }
    Ok(out)
}

/// One layer of texture coordinates; `layer` (0 to 5) selects its clamp range.
#[derive(Debug, Clone)]
pub struct UvLayer {
    pub layer: u8,
    pub coords: Vec<RawUv>,
}

/// The vertex and face data of a mesh file.
#[derive(Debug, Clone)]
pub struct Mesh {
    pub positions: Vec<RawPosition>,
    pub normals: Vec<RawNormal>,
    pub faces: Vec<Face>,
    pub uv: Vec<UvLayer>,
    pub bones: Vec<BoneReference>,
    pub weights: Vec<RawWeights>,
}

/// The channel slot of texture-coordinate layer `l` (0 to 5).
pub open spec fn uv_slot(l: int) -> int {
    if l < 4 {
        SLOT_UV1 + l
    } else {
        SLOT_UV5 + (l - 4)
    }
}

/// The layers, in output order, that `layout` declares, or none when there
/// are no vertices.
pub open spec fn uv_layers_present(layout: Seq<u64>, vert_count: u32) -> Seq<u8> {
    if vert_count == 0 {
        Seq::empty()
    } else {
        Seq::new(6, |l: int| l as u8).filter(|l: u8| layout[uv_slot(l as int)] != 0)
    }
}

/// `n` when the slot is in the layout, else zero.
pub open spec fn if_present(layout: Seq<u64>, slot: int, n: u32) -> int {
    if layout[slot] != 0 {
        n as int
    } else {
        0
    }
}

/// Whether `vert_flags` is one of the global vertex flag values that are decoded.
pub open spec fn known_vert_flags(vert_flags: u32) -> bool {
    vert_flags == 0x00 || vert_flags == 0x01 || vert_flags == 0x03 || vert_flags == 0x05
        || vert_flags == 0x09 || vert_flags == 0x21 || vert_flags == 0x31
}

/// Bytes per vertex of the channel in `slot` stored in `format`; zero for a
/// format with no decoder.
pub open spec fn value_size(slot: int, format: u64) -> int {
    if slot == SLOT_POSITION {
        position_size(format)
    } else if slot == SLOT_WEIGHTS {
        weights_size(format)
    } else if slot == SLOT_BONES {
        bone_slots_size(format)
    } else if slot == SLOT_NORMALS {
        normal_size(format)
    } else if slot == SLOT_TANGENTS || slot == SLOT_BINORMALS {
        if format == 38 {
            4
        } else {
            0
        }
    } else if slot == SLOT_COLORS || slot == SLOT_COLORS2 {
        if format == 33 || format == 39 {
            4
        } else {
            0
        }
    } else {
        uv_size(format)
    }
}

/// The offset after the channels of slots `lo` to `hi - 1` that `layout`
/// declares, stored one after another from `e`; `None` where one has an
/// unknown format or runs past the data.
#[verifier::opaque]
pub open spec fn channels_between(
    s: Seq<u8>,
    layout: Seq<u64>,
    e: int,
    vert_count: u32,
    lo: int,
    hi: int,
) -> Option<int>
    decreases hi - lo,
{
    if hi <= lo {
        Some(e)
    } else {
        match channels_between(s, layout, e, vert_count, lo, hi - 1) {
            None => None,
            Some(q) => {
                let format = layout[hi - 1];
                let size = value_size(hi - 1, format);
                if format == 0 {
                    Some(q)
                } else if size > 0 && records_fit(s, q, size, vert_count as int) {
                    Some(q + size * vert_count)
                } else {
                    None
                }
            },
        }
    }
}

/// One more slot of `channels_between`.
proof fn lemma_channels_step(
    s: Seq<u8>,
    layout: Seq<u64>,
    e: int,
    vert_count: u32,
    lo: int,
    hi: int,
)
    requires
        lo < hi,
    ensures
        channels_between(s, layout, e, vert_count, lo, hi) == match channels_between(
            s,
            layout,
            e,
            vert_count,
            lo,
            hi - 1,
        ) {
            None => None,
            Some(q) => {
                let format = layout[hi - 1];
                let size = value_size(hi - 1, format);
                if format == 0 {
                    Some(q)
                } else if size > 0 && records_fit(s, q, size, vert_count as int) {
                    Some(q + size * vert_count)
                } else {
                    None
                }
            },
        },
{
    reveal_with_fuel(channels_between, 2);
}

proof fn lemma_channels_start(s: Seq<u8>, layout: Seq<u64>, e: int, vert_count: u32, lo: int)
    ensures
        channels_between(s, layout, e, vert_count, lo, lo) == Some(e),
{
    reveal_with_fuel(channels_between, 1);
}

proof fn lemma_channels_none(
    s: Seq<u8>,
    layout: Seq<u64>,
    e: int,
    vert_count: u32,
    lo: int,
    k: int,
    hi: int,
)
    requires
        lo <= k <= hi,
        channels_between(s, layout, e, vert_count, lo, k) is None,
    ensures
        channels_between(s, layout, e, vert_count, lo, hi) is None,
    decreases hi - k,
{
    if k < hi {
        lemma_channels_none(s, layout, e, vert_count, lo, k, hi - 1);
        lemma_channels_step(s, layout, e, vert_count, lo, hi);
    }
}

/// The coordinates of texture-coordinate layer `l` (0 to 5) when the
/// channels from `SLOT_UV5` on start at `e`.
pub open spec fn uv_values(s: Seq<u8>, layout: Seq<u64>, e: int, vert_count: u32, l: int) -> Seq<RawUv> {
    let slot = uv_slot(l);
    let format = layout[slot];
    let q = channels_between(s, layout, e, vert_count, SLOT_UV5 as int, slot)->Some_0;
    Seq::new(vert_count as nat, |i: int| uv_at(s, q + uv_size(format) * i, format))
}

/// Reads the texture-coordinate channel of `slot` if the layout declares it.
fn parse_uv_slot(input: &mut Cursor, layout: &Vec<u64>, slot: usize, vert_count: u32) -> (r:
    Result<Option<Vec<RawUv>>, DecodeError>)
    requires
        SLOT_UV5 <= slot < layout@.len(),
        slot != SLOT_COLORS && slot != SLOT_COLORS2,
    ensures
        final(input).bytes() == old(input).bytes(),
        ({
            let s = old(input).bytes();
            let q = old(input).pos() as int;
            let format = layout@[slot as int];
            let size = value_size(slot as int, format);
            &&& r is Ok <==> format == 0 || (size > 0 && records_fit(s, q, size, vert_count as int))
            &&& r is Ok ==> final(input).pos() == if format == 0 {
                q
            } else {
                q + size * vert_count
            }
        }),
        r is Ok ==> (r->Ok_0 is Some <==> layout@[slot as int] != 0),
        r is Ok && r->Ok_0 is Some ==> r->Ok_0->Some_0@.len() == vert_count,
        r is Ok && r->Ok_0 is Some ==> r->Ok_0->Some_0@ == Seq::new(
            vert_count as nat,
            |i: int|
                uv_at(
                    old(input).bytes(),
                    old(input).pos() + uv_size(layout@[slot as int]) * i,
                    layout@[slot as int],
                ),
        ),
{
    if layout[slot] == 0 {
        return Ok(None);
    }
    let coords = parse_uv_list(input, vert_count, layout[slot])?;
    Ok(Some(coords))
}

/// The channel that `slot` holds, as errors name it.
pub open spec fn slot_channel(slot: int) -> Channel {
    if slot == SLOT_POSITION {
        Channel::Position
    } else if slot == SLOT_WEIGHTS {
        Channel::Weights
    } else if slot == SLOT_BONES {
        Channel::Bones
    } else if slot == SLOT_NORMALS {
        Channel::Normals
    } else if slot == SLOT_TANGENTS {
        Channel::Tangents
    } else if slot == SLOT_BINORMALS {
        Channel::Binormals
    } else if slot == SLOT_COLORS {
        Channel::Colors
    } else if slot == SLOT_COLORS2 {
        Channel::Colors2
    } else {
        Channel::Uv
    }
}

/// Whether `layout` declares the channel in `slot` with a format that has no decoder.
pub open spec fn format_bad(layout: Seq<u64>, slot: int) -> bool {
    layout[slot] != 0 && value_size(slot, layout[slot]) == 0
}

/// Names the channel that `slot` holds.
fn channel_of_slot(slot: usize) -> (r: Channel)
    ensures
        r == slot_channel(slot as int),
{
    if slot == SLOT_POSITION {
        Channel::Position
    } else if slot == SLOT_WEIGHTS {
        Channel::Weights
    } else if slot == SLOT_BONES {
        Channel::Bones
    } else if slot == SLOT_NORMALS {
        Channel::Normals
    } else if slot == SLOT_TANGENTS {
        Channel::Tangents
    } else if slot == SLOT_BINORMALS {
        Channel::Binormals
    } else if slot == SLOT_COLORS {
        Channel::Colors
    } else if slot == SLOT_COLORS2 {
        Channel::Colors2
    } else {
        Channel::Uv
    }
}

/// Whether the channel in `slot` has a decoder for `format`.
fn format_known(slot: usize, format: u64) -> (r: bool)
    ensures
        r == (value_size(slot as int, format) > 0),
{
    if slot == SLOT_POSITION {
        format == 4 || format == 27 || format == 42
    } else if slot == SLOT_WEIGHTS {
        format == 27 || format == 42
    } else if slot == SLOT_BONES {
        format == 33
    } else if slot == SLOT_NORMALS {
        format == 38 || format == 26
    } else if slot == SLOT_TANGENTS || slot == SLOT_BINORMALS {
        format == 38
    } else if slot == SLOT_COLORS || slot == SLOT_COLORS2 {
        format == 33 || format == 39
    } else {
        format == 3 || format == 24 || format == 25
    }
}

/// Checks, in storage order, that every declared channel has a decoder for
/// its format; the first that has none is named.
fn check_formats(layout: &Vec<u64>) -> (r: Result<(), DecodeError>)
    requires
        layout@.len() == SLOT_COUNT,
    ensures
        r is Ok <==> forall|k: int| 0 <= k < SLOT_COUNT ==> !#[trigger] format_bad(layout@, k),
        forall|k: int|
            0 <= k < SLOT_COUNT && #[trigger] format_bad(layout@, k) && (forall|j: int|
                0 <= j < k ==> !format_bad(layout@, j)) ==> r == Err::<(), DecodeError>(
                DecodeError::UnknownEncoding { channel: slot_channel(k), code: layout@[k] },
            ),
{
    let mut k: usize = 0;
    while k < SLOT_COUNT
        invariant
            layout@.len() == SLOT_COUNT,
            k <= SLOT_COUNT,
            forall|j: int| 0 <= j < k ==> !#[trigger] format_bad(layout@, j),
        decreases SLOT_COUNT - k,
    {
        if layout[k] != 0 && !format_known(k, layout[k]) {
            let channel = channel_of_slot(k);
            assert(format_bad(layout@, k as int));
            return Err(DecodeError::UnknownEncoding { channel, code: layout[k] });
        }
        k = k + 1;
    }
    Ok(())
}

proof fn lemma_format_bad_fails(
    s: Seq<u8>,
    layout: Seq<u64>,
    e: int,
    vert_count: u32,
    lo: int,
    k: int,
    hi: int,
)
    requires
        lo <= k < hi,
        format_bad(layout, k),
    ensures
        channels_between(s, layout, e, vert_count, lo, hi) is None,
{
    lemma_channels_step(s, layout, e, vert_count, lo, k + 1);
    lemma_channels_none(s, layout, e, vert_count, lo, k + 1, hi);
}

/// What the buffer description at the start of the vertex section holds.
struct BufferInfo {
    face_buffer_count: u32,
    layout: Vec<u64>,
    face_point_count: u32,
    face_point_count_b: u32,
}

/// Whether the buffer description at `p` can be read: the counts, a layout
/// table of known entries, at most two face buffer descriptors, and the
/// table passed over.
pub open spec fn buffer_info_ok(s: Seq<u8>, p: int) -> bool {
    let face_buffers = le_u32(s, p + 8);
    let entries = le_u32(s, p + 12);
    let skipped = le_u32(s, p + 16);
    let fq = p + 20 + 20 * entries;
    &&& p + 20 <= s.len()
    &&& face_buffers <= 2
    &&& records_fit(s, p + 20, 20, entries as int)
    &&& layout_known(s, p + 20, entries as nat)
    &&& (face_buffers == 0 || fq + 20 * face_buffers <= s.len())
    &&& fq + 20 * face_buffers + 20 * skipped <= u64::MAX
}

/// Reads the buffer description: the face buffer count, the layout table,
/// the face buffer descriptors, and a table that is passed over.
fn parse_buffer_info(input: &mut Cursor) -> (r: Result<BufferInfo, DecodeError>)
    ensures
        final(input).bytes() == old(input).bytes(),
        ({
            let s = old(input).bytes();
            let p = old(input).pos() as int;
            let entries = le_u32(s, p + 12);
            let fq = p + 20 + 20 * entries;
            &&& p + 20 <= s.len() && le_u32(s, p + 8) > 2 ==> r == Err::<BufferInfo, DecodeError>(
                DecodeError::TooManyFaceBuffers { count: le_u32(s, p + 8) },
            )
            &&& r is Ok <==> buffer_info_ok(s, p)
            &&& forall|k: nat|
                p + 20 <= s.len() && le_u32(s, p + 8) <= 2 && records_fit(s, p + 20, 20, entries as int)
                    && k < entries && layout_known(s, p + 20, k) && slot_of(
                    #[trigger] entry_kind(s, p + 20, k as int),
                    entry_layer(s, p + 20, k as int),
                ) < 0 ==> r == Err::<BufferInfo, DecodeError>(
                    DecodeError::UnknownVertexLayout {
                        kind: entry_kind(s, p + 20, k as int),
                        layer: entry_layer(s, p + 20, k as int),
                    },
                )
            &&& r is Ok ==> {
                let b = r->Ok_0;
                &&& final(input).pos() == fq + 20 * b.face_buffer_count + 20 * le_u32(s, p + 16)
                &&& b.face_point_count_b == if b.face_buffer_count == 2 {
                    le_u32(s, fq + 32)
                } else {
                    0
                }
                &&& b.face_buffer_count == le_u32(s, p + 8)
                &&& b.face_buffer_count <= 2
                &&& b.layout@ == layout_after(s, p + 20, entries as nat)
                &&& layout_known(s, p + 20, entries as nat)
                &&& b.layout@.len() == SLOT_COUNT
                &&& b.face_point_count == if b.face_buffer_count >= 1 {
                    le_u32(s, fq + 12)
                } else {
                    0
                }
            }
        }),
{
    let ghost s = input.bytes();
    let ghost p = input.pos() as int;
    proof {
        input.lemma_len_fits();
    }
    input.seek_by(8)?;
    let face_buffer_count = input.read_u32()?;
    let entry_count = input.read_u32()?;
    let skipped_count = input.read_u32()?;
    if face_buffer_count > 2 {
        return Err(DecodeError::TooManyFaceBuffers { count: face_buffer_count });
    }
    let layout = parse_layout(input, entry_count)?;
    let ghost fq = input.pos() as int;
    let mut face_point_count: u32 = 0;
    let mut face_point_count_b: u32 = 0;
    let mut i: u32 = 0;
    while i < face_buffer_count
        invariant
            s == old(input).bytes(),
            p == old(input).pos(),
            s.len() <= u64::MAX,
            face_buffer_count == le_u32(s, p + 8),
            fq == p + 20 + 20 * le_u32(s, p + 12),
            layout_known(s, p + 20, le_u32(s, p + 12) as nat),
            input.bytes() == s,
            i <= face_buffer_count <= 2,
            input.pos() == fq + 20 * i,
            i > 0 ==> fq + 20 * i <= s.len(),
            i >= 1 ==> face_point_count == le_u32(s, fq + 12),
            i == 0 ==> face_point_count == 0,
            i >= 2 ==> face_point_count_b == le_u32(s, fq + 32),
            i < 2 ==> face_point_count_b == 0,
        decreases face_buffer_count - i,
    {
        let count = match input.seek_by(12) {
            Ok(()) => match input.read_u32() {
                Ok(v) => v,
                Err(err) => {
                    return Err(err);
                },
            },
            Err(err) => {
                return Err(err);
            },
        };
        match input.read_u32() {
            Ok(_) => {},
            Err(err) => {
                return Err(err);
            },
        }
        if i == 0 {
            face_point_count = count;
        } else {
            face_point_count_b = count;
        }
        i = i + 1;
    }
    input.seek_by(0x14 * skipped_count as i64)?;
    Ok(BufferInfo { face_buffer_count, layout, face_point_count, face_point_count_b })
}

/// The channels read before the texture coordinates.
struct MainChannels {
    positions: Vec<RawPosition>,
    bone_infos: Vec<BoneInfo>,
    weights: Vec<RawWeights>,
    normals: Vec<RawNormal>,
}

/// The start of the channel in `slot` (below `SLOT_UV5`) when the channels
/// start at `a`.
pub open spec fn main_channel_at(s: Seq<u8>, layout: Seq<u64>, a: int, vert_count: u32, slot: int) -> int {
    channels_between(s, layout, a, vert_count, 0, slot)->Some_0
}

/// The positions a mesh decodes: those of the position channel at `q` where
/// the layout declares one, else those of the interleaved buffer (flag
/// 0x31), else none.
pub open spec fn positions_read(
    s: Seq<u8>,
    layout: Seq<u64>,
    vert_flags: u32,
    vert_start: u64,
    q: int,
    vert_count: u32,
) -> Seq<RawPosition> {
    let format = layout[SLOT_POSITION as int];
    if format != 0 {
        Seq::new(vert_count as nat, |i: int| position_at(s, q + position_size(format) * i, format))
    } else if vert_flags == 0x31 {
        Seq::new(vert_count as nat, |i: int| position_at(s, vert_start + 24 * i, 4))
    } else {
        Seq::empty()
    }
}

/// The bone slots a mesh decodes: those of the bone channel at `b` where
/// the layout declares one, else those of the interleaved buffer (flag
/// 0x31), else none.
pub open spec fn bone_slots_read(
    s: Seq<u8>,
    vert_flags: u32,
    vert_start: u64,
    has_channel: bool,
    b: int,
    vert_count: u32,
) -> Seq<BoneInfo> {
    if has_channel {
        Seq::new(vert_count as nat, |i: int| bone_info_at(s, b + 4 * i))
    } else if vert_flags == 0x31 {
        Seq::new(vert_count as nat, |i: int| bone_info_at(s, vert_start + 24 * i + 12))
    } else {
        Seq::empty()
    }
}

/// The weights of the weight channel at `q`, if the layout declares one.
pub open spec fn weights_read(s: Seq<u8>, layout: Seq<u64>, q: int, vert_count: u32) -> Seq<RawWeights> {
    let format = layout[SLOT_WEIGHTS as int];
    if format != 0 {
        Seq::new(vert_count as nat, |i: int| weights_at(s, q + weights_size(format) * i, format))
    } else {
        Seq::empty()
    }
}

/// The normals of the normal channel at `q`, if the layout declares one.
pub open spec fn normals_read(s: Seq<u8>, layout: Seq<u64>, q: int, vert_count: u32) -> Seq<RawNormal> {
    let format = layout[SLOT_NORMALS as int];
    if format != 0 {
        Seq::new(vert_count as nat, |i: int| normal_at(s, q + normal_size(format) * i, format))
    } else {
        Seq::empty()
    }
}

/// Reads the interleaved buffer (for flag 0x31) and the position, weight,
/// bone, normal, tangent and binormal channels that `layout` declares.
#[verifier::rlimit(60)]
fn parse_main_channels(
    input: &mut Cursor,
    layout: &Vec<u64>,
    vert_flags: u32,
    vert_start: u64,
    vert_count: u32,
) -> (r: Result<MainChannels, DecodeError>)
    requires
        layout@.len() == SLOT_COUNT,
    ensures
        final(input).bytes() == old(input).bytes(),
        ({
            let s = old(input).bytes();
            let a = old(input).pos() as int;
            let interleaved = if vert_flags == 0x31 {
                vert_count as int
            } else {
                0
            };
            let end = channels_between(s, layout@, a, vert_count, 0, SLOT_UV5 as int);
            &&& r is Ok <==> known_vert_flags(vert_flags) && (vert_flags == 0x31 ==> interleaved_ok(
                s,
                vert_start as int,
                vert_count,
            )) && end is Some
            &&& r is Ok ==> {
                let m = r->Ok_0;
                &&& final(input).pos() == end->Some_0
                &&& m.bone_infos@ == bone_slots_read(
                    s,
                    vert_flags,
                    vert_start,
                    layout@[SLOT_BONES as int] != 0,
                    main_channel_at(s, layout@, a, vert_count, SLOT_BONES as int),
                    vert_count,
                )
                &&& m.positions@ == positions_read(s, layout@, vert_flags, vert_start, a, vert_count)
                &&& m.weights@ == weights_read(
                    s,
                    layout@,
                    main_channel_at(s, layout@, a, vert_count, SLOT_WEIGHTS as int),
                    vert_count,
                )
                &&& m.normals@ == normals_read(
                    s,
                    layout@,
                    main_channel_at(s, layout@, a, vert_count, SLOT_NORMALS as int),
                    vert_count,
                )
            }
        }),
{
    let ghost s = input.bytes();
    let ghost a = input.pos() as int;
    let ghost lay = layout@;
    let mut positions: Vec<RawPosition> = Vec::new();
    let mut bone_infos: Vec<BoneInfo> = Vec::new();
    if vert_flags == 0x31 {
        let resume = input.position();
        input.seek_to(vert_start);
        let (first_positions, first_bones) = parse_positions_with_bones(input, vert_count)?;
        positions = first_positions;
        bone_infos = first_bones;
        input.seek_to(resume);
    } else if !(vert_flags == 0x00 || vert_flags == 0x01 || vert_flags == 0x03 || vert_flags == 0x05
        || vert_flags == 0x09 || vert_flags == 0x21) {
        return Err(DecodeError::UnknownMeshFlags { flags: vert_flags });
    }
    proof {
        lemma_channels_start(s, lay, a, vert_count, 0);
        lemma_channels_step(s, lay, a, vert_count, 0, 1);
    }
    if layout[SLOT_POSITION] != 0 {
        match parse_positions(input, vert_count, layout[SLOT_POSITION]) {
            Ok(more) => {
                positions = more;
            },
            Err(err) => {
                proof {
                    lemma_channels_none(s, lay, a, vert_count, 0, 1, SLOT_UV5 as int);
                }
                return Err(err);
            },
        }
    }
    assert(positions@ =~= positions_read(s, lay, vert_flags, vert_start, a, vert_count));
    let ghost wq = input.pos() as int;
    assert(channels_between(s, lay, a, vert_count, 0, 1) == Some(input.pos() as int));
    proof {
        lemma_channels_step(s, lay, a, vert_count, 0, 2);
    }
    let mut weights: Vec<RawWeights> = Vec::new();
    if layout[SLOT_WEIGHTS] != 0 {
        match parse_weights(input, vert_count, layout[SLOT_WEIGHTS]) {
            Ok(w) => {
                weights = w;
            },
            Err(err) => {
                proof {
                    lemma_channels_none(s, lay, a, vert_count, 0, 2, SLOT_UV5 as int);
                }
                return Err(err);
            },
        }
    }
    let ghost b = input.pos() as int;
    assert(weights@ =~= weights_read(s, lay, wq, vert_count));
    assert(channels_between(s, lay, a, vert_count, 0, 2) == Some(b));
    proof {
        lemma_channels_step(s, lay, a, vert_count, 0, 3);
    }
    if layout[SLOT_BONES] != 0 {
        match parse_bone_slots(input, vert_count, layout[SLOT_BONES]) {
            Ok(more) => {
                bone_infos = more;
            },
            Err(err) => {
                proof {
                    lemma_channels_none(s, lay, a, vert_count, 0, 3, SLOT_UV5 as int);
                }
                return Err(err);
            },
        }
    }
    assert(channels_between(s, lay, a, vert_count, 0, 3) == Some(input.pos() as int));
    proof {
        lemma_channels_step(s, lay, a, vert_count, 0, 4);
    }
    assert(bone_infos@ =~= bone_slots_read(
        s,
        vert_flags,
        vert_start,
        lay[SLOT_BONES as int] != 0,
        b,
        vert_count,
    ));
    let ghost nq = input.pos() as int;
    let mut normals: Vec<RawNormal> = Vec::new();
    if layout[SLOT_NORMALS] != 0 {
        match parse_normals(input, vert_count, layout[SLOT_NORMALS]) {
            Ok(n) => {
                normals = n;
            },
            Err(err) => {
                proof {
                    lemma_channels_none(s, lay, a, vert_count, 0, 4, SLOT_UV5 as int);
                }
                return Err(err);
            },
        }
    }
    assert(normals@ =~= normals_read(s, lay, nq, vert_count));
    assert(channels_between(s, lay, a, vert_count, 0, 4) == Some(input.pos() as int));
    proof {
        lemma_channels_step(s, lay, a, vert_count, 0, 5);
    }
    if layout[SLOT_TANGENTS] != 0 {
        match skip_channel(input, vert_count, layout[SLOT_TANGENTS], Channel::Tangents) {
            Ok(()) => {},
            Err(err) => {
                proof {
                    lemma_channels_none(s, lay, a, vert_count, 0, 5, SLOT_UV5 as int);
                }
                return Err(err);
            },
        }
    }
    assert(channels_between(s, lay, a, vert_count, 0, 5) == Some(input.pos() as int));
    proof {
        lemma_channels_step(s, lay, a, vert_count, 0, 6);
    }
    if layout[SLOT_BINORMALS] != 0 {
        match skip_channel(input, vert_count, layout[SLOT_BINORMALS], Channel::Binormals) {
            Ok(()) => {},
            Err(err) => {
                return Err(err);
            },
        }
    }
    assert(channels_between(s, lay, a, vert_count, 0, 6) == Some(input.pos() as int));
    Ok(MainChannels { positions, bone_infos, weights, normals })
}

/// Reads the texture-coordinate and colour channels that `layout` declares
/// and orders the coordinate layers one to six, leaving out empty ones.
#[verifier::rlimit(60)]
fn parse_uv_channels(input: &mut Cursor, layout: &Vec<u64>, vert_count: u32) -> (r: Result<
    Vec<UvLayer>,
    DecodeError,
>)
    requires
        layout@.len() == SLOT_COUNT,
    ensures
        final(input).bytes() == old(input).bytes(),
        r is Ok <==> channels_between(
            old(input).bytes(),
            layout@,
            old(input).pos() as int,
            vert_count,
            SLOT_UV5 as int,
            SLOT_COUNT as int,
        ) is Some,
        r is Ok ==> r->Ok_0@.map_values(|l: UvLayer| l.layer) == uv_layers_present(
            layout@,
            vert_count,
        ),
        r is Ok ==> forall|k: int|
            0 <= k < r->Ok_0@.len() ==> #[trigger] r->Ok_0@[k].coords@.len() == vert_count,
        r is Ok ==> forall|k: int|
            0 <= k < r->Ok_0@.len() ==> (#[trigger] r->Ok_0@[k]).coords@ == uv_values(
                old(input).bytes(),
                layout@,
                old(input).pos() as int,
                vert_count,
                r->Ok_0@[k].layer as int,
            ),
{
    let ghost s = input.bytes();
    let ghost q = input.pos() as int;
    let ghost lay = layout@;
    let lo = SLOT_UV5;
    proof {
        lemma_channels_start(s, lay, q, vert_count, lo as int);
        lemma_channels_step(s, lay, q, vert_count, lo as int, 7);
    }
    let ghost q_uv5 = input.pos() as int;
    assert(channels_between(s, lay, q, vert_count, lo as int, 6) == Some(q_uv5));
    let uv5 = match parse_uv_slot(input, layout, SLOT_UV5, vert_count) {
        Ok(v) => v,
        Err(err) => {
            proof {
                lemma_channels_none(s, lay, q, vert_count, lo as int, 7, 14);
            }
            return Err(err);
        },
    };
    assert(uv5 is Some ==> uv5->Some_0@ =~= uv_values(s, lay, q, vert_count, 4));
    proof {
        lemma_channels_step(s, lay, q, vert_count, lo as int, 8);
    }
    let ghost q_uv6 = input.pos() as int;
    assert(channels_between(s, lay, q, vert_count, lo as int, 7) == Some(q_uv6));
    let uv6 = match parse_uv_slot(input, layout, SLOT_UV6, vert_count) {
        Ok(v) => v,
        Err(err) => {
            proof {
                lemma_channels_none(s, lay, q, vert_count, lo as int, 8, 14);
            }
            return Err(err);
        },
    };
    assert(uv6 is Some ==> uv6->Some_0@ =~= uv_values(s, lay, q, vert_count, 5));
    proof {
        lemma_channels_step(s, lay, q, vert_count, lo as int, 9);
    }
    if layout[SLOT_COLORS] != 0 {
        match skip_channel(input, vert_count, layout[SLOT_COLORS], Channel::Colors) {
            Ok(()) => {},
            Err(err) => {
                proof {
                    lemma_channels_none(s, lay, q, vert_count, lo as int, 9, 14);
                }
                return Err(err);
            },
        }
    }
    proof {
        lemma_channels_step(s, lay, q, vert_count, lo as int, 10);
    }
    if layout[SLOT_COLORS2] != 0 {
        match skip_channel(input, vert_count, layout[SLOT_COLORS2], Channel::Colors2) {
            Ok(()) => {},
            Err(err) => {
                proof {
                    lemma_channels_none(s, lay, q, vert_count, lo as int, 10, 14);
                }
                return Err(err);
            },
        }
    }
    proof {
        lemma_channels_step(s, lay, q, vert_count, lo as int, 11);
    }
    let ghost q_uv1 = input.pos() as int;
    assert(channels_between(s, lay, q, vert_count, lo as int, 10) == Some(q_uv1));
    let uv1 = match parse_uv_slot(input, layout, SLOT_UV1, vert_count) {
        Ok(v) => v,
        Err(err) => {
            proof {
                lemma_channels_none(s, lay, q, vert_count, lo as int, 11, 14);
            }
            return Err(err);
        },
    };
    assert(uv1 is Some ==> uv1->Some_0@ =~= uv_values(s, lay, q, vert_count, 0));
    proof {
        lemma_channels_step(s, lay, q, vert_count, lo as int, 12);
    }
    let ghost q_uv2 = input.pos() as int;
    assert(channels_between(s, lay, q, vert_count, lo as int, 11) == Some(q_uv2));
    let uv2 = match parse_uv_slot(input, layout, SLOT_UV1 + 1, vert_count) {
        Ok(v) => v,
        Err(err) => {
            proof {
                lemma_channels_none(s, lay, q, vert_count, lo as int, 12, 14);
            }
            return Err(err);
        },
    };
    assert(uv2 is Some ==> uv2->Some_0@ =~= uv_values(s, lay, q, vert_count, 1));
    proof {
        lemma_channels_step(s, lay, q, vert_count, lo as int, 13);
    }
    let ghost q_uv3 = input.pos() as int;
    assert(channels_between(s, lay, q, vert_count, lo as int, 12) == Some(q_uv3));
    let uv3 = match parse_uv_slot(input, layout, SLOT_UV1 + 2, vert_count) {
        Ok(v) => v,
        Err(err) => {
            proof {
                lemma_channels_none(s, lay, q, vert_count, lo as int, 13, 14);
            }
            return Err(err);
        },
    };
    assert(uv3 is Some ==> uv3->Some_0@ =~= uv_values(s, lay, q, vert_count, 2));
    proof {
        lemma_channels_step(s, lay, q, vert_count, lo as int, 14);
    }
    let ghost q_uv4 = input.pos() as int;
    assert(channels_between(s, lay, q, vert_count, lo as int, 13) == Some(q_uv4));
    let uv4 = parse_uv_slot(input, layout, SLOT_UV1 + 3, vert_count)?;
    assert(uv4 is Some ==> uv4->Some_0@ =~= uv_values(s, lay, q, vert_count, 3));
    let mut uv: Vec<UvLayer> = Vec::new();
    let mut found: Vec<Option<Vec<RawUv>>> = vec![uv6, uv5, uv4, uv3, uv2, uv1];
    let ghost layers = Seq::new(6, |l: int| l as u8);
    let ghost pred = |k: u8| layout@[uv_slot(k as int)] != 0;
    let mut l: usize = 0;
    while l < 6
        invariant
            l <= 6,
            layout@.len() == SLOT_COUNT,
            layers == Seq::new(6, |k: int| k as u8),
            pred == (|k: u8| layout@[uv_slot(k as int)] != 0),
            found@.len() == 6 - l,
            forall|k: int|
                l <= k < 6 ==> (#[trigger] found@[5 - k] is Some <==> layout@[uv_slot(k)] != 0),
            forall|k: int|
                l <= k < 6 && #[trigger] found@[5 - k] is Some ==> found@[5 - k]->Some_0@.len()
                    == vert_count,
            uv@.map_values(|u: UvLayer| u.layer) == if vert_count == 0 {
                Seq::empty()
            } else {
                layers.subrange(0, l as int).filter(pred)
            },
            forall|k: int| 0 <= k < uv@.len() ==> #[trigger] uv@[k].coords@.len() == vert_count,
            s == old(input).bytes(),
            q == old(input).pos(),
            lay == layout@,
            forall|k: int|
                l <= k < 6 && #[trigger] found@[5 - k] is Some ==> found@[5 - k]->Some_0@
                    == uv_values(s, lay, q, vert_count, k),
            forall|k: int|
                0 <= k < uv@.len() ==> (#[trigger] uv@[k]).coords@ == uv_values(
                    s,
                    lay,
                    q,
                    vert_count,
                    uv@[k].layer as int,
                ),
        decreases 6 - l,
    {
        let ghost found_before_pop = found@;
        let slot_value = found.pop().unwrap();
        assert(slot_value == found_before_pop[5 - l]);
        let ghost before = uv@;
        if let Some(coords) = slot_value {
            if coords.len() > 0 {
                uv.push(UvLayer { layer: l as u8, coords });
            }
        }
        proof {
            let sub = layers.subrange(0, l + 1);
            assert(sub.drop_last() =~= layers.subrange(0, l as int));
            assert(sub.last() == l as u8);
            reveal(Seq::filter);
            assert(sub.filter(pred) == if pred(l as u8) {
                layers.subrange(0, l as int).filter(pred).push(l as u8)
            } else {
                layers.subrange(0, l as int).filter(pred)
            });
            if uv@.len() > before.len() {
                assert(uv@.map_values(|u: UvLayer| u.layer) =~= before.map_values(
                    |u: UvLayer| u.layer,
                ).push(l as u8));
            } else {
                assert(uv@ == before);
            }
            assert(uv@.map_values(|u: UvLayer| u.layer) =~= if vert_count == 0 {
                Seq::empty()
            } else {
                sub.filter(pred)
            });
        }
        l = l + 1;
    }
    assert(layers.subrange(0, 6) =~= layers);
    Ok(uv)
}

/// Whether every bone slot of `infos` indexes a table of `n` identities.
pub open spec fn slots_in_range(infos: Seq<BoneInfo>, n: nat) -> bool {
    forall|i: int|
        0 <= i < infos.len() ==> {
            let b = #[trigger] infos[i];
            &&& b.bone_1 < n
            &&& b.bone_2 < n
            &&& b.bone_3 < n
            &&& b.bone_4 < n
        }
}

/// The offset where the vertex channels of a mesh whose buffer description
/// is at `p` start: after the face buffers at `face_data_start`.
pub open spec fn channels_start(s: Seq<u8>, p: int, face_data_start: u64) -> int {
    let face_buffers = le_u32(s, p + 8);
    let fq = p + 20 + 20 * le_u32(s, p + 12);
    let first = (le_u32(s, fq + 12) / 3) as int;
    let second = (le_u32(s, fq + 32) / 3) as int;
    if face_buffers == 0 {
        face_data_start as int
    } else if face_buffers == 1 {
        face_data_start + 6 * first
    } else {
        face_data_start + 6 * first + 6 * second
    }
}

/// Whether the face buffers of a mesh whose buffer description is at `p`
/// can be read from `face_data_start`.
pub open spec fn faces_ok(s: Seq<u8>, p: int, face_data_start: u64) -> bool {
    let face_buffers = le_u32(s, p + 8);
    let fq = p + 20 + 20 * le_u32(s, p + 12);
    let first = (le_u32(s, fq + 12) / 3) as int;
    let second = (le_u32(s, fq + 32) / 3) as int;
    &&& face_buffers >= 1 ==> records_fit(s, face_data_start as int, 6, first)
    &&& face_buffers == 2 ==> records_fit(s, face_data_start + 6 * first, 6, second)
}

/// Whether the vertex section of a mesh at `p` decodes, for a bone table of
/// `bone_count` identities.
#[verifier::opaque]
pub open spec fn mesh_ok(
    s: Seq<u8>,
    p: int,
    face_data_start: u64,
    vert_start: u64,
    vert_flags: u32,
    vert_count: u32,
    bone_count: nat,
) -> bool {
    let layout = layout_after(s, p + 20, le_u32(s, p + 12) as nat);
    let a = channels_start(s, p, face_data_start);
    let main_end = channels_between(s, layout, a, vert_count, 0, SLOT_UV5 as int);
    let bones = bone_slots_read(
        s,
        vert_flags,
        vert_start,
        layout[SLOT_BONES as int] != 0,
        channels_between(s, layout, a, vert_count, 0, SLOT_BONES as int)->Some_0,
        vert_count,
    );
    &&& buffer_info_ok(s, p)
    &&& faces_ok(s, p, face_data_start)
    &&& known_vert_flags(vert_flags)
    &&& vert_flags == 0x31 ==> interleaved_ok(s, vert_start as int, vert_count)
    &&& main_end is Some
    &&& channels_between(s, layout, main_end->Some_0, vert_count, SLOT_UV5 as int, SLOT_COUNT as int) is Some
    &&& slots_in_range(bones, bone_count)
}

/// Whether `m` is the mesh decoded from the vertex section at `p`: its
/// faces, and each channel value as stored at the channel's offset; bone
/// slots are translated through `bone_ids`.
pub open spec fn is_mesh_at(
    m: Mesh,
    s: Seq<u8>,
    p: int,
    face_data_start: u64,
    vert_start: u64,
    vert_flags: u32,
    vert_count: u32,
    bone_ids: Seq<u64>,
) -> bool {
    let face_buffers = le_u32(s, p + 8);
    let entries = le_u32(s, p + 12);
    let layout = layout_after(s, p + 20, entries as nat);
    let fq = p + 20 + 20 * entries;
    let face_points = if face_buffers >= 1 {
        le_u32(s, fq + 12)
    } else {
        0
    };
    let a = channels_start(s, p, face_data_start);
    let main_end = channels_between(s, layout, a, vert_count, 0, SLOT_UV5 as int)->Some_0;
    let slots = bone_slots_read(
        s,
        vert_flags,
        vert_start,
        layout[SLOT_BONES as int] != 0,
        main_channel_at(s, layout, a, vert_count, SLOT_BONES as int),
        vert_count,
    );
    &&& m.faces@ == Seq::new((face_points / 3) as nat, |i: int| face_at(s, face_data_start + 6 * i))
    &&& m.positions@ == positions_read(s, layout, vert_flags, vert_start, a, vert_count)
    &&& m.weights@ == weights_read(
        s,
        layout,
        main_channel_at(s, layout, a, vert_count, SLOT_WEIGHTS as int),
        vert_count,
    )
    &&& m.normals@ == normals_read(
        s,
        layout,
        main_channel_at(s, layout, a, vert_count, SLOT_NORMALS as int),
        vert_count,
    )
    &&& m.bones@.len() == slots.len()
    &&& forall|i: int|
        0 <= i < slots.len() ==> (#[trigger] m.bones@[i])@ == seq![
            bone_ids[slots[i].bone_1 as int],
            bone_ids[slots[i].bone_2 as int],
            bone_ids[slots[i].bone_3 as int],
            bone_ids[slots[i].bone_4 as int],
        ]
    &&& m.uv@.map_values(|l: UvLayer| l.layer) == uv_layers_present(layout, vert_count)
    &&& forall|k: int|
        0 <= k < m.uv@.len() ==> (#[trigger] m.uv@[k]).coords@ == uv_values(
            s,
            layout,
            main_end,
            vert_count,
            m.uv@[k].layer as int,
        )
}

impl Mesh {
    /// Reads the vertex layout, the face buffers at `face_data_start` and the
    /// vertex channels; bone slots are resolved through `bone_ids`. Where
    /// flag 0x31 adds the interleaved buffer, a declared position or bone
    /// channel takes the place of its values, so every present per-vertex
    /// array has `vert_count` entries.
    pub fn parse(
        input: &mut Cursor,
        face_data_start: u64,
        vert_start: u64,
        vert_flags: u32,
        vert_count: u32,
        bone_ids: &Vec<u64>,
    ) -> (r: Result<Mesh, DecodeError>)
        ensures
            final(input).bytes() == old(input).bytes(),
            ({
                let s = old(input).bytes();
                let p = old(input).pos() as int;
                let face_buffers = le_u32(s, p + 8);
                let entries = le_u32(s, p + 12);
                let layout = layout_after(s, p + 20, entries as nat);
                &&& r is Ok <==> mesh_ok(
                    s,
                    p,
                    face_data_start,
                    vert_start,
                    vert_flags,
                    vert_count,
                    bone_ids@.len(),
                )
                &&& p + 20 <= s.len() && face_buffers > 2 ==> r == Err::<Mesh, DecodeError>(
                    DecodeError::TooManyFaceBuffers { count: face_buffers },
                )
                &&& forall|k: nat|
                    p + 20 <= s.len() && face_buffers <= 2 && records_fit(
                        s,
                        p + 20,
                        20,
                        entries as int,
                    ) && k < entries && layout_known(s, p + 20, k) && slot_of(
                        #[trigger] entry_kind(s, p + 20, k as int),
                        entry_layer(s, p + 20, k as int),
                    ) < 0 ==> r == Err::<Mesh, DecodeError>(
                        DecodeError::UnknownVertexLayout {
                            kind: entry_kind(s, p + 20, k as int),
                            layer: entry_layer(s, p + 20, k as int),
                        },
                    )
                &&& buffer_info_ok(s, p) && !known_vert_flags(vert_flags) ==> r == Err::<
                    Mesh,
                    DecodeError,
                >(DecodeError::UnknownMeshFlags { flags: vert_flags })
                &&& forall|k: int|
                    buffer_info_ok(s, p) && known_vert_flags(vert_flags) && 0 <= k < SLOT_COUNT
                        && #[trigger] format_bad(layout, k) && (forall|j: int|
                        0 <= j < k ==> !format_bad(layout, j)) ==> r == Err::<Mesh, DecodeError>(
                        DecodeError::UnknownEncoding { channel: slot_channel(k), code: layout[k] },
                    )
                &&& r is Ok ==> {
                    let m = r->Ok_0;
                    &&& is_mesh_at(
                        m,
                        s,
                        p,
                        face_data_start,
                        vert_start,
                        vert_flags,
                        vert_count,
                        bone_ids@,
                    )
                    &&& m.positions@.len() == if layout[SLOT_POSITION as int] != 0 || vert_flags
                        == 0x31 {
                        vert_count as int
                    } else {
                        0
                    }
                    &&& m.bones@.len() == if layout[SLOT_BONES as int] != 0 || vert_flags
                        == 0x31 {
                        vert_count as int
                    } else {
                        0
                    }
                    &&& m.weights@.len() == if_present(layout, SLOT_WEIGHTS as int, vert_count)
                    &&& m.normals@.len() == if_present(layout, SLOT_NORMALS as int, vert_count)
                    &&& forall|k: int| 0 <= k < m.uv@.len() ==> #[trigger] m.uv@[k].coords@.len()
                        == vert_count
                    &&& layout[SLOT_POSITION as int] != 0 && (forall|slot: int|
                        0 <= slot < SLOT_COUNT && slot != SLOT_POSITION ==> layout[slot] == 0) ==> {
                        &&& m.positions@.len() == vert_count
                        &&& m.normals@.len() == 0
                        &&& m.uv@.len() == 0
                    }
                }
            }),
    {
        reveal(mesh_ok);
        let ghost s = input.bytes();
        let ghost p = input.pos() as int;
        let info = parse_buffer_info(input)?;
        let ghost lay = info.layout@;
        if !(vert_flags == 0x00 || vert_flags == 0x01 || vert_flags == 0x03 || vert_flags == 0x05
            || vert_flags == 0x09 || vert_flags == 0x21 || vert_flags == 0x31) {
            return Err(DecodeError::UnknownMeshFlags { flags: vert_flags });
        }
        match check_formats(&info.layout) {
            Ok(()) => {},
            Err(err) => {
                proof {
                    let k = choose|k: int| 0 <= k < SLOT_COUNT && #[trigger] format_bad(lay, k);
                    let a = channels_start(s, p, face_data_start);
                    if k < SLOT_UV5 {
                        lemma_format_bad_fails(s, lay, a, vert_count, 0, k, SLOT_UV5 as int);
                    } else {
                        let e = channels_between(s, lay, a, vert_count, 0, SLOT_UV5 as int);
                        if e is Some {
                            lemma_format_bad_fails(
                                s,
                                lay,
                                e->Some_0,
                                vert_count,
                                SLOT_UV5 as int,
                                k,
                                SLOT_COUNT as int,
                            );
                        }
                    }
                }
                return Err(err);
            },
        }
        input.seek_to(face_data_start);
        let faces = parse_faces(input, info.face_point_count / 3)?;
        if info.face_buffer_count == 2 {
            let _second = parse_faces(input, info.face_point_count_b / 3)?;
        }
        assert(input.pos() == channels_start(s, p, face_data_start));
        let main = parse_main_channels(input, &info.layout, vert_flags, vert_start, vert_count)?;
        let uv = parse_uv_channels(input, &info.layout, vert_count)?;
        let bones = resolve_bones(&main.bone_infos, bone_ids)?;
        proof {
            let layout = info.layout@;
            if (forall|slot: int|
                0 <= slot < SLOT_COUNT && slot != SLOT_POSITION ==> layout[slot] == 0) {
                if vert_count != 0 {
                    let pred = |k: u8| layout[uv_slot(k as int)] != 0;
                    let layers = Seq::new(6, |l: int| l as u8);
                    assert forall|i: int| 0 <= i < layers.len() implies !pred(layers[i]) by {
                        assert(uv_slot(i) != SLOT_POSITION);
                    }
                    layers.lemma_all_neg_filter_empty(pred);
                }
                assert(uv@.map_values(|l: UvLayer| l.layer).len() == 0);
            }
        }
        Ok(
            Mesh {
                positions: main.positions,
                normals: main.normals,
                faces,
                uv,
                bones,
                weights: main.weights,
            },
        )
    }
}

/// In a mesh whose weights are stored packed (format 42), the four weights
/// of every vertex add up to exactly one.
pub proof fn lemma_mesh_weights_sum_to_one(
    m: Mesh,
    s: Seq<u8>,
    p: int,
    face_data_start: u64,
    vert_start: u64,
    vert_flags: u32,
    vert_count: u32,
    bone_ids: Seq<u64>,
    i: int,
)
    requires
        is_mesh_at(m, s, p, face_data_start, vert_start, vert_flags, vert_count, bone_ids),
        layout_after(s, p + 20, le_u32(s, p + 12) as nat)[SLOT_WEIGHTS as int] == 42,
        0 <= i < vert_count,
    ensures
        m.weights@[i] is Packed,
        ({
            let w = packed_weight_parts(m.weights@[i]->Packed_0);
            w[0] + w[1] + w[2] + w[3] == WEIGHT_DENOMINATOR
        }),
{
    lemma_packed_weights_sum_to_one(m.weights@[i]->Packed_0);
}

proof fn lemma_zero_slots(
    s: Seq<u8>,
    layout: Seq<u64>,
    e: int,
    vert_count: u32,
    lo: int,
    k: int,
    hi: int,
)
    requires
        lo <= k <= hi,
        channels_between(s, layout, e, vert_count, lo, k) is Some,
        forall|j: int| k <= j < hi ==> layout[j] == 0,
    ensures
        channels_between(s, layout, e, vert_count, lo, hi) == channels_between(
            s,
            layout,
            e,
            vert_count,
            lo,
            k,
        ),
    decreases hi - k,
{
    if k < hi {
        lemma_zero_slots(s, layout, e, vert_count, lo, k, hi - 1);
        lemma_channels_step(s, layout, e, vert_count, lo, hi);
    }
}

/// A mesh whose layout declares only a position channel, with a known
/// format, decodes (so `Mesh::parse` succeeds, with no normals, weights,
/// bones or texture coordinates) whenever its buffer description and face
/// buffers can be read and the positions are there; for any bone table.
pub proof fn lemma_position_only_mesh_ok(
    s: Seq<u8>,
    p: int,
    face_data_start: u64,
    vert_start: u64,
    vert_count: u32,
    bone_count: nat,
)
    requires
        buffer_info_ok(s, p),
        faces_ok(s, p, face_data_start),
        ({
            let layout = layout_after(s, p + 20, le_u32(s, p + 12) as nat);
            &&& position_size(layout[SLOT_POSITION as int]) > 0
            &&& forall|slot: int| 0 < slot < SLOT_COUNT ==> layout[slot] == 0
            &&& records_fit(
                s,
                channels_start(s, p, face_data_start),
                position_size(layout[SLOT_POSITION as int]),
                vert_count as int,
            )
        }),
    ensures
        mesh_ok(s, p, face_data_start, vert_start, 0, vert_count, bone_count),
{
    reveal(mesh_ok);
    let layout = layout_after(s, p + 20, le_u32(s, p + 12) as nat);
    lemma_layout_len(s, p + 20, le_u32(s, p + 12) as nat);
    let a = channels_start(s, p, face_data_start);
    lemma_channels_start(s, layout, a, vert_count, 0);
    lemma_channels_step(s, layout, a, vert_count, 0, 1);
    lemma_zero_slots(s, layout, a, vert_count, 0, 1, SLOT_UV5 as int);
    lemma_zero_slots(s, layout, a, vert_count, 0, 1, SLOT_BONES as int);
    let e = channels_between(s, layout, a, vert_count, 0, SLOT_UV5 as int)->Some_0;
    lemma_channels_start(s, layout, e, vert_count, SLOT_UV5 as int);
    lemma_zero_slots(
        s,
        layout,
        e,
        vert_count,
        SLOT_UV5 as int,
        SLOT_UV5 as int,
        SLOT_COUNT as int,
    );
}

} // verus!
