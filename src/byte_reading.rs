//! The container envelope shared by mesh, texture and skeleton files.
use vstd::prelude::*;
use vstd::utf8::{decode_utf8, valid_utf8};

use crate::cursor::{fits, le_u32, Cursor};
use crate::error::DecodeError;

verus! {

/// Relies on std's `String::from_utf8`: it succeeds exactly on valid UTF-8,
/// and the string then holds the decoded characters.
#[verifier::external_body]
fn utf8_to_string(bytes: Vec<u8>) -> (r: Option<String>)
    ensures
        r is Some <==> valid_utf8(bytes@),
        r is Some ==> r->Some_0@ == decode_utf8(bytes@),
{
    String::from_utf8(bytes).ok()
}

/// Reads `size` bytes and takes them as UTF-8 text.
pub fn read_fixed_string(input: &mut Cursor, size: usize) -> (r: Result<String, DecodeError>)
    ensures
        final(input).bytes() == old(input).bytes(),
        ({
            let s = old(input).bytes();
            let p = old(input).pos() as int;
            let body = s.subrange(p, p + size);
            &&& r is Ok <==> fits(s, p as u64, size as int) && valid_utf8(body)
            &&& r is Ok ==> r->Ok_0@ == decode_utf8(body) && final(input).pos() == p + size
            &&& !fits(s, p as u64, size as int) ==> r == Err::<String, DecodeError>(
                DecodeError::UnexpectedEnd { offset: p as u64 },
            )
            &&& fits(s, p as u64, size as int) && !valid_utf8(body) ==> r == Err::<
                String,
                DecodeError,
            >(DecodeError::InvalidText)
        }),
{
    let bytes = input.read_bytes(size)?;
    match utf8_to_string(bytes) {
        Some(text) => Ok(text),
        None => Err(DecodeError::InvalidText),
    }
}

/// The four-byte tag at the start of a container.
#[derive(Debug, Clone, Copy, PartialEq, Eq, Structural)]
pub enum VersionHeader {
    MBIN,
    MTRE,
    MSV5,
    MSV6,
    Unknown(u32),
}

/// The container flavour that the tag `magic` names.
pub open spec fn version_of(magic: u32) -> VersionHeader {
    if magic == 1296189774 {
        VersionHeader::MBIN
    } else if magic == 1297371717 {
        VersionHeader::MTRE
    } else if magic == 1297307189 {
        VersionHeader::MSV5
    } else if magic == 1297307190 {
        VersionHeader::MSV6
    } else {
        VersionHeader::Unknown(magic)
    }
}

/// Whether the tag `magic` names a container with a parameter table.
pub open spec fn is_versioned(magic: u32) -> bool {
    magic == 1297307189 || magic == 1297307190
}

/// The offset just after the envelope (tag, size, skipped bytes and
/// parameter table) of a versioned container that starts at `p`.
pub open spec fn envelope_end(s: Seq<u8>, p: int) -> int {
    p + 20 + 12 * le_u32(s, p + 16)
}

/// Whether a versioned envelope can be read at `p`.
pub open spec fn envelope_ok(s: Seq<u8>, p: int) -> bool {
    &&& p + 20 <= s.len()
    &&& is_versioned(le_u32(s, p))
    &&& envelope_end(s, p) <= u64::MAX
}

impl VersionHeader {
    /// Reads the tag and names the flavour; an unknown tag is kept as it is.
    pub fn parse(input: &mut Cursor) -> (r: Result<VersionHeader, DecodeError>)
        ensures
            final(input).bytes() == old(input).bytes(),
            r is Ok <==> fits(old(input).bytes(), old(input).pos(), 4),
            r is Ok ==> r->Ok_0 == version_of(le_u32(old(input).bytes(), old(input).pos() as int))
                && final(input).pos() == old(input).pos() + 4,
            r is Err ==> r == Err::<VersionHeader, DecodeError>(
                DecodeError::UnexpectedEnd { offset: old(input).pos() },
            ),
    {
        let magic = input.read_u32()?;
        let v = if magic == 1296189774 {
            VersionHeader::MBIN
        } else if magic == 1297371717 {
            VersionHeader::MTRE
        } else if magic == 1297307189 {
            VersionHeader::MSV5
        } else if magic == 1297307190 {
            VersionHeader::MSV6
        } else {
            VersionHeader::Unknown(magic)
        };
        Ok(v)
    }
}

/// Reads the envelope of a versioned container and skips its parameter table.
pub fn skip_envelope(input: &mut Cursor) -> (r: Result<(), DecodeError>)
    ensures
        final(input).bytes() == old(input).bytes(),
        ({
            let s = old(input).bytes();
            let p = old(input).pos() as int;
            &&& r is Ok <==> envelope_ok(s, p)
            &&& r is Ok ==> final(input).pos() == envelope_end(s, p)
            &&& fits(s, p as u64, 4) && !is_versioned(le_u32(s, p)) ==> r == Err::<(), DecodeError>(
                DecodeError::UnsupportedFormat { magic: le_u32(s, p) },
            )
        }),
{
    let ghost p = input.pos() as int;
    let header = VersionHeader::parse(input)?;
    match header {
        VersionHeader::MSV5 | VersionHeader::MSV6 => {},
        VersionHeader::MBIN => {
            return Err(DecodeError::UnsupportedFormat { magic: 1296189774 });
        },
        VersionHeader::MTRE => {
            return Err(DecodeError::UnsupportedFormat { magic: 1297371717 });
        },
        VersionHeader::Unknown(magic) => {
            return Err(DecodeError::UnsupportedFormat { magic });
        },
    }
    let _file_size = input.read_u32()?;
    input.seek_by(8)?;
    let param_count = input.read_u32()?;
    input.seek_by(12 * param_count as i64)?;
    Ok(())
}

/// A length-prefixed name.
#[derive(Debug, Clone)]
pub struct D3DName(pub String);

/// Where the text of a name record at `p` starts, and how long it is: a
/// declared name length beyond the declared header length means the record
/// has no separate header length, and the header length field is the name
/// length.
pub open spec fn name_frame(s: Seq<u8>, p: int) -> (int, int) {
    let header_length = le_u32(s, p);
    let name_length = le_u32(s, p + 4);
    if name_length > header_length {
        (p + 4, header_length as int)
    } else {
        (p + 8, name_length as int)
    }
}

/// Whether a name record can be read at `p`.
pub open spec fn name_ok(s: Seq<u8>, p: int) -> bool {
    let (start, len) = name_frame(s, p);
    &&& p + 8 <= s.len()
    &&& start + len <= s.len()
    &&& valid_utf8(s.subrange(start, start + len))
}

impl D3DName {
    /// Reads a name record: a header length, a name length and the text.
    pub fn parse(input: &mut Cursor) -> (r: Result<D3DName, DecodeError>)
        ensures
            final(input).bytes() == old(input).bytes(),
            ({
                let s = old(input).bytes();
                let p = old(input).pos() as int;
                let (start, len) = name_frame(s, p);
                &&& r is Ok <==> name_ok(s, p)
                &&& r is Ok ==> r->Ok_0.0@ == decode_utf8(s.subrange(start, start + len))
                    && final(input).pos() == start + len
                &&& p + 8 <= s.len() && le_u32(s, p + 4) > le_u32(s, p) && name_ok(s, p)
                    ==> final(input).pos() == p + 4 + le_u32(s, p)
            }),
    {
        let header_length = input.read_u32()?;
        let mut name_length = input.read_u32()?;
        if name_length > header_length {
            input.seek_by(-4)?;
            name_length = header_length;
        }
        let name = read_fixed_string(input, name_length as usize)?;
        Ok(D3DName(name))
    }

    pub fn to_string(self) -> (r: String)
        ensures
            r == self.0,
    {
        self.0
    }
}

} // verus!
