//! Texture files: header, mip table and the pixels of the largest mip level.
use vstd::prelude::*;
use vstd::utf8::decode_utf8;

use crate::bcn_image::{decode_image_spec, BCnVariant, ColorType, DxtDecoder, PixelImage};
use crate::byte_reading::{
    envelope_end, envelope_ok, is_versioned, name_frame, name_ok, skip_envelope, D3DName,
};
use crate::cursor::{fits, le_u32, Cursor};
use crate::error::DecodeError;

verus! {

/// The pixel format of a texture file.
#[derive(Debug, Clone, Copy, PartialEq, Eq, Structural)]
pub enum TextureFormat {
    BCn(BCnVariant),
    A8,
    Unknown(u32),
}

/// The pixel format that the format code `value` names.
pub open spec fn texture_format_of(value: u32) -> TextureFormat {
    if value == 16 || value == 17 {
        TextureFormat::A8
    } else if value == 64 {
        TextureFormat::BCn(BCnVariant::BC1)
    } else if value == 65 {
        TextureFormat::BCn(BCnVariant::BC2)
    } else if value == 66 {
        TextureFormat::BCn(BCnVariant::BC3)
    } else if value == 67 {
        TextureFormat::BCn(BCnVariant::BC4)
    } else if value == 68 {
        TextureFormat::BCn(BCnVariant::BC5)
    } else {
        TextureFormat::Unknown(value)
    }
}

impl TextureFormat {
    /// Names the pixel format of a format code.
    pub fn parse(value: u32) -> (r: TextureFormat)
        ensures
            r == texture_format_of(value),
    {
        match value {
            16 | 17 => TextureFormat::A8,
            64 => TextureFormat::BCn(BCnVariant::BC1),
            65 => TextureFormat::BCn(BCnVariant::BC2),
            66 => TextureFormat::BCn(BCnVariant::BC3),
            67 => TextureFormat::BCn(BCnVariant::BC4),
            68 => TextureFormat::BCn(BCnVariant::BC5),
            _ => TextureFormat::Unknown(value),
        }
    }
}

/// The offset of the image description (mip count, width, height, ...) of
/// a texture file that starts at `p`: after the envelope, 20 bytes, the
/// name, 12 bytes and a flag byte that, when it is 0x31, is followed by a
/// header jump.
pub open spec fn image_description_at(s: Seq<u8>, p: int) -> int {
    let (start, len) = name_frame(s, envelope_end(s, p) + 20);
    let r = start + len + 12;
    if s[r] == 0x31 {
        r + 9 + le_u32(s, r + 9)
    } else {
        r + 1
    }
}

/// The offset of the mip table of a texture file that starts at `p`.
pub open spec fn mip_table_at(s: Seq<u8>, p: int) -> int {
    image_description_at(s, p) + 116
}

/// The data size of mip level `i` of the table at `t`.
pub open spec fn mip_size(s: Seq<u8>, t: int, i: int) -> int {
    le_u32(s, t + 24 * i + 12) as int
}

/// The offset `d` moved past the data of the first `k` mip levels.
pub open spec fn mips_skipped(s: Seq<u8>, t: int, d: int, k: nat) -> int
    decreases k,
{
    if k == 0 {
        d
    } else {
        mips_skipped(s, t, d, (k - 1) as nat) + mip_size(s, t, k - 1)
    }
}

/// Whether the header of a texture file at `p` can be read.
pub open spec fn texture_header_ok(s: Seq<u8>, p: int) -> bool {
    let q = envelope_end(s, p) + 20;
    let (start, len) = name_frame(s, q);
    let r = start + len + 12;
    let m = image_description_at(s, p);
    let count = le_u32(s, m) as int;
    let t = m + 116;
    &&& envelope_ok(s, p)
    &&& q <= u64::MAX
    &&& name_ok(s, q)
    &&& r + 1 <= s.len()
    &&& (s[r] == 0x31 ==> r + 13 <= s.len() && m <= u64::MAX)
    &&& m + 24 <= s.len()
    &&& t <= u64::MAX
    &&& count >= 1
    &&& forall|i: int| 0 <= i < count ==> #[trigger] (t + 24 * i) + 16 <= s.len()
    &&& t + 24 * count <= u64::MAX
    &&& mips_skipped(s, t, t + 24 * count, (count - 1) as nat) <= u64::MAX
}

/// Where the data of the largest (last) mip level of a texture file at `p` starts.
pub open spec fn pixel_data_at(s: Seq<u8>, p: int) -> int {
    let t = mip_table_at(s, p);
    let count = le_u32(s, image_description_at(s, p)) as int;
    mips_skipped(s, t, t + 24 * count, (count - 1) as nat)
}

proof fn lemma_mips_skipped_mono(s: Seq<u8>, t: int, d: int, k: nat, n: nat)
    requires
        k <= n,
    ensures
        mips_skipped(s, t, d, k) <= mips_skipped(s, t, d, n),
    decreases n,
{
    if k < n {
        lemma_mips_skipped_mono(s, t, d, k, (n - 1) as nat);
    }
}

/// What the header of a texture file holds.
pub struct D3DTXHeader {
    pub name: String,
    pub width: u32,
    pub height: u32,
    pub format: TextureFormat,
}

impl D3DTXHeader {
    /// Reads the header and the mip table, leaving the stream at the data of
    /// the largest mip level (the last one).
    pub fn parse(input: &mut Cursor) -> (r: Result<D3DTXHeader, DecodeError>)
        ensures
            final(input).bytes() == old(input).bytes(),
            ({
                let s = old(input).bytes();
                let p = old(input).pos() as int;
                let (start, len) = name_frame(s, envelope_end(s, p) + 20);
                let m = image_description_at(s, p);
                &&& fits(s, p as u64, 4) && !is_versioned(le_u32(s, p)) ==> r == Err::<
                    D3DTXHeader,
                    DecodeError,
                >(DecodeError::UnsupportedFormat { magic: le_u32(s, p) })
                &&& r is Ok <==> texture_header_ok(s, p)
                &&& r is Ok ==> final(input).pos() == pixel_data_at(s, p)
                &&& r is Ok ==> {
                    let h = r->Ok_0;
                    &&& h.name@ == decode_utf8(s.subrange(start, start + len))
                    &&& h.width == le_u32(s, m + 4)
                    &&& h.height == le_u32(s, m + 8)
                    &&& h.format == texture_format_of(le_u32(s, m + 20))
                    &&& le_u32(s, m) > 0
                }
            }),
    {
        let ghost s = input.bytes();
        let ghost p = input.pos() as int;
        proof {
            input.lemma_len_fits();
        }
        skip_envelope(input)?;
        input.seek_by(0x14)?;
        let name = D3DName::parse(input)?;
        input.seek_by(0x0C)?;
        let flag = input.read_u8()?;
        if flag == 0x31 {
            input.seek_by(0x08)?;
            let header_jump = input.read_u32()?;
            input.seek_by(header_jump as i64 - 4)?;
        }
        let ghost m = image_description_at(s, p);
        assert(input.pos() == m);
        let mip_maps = input.read_u32()?;
        let width = input.read_u32()?;
        let height = input.read_u32()?;
        input.seek_by(0x08)?;
        let dxt_type = input.read_u32()?;
        let format = TextureFormat::parse(dxt_type);
        input.seek_by(0x5C)?;
        let ghost t = m + 116;
        let mut mip_sizes: Vec<u32> = Vec::new();
        let mut i: u32 = 0;
        while i < mip_maps
            invariant
                s == old(input).bytes(),
                p == old(input).pos(),
                is_versioned(le_u32(s, p)),
                s.len() <= u64::MAX,
                t == mip_table_at(s, p),
                mip_maps == le_u32(s, image_description_at(s, p)),
                input.bytes() == old(input).bytes(),
                i <= mip_maps,
                input.pos() == t + 24 * i,
                mip_sizes@.len() == i,
                forall|j: int| 0 <= j < i ==> #[trigger] (t + 24 * j) + 16 <= s.len(),
                forall|j: int| 0 <= j < i ==> mip_sizes@[j] == mip_size(s, t, j),
            decreases mip_maps - i,
        {
            let mip_size = match input.seek_by(0x0C) {
                Ok(()) => match input.read_u32() {
                    Ok(v) => v,
                    Err(err) => {
                        return Err(err);
                    },
                },
                Err(err) => {
                    return Err(err);
                },
            };
            mip_sizes.push(mip_size);
            input.seek_by(0x08)?;
            i = i + 1;
        }
        if mip_sizes.len() == 0 {
            return Err(DecodeError::NoMipLevels);
        }
        let mut k: usize = 0;
        let last = mip_sizes.len() - 1;
        proof {
            lemma_mips_skipped_mono(s, t, t + 24 * mip_maps, 0, last as nat);
        }
        while k < last
            invariant
                s == old(input).bytes(),
                p == old(input).pos(),
                is_versioned(le_u32(s, p)),
                t == mip_table_at(s, p),
                mip_maps == le_u32(s, image_description_at(s, p)),
                input.bytes() == old(input).bytes(),
                mip_sizes@.len() == mip_maps,
                last == mip_maps - 1,
                forall|j: int| 0 <= j < mip_maps ==> mip_sizes@[j] == mip_size(s, t, j),
                k <= last,
                input.pos() == mips_skipped(s, t, t + 24 * mip_maps, k as nat),
            decreases last - k,
        {
            proof {
                lemma_mips_skipped_mono(s, t, t + 24 * mip_maps, (k + 1) as nat, last as nat);
            }
            match input.seek_by(mip_sizes[k] as i64) {
                Ok(()) => {},
                Err(err) => {
                    return Err(err);
                },
            }
            k = k + 1;
        }
        Ok(D3DTXHeader { name: name.to_string(), width, height, format })
    }
}

/// The pixels of an 8-bit single-channel image stored as they are.
fn read_luma(input: &mut Cursor, width: u32, height: u32) -> (r: Result<PixelImage, DecodeError>)
    ensures
        final(input).bytes() == old(input).bytes(),
        ({
            let s = old(input).bytes();
            let p = old(input).pos() as int;
            &&& r is Ok <==> p <= s.len() && s.len() - p >= width * height
            &&& r is Ok ==> {
                let img = r->Ok_0;
                &&& img.width == width
                &&& img.height == height
                &&& img.color == ColorType::L8
                &&& img.data@ == s.subrange(p, s.len() as int)
            }
        }),
{
    let len = input.len() as u64;
    let p = input.position();
    assert((width as int) * (height as int) <= 0xFFFF_FFFF * 0xFFFF_FFFF) by (nonlinear_arith)
        requires
            width <= 0xFFFF_FFFF,
            height <= 0xFFFF_FFFF,
    ;
    let needed: u128 = (width as u128) * (height as u128);
    if p > len || ((len - p) as u128) < needed {
        return Err(DecodeError::ShortImageData);
    }
    let data = input.read_bytes((len - p) as usize)?;
    Ok(PixelImage { width, height, color: ColorType::L8, data })
}

/// Whether pixel data for a `width` by `height` image of `format` can be
/// decoded from offset `d` of `s`.
pub open spec fn texture_data_ok(s: Seq<u8>, d: int, width: u32, height: u32, format: TextureFormat) -> bool {
    match format {
        TextureFormat::BCn(v) => {
            let wb = (width / 4) as nat;
            let hb = (height / 4) as nat;
            &&& width % 4 == 0 && height % 4 == 0
            &&& fits(s, d as u64, (v.spec_encoded_bytes_per_block() * wb * hb) as int)
            &&& v.spec_decoded_bytes_per_block() * wb * hb <= usize::MAX
        },
        TextureFormat::A8 => d <= s.len() && s.len() - d >= width * height,
        TextureFormat::Unknown(_) => false,
    }
}

/// Decodes the pixel data at the cursor for a `width` by `height` image of `format`.
pub fn decode_texture_data(input: Cursor, width: u32, height: u32, format: TextureFormat) -> (r:
    Result<PixelImage, DecodeError>)
    ensures
        r is Ok <==> texture_data_ok(input.bytes(), input.pos() as int, width, height, format),
        ({
            let s = input.bytes();
            let p = input.pos() as int;
            match format {
                TextureFormat::BCn(v) => {
                    let wb = (width / 4) as nat;
                    let hb = (height / 4) as nat;
                    &&& r is Ok <==> width % 4 == 0 && height % 4 == 0 && fits(
                        s,
                        p as u64,
                        (v.spec_encoded_bytes_per_block() * wb * hb) as int,
                    ) && v.spec_decoded_bytes_per_block() * wb * hb <= usize::MAX
                    &&& r is Ok ==> {
                        let img = r->Ok_0;
                        &&& img.width == width
                        &&& img.height == height
                        &&& img.color == v.spec_color_type()
                        &&& img.data@ == decode_image_spec(v, s, p, wb, hb)
                    }
                },
                TextureFormat::A8 => {
                    &&& r is Ok <==> p <= s.len() && s.len() - p >= width * height
                    &&& r is Ok ==> {
                        let img = r->Ok_0;
                        &&& img.width == width && img.height == height
                        &&& img.color == ColorType::L8
                        &&& img.data@ == s.subrange(p, s.len() as int)
                    }
                },
                TextureFormat::Unknown(code) => r == Err::<PixelImage, DecodeError>(
                    DecodeError::UnknownTextureFormat { code },
                ),
            }
        }),
{
    match format {
        TextureFormat::BCn(variant) => {
            let decoder = DxtDecoder::new(input, width, height, variant)?;
            proof {
                assert(decoder.spec_width_blocks() * 4 == width);
                assert(decoder.spec_height_blocks() * 4 == height);
            }
            decoder.read_image()
        },
        TextureFormat::A8 => {
            let mut input = input;
            read_luma(&mut input, width, height)
        },
        TextureFormat::Unknown(code) => Err(DecodeError::UnknownTextureFormat { code }),
    }
}

/// A decoded texture file: its name and the pixels of its largest mip level.
pub struct Texture {
    pub name: String,
    pub image: PixelImage,
}

impl Texture {
    /// Decodes a whole texture file.
    pub fn parse(input: Cursor) -> (r: Result<Texture, DecodeError>)
        ensures
            ({
                let s = input.bytes();
                let p = input.pos() as int;
                let (start, len) = name_frame(s, envelope_end(s, p) + 20);
                let m = image_description_at(s, p);
                &&& fits(s, p as u64, 4) && !is_versioned(le_u32(s, p)) ==> r == Err::<
                    Texture,
                    DecodeError,
                >(DecodeError::UnsupportedFormat { magic: le_u32(s, p) })
                &&& r is Ok <==> texture_header_ok(s, p) && texture_data_ok(
                    s,
                    pixel_data_at(s, p),
                    le_u32(s, m + 4),
                    le_u32(s, m + 8),
                    texture_format_of(le_u32(s, m + 20)),
                )
                &&& r is Ok ==> {
                    let t = r->Ok_0;
                    &&& t.name@ == decode_utf8(s.subrange(start, start + len))
                    &&& t.image.width == le_u32(s, m + 4)
                    &&& t.image.height == le_u32(s, m + 8)
                    &&& match texture_format_of(le_u32(s, m + 20)) {
                        TextureFormat::BCn(v) => {
                            &&& t.image.color == v.spec_color_type()
                            &&& t.image.data@ == decode_image_spec(
                                v,
                                s,
                                pixel_data_at(s, p),
                                (le_u32(s, m + 4) / 4) as nat,
                                (le_u32(s, m + 8) / 4) as nat,
                            )
                        },
                        TextureFormat::A8 => {
                            &&& t.image.color == ColorType::L8
                            &&& t.image.data@ == s.subrange(pixel_data_at(s, p), s.len() as int)
                        },
                        TextureFormat::Unknown(_) => false,
                    }
                }
            }),
    {
        let mut input = input;
        let header = D3DTXHeader::parse(&mut input)?;
        let image = decode_texture_data(input, header.width, header.height, header.format)?;
        Ok(Texture { name: header.name, image })
    }
}

} // verus!
