//! Decoding of block-compressed (BC1 to BC5) texture data.
use vstd::arithmetic::div_mod::{
    lemma_fundamental_div_mod, lemma_fundamental_div_mod_converse, lemma_mod_pos_bound,
};
use vstd::prelude::*;

use crate::cursor::{fits, le_u16, le_u32, le_u64, Cursor};
use crate::error::DecodeError;

verus! {

/// The block-compression variant of a texture.
#[derive(Debug, Clone, Copy, PartialEq, Eq, Structural)]
pub enum BCnVariant {
    /// 8 bytes hold 16 RGB pixels.
    BC1,
    /// 16 bytes hold 16 RGBA pixels with explicit 4-bit alpha.
    BC2,
    /// 16 bytes hold 16 RGBA pixels with interpolated alpha.
    BC3,
    /// 8 bytes hold 16 single-channel pixels.
    BC4,
    /// 16 bytes hold 16 two-channel pixels.
    BC5,
}

/// The layout of a decoded pixel.
#[derive(Debug, Clone, Copy, PartialEq, Eq, Structural)]
pub enum ColorType {
    L8,
    La8,
    Rgb8,
    Rgba8,
}

impl ColorType {
    pub open spec fn spec_bytes_per_pixel(self) -> nat {
        match self {
            ColorType::L8 => 1,
            ColorType::La8 => 2,
            ColorType::Rgb8 => 3,
            ColorType::Rgba8 => 4,
        }
    }

    pub fn bytes_per_pixel(self) -> (r: u8)
        ensures
            r == self.spec_bytes_per_pixel(),
    {
        match self {
            ColorType::L8 => 1,
            ColorType::La8 => 2,
            ColorType::Rgb8 => 3,
            ColorType::Rgba8 => 4,
        }
    }
}

impl BCnVariant {
    pub open spec fn spec_decoded_bytes_per_block(self) -> nat {
        16 * self.spec_color_type().spec_bytes_per_pixel()
    }

    pub open spec fn spec_encoded_bytes_per_block(self) -> nat {
        match self {
            BCnVariant::BC1 | BCnVariant::BC4 => 8,
            _ => 16,
        }
    }

    pub open spec fn spec_color_type(self) -> ColorType {
        match self {
            BCnVariant::BC1 => ColorType::Rgb8,
            BCnVariant::BC2 | BCnVariant::BC3 => ColorType::Rgba8,
            BCnVariant::BC4 => ColorType::L8,
            BCnVariant::BC5 => ColorType::La8,
        }
    }

    /// Bytes of decoded pixels in one 4x4 block.
    pub fn decoded_bytes_per_block(self) -> (r: usize)
        ensures
            r == self.spec_decoded_bytes_per_block(),
    {
        match self {
            BCnVariant::BC1 => 48,
            BCnVariant::BC2 | BCnVariant::BC3 => 64,
            BCnVariant::BC4 => 16,
            BCnVariant::BC5 => 32,
        }
    }

    /// Bytes of encoded data in one 4x4 block.
    pub fn encoded_bytes_per_block(self) -> (r: usize)
        ensures
            r == self.spec_encoded_bytes_per_block(),
    {
        match self {
            BCnVariant::BC1 | BCnVariant::BC4 => 8,
            BCnVariant::BC2 | BCnVariant::BC3 | BCnVariant::BC5 => 16,
        }
    }

    /// The pixel layout that this variant decodes to.
    pub fn color_type(self) -> (r: ColorType)
        ensures
            r == self.spec_color_type(),
    {
        match self {
            BCnVariant::BC1 => ColorType::Rgb8,
            BCnVariant::BC2 | BCnVariant::BC3 => ColorType::Rgba8,
            BCnVariant::BC4 => ColorType::L8,
            BCnVariant::BC5 => ColorType::La8,
        }
    }
}

/// `v` with its lowest `i` digits in `base` removed.
pub open spec fn shifted(v: nat, base: nat, i: nat) -> nat
    decreases i,
{
    if i == 0 {
        v
    } else {
        shifted(v, base, (i - 1) as nat) / base
    }
}

/// Digit `i` (counting from the least significant) of `v` in `base`.
pub open spec fn digit(v: nat, base: nat, i: nat) -> nat {
    shifted(v, base, i) % base
}

/// A 5-bit channel stretched to 8 bits, keeping 0 and the maximum exact.
pub open spec fn expand5(v: int) -> u8 {
    (v * 255 / 31) as u8
}

/// A 6-bit channel stretched to 8 bits, keeping 0 and the maximum exact.
pub open spec fn expand6(v: int) -> u8 {
    (v * 255 / 63) as u8
}

/// The 8-bit RGB colour of a packed 5-6-5 value.
pub open spec fn expand_565(value: u16) -> Seq<u8> {
    seq![
        expand5(value as int / 2048),
        expand6((value as int / 32) % 64),
        expand5(value as int % 32),
    ]
}

/// Channel `ch` of entry `k` of the four-colour table of a colour block.
///
/// The table holds the two endpoints and two colours between them; in the
/// three-colour mode (BC1 with `c0 <= c1`) the third entry is their mean and
/// the fourth is black.
pub open spec fn color_entry(c0: u16, c1: u16, is_bc1: bool, k: int, ch: int) -> u8 {
    let a = expand_565(c0)[ch] as int;
    let b = expand_565(c1)[ch] as int;
    if k == 0 {
        a as u8
    } else if k == 1 {
        b as u8
    } else if c0 > c1 || !is_bc1 {
        if k == 2 {
            ((2 * a + b + 1) / 3) as u8
        } else {
            ((a + 2 * b + 1) / 3) as u8
        }
    } else {
        if k == 2 {
            ((a + b + 1) / 2) as u8
        } else {
            0
        }
    }
}

/// Entry `k` of the eight-entry table interpolated from two 8-bit endpoints.
pub open spec fn alpha_entry(a0: u8, a1: u8, k: int) -> u8 {
    if k == 0 {
        a0
    } else if k == 1 {
        a1
    } else if a0 > a1 {
        (((8 - k) * a0 + (k - 1) * a1) / 7) as u8
    } else if k < 6 {
        (((6 - k) * a0 + (k - 1) * a1) / 5) as u8
    } else if k == 6 {
        0
    } else {
        255
    }
}

/// Decodes a packed 5-6-5 colour to 8-bit RGB.
pub fn enc565_decode(value: u16) -> (r: [u8; 3])
    ensures
        r@ == expand_565(value),
{
    let red: u32 = (value / 2048) as u32;
    let green: u32 = ((value / 32) % 64) as u32;
    let blue: u32 = (value % 32) as u32;
    let r = [(red * 255 / 31) as u8, (green * 255 / 63) as u8, (blue * 255 / 31) as u8];
    assert(r@ =~= expand_565(value));
    r
}

/// The eight alpha levels between two endpoints.
fn alpha_table_dxt5(alpha0: u8, alpha1: u8) -> (r: [u8; 8])
    ensures
        forall|k: int| 0 <= k < 8 ==> r[k] == alpha_entry(alpha0, alpha1, k),
{
    let a0 = alpha0 as u32;
    let a1 = alpha1 as u32;
    if alpha0 > alpha1 {
        let table: [u8; 8] = [
            alpha0,
            alpha1,
            ((6 * a0 + a1) / 7) as u8,
            ((5 * a0 + 2 * a1) / 7) as u8,
            ((4 * a0 + 3 * a1) / 7) as u8,
            ((3 * a0 + 4 * a1) / 7) as u8,
            ((2 * a0 + 5 * a1) / 7) as u8,
            ((a0 + 6 * a1) / 7) as u8,
        ];
        assert(table[2] == alpha_entry(alpha0, alpha1, 2));
        assert(table[3] == alpha_entry(alpha0, alpha1, 3));
        assert(table[4] == alpha_entry(alpha0, alpha1, 4));
        assert(table[5] == alpha_entry(alpha0, alpha1, 5));
        assert(table[6] == alpha_entry(alpha0, alpha1, 6));
        assert(table[7] == alpha_entry(alpha0, alpha1, 7));
        table
    } else {
        let table: [u8; 8] = [
            alpha0,
            alpha1,
            ((4 * a0 + a1) / 5) as u8,
            ((3 * a0 + 2 * a1) / 5) as u8,
            ((2 * a0 + 3 * a1) / 5) as u8,
            ((a0 + 4 * a1) / 5) as u8,
            0,
            255,
        ];
        assert(table[2] == alpha_entry(alpha0, alpha1, 2));
        assert(table[3] == alpha_entry(alpha0, alpha1, 3));
        assert(table[4] == alpha_entry(alpha0, alpha1, 4));
        assert(table[5] == alpha_entry(alpha0, alpha1, 5));
        table
    }
}

/// The four-colour table of a colour block, three bytes per entry.
fn decode_dxt_colors(color0: u16, color1: u16, is_bc1: bool) -> (r: Vec<u8>)
    ensures
        r@.len() == 12,
        forall|k: int, ch: int|
            0 <= k < 4 && 0 <= ch < 3 ==> r@[3 * k + ch] == color_entry(
                color0,
                color1,
                is_bc1,
                k,
                ch,
            ),
{
    let e0 = enc565_decode(color0);
    let e1 = enc565_decode(color1);
    let mut r: Vec<u8> = Vec::with_capacity(12);
    r.push(e0[0]);
    r.push(e0[1]);
    r.push(e0[2]);
    r.push(e1[0]);
    r.push(e1[1]);
    r.push(e1[2]);
    let four = color0 > color1 || !is_bc1;
    let mut k: usize = 2;
    while k < 4
        invariant
            2 <= k <= 4,
            r@.len() == 3 * k,
            e0@ == expand_565(color0),
            e1@ == expand_565(color1),
            four == (color0 > color1 || !is_bc1),
            forall|kk: int, ch: int|
                0 <= kk < k && 0 <= ch < 3 ==> r@[3 * kk + ch] == color_entry(
                    color0,
                    color1,
                    is_bc1,
                    kk,
                    ch,
                ),
        decreases 4 - k,
    {
        let mut ch: usize = 0;
        while ch < 3
            invariant
                2 <= k < 4,
                ch <= 3,
                r@.len() == 3 * k + ch,
                e0@ == expand_565(color0),
                e1@ == expand_565(color1),
                four == (color0 > color1 || !is_bc1),
                forall|kk: int, c: int|
                    (0 <= kk < k && 0 <= c < 3) || (kk == k && 0 <= c < ch) ==> r@[3 * kk + c]
                        == color_entry(color0, color1, is_bc1, kk, c),
            decreases 3 - ch,
        {
            let a = e0[ch] as u32;
            let b = e1[ch] as u32;
            let v: u8 = if four {
                if k == 2 {
                    ((2 * a + b + 1) / 3) as u8
                } else {
                    ((a + 2 * b + 1) / 3) as u8
                }
            } else {
                if k == 2 {
                    ((a + b + 1) / 2) as u8
                } else {
                    0
                }
            };
            r.push(v);
            ch = ch + 1;
        }
        k = k + 1;
    }
    r
}

/// The first `count` digits of `value` in `base`, least significant first.
pub(crate) fn digits(value: u64, base: u64, count: usize) -> (r: Vec<u8>)
    requires
        2 <= base <= 256,
    ensures
        r@.len() == count,
        forall|i: int| 0 <= i < count ==> r@[i] == digit(value as nat, base as nat, i as nat),
{
    let mut r: Vec<u8> = Vec::with_capacity(count);
    let mut rest = value;
    let mut i: usize = 0;
    while i < count
        invariant
            2 <= base <= 256,
            i <= count,
            r@.len() == i,
            rest == shifted(value as nat, base as nat, i as nat),
            forall|j: int| 0 <= j < i ==> r@[j] == digit(value as nat, base as nat, j as nat),
        decreases count - i,
    {
        r.push((rest % base) as u8);
        rest = rest / base;
        i = i + 1;
    }
    r
}


/// The 48-bit little-endian value stored at byte `i` of `s`.
pub open spec fn le_u48(s: Seq<u8>, i: int) -> nat {
    le_u32(s, i) as nat + 4294967296 * (le_u16(s, i + 4) as nat)
}

/// Channel `ch` of pixel `i` of a colour block stored at byte `off` of `s`.
pub open spec fn color_value(s: Seq<u8>, off: int, is_bc1: bool, i: int, ch: int) -> u8 {
    color_entry(
        le_u16(s, off),
        le_u16(s, off + 2),
        is_bc1,
        digit(le_u32(s, off + 4) as nat, 4, i as nat) as int,
        ch,
    )
}

/// The level of pixel `i` of an interpolated single-channel block at byte `off` of `s`.
pub open spec fn alpha_value(s: Seq<u8>, off: int, i: int) -> u8 {
    alpha_entry(s[off], s[off + 1], digit(le_u48(s, off + 2), 8, i as nat) as int)
}

/// The alpha of pixel `i` of an explicit 4-bit alpha block at the start of `s`.
pub open spec fn explicit_alpha(s: Seq<u8>, i: int) -> u8 {
    (digit(le_u64(s, 0) as nat, 16, i as nat) * 17) as u8
}

/// Channel `ch` of pixel `i` (row-major in the 4x4 block) of the encoded block `s`.
pub open spec fn pixel_byte(v: BCnVariant, s: Seq<u8>, i: int, ch: int) -> u8 {
    match v {
        BCnVariant::BC1 => color_value(s, 0, true, i, ch),
        BCnVariant::BC2 => if ch < 3 {
            color_value(s, 8, false, i, ch)
        } else {
            explicit_alpha(s, i)
        },
        BCnVariant::BC3 => if ch < 3 {
            color_value(s, 8, false, i, ch)
        } else {
            alpha_value(s, 0, i)
        },
        BCnVariant::BC4 => alpha_value(s, 0, i),
        BCnVariant::BC5 => alpha_value(s, 8 * ch, i),
    }
}

/// Byte `t` of the decoded encoded block `s`.
pub open spec fn block_byte(v: BCnVariant, s: Seq<u8>, t: int) -> u8 {
    let p = v.spec_color_type().spec_bytes_per_pixel() as int;
    pixel_byte(v, s, t / p, t % p)
}

/// The first `n` decoded bytes of the encoded block `s`.
pub open spec fn block_prefix(v: BCnVariant, s: Seq<u8>, n: nat) -> Seq<u8> {
    Seq::new(n, |t: int| block_byte(v, s, t))
}

/// The 16 decoded pixels of the encoded block `s`, row by row.
pub open spec fn decode_block_spec(v: BCnVariant, s: Seq<u8>) -> Seq<u8> {
    block_prefix(v, s, v.spec_decoded_bytes_per_block())
}

/// The bytes of pixel `i` of the encoded block `s`.
pub open spec fn pixel_bytes(v: BCnVariant, s: Seq<u8>, i: int) -> Seq<u8> {
    Seq::new(v.spec_color_type().spec_bytes_per_pixel(), |c: int| pixel_byte(v, s, i, c))
}

pub(crate) proof fn lemma_split(p: int, i: int, c: int)
    requires
        p > 0,
        i >= 0,
        0 <= c < p,
    ensures
        (p * i + c) / p == i,
        (p * i + c) % p == c,
{
    assert(p * i == i * p) by (nonlinear_arith);
    lemma_fundamental_div_mod_converse(p * i + c, p, i, c);
}

proof fn lemma_block_prefix_step(v: BCnVariant, s: Seq<u8>, i: nat)
    ensures
        ({
            let p = v.spec_color_type().spec_bytes_per_pixel();
            block_prefix(v, s, p * (i + 1)) =~= block_prefix(v, s, p * i) + pixel_bytes(
                v,
                s,
                i as int,
            )
        }),
{
    let p = v.spec_color_type().spec_bytes_per_pixel();
    assert(p * (i + 1) == p * i + p) by (nonlinear_arith);
    assert forall|c: int| 0 <= c < p implies block_byte(v, s, p * i + c) == pixel_byte(
        v,
        s,
        i as int,
        c,
    ) by {
        lemma_split(p as int, i as int, c);
    }
}

fn get_u16(src: &Vec<u8>, off: usize) -> (r: u16)
    requires
        off + 2 <= src.len(),
    ensures
        r == le_u16(src@, off as int),
{
    src[off] as u16 + 256 * (src[off + 1] as u16)
}

fn get_u32(src: &Vec<u8>, off: usize) -> (r: u32)
    requires
        off + 4 <= src.len(),
    ensures
        r == le_u32(src@, off as int),
{
    src[off] as u32 + 256 * (src[off + 1] as u32) + 65536 * (src[off + 2] as u32) + 16777216 * (
    src[off + 3] as u32)
}

fn get_u48(src: &Vec<u8>, off: usize) -> (r: u64)
    requires
        off + 6 <= src.len(),
    ensures
        r == le_u48(src@, off as int),
{
    get_u32(src, off) as u64 + 4294967296 * (get_u16(src, off + 4) as u64)
}

fn get_u64(src: &Vec<u8>, off: usize) -> (r: u64)
    requires
        off + 8 <= src.len(),
    ensures
        r == le_u64(src@, off as int),
{
    get_u32(src, off) as u64 + 4294967296 * (get_u32(src, off + 4) as u64)
}

/// Decodes the 8-byte BC1 block at `off` of `src`, appending 16 RGB pixels.
fn decode_bc1_block(src: &Vec<u8>, off: usize, out: &mut Vec<u8>)
    requires
        off + 8 <= src.len(),
    ensures
        final(out)@ == old(out)@ + decode_block_spec(
            BCnVariant::BC1,
            src@.subrange(off as int, off + 8),
        ),
{
    let ghost s = src@.subrange(off as int, off + 8);
    let ghost v = BCnVariant::BC1;
    let c0 = get_u16(src, off);
    let c1 = get_u16(src, off + 2);
    let colors = decode_dxt_colors(c0, c1, true);
    let idx = digits(get_u32(src, off + 4) as u64, 4, 16);
    assert(le_u16(s, 0) == c0 && le_u16(s, 2) == c1);
    assert(le_u32(s, 4) == le_u32(src@, off + 4));
    let mut i: usize = 0;
    while i < 16
        invariant
            i <= 16,
            v == BCnVariant::BC1,
            off + 8 <= src.len(),
            s == src@.subrange(off as int, off + 8),
            le_u16(s, 0) == c0 && le_u16(s, 2) == c1,
            colors@.len() == 12,
            forall|k: int, ch: int|
                0 <= k < 4 && 0 <= ch < 3 ==> colors@[3 * k + ch] == color_entry(
                    c0,
                    c1,
                    true,
                    k,
                    ch,
                ),
            idx@.len() == 16,
            forall|j: int| 0 <= j < 16 ==> idx@[j] == digit(le_u32(s, 4) as nat, 4, j as nat),
            out@ == old(out)@ + block_prefix(v, s, 3 * i as nat),
        decreases 16 - i,
    {
        let k = idx[i] as usize;
        let ghost prev = out@;
        out.push(colors[3 * k]);
        out.push(colors[3 * k + 1]);
        out.push(colors[3 * k + 2]);
        proof {
            assert(k == digit(le_u32(s, 4) as nat, 4, i as nat));
            assert forall|c: int| 0 <= c < 3 implies pixel_byte(v, s, i as int, c) == colors@[3
                * k + c] by {}
            assert(out@ =~= prev + pixel_bytes(v, s, i as int));
            lemma_block_prefix_step(v, s, i as nat);
            assert(3 * (i + 1) == 3 * i + 3);
        }
        i = i + 1;
        assert(out@ =~= old(out)@ + block_prefix(v, s, 3 * i as nat));
    }
}


/// Decodes the 16-byte BC2 block at `off` of `src`, appending 16 RGBA pixels.
fn decode_dxt3_block(src: &Vec<u8>, off: usize, out: &mut Vec<u8>)
    requires
        off + 16 <= src.len(),
    ensures
        final(out)@ == old(out)@ + decode_block_spec(
            BCnVariant::BC2,
            src@.subrange(off as int, off + 16),
        ),
{
    let ghost s = src@.subrange(off as int, off + 16);
    let ghost v = BCnVariant::BC2;
    let c0 = get_u16(src, off + 8);
    let c1 = get_u16(src, off + 10);
    let colors = decode_dxt_colors(c0, c1, false);
    let idx = digits(get_u32(src, off + 12) as u64, 4, 16);
    let alphas = digits(get_u64(src, off), 16, 16);
    assert(le_u16(s, 8) == c0 && le_u16(s, 10) == c1);
    assert(le_u32(s, 12) == le_u32(src@, off + 12));
    assert(le_u64(s, 0) == le_u64(src@, off as int));
    let mut i: usize = 0;
    while i < 16
        invariant
            i <= 16,
            v == BCnVariant::BC2,
            off + 16 <= src.len(),
            s == src@.subrange(off as int, off + 16),
            le_u16(s, 8) == c0 && le_u16(s, 10) == c1,
            colors@.len() == 12,
            forall|k: int, ch: int|
                0 <= k < 4 && 0 <= ch < 3 ==> colors@[3 * k + ch] == color_entry(
                    c0,
                    c1,
                    false,
                    k,
                    ch,
                ),
            idx@.len() == 16,
            forall|j: int| 0 <= j < 16 ==> idx@[j] == digit(le_u32(s, 12) as nat, 4, j as nat),
            alphas@.len() == 16,
            forall|j: int| 0 <= j < 16 ==> alphas@[j] == digit(le_u64(s, 0) as nat, 16, j as nat),
            out@ == old(out)@ + block_prefix(v, s, 4 * i as nat),
        decreases 16 - i,
    {
        let k = idx[i] as usize;
        let a = alphas[i];
        let ghost prev = out@;
        out.push(colors[3 * k]);
        out.push(colors[3 * k + 1]);
        out.push(colors[3 * k + 2]);
        out.push(a * 17);
        proof {
            assert forall|c: int| 0 <= c < 3 implies pixel_byte(v, s, i as int, c) == colors@[3
                * k + c] by {}
            assert(out@ =~= prev + pixel_bytes(v, s, i as int));
            lemma_block_prefix_step(v, s, i as nat);
            assert(4 * (i + 1) == 4 * i + 4);
        }
        i = i + 1;
        assert(out@ =~= old(out)@ + block_prefix(v, s, 4 * i as nat));
    }
}

/// Decodes the 16-byte BC3 block at `off` of `src`, appending 16 RGBA pixels.
fn decode_dxt5_block(src: &Vec<u8>, off: usize, out: &mut Vec<u8>)
    requires
        off + 16 <= src.len(),
    ensures
        final(out)@ == old(out)@ + decode_block_spec(
            BCnVariant::BC3,
            src@.subrange(off as int, off + 16),
        ),
{
    let ghost s = src@.subrange(off as int, off + 16);
    let ghost v = BCnVariant::BC3;
    let c0 = get_u16(src, off + 8);
    let c1 = get_u16(src, off + 10);
    let colors = decode_dxt_colors(c0, c1, false);
    let idx = digits(get_u32(src, off + 12) as u64, 4, 16);
    let levels = alpha_table_dxt5(src[off], src[off + 1]);
    let aidx = digits(get_u48(src, off + 2), 8, 16);
    assert(le_u16(s, 8) == c0 && le_u16(s, 10) == c1);
    assert(le_u32(s, 12) == le_u32(src@, off + 12));
    assert(le_u48(s, 2) == le_u48(src@, off + 2));
    let mut i: usize = 0;
    while i < 16
        invariant
            i <= 16,
            v == BCnVariant::BC3,
            off + 16 <= src.len(),
            s == src@.subrange(off as int, off + 16),
            le_u16(s, 8) == c0 && le_u16(s, 10) == c1,
            colors@.len() == 12,
            forall|k: int, ch: int|
                0 <= k < 4 && 0 <= ch < 3 ==> colors@[3 * k + ch] == color_entry(
                    c0,
                    c1,
                    false,
                    k,
                    ch,
                ),
            idx@.len() == 16,
            forall|j: int| 0 <= j < 16 ==> idx@[j] == digit(le_u32(s, 12) as nat, 4, j as nat),
            forall|k: int| 0 <= k < 8 ==> levels[k] == alpha_entry(s[0], s[1], k),
            aidx@.len() == 16,
            forall|j: int| 0 <= j < 16 ==> aidx@[j] == digit(le_u48(s, 2), 8, j as nat),
            out@ == old(out)@ + block_prefix(v, s, 4 * i as nat),
        decreases 16 - i,
    {
        let k = idx[i] as usize;
        let ghost prev = out@;
        out.push(colors[3 * k]);
        out.push(colors[3 * k + 1]);
        out.push(colors[3 * k + 2]);
        out.push(levels[aidx[i] as usize]);
        proof {
            assert forall|c: int| 0 <= c < 3 implies pixel_byte(v, s, i as int, c) == colors@[3
                * k + c] by {}
            assert(out@ =~= prev + pixel_bytes(v, s, i as int));
            lemma_block_prefix_step(v, s, i as nat);
            assert(4 * (i + 1) == 4 * i + 4);
        }
        i = i + 1;
        assert(out@ =~= old(out)@ + block_prefix(v, s, 4 * i as nat));
    }
}

/// Decodes the 8-byte BC4 block at `off` of `src`, appending 16 single-channel pixels.
fn decode_bc4_block(src: &Vec<u8>, off: usize, out: &mut Vec<u8>)
    requires
        off + 8 <= src.len(),
    ensures
        final(out)@ == old(out)@ + decode_block_spec(
            BCnVariant::BC4,
            src@.subrange(off as int, off + 8),
        ),
{
    let ghost s = src@.subrange(off as int, off + 8);
    let ghost v = BCnVariant::BC4;
    let levels = alpha_table_dxt5(src[off], src[off + 1]);
    let aidx = digits(get_u48(src, off + 2), 8, 16);
    assert(le_u48(s, 2) == le_u48(src@, off + 2));
    let mut i: usize = 0;
    while i < 16
        invariant
            i <= 16,
            v == BCnVariant::BC4,
            off + 8 <= src.len(),
            s == src@.subrange(off as int, off + 8),
            forall|k: int| 0 <= k < 8 ==> levels[k] == alpha_entry(s[0], s[1], k),
            aidx@.len() == 16,
            forall|j: int| 0 <= j < 16 ==> aidx@[j] == digit(le_u48(s, 2), 8, j as nat),
            out@ == old(out)@ + block_prefix(v, s, i as nat),
        decreases 16 - i,
    {
        let ghost prev = out@;
        out.push(levels[aidx[i] as usize]);
        proof {
            assert(out@ =~= prev + pixel_bytes(v, s, i as int));
            lemma_block_prefix_step(v, s, i as nat);
        }
        i = i + 1;
        assert(out@ =~= old(out)@ + block_prefix(v, s, i as nat));
    }
}

/// Decodes the 16-byte BC5 block at `off` of `src`, appending 16 two-channel pixels.
fn decode_bc5_block(src: &Vec<u8>, off: usize, out: &mut Vec<u8>)
    requires
        off + 16 <= src.len(),
    ensures
        final(out)@ == old(out)@ + decode_block_spec(
            BCnVariant::BC5,
            src@.subrange(off as int, off + 16),
        ),
{
    let ghost s = src@.subrange(off as int, off + 16);
    let ghost v = BCnVariant::BC5;
    let first = alpha_table_dxt5(src[off], src[off + 1]);
    let first_idx = digits(get_u48(src, off + 2), 8, 16);
    let second = alpha_table_dxt5(src[off + 8], src[off + 9]);
    let second_idx = digits(get_u48(src, off + 10), 8, 16);
    assert(le_u48(s, 2) == le_u48(src@, off + 2));
    assert(le_u48(s, 10) == le_u48(src@, off + 10));
    let mut i: usize = 0;
    while i < 16
        invariant
            i <= 16,
            v == BCnVariant::BC5,
            off + 16 <= src.len(),
            s == src@.subrange(off as int, off + 16),
            forall|k: int| 0 <= k < 8 ==> first[k] == alpha_entry(s[0], s[1], k),
            forall|k: int| 0 <= k < 8 ==> second[k] == alpha_entry(s[8], s[9], k),
            first_idx@.len() == 16,
            forall|j: int| 0 <= j < 16 ==> first_idx@[j] == digit(le_u48(s, 2), 8, j as nat),
            second_idx@.len() == 16,
            forall|j: int| 0 <= j < 16 ==> second_idx@[j] == digit(le_u48(s, 10), 8, j as nat),
            out@ == old(out)@ + block_prefix(v, s, 2 * i as nat),
        decreases 16 - i,
    {
        let ghost prev = out@;
        out.push(first[first_idx[i] as usize]);
        out.push(second[second_idx[i] as usize]);
        proof {
            assert(out@ =~= prev + pixel_bytes(v, s, i as int));
            lemma_block_prefix_step(v, s, i as nat);
            assert(2 * (i + 1) == 2 * i + 2);
        }
        i = i + 1;
        assert(out@ =~= old(out)@ + block_prefix(v, s, 2 * i as nat));
    }
}

/// Decodes the block of `variant` at `off` of `src`, appending its pixels to `out`.
fn decode_block(variant: BCnVariant, src: &Vec<u8>, off: usize, out: &mut Vec<u8>)
    requires
        off + variant.spec_encoded_bytes_per_block() <= src.len(),
    ensures
        final(out)@ == old(out)@ + decode_block_spec(
            variant,
            src@.subrange(off as int, off + variant.spec_encoded_bytes_per_block()),
        ),
{
    match variant {
        BCnVariant::BC1 => decode_bc1_block(src, off, out),
        BCnVariant::BC2 => decode_dxt3_block(src, off, out),
        BCnVariant::BC3 => decode_dxt5_block(src, off, out),
        BCnVariant::BC4 => decode_bc4_block(src, off, out),
        BCnVariant::BC5 => decode_bc5_block(src, off, out),
    }
}


/// Bytes of one decoded pixel row of one block.
pub open spec fn line_bytes(v: BCnVariant) -> nat {
    4 * v.spec_color_type().spec_bytes_per_pixel()
}

/// The first `n` bytes of the blocks of the encoded block row `rs`, decoded
/// one after another.
pub open spec fn row_blocks(v: BCnVariant, rs: Seq<u8>, n: nat) -> Seq<u8> {
    let d = v.spec_decoded_bytes_per_block() as int;
    let e = v.spec_encoded_bytes_per_block() as int;
    Seq::new(n, |t: int| block_byte(v, rs.subrange((t / d) * e, (t / d) * e + e), t % d))
}

/// Byte `j` of the four pixel rows decoded from the encoded block row `rs`
/// of `wb` blocks: pixel row `line`, block `x`, byte `k` within the block's row.
pub open spec fn scanline_byte(v: BCnVariant, rs: Seq<u8>, wb: nat, j: int) -> u8 {
    let w = line_bytes(v) as int;
    let e = v.spec_encoded_bytes_per_block() as int;
    let line = j / (w * wb);
    let r = j % (w * wb);
    let x = r / w;
    let k = r % w;
    block_byte(v, rs.subrange(x * e, x * e + e), line * w + k)
}

/// The four pixel rows decoded from the encoded block row `rs` of `wb` blocks.
pub open spec fn decode_scanline_spec(v: BCnVariant, rs: Seq<u8>, wb: nat) -> Seq<u8> {
    Seq::new(v.spec_decoded_bytes_per_block() * wb, |j: int| scanline_byte(v, rs, wb, j))
}

proof fn lemma_mul_bound(a: int, b: int, am: int, bm: int)
    requires
        0 <= a <= am,
        0 <= b <= bm,
    ensures
        a * b <= am * bm,
{
    assert(a * b <= am * bm) by (nonlinear_arith)
        requires
            0 <= a <= am,
            0 <= b <= bm,
    ;
}

proof fn lemma_block_bound(x: int, wb: int, e: int)
    requires
        0 <= x < wb,
        e > 0,
    ensures
        x * e + e <= wb * e,
{
    assert(x * e + e <= wb * e) by (nonlinear_arith)
        requires
            x + 1 <= wb,
            e > 0,
    ;
}

proof fn lemma_scan_index(j: int, w: int, wb: int)
    requires
        w > 0,
        0 <= j < 4 * w * wb,
    ensures
        w * wb > 0,
        ({
            let line = j / (w * wb);
            let r = j % (w * wb);
            let x = r / w;
            let k = r % w;
            &&& 0 <= line < 4
            &&& 0 <= x < wb
            &&& 0 <= k < w
            &&& 0 <= line * w + k < 4 * w
            &&& 0 <= x * (4 * w) + line * w + k < wb * (4 * w)
        }),
{
    assert(wb > 0) by (nonlinear_arith)
        requires
            w > 0,
            0 <= j < 4 * w * wb,
    ;
    assert(w * wb > 0) by (nonlinear_arith)
        requires
            w > 0,
            wb > 0,
    ;
    let ww = w * wb;
    let line = j / ww;
    let r = j % ww;
    let x = r / w;
    let k = r % w;
    lemma_fundamental_div_mod(j, ww);
    lemma_mod_pos_bound(j, ww);
    lemma_fundamental_div_mod(r, w);
    lemma_mod_pos_bound(r, w);
    assert(0 <= line < 4) by (nonlinear_arith)
        requires
            j == ww * line + r,
            0 <= r < ww,
            ww == w * wb,
            0 <= j < 4 * w * wb,
    ;
    assert(0 <= x < wb) by (nonlinear_arith)
        requires
            r == w * x + k,
            0 <= k < w,
            0 <= r < ww,
            ww == w * wb,
    ;
    assert(0 <= line * w + k < 4 * w) by (nonlinear_arith)
        requires
            0 <= line < 4,
            0 <= k < w,
    ;
    assert(0 <= x * (4 * w) + line * w + k < wb * (4 * w)) by (nonlinear_arith)
        requires
            0 <= x < wb,
            0 <= line * w + k < 4 * w,
    ;
}

/// Decodes one row of `wb` encoded blocks into four rows of pixels.
fn decode_row(variant: BCnVariant, rs: &Vec<u8>, wb: usize) -> (r: Vec<u8>)
    requires
        rs@.len() == variant.spec_encoded_bytes_per_block() * wb,
        variant.spec_decoded_bytes_per_block() * wb <= usize::MAX,
    ensures
        r@ == decode_scanline_spec(variant, rs@, wb as nat),
{
    let d = variant.decoded_bytes_per_block();
    let e = variant.encoded_bytes_per_block();
    let w = d / 4;
    let ghost v = variant;
    let mut blocks: Vec<u8> = Vec::new();
    let mut x: usize = 0;
    while x < wb
        invariant
            v == variant,
            d == v.spec_decoded_bytes_per_block(),
            e == v.spec_encoded_bytes_per_block(),
            rs@.len() == e * wb,
            e * wb == rs.len(),
            d * wb <= usize::MAX,
            x <= wb,
            blocks@ == row_blocks(v, rs@, (x * d) as nat),
        decreases wb - x,
    {
        proof {
            lemma_block_bound(x as int, wb as int, e as int);
            lemma_block_bound(x as int, wb as int, d as int);
        }
        let ghost prev = blocks@;
        decode_block(variant, rs, x * e, &mut blocks);
        proof {
            assert((x + 1) * d == x * d + d) by (nonlinear_arith);
            assert forall|t: int| x * d <= t < (x + 1) * d implies #[trigger] row_blocks(
                v,
                rs@,
                ((x + 1) * d) as nat,
            )[t] == decode_block_spec(v, rs@.subrange(x * e, x * e + e))[t - x * d] by {
                lemma_split(d as int, x as int, t - x * d);
            }
            assert((x + 1) * d == x * d + d) by (nonlinear_arith);
        }
        x = x + 1;
        assert(blocks@ =~= row_blocks(v, rs@, (x * d) as nat));
    }
    let mut out: Vec<u8> = Vec::new();
    let total = d * wb;
    assert(w * wb <= d * wb) by (nonlinear_arith)
        requires
            d == 4 * w,
    ;
    let ww = w * wb;
    let mut j: usize = 0;
    while j < total
        invariant
            v == variant,
            d == v.spec_decoded_bytes_per_block(),
            e == v.spec_encoded_bytes_per_block(),
            w == line_bytes(v),
            d == 4 * w,
            total == d * wb,
            ww == w * wb,
            rs@.len() == e * wb,
            j <= total,
            blocks@ == row_blocks(v, rs@, (wb * d) as nat),
            out@ == Seq::new(j as nat, |i: int| scanline_byte(v, rs@, wb as nat, i)),
        decreases total - j,
    {
        proof {
            lemma_scan_index(j as int, w as int, wb as int);
        }
        let line = j / ww;
        let r = j % ww;
        let x = r / w;
        let k = r % w;
        let t = x * d + line * w + k;
        proof {
            lemma_split(d as int, x as int, line * w + k);
            assert(d * x == x * d) by (nonlinear_arith);
        }
        out.push(blocks[t]);
        j = j + 1;
        assert(out@ =~= Seq::new(j as nat, |i: int| scanline_byte(v, rs@, wb as nat, i)));
    }
    out
}


/// Byte `j` of the image decoded from the block rows that start at byte
/// `start` of `src`, each row holding `wb` blocks.
pub open spec fn image_byte(v: BCnVariant, src: Seq<u8>, start: int, wb: nat, j: int) -> u8 {
    let sl = (v.spec_decoded_bytes_per_block() * wb) as int;
    let rl = (v.spec_encoded_bytes_per_block() * wb) as int;
    let row = j / sl;
    scanline_byte(v, src.subrange(start + row * rl, start + row * rl + rl), wb, j % sl)
}

/// The pixels decoded from `hb` rows of `wb` blocks stored from byte `start` of `src`.
pub open spec fn decode_image_spec(
    v: BCnVariant,
    src: Seq<u8>,
    start: int,
    wb: nat,
    hb: nat,
) -> Seq<u8> {
    Seq::new(v.spec_decoded_bytes_per_block() * wb * hb, |j: int| image_byte(v, src, start, wb, j))
}

/// A decoded image: `width * height` pixels of `color`, row by row.
#[derive(Debug, Clone)]
pub struct PixelImage {
    pub width: u32,
    pub height: u32,
    pub color: ColorType,
    pub data: Vec<u8>,
}

/// Decodes block-compressed data from a cursor, one row of blocks at a time.
pub struct DxtDecoder {
    inner: Cursor,
    width_blocks: u32,
    height_blocks: u32,
    variant: BCnVariant,
}

impl DxtDecoder {
    pub closed spec fn input(&self) -> Cursor {
        self.inner
    }

    pub closed spec fn spec_width_blocks(&self) -> nat {
        self.width_blocks as nat
    }

    pub closed spec fn spec_height_blocks(&self) -> nat {
        self.height_blocks as nat
    }

    pub closed spec fn spec_variant(&self) -> BCnVariant {
        self.variant
    }

    /// Bytes of encoded data in one row of blocks.
    pub open spec fn encoded_row_len(&self) -> nat {
        self.spec_variant().spec_encoded_bytes_per_block() * self.spec_width_blocks()
    }

    /// Bytes of decoded pixels in one row of blocks.
    pub open spec fn decoded_row_len(&self) -> nat {
        self.spec_variant().spec_decoded_bytes_per_block() * self.spec_width_blocks()
    }

    pub closed spec fn wf(&self) -> bool {
        self.width_blocks <= u32::MAX / 4 && self.height_blocks <= u32::MAX / 4
    }

    /// A decoder for a `width` by `height` image of `variant` whose blocks
    /// start at the cursor's position; both sides must be multiples of four.
    pub fn new(r: Cursor, width: u32, height: u32, variant: BCnVariant) -> (res: Result<
        DxtDecoder,
        DecodeError,
    >)
        ensures
            res is Ok <==> width % 4 == 0 && height % 4 == 0,
            res is Ok ==> {
                let d = res->Ok_0;
                &&& d.wf()
                &&& d.input() == r
                &&& d.spec_width_blocks() == width / 4
                &&& d.spec_height_blocks() == height / 4
                &&& d.spec_variant() == variant
            },
            res is Err ==> res == Err::<DxtDecoder, DecodeError>(
                DecodeError::BadDimensions { width, height },
            ),
    {
        if width % 4 != 0 || height % 4 != 0 {
            return Err(DecodeError::BadDimensions { width, height });
        }
        Ok(DxtDecoder { inner: r, width_blocks: width / 4, height_blocks: height / 4, variant })
    }

    /// Width and height in pixels.
    pub fn dimensions(&self) -> (r: (u32, u32))
        requires
            self.wf(),
        ensures
            r.0 == 4 * self.spec_width_blocks(),
            r.1 == 4 * self.spec_height_blocks(),
    {
        (self.width_blocks * 4, self.height_blocks * 4)
    }

    pub fn color_type(&self) -> (r: ColorType)
        ensures
            r == self.spec_variant().spec_color_type(),
    {
        self.variant.color_type()
    }

    /// Bytes of decoded pixels in one row of blocks (four pixel rows).
    pub fn scanline_bytes(&self) -> (r: u64)
        ensures
            r == self.decoded_row_len(),
    {
        proof {
            lemma_mul_bound(self.spec_variant().spec_decoded_bytes_per_block() as int, self.width_blocks as int, 64, u32::MAX as int);
        }
        self.variant.decoded_bytes_per_block() as u64 * self.width_blocks as u64
    }

    /// Bytes of the whole decoded image.
    pub fn total_bytes(&self) -> (r: u128)
        requires
            self.wf(),
        ensures
            r == 16 * self.spec_width_blocks() * self.spec_height_blocks()
                * self.spec_variant().spec_color_type().spec_bytes_per_pixel(),
    {
        let (w, h) = self.dimensions();
        let bpp = self.color_type().bytes_per_pixel();
        proof {
            lemma_mul_bound(w as int, h as int, u32::MAX as int, u32::MAX as int);
        }
        let wh = w as u128 * h as u128;
        assert(wh <= 0x1_0000_0000_0000_0000) by (nonlinear_arith)
            requires
                wh == w * h,
                w <= u32::MAX,
                h <= u32::MAX,
        ;
        proof {
            lemma_mul_bound(wh as int, bpp as int, 0x1_0000_0000_0000_0000int, 4);
        }
        let r = wh * bpp as u128;
        assert(r == 16 * self.spec_width_blocks() * self.spec_height_blocks()
            * self.spec_variant().spec_color_type().spec_bytes_per_pixel()) by (nonlinear_arith)
            requires
                r == wh * bpp,
                wh == w * h,
                w == 4 * self.spec_width_blocks(),
                h == 4 * self.spec_height_blocks(),
                bpp == self.spec_variant().spec_color_type().spec_bytes_per_pixel(),
        ;
        r
    }

    /// Reads and decodes the next row of blocks.
    pub fn read_scanline(&mut self) -> (r: Result<Vec<u8>, DecodeError>)
        requires
            old(self).wf(),
        ensures
            final(self).wf(),
            final(self).input().bytes() == old(self).input().bytes(),
            final(self).spec_width_blocks() == old(self).spec_width_blocks(),
            final(self).spec_height_blocks() == old(self).spec_height_blocks(),
            final(self).spec_variant() == old(self).spec_variant(),
            r is Ok <==> fits(
                old(self).input().bytes(),
                old(self).input().pos(),
                old(self).encoded_row_len() as int,
            ) && old(self).decoded_row_len() <= usize::MAX,
            r is Ok ==> {
                let p = old(self).input().pos() as int;
                &&& final(self).input().pos() == p + old(self).encoded_row_len()
                &&& r->Ok_0@ == decode_scanline_spec(
                    old(self).spec_variant(),
                    old(self).input().bytes().subrange(p, p + old(self).encoded_row_len()),
                    old(self).spec_width_blocks(),
                )
            },
            r is Err ==> final(self).input().pos() == old(self).input().pos() && r == Err::<
                Vec<u8>,
                DecodeError,
            >(DecodeError::ShortImageData),
    {
        let d = self.variant.decoded_bytes_per_block() as u64;
        let e = self.variant.encoded_bytes_per_block() as u64;
        let wb = self.width_blocks as u64;
        proof {
            lemma_mul_bound(d as int, wb as int, 64, u32::MAX as int);
        }
        let dl = d * wb;
        if dl > usize::MAX as u64 {
            return Err(DecodeError::ShortImageData);
        }
        assert(e * wb <= d * wb) by (nonlinear_arith)
            requires
                e <= d,
        ;
        let n = (e * wb) as usize;
        match self.inner.read_bytes(n) {
            Ok(rs) => {
                let row = decode_row(self.variant, &rs, wb as usize);
                Ok(row)
            },
            Err(_) => Err(DecodeError::ShortImageData),
        }
    }

    /// Decodes all rows of blocks into one image.
    pub fn read_image(self) -> (r: Result<PixelImage, DecodeError>)
        requires
            self.wf(),
        ensures
            r is Ok <==> fits(
                self.input().bytes(),
                self.input().pos(),
                (self.encoded_row_len() * self.spec_height_blocks()) as int,
            ) && self.decoded_row_len() * self.spec_height_blocks() <= usize::MAX,
            r is Ok ==> {
                let img = r->Ok_0;
                &&& img.width == 4 * self.spec_width_blocks()
                &&& img.height == 4 * self.spec_height_blocks()
                &&& img.color == self.spec_variant().spec_color_type()
                &&& img.data@ == decode_image_spec(
                    self.spec_variant(),
                    self.input().bytes(),
                    self.input().pos() as int,
                    self.spec_width_blocks(),
                    self.spec_height_blocks(),
                )
            },
            r is Err ==> r == Err::<PixelImage, DecodeError>(DecodeError::ShortImageData),
    {
        let mut dec = self;
        let ghost v = dec.variant;
        let ghost src = dec.inner.bytes();
        let ghost start = dec.inner.pos() as int;
        let ghost wbn = dec.spec_width_blocks();
        let d = dec.variant.decoded_bytes_per_block() as u64;
        let e = dec.variant.encoded_bytes_per_block() as u64;
        let wb = dec.width_blocks as u64;
        let hb = dec.height_blocks as u64;
        proof {
            lemma_mul_bound(d as int, wb as int, 64, u32::MAX as int);
            lemma_mul_bound(e as int, wb as int, 64, u32::MAX as int);
        }
        let rl = e * wb;
        let sl = d * wb;
        assert(rl * hb <= 16 * 0x4000_0000 * 0x4000_0000) by (nonlinear_arith)
            requires
                rl == e * wb,
                e <= 16,
                wb <= 0x4000_0000,
                hb <= 0x4000_0000,
        ;
        proof {
            lemma_mul_bound(e as int, wb as int, 16, 1073741823);
            lemma_mul_bound(rl as int, hb as int, 17179869168, 1073741823);
        }
        let enc_total = rl * hb;
        let pos = dec.inner.position();
        let len = dec.inner.len() as u64;
        if pos > len || enc_total > len - pos {
            return Err(DecodeError::ShortImageData);
        }
        proof {
            lemma_mul_bound(sl as int, hb as int, u64::MAX as int, u64::MAX as int);
        }
        if sl as u128 * hb as u128 > usize::MAX as u128 {
            return Err(DecodeError::ShortImageData);
        }
        let mut out: Vec<u8> = Vec::new();
        let mut row: u64 = 0;
        while row < hb
            invariant
                dec.wf(),
                v == dec.spec_variant(),
                src == dec.input().bytes(),
                wbn == dec.spec_width_blocks(),
                wb == wbn,
                hb == dec.spec_height_blocks(),
                rl == dec.encoded_row_len(),
                sl == dec.decoded_row_len(),
                d == v.spec_decoded_bytes_per_block(),
                start + rl * hb <= src.len(),
                sl * hb <= usize::MAX,
                row <= hb,
                dec.input().pos() == start + row * rl,
                out@ == Seq::new((row * sl) as nat, |j: int| image_byte(v, src, start, wbn, j)),
            decreases hb - row,
        {
            proof {
                assert(start + row * rl + rl <= start + rl * hb) by (nonlinear_arith)
                    requires
                        row < hb,
                        rl >= 0,
                ;
                assert(sl <= sl * hb) by (nonlinear_arith)
                    requires
                        row < hb,
                        sl >= 0,
                ;
            }
            let ghost p = dec.inner.pos() as int;
            let r = dec.read_scanline();
            let mut line = match r {
                Ok(l) => l,
                Err(err) => {
                    return Err(err);
                },
            };
            let ghost prev = out@;
            let ghost ln = line@;
            out.append(&mut line);
            proof {
                assert((row + 1) * sl == row * sl + sl) by (nonlinear_arith);
                assert((row + 1) * rl == row * rl + rl) by (nonlinear_arith);
                assert forall|j: int| row * sl <= j < (row + 1) * sl implies #[trigger] image_byte(
                    v,
                    src,
                    start,
                    wbn,
                    j,
                ) == ln[j - row * sl] by {
                    lemma_split(sl as int, row as int, j - row * sl);
                    assert(sl * row == row * sl) by (nonlinear_arith);
                }
            }
            row = row + 1;
            assert(out@ =~= Seq::new((row * sl) as nat, |j: int| image_byte(v, src, start, wbn, j)));
        }
        let (width, height) = dec.dimensions();
        let color = dec.color_type();
        assert(row * sl == d * wb * hb) by (nonlinear_arith)
            requires
                sl == d * wb,
                row == hb,
        ;
        assert(out@ =~= decode_image_spec(v, src, start, wbn, hb as nat));
        Ok(PixelImage { width, height, color, data: out })
    }
}


/// A 4x4 image is its one block decoded: with the uniform-block lemmas this
/// gives the colour of every pixel that `DxtDecoder::read_image` returns for
/// a single block.
pub proof fn lemma_single_block_image(v: BCnVariant, src: Seq<u8>, start: int)
    requires
        0 <= start,
        start + v.spec_encoded_bytes_per_block() <= src.len(),
    ensures
        decode_image_spec(v, src, start, 1, 1) == decode_block_spec(
            v,
            src.subrange(start, start + v.spec_encoded_bytes_per_block()),
        ),
{
    let d = v.spec_decoded_bytes_per_block() as int;
    let e = v.spec_encoded_bytes_per_block() as int;
    let w = line_bytes(v) as int;
    let block = src.subrange(start, start + e);
    assert forall|j: int| 0 <= j < d implies #[trigger] image_byte(v, src, start, 1, j)
        == block_byte(v, block, j) by {
        lemma_fundamental_div_mod_converse(j, d, 0, j);
        let rs = src.subrange(start, start + e);
        assert(src.subrange(start + 0 * e, start + 0 * e + e) == rs);
        let line = j / w;
        let r = j % w;
        lemma_fundamental_div_mod(j, w);
        lemma_mod_pos_bound(j, w);
        lemma_fundamental_div_mod_converse(r, w, 0, r);
        assert(rs.subrange(0, e) =~= block);
        assert(line * w + r == j) by (nonlinear_arith)
            requires
                j == w * line + r,
        ;
    }
    assert(decode_image_spec(v, src, start, 1, 1) =~= decode_block_spec(v, block));
}

/// The decoded bytes of pixel `i` (row-major in the 4x4 block) of the
/// encoded block `s`.
pub open spec fn decoded_pixel(v: BCnVariant, s: Seq<u8>, i: int) -> Seq<u8> {
    let p = v.spec_color_type().spec_bytes_per_pixel() as int;
    decode_block_spec(v, s).subrange(p * i, p * i + p)
}

proof fn lemma_decoded_pixel(v: BCnVariant, s: Seq<u8>, i: int)
    requires
        0 <= i < 16,
    ensures
        decoded_pixel(v, s, i) == pixel_bytes(v, s, i),
{
    let p = v.spec_color_type().spec_bytes_per_pixel() as int;
    assert(p * i + p <= 16 * p) by (nonlinear_arith)
        requires
            0 <= i < 16,
            p >= 1,
    ;
    assert forall|c: int| 0 <= c < p implies decoded_pixel(v, s, i)[c] == pixel_bytes(v, s, i)[c] by {
        lemma_split(p, i, c);
    }
    assert(decoded_pixel(v, s, i) =~= pixel_bytes(v, s, i));
}

proof fn lemma_color_entry_equal(c: u16, is_bc1: bool, k: int, ch: int)
    requires
        0 <= k < 4,
        0 <= ch < 3,
        is_bc1 ==> k != 3,
    ensures
        color_entry(c, c, is_bc1, k, ch) == expand_565(c)[ch],
{
    let a = expand_565(c)[ch] as int;
    assert((2 * a + a + 1) / 3 == a);
    assert((a + 2 * a + 1) / 3 == a);
    assert((a + a + 1) / 2 == a);
}

proof fn lemma_alpha_entry_equal(a0: u8, k: int)
    requires
        0 <= k < 6,
    ensures
        alpha_entry(a0, a0, k) == a0,
{
    let a = a0 as int;
    assert((6 - k) * a + (k - 1) * a == 5 * a) by (nonlinear_arith);
}

/// BC1: equal colour endpoints and no pixel choosing index 3 (black in the
/// three-colour mode that equal endpoints select) give every pixel the
/// expanded endpoint colour.
pub proof fn lemma_bc1_uniform(s: Seq<u8>)
    requires
        s.len() == 8,
        le_u16(s, 0) == le_u16(s, 2),
        forall|i: nat| i < 16 ==> digit(le_u32(s, 4) as nat, 4, i) != 3,
    ensures
        forall|i: int|
            0 <= i < 16 ==> #[trigger] decoded_pixel(BCnVariant::BC1, s, i) == expand_565(
                le_u16(s, 0),
            ),
{
    let v = BCnVariant::BC1;
    assert forall|i: int| 0 <= i < 16 implies #[trigger] decoded_pixel(v, s, i) == expand_565(
        le_u16(s, 0),
    ) by {
        lemma_decoded_pixel(v, s, i);
        let k = digit(le_u32(s, 4) as nat, 4, i as nat) as int;
        assert forall|ch: int| 0 <= ch < 3 implies pixel_bytes(v, s, i)[ch] == expand_565(
            le_u16(s, 0),
        )[ch] by {
            lemma_color_entry_equal(le_u16(s, 0), true, k, ch);
        }
        assert(pixel_bytes(v, s, i) =~= expand_565(le_u16(s, 0)));
    }
}

/// BC2: equal colour endpoints give every pixel the expanded endpoint
/// colour, whatever the colour indices.
pub proof fn lemma_bc2_uniform(s: Seq<u8>)
    requires
        s.len() == 16,
        le_u16(s, 8) == le_u16(s, 10),
    ensures
        forall|i: int|
            0 <= i < 16 ==> (#[trigger] decoded_pixel(BCnVariant::BC2, s, i)).subrange(0, 3)
                == expand_565(le_u16(s, 8)),
{
    let v = BCnVariant::BC2;
    assert forall|i: int| 0 <= i < 16 implies (#[trigger] decoded_pixel(v, s, i)).subrange(0, 3)
        == expand_565(le_u16(s, 8)) by {
        lemma_decoded_pixel(v, s, i);
        let k = digit(le_u32(s, 12) as nat, 4, i as nat) as int;
        assert forall|ch: int| 0 <= ch < 3 implies pixel_bytes(v, s, i)[ch] == expand_565(
            le_u16(s, 8),
        )[ch] by {
            lemma_color_entry_equal(le_u16(s, 8), false, k, ch);
        }
        assert(pixel_bytes(v, s, i).subrange(0, 3) =~= expand_565(le_u16(s, 8)));
    }
}

/// BC3: equal colour endpoints, equal alpha endpoints and no alpha index of
/// 6 or 7 (the fixed 0 and 255 levels) give every pixel the expanded
/// endpoint colour and the alpha endpoint.
pub proof fn lemma_bc3_uniform(s: Seq<u8>)
    requires
        s.len() == 16,
        le_u16(s, 8) == le_u16(s, 10),
        s[0] == s[1],
        forall|i: nat| i < 16 ==> digit(le_u48(s, 2), 8, i) < 6,
    ensures
        forall|i: int|
            0 <= i < 16 ==> #[trigger] decoded_pixel(BCnVariant::BC3, s, i) == expand_565(
                le_u16(s, 8),
            ).push(s[0]),
{
    let v = BCnVariant::BC3;
    assert forall|i: int| 0 <= i < 16 implies #[trigger] decoded_pixel(v, s, i) == expand_565(
        le_u16(s, 8),
    ).push(s[0]) by {
        lemma_decoded_pixel(v, s, i);
        let k = digit(le_u32(s, 12) as nat, 4, i as nat) as int;
        assert forall|ch: int| 0 <= ch < 3 implies pixel_bytes(v, s, i)[ch] == expand_565(
            le_u16(s, 8),
        )[ch] by {
            lemma_color_entry_equal(le_u16(s, 8), false, k, ch);
        }
        lemma_alpha_entry_equal(s[0], digit(le_u48(s, 2), 8, i as nat) as int);
        assert(pixel_bytes(v, s, i) =~= expand_565(le_u16(s, 8)).push(s[0]));
    }
}

/// BC4: equal endpoints and no index of 6 or 7 give every pixel the endpoint.
pub proof fn lemma_bc4_uniform(s: Seq<u8>)
    requires
        s.len() == 8,
        s[0] == s[1],
        forall|i: nat| i < 16 ==> digit(le_u48(s, 2), 8, i) < 6,
    ensures
        forall|i: int| 0 <= i < 16 ==> #[trigger] decoded_pixel(BCnVariant::BC4, s, i) == seq![s[0]],
{
    let v = BCnVariant::BC4;
    assert forall|i: int| 0 <= i < 16 implies #[trigger] decoded_pixel(v, s, i) == seq![s[0]] by {
        lemma_decoded_pixel(v, s, i);
        lemma_alpha_entry_equal(s[0], digit(le_u48(s, 2), 8, i as nat) as int);
        assert(pixel_bytes(v, s, i) =~= seq![s[0]]);
    }
}

/// BC5: in each channel, equal endpoints and no index of 6 or 7 give every
/// pixel that channel's endpoint.
pub proof fn lemma_bc5_uniform(s: Seq<u8>)
    requires
        s.len() == 16,
        s[0] == s[1],
        s[8] == s[9],
        forall|i: nat| i < 16 ==> digit(le_u48(s, 2), 8, i) < 6,
        forall|i: nat| i < 16 ==> digit(le_u48(s, 10), 8, i) < 6,
    ensures
        forall|i: int|
            0 <= i < 16 ==> #[trigger] decoded_pixel(BCnVariant::BC5, s, i) == seq![s[0], s[8]],
{
    let v = BCnVariant::BC5;
    assert forall|i: int| 0 <= i < 16 implies #[trigger] decoded_pixel(v, s, i) == seq![
        s[0],
        s[8],
    ] by {
        lemma_decoded_pixel(v, s, i);
        lemma_alpha_entry_equal(s[0], digit(le_u48(s, 2), 8, i as nat) as int);
        lemma_alpha_entry_equal(s[8], digit(le_u48(s, 10), 8, i as nat) as int);
        assert(pixel_bytes(v, s, i) =~= seq![s[0], s[8]]);
    }
}

} // verus!
