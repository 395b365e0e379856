//! Pixel remapping of decoded textures into the channel layouts of the
//! exported materials.
use vstd::prelude::*;

use crate::bcn_image::{lemma_split, ColorType, PixelImage};
use crate::error::DecodeError;

verus! {

/// The number of pixels of `img`.
pub open spec fn pixel_count(img: PixelImage) -> int {
    img.width * img.height
}

/// Whether the buffer of `img` holds all its pixels.
pub open spec fn filled(img: PixelImage) -> bool {
    pixel_count(img) * img.color.spec_bytes_per_pixel() <= img.data@.len()
}

/// Checks that the buffer holds all pixels and gives their number.
fn checked_pixel_count(img: &PixelImage) -> (r: Option<usize>)
    ensures
        r is Some <==> filled(*img),
        r is Some ==> r->Some_0 == pixel_count(*img),
{
    let bpp = img.color.bytes_per_pixel() as u128;
    assert((img.width as int) * (img.height as int) <= 0xFFFF_FFFF * 0xFFFF_FFFF) by (nonlinear_arith)
        requires
            img.width <= 0xFFFF_FFFF,
            img.height <= 0xFFFF_FFFF,
    ;
    let n = img.width as u128 * img.height as u128;
    assert(n * bpp <= 0xFFFF_FFFF * 0xFFFF_FFFF * 4) by (nonlinear_arith)
        requires
            n <= 0xFFFF_FFFF * 0xFFFF_FFFF,
            bpp <= 4,
    ;
    if n * bpp > img.data.len() as u128 {
        return None;
    }
    assert(n <= n * bpp) by (nonlinear_arith)
        requires
            bpp >= 1,
            n >= 0,
    ;
    Some(n as usize)
}

/// The alpha value of pixel `i` of an image with an alpha channel.
pub open spec fn alpha_at(img: PixelImage, i: int) -> u8 {
    if img.color == ColorType::Rgba8 {
        img.data@[4 * i + 3]
    } else {
        img.data@[2 * i + 1]
    }
}

fn copy_bytes(v: &Vec<u8>) -> (r: Vec<u8>)
    ensures
        r@ == v@,
{
    let mut r: Vec<u8> = Vec::new();
    let mut i: usize = 0;
    while i < v.len()
        invariant
            i <= v@.len(),
            r@ == v@.subrange(0, i as int),
        decreases v@.len() - i,
    {
        r.push(v[i]);
        i = i + 1;
        assert(r@ =~= v@.subrange(0, i as int));
    }
    assert(v@.subrange(0, i as int) =~= v@);
    r
}

/// Whether some pixel of `img` has an alpha value below the maximum.
pub open spec fn has_alpha_below_max(img: PixelImage) -> bool {
    &&& (img.color == ColorType::Rgba8 || img.color == ColorType::La8)
    &&& exists|i: int| 0 <= i < pixel_count(img) && #[trigger] alpha_at(img, i) != 255
}

/// Whether the texture carries useful alpha: an alpha channel in which some
/// pixel is not fully opaque. A buffer that does not hold all pixels is an error.
pub fn texture_has_alpha_information(img: &PixelImage) -> (r: Result<bool, DecodeError>)
    ensures
        r is Ok <==> filled(*img),
        r is Ok ==> r->Ok_0 == has_alpha_below_max(*img),
{
    let n = match checked_pixel_count(img) {
        Some(n) => n,
        None => {
            return Err(DecodeError::ShortImageData);
        },
    };
    let (step, channel): (usize, usize) = match img.color {
        ColorType::Rgba8 => (4, 3),
        ColorType::La8 => (2, 1),
        _ => {
            return Ok(false);
        },
    };
    let mut i: usize = 0;
    while i < n
        invariant
            n == pixel_count(*img),
            filled(*img),
            (step == 4 && channel == 3 && img.color == ColorType::Rgba8) || (step == 2 && channel
                == 1 && img.color == ColorType::La8),
            i <= n,
            n * step <= img.data.len(),
            forall|k: int| 0 <= k < i ==> #[trigger] alpha_at(*img, k) == 255,
        decreases n - i,
    {
        assert(step * i + channel < n * step) by (nonlinear_arith)
            requires
                i < n,
                channel < step,
        ;
        if img.data[step * i + channel] != 255 {
            assert(alpha_at(*img, i as int) != 255);
            return Ok(true);
        }
        i = i + 1;
    }
    Ok(false)
}

/// Byte `t` of the material map made from the specular texture `img`:
/// occlusion, roughness, metalness, specular from the stored specular,
/// metalness, inverted occlusion and inverted roughness (an RGB texture has
/// roughness zero).
pub open spec fn specular_byte(img: PixelImage, t: int) -> u8 {
    let i = t / 4;
    let c = t % 4;
    let d = img.data@;
    if img.color == ColorType::Rgba8 {
        if c == 0 {
            (255 - d[4 * i + 2]) as u8
        } else if c == 1 {
            (255 - d[4 * i + 3]) as u8
        } else if c == 2 {
            d[4 * i + 1]
        } else {
            d[4 * i]
        }
    } else {
        if c == 0 {
            (255 - d[3 * i + 2]) as u8
        } else if c == 1 {
            255
        } else if c == 2 {
            d[3 * i + 1]
        } else {
            d[3 * i]
        }
    }
}

/// Rearranges a specular texture (RGBA or RGB) into an RGBA material map.
pub fn specular_map(img: &PixelImage) -> (r: Result<PixelImage, DecodeError>)
    ensures
        r is Ok <==> (img.color == ColorType::Rgba8 || img.color == ColorType::Rgb8) && filled(
            *img,
        ),
        r is Ok ==> {
            let out = r->Ok_0;
            &&& out.width == img.width && out.height == img.height
            &&& out.color == ColorType::Rgba8
            &&& out.data@ == Seq::new((4 * pixel_count(*img)) as nat, |t: int| specular_byte(*img, t))
        },
        img.color != ColorType::Rgba8 && img.color != ColorType::Rgb8 ==> r == Err::<
            PixelImage,
            DecodeError,
        >(DecodeError::UnsupportedColor { color: img.color }),
{
    let rgba = match img.color {
        ColorType::Rgba8 => true,
        ColorType::Rgb8 => false,
        _ => {
            return Err(DecodeError::UnsupportedColor { color: img.color });
        },
    };
    let n = match checked_pixel_count(img) {
        Some(n) => n,
        None => {
            return Err(DecodeError::ShortImageData);
        },
    };
    let step: usize = if rgba {
        4
    } else {
        3
    };
    let mut out: Vec<u8> = Vec::new();
    let mut i: usize = 0;
    while i < n
        invariant
            n == pixel_count(*img),
            filled(*img),
            rgba == (img.color == ColorType::Rgba8),
            img.color == ColorType::Rgba8 || img.color == ColorType::Rgb8,
            step == img.color.spec_bytes_per_pixel(),
            n * step <= img.data.len(),
            i <= n,
            out@ == Seq::new((4 * i) as nat, |t: int| specular_byte(*img, t)),
        decreases n - i,
    {
        assert(step * i + step <= n * step) by (nonlinear_arith)
            requires
                i < n,
                step >= 0,
        ;
        let b = step * i;
        let (r0, r1, r2, r3) = if rgba {
            (255 - img.data[b + 2], 255 - img.data[b + 3], img.data[b + 1], img.data[b])
        } else {
            (255 - img.data[b + 2], 255u8, img.data[b + 1], img.data[b])
        };
        out.push(r0);
        out.push(r1);
        out.push(r2);
        out.push(r3);
        proof {
            lemma_split(4, i as int, 0);
            lemma_split(4, i as int, 1);
            lemma_split(4, i as int, 2);
            lemma_split(4, i as int, 3);
        }
        i = i + 1;
        assert(out@ =~= Seq::new((4 * i) as nat, |t: int| specular_byte(*img, t)));
    }
    Ok(PixelImage { width: img.width, height: img.height, color: ColorType::Rgba8, data: out })
}

/// Byte `t` of the RGB normal map made from the RGBA texture `img`: inverted
/// alpha as X, blue as Y, green as Z.
pub open spec fn normal_byte_from_rgba(img: PixelImage, t: int) -> u8 {
    let i = t / 3;
    let c = t % 3;
    let d = img.data@;
    if c == 0 {
        (255 - d[4 * i + 3]) as u8
    } else if c == 1 {
        d[4 * i + 2]
    } else {
        d[4 * i + 1]
    }
}

/// Rearranges an RGBA normal texture (X in inverted alpha, Y in blue, Z in
/// green) into an RGB normal map; an RGB texture is kept as it is.
pub fn normal_map_from_color(img: &PixelImage) -> (r: Result<PixelImage, DecodeError>)
    ensures
        r is Ok <==> (img.color == ColorType::Rgba8 && filled(*img)) || img.color
            == ColorType::Rgb8,
        r is Ok ==> {
            let out = r->Ok_0;
            &&& out.width == img.width && out.height == img.height
            &&& out.color == ColorType::Rgb8
            &&& img.color == ColorType::Rgb8 ==> out.data@ == img.data@
            &&& img.color == ColorType::Rgba8 ==> out.data@ == Seq::new(
                (3 * pixel_count(*img)) as nat,
                |t: int| normal_byte_from_rgba(*img, t),
            )
        },
        img.color != ColorType::Rgba8 && img.color != ColorType::Rgb8 ==> r == Err::<
            PixelImage,
            DecodeError,
        >(DecodeError::UnsupportedColor { color: img.color }),
{
    match img.color {
        ColorType::Rgba8 => {},
        ColorType::Rgb8 => {
            return Ok(
                PixelImage {
                    width: img.width,
                    height: img.height,
                    color: ColorType::Rgb8,
                    data: copy_bytes(&img.data),
                },
            );
        },
        _ => {
            return Err(DecodeError::UnsupportedColor { color: img.color });
        },
    }
    let n = match checked_pixel_count(img) {
        Some(n) => n,
        None => {
            return Err(DecodeError::ShortImageData);
        },
    };
    let mut out: Vec<u8> = Vec::new();
    let mut i: usize = 0;
    while i < n
        invariant
            n == pixel_count(*img),
            filled(*img),
            img.color == ColorType::Rgba8,
            n * 4 <= img.data.len(),
            i <= n,
            out@ == Seq::new((3 * i) as nat, |t: int| normal_byte_from_rgba(*img, t)),
        decreases n - i,
    {
        assert(4 * i + 4 <= n * 4) by (nonlinear_arith)
            requires
                i < n,
        ;
        let b = 4 * i;
        out.push(255 - img.data[b + 3]);
        out.push(img.data[b + 2]);
        out.push(img.data[b + 1]);
        proof {
            lemma_split(3, i as int, 0);
            lemma_split(3, i as int, 1);
            lemma_split(3, i as int, 2);
        }
        i = i + 1;
        assert(out@ =~= Seq::new((3 * i) as nat, |t: int| normal_byte_from_rgba(*img, t)));
    }
    Ok(PixelImage { width: img.width, height: img.height, color: ColorType::Rgb8, data: out })
}

} // verus!
