use telltale_decode::bcn_image::{enc565_decode, BCnVariant, ColorType, DxtDecoder};
use telltale_decode::cursor::Cursor;
use telltale_decode::d3dtx::{decode_texture_data, TextureFormat};
use telltale_decode::error::DecodeError;

fn decode_one_block(block: Vec<u8>, variant: BCnVariant) -> Vec<u8> {
    let decoder = DxtDecoder::new(Cursor::new(block), 4, 4, variant).unwrap();
    let image = decoder.read_image().unwrap();
    assert_eq!(image.width, 4);
    assert_eq!(image.height, 4);
    image.data
}

#[test]
fn expand_565_keeps_extremes() {
    assert_eq!(enc565_decode(0x0000), [0, 0, 0]);
    assert_eq!(enc565_decode(0xFFFF), [255, 255, 255]);
}

#[test]
fn expand_565_channels() {
    assert_eq!(enc565_decode(0xF800), [255, 0, 0]);
    assert_eq!(enc565_decode(0x07E0), [0, 255, 0]);
    assert_eq!(enc565_decode(0x001F), [0, 0, 255]);
    // 16 of 31 red, 32 of 63 green, 1 of 31 blue
    assert_eq!(enc565_decode((16 << 11) | (32 << 5) | 1), [131, 129, 8]);
}

#[test]
fn bc1_equal_endpoints_uniform() {
    // indices 0, 1 and 2 only: the black entry is never chosen
    let block = vec![0x00, 0xF8, 0x00, 0xF8, 0x00, 0x91, 0x62, 0x18];
    let data = decode_one_block(block, BCnVariant::BC1);
    assert_eq!(data.len(), 48);
    for pixel in data.chunks(3) {
        assert_eq!(pixel, &[255, 0, 0]);
    }
}

#[test]
fn bc1_three_colour_mode_black_entry() {
    // equal endpoints select the three-colour mode; index 3 is black
    let block = vec![0x00, 0xF8, 0x00, 0xF8, 0xFF, 0xFF, 0xFF, 0xFF];
    let data = decode_one_block(block, BCnVariant::BC1);
    assert!(data.iter().all(|&b| b == 0));
}

#[test]
fn bc1_four_colour_blend() {
    // c0 = white > c1 = black: entries white, black, 2/3 and 1/3 grey
    let block = vec![0xFF, 0xFF, 0x00, 0x00, 0xE4, 0x00, 0x00, 0x00];
    let data = decode_one_block(block, BCnVariant::BC1);
    assert_eq!(&data[0..12], &[255, 255, 255, 0, 0, 0, 170, 170, 170, 85, 85, 85]);
    assert_eq!(&data[12..15], &[255, 255, 255]);
}

#[test]
fn bc2_equal_endpoints_uniform() {
    let mut block = vec![0x10, 0x32, 0x54, 0x76, 0x98, 0xBA, 0xDC, 0xFE];
    block.extend_from_slice(&[0xE0, 0x07, 0xE0, 0x07, 0xE4, 0x1B, 0xE4, 0x1B]);
    let data = decode_one_block(block, BCnVariant::BC2);
    assert_eq!(data.len(), 64);
    for (i, pixel) in data.chunks(4).enumerate() {
        assert_eq!(&pixel[0..3], &[0, 255, 0]);
        assert_eq!(pixel[3] as usize, i * 17);
    }
}

#[test]
fn bc3_equal_endpoints_uniform() {
    let mut block = vec![0x80, 0x80, 0, 0, 0, 0, 0, 0];
    block.extend_from_slice(&[0x1F, 0x00, 0x1F, 0x00, 0xFF, 0xFF, 0xFF, 0xFF]);
    let data = decode_one_block(block, BCnVariant::BC3);
    for pixel in data.chunks(4) {
        assert_eq!(pixel, &[0, 0, 255, 0x80]);
    }
}

#[test]
fn bc4_equal_endpoints_uniform() {
    // 3-bit indices 1, 2, 3, 4, 5, 0, ... all below 6
    let block = vec![0x40, 0x40, 0xD1, 0x58, 0x00, 0x00, 0x00, 0x00];
    let data = decode_one_block(block, BCnVariant::BC4);
    assert_eq!(data, vec![0x40; 16]);
}

#[test]
fn bc4_ramps() {
    // a0 > a1: seven-step ramp; pixel 0 index 2 -> (6*a0 + a1) / 7
    let block = vec![210, 0, 0x02, 0, 0, 0, 0, 0];
    let data = decode_one_block(block, BCnVariant::BC4);
    assert_eq!(data[0], 180);
    assert_eq!(data[1], 210);
    // a0 <= a1: index 6 and 7 are the fixed 0 and 255
    let block = vec![10, 20, 0x3E, 0, 0, 0, 0, 0];
    let data = decode_one_block(block, BCnVariant::BC4);
    assert_eq!(data[0], 0);
    assert_eq!(data[1], 255);
}

#[test]
fn bc5_equal_endpoints_uniform() {
    let block = vec![0x10, 0x10, 0, 0, 0, 0, 0, 0, 0x20, 0x20, 0x49, 0x92, 0x24, 0x49, 0x92, 0x24];
    let data = decode_one_block(block, BCnVariant::BC5);
    assert_eq!(data.len(), 32);
    for pixel in data.chunks(2) {
        assert_eq!(pixel, &[0x10, 0x20]);
    }
}

#[test]
fn rows_of_blocks_are_stitched() {
    // an 8x4 BC4 image: left block all 1, right block all 2
    let data = vec![1, 1, 0, 0, 0, 0, 0, 0, 2, 2, 0, 0, 0, 0, 0, 0];
    let decoder = DxtDecoder::new(Cursor::new(data), 8, 4, BCnVariant::BC4).unwrap();
    let image = decoder.read_image().unwrap();
    assert_eq!(image.color, ColorType::L8);
    for row in image.data.chunks(8) {
        assert_eq!(row, &[1, 1, 1, 1, 2, 2, 2, 2]);
    }
}

#[test]
fn dimensions_must_be_multiples_of_four() {
    let r = DxtDecoder::new(Cursor::new(vec![0; 8]), 5, 4, BCnVariant::BC1);
    assert!(matches!(r, Err(DecodeError::BadDimensions { width: 5, height: 4 })));
}

#[test]
fn short_block_data() {
    let decoder = DxtDecoder::new(Cursor::new(vec![0; 7]), 4, 4, BCnVariant::BC1).unwrap();
    assert!(matches!(decoder.read_image(), Err(DecodeError::ShortImageData)));
}

#[test]
fn decoder_sizes() {
    let decoder = DxtDecoder::new(Cursor::new(vec![]), 16, 8, BCnVariant::BC3).unwrap();
    assert_eq!(decoder.dimensions(), (16, 8));
    assert_eq!(decoder.scanline_bytes(), 256);
    assert_eq!(decoder.total_bytes(), 512);
    assert_eq!(decoder.color_type(), ColorType::Rgba8);
    assert_eq!(BCnVariant::BC1.decoded_bytes_per_block(), 48);
    assert_eq!(BCnVariant::BC5.encoded_bytes_per_block(), 16);
}

#[test]
fn texture_formats() {
    assert_eq!(TextureFormat::parse(16), TextureFormat::A8);
    assert_eq!(TextureFormat::parse(64), TextureFormat::BCn(BCnVariant::BC1));
    assert_eq!(TextureFormat::parse(68), TextureFormat::BCn(BCnVariant::BC5));
    assert_eq!(TextureFormat::parse(99), TextureFormat::Unknown(99));
}

#[test]
fn luma_texture_data() {
    let r = decode_texture_data(Cursor::new(vec![1, 2, 3, 4, 5]), 2, 2, TextureFormat::A8).unwrap();
    assert_eq!(r.data, vec![1, 2, 3, 4, 5]);
    let r = decode_texture_data(Cursor::new(vec![1, 2, 3]), 2, 2, TextureFormat::A8);
    assert!(matches!(r, Err(DecodeError::ShortImageData)));
}

#[test]
fn unknown_texture_format() {
    let r = decode_texture_data(Cursor::new(vec![]), 4, 4, TextureFormat::Unknown(7));
    assert!(matches!(r, Err(DecodeError::UnknownTextureFormat { code: 7 })));
}

#[test]
fn texture_file_decodes_largest_mip() {
    let u32le = |v: u32| v.to_le_bytes().to_vec();
    let mut bytes = b"6VSM".to_vec();
    bytes.extend(u32le(0));
    bytes.extend(vec![0; 8]);
    bytes.extend(u32le(0));
    bytes.extend(vec![0; 0x14]);
    bytes.extend(u32le(12));
    bytes.extend(u32le(4));
    bytes.extend_from_slice(b"tex1");
    bytes.extend(vec![0; 0x0C]);
    bytes.push(0);
    bytes.extend(u32le(2));
    bytes.extend(u32le(4));
    bytes.extend(u32le(4));
    bytes.extend(vec![0; 8]);
    bytes.extend(u32le(64));
    bytes.extend(vec![0; 0x5C]);
    for size in [5u32, 8] {
        bytes.extend(vec![0; 12]);
        bytes.extend(u32le(size));
        bytes.extend(vec![0; 8]);
    }
    bytes.extend(vec![0xEE; 5]);
    bytes.extend([0x00, 0xF8, 0x00, 0xF8, 0, 0, 0, 0]);
    let texture = telltale_decode::d3dtx::Texture::parse(Cursor::new(bytes)).unwrap();
    assert_eq!(texture.name, "tex1");
    assert_eq!(texture.image.width, 4);
    assert_eq!(texture.image.color, ColorType::Rgb8);
    for pixel in texture.image.data.chunks(3) {
        assert_eq!(pixel, &[255, 0, 0]);
    }
}

#[test]
fn texture_without_mip_levels() {
    let u32le = |v: u32| v.to_le_bytes().to_vec();
    let mut bytes = b"6VSM".to_vec();
    bytes.extend(u32le(0));
    bytes.extend(vec![0; 8]);
    bytes.extend(u32le(0));
    bytes.extend(vec![0; 0x14]);
    bytes.extend(u32le(8));
    bytes.extend(u32le(0));
    bytes.extend(vec![0; 0x0C]);
    bytes.push(0);
    bytes.extend(u32le(0));
    bytes.extend(u32le(4));
    bytes.extend(u32le(4));
    bytes.extend(vec![0; 8]);
    bytes.extend(u32le(64));
    bytes.extend(vec![0; 0x5C]);
    let r = telltale_decode::d3dtx::Texture::parse(Cursor::new(bytes));
    assert!(matches!(r, Err(DecodeError::NoMipLevels)));
}
