use telltale_decode::bcn_image::{ColorType, PixelImage};
use telltale_decode::error::DecodeError;
use telltale_decode::image_conversion::{
    normal_map_from_color, specular_map, texture_has_alpha_information,
};

fn picture(width: u32, height: u32, color: ColorType, data: Vec<u8>) -> PixelImage {
    PixelImage { width, height, color, data }
}

#[test]
fn opaque_alpha_is_no_information() {
    let img = picture(2, 1, ColorType::Rgba8, vec![1, 2, 3, 255, 4, 5, 6, 255]);
    assert_eq!(texture_has_alpha_information(&img).unwrap(), false);
    let img = picture(2, 1, ColorType::Rgba8, vec![1, 2, 3, 255, 4, 5, 6, 254]);
    assert_eq!(texture_has_alpha_information(&img).unwrap(), true);
    let img = picture(1, 1, ColorType::La8, vec![9, 0]);
    assert_eq!(texture_has_alpha_information(&img).unwrap(), true);
    let img = picture(1, 1, ColorType::Rgb8, vec![9, 0, 0]);
    assert_eq!(texture_has_alpha_information(&img).unwrap(), false);
    let img = picture(2, 2, ColorType::Rgba8, vec![0; 4]);
    assert!(matches!(texture_has_alpha_information(&img), Err(DecodeError::ShortImageData)));
}

#[test]
fn specular_channels_are_rearranged() {
    let img = picture(1, 1, ColorType::Rgba8, vec![10, 20, 30, 40]);
    assert_eq!(specular_map(&img).unwrap().data, vec![225, 215, 20, 10]);
    let img = picture(1, 1, ColorType::Rgb8, vec![10, 20, 30]);
    let out = specular_map(&img).unwrap();
    assert_eq!(out.color, ColorType::Rgba8);
    assert_eq!(out.data, vec![225, 255, 20, 10]);
    let img = picture(1, 1, ColorType::L8, vec![10]);
    assert!(matches!(
        specular_map(&img),
        Err(DecodeError::UnsupportedColor { color: ColorType::L8 })
    ));
}

#[test]
fn normal_channels_are_rearranged() {
    let img = picture(1, 1, ColorType::Rgba8, vec![10, 20, 30, 40]);
    let out = normal_map_from_color(&img).unwrap();
    assert_eq!(out.color, ColorType::Rgb8);
    assert_eq!(out.data, vec![215, 30, 20]);
    let img = picture(1, 1, ColorType::Rgb8, vec![1, 2, 3]);
    assert_eq!(normal_map_from_color(&img).unwrap().data, vec![1, 2, 3]);
}
