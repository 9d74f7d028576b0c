use ray_tracing::rtw_image::RtwImage;
use ray_tracing::texture::ImageTexture;

fn two_by_two_rgb() -> Vec<u8> {
    vec![
        10, 11, 12, 20, 21, 22, // row 0
        30, 31, 32, 40, 41, 42, // row 1
    ]
}

fn encode_png(data: Vec<u8>, width: u32, height: u32) -> Vec<u8> {
    let img = image::RgbImage::from_raw(width, height, data).unwrap();
    let mut out = std::io::Cursor::new(Vec::new());
    img.write_to(&mut out, image::ImageFormat::Png).unwrap();
    out.into_inner()
}

#[test]
fn decoded_png_keeps_pixels() {
    let png = encode_png(two_by_two_rgb(), 2, 2);
    let img = RtwImage::new("tile.png", &png);
    assert_eq!(img.width(), 2);
    assert_eq!(img.height(), 2);
    assert_eq!(img.pixel_data(0, 0), [10, 11, 12]);
    assert_eq!(img.pixel_data(1, 0), [20, 21, 22]);
    assert_eq!(img.pixel_data(0, 1), [30, 31, 32]);
    assert_eq!(img.pixel_data(1, 1), [40, 41, 42]);
}

#[test]
fn undecodable_bytes_give_empty_image() {
    let img = RtwImage::new("tile.png", &[1, 2, 3, 4, 5]);
    assert_eq!(img.width(), 0);
    assert_eq!(img.height(), 0);
    assert_eq!(img.pixel_data(0, 0), [255, 0, 255]);
    assert_eq!(img.pixel_data(7, 3), [255, 0, 255]);
}

#[test]
fn no_bytes_give_empty_image() {
    let img = RtwImage::new("tile.png", &[]);
    assert_eq!(img.width(), 0);
    assert_eq!(img.height(), 0);
}

#[test]
fn row_major_offsets() {
    let data: Vec<u8> = (0..18).collect();
    let img = RtwImage::from_decoded(Some((data, 3, 2)));
    assert_eq!(img.pixel_data(0, 0), [0, 1, 2]);
    assert_eq!(img.pixel_data(2, 0), [6, 7, 8]);
    assert_eq!(img.pixel_data(0, 1), [9, 10, 11]);
    assert_eq!(img.pixel_data(2, 1), [15, 16, 17]);
}

#[test]
fn coordinates_clamp_to_edges() {
    let img = RtwImage::from_decoded(Some((two_by_two_rgb(), 2, 2)));
    assert_eq!(img.pixel_data(5, 0), [20, 21, 22]);
    assert_eq!(img.pixel_data(0, 9), [30, 31, 32]);
    assert_eq!(img.pixel_data(u32::MAX, u32::MAX), [40, 41, 42]);
}

#[test]
fn from_nothing_is_empty() {
    let img = RtwImage::from_decoded(None);
    assert_eq!(img.width(), 0);
    assert_eq!(img.height(), 0);
    assert_eq!(img.pixel_data(0, 0), [255, 0, 255]);
}

#[test]
fn single_pixel_image_answers_everywhere() {
    let img = RtwImage::from_decoded(Some((vec![1, 2, 3], 1, 1)));
    assert_eq!(img.pixel_data(0, 0), [1, 2, 3]);
    assert_eq!(img.pixel_data(100, 100), [1, 2, 3]);
}

#[test]
fn clone_keeps_pixels() {
    let img = RtwImage::from_decoded(Some((two_by_two_rgb(), 2, 2)));
    let copy = img.clone();
    assert_eq!(copy.width(), 2);
    assert_eq!(copy.pixel_data(1, 1), [40, 41, 42]);
}

#[test]
fn texture_reads_decoded_image() {
    let png = encode_png(two_by_two_rgb(), 2, 2);
    let tex = ImageTexture::new("earth.png", &png);
    assert_eq!(tex.image().width(), 2);
    assert_eq!(tex.texel(1, 0), Some([20, 21, 22]));
    assert_eq!(tex.texel(3, 3), Some([40, 41, 42]));
}

#[test]
fn texture_without_image_has_no_texel() {
    let tex = ImageTexture::new("earth.jpg", b"not an image");
    assert_eq!(tex.image().height(), 0);
    assert_eq!(tex.texel(0, 0), None);
    assert_eq!(tex.clone().texel(4, 4), None);
}

fn encode_as(data: Vec<u8>, width: u32, height: u32, format: image::ImageFormat) -> Vec<u8> {
    let img = image::RgbImage::from_raw(width, height, data).unwrap();
    let mut out = std::io::Cursor::new(Vec::new());
    img.write_to(&mut out, format).unwrap();
    out.into_inner()
}

#[test]
fn tga_file_decodes_by_its_extension() {
    let tga = encode_as(two_by_two_rgb(), 2, 2, image::ImageFormat::Tga);
    let img = RtwImage::new("tile.tga", &tga);
    assert_eq!(img.width(), 2);
    assert_eq!(img.height(), 2);
    assert_eq!(img.pixel_data(1, 1), [40, 41, 42]);
}

#[test]
fn extension_decides_the_format() {
    let png = encode_png(two_by_two_rgb(), 2, 2);
    let misnamed = RtwImage::new("tile.tga", &png);
    assert_eq!(misnamed.width(), 0);
    assert_eq!(misnamed.pixel_data(0, 0), [255, 0, 255]);
}

#[test]
fn file_without_extension_gives_empty_image() {
    let png = encode_png(two_by_two_rgb(), 2, 2);
    for name in ["tile", "tile.", "dir.d/tile", "tile.unknownext"] {
        let img = RtwImage::new(name, &png);
        assert_eq!(img.width(), 0);
        assert_eq!(img.height(), 0);
    }
}
