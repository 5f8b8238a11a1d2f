use crux::graphics::types::{ImageData, ImageId, ImagePlacement, PixelFormat};

#[test]
fn test_rgb_to_bgra_conversion() {
    let mut img = ImageData::new(vec![255, 0, 0, 0, 255, 0, 0, 0, 255], 3, 1, PixelFormat::Rgb);
    img.to_bgra();
    assert_eq!(img.format, PixelFormat::Bgra);
    // Red pixel -> BGRA(0, 0, 255, 255)
    assert_eq!(&img.data[0..4], &[0, 0, 255, 255]);
    // Green pixel -> BGRA(0, 255, 0, 255)
    assert_eq!(&img.data[4..8], &[0, 255, 0, 255]);
    // Blue pixel -> BGRA(255, 0, 0, 255)
    assert_eq!(&img.data[8..12], &[255, 0, 0, 255]);
}

#[test]
fn test_rgba_to_bgra_conversion() {
    let mut img = ImageData::new(vec![255, 0, 0, 128, 0, 255, 0, 64], 2, 1, PixelFormat::Rgba);
    img.to_bgra();
    assert_eq!(img.format, PixelFormat::Bgra);
    // Red pixel with alpha 128 -> BGRA(0, 0, 255, 128)
    assert_eq!(&img.data[0..4], &[0, 0, 255, 128]);
    // Green pixel with alpha 64 -> BGRA(0, 255, 0, 64)
    assert_eq!(&img.data[4..8], &[0, 255, 0, 64]);
}

#[test]
fn test_bgra_to_bgra_is_noop() {
    let original = vec![10, 20, 30, 40];
    let mut img = ImageData::new(original.clone(), 1, 1, PixelFormat::Bgra);
    img.to_bgra();
    assert_eq!(img.data, original);
}

#[test]
fn test_image_placement_defaults() {
    let p = ImagePlacement::new(ImageId(42));
    assert_eq!(p.image_id, ImageId(42));
    assert_eq!(p.placement_id, 0);
    assert_eq!(p.z_index, 0);
    assert_eq!(p.columns, 0);
    assert_eq!(p.rows, 0);
}

#[test]
fn test_image_data_byte_size() {
    let img = ImageData::new(vec![0; 100], 5, 5, PixelFormat::Rgba);
    assert_eq!(img.byte_size(), 100);
}

#[test]
fn to_bgra_twice_equals_once() {
    let mut once = ImageData::new(vec![1, 2, 3, 4, 5, 6], 2, 1, PixelFormat::Rgb);
    once.to_bgra();
    let mut twice = ImageData::new(vec![1, 2, 3, 4, 5, 6], 2, 1, PixelFormat::Rgb);
    twice.to_bgra();
    twice.to_bgra();
    assert_eq!(once.data, twice.data);
    assert_eq!(once.data, vec![3, 2, 1, 255, 6, 5, 4, 255]);
}

#[test]
fn png_data_is_left_untouched() {
    let mut img = ImageData::new(vec![0x89, 0x50, 0x4E, 0x47], 1, 1, PixelFormat::Png);
    img.to_bgra();
    assert_eq!(img.format, PixelFormat::Png);
    assert_eq!(img.data, vec![0x89, 0x50, 0x4E, 0x47]);
}
