use image_data::{Color, ImageData, Rectangle, TextureFormat, Vec2};

fn region_test(
    format: TextureFormat,
    input: Vec<u8>,
    expected_left: Vec<u8>,
    expected_right: Vec<u8>,
    expected_top: Vec<u8>,
    expected_bottom: Vec<u8>,
) {
    let image = ImageData::from_data(2, 2, format, input).unwrap();

    let left = image.region(Rectangle::new(0, 0, 1, 2));
    assert_eq!(left.as_bytes(), &expected_left);

    let right = image.region(Rectangle::new(1, 0, 1, 2));
    assert_eq!(right.as_bytes(), &expected_right);

    let top = image.region(Rectangle::new(0, 0, 2, 1));
    assert_eq!(top.as_bytes(), &expected_top);

    let bottom = image.region(Rectangle::new(0, 1, 2, 1));
    assert_eq!(bottom.as_bytes(), &expected_bottom);
}

#[test]
fn region_rgba8() {
    region_test(
        TextureFormat::Rgba8,
        // Input
        vec![
            0x00, 0x01, 0x02, 0x03, // Pixel 1
            0x04, 0x05, 0x06, 0x07, // Pixel 2
            0x08, 0x09, 0x0A, 0x0B, // Pixel 3
            0x0C, 0x0D, 0x0E, 0x0F, // Pixel 4
        ],
        // Left
        vec![
            0x00, 0x01, 0x02, 0x03, // Pixel 1
            0x08, 0x09, 0x0A, 0x0B, // Pixel 3
        ],
        // Right
        vec![
            0x04, 0x05, 0x06, 0x07, // Pixel 2
            0x0C, 0x0D, 0x0E, 0x0F, // Pixel 4
        ],
        // Top
        vec![
            0x00, 0x01, 0x02, 0x03, // Pixel 1
            0x04, 0x05, 0x06, 0x07, // Pixel 2
        ],
        // Bottom
        vec![
            0x08, 0x09, 0x0A, 0x0B, // Pixel 3
            0x0C, 0x0D, 0x0E, 0x0F, // Pixel 4
        ],
    );
}

#[test]
fn region_r8() {
    region_test(
        TextureFormat::R8,
        // Input
        vec![
            0x00, // Pixel 1
            0x04, // Pixel 2
            0x08, // Pixel 3
            0x0C, // Pixel 4
        ],
        // Left
        vec![
            0x00, // Pixel 1
            0x08, // Pixel 3
        ],
        // Right
        vec![
            0x04, // Pixel 2
            0x0C, // Pixel 4
        ],
        // Top
        vec![
            0x00, // Pixel 1
            0x04, // Pixel 2
        ],
        // Bottom
        vec![
            0x08, // Pixel 3
            0x0C, // Pixel 4
        ],
    );
}

#[test]
fn region_rg8() {
    region_test(
        TextureFormat::Rg8,
        // Input
        vec![
            0x00, 0x01, // Pixel 1
            0x04, 0x05, // Pixel 2
            0x08, 0x09, // Pixel 3
            0x0C, 0x0D, // Pixel 4
        ],
        // Left
        vec![
            0x00, 0x01, // Pixel 1
            0x08, 0x09, // Pixel 3
        ],
        // Right
        vec![
            0x04, 0x05, // Pixel 2
            0x0C, 0x0D, // Pixel 4
        ],
        // Top
        vec![
            0x00, 0x01, // Pixel 1
            0x04, 0x05, // Pixel 2
        ],
        // Bottom
        vec![
            0x08, 0x09, // Pixel 3
            0x0C, 0x0D, // Pixel 4
        ],
    );
}

fn get_pixel_color_test(
    format: TextureFormat,
    input: Vec<u8>,
    tl: Color,
    tr: Color,
    bl: Color,
    br: Color,
) {
    let image = ImageData::from_data(2, 2, format, input).unwrap();

    assert_eq!(image.get_pixel_color(Vec2::new(0, 0)), tl);
    assert_eq!(image.get_pixel_color(Vec2::new(1, 0)), tr);
    assert_eq!(image.get_pixel_color(Vec2::new(0, 1)), bl);
    assert_eq!(image.get_pixel_color(Vec2::new(1, 1)), br);
}

#[test]
fn get_pixel_color_rgba8() {
    get_pixel_color_test(
        TextureFormat::Rgba8,
        vec![
            0x00, 0x01, 0x02, 0x03, // Pixel 1
            0x04, 0x05, 0x06, 0x07, // Pixel 2
            0x08, 0x09, 0x0A, 0x0B, // Pixel 3
            0x0C, 0x0D, 0x0E, 0x0F, // Pixel 4
        ],
        Color::rgba8(0x00, 0x01, 0x02, 0x03),
        Color::rgba8(0x04, 0x05, 0x06, 0x07),
        Color::rgba8(0x08, 0x09, 0x0A, 0x0B),
        Color::rgba8(0x0C, 0x0D, 0x0E, 0x0F),
    );
}

#[test]
fn get_pixel_color_r8() {
    get_pixel_color_test(
        TextureFormat::R8,
        vec![
            0x00, // Pixel 1
            0x04, // Pixel 2
            0x08, // Pixel 3
            0x0C, // Pixel 4
        ],
        Color::rgba8(0x00, 0x00, 0x00, 0xFF),
        Color::rgba8(0x04, 0x00, 0x00, 0xFF),
        Color::rgba8(0x08, 0x00, 0x00, 0xFF),
        Color::rgba8(0x0C, 0x00, 0x00, 0xFF),
    );
}

#[test]
fn get_pixel_color_rg8() {
    get_pixel_color_test(
        TextureFormat::Rg8,
        vec![
            0x00, 0x01, // Pixel 1
            0x04, 0x05, // Pixel 2
            0x08, 0x09, // Pixel 3
            0x0C, 0x0D, // Pixel 4
        ],
        Color::rgba8(0x00, 0x01, 0x00, 0xFF),
        Color::rgba8(0x04, 0x05, 0x00, 0xFF),
        Color::rgba8(0x08, 0x09, 0x00, 0xFF),
        Color::rgba8(0x0C, 0x0D, 0x00, 0xFF),
    );
}

fn set_pixel_color_test(format: TextureFormat, input: Vec<u8>, output: Vec<u8>) {
    let mut image = ImageData::from_data(2, 2, format, input).unwrap();

    image.set_pixel_color(Vec2::new(0, 0), Color::rgba8(0x0F, 0x0E, 0x0D, 0x0C));
    image.set_pixel_color(Vec2::new(1, 0), Color::rgba8(0x0B, 0x0A, 0x09, 0x08));
    image.set_pixel_color(Vec2::new(0, 1), Color::rgba8(0x07, 0x06, 0x05, 0x04));
    image.set_pixel_color(Vec2::new(1, 1), Color::rgba8(0x03, 0x02, 0x01, 0x00));

    assert_eq!(image.as_bytes(), output);
}

#[test]
fn set_pixel_color_rgba8() {
    set_pixel_color_test(
        TextureFormat::Rgba8,
        vec![
            0x00, 0x01, 0x02, 0x03, // Pixel 1
            0x04, 0x05, 0x06, 0x07, // Pixel 2
            0x08, 0x09, 0x0A, 0x0B, // Pixel 3
            0x0C, 0x0D, 0x0E, 0x0F, // Pixel 4
        ],
        vec![
            0x0F, 0x0E, 0x0D, 0x0C, // Pixel 1
            0x0B, 0x0A, 0x09, 0x08, // Pixel 2
            0x07, 0x06, 0x05, 0x04, // Pixel 3
            0x03, 0x02, 0x01, 0x00, // Pixel 4
        ],
    );
}

#[test]
fn set_pixel_color_r8() {
    set_pixel_color_test(
        TextureFormat::R8,
        vec![
            0x00, // Pixel 1
            0x04, // Pixel 2
            0x08, // Pixel 3
            0x0C, // Pixel 4
        ],
        vec![
            0x0F, // Pixel 1
            0x0B, // Pixel 2
            0x07, // Pixel 3
            0x03, // Pixel 4
        ],
    );
}

#[test]
fn set_pixel_color_rg8() {
    set_pixel_color_test(
        TextureFormat::Rg8,
        vec![
            0x00, 0x01, // Pixel 1
            0x04, 0x05, // Pixel 2
            0x08, 0x09, // Pixel 3
            0x0C, 0x0D, // Pixel 4
        ],
        vec![
            0x0F, 0x0E, // Pixel 1
            0x0B, 0x0A, // Pixel 2
            0x07, 0x06, // Pixel 3
            0x03, 0x02, // Pixel 4
        ],
    );
}

fn transform_test(format: TextureFormat, input: Vec<u8>, output: Vec<u8>) {
    let mut image = ImageData::from_data(2, 2, format, input).unwrap();

    image.transform(|_, c| c + Color::rgba8(1, 1, 1, 1));

    assert_eq!(image.as_bytes(), &output);
}

#[test]
fn transform_rgba8() {
    transform_test(
        TextureFormat::Rgba8,
        vec![
            0x00, 0x01, 0x02, 0x03, // Pixel 1
            0x04, 0x05, 0x06, 0x07, // Pixel 2
            0x08, 0x09, 0x0A, 0x0B, // Pixel 3
            0x0C, 0x0D, 0x0E, 0x0F, // Pixel 4
        ],
        vec![
            0x01, 0x02, 0x03, 0x04, // Pixel 1
            0x05, 0x06, 0x07, 0x08, // Pixel 2
            0x09, 0x0A, 0x0B, 0x0C, // Pixel 3
            0x0D, 0x0E, 0x0F, 0x10, // Pixel 4
        ],
    );
}

#[test]
fn transform_r8() {
    transform_test(
        TextureFormat::R8,
        vec![
            0x00, // Pixel 1
            0x04, // Pixel 2
            0x08, // Pixel 3
            0x0C, // Pixel 4
        ],
        vec![
            0x01, // Pixel 1
            0x05, // Pixel 2
            0x09, // Pixel 3
            0x0D, // Pixel 4
        ],
    );
}

#[test]
fn transform_rg8() {
    transform_test(
        TextureFormat::Rg8,
        vec![
            0x00, 0x01, // Pixel 1
            0x04, 0x05, // Pixel 2
            0x08, 0x09, // Pixel 3
            0x0C, 0x0D, // Pixel 4
        ],
        vec![
            0x01, 0x02, // Pixel 1
            0x05, 0x06, // Pixel 2
            0x09, 0x0A, // Pixel 3
            0x0D, 0x0E, // Pixel 4
        ],
    );
}

fn premultiply_test(format: TextureFormat, input: Vec<u8>, output: Vec<u8>) {
    let mut image = ImageData::from_data(2, 2, format, input).unwrap();

    image.premultiply();

    assert_eq!(image.as_bytes(), output);
}

#[test]
fn premultiply_rgba8() {
    premultiply_test(
        TextureFormat::Rgba8,
        vec![
            0x00, 0x66, 0xCC, 0x00, // Pixel 1
            0x00, 0x66, 0xCC, 0x66, // Pixel 2
            0x00, 0x66, 0xCC, 0xCC, // Pixel 3
            0x00, 0x66, 0xCC, 0xFF, // Pixel 4
        ],
        vec![
            0x00, 0x00, 0x00, 0x00, // Pixel 1
            0x00, 0x28, 0x51, 0x66, // Pixel 2
            0x00, 0x51, 0xA3, 0xCC, // Pixel 3
            0x00, 0x66, 0xCC, 0xFF, // Pixel 4
        ],
    );
}

#[test]
fn premultiply_r8() {
    premultiply_test(
        TextureFormat::R8,
        vec![
            0x01, // Pixel 1
            0x02, // Pixel 2
            0x03, // Pixel 3
            0x04, // Pixel 4
        ],
        vec![
            0x01, // Pixel 1
            0x02, // Pixel 2
            0x03, // Pixel 3
            0x04, // Pixel 4
        ],
    );
}

#[test]
fn premultiply_rg8() {
    premultiply_test(
        TextureFormat::Rg8,
        vec![
            0x01, 0x01, // Pixel 1
            0x02, 0x02, // Pixel 2
            0x03, 0x03, // Pixel 3
            0x04, 0x04, // Pixel 4
        ],
        vec![
            0x01, 0x01, // Pixel 1
            0x02, 0x02, // Pixel 2
            0x03, 0x03, // Pixel 3
            0x04, 0x04, // Pixel 4
        ],
    );
}
