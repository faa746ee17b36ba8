use pseudo3d::resources::types::texture::TextureAsset;

#[test]
fn texture_view_borrows_the_pixels() {
    let texture = TextureAsset {
        width: 1,
        height: 2,
        rgba: vec![1, 2, 3, 4, 5, 6, 7, 8],
    };
    let view = texture.as_view();
    assert_eq!(view.width, 1);
    assert_eq!(view.height, 2);
    assert_eq!(view.rgba, &[1, 2, 3, 4, 5, 6, 7, 8][..]);
}

#[test]
fn default_window_is_720p_titled_pseudo3d() {
    let config = pseudo3d::engine::window::EngineConfig::default();
    assert_eq!(config.title, "pseudo3d");
    assert_eq!(config.width, 1280);
    assert_eq!(config.height, 720);
}

fn png_bytes(width: u32, height: u32, rgba: Vec<u8>) -> Vec<u8> {
    let image = image::RgbaImage::from_raw(width, height, rgba).expect("pixel buffer fits");
    let mut bytes = std::io::Cursor::new(Vec::new());
    image
        .write_to(&mut bytes, image::ImageFormat::Png)
        .expect("encode png");
    bytes.into_inner()
}

#[test]
fn png_texture_decodes_to_its_pixels() {
    let pixels = vec![255, 0, 0, 255, 0, 255, 0, 128, 0, 0, 255, 0, 10, 20, 30, 40];
    let bytes = png_bytes(2, 2, pixels.clone());
    let texture = TextureAsset::decode(&bytes, "textures/wall.png").expect("valid png");
    assert_eq!((texture.width, texture.height), (2, 2));
    assert_eq!(texture.rgba, pixels);
}

#[test]
fn texture_that_does_not_decode_is_refused() {
    let bytes = png_bytes(1, 1, vec![1, 2, 3, 4]);
    assert!(TextureAsset::decode(&bytes[..8], "textures/wall.png").is_err());
    assert!(TextureAsset::decode(&bytes, "textures/wall").is_err());
    assert!(TextureAsset::decode(&bytes, "textures/wall.jpg").is_err());
    let message = TextureAsset::decode(b"not an image", "wall.png").unwrap_err();
    assert!(!message.is_empty());
}
