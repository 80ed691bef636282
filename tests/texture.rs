use luadec::texture::{calculate_mipmaps, calculate_texture_size, Palette, Texture, TextureFormat, TextureType};

#[test]
fn compressed_formats() {
    assert!(TextureFormat::DXT1.compressed());
    assert!(TextureFormat::DXT3.compressed());
    assert!(TextureFormat::DXT5.compressed());
    assert!(!TextureFormat::A8R8G8B8.compressed());
    assert!(!TextureFormat::PAL8.compressed());
}

#[test]
fn block_and_pixel_sizes() {
    assert_eq!(TextureFormat::DXT1.block_size(), 8);
    assert_eq!(TextureFormat::DXT5.block_size(), 16);
    assert_eq!(TextureFormat::A8R8G8B8.bytes_per_pixel(), 4);
    assert_eq!(TextureFormat::R8G8B8.bytes_per_pixel(), 3);
    assert_eq!(TextureFormat::R5G6B5.bytes_per_pixel(), 2);
    assert_eq!(TextureFormat::L8.bytes_per_pixel(), 1);
}

#[test]
fn mipmap_chain_counts() {
    assert_eq!(calculate_mipmaps(3, 256, 256), 3);
    assert_eq!(calculate_mipmaps(0, 256, 256), 9);
    assert_eq!(calculate_mipmaps(0, 256, 4), 3);
    assert_eq!(calculate_mipmaps(0, 0, 16), 0);
}

#[test]
fn uncompressed_texture_size() {
    // 4x4 + 2x2 + 1x1 pixels of four bytes.
    assert_eq!(calculate_texture_size(TextureFormat::A8R8G8B8, TextureType::Bitmap, 4, 4, 3), 84);
    assert_eq!(calculate_texture_size(TextureFormat::A8R8G8B8, TextureType::Cubemap, 4, 4, 3), 504);
}

#[test]
fn compressed_texture_size() {
    // 8x8 is 2x2 blocks, then 1x1 block for 4x4, 2x2 and 1x1.
    assert_eq!(calculate_texture_size(TextureFormat::DXT1, TextureType::Bitmap, 8, 8, 4), 8 * (4 + 1 + 1 + 1));
    assert_eq!(calculate_texture_size(TextureFormat::DXT5, TextureType::Bitmap, 5, 3, 1), 16 * 2);
}

#[test]
fn stored_texture_size() {
    let plain = Texture {
        format: TextureFormat::A8R8G8B8,
        type_: TextureType::Bitmap,
        flags: 0,
        width: 4,
        height: 4,
        mipmaps: 3,
        palette: None,
        data: vec![0; 84],
    };
    assert_eq!(plain.size(), 44 + 84);
    let paletted = Texture {
        format: TextureFormat::PAL8,
        type_: TextureType::Bitmap,
        flags: 0,
        width: 2,
        height: 2,
        mipmaps: 1,
        palette: Some(Palette { data: Some([0; 256]) }),
        data: vec![0; 4],
    };
    assert_eq!(paletted.size(), 44 + 1026 + 4);
    assert_eq!(Palette { data: None }.size(), 2);
}
