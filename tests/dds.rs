use std::mem::size_of;

use luadec::dds::{Header, PixelFormat, FOURCC, HEADER_FLAGS_TEXTURE, RGBA, SURFACE_FLAGS_TEXTURE};

#[test]
fn proper_size() {
    assert_eq!(32, size_of::<PixelFormat>(), "PixelFormat size mismatch.");
    assert_eq!(124, size_of::<Header>(), "Header size mismatch.");
}

#[test]
fn pixel_format_from_tuple_keeps_masks() {
    let f = PixelFormat::from_tuple((RGBA, 32, 0x00ff0000, 0x0000ff00, 0x000000ff, 0xff000000));
    assert_eq!(f._size, 32);
    assert_eq!(f.flags, RGBA);
    assert_eq!(f.four_cc, [0, 0, 0, 0]);
    assert_eq!(f.rgb_bit_count, 32);
    assert_eq!(f.r_bit_mask, 0x00ff0000);
    assert_eq!(f.a_bit_mask, 0xff000000);
}

#[test]
fn pixel_format_from_four_cc() {
    let f = PixelFormat::from_four_cc(*b"DXT5");
    assert_eq!(f._size, 32);
    assert_eq!(f.flags, FOURCC);
    assert_eq!(&f.four_cc, b"DXT5");
    assert_eq!(f.rgb_bit_count, 0);
}

#[test]
fn default_dds_header() {
    let h = Header::default();
    assert_eq!(h._size, 124);
    assert_eq!(h.header_flags, HEADER_FLAGS_TEXTURE);
    assert_eq!(h.surface_flags, SURFACE_FLAGS_TEXTURE);
    assert_eq!(h.pixel_format._size, 32);
    assert_eq!(h._reserved1, [0u32; 11]);
}
