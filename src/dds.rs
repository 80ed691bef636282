//! The header of a DirectDraw Surface, the file format that textures are exported to.
use vstd::prelude::*;

verus! {

/// The four bytes that open a DirectDraw Surface file.
pub const MAGIC: u32 = 0x20534444;

pub const ALPHAPIXELS: u32 = 0x00000001;
pub const ALPHA: u32 = 0x00000002;
pub const FOURCC: u32 = 0x00000004;
pub const PAL8: u32 = 0x00000020;
pub const PAL8A: u32 = 0x00000021;
pub const RGB: u32 = 0x00000040;
pub const RGBA: u32 = 0x00000041;
pub const YUV: u32 = 0x00000200;
pub const LUMINANCE: u32 = 0x00020000;
pub const LUMINANCEA: u32 = 0x00020001;
pub const BUMPLUMINANCE: u32 = 0x00040000;
pub const BUMPDUDV: u32 = 0x00080000;

pub const HEADER_FLAGS_CAPS: u32 = 0x00000001;
pub const HEADER_FLAGS_HEIGHT: u32 = 0x00000002;
pub const HEADER_FLAGS_WIDTH: u32 = 0x00000004;
pub const HEADER_FLAGS_PITCH: u32 = 0x00000008;
pub const HEADER_FLAGS_PIXELFORMAT: u32 = 0x00001000;
pub const HEADER_FLAGS_MIPMAP: u32 = 0x00020000;
pub const HEADER_FLAGS_LINEARSIZE: u32 = 0x00080000;
pub const HEADER_FLAGS_VOLUME: u32 = 0x00800000;
/// Caps, height, width and pixel format: the flags every texture sets.
pub const HEADER_FLAGS_TEXTURE: u32 = 0x00001007;

pub const SURFACE_FLAGS_CUBEMAP: u32 = 0x00000008;
pub const SURFACE_FLAGS_TEXTURE: u32 = 0x00001000;
/// Complex and mipmap.
pub const SURFACE_FLAGS_MIPMAP: u32 = 0x00400008;

/// How the pixels of a surface are stored: a four-character code, or bit masks.
#[derive(Clone, Copy, Debug, PartialEq, Eq)]
pub struct PixelFormat {
    pub _size: u32,
    pub flags: u32,
    pub four_cc: [u8; 4],
    pub rgb_bit_count: u32,
    pub r_bit_mask: u32,
    pub g_bit_mask: u32,
    pub b_bit_mask: u32,
    pub a_bit_mask: u32,
}

/// The in-memory size of `T`, as its header records it.
pub open spec fn recorded_size<T>() -> u32 {
    vstd::layout::size_of::<T>() as usize as u32
}

impl PixelFormat {
    /// A format given by flags, a bit count and the four channel masks.
    pub fn from_tuple(t: (u32, u32, u32, u32, u32, u32)) -> (r: Self)
        ensures
            r._size == recorded_size::<PixelFormat>(),
            r.flags == t.0,
            r.four_cc@ == seq![0u8, 0u8, 0u8, 0u8],
            r.rgb_bit_count == t.1,
            r.r_bit_mask == t.2,
            r.g_bit_mask == t.3,
            r.b_bit_mask == t.4,
            r.a_bit_mask == t.5,
    {
        let (flags, rgb_bit_count, r_bit_mask, g_bit_mask, b_bit_mask, a_bit_mask) = t;
        let r = Self {
            _size: core::mem::size_of::<Self>() as u32,
            flags,
            four_cc: [0u8, 0u8, 0u8, 0u8],
            rgb_bit_count,
            r_bit_mask,
            g_bit_mask,
            b_bit_mask,
            a_bit_mask,
        };
        assert(r.four_cc@ =~= seq![0u8, 0u8, 0u8, 0u8]);
        r
    }

    /// A format given by a four-character code, with no masks.
    pub fn from_four_cc(four_cc: [u8; 4]) -> (r: Self)
        ensures
            r._size == recorded_size::<PixelFormat>(),
            r.flags == FOURCC,
            r.four_cc == four_cc,
            r.rgb_bit_count == 0,
            r.r_bit_mask == 0,
            r.g_bit_mask == 0,
            r.b_bit_mask == 0,
            r.a_bit_mask == 0,
    {
        Self {
            _size: core::mem::size_of::<Self>() as u32,
            flags: FOURCC,
            four_cc,
            rgb_bit_count: 0,
            r_bit_mask: 0,
            g_bit_mask: 0,
            b_bit_mask: 0,
            a_bit_mask: 0,
        }
    }
}

impl Default for PixelFormat {
    /// An empty format: no flags, no code, no masks.
    fn default() -> (r: Self)
        ensures
            r._size == recorded_size::<PixelFormat>(),
            r.flags == 0,
            r.four_cc@ == seq![0u8, 0u8, 0u8, 0u8],
            r.rgb_bit_count == 0,
            r.r_bit_mask == 0,
            r.g_bit_mask == 0,
            r.b_bit_mask == 0,
            r.a_bit_mask == 0,
    {
        Self::from_tuple((0, 0, 0, 0, 0, 0))
    }
}

/// The header of a DirectDraw Surface file.
#[derive(Clone, Copy, Debug)]
pub struct Header {
    pub _size: u32,
    pub header_flags: u32,
    pub height: u32,
    pub width: u32,
    pub pitch_or_linear_size: u32,
    pub depth: u32,
    pub mip_map_count: u32,
    pub _reserved1: [u32; 11],
    pub pixel_format: PixelFormat,
    pub surface_flags: u32,
    pub caps2: u32,
    pub _caps3: u32,
    pub _caps4: u32,
    pub _reserved2: u32,
}

impl Default for Header {
    /// The header of an empty texture: the texture flags, an empty pixel format,
    /// and zero elsewhere.
    fn default() -> (r: Self)
        ensures
            r._size == recorded_size::<Header>(),
            r.header_flags == HEADER_FLAGS_TEXTURE,
            r.height == 0 && r.width == 0 && r.pitch_or_linear_size == 0,
            r.depth == 0 && r.mip_map_count == 0,
            r._reserved1@ == Seq::new(11, |i: int| 0u32),
            r.pixel_format.flags == 0 && r.pixel_format.rgb_bit_count == 0,
            r.pixel_format._size == recorded_size::<PixelFormat>(),
            r.surface_flags == SURFACE_FLAGS_TEXTURE,
            r.caps2 == 0 && r._caps3 == 0 && r._caps4 == 0 && r._reserved2 == 0,
    {
        let r = Self {
            _size: core::mem::size_of::<Self>() as u32,
            header_flags: HEADER_FLAGS_TEXTURE,
            height: 0,
            width: 0,
            pitch_or_linear_size: 0,
            depth: 0,
            mip_map_count: 0,
            _reserved1: [0u32, 0u32, 0u32, 0u32, 0u32, 0u32, 0u32, 0u32, 0u32, 0u32, 0u32],
            pixel_format: PixelFormat::default(),
            surface_flags: SURFACE_FLAGS_TEXTURE,
            caps2: 0,
            _caps3: 0,
            _caps4: 0,
            _reserved2: 0,
        };
        assert(r._reserved1@ =~= Seq::new(11, |i: int| 0u32));
        r
    }
}

} // verus!
