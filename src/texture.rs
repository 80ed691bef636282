//! Texture pack enumerations and the size arithmetic of their mipmap chains.
use vstd::prelude::*;

verus! {

/// The language that a set of textures belongs to.
#[derive(Clone, Copy, Debug, PartialEq, Eq, Structural)]
pub enum LanguageId {
    English,
    French,
    German,
    Nonsense,
}

/// The pixel format of a texture.
#[derive(Clone, Copy, Debug, PartialEq, Eq, Structural)]
pub enum TextureFormat {
    A8R8G8B8,
    R8G8B8,
    A4R4G4B4,
    A1R5G5B5,
    X1R5G5B5,
    R5G6B5,
    A8,
    L8,
    AL8,
    DXT1,
    DXT3,
    DXT5,
    V8U8,
    V16U16,
    PAL8,
}

/// The shape of a texture.
#[derive(Clone, Copy, Debug, PartialEq, Eq, Structural)]
pub enum TextureType {
    Bitmap,
    Cubemap,
    VolumeMap,
    DepthBuffer,
}

/// How an animated texture plays.
#[derive(Clone, Copy, Debug, PartialEq, Eq, Structural)]
pub enum PlayMode {
    Loop,
    LoopOnce,
    LoopTail,
    Oscillate,
    OscillateOnce,
    OscillateOutOnce,
    OscillateBackOnce,
    Stop,
}

/// The layout version of a texture pack.
#[derive(Clone, Copy, Debug, PartialEq, Eq, Structural)]
pub enum Version {
    V0,
    V1,
}

impl TextureFormat {
    pub open spec fn spec_compressed(self) -> bool {
        self == TextureFormat::DXT1 || self == TextureFormat::DXT3 || self == TextureFormat::DXT5
    }

    /// Whether the format stores 4x4 pixel blocks.
    pub fn compressed(&self) -> (r: bool)
        ensures
            r == self.spec_compressed(),
    {
        match *self {
            TextureFormat::DXT1 | TextureFormat::DXT3 | TextureFormat::DXT5 => true,
            _ => false,
        }
    }

    pub open spec fn spec_block_size(self) -> nat {
        if self == TextureFormat::DXT1 {
            8
        } else {
            16
        }
    }

    /// The bytes of one 4x4 block of a compressed format.
    pub fn block_size(&self) -> (r: usize)
        requires
            self.spec_compressed(),
        ensures
            r == self.spec_block_size(),
    {
        match *self {
            TextureFormat::DXT1 => 8,
            _ => 16,
        }
    }

    pub open spec fn spec_bytes_per_pixel(self) -> nat {
        match self {
            TextureFormat::A8R8G8B8 | TextureFormat::V16U16 => 4,
            TextureFormat::R8G8B8 => 3,
            TextureFormat::A4R4G4B4 | TextureFormat::A1R5G5B5 | TextureFormat::X1R5G5B5
            | TextureFormat::R5G6B5 | TextureFormat::V8U8 => 2,
            _ => 1,
        }
    }

    /// The bytes of one pixel of an uncompressed format.
    pub fn bytes_per_pixel(&self) -> (r: usize)
        requires
            !self.spec_compressed(),
        ensures
            r == self.spec_bytes_per_pixel(),
    {
        match *self {
            TextureFormat::A8R8G8B8 | TextureFormat::V16U16 => 4,
            TextureFormat::R8G8B8 => 3,
            TextureFormat::A4R4G4B4
            | TextureFormat::A1R5G5B5
            | TextureFormat::X1R5G5B5
            | TextureFormat::R5G6B5
            | TextureFormat::V8U8 => 2,
            _ => 1,
        }
    }
}

/// The number of levels of a full mipmap chain: halvings of both sides until one of
/// them reaches zero.
pub open spec fn full_chain(width: nat, height: nat) -> nat
    decreases width,
{
    if width > 0 && height > 0 {
        1 + full_chain(width / 2, height / 2)
    } else {
        0
    }
}

/// The mipmap count of a texture: the stored count, or the full chain where it is zero.
pub open spec fn mipmap_count(mipmaps: nat, width: nat, height: nat) -> nat {
    if mipmaps == 0 {
        full_chain(width, height)
    } else {
        mipmaps
    }
}

proof fn lemma_full_chain_bound(width: nat, height: nat)
    ensures
        full_chain(width, height) <= width,
    decreases width,
{
    if width > 0 && height > 0 {
        lemma_full_chain_bound(width / 2, height / 2);
    }
}

/// The mipmap count of a texture whose stored count is `mipmaps`.
pub fn calculate_mipmaps(mipmaps: usize, width: usize, height: usize) -> (r: usize)
    ensures
        r == mipmap_count(mipmaps as nat, width as nat, height as nat),
{
    let ghost old_width = width;
    let ghost old_height = height;
    let mut mipmaps = mipmaps;
    if mipmaps == 0 {
        let mut width = width;
        let mut height = height;
        proof {
            lemma_full_chain_bound(width as nat, height as nat);
        }
        while width > 0 && height > 0
            invariant
                mipmaps + full_chain(width as nat, height as nat) == full_chain(
                    old_width as nat,
                    old_height as nat,
                ),
                full_chain(old_width as nat, old_height as nat) <= usize::MAX,
            decreases width,
        {
            width = width / 2;
            height = height / 2;
            mipmaps = mipmaps + 1;
        }
    }
    mipmaps
}

/// The 4x4 blocks along a side of `n` pixels, at least one.
pub open spec fn blocks(n: nat) -> nat {
    if (n + 3) / 4 >= 1 {
        (n + 3) / 4
    } else {
        1
    }
}

/// The bytes of one mipmap level of `width` by `height` pixels.
pub open spec fn level_size(format: TextureFormat, width: nat, height: nat) -> nat {
    if format.spec_compressed() {
        blocks(width) * blocks(height) * format.spec_block_size()
    } else {
        width * height * format.spec_bytes_per_pixel()
    }
}

/// The bytes of `levels` mipmap levels, each half the size of the one before.
pub open spec fn chain_size(format: TextureFormat, width: nat, height: nat, levels: nat) -> nat
    decreases levels,
{
    if levels == 0 {
        0
    } else {
        level_size(format, width, height) + chain_size(format, width / 2, height / 2, (levels - 1) as nat)
    }
}

/// The bytes of a texture's pixel data: one chain for a bitmap, six for a cube map.
pub open spec fn texture_size(
    format: TextureFormat,
    type_: TextureType,
    width: nat,
    height: nat,
    levels: nat,
) -> nat {
    if type_ == TextureType::Cubemap {
        6 * chain_size(format, width, height, levels)
    } else {
        chain_size(format, width, height, levels)
    }
}

fn level_bytes(format: TextureFormat, width: usize, height: usize, bound: Ghost<nat>) -> (r: usize)
    requires
        level_size(format, width as nat, height as nat) <= bound@,
        bound@ <= usize::MAX,
    ensures
        r == level_size(format, width as nat, height as nat),
{
    if format.compressed() {
        let bw = if width % 4 == 0 { width / 4 } else { width / 4 + 1 };
        let bw = if bw >= 1 { bw } else { 1 };
        let bh = if height % 4 == 0 { height / 4 } else { height / 4 + 1 };
        let bh = if bh >= 1 { bh } else { 1 };
        let block = format.block_size();
        assert(bw == blocks(width as nat) && bh == blocks(height as nat));
        assert(bw * bh <= bw * bh * block) by (nonlinear_arith)
            requires
                block >= 1,
        ;
        assert(bw * bh * block <= usize::MAX);
        bw * bh * block
    } else {
        let bpp = format.bytes_per_pixel();
        assert(width * height <= width * height * bpp) by (nonlinear_arith)
            requires
                bpp >= 1,
        ;
        width * height * bpp
    }
}

/// The bytes of a bitmap's or cube map's pixel data, over `mipmap_levels` levels.
pub fn calculate_texture_size(
    format: TextureFormat,
    type_: TextureType,
    width: usize,
    height: usize,
    mipmap_levels: usize,
) -> (r: usize)
    requires
        type_ == TextureType::Bitmap || type_ == TextureType::Cubemap,
        texture_size(format, type_, width as nat, height as nat, mipmap_levels as nat) <= usize::MAX,
    ensures
        r == texture_size(format, type_, width as nat, height as nat, mipmap_levels as nat),
    decreases if type_ == TextureType::Cubemap {
        1nat
    } else {
        0nat
    },
{
    match type_ {
        TextureType::Cubemap => 6 * calculate_texture_size(
            format,
            TextureType::Bitmap,
            width,
            height,
            mipmap_levels,
        ),
        _ => {
            let ghost total = chain_size(format, width as nat, height as nat, mipmap_levels as nat);
            let mut size: usize = 0;
            let mut w = width;
            let mut h = height;
            let mut i: usize = 0;
            while i < mipmap_levels
                invariant
                    i <= mipmap_levels,
                    total <= usize::MAX,
                    total == chain_size(format, width as nat, height as nat, mipmap_levels as nat),
                    size + chain_size(format, w as nat, h as nat, (mipmap_levels - i) as nat) == total,
                decreases mipmap_levels - i,
            {
                let level = level_bytes(format, w, h, Ghost(total));
                w = w / 2;
                h = h / 2;
                size = size + level;
                i = i + 1;
            }
            size
        },
    }
}

/// The 256-colour palette of a `PAL8` texture, when it carries one.
#[derive(Debug)]
pub struct Palette {
    pub data: Option<[u32; 256]>,
}

impl Palette {
    pub open spec fn spec_size(self) -> nat {
        if self.data is Some {
            2 + 1024
        } else {
            2
        }
    }

    /// The bytes of the palette as stored: a presence flag, then the colours.
    pub fn size(&self) -> (r: usize)
        ensures
            r == self.spec_size(),
    {
        match self.data {
            Some(_) => 2 + 4 * 256,
            None => 2,
        }
    }
}

/// One texture of a pack: its format, shape, dimensions, mipmap count, optional
/// palette and pixel data.
#[derive(Debug)]
pub struct Texture {
    pub format: TextureFormat,
    pub type_: TextureType,
    pub flags: u32,
    pub width: usize,
    pub height: usize,
    pub mipmaps: usize,
    pub palette: Option<Palette>,
    pub data: Vec<u8>,
}

impl Texture {
    pub open spec fn palette_size(self) -> nat {
        match self.palette {
            Some(p) => p.spec_size(),
            None => 0,
        }
    }

    /// The bytes of the texture as stored: padding, format, type, the 32 bytes of
    /// flags, dimensions and padding, the palette, then the pixel data.
    pub open spec fn spec_size(self) -> nat {
        4 + 4 + 4 + 32 + self.palette_size() + texture_size(
            self.format,
            self.type_,
            self.width as nat,
            self.height as nat,
            self.mipmaps as nat,
        )
    }

    pub fn size(&self) -> (r: usize)
        requires
            self.type_ == TextureType::Bitmap || self.type_ == TextureType::Cubemap,
            self.spec_size() <= usize::MAX,
        ensures
            r == self.spec_size(),
    {
        let palette = match &self.palette {
            Some(p) => p.size(),
            None => 0,
        };
        4 + 4 + 4 + 32 + palette + calculate_texture_size(
            self.format,
            self.type_,
            self.width,
            self.height,
            self.mipmaps,
        )
    }
}

} // verus!
