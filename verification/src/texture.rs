use vstd::prelude::*;
use crate::gl;

verus! {

/// The format in which OpenGL stores a texture.
pub enum InternalFormat {
    DepthComponent,
    DepthStencil,
    Red,
    Rg,
    Rgb,
    Rgba,
}

impl InternalFormat {
    pub open spec fn spec_gl(&self) -> u32 {
        match self {
            InternalFormat::DepthComponent => gl::DEPTH_COMPONENT,
            InternalFormat::DepthStencil => gl::DEPTH_STENCIL,
            InternalFormat::Red => gl::RED,
            InternalFormat::Rg => gl::RG,
            InternalFormat::Rgb => gl::RGB,
            InternalFormat::Rgba => gl::RGBA,
        }
    }

    pub fn to_gl(&self) -> (r: u32)
        ensures
            r == self.spec_gl(),
    {
        match self {
            InternalFormat::DepthComponent => gl::DEPTH_COMPONENT,
            InternalFormat::DepthStencil => gl::DEPTH_STENCIL,
            InternalFormat::Red => gl::RED,
            InternalFormat::Rg => gl::RG,
            InternalFormat::Rgb => gl::RGB,
            InternalFormat::Rgba => gl::RGBA,
        }
    }
}

/// The channel layout of uploaded texture data.
pub enum TextureDataFormat {
    Red,
    Rg,
    Rgb,
    Rgba,
    Bgr,
    Bgra,
}

impl TextureDataFormat {
    pub open spec fn spec_gl(&self) -> u32 {
        match self {
            TextureDataFormat::Red => gl::RED,
            TextureDataFormat::Rg => gl::RG,
            TextureDataFormat::Rgb => gl::RGB,
            TextureDataFormat::Rgba => gl::RGBA,
            TextureDataFormat::Bgr => gl::BGR,
            TextureDataFormat::Bgra => gl::BGRA,
        }
    }

    pub fn to_gl(&self) -> (r: u32)
        ensures
            r == self.spec_gl(),
    {
        match self {
            TextureDataFormat::Red => gl::RED,
            TextureDataFormat::Rg => gl::RG,
            TextureDataFormat::Rgb => gl::RGB,
            TextureDataFormat::Rgba => gl::RGBA,
            TextureDataFormat::Bgr => gl::BGR,
            TextureDataFormat::Bgra => gl::BGRA,
        }
    }
}

/// What a texture lookup outside `0..1` reads.
#[derive(PartialEq, Eq, Structural)]
pub enum WrapType {
    ClampToEdge,
    ClampToBorder,
    MirroredRepeat,
    Repeat,
    MirrorClampToEdge,
}

impl Default for WrapType {
    fn default() -> (r: Self)
        ensures
            r == WrapType::Repeat,
    {
        WrapType::Repeat
    }
}

impl WrapType {
    pub open spec fn spec_gl(&self) -> u32 {
        match self {
            WrapType::ClampToEdge => gl::CLAMP_TO_EDGE,
            WrapType::ClampToBorder => gl::CLAMP_TO_BORDER,
            WrapType::MirroredRepeat => gl::MIRRORED_REPEAT,
            WrapType::Repeat => gl::REPEAT,
            WrapType::MirrorClampToEdge => gl::MIRROR_CLAMP_TO_EDGE,
        }
    }

    pub fn to_gl(&self) -> (r: u32)
        ensures
            r == self.spec_gl(),
    {
        match self {
            WrapType::ClampToEdge => gl::CLAMP_TO_EDGE,
            WrapType::ClampToBorder => gl::CLAMP_TO_BORDER,
            WrapType::MirroredRepeat => gl::MIRRORED_REPEAT,
            WrapType::Repeat => gl::REPEAT,
            WrapType::MirrorClampToEdge => gl::MIRROR_CLAMP_TO_EDGE,
        }
    }
}

/// The wrap mode along each texture axis.
pub struct TextureWrap {
    pub x: WrapType,
    pub y: WrapType,
    pub z: WrapType,
}

impl Default for TextureWrap {
    fn default() -> (r: Self)
        ensures
            r.x == WrapType::Repeat,
            r.y == WrapType::Repeat,
            r.z == WrapType::Repeat,
    {
        TextureWrap { x: WrapType::default(), y: WrapType::default(), z: WrapType::default() }
    }
}

/// How texels are sampled.
#[derive(PartialEq, Eq, Structural)]
pub enum FilterType {
    Nearest,
    Linear,
}

impl FilterType {
    pub open spec fn spec_gl(&self) -> u32 {
        match self {
            FilterType::Nearest => gl::NEAREST,
            FilterType::Linear => gl::LINEAR,
        }
    }

    pub fn to_gl(&self) -> (r: u32)
        ensures
            r == self.spec_gl(),
    {
        match self {
            FilterType::Nearest => gl::NEAREST,
            FilterType::Linear => gl::LINEAR,
        }
    }
}

/// The filter used when a texture is drawn smaller than it is.
#[derive(PartialEq, Eq, Structural)]
pub enum TextureMinFilter {
    Basic(FilterType),
    Mipmap(FilterType, FilterType),
}

impl Default for TextureMinFilter {
    fn default() -> (r: Self)
        ensures
            r == TextureMinFilter::Mipmap(FilterType::Nearest, FilterType::Linear),
    {
        TextureMinFilter::Mipmap(FilterType::Nearest, FilterType::Linear)
    }
}

impl TextureMinFilter {
    pub open spec fn spec_gl(&self) -> u32 {
        match self {
            TextureMinFilter::Basic(ty) => ty.spec_gl(),
            TextureMinFilter::Mipmap(from, to) => match from {
                FilterType::Nearest => match to {
                    FilterType::Nearest => gl::NEAREST_MIPMAP_NEAREST,
                    FilterType::Linear => gl::NEAREST_MIPMAP_LINEAR,
                },
                FilterType::Linear => match to {
                    FilterType::Nearest => gl::LINEAR_MIPMAP_NEAREST,
                    FilterType::Linear => gl::LINEAR_MIPMAP_LINEAR,
                },
            },
        }
    }

    pub fn to_gl(&self) -> (r: u32)
        ensures
            r == self.spec_gl(),
    {
        match self {
            TextureMinFilter::Basic(ty) => ty.to_gl(),
            TextureMinFilter::Mipmap(from, to) => match from {
                FilterType::Nearest => match to {
                    FilterType::Nearest => gl::NEAREST_MIPMAP_NEAREST,
                    FilterType::Linear => gl::NEAREST_MIPMAP_LINEAR,
                },
                FilterType::Linear => match to {
                    FilterType::Nearest => gl::LINEAR_MIPMAP_NEAREST,
                    FilterType::Linear => gl::LINEAR_MIPMAP_LINEAR,
                },
            },
        }
    }
}

/// The filter used when a texture is drawn larger than it is.
#[derive(PartialEq, Eq, Structural)]
pub struct TextureMagFilter(pub FilterType);

impl Default for TextureMagFilter {
    fn default() -> (r: Self)
        ensures
            r == TextureMagFilter(FilterType::Linear),
    {
        TextureMagFilter(FilterType::Linear)
    }
}

impl TextureMagFilter {
    pub fn to_gl(&self) -> (r: u32)
        ensures
            r == self.0.spec_gl(),
    {
        self.0.to_gl()
    }
}

/// A texture unit that a shader samples a 2D texture from.
#[derive(Copy, Clone)]
pub struct Sampler2d {
    pub unit: u8,
}

impl Default for Sampler2d {
    fn default() -> (r: Self)
        ensures
            r.unit == 0,
    {
        Sampler2d { unit: 0 }
    }
}

impl Sampler2d {
    /// The OpenGL type of a uniform that holds this sampler.
    pub fn gl_enum() -> (r: u32)
        ensures
            r == gl::SAMPLER_2D,
    {
        gl::SAMPLER_2D
    }
}

/// Different internal formats, data formats, wrap modes and filters each give different
/// OpenGL values, so the texture is set up as asked.
pub proof fn law_texture_enums_injective(
    f1: InternalFormat,
    f2: InternalFormat,
    d1: TextureDataFormat,
    d2: TextureDataFormat,
    w1: WrapType,
    w2: WrapType,
    t1: FilterType,
    t2: FilterType,
)
    ensures
        f1.spec_gl() == f2.spec_gl() ==> f1 == f2,
        d1.spec_gl() == d2.spec_gl() ==> d1 == d2,
        w1.spec_gl() == w2.spec_gl() ==> w1 == w2,
        t1.spec_gl() == t2.spec_gl() ==> t1 == t2,
{
}

/// A basic filter and each mipmap filter pair give a different OpenGL value.
pub proof fn law_min_filter_injective(a: TextureMinFilter, b: TextureMinFilter)
    requires
        a.spec_gl() == b.spec_gl(),
    ensures
        a == b,
{
}

} // verus!
