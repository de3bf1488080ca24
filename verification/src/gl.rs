//! The OpenGL enum values that the render tables use.
use vstd::prelude::*;

verus! {

pub const POINTS: u32 = 0x0000;
pub const LINES: u32 = 0x0001;
pub const LINE_LOOP: u32 = 0x0002;
pub const LINE_STRIP: u32 = 0x0003;
pub const TRIANGLES: u32 = 0x0004;
pub const TRIANGLE_STRIP: u32 = 0x0005;
pub const TRIANGLE_FAN: u32 = 0x0006;
pub const LINES_ADJACENCY: u32 = 0x000A;
pub const LINE_STRIP_ADJACENCY: u32 = 0x000B;
pub const TRIANGLES_ADJACENCY: u32 = 0x000C;
pub const TRIANGLE_STRIP_ADJACENCY: u32 = 0x000D;
pub const PATCHES: u32 = 0x000E;

pub const STREAM_DRAW: u32 = 0x88E0;
pub const STREAM_READ: u32 = 0x88E1;
pub const STREAM_COPY: u32 = 0x88E2;
pub const STATIC_DRAW: u32 = 0x88E4;
pub const STATIC_READ: u32 = 0x88E5;
pub const STATIC_COPY: u32 = 0x88E6;
pub const DYNAMIC_DRAW: u32 = 0x88E8;
pub const DYNAMIC_READ: u32 = 0x88E9;
pub const DYNAMIC_COPY: u32 = 0x88EA;

pub const FRAGMENT_SHADER: u32 = 0x8B30;
pub const VERTEX_SHADER: u32 = 0x8B31;
pub const GEOMETRY_SHADER: u32 = 0x8DD9;
pub const COMPUTE_SHADER: u32 = 0x91B9;

pub const TEXTURE_2D: u32 = 0x0DE1;
pub const DEPTH_COMPONENT: u32 = 0x1902;
pub const RED: u32 = 0x1903;
pub const RGB: u32 = 0x1907;
pub const RGBA: u32 = 0x1908;
pub const BGR: u32 = 0x80E0;
pub const BGRA: u32 = 0x80E1;
pub const RG: u32 = 0x8227;
pub const DEPTH_STENCIL: u32 = 0x84F9;

pub const NEAREST: u32 = 0x2600;
pub const LINEAR: u32 = 0x2601;
pub const NEAREST_MIPMAP_NEAREST: u32 = 0x2700;
pub const LINEAR_MIPMAP_NEAREST: u32 = 0x2701;
pub const NEAREST_MIPMAP_LINEAR: u32 = 0x2702;
pub const LINEAR_MIPMAP_LINEAR: u32 = 0x2703;
pub const REPEAT: u32 = 0x2901;
pub const CLAMP_TO_BORDER: u32 = 0x812D;
pub const CLAMP_TO_EDGE: u32 = 0x812F;
pub const MIRRORED_REPEAT: u32 = 0x8370;
pub const MIRROR_CLAMP_TO_EDGE: u32 = 0x8743;

pub const SAMPLER_2D: u32 = 0x8B5E;

pub const ARRAY_BUFFER: u32 = 0x8892;
pub const ELEMENT_ARRAY_BUFFER: u32 = 0x8893;
pub const COPY_READ_BUFFER: u32 = 0x8F36;
pub const COPY_WRITE_BUFFER: u32 = 0x8F37;
pub const PIXEL_UNPACK_BUFFER: u32 = 0x88EC;
pub const PIXEL_PACK_BUFFER: u32 = 0x88EB;
pub const QUERY_BUFFER: u32 = 0x9192;
pub const TEXTURE_BUFFER: u32 = 0x8C2A;
pub const TRANSFORM_FEEDBACK_BUFFER: u32 = 0x8C8E;
pub const UNIFORM_BUFFER: u32 = 0x8A11;
pub const DRAW_INDIRECT_BUFFER: u32 = 0x8F3F;
pub const ATOMIC_COUNTER_BUFFER: u32 = 0x92C0;
pub const DISPATCH_INDIRECT_BUFFER: u32 = 0x90EE;
pub const SHADER_STORAGE_BUFFER: u32 = 0x90D2;

pub const DEPTH_BUFFER_BIT: u32 = 0x0000_0100;
pub const COLOR_BUFFER_BIT: u32 = 0x0000_4000;

} // verus!
