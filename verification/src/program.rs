use vstd::prelude::*;
use crate::gl;

verus! {

/// The stage of the render pipeline that a shader runs in.
pub enum ShaderType {
    Vertex,
    Geometry,
    Fragment,
    Compute,
}

impl ShaderType {
    pub open spec fn spec_gl(&self) -> u32 {
        match self {
            ShaderType::Vertex => gl::VERTEX_SHADER,
            ShaderType::Geometry => gl::GEOMETRY_SHADER,
            ShaderType::Fragment => gl::FRAGMENT_SHADER,
            ShaderType::Compute => gl::COMPUTE_SHADER,
        }
    }

    pub fn get_gl(&self) -> (r: u32)
        ensures
            r == self.spec_gl(),
    {
        match self {
            ShaderType::Vertex => gl::VERTEX_SHADER,
            ShaderType::Geometry => gl::GEOMETRY_SHADER,
            ShaderType::Fragment => gl::FRAGMENT_SHADER,
            ShaderType::Compute => gl::COMPUTE_SHADER,
        }
    }
}

/// Different shader stages give different OpenGL shader types.
pub proof fn law_shader_type_injective(a: ShaderType, b: ShaderType)
    requires
        a.spec_gl() == b.spec_gl(),
    ensures
        a == b,
{
}

} // verus!
