//! What the diagnostic text overlay may use of an OpenGL context, decided
//! from its version and extensions.

use vstd::prelude::*;

verus! {

/// The version of an OpenGL or OpenGL ES context.
#[derive(Clone, Copy, Debug, PartialEq, Eq, Structural)]
pub struct GlVersion {
    pub major: u32,
    pub minor: u32,
    pub is_embedded: bool,
}

/// The shader dialect the text overlay compiles.
#[derive(Clone, Copy, Debug, PartialEq, Eq, Structural)]
pub enum TextShaderVariant {
    /// GLSL ES 1.00, for every OpenGL ES context.
    Gles2,
    /// GLSL 1.20, for desktop OpenGL 2.x.
    Gl120,
    /// GLSL 1.30, for desktop OpenGL 3 and later.
    Gl130,
}

/// Whether `(major, minor)` is at least `(want_major, want_minor)`.
pub open spec fn spec_at_least(major: u32, minor: u32, want_major: u32, want_minor: u32) -> bool {
    major > want_major || (major == want_major && minor >= want_minor)
}

impl GlVersion {
    fn at_least(self, want_major: u32, want_minor: u32) -> (at_least: bool)
        ensures
            at_least == spec_at_least(self.major, self.minor, want_major, want_minor),
    {
        self.major > want_major || (self.major == want_major && self.minor >= want_minor)
    }

    /// The shader dialect for this context.
    pub fn text_shader_variant(self) -> (variant: TextShaderVariant)
        ensures
            variant == if self.is_embedded {
                TextShaderVariant::Gles2
            } else if self.major >= 3 {
                TextShaderVariant::Gl130
            } else {
                TextShaderVariant::Gl120
            },
    {
        if self.is_embedded {
            TextShaderVariant::Gles2
        } else if self.major >= 3 {
            TextShaderVariant::Gl130
        } else {
            TextShaderVariant::Gl120
        }
    }

    /// Whether the context has vertex array objects (version 3 or later).
    pub fn has_vertex_array_objects(self) -> (has: bool)
        ensures
            has == (self.major >= 3),
    {
        self.major >= 3
    }

    /// Whether the pixel unpack buffer binding exists to be cleared before a
    /// texture upload: version 3, or desktop OpenGL 2.1 and later.
    pub fn has_pixel_unpack_buffer(self) -> (has: bool)
        ensures
            has == (self.major >= 3 || (!self.is_embedded && spec_at_least(self.major, self.minor, 2, 1))),
    {
        self.major >= 3 || (!self.is_embedded && self.at_least(2, 1))
    }

    /// Whether the unpack row length and skip settings exist to be reset
    /// before a texture upload: version 3, desktop OpenGL, or the
    /// `GL_EXT_unpack_subimage` extension.
    pub fn has_unpack_subimage(self, has_unpack_subimage_extension: bool) -> (has: bool)
        ensures
            has == (self.major >= 3 || has_unpack_subimage_extension || !self.is_embedded),
    {
        self.major >= 3 || has_unpack_subimage_extension || !self.is_embedded
    }

    /// Whether sampler objects exist, so that unit zero's sampler must be
    /// unbound: OpenGL ES 3 or desktop OpenGL 3.3 and later.
    pub fn has_sampler_objects(self) -> (has: bool)
        ensures
            has == ((self.is_embedded && self.major >= 3) || (!self.is_embedded && spec_at_least(
                self.major,
                self.minor,
                3,
                3,
            ))),
    {
        (self.is_embedded && self.major >= 3) || (!self.is_embedded && self.at_least(3, 3))
    }

    /// Whether attribute divisors exist and must be reset before drawing:
    /// OpenGL ES 3, desktop OpenGL 3.3, or an instanced-arrays extension
    /// (`GL_ARB_instanced_arrays`, `GL_EXT_instanced_arrays`,
    /// `GL_ANGLE_instanced_arrays`).
    pub fn supports_instanced_arrays(self, has_instanced_arrays_extension: bool) -> (supported: bool)
        ensures
            supported == ((self.is_embedded && self.major >= 3) || (!self.is_embedded
                && spec_at_least(self.major, self.minor, 3, 3)) || has_instanced_arrays_extension),
    {
        (self.is_embedded && self.major >= 3) || (!self.is_embedded && self.at_least(3, 3))
            || has_instanced_arrays_extension
    }
}

} // verus!
