//! CPU-side diagnostics: the software error screen, the bitmap font, and
//! the OpenGL capabilities the text overlay relies on.

pub mod font;
pub mod frame;
pub mod gl_caps;
