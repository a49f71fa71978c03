//! Verified building blocks of a libretro core wrapper: typed values for the
//! libretro ABI, core option and subsystem builders, frontend service models,
//! hardware-render negotiation, and CPU diagnostics (bitmap font parsing and a
//! software framebuffer error screen).

pub mod raw;
pub mod flags;
pub mod memory;
pub mod text;
pub mod hw_render;
pub mod system;
pub mod events;
pub mod diagnostics;
pub mod options;
pub mod microphone;
pub mod midi;
pub mod netplay;
pub mod perf;
pub mod sensors;
pub mod subsystem;
pub mod vfs;
