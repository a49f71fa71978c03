//! libretro ABI constants and the plain-data ABI types.
//!
//! The enums mirror the C enums of `libretro.h`; each one gives its ABI value
//! through `as_raw`.
#![allow(non_camel_case_types)]

use vstd::prelude::*;

verus! {

pub const RETRO_API_VERSION: u32 = 1;

pub const RETRO_REGION_NTSC: u32 = 0;
pub const RETRO_REGION_PAL: u32 = 1;

pub const RETRO_MEMORY_MASK: u32 = 0xff;
pub const RETRO_MEMORY_SAVE_RAM: u32 = 0;
pub const RETRO_MEMORY_RTC: u32 = 1;
pub const RETRO_MEMORY_SYSTEM_RAM: u32 = 2;
pub const RETRO_MEMORY_VIDEO_RAM: u32 = 3;
pub const RETRO_MEMORY_ROM: u32 = 4;

pub const RETRO_POWERSTATE_NO_ESTIMATE: i32 = -1;

pub const RETRO_NETPACKET_UNRELIABLE: i32 = 0;
pub const RETRO_NETPACKET_RELIABLE: i32 = 1;
pub const RETRO_NETPACKET_UNSEQUENCED: i32 = 2;
pub const RETRO_NETPACKET_FLUSH_HINT: i32 = 4;
pub const RETRO_NETPACKET_BROADCAST: u16 = 0xffff;

pub const RETRO_MICROPHONE_INTERFACE_VERSION: u32 = 1;
pub const RETRO_NUM_CORE_OPTION_VALUES_MAX: usize = 128;

pub const RETRO_SERIALIZATION_QUIRK_INCOMPLETE: u64 = 1;
pub const RETRO_SERIALIZATION_QUIRK_MUST_INITIALIZE: u64 = 2;
pub const RETRO_SERIALIZATION_QUIRK_CORE_VARIABLE_SIZE: u64 = 4;
pub const RETRO_SERIALIZATION_QUIRK_FRONT_VARIABLE_SIZE: u64 = 8;
pub const RETRO_SERIALIZATION_QUIRK_SINGLE_SESSION: u64 = 16;
pub const RETRO_SERIALIZATION_QUIRK_ENDIAN_DEPENDENT: u64 = 32;
pub const RETRO_SERIALIZATION_QUIRK_PLATFORM_DEPENDENT: u64 = 64;

pub const RETRO_MEMDESC_CONST: u64 = 1;
pub const RETRO_MEMDESC_BIGENDIAN: u64 = 2;
pub const RETRO_MEMDESC_SYSTEM_RAM: u64 = 4;
pub const RETRO_MEMDESC_SAVE_RAM: u64 = 8;
pub const RETRO_MEMDESC_VIDEO_RAM: u64 = 16;
pub const RETRO_MEMDESC_ALIGN_2: u64 = 0x1_0000;
pub const RETRO_MEMDESC_ALIGN_4: u64 = 0x2_0000;
pub const RETRO_MEMDESC_ALIGN_8: u64 = 0x3_0000;
pub const RETRO_MEMDESC_MINSIZE_2: u64 = 0x100_0000;
pub const RETRO_MEMDESC_MINSIZE_4: u64 = 0x200_0000;
pub const RETRO_MEMDESC_MINSIZE_8: u64 = 0x300_0000;

pub const RETRO_MEMORY_ACCESS_WRITE: u32 = 1;
pub const RETRO_MEMORY_ACCESS_READ: u32 = 2;
pub const RETRO_MEMORY_TYPE_CACHED: u32 = 1;

pub const RETRO_VFS_FILE_ACCESS_READ: u32 = 1;
pub const RETRO_VFS_FILE_ACCESS_WRITE: u32 = 2;
pub const RETRO_VFS_FILE_ACCESS_READ_WRITE: u32 = 3;
pub const RETRO_VFS_FILE_ACCESS_UPDATE_EXISTING: u32 = 4;
pub const RETRO_VFS_FILE_ACCESS_HINT_NONE: u32 = 0;
pub const RETRO_VFS_FILE_ACCESS_HINT_FREQUENT_ACCESS: u32 = 1;
pub const RETRO_VFS_SEEK_POSITION_START: i32 = 0;
pub const RETRO_VFS_SEEK_POSITION_CURRENT: i32 = 1;
pub const RETRO_VFS_SEEK_POSITION_END: i32 = 2;
pub const RETRO_VFS_STAT_IS_VALID: u32 = 1;
pub const RETRO_VFS_STAT_IS_DIRECTORY: u32 = 2;
pub const RETRO_VFS_STAT_IS_CHARACTER_SPECIAL: u32 = 4;

pub const RETRO_SENSOR_ACCELEROMETER_X: u32 = 0;
pub const RETRO_SENSOR_ACCELEROMETER_Y: u32 = 1;
pub const RETRO_SENSOR_ACCELEROMETER_Z: u32 = 2;
pub const RETRO_SENSOR_GYROSCOPE_X: u32 = 3;
pub const RETRO_SENSOR_GYROSCOPE_Y: u32 = 4;
pub const RETRO_SENSOR_GYROSCOPE_Z: u32 = 5;
pub const RETRO_SENSOR_ILLUMINANCE: u32 = 6;

pub const RETRO_SIMD_SSE: u64 = 0x1;
pub const RETRO_SIMD_SSE2: u64 = 0x2;
pub const RETRO_SIMD_VMX: u64 = 0x4;
pub const RETRO_SIMD_VMX128: u64 = 0x8;
pub const RETRO_SIMD_AVX: u64 = 0x10;
pub const RETRO_SIMD_NEON: u64 = 0x20;
pub const RETRO_SIMD_SSE3: u64 = 0x40;
pub const RETRO_SIMD_SSSE3: u64 = 0x80;
pub const RETRO_SIMD_MMX: u64 = 0x100;
pub const RETRO_SIMD_MMXEXT: u64 = 0x200;
pub const RETRO_SIMD_SSE4: u64 = 0x400;
pub const RETRO_SIMD_SSE42: u64 = 0x800;
pub const RETRO_SIMD_AVX2: u64 = 0x1000;
pub const RETRO_SIMD_VFPU: u64 = 0x2000;
pub const RETRO_SIMD_PS: u64 = 0x4000;
pub const RETRO_SIMD_AES: u64 = 0x8000;
pub const RETRO_SIMD_VFPV3: u64 = 0x1_0000;
pub const RETRO_SIMD_VFPV4: u64 = 0x2_0000;
pub const RETRO_SIMD_POPCNT: u64 = 0x4_0000;
pub const RETRO_SIMD_MOVBE: u64 = 0x8_0000;
pub const RETRO_SIMD_CMOV: u64 = 0x10_0000;
pub const RETRO_SIMD_ASIMD: u64 = 0x20_0000;

/// Hardware rendering context kinds (`enum retro_hw_context_type`).
#[derive(Clone, Copy, Debug, PartialEq, Eq, Structural)]
pub enum retro_hw_context_type {
    /// No hardware context (`RETRO_HW_CONTEXT_NONE`); log lines call it
    /// `None`, a name that cannot be a variant here beside `Option`'s.
    NoContext,
    OpenGl,
    OpenGlEs2,
    OpenGlCore,
    OpenGlEs3,
    OpenGlEsVersion,
    Vulkan,
    D3d11,
    D3d10,
    D3d12,
    D3d9,
}

impl retro_hw_context_type {
    pub open spec fn spec_as_raw(self) -> i32 {
        match self {
            retro_hw_context_type::NoContext => 0,
            retro_hw_context_type::OpenGl => 1,
            retro_hw_context_type::OpenGlEs2 => 2,
            retro_hw_context_type::OpenGlCore => 3,
            retro_hw_context_type::OpenGlEs3 => 4,
            retro_hw_context_type::OpenGlEsVersion => 5,
            retro_hw_context_type::Vulkan => 6,
            retro_hw_context_type::D3d11 => 7,
            retro_hw_context_type::D3d10 => 8,
            retro_hw_context_type::D3d12 => 9,
            retro_hw_context_type::D3d9 => 10,
        }
    }

    /// The ABI value of this context kind.
    pub fn as_raw(self) -> (raw: i32)
        ensures
            raw == self.spec_as_raw(),
    {
        match self {
            retro_hw_context_type::NoContext => 0,
            retro_hw_context_type::OpenGl => 1,
            retro_hw_context_type::OpenGlEs2 => 2,
            retro_hw_context_type::OpenGlCore => 3,
            retro_hw_context_type::OpenGlEs3 => 4,
            retro_hw_context_type::OpenGlEsVersion => 5,
            retro_hw_context_type::Vulkan => 6,
            retro_hw_context_type::D3d11 => 7,
            retro_hw_context_type::D3d10 => 8,
            retro_hw_context_type::D3d12 => 9,
            retro_hw_context_type::D3d9 => 10,
        }
    }

    /// Decodes an ABI value; values outside the enum are `NoContext`.
    pub fn from_raw(raw: i32) -> (context: retro_hw_context_type)
        ensures
            0 <= raw <= 10 ==> context.spec_as_raw() == raw,
            !(0 <= raw <= 10) ==> context == retro_hw_context_type::NoContext,
    {
        match raw {
            1 => retro_hw_context_type::OpenGl,
            2 => retro_hw_context_type::OpenGlEs2,
            3 => retro_hw_context_type::OpenGlCore,
            4 => retro_hw_context_type::OpenGlEs3,
            5 => retro_hw_context_type::OpenGlEsVersion,
            6 => retro_hw_context_type::Vulkan,
            7 => retro_hw_context_type::D3d11,
            8 => retro_hw_context_type::D3d10,
            9 => retro_hw_context_type::D3d12,
            10 => retro_hw_context_type::D3d9,
            _ => retro_hw_context_type::NoContext,
        }
    }
}

impl Default for retro_hw_context_type {
    fn default() -> (context: Self)
        ensures
            context == retro_hw_context_type::NoContext,
    {
        retro_hw_context_type::NoContext
    }
}

/// Hardware render interface kinds (`enum retro_hw_render_interface_type`).
#[derive(Clone, Copy, Debug, PartialEq, Eq, Structural)]
pub enum retro_hw_render_interface_type {
    Vulkan,
    D3d9,
    D3d10,
    D3d11,
    D3d12,
    GskitPs2,
}

impl retro_hw_render_interface_type {
    /// The ABI value of this interface kind.
    pub fn as_raw(self) -> (raw: i32)
        ensures
            raw == match self {
                retro_hw_render_interface_type::Vulkan => 0i32,
                retro_hw_render_interface_type::D3d9 => 1,
                retro_hw_render_interface_type::D3d10 => 2,
                retro_hw_render_interface_type::D3d11 => 3,
                retro_hw_render_interface_type::D3d12 => 4,
                retro_hw_render_interface_type::GskitPs2 => 5,
            },
    {
        match self {
            retro_hw_render_interface_type::Vulkan => 0,
            retro_hw_render_interface_type::D3d9 => 1,
            retro_hw_render_interface_type::D3d10 => 2,
            retro_hw_render_interface_type::D3d11 => 3,
            retro_hw_render_interface_type::D3d12 => 4,
            retro_hw_render_interface_type::GskitPs2 => 5,
        }
    }
}

/// Context negotiation interface kinds.
#[derive(Clone, Copy, Debug, PartialEq, Eq, Structural)]
pub enum retro_hw_render_context_negotiation_interface_type {
    Vulkan,
}

impl retro_hw_render_context_negotiation_interface_type {
    /// The ABI value of this interface kind.
    pub fn as_raw(self) -> (raw: i32)
        ensures
            raw == 0,
    {
        0
    }
}

/// Pixel formats of software frames (`enum retro_pixel_format`).
#[derive(Clone, Copy, Debug, PartialEq, Eq, Structural)]
pub enum retro_pixel_format {
    _0Rgb1555,
    Xrgb8888,
    Rgb565,
}

impl retro_pixel_format {
    /// The ABI value of this pixel format.
    pub fn as_raw(self) -> (raw: i32)
        ensures
            raw == match self {
                retro_pixel_format::_0Rgb1555 => 0i32,
                retro_pixel_format::Xrgb8888 => 1,
                retro_pixel_format::Rgb565 => 2,
            },
    {
        match self {
            retro_pixel_format::_0Rgb1555 => 0,
            retro_pixel_format::Xrgb8888 => 1,
            retro_pixel_format::Rgb565 => 2,
        }
    }
}

/// Camera buffer kinds (`enum retro_camera_buffer`).
#[derive(Clone, Copy, Debug, PartialEq, Eq, Structural)]
pub enum retro_camera_buffer {
    OpenGlTexture,
    RawFramebuffer,
}

impl retro_camera_buffer {
    /// The ABI value of this buffer kind.
    pub fn as_raw(self) -> (raw: u32)
        ensures
            raw == match self {
                retro_camera_buffer::OpenGlTexture => 0u32,
                retro_camera_buffer::RawFramebuffer => 1,
            },
    {
        match self {
            retro_camera_buffer::OpenGlTexture => 0,
            retro_camera_buffer::RawFramebuffer => 1,
        }
    }
}

/// Rumble motors (`enum retro_rumble_effect`).
#[derive(Clone, Copy, Debug, PartialEq, Eq, Structural)]
pub enum retro_rumble_effect {
    Strong,
    Weak,
}

impl retro_rumble_effect {
    /// The ABI value of this effect.
    pub fn as_raw(self) -> (raw: i32)
        ensures
            raw == match self {
                retro_rumble_effect::Strong => 0i32,
                retro_rumble_effect::Weak => 1,
            },
    {
        match self {
            retro_rumble_effect::Strong => 0,
            retro_rumble_effect::Weak => 1,
        }
    }
}

/// Sensor state changes (`enum retro_sensor_action`).
#[derive(Clone, Copy, Debug, PartialEq, Eq, Structural)]
pub enum retro_sensor_action {
    AccelerometerEnable,
    AccelerometerDisable,
    GyroscopeEnable,
    GyroscopeDisable,
    IlluminanceEnable,
    IlluminanceDisable,
}

impl retro_sensor_action {
    pub open spec fn spec_as_raw(self) -> i32 {
        match self {
            retro_sensor_action::AccelerometerEnable => 0,
            retro_sensor_action::AccelerometerDisable => 1,
            retro_sensor_action::GyroscopeEnable => 2,
            retro_sensor_action::GyroscopeDisable => 3,
            retro_sensor_action::IlluminanceEnable => 4,
            retro_sensor_action::IlluminanceDisable => 5,
        }
    }

    /// The ABI value of this action.
    pub fn as_raw(self) -> (raw: i32)
        ensures
            raw == self.spec_as_raw(),
    {
        match self {
            retro_sensor_action::AccelerometerEnable => 0,
            retro_sensor_action::AccelerometerDisable => 1,
            retro_sensor_action::GyroscopeEnable => 2,
            retro_sensor_action::GyroscopeDisable => 3,
            retro_sensor_action::IlluminanceEnable => 4,
            retro_sensor_action::IlluminanceDisable => 5,
        }
    }
}

/// Log levels (`enum retro_log_level`).
#[derive(Clone, Copy, Debug, PartialEq, Eq, Structural)]
pub enum retro_log_level {
    Debug,
    Info,
    Warn,
    Error,
}

impl retro_log_level {
    /// The ABI value of this level.
    pub fn as_raw(self) -> (raw: i32)
        ensures
            raw == match self {
                retro_log_level::Debug => 0i32,
                retro_log_level::Info => 1,
                retro_log_level::Warn => 2,
                retro_log_level::Error => 3,
            },
    {
        match self {
            retro_log_level::Debug => 0,
            retro_log_level::Info => 1,
            retro_log_level::Warn => 2,
            retro_log_level::Error => 3,
        }
    }
}

/// Message targets (`enum retro_message_target`).
#[derive(Clone, Copy, Debug, PartialEq, Eq, Structural)]
pub enum retro_message_target {
    All,
    Osd,
    Log,
}

impl retro_message_target {
    /// The ABI value of this target.
    pub fn as_raw(self) -> (raw: i32)
        ensures
            raw == match self {
                retro_message_target::All => 0i32,
                retro_message_target::Osd => 1,
                retro_message_target::Log => 2,
            },
    {
        match self {
            retro_message_target::All => 0,
            retro_message_target::Osd => 1,
            retro_message_target::Log => 2,
        }
    }
}

/// Message kinds (`enum retro_message_type`).
#[derive(Clone, Copy, Debug, PartialEq, Eq, Structural)]
pub enum retro_message_type {
    Notification,
    NotificationAlt,
    Status,
    Progress,
}

impl retro_message_type {
    /// The ABI value of this message kind.
    pub fn as_raw(self) -> (raw: i32)
        ensures
            raw == match self {
                retro_message_type::Notification => 0i32,
                retro_message_type::NotificationAlt => 1,
                retro_message_type::Status => 2,
                retro_message_type::Progress => 3,
            },
    {
        match self {
            retro_message_type::Notification => 0,
            retro_message_type::NotificationAlt => 1,
            retro_message_type::Status => 2,
            retro_message_type::Progress => 3,
        }
    }
}

/// Device power states (`enum retro_power_state`).
#[derive(Clone, Copy, Debug, PartialEq, Eq, Structural)]
pub enum retro_power_state {
    Unknown,
    Discharging,
    Charging,
    Charged,
    PluggedIn,
}

impl retro_power_state {
    pub open spec fn spec_as_raw(self) -> i32 {
        match self {
            retro_power_state::Unknown => 0,
            retro_power_state::Discharging => 1,
            retro_power_state::Charging => 2,
            retro_power_state::Charged => 3,
            retro_power_state::PluggedIn => 4,
        }
    }

    /// The ABI value of this state.
    pub fn as_raw(self) -> (raw: i32)
        ensures
            raw == self.spec_as_raw(),
    {
        match self {
            retro_power_state::Unknown => 0,
            retro_power_state::Discharging => 1,
            retro_power_state::Charging => 2,
            retro_power_state::Charged => 3,
            retro_power_state::PluggedIn => 4,
        }
    }

    /// Decodes an ABI value; values outside the enum are `Unknown`.
    pub fn from_raw(raw: i32) -> (state: retro_power_state)
        ensures
            0 <= raw <= 4 ==> state.spec_as_raw() == raw,
            !(0 <= raw <= 4) ==> state == retro_power_state::Unknown,
    {
        match raw {
            1 => retro_power_state::Discharging,
            2 => retro_power_state::Charging,
            3 => retro_power_state::Charged,
            4 => retro_power_state::PluggedIn,
            _ => retro_power_state::Unknown,
        }
    }
}

/// Savestate contexts as the ABI names them (`enum retro_savestate_context`).
#[derive(Clone, Copy, Debug, PartialEq, Eq, Structural)]
pub enum retro_savestate_context {
    Normal,
    RunaheadSameInstance,
    RunaheadSameBinary,
    RollbackNetplay,
    Unknown,
}

impl retro_savestate_context {
    /// The ABI value of this context.
    pub fn as_raw(self) -> (raw: i32)
        ensures
            raw == match self {
                retro_savestate_context::Normal => 0i32,
                retro_savestate_context::RunaheadSameInstance => 1,
                retro_savestate_context::RunaheadSameBinary => 2,
                retro_savestate_context::RollbackNetplay => 3,
                retro_savestate_context::Unknown => i32::MAX,
            },
    {
        match self {
            retro_savestate_context::Normal => 0,
            retro_savestate_context::RunaheadSameInstance => 1,
            retro_savestate_context::RunaheadSameBinary => 2,
            retro_savestate_context::RollbackNetplay => 3,
            retro_savestate_context::Unknown => i32::MAX,
        }
    }
}

/// Frontend user languages (`enum retro_language`).
#[derive(Clone, Copy, Debug, PartialEq, Eq, Structural)]
pub enum retro_language {
    English,
    Japanese,
    French,
    Spanish,
    German,
    Italian,
    Dutch,
    PortugueseBrazil,
    PortuguesePortugal,
    Russian,
    Korean,
    ChineseTraditional,
    ChineseSimplified,
    Esperanto,
    Polish,
    Vietnamese,
    Arabic,
    Greek,
    Turkish,
    Slovak,
    Persian,
    Hebrew,
    Asturian,
    Finnish,
    Indonesian,
    Swedish,
    Ukrainian,
    Czech,
    CatalanValencia,
    Catalan,
    BritishEnglish,
    Hungarian,
    Belarusian,
    Galician,
    Norwegian,
    Irish,
}

impl retro_language {
    pub open spec fn spec_as_raw(self) -> i32 {
        match self {
            retro_language::English => 0,
            retro_language::Japanese => 1,
            retro_language::French => 2,
            retro_language::Spanish => 3,
            retro_language::German => 4,
            retro_language::Italian => 5,
            retro_language::Dutch => 6,
            retro_language::PortugueseBrazil => 7,
            retro_language::PortuguesePortugal => 8,
            retro_language::Russian => 9,
            retro_language::Korean => 10,
            retro_language::ChineseTraditional => 11,
            retro_language::ChineseSimplified => 12,
            retro_language::Esperanto => 13,
            retro_language::Polish => 14,
            retro_language::Vietnamese => 15,
            retro_language::Arabic => 16,
            retro_language::Greek => 17,
            retro_language::Turkish => 18,
            retro_language::Slovak => 19,
            retro_language::Persian => 20,
            retro_language::Hebrew => 21,
            retro_language::Asturian => 22,
            retro_language::Finnish => 23,
            retro_language::Indonesian => 24,
            retro_language::Swedish => 25,
            retro_language::Ukrainian => 26,
            retro_language::Czech => 27,
            retro_language::CatalanValencia => 28,
            retro_language::Catalan => 29,
            retro_language::BritishEnglish => 30,
            retro_language::Hungarian => 31,
            retro_language::Belarusian => 32,
            retro_language::Galician => 33,
            retro_language::Norwegian => 34,
            retro_language::Irish => 35,
        }
    }

    /// The ABI value of this language.
    pub fn as_raw(self) -> (raw: i32)
        ensures
            raw == self.spec_as_raw(),
    {
        match self {
            retro_language::English => 0,
            retro_language::Japanese => 1,
            retro_language::French => 2,
            retro_language::Spanish => 3,
            retro_language::German => 4,
            retro_language::Italian => 5,
            retro_language::Dutch => 6,
            retro_language::PortugueseBrazil => 7,
            retro_language::PortuguesePortugal => 8,
            retro_language::Russian => 9,
            retro_language::Korean => 10,
            retro_language::ChineseTraditional => 11,
            retro_language::ChineseSimplified => 12,
            retro_language::Esperanto => 13,
            retro_language::Polish => 14,
            retro_language::Vietnamese => 15,
            retro_language::Arabic => 16,
            retro_language::Greek => 17,
            retro_language::Turkish => 18,
            retro_language::Slovak => 19,
            retro_language::Persian => 20,
            retro_language::Hebrew => 21,
            retro_language::Asturian => 22,
            retro_language::Finnish => 23,
            retro_language::Indonesian => 24,
            retro_language::Swedish => 25,
            retro_language::Ukrainian => 26,
            retro_language::Czech => 27,
            retro_language::CatalanValencia => 28,
            retro_language::Catalan => 29,
            retro_language::BritishEnglish => 30,
            retro_language::Hungarian => 31,
            retro_language::Belarusian => 32,
            retro_language::Galician => 33,
            retro_language::Norwegian => 34,
            retro_language::Irish => 35,
        }
    }
}

/// Battery information reported by the frontend (`struct retro_device_power`).
#[derive(Clone, Copy, Debug, PartialEq, Eq, Structural)]
pub struct retro_device_power {
    pub state: retro_power_state,
    pub seconds: i32,
    pub percent: i8,
}

impl Default for retro_device_power {
    /// Unknown state with no time or charge estimate.
    fn default() -> (power: Self)
        ensures
            power.state == retro_power_state::Unknown,
            power.seconds == RETRO_POWERSTATE_NO_ESTIMATE,
            power.percent == -1,
    {
        retro_device_power {
            state: retro_power_state::Unknown,
            seconds: RETRO_POWERSTATE_NO_ESTIMATE,
            percent: -1,
        }
    }
}

/// Microphone configuration (`struct retro_microphone_params`).
#[derive(Clone, Copy, Debug, PartialEq, Eq, Structural)]
pub struct retro_microphone_params {
    pub rate: u32,
}

/// Base hardware render interface header (`struct retro_hw_render_interface`).
#[derive(Clone, Copy, Debug, PartialEq, Eq, Structural)]
pub struct retro_hw_render_interface {
    pub interface_type: i32,
    pub interface_version: u32,
}

/// Context negotiation interface header.
#[derive(Clone, Copy, Debug, PartialEq, Eq, Structural)]
pub struct retro_hw_render_context_negotiation_interface {
    pub interface_type: i32,
    pub interface_version: u32,
}

/// Opaque frontend microphone handle.
#[derive(Debug)]
pub struct retro_microphone {
    _private: (),
}

/// Opaque frontend VFS file handle.
#[derive(Debug)]
pub struct retro_vfs_file_handle {
    _private: (),
}

/// Opaque frontend VFS directory handle.
#[derive(Debug)]
pub struct retro_vfs_dir_handle {
    _private: (),
}

} // verus!
