//! Core metadata, content overrides, regions, cheats and frame validation.

use crate::raw::{RETRO_API_VERSION, RETRO_REGION_NTSC, RETRO_REGION_PAL};
use crate::text::{push_str, spec_decimal, u32_to_decimal, u64_to_decimal};
use vstd::layout::{size_of, spec_size_of_val};
use vstd::prelude::*;

verus! {

/// Static metadata returned to the frontend by the core.
#[derive(Clone, Debug)]
pub struct SystemInfo {
    pub library_name: String,
    pub library_version: String,
    pub valid_extensions: Option<String>,
    pub need_fullpath: bool,
    pub block_extract: bool,
}

impl SystemInfo {
    /// Metadata with the given name and version, no extension list, and
    /// neither full paths nor blocked extraction.
    pub fn new(name: &str, version: &str) -> (info: Self)
        ensures
            info.library_name@ == name@,
            info.library_version@ == version@,
            info.valid_extensions is None,
            !info.need_fullpath,
            !info.block_extract,
    {
        SystemInfo {
            library_name: name.to_owned(),
            library_version: version.to_owned(),
            valid_extensions: None,
            need_fullpath: false,
            block_extract: false,
        }
    }
}

/// Per-extension content override registered with the frontend.
#[derive(Clone, Debug)]
pub struct ContentInfoOverride {
    pub extensions: String,
    pub need_fullpath: bool,
    pub persistent_data: bool,
}

impl ContentInfoOverride {
    /// An override for `extensions` that asks for neither a full path nor
    /// persistent data.
    pub fn new(extensions: &str) -> (info: Self)
        ensures
            info.extensions@ == extensions@,
            !info.need_fullpath,
            !info.persistent_data,
    {
        ContentInfoOverride {
            extensions: extensions.to_owned(),
            need_fullpath: false,
            persistent_data: false,
        }
    }
}

/// Video standard of the loaded content.
#[derive(Clone, Copy, Debug, PartialEq, Eq, Structural)]
pub enum Region {
    Ntsc,
    Pal,
}

impl Region {
    /// The `RETRO_REGION_*` value of this region.
    pub fn as_raw(self) -> (raw: u32)
        ensures
            raw == match self {
                Region::Ntsc => RETRO_REGION_NTSC,
                Region::Pal => RETRO_REGION_PAL,
            },
    {
        match self {
            Region::Ntsc => RETRO_REGION_NTSC,
            Region::Pal => RETRO_REGION_PAL,
        }
    }
}

/// The libretro API version this wrapper implements.
pub fn retro_api_version() -> (version: u32)
    ensures
        version == RETRO_API_VERSION,
{
    RETRO_API_VERSION
}

/// Index of a cheat slot.
#[derive(Clone, Copy, Debug, Default, PartialEq, Eq, Hash, Structural)]
pub struct CheatIndex(u32);

impl View for CheatIndex {
    type V = u32;

    closed spec fn view(&self) -> u32 {
        self.0
    }
}

impl CheatIndex {
    /// A value is determined by its view: two values are equal exactly
    /// when their views are.
    pub proof fn lemma_view_injective(a: Self, b: Self)
        ensures
            a@ == b@ <==> a == b,
    {
    }
}

impl CheatIndex {
    pub fn new(index: u32) -> (value: Self)
        ensures
            value@ == index,
    {
        CheatIndex(index)
    }

    pub fn get(self) -> (index: u32)
        ensures
            index == self@,
    {
        self.0
    }
}

/// Why a software frame was refused.
#[derive(Clone, Copy, Debug, PartialEq, Eq, Structural)]
pub enum FrameBufferError {
    /// The width or the height is zero.
    ZeroDimensions { width: u32, height: u32 },
    /// The pixel type has size zero.
    ZeroSizedPixel,
    /// `width * pixel size` does not fit in `usize`.
    RowSizeOverflow { width: u32 },
    /// A row of the pitch is shorter than a row of pixels.
    PitchTooSmall { pitch: usize, row_bytes: usize },
    /// `pitch * height` does not fit in `usize`.
    FrameSizeOverflow { height: u32 },
    /// The buffer holds fewer bytes than `pitch * height`.
    BufferTooSmall { available: usize, required: usize },
}

/// The message a refused software frame is reported with.
pub open spec fn spec_frame_buffer_message(error: FrameBufferError) -> Seq<char> {
    match error {
        FrameBufferError::ZeroDimensions { width, height } =>
            "software frame dimensions must be non-zero, got "@ + spec_decimal(width as nat) + "x"@
            + spec_decimal(height as nat),
        FrameBufferError::ZeroSizedPixel => "software frame pixel type must not be zero-sized"@,
        FrameBufferError::RowSizeOverflow { width } =>
            "software frame row byte size overflowed for width "@ + spec_decimal(width as nat),
        FrameBufferError::PitchTooSmall { pitch, row_bytes } => "software frame pitch "@
            + spec_decimal(pitch as nat) + " is smaller than row byte size "@ + spec_decimal(
            row_bytes as nat,
        ),
        FrameBufferError::FrameSizeOverflow { height } =>
            "software frame byte size overflowed for height "@ + spec_decimal(height as nat),
        FrameBufferError::BufferTooSmall { available, required } => "software frame buffer has "@
            + spec_decimal(available as nat) + " bytes but "@ + spec_decimal(required as nat)
            + " bytes are required"@,
    }
}

impl FrameBufferError {
    /// The message this refusal is reported with.
    pub fn message(&self) -> (text: String)
        ensures
            text@ == spec_frame_buffer_message(*self),
    {
        match *self {
            FrameBufferError::ZeroDimensions { width, height } => {
                let mut text = "software frame dimensions must be non-zero, got ".to_owned();
                push_str(&mut text, u32_to_decimal(width).as_str());
                push_str(&mut text, "x");
                push_str(&mut text, u32_to_decimal(height).as_str());
                text
            },
            FrameBufferError::ZeroSizedPixel => "software frame pixel type must not be zero-sized".to_owned(),
            FrameBufferError::RowSizeOverflow { width } => {
                let mut text = "software frame row byte size overflowed for width ".to_owned();
                push_str(&mut text, u32_to_decimal(width).as_str());
                text
            },
            FrameBufferError::PitchTooSmall { pitch, row_bytes } => {
                let mut text = "software frame pitch ".to_owned();
                push_str(&mut text, u64_to_decimal(pitch as u64).as_str());
                push_str(&mut text, " is smaller than row byte size ");
                push_str(&mut text, u64_to_decimal(row_bytes as u64).as_str());
                text
            },
            FrameBufferError::FrameSizeOverflow { height } => {
                let mut text = "software frame byte size overflowed for height ".to_owned();
                push_str(&mut text, u32_to_decimal(height).as_str());
                text
            },
            FrameBufferError::BufferTooSmall { available, required } => {
                let mut text = "software frame buffer has ".to_owned();
                push_str(&mut text, u64_to_decimal(available as u64).as_str());
                push_str(&mut text, " bytes but ");
                push_str(&mut text, u64_to_decimal(required as u64).as_str());
                push_str(&mut text, " bytes are required");
                text
            },
        }
    }
}

/// The verdict on a software frame of `available` bytes whose pixels have
/// `pixel_size` bytes each.
pub open spec fn spec_validate_frame(
    available: nat,
    pixel_size: nat,
    width: u32,
    height: u32,
    pitch: usize,
) -> Result<(), FrameBufferError> {
    if width == 0 || height == 0 {
        Err(FrameBufferError::ZeroDimensions { width, height })
    } else if pixel_size == 0 {
        Err(FrameBufferError::ZeroSizedPixel)
    } else if width * pixel_size > usize::MAX {
        Err(FrameBufferError::RowSizeOverflow { width })
    } else if pitch < width * pixel_size {
        Err(FrameBufferError::PitchTooSmall { pitch, row_bytes: (width * pixel_size) as usize })
    } else if pitch * height > usize::MAX {
        Err(FrameBufferError::FrameSizeOverflow { height })
    } else if available < pitch * height {
        Err(
            FrameBufferError::BufferTooSmall {
                available: available as usize,
                required: (pitch * height) as usize,
            },
        )
    } else {
        Ok(())
    }
}

/// Checks that `pixels` can back a `width` x `height` frame whose rows are
/// `pitch` bytes apart.
pub fn validate_software_frame_buffer<T>(pixels: &[T], width: u32, height: u32, pitch: usize) -> (verdict:
    Result<(), FrameBufferError>)
    ensures
        verdict == spec_validate_frame(
            spec_size_of_val::<[T]>(pixels),
            size_of::<T>(),
            width,
            height,
            pitch,
        ),
{
    if width == 0 || height == 0 {
        return Err(FrameBufferError::ZeroDimensions { width, height });
    }
    let pixel_size = core::mem::size_of::<T>();
    if pixel_size == 0 {
        return Err(FrameBufferError::ZeroSizedPixel);
    }
    let row_bytes = match (width as usize).checked_mul(pixel_size) {
        Some(bytes) => bytes,
        None => {
            return Err(FrameBufferError::RowSizeOverflow { width });
        },
    };
    if pitch < row_bytes {
        return Err(FrameBufferError::PitchTooSmall { pitch, row_bytes });
    }
    let required = match pitch.checked_mul(height as usize) {
        Some(bytes) => bytes,
        None => {
            return Err(FrameBufferError::FrameSizeOverflow { height });
        },
    };
    let available = core::mem::size_of_val(pixels);
    if available < required {
        return Err(FrameBufferError::BufferTooSmall { available, required });
    }
    Ok(())
}

} // verus!
