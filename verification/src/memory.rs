//! Memory regions, savestate contexts, memory-map descriptor values and
//! software framebuffer requests.

use crate::flags::{BitFlags, FlagBit};
use crate::raw::{
    RETRO_MEMDESC_ALIGN_2, RETRO_MEMDESC_ALIGN_4, RETRO_MEMDESC_ALIGN_8, RETRO_MEMDESC_BIGENDIAN,
    RETRO_MEMDESC_CONST, RETRO_MEMDESC_MINSIZE_2, RETRO_MEMDESC_MINSIZE_4,
    RETRO_MEMDESC_MINSIZE_8, RETRO_MEMDESC_SAVE_RAM, RETRO_MEMDESC_SYSTEM_RAM,
    RETRO_MEMDESC_VIDEO_RAM, RETRO_MEMORY_ACCESS_READ, RETRO_MEMORY_ACCESS_WRITE,
    RETRO_MEMORY_MASK, RETRO_MEMORY_ROM, RETRO_MEMORY_RTC, RETRO_MEMORY_SAVE_RAM,
    RETRO_MEMORY_SYSTEM_RAM, RETRO_MEMORY_TYPE_CACHED, RETRO_MEMORY_VIDEO_RAM,
    RETRO_SERIALIZATION_QUIRK_CORE_VARIABLE_SIZE, RETRO_SERIALIZATION_QUIRK_ENDIAN_DEPENDENT,
    RETRO_SERIALIZATION_QUIRK_FRONT_VARIABLE_SIZE, RETRO_SERIALIZATION_QUIRK_INCOMPLETE,
    RETRO_SERIALIZATION_QUIRK_MUST_INITIALIZE, RETRO_SERIALIZATION_QUIRK_PLATFORM_DEPENDENT,
    RETRO_SERIALIZATION_QUIRK_SINGLE_SESSION,
};
use vstd::prelude::*;

verus! {

/// CPU access a core requests on a frontend software framebuffer.
#[derive(Clone, Copy, Debug, PartialEq, Eq, Hash, Structural)]
pub enum FramebufferMemoryAccess {
    Write,
    Read,
}

impl FlagBit for FramebufferMemoryAccess {
    open spec fn spec_bit(self) -> u64 {
        match self {
            FramebufferMemoryAccess::Write => RETRO_MEMORY_ACCESS_WRITE as u64,
            FramebufferMemoryAccess::Read => RETRO_MEMORY_ACCESS_READ as u64,
        }
    }

    open spec fn spec_all_bits() -> u64 {
        3
    }

    fn bit(self) -> (b: u64) {
        match self {
            FramebufferMemoryAccess::Write => RETRO_MEMORY_ACCESS_WRITE as u64,
            FramebufferMemoryAccess::Read => RETRO_MEMORY_ACCESS_READ as u64,
        }
    }

    fn all_bits() -> (m: u64) {
        3
    }
}

pub type FramebufferMemoryAccessFlags = BitFlags<FramebufferMemoryAccess>;

/// Memory kinds of a frontend software framebuffer.
#[derive(Clone, Copy, Debug, PartialEq, Eq, Hash, Structural)]
pub enum FramebufferMemoryType {
    Cached,
}

impl FlagBit for FramebufferMemoryType {
    open spec fn spec_bit(self) -> u64 {
        RETRO_MEMORY_TYPE_CACHED as u64
    }

    open spec fn spec_all_bits() -> u64 {
        1
    }

    fn bit(self) -> (b: u64) {
        RETRO_MEMORY_TYPE_CACHED as u64
    }

    fn all_bits() -> (m: u64) {
        1
    }
}

pub type FramebufferMemoryTypes = BitFlags<FramebufferMemoryType>;

/// Memory descriptor attribute flags (`RETRO_MEMDESC_*`).
#[derive(Clone, Copy, Debug, PartialEq, Eq, Hash, Structural)]
pub enum MemoryDescriptorFlag {
    Constant,
    BigEndian,
    SystemRam,
    SaveRam,
    VideoRam,
}

impl FlagBit for MemoryDescriptorFlag {
    open spec fn spec_bit(self) -> u64 {
        match self {
            MemoryDescriptorFlag::Constant => RETRO_MEMDESC_CONST,
            MemoryDescriptorFlag::BigEndian => RETRO_MEMDESC_BIGENDIAN,
            MemoryDescriptorFlag::SystemRam => RETRO_MEMDESC_SYSTEM_RAM,
            MemoryDescriptorFlag::SaveRam => RETRO_MEMDESC_SAVE_RAM,
            MemoryDescriptorFlag::VideoRam => RETRO_MEMDESC_VIDEO_RAM,
        }
    }

    open spec fn spec_all_bits() -> u64 {
        0x1f
    }

    fn bit(self) -> (b: u64) {
        match self {
            MemoryDescriptorFlag::Constant => RETRO_MEMDESC_CONST,
            MemoryDescriptorFlag::BigEndian => RETRO_MEMDESC_BIGENDIAN,
            MemoryDescriptorFlag::SystemRam => RETRO_MEMDESC_SYSTEM_RAM,
            MemoryDescriptorFlag::SaveRam => RETRO_MEMDESC_SAVE_RAM,
            MemoryDescriptorFlag::VideoRam => RETRO_MEMDESC_VIDEO_RAM,
        }
    }

    fn all_bits() -> (m: u64) {
        0x1f
    }
}

pub type MemoryDescriptorFlags = BitFlags<MemoryDescriptorFlag>;

/// Alignment of a memory descriptor; the ABI encodes it as a value, not a set.
#[derive(Clone, Copy, Debug, PartialEq, Eq, Hash, Structural)]
pub enum MemoryDescriptorAlignment {
    TwoBytes,
    FourBytes,
    EightBytes,
}

impl MemoryDescriptorAlignment {
    pub open spec fn spec_as_raw_flag(self) -> u64 {
        match self {
            MemoryDescriptorAlignment::TwoBytes => RETRO_MEMDESC_ALIGN_2,
            MemoryDescriptorAlignment::FourBytes => RETRO_MEMDESC_ALIGN_4,
            MemoryDescriptorAlignment::EightBytes => RETRO_MEMDESC_ALIGN_8,
        }
    }

    /// The `RETRO_MEMDESC_ALIGN_*` value of this alignment.
    pub fn as_raw_flag(self) -> (flag: u64)
        ensures
            flag == self.spec_as_raw_flag(),
    {
        match self {
            MemoryDescriptorAlignment::TwoBytes => RETRO_MEMDESC_ALIGN_2,
            MemoryDescriptorAlignment::FourBytes => RETRO_MEMDESC_ALIGN_4,
            MemoryDescriptorAlignment::EightBytes => RETRO_MEMDESC_ALIGN_8,
        }
    }
}

/// Minimum access size of a memory descriptor; encoded as a value.
#[derive(Clone, Copy, Debug, PartialEq, Eq, Hash, Structural)]
pub enum MemoryDescriptorMinAccessSize {
    TwoBytes,
    FourBytes,
    EightBytes,
}

impl MemoryDescriptorMinAccessSize {
    pub open spec fn spec_as_raw_flag(self) -> u64 {
        match self {
            MemoryDescriptorMinAccessSize::TwoBytes => RETRO_MEMDESC_MINSIZE_2,
            MemoryDescriptorMinAccessSize::FourBytes => RETRO_MEMDESC_MINSIZE_4,
            MemoryDescriptorMinAccessSize::EightBytes => RETRO_MEMDESC_MINSIZE_8,
        }
    }

    /// The `RETRO_MEMDESC_MINSIZE_*` value of this access size.
    pub fn as_raw_flag(self) -> (flag: u64)
        ensures
            flag == self.spec_as_raw_flag(),
    {
        match self {
            MemoryDescriptorMinAccessSize::TwoBytes => RETRO_MEMDESC_MINSIZE_2,
            MemoryDescriptorMinAccessSize::FourBytes => RETRO_MEMDESC_MINSIZE_4,
            MemoryDescriptorMinAccessSize::EightBytes => RETRO_MEMDESC_MINSIZE_8,
        }
    }
}

/// The raw `flags` word of a memory descriptor: its attribute flags, its
/// alignment value and its minimum access size value, or-ed together.
pub open spec fn spec_memory_descriptor_raw_flags(
    flags: MemoryDescriptorFlags,
    alignment: Option<MemoryDescriptorAlignment>,
    min_access_size: Option<MemoryDescriptorMinAccessSize>,
) -> u64 {
    let align = match alignment {
        Some(a) => a.spec_as_raw_flag(),
        None => 0u64,
    };
    let size = match min_access_size {
        Some(s) => s.spec_as_raw_flag(),
        None => 0u64,
    };
    flags.spec_bits() | align | size
}

/// Computes the raw `flags` word of a memory descriptor.
pub fn memory_descriptor_raw_flags(
    flags: MemoryDescriptorFlags,
    alignment: Option<MemoryDescriptorAlignment>,
    min_access_size: Option<MemoryDescriptorMinAccessSize>,
) -> (raw: u64)
    ensures
        raw == spec_memory_descriptor_raw_flags(flags, alignment, min_access_size),
{
    let align = match alignment {
        Some(a) => a.as_raw_flag(),
        None => 0,
    };
    let size = match min_access_size {
        Some(s) => s.as_raw_flag(),
        None => 0,
    };
    flags.bits() | align | size
}

/// Savestate quirks a core reports (`RETRO_SERIALIZATION_QUIRK_*`).
#[derive(Clone, Copy, Debug, PartialEq, Eq, Hash, Structural)]
pub enum SerializationQuirk {
    Incomplete,
    MustInitialize,
    CoreVariableSize,
    FrontendVariableSize,
    SingleSession,
    EndianDependent,
    PlatformDependent,
}

impl FlagBit for SerializationQuirk {
    open spec fn spec_bit(self) -> u64 {
        match self {
            SerializationQuirk::Incomplete => RETRO_SERIALIZATION_QUIRK_INCOMPLETE,
            SerializationQuirk::MustInitialize => RETRO_SERIALIZATION_QUIRK_MUST_INITIALIZE,
            SerializationQuirk::CoreVariableSize => RETRO_SERIALIZATION_QUIRK_CORE_VARIABLE_SIZE,
            SerializationQuirk::FrontendVariableSize =>
                RETRO_SERIALIZATION_QUIRK_FRONT_VARIABLE_SIZE,
            SerializationQuirk::SingleSession => RETRO_SERIALIZATION_QUIRK_SINGLE_SESSION,
            SerializationQuirk::EndianDependent => RETRO_SERIALIZATION_QUIRK_ENDIAN_DEPENDENT,
            SerializationQuirk::PlatformDependent => RETRO_SERIALIZATION_QUIRK_PLATFORM_DEPENDENT,
        }
    }

    open spec fn spec_all_bits() -> u64 {
        0x7f
    }

    fn bit(self) -> (b: u64) {
        match self {
            SerializationQuirk::Incomplete => RETRO_SERIALIZATION_QUIRK_INCOMPLETE,
            SerializationQuirk::MustInitialize => RETRO_SERIALIZATION_QUIRK_MUST_INITIALIZE,
            SerializationQuirk::CoreVariableSize => RETRO_SERIALIZATION_QUIRK_CORE_VARIABLE_SIZE,
            SerializationQuirk::FrontendVariableSize =>
                RETRO_SERIALIZATION_QUIRK_FRONT_VARIABLE_SIZE,
            SerializationQuirk::SingleSession => RETRO_SERIALIZATION_QUIRK_SINGLE_SESSION,
            SerializationQuirk::EndianDependent => RETRO_SERIALIZATION_QUIRK_ENDIAN_DEPENDENT,
            SerializationQuirk::PlatformDependent => RETRO_SERIALIZATION_QUIRK_PLATFORM_DEPENDENT,
        }
    }

    fn all_bits() -> (m: u64) {
        0x7f
    }
}

pub type SerializationQuirks = BitFlags<SerializationQuirk>;

/// A request for a frontend-owned software framebuffer.
#[derive(Clone, Copy)]
pub struct SoftwareFramebufferRequest {
    pub width: u32,
    pub height: u32,
    pub access: FramebufferMemoryAccessFlags,
}

impl SoftwareFramebufferRequest {
    /// A request for write access to a `width` x `height` framebuffer.
    pub fn new(width: u32, height: u32) -> (request: Self)
        ensures
            request.width == width,
            request.height == height,
            request.access.spec_bits() == RETRO_MEMORY_ACCESS_WRITE,
    {
        SoftwareFramebufferRequest {
            width,
            height,
            access: BitFlags::from_flag(FramebufferMemoryAccess::Write),
        }
    }

    /// This request with the access flags replaced.
    pub fn with_access(self, access: FramebufferMemoryAccessFlags) -> (request: Self)
        ensures
            request.width == self.width,
            request.height == self.height,
            request.access.spec_bits() == access.spec_bits(),
    {
        SoftwareFramebufferRequest { access, ..self }
    }
}

/// Offset of a mapped block inside the host buffer.
#[derive(Clone, Copy, Debug, Default, PartialEq, Eq, Hash, Structural)]
pub struct MemoryMapOffset(usize);

impl View for MemoryMapOffset {
    type V = usize;

    closed spec fn view(&self) -> usize {
        self.0
    }
}

impl MemoryMapOffset {
    /// A value is determined by its view: two values are equal exactly
    /// when their views are.
    pub proof fn lemma_view_injective(a: Self, b: Self)
        ensures
            a@ == b@ <==> a == b,
    {
    }
}

impl MemoryMapOffset {
    pub fn new(offset: usize) -> (value: Self)
        ensures
            value@ == offset,
    {
        MemoryMapOffset(offset)
    }

    pub fn as_usize(self) -> (offset: usize)
        ensures
            offset == self@,
    {
        self.0
    }
}

/// Address in the emulated system's address space.
#[derive(Clone, Copy, Debug, Default, PartialEq, Eq, Hash, Structural)]
pub struct EmulatedAddress(usize);

impl View for EmulatedAddress {
    type V = usize;

    closed spec fn view(&self) -> usize {
        self.0
    }
}

impl EmulatedAddress {
    /// A value is determined by its view: two values are equal exactly
    /// when their views are.
    pub proof fn lemma_view_injective(a: Self, b: Self)
        ensures
            a@ == b@ <==> a == b,
    {
    }
}

impl EmulatedAddress {
    pub fn new(address: usize) -> (value: Self)
        ensures
            value@ == address,
    {
        EmulatedAddress(address)
    }

    pub fn as_usize(self) -> (address: usize)
        ensures
            address == self@,
    {
        self.0
    }
}

/// Address mask of a memory descriptor (`select` or `disconnect`).
#[derive(Clone, Copy, Debug, Default, PartialEq, Eq, Hash, Structural)]
pub struct MemoryMapMask(usize);

impl View for MemoryMapMask {
    type V = usize;

    closed spec fn view(&self) -> usize {
        self.0
    }
}

impl MemoryMapMask {
    /// A value is determined by its view: two values are equal exactly
    /// when their views are.
    pub proof fn lemma_view_injective(a: Self, b: Self)
        ensures
            a@ == b@ <==> a == b,
    {
    }
}

impl MemoryMapMask {
    pub fn new(mask: usize) -> (value: Self)
        ensures
            value@ == mask,
    {
        MemoryMapMask(mask)
    }

    /// The empty mask.
    pub fn zero() -> (value: Self)
        ensures
            value@ == 0,
    {
        MemoryMapMask(0)
    }

    pub fn as_usize(self) -> (mask: usize)
        ensures
            mask == self@,
    {
        self.0
    }
}

/// Length of a mapped block.
#[derive(Clone, Copy, Debug, Default, PartialEq, Eq, Hash, Structural)]
pub struct MemoryMapLen(usize);

impl View for MemoryMapLen {
    type V = usize;

    closed spec fn view(&self) -> usize {
        self.0
    }
}

impl MemoryMapLen {
    /// A value is determined by its view: two values are equal exactly
    /// when their views are.
    pub proof fn lemma_view_injective(a: Self, b: Self)
        ensures
            a@ == b@ <==> a == b,
    {
    }
}

impl MemoryMapLen {
    pub fn new(len: usize) -> (value: Self)
        ensures
            value@ == len,
    {
        MemoryMapLen(len)
    }

    pub fn as_usize(self) -> (len: usize)
        ensures
            len == self@,
    {
        self.0
    }
}

/// Why a savestate is being made or loaded.
#[derive(Clone, Copy, Debug, PartialEq, Eq, Hash, Structural)]
pub enum SavestateContext {
    Normal,
    RunaheadSameInstance,
    RunaheadSameBinary,
    RollbackNetplay,
    Unknown(i32),
}

impl Default for SavestateContext {
    fn default() -> (context: Self)
        ensures
            context == SavestateContext::Normal,
    {
        SavestateContext::Normal
    }
}

impl SavestateContext {
    pub open spec fn spec_from_raw(context: i32) -> SavestateContext {
        if context == 0 {
            SavestateContext::Normal
        } else if context == 1 {
            SavestateContext::RunaheadSameInstance
        } else if context == 2 {
            SavestateContext::RunaheadSameBinary
        } else if context == 3 {
            SavestateContext::RollbackNetplay
        } else {
            SavestateContext::Unknown(context)
        }
    }

    pub open spec fn spec_as_raw(self) -> i32 {
        match self {
            SavestateContext::Normal => 0,
            SavestateContext::RunaheadSameInstance => 1,
            SavestateContext::RunaheadSameBinary => 2,
            SavestateContext::RollbackNetplay => 3,
            SavestateContext::Unknown(context) => context,
        }
    }

    /// Whether this value is the one `from_raw` gives for its own raw id
    /// (an `Unknown` never carries a known id).
    pub open spec fn is_canonical(self) -> bool {
        match self {
            SavestateContext::Unknown(context) => !(0 <= context <= 3),
            _ => true,
        }
    }

    /// Decodes a frontend savestate context id; unknown ids are kept.
    pub fn from_raw(context: i32) -> (value: SavestateContext)
        ensures
            value == Self::spec_from_raw(context),
    {
        match context {
            0 => SavestateContext::Normal,
            1 => SavestateContext::RunaheadSameInstance,
            2 => SavestateContext::RunaheadSameBinary,
            3 => SavestateContext::RollbackNetplay,
            other => SavestateContext::Unknown(other),
        }
    }

    /// The frontend id of this context.
    pub fn as_raw(self) -> (context: i32)
        ensures
            context == self.spec_as_raw(),
    {
        match self {
            SavestateContext::Normal => 0,
            SavestateContext::RunaheadSameInstance => 1,
            SavestateContext::RunaheadSameBinary => 2,
            SavestateContext::RollbackNetplay => 3,
            SavestateContext::Unknown(context) => context,
        }
    }
}

/// Decoding a raw savestate context and encoding it again gives back the
/// raw id, for every id.
pub proof fn lemma_savestate_context_raw_round_trip(context: i32)
    ensures
        SavestateContext::spec_from_raw(context).spec_as_raw() == context,
        SavestateContext::spec_from_raw(context).is_canonical(),
{
}

/// Encoding a savestate context and decoding it again gives back the same
/// context, for every canonical context.
pub proof fn lemma_savestate_context_value_round_trip(value: SavestateContext)
    requires
        value.is_canonical(),
    ensures
        SavestateContext::spec_from_raw(value.spec_as_raw()) == value,
{
}

/// Memory region identifiers understood by `retro_get_memory_*`.
#[derive(Clone, Copy, Debug, PartialEq, Eq, Hash, Structural)]
pub enum MemoryRegion {
    SaveRam,
    Rtc,
    SystemRam,
    VideoRam,
    Rom,
    Unknown(u32),
}

impl MemoryRegion {
    /// The region named by the low type byte of a memory id.
    pub open spec fn spec_from_raw(id: u32) -> MemoryRegion {
        let kind = id & 0xff;
        if kind == RETRO_MEMORY_SAVE_RAM {
            MemoryRegion::SaveRam
        } else if kind == RETRO_MEMORY_RTC {
            MemoryRegion::Rtc
        } else if kind == RETRO_MEMORY_SYSTEM_RAM {
            MemoryRegion::SystemRam
        } else if kind == RETRO_MEMORY_VIDEO_RAM {
            MemoryRegion::VideoRam
        } else if kind == RETRO_MEMORY_ROM {
            MemoryRegion::Rom
        } else {
            MemoryRegion::Unknown(id)
        }
    }

    pub open spec fn spec_as_raw(self) -> u32 {
        match self {
            MemoryRegion::SaveRam => RETRO_MEMORY_SAVE_RAM,
            MemoryRegion::Rtc => RETRO_MEMORY_RTC,
            MemoryRegion::SystemRam => RETRO_MEMORY_SYSTEM_RAM,
            MemoryRegion::VideoRam => RETRO_MEMORY_VIDEO_RAM,
            MemoryRegion::Rom => RETRO_MEMORY_ROM,
            MemoryRegion::Unknown(id) => id,
        }
    }

    /// Whether this value is the one `from_raw` gives for its own raw id
    /// (an `Unknown` never carries an id whose type byte is known).
    pub open spec fn is_canonical(self) -> bool {
        match self {
            MemoryRegion::Unknown(id) => !((id & 0xff) <= 4),
            _ => true,
        }
    }

    /// Decodes a frontend memory id; only the low type byte selects the
    /// region and an unknown id is kept whole.
    pub fn from_raw(id: u32) -> (region: MemoryRegion)
        ensures
            region == Self::spec_from_raw(id),
    {
        let kind = id & RETRO_MEMORY_MASK;
        if kind == RETRO_MEMORY_SAVE_RAM {
            MemoryRegion::SaveRam
        } else if kind == RETRO_MEMORY_RTC {
            MemoryRegion::Rtc
        } else if kind == RETRO_MEMORY_SYSTEM_RAM {
            MemoryRegion::SystemRam
        } else if kind == RETRO_MEMORY_VIDEO_RAM {
            MemoryRegion::VideoRam
        } else if kind == RETRO_MEMORY_ROM {
            MemoryRegion::Rom
        } else {
            MemoryRegion::Unknown(id)
        }
    }

    /// The frontend memory id of this region.
    pub fn as_raw(self) -> (id: u32)
        ensures
            id == self.spec_as_raw(),
    {
        match self {
            MemoryRegion::SaveRam => RETRO_MEMORY_SAVE_RAM,
            MemoryRegion::Rtc => RETRO_MEMORY_RTC,
            MemoryRegion::SystemRam => RETRO_MEMORY_SYSTEM_RAM,
            MemoryRegion::VideoRam => RETRO_MEMORY_VIDEO_RAM,
            MemoryRegion::Rom => RETRO_MEMORY_ROM,
            MemoryRegion::Unknown(id) => id,
        }
    }
}

/// Encoding a memory region and decoding it again gives back the same
/// region, for every canonical region.
pub proof fn lemma_memory_region_round_trip(region: MemoryRegion)
    requires
        region.is_canonical(),
    ensures
        MemoryRegion::spec_from_raw(region.spec_as_raw()) == region,
{
    assert(0u32 & 0xff == 0u32) by (bit_vector);
    assert(1u32 & 0xff == 1u32) by (bit_vector);
    assert(2u32 & 0xff == 2u32) by (bit_vector);
    assert(3u32 & 0xff == 3u32) by (bit_vector);
    assert(4u32 & 0xff == 4u32) by (bit_vector);
}

/// Decoding ignores every bit above the type byte: ids that share their low
/// byte name the same known region.
pub proof fn lemma_memory_region_ignores_high_bits(id: u32, extra: u32)
    requires
        (id & 0xff) <= 4,
    ensures
        MemoryRegion::spec_from_raw(id | (extra & 0xffff_ff00)) == MemoryRegion::spec_from_raw(id),
{
    assert((id | (extra & 0xffff_ff00)) & 0xff == id & 0xff) by (bit_vector);
}

/// Core memory exposed to the frontend through `retro_get_memory_*`.
pub enum CoreMemory<'a> {
    ReadOnly(&'a [u8]),
    ReadWrite(&'a mut [u8]),
}

impl<'a> CoreMemory<'a> {
    /// The bytes of this memory.
    pub open spec fn spec_bytes(&self) -> Seq<u8> {
        match self {
            CoreMemory::ReadOnly(data) => data@,
            CoreMemory::ReadWrite(data) => data@,
        }
    }

    pub fn read_only(data: &'a [u8]) -> (memory: Self)
        ensures
            memory is ReadOnly,
            memory.spec_bytes() == data@,
    {
        CoreMemory::ReadOnly(data)
    }

    pub fn read_write(data: &'a mut [u8]) -> (memory: Self)
        ensures
            memory is ReadWrite,
            memory.spec_bytes() == old(data)@,
    {
        CoreMemory::ReadWrite(data)
    }

    /// Number of bytes.
    pub fn len(&self) -> (len: usize)
        ensures
            len == self.spec_bytes().len(),
    {
        match self {
            CoreMemory::ReadOnly(data) => data.len(),
            CoreMemory::ReadWrite(data) => data.len(),
        }
    }

    /// Whether the memory holds no byte.
    pub fn is_empty(&self) -> (empty: bool)
        ensures
            empty == (self.spec_bytes().len() == 0),
    {
        self.len() == 0
    }

    /// The bytes of this memory, read-only.
    pub fn as_slice(&self) -> (bytes: &[u8])
        ensures
            bytes@ == self.spec_bytes(),
    {
        match self {
            CoreMemory::ReadOnly(data) => data,
            CoreMemory::ReadWrite(data) => data,
        }
    }
}

} // verus!
