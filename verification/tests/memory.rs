use libretro_core::memory::{
    memory_descriptor_raw_flags, CoreMemory, FramebufferMemoryAccess, FramebufferMemoryAccessFlags,
    FramebufferMemoryType, FramebufferMemoryTypes, MemoryDescriptorAlignment, MemoryDescriptorFlag,
    MemoryDescriptorFlags, MemoryDescriptorMinAccessSize, MemoryRegion, SavestateContext,
    SerializationQuirk, SerializationQuirks,
};
use libretro_core::raw;

#[test]
fn known_memory_regions_round_trip_to_libretro_ids() {
    let regions = [
        MemoryRegion::SaveRam,
        MemoryRegion::Rtc,
        MemoryRegion::SystemRam,
        MemoryRegion::VideoRam,
        MemoryRegion::Rom,
    ];

    for region in regions {
        assert_eq!(MemoryRegion::from_raw(region.as_raw()), region);
    }
}

#[test]
fn unknown_memory_region_preserves_original_id() {
    assert_eq!(MemoryRegion::from_raw(99), MemoryRegion::Unknown(99));
    assert_eq!(MemoryRegion::Unknown(99).as_raw(), 99);
}

#[test]
fn memory_region_masks_libretro_memory_type_bits() {
    let id_with_extra_bits = raw::RETRO_MEMORY_SAVE_RAM | 0x100;

    assert_eq!(MemoryRegion::from_raw(id_with_extra_bits), MemoryRegion::SaveRam);
}

#[test]
fn core_memory_wraps_readonly_and_readwrite_slices() {
    let readonly = [1, 2, 3];
    let readonly_memory = CoreMemory::read_only(&readonly);
    assert_eq!(readonly_memory.len(), 3);
    assert_eq!(readonly_memory.as_slice(), &[1, 2, 3]);

    let mut readwrite = [4, 5];
    let readwrite_memory = CoreMemory::read_write(&mut readwrite);
    assert_eq!(readwrite_memory.len(), 2);
    assert_eq!(readwrite_memory.as_slice(), &[4, 5]);

    let empty = CoreMemory::read_only(&[]);
    assert!(empty.is_empty());
}

#[test]
fn savestate_contexts_round_trip_to_libretro_ids() {
    let contexts = [
        SavestateContext::Normal,
        SavestateContext::RunaheadSameInstance,
        SavestateContext::RunaheadSameBinary,
        SavestateContext::RollbackNetplay,
    ];

    for context in contexts {
        assert_eq!(SavestateContext::from_raw(context.as_raw()), context);
    }
}

#[test]
fn unknown_savestate_context_preserves_original_id() {
    assert_eq!(SavestateContext::from_raw(i32::MAX), SavestateContext::Unknown(i32::MAX));
    assert_eq!(SavestateContext::Unknown(99).as_raw(), 99);
}

#[test]
fn serialization_quirks_encode_libretro_flags() {
    let quirks = SerializationQuirks::from_flag(SerializationQuirk::MustInitialize)
        .with(SerializationQuirk::PlatformDependent);

    assert!(quirks.contains(SerializationQuirk::MustInitialize));
    assert!(quirks.contains(SerializationQuirk::PlatformDependent));
    assert_eq!(
        quirks.bits(),
        raw::RETRO_SERIALIZATION_QUIRK_MUST_INITIALIZE
            | raw::RETRO_SERIALIZATION_QUIRK_PLATFORM_DEPENDENT
    );
}

#[test]
fn memory_descriptor_flags_encode_libretro_bits() {
    let flags = MemoryDescriptorFlags::from_flag(MemoryDescriptorFlag::Constant)
        .with(MemoryDescriptorFlag::BigEndian)
        .with(MemoryDescriptorFlag::SaveRam);

    assert_eq!(
        flags.bits(),
        raw::RETRO_MEMDESC_CONST | raw::RETRO_MEMDESC_BIGENDIAN | raw::RETRO_MEMDESC_SAVE_RAM
    );
}

#[test]
fn memory_descriptor_alignment_and_min_size_are_exclusive_values() {
    assert_eq!(MemoryDescriptorAlignment::TwoBytes.as_raw_flag(), raw::RETRO_MEMDESC_ALIGN_2);
    assert_eq!(MemoryDescriptorAlignment::FourBytes.as_raw_flag(), raw::RETRO_MEMDESC_ALIGN_4);
    assert_eq!(MemoryDescriptorAlignment::EightBytes.as_raw_flag(), raw::RETRO_MEMDESC_ALIGN_8);
    assert_eq!(MemoryDescriptorMinAccessSize::TwoBytes.as_raw_flag(), raw::RETRO_MEMDESC_MINSIZE_2);
    assert_eq!(MemoryDescriptorMinAccessSize::FourBytes.as_raw_flag(), raw::RETRO_MEMDESC_MINSIZE_4);
    assert_eq!(
        MemoryDescriptorMinAccessSize::EightBytes.as_raw_flag(),
        raw::RETRO_MEMDESC_MINSIZE_8
    );
}

#[test]
fn framebuffer_memory_flags_encode_libretro_bits() {
    let access = FramebufferMemoryAccessFlags::from_flag(FramebufferMemoryAccess::Read)
        .with(FramebufferMemoryAccess::Write);
    let types = FramebufferMemoryTypes::from_flag(FramebufferMemoryType::Cached);

    assert_eq!(
        access.bits(),
        (raw::RETRO_MEMORY_ACCESS_READ | raw::RETRO_MEMORY_ACCESS_WRITE) as u64
    );
    assert_eq!(types.bits(), raw::RETRO_MEMORY_TYPE_CACHED as u64);
}

#[test]
fn memory_descriptor_raw_flags_combine_flags_alignment_and_min_size() {
    let flags = MemoryDescriptorFlags::from_flag(MemoryDescriptorFlag::SystemRam);
    assert_eq!(
        memory_descriptor_raw_flags(
            flags,
            Some(MemoryDescriptorAlignment::FourBytes),
            Some(MemoryDescriptorMinAccessSize::TwoBytes)
        ),
        raw::RETRO_MEMDESC_SYSTEM_RAM | raw::RETRO_MEMDESC_ALIGN_4 | raw::RETRO_MEMDESC_MINSIZE_2
    );
    assert_eq!(memory_descriptor_raw_flags(MemoryDescriptorFlags::empty(), None, None), 0);
}

#[test]
fn unknown_flag_bits_are_dropped() {
    let quirks = SerializationQuirks::from_bits_truncate(0xffff);
    assert_eq!(quirks.bits(), 0x7f);
    assert!(quirks.contains(SerializationQuirk::SingleSession));
    assert!(SerializationQuirks::empty().is_empty());
}
