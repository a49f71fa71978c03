use libretro_core::options::{
    ensure_values_fit, legacy_definition_value, CoreOptionCategory, CoreOptionDefinition,
    CoreOptionDisplay, CoreOptionValue, CoreOptions, CoreOptionsBuildError, CoreOptionsInterface,
    CoreOptionsVersion,
    VariableDefinition,
};
use libretro_core::raw::RETRO_NUM_CORE_OPTION_VALUES_MAX;
use libretro_core::subsystem::{
    SubsystemId, SubsystemInfo, SubsystemMemoryInfo, SubsystemMemoryType, SubsystemRomInfo,
};
use libretro_core::system::{
    retro_api_version, validate_software_frame_buffer, CheatIndex, ContentInfoOverride,
    FrameBufferError, Region, SystemInfo,
};
use libretro_core::text::sanitize_cstring_bytes;

#[test]
fn legacy_options_put_default_value_first() {
    let options = CoreOptions::new(vec![CoreOptionDefinition::new("demo_speed", "Speed", "normal")
        .with_values(vec![
            CoreOptionValue::new("slow"),
            CoreOptionValue::new("normal"),
            CoreOptionValue::new("fast"),
        ])]);

    assert!(ensure_values_fit(&options.definitions[0]).is_ok());
    assert_eq!(legacy_definition_value(&options.definitions[0]), "Speed; normal|slow|fast");
}

#[test]
fn legacy_options_keep_order_without_a_listed_default() {
    let definition = CoreOptionDefinition::new("demo_mode", "Mode", "auto")
        .with_value(CoreOptionValue::new("a"))
        .with_value(CoreOptionValue::new("b"));
    assert_eq!(legacy_definition_value(&definition), "Mode; a|b");

    let empty = CoreOptionDefinition::new("demo_empty", "Empty", "x");
    assert_eq!(legacy_definition_value(&empty), "Empty; ");

    let repeated = CoreOptionDefinition::new("demo_rep", "Rep", "on").with_values(vec![
        CoreOptionValue::new("off"),
        CoreOptionValue::new("on"),
        CoreOptionValue::new("on"),
    ]);
    assert_eq!(legacy_definition_value(&repeated), "Rep; on|off");
}

#[test]
fn v2_options_retain_categories_and_labels() {
    let options = CoreOptions::new(vec![CoreOptionDefinition::new("demo_renderer", "Renderer", "gl")
        .with_category("video")
        .with_categorized_description("API")
        .with_info("Selects the renderer")
        .with_categorized_info("Rendering API")
        .with_values(vec![
            CoreOptionValue::new("gl").with_label("OpenGL"),
            CoreOptionValue::new("soft").with_label("Software"),
        ])])
    .with_categories(vec![CoreOptionCategory::new("video", "Video").with_info("Video settings")]);

    assert_eq!(options.categories[0].description, "Video");
    assert_eq!(options.categories[0].info.as_deref(), Some("Video settings"));
    let definition = &options.definitions[0];
    assert_eq!(definition.values[0].label.as_deref(), Some("OpenGL"));
    assert_eq!(definition.category_key.as_deref(), Some("video"));
    assert_eq!(definition.description_categorized.as_deref(), Some("API"));
    assert_eq!(definition.info_categorized.as_deref(), Some("Rendering API"));
    assert_eq!(definition.default_value, "gl");
}

#[test]
fn option_tables_refuse_too_many_values() {
    let values = (0..=RETRO_NUM_CORE_OPTION_VALUES_MAX)
        .map(|i| CoreOptionValue::new(&i.to_string()))
        .collect::<Vec<_>>();
    let too_many = CoreOptionDefinition::new("k", "d", "0").with_values(values);
    assert_eq!(
        ensure_values_fit(&too_many),
        Err(CoreOptionsBuildError::TooManyValues { max: RETRO_NUM_CORE_OPTION_VALUES_MAX })
    );
    let mut fitting = too_many.clone();
    fitting.values.pop();
    assert_eq!(ensure_values_fit(&fitting), Ok(()));
}

#[test]
fn core_options_versions_gate_interfaces() {
    assert!(!CoreOptionsVersion::new(0).supports_v1());
    assert!(CoreOptionsVersion::new(1).supports_v1());
    assert!(!CoreOptionsVersion::new(1).supports_v2());
    assert!(CoreOptionsVersion::new(2).supports_v2());
    assert_eq!(CoreOptionsVersion::new(3).get(), 3);
    let variable = VariableDefinition::new("key", "Desc; a|b");
    assert_eq!(variable.key, "key");
    assert_eq!(variable.value, "Desc; a|b");
    let display = CoreOptionDisplay::new("key", false);
    assert_eq!(display.key, "key");
    assert!(!display.visible);
}

#[test]
fn subsystem_descriptions_keep_nested_roms_and_memory() {
    let subsystem = SubsystemInfo::new("Super Game Boy", "sgb", SubsystemId::new(7)).with_roms(vec![
        SubsystemRomInfo::new("Game Boy ROM", "gb|gbc").with_memory(vec![
            SubsystemMemoryInfo::new("sav", SubsystemMemoryType::new(0x101)),
            SubsystemMemoryInfo::new("rtc", SubsystemMemoryType::from(0x102u32)),
        ]),
        SubsystemRomInfo::new("BIOS", "bin")
            .with_need_fullpath(true)
            .with_block_extract(true)
            .with_required(false),
    ]);

    assert_eq!(subsystem.id.as_raw(), 7);
    assert_eq!(subsystem.description, "Super Game Boy");
    assert_eq!(subsystem.identifier, "sgb");
    assert_eq!(subsystem.roms.len(), 2);
    assert_eq!(subsystem.roms[0].memory.len(), 2);
    assert_eq!(subsystem.roms[0].memory[0].extension, "sav");
    assert_eq!(subsystem.roms[0].memory[1].memory_type.as_raw(), 0x102);
    assert!(subsystem.roms[0].required);
    assert!(subsystem.roms[1].need_fullpath);
    assert!(subsystem.roms[1].block_extract);
    assert!(!subsystem.roms[1].required);
    assert!(subsystem.roms[1].memory.is_empty());
}

#[test]
fn system_metadata_and_cheats() {
    let info = SystemInfo::new("Demo", "1.0");
    assert_eq!(info.library_name, "Demo");
    assert_eq!(info.library_version, "1.0");
    assert!(info.valid_extensions.is_none());
    assert!(!info.need_fullpath && !info.block_extract);
    let content = ContentInfoOverride::new("bin|rom");
    assert_eq!(content.extensions, "bin|rom");
    assert!(!content.need_fullpath && !content.persistent_data);
    assert_eq!(Region::Ntsc.as_raw(), 0);
    assert_eq!(Region::Pal.as_raw(), 1);
    assert_eq!(retro_api_version(), 1);
    assert_eq!(CheatIndex::new(3).get(), 3);
}

#[test]
fn software_frames_are_validated_against_pitch_and_height() {
    let pixels = vec![0u32; 320 * 240];
    assert_eq!(validate_software_frame_buffer(&pixels, 320, 240, 320 * 4), Ok(()));

    let short = vec![0u16; (320 * 240) - 1];
    assert_eq!(
        validate_software_frame_buffer(&short, 320, 240, 320 * 2),
        Err(FrameBufferError::BufferTooSmall { available: (320 * 240 - 1) * 2, required: 320 * 2 * 240 })
    );

    let small = vec![0u32; 4];
    assert_eq!(
        validate_software_frame_buffer(&small, 2, 2, 4),
        Err(FrameBufferError::PitchTooSmall { pitch: 4, row_bytes: 8 })
    );
    assert_eq!(
        validate_software_frame_buffer(&small, 0, 2, 4),
        Err(FrameBufferError::ZeroDimensions { width: 0, height: 2 })
    );
    let unit = vec![(); 4];
    assert_eq!(validate_software_frame_buffer(&unit, 2, 2, 4), Err(FrameBufferError::ZeroSizedPixel));
    assert_eq!(
        validate_software_frame_buffer(&small, 1, 2, usize::MAX),
        Err(FrameBufferError::FrameSizeOverflow { height: 2 })
    );
}

#[test]
fn c_string_bytes_drop_interior_nul_bytes() {
    assert_eq!(sanitize_cstring_bytes("hot\0path"), b"hotpath".to_vec());
    assert_eq!(sanitize_cstring_bytes("plain"), b"plain".to_vec());
    assert_eq!(sanitize_cstring_bytes("\0\0"), Vec::<u8>::new());
    assert_eq!(sanitize_cstring_bytes("é\0"), "é".as_bytes().to_vec());
}

#[test]
fn frame_buffer_errors_describe_themselves() {
    assert_eq!(
        FrameBufferError::ZeroDimensions { width: 0, height: 2 }.message(),
        "software frame dimensions must be non-zero, got 0x2"
    );
    assert_eq!(FrameBufferError::ZeroSizedPixel.message(), "software frame pixel type must not be zero-sized");
    assert_eq!(
        FrameBufferError::RowSizeOverflow { width: 4000000000 }.message(),
        "software frame row byte size overflowed for width 4000000000"
    );
    assert_eq!(
        FrameBufferError::PitchTooSmall { pitch: 4, row_bytes: 8 }.message(),
        "software frame pitch 4 is smaller than row byte size 8"
    );
    assert_eq!(
        FrameBufferError::FrameSizeOverflow { height: 240 }.message(),
        "software frame byte size overflowed for height 240"
    );
    let short = vec![0u16; 320 * 240 - 1];
    let error = validate_software_frame_buffer(&short, 320, 240, 320 * 2).unwrap_err();
    assert_eq!(error.message(), "software frame buffer has 153598 bytes but 153600 bytes are required");
}

#[test]
fn core_options_go_through_the_richest_interface() {
    assert_eq!(CoreOptionsVersion::from_query(false, 2).get(), 0);
    assert_eq!(CoreOptionsVersion::from_query(true, 2).get(), 2);
    assert_eq!(CoreOptionsVersion::new(0).preferred_interface(), CoreOptionsInterface::LegacyVariables);
    assert_eq!(CoreOptionsVersion::new(1).preferred_interface(), CoreOptionsInterface::V1Definitions);
    assert_eq!(CoreOptionsVersion::new(2).preferred_interface(), CoreOptionsInterface::V2Definitions);
    assert_eq!(CoreOptionsVersion::new(7).preferred_interface(), CoreOptionsInterface::V2Definitions);
    assert_eq!(
        CoreOptionsVersion::from_query(false, 5).preferred_interface(),
        CoreOptionsInterface::LegacyVariables
    );
}
