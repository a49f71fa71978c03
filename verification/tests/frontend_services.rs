use libretro_core::microphone::{
    microphone_read_outcome, MicrophoneInterface, MicrophoneOpenCall, MicrophoneParams,
    MicrophoneRateHz, MicrophoneReadError,
};
use libretro_core::midi::{MidiDeltaMicros, MidiInterface};
use libretro_core::netplay::{
    NetpacketDelivery, NetpacketFlags, NetpacketSession, NetpacketTarget, NetplayClientId,
};
use libretro_core::perf::{CpuFeature, CpuFeatures, PerfTick, PerfTimeMicros};
use libretro_core::raw;
use libretro_core::sensors::{
    InputPort, LocationInterface, LocationIntervalMeters, LocationIntervalMillis, Sensor,
    SensorAction, SensorInput, SensorInterface, SensorRateHz,
};
use libretro_core::vfs::{
    nonnegative_i64, vfs_metadata_from_stat, VfsCloseStep, VfsDirectory, VfsFile, VfsFileAccess,
    VfsFileAccessFlags, VfsFileAccessHint, VfsFileAccessHints, VfsSeekPosition, VfsStatFlag,
    VfsStatFlags,
};

#[test]
fn microphone_params_preserve_frontend_default_rate() {
    assert_eq!(MicrophoneRateHz::new(16_000).get(), 16_000);
    assert_eq!(MicrophoneRateHz::frontend_default().get(), 0);
    assert_eq!(MicrophoneParams::frontend_default().rate.get(), 0);
}

#[test]
fn empty_microphone_interface_reports_unavailable() {
    let interface = MicrophoneInterface::default();

    assert_eq!(interface.version(), 0);
    assert!(!interface.is_available());
    assert!(interface.open_default().is_none());
    assert!(interface.open(MicrophoneParams::frontend_default()).is_none());
}

#[test]
fn microphone_read_error_preserves_oversized_frontend_result() {
    assert_eq!(
        MicrophoneReadError::ReturnedTooManySamples { returned: 4, capacity: 2 },
        MicrophoneReadError::ReturnedTooManySamples { returned: 4, capacity: 2 }
    );
}

#[test]
fn complete_microphone_interface_opens_with_the_given_params() {
    let interface = MicrophoneInterface {
        interface_version: raw::RETRO_MICROPHONE_INTERFACE_VERSION,
        open_mic: true,
        close_mic: true,
        get_params: true,
        set_mic_state: true,
        get_mic_state: true,
        read_mic: true,
    };
    let params = MicrophoneParams::new(MicrophoneRateHz::new(48_000));

    assert!(interface.is_available());
    assert_eq!(interface.open_default(), Some(MicrophoneOpenCall { params: None }));
    assert_eq!(interface.open(params), Some(MicrophoneOpenCall { params: Some(params) }));
    assert!(!MicrophoneInterface { read_mic: false, ..interface }.is_available());
    assert!(!MicrophoneInterface { interface_version: 0, ..interface }.is_available());
}

#[test]
fn microphone_params_round_trip_through_the_raw_structure() {
    let params = MicrophoneParams::new(MicrophoneRateHz::new(44_100));
    let raw_params = params.into_raw();

    assert_eq!(raw_params.rate, 44_100);
    assert_eq!(MicrophoneParams::from_raw(raw_params), params);
}

#[test]
fn microphone_reads_are_classified_by_the_returned_count() {
    assert_eq!(microphone_read_outcome(None, 8), Err(MicrophoneReadError::Unavailable));
    assert_eq!(microphone_read_outcome(Some(-1), 8), Err(MicrophoneReadError::Unavailable));
    assert_eq!(microphone_read_outcome(Some(8), 8), Ok(8));
    assert_eq!(microphone_read_outcome(Some(0), 8), Ok(0));
    assert_eq!(
        microphone_read_outcome(Some(4), 2),
        Err(MicrophoneReadError::ReturnedTooManySamples { returned: 4, capacity: 2 })
    );
}

#[test]
fn midi_delta_micros_preserves_raw_value() {
    assert_eq!(MidiDeltaMicros::new(240).as_micros(), 240);
}

#[test]
fn midi_interface_is_available_only_with_every_entry_point() {
    assert!(!MidiInterface::default().is_available());
    let complete = MidiInterface {
        input_enabled: true,
        output_enabled: true,
        read: true,
        write: true,
        flush: true,
    };
    assert!(complete.is_available());
    assert!(!MidiInterface { flush: false, ..complete }.is_available());
    assert_eq!(MidiDeltaMicros::from(9u32).as_micros(), 9);
}

#[test]
fn netpacket_flags_encode_valid_delivery_modes() {
    assert_eq!(NetpacketFlags::unreliable().as_raw(), 0);
    assert_eq!(
        NetpacketFlags::reliable().with_flush_hint(true).as_raw(),
        raw::RETRO_NETPACKET_RELIABLE | raw::RETRO_NETPACKET_FLUSH_HINT
    );
    assert_eq!(NetpacketFlags::unsequenced().as_raw(), raw::RETRO_NETPACKET_UNSEQUENCED);
}

#[test]
fn netpacket_target_preserves_broadcast_constant() {
    assert_eq!(NetpacketTarget::Broadcast.as_raw(), raw::RETRO_NETPACKET_BROADCAST);
    assert_eq!(NetpacketTarget::Client(NetplayClientId::new(7)).as_raw(), 7);
}

#[test]
fn netpacket_session_flushes_with_typed_targets() {
    assert!(NetpacketSession::new(NetplayClientId::host(), false, true).is_none());
    let session = NetpacketSession::new(NetplayClientId::host(), true, false)
        .expect("send callback should create session");
    assert_eq!(session.client_id(), NetplayClientId::host());
    assert!(!session.can_poll_receive());

    let call = session.flush(NetpacketTarget::Client(NetplayClientId::new(7)));
    assert_eq!(call.flags, raw::RETRO_NETPACKET_RELIABLE | raw::RETRO_NETPACKET_FLUSH_HINT);
    assert_eq!(call.len, 0);
    assert_eq!(call.client_id, 7);
}

#[test]
fn netpacket_flags_keep_delivery_and_hint() {
    let flags = NetpacketFlags::unsequenced().with_flush_hint(true);
    assert_eq!(flags.delivery(), NetpacketDelivery::Unsequenced);
    assert!(flags.flush_hint());
    assert_eq!(flags.as_raw(), 6);
    assert_eq!(flags.with_flush_hint(false).as_raw(), 2);
}

#[test]
fn cpu_features_encode_libretro_simd_bits() {
    let features = CpuFeatures::from_flag(CpuFeature::Sse2)
        .with(CpuFeature::Avx2)
        .with(CpuFeature::Neon);

    assert!(features.contains(CpuFeature::Sse2));
    assert!(features.contains(CpuFeature::Avx2));
    assert!(features.contains(CpuFeature::Neon));
    assert_eq!(
        features.bits(),
        raw::RETRO_SIMD_SSE2 | raw::RETRO_SIMD_AVX2 | raw::RETRO_SIMD_NEON
    );
}

#[test]
fn perf_time_and_tick_newtypes_preserve_raw_values() {
    assert_eq!(PerfTimeMicros::from_micros(-1).as_micros(), -1);
    assert_eq!(PerfTick::from_ticks(42).as_ticks(), 42);
}

#[test]
fn cpu_features_from_frontend_bits_drop_unknown_bits() {
    let features = CpuFeatures::from_bits_truncate(raw::RETRO_SIMD_ASIMD | (1u64 << 40));
    assert_eq!(features.bits(), raw::RETRO_SIMD_ASIMD);
    assert!(features.contains(CpuFeature::Asimd));
    assert!(!features.contains(CpuFeature::Sse));
}

#[test]
fn sensor_actions_encode_libretro_values() {
    assert_eq!(
        SensorAction::Enable(Sensor::Accelerometer).as_raw(),
        raw::retro_sensor_action::AccelerometerEnable
    );
    assert_eq!(
        SensorAction::Disable(Sensor::Illuminance).as_raw(),
        raw::retro_sensor_action::IlluminanceDisable
    );
}

#[test]
fn sensor_inputs_encode_libretro_ids() {
    assert_eq!(SensorInput::AccelerometerX.as_raw(), raw::RETRO_SENSOR_ACCELEROMETER_X);
    assert_eq!(SensorInput::Illuminance.as_raw(), raw::RETRO_SENSOR_ILLUMINANCE);
}

#[test]
fn empty_sensor_interface_reports_unavailable() {
    let sensors = SensorInterface::default();

    assert!(!sensors.is_available());
    assert!(sensors.enable(InputPort::new(0), Sensor::Accelerometer, SensorRateHz::new(60)).is_none());
}

#[test]
fn empty_location_interface_reports_unavailable() {
    let location = LocationInterface::default();

    assert!(!location.is_available());
}

#[test]
fn location_interval_newtypes_preserve_units() {
    assert_eq!(LocationIntervalMillis::new(500).as_millis(), 500);
    assert_eq!(LocationIntervalMeters::new(20).as_meters(), 20);
}

#[test]
fn sensor_interface_builds_state_calls() {
    let sensors = SensorInterface { set_sensor_state: true, get_sensor_input: true };
    assert!(sensors.is_available());

    let enable = sensors
        .enable(InputPort::from(1u32), Sensor::Gyroscope, SensorRateHz::from(60u32))
        .expect("set_sensor_state is present");
    assert_eq!(enable.port, 1);
    assert_eq!(enable.action, raw::retro_sensor_action::GyroscopeEnable);
    assert_eq!(enable.rate, 60);

    let disable = sensors.disable(InputPort::new(2), Sensor::Illuminance).expect("present");
    assert_eq!(disable.action, raw::retro_sensor_action::IlluminanceDisable);
    assert_eq!(disable.rate, 0);
    assert_eq!(disable.port, 2);
}

#[test]
fn vfs_flags_encode_libretro_values() {
    let access = VfsFileAccessFlags::from_flag(VfsFileAccess::Read)
        .with(VfsFileAccess::Write)
        .with(VfsFileAccess::UpdateExisting);
    assert_eq!(
        access.bits(),
        (raw::RETRO_VFS_FILE_ACCESS_READ_WRITE | raw::RETRO_VFS_FILE_ACCESS_UPDATE_EXISTING) as u64
    );
    assert_eq!(
        VfsFileAccessHints::from_flag(VfsFileAccessHint::FrequentAccess).bits(),
        raw::RETRO_VFS_FILE_ACCESS_HINT_FREQUENT_ACCESS as u64
    );
    assert_eq!(VfsSeekPosition::End.as_raw(), raw::RETRO_VFS_SEEK_POSITION_END);
    assert_eq!(
        VfsStatFlags::from_flag(VfsStatFlag::Valid).with(VfsStatFlag::Directory).bits(),
        (raw::RETRO_VFS_STAT_IS_VALID | raw::RETRO_VFS_STAT_IS_DIRECTORY) as u64
    );
}

#[test]
fn vfs_stat_results_become_metadata() {
    assert!(vfs_metadata_from_stat(0, 12).is_none());
    let metadata = vfs_metadata_from_stat(3 | 0x100, 12).expect("valid stat");
    assert_eq!(metadata.flags.bits(), 3);
    assert!(metadata.flags.contains(VfsStatFlag::Directory));
    assert_eq!(metadata.size, Some(12));
    assert_eq!(nonnegative_i64(-1), None);
    assert_eq!(nonnegative_i64(0), Some(0));
    assert_eq!(nonnegative_i64(7), Some(7));
}

#[test]
fn vfs_handles_ask_the_frontend_to_close_at_most_once() {
    let mut file = VfsFile { closed: false, has_close: true };
    let first = file.close();
    assert_eq!(first, VfsCloseStep::CallFrontend);
    assert!(first.succeeded(0));
    assert!(!first.succeeded(-1));
    let second = file.close();
    assert_eq!(second, VfsCloseStep::AlreadyClosed);
    assert!(second.succeeded(-1));

    let mut directory = VfsDirectory { closed: false, has_closedir: false };
    let step = directory.close();
    assert_eq!(step, VfsCloseStep::NoCloseEntryPoint);
    assert!(!step.succeeded(0));
    assert_eq!(directory.close(), VfsCloseStep::AlreadyClosed);
}

#[test]
fn distinct_sensor_actions_have_distinct_encodings() {
    let sensors = [Sensor::Accelerometer, Sensor::Gyroscope, Sensor::Illuminance];
    let mut raw_actions = Vec::new();
    for sensor in sensors {
        raw_actions.push(SensorAction::Enable(sensor).as_raw().as_raw());
        raw_actions.push(SensorAction::Disable(sensor).as_raw().as_raw());
    }
    raw_actions.sort();
    raw_actions.dedup();
    assert_eq!(raw_actions, vec![0, 1, 2, 3, 4, 5]);
}
