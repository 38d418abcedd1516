use mjolnir_backend::camera_config::{
    mono8_to_rgba, select_interface_ipv4, validate_ingest_config, validate_recording_options,
    validate_stop_conditions, AtlasATP124SResolution, DurationSign, IngestConfigError,
    InterfaceAddress, ResolveError, Resolution, StopConditionError,
};

#[test]
fn record_from_cameras_resolution_dimensions_match_expected_values() {
    assert_eq!(Resolution::HD.dimensions(), (1024, 750));
    assert_eq!(Resolution::FullHD.dimensions(), (2048, 1500));
    assert_eq!(Resolution::UHD4K.dimensions(), (4096, 3000));
}

#[test]
fn record_from_one_camera_resolution_dimensions_match_expected_values() {
    assert_eq!(Resolution::HD.dimensions(), (1024, 750));
    assert_eq!(Resolution::FullHD.dimensions(), (2048, 1500));
    assert_eq!(Resolution::UHD4K.dimensions(), (4096, 3000));
}

#[test]
fn atlas_resolutions_bin_the_full_frame() {
    assert_eq!(AtlasATP124SResolution::Quarter.dimensions(), (1024, 750));
    assert_eq!(AtlasATP124SResolution::Half.dimensions(), (2048, 1500));
    assert_eq!(AtlasATP124SResolution::Full.dimensions(), (4096, 3000));
    assert_eq!(AtlasATP124SResolution::Quarter.binning(), 4);
    assert_eq!(AtlasATP124SResolution::Half.binning(), 2);
    assert_eq!(AtlasATP124SResolution::Full.binning(), 1);
    assert_eq!(AtlasATP124SResolution::default(), AtlasATP124SResolution::Full);
    assert_eq!(AtlasATP124SResolution::Half.name(), "half");
}

#[test]
fn ingest_config_checks_come_in_order() {
    assert_eq!(
        validate_ingest_config("", false, false, 0),
        Err(IngestConfigError::EmptyCameraId)
    );
    assert_eq!(
        validate_ingest_config("cam-a", !(0.0f64 <= 0.0), true, 16),
        Err(IngestConfigError::NonPositiveExposure)
    );
    assert_eq!(
        validate_ingest_config("cam-a", true, false, 16),
        Err(IngestConfigError::NonPositiveFrameRate)
    );
    assert_eq!(validate_ingest_config("cam-a", true, true, 0), Err(IngestConfigError::NoBuffers));
    assert_eq!(validate_ingest_config("cam-a", true, true, 16), Ok(()));
    assert_eq!(IngestConfigError::NoBuffers.message(), "num_buffers must be > 0");
}

#[test]
fn stop_conditions_need_a_positive_limit() {
    assert_eq!(validate_stop_conditions(None, None), Err(StopConditionError::NoStopCondition));
    assert_eq!(validate_stop_conditions(Some(0), None), Err(StopConditionError::ZeroMaxFrames));
    assert_eq!(
        validate_stop_conditions(None, Some(DurationSign::Negative)),
        Err(StopConditionError::NonPositiveMaxDuration)
    );
    assert_eq!(
        validate_stop_conditions(Some(5), Some(DurationSign::Zero)),
        Err(StopConditionError::NonPositiveMaxDuration)
    );
    assert_eq!(validate_stop_conditions(Some(5), Some(DurationSign::Other)), Ok(()));
    assert_eq!(validate_stop_conditions(None, Some(DurationSign::Other)), Ok(()));
    assert_eq!(validate_recording_options(false, false, false, false), Err(StopConditionError::NoStopCondition));
    assert_eq!(
        validate_recording_options(true, false, true, false),
        Err(StopConditionError::RecoveryWithoutCompression)
    );
    assert_eq!(validate_recording_options(false, true, true, true), Ok(()));
}

#[test]
fn mono8_pixels_become_opaque_gray_rgba() {
    assert_eq!(mono8_to_rgba(&[7, 200]), vec![7, 7, 7, 255, 200, 200, 200, 255]);
    assert!(mono8_to_rgba(&[]).is_empty());
}

fn addr(name: &str, ipv4: Option<[u8; 4]>) -> InterfaceAddress {
    InterfaceAddress { name: name.to_string(), ipv4 }
}

#[test]
fn interface_must_have_exactly_one_ipv4_address() {
    let listing = vec![
        addr("eth0", Some([10, 0, 0, 2])),
        addr("eth0", None),
        addr("eth1", Some([192, 168, 1, 5])),
        addr("eth1", Some([192, 168, 1, 6])),
        addr("lo", None),
    ];
    assert_eq!(select_interface_ipv4("eth0", &listing), Ok([10, 0, 0, 2]));
    assert_eq!(select_interface_ipv4("eth1", &listing), Err(ResolveError::TooManyIpOnInterface));
    assert_eq!(select_interface_ipv4("lo", &listing), Err(ResolveError::NoIpOnInterface));
    assert_eq!(select_interface_ipv4("wlan0", &listing), Err(ResolveError::NoIpOnInterface));
    assert_eq!(ResolveError::InterfaceNotFound.message(), "interface not found");
}

/// The capture configuration check applied to the three invalid
/// configurations of the original tests: an empty camera id, a zero exposure
/// time and zero buffers (exposure 100 us, 30 Hz, 16 buffers otherwise).
fn assert_invalid_ingest_configs_are_rejected() {
    let exposure_time_us: f64 = 100.0;
    let frame_rate_hz: f64 = 30.0;
    let empty_id = validate_ingest_config("", !(exposure_time_us <= 0.0), !(frame_rate_hz <= 0.0), 16);
    assert!(empty_id.is_err());
    let zero_exposure: f64 = 0.0;
    let bad_exposure =
        validate_ingest_config("cam-a", !(zero_exposure <= 0.0), !(frame_rate_hz <= 0.0), 16);
    assert!(bad_exposure.is_err());
    let bad_buffers =
        validate_ingest_config("cam-a", !(exposure_time_us <= 0.0), !(frame_rate_hz <= 0.0), 0);
    assert!(bad_buffers.is_err());
}

#[test]
fn record_from_cameras_camera_ingest_config_validate_rejects_invalid_values() {
    assert_invalid_ingest_configs_are_rejected();
}

#[test]
fn record_from_one_camera_camera_ingest_config_validate_rejects_invalid_values() {
    assert_invalid_ingest_configs_are_rejected();
}
