use mjolnir_backend::infraction::{
    decode, react_to_read, InfractionState, SensorReaction, SerialRead, CLEAR_BYTE,
    INFRACTION_BYTE,
};

#[test]
fn sensor_bytes_decode_to_circle_states() {
    assert_eq!(decode(0x01), Some(InfractionState::Clear));
    assert_eq!(decode(0xFE), Some(InfractionState::Infraction));
    assert_eq!(decode(0x00), None);
    assert_eq!(decode(0xFF), None);
}

#[test]
fn only_infraction_bytes_are_reported_and_failed_reads_mark_the_sensor_stale() {
    assert_eq!(
        react_to_read(SerialRead::Byte(INFRACTION_BYTE)),
        SensorReaction::ReportInfraction(0xFE)
    );
    assert_eq!(react_to_read(SerialRead::Byte(CLEAR_BYTE)), SensorReaction::Ignore);
    assert_eq!(react_to_read(SerialRead::Byte(0x7F)), SensorReaction::Ignore);
    assert_eq!(react_to_read(SerialRead::Nothing), SensorReaction::Ignore);
    assert_eq!(react_to_read(SerialRead::Failed), SensorReaction::ReportStale);
}
