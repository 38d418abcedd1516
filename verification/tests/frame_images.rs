use mjolnir_backend::files::recovered_frame_count;
use mjolnir_backend::frame_images::{
    decode_recorded_payload, encode_recorded_frame, encode_recovered_png, PayloadError,
};
use mjolnir_backend::recorded::Metadata;

fn metadata(width: u32, height: u32) -> Metadata {
    Metadata {
        camera_id: "camera-a".to_string(),
        frame_index: 0,
        width,
        height,
        payload_bytes: (width * height) as usize,
        system_timestamp_ns: 0,
        buffer_timestamp_ns: 1,
        frame_id: 0,
    }
}

#[test]
fn a_recorded_frame_reads_back_as_the_same_samples() {
    let m = metadata(4, 3);
    let data: Vec<u8> = (0..12u8).map(|v| v * 20).collect();
    let tiff = encode_recorded_frame(&data, &m).expect("encode TIFF");
    assert_ne!(tiff, data);
    assert!(tiff.starts_with(b"II*\0") || tiff.starts_with(b"MM\0*"));
    assert_eq!(decode_recorded_payload(&tiff, &m), Ok(data));
}

#[test]
fn a_frame_of_the_wrong_size_is_not_encoded() {
    let m = metadata(4, 3);
    assert_eq!(encode_recorded_frame(&[0u8; 11], &m), None);
    assert_eq!(encode_recorded_frame(&[0u8; 13], &m), None);
    assert_eq!(encode_recorded_frame(&[], &metadata(0, 3)), None);
}

#[test]
fn a_payload_is_checked_against_its_metadata() {
    let data = vec![7u8; 12];
    let tiff = encode_recorded_frame(&data, &metadata(4, 3)).expect("encode TIFF");
    assert_eq!(
        decode_recorded_payload(&tiff, &metadata(5, 3)),
        Err(PayloadError::SizeMismatch { got: 12, expected: 15 })
    );
    assert_eq!(decode_recorded_payload(&[1, 2, 3, 4], &metadata(2, 2)), Err(PayloadError::NotGray8Tiff));
}

#[test]
fn a_recovered_frame_becomes_a_grayscale_png() {
    let raw = vec![128u8; 16];
    let png = encode_recovered_png(4, 4, &raw).expect("encode PNG");
    assert_eq!(&png[..8], &[137, 80, 78, 71, 13, 10, 26, 10]);
    // IHDR: width 4, height 4, bit depth 8, color type 0 (grayscale).
    assert_eq!(&png[12..16], b"IHDR");
    assert_eq!(&png[16..24], &[0, 0, 0, 4, 0, 0, 0, 4]);
    assert_eq!(png[24], 8);
    assert_eq!(png[25], 0);
    assert_eq!(encode_recovered_png(4, 4, &raw[..15]), None);
    assert_eq!(encode_recovered_png(0, 4, &[]), None);
}

#[test]
fn a_recovery_run_counts_only_the_frames_it_added() {
    assert_eq!(recovered_frame_count(3, 10), Some(7));
    assert_eq!(recovered_frame_count(0, 1), Some(1));
    assert_eq!(recovered_frame_count(5, 5), None);
    assert_eq!(recovered_frame_count(6, 5), None);
}
