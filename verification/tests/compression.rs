use mjolnir_backend::compression::{compress_mono8_frame, decompress_mono8_frame, FrameCodecError};

#[test]
fn compressed_frame_decompresses_to_the_original_bytes() {
    let raw: Vec<u8> = (0..64u32).map(|v| (v * 7 % 251) as u8).collect();
    let compressed = compress_mono8_frame(&raw).expect("compress frame");
    assert_ne!(compressed, raw);
    let restored = decompress_mono8_frame(&compressed, raw.len()).expect("decompress frame");
    assert_eq!(restored, raw);
}

#[test]
fn a_uniform_frame_compresses_to_fewer_bytes() {
    let raw = vec![128u8; 4096];
    let compressed = compress_mono8_frame(&raw).expect("compress frame");
    assert!(compressed.len() < raw.len());
}

#[test]
fn decompressed_size_must_match_the_metadata() {
    let raw = vec![128u8; 16];
    let compressed = compress_mono8_frame(&raw).expect("compress frame");
    assert_eq!(
        decompress_mono8_frame(&compressed, 15),
        Err(FrameCodecError::SizeMismatch { got: 16, expected: 15 })
    );
}

#[test]
fn garbage_is_not_a_zstd_frame() {
    assert_eq!(decompress_mono8_frame(&[1, 2, 3, 4, 5], 5), Err(FrameCodecError::Decode));
}
