use mjolnir_backend::h265::{sps_dimensions_from_header, SpsDimensionError};
use mjolnir_backend::sps_check::{sps_payload_passes_check, sps_rbsp_bytes};

const REAL_SPS: &[u8] = b"\x42\x01\x01\x01\x40\x00\x00\x03\x00\x90\x00\x00\x03\x00\x00\x03\x00\x78\xa0\x03\xc0\x80\x11\x07\xcb\x96\xb4\xa4\x25\x92\xe3\x01\x6a\x02\x02\x02\x08\x00\x00\x03\x00\x08\x00\x00\x03\x00\xf3\x00\x2e\xf2\x88\x00\x02\x62\x5a\x00\x00\x13\x12\xd0\x20";

/// Packs a string of `0` and `1` into bytes, padding the last byte with zeros.
fn pack(bits: &str) -> Vec<u8> {
    let bits: Vec<u8> = bits.bytes().filter(|b| *b == b'0' || *b == b'1').map(|b| b - b'0').collect();
    bits.chunks(8)
        .map(|chunk| chunk.iter().enumerate().fold(0u8, |acc, (i, b)| acc | (b << (7 - i))))
        .collect()
}

/// An SPS payload with a single sub-layer, a Main profile tier and level,
/// and `rest` as the bits after them.
fn sps_with(first_byte: u8, rest: &str) -> Vec<u8> {
    let mut payload = vec![0x42, 0x01, first_byte, 0x01, 0x40, 0, 0, 0, 0x90, 0, 0, 0, 0, 0, 0x78];
    payload.extend(pack(rest));
    payload
}

// sps_seq_parameter_set_id 0, chroma_format_idc 1, width 8, height 8, no
// conformance window, 8-bit luma and chroma, log2_max_poc_lsb_minus4 0,
// sub-layer ordering present with three zeros.
const FORMAT_BITS: &str = "1 010 0001001 0001001 0 1 1 1 1 1 1 1";

fn stream(payload: &[u8]) -> Vec<u8> {
    let mut s = vec![0, 0, 0, 1];
    s.extend_from_slice(payload);
    s.extend_from_slice(&[0, 0, 1, 0x44, 0x01]);
    s
}

#[test]
fn emulation_prevention_bytes_are_removed() {
    assert_eq!(sps_rbsp_bytes(&[0x42, 0x01, 0, 0, 3, 1, 0, 0, 0, 3, 7]), vec![0, 0, 1, 0, 0, 0, 7]);
    assert_eq!(sps_rbsp_bytes(&[0x42, 0x01, 0, 3, 0, 3]), vec![0, 3, 0, 3]);
    assert_eq!(sps_rbsp_bytes(&[0x42, 0x01]), Vec::<u8>::new());
}

#[test]
fn a_real_sps_passes_the_check() {
    assert!(sps_payload_passes_check(REAL_SPS));
}

#[test]
fn a_transform_block_larger_than_the_coding_tree_block_fails_the_check() {
    // min_cb_minus3 0, diff 0 (CtbLog2SizeY 3), min_tb_minus2 3 (MinTbLog2SizeY 5).
    let bad = sps_with(0x01, &format!("{FORMAT_BITS} 1 1 00100 1 1 1 0 1 0000000 11111111"));
    assert!(!sps_payload_passes_check(&bad));
    assert_eq!(sps_dimensions_from_header(&stream(&bad)), Ok(None));
    // min_tb_minus2 0 (MinTbLog2SizeY 2) passes.
    let good = sps_with(0x01, &format!("{FORMAT_BITS} 1 1 1 1 1 1 0 1 0000000 11111111"));
    assert!(sps_payload_passes_check(&good));
}

#[test]
fn a_code_with_sixty_leading_zeros_fails_the_check() {
    let zeros = "0".repeat(64);
    let bad = sps_with(0x01, &format!("{zeros} 1 {zeros} 11111111"));
    assert!(!sps_payload_passes_check(&bad));
    assert_eq!(sps_dimensions_from_header(&stream(&bad)), Ok(None));
}

// Picture format only: sps_seq_parameter_set_id 0, chroma_format_idc 1,
// width 8, height 8, no conformance window, then `{depth}` as the luma bit
// depth code, 8-bit chroma and log2_max_poc_lsb_minus4 0.
fn picture_bits(luma_depth: &str) -> String {
    format!("1 010 0001001 0001001 0 {luma_depth} 1 1")
}

/// A complete SPS with two sub-layers (no sub-layer profile or level), the
/// given luma bit depth code, explicit scaling list data `scaling`, and no
/// PCM, reference picture sets, VUI or extensions.
fn layered_sps(luma_depth: &str, scaling: &str) -> Vec<u8> {
    let bits = format!(
        "00 00000000000000 {} 1 111111 111111 11 {scaling} 0 0 0 1 0 0 0 0 0 1",
        picture_bits(luma_depth)
    );
    sps_with(0x03, &bits)
}

#[test]
fn sub_layers_and_explicit_scaling_lists_pass_the_check() {
    let predicted = "01".repeat(20);
    let sps = layered_sps("1", &predicted);
    assert!(sps_payload_passes_check(&sps));
    assert_eq!(sps_dimensions_from_header(&stream(&sps)), Ok(Some((8, 8))));
}

#[test]
fn a_ten_bit_stream_with_sub_layers_is_refused() {
    let predicted = "01".repeat(20);
    let sps = layered_sps("011", &predicted);
    assert!(sps_payload_passes_check(&sps));
    assert_eq!(
        sps_dimensions_from_header(&stream(&sps)),
        Err(SpsDimensionError::UnsupportedBitDepth(10))
    );
}

#[test]
fn sub_layer_profiles_and_levels_are_skipped() {
    // Sub-layer 0 has a profile (88 bits) and a level (8 bits inside the
    // profile and 8 more).
    let ptl = format!("11 00000000000000 {} {}", "1".repeat(88), "1".repeat(16));
    let bits = format!(
        "{ptl} {} 1 111111 111111 0 0 0 0 1 0 0 0 0 0 1",
        picture_bits("1")
    );
    let sps = sps_with(0x03, &bits);
    assert!(sps_payload_passes_check(&sps));
}

#[test]
fn scaling_lists_are_read_and_checked() {
    // A size-0 matrix may use any delta; an explicit size-0 matrix has 16
    // coefficients.
    let explicit = format!("00100 {} {}", format!("1 {}", "1".repeat(16)), "01".repeat(18));
    let ok = layered_sps("1", &format!("0{explicit}"));
    assert!(sps_payload_passes_check(&ok));
    // The first size-1 matrix cannot refer to one before it.
    let bad_scaling = format!("{}0010{}", "01".repeat(6), "01".repeat(13));
    let bad = layered_sps("1", &bad_scaling);
    assert!(!sps_payload_passes_check(&bad));
    assert_eq!(sps_dimensions_from_header(&stream(&bad)), Ok(None));
}

#[test]
fn seven_sub_layers_are_not_inspected() {
    // sps_max_sub_layers_minus1 = 7, which the parser rejects.
    let sps = sps_with(0x0f, &format!("{} 1 1 1", "1".repeat(40)));
    assert!(!sps_payload_passes_check(&sps));
}

#[test]
fn short_payloads_fail_the_check() {
    assert!(!sps_payload_passes_check(&[]));
    assert!(!sps_payload_passes_check(&[0x42, 0x01, 0x01]));
}
