use mjolnir_backend::h265::{
    find_annex_b_start_code, find_sps_nalu_payload, sps_dimensions_from_header,
    sps_frame_dimensions, SpsDimensionError, SpsFields,
};

#[test]
fn inspect_finds_annex_b_start_codes() {
    let bytes = [9, 0, 0, 1, 0x42, 1, 2, 0, 0, 0, 1, 0x44];
    assert_eq!(find_annex_b_start_code(&bytes, 0), Some((1, 3)));
    assert_eq!(find_annex_b_start_code(&bytes, 5), Some((7, 4)));
}

#[test]
fn inspect_extracts_only_the_sps_nalu() {
    let bytes = [
        0, 0, 0, 1, 0x40, 0x01, 0xaa, 0xbb, 0, 0, 1, 0x42, 0x01, 0xcc, 0xdd, 0, 0, 1, 0x44, 0x01,
        0xee,
    ];

    assert_eq!(find_sps_nalu_payload(&bytes), Some(&bytes[11..15]));
}

#[test]
fn h265_stream_finds_annex_b_start_codes() {
    let bytes = [9, 0, 0, 1, 0x42, 1, 2, 0, 0, 0, 1, 0x44];
    assert_eq!(find_annex_b_start_code(&bytes, 0), Some((1, 3)));
    assert_eq!(find_annex_b_start_code(&bytes, 5), Some((7, 4)));
}

#[test]
fn h265_stream_extracts_only_the_sps_nalu() {
    let bytes = [
        0, 0, 0, 1, 0x40, 0x01, 0xaa, 0xbb, 0, 0, 1, 0x42, 0x01, 0xcc, 0xdd, 0, 0, 1, 0x44, 0x01,
        0xee,
    ];

    assert_eq!(find_sps_nalu_payload(&bytes), Some(&bytes[11..15]));
}

#[test]
fn start_code_search_handles_short_and_exhausted_buffers() {
    assert_eq!(find_annex_b_start_code(&[0, 0], 0), None);
    assert_eq!(find_annex_b_start_code(&[0, 0, 1], 1), None);
    assert_eq!(find_annex_b_start_code(&[1, 2, 3, 4, 5], 0), None);
    assert_eq!(find_annex_b_start_code(&[0, 0, 1], 0), Some((0, 3)));
}

#[test]
fn sps_search_returns_none_without_sps_or_with_a_trailing_start_code() {
    assert_eq!(find_sps_nalu_payload(&[0, 0, 1, 0x40, 1, 0, 0, 1, 0x44]), None);
    assert_eq!(find_sps_nalu_payload(&[0x42, 0x01]), None);
    assert_eq!(find_sps_nalu_payload(&[0, 0, 1]), None);
    let tail = [0, 0, 1, 0x42, 7, 8];
    assert_eq!(find_sps_nalu_payload(&tail), Some(&tail[3..6]));
}

fn fields(width: u64, height: u64, chroma: u8, crop: (u64, u64, u64, u64), depth: u8) -> SpsFields {
    SpsFields {
        pic_width_in_luma_samples: width,
        pic_height_in_luma_samples: height,
        chroma_format_idc: chroma,
        conf_win_left_offset: crop.0,
        conf_win_right_offset: crop.1,
        conf_win_top_offset: crop.2,
        conf_win_bottom_offset: crop.3,
        bit_depth_luma_minus8: depth,
    }
}

#[test]
fn sps_dimensions_apply_the_conformance_window() {
    // 4:0:0 (monochrome): one luma sample per crop unit.
    assert_eq!(sps_frame_dimensions(fields(4096, 3008, 0, (0, 0, 0, 8), 0)), Ok((4096, 3000)));
    // 4:2:0: two luma samples per crop unit in each direction.
    assert_eq!(sps_frame_dimensions(fields(1920, 1088, 1, (0, 0, 0, 4), 0)), Ok((1920, 1080)));
    // 4:2:2: two horizontally, one vertically.
    assert_eq!(sps_frame_dimensions(fields(100, 100, 2, (1, 1, 1, 1), 0)), Ok((96, 98)));
}

#[test]
fn sps_dimensions_reject_other_bit_depths_and_oversized_crops() {
    assert_eq!(
        sps_frame_dimensions(fields(64, 64, 0, (0, 0, 0, 0), 2)),
        Err(SpsDimensionError::UnsupportedBitDepth(10))
    );
    assert_eq!(
        sps_frame_dimensions(fields(16, 16, 1, (5, 4, 0, 0), 0)),
        Err(SpsDimensionError::CropExceedsPicture)
    );
    assert_eq!(
        sps_frame_dimensions(fields(1 << 33, 16, 0, (0, 0, 0, 0), 0)),
        Err(SpsDimensionError::WidthTooLarge)
    );
    assert_eq!(
        sps_frame_dimensions(fields(16, 1 << 33, 0, (0, 0, 0, 0), 0)),
        Err(SpsDimensionError::HeightTooLarge)
    );
}

#[test]
fn header_without_a_parsable_sps_gives_no_dimensions() {
    assert_eq!(sps_dimensions_from_header(&[1, 2, 3, 4]), Ok(None));
    assert_eq!(sps_dimensions_from_header(&[0, 0, 1, 0x42, 0x01]), Ok(None));
}

#[test]
fn header_with_a_real_sps_gives_the_cropped_frame_size() {
    // SPS of a 1920x1080 4:2:0 stream (coded as 1920x1088 with a bottom crop).
    let sps: &[u8] = b"\x42\x01\x01\x01\x40\x00\x00\x03\x00\x90\x00\x00\x03\x00\x00\x03\x00\x78\xa0\x03\xc0\x80\x11\x07\xcb\x96\xb4\xa4\x25\x92\xe3\x01\x6a\x02\x02\x02\x08\x00\x00\x03\x00\x08\x00\x00\x03\x00\xf3\x00\x2e\xf2\x88\x00\x02\x62\x5a\x00\x00\x13\x12\xd0\x20";
    let mut stream = vec![0, 0, 0, 1, 0x40, 0x01, 0x0c, 0, 0, 1];
    stream.extend_from_slice(sps);
    stream.extend_from_slice(&[0, 0, 1, 0x44, 0x01, 0xc1]);
    assert_eq!(find_sps_nalu_payload(&stream), Some(sps));
    assert_eq!(sps_dimensions_from_header(&stream), Ok(Some((1920, 1080))));
}
