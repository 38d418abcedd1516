use mjolnir_backend::raw_frames::{pgm_header, FrameSizeMismatch, PgmError, RawFrameStream};

#[test]
fn encoder_frames_must_match_the_frame_size() {
    let mut stream = RawFrameStream::new(4, 3);
    assert_eq!(stream.check_frame(12), Ok(()));
    stream.record_written();
    assert_eq!(stream.frames_written, 1);
    assert_eq!(
        stream.check_frame(11),
        Err(FrameSizeMismatch { got: 11, expected: 12, width: 4, height: 3 })
    );
}

#[test]
fn pgm_header_lists_the_dimensions() {
    assert_eq!(pgm_header(4, 2, 8), Ok("P5\n4 2\n255\n".to_string()));
    assert_eq!(pgm_header(0, 2, 0), Err(PgmError::NonPositiveDimensions));
    assert_eq!(
        pgm_header(4, 2, 7),
        Err(PgmError::PayloadSizeMismatch { got: 7, expected: 8 })
    );
}
