//! Checks on raw Mono8 frames before they are written out: the frame
//! stream fed to the lossless H.265 encoder, and the PGM (P5) images of a
//! session's first frames.

use vstd::prelude::*;
use crate::files::decimal;

verus! {

/// A frame whose payload does not have the size its dimensions call for.
#[derive(Debug, Clone, Copy, PartialEq, Eq, Structural)]
pub struct FrameSizeMismatch {
    pub got: usize,
    pub expected: usize,
    pub width: u32,
    pub height: u32,
}

/// The bookkeeping of the raw frame stream piped into the encoder: every
/// frame must hold exactly `width * height` bytes, and the frames written
/// are counted.
#[derive(Debug, Clone, Copy, PartialEq, Eq, Structural)]
pub struct RawFrameStream {
    pub width: u32,
    pub height: u32,
    pub frames_written: u64,
}

impl RawFrameStream {
    /// The stream's invariant: the frame size fits in `u32`.
    pub open spec fn wf(self) -> bool {
        self.width * self.height <= u32::MAX
    }

    /// A stream of `width` x `height` frames with nothing written yet.
    pub fn new(width: u32, height: u32) -> (res: Self)
        requires
            width * height <= u32::MAX,
        ensures
            res.wf(),
            res == (RawFrameStream { width, height, frames_written: 0 }),
    {
        RawFrameStream { width, height, frames_written: 0 }
    }

    /// Checks the size of the next frame's payload.
    pub fn check_frame(&self, payload_len: usize) -> (res: Result<(), FrameSizeMismatch>)
        requires
            self.wf(),
        ensures
            res is Ok <==> payload_len == self.width * self.height,
            res matches Err(e) ==> e == (FrameSizeMismatch {
                got: payload_len,
                expected: (self.width * self.height) as usize,
                width: self.width,
                height: self.height,
            }),
    {
        let expected = (self.width * self.height) as usize;
        if payload_len != expected {
            Err(FrameSizeMismatch { got: payload_len, expected, width: self.width, height: self.height })
        } else {
            Ok(())
        }
    }

    /// Counts one more frame written to the encoder.
    pub fn record_written(&mut self)
        requires
            old(self).frames_written < u64::MAX,
        ensures
            *final(self) == (RawFrameStream {
                frames_written: (old(self).frames_written + 1) as u64,
                ..*old(self)
            }),
    {
        self.frames_written = self.frames_written + 1;
    }
}

/// Why a frame cannot be written as a PGM image.
#[derive(Debug, Clone, Copy, PartialEq, Eq, Structural)]
pub enum PgmError {
    /// A dimension is zero.
    NonPositiveDimensions,
    /// The payload does not hold one byte per pixel.
    PayloadSizeMismatch { got: usize, expected: u64 },
}

/// The header of an 8-bit PGM (P5) image: `P5`, the width and height in
/// decimal, and the maximum value 255, each on its own line.
pub open spec fn spec_pgm_header(width: u32, height: u32) -> Seq<char> {
    seq!['P', '5', '\n'] + decimal(width as nat) + seq![' '] + decimal(height as nat) + seq![
        '\n',
        '2',
        '5',
        '5',
        '\n',
    ]
}

/// Checks that a frame can be written as a PGM image and gives its header:
/// both dimensions must be positive and the payload must hold one byte per
/// pixel.
pub fn pgm_header(width: u32, height: u32, payload_len: usize) -> (res: Result<String, PgmError>)
    ensures
        (width == 0 || height == 0) ==> res == Err::<String, PgmError>(
            PgmError::NonPositiveDimensions,
        ),
        (width > 0 && height > 0 && payload_len != width * height) ==> res == Err::<
            String,
            PgmError,
        >(PgmError::PayloadSizeMismatch { got: payload_len, expected: (width * height) as u64 }),
        res matches Ok(h) ==> width > 0 && height > 0 && payload_len == width * height && h@
            == spec_pgm_header(width, height),
        (width > 0 && height > 0 && payload_len == width * height) ==> res is Ok,
{
    if width == 0 || height == 0 {
        return Err(PgmError::NonPositiveDimensions);
    }
    assert((width as u64) * (height as u64) <= u64::MAX) by (nonlinear_arith)
        requires
            width <= u32::MAX,
            height <= u32::MAX,
    ;
    let expected: u64 = (width as u64) * (height as u64);
    if payload_len as u64 != expected {
        return Err(PgmError::PayloadSizeMismatch { got: payload_len, expected });
    }
    let mut out: Vec<char> = Vec::new();
    out.push('P');
    out.push('5');
    out.push('\n');
    crate::files::push_decimal(&mut out, width as u64);
    out.push(' ');
    crate::files::push_decimal(&mut out, height as u64);
    out.push('\n');
    out.push('2');
    out.push('5');
    out.push('5');
    out.push('\n');
    assert(out@ =~= spec_pgm_header(width, height));
    Ok(crate::files::string_from_chars(&out))
}

} // verus!
