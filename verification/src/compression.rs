//! Per-frame zstd compression of MONO8 frames and the helpers shared by the
//! H.265 recording and recovery code.

use vstd::prelude::*;
use std::path::PathBuf;
use crate::names::{sanitize_chars, spec_sanitize};

verus! {

/// `std::path::PathBuf`, carried through unchanged.
#[verifier::external_type_specification]
#[verifier::external_body]
pub struct ExPathBuf(std::path::PathBuf);

/// File extension of a per-frame compressed payload.
pub const COMPRESSED_FRAME_EXTENSION: &'static str = "zst";

/// zstd level used for frames: the fastest setting.
pub const ZSTD_LEVEL: i32 = 1;

/// Inputs shorter than this many bytes get a worst-case output buffer that
/// an allocation can hold on every platform, so compressing them succeeds.
pub const ZSTD_SURE_INPUT_LIMIT: usize = 0x7F00_0000;

/// The bytes that `zstd::bulk::compress` produces for `data` at `level`.
pub uninterp spec fn zstd_bulk_compressed(data: Seq<u8>, level: i32) -> Seq<u8>;

/// What `zstd::stream::decode_all` decodes from `data`, `None` where it fails.
pub uninterp spec fn zstd_decoded(data: Seq<u8>) -> Option<Seq<u8>>;

/// Output details of one PNG recovery run.
#[derive(Debug)]
pub struct RecoverySummary {
    pub output_dir: PathBuf,
    pub frames_recovered: u64,
    pub width: Option<u32>,
    pub height: Option<u32>,
}

/// Why a compressed frame could not be turned back into raw bytes.
#[derive(Debug, Clone, Copy, PartialEq, Eq, Structural)]
pub enum FrameCodecError {
    /// zstd failed to compress the frame.
    Compress,
    /// The payload is not a valid zstd stream.
    Decode,
    /// The payload decoded to a different number of bytes than expected.
    SizeMismatch { got: usize, expected: usize },
}

/// Calls `zstd::bulk::compress` at the fast `ZSTD_LEVEL`. That function makes
/// a compressor without a dictionary and compresses into a buffer of zstd's
/// worst-case size for the input, so it does not fail on an input shorter
/// than `ZSTD_SURE_INPUT_LIMIT` (running out of memory aborts the process).
/// The result is the name `zstd_bulk_compressed` of the input, and it is a
/// zstd frame that `zstd::stream::decode_all` decodes back to the input (zstd
/// is lossless). For longer inputs, whether the call succeeds is not stated.
#[verifier::external_body]
fn zstd_bulk_compress(data: &[u8], level: i32) -> (res: Option<Vec<u8>>)
    requires
        level == ZSTD_LEVEL,
    ensures
        data.len() < ZSTD_SURE_INPUT_LIMIT ==> res is Some,
        res matches Some(c) ==> c@ == zstd_bulk_compressed(data@, level),
        res matches Some(c) ==> zstd_decoded(c@) == Some(data@),
{
    zstd::bulk::compress(data, level).ok()
}

/// Calls `zstd::stream::decode_all` on an in-memory reader over `data`;
/// the outcome is the name `zstd_decoded` of the bytes.
#[verifier::external_body]
fn zstd_decode_all(data: &[u8]) -> (res: Option<Vec<u8>>)
    ensures
        match zstd_decoded(data@) {
            Some(d) => res matches Some(v) && v@ == d,
            None => res is None,
        },
{
    zstd::stream::decode_all(std::io::Cursor::new(data)).ok()
}

/// Compresses one raw MONO8 frame with the fast zstd setting. Every frame
/// shorter than `ZSTD_SURE_INPUT_LIMIT` bytes is compressed.
pub fn compress_mono8_frame(raw_bytes: &[u8]) -> (res: Result<Vec<u8>, FrameCodecError>)
    ensures
        raw_bytes.len() < ZSTD_SURE_INPUT_LIMIT ==> res is Ok,
        res matches Ok(c) ==> c@ == zstd_bulk_compressed(raw_bytes@, ZSTD_LEVEL),
        res matches Ok(c) ==> zstd_decoded(c@) == Some(raw_bytes@),
        res matches Err(e) ==> e == FrameCodecError::Compress,
{
    match zstd_bulk_compress(raw_bytes, ZSTD_LEVEL) {
        Some(c) => Ok(c),
        None => Err(FrameCodecError::Compress),
    }
}

/// The outcome of decompressing a frame that must hold `expected_len` bytes.
pub open spec fn spec_decompress_mono8_frame(compressed: Seq<u8>, expected_len: usize) -> Result<
    Seq<u8>,
    FrameCodecError,
> {
    match zstd_decoded(compressed) {
        None => Err(FrameCodecError::Decode),
        Some(raw) => if raw.len() == expected_len {
            Ok(raw)
        } else {
            Err(FrameCodecError::SizeMismatch { got: raw.len() as usize, expected: expected_len })
        },
    }
}

/// Decompresses one zstd-compressed MONO8 frame and checks its size.
pub fn decompress_mono8_frame(compressed_bytes: &[u8], expected_len: usize) -> (res: Result<
    Vec<u8>,
    FrameCodecError,
>)
    ensures
        match spec_decompress_mono8_frame(compressed_bytes@, expected_len) {
            Ok(raw) => res matches Ok(v) && v@ == raw,
            Err(e) => res == Err::<Vec<u8>, FrameCodecError>(e),
        },
{
    match zstd_decode_all(compressed_bytes) {
        None => Err(FrameCodecError::Decode),
        Some(raw_bytes) => {
            if raw_bytes.len() != expected_len {
                Err(FrameCodecError::SizeMismatch { got: raw_bytes.len(), expected: expected_len })
            } else {
                Ok(raw_bytes)
            }
        },
    }
}

/// A frame that `compress_mono8_frame` compressed is given back unchanged
/// by `decompress_mono8_frame` with its own length as the expected size.
pub proof fn law_frame_compression_roundtrip(raw: Seq<u8>, compressed: Seq<u8>)
    requires
        zstd_decoded(compressed) == Some(raw),
        raw.len() <= usize::MAX,
    ensures
        spec_decompress_mono8_frame(compressed, raw.len() as usize) == Ok::<
            Seq<u8>,
            FrameCodecError,
        >(raw),
{
}

/// Replaces unsupported characters in a file-system name.
pub fn sanitize(value: &str) -> (res: String)
    ensures
        res@ == spec_sanitize(value@),
{
    sanitize_chars(value)
}

/// The suffix that ffmpeg's standard error adds to an error message.
pub open spec fn spec_ffmpeg_stderr_suffix(stderr: Seq<char>) -> Seq<char> {
    if stderr.len() == 0 {
        Seq::empty()
    } else {
        seq![' ', '('] + stderr + seq![')']
    }
}

/// Formats ffmpeg's standard error for inclusion in an error message:
/// empty when there is nothing, ` (<stderr>)` otherwise.
pub fn format_ffmpeg_stderr(stderr: &str) -> (res: String)
    ensures
        res@ == spec_ffmpeg_stderr_suffix(stderr@),
{
    let mut out = String::new();
    if stderr.unicode_len() == 0 {
        return out;
    }
    crate::names::push_char(&mut out, ' ');
    crate::names::push_char(&mut out, '(');
    out.append(stderr);
    crate::names::push_char(&mut out, ')');
    out
}

} // verus!
