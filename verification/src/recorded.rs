//! Recorded frames: their metadata sidecars, their file names, their
//! conversion into pipeline frames, and the order in which a recorded
//! session is replayed.

use vstd::prelude::*;
use std::path::PathBuf;
use crate::names::{
    chars_of, is_path_safe_char, is_special_component, law_path_component_is_normal, push_char,
    sanitize_chars, spec_path_component,
};
use crate::pipeline::{CameraId, Context, Frame as PipelineFrame};

verus! {

/// Metadata recorded as a JSON sidecar next to each frame's payload.
#[derive(Debug, Clone)]
pub struct Metadata {
    pub camera_id: String,
    pub frame_index: usize,
    pub width: u32,
    pub height: u32,
    pub payload_bytes: usize,
    pub system_timestamp_ns: u64,
    pub buffer_timestamp_ns: u64,
    pub frame_id: u64,
}

/// A captured frame on its way from a capture thread to the writer thread.
#[derive(Debug)]
pub struct Frame {
    pub output_camera_dir: PathBuf,
    pub frame_index: usize,
    pub bytes: Vec<u8>,
    pub metadata: Metadata,
}

/// Makes a string safe to use as one path component: characters outside
/// ASCII letters, digits, `-`, `_` and `.` become `_`, and the names that do
/// not stand for an entry of their own (the empty name, `.` and `..`) become
/// `_`.
pub fn sanitize_path_name(value: &str) -> (res: String)
    ensures
        res@ == spec_path_component(value@),
        !is_special_component(res@),
        forall|k: int| 0 <= k < res@.len() ==> is_path_safe_char(#[trigger] res@[k]),
{
    proof {
        law_path_component_is_normal(value@);
    }
    let chars = chars_of(value);
    let special = chars.len() == 0 || (chars.len() == 1 && chars[0] == '.') || (chars.len() == 2
        && chars[0] == '.' && chars[1] == '.');
    proof {
        if chars.len() == 1 && chars[0] == '.' {
            assert(value@ =~= seq!['.']);
        }
        if chars.len() == 2 && chars[0] == '.' && chars[1] == '.' {
            assert(value@ =~= seq!['.', '.']);
        }
    }
    if special {
        let mut out = String::new();
        proof {
            broadcast use vstd::string::group_string_axioms;
        }
        push_char(&mut out, '_');
        assert(out@ =~= seq!['_']);
        out
    } else {
        sanitize_chars(value)
    }
}

/// Converts a recorded frame into the pipeline's frame type. The frame's
/// timestamp is the camera's PTP-synchronised buffer timestamp, which must
/// be non-zero: the host wall-clock timestamp is on another time scale and
/// the frame id is a counter.
pub fn recorded_frame_to_frame<C: Copy>(frame: Frame, camera_id: CameraId) -> (res: PipelineFrame<C>)
    requires
        frame.metadata.buffer_timestamp_ns != 0,
    ensures
        res.bytes@ == frame.bytes@,
        res.resolution == (frame.metadata.width, frame.metadata.height),
        res.context == (Context::<C> {
            camera_id,
            camera_buffer_timestamp: frame.metadata.buffer_timestamp_ns,
            detected: None,
            centroid: None,
        }),
{
    let timestamp = frame.metadata.buffer_timestamp_ns;
    let resolution = (frame.metadata.width, frame.metadata.height);
    PipelineFrame::new(frame.bytes, resolution, Context::new(camera_id, timestamp))
}

/// Sort key that interleaves the two cameras' recorded frames in capture
/// order: the (non-zero) buffer timestamp, then the camera id and the frame
/// index as deterministic tie-breakers.
pub fn recorded_frame_sort_key(metadata: &Metadata) -> (res: (u64, String, usize))
    requires
        metadata.buffer_timestamp_ns != 0,
    ensures
        res.0 == metadata.buffer_timestamp_ns,
        res.1@ == metadata.camera_id@,
        res.2 == metadata.frame_index,
{
    (metadata.buffer_timestamp_ns, metadata.camera_id.clone(), metadata.frame_index)
}

} // verus!
