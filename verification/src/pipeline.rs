//! Frames as they flow through the computer-vision pipelines, and the
//! left/right pairs that the aggregators build from them.
//!
//! A detection's centroid is carried as an opaque value of type `C`: the
//! bookkeeping here only asks whether a centroid is present.

use vstd::prelude::*;

verus! {

/// Which of the two field cameras a frame comes from.
#[derive(Debug, Clone, Copy, PartialEq, Eq, Structural)]
pub enum CameraId {
    FieldLeft,
    FieldRight,
}

/// Per-frame context: camera, camera (PTP) buffer timestamp and detection.
#[derive(Debug, Clone, Copy)]
pub struct Context<C> {
    pub camera_id: CameraId,
    pub camera_buffer_timestamp: u64,
    pub detected: Option<bool>,
    pub centroid: Option<C>,
}

impl<C: Copy> Context<C> {
    /// A context with no detection yet.
    pub fn new(camera_id: CameraId, camera_buffer_timestamp: u64) -> (res: Self)
        ensures
            res.camera_id == camera_id,
            res.camera_buffer_timestamp == camera_buffer_timestamp,
            res.detected is None,
            res.centroid is None,
    {
        Context { camera_id, camera_buffer_timestamp, detected: None, centroid: None }
    }

    pub fn camera_id(&self) -> (res: CameraId)
        ensures
            res == self.camera_id,
    {
        self.camera_id
    }

    pub fn camera_buffer_timestamp(&self) -> (res: u64)
        ensures
            res == self.camera_buffer_timestamp,
    {
        self.camera_buffer_timestamp
    }

    pub fn centroid(&self) -> (res: Option<C>)
        ensures
            res == self.centroid,
    {
        self.centroid
    }

    pub fn set_detected(&mut self, detected: Option<bool>)
        ensures
            *final(self) == (Context { detected, ..*old(self) }),
    {
        self.detected = detected;
    }

    pub fn set_centroid(&mut self, centroid: Option<C>)
        ensures
            *final(self) == (Context { centroid, ..*old(self) }),
    {
        self.centroid = centroid;
    }
}

/// The abstract value of a frame: its bytes, resolution and context.
pub struct FrameView<C> {
    pub bytes: Seq<u8>,
    pub resolution: (u32, u32),
    pub context: Context<C>,
}

/// The abstract value of a matched pair.
pub struct PairView<C> {
    pub left: FrameView<C>,
    pub right: FrameView<C>,
}

impl<C> PairView<C> {
    /// The pair's timestamp.
    pub open spec fn timestamp(self) -> int {
        spec_pair_timestamp(
            self.left.context.camera_buffer_timestamp,
            self.right.context.camera_buffer_timestamp,
        )
    }

    /// Whether both frames carry a centroid.
    pub open spec fn usable(self) -> bool {
        self.left.context.centroid is Some && self.right.context.centroid is Some
    }
}

/// One camera frame: full-resolution MONO8 bytes, their (width, height),
/// and the frame's context.
#[derive(Debug)]
pub struct Frame<C> {
    pub bytes: Vec<u8>,
    pub resolution: (u32, u32),
    pub context: Context<C>,
}

impl<C> View for Frame<C> {
    type V = FrameView<C>;

    open spec fn view(&self) -> FrameView<C> {
        FrameView { bytes: self.bytes@, resolution: self.resolution, context: self.context }
    }
}

impl<C> View for MatchedFramePair<C> {
    type V = PairView<C>;

    open spec fn view(&self) -> PairView<C> {
        PairView { left: self.left@, right: self.right@ }
    }
}

impl<C: Copy> Frame<C> {
    pub fn new(bytes: Vec<u8>, resolution: (u32, u32), context: Context<C>) -> (res: Self)
        ensures
            res.bytes@ == bytes@,
            res.resolution == resolution,
            res.context == context,
    {
        Frame { bytes, resolution, context }
    }

    pub fn raw_bytes_full_resolution(&self) -> (res: &[u8])
        ensures
            res@ == self.bytes@,
    {
        self.bytes.as_slice()
    }

    pub fn raw_full_resolution(&self) -> (res: (u32, u32))
        ensures
            res == self.resolution,
    {
        self.resolution
    }

    pub fn context(&self) -> (res: &Context<C>)
        ensures
            *res == self.context,
    {
        &self.context
    }

    pub fn set_context(&mut self, context: Context<C>)
        ensures
            final(self).context == context,
            final(self).bytes@ == old(self).bytes@,
            final(self).resolution == old(self).resolution,
    {
        self.context = context;
    }

    /// A copy of the frame with the same bytes, resolution and context.
    pub fn duplicate(&self) -> (res: Self)
        ensures
            res@ == self@,
    {
        Frame {
            bytes: vstd::slice::slice_to_vec(self.bytes.as_slice()),
            resolution: self.resolution,
            context: self.context,
        }
    }
}

/// The timestamp of a pair: the mean of the two camera timestamps, rounded
/// down.
pub open spec fn spec_pair_timestamp(left_ts: u64, right_ts: u64) -> int {
    (left_ts + right_ts) / 2
}

/// A left frame and a right frame matched to the same capture moment.
#[derive(Debug)]
pub struct MatchedFramePair<C> {
    pub left: Frame<C>,
    pub right: Frame<C>,
}

impl<C: Copy> MatchedFramePair<C> {
    pub fn new(left: Frame<C>, right: Frame<C>) -> (res: Self)
        ensures
            res.left == left,
            res.right == right,
    {
        MatchedFramePair { left, right }
    }

    pub fn left(&self) -> (res: &Frame<C>)
        ensures
            *res == self.left,
    {
        &self.left
    }

    pub fn right(&self) -> (res: &Frame<C>)
        ensures
            *res == self.right,
    {
        &self.right
    }

    /// The mean of the two camera buffer timestamps, rounded down.
    pub fn pair_timestamp_ns(&self) -> (res: u64)
        ensures
            res == self@.timestamp(),
    {
        let l = self.left.context.camera_buffer_timestamp;
        let r = self.right.context.camera_buffer_timestamp;
        if l <= r {
            l + (r - l) / 2
        } else {
            r + (l - r) / 2
        }
    }

    /// A copy of the pair.
    pub fn duplicate(&self) -> (res: Self)
        ensures
            res@ == self@,
    {
        MatchedFramePair { left: self.left.duplicate(), right: self.right.duplicate() }
    }
}

} // verus!
