//! The decisions of a camera capture loop. The loop itself pops frame
//! buffers from the camera stream, copies them and hands them on; before
//! each pop it asks `next_step` whether to stop, to drain the stream while
//! the sensor settles, or to wait for a buffer, and after each pop it asks
//! `on_buffer` what to do with what arrived.

use vstd::prelude::*;

verus! {

/// The limits and counting rules of one capture loop.
#[derive(Debug, Clone, Copy, PartialEq, Eq, Structural)]
pub struct CapturePolicy {
    /// Stop once this many frames were kept.
    pub max_frames: Option<usize>,
    /// Whether lost frames (timeouts after the first buffer, failed
    /// buffers) are counted as dropped.
    pub count_dropped: bool,
    /// Number of frames that build the background model; while fewer were
    /// kept, the subject is asked to stay still.
    pub background_frames: usize,
}

/// What the loop observed before its next step; the time comparisons are
/// made by the caller, which owns the clock.
#[derive(Debug, Clone, Copy, PartialEq, Eq, Structural)]
pub struct LoopChecks {
    /// A shutdown was requested.
    pub shutdown_requested: bool,
    /// A duration limit was given and it has passed.
    pub duration_limit_reached: bool,
    /// The sensor is still within its settling period.
    pub within_throwaway: bool,
}

/// The next step of the capture loop.
#[derive(Debug, Clone, Copy, PartialEq, Eq, Structural)]
pub enum LoopStep {
    /// Leave the loop.
    Stop,
    /// Pop and immediately return any ready buffer without keeping it.
    DrainThrowaway,
    /// Wait for the next buffer; `recording_started` is set the first time.
    AwaitBuffer { first_of_recording: bool },
}

/// What a buffer pop produced.
#[derive(Debug, Clone, Copy, PartialEq, Eq, Structural)]
pub enum BufferOutcome {
    /// No buffer arrived before the timeout.
    TimedOut,
    /// A buffer arrived with a success status and this many payload bytes.
    Delivered { payload_len: usize },
    /// A buffer arrived with a failure status.
    Failed,
}

/// What to do with a popped buffer.
#[derive(Debug, Clone, Copy, PartialEq, Eq, Structural)]
pub enum BufferAction {
    /// Nothing to report (a timeout before the first buffer).
    Ignore,
    /// Report a timeout waiting for a buffer.
    ReportTimeout,
    /// Report an empty buffer; the frame is not kept.
    ReportEmpty,
    /// Report a buffer with a failure status.
    ReportFailure,
    /// Keep the frame under `frame_index`. `background_phase` tells whether
    /// it is one of the background-model frames, and
    /// `background_just_completed` whether it was the last of them.
    Keep { frame_index: usize, background_phase: bool, background_just_completed: bool },
}

/// Counters of a capture loop.
#[derive(Debug, Clone, Copy, PartialEq, Eq, Structural)]
pub struct CaptureProgress {
    pub frames_saved: usize,
    pub frames_dropped: usize,
    pub first_buffer_arrived: bool,
    pub recording_started: bool,
    /// The last step was `AwaitBuffer`, so a buffer outcome is expected.
    pub awaiting_buffer: bool,
}

/// Whether the frame limit, if any, was reached.
pub open spec fn frame_limit_reached(p: CaptureProgress, policy: CapturePolicy) -> bool {
    match policy.max_frames {
        Some(limit) => p.frames_saved >= limit,
        None => false,
    }
}

/// The next step and the progress after it.
pub open spec fn spec_next_step(
    p: CaptureProgress,
    policy: CapturePolicy,
    checks: LoopChecks,
) -> (CaptureProgress, LoopStep) {
    if checks.shutdown_requested || frame_limit_reached(p, policy) || checks.duration_limit_reached {
        (CaptureProgress { awaiting_buffer: false, ..p }, LoopStep::Stop)
    } else if checks.within_throwaway {
        (CaptureProgress { awaiting_buffer: false, ..p }, LoopStep::DrainThrowaway)
    } else {
        (
            CaptureProgress { recording_started: true, awaiting_buffer: true, ..p },
            LoopStep::AwaitBuffer { first_of_recording: !p.recording_started },
        )
    }
}

/// Dropped count after one more lost frame.
pub open spec fn dropped_after_loss(p: CaptureProgress, policy: CapturePolicy) -> int {
    if policy.count_dropped {
        p.frames_dropped + 1
    } else {
        p.frames_dropped as int
    }
}

/// The action for a popped buffer and the progress after it.
pub open spec fn spec_on_buffer(
    p: CaptureProgress,
    policy: CapturePolicy,
    outcome: BufferOutcome,
) -> (CaptureProgress, BufferAction) {
    let q = CaptureProgress { awaiting_buffer: false, ..p };
    match outcome {
        BufferOutcome::TimedOut => {
            if p.first_buffer_arrived {
                (
                    CaptureProgress { frames_dropped: dropped_after_loss(p, policy) as usize, ..q },
                    BufferAction::ReportTimeout,
                )
            } else {
                (q, BufferAction::Ignore)
            }
        },
        BufferOutcome::Failed => (
            CaptureProgress {
                first_buffer_arrived: true,
                frames_dropped: dropped_after_loss(p, policy) as usize,
                ..q
            },
            BufferAction::ReportFailure,
        ),
        BufferOutcome::Delivered { payload_len } => {
            if payload_len == 0 {
                (CaptureProgress { first_buffer_arrived: true, ..q }, BufferAction::ReportEmpty)
            } else {
                (
                    CaptureProgress {
                        first_buffer_arrived: true,
                        frames_saved: (p.frames_saved + 1) as usize,
                        ..q
                    },
                    BufferAction::Keep {
                        frame_index: p.frames_saved,
                        background_phase: p.frames_saved < policy.background_frames,
                        background_just_completed: p.frames_saved + 1 == policy.background_frames,
                    },
                )
            }
        },
    }
}

impl CaptureProgress {
    /// Counters of a loop that has not started.
    pub fn new() -> (res: Self)
        ensures
            res == (CaptureProgress {
                frames_saved: 0,
                frames_dropped: 0,
                first_buffer_arrived: false,
                recording_started: false,
                awaiting_buffer: false,
            }),
    {
        CaptureProgress {
            frames_saved: 0,
            frames_dropped: 0,
            first_buffer_arrived: false,
            recording_started: false,
            awaiting_buffer: false,
        }
    }

    /// The loop's invariant: the frames kept never exceed the limit, and a
    /// buffer is only awaited while the limit is not reached.
    pub open spec fn within_limit(self, policy: CapturePolicy) -> bool {
        match policy.max_frames {
            Some(limit) => {
                &&& self.frames_saved <= limit
                &&& self.awaiting_buffer ==> self.frames_saved < limit
            },
            None => true,
        }
    }

    /// Decides the next step of the loop: stop on a shutdown request, a
    /// reached frame limit or a passed duration limit (in that order of
    /// checking); drain while the sensor settles; otherwise wait for a
    /// buffer, noting the start of the recording.
    pub fn next_step(&mut self, policy: CapturePolicy, checks: LoopChecks) -> (res: LoopStep)
        requires
            old(self).within_limit(policy),
        ensures
            (*final(self), res) == spec_next_step(*old(self), policy, checks),
            final(self).within_limit(policy),
    {
        let limit_reached = match policy.max_frames {
            Some(limit) => self.frames_saved >= limit,
            None => false,
        };
        if checks.shutdown_requested || limit_reached || checks.duration_limit_reached {
            self.awaiting_buffer = false;
            LoopStep::Stop
        } else if checks.within_throwaway {
            self.awaiting_buffer = false;
            LoopStep::DrainThrowaway
        } else {
            let first = !self.recording_started;
            self.recording_started = true;
            self.awaiting_buffer = true;
            LoopStep::AwaitBuffer { first_of_recording: first }
        }
    }

    /// Decides what to do with what a buffer pop produced: a timeout is only
    /// reported (and counted as a drop) once a first buffer arrived, a
    /// failed buffer is a drop, an empty one is reported and skipped, and
    /// any other frame is kept under the next frame index.
    pub fn on_buffer(&mut self, policy: CapturePolicy, outcome: BufferOutcome) -> (res: BufferAction)
        requires
            old(self).within_limit(policy),
            old(self).awaiting_buffer,
            old(self).frames_saved < usize::MAX,
            old(self).frames_dropped < usize::MAX,
        ensures
            (*final(self), res) == spec_on_buffer(*old(self), policy, outcome),
            final(self).within_limit(policy),
    {
        self.awaiting_buffer = false;
        match outcome {
            BufferOutcome::TimedOut => {
                if self.first_buffer_arrived {
                    if policy.count_dropped {
                        self.frames_dropped = self.frames_dropped + 1;
                    }
                    BufferAction::ReportTimeout
                } else {
                    BufferAction::Ignore
                }
            },
            BufferOutcome::Failed => {
                self.first_buffer_arrived = true;
                if policy.count_dropped {
                    self.frames_dropped = self.frames_dropped + 1;
                }
                BufferAction::ReportFailure
            },
            BufferOutcome::Delivered { payload_len } => {
                self.first_buffer_arrived = true;
                if payload_len == 0 {
                    BufferAction::ReportEmpty
                } else {
                    let index = self.frames_saved;
                    self.frames_saved = self.frames_saved + 1;
                    BufferAction::Keep {
                        frame_index: index,
                        background_phase: index < policy.background_frames,
                        background_just_completed: self.frames_saved == policy.background_frames,
                    }
                }
            },
        }
    }
}

/// Frames are numbered in the order they are kept: each kept frame gets the
/// number of frames kept before it, and the count grows by exactly one;
/// every other outcome keeps the count unchanged.
pub proof fn law_kept_frames_are_numbered_consecutively(
    p: CaptureProgress,
    policy: CapturePolicy,
    outcome: BufferOutcome,
)
    requires
        p.frames_saved < usize::MAX,
        p.frames_dropped < usize::MAX,
    ensures
        spec_on_buffer(p, policy, outcome).1 is Keep ==> spec_on_buffer(p, policy, outcome).1
            ->frame_index == p.frames_saved && spec_on_buffer(p, policy, outcome).0.frames_saved
            == p.frames_saved + 1,
        !(spec_on_buffer(p, policy, outcome).1 is Keep) ==> spec_on_buffer(
            p,
            policy,
            outcome,
        ).0.frames_saved == p.frames_saved,
{
}

/// A loop that follows the protocol (a buffer outcome only after
/// `AwaitBuffer`) never keeps more frames than its limit: the invariant
/// `within_limit` holds on a new loop and is kept by both decisions.
pub proof fn law_frame_limit_is_never_exceeded(
    p: CaptureProgress,
    policy: CapturePolicy,
    checks: LoopChecks,
    outcome: BufferOutcome,
)
    requires
        p.within_limit(policy),
        p.frames_saved < usize::MAX,
        p.frames_dropped < usize::MAX,
    ensures
        (CaptureProgress {
            frames_saved: 0,
            frames_dropped: 0,
            first_buffer_arrived: false,
            recording_started: false,
            awaiting_buffer: false,
        }).within_limit(policy),
        spec_next_step(p, policy, checks).0.within_limit(policy),
        p.awaiting_buffer ==> spec_on_buffer(p, policy, outcome).0.within_limit(policy),
{
}

/// A shutdown request always ends the capture loop, whatever the progress
/// of the recording, the policy and the other checks: before the first
/// frame, while draining the sensor's first frames, and in the middle of a
/// recording alike.
pub proof fn law_shutdown_always_stops(p: CaptureProgress, policy: CapturePolicy, checks: LoopChecks)
    requires
        checks.shutdown_requested,
    ensures
        spec_next_step(p, policy, checks).1 == LoopStep::Stop,
        !spec_next_step(p, policy, checks).0.awaiting_buffer,
{
}

} // verus!
