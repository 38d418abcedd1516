use mjolnir_backend::capture::{
    BufferAction, BufferOutcome, CapturePolicy, CaptureProgress, LoopChecks, LoopStep,
};

fn checks(shutdown: bool, duration: bool, throwaway: bool) -> LoopChecks {
    LoopChecks {
        shutdown_requested: shutdown,
        duration_limit_reached: duration,
        within_throwaway: throwaway,
    }
}

#[test]
fn loop_drains_while_settling_then_records_until_the_frame_limit() {
    let policy = CapturePolicy { max_frames: Some(2), count_dropped: true, background_frames: 1 };
    let mut progress = CaptureProgress::new();
    assert_eq!(progress.next_step(policy, checks(false, false, true)), LoopStep::DrainThrowaway);
    assert_eq!(
        progress.next_step(policy, checks(false, false, false)),
        LoopStep::AwaitBuffer { first_of_recording: true }
    );
    // A timeout before the first buffer is not reported.
    assert_eq!(progress.on_buffer(policy, BufferOutcome::TimedOut), BufferAction::Ignore);
    assert_eq!(
        progress.next_step(policy, checks(false, false, false)),
        LoopStep::AwaitBuffer { first_of_recording: false }
    );
    assert_eq!(
        progress.on_buffer(policy, BufferOutcome::Delivered { payload_len: 8 }),
        BufferAction::Keep { frame_index: 0, background_phase: true, background_just_completed: true }
    );
    progress.next_step(policy, checks(false, false, false));
    assert_eq!(progress.on_buffer(policy, BufferOutcome::TimedOut), BufferAction::ReportTimeout);
    assert_eq!(progress.frames_dropped, 1);
    progress.next_step(policy, checks(false, false, false));
    assert_eq!(
        progress.on_buffer(policy, BufferOutcome::Delivered { payload_len: 0 }),
        BufferAction::ReportEmpty
    );
    progress.next_step(policy, checks(false, false, false));
    assert_eq!(progress.on_buffer(policy, BufferOutcome::Failed), BufferAction::ReportFailure);
    assert_eq!(progress.frames_dropped, 2);
    progress.next_step(policy, checks(false, false, false));
    assert_eq!(
        progress.on_buffer(policy, BufferOutcome::Delivered { payload_len: 8 }),
        BufferAction::Keep { frame_index: 1, background_phase: false, background_just_completed: false }
    );
    assert_eq!(progress.next_step(policy, checks(false, false, false)), LoopStep::Stop);
    assert_eq!(progress.frames_saved, 2);
}

#[test]
fn shutdown_and_duration_stop_the_loop_and_drops_may_go_uncounted() {
    let policy = CapturePolicy { max_frames: None, count_dropped: false, background_frames: 0 };
    let mut progress = CaptureProgress::new();
    assert_eq!(progress.next_step(policy, checks(true, false, true)), LoopStep::Stop);
    assert_eq!(progress.next_step(policy, checks(false, true, false)), LoopStep::Stop);
    progress.next_step(policy, checks(false, false, false));
    assert_eq!(progress.on_buffer(policy, BufferOutcome::Failed), BufferAction::ReportFailure);
    assert_eq!(progress.frames_dropped, 0);
}
