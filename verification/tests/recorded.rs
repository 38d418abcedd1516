use std::path::PathBuf;

use mjolnir_backend::pipeline::{CameraId, Frame as PipelineFrame};
use mjolnir_backend::recorded::{
    recorded_frame_sort_key, recorded_frame_to_frame, Frame as RecordedFrame, Metadata,
};
use mjolnir_backend::replay::{first_frame_for, replay_order};

fn make_frame(metadata: Metadata, bytes: Vec<u8>) -> RecordedFrame {
    RecordedFrame {
        output_camera_dir: PathBuf::new(),
        frame_index: metadata.frame_index,
        bytes,
        metadata,
    }
}

fn metadata(camera_id: &str, frame_index: usize, buffer_timestamp_ns: u64) -> Metadata {
    Metadata {
        camera_id: camera_id.to_string(),
        frame_index,
        width: 1,
        height: 1,
        payload_bytes: 1,
        system_timestamp_ns: 0,
        buffer_timestamp_ns,
        frame_id: 0,
    }
}

#[test]
fn recorded_frame_to_frame_uses_buffer_timestamp() {
    let frame = make_frame(
        Metadata {
            camera_id: "camera-a".to_string(),
            frame_index: 3,
            width: 3,
            height: 1,
            payload_bytes: 3,
            system_timestamp_ns: 999,
            buffer_timestamp_ns: 456,
            frame_id: 789,
        },
        vec![1, 2, 3],
    );

    let converted: PipelineFrame<(f64, f64)> = recorded_frame_to_frame(frame, CameraId::FieldLeft);

    assert_eq!(converted.raw_bytes_full_resolution(), &[1, 2, 3]);
    assert_eq!(converted.raw_full_resolution(), (3, 1));
    assert_eq!(converted.context().camera_id(), CameraId::FieldLeft);
    assert_eq!(converted.context().camera_buffer_timestamp(), 456);
}

#[test]
fn recorded_frame_sort_key_uses_buffer_timestamp_with_deterministic_tiebreakers() {
    let frame = make_frame(
        Metadata {
            camera_id: "camera-z".to_string(),
            frame_index: 7,
            width: 0,
            height: 0,
            payload_bytes: 0,
            system_timestamp_ns: 999,
            buffer_timestamp_ns: 22,
            frame_id: 11,
        },
        vec![],
    );

    assert_eq!(
        recorded_frame_sort_key(&frame.metadata),
        (22, "camera-z".to_string(), 7)
    );
}

#[test]
fn frames_are_replayed_in_buffer_timestamp_order() {
    let frames = vec![
        metadata("left", 10, 200),
        metadata("left", 11, 300),
        metadata("right", 20, 100),
        metadata("right", 21, 300),
    ];
    assert_eq!(replay_order(&frames), vec![2, 0, 1, 3]);
}

#[test]
fn replay_order_breaks_ties_by_camera_id_then_frame_index_then_listing() {
    let frames = vec![
        metadata("camera-b", 1, 50),
        metadata("camera-a", 9, 50),
        metadata("camera-a", 2, 50),
        metadata("camera-a", 2, 50),
        metadata("camera-ab", 0, 50),
    ];
    assert_eq!(replay_order(&frames), vec![2, 3, 1, 4, 0]);
    assert!(replay_order(&Vec::new()).is_empty());
}

#[test]
fn first_frame_for_picks_the_lowest_frame_index_of_the_camera() {
    let frames = vec![
        metadata("left", 5, 1),
        metadata("right", 0, 1),
        metadata("left", 2, 1),
        metadata("left", 2, 1),
    ];
    assert_eq!(first_frame_for(&frames, "left"), Some(2));
    assert_eq!(first_frame_for(&frames, "right"), Some(1));
    assert_eq!(first_frame_for(&frames, "centre"), None);
}
