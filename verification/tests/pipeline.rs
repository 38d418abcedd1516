use mjolnir_backend::aggregation::{AggregationCommand, AggregationCoordinatorState, FramePairMatcher};
use mjolnir_backend::pipeline::{CameraId, Context, Frame, MatchedFramePair};
use mjolnir_backend::trajectory::TrajectoryInputCollector;

type Centroid = (f64, f64);

fn make_frame(camera_id: CameraId, timestamp_ns: u64, center: Option<Centroid>) -> Frame<Centroid> {
    let mut context = Context::new(camera_id, timestamp_ns);
    context.set_detected(Some(center.is_some()));
    context.set_centroid(center);
    Frame::new(vec![1, 2, 3, 4], (2, 2), context)
}

fn make_pair(
    timestamp_ns: u64,
    left_center: Option<Centroid>,
    right_center: Option<Centroid>,
) -> MatchedFramePair<Centroid> {
    let left = make_frame(CameraId::FieldLeft, timestamp_ns, left_center);
    let right = make_frame(CameraId::FieldRight, timestamp_ns, right_center);
    MatchedFramePair::new(left, right)
}

#[test]
fn test_build_optimize_trajectory_input_filters_missing_detections_and_uses_median_dt() {
    let mut collector = TrajectoryInputCollector::new();
    collector.push(make_pair(100, Some((10.0, 20.0)), Some((30.0, 40.0))));
    collector.push(make_pair(133, Some((11.0, 21.0)), Some((31.0, 41.0))));
    collector.push(make_pair(166, Some((12.0, 22.0)), None));
    collector.push(make_pair(200, Some((13.0, 23.0)), Some((33.0, 43.0))));

    let input = collector
        .build_optimize_trajectory_input()
        .expect("expected optimize trajectory input");

    assert_eq!(input.pixels().len(), 2);
    assert_eq!(input.pixels()[0].len(), 3);
    assert_eq!(input.pixels()[1].len(), 3);
    assert_eq!(input.pixels()[0][0], (10.0, 20.0));
    assert_eq!(input.pixels()[0][1], (11.0, 21.0));
    assert_eq!(input.pixels()[0][2], (13.0, 23.0));
    assert_eq!(input.pixels()[1][0], (30.0, 40.0));
    assert_eq!(input.pixels()[1][1], (31.0, 41.0));
    assert_eq!(input.pixels()[1][2], (33.0, 43.0));
    // Median interval 50 ns, kept doubled.
    assert_eq!(input.dt_doubled_ns(), 100);
}

#[test]
fn test_build_optimize_trajectory_input_returns_none_if_too_few_valid_pairs() {
    let mut collector = TrajectoryInputCollector::new();
    collector.push(make_pair(100, Some((10.0, 20.0)), None));
    collector.push(make_pair(133, Some((11.0, 21.0)), Some((31.0, 41.0))));

    assert!(collector.build_optimize_trajectory_input().is_none());
}

#[test]
fn collector_counts_and_clears_pairs() {
    let mut collector = TrajectoryInputCollector::new();
    assert!(collector.is_empty());
    collector.push(make_pair(1, None, None));
    collector.push(make_pair(2, None, None));
    assert_eq!(collector.len(), 2);
    assert_eq!(collector.matched_pairs()[1].pair_timestamp_ns(), 2);
    collector.clear();
    assert!(collector.is_empty());
}

#[test]
fn median_of_an_odd_number_of_intervals_is_the_middle_one() {
    let mut collector = TrajectoryInputCollector::new();
    collector.push(make_pair(0, Some((0.0, 0.0)), Some((0.0, 0.0))));
    collector.push(make_pair(10, Some((1.0, 0.0)), Some((1.0, 0.0))));
    collector.push(make_pair(40, Some((2.0, 0.0)), Some((2.0, 0.0))));
    collector.push(make_pair(41, Some((3.0, 0.0)), Some((3.0, 0.0))));
    let input = collector.build_optimize_trajectory_input().expect("input");
    // Intervals 10, 30, 1: the median is 10.
    assert_eq!(input.dt_doubled_ns(), 20);
}

#[test]
fn equal_timestamps_give_no_interval() {
    let mut collector = TrajectoryInputCollector::new();
    collector.push(make_pair(5, Some((0.0, 0.0)), Some((0.0, 0.0))));
    collector.push(make_pair(5, Some((1.0, 0.0)), Some((1.0, 0.0))));
    assert!(collector.build_optimize_trajectory_input().is_none());
}

#[test]
fn pair_timestamp_is_the_mean_of_the_two_camera_timestamps() {
    let pair = MatchedFramePair::new(
        make_frame(CameraId::FieldLeft, 100, None),
        make_frame(CameraId::FieldRight, 105, None),
    );
    assert_eq!(pair.pair_timestamp_ns(), 102);
    assert_eq!(pair.left().context().camera_id(), CameraId::FieldLeft);
    assert_eq!(pair.right().context().camera_buffer_timestamp(), 105);
}

#[test]
fn matcher_pairs_close_frames_and_drops_the_older_unmatched_one() {
    let mut matcher = FramePairMatcher::new(10);
    assert!(matcher.push_frame(make_frame(CameraId::FieldLeft, 100, None)).is_empty());
    let pairs = matcher.push_frame(make_frame(CameraId::FieldRight, 105, None));
    assert_eq!(pairs.len(), 1);
    assert_eq!(pairs[0].left().context().camera_buffer_timestamp(), 100);
    assert_eq!(pairs[0].right().context().camera_buffer_timestamp(), 105);

    // A left frame far older than the right one is dropped.
    assert!(matcher.push_frame(make_frame(CameraId::FieldLeft, 200, None)).is_empty());
    assert!(matcher.push_frame(make_frame(CameraId::FieldRight, 300, None)).is_empty());
    let pairs = matcher.push_frame(make_frame(CameraId::FieldLeft, 295, None));
    assert_eq!(pairs.len(), 1);
    assert_eq!(pairs[0].left().context().camera_buffer_timestamp(), 295);
    assert_eq!(pairs[0].right().context().camera_buffer_timestamp(), 300);
}

#[test]
fn test_coordinator_collects_from_start_and_emits_after_sample_limit() {
    let mut coordinator = AggregationCoordinatorState::new(250, 3);
    coordinator.on_command(AggregationCommand::Start { timestamp_ns: 100 });
    assert!(coordinator.on_matched_pair(make_pair(90, Some((1.0, 2.0)), Some((3.0, 4.0)))).is_none());
    assert!(coordinator
        .on_matched_pair(make_pair(100, Some((10.0, 20.0)), Some((30.0, 40.0))))
        .is_none());
    assert!(coordinator.on_matched_pair(make_pair(133, Some((11.0, 21.0)), None)).is_none());
    let optimize_input = coordinator
        .on_matched_pair(make_pair(166, Some((12.0, 22.0)), Some((32.0, 42.0))))
        .expect("expected optimize input");
    assert_eq!(optimize_input.pixels().len(), 2);
    assert_eq!(optimize_input.pixels()[0].len(), 2);
    assert_eq!(optimize_input.pixels()[1].len(), 2);
    assert_eq!(optimize_input.pixels()[0][0], (10.0, 20.0));
    assert_eq!(optimize_input.pixels()[0][1], (12.0, 22.0));
    assert_eq!(optimize_input.pixels()[1][0], (30.0, 40.0));
    assert_eq!(optimize_input.pixels()[1][1], (32.0, 42.0));
}

#[test]
fn coordinator_start_collects_lookback_pairs_and_reset_discards_them() {
    let mut coordinator = AggregationCoordinatorState::new(2, 3);
    assert!(coordinator.on_matched_pair(make_pair(10, Some((1.0, 1.0)), Some((1.0, 1.0)))).is_none());
    assert!(coordinator.on_matched_pair(make_pair(20, Some((2.0, 2.0)), Some((2.0, 2.0)))).is_none());
    assert!(coordinator.on_matched_pair(make_pair(30, Some((3.0, 3.0)), Some((3.0, 3.0)))).is_none());
    // The look-back buffer holds the pairs at 20 and 30; both are collected.
    coordinator.on_command(AggregationCommand::Start { timestamp_ns: 15 });
    let input = coordinator
        .on_matched_pair(make_pair(40, Some((4.0, 4.0)), Some((4.0, 4.0))))
        .expect("three pairs collected");
    assert_eq!(input.pixels()[0], vec![(2.0, 2.0), (3.0, 3.0), (4.0, 4.0)]);

    coordinator.on_command(AggregationCommand::Start { timestamp_ns: 100 });
    coordinator.on_command(AggregationCommand::Reset);
    assert!(coordinator.on_matched_pair(make_pair(110, Some((5.0, 5.0)), Some((5.0, 5.0)))).is_none());
}

#[test]
fn matcher_pairs_always_join_a_left_frame_with_a_right_frame_once() {
    let mut matcher = FramePairMatcher::new(10);
    let mut pairs = Vec::new();
    for (camera, ts) in [
        (CameraId::FieldLeft, 100),
        (CameraId::FieldLeft, 103),
        (CameraId::FieldRight, 101),
        (CameraId::FieldRight, 104),
        (CameraId::FieldRight, 200),
        (CameraId::FieldLeft, 205),
    ] {
        pairs.extend(matcher.push_frame(make_frame(camera, ts, None)));
    }
    let stamps: Vec<(u64, u64)> = pairs
        .iter()
        .map(|p| (p.left().context().camera_buffer_timestamp(), p.right().context().camera_buffer_timestamp()))
        .collect();
    assert_eq!(stamps, vec![(100, 101), (103, 104), (205, 200)]);
    for p in &pairs {
        assert_eq!(p.left().context().camera_id(), CameraId::FieldLeft);
        assert_eq!(p.right().context().camera_id(), CameraId::FieldRight);
    }
}

#[test]
fn a_window_emits_once_and_then_collects_nothing_until_the_next_start() {
    let mut coordinator = AggregationCoordinatorState::new(10, 2);
    coordinator.on_command(AggregationCommand::Start { timestamp_ns: 50 });
    assert!(coordinator.on_matched_pair(make_pair(40, Some((1.0, 1.0)), Some((1.0, 1.0)))).is_none());
    assert!(coordinator.on_matched_pair(make_pair(60, Some((2.0, 2.0)), Some((2.0, 2.0)))).is_none());
    let input = coordinator
        .on_matched_pair(make_pair(70, Some((3.0, 3.0)), Some((3.0, 3.0))))
        .expect("two stamped pairs collected");
    assert_eq!(input.pixels()[0], vec![(2.0, 2.0), (3.0, 3.0)]);
    // The window is closed: later pairs are not collected.
    assert!(coordinator.on_matched_pair(make_pair(80, Some((4.0, 4.0)), Some((4.0, 4.0)))).is_none());
    assert!(coordinator.on_matched_pair(make_pair(90, Some((5.0, 5.0)), Some((5.0, 5.0)))).is_none());
}
