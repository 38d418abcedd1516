use mjolnir_backend::ptp::{
    build_action_command_packet, estimate_ptp_offset_ns, PtpProbe, PtpStatusWait,
    PTP_LOCK_CONSECUTIVE_READS, PTP_MAX_STATUS_READS,
};

fn probe(before_ns: u64, camera_time_ns: u64, after_ns: u64) -> PtpProbe {
    PtpProbe { before_ns, camera_time_ns, after_ns }
}

#[test]
fn offset_is_the_mean_over_probes_without_slow_round_trips() {
    let probes = vec![
        // round trip 10, midpoint 1005, offset 995
        probe(1000, 2000, 1010),
        // round trip 20, midpoint 2010, offset 1000
        probe(2000, 3010, 2020),
        // round trip 31 > 3 x 10: left out
        probe(3000, 9000, 3031),
        // round trip 12, midpoint 4006, offset 997
        probe(4000, 5003, 4012),
    ];
    // (995 + 1000 + 997) / 3 = 997 (rounded toward zero)
    assert_eq!(estimate_ptp_offset_ns(&probes), 997);
}

#[test]
fn a_round_trip_of_exactly_three_times_the_shortest_is_kept() {
    let probes = vec![
        // round trip 10, midpoint 1005, offset 995
        probe(1000, 2000, 1010),
        // round trip 30, midpoint 2015, offset 1000
        probe(2000, 3015, 2030),
    ];
    assert_eq!(estimate_ptp_offset_ns(&probes), 997);
}

#[test]
fn zero_round_trips_are_kept() {
    let probes = vec![probe(500, 800, 500), probe(600, 1000, 601)];
    // only the first probe has a round trip within 3 x 0
    assert_eq!(estimate_ptp_offset_ns(&probes), 300);
}

#[test]
fn negative_offsets_round_toward_zero() {
    let probes = vec![probe(1000, 500, 1002), probe(2000, 1500, 2002), probe(3000, 2501, 3002)];
    // offsets -501, -501, -500: sum -1502, mean -500.67 -> -500
    assert_eq!(estimate_ptp_offset_ns(&probes), -500);
}

#[test]
fn action_command_packet_is_big_endian() {
    let packet = build_action_command_packet(0x0102_0304_0506_0708, 0xAABB_CCDD, 0x1122_3344, 0xFFFF_FFFF);
    assert_eq!(
        packet,
        vec![
            0x42, 0x81, 0x01, 0x00, 0x00, 20, 0x00, 0x01, 0xAA, 0xBB, 0xCC, 0xDD, 0x11, 0x22,
            0x33, 0x44, 0xFF, 0xFF, 0xFF, 0xFF, 0x01, 0x02, 0x03, 0x04, 0x05, 0x06, 0x07, 0x08,
        ]
    );
}

#[test]
fn lock_needs_consecutive_matches() {
    let mut wait = PtpStatusWait::for_lock();
    for _ in 0..(PTP_LOCK_CONSECUTIVE_READS - 1) {
        assert!(wait.should_poll());
        wait.record(true);
    }
    wait.record(false);
    assert!(!wait.reached());
    for _ in 0..PTP_LOCK_CONSECUTIVE_READS {
        assert!(wait.should_poll());
        wait.record(true);
    }
    assert!(!wait.should_poll());
    assert!(wait.reached());
    assert_eq!(wait.attempts, 2 * PTP_LOCK_CONSECUTIVE_READS);
}

#[test]
fn role_wait_needs_one_match_and_gives_up_after_the_attempts() {
    let mut wait = PtpStatusWait::for_role();
    wait.record(true);
    assert!(wait.reached());
    assert!(!wait.should_poll());

    let mut wait = PtpStatusWait::for_role();
    while wait.should_poll() {
        wait.record(false);
    }
    assert!(!wait.reached());
    assert_eq!(wait.attempts, PTP_MAX_STATUS_READS);
}
