use mjolnir_backend::barrier::{ArrivalOutcome, BarrierResult, BarrierState};

#[test]
fn the_last_arrival_releases_the_barrier() {
    let mut state = BarrierState::new(3);
    assert_eq!(state.arrive(), ArrivalOutcome::MustWait { generation: 0 });
    assert_eq!(state.after_wakeup(0), None);
    assert_eq!(state.arrive(), ArrivalOutcome::MustWait { generation: 0 });
    assert_eq!(state.arrive(), ArrivalOutcome::Done(BarrierResult::Released));
    assert_eq!(state.count, 0);
    assert_eq!(state.generation, 1);
    assert_eq!(state.after_wakeup(0), Some(BarrierResult::Released));
}

#[test]
fn cancel_releases_waiters_and_turns_later_arrivals_away() {
    let mut state = BarrierState::new(2);
    assert_eq!(state.arrive(), ArrivalOutcome::MustWait { generation: 0 });
    state.cancel();
    assert_eq!(state.after_wakeup(0), Some(BarrierResult::Canceled));
    assert_eq!(state.arrive(), ArrivalOutcome::Done(BarrierResult::Canceled));
    assert!(state.cancelled);
}

#[test]
fn a_barrier_for_one_thread_releases_at_once() {
    let mut state = BarrierState::new(1);
    assert_eq!(state.arrive(), ArrivalOutcome::Done(BarrierResult::Released));
    assert_eq!(state.arrive(), ArrivalOutcome::Done(BarrierResult::Released));
    assert_eq!(state.generation, 2);
}

#[test]
fn a_waiter_is_released_even_when_the_next_round_has_begun() {
    // Thread A waits; thread B completes the round and arrives again before A
    // has looked at the state.
    let mut state = BarrierState::new(2);
    assert_eq!(state.arrive(), ArrivalOutcome::MustWait { generation: 0 });
    assert_eq!(state.arrive(), ArrivalOutcome::Done(BarrierResult::Released));
    assert_eq!(state.arrive(), ArrivalOutcome::MustWait { generation: 1 });
    assert_eq!(state.count, 1);
    // A is released; B waits for the second round.
    assert_eq!(state.after_wakeup(0), Some(BarrierResult::Released));
    assert_eq!(state.after_wakeup(1), None);
    // A arrives again and completes the second round.
    assert_eq!(state.arrive(), ArrivalOutcome::Done(BarrierResult::Released));
    assert_eq!(state.after_wakeup(1), Some(BarrierResult::Released));
}

#[test]
fn a_barrier_for_zero_threads_never_releases() {
    let mut state = BarrierState::new(0);
    for _ in 0..5 {
        assert_eq!(state.arrive(), ArrivalOutcome::MustWait { generation: 0 });
        assert_eq!(state.after_wakeup(0), None);
    }
    assert_eq!(state.count, 5);
    state.cancel();
    assert_eq!(state.after_wakeup(0), Some(BarrierResult::Canceled));
}
