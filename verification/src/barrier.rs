//! The decisions of a cancelable barrier: a barrier that releases all its
//! waiters once `total` threads have arrived, or all of them at once when
//! any thread cancels it. The threads block on a lock and a condition
//! variable around this state; every decision about arrival, wake-up and
//! cancellation is made here.
//!
//! Each completed round bumps a generation number. A blocked thread
//! remembers the generation it arrived in and is released exactly when that
//! generation has passed, so a thread that completes a round and arrives
//! again at once cannot hold back the waiters of the round before.

use vstd::prelude::*;

verus! {

/// How a wait on the barrier ended.
#[derive(Debug, Clone, Copy, PartialEq, Eq, Hash, Structural)]
pub enum BarrierResult {
    Released,
    Canceled,
}

/// What an arriving thread does next.
#[derive(Debug, Clone, Copy, PartialEq, Eq, Structural)]
pub enum ArrivalOutcome {
    /// The wait ends at once with this result; when it is `Released` the
    /// arriving thread completed the barrier and must wake the others.
    Done(BarrierResult),
    /// The thread must block until it is woken up; `generation` is the
    /// round it arrived in, to be handed to `after_wakeup`.
    MustWait { generation: u64 },
}

/// The shared state of a cancelable barrier.
#[derive(Debug, Clone, Copy, PartialEq, Eq, Structural)]
pub struct BarrierState {
    /// Threads that arrived in the current round.
    pub count: usize,
    /// Threads that complete a round.
    pub total: usize,
    /// Rounds completed so far.
    pub generation: u64,
    pub cancelled: bool,
}

/// State and outcome after one more thread arrives.
pub open spec fn spec_arrive(s: BarrierState) -> (BarrierState, ArrivalOutcome) {
    if s.cancelled {
        (s, ArrivalOutcome::Done(BarrierResult::Canceled))
    } else if s.count + 1 == s.total {
        (
            BarrierState { count: 0, generation: (s.generation + 1) as u64, ..s },
            ArrivalOutcome::Done(BarrierResult::Released),
        )
    } else {
        (
            BarrierState { count: (s.count + 1) as usize, ..s },
            ArrivalOutcome::MustWait { generation: s.generation },
        )
    }
}

/// What a thread blocked since generation `seen` concludes when it is woken
/// up: cancellation wins, then a passed generation means its round was
/// completed; otherwise it keeps waiting.
pub open spec fn spec_after_wakeup(s: BarrierState, seen: u64) -> Option<BarrierResult> {
    if s.cancelled {
        Some(BarrierResult::Canceled)
    } else if s.generation != seen {
        Some(BarrierResult::Released)
    } else {
        None
    }
}

/// The state after `k` arrivals with no cancellation in between.
pub open spec fn arrivals(s: BarrierState, k: nat) -> BarrierState
    decreases k,
{
    if k == 0 {
        s
    } else {
        spec_arrive(arrivals(s, (k - 1) as nat)).0
    }
}

/// A fresh barrier for `total` threads.
pub open spec fn fresh_barrier(total: usize) -> BarrierState {
    BarrierState { count: 0, total, generation: 0, cancelled: false }
}

impl BarrierState {
    /// A barrier for `total` threads, with nobody waiting, no round completed
    /// and not cancelled.
    pub fn new(total: usize) -> (res: Self)
        ensures
            res == fresh_barrier(total),
    {
        BarrierState { count: 0, total, generation: 0, cancelled: false }
    }

    /// Whether one more arrival can be counted: the count and the generation
    /// stay below their machine limits.
    pub open spec fn can_arrive(self) -> bool {
        self.cancelled || (self.count < usize::MAX && self.generation < u64::MAX)
    }

    /// Records the arrival of a thread: a cancelled barrier turns it away, the
    /// last expected thread resets the count, starts the next generation and
    /// releases everybody, any other thread is counted and must wait.
    pub fn arrive(&mut self) -> (res: ArrivalOutcome)
        requires
            old(self).can_arrive(),
        ensures
            (*final(self), res) == spec_arrive(*old(self)),
    {
        if self.cancelled {
            return ArrivalOutcome::Done(BarrierResult::Canceled);
        }
        let seen = self.generation;
        self.count = self.count + 1;
        if self.count == self.total {
            self.count = 0;
            self.generation = self.generation + 1;
            ArrivalOutcome::Done(BarrierResult::Released)
        } else {
            ArrivalOutcome::MustWait { generation: seen }
        }
    }

    /// Decides the result of a thread blocked since generation `seen` that
    /// was woken up, `None` when it must go on waiting.
    pub fn after_wakeup(&self, seen: u64) -> (res: Option<BarrierResult>)
        ensures
            res == spec_after_wakeup(*self, seen),
    {
        if self.cancelled {
            Some(BarrierResult::Canceled)
        } else if self.generation != seen {
            Some(BarrierResult::Released)
        } else {
            None
        }
    }

    /// Cancels the barrier: every current and future wait ends as canceled.
    pub fn cancel(&mut self)
        ensures
            *final(self) == (BarrierState { cancelled: true, ..*old(self) }),
    {
        self.cancelled = true;
    }
}

/// Cancellation is final: a cancelled barrier stays cancelled whatever
/// arrives, every arrival is turned away at once, and every woken thread
/// ends with `Canceled`, whatever generation it waited in.
pub proof fn law_cancel_is_final(s: BarrierState, seen: u64)
    requires
        s.cancelled,
    ensures
        spec_arrive(s).0.cancelled,
        spec_arrive(s).1 == ArrivalOutcome::Done(BarrierResult::Canceled),
        spec_after_wakeup(s, seen) == Some(BarrierResult::Canceled),
{
}

/// The state after `k` arrivals on a fresh barrier for `total` threads
/// while the first round is still open.
pub open spec fn open_round(total: usize, k: nat) -> BarrierState {
    BarrierState { count: k as usize, ..fresh_barrier(total) }
}

/// The state right after the first round of a barrier for `total` threads
/// was completed.
pub open spec fn first_round_done(total: usize) -> BarrierState {
    BarrierState { generation: 1, ..fresh_barrier(total) }
}

/// What an arrival in generation `g` is told when it does not complete the
/// round.
pub open spec fn wait_in(g: u64) -> ArrivalOutcome {
    ArrivalOutcome::MustWait { generation: g }
}

/// On a fresh barrier for `total >= 1` threads, the first `total - 1`
/// arrivals must wait in generation 0 and stay blocked when woken, and the
/// arrival after them releases the barrier: the count is back to zero, the
/// next generation has begun, and every waiter of the round sees `Released`.
pub proof fn law_last_arrival_releases(total: usize, k: nat)
    requires
        total >= 1,
        k < total,
    ensures
        arrivals(fresh_barrier(total), k) == open_round(total, k),
        spec_after_wakeup(open_round(total, k), 0) is None,
        k + 1 < total ==> spec_arrive(open_round(total, k)).1 == wait_in(0),
        k + 1 == total ==> spec_arrive(open_round(total, k)).1 == ArrivalOutcome::Done(
            BarrierResult::Released,
        ),
        k + 1 == total ==> spec_arrive(open_round(total, k)).0 == first_round_done(total),
        spec_after_wakeup(first_round_done(total), 0) == Some(BarrierResult::Released),
    decreases k,
{
    if k > 0 {
        law_last_arrival_releases(total, (k - 1) as nat);
    }
}

/// A barrier for zero threads never releases anybody: every arrival is
/// counted and must wait, and a woken waiter goes on waiting until the
/// barrier is cancelled.
pub proof fn law_zero_total_never_releases(k: nat)
    requires
        k < usize::MAX,
    ensures
        arrivals(fresh_barrier(0), k) == open_round(0, k),
        spec_arrive(open_round(0, k)).1 == wait_in(0),
        spec_after_wakeup(open_round(0, k), 0) is None,
    decreases k,
{
    if k > 0 {
        law_zero_total_never_releases((k - 1) as nat);
    }
}

/// A release is never taken back: generations only grow, so once the round
/// a thread waited in has been completed, no later arrival can make that
/// thread wait again; and a thread of the current round is held until its
/// round completes or the barrier is cancelled.
pub proof fn law_release_is_kept(s: BarrierState, seen: u64)
    requires
        s.can_arrive(),
    ensures
        spec_arrive(s).0.generation >= s.generation,
        seen < s.generation ==> seen < spec_arrive(s).0.generation,
        seen < s.generation ==> (spec_after_wakeup(spec_arrive(s).0, seen) is Some),
        !s.cancelled ==> (spec_after_wakeup(s, s.generation) is None),
{
}

/// A barrier for `total` threads at the start of round `g`: nobody has
/// arrived yet in this round and it is not cancelled.
pub open spec fn round_start(total: usize, g: u64) -> BarrierState {
    BarrierState { count: 0, total, generation: g, cancelled: false }
}

/// The first `k < total` arrivals of a round are counted and nothing else
/// changes.
proof fn lemma_round_arrivals(total: usize, g: u64, k: nat)
    requires
        k < total,
    ensures
        arrivals(round_start(total, g), k) == (BarrierState { count: k as usize, ..round_start(total, g) }),
    decreases k,
{
    if k > 0 {
        lemma_round_arrivals(total, g, (k - 1) as nat);
    }
}

/// A whole round, as with `std::sync::Barrier`: of `total >= 1` threads
/// arriving in round `g` of a barrier that is not cancelled, the first
/// `total - 1` must wait and stay blocked whenever they are woken before the
/// round is complete; the last one completes the round and is released at
/// once; afterwards every waiter of the round is released, and the barrier is
/// back to no arrivals, in round `g + 1`, ready for the next round.
pub proof fn law_round_releases_every_waiter(total: usize, g: u64)
    requires
        total >= 1,
        g < u64::MAX,
    ensures
        forall|k: nat|
            k + 1 < total ==> spec_arrive(#[trigger] arrivals(round_start(total, g), k)).1 == wait_in(
                g,
            ),
        forall|k: nat|
            k < total ==> (spec_after_wakeup(#[trigger] arrivals(round_start(total, g), k), g) is None),
        spec_arrive(arrivals(round_start(total, g), (total - 1) as nat)).1 == ArrivalOutcome::Done(
            BarrierResult::Released,
        ),
        arrivals(round_start(total, g), total as nat) == round_start(total, (g + 1) as u64),
        spec_after_wakeup(arrivals(round_start(total, g), total as nat), g) == Some(
            BarrierResult::Released,
        ),
{
    assert forall|k: nat| k < total implies #[trigger] arrivals(round_start(total, g), k) == (
    BarrierState { count: k as usize, ..round_start(total, g) }) by {
        lemma_round_arrivals(total, g, k);
    }
    lemma_round_arrivals(total, g, (total - 1) as nat);
    assert(arrivals(round_start(total, g), total as nat) == spec_arrive(
        arrivals(round_start(total, g), (total - 1) as nat),
    ).0);
}

/// A thread that completes a round and arrives again at once does not hold
/// back the waiters of that round: while up to `total - 1` arrivals of round
/// `g + 1` are counted, every waiter of round `g` is still released when it
/// wakes, and the threads waiting in round `g + 1` stay blocked.
pub proof fn law_reentry_keeps_earlier_waiters_released(total: usize, g: u64, j: nat)
    requires
        j < total,
        g < u64::MAX,
    ensures
        arrivals(round_start(total, (g + 1) as u64), j).count == j,
        spec_after_wakeup(arrivals(round_start(total, (g + 1) as u64), j), g) == Some(
            BarrierResult::Released,
        ),
        spec_after_wakeup(arrivals(round_start(total, (g + 1) as u64), j), (g + 1) as u64) is None,
{
    lemma_round_arrivals(total, (g + 1) as u64, j);
}

} // verus!
