//! The decisions of the two aggregation threads, as state machines:
//! matching left and right frames into pairs, and collecting the pairs of a
//! throw window into optimiser input. The threads feed them events.

use vstd::prelude::*;
use std::collections::VecDeque;
use crate::pipeline::{CameraId, Frame, FrameView, MatchedFramePair, PairView};
use crate::trajectory::{OptimizeTrajectoryInput, TrajectoryInputCollector, spec_trajectory_input};

verus! {

/// Absolute difference of two timestamps.
pub open spec fn abs_diff(a: u64, b: u64) -> int {
    if a >= b {
        a - b
    } else {
        b - a
    }
}

/// The pairing rule applied to the two queues of waiting frames: while both
/// queues hold a frame, the two oldest frames are paired when their
/// timestamps are at most `interval` apart, and otherwise the older of the
/// two is dropped. Gives the queues that remain and the pairs made, in order.
pub open spec fn drain_matches<C>(
    left: Seq<FrameView<C>>,
    right: Seq<FrameView<C>>,
    interval: u64,
) -> (Seq<FrameView<C>>, Seq<FrameView<C>>, Seq<PairView<C>>)
    decreases left.len() + right.len(),
{
    if left.len() == 0 || right.len() == 0 {
        (left, right, Seq::empty())
    } else {
        let lts = left[0].context.camera_buffer_timestamp;
        let rts = right[0].context.camera_buffer_timestamp;
        if abs_diff(lts, rts) <= interval {
            let rest = drain_matches(left.drop_first(), right.drop_first(), interval);
            (rest.0, rest.1, seq![PairView { left: left[0], right: right[0] }] + rest.2)
        } else if lts < rts {
            drain_matches(left.drop_first(), right, interval)
        } else {
            drain_matches(left, right.drop_first(), interval)
        }
    }
}

/// After the pairing rule has run, at most one queue still holds frames,
/// and each pair made joins frames at most `interval` apart, taken from the
/// two queues.
pub proof fn law_drain_matches<C>(left: Seq<FrameView<C>>, right: Seq<FrameView<C>>, interval: u64)
    ensures
        drain_matches(left, right, interval).0.len() == 0 || drain_matches(
            left,
            right,
            interval,
        ).1.len() == 0,
        forall|k: int|
            0 <= k < drain_matches(left, right, interval).2.len() ==> abs_diff(
                #[trigger] drain_matches(left, right, interval).2[k].left.context.camera_buffer_timestamp,
                drain_matches(left, right, interval).2[k].right.context.camera_buffer_timestamp,
            ) <= interval,
        forall|k: int|
            0 <= k < drain_matches(left, right, interval).2.len() ==> left.contains(
                #[trigger] drain_matches(left, right, interval).2[k].left,
            ) && right.contains(drain_matches(left, right, interval).2[k].right),
    decreases left.len() + right.len(),
{
    if left.len() == 0 || right.len() == 0 {
    } else {
        let lts = left[0].context.camera_buffer_timestamp;
        let rts = right[0].context.camera_buffer_timestamp;
        if abs_diff(lts, rts) <= interval {
            law_drain_matches(left.drop_first(), right.drop_first(), interval);
            let rest = drain_matches(left.drop_first(), right.drop_first(), interval);
            let all = drain_matches(left, right, interval).2;
            assert forall|k: int| 0 <= k < all.len() implies left.contains(#[trigger] all[k].left)
                && right.contains(all[k].right) by {
                if k == 0 {
                    assert(left[0] == all[0].left);
                    assert(right[0] == all[0].right);
                } else {
                    assert(all[k] == rest.2[k - 1]);
                    let i = choose|i: int| 0 <= i < left.drop_first().len() && left.drop_first()[i] == rest.2[k - 1].left;
                    assert(left[i + 1] == all[k].left);
                    let j = choose|j: int| 0 <= j < right.drop_first().len() && right.drop_first()[j] == rest.2[k - 1].right;
                    assert(right[j + 1] == all[k].right);
                }
            }
        } else if lts < rts {
            law_drain_matches(left.drop_first(), right, interval);
            let all = drain_matches(left, right, interval).2;
            assert forall|k: int| 0 <= k < all.len() implies left.contains(#[trigger] all[k].left)
                && right.contains(all[k].right) by {
                let i = choose|i: int| 0 <= i < left.drop_first().len() && left.drop_first()[i] == all[k].left;
                assert(left[i + 1] == all[k].left);
            }
        } else {
            law_drain_matches(left, right.drop_first(), interval);
            let all = drain_matches(left, right, interval).2;
            assert forall|k: int| 0 <= k < all.len() implies left.contains(#[trigger] all[k].left)
                && right.contains(all[k].right) by {
                let j = choose|j: int| 0 <= j < right.drop_first().len() && right.drop_first()[j] == all[k].right;
                assert(right[j + 1] == all[k].right);
            }
        }
    }
}

/// Whether `idx` picks the elements of `a` out of `b` at strictly increasing
/// positions.
pub open spec fn picks<T>(a: Seq<T>, b: Seq<T>, idx: Seq<int>) -> bool {
    &&& idx.len() == a.len()
    &&& forall|k: int| 0 <= k < a.len() ==> 0 <= #[trigger] idx[k] < b.len() && b[idx[k]] == a[k]
    &&& forall|j: int, k: int| 0 <= j < k < a.len() ==> idx[j] < idx[k]
}

/// Whether `a` is `b` with some elements left out: every element of `b`
/// stands in `a` at most once, in the order of `b`.
pub open spec fn is_subsequence<T>(a: Seq<T>, b: Seq<T>) -> bool {
    exists|idx: Seq<int>| picks(a, b, idx)
}

/// The left frames of a run of pairs.
pub open spec fn left_frames<C>(pairs: Seq<PairView<C>>) -> Seq<FrameView<C>> {
    pairs.map_values(|p: PairView<C>| p.left)
}

/// The right frames of a run of pairs.
pub open spec fn right_frames<C>(pairs: Seq<PairView<C>>) -> Seq<FrameView<C>> {
    pairs.map_values(|p: PairView<C>| p.right)
}

/// Whether every frame of `q` comes from camera `cam`.
pub open spec fn all_from_camera<C>(q: Seq<FrameView<C>>, cam: CameraId) -> bool {
    forall|k: int| 0 <= k < q.len() ==> #[trigger] q[k].context.camera_id == cam
}

/// Picks of the tail of `b`, shifted, are picks of `b`.
proof fn lemma_picks_in_tail<T>(a: Seq<T>, b: Seq<T>, idx: Seq<int>)
    requires
        b.len() > 0,
        picks(a, b.drop_first(), idx),
    ensures
        picks(a, b, idx.map_values(|i: int| i + 1)),
{
    let shifted = idx.map_values(|i: int| i + 1);
    assert forall|k: int| 0 <= k < a.len() implies 0 <= #[trigger] shifted[k] < b.len() && b[shifted[k]]
        == a[k] by {
        assert(b.drop_first()[idx[k]] == b[idx[k] + 1]);
    }
    assert forall|j: int, k: int| 0 <= j < k < a.len() implies shifted[j] < shifted[k] by {
        assert(idx[j] < idx[k]);
    }
}

/// Picks of the tail of `b` with the first element of `b` in front.
proof fn lemma_picks_with_head<T>(a: Seq<T>, b: Seq<T>, idx: Seq<int>)
    requires
        b.len() > 0,
        picks(a, b.drop_first(), idx),
    ensures
        picks(seq![b[0]] + a, b, seq![0int] + idx.map_values(|i: int| i + 1)),
{
    lemma_picks_in_tail(a, b, idx);
    let shifted = idx.map_values(|i: int| i + 1);
    let all = seq![0int] + shifted;
    let aa = seq![b[0]] + a;
    assert forall|k: int| 0 <= k < aa.len() implies 0 <= #[trigger] all[k] < b.len() && b[all[k]]
        == aa[k] by {
        if k > 0 {
            assert(all[k] == shifted[k - 1]);
            assert(aa[k] == a[k - 1]);
        }
    }
    assert forall|j: int, k: int| 0 <= j < k < aa.len() implies all[j] < all[k] by {
        if j > 0 {
            assert(all[j] == shifted[j - 1]);
            assert(all[k] == shifted[k - 1]);
        } else {
            assert(all[k] == shifted[k - 1]);
            assert(shifted[k - 1] == idx[k - 1] + 1);
        }
    }
}

/// The pairing rule uses each waiting frame at most once and keeps the
/// order of each queue: the left frames of the pairs it makes are picked out
/// of the left queue, and the right frames out of the right queue, at
/// strictly increasing positions. The frames still waiting afterwards are
/// frames of the same queues.
pub proof fn law_pairing_uses_each_frame_once<C>(
    left: Seq<FrameView<C>>,
    right: Seq<FrameView<C>>,
    interval: u64,
)
    ensures
        is_subsequence(left_frames(drain_matches(left, right, interval).2), left),
        is_subsequence(right_frames(drain_matches(left, right, interval).2), right),
        forall|k: int|
            0 <= k < drain_matches(left, right, interval).0.len() ==> left.contains(
                #[trigger] drain_matches(left, right, interval).0[k],
            ),
        forall|k: int|
            0 <= k < drain_matches(left, right, interval).1.len() ==> right.contains(
                #[trigger] drain_matches(left, right, interval).1[k],
            ),
    decreases left.len() + right.len(),
{
    let d = drain_matches(left, right, interval);
    if left.len() == 0 || right.len() == 0 {
        assert(picks(left_frames(d.2), left, Seq::<int>::empty()));
        assert(picks(right_frames(d.2), right, Seq::<int>::empty()));
        assert forall|k: int| 0 <= k < d.0.len() implies left.contains(#[trigger] d.0[k]) by {
            assert(left[k] == d.0[k]);
        }
        assert forall|k: int| 0 <= k < d.1.len() implies right.contains(#[trigger] d.1[k]) by {
            assert(right[k] == d.1[k]);
        }
    } else {
        let lts = left[0].context.camera_buffer_timestamp;
        let rts = right[0].context.camera_buffer_timestamp;
        if abs_diff(lts, rts) <= interval {
            let (l1, r1) = (left.drop_first(), right.drop_first());
            law_pairing_uses_each_frame_once(l1, r1, interval);
            let rest = drain_matches(l1, r1, interval);
            let li = choose|idx: Seq<int>| picks(left_frames(rest.2), l1, idx);
            let ri = choose|idx: Seq<int>| picks(right_frames(rest.2), r1, idx);
            lemma_picks_with_head(left_frames(rest.2), left, li);
            lemma_picks_with_head(right_frames(rest.2), right, ri);
            assert(left_frames(d.2) =~= seq![left[0]] + left_frames(rest.2));
            assert(right_frames(d.2) =~= seq![right[0]] + right_frames(rest.2));
            assert forall|k: int| 0 <= k < d.0.len() implies left.contains(#[trigger] d.0[k]) by {
                let i = choose|i: int| 0 <= i < l1.len() && l1[i] == d.0[k];
                assert(left[i + 1] == d.0[k]);
            }
            assert forall|k: int| 0 <= k < d.1.len() implies right.contains(#[trigger] d.1[k]) by {
                let i = choose|i: int| 0 <= i < r1.len() && r1[i] == d.1[k];
                assert(right[i + 1] == d.1[k]);
            }
        } else if lts < rts {
            let l1 = left.drop_first();
            law_pairing_uses_each_frame_once(l1, right, interval);
            let li = choose|idx: Seq<int>| picks(left_frames(d.2), l1, idx);
            lemma_picks_in_tail(left_frames(d.2), left, li);
            assert forall|k: int| 0 <= k < d.0.len() implies left.contains(#[trigger] d.0[k]) by {
                let i = choose|i: int| 0 <= i < l1.len() && l1[i] == d.0[k];
                assert(left[i + 1] == d.0[k]);
            }
        } else {
            let r1 = right.drop_first();
            law_pairing_uses_each_frame_once(left, r1, interval);
            let ri = choose|idx: Seq<int>| picks(right_frames(d.2), r1, idx);
            lemma_picks_in_tail(right_frames(d.2), right, ri);
            assert forall|k: int| 0 <= k < d.1.len() implies right.contains(#[trigger] d.1[k]) by {
                let i = choose|i: int| 0 <= i < r1.len() && r1[i] == d.1[k];
                assert(right[i + 1] == d.1[k]);
            }
        }
    }
}

/// When the two oldest waiting frames are more than `interval` apart, the
/// older of the two is dropped and the newer one stays at the head of its
/// queue: no frame is thrown away while a frame of the other camera that is
/// older than it by more than the interval is still waiting.
pub proof fn law_mismatch_drops_the_older_frame<C>(
    left: Seq<FrameView<C>>,
    right: Seq<FrameView<C>>,
    interval: u64,
)
    requires
        left.len() > 0,
        right.len() > 0,
        abs_diff(left[0].context.camera_buffer_timestamp, right[0].context.camera_buffer_timestamp)
            > interval,
    ensures
        left[0].context.camera_buffer_timestamp < right[0].context.camera_buffer_timestamp
            ==> drain_matches(left, right, interval) == drain_matches(left.drop_first(), right, interval),
        right[0].context.camera_buffer_timestamp < left[0].context.camera_buffer_timestamp
            ==> drain_matches(left, right, interval) == drain_matches(left, right.drop_first(), interval),
{
}

/// The queues and the pairs made after a frame joins the queue of its
/// camera and the pairing rule runs.
pub open spec fn matcher_after_push<C>(m: MatcherView<C>, f: FrameView<C>) -> (
    Seq<FrameView<C>>,
    Seq<FrameView<C>>,
    Seq<PairView<C>>,
) {
    if f.context.camera_id == CameraId::FieldLeft {
        drain_matches(m.left.push(f), m.right, m.interval)
    } else {
        drain_matches(m.left, m.right.push(f), m.interval)
    }
}

/// A matcher whose queues hold only frames of their own camera keeps them
/// so when a frame is pushed, and every pair it makes joins a left-camera
/// frame with a right-camera frame, each taken at most once, in queue order,
/// from the queues with the new frame added.
pub proof fn law_pairs_join_left_and_right<C>(m: MatcherView<C>, f: FrameView<C>)
    requires
        all_from_camera(m.left, CameraId::FieldLeft),
        all_from_camera(m.right, CameraId::FieldRight),
    ensures
        all_from_camera(matcher_after_push(m, f).0, CameraId::FieldLeft),
        all_from_camera(matcher_after_push(m, f).1, CameraId::FieldRight),
        all_from_camera(left_frames(matcher_after_push(m, f).2), CameraId::FieldLeft),
        all_from_camera(right_frames(matcher_after_push(m, f).2), CameraId::FieldRight),
        f.context.camera_id == CameraId::FieldLeft ==> is_subsequence(
            left_frames(matcher_after_push(m, f).2),
            m.left.push(f),
        ) && is_subsequence(right_frames(matcher_after_push(m, f).2), m.right),
        f.context.camera_id != CameraId::FieldLeft ==> is_subsequence(
            left_frames(matcher_after_push(m, f).2),
            m.left,
        ) && is_subsequence(right_frames(matcher_after_push(m, f).2), m.right.push(f)),
{
    let (l, r) = if f.context.camera_id == CameraId::FieldLeft {
        (m.left.push(f), m.right)
    } else {
        (m.left, m.right.push(f))
    };
    assert(all_from_camera(l, CameraId::FieldLeft)) by {
        assert forall|k: int| 0 <= k < l.len() implies #[trigger] l[k].context.camera_id
            == CameraId::FieldLeft by {
            if k < m.left.len() {
                assert(l[k] == m.left[k]);
            }
        }
    }
    assert(all_from_camera(r, CameraId::FieldRight)) by {
        assert forall|k: int| 0 <= k < r.len() implies #[trigger] r[k].context.camera_id
            == CameraId::FieldRight by {
            if k < m.right.len() {
                assert(r[k] == m.right[k]);
            }
        }
    }
    let d = drain_matches(l, r, m.interval);
    assert(d == matcher_after_push(m, f));
    law_pairing_uses_each_frame_once(l, r, m.interval);
    law_drain_matches(l, r, m.interval);
    assert forall|k: int| 0 <= k < d.0.len() implies #[trigger] d.0[k].context.camera_id
        == CameraId::FieldLeft by {
        let i = choose|i: int| 0 <= i < l.len() && l[i] == d.0[k];
    }
    assert forall|k: int| 0 <= k < d.1.len() implies #[trigger] d.1[k].context.camera_id
        == CameraId::FieldRight by {
        let i = choose|i: int| 0 <= i < r.len() && r[i] == d.1[k];
    }
    assert forall|k: int| 0 <= k < left_frames(d.2).len() implies #[trigger] left_frames(
        d.2,
    )[k].context.camera_id == CameraId::FieldLeft by {
        assert(left_frames(d.2)[k] == d.2[k].left);
        let i = choose|i: int| 0 <= i < l.len() && l[i] == d.2[k].left;
    }
    assert forall|k: int| 0 <= k < right_frames(d.2).len() implies #[trigger] right_frames(
        d.2,
    )[k].context.camera_id == CameraId::FieldRight by {
        assert(right_frames(d.2)[k] == d.2[k].right);
        assert(l.contains(d.2[k].left));
        assert(r.contains(d.2[k].right));
        let i = choose|i: int| 0 <= i < r.len() && r[i] == d.2[k].right;
    }
}

/// Groups frames by camera and pairs temporally adjacent left/right frames.
pub struct FramePairMatcher<C> {
    left_queue: VecDeque<Frame<C>>,
    right_queue: VecDeque<Frame<C>>,
    expected_frame_interval_ns: u64,
}

/// The abstract state of a matcher: the waiting left and right frames and
/// the largest gap allowed within a pair.
pub struct MatcherView<C> {
    pub left: Seq<FrameView<C>>,
    pub right: Seq<FrameView<C>>,
    pub interval: u64,
}

impl<C> View for FramePairMatcher<C> {
    type V = MatcherView<C>;

    closed spec fn view(&self) -> MatcherView<C> {
        MatcherView {
            left: self.left_queue@.map_values(|f: Frame<C>| f@),
            right: self.right_queue@.map_values(|f: Frame<C>| f@),
            interval: self.expected_frame_interval_ns,
        }
    }
}

impl<C> FramePairMatcher<C> {
    /// Every waiting frame is in the queue of its own camera.
    #[verifier::type_invariant]
    closed spec fn queues_by_camera(self) -> bool {
        &&& all_from_camera(self@.left, CameraId::FieldLeft)
        &&& all_from_camera(self@.right, CameraId::FieldRight)
    }
}

impl<C: Copy> FramePairMatcher<C> {
    pub fn new(expected_frame_interval_ns: u64) -> (res: Self)
        ensures
            res@.left.len() == 0,
            res@.right.len() == 0,
            res@.interval == expected_frame_interval_ns,
    {
        let res = FramePairMatcher {
            left_queue: VecDeque::new(),
            right_queue: VecDeque::new(),
            expected_frame_interval_ns,
        };
        assert(res@.left =~= Seq::<FrameView<C>>::empty());
        assert(res@.right =~= Seq::<FrameView<C>>::empty());
        res
    }

    /// Queues a frame from the pipeline output and returns the pairs that
    /// the pairing rule makes.
    pub fn push_frame(&mut self, frame: Frame<C>) -> (res: Vec<MatchedFramePair<C>>)
        ensures
            all_from_camera(old(self)@.left, CameraId::FieldLeft),
            all_from_camera(old(self)@.right, CameraId::FieldRight),
            all_from_camera(final(self)@.left, CameraId::FieldLeft),
            all_from_camera(final(self)@.right, CameraId::FieldRight),
            final(self)@.interval == old(self)@.interval,
            final(self)@.left == matcher_after_push(old(self)@, frame@).0,
            final(self)@.right == matcher_after_push(old(self)@, frame@).1,
            res@.map_values(|p: MatchedFramePair<C>| p@) == matcher_after_push(
                old(self)@,
                frame@,
            ).2,
            all_from_camera(
                left_frames(res@.map_values(|p: MatchedFramePair<C>| p@)),
                CameraId::FieldLeft,
            ),
            all_from_camera(
                right_frames(res@.map_values(|p: MatchedFramePair<C>| p@)),
                CameraId::FieldRight,
            ),
    {
        proof {
            use_type_invariant(&*self);
            law_pairs_join_left_and_right(self@, frame@);
        }
        let ghost old_view = self@;
        // The queues are worked on outside the matcher, which keeps empty
        // queues meanwhile.
        let mut left: VecDeque<Frame<C>> = VecDeque::new();
        let mut right: VecDeque<Frame<C>> = VecDeque::new();
        std::mem::swap(&mut left, &mut self.left_queue);
        std::mem::swap(&mut right, &mut self.right_queue);
        assert(left@.map_values(|f: Frame<C>| f@) == old_view.left);
        assert(right@.map_values(|f: Frame<C>| f@) == old_view.right);
        let ghost l0 = if frame.context.camera_id == CameraId::FieldLeft {
            old_view.left.push(frame@)
        } else {
            old_view.left
        };
        let ghost r0 = if frame.context.camera_id == CameraId::FieldLeft {
            old_view.right
        } else {
            old_view.right.push(frame@)
        };
        match frame.context.camera_id {
            CameraId::FieldLeft => left.push_back(frame),
            CameraId::FieldRight => right.push_back(frame),
        }
        assert(left@.map_values(|f: Frame<C>| f@) =~= l0);
        assert(right@.map_values(|f: Frame<C>| f@) =~= r0);
        let interval = self.expected_frame_interval_ns;
        let ghost target = drain_matches(l0, r0, interval);
        assert(target == matcher_after_push(old_view, frame@));
        let mut out: Vec<MatchedFramePair<C>> = Vec::new();
        while left.len() > 0 && right.len() > 0
            invariant
                target == matcher_after_push(old_view, frame@),
                interval == old_view.interval,
                drain_matches(
                    left@.map_values(|f: Frame<C>| f@),
                    right@.map_values(|f: Frame<C>| f@),
                    interval,
                ).0 == target.0,
                drain_matches(
                    left@.map_values(|f: Frame<C>| f@),
                    right@.map_values(|f: Frame<C>| f@),
                    interval,
                ).1 == target.1,
                out@.map_values(|p: MatchedFramePair<C>| p@) + drain_matches(
                    left@.map_values(|f: Frame<C>| f@),
                    right@.map_values(|f: Frame<C>| f@),
                    interval,
                ).2 == target.2,
            decreases left@.len() + right@.len(),
        {
            let ghost lv = left@.map_values(|f: Frame<C>| f@);
            let ghost rv = right@.map_values(|f: Frame<C>| f@);
            let lts = left[0].context.camera_buffer_timestamp;
            let rts = right[0].context.camera_buffer_timestamp;
            assert(lv[0].context.camera_buffer_timestamp == lts);
            assert(rv[0].context.camera_buffer_timestamp == rts);
            let delta = if lts >= rts {
                lts - rts
            } else {
                rts - lts
            };
            if delta <= interval {
                let l = left.pop_front().unwrap();
                let r = right.pop_front().unwrap();
                assert(left@.map_values(|f: Frame<C>| f@) =~= lv.drop_first());
                assert(right@.map_values(|f: Frame<C>| f@) =~= rv.drop_first());
                let ghost before = out@.map_values(|p: MatchedFramePair<C>| p@);
                out.push(MatchedFramePair::new(l, r));
                assert(out@.map_values(|p: MatchedFramePair<C>| p@) =~= before.push(
                    PairView { left: lv[0], right: rv[0] },
                ));
                let ghost rest = drain_matches(lv.drop_first(), rv.drop_first(), interval);
                assert(before + drain_matches(lv, rv, interval).2 =~= before.push(
                    PairView { left: lv[0], right: rv[0] },
                ) + rest.2);
            } else if lts < rts {
                let _ = left.pop_front();
                assert(left@.map_values(|f: Frame<C>| f@) =~= lv.drop_first());
                assert(right@.map_values(|f: Frame<C>| f@) =~= rv);
            } else {
                let _ = right.pop_front();
                assert(left@.map_values(|f: Frame<C>| f@) =~= lv);
                assert(right@.map_values(|f: Frame<C>| f@) =~= rv.drop_first());
            }
        }
        let ghost lv = left@.map_values(|f: Frame<C>| f@);
        let ghost rv = right@.map_values(|f: Frame<C>| f@);
        assert(drain_matches(lv, rv, interval) == (lv, rv, Seq::<PairView<C>>::empty()));
        assert(out@.map_values(|p: MatchedFramePair<C>| p@) =~= target.2);
        self.left_queue = left;
        self.right_queue = right;
        out
    }
}

/// Commands that open or close a throw window.
#[derive(Debug, Clone, PartialEq, Eq, Structural)]
pub enum AggregationCommand {
    /// Start collecting pairs stamped at or after `timestamp_ns`.
    Start { timestamp_ns: u64 },
    /// Drop what was collected and stop collecting.
    Reset,
}

/// Pairs of the look-back buffer that belong to a window opened at `start`.
pub open spec fn pairs_from<C>(pairs: Seq<PairView<C>>, start: u64) -> Seq<PairView<C>> {
    pairs.filter(|p: PairView<C>| p.timestamp() >= start)
}

/// The abstract state of the coordinator.
#[verifier::ext_equal]
pub struct CoordinatorView<C> {
    pub lookback: Seq<PairView<C>>,
    pub collected: Seq<PairView<C>>,
    pub window_start: Option<u64>,
    pub lookback_capacity: usize,
    pub sample_limit: usize,
}

/// Collection of matched pairs over throw windows: keeps the latest pairs
/// in a bounded look-back buffer, collects from a window's start, and emits
/// optimiser input once `sample_limit` pairs are collected.
pub struct AggregationCoordinatorState<C> {
    collector: TrajectoryInputCollector<C>,
    window_start: Option<u64>,
    lookback_buffer: VecDeque<MatchedFramePair<C>>,
    lookback_capacity: usize,
    sample_limit: usize,
}

impl<C> View for AggregationCoordinatorState<C> {
    type V = CoordinatorView<C>;

    closed spec fn view(&self) -> CoordinatorView<C> {
        CoordinatorView {
            lookback: self.lookback_buffer@.map_values(|p: MatchedFramePair<C>| p@),
            collected: self.collector@,
            window_start: self.window_start,
            lookback_capacity: self.lookback_capacity,
            sample_limit: self.sample_limit,
        }
    }
}

/// The look-back buffer after a pair arrives: the pair appended, then the
/// oldest pairs dropped until at most `capacity` remain.
pub open spec fn lookback_after<C>(lookback: Seq<PairView<C>>, pair: PairView<C>, capacity: usize) -> Seq<
    PairView<C>,
> {
    let l = lookback.push(pair);
    if l.len() > capacity {
        l.skip(l.len() - capacity)
    } else {
        l
    }
}

/// The coordinator's state after a matched pair arrives: the pair enters
/// the look-back buffer; inside a window a pair stamped at or after the
/// window's start is collected, and once `sample_limit` pairs are collected
/// the window closes and the collection is emptied.
pub open spec fn coordinator_after_pair<C>(v: CoordinatorView<C>, pv: PairView<C>) -> CoordinatorView<C> {
    let lookback = lookback_after(v.lookback, pv, v.lookback_capacity);
    match v.window_start {
        None => CoordinatorView { lookback, collected: Seq::empty(), ..v },
        Some(start) => if pv.timestamp() < start {
            CoordinatorView { lookback, ..v }
        } else if v.collected.len() + 1 >= v.sample_limit {
            CoordinatorView { lookback, collected: Seq::empty(), window_start: None, ..v }
        } else {
            CoordinatorView { lookback, collected: v.collected.push(pv), ..v }
        },
    }
}

/// The pairs a window closes with when this pair arrives: `Some` exactly
/// when the pair is collected and completes `sample_limit` pairs.
pub open spec fn window_samples<C>(v: CoordinatorView<C>, pv: PairView<C>) -> Option<Seq<PairView<C>>> {
    match v.window_start {
        None => None,
        Some(start) => if pv.timestamp() >= start && v.collected.len() + 1 >= v.sample_limit {
            Some(v.collected.push(pv))
        } else {
            None
        },
    }
}

/// The coordinator's state after the pairs `ps` arrive in order, with no
/// command in between.
pub open spec fn coordinator_after_pairs<C>(v: CoordinatorView<C>, ps: Seq<PairView<C>>) -> CoordinatorView<C>
    decreases ps.len(),
{
    if ps.len() == 0 {
        v
    } else {
        coordinator_after_pair(coordinator_after_pairs(v, ps.drop_last()), ps.last())
    }
}

/// Once a window is open, every arriving pair stamped at or after its start
/// is collected, in order, and no other pair is; the window stays open as
/// long as fewer than `sample_limit` pairs are collected.
pub proof fn law_window_collects_stamped_pairs<C>(v: CoordinatorView<C>, start: u64, ps: Seq<PairView<C>>)
    requires
        v.window_start == Some(start),
        v.collected.len() + pairs_from(ps, start).len() < v.sample_limit,
    ensures
        coordinator_after_pairs(v, ps).window_start == Some(start),
        coordinator_after_pairs(v, ps).collected == v.collected + pairs_from(ps, start),
        coordinator_after_pairs(v, ps).sample_limit == v.sample_limit,
    decreases ps.len(),
{
    reveal_with_fuel(Seq::filter, 1);
    if ps.len() == 0 {
        assert(pairs_from(ps, start) =~= Seq::<PairView<C>>::empty());
        assert(v.collected + pairs_from(ps, start) =~= v.collected);
    } else {
        let init = ps.drop_last();
        assert(pairs_from(init, start).len() <= pairs_from(ps, start).len());
        law_window_collects_stamped_pairs(v, start, init);
        if ps.last().timestamp() >= start {
            assert(pairs_from(ps, start) == pairs_from(init, start).push(ps.last()));
            assert(v.collected + pairs_from(ps, start) =~= (v.collected + pairs_from(init, start)).push(
                ps.last(),
            ));
        } else {
            assert(pairs_from(ps, start) == pairs_from(init, start));
        }
    }
}

/// The pair that completes `sample_limit` stamped pairs in a window closes
/// it: the window's samples are everything it collected, that pair last,
/// and the coordinator is left with no window and nothing collected.
pub proof fn law_window_emits_at_limit<C>(
    v: CoordinatorView<C>,
    start: u64,
    ps: Seq<PairView<C>>,
    p: PairView<C>,
)
    requires
        v.window_start == Some(start),
        v.collected.len() + pairs_from(ps, start).len() + 1 == v.sample_limit,
        p.timestamp() >= start,
    ensures
        window_samples(coordinator_after_pairs(v, ps), p) == Some(
            (v.collected + pairs_from(ps, start)).push(p),
        ),
        coordinator_after_pairs(v, ps.push(p)).window_start is None,
        coordinator_after_pairs(v, ps.push(p)).collected.len() == 0,
{
    law_window_collects_stamped_pairs(v, start, ps);
    assert(ps.push(p).drop_last() =~= ps);
}

impl<C: Copy> AggregationCoordinatorState<C> {
    /// Whether the state is consistent: the look-back buffer is within its
    /// capacity and pairs are only collected inside a window, from its start.
    pub open spec fn wf(&self) -> bool {
        &&& self@.lookback.len() <= self@.lookback_capacity
        &&& self@.window_start is None ==> self@.collected.len() == 0
        &&& self@.window_start matches Some(start) ==> forall|k: int|
            0 <= k < self@.collected.len() ==> #[trigger] self@.collected[k].timestamp() >= start
    }

    pub fn new(lookback_capacity: usize, sample_limit: usize) -> (res: Self)
        ensures
            res.wf(),
            res@.lookback.len() == 0,
            res@.collected.len() == 0,
            res@.window_start is None,
            res@.lookback_capacity == lookback_capacity,
            res@.sample_limit == sample_limit,
    {
        let res = AggregationCoordinatorState {
            collector: TrajectoryInputCollector::new(),
            window_start: None,
            lookback_buffer: VecDeque::new(),
            lookback_capacity,
            sample_limit,
        };
        assert(res@.lookback =~= Seq::<PairView<C>>::empty());
        res
    }

    /// Applies a command: `Start` opens a window and collects the look-back
    /// pairs stamped at or after its start; `Reset` drops what was collected
    /// and closes the window.
    pub fn on_command(&mut self, command: AggregationCommand)
        requires
            old(self).wf(),
        ensures
            final(self).wf(),
            final(self)@.lookback == old(self)@.lookback,
            final(self)@.lookback_capacity == old(self)@.lookback_capacity,
            final(self)@.sample_limit == old(self)@.sample_limit,
            match command {
                AggregationCommand::Start { timestamp_ns } => {
                    &&& final(self)@.window_start == Some(timestamp_ns)
                    &&& final(self)@.collected == pairs_from(old(self)@.lookback, timestamp_ns)
                },
                AggregationCommand::Reset => {
                    &&& final(self)@.window_start is None
                    &&& final(self)@.collected.len() == 0
                },
            },
    {
        match command {
            AggregationCommand::Start { timestamp_ns } => {
                self.collector.clear();
                let n = self.lookback_buffer.len();
                let ghost lb = self@.lookback;
                let mut i: usize = 0;
                while i < n
                    invariant
                        n == self.lookback_buffer@.len(),
                        lb == self@.lookback,
                        i <= n,
                        self@.collected == pairs_from(lb.take(i as int), timestamp_ns),
                        self@.lookback_capacity == old(self)@.lookback_capacity,
                        self@.sample_limit == old(self)@.sample_limit,
                        self@.window_start == old(self)@.window_start,
                        lb == old(self)@.lookback,
                    decreases n - i,
                {
                    assert(lb.take(i + 1).drop_last() == lb.take(i as int));
                    proof {
                        reveal_with_fuel(Seq::filter, 1);
                    }
                    let ts = self.lookback_buffer[i].pair_timestamp_ns();
                    if ts >= timestamp_ns {
                        let copy = self.lookback_buffer[i].duplicate();
                        self.collector.push(copy);
                    }
                    i = i + 1;
                }
                assert(lb.take(n as int) == lb);
                self.window_start = Some(timestamp_ns);
                assert forall|k: int| 0 <= k < self@.collected.len() implies #[trigger] self@.collected[k].timestamp()
                    >= timestamp_ns by {
                    let f = |p: PairView<C>| p.timestamp() >= timestamp_ns;
                    lb.lemma_filter_pred(f, k);
                }
            },
            AggregationCommand::Reset => {
                self.collector.clear();
                self.window_start = None;
            },
        }
    }

    /// Takes in a matched pair: it enters the look-back buffer, and inside a
    /// window it is collected when stamped at or after the window's start.
    /// Once `sample_limit` pairs are collected the window closes and the
    /// optimiser input built from them is returned, if there is one.
    pub fn on_matched_pair(&mut self, matched_pair: MatchedFramePair<C>) -> (res: Option<
        OptimizeTrajectoryInput<C>,
    >)
        requires
            old(self).wf(),
        ensures
            final(self).wf(),
            final(self)@ == coordinator_after_pair(old(self)@, matched_pair@),
            window_samples(old(self)@, matched_pair@) is None ==> res is None,
            final(self)@.lookback == lookback_after(
                old(self)@.lookback,
                matched_pair@,
                old(self)@.lookback_capacity,
            ),
            final(self)@.lookback_capacity == old(self)@.lookback_capacity,
            final(self)@.sample_limit == old(self)@.sample_limit,
            ({
                let pv = matched_pair@;
                match old(self)@.window_start {
                    None => final(self)@.window_start is None && final(self)@.collected.len() == 0
                        && res is None,
                    Some(start) => if pv.timestamp() < start {
                        final(self)@.window_start == Some(start) && final(self)@.collected == old(
                            self,
                        )@.collected && res is None
                    } else {
                        let c = old(self)@.collected.push(pv);
                        if c.len() >= old(self)@.sample_limit {
                            &&& final(self)@.window_start is None
                            &&& final(self)@.collected.len() == 0
                            &&& match spec_trajectory_input(c) {
                                None => res is None,
                                Some((l, r, dt)) => res matches Some(input)
                                    && input.pixels@.len() == 2 && input.pixels@[0]@ == l
                                    && input.pixels@[1]@ == r && input.dt_doubled_ns == dt,
                            }
                        } else {
                            final(self)@.window_start == Some(start) && final(self)@.collected
                                == c && res is None
                        }
                    },
                }
            }),
    {
        let pair_timestamp_ns = matched_pair.pair_timestamp_ns();
        let ghost lb0 = self@.lookback;
        let copy = matched_pair.duplicate();
        self.lookback_buffer.push_back(copy);
        assert(self@.lookback =~= lb0.push(matched_pair@));
        let ghost lb1 = self@.lookback;
        while self.lookback_buffer.len() > self.lookback_capacity
            invariant
                self@.lookback_capacity == old(self)@.lookback_capacity,
                lb1.len() >= self@.lookback.len(),
                self@.lookback == lb1.skip(lb1.len() - self@.lookback.len()),
                lb1.len() <= self@.lookback_capacity + 1,
                self@.lookback.len() + 1 >= lb1.len(),
                lb1.len() <= self@.lookback_capacity ==> self@.lookback.len() == lb1.len(),
                self@.collected == old(self)@.collected,
                self@.window_start == old(self)@.window_start,
                self@.sample_limit == old(self)@.sample_limit,
            decreases self@.lookback.len(),
        {
            let ghost before = self@.lookback;
            let _ = self.lookback_buffer.pop_front();
            assert(self@.lookback =~= before.drop_first());
            assert(lb1.skip(lb1.len() - self@.lookback.len()) =~= before.drop_first());
        }
        proof {
            if lb1.len() <= self.lookback_capacity {
                assert(lb1.skip(0) =~= lb1);
            }
        }
        assert(self@.lookback =~= lookback_after(lb0, matched_pair@, self.lookback_capacity));
        match self.window_start {
            None => None,
            Some(start) => {
                if pair_timestamp_ns < start {
                    return None;
                }
                self.collector.push(matched_pair);
                if self.collector.len() >= self.sample_limit {
                    let out = self.collector.build_optimize_trajectory_input();
                    self.collector.clear();
                    self.window_start = None;
                    out
                } else {
                    None
                }
            },
        }
    }
}

} // verus!
