//! Collects matched left/right observations and turns a sufficiently
//! complete sequence of them into the input of the trajectory optimiser.

use vstd::prelude::*;
use vstd::relations::sorted_by;
use crate::pipeline::{MatchedFramePair, PairView};

verus! {

/// Ascending order on frame intervals.
pub open spec fn u64_leq() -> spec_fn(u64, u64) -> bool {
    |a: u64, b: u64| a <= b
}

/// Centroids seen by the left camera in the pairs where both cameras saw one.
pub open spec fn usable_left_centroids<C>(pairs: Seq<PairView<C>>) -> Seq<C>
    decreases pairs.len(),
{
    if pairs.len() == 0 {
        Seq::empty()
    } else {
        let rest = usable_left_centroids(pairs.drop_last());
        let p = pairs.last();
        if p.left.context.centroid is Some && p.right.context.centroid is Some {
            rest.push(p.left.context.centroid->0)
        } else {
            rest
        }
    }
}

/// Centroids seen by the right camera in the pairs where both cameras saw one.
pub open spec fn usable_right_centroids<C>(pairs: Seq<PairView<C>>) -> Seq<C>
    decreases pairs.len(),
{
    if pairs.len() == 0 {
        Seq::empty()
    } else {
        let rest = usable_right_centroids(pairs.drop_last());
        let p = pairs.last();
        if p.left.context.centroid is Some && p.right.context.centroid is Some {
            rest.push(p.right.context.centroid->0)
        } else {
            rest
        }
    }
}

/// Pair timestamps of the pairs where both cameras saw a centroid.
pub open spec fn usable_timestamps<C>(pairs: Seq<PairView<C>>) -> Seq<u64>
    decreases pairs.len(),
{
    if pairs.len() == 0 {
        Seq::empty()
    } else {
        let rest = usable_timestamps(pairs.drop_last());
        let p = pairs.last();
        if p.left.context.centroid is Some && p.right.context.centroid is Some {
            rest.push(
                crate::pipeline::spec_pair_timestamp(
                    p.left.context.camera_buffer_timestamp,
                    p.right.context.camera_buffer_timestamp,
                ) as u64,
            )
        } else {
            rest
        }
    }
}

/// The non-zero gaps between consecutive timestamps, in order.
pub open spec fn positive_deltas(ts: Seq<u64>) -> Seq<u64>
    decreases ts.len(),
{
    if ts.len() < 2 {
        Seq::empty()
    } else {
        let rest = positive_deltas(ts.drop_last());
        let a = ts[ts.len() - 2];
        let b = ts[ts.len() - 1];
        let d = if b >= a {
            (b - a) as u64
        } else {
            (a - b) as u64
        };
        if d > 0 {
            rest.push(d)
        } else {
            rest
        }
    }
}

/// Twice the median of a non-empty sequence of intervals: twice the middle
/// value for an odd count, the sum of the two middle values for an even one.
pub open spec fn median_doubled(d: Seq<u64>) -> int {
    let t = d.sort_by(u64_leq());
    let mid = t.len() / 2;
    if t.len() % 2 == 1 {
        2 * t[mid as int]
    } else {
        t[mid - 1] + t[mid as int]
    }
}

/// Input of the trajectory optimiser: the left and right centroid tracks and
/// the frame interval, given as twice the median interval in nanoseconds so
/// that it stays exact.
#[derive(Debug, Clone)]
pub struct OptimizeTrajectoryInput<C> {
    pub pixels: Vec<Vec<C>>,
    pub dt_doubled_ns: u128,
}

impl<C> OptimizeTrajectoryInput<C> {
    pub fn new(pixels: Vec<Vec<C>>, dt_doubled_ns: u128) -> (res: Self)
        ensures
            res.pixels@ == pixels@,
            res.dt_doubled_ns == dt_doubled_ns,
    {
        OptimizeTrajectoryInput { pixels, dt_doubled_ns }
    }

    pub fn pixels(&self) -> (res: &[Vec<C>])
        ensures
            res@ == self.pixels@,
    {
        self.pixels.as_slice()
    }

    pub fn dt_doubled_ns(&self) -> (res: u128)
        ensures
            res == self.dt_doubled_ns,
    {
        self.dt_doubled_ns
    }
}

/// What the collector builds from its pairs: the left and right centroid
/// tracks of the usable pairs and twice their median non-zero interval, or
/// nothing when fewer than two pairs are usable or all intervals are zero.
pub open spec fn spec_trajectory_input<C>(pairs: Seq<PairView<C>>) -> Option<
    (Seq<C>, Seq<C>, int),
> {
    let ts = usable_timestamps(pairs);
    if ts.len() < 2 {
        None
    } else {
        let d = positive_deltas(ts);
        if d.len() == 0 {
            None
        } else {
            Some((usable_left_centroids(pairs), usable_right_centroids(pairs), median_doubled(d)))
        }
    }
}

/// The two centroid tracks line up: they have one entry per usable pair,
/// so the optimiser input always holds tracks of equal length, at least
/// two long.
pub proof fn law_tracks_have_equal_length<C>(pairs: Seq<PairView<C>>)
    ensures
        usable_left_centroids(pairs).len() == usable_timestamps(pairs).len(),
        usable_right_centroids(pairs).len() == usable_timestamps(pairs).len(),
        spec_trajectory_input(pairs) matches Some((l, r, _)) ==> l.len() == r.len() && l.len()
            >= 2,
    decreases pairs.len(),
{
    if pairs.len() > 0 {
        law_tracks_have_equal_length(pairs.drop_last());
    }
}

/// Sorts a vector of intervals in ascending order (`slice::sort_unstable`).
#[verifier::external_body]
fn sort_ascending(v: &mut Vec<u64>)
    ensures
        final(v)@.len() == old(v)@.len(),
        final(v)@.to_multiset() == old(v)@.to_multiset(),
        sorted_by(final(v)@, u64_leq()),
{
    v.sort_unstable();
}

proof fn lemma_u64_leq_total()
    ensures
        vstd::relations::total_ordering(u64_leq()),
{
}

/// Twice the median of the intervals (computed after sorting them).
fn median_doubled_ns(deltas: Vec<u64>) -> (res: u128)
    requires
        deltas@.len() > 0,
    ensures
        res == median_doubled(deltas@),
{
    let ghost orig = deltas@;
    let mut sorted = deltas;
    sort_ascending(&mut sorted);
    proof {
        lemma_u64_leq_total();
        orig.lemma_sort_by_ensures(u64_leq());
        vstd::seq_lib::lemma_sorted_unique(sorted@, orig.sort_by(u64_leq()), u64_leq());
    }
    let n = sorted.len();
    let mid = n / 2;
    if n % 2 == 1 {
        2 * (sorted[mid] as u128)
    } else {
        sorted[mid - 1] as u128 + sorted[mid] as u128
    }
}

/// Gathers matched pairs over an active throw window.
#[derive(Debug)]
pub struct TrajectoryInputCollector<C> {
    matched_pairs: Vec<MatchedFramePair<C>>,
}

impl<C> View for TrajectoryInputCollector<C> {
    type V = Seq<PairView<C>>;

    closed spec fn view(&self) -> Seq<PairView<C>> {
        self.matched_pairs@.map_values(|p: MatchedFramePair<C>| p@)
    }
}

impl<C: Copy> TrajectoryInputCollector<C> {
    pub fn new() -> (res: Self)
        ensures
            res@ == Seq::<PairView<C>>::empty(),
    {
        TrajectoryInputCollector { matched_pairs: Vec::new() }
    }

    pub fn push(&mut self, matched_pair: MatchedFramePair<C>)
        ensures
            final(self)@ == old(self)@.push(matched_pair@),
    {
        self.matched_pairs.push(matched_pair);
    }

    pub fn clear(&mut self)
        ensures
            final(self)@ == Seq::<PairView<C>>::empty(),
    {
        self.matched_pairs.clear();
    }

    pub fn len(&self) -> (res: usize)
        ensures
            res == self@.len(),
    {
        self.matched_pairs.len()
    }

    pub fn is_empty(&self) -> (res: bool)
        ensures
            res == (self@.len() == 0),
    {
        self.matched_pairs.len() == 0
    }

    pub fn matched_pairs(&self) -> (res: &[MatchedFramePair<C>])
        ensures
            res@.map_values(|p: MatchedFramePair<C>| p@) == self@,
    {
        self.matched_pairs.as_slice()
    }

    /// Builds the optimiser input from all collected pairs.
    pub fn build_optimize_trajectory_input(&self) -> (res: Option<OptimizeTrajectoryInput<C>>)
        ensures
            match spec_trajectory_input(self@) {
                None => res is None,
                Some((l, r, dt)) => res matches Some(input) && input.pixels@.len() == 2
                    && input.pixels@[0]@ == l && input.pixels@[1]@ == r && input.dt_doubled_ns
                    == dt,
            },
    {
        self.build_optimize_trajectory_input_from_all_pairs()
    }

    /// Keeps the pairs where both cameras saw a centroid; with at least two of
    /// them and a non-zero interval between some consecutive two, returns the
    /// two centroid tracks and the median of the non-zero intervals.
    pub fn build_optimize_trajectory_input_from_all_pairs(&self) -> (res: Option<
        OptimizeTrajectoryInput<C>,
    >)
        ensures
            match spec_trajectory_input(self@) {
                None => res is None,
                Some((l, r, dt)) => res matches Some(input) && input.pixels@.len() == 2
                    && input.pixels@[0]@ == l && input.pixels@[1]@ == r && input.dt_doubled_ns
                    == dt,
            },
    {
        let pairs = &self.matched_pairs;
        let ghost all = self@;
        let mut left_pixels: Vec<C> = Vec::new();
        let mut right_pixels: Vec<C> = Vec::new();
        let mut timestamps: Vec<u64> = Vec::new();
        let mut i: usize = 0;
        while i < pairs.len()
            invariant
                all == pairs@.map_values(|p: MatchedFramePair<C>| p@),
                i <= all.len(),
                all.len() == pairs@.len(),
                left_pixels@ == usable_left_centroids(all.take(i as int)),
                right_pixels@ == usable_right_centroids(all.take(i as int)),
                timestamps@ == usable_timestamps(all.take(i as int)),
            decreases all.len() - i,
        {
            assert(all.take(i + 1).drop_last() == all.take(i as int));
            let p = &pairs[i];
            match (p.left.context.centroid, p.right.context.centroid) {
                (Some(l), Some(r)) => {
                    left_pixels.push(l);
                    right_pixels.push(r);
                    timestamps.push(p.pair_timestamp_ns());
                },
                _ => {},
            }
            i = i + 1;
        }
        assert(all.take(all.len() as int) == all);
        if timestamps.len() < 2 {
            return None;
        }
        let mut deltas: Vec<u64> = Vec::new();
        let mut k: usize = 1;
        while k < timestamps.len()
            invariant
                1 <= k <= timestamps@.len(),
                deltas@ == positive_deltas(timestamps@.take(k as int)),
            decreases timestamps@.len() - k,
        {
            let ghost tk1 = timestamps@.take(k + 1);
            assert(tk1.drop_last() == timestamps@.take(k as int));
            let a = timestamps[k - 1];
            let b = timestamps[k];
            let d = if b >= a {
                b - a
            } else {
                a - b
            };
            if d > 0 {
                deltas.push(d);
            }
            k = k + 1;
        }
        assert(timestamps@.take(timestamps@.len() as int) == timestamps@);
        if deltas.len() == 0 {
            return None;
        }
        let dt = median_doubled_ns(deltas);
        let mut pixels: Vec<Vec<C>> = Vec::new();
        pixels.push(left_pixels);
        pixels.push(right_pixels);
        Some(OptimizeTrajectoryInput::new(pixels, dt))
    }
}

} // verus!
