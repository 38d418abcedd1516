//! Replaying a recorded session: the order in which the two cameras'
//! recorded frames are fed back into the pipelines, and the choice of each
//! camera's first frame.

use vstd::prelude::*;
use crate::names::chars_of;
use crate::recorded::Metadata;

verus! {

/// Lexicographic order of character sequences by code point, which is the
/// order of `String` (UTF-8 bytes compare in code point order).
pub open spec fn chars_lt(a: Seq<char>, b: Seq<char>) -> bool
    decreases a.len(),
{
    if a.len() == 0 {
        b.len() > 0
    } else if b.len() == 0 {
        false
    } else if a[0] != b[0] {
        a[0] < b[0]
    } else {
        chars_lt(a.drop_first(), b.drop_first())
    }
}

/// The replay key of a frame: its buffer timestamp, then its camera id,
/// then its frame index.
pub open spec fn replay_key(m: Metadata) -> (u64, Seq<char>, usize) {
    (m.buffer_timestamp_ns, m.camera_id@, m.frame_index)
}

/// Strict lexicographic order of replay keys.
pub open spec fn key_lt(a: (u64, Seq<char>, usize), b: (u64, Seq<char>, usize)) -> bool {
    ||| a.0 < b.0
    ||| a.0 == b.0 && chars_lt(a.1, b.1)
    ||| a.0 == b.0 && a.1 == b.1 && a.2 < b.2
}

/// Whether `order` lists every position of `frames` exactly once.
pub open spec fn is_permutation_of(order: Seq<usize>, n: nat) -> bool {
    &&& order.len() == n
    &&& forall|i: int| 0 <= i < order.len() ==> #[trigger] order[i] < n
    &&& forall|i: int, j: int| 0 <= i < j < order.len() ==> order[i] != order[j]
}

/// Whether `order` visits `frames` in replay-key order, frames with equal
/// keys in the order they were listed (a stable sort).
pub open spec fn is_replay_order(frames: Seq<Metadata>, order: Seq<usize>) -> bool {
    &&& is_permutation_of(order, frames.len())
    &&& forall|i: int, j: int|
        0 <= i < j < order.len() ==> !key_lt(
            replay_key(frames[order[j] as int]),
            replay_key(frames[order[i] as int]),
        )
    &&& forall|i: int, j: int|
        0 <= i < j < order.len() && replay_key(frames[order[i] as int]) == replay_key(
            frames[order[j] as int],
        ) ==> order[i] < order[j]
}

proof fn lemma_chars_lt_irreflexive(a: Seq<char>)
    ensures
        !chars_lt(a, a),
    decreases a.len(),
{
    if a.len() > 0 {
        lemma_chars_lt_irreflexive(a.drop_first());
    }
}

proof fn lemma_chars_lt_transitive(a: Seq<char>, b: Seq<char>, c: Seq<char>)
    requires
        chars_lt(a, b),
        chars_lt(b, c),
    ensures
        chars_lt(a, c),
    decreases a.len(),
{
    if a.len() > 0 && b.len() > 0 && c.len() > 0 {
        if a[0] == b[0] && b[0] == c[0] {
            lemma_chars_lt_transitive(a.drop_first(), b.drop_first(), c.drop_first());
        }
    }
}

proof fn lemma_chars_lt_total(a: Seq<char>, b: Seq<char>)
    ensures
        chars_lt(a, b) || chars_lt(b, a) || a == b,
    decreases a.len(),
{
    if a.len() > 0 && b.len() > 0 && a[0] == b[0] {
        lemma_chars_lt_total(a.drop_first(), b.drop_first());
        if a.drop_first() == b.drop_first() {
            assert(a =~= seq![a[0]] + a.drop_first());
            assert(b =~= seq![b[0]] + b.drop_first());
        }
    } else if a.len() == 0 && b.len() == 0 {
        assert(a =~= b);
    }
}

proof fn lemma_chars_lt_asymmetric(a: Seq<char>, b: Seq<char>)
    requires
        chars_lt(a, b),
    ensures
        !chars_lt(b, a),
{
    if chars_lt(b, a) {
        lemma_chars_lt_transitive(a, b, a);
        lemma_chars_lt_irreflexive(a);
    }
}

proof fn lemma_key_order(a: (u64, Seq<char>, usize), b: (u64, Seq<char>, usize), c: (
    u64,
    Seq<char>,
    usize,
))
    ensures
        !key_lt(a, a),
        key_lt(a, b) ==> !key_lt(b, a),
        key_lt(a, b) && key_lt(b, c) ==> key_lt(a, c),
        key_lt(a, b) || key_lt(b, a) || a == b,
{
    lemma_chars_lt_irreflexive(a.1);
    lemma_chars_lt_total(a.1, b.1);
    if chars_lt(a.1, b.1) {
        lemma_chars_lt_asymmetric(a.1, b.1);
    }
    if chars_lt(b.1, a.1) {
        lemma_chars_lt_asymmetric(b.1, a.1);
    }
    if chars_lt(a.1, b.1) && chars_lt(b.1, c.1) {
        lemma_chars_lt_transitive(a.1, b.1, c.1);
    }
}

/// Compares two character sequences in `String` order.
fn chars_less(a: &Vec<char>, b: &Vec<char>) -> (res: bool)
    ensures
        res == chars_lt(a@, b@),
{
    let mut k: usize = 0;
    assert(a@.skip(0) =~= a@);
    assert(b@.skip(0) =~= b@);
    while k < a.len() && k < b.len() && a[k] == b[k]
        invariant
            k <= a.len(),
            k <= b.len(),
            chars_lt(a@, b@) == chars_lt(a@.skip(k as int), b@.skip(k as int)),
        decreases a.len() - k,
    {
        assert(a@.skip(k as int).drop_first() =~= a@.skip(k + 1));
        assert(b@.skip(k as int).drop_first() =~= b@.skip(k + 1));
        k = k + 1;
    }
    if k == a.len() {
        k < b.len()
    } else if k == b.len() {
        false
    } else {
        a[k] < b[k]
    }
}

/// Whether the frame at `x` comes strictly before the frame at `y` in
/// replay order.
fn key_less(frames: &Vec<Metadata>, ids: &Vec<Vec<char>>, x: usize, y: usize) -> (res: bool)
    requires
        x < frames.len(),
        y < frames.len(),
        ids.len() == frames.len(),
        forall|k: int| 0 <= k < frames.len() ==> #[trigger] ids[k]@ == frames[k].camera_id@,
    ensures
        res == key_lt(replay_key(frames@[x as int]), replay_key(frames@[y as int])),
{
    let a = &frames[x];
    let b = &frames[y];
    if a.buffer_timestamp_ns != b.buffer_timestamp_ns {
        return a.buffer_timestamp_ns < b.buffer_timestamp_ns;
    }
    let ia = &ids[x];
    let ib = &ids[y];
    if chars_less(ia, ib) {
        return true;
    }
    if chars_less(ib, ia) {
        proof {
            lemma_key_order(replay_key(frames@[y as int]), replay_key(frames@[x as int]), replay_key(frames@[x as int]));
        }
        return false;
    }
    proof {
        lemma_chars_lt_total(ia@, ib@);
    }
    a.frame_index < b.frame_index
}

/// The order in which recorded frames are replayed: by buffer timestamp,
/// then camera id, then frame index, frames with equal keys in the order
/// they were listed. Every frame must carry its non-zero buffer timestamp.
pub fn replay_order(frames: &Vec<Metadata>) -> (order: Vec<usize>)
    requires
        forall|k: int| 0 <= k < frames.len() ==> #[trigger] frames[k].buffer_timestamp_ns != 0,
    ensures
        is_replay_order(frames@, order@),
{
    let n = frames.len();
    let mut ids: Vec<Vec<char>> = Vec::new();
    let mut t: usize = 0;
    while t < n
        invariant
            n == frames.len(),
            t <= n,
            ids.len() == t,
            forall|k: int| 0 <= k < t ==> #[trigger] ids[k]@ == frames[k].camera_id@,
        decreases n - t,
    {
        ids.push(chars_of(frames[t].camera_id.as_str()));
        t = t + 1;
    }
    let ghost fs = frames@;
    let mut order: Vec<usize> = Vec::new();
    let mut i: usize = 0;
    while i < n
        invariant
            n == frames.len(),
            fs == frames@,
            i <= n,
            ids.len() == n,
            forall|k: int| 0 <= k < n ==> #[trigger] ids[k]@ == frames[k].camera_id@,
            order.len() == i,
            forall|a: int| 0 <= a < order.len() ==> #[trigger] order@[a] < i,
            forall|a: int, b: int| 0 <= a < b < order.len() ==> order@[a] != order@[b],
            forall|a: int, b: int|
                0 <= a < b < order.len() ==> !key_lt(
                    replay_key(fs[order@[b] as int]),
                    replay_key(fs[order@[a] as int]),
                ),
            forall|a: int, b: int|
                0 <= a < b < order.len() && replay_key(fs[order@[a] as int]) == replay_key(
                    fs[order@[b] as int],
                ) ==> order@[a] < order@[b],
        decreases n - i,
    {
        let mut p: usize = order.len();
        while p > 0 && key_less(frames, &ids, i, order[p - 1])
            invariant
                n == frames.len(),
                fs == frames@,
                i < n,
                ids.len() == n,
                forall|k: int| 0 <= k < n ==> #[trigger] ids[k]@ == frames[k].camera_id@,
                order.len() == i,
                forall|a: int| 0 <= a < order.len() ==> #[trigger] order@[a] < i,
                p <= order.len(),
                forall|q: int|
                    p <= q < order.len() ==> key_lt(
                        replay_key(fs[i as int]),
                        replay_key(fs[#[trigger] order@[q] as int]),
                    ),
            decreases p,
        {
            p = p - 1;
        }
        let ghost old_order = order@;
        proof {
            // Everything before `p` comes no later than the new frame.
            assert forall|q: int| 0 <= q < p implies !key_lt(
                replay_key(fs[i as int]),
                replay_key(fs[#[trigger] old_order[q] as int]),
            ) by {
                if p > 0 {
                    let last = old_order[p - 1];
                    assert(!key_lt(replay_key(fs[i as int]), replay_key(fs[last as int])));
                    if q < p - 1 {
                        lemma_key_order(
                            replay_key(fs[i as int]),
                            replay_key(fs[old_order[q] as int]),
                            replay_key(fs[last as int]),
                        );
                        lemma_key_order(
                            replay_key(fs[old_order[q] as int]),
                            replay_key(fs[last as int]),
                            replay_key(fs[i as int]),
                        );
                    }
                }
            }
        }
        order.insert(p, i);
        proof {
            let new_order = order@;
            assert(new_order == old_order.insert(p as int, i));
            assert forall|a: int| 0 <= a < new_order.len() implies #[trigger] new_order[a] < i + 1 by {
                if a < p {
                    assert(new_order[a] == old_order[a]);
                } else if a > p {
                    assert(new_order[a] == old_order[a - 1]);
                }
            }
            assert forall|a: int, b: int| 0 <= a < b < new_order.len() implies new_order[a]
                != new_order[b] by {
                if a < p {
                    assert(new_order[a] == old_order[a]);
                }
                if a > p {
                    assert(new_order[a] == old_order[a - 1]);
                }
                if b < p {
                    assert(new_order[b] == old_order[b]);
                }
                if b > p {
                    assert(new_order[b] == old_order[b - 1]);
                }
            }
            assert forall|a: int, b: int| 0 <= a < b < new_order.len() implies !key_lt(
                replay_key(fs[new_order[b] as int]),
                replay_key(fs[new_order[a] as int]),
            ) && (replay_key(fs[new_order[a] as int]) == replay_key(fs[new_order[b] as int])
                ==> new_order[a] < new_order[b]) by {
                let ka = replay_key(fs[new_order[a] as int]);
                let kb = replay_key(fs[new_order[b] as int]);
                lemma_key_order(ka, kb, ka);
                if a < p && b < p {
                    assert(new_order[a] == old_order[a]);
                    assert(new_order[b] == old_order[b]);
                } else if a < p && b == p {
                    assert(new_order[a] == old_order[a]);
                    assert(!key_lt(replay_key(fs[i as int]), replay_key(fs[old_order[a] as int])));
                } else if a < p && b > p {
                    assert(new_order[a] == old_order[a]);
                    assert(new_order[b] == old_order[b - 1]);
                } else if a == p {
                    assert(new_order[b] == old_order[b - 1]);
                    assert(key_lt(replay_key(fs[i as int]), replay_key(fs[old_order[b - 1] as int])));
                    lemma_key_order(kb, ka, ka);
                } else {
                    assert(new_order[a] == old_order[a - 1]);
                    assert(new_order[b] == old_order[b - 1]);
                }
            }
        }
        i = i + 1;
    }
    order
}

/// The position of the first frame of `camera_id`: among the frames of that
/// camera, one with the smallest frame index, the earliest listed on ties.
pub open spec fn is_first_frame_of(frames: Seq<Metadata>, camera_id: Seq<char>, pos: int) -> bool {
    &&& 0 <= pos < frames.len()
    &&& frames[pos].camera_id@ == camera_id
    &&& forall|k: int|
        0 <= k < frames.len() && #[trigger] frames[k].camera_id@ == camera_id ==> frames[pos].frame_index
            <= frames[k].frame_index
    &&& forall|k: int|
        0 <= k < pos && #[trigger] frames[k].camera_id@ == camera_id ==> frames[pos].frame_index
            < frames[k].frame_index
}

fn same_chars(a: &Vec<char>, b: &Vec<char>) -> (res: bool)
    ensures
        res == (a@ == b@),
{
    if a.len() != b.len() {
        return false;
    }
    let mut k: usize = 0;
    while k < a.len()
        invariant
            a.len() == b.len(),
            k <= a.len(),
            forall|j: int| 0 <= j < k ==> a@[j] == b@[j],
        decreases a.len() - k,
    {
        if a[k] != b[k] {
            return false;
        }
        k = k + 1;
    }
    assert(a@ =~= b@);
    true
}

/// Finds the first recorded frame of a camera: the one with the smallest
/// frame index (the earliest listed on ties), `None` when the camera has no
/// frame.
pub fn first_frame_for(frames: &Vec<Metadata>, camera_id: &str) -> (res: Option<usize>)
    ensures
        res matches Some(pos) ==> is_first_frame_of(frames@, camera_id@, pos as int),
        res is None ==> forall|k: int|
            0 <= k < frames.len() ==> #[trigger] frames@[k].camera_id@ != camera_id@,
{
    let wanted = chars_of(camera_id);
    let mut best: Option<usize> = None;
    let mut i: usize = 0;
    while i < frames.len()
        invariant
            i <= frames.len(),
            wanted@ == camera_id@,
            best matches Some(pos) ==> pos < i && frames@[pos as int].camera_id@ == camera_id@
                && (forall|k: int|
                0 <= k < i && #[trigger] frames@[k].camera_id@ == camera_id@
                    ==> frames@[pos as int].frame_index <= frames@[k].frame_index) && (forall|k: int|
                0 <= k < pos && #[trigger] frames@[k].camera_id@ == camera_id@
                    ==> frames@[pos as int].frame_index < frames@[k].frame_index),
            best is None ==> forall|k: int|
                0 <= k < i ==> #[trigger] frames@[k].camera_id@ != camera_id@,
        decreases frames.len() - i,
    {
        let id = chars_of(frames[i].camera_id.as_str());
        if same_chars(&id, &wanted) {
            match best {
                None => {
                    best = Some(i);
                },
                Some(pos) => {
                    if frames[i].frame_index < frames[pos].frame_index {
                        best = Some(i);
                    }
                },
            }
        }
        i = i + 1;
    }
    best
}

} // verus!
