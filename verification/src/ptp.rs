//! Precision Time Protocol helpers: estimating the offset between the host
//! clock and a camera's PTP clock, waiting for a PTP lock, and building the
//! GigE Vision scheduled action command that triggers both cameras.

use vstd::prelude::*;

verus! {

/// One probe of a camera's PTP clock: host monotonic time before the
/// request, the camera's latched PTP time, and host time after the reply.
#[derive(Debug, Clone, Copy, PartialEq, Eq, Structural)]
pub struct PtpProbe {
    pub before_ns: u64,
    pub camera_time_ns: u64,
    pub after_ns: u64,
}

/// Round-trip time of a probe.
pub open spec fn round_trip(p: PtpProbe) -> int {
    p.after_ns - p.before_ns
}

/// The host time assumed to match the camera reading: the start of the
/// probe plus half its round trip, rounded down.
pub open spec fn local_midpoint(p: PtpProbe) -> int {
    p.before_ns + round_trip(p) / 2
}

/// Offset of the camera clock from the host clock seen by one probe, with
/// both times read as `i64` as the camera driver reports them.
pub open spec fn probe_offset(p: PtpProbe) -> int {
    (p.camera_time_ns as i64) - (local_midpoint(p) as i64)
}

/// Whether a probe's round trip is at most three times the smallest one;
/// slower probes suffered I/O, OS or network jitter and are left out.
pub open spec fn probe_kept(p: PtpProbe, min_rtt: int) -> bool {
    round_trip(p) <= 3 * min_rtt
}

/// Smallest round trip among the probes.
pub open spec fn min_round_trip(probes: Seq<PtpProbe>) -> int
    decreases probes.len(),
{
    if probes.len() <= 1 {
        if probes.len() == 0 {
            0
        } else {
            round_trip(probes[0])
        }
    } else {
        let rest = min_round_trip(probes.drop_last());
        let last = round_trip(probes.last());
        if last < rest {
            last
        } else {
            rest
        }
    }
}

/// Sum of the offsets of the kept probes.
pub open spec fn kept_offset_sum(probes: Seq<PtpProbe>, min_rtt: int) -> int
    decreases probes.len(),
{
    if probes.len() == 0 {
        0
    } else {
        kept_offset_sum(probes.drop_last(), min_rtt) + if probe_kept(probes.last(), min_rtt) {
            probe_offset(probes.last())
        } else {
            0
        }
    }
}

/// Number of kept probes.
pub open spec fn kept_count(probes: Seq<PtpProbe>, min_rtt: int) -> int
    decreases probes.len(),
{
    if probes.len() == 0 {
        0
    } else {
        kept_count(probes.drop_last(), min_rtt) + if probe_kept(probes.last(), min_rtt) {
            1int
        } else {
            0
        }
    }
}

/// Integer division rounding toward zero, as Rust's `/` on `i64` does.
pub open spec fn div_toward_zero(a: int, b: int) -> int {
    if a >= 0 {
        a / b
    } else {
        -((-a) / b)
    }
}

/// The estimated offset: the mean of the kept probes' offsets, rounded
/// toward zero.
pub open spec fn spec_ptp_offset(probes: Seq<PtpProbe>) -> int {
    let m = min_round_trip(probes);
    div_toward_zero(kept_offset_sum(probes, m), kept_count(probes, m))
}

/// Whether a probe list can be averaged: at least one probe, clocks that do
/// not run backwards during a probe, a shortest round trip whose triple
/// fits in `u64`, and kept-offset sums that fit in `i64`.
pub open spec fn probes_usable(probes: Seq<PtpProbe>) -> bool {
    &&& probes.len() > 0
    &&& forall|k: int| 0 <= k < probes.len() ==> #[trigger] probes[k].before_ns <= probes[k].after_ns
    &&& 3 * min_round_trip(probes) <= u64::MAX
    &&& forall|j: int|
        0 <= j <= probes.len() ==> i64::MIN <= #[trigger] kept_offset_sum(
            probes.take(j),
            min_round_trip(probes),
        ) <= i64::MAX
}

proof fn lemma_min_round_trip_bounds(probes: Seq<PtpProbe>)
    requires
        probes.len() > 0,
    ensures
        forall|k: int| 0 <= k < probes.len() ==> min_round_trip(probes) <= #[trigger] round_trip(
            probes[k],
        ),
        exists|k: int| 0 <= k < probes.len() && min_round_trip(probes) == #[trigger] round_trip(
            probes[k],
        ),
    decreases probes.len(),
{
    if probes.len() > 1 {
        lemma_min_round_trip_bounds(probes.drop_last());
        let k0 = choose|k: int|
            0 <= k < probes.drop_last().len() && min_round_trip(probes.drop_last())
                == #[trigger] round_trip(probes.drop_last()[k]);
        assert(probes[k0] == probes.drop_last()[k0]);
        assert(round_trip(probes[probes.len() - 1]) == round_trip(probes.last()));
        assert forall|k: int| 0 <= k < probes.len() implies min_round_trip(probes) <= #[trigger] round_trip(
            probes[k],
        ) by {
            if k < probes.len() - 1 {
                assert(probes[k] == probes.drop_last()[k]);
            }
        }
    } else {
        assert(round_trip(probes[0]) == min_round_trip(probes));
    }
}

proof fn lemma_kept_count_positive(probes: Seq<PtpProbe>, m: int, k: int)
    requires
        0 <= k < probes.len(),
        probe_kept(probes[k], m),
    ensures
        kept_count(probes, m) >= 1,
    decreases probes.len(),
{
    if k < probes.len() - 1 {
        assert(probes.drop_last()[k] == probes[k]);
        lemma_kept_count_positive(probes.drop_last(), m, k);
        lemma_kept_count_nonneg(probes.drop_last(), m);
    } else {
        lemma_kept_count_nonneg(probes.drop_last(), m);
    }
}

proof fn lemma_kept_count_nonneg(probes: Seq<PtpProbe>, m: int)
    ensures
        0 <= kept_count(probes, m) <= probes.len(),
    decreases probes.len(),
{
    if probes.len() > 0 {
        lemma_kept_count_nonneg(probes.drop_last(), m);
    }
}

proof fn lemma_kept_sum_bounds(probes: Seq<PtpProbe>, m: int, lo: int, hi: int)
    requires
        forall|k: int|
            0 <= k < probes.len() && probe_kept(#[trigger] probes[k], m) ==> lo <= probe_offset(
                probes[k],
            ) <= hi,
    ensures
        kept_count(probes, m) * lo <= kept_offset_sum(probes, m) <= kept_count(probes, m) * hi,
    decreases probes.len(),
{
    if probes.len() > 0 {
        let rest = probes.drop_last();
        assert forall|k: int| 0 <= k < rest.len() && probe_kept(#[trigger] rest[k], m) implies lo
            <= probe_offset(rest[k]) <= hi by {
            assert(rest[k] == probes[k]);
        }
        lemma_kept_sum_bounds(rest, m, lo, hi);
        if probe_kept(probes.last(), m) {
            assert(probes.last() == probes[probes.len() - 1]);
            assert(kept_count(probes, m) * lo == kept_count(rest, m) * lo + lo) by (nonlinear_arith)
                requires
                    kept_count(probes, m) == kept_count(rest, m) + 1,
            ;
            assert(kept_count(probes, m) * hi == kept_count(rest, m) * hi + hi) by (nonlinear_arith)
                requires
                    kept_count(probes, m) == kept_count(rest, m) + 1,
            ;
        }
    }
}

proof fn lemma_truncated_mean_bounds(sum: int, count: int, lo: int, hi: int)
    requires
        count > 0,
        count * lo <= sum <= count * hi,
    ensures
        lo <= div_toward_zero(sum, count) <= hi,
{
    if sum >= 0 {
        let q = sum / count;
        vstd::arithmetic::div_mod::lemma_fundamental_div_mod(sum, count);
        assert(lo <= q) by (nonlinear_arith)
            requires
                count > 0,
                count * lo <= sum,
                sum == count * q + sum % count,
                0 <= sum % count < count,
        ;
        assert(q <= hi) by (nonlinear_arith)
            requires
                count > 0,
                sum <= count * hi,
                sum == count * q + sum % count,
                0 <= sum % count,
        ;
    } else {
        let q = (-sum) / count;
        vstd::arithmetic::div_mod::lemma_fundamental_div_mod(-sum, count);
        assert(lo <= -q) by (nonlinear_arith)
            requires
                count > 0,
                count * lo <= sum,
                -sum == count * q + (-sum) % count,
                0 <= (-sum) % count,
        ;
        assert(-q <= hi) by (nonlinear_arith)
            requires
                count > 0,
                sum <= count * hi,
                -sum == count * q + (-sum) % count,
                0 <= (-sum) % count < count,
        ;
    }
}

/// The estimate is a mean of the kept probes' offsets: whatever range holds
/// all of them also holds the estimate.
pub proof fn law_offset_within_kept_offsets(probes: Seq<PtpProbe>, lo: int, hi: int)
    requires
        probes_usable(probes),
        forall|k: int|
            0 <= k < probes.len() && probe_kept(#[trigger] probes[k], min_round_trip(probes))
                ==> lo <= probe_offset(probes[k]) <= hi,
    ensures
        lo <= spec_ptp_offset(probes) <= hi,
{
    let m = min_round_trip(probes);
    lemma_kept_sum_bounds(probes, m, lo, hi);
    lemma_min_round_trip_bounds(probes);
    let k = choose|k: int| 0 <= k < probes.len() && m == #[trigger] round_trip(probes[k]);
    lemma_kept_count_positive(probes, m, k);
    lemma_truncated_mean_bounds(kept_offset_sum(probes, m), kept_count(probes, m), lo, hi);
}

/// Estimates the offset of a camera's PTP clock from the host clock: drops
/// the probes whose round trip is more than three times the shortest one and
/// averages the offsets of the others.
pub fn estimate_ptp_offset_ns(probes: &[PtpProbe]) -> (res: i64)
    requires
        probes_usable(probes@),
        probes@.len() <= i64::MAX,
    ensures
        res == spec_ptp_offset(probes@),
{
    let ghost all = probes@;
    let n = probes.len();
    let mut min_rtt: u64 = probes[0].after_ns - probes[0].before_ns;
    let mut i: usize = 1;
    assert(all.take(1).drop_last() =~= Seq::<PtpProbe>::empty());
    assert(all.take(1) =~= seq![all[0]]);
    while i < n
        invariant
            all == probes@,
            n == all.len(),
            1 <= i <= n,
            probes_usable(all),
            min_rtt == min_round_trip(all.take(i as int)),
        decreases n - i,
    {
        assert(all.take(i + 1).drop_last() =~= all.take(i as int));
        assert(all[i as int].before_ns <= all[i as int].after_ns);
        let rtt = probes[i].after_ns - probes[i].before_ns;
        if rtt < min_rtt {
            min_rtt = rtt;
        }
        i = i + 1;
    }
    assert(all.take(n as int) =~= all);
    let ghost m = min_round_trip(all);
    let limit: u64 = min_rtt * 3;
    let mut sum: i64 = 0;
    let mut count: u64 = 0;
    let mut j: usize = 0;
    while j < n
        invariant
            all == probes@,
            n == all.len(),
            j <= n,
            probes_usable(all),
            m == min_round_trip(all),
            limit == 3 * m,
            sum == kept_offset_sum(all.take(j as int), m),
            count == kept_count(all.take(j as int), m),
            count <= j,
            n <= i64::MAX,
        decreases n - j,
    {
        assert(all.take(j + 1).drop_last() =~= all.take(j as int));
        assert(all[j as int].before_ns <= all[j as int].after_ns);
        let p = probes[j];
        let rtt = p.after_ns - p.before_ns;
        if rtt <= limit {
            let midpoint = p.before_ns + rtt / 2;
            let offset: i128 = (p.camera_time_ns as i64) as i128 - (midpoint as i64) as i128;
            assert(sum + offset == kept_offset_sum(all.take(j + 1), m));
            assert(i64::MIN <= kept_offset_sum(all.take(j + 1), m) <= i64::MAX);
            sum = (sum as i128 + offset) as i64;
            count = count + 1;
        }
        j = j + 1;
    }
    assert(all.take(n as int) =~= all);
    proof {
        lemma_min_round_trip_bounds(all);
        let k = choose|k: int| 0 <= k < all.len() && m == #[trigger] round_trip(all[k]);
        lemma_kept_count_positive(all, m, k);
    }
    let c = count as i64;
    sum / c
}

/// Number of consecutive matching servo-status reads that count as a PTP
/// lock.
pub const PTP_LOCK_CONSECUTIVE_READS: u32 = 10;

/// Number of status reads after which a wait on the camera gives up.
pub const PTP_MAX_STATUS_READS: u32 = 300;

/// Progress of a wait for a camera's PTP status to reach a target: the
/// status reads so far, and how many of the latest ones in a row matched.
/// The wait for the camera's role (master or slave) needs one match; the
/// wait for the lock needs `PTP_LOCK_CONSECUTIVE_READS` in a row.
#[derive(Debug, Clone, Copy, PartialEq, Eq, Structural)]
pub struct PtpStatusWait {
    pub required_consecutive: u32,
    pub consecutive_successes: u32,
    pub attempts: u32,
}

impl PtpStatusWait {
    /// The wait for the camera to take its master or slave role.
    pub fn for_role() -> (res: Self)
        ensures
            res == (PtpStatusWait { required_consecutive: 1, consecutive_successes: 0, attempts: 0 }),
    {
        PtpStatusWait { required_consecutive: 1, consecutive_successes: 0, attempts: 0 }
    }

    /// The wait for the PTP servo to lock.
    pub fn for_lock() -> (res: Self)
        ensures
            res == (PtpStatusWait {
                required_consecutive: PTP_LOCK_CONSECUTIVE_READS,
                consecutive_successes: 0,
                attempts: 0,
            }),
    {
        PtpStatusWait {
            required_consecutive: PTP_LOCK_CONSECUTIVE_READS,
            consecutive_successes: 0,
            attempts: 0,
        }
    }

    /// Whether another status read is due: the run of matches is still too
    /// short and the attempts are not used up.
    pub open spec fn read_due(self) -> bool {
        self.consecutive_successes < self.required_consecutive && self.attempts
            < PTP_MAX_STATUS_READS
    }

    /// Whether another status read is due.
    pub fn should_poll(&self) -> (res: bool)
        ensures
            res == self.read_due(),
    {
        self.consecutive_successes < self.required_consecutive && self.attempts
            < PTP_MAX_STATUS_READS
    }

    /// Records one status read: a match extends the run, a mismatch ends it.
    pub fn record(&mut self, status_matches: bool)
        requires
            old(self).read_due(),
        ensures
            final(self).required_consecutive == old(self).required_consecutive,
            final(self).attempts == old(self).attempts + 1,
            final(self).consecutive_successes == if status_matches {
                old(self).consecutive_successes + 1
            } else {
                0
            },
    {
        if status_matches {
            self.consecutive_successes = self.consecutive_successes + 1;
        } else {
            self.consecutive_successes = 0;
        }
        self.attempts = self.attempts + 1;
    }

    /// Whether the target status was reached: the required run of matches
    /// was seen.
    pub fn reached(&self) -> (res: bool)
        ensures
            res == (self.consecutive_successes >= self.required_consecutive),
    {
        self.consecutive_successes >= self.required_consecutive
    }
}

/// A wait always ends: every due read raises the attempt count, reads stop
/// being due after `PTP_MAX_STATUS_READS` of them, and a wait that stops
/// being due has either reached its target or used up its attempts.
pub proof fn law_status_wait_ends(w: PtpStatusWait, status_matches: bool)
    requires
        w.read_due(),
    ensures
        w.attempts < PTP_MAX_STATUS_READS,
        ({
            let next = PtpStatusWait {
                consecutive_successes: if status_matches {
                    (w.consecutive_successes + 1) as u32
                } else {
                    0
                },
                attempts: (w.attempts + 1) as u32,
                ..w
            };
            !next.read_due() ==> next.consecutive_successes >= next.required_consecutive
                || next.attempts == PTP_MAX_STATUS_READS
        }),
{
}

/// The byte of `v` that starts `shift` bits up from the least significant
/// bit.
pub open spec fn byte_at(v: u64, shift: u64) -> u8 {
    ((v >> shift) & 0xff) as u8
}

/// The 28 bytes of a scheduled action command: the GVCP header (`0x42`, the
/// flags asking for an acknowledgement with an action time, command
/// `ACTION_CMD` = `0x0100`, payload length 20, request id 1), then the
/// device key, group key and group mask (`u32`, big-endian) and the action
/// time in PTP nanoseconds (`u64`, big-endian).
pub open spec fn spec_action_command(
    fire_at_ptp_ns: u64,
    device_key: u32,
    group_key: u32,
    group_mask: u32,
) -> Seq<u8> {
    seq![0x42u8, 0x81u8, 0x01u8, 0x00u8, 0x00u8, 20u8, 0x00u8, 0x01u8]
        + seq![byte_at(device_key as u64, 24), byte_at(device_key as u64, 16), byte_at(device_key as u64, 8), byte_at(device_key as u64, 0)]
        + seq![byte_at(group_key as u64, 24), byte_at(group_key as u64, 16), byte_at(group_key as u64, 8), byte_at(group_key as u64, 0)]
        + seq![byte_at(group_mask as u64, 24), byte_at(group_mask as u64, 16), byte_at(group_mask as u64, 8), byte_at(group_mask as u64, 0)]
        + seq![
        byte_at(fire_at_ptp_ns as u64, 56),
        byte_at(fire_at_ptp_ns as u64, 48),
        byte_at(fire_at_ptp_ns as u64, 40),
        byte_at(fire_at_ptp_ns as u64, 32),
        byte_at(fire_at_ptp_ns as u64, 24),
        byte_at(fire_at_ptp_ns as u64, 16),
        byte_at(fire_at_ptp_ns as u64, 8),
        byte_at(fire_at_ptp_ns as u64, 0),
    ]
}

fn byte_of(v: u64, shift: u64) -> (res: u8)
    requires
        shift < 64,
    ensures
        res == byte_at(v, shift),
{
    ((v >> shift) & 0xff) as u8
}

/// Builds the GigE Vision scheduled action command packet that fires all
/// cameras at `fire_at_ptp_ns`; the keys and mask must match what each
/// camera was configured with.
pub fn build_action_command_packet(
    fire_at_ptp_ns: u64,
    device_key: u32,
    group_key: u32,
    group_mask: u32,
) -> (res: Vec<u8>)
    ensures
        res@ == spec_action_command(fire_at_ptp_ns, device_key, group_key, group_mask),
{
    let mut packet: Vec<u8> = Vec::new();
    packet.push(0x42);
    packet.push(0x81);
    packet.push(0x01);
    packet.push(0x00);
    packet.push(0x00);
    packet.push(20);
    packet.push(0x00);
    packet.push(0x01);
    packet.push(byte_of(device_key as u64, 24));
    packet.push(byte_of(device_key as u64, 16));
    packet.push(byte_of(device_key as u64, 8));
    packet.push(byte_of(device_key as u64, 0));
    packet.push(byte_of(group_key as u64, 24));
    packet.push(byte_of(group_key as u64, 16));
    packet.push(byte_of(group_key as u64, 8));
    packet.push(byte_of(group_key as u64, 0));
    packet.push(byte_of(group_mask as u64, 24));
    packet.push(byte_of(group_mask as u64, 16));
    packet.push(byte_of(group_mask as u64, 8));
    packet.push(byte_of(group_mask as u64, 0));
    packet.push(byte_of(fire_at_ptp_ns, 56));
    packet.push(byte_of(fire_at_ptp_ns, 48));
    packet.push(byte_of(fire_at_ptp_ns, 40));
    packet.push(byte_of(fire_at_ptp_ns, 32));
    packet.push(byte_of(fire_at_ptp_ns, 24));
    packet.push(byte_of(fire_at_ptp_ns, 16));
    packet.push(byte_of(fire_at_ptp_ns, 8));
    packet.push(byte_of(fire_at_ptp_ns, 0));
    assert(packet@ =~= spec_action_command(fire_at_ptp_ns, device_key, group_key, group_mask));
    packet
}

} // verus!
