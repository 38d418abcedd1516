//! A check of an H.265 SPS NAL unit before it is handed to the SPS parser
//! (`scuffle_h265`), which panics on some payloads. The raw byte sequence
//! payload (RBSP) is recovered by removing the emulation prevention bytes,
//! and the syntax elements up to the end of the scaling list data are read
//! the way the parser reads them, sub-layer profiles and levels included.
//!
//! The check holds of every SPS the parser reads without error, except
//! these, which recovery cannot inspect (it then goes on without the SPS):
//! - an Exp-Golomb code with 60 or more leading zeros up to the end of the
//!   scaling list data, or a run of 60 zero bits after it, zero bytes that
//!   trail the SPS included (on a target whose `usize` is narrower than 64
//!   bits, a run of 28 zero bits after it);
//! - on such a narrower target, a predicted scaling matrix whose
//!   `scaling_list_pred_matrix_id_delta` is 6 or more (the parser cuts it to
//!   `usize` and may read it as a smaller delta);
//! - a payload longer than `SPS_CHECK_MAX_LEN` bytes.
//!
//! Besides, the check fails on every payload on which the parser panics:
//! `CtbLog2SizeY` smaller than `MinTbLog2SizeY`, a predicted scaling matrix
//! that refers to one before the first matrix of its size, an Exp-Golomb
//! code with 64 or more leading zeros, and 256 zero bytes in a row.

use vstd::prelude::*;
use vstd::arithmetic::power2::{pow2, lemma_pow2_unfold, lemma_pow2_strictly_increases, lemma2_to64_rest};

verus! {

/// The RBSP of `s`, the bytes of a NAL unit after its header: an `03` byte
/// that follows two or more `00` bytes is dropped. `zeros` is the number of
/// `00` bytes just before `s` (counted up to 2).
pub open spec fn emulation_prevention_removed(s: Seq<u8>, zeros: nat) -> Seq<u8>
    decreases s.len(),
{
    if s.len() == 0 {
        Seq::empty()
    } else if s[0] == 3 && zeros >= 2 {
        emulation_prevention_removed(s.drop_first(), 0)
    } else if s[0] == 0 {
        seq![0u8] + emulation_prevention_removed(
            s.drop_first(),
            if zeros >= 2 {
                2
            } else {
                zeros + 1
            },
        )
    } else {
        seq![s[0]] + emulation_prevention_removed(s.drop_first(), 0)
    }
}

/// The RBSP of an SPS NAL unit payload that begins with its two-byte header.
pub open spec fn sps_rbsp(payload: Seq<u8>) -> Seq<u8> {
    emulation_prevention_removed(payload.skip(2), 0)
}

/// Number of bits in `r`.
pub open spec fn bit_len(r: Seq<u8>) -> int {
    (r.len() * 8) as int
}

/// Bit `i` of `r`, most significant bit of each byte first.
pub open spec fn rbsp_bit(r: Seq<u8>, i: int) -> bool {
    ((r[i / 8] >> ((7 - i % 8) as u8)) & 1u8) == 1u8
}

/// The `n` bits of `r` from bit `p` on, read as an unsigned number.
pub open spec fn bits_value(r: Seq<u8>, p: int, n: nat) -> int
    decreases n,
{
    if n == 0 {
        0
    } else {
        2 * bits_value(r, p, (n - 1) as nat) + if rbsp_bit(r, p + n - 1) {
            1int
        } else {
            0int
        }
    }
}

/// Number of zero bits of `r` from bit `p` on, counting at most `budget`.
pub open spec fn zeros_at(r: Seq<u8>, p: int, budget: nat) -> nat
    decreases budget,
{
    if budget == 0 || p < 0 || p >= bit_len(r) || rbsp_bit(r, p) {
        0
    } else {
        1 + zeros_at(r, p + 1, (budget - 1) as nat)
    }
}

/// Longest run of leading zeros that an Exp-Golomb code may have here.
pub const MAX_LEADING_ZEROS: usize = 60;

/// The Exp-Golomb code at bit `p`: its value and the position after it;
/// `None` when it has `MAX_LEADING_ZEROS` or more leading zeros or runs past
/// the end of `r`.
pub open spec fn ue_at(r: Seq<u8>, p: int) -> Option<(int, int)> {
    let l = zeros_at(r, p, MAX_LEADING_ZEROS as nat);
    if l >= MAX_LEADING_ZEROS || p + 2 * l + 1 > bit_len(r) {
        None
    } else {
        Some((bits_value(r, p + l, (l + 1) as nat) - 1, p + 2 * l + 1))
    }
}

/// The position after `k` Exp-Golomb codes read from bit `p`.
pub open spec fn skip_ues(r: Seq<u8>, p: int, k: nat) -> Option<int>
    decreases k,
{
    if k == 0 {
        Some(p)
    } else {
        match skip_ues(r, p, (k - 1) as nat) {
            None => None,
            Some(q) => match ue_at(r, q) {
                None => None,
                Some((_, next)) => Some(next),
            },
        }
    }
}

/// Number of zero bits just before bit `i`, not counting bits before `from`.
pub open spec fn zero_run_before(r: Seq<u8>, from: int, i: int) -> nat
    decreases i - from,
{
    if i <= from {
        0
    } else if rbsp_bit(r, i - 1) {
        0
    } else {
        zero_run_before(r, from, i - 1) + 1
    }
}

/// Whether the bits of `r` from `from` on hold no run of `limit` zeros.
pub open spec fn no_long_zero_run(r: Seq<u8>, from: int, limit: int) -> bool {
    forall|i: int| from <= i <= bit_len(r) ==> #[trigger] zero_run_before(r, from, i) < limit
}

/// Bit position where the profile, tier and level of the sub-layers begin:
/// 4 bits of VPS id, 3 bits of `sps_max_sub_layers_minus1`, 1 nesting flag
/// and the 96 bits that the parser reads for the general profile, tier and
/// level.
pub const SPS_SUB_LAYER_PTL_BIT: usize = 104;

/// The number of bits the parser reads for the profiles and levels of the
/// sub-layers `i..m`, whose two present flags stand at bit
/// `SPS_SUB_LAYER_PTL_BIT + 2 * i`: a sub-layer profile takes 88 bits and,
/// when the level is present, the 8 bits of a level inside it; a present
/// level then takes 8 bits more.
pub open spec fn sub_layer_ptl_bits(r: Seq<u8>, m: nat, i: nat) -> int
    decreases m - i,
{
    if i >= m {
        0
    } else {
        let profile_present = rbsp_bit(r, SPS_SUB_LAYER_PTL_BIT + 2 * i);
        let level_present = rbsp_bit(r, SPS_SUB_LAYER_PTL_BIT + 2 * i + 1);
        let level_bits: int = if level_present {
            8
        } else {
            0
        };
        let profile_bits: int = if profile_present {
            88 + level_bits
        } else {
            0
        };
        profile_bits + level_bits + sub_layer_ptl_bits(r, m, i + 1)
    }
}

/// The position after the profile, tier and level of an SPS whose
/// `sps_max_sub_layers_minus1` is `m`: the sub-layer flags, the reserved bits
/// that fill them up to eight pairs, and the sub-layer profiles and levels.
pub open spec fn ptl_end(r: Seq<u8>, m: nat) -> int {
    let reserved: int = if m > 0 {
        2 * (8 - m)
    } else {
        0
    };
    SPS_SUB_LAYER_PTL_BIT + 2 * m + reserved + sub_layer_ptl_bits(r, m, 0)
}

/// The position after `sps_seq_parameter_set_id`, `chroma_format_idc` (and
/// `separate_colour_plane_flag` for 4:4:4), the picture width and height,
/// the conformance window, the two bit depths and
/// `log2_max_pic_order_cnt_lsb_minus4`, read from `p`.
pub open spec fn after_picture_format(r: Seq<u8>, p: int) -> Option<int> {
    match skip_ues(r, p, 1) {
        None => None,
        Some(p1) => match ue_at(r, p1) {
            None => None,
            Some((chroma, p2)) => {
                let p3 = if chroma == 3 {
                    p2 + 1
                } else {
                    p2
                };
                match skip_ues(r, p3, 2) {
                    None => None,
                    Some(p4) => if p4 >= bit_len(r) {
                        None
                    } else {
                        let window = if rbsp_bit(r, p4) {
                            skip_ues(r, p4 + 1, 4)
                        } else {
                            Some(p4 + 1)
                        };
                        match window {
                            None => None,
                            Some(p5) => skip_ues(r, p5, 3),
                        }
                    },
                }
            },
        },
    }
}

/// Skipping `a + b` Exp-Golomb codes is skipping `a` codes, then `b` more.
proof fn lemma_skip_ues_add(r: Seq<u8>, p: int, a: nat, b: nat)
    ensures
        skip_ues(r, p, a + b) == match skip_ues(r, p, a) {
            None => None,
            Some(q) => skip_ues(r, q, b),
        },
    decreases b,
{
    if b > 0 {
        lemma_skip_ues_add(r, p, a, (b - 1) as nat);
        assert((a + b - 1) as nat == a + (b - 1) as nat);
    }
}

/// Every chroma format but 4:4:4 (whose `separate_colour_plane_flag` adds a
/// bit) is read alike, monochrome 4:0:0 included: the picture format is four
/// Exp-Golomb codes (`sps_seq_parameter_set_id`, `chroma_format_idc`, width,
/// height), the conformance window flag with four codes when it is set, and
/// three codes (the bit depths and `log2_max_pic_order_cnt_lsb_minus4`); the
/// check gives up on it only where one of these cannot be read.
pub proof fn law_picture_format_reads_every_chroma_format(
    r: Seq<u8>,
    p: int,
    p1: int,
    chroma: int,
    p2: int,
)
    requires
        skip_ues(r, p, 1) == Some(p1),
        ue_at(r, p1) == Some((chroma, p2)),
        chroma != 3,
    ensures
        after_picture_format(r, p) == match skip_ues(r, p, 4) {
            None => None,
            Some(q) => if q >= bit_len(r) {
                None
            } else if rbsp_bit(r, q) {
                skip_ues(r, q + 1, 7)
            } else {
                skip_ues(r, q + 1, 3)
            },
        },
{
    assert(skip_ues(r, p, 2) == Some(p2)) by {
        lemma_skip_ues_add(r, p, 1, 1);
        assert(skip_ues(r, p1, 0) == Some(p1));
    }
    lemma_skip_ues_add(r, p, 2, 2);
    assert(skip_ues(r, p, 4) == skip_ues(r, p2, 2));
    match skip_ues(r, p2, 2) {
        None => {},
        Some(q) => {
            lemma_skip_ues_add(r, q + 1, 4, 3);
        },
    }
}

/// The position after the sub-layer ordering information read from `p`: a
/// flag, then three Exp-Golomb codes for each of the `m + 1` sub-layers when
/// it is set, three in all when it is not.
pub open spec fn after_ordering_info(r: Seq<u8>, p: int, m: nat) -> Option<int> {
    if p >= bit_len(r) {
        None
    } else if rbsp_bit(r, p) {
        skip_ues(r, p + 1, 3 * (m + 1))
    } else {
        skip_ues(r, p + 1, 3)
    }
}

/// The position after the six block size and transform depth codes read
/// from `p`; `None` when `CtbLog2SizeY` is smaller than `MinTbLog2SizeY`, on
/// which the parser's `CtbLog2SizeY - MinTbLog2SizeY` underflows.
pub open spec fn after_block_sizes(r: Seq<u8>, p: int) -> Option<int> {
    match ue_at(r, p) {
        None => None,
        Some((min_cb_minus3, p1)) => match ue_at(r, p1) {
            None => None,
            Some((diff_cb, p2)) => match ue_at(r, p2) {
                None => None,
                Some((min_tb_minus2, p3)) => if min_cb_minus3 + 3 + diff_cb < min_tb_minus2 + 2 {
                    None
                } else {
                    skip_ues(r, p3, 3)
                },
            },
        },
    }
}

/// Number of scaling matrices the parser walks: six for each of the first
/// three sizes and two for the largest.
pub const SCALING_MATRICES: usize = 20;

/// `sizeId` of the `e`-th scaling matrix the parser walks.
pub open spec fn scaling_size(e: int) -> int {
    if e < 18 {
        e / 6
    } else {
        3
    }
}

/// `matrixId` of the `e`-th scaling matrix the parser walks.
pub open spec fn scaling_matrix(e: int) -> int {
    if e < 18 {
        e % 6
    } else {
        (e - 18) * 3
    }
}

/// The step between matrices of one size, by which the parser multiplies
/// `scaling_list_pred_matrix_id_delta`.
pub open spec fn scaling_step(e: int) -> int {
    if scaling_size(e) == 3 {
        3
    } else {
        1
    }
}

/// Number of coefficients coded for an explicit matrix of the `e`-th entry.
pub open spec fn scaling_coefs(e: int) -> nat {
    if scaling_size(e) == 0 {
        16
    } else {
        64
    }
}

/// The position after the scaling list data of matrices `e..` read from
/// `p`; `None` when a predicted matrix refers to one before the first matrix
/// of its size (the parser's `matrixId - delta * step` underflows there).
pub open spec fn after_scaling_lists(r: Seq<u8>, p: int, e: nat) -> Option<int>
    decreases SCALING_MATRICES - e,
{
    if e >= SCALING_MATRICES {
        Some(p)
    } else if p < 0 || p >= bit_len(r) {
        None
    } else if !rbsp_bit(r, p) {
        match ue_at(r, p + 1) {
            None => None,
            Some((delta, q)) => if scaling_size(e as int) > 0 && delta != 0 && delta * scaling_step(
                e as int,
            ) > scaling_matrix(e as int) {
                None
            } else {
                after_scaling_lists(r, q, e + 1)
            },
        }
    } else {
        let dc = if scaling_size(e as int) > 1 {
            skip_ues(r, p + 1, 1)
        } else {
            Some(p + 1)
        };
        match dc {
            None => None,
            Some(q) => match skip_ues(r, q, scaling_coefs(e as int)) {
                None => None,
                Some(q2) => after_scaling_lists(r, q2, e + 1),
            },
        }
    }
}

/// The position after the scaling list flags read from `p`, and after the
/// scaling list data when it is present.
pub open spec fn after_scaling(r: Seq<u8>, p: int) -> Option<int> {
    if p >= bit_len(r) {
        None
    } else if !rbsp_bit(r, p) {
        Some(p + 1)
    } else if p + 1 >= bit_len(r) {
        None
    } else if !rbsp_bit(r, p + 1) {
        Some(p + 2)
    } else {
        after_scaling_lists(r, p + 2, 0)
    }
}

/// The position in the RBSP `r` of an SPS where the syntax elements after
/// the scaling list data begin, read the way the parser reads them; `None`
/// where the check gives up before it.
pub open spec fn sps_rest_start(r: Seq<u8>) -> Option<int> {
    let m = bits_value(r, 4, 3);
    if bit_len(r) < SPS_SUB_LAYER_PTL_BIT + 2 * m || m > 6 {
        None
    } else {
        match after_picture_format(r, ptl_end(r, m as nat)) {
            None => None,
            Some(p) => match after_ordering_info(r, p, m as nat) {
                None => None,
                Some(q) => match after_block_sizes(r, q) {
                    None => None,
                    Some(t) => after_scaling(r, t),
                },
            },
        }
    }
}

/// Longest run of zero bits allowed after the scaling list data on a target
/// whose `usize` is narrower than 64 bits.
pub const NARROW_TARGET_ZERO_RUN: usize = 28;

/// Longest run of zero bits allowed anywhere in the RBSP.
pub const RBSP_ZERO_RUN: usize = 2048;

/// Payloads longer than this are not checked.
pub const SPS_CHECK_MAX_LEN: usize = 0x1000_0000;

/// The condition under which an SPS NAL unit payload is handed to the SPS
/// parser. The payload holds its two-byte header and at most
/// `SPS_CHECK_MAX_LEN` bytes; in its RBSP:
/// - the syntax elements up to the scaling list data are read as the parser
///   reads them (`sps_rest_start`), every Exp-Golomb code among them with
///   fewer than `MAX_LEADING_ZEROS` leading zeros, `CtbLog2SizeY` at least
///   `MinTbLog2SizeY`, and every predicted scaling matrix referring to a
///   matrix of its size;
/// - after them no run of `MAX_LEADING_ZEROS` zero bits follows (of
///   `NARROW_TARGET_ZERO_RUN` on a target whose `usize` is narrower than 64
///   bits), so that every value read there is below `2^60` (`2^28`);
/// - no run of `RBSP_ZERO_RUN` zero bits occurs anywhere.
pub open spec fn sps_payload_is_safe(payload: Seq<u8>) -> bool {
    &&& 2 <= payload.len() <= SPS_CHECK_MAX_LEN
    &&& no_long_zero_run(sps_rbsp(payload), 0, RBSP_ZERO_RUN as int)
    &&& match sps_rest_start(sps_rbsp(payload)) {
        None => false,
        Some(q) => {
            &&& no_long_zero_run(sps_rbsp(payload), q, MAX_LEADING_ZEROS as int)
            &&& (usize::MAX == u64::MAX || no_long_zero_run(
                sps_rbsp(payload),
                q,
                NARROW_TARGET_ZERO_RUN as int,
            ))
        },
    }
}

/// The RBSP of an SPS NAL unit payload: the bytes after the two-byte header
/// with the emulation prevention bytes removed.
pub fn sps_rbsp_bytes(payload: &[u8]) -> (res: Vec<u8>)
    requires
        payload.len() >= 2,
    ensures
        res@ == sps_rbsp(payload@),
        res.len() <= payload.len(),
{
    let mut out: Vec<u8> = Vec::new();
    let mut zeros: u8 = 0;
    let mut i: usize = 2;
    while i < payload.len()
        invariant
            2 <= i <= payload.len(),
            zeros <= 2,
            out.len() <= i,
            out@ + emulation_prevention_removed(payload@.skip(i as int), zeros as nat)
                == sps_rbsp(payload@),
        decreases payload.len() - i,
    {
        let b = payload[i];
        let ghost rest = payload@.skip(i + 1);
        let ghost before = out@;
        assert(payload@.skip(i as int).drop_first() =~= rest);
        assert(payload@.skip(i as int)[0] == b);
        if b == 3 && zeros >= 2 {
            zeros = 0;
        } else if b == 0 {
            out.push(0);
            zeros = if zeros >= 2 {
                2
            } else {
                zeros + 1
            };
            assert(before.push(0u8) + emulation_prevention_removed(rest, zeros as nat) =~= before + (
            seq![0u8] + emulation_prevention_removed(rest, zeros as nat)));
        } else {
            out.push(b);
            zeros = 0;
            assert(before.push(b) + emulation_prevention_removed(rest, 0) =~= before + (seq![b]
                + emulation_prevention_removed(rest, 0)));
        }
        i = i + 1;
    }
    assert(payload@.skip(i as int) =~= Seq::<u8>::empty());
    assert(out@ + Seq::<u8>::empty() =~= out@);
    out
}

/// Bit `i` of `r`.
fn bit_at(r: &Vec<u8>, i: usize) -> (res: bool)
    requires
        i < r.len() * 8,
    ensures
        res == rbsp_bit(r@, i as int),
{
    let byte = r[i / 8];
    let shift: u8 = (7 - i % 8) as u8;
    (byte >> shift) & 1u8 == 1u8
}

/// Bits read as a number from a set bit on are at least 1.
proof fn lemma_leading_one(r: Seq<u8>, p: int, n: nat)
    requires
        rbsp_bit(r, p),
    ensures
        bits_value(r, p, n + 1) >= 1,
    decreases n,
{
    if n == 0 {
        assert(bits_value(r, p, 0) == 0);
        assert(p + 1 - 1 == p);
        assert(bits_value(r, p, 1) == 2 * bits_value(r, p, 0) + if rbsp_bit(r, p) {
            1int
        } else {
            0int
        });
    } else {
        lemma_leading_one(r, p, (n - 1) as nat);
        lemma_bits_value_bound(r, p, (n + 1) as nat);
        assert(bits_value(r, p, n + 1) == 2 * bits_value(r, p, n) + if rbsp_bit(r, p + n) {
            1int
        } else {
            0int
        });
    }
}

/// Reads `n` bits from bit `p` as an unsigned number.
fn read_bits(r: &Vec<u8>, p: usize, n: usize) -> (res: u64)
    requires
        n <= MAX_LEADING_ZEROS,
        p + n <= r.len() * 8 <= usize::MAX,
    ensures
        res == bits_value(r@, p as int, n as nat),
        res < pow2(n as nat),
{
    let mut v: u64 = 0;
    let mut k: usize = 0;
    proof {
        lemma2_to64_rest();
        vstd::arithmetic::power2::lemma2_to64();
    }
    while k < n
        invariant
            k <= n <= MAX_LEADING_ZEROS,
            p + n <= r.len() * 8 <= usize::MAX,
            v == bits_value(r@, p as int, k as nat),
            v < pow2(k as nat),
            pow2(60) == 0x1000000000000000,
        decreases n - k,
    {
        let bit = bit_at(r, p + k);
        proof {
            lemma_pow2_unfold((k + 1) as nat);
            if k + 1 < 60 {
                lemma_pow2_strictly_increases((k + 1) as nat, 60);
            }
        }
        v = 2 * v + if bit {
            1
        } else {
            0
        };
        k = k + 1;
    }
    v
}

/// Reads the Exp-Golomb code at bit `p`: its value and the position after
/// it, as `ue_at` says.
fn read_ue(r: &Vec<u8>, p: usize) -> (res: Option<(u64, usize)>)
    requires
        p <= r.len() * 8,
        r.len() * 8 + 2 * MAX_LEADING_ZEROS + 1 <= usize::MAX,
    ensures
        res matches Some((v, q)) ==> ue_at(r@, p as int) == Some((v as int, q as int)) && q <= r.len()
            * 8,
        res is None ==> ue_at(r@, p as int) is None,
{
    let nbits = r.len() * 8;
    let mut l: usize = 0;
    while l < MAX_LEADING_ZEROS && p + l < nbits && !bit_at(r, p + l)
        invariant
            l <= MAX_LEADING_ZEROS,
            p + l <= nbits,
            nbits == r.len() * 8,
            zeros_at(r@, p as int, MAX_LEADING_ZEROS as nat) == l + zeros_at(
                r@,
                p + l,
                (MAX_LEADING_ZEROS - l) as nat,
            ),
        decreases MAX_LEADING_ZEROS - l,
    {
        l = l + 1;
    }
    assert(zeros_at(r@, p + l, (MAX_LEADING_ZEROS - l) as nat) == 0);
    if l >= MAX_LEADING_ZEROS || p + 2 * l + 1 > nbits {
        return None;
    }
    assert(rbsp_bit(r@, p + l));
    let v = read_bits(r, p + l, l + 1);
    proof {
        lemma_leading_one(r@, (p + l) as int, l as nat);
    }
    Some((v - 1, p + 2 * l + 1))
}

/// Skips `k` Exp-Golomb codes from bit `p`, as `skip_ues` says.
fn skip_ue_codes(r: &Vec<u8>, p: usize, k: usize) -> (res: Option<usize>)
    requires
        p <= r.len() * 8,
        r.len() * 8 + 2 * MAX_LEADING_ZEROS + 1 <= usize::MAX,
    ensures
        res matches Some(q) ==> skip_ues(r@, p as int, k as nat) == Some(q as int) && p <= q <= r.len()
            * 8,
        res is None ==> skip_ues(r@, p as int, k as nat) is None,
{
    let mut pos = p;
    let mut i: usize = 0;
    while i < k
        invariant
            i <= k,
            p <= pos <= r.len() * 8,
            r.len() * 8 + 2 * MAX_LEADING_ZEROS + 1 <= usize::MAX,
            skip_ues(r@, p as int, i as nat) == Some(pos as int),
        decreases k - i,
    {
        match read_ue(r, pos) {
            None => {
                proof {
                    lemma_skip_ues_stays_none(r@, p as int, (i + 1) as nat, k as nat);
                }
                return None;
            },
            Some((_, next)) => {
                pos = next;
            },
        }
        i = i + 1;
    }
    Some(pos)
}

/// No Exp-Golomb code can be read past the end.
proof fn lemma_nothing_past_the_end(r: Seq<u8>, p: int)
    requires
        p > bit_len(r),
    ensures
        ue_at(r, p) is None,
        skip_ues(r, p, 2) is None,
{
    assert(zeros_at(r, p, MAX_LEADING_ZEROS as nat) == 0);
    assert(skip_ues(r, p, 0) == Some(p));
    assert(skip_ues(r, p, 1) is None);
}

/// Once skipping fails it fails for every larger count.
proof fn lemma_skip_ues_stays_none(r: Seq<u8>, p: int, i: nat, k: nat)
    requires
        i <= k,
        skip_ues(r, p, i) is None,
    ensures
        skip_ues(r, p, k) is None,
    decreases k - i,
{
    if i < k {
        lemma_skip_ues_stays_none(r, p, i + 1, k);
    }
}

/// Whether the bits of `r` from `from` on hold no run of `limit` zeros.
fn has_no_long_zero_run(r: &Vec<u8>, from: usize, limit: usize) -> (res: bool)
    requires
        from <= r.len() * 8 <= usize::MAX,
        limit > 0,
    ensures
        res == no_long_zero_run(r@, from as int, limit as int),
{
    let nbits = r.len() * 8;
    let mut run: usize = 0;
    let mut i = from;
    while i < nbits
        invariant
            from <= i <= nbits,
            nbits == r.len() * 8,
            limit > 0,
            run == zero_run_before(r@, from as int, i as int),
            forall|k: int| from <= k <= i ==> #[trigger] zero_run_before(r@, from as int, k) < limit,
        decreases nbits - i,
    {
        if bit_at(r, i) {
            run = 0;
        } else {
            run = run + 1;
            if run >= limit {
                assert(zero_run_before(r@, from as int, i + 1) >= limit);
                return false;
            }
        }
        i = i + 1;
    }
    true
}

/// The position after the picture format elements read from `p`, as
/// `after_picture_format` says.
#[verifier::rlimit(40)]
fn skip_picture_format(r: &Vec<u8>, p: usize) -> (res: Option<usize>)
    requires
        p <= r.len() * 8,
        r.len() * 8 + 2 * MAX_LEADING_ZEROS + 4 <= usize::MAX,
    ensures
        res matches Some(q) ==> after_picture_format(r@, p as int) == Some(q as int) && q <= r.len()
            * 8,
        res is None ==> after_picture_format(r@, p as int) is None,
{
    let nbits = r.len() * 8;
    // sps_seq_parameter_set_id, chroma_format_idc
    let p1 = match skip_ue_codes(r, p, 1) {
        None => return None,
        Some(q) => q,
    };
    let (chroma, p2) = match read_ue(r, p1) {
        None => return None,
        Some(x) => x,
    };
    let p3 = if chroma == 3 {
        p2 + 1
    } else {
        p2
    };
    if p3 > nbits {
        proof {
            lemma_nothing_past_the_end(r@, p3 as int);
        }
        return None;
    }
    // pic_width_in_luma_samples, pic_height_in_luma_samples
    let p4 = match skip_ue_codes(r, p3, 2) {
        None => return None,
        Some(q) => q,
    };
    if p4 >= nbits {
        return None;
    }
    // conformance window
    let p5 = if bit_at(r, p4) {
        match skip_ue_codes(r, p4 + 1, 4) {
            None => return None,
            Some(q) => q,
        }
    } else {
        p4 + 1
    };
    // bit depths and log2_max_pic_order_cnt_lsb_minus4
    let res = skip_ue_codes(r, p5, 3);
    assert(skip_ues(r@, p as int, 1) == Some(p1 as int));
    assert(ue_at(r@, p1 as int) == Some((chroma as int, p2 as int)));
    assert(skip_ues(r@, p3 as int, 2) == Some(p4 as int));
    res
}

/// The position after the block sizes read from `p`, as
/// `after_block_sizes` says.
fn skip_block_sizes(r: &Vec<u8>, p: usize) -> (res: Option<usize>)
    requires
        p <= r.len() * 8,
        r.len() * 8 + 2 * MAX_LEADING_ZEROS + 4 <= usize::MAX,
    ensures
        res matches Some(q) ==> after_block_sizes(r@, p as int) == Some(q as int) && q <= r.len()
            * 8,
        res is None ==> after_block_sizes(r@, p as int) is None,
{
    let (min_cb_minus3, p1) = match read_ue(r, p) {
        None => return None,
        Some(x) => x,
    };
    let (diff_cb, p2) = match read_ue(r, p1) {
        None => return None,
        Some(x) => x,
    };
    let (min_tb_minus2, p3) = match read_ue(r, p2) {
        None => return None,
        Some(x) => x,
    };
    // the values are below 2^61, so these sums stay in range
    proof {
        lemma_ue_value_bound(r@, p as int);
        lemma_ue_value_bound(r@, p1 as int);
        lemma_ue_value_bound(r@, p2 as int);
    }
    if (min_cb_minus3 as u128) + 3 + (diff_cb as u128) < (min_tb_minus2 as u128) + 2 {
        return None;
    }
    skip_ue_codes(r, p3, 3)
}

/// The bits of the sub-layer profiles and levels, as `sub_layer_ptl_bits`
/// says.
fn sub_layer_ptl_len(r: &Vec<u8>, m: usize) -> (res: usize)
    requires
        m <= 6,
        SPS_SUB_LAYER_PTL_BIT + 2 * m <= r.len() * 8,
    ensures
        res == sub_layer_ptl_bits(r@, m as nat, 0),
        res <= 104 * m,
{
    let mut total: usize = 0;
    let mut i: usize = 0;
    while i < m
        invariant
            i <= m <= 6,
            SPS_SUB_LAYER_PTL_BIT + 2 * m <= r.len() * 8,
            total + sub_layer_ptl_bits(r@, m as nat, i as nat) == sub_layer_ptl_bits(r@, m as nat, 0),
            total <= 104 * i,
        decreases m - i,
    {
        let profile_present = bit_at(r, SPS_SUB_LAYER_PTL_BIT + 2 * i);
        let level_present = bit_at(r, SPS_SUB_LAYER_PTL_BIT + 2 * i + 1);
        let level_bits: usize = if level_present {
            8
        } else {
            0
        };
        let profile_bits: usize = if profile_present {
            88 + level_bits
        } else {
            0
        };
        total = total + profile_bits + level_bits;
        i = i + 1;
    }
    total
}

/// The position after the scaling list data read from `p`, as
/// `after_scaling_lists` says.
#[verifier::rlimit(40)]
fn skip_scaling_lists(r: &Vec<u8>, p: usize) -> (res: Option<usize>)
    requires
        p <= r.len() * 8,
        r.len() * 8 + 2 * MAX_LEADING_ZEROS + 4 <= usize::MAX,
    ensures
        res matches Some(q) ==> after_scaling_lists(r@, p as int, 0) == Some(q as int) && q
            <= r.len() * 8,
        res is None ==> after_scaling_lists(r@, p as int, 0) is None,
{
    let nbits = r.len() * 8;
    let mut pos = p;
    let mut e: usize = 0;
    while e < SCALING_MATRICES
        invariant
            e <= SCALING_MATRICES,
            pos <= r.len() * 8,
            nbits == r.len() * 8,
            r.len() * 8 + 2 * MAX_LEADING_ZEROS + 4 <= usize::MAX,
            after_scaling_lists(r@, p as int, 0) == after_scaling_lists(r@, pos as int, e as nat),
        decreases SCALING_MATRICES - e,
    {
        if pos >= nbits {
            return None;
        }
        let size: usize = if e < 18 {
            e / 6
        } else {
            3
        };
        let matrix: usize = if e < 18 {
            e % 6
        } else {
            (e - 18) * 3
        };
        let step: u64 = if size == 3 {
            3
        } else {
            1
        };
        assert(size == scaling_size(e as int) && matrix == scaling_matrix(e as int) && step
            == scaling_step(e as int));
        if !bit_at(r, pos) {
            let (delta, q) = match read_ue(r, pos + 1) {
                None => return None,
                Some(x) => x,
            };
            // a delta above 5 always reaches before the first matrix
            if size > 0 && delta != 0 && (delta > 5 || delta * step > matrix as u64) {
                return None;
            }
            pos = q;
        } else {
            let q = if size > 1 {
                match skip_ue_codes(r, pos + 1, 1) {
                    None => return None,
                    Some(q) => q,
                }
            } else {
                pos + 1
            };
            let coefs: usize = if size == 0 {
                16
            } else {
                64
            };
            pos = match skip_ue_codes(r, q, coefs) {
                None => return None,
                Some(q2) => q2,
            };
        }
        e = e + 1;
    }
    Some(pos)
}

/// The position after the scaling list flags and data read from `p`, as
/// `after_scaling` says.
fn skip_scaling(r: &Vec<u8>, p: usize) -> (res: Option<usize>)
    requires
        p <= r.len() * 8,
        r.len() * 8 + 2 * MAX_LEADING_ZEROS + 4 <= usize::MAX,
    ensures
        res matches Some(q) ==> after_scaling(r@, p as int) == Some(q as int) && q <= r.len() * 8,
        res is None ==> after_scaling(r@, p as int) is None,
{
    let nbits = r.len() * 8;
    if p >= nbits {
        return None;
    }
    if !bit_at(r, p) {
        return Some(p + 1);
    }
    if p + 1 >= nbits {
        return None;
    }
    if !bit_at(r, p + 1) {
        return Some(p + 2);
    }
    skip_scaling_lists(r, p + 2)
}

/// Where the syntax elements after the scaling list data begin in the SPS
/// RBSP `r`, as `sps_rest_start` says.
#[verifier::rlimit(40)]
fn find_sps_rest_start(r: &Vec<u8>) -> (res: Option<usize>)
    requires
        r.len() * 8 + 2 * MAX_LEADING_ZEROS + 2000 <= usize::MAX,
    ensures
        res matches Some(q) ==> sps_rest_start(r@) == Some(q as int) && q <= r.len() * 8,
        res is None ==> sps_rest_start(r@) is None,
{
    let nbits = r.len() * 8;
    if nbits < 7 {
        proof {
            lemma_bits_value_bound(r@, 4, 3);
            vstd::arithmetic::power2::lemma2_to64();
        }
        return None;
    }
    let m64 = read_bits(r, 4, 3);
    proof {
        vstd::arithmetic::power2::lemma2_to64();
    }
    if m64 > 6 {
        return None;
    }
    let m = m64 as usize;
    if nbits < SPS_SUB_LAYER_PTL_BIT + 2 * m {
        return None;
    }
    let reserved: usize = if m > 0 {
        2 * (8 - m)
    } else {
        0
    };
    let end = SPS_SUB_LAYER_PTL_BIT + 2 * m + reserved + sub_layer_ptl_len(r, m);
    assert(end == ptl_end(r@, m as nat));
    if end > nbits {
        proof {
            lemma_nothing_past_the_end(r@, end as int);
            reveal_with_fuel(skip_ues, 2);
        }
        return None;
    }
    let p = match skip_picture_format(r, end) {
        None => return None,
        Some(q) => q,
    };
    // sub-layer ordering information
    if p >= nbits {
        return None;
    }
    let count: usize = if bit_at(r, p) {
        3 * (m + 1)
    } else {
        3
    };
    let q = match skip_ue_codes(r, p + 1, count) {
        None => return None,
        Some(q) => q,
    };
    assert(after_ordering_info(r@, p as int, m as nat) == Some(q as int));
    let t = match skip_block_sizes(r, q) {
        None => return None,
        Some(t) => t,
    };
    skip_scaling(r, t)
}

/// An Exp-Golomb value read here is below `2^61`.
proof fn lemma_ue_value_bound(r: Seq<u8>, p: int)
    ensures
        ue_at(r, p) matches Some((v, _)) ==> v < 0x2000_0000_0000_0000,
{
    let l = zeros_at(r, p, MAX_LEADING_ZEROS as nat);
    if ue_at(r, p) is Some {
        lemma_bits_value_bound(r, p + l, (l + 1) as nat);
        lemma2_to64_rest();
        if l + 1 < 61 {
            lemma_pow2_strictly_increases((l + 1) as nat, 61);
        }
    }
}

/// `n` bits read as a number are below `2^n`.
proof fn lemma_bits_value_bound(r: Seq<u8>, p: int, n: nat)
    ensures
        0 <= bits_value(r, p, n) < pow2(n),
    decreases n,
{
    if n == 0 {
        lemma2_to64_rest();
        vstd::arithmetic::power2::lemma2_to64();
    } else {
        lemma_bits_value_bound(r, p, (n - 1) as nat);
        lemma_pow2_unfold(n);
    }
}

/// Checks an SPS NAL unit payload before it is handed to the SPS parser:
/// the result is `sps_payload_is_safe` of the payload.
pub fn sps_payload_passes_check(payload: &[u8]) -> (res: bool)
    ensures
        res == sps_payload_is_safe(payload@),
{
    if payload.len() < 2 || payload.len() > SPS_CHECK_MAX_LEN {
        return false;
    }
    let r = sps_rbsp_bytes(payload);
    if !has_no_long_zero_run(&r, 0, RBSP_ZERO_RUN) {
        return false;
    }
    let q = match find_sps_rest_start(&r) {
        None => return false,
        Some(q) => q,
    };
    if !has_no_long_zero_run(&r, q, MAX_LEADING_ZEROS) {
        return false;
    }
    if (usize::MAX as u64) == u64::MAX {
        return true;
    }
    has_no_long_zero_run(&r, q, NARROW_TARGET_ZERO_RUN)
}

} // verus!
