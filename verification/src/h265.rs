//! Scanning of Annex-B H.265 byte streams: start codes and the SPS NAL unit.

use vstd::prelude::*;
use crate::sps_check::{sps_payload_is_safe, sps_payload_passes_check};

verus! {

/// First byte of the header of an SPS NAL unit (`nal_unit_type` 33).
pub const SPS_HEADER_BYTE0: u8 = 0x42;

/// Length of the Annex-B start code beginning at `i`: 4 for `00 00 00 01`,
/// 3 for `00 00 01`, 0 when no start code begins there.
pub open spec fn start_code_len_at(s: Seq<u8>, i: int) -> int {
    if 0 <= i && i + 4 <= s.len() && s[i] == 0 && s[i + 1] == 0 && s[i + 2] == 0 && s[i + 3]
        == 1 {
        4
    } else if 0 <= i && i + 3 <= s.len() && s[i] == 0 && s[i + 1] == 0 && s[i + 2] == 1 {
        3
    } else {
        0
    }
}

/// Whether an Annex-B start code begins at `i`.
pub open spec fn is_start_code_at(s: Seq<u8>, i: int) -> bool {
    start_code_len_at(s, i) != 0
}

/// The first start code at or after `from`, as (position, length).
pub open spec fn next_start_code(s: Seq<u8>, from: int) -> Option<(int, int)>
    decreases s.len() - from,
{
    if from < 0 || from + 3 > s.len() {
        None
    } else if is_start_code_at(s, from) {
        Some((from, start_code_len_at(s, from)))
    } else {
        next_start_code(s, from + 1)
    }
}

/// `next_start_code` finds the earliest start code at or after `from`, and
/// `None` means that there is none.
pub proof fn lemma_next_start_code(s: Seq<u8>, from: int)
    requires
        0 <= from,
    ensures
        match next_start_code(s, from) {
            Some((i, n)) => {
                &&& from <= i
                &&& i + 3 <= s.len()
                &&& i + n <= s.len()
                &&& n == 3 || n == 4
                &&& is_start_code_at(s, i)
                &&& n == start_code_len_at(s, i)
                &&& forall|j: int| from <= j < i ==> !is_start_code_at(s, j)
            },
            None => forall|j: int| from <= j ==> !is_start_code_at(s, j),
        },
    decreases s.len() - from,
{
    if from + 3 > s.len() {
    } else if is_start_code_at(s, from) {
    } else {
        lemma_next_start_code(s, from + 1);
    }
}

/// End of the NAL unit whose payload begins at `nal`: the position of the
/// next start code, or the end of the buffer.
pub open spec fn nal_unit_end(s: Seq<u8>, nal: int) -> int {
    match next_start_code(s, nal) {
        Some((j, _)) => j,
        None => s.len() as int,
    }
}

/// The bounds of the payload of the first SPS NAL unit met when walking the
/// NAL units of `s` from the start code search position `from`.
pub open spec fn sps_payload_from(s: Seq<u8>, from: int) -> Option<(int, int)>
    decreases s.len() - from,
{
    if from < 0 {
        None
    } else {
        match next_start_code(s, from) {
            None => None,
            Some((i, n)) => {
                let nal = i + n;
                if nal >= s.len() {
                    None
                } else {
                    let next = nal_unit_end(s, nal);
                    if s[nal] == SPS_HEADER_BYTE0 {
                        Some((nal, next))
                    } else {
                        proof {
                            lemma_next_start_code(s, from);
                            lemma_next_start_code(s, nal);
                        }
                        sps_payload_from(s, next)
                    }
                }
            },
        }
    }
}

/// Finds the next Annex-B start code at or after `from` and returns its
/// position and length.
pub fn find_annex_b_start_code(buf: &[u8], from: usize) -> (res: Option<(usize, usize)>)
    ensures
        res matches Some((i, n)) ==> next_start_code(buf@, from as int) == Some(
            (i as int, n as int),
        ),
        res is None ==> next_start_code(buf@, from as int) is None,
{
    let len = buf.len();
    if len < 3 || from >= len - 2 {
        return None;
    }
    let mut index = from;
    while index <= len - 3
        invariant
            len == buf@.len(),
            3 <= len,
            from <= index <= len - 2,
            next_start_code(buf@, from as int) == next_start_code(buf@, index as int),
        decreases len - index,
    {
        if index + 3 < len && buf[index] == 0 && buf[index + 1] == 0 && buf[index + 2] == 0
            && buf[index + 3] == 1 {
            return Some((index, 4));
        }
        if buf[index] == 0 && buf[index + 1] == 0 && buf[index + 2] == 1 {
            return Some((index, 3));
        }
        index = index + 1;
    }
    None
}

/// Finds the payload of the first SPS NAL unit in a chunk of Annex-B H.265
/// bytes: the bytes from the NAL header up to the next start code.
pub fn find_sps_nalu_payload(buf: &[u8]) -> (res: Option<&[u8]>)
    ensures
        match sps_payload_from(buf@, 0) {
            Some((a, b)) => res matches Some(p) && p@ == buf@.subrange(a, b),
            None => res is None,
        },
{
    let mut search_from: usize = 0;
    loop
        invariant
            search_from <= buf@.len(),
            sps_payload_from(buf@, 0) == sps_payload_from(buf@, search_from as int),
        decreases buf@.len() - search_from,
    {
        proof {
            lemma_next_start_code(buf@, search_from as int);
        }
        match find_annex_b_start_code(buf, search_from) {
            None => {
                return None;
            },
            Some((start_index, start_code_len)) => {
                assert(next_start_code(buf@, search_from as int) == Some(
                    (start_index as int, start_code_len as int),
                ));
                let len = buf.len();
                assert(start_index + start_code_len <= len);
                let nal_start = start_index + start_code_len;
                if nal_start >= buf.len() {
                    return None;
                }
                proof {
                    lemma_next_start_code(buf@, nal_start as int);
                }
                let next_start = match find_annex_b_start_code(buf, nal_start) {
                    Some((index, _)) => index,
                    None => buf.len(),
                };
                if buf[nal_start] == SPS_HEADER_BYTE0 {
                    return Some(&buf[nal_start..next_start]);
                }
                search_from = next_start;
            },
        }
    }
}


/// The fields of a parsed SPS NAL unit that frame recovery reads.
#[derive(Debug, Clone, Copy, PartialEq, Eq, Structural)]
pub struct SpsFields {
    pub pic_width_in_luma_samples: u64,
    pub pic_height_in_luma_samples: u64,
    pub chroma_format_idc: u8,
    pub conf_win_left_offset: u64,
    pub conf_win_right_offset: u64,
    pub conf_win_top_offset: u64,
    pub conf_win_bottom_offset: u64,
    pub bit_depth_luma_minus8: u8,
}

/// What `scuffle_h265::SpsNALUnit::parse` reads from an SPS NAL unit
/// payload, `None` where it fails.
pub uninterp spec fn sps_nal_unit_fields(payload: Seq<u8>) -> Option<SpsFields>;

/// Calls `scuffle_h265::SpsNALUnit::parse` on the payload and copies out the
/// picture size, chroma format, conformance window and luma bit depth. The
/// result is the name `sps_nal_unit_fields` of the bytes; the parser rejects
/// a zero picture width or height and a `bit_depth_luma_minus8` above 8.
///
/// The parser computes with the values it reads without guarding every
/// step: an Exp-Golomb code with 64 or more leading zeros, a smallest
/// transform block larger than the largest coding block, explicit scaling
/// list data that refers to a matrix before the first of its size, sums of
/// values near `u64::MAX`, allocations sized by values near `usize::MAX`,
/// and 256 `00` bytes in a row make it panic. The `requires`
/// (`sps_payload_is_safe`) rules all of these out. It does not rule out an
/// SPS whose screen content coding extension announces a palette predictor
/// of up to `2^60` entries (`2^28` where `usize` is narrower than 64 bits):
/// the parser allocates room for them before it reads them, which fails for
/// want of memory.
#[verifier::external_body]
fn parse_sps_nal_unit(payload: &[u8]) -> (res: Option<SpsFields>)
    requires
        sps_payload_is_safe(payload@),
    ensures
        res == sps_nal_unit_fields(payload@),
        res matches Some(f) ==> f.pic_width_in_luma_samples > 0 && f.pic_height_in_luma_samples > 0
            && f.bit_depth_luma_minus8 <= 8,
{
    let sps = scuffle_h265::SpsNALUnit::parse(std::io::Cursor::new(payload)).ok()?;
    let (r, w) = (&sps.rbsp, &sps.rbsp.conformance_window);
    Some(SpsFields {
        pic_width_in_luma_samples: r.pic_width_in_luma_samples.get(),
        pic_height_in_luma_samples: r.pic_height_in_luma_samples.get(),
        chroma_format_idc: r.chroma_format_idc,
        conf_win_left_offset: w.conf_win_left_offset,
        conf_win_right_offset: w.conf_win_right_offset,
        conf_win_top_offset: w.conf_win_top_offset,
        conf_win_bottom_offset: w.conf_win_bottom_offset,
        bit_depth_luma_minus8: r.bit_depth_luma_minus8,
    })
}

/// `SubWidthC` of ISO/IEC 23008-2 Table 6-1.
pub open spec fn sub_width_c(chroma_format_idc: u8) -> int {
    if chroma_format_idc == 1 || chroma_format_idc == 2 {
        2
    } else {
        1
    }
}

/// `SubHeightC` of ISO/IEC 23008-2 Table 6-1.
pub open spec fn sub_height_c(chroma_format_idc: u8) -> int {
    if chroma_format_idc == 1 {
        2
    } else {
        1
    }
}

/// `croppedWidth` (ISO/IEC 23008-2 D-28).
pub open spec fn cropped_width(f: SpsFields) -> int {
    f.pic_width_in_luma_samples - sub_width_c(f.chroma_format_idc) * (f.conf_win_left_offset
        + f.conf_win_right_offset)
}

/// `croppedHeight` (ISO/IEC 23008-2 D-29).
pub open spec fn cropped_height(f: SpsFields) -> int {
    f.pic_height_in_luma_samples - sub_height_c(f.chroma_format_idc) * (f.conf_win_top_offset
        + f.conf_win_bottom_offset)
}

/// Why the SPS of a stream rules out PNG recovery.
#[derive(Debug, Clone, Copy, PartialEq, Eq, Structural)]
pub enum SpsDimensionError {
    /// The conformance window is wider or taller than the picture.
    CropExceedsPicture,
    /// The cropped width does not fit into `u32`.
    WidthTooLarge,
    /// The cropped height does not fit into `u32`.
    HeightTooLarge,
    /// Only 8-bit MONO_8 streams can be recovered; this is the luma bit depth found.
    UnsupportedBitDepth(u8),
}

/// The frame size that recovery takes from an SPS, or why it refuses it.
pub open spec fn spec_sps_frame_dimensions(f: SpsFields) -> Result<(u32, u32), SpsDimensionError> {
    if cropped_width(f) < 0 || cropped_height(f) < 0 {
        Err(SpsDimensionError::CropExceedsPicture)
    } else if cropped_width(f) > u32::MAX {
        Err(SpsDimensionError::WidthTooLarge)
    } else if cropped_height(f) > u32::MAX {
        Err(SpsDimensionError::HeightTooLarge)
    } else if f.bit_depth_luma_minus8 != 0 {
        Err(SpsDimensionError::UnsupportedBitDepth((8 + f.bit_depth_luma_minus8) as u8))
    } else {
        Ok((cropped_width(f) as u32, cropped_height(f) as u32))
    }
}

/// Checks an SPS for PNG recovery: the cropped frame size must fit into
/// `u32` and the luma samples must be 8 bits deep.
pub fn sps_frame_dimensions(f: SpsFields) -> (res: Result<(u32, u32), SpsDimensionError>)
    requires
        f.bit_depth_luma_minus8 <= 8,
    ensures
        res == spec_sps_frame_dimensions(f),
{
    let sub_w: u128 = if f.chroma_format_idc == 1 || f.chroma_format_idc == 2 {
        2
    } else {
        1
    };
    let sub_h: u128 = if f.chroma_format_idc == 1 {
        2
    } else {
        1
    };
    let crop_w: u128 = sub_w * (f.conf_win_left_offset as u128 + f.conf_win_right_offset as u128);
    let crop_h: u128 = sub_h * (f.conf_win_top_offset as u128 + f.conf_win_bottom_offset as u128);
    let pic_w = f.pic_width_in_luma_samples as u128;
    let pic_h = f.pic_height_in_luma_samples as u128;
    if crop_w > pic_w || crop_h > pic_h {
        return Err(SpsDimensionError::CropExceedsPicture);
    }
    let width = pic_w - crop_w;
    let height = pic_h - crop_h;
    if width > u32::MAX as u128 {
        return Err(SpsDimensionError::WidthTooLarge);
    }
    if height > u32::MAX as u128 {
        return Err(SpsDimensionError::HeightTooLarge);
    }
    if f.bit_depth_luma_minus8 != 0 {
        return Err(SpsDimensionError::UnsupportedBitDepth(8 + f.bit_depth_luma_minus8));
    }
    Ok((width as u32, height as u32))
}

/// What recovery learns from the first bytes of a stream: the frame size,
/// `None` when no SPS can be found there, when it fails the check that comes
/// before parsing, or when it cannot be parsed (recovery then goes on without
/// it), or why the SPS rules recovery out.
pub open spec fn spec_sps_dimensions_from_header(header: Seq<u8>) -> Result<
    Option<(u32, u32)>,
    SpsDimensionError,
> {
    match sps_payload_from(header, 0) {
        None => Ok(None),
        Some((a, b)) => if !sps_payload_is_safe(header.subrange(a, b)) {
            Ok(None)
        } else {
            match sps_nal_unit_fields(header.subrange(a, b)) {
                None => Ok(None),
                Some(f) => match spec_sps_frame_dimensions(f) {
                    Ok(d) => Ok(Some(d)),
                    Err(e) => Err(e),
                },
            }
        },
    }
}

/// Inspects the SPS in the first bytes of an H.265 stream before decoding.
pub fn sps_dimensions_from_header(header: &[u8]) -> (res: Result<
    Option<(u32, u32)>,
    SpsDimensionError,
>)
    ensures
        res == spec_sps_dimensions_from_header(header@),
{
    match find_sps_nalu_payload(header) {
        None => Ok(None),
        Some(payload) => {
            if !sps_payload_passes_check(payload) {
                return Ok(None);
            }
            match parse_sps_nal_unit(payload) {
                None => Ok(None),
                Some(f) => match sps_frame_dimensions(f) {
                    Ok(d) => Ok(Some(d)),
                    Err(e) => Err(e),
                },
            }
        },
    }
}

} // verus!
