//! Camera configuration: the sensor resolutions and their binning, the
//! checks on a capture configuration and on the recording stop
//! conditions, the argument sets of the camera tools, and the selection of
//! the host interface address that drives the cameras.

use vstd::prelude::*;
use std::path::PathBuf;
use std::time::Instant;
use crate::names::chars_of;

verus! {

/// `std::time::Instant`, carried through unchanged.
#[verifier::external_type_specification]
#[verifier::external_body]
pub struct ExInstant(std::time::Instant);

/// Resolutions of the LUCID Atlas ATP124S sensor, reached by binning the
/// full 4096 x 3000 frame.
#[derive(Debug, Clone, Copy, PartialEq, Eq, Hash, Structural)]
pub enum AtlasATP124SResolution {
    Quarter,
    Half,
    Full,
}

impl Default for AtlasATP124SResolution {
    fn default() -> (res: Self)
        ensures
            res == AtlasATP124SResolution::Full,
    {
        AtlasATP124SResolution::Full
    }
}

/// Width and height of a resolution.
pub open spec fn spec_atlas_dimensions(r: AtlasATP124SResolution) -> (u32, u32) {
    match r {
        AtlasATP124SResolution::Quarter => (1024, 750),
        AtlasATP124SResolution::Half => (2048, 1500),
        AtlasATP124SResolution::Full => (4096, 3000),
    }
}

/// Binning factor (in each direction) of a resolution.
pub open spec fn spec_atlas_binning(r: AtlasATP124SResolution) -> i32 {
    match r {
        AtlasATP124SResolution::Quarter => 4,
        AtlasATP124SResolution::Half => 2,
        AtlasATP124SResolution::Full => 1,
    }
}

impl AtlasATP124SResolution {
    /// Width and height in pixels (not rows and columns).
    pub fn dimensions(&self) -> (res: (u32, u32))
        ensures
            res == spec_atlas_dimensions(*self),
    {
        match self {
            AtlasATP124SResolution::Quarter => (1024, 750),
            AtlasATP124SResolution::Half => (2048, 1500),
            AtlasATP124SResolution::Full => (4096, 3000),
        }
    }

    /// Binning factor the camera applies in each direction.
    pub fn binning(&self) -> (res: i32)
        ensures
            res == spec_atlas_binning(*self),
    {
        match self {
            AtlasATP124SResolution::Quarter => 4,
            AtlasATP124SResolution::Half => 2,
            AtlasATP124SResolution::Full => 1,
        }
    }

    /// The name of the resolution on the command line.
    pub fn name(&self) -> (res: &'static str)
        ensures
            *self == AtlasATP124SResolution::Quarter ==> res@ == "quarter"@,
            *self == AtlasATP124SResolution::Half ==> res@ == "half"@,
            *self == AtlasATP124SResolution::Full ==> res@ == "full"@,
    {
        match self {
            AtlasATP124SResolution::Quarter => "quarter",
            AtlasATP124SResolution::Half => "half",
            AtlasATP124SResolution::Full => "full",
        }
    }
}

/// Binning divides the full sensor frame exactly: each resolution's width
/// and height times its binning factor give the full 4096 x 3000 frame.
pub proof fn law_binning_divides_full_frame(r: AtlasATP124SResolution)
    ensures
        spec_atlas_dimensions(r).0 * spec_atlas_binning(r) == 4096,
        spec_atlas_dimensions(r).1 * spec_atlas_binning(r) == 3000,
{
}

/// Recording resolutions named after video formats, mapped onto the
/// sensor's binned frame sizes.
#[derive(Debug, Clone, Copy, PartialEq, Eq, Structural)]
pub enum Resolution {
    HD,
    FullHD,
    UHD4K,
}

impl Resolution {
    /// Width and height in pixels.
    pub fn dimensions(&self) -> (res: (i32, i32))
        ensures
            *self == Resolution::HD ==> res == (1024i32, 750i32),
            *self == Resolution::FullHD ==> res == (2048i32, 1500i32),
            *self == Resolution::UHD4K ==> res == (4096i32, 3000i32),
    {
        match self {
            Resolution::HD => (1024, 750),
            Resolution::FullHD => (2048, 1500),
            Resolution::UHD4K => (4096, 3000),
        }
    }
}

/// Why a capture configuration is refused.
#[derive(Debug, Clone, Copy, PartialEq, Eq, Structural)]
pub enum IngestConfigError {
    EmptyCameraId,
    NonPositiveExposure,
    NonPositiveFrameRate,
    NoBuffers,
}

impl IngestConfigError {
    /// The message shown to the user.
    pub fn message(&self) -> (res: &'static str)
        ensures
            *self == IngestConfigError::EmptyCameraId ==> res@ == "camera_id cannot be empty"@,
            *self == IngestConfigError::NonPositiveExposure ==> res@
                == "exposure_time_us must be > 0"@,
            *self == IngestConfigError::NonPositiveFrameRate ==> res@
                == "frame_rate_hz must be > 0"@,
            *self == IngestConfigError::NoBuffers ==> res@ == "num_buffers must be > 0"@,
    {
        match self {
            IngestConfigError::EmptyCameraId => "camera_id cannot be empty",
            IngestConfigError::NonPositiveExposure => "exposure_time_us must be > 0",
            IngestConfigError::NonPositiveFrameRate => "frame_rate_hz must be > 0",
            IngestConfigError::NoBuffers => "num_buffers must be > 0",
        }
    }
}

/// The first check that a capture configuration fails, in the order: the
/// camera id, the exposure time, the frame rate, the number of buffers.
pub open spec fn spec_validate_ingest(
    camera_id: Seq<char>,
    exposure_positive: bool,
    frame_rate_positive: bool,
    num_buffers: usize,
) -> Result<(), IngestConfigError> {
    if camera_id.len() == 0 {
        Err(IngestConfigError::EmptyCameraId)
    } else if !exposure_positive {
        Err(IngestConfigError::NonPositiveExposure)
    } else if !frame_rate_positive {
        Err(IngestConfigError::NonPositiveFrameRate)
    } else if num_buffers == 0 {
        Err(IngestConfigError::NoBuffers)
    } else {
        Ok(())
    }
}

/// Checks a capture configuration. The caller states whether the exposure
/// time and the frame rate pass the check `!(x <= 0.0)`, which lets a NaN
/// through as the configuration check always did.
pub fn validate_ingest_config(
    camera_id: &str,
    exposure_positive: bool,
    frame_rate_positive: bool,
    num_buffers: usize,
) -> (res: Result<(), IngestConfigError>)
    ensures
        res == spec_validate_ingest(camera_id@, exposure_positive, frame_rate_positive, num_buffers),
{
    let chars = chars_of(camera_id);
    if chars.len() == 0 {
        Err(IngestConfigError::EmptyCameraId)
    } else if !exposure_positive {
        Err(IngestConfigError::NonPositiveExposure)
    } else if !frame_rate_positive {
        Err(IngestConfigError::NonPositiveFrameRate)
    } else if num_buffers == 0 {
        Err(IngestConfigError::NoBuffers)
    } else {
        Ok(())
    }
}

/// How a duration limit compares with zero.
#[derive(Debug, Clone, Copy, PartialEq, Eq, Structural)]
pub enum DurationSign {
    Zero,
    Negative,
    /// Greater than zero, or not a number.
    Other,
}

/// Why the stop conditions of a recording are refused.
#[derive(Debug, Clone, Copy, PartialEq, Eq, Structural)]
pub enum StopConditionError {
    /// Neither a frame limit nor a duration limit was given.
    NoStopCondition,
    /// The frame limit is zero.
    ZeroMaxFrames,
    /// The duration limit is zero or negative.
    NonPositiveMaxDuration,
    /// Recovery to PNG was asked for without compression.
    RecoveryWithoutCompression,
}

impl StopConditionError {
    /// The message shown to the user.
    pub fn message(&self) -> (res: &'static str)
        ensures
            *self == StopConditionError::NoStopCondition ==> res@
                == "You must provide at least one stopping condition: --max-frames or --max-duration"@,
            *self == StopConditionError::ZeroMaxFrames ==> res@ == "max_frames must be > 0"@,
            *self == StopConditionError::NonPositiveMaxDuration ==> res@
                == "max_duration_s must be > 0"@,
            *self == StopConditionError::RecoveryWithoutCompression ==> res@
                == "recover_to_png_dir can only be used when --compress is enabled"@,
    {
        match self {
            StopConditionError::NoStopCondition => "You must provide at least one stopping condition: --max-frames or --max-duration",
            StopConditionError::ZeroMaxFrames => "max_frames must be > 0",
            StopConditionError::NonPositiveMaxDuration => "max_duration_s must be > 0",
            StopConditionError::RecoveryWithoutCompression => "recover_to_png_dir can only be used when --compress is enabled",
        }
    }
}

/// The first check that a recording's stop conditions fail: at least one
/// limit must be given, a frame limit must be positive, and a duration
/// limit must not be zero or negative.
pub open spec fn spec_validate_stop_conditions(
    max_frames: Option<usize>,
    max_duration: Option<DurationSign>,
) -> Result<(), StopConditionError> {
    if max_frames is None && max_duration is None {
        Err(StopConditionError::NoStopCondition)
    } else if max_frames == Some(0usize) {
        Err(StopConditionError::ZeroMaxFrames)
    } else if max_duration == Some(DurationSign::Zero) || max_duration == Some(
        DurationSign::Negative,
    ) {
        Err(StopConditionError::NonPositiveMaxDuration)
    } else {
        Ok(())
    }
}

/// Checks the stop conditions of a recording; the caller compares the
/// duration limit with zero.
pub fn validate_stop_conditions(max_frames: Option<usize>, max_duration: Option<DurationSign>) -> (res:
    Result<(), StopConditionError>)
    ensures
        res == spec_validate_stop_conditions(max_frames, max_duration),
{
    if max_frames.is_none() && max_duration.is_none() {
        Err(StopConditionError::NoStopCondition)
    } else if max_frames == Some(0usize) {
        Err(StopConditionError::ZeroMaxFrames)
    } else if max_duration == Some(DurationSign::Zero) || max_duration == Some(
        DurationSign::Negative,
    ) {
        Err(StopConditionError::NonPositiveMaxDuration)
    } else {
        Ok(())
    }
}

/// Checks the options of a compressing recording: at least one limit must
/// be given, and recovery to PNG needs compression.
pub fn validate_recording_options(
    has_max_frames: bool,
    has_max_duration: bool,
    recover_to_png: bool,
    compress: bool,
) -> (res: Result<(), StopConditionError>)
    ensures
        res == (if !has_max_frames && !has_max_duration {
            Err(StopConditionError::NoStopCondition)
        } else if recover_to_png && !compress {
            Err(StopConditionError::RecoveryWithoutCompression)
        } else {
            Ok(())
        }),
{
    if !has_max_frames && !has_max_duration {
        Err(StopConditionError::NoStopCondition)
    } else if recover_to_png && !compress {
        Err(StopConditionError::RecoveryWithoutCompression)
    } else {
        Ok(())
    }
}

/// Arguments of the real-camera vision pipelines: which camera watches
/// each half of the field.
#[derive(Debug, Clone)]
pub struct CvBackendCameraArgs {
    pub left_camera_id: String,
    pub right_camera_id: String,
}

/// Arguments of the backend when it replays recorded footage.
#[derive(Debug)]
pub struct RealBackendArgs {
    pub feed_footage_dir: PathBuf,
}

/// A camera found on the network, as the discovery reports it.
#[derive(Debug, Clone)]
pub struct DiscoveredCamera {
    pub id: String,
    pub address: String,
    pub physical_id: String,
    pub vendor: String,
    pub model: String,
    pub protocol: String,
}

/// A frame on its way from the live-stream capture thread to the viewer.
pub struct FrameData {
    /// Raw Mono8 pixel bytes.
    pub pixels: Vec<u8>,
    pub width: u32,
    pub height: u32,
    /// When the frame was received.
    pub received_at: Instant,
}

/// The RGBA image that shows a Mono8 image: each gray value repeated for
/// red, green and blue, fully opaque.
pub open spec fn spec_mono8_to_rgba(pixels: Seq<u8>) -> Seq<u8> {
    Seq::new(
        4 * pixels.len(),
        |i: int|
            if i % 4 == 3 {
                255u8
            } else {
                pixels[i / 4]
            },
    )
}

/// Converts Mono8 pixels to RGBA for display.
pub fn mono8_to_rgba(pixels: &[u8]) -> (res: Vec<u8>)
    requires
        4 * pixels@.len() <= usize::MAX,
    ensures
        res@ == spec_mono8_to_rgba(pixels@),
{
    let mut out: Vec<u8> = Vec::new();
    let mut k: usize = 0;
    while k < pixels.len()
        invariant
            k <= pixels.len(),
            out@ == spec_mono8_to_rgba(pixels@.take(k as int)),
        decreases pixels.len() - k,
    {
        let v = pixels[k];
        out.push(v);
        out.push(v);
        out.push(v);
        out.push(255);
        k = k + 1;
        assert(out@ =~= spec_mono8_to_rgba(pixels@.take(k as int)));
    }
    assert(pixels@.take(pixels.len() as int) =~= pixels@);
    out
}

/// Why a network interface name could not be turned into an address.
#[derive(Debug, Clone, Copy, PartialEq, Eq, Structural)]
pub enum ResolveError {
    InterfaceNotFound,
    NoIpOnInterface,
    TooManyIpOnInterface,
}

impl ResolveError {
    /// The message shown to the user.
    pub fn message(&self) -> (res: &'static str)
        ensures
            *self == ResolveError::InterfaceNotFound ==> res@ == "interface not found"@,
            *self == ResolveError::NoIpOnInterface ==> res@ == "interface has no IP address"@,
            *self == ResolveError::TooManyIpOnInterface ==> res@
                == "interface had multiple IP address options"@,
    {
        match self {
            ResolveError::InterfaceNotFound => "interface not found",
            ResolveError::NoIpOnInterface => "interface has no IP address",
            ResolveError::TooManyIpOnInterface => "interface had multiple IP address options",
        }
    }
}

/// One address of a host network interface: the interface's name and, for
/// an IPv4 address, its four octets.
#[derive(Debug, Clone)]
pub struct InterfaceAddress {
    pub name: String,
    pub ipv4: Option<[u8; 4]>,
}

/// The IPv4 addresses of the interface called `name`, in listing order.
pub open spec fn ipv4_candidates(addrs: Seq<(Seq<char>, Option<[u8; 4]>)>, name: Seq<char>) -> Seq<
    [u8; 4],
>
    decreases addrs.len(),
{
    if addrs.len() == 0 {
        Seq::empty()
    } else {
        let rest = ipv4_candidates(addrs.drop_last(), name);
        let last = addrs.last();
        if last.0 == name && last.1 is Some {
            rest.push(last.1->0)
        } else {
            rest
        }
    }
}

/// The listing as names and addresses.
pub open spec fn address_view(addrs: Seq<InterfaceAddress>) -> Seq<(Seq<char>, Option<[u8; 4]>)> {
    addrs.map_values(|a: InterfaceAddress| (a.name@, a.ipv4))
}

fn same_chars(a: &Vec<char>, b: &Vec<char>) -> (res: bool)
    ensures
        res == (a@ == b@),
{
    if a.len() != b.len() {
        return false;
    }
    let mut k: usize = 0;
    while k < a.len()
        invariant
            a.len() == b.len(),
            k <= a.len(),
            forall|j: int| 0 <= j < k ==> a@[j] == b@[j],
        decreases a.len() - k,
    {
        if a[k] != b[k] {
            return false;
        }
        k = k + 1;
    }
    assert(a@ =~= b@);
    true
}

/// Picks the IPv4 address of the interface called `iface_name` from the
/// host's interface listing: it must have exactly one.
pub fn select_interface_ipv4(iface_name: &str, addrs: &Vec<InterfaceAddress>) -> (res: Result<
    [u8; 4],
    ResolveError,
>)
    ensures
        ipv4_candidates(address_view(addrs@), iface_name@).len() == 0 ==> res == Err::<
            [u8; 4],
            ResolveError,
        >(ResolveError::NoIpOnInterface),
        ipv4_candidates(address_view(addrs@), iface_name@).len() > 1 ==> res == Err::<
            [u8; 4],
            ResolveError,
        >(ResolveError::TooManyIpOnInterface),
        ipv4_candidates(address_view(addrs@), iface_name@).len() == 1 ==> res == Ok::<
            [u8; 4],
            ResolveError,
        >(ipv4_candidates(address_view(addrs@), iface_name@)[0]),
{
    let ghost all = address_view(addrs@);
    let wanted = chars_of(iface_name);
    let mut candidates: Vec<[u8; 4]> = Vec::new();
    let mut i: usize = 0;
    while i < addrs.len()
        invariant
            all == address_view(addrs@),
            wanted@ == iface_name@,
            i <= addrs.len(),
            candidates@ == ipv4_candidates(all.take(i as int), iface_name@),
        decreases addrs.len() - i,
    {
        assert(all.take(i + 1).drop_last() =~= all.take(i as int));
        assert(all.take(i + 1).last() == (addrs@[i as int].name@, addrs@[i as int].ipv4));
        let name = chars_of(addrs[i].name.as_str());
        if same_chars(&name, &wanted) {
            match addrs[i].ipv4 {
                Some(octets) => candidates.push(octets),
                None => {},
            }
        }
        i = i + 1;
    }
    assert(all.take(addrs.len() as int) =~= all);
    if candidates.len() == 0 {
        Err(ResolveError::NoIpOnInterface)
    } else if candidates.len() > 1 {
        Err(ResolveError::TooManyIpOnInterface)
    } else {
        Ok(candidates[0])
    }
}

} // verus!
