//! The circle-infraction sensor: decoding its one-byte messages and
//! deciding what each serial read reports to the officiating pipeline.

use vstd::prelude::*;
use crate::names::{chars_of, has_prefix, starts_with_chars};

verus! {

/// What the sensor reports about the throwing circle.
#[derive(Debug, Clone, Copy, PartialEq, Eq, Structural)]
pub enum InfractionState {
    Clear,
    Infraction,
}

/// The byte that the sensor sends while the circle is clear.
pub const CLEAR_BYTE: u8 = 0x01;

/// The byte that the sensor sends when a foot leaves the circle.
pub const INFRACTION_BYTE: u8 = 0xFE;

/// Meaning of one sensor byte, `None` for bytes outside the protocol.
pub open spec fn spec_decode(b: u8) -> Option<InfractionState> {
    if b == CLEAR_BYTE {
        Some(InfractionState::Clear)
    } else if b == INFRACTION_BYTE {
        Some(InfractionState::Infraction)
    } else {
        None
    }
}

/// Decodes one byte read from the sensor.
pub fn decode(b: u8) -> (res: Option<InfractionState>)
    ensures
        res == spec_decode(b),
{
    match b {
        0x01 => Some(InfractionState::Clear),
        0xFE => Some(InfractionState::Infraction),
        _ => None,
    }
}

/// Times at which an infraction byte arrived: host wall-clock time, and the
/// camera PTP time it corresponds to when the PTP offset is known.
#[derive(Debug, Clone, Copy, PartialEq, Eq, Structural)]
pub struct CircleInfractionTimestamps {
    pub local_arrival_ns: u64,
    pub approx_ptp_ns: Option<u64>,
    pub raw_byte: u8,
}

/// What the sensor thread reports on its channel.
#[derive(Debug, Clone, Copy, PartialEq, Eq, Structural)]
pub enum CircleInfractionDetectionState {
    /// The thread is alive; sent before every read.
    KeepAlive,
    /// An infraction byte arrived.
    DetectedInfraction(CircleInfractionTimestamps),
    /// The read timed out or failed: the sensor may be gone.
    Stale,
}

/// Result of one read of a single byte from the serial port.
#[derive(Debug, Clone, Copy, PartialEq, Eq, Structural)]
pub enum SerialRead {
    /// One byte was read.
    Byte(u8),
    /// The read returned without a byte.
    Nothing,
    /// The read timed out or failed.
    Failed,
}

/// What a serial read means for the pipeline.
#[derive(Debug, Clone, Copy, PartialEq, Eq, Structural)]
pub enum SensorReaction {
    /// Nothing to report: a clear byte, an unknown byte or no byte.
    Ignore,
    /// An infraction: report it, stamped with the time it arrived.
    ReportInfraction(u8),
    /// Report the sensor as stale.
    ReportStale,
}

/// The reaction to a serial read.
pub open spec fn spec_react(read: SerialRead) -> SensorReaction {
    match read {
        SerialRead::Byte(b) => if spec_decode(b) == Some(InfractionState::Infraction) {
            SensorReaction::ReportInfraction(b)
        } else {
            SensorReaction::Ignore
        },
        SerialRead::Nothing => SensorReaction::Ignore,
        SerialRead::Failed => SensorReaction::ReportStale,
    }
}

/// Decides what a serial read reports: an infraction byte is reported,
/// clear and unknown bytes and empty reads are ignored, a failed read marks
/// the sensor stale.
pub fn react_to_read(read: SerialRead) -> (res: SensorReaction)
    ensures
        res == spec_react(read),
{
    match read {
        SerialRead::Byte(b) => match decode(b) {
            Some(InfractionState::Infraction) => SensorReaction::ReportInfraction(b),
            _ => SensorReaction::Ignore,
        },
        SerialRead::Nothing => SensorReaction::Ignore,
        SerialRead::Failed => SensorReaction::ReportStale,
    }
}

/// Only the infraction byte is ever reported as an infraction, and it is
/// reported with the byte that was read.
pub proof fn law_only_infraction_byte_is_reported(read: SerialRead)
    ensures
        spec_react(read) is ReportInfraction <==> read == SerialRead::Byte(INFRACTION_BYTE),
        spec_react(read) is ReportInfraction ==> spec_react(read)->0 == INFRACTION_BYTE,
{
}

/// Why no single serial port could be chosen for the sensor.
#[derive(Debug, Clone, PartialEq, Eq)]
pub enum PortSelectionError {
    /// No port name has one of the sensor's prefixes.
    NoPort,
    /// Several port names have one; they are listed.
    MultiplePorts(Vec<String>),
}

/// Whether a port name starts with one of the prefixes.
pub open spec fn matches_any_prefix(name: Seq<char>, prefixes: Seq<Seq<char>>) -> bool {
    exists|k: int| 0 <= k < prefixes.len() && has_prefix(name, #[trigger] prefixes[k])
}

/// Positions of the port names that start with one of the prefixes.
pub open spec fn sensor_port_positions(names: Seq<Seq<char>>, prefixes: Seq<Seq<char>>) -> Seq<int>
    decreases names.len(),
{
    if names.len() == 0 {
        Seq::empty()
    } else {
        let rest = sensor_port_positions(names.drop_last(), prefixes);
        if matches_any_prefix(names.last(), prefixes) {
            rest.push(names.len() - 1)
        } else {
            rest
        }
    }
}

fn matches_prefix_list(name: &Vec<char>, prefixes: &Vec<Vec<char>>) -> (res: bool)
    ensures
        res == matches_any_prefix(name@, prefixes@.map_values(|p: Vec<char>| p@)),
{
    let ghost ps = prefixes@.map_values(|p: Vec<char>| p@);
    let mut k: usize = 0;
    while k < prefixes.len()
        invariant
            k <= prefixes.len(),
            ps == prefixes@.map_values(|p: Vec<char>| p@),
            forall|j: int| 0 <= j < k ==> !has_prefix(name@, #[trigger] ps[j]),
        decreases prefixes.len() - k,
    {
        if starts_with_chars(name, &prefixes[k]) {
            assert(ps[k as int] == prefixes@[k as int]@);
            return true;
        }
        k = k + 1;
    }
    false
}

/// Chooses the sensor's serial port: the one port whose name starts with
/// one of the prefixes that the sensor's USB adapter gets on this system.
/// Gives its position in `names`.
pub fn select_sensor_port(names: &Vec<String>, prefixes: &Vec<String>) -> (res: Result<
    usize,
    PortSelectionError,
>)
    ensures
        ({
            let found = sensor_port_positions(
                names@.map_values(|n: String| n@),
                prefixes@.map_values(|p: String| p@),
            );
            &&& found.len() == 0 ==> res == Err::<usize, PortSelectionError>(PortSelectionError::NoPort)
            &&& found.len() == 1 ==> res == Ok::<usize, PortSelectionError>(found[0] as usize)
            &&& found.len() > 1 ==> (res matches Err(PortSelectionError::MultiplePorts(list))
                && list@.map_values(|n: String| n@) == found.map_values(
                |i: int| names@[i]@,
            ))
        }),
{
    let ghost ns = names@.map_values(|n: String| n@);
    let ghost ps = prefixes@.map_values(|p: String| p@);
    let mut prefix_chars: Vec<Vec<char>> = Vec::new();
    let mut j: usize = 0;
    while j < prefixes.len()
        invariant
            j <= prefixes.len(),
            prefix_chars.len() == j,
            forall|q: int| 0 <= q < j ==> #[trigger] prefix_chars@[q]@ == prefixes@[q]@,
        decreases prefixes.len() - j,
    {
        prefix_chars.push(chars_of(prefixes[j].as_str()));
        j = j + 1;
    }
    assert(prefix_chars@.map_values(|p: Vec<char>| p@) =~= ps);
    let mut found: Vec<usize> = Vec::new();
    let mut matching: Vec<String> = Vec::new();
    let mut i: usize = 0;
    while i < names.len()
        invariant
            i <= names.len(),
            ns == names@.map_values(|n: String| n@),
            ps == prefixes@.map_values(|p: String| p@),
            prefix_chars@.map_values(|p: Vec<char>| p@) == ps,
            found@.map_values(|x: usize| x as int) == sensor_port_positions(ns.take(i as int), ps),
            matching@.map_values(|n: String| n@) == sensor_port_positions(ns.take(i as int), ps).map_values(
                |q: int| names@[q]@,
            ),
            forall|q: int| 0 <= q < found.len() ==> #[trigger] found@[q] < i,
        decreases names.len() - i,
    {
        assert(ns.take(i + 1).drop_last() =~= ns.take(i as int));
        assert(ns.take(i + 1).last() == names@[i as int]@);
        let name = chars_of(names[i].as_str());
        if matches_prefix_list(&name, &prefix_chars) {
            let ghost before = sensor_port_positions(ns.take(i as int), ps);
            assert(sensor_port_positions(ns.take(i + 1), ps) == before.push(i as int));
            found.push(i);
            let copy = names[i].clone();
            assert(copy@ == names@[i as int]@);
            let ghost old_matching = matching@;
            matching.push(copy);
            assert(matching@.map_values(|n: String| n@) =~= old_matching.map_values(|n: String| n@).push(
                names@[i as int]@,
            ));
            assert(before.push(i as int).map_values(|q: int| names@[q]@) =~= before.map_values(
                |q: int| names@[q]@,
            ).push(names@[i as int]@));
            assert(found@.map_values(|x: usize| x as int) =~= sensor_port_positions(
                ns.take(i + 1),
                ps,
            ));
            assert(matching@.map_values(|n: String| n@) =~= sensor_port_positions(
                ns.take(i + 1),
                ps,
            ).map_values(|q: int| names@[q]@));
        } else {
            assert(found@.map_values(|x: usize| x as int) =~= sensor_port_positions(
                ns.take(i + 1),
                ps,
            ));
            assert(matching@.map_values(|n: String| n@) =~= sensor_port_positions(
                ns.take(i + 1),
                ps,
            ).map_values(|q: int| names@[q]@));
        }
        i = i + 1;
    }
    assert(ns.take(names.len() as int) =~= ns);
    if found.len() == 0 {
        Err(PortSelectionError::NoPort)
    } else if found.len() == 1 {
        assert(found@.map_values(|x: usize| x as int)[0] == found@[0] as int);
        Ok(found[0])
    } else {
        Err(PortSelectionError::MultiplePorts(matching))
    }
}

/// A port name that starts with any one of the prefixes, the last one
/// included, is a sensor port: it matches the prefix list, and its position
/// is among the sensor port positions of every listing that holds it.
pub proof fn law_any_prefix_marks_a_sensor_port(
    names: Seq<Seq<char>>,
    prefixes: Seq<Seq<char>>,
    j: int,
    k: int,
)
    requires
        0 <= j < names.len(),
        0 <= k < prefixes.len(),
        has_prefix(names[j], prefixes[k]),
    ensures
        matches_any_prefix(names[j], prefixes),
        sensor_port_positions(names, prefixes).contains(j),
    decreases names.len(),
{
    assert(has_prefix(names[j], prefixes[k]));
    if j < names.len() - 1 {
        let init = names.drop_last();
        assert(init[j] == names[j]);
        law_any_prefix_marks_a_sensor_port(init, prefixes, j, k);
        let rest = sensor_port_positions(init, prefixes);
        let i = choose|i: int| 0 <= i < rest.len() && rest[i] == j;
        if matches_any_prefix(names.last(), prefixes) {
            assert(rest.push(names.len() - 1)[i] == j);
        }
    } else {
        let rest = sensor_port_positions(names.drop_last(), prefixes);
        assert(rest.push(names.len() - 1)[rest.len() as int] == j);
    }
}

} // verus!
