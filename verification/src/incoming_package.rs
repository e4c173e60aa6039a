//! Packages sent by the device.
use crate::bit_ops::{bit_of, bit_range, get_bit, get_bit_range};
use crate::encoding::{decode_high_byte, decoded};
use vstd::prelude::*;

pub use crate::incoming_state_machine::IncomingStateMachine;

verus! {

/// The 16-bit number whose low byte is `low` and whose high byte is `high`.
pub open spec fn le_u16(low: u8, high: u8) -> u16 {
    (low + 256 * high) as u16
}

/// The 32-bit number made of four bytes, least significant first.
pub open spec fn le_u32(b0: u8, b1: u8, b2: u8, b3: u8) -> u32 {
    (b0 + 256 * b1 + 65536 * b2 + 16777216 * b3) as u32
}

/// Composes two bytes, low byte first, into a 16-bit number.
pub fn u16_from_le(low: u8, high: u8) -> (value: u16)
    ensures
        value == le_u16(low, high),
        value == low + 256 * high,
{
    let upper: u16 = (high as u16) << 8;
    assert(upper == 256 * high) by (bit_vector)
        requires
            upper == (high as u16) << 8,
    ;
    (low as u16) + upper
}

/// Composes four bytes, least significant first, into a 32-bit number.
pub fn u32_from_le(b0: u8, b1: u8, b2: u8, b3: u8) -> (value: u32)
    ensures
        value == le_u32(b0, b1, b2, b3),
        value == b0 + 256 * b1 + 65536 * b2 + 16777216 * b3,
{
    let second: u32 = (b1 as u32) << 8;
    let third: u32 = (b2 as u32) << 16;
    let fourth: u32 = (b3 as u32) << 24;
    assert(second == 256 * b1) by (bit_vector)
        requires
            second == (b1 as u32) << 8,
    ;
    assert(third == 65536 * b2) by (bit_vector)
        requires
            third == (b2 as u32) << 16,
    ;
    assert(fourth == 16777216 * b3) by (bit_vector)
        requires
            fourth == (b3 as u32) << 24,
    ;
    (b0 as u32) + second + third + fourth
}

/// A package sent by the device.
#[derive(Debug, Clone, Copy, PartialEq, Eq)]
pub enum IncomingPackage {
    /// Real time data
    RealTimeData(RealTimeData),
    /// Device identifier
    DeviceIdentifier(DeviceIdentifier),
    /// User information
    UserInformation(UserInformation),
    /// Storage start time (date)
    StorageStartTimeDate(StorageStartTimeDate),
    /// Storage start time (time)
    StorageStartTimeTime(StorageStartTimeTime),
    /// Storage data length
    StorageDataLength(StorageDataLength),
    /// Storage data with PI
    StorageDataWithPI(StorageDataWithPI),
    /// Storage data segment amount
    StorageDataSegmentAmount(StorageDataSegmentAmount),
    /// Command feedback
    CommandFeedback(CommandFeedback),
    /// Device free feedback
    FreeFeedback(FreeFeedback),
    /// Device disconnect notice
    DisconnectNotice(DisconnectNotice),
    /// PI identifiers
    PIIdentifiers(PIIdentifiers),
    /// Storage data
    StorageData(StorageData),
    /// User amount
    UserAmount(UserAmount),
    /// Device notice
    DeviceNotice(DeviceNotice),
    /// Storage data identifiers
    StorageDataIdentifiers(StorageDataIdentifiers),
}

/// Real time data
#[derive(Debug, Clone, Copy, PartialEq, Eq)]
pub struct RealTimeData {
    /// Signal strength
    pub signal_strength: u8,
    /// Searching time too long
    pub searching_time_too_long: bool,
    /// Low SpO2
    pub low_spo2: bool,
    /// Pulse beep
    pub pulse_beep: bool,
    /// Probe errors
    pub probe_errors: bool,
    /// Pulse waveform
    pub pulse_waveform: u8,
    /// Searching pulse
    pub searching_pulse: bool,
    /// Bar graph
    pub bar_graph: u8,
    /// PI invalid
    pub pi_invalid: bool,
    /// Pulse rate
    pub pulse_rate: u8,
    /// SpO2
    pub spo2: u8,
    /// PI
    pub pi: u16,
}

impl RealTimeData {
    /// The package that the 7 payload bytes `bytes` stand for.
    pub open spec fn of_bytes(bytes: Seq<u8>) -> RealTimeData {
        RealTimeData {
            signal_strength: bit_range(bytes[0], 0, 3),
            searching_time_too_long: bit_of(bytes[0], 4),
            low_spo2: bit_of(bytes[0], 5),
            pulse_beep: bit_of(bytes[0], 6),
            probe_errors: bit_of(bytes[0], 7),
            pulse_waveform: bit_range(bytes[1], 0, 6),
            searching_pulse: bit_of(bytes[1], 7),
            bar_graph: bit_range(bytes[2], 0, 3),
            pi_invalid: bit_of(bytes[2], 4),
            pulse_rate: bytes[3],
            spo2: bytes[4],
            pi: le_u16(bytes[5], bytes[6]),
        }
    }

    /// Create a new package from the given byte array.
    pub fn from_bytes(bytes: [u8; 7]) -> (package: Self)
        ensures
            package == Self::of_bytes(bytes@),
    {
        RealTimeData {
            signal_strength: get_bit_range(bytes[0], 0..=3),
            searching_time_too_long: get_bit(bytes[0], 4),
            low_spo2: get_bit(bytes[0], 5),
            pulse_beep: get_bit(bytes[0], 6),
            probe_errors: get_bit(bytes[0], 7),
            pulse_waveform: get_bit_range(bytes[1], 0..=6),
            searching_pulse: get_bit(bytes[1], 7),
            bar_graph: get_bit_range(bytes[2], 0..=3),
            pi_invalid: get_bit(bytes[2], 4),
            pulse_rate: bytes[3],
            spo2: bytes[4],
            pi: u16_from_le(bytes[5], bytes[6]),
        }
    }
}

/// Device identifier
#[derive(Debug, Clone, Copy, PartialEq, Eq)]
pub struct DeviceIdentifier {
    /// Identifier
    pub identifier: [u8; 7],
}

impl DeviceIdentifier {
    /// The package that the 7 payload bytes `bytes` stand for.
    pub open spec fn of_bytes(bytes: Seq<u8>) -> DeviceIdentifier {
        DeviceIdentifier {
            identifier: [bytes[0], bytes[1], bytes[2], bytes[3], bytes[4], bytes[5], bytes[6]],
        }
    }

    /// Create a new package from the given byte array.
    pub fn from_bytes(bytes: [u8; 7]) -> (package: Self)
        ensures
            package == Self::of_bytes(bytes@),
    {
        assert(bytes =~= Self::of_bytes(bytes@).identifier);
        DeviceIdentifier {
            identifier: bytes,
        }
    }
}

/// User information
#[derive(Debug, Clone, Copy, PartialEq, Eq)]
pub struct UserInformation {
    /// User index number
    pub user_index: u8,
    /// User information
    pub user_info: [u8; 6],
}

impl UserInformation {
    /// The package that the 7 payload bytes `bytes` stand for.
    pub open spec fn of_bytes(bytes: Seq<u8>) -> UserInformation {
        UserInformation {
            user_index: bytes[0],
            user_info: [bytes[1], bytes[2], bytes[3], bytes[4], bytes[5], bytes[6]],
        }
    }

    /// Create a new package from the given byte array.
    pub fn from_bytes(bytes: [u8; 7]) -> (package: Self)
        ensures
            package == Self::of_bytes(bytes@),
    {
        UserInformation {
            user_index: bytes[0],
            user_info: [bytes[1], bytes[2], bytes[3], bytes[4], bytes[5], bytes[6]],
        }
    }
}

/// Storage start time (date)
#[derive(Debug, Clone, Copy, PartialEq, Eq)]
pub struct StorageStartTimeDate {
    /// User index number
    pub user_index: u8,
    /// Storage segment number
    pub storage_segment: u8,
    /// Year
    pub year: u16,
    /// Month
    pub month: u8,
    /// Day
    pub day: u8,
}

impl StorageStartTimeDate {
    /// The package that the 6 payload bytes `bytes` stand for.
    pub open spec fn of_bytes(bytes: Seq<u8>) -> StorageStartTimeDate {
        StorageStartTimeDate {
            user_index: bytes[0],
            storage_segment: bytes[1],
            year: le_u16(bytes[2], bytes[3]),
            month: bytes[4],
            day: bytes[5],
        }
    }

    /// Create a new package from the given byte array.
    pub fn from_bytes(bytes: [u8; 6]) -> (package: Self)
        ensures
            package == Self::of_bytes(bytes@),
    {
        StorageStartTimeDate {
            user_index: bytes[0],
            storage_segment: bytes[1],
            year: u16_from_le(bytes[2], bytes[3]),
            month: bytes[4],
            day: bytes[5],
        }
    }
}

/// Storage start time (time)
#[derive(Debug, Clone, Copy, PartialEq, Eq)]
pub struct StorageStartTimeTime {
    /// User index number
    pub user_index: u8,
    /// Storage segment number
    pub storage_segment: u8,
    /// Hour
    pub hour: u8,
    /// Minutes
    pub minute: u8,
    /// Seconds
    pub second: u8,
}

impl StorageStartTimeTime {
    /// The package that the 6 payload bytes `bytes` stand for.
    pub open spec fn of_bytes(bytes: Seq<u8>) -> StorageStartTimeTime {
        StorageStartTimeTime {
            user_index: bytes[0],
            storage_segment: bytes[1],
            hour: bytes[2],
            minute: bytes[3],
            second: bytes[4],
        }
    }

    /// Create a new package from the given byte array.
    pub fn from_bytes(bytes: [u8; 6]) -> (package: Self)
        ensures
            package == Self::of_bytes(bytes@),
    {
        StorageStartTimeTime {
            user_index: bytes[0],
            storage_segment: bytes[1],
            hour: bytes[2],
            minute: bytes[3],
            second: bytes[4],
        }
    }
}

/// Storage data length
#[derive(Debug, Clone, Copy, PartialEq, Eq)]
pub struct StorageDataLength {
    /// User index number
    pub user_index: u8,
    /// Data segment number
    pub data_segment: u8,
    /// Data segment length
    pub length: u32,
}

impl StorageDataLength {
    /// The package that the 6 payload bytes `bytes` stand for.
    pub open spec fn of_bytes(bytes: Seq<u8>) -> StorageDataLength {
        StorageDataLength {
            user_index: bytes[0],
            data_segment: bytes[1],
            length: le_u32(bytes[2], bytes[3], bytes[4], bytes[5]),
        }
    }

    /// Create a new package from the given byte array.
    pub fn from_bytes(bytes: [u8; 6]) -> (package: Self)
        ensures
            package == Self::of_bytes(bytes@),
    {
        StorageDataLength {
            user_index: bytes[0],
            data_segment: bytes[1],
            length: u32_from_le(bytes[2], bytes[3], bytes[4], bytes[5]),
        }
    }
}

/// Storage data with PI
#[derive(Debug, Clone, Copy, PartialEq, Eq)]
pub struct StorageDataWithPI {
    /// SpO2
    pub spo2: u8,
    /// Pulse rate
    pub pulse_rate: u8,
    /// Perfusion index
    pub pi: u16,
}

impl StorageDataWithPI {
    /// The package that the 4 payload bytes `bytes` stand for.
    pub open spec fn of_bytes(bytes: Seq<u8>) -> StorageDataWithPI {
        StorageDataWithPI {
            spo2: bytes[0],
            pulse_rate: bytes[1],
            pi: le_u16(bytes[2], bytes[3]),
        }
    }

    /// Create a new package from the given byte array.
    pub fn from_bytes(bytes: [u8; 4]) -> (package: Self)
        ensures
            package == Self::of_bytes(bytes@),
    {
        StorageDataWithPI {
            spo2: bytes[0],
            pulse_rate: bytes[1],
            pi: u16_from_le(bytes[2], bytes[3]),
        }
    }
}

/// Storage data segment amount
#[derive(Debug, Clone, Copy, PartialEq, Eq)]
pub struct StorageDataSegmentAmount {
    /// User index number
    pub user_index: u8,
    /// Segment amount
    pub segment_amount: u8,
}

impl StorageDataSegmentAmount {
    /// The package that the 2 payload bytes `bytes` stand for.
    pub open spec fn of_bytes(bytes: Seq<u8>) -> StorageDataSegmentAmount {
        StorageDataSegmentAmount {
            user_index: bytes[0],
            segment_amount: bytes[1],
        }
    }

    /// Create a new package from the given byte array.
    pub fn from_bytes(bytes: [u8; 2]) -> (package: Self)
        ensures
            package == Self::of_bytes(bytes@),
    {
        StorageDataSegmentAmount {
            user_index: bytes[0],
            segment_amount: bytes[1],
        }
    }
}

/// Command feedback
#[derive(Debug, Clone, Copy, PartialEq, Eq)]
pub struct CommandFeedback {
    /// Command
    pub command: u8,
    /// Reason code
    pub code: u8,
}

impl CommandFeedback {
    /// The package that the 2 payload bytes `bytes` stand for.
    pub open spec fn of_bytes(bytes: Seq<u8>) -> CommandFeedback {
        CommandFeedback {
            command: bytes[0],
            code: bytes[1],
        }
    }

    /// Create a new package from the given byte array.
    pub fn from_bytes(bytes: [u8; 2]) -> (package: Self)
        ensures
            package == Self::of_bytes(bytes@),
    {
        CommandFeedback {
            command: bytes[0],
            code: bytes[1],
        }
    }
}

/// Device free feedback
#[derive(Debug, Clone, Copy, PartialEq, Eq)]
pub struct FreeFeedback {
}

impl FreeFeedback {
    /// The package that the 0 payload bytes `bytes` stand for.
    pub open spec fn of_bytes(bytes: Seq<u8>) -> FreeFeedback {
        FreeFeedback {
        }
    }

    /// Create a new package from the given byte array.
    pub fn from_bytes(bytes: [u8; 0]) -> (package: Self)
        ensures
            package == Self::of_bytes(bytes@),
    {
        FreeFeedback {
        }
    }
}

/// Device disconnect notice
#[derive(Debug, Clone, Copy, PartialEq, Eq)]
pub struct DisconnectNotice {
    /// Disconnect reason
    pub reason: u8,
}

impl DisconnectNotice {
    /// The package that the 1 payload bytes `bytes` stand for.
    pub open spec fn of_bytes(bytes: Seq<u8>) -> DisconnectNotice {
        DisconnectNotice {
            reason: bytes[0],
        }
    }

    /// Create a new package from the given byte array.
    pub fn from_bytes(bytes: [u8; 1]) -> (package: Self)
        ensures
            package == Self::of_bytes(bytes@),
    {
        DisconnectNotice {
            reason: bytes[0],
        }
    }
}

/// PI identifiers
#[derive(Debug, Clone, Copy, PartialEq, Eq)]
pub struct PIIdentifiers {
    /// Whether to support PI in real-time data
    pub pi_support: u8,
}

impl PIIdentifiers {
    /// The package that the 1 payload bytes `bytes` stand for.
    pub open spec fn of_bytes(bytes: Seq<u8>) -> PIIdentifiers {
        PIIdentifiers {
            pi_support: bytes[0],
        }
    }

    /// Create a new package from the given byte array.
    pub fn from_bytes(bytes: [u8; 1]) -> (package: Self)
        ensures
            package == Self::of_bytes(bytes@),
    {
        PIIdentifiers {
            pi_support: bytes[0],
        }
    }
}

/// Storage data
#[derive(Debug, Clone, Copy, PartialEq, Eq)]
pub struct StorageData {
    /// SpO2 entry 1
    pub spo2_1: u8,
    /// Pulse rate entry 1
    pub pulse_rate_1: u8,
    /// SpO2 entry 2
    pub spo2_2: u8,
    /// Pulse rate entry 2
    pub pulse_rate_2: u8,
    /// SpO2 entry 3
    pub spo2_3: u8,
    /// Pulse rate entry 3
    pub pulse_rate_3: u8,
}

impl StorageData {
    /// The package that the 6 payload bytes `bytes` stand for.
    pub open spec fn of_bytes(bytes: Seq<u8>) -> StorageData {
        StorageData {
            spo2_1: bytes[0],
            pulse_rate_1: bytes[1],
            spo2_2: bytes[2],
            pulse_rate_2: bytes[3],
            spo2_3: bytes[4],
            pulse_rate_3: bytes[5],
        }
    }

    /// Create a new package from the given byte array.
    pub fn from_bytes(bytes: [u8; 6]) -> (package: Self)
        ensures
            package == Self::of_bytes(bytes@),
    {
        StorageData {
            spo2_1: bytes[0],
            pulse_rate_1: bytes[1],
            spo2_2: bytes[2],
            pulse_rate_2: bytes[3],
            spo2_3: bytes[4],
            pulse_rate_3: bytes[5],
        }
    }
}

/// User amount
#[derive(Debug, Clone, Copy, PartialEq, Eq)]
pub struct UserAmount {
    /// Total user number
    pub total_user: u8,
}

impl UserAmount {
    /// The package that the 1 payload bytes `bytes` stand for.
    pub open spec fn of_bytes(bytes: Seq<u8>) -> UserAmount {
        UserAmount {
            total_user: bytes[0],
        }
    }

    /// Create a new package from the given byte array.
    pub fn from_bytes(bytes: [u8; 1]) -> (package: Self)
        ensures
            package == Self::of_bytes(bytes@),
    {
        UserAmount {
            total_user: bytes[0],
        }
    }
}

/// Device notice
#[derive(Debug, Clone, Copy, PartialEq, Eq)]
pub struct DeviceNotice {
    /// Device notice type
    pub device_notice: u8,
    /// Notice information
    pub device_info: [u8; 6],
}

impl DeviceNotice {
    /// The package that the 7 payload bytes `bytes` stand for.
    pub open spec fn of_bytes(bytes: Seq<u8>) -> DeviceNotice {
        DeviceNotice {
            device_notice: bytes[0],
            device_info: [bytes[1], bytes[2], bytes[3], bytes[4], bytes[5], bytes[6]],
        }
    }

    /// Create a new package from the given byte array.
    pub fn from_bytes(bytes: [u8; 7]) -> (package: Self)
        ensures
            package == Self::of_bytes(bytes@),
    {
        DeviceNotice {
            device_notice: bytes[0],
            device_info: [bytes[1], bytes[2], bytes[3], bytes[4], bytes[5], bytes[6]],
        }
    }
}

/// Storage data identifiers
#[derive(Debug, Clone, Copy, PartialEq, Eq)]
pub struct StorageDataIdentifiers {
    /// User index number
    pub user_index: u8,
    /// Data segment number
    pub data_segment: u8,
    /// PI identifiers
    pub pi_identifiers: u8,
    /// Retention
    pub retention: [u8; 4],
}

impl StorageDataIdentifiers {
    /// The package that the 7 payload bytes `bytes` stand for.
    pub open spec fn of_bytes(bytes: Seq<u8>) -> StorageDataIdentifiers {
        StorageDataIdentifiers {
            user_index: bytes[0],
            data_segment: bytes[1],
            pi_identifiers: bytes[2],
            retention: [bytes[3], bytes[4], bytes[5], bytes[6]],
        }
    }

    /// Create a new package from the given byte array.
    pub fn from_bytes(bytes: [u8; 7]) -> (package: Self)
        ensures
            package == Self::of_bytes(bytes@),
    {
        StorageDataIdentifiers {
            user_index: bytes[0],
            data_segment: bytes[1],
            pi_identifiers: bytes[2],
            retention: [bytes[3], bytes[4], bytes[5], bytes[6]],
        }
    }
}

/// Number of payload bytes (the high byte not counted) of the package with
/// type code `code`, if there is such a package.
pub open spec fn payload_length_of(code: u8) -> Option<usize> {
    match code {
        0x01u8 => Some(7usize),
        0x04u8 => Some(7usize),
        0x05u8 => Some(7usize),
        0x07u8 => Some(6usize),
        0x12u8 => Some(6usize),
        0x08u8 => Some(6usize),
        0x09u8 => Some(4usize),
        0x0Au8 => Some(2usize),
        0x0Bu8 => Some(2usize),
        0x0Cu8 => Some(0usize),
        0x0Du8 => Some(1usize),
        0x0Eu8 => Some(1usize),
        0x0Fu8 => Some(6usize),
        0x10u8 => Some(1usize),
        0x11u8 => Some(7usize),
        0x15u8 => Some(7usize),
        _ => None,
    }
}

/// The package with type code `code` that the restored payload `plain`
/// stands for.
pub open spec fn package_of(code: u8, plain: Seq<u8>) -> IncomingPackage {
    match code {
        0x01u8 => IncomingPackage::RealTimeData(RealTimeData::of_bytes(plain)),
        0x04u8 => IncomingPackage::DeviceIdentifier(DeviceIdentifier::of_bytes(plain)),
        0x05u8 => IncomingPackage::UserInformation(UserInformation::of_bytes(plain)),
        0x07u8 => IncomingPackage::StorageStartTimeDate(StorageStartTimeDate::of_bytes(plain)),
        0x12u8 => IncomingPackage::StorageStartTimeTime(StorageStartTimeTime::of_bytes(plain)),
        0x08u8 => IncomingPackage::StorageDataLength(StorageDataLength::of_bytes(plain)),
        0x09u8 => IncomingPackage::StorageDataWithPI(StorageDataWithPI::of_bytes(plain)),
        0x0Au8 => IncomingPackage::StorageDataSegmentAmount(StorageDataSegmentAmount::of_bytes(plain)),
        0x0Bu8 => IncomingPackage::CommandFeedback(CommandFeedback::of_bytes(plain)),
        0x0Cu8 => IncomingPackage::FreeFeedback(FreeFeedback::of_bytes(plain)),
        0x0Du8 => IncomingPackage::DisconnectNotice(DisconnectNotice::of_bytes(plain)),
        0x0Eu8 => IncomingPackage::PIIdentifiers(PIIdentifiers::of_bytes(plain)),
        0x0Fu8 => IncomingPackage::StorageData(StorageData::of_bytes(plain)),
        0x10u8 => IncomingPackage::UserAmount(UserAmount::of_bytes(plain)),
        0x11u8 => IncomingPackage::DeviceNotice(DeviceNotice::of_bytes(plain)),
        _ => IncomingPackage::StorageDataIdentifiers(StorageDataIdentifiers::of_bytes(plain)),
    }
}

/// What a complete frame `raw` (the high byte, then the payload) that came
/// after the type code `code` holds: the package, or the position of the
/// first byte of `raw` without its synchronisation bit.
pub open spec fn parsed(code: u8, raw: Seq<u8>) -> Result<IncomingPackage, usize> {
    match decoded(raw[0], raw.skip(1)) {
        Ok(plain) => Ok(package_of(code, plain)),
        Err(at) => Err(at),
    }
}

/// Number of payload bytes (the high byte not counted) of the package with
/// type code `code`; `None` for a code that names no package.
pub fn payload_length(code: u8) -> (length: Option<usize>)
    ensures
        length == payload_length_of(code),
        length matches Some(l) ==> l <= 7,
{
    match code {
        0x01u8 => Some(7usize),
        0x04u8 => Some(7usize),
        0x05u8 => Some(7usize),
        0x07u8 => Some(6usize),
        0x12u8 => Some(6usize),
        0x08u8 => Some(6usize),
        0x09u8 => Some(4usize),
        0x0Au8 => Some(2usize),
        0x0Bu8 => Some(2usize),
        0x0Cu8 => Some(0usize),
        0x0Du8 => Some(1usize),
        0x0Eu8 => Some(1usize),
        0x0Fu8 => Some(6usize),
        0x10u8 => Some(1usize),
        0x11u8 => Some(7usize),
        0x15u8 => Some(7usize),
        _ => None,
    }
}

/// Checks and restores the `N` payload bytes that follow the high byte at
/// the start of `buffer`.
fn restore<const N: usize>(buffer: &[u8; 8]) -> (plain: Result<[u8; N], usize>)
    requires
        N <= 7,
    ensures
        match plain {
            Ok(bytes) => decoded(buffer@[0], buffer@.subrange(1, N + 1)) == Ok::<Seq<u8>, usize>(
                bytes@,
            ),
            Err(at) => decoded(buffer@[0], buffer@.subrange(1, N + 1)) == Err::<Seq<u8>, usize>(
                at,
            ),
        },
{
    let mut data = [0u8; N];
    let mut i: usize = 0;
    while i < N
        invariant
            N <= 7,
            i <= N,
            forall|k: int| 0 <= k < i ==> data@[k] == buffer@[k + 1],
        decreases N - i,
    {
        data[i] = buffer[i + 1];
        i += 1;
    }
    assert(data@ =~= buffer@.subrange(1, N + 1));
    decode_high_byte((buffer[0], data))
}

impl IncomingPackage {
    /// Decodes the frame that came after the type code `code`. `buffer`
    /// holds the high byte and then the payload; what lies behind them is
    /// not looked at. On failure returns the position in `buffer` of the
    /// first byte without its synchronisation bit.
    pub fn from_frame(code: u8, buffer: &[u8; 8]) -> (package: Result<IncomingPackage, usize>)
        requires
            payload_length_of(code) is Some,
        ensures
            package == parsed(code, buffer@.take(payload_length_of(code).unwrap() + 1)),
    {
        let ghost raw = buffer@.take(payload_length_of(code).unwrap() + 1);
        assert(raw[0] == buffer@[0]);
        assert(raw.skip(1) =~= buffer@.subrange(1, payload_length_of(code).unwrap() + 1));
        match code {
            0x01u8 => match restore::<7>(buffer) {
                Ok(plain) => Ok(IncomingPackage::RealTimeData(RealTimeData::from_bytes(plain))),
                Err(at) => Err(at),
            },
            0x04u8 => match restore::<7>(buffer) {
                Ok(plain) => Ok(IncomingPackage::DeviceIdentifier(DeviceIdentifier::from_bytes(plain))),
                Err(at) => Err(at),
            },
            0x05u8 => match restore::<7>(buffer) {
                Ok(plain) => Ok(IncomingPackage::UserInformation(UserInformation::from_bytes(plain))),
                Err(at) => Err(at),
            },
            0x07u8 => match restore::<6>(buffer) {
                Ok(plain) => Ok(IncomingPackage::StorageStartTimeDate(StorageStartTimeDate::from_bytes(plain))),
                Err(at) => Err(at),
            },
            0x12u8 => match restore::<6>(buffer) {
                Ok(plain) => Ok(IncomingPackage::StorageStartTimeTime(StorageStartTimeTime::from_bytes(plain))),
                Err(at) => Err(at),
            },
            0x08u8 => match restore::<6>(buffer) {
                Ok(plain) => Ok(IncomingPackage::StorageDataLength(StorageDataLength::from_bytes(plain))),
                Err(at) => Err(at),
            },
            0x09u8 => match restore::<4>(buffer) {
                Ok(plain) => Ok(IncomingPackage::StorageDataWithPI(StorageDataWithPI::from_bytes(plain))),
                Err(at) => Err(at),
            },
            0x0Au8 => match restore::<2>(buffer) {
                Ok(plain) => Ok(IncomingPackage::StorageDataSegmentAmount(StorageDataSegmentAmount::from_bytes(plain))),
                Err(at) => Err(at),
            },
            0x0Bu8 => match restore::<2>(buffer) {
                Ok(plain) => Ok(IncomingPackage::CommandFeedback(CommandFeedback::from_bytes(plain))),
                Err(at) => Err(at),
            },
            0x0Cu8 => match restore::<0>(buffer) {
                Ok(plain) => Ok(IncomingPackage::FreeFeedback(FreeFeedback::from_bytes(plain))),
                Err(at) => Err(at),
            },
            0x0Du8 => match restore::<1>(buffer) {
                Ok(plain) => Ok(IncomingPackage::DisconnectNotice(DisconnectNotice::from_bytes(plain))),
                Err(at) => Err(at),
            },
            0x0Eu8 => match restore::<1>(buffer) {
                Ok(plain) => Ok(IncomingPackage::PIIdentifiers(PIIdentifiers::from_bytes(plain))),
                Err(at) => Err(at),
            },
            0x0Fu8 => match restore::<6>(buffer) {
                Ok(plain) => Ok(IncomingPackage::StorageData(StorageData::from_bytes(plain))),
                Err(at) => Err(at),
            },
            0x10u8 => match restore::<1>(buffer) {
                Ok(plain) => Ok(IncomingPackage::UserAmount(UserAmount::from_bytes(plain))),
                Err(at) => Err(at),
            },
            0x11u8 => match restore::<7>(buffer) {
                Ok(plain) => Ok(IncomingPackage::DeviceNotice(DeviceNotice::from_bytes(plain))),
                Err(at) => Err(at),
            },
            _ => match restore::<7>(buffer) {
                Ok(plain) => Ok(IncomingPackage::StorageDataIdentifiers(StorageDataIdentifiers::from_bytes(plain))),
                Err(at) => Err(at),
            },
        }
    }
}

/// The fixed text that belongs to the reason code of a command feedback.
pub open spec fn feedback_text(code: u8) -> Seq<char> {
    match code {
        0x00u8 => "Completed operation"@,
        0x01u8 => "Shutdown device"@,
        0x02u8 => "Exchange users"@,
        0x03u8 => "Recording"@,
        0x04u8 => "Failure to delete the storage data"@,
        0x05u8 => "Not supported"@,
        _ => "Unknown reason"@,
    }
}

impl CommandFeedback {
    /// Meaning of this device command feedback.
    pub fn message(&self) -> (text: &'static str)
        ensures
            text@ == feedback_text(self.code),
    {
        match self.code {
            0x00u8 => "Completed operation",
            0x01u8 => "Shutdown device",
            0x02u8 => "Exchange users",
            0x03u8 => "Recording",
            0x04u8 => "Failure to delete the storage data",
            0x05u8 => "Not supported",
            _ => "Unknown reason",
        }
    }
}

} // verus!
