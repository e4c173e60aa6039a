//! Packages sent to the device.
use crate::bit_ops::lemma_with_bit;
use crate::encoding::{
    decoded, encode_high_byte, high_byte_of, lemma_decode_encode, lemma_high_byte_bits, marked,
    marked_payload,
};
use vstd::prelude::*;

verus! {

/// A package which can be sent to the device.
pub trait OutgoingPackage {
    /// The package code. A code that can be sent is below `0x80`: its most
    /// significant bit, which marks the bytes that follow, is clear.
    spec fn code_of() -> u8;

    /// The seven data bytes of the package.
    spec fn data(&self) -> Seq<u8>;

    /// Gives the package code.
    fn code() -> (code: u8)
        ensures
            code == Self::code_of(),
    ;

    /// Gives the 7 data bytes of the package.
    fn bytes(&self) -> (bytes: [u8; 7])
        ensures
            bytes@ == self.data(),
    ;
}

/// The nine bytes that go over the wire for a package with code `code` and
/// data bytes `data`: the code, the high byte, and the data with every
/// synchronisation bit set.
pub open spec fn frame_of(code: u8, data: Seq<u8>) -> Seq<u8> {
    seq![code, high_byte_of(data)] + marked_payload(data)
}

/// A frame has nine bytes and begins with the code; every byte after the
/// code carries the synchronisation marker; and what follows the code
/// decodes to the data bytes.
pub proof fn lemma_frame_of(code: u8, data: Seq<u8>)
    requires
        data.len() == 7,
    ensures
        frame_of(code, data).len() == 9,
        frame_of(code, data)[0] == code,
        forall|i: int| 1 <= i < 9 ==> marked(#[trigger] frame_of(code, data)[i]),
        decoded(frame_of(code, data)[1], frame_of(code, data).skip(2)) == Ok::<Seq<u8>, usize>(
            data,
        ),
{
    let frame = frame_of(code, data);
    lemma_high_byte_bits(data, 7);
    assert forall|i: int| 1 <= i < 9 implies marked(#[trigger] frame[i]) by {
        if i >= 2 {
            assert(frame[i] == marked_payload(data)[i - 2]);
            lemma_with_bit(data[i - 2], 7, true, 7);
        }
    }
    assert(frame.skip(2) =~= marked_payload(data));
    lemma_decode_encode(data);
}

/// Gives the byte representation for the package.
pub fn bytes_from_package<P>(package: P) -> (frame: [u8; 9]) where P: OutgoingPackage
    requires
        P::code_of() < 0x80,
    ensures
        frame@ == frame_of(P::code_of(), package.data()),
{
    let (high_byte, data) = encode_high_byte(package.bytes());
    let frame: [u8; 9] = [
        P::code(),
        high_byte,
        data[0],
        data[1],
        data[2],
        data[3],
        data[4],
        data[5],
        data[6],
    ];
    assert(frame@ =~= frame_of(P::code_of(), package.data()));
    frame
}

/// Control command.
#[derive(Debug, Clone, Copy, PartialEq, Eq)]
pub enum ControlCommand {
    /// Ask device to start sending real time data
    ContinuousRealTimeData,
    /// Stop sending real time data
    StopRealTimeData,
    /// Inform the device that it is still connected
    InformDeviceConnected,
    /// Ask for device identifier
    AskForDeviceIdentifier,
    /// Ask for storage data segment amount (user index)
    AskForStorageDataSegmentAmount(u8),
    /// Ask for storage data length (user index, data segment)
    AskForStorageDataLength(u8, u8),
    /// Ask for storage start time (user index, data segment)
    AskForStorageStartTime(u8, u8),
    /// Ask for storage data (user index, data segment)
    AskForStorageData(u8, u8),
    /// Stop sending storage data
    StopStorageData,
    /// Ask for user information (user index)
    AskForUserInformation(u8),
    /// Ask for whether to support PI in Real-time data
    AskWhetherSupportPI,
    /// Ask for user amount
    AskForUserAmount,
    /// Delete storage data (user index, data segment)
    DeleteStorageData(u8, u8),
    /// Ask for storage data identifiers
    AskForStorageDataIdentifiers,
    /// Synchronize device time (hour, minute, second)
    SynchronizeDeviceTime(u8, u8, u8),
    /// Synchronize device date (year high, year low, month, day, weekday
    /// counted from Sunday)
    SynchronizeDeviceDate(u8, u8, u8, u8, u8),
    /// Ask for storage data identifiers 2 (user index, data segment)
    AskForStorageDataIdentifiers2(u8, u8),
}

impl OutgoingPackage for ControlCommand {
    open spec fn code_of() -> u8 {
        0x7D
    }

    fn code() -> (code: u8) {
        0x7D
    }

    /// The sub-code of the command, then its parameters, then zeros.
    open spec fn data(&self) -> Seq<u8> {
        match *self {
            ControlCommand::ContinuousRealTimeData => seq![0xA1u8, 0, 0, 0, 0, 0, 0],
            ControlCommand::StopRealTimeData => seq![0xA2u8, 0, 0, 0, 0, 0, 0],
            ControlCommand::AskForDeviceIdentifier => seq![0xAAu8, 0, 0, 0, 0, 0, 0],
            ControlCommand::InformDeviceConnected => seq![0xAFu8, 0, 0, 0, 0, 0, 0],
            ControlCommand::AskForStorageDataSegmentAmount(user_index) => seq![
                0xA3u8,
                user_index,
                0,
                0,
                0,
                0,
                0,
            ],
            ControlCommand::AskForStorageDataLength(user_index, data_segment) => seq![
                0xA4u8,
                user_index,
                data_segment,
                0,
                0,
                0,
                0,
            ],
            ControlCommand::AskForStorageStartTime(user_index, data_segment) => seq![
                0xA5u8,
                user_index,
                data_segment,
                0,
                0,
                0,
                0,
            ],
            ControlCommand::AskForStorageData(user_index, data_segment) => seq![
                0xA6u8,
                user_index,
                data_segment,
                0,
                0,
                0,
                0,
            ],
            ControlCommand::StopStorageData => seq![0xA7u8, 0, 0, 0, 0, 0, 0],
            ControlCommand::AskForUserInformation(user_index) => seq![
                0xABu8,
                user_index,
                0,
                0,
                0,
                0,
                0,
            ],
            ControlCommand::AskWhetherSupportPI => seq![0xACu8, 0, 0, 0, 0, 0, 0],
            ControlCommand::AskForUserAmount => seq![0xADu8, 0, 0, 0, 0, 0, 0],
            ControlCommand::DeleteStorageData(user_index, data_segment) => seq![
                0xAEu8,
                user_index,
                data_segment,
                0,
                0,
                0,
                0,
            ],
            ControlCommand::AskForStorageDataIdentifiers => seq![0xB0u8, 0, 0, 0, 0, 0, 0],
            ControlCommand::SynchronizeDeviceTime(hour, minute, second) => seq![
                0xB1u8,
                hour,
                minute,
                second,
                0,
                0,
                0,
            ],
            ControlCommand::SynchronizeDeviceDate(year_high, year_low, month, day, week) => seq![
                0xB2u8,
                year_high,
                year_low,
                month,
                day,
                week,
                0,
            ],
            ControlCommand::AskForStorageDataIdentifiers2(user_index, data_segment) => seq![
                0xA3u8,
                user_index,
                data_segment,
                0,
                0,
                0,
                0,
            ],
        }
    }

    fn bytes(&self) -> (bytes: [u8; 7]) {
        let bytes: [u8; 7] = match *self {
            ControlCommand::ContinuousRealTimeData => [0xA1, 0, 0, 0, 0, 0, 0],
            ControlCommand::StopRealTimeData => [0xA2, 0, 0, 0, 0, 0, 0],
            ControlCommand::AskForDeviceIdentifier => [0xAA, 0, 0, 0, 0, 0, 0],
            ControlCommand::InformDeviceConnected => [0xAF, 0, 0, 0, 0, 0, 0],
            ControlCommand::AskForStorageDataSegmentAmount(user_index) => {
                [0xA3, user_index, 0, 0, 0, 0, 0]
            },
            ControlCommand::AskForStorageDataLength(user_index, data_segment) => {
                [0xA4, user_index, data_segment, 0, 0, 0, 0]
            },
            ControlCommand::AskForStorageStartTime(user_index, data_segment) => {
                [0xA5, user_index, data_segment, 0, 0, 0, 0]
            },
            ControlCommand::AskForStorageData(user_index, data_segment) => {
                [0xA6, user_index, data_segment, 0, 0, 0, 0]
            },
            ControlCommand::StopStorageData => [0xA7, 0, 0, 0, 0, 0, 0],
            ControlCommand::AskForUserInformation(user_index) => [0xAB, user_index, 0, 0, 0, 0, 0],
            ControlCommand::AskWhetherSupportPI => [0xAC, 0, 0, 0, 0, 0, 0],
            ControlCommand::AskForUserAmount => [0xAD, 0, 0, 0, 0, 0, 0],
            ControlCommand::DeleteStorageData(user_index, data_segment) => {
                [0xAE, user_index, data_segment, 0, 0, 0, 0]
            },
            ControlCommand::AskForStorageDataIdentifiers => [0xB0, 0, 0, 0, 0, 0, 0],
            ControlCommand::SynchronizeDeviceTime(hour, minute, second) => {
                [0xB1, hour, minute, second, 0, 0, 0]
            },
            ControlCommand::SynchronizeDeviceDate(year_high, year_low, month, day, week) => {
                [0xB2, year_high, year_low, month, day, week, 0]
            },
            ControlCommand::AskForStorageDataIdentifiers2(user_index, data_segment) => {
                [0xA3, user_index, data_segment, 0, 0, 0, 0]
            },
        };
        assert(bytes@ =~= self.data());
        bytes
    }
}

/// Whether `c` may stand in a device identifier: an ASCII letter, a digit
/// or an underscore.
pub open spec fn is_id_char(c: u8) -> bool {
    ||| 0x41 <= c <= 0x5A
    ||| 0x61 <= c <= 0x7A
    ||| 0x30 <= c <= 0x39
    ||| c == 0x5F
}

/// Why a device identifier was refused.
#[derive(Debug, Clone, Copy, PartialEq, Eq)]
pub enum DeviceIdError {
    /// The identifier does not have seven characters.
    WrongLength,
    /// A character is none of `A`-`Z`, `a`-`z`, `0`-`9` and `_`.
    InvalidCharacter,
}

/// Set new device identifier.
#[derive(Debug, Clone, Copy, PartialEq, Eq)]
pub struct SetDeviceId([u8; 7]);

impl SetDeviceId {
    /// Create new set device identifier package.
    ///
    /// The identifier has seven characters, each a letter, a digit or an
    /// underscore. The length is looked at first.
    pub fn new(id: &[u8]) -> (package: Result<Self, DeviceIdError>)
        ensures
            match package {
                Ok(set) => set.data() == id@ && id@.len() == 7 && forall|i: int|
                    0 <= i < 7 ==> is_id_char(#[trigger] id@[i]),
                Err(DeviceIdError::WrongLength) => id@.len() != 7,
                Err(DeviceIdError::InvalidCharacter) => id@.len() == 7 && exists|i: int|
                    0 <= i < 7 && !is_id_char(#[trigger] id@[i]),
            },
    {
        if id.len() != 7 {
            return Err(DeviceIdError::WrongLength);
        }
        let mut characters = [0u8; 7];
        let mut i: usize = 0;
        while i < 7
            invariant
                i <= 7,
                id@.len() == 7,
                forall|k: int| 0 <= k < i ==> characters@[k] == id@[k] && is_id_char(id@[k]),
            decreases 7 - i,
        {
            let c: u8 = id[i];
            let allowed = (0x41 <= c && c <= 0x5A) || (0x61 <= c && c <= 0x7A) || (0x30 <= c && c
                <= 0x39) || c == 0x5F;
            if !allowed {
                return Err(DeviceIdError::InvalidCharacter);
            }
            characters[i] = c;
            i += 1;
        }
        assert(characters@ =~= id@);
        Ok(SetDeviceId(characters))
    }
}

impl OutgoingPackage for SetDeviceId {
    open spec fn code_of() -> u8 {
        0x04
    }

    fn code() -> (code: u8) {
        0x04
    }

    /// The identifier that the package sets.
    closed spec fn data(&self) -> Seq<u8> {
        self.0@
    }

    fn bytes(&self) -> (bytes: [u8; 7]) {
        self.0
    }
}

} // verus!
