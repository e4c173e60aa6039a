use contec_protocol::encoding::encode_high_byte;
use contec_protocol::incoming_package::{
    payload_length, u16_from_le, u32_from_le, CommandFeedback, DeviceIdentifier, DeviceNotice,
    DisconnectNotice, FreeFeedback, IncomingPackage, IncomingStateMachine, PIIdentifiers,
    RealTimeData, StorageData, StorageDataIdentifiers, StorageDataLength,
    StorageDataSegmentAmount, StorageDataWithPI, StorageStartTimeDate, StorageStartTimeTime,
    UserAmount, UserInformation,
};
use contec_protocol::Error;

const REAL_TIME_FRAME: [u8; 8] = [0x83, 0xB6, 0xCA, 0x97, 0xC8, 0xE2, 0xB4, 0x92];

fn real_time_sample() -> RealTimeData {
    RealTimeData {
        signal_strength: 6,
        searching_time_too_long: true,
        low_spo2: true,
        pulse_beep: false,
        probe_errors: true,
        pulse_waveform: 74,
        searching_pulse: true,
        bar_graph: 7,
        pi_invalid: true,
        pulse_rate: 72,
        spo2: 98,
        pi: 0x1234,
    }
}

/// The frame after the code byte, as the device sends it, padded to eight bytes.
fn wire<const N: usize>(plain: [u8; N]) -> [u8; 8] {
    let (high, data) = encode_high_byte(plain);
    let mut buffer = [0u8; 8];
    buffer[0] = high;
    buffer[1..N + 1].copy_from_slice(&data);
    buffer
}

/// Feeds `bytes` to the machine in reads of at most `chunk` bytes, each into
/// a room of the size that the machine asks for.
fn feed(
    machine: &mut IncomingStateMachine,
    bytes: &[u8],
    chunk: usize,
) -> Result<Option<IncomingPackage>, Error<()>> {
    let mut at = 0;
    let mut last = Ok(None);
    while at < bytes.len() {
        let want = machine.requested();
        let count = chunk.min(want).min(bytes.len() - at);
        let mut room = vec![0xEEu8; want];
        room[..count].copy_from_slice(&bytes[at..at + count]);
        last = machine.advance::<()>(&room, count);
        at += count;
        if !matches!(last, Ok(None)) {
            break;
        }
    }
    last
}

#[test]
fn little_endian_composition() {
    assert_eq!(u16_from_le(0x34, 0x12), 0x1234);
    assert_eq!(u16_from_le(0xFF, 0xFF), 0xFFFF);
    assert_eq!(u16_from_le(0x00, 0x01), 256);
    assert_eq!(u32_from_le(0x78, 0x56, 0x34, 0x12), 0x12345678);
    assert_eq!(u32_from_le(0xFF, 0xFF, 0xFF, 0xFF), u32::MAX);
    assert_eq!(u32_from_le(0, 0, 0, 1), 16777216);
}

#[test]
fn payload_lengths_of_the_catalogue() {
    let table: [(u8, usize); 16] = [
        (0x01, 7),
        (0x04, 7),
        (0x05, 7),
        (0x07, 6),
        (0x08, 6),
        (0x09, 4),
        (0x0A, 2),
        (0x0B, 2),
        (0x0C, 0),
        (0x0D, 1),
        (0x0E, 1),
        (0x0F, 6),
        (0x10, 1),
        (0x11, 7),
        (0x12, 6),
        (0x15, 7),
    ];
    for code in 0..=255u8 {
        let expected = table.iter().find(|(c, _)| *c == code).map(|(_, l)| *l);
        assert_eq!(payload_length(code), expected);
    }
}

#[test]
fn real_time_data_from_bytes() {
    let sample = RealTimeData::from_bytes([0xB6, 0xCA, 0x17, 72, 98, 0x34, 0x12]);
    assert_eq!(sample, real_time_sample());
}

#[test]
fn real_time_data_from_frame() {
    assert_eq!(
        IncomingPackage::from_frame(0x01, &REAL_TIME_FRAME),
        Ok(IncomingPackage::RealTimeData(real_time_sample()))
    );
}

#[test]
fn every_kind_from_frame() {
    assert_eq!(
        IncomingPackage::from_frame(0x04, &wire([1, 2, 3, 0x84, 5, 6, 0xFF])),
        Ok(IncomingPackage::DeviceIdentifier(DeviceIdentifier {
            identifier: [1, 2, 3, 0x84, 5, 6, 0xFF]
        }))
    );
    assert_eq!(
        IncomingPackage::from_frame(0x05, &wire([9, 1, 2, 3, 4, 5, 0x86])),
        Ok(IncomingPackage::UserInformation(UserInformation {
            user_index: 9,
            user_info: [1, 2, 3, 4, 5, 0x86]
        }))
    );
    assert_eq!(
        IncomingPackage::from_frame(0x07, &wire([1, 2, 0xE6, 0x07, 10, 27])),
        Ok(IncomingPackage::StorageStartTimeDate(StorageStartTimeDate {
            user_index: 1,
            storage_segment: 2,
            year: 2022,
            month: 10,
            day: 27
        }))
    );
    assert_eq!(
        IncomingPackage::from_frame(0x12, &wire([1, 2, 23, 59, 58, 0])),
        Ok(IncomingPackage::StorageStartTimeTime(StorageStartTimeTime {
            user_index: 1,
            storage_segment: 2,
            hour: 23,
            minute: 59,
            second: 58
        }))
    );
    assert_eq!(
        IncomingPackage::from_frame(0x08, &wire([1, 2, 0x78, 0x56, 0x34, 0x12])),
        Ok(IncomingPackage::StorageDataLength(StorageDataLength {
            user_index: 1,
            data_segment: 2,
            length: 305419896
        }))
    );
    assert_eq!(
        IncomingPackage::from_frame(0x09, &wire([97, 60, 0x10, 0x27])),
        Ok(IncomingPackage::StorageDataWithPI(StorageDataWithPI {
            spo2: 97,
            pulse_rate: 60,
            pi: 10000
        }))
    );
    assert_eq!(
        IncomingPackage::from_frame(0x0A, &wire([3, 200])),
        Ok(IncomingPackage::StorageDataSegmentAmount(StorageDataSegmentAmount {
            user_index: 3,
            segment_amount: 200
        }))
    );
    assert_eq!(
        IncomingPackage::from_frame(0x0B, &wire([0xAE, 4])),
        Ok(IncomingPackage::CommandFeedback(CommandFeedback { command: 0xAE, code: 4 }))
    );
    assert_eq!(
        IncomingPackage::from_frame(0x0C, &wire([])),
        Ok(IncomingPackage::FreeFeedback(FreeFeedback {}))
    );
    assert_eq!(
        IncomingPackage::from_frame(0x0D, &wire([0x81])),
        Ok(IncomingPackage::DisconnectNotice(DisconnectNotice { reason: 0x81 }))
    );
    assert_eq!(
        IncomingPackage::from_frame(0x0E, &wire([1])),
        Ok(IncomingPackage::PIIdentifiers(PIIdentifiers { pi_support: 1 }))
    );
    assert_eq!(
        IncomingPackage::from_frame(0x0F, &wire([99, 61, 98, 62, 97, 163])),
        Ok(IncomingPackage::StorageData(StorageData {
            spo2_1: 99,
            pulse_rate_1: 61,
            spo2_2: 98,
            pulse_rate_2: 62,
            spo2_3: 97,
            pulse_rate_3: 163
        }))
    );
    assert_eq!(
        IncomingPackage::from_frame(0x10, &wire([5])),
        Ok(IncomingPackage::UserAmount(UserAmount { total_user: 5 }))
    );
    assert_eq!(
        IncomingPackage::from_frame(0x11, &wire([2, 0x80, 1, 2, 3, 4, 5])),
        Ok(IncomingPackage::DeviceNotice(DeviceNotice {
            device_notice: 2,
            device_info: [0x80, 1, 2, 3, 4, 5]
        }))
    );
    assert_eq!(
        IncomingPackage::from_frame(0x15, &wire([1, 2, 3, 4, 5, 6, 0xF7])),
        Ok(IncomingPackage::StorageDataIdentifiers(StorageDataIdentifiers {
            user_index: 1,
            data_segment: 2,
            pi_identifiers: 3,
            retention: [4, 5, 6, 0xF7]
        }))
    );
}

#[test]
fn from_frame_ignores_what_lies_behind_the_frame() {
    let frame = [0x80, 0x85, 0x00, 0x00, 0x11, 0x22, 0x33, 0x44];
    assert_eq!(
        IncomingPackage::from_frame(0x10, &frame),
        Ok(IncomingPackage::UserAmount(UserAmount { total_user: 5 }))
    );
}

#[test]
fn from_frame_reports_the_first_unmarked_byte() {
    let mut frame = REAL_TIME_FRAME;
    frame[0] = 0x03;
    assert_eq!(IncomingPackage::from_frame(0x01, &frame), Err(0));
    for k in 1..8usize {
        let mut frame = REAL_TIME_FRAME;
        frame[k] &= 0x7F;
        assert_eq!(IncomingPackage::from_frame(0x01, &frame), Err(k));
        if k < 7 {
            frame[k + 1] &= 0x7F;
            assert_eq!(IncomingPackage::from_frame(0x01, &frame), Err(k));
        }
    }
}

#[test]
fn command_feedback_messages() {
    let texts = [
        "Completed operation",
        "Shutdown device",
        "Exchange users",
        "Recording",
        "Failure to delete the storage data",
        "Not supported",
    ];
    for (code, text) in texts.iter().enumerate() {
        let feedback = CommandFeedback { command: 0xAE, code: code as u8 };
        assert_eq!(feedback.message(), *text);
    }
    assert_eq!(
        CommandFeedback { command: 0, code: 4 }.message(),
        "Failure to delete the storage data"
    );
    assert_eq!(CommandFeedback { command: 0, code: 0x7F }.message(), "Unknown reason");
    assert_eq!(CommandFeedback { command: 0, code: 6 }.message(), "Unknown reason");
    assert_eq!(CommandFeedback { command: 0, code: 0xFF }.message(), "Unknown reason");
}

#[test]
fn machine_starts_idle_and_asks_for_the_code() {
    let machine = IncomingStateMachine::new();
    assert_eq!(machine.requested(), 1);
}

#[test]
fn machine_asks_for_what_is_missing() {
    let mut machine = IncomingStateMachine::new();
    assert_eq!(machine.advance::<()>(&[0x01], 1), Ok(None));
    assert_eq!(machine.requested(), 8);
    assert_eq!(machine.advance::<()>(&[0x83, 0xB6, 0xCA, 0, 0, 0, 0, 0], 3), Ok(None));
    assert_eq!(machine.requested(), 5);
    assert_eq!(
        machine.advance::<()>(&[0x97, 0xC8, 0xE2, 0xB4, 0x92], 5),
        Ok(Some(IncomingPackage::RealTimeData(real_time_sample())))
    );
    assert_eq!(machine.requested(), 1);
}

#[test]
fn one_byte_at_a_time_gives_what_a_single_read_gives() {
    let mut whole = vec![0x01u8];
    whole.extend_from_slice(&REAL_TIME_FRAME);
    let expected = Ok(Some(IncomingPackage::RealTimeData(real_time_sample())));
    for chunk in 1..=8usize {
        let mut machine = IncomingStateMachine::new();
        assert_eq!(feed(&mut machine, &whole, chunk), expected);
        assert_eq!(machine.requested(), 1);
    }
}

#[test]
fn one_byte_at_a_time_gives_the_same_error_too() {
    let mut whole = vec![0x01u8];
    whole.extend_from_slice(&REAL_TIME_FRAME);
    whole[4] = 0x17;
    let mut by_one = IncomingStateMachine::new();
    let mut at_once = IncomingStateMachine::new();
    let expected = Err(Error::InvalidPackageData {
        code: 0x01,
        bytes: [0x83, 0xB6, 0xCA, 0x17, 0xC8, 0xE2, 0xB4, 0x92],
        length: 8,
        invalid_index: 3,
    });
    assert_eq!(feed(&mut by_one, &whole, 1), expected);
    assert_eq!(feed(&mut at_once, &whole, 8), expected);
}

#[test]
fn package_without_payload_still_has_a_high_byte() {
    let mut machine = IncomingStateMachine::new();
    assert_eq!(machine.advance::<()>(&[0x0C], 1), Ok(None));
    assert_eq!(machine.requested(), 1);
    assert_eq!(
        machine.advance::<()>(&[0x80], 1),
        Ok(Some(IncomingPackage::FreeFeedback(FreeFeedback {})))
    );
}

#[test]
fn two_packages_in_a_row() {
    let mut machine = IncomingStateMachine::new();
    let stream = [0x10u8, 0x80, 0x85, 0x0B, 0x82, 0xAE, 0x84];
    assert_eq!(
        feed(&mut machine, &stream[..3], 2),
        Ok(Some(IncomingPackage::UserAmount(UserAmount { total_user: 5 })))
    );
    assert_eq!(
        feed(&mut machine, &stream[3..], 3),
        Ok(Some(IncomingPackage::CommandFeedback(CommandFeedback { command: 0x2E, code: 0x84 })))
    );
}

#[test]
fn unknown_code_is_reported_with_the_code() {
    let mut machine = IncomingStateMachine::new();
    assert_eq!(machine.advance::<()>(&[0xFF], 1), Err(Error::UnknownTypeCode { code: 0xFF }));
    assert_eq!(machine.requested(), 1);
    assert_eq!(machine.advance::<()>(&[0x00], 1), Err(Error::UnknownTypeCode { code: 0x00 }));
    assert_eq!(machine.advance::<()>(&[0x7D], 1), Err(Error::UnknownTypeCode { code: 0x7D }));
    assert_eq!(machine.advance::<()>(&[0x10], 1), Ok(None));
}

#[test]
fn read_of_zero_bytes_is_an_error_in_every_state() {
    let mut machine = IncomingStateMachine::new();
    assert_eq!(machine.advance::<()>(&[0x00], 0), Err(Error::DeviceReadZero));
    assert_eq!(machine.advance::<()>(&[0x09], 1), Ok(None));
    assert_eq!(machine.advance::<()>(&[0, 0, 0, 0, 0], 0), Err(Error::DeviceReadZero));
    assert_eq!(machine.advance::<()>(&[0x80, 0x80], 2), Ok(None));
    assert_eq!(machine.advance::<()>(&[0, 0, 0], 0), Err(Error::DeviceReadZero));
    assert_eq!(machine.requested(), 3);
}

#[test]
fn read_of_more_than_the_room_is_an_error() {
    let mut machine = IncomingStateMachine::new();
    assert_eq!(
        machine.advance::<()>(&[0x0A], 2),
        Err(Error::DeviceReadTooMuch { requested: 1, reported: 2 })
    );
    assert_eq!(machine.advance::<()>(&[0x0A], 1), Ok(None));
    assert_eq!(
        machine.advance::<()>(&[0x80, 0x80, 0x80], 4),
        Err(Error::DeviceReadTooMuch { requested: 3, reported: 4 })
    );
    assert_eq!(machine.requested(), 3);
    assert_eq!(
        machine.advance::<()>(&[0x80, 0x83, 0xC8], 3),
        Ok(Some(IncomingPackage::StorageDataSegmentAmount(StorageDataSegmentAmount {
            user_index: 3,
            segment_amount: 0x48
        })))
    );
}

#[test]
fn unmarked_high_byte_is_reported_at_zero() {
    let mut machine = IncomingStateMachine::new();
    assert_eq!(machine.advance::<()>(&[0x0A], 1), Ok(None));
    assert_eq!(
        machine.advance::<()>(&[0x00, 0x83, 0xC8], 3),
        Err(Error::InvalidPackageData {
            code: 0x0A,
            bytes: [0x00, 0x83, 0xC8, 0, 0, 0, 0, 0],
            length: 3,
            invalid_index: 0
        })
    );
}

#[test]
fn unmarked_payload_byte_is_reported_at_its_place() {
    for k in 1..=2usize {
        let mut frame = [0x80u8, 0x83, 0xC8];
        frame[k] &= 0x7F;
        let mut machine = IncomingStateMachine::new();
        assert_eq!(machine.advance::<()>(&[0x0A], 1), Ok(None));
        let mut bytes = [0u8; 8];
        bytes[..3].copy_from_slice(&frame);
        assert_eq!(
            machine.advance::<()>(&frame, 3),
            Err(Error::InvalidPackageData { code: 0x0A, bytes, length: 3, invalid_index: k })
        );
    }
}

#[test]
fn machine_stays_on_an_invalid_frame() {
    let mut machine = IncomingStateMachine::new();
    assert_eq!(machine.advance::<()>(&[0x0D], 1), Ok(None));
    assert!(matches!(
        machine.advance::<()>(&[0x80, 0x01], 2),
        Err(Error::InvalidPackageData { invalid_index: 1, .. })
    ));
    assert_eq!(machine.requested(), 0);
    assert_eq!(machine.advance::<()>(&[], 0), Err(Error::DeviceReadZero));
    assert_eq!(
        machine.advance::<()>(&[], 1),
        Err(Error::DeviceReadTooMuch { requested: 0, reported: 1 })
    );
}

#[test]
fn bytes_behind_the_count_are_not_taken() {
    let mut machine = IncomingStateMachine::new();
    assert_eq!(machine.advance::<()>(&[0x0A], 1), Ok(None));
    assert_eq!(machine.advance::<()>(&[0x80, 0x11, 0x22], 1), Ok(None));
    assert_eq!(
        machine.advance::<()>(&[0x00, 0x00], 2),
        Err(Error::InvalidPackageData {
            code: 0x0A,
            bytes: [0x80, 0x00, 0x00, 0, 0, 0, 0, 0],
            length: 3,
            invalid_index: 1
        })
    );
}
