//! Wire codec tests: byte-exact frames, round trips for every variant,
//! error variants, and resynchronization on a noisy stream.
use liketrain::command::HardwareCommand;
use liketrain::deser::{DeserError, DeserPayloadReader, DeserPayloadWriter};
use liketrain::event::{
    HardwareEvent, HardwareSectionPower, HardwareSwitchState, SectionEvent, SectionEventType,
};
use liketrain::stream::{encode_command_frame, encode_event_frame, SerialStream};

fn switch_id_bytes(name: &str) -> Vec<u8> {
    let mut v = name.as_bytes().to_vec();
    while v.len() < 32 {
        v.push(0);
    }
    v
}

#[test]
fn ping_frame_bytes() {
    // Ping{slave_id: 0, seq: 69} on the wire, byte for byte.
    let frame = encode_command_frame(&HardwareCommand::Ping { slave_id: 0, seq: 69 });
    let expected: Vec<u8> = vec![
        0xAA, 0x09, 0x00, 0x00, 0x00, 0x00, 0x00, 0x00, 0x00, 0x00, 0x45, 0x00, 0x00, 0x00, 0x45,
    ];
    assert_eq!(frame, expected);
}

#[test]
fn ping_round_trip_through_firmware() {
    // Host encodes a ping; the firmware decodes it and answers a pong,
    // which the host decodes and matches.
    let frame = encode_command_frame(&HardwareCommand::Ping { slave_id: 0, seq: 69 });
    let mut fw_stream = SerialStream::new();
    fw_stream.push_bytes(frame.as_slice());
    let cmd = fw_stream.read_command().unwrap().unwrap();
    let (slave_id, seq) = match cmd {
        HardwareCommand::Ping { slave_id, seq } => (slave_id, seq),
        _ => panic!("expected a ping"),
    };
    assert_eq!(slave_id, 0);
    assert_eq!(seq, 69);

    let pong_frame = encode_event_frame(&HardwareEvent::Pong { slave_id, seq });
    let mut host_stream = SerialStream::new();
    host_stream.push_bytes(pong_frame.as_slice());
    let event = host_stream.read_event().unwrap().unwrap();
    match event {
        HardwareEvent::Pong { slave_id, seq } => {
            assert_eq!(slave_id, 0);
            assert_eq!(seq, 69);
        },
        _ => panic!("expected a pong"),
    }
}

#[test]
fn command_round_trips() {
    let commands = vec![
        HardwareCommand::Ping { slave_id: 3, seq: 12345 },
        HardwareCommand::SetSectionPower {
            section_id: 24,
            power: HardwareSectionPower::ThreeQuarters,
        },
        HardwareCommand::SetSwitchState {
            switch_id: switch_id_bytes("N"),
            state: HardwareSwitchState::Right,
        },
        HardwareCommand::ResetAll,
    ];
    for cmd in commands {
        let payload = cmd.serialize();
        let decoded = HardwareCommand::deserialize(payload.as_slice()).unwrap();
        assert_eq!(decoded, cmd);
        // and through a whole frame
        let frame = encode_command_frame(&cmd);
        let mut stream = SerialStream::new();
        stream.push_bytes(frame.as_slice());
        let decoded = stream.read_command().unwrap().unwrap();
        assert_eq!(decoded, cmd);
        assert_eq!(stream.len(), 0);
    }
}

#[test]
fn event_round_trips() {
    let events = vec![
        HardwareEvent::Pong { slave_id: 1, seq: 2 },
        HardwareEvent::SectionEvent(SectionEvent::occupied(21)),
        HardwareEvent::SectionEvent(SectionEvent::freed(22)),
        HardwareEvent::SectionEvent(SectionEvent {
            section_id: 7,
            event_type: SectionEventType::Occupied,
        }),
        HardwareEvent::SwitchStateChanged {
            switch_id: switch_id_bytes("P"),
            state: HardwareSwitchState::Left,
        },
        HardwareEvent::DebugMessage { message: b"hello".to_vec() },
        HardwareEvent::DebugMessage { message: Vec::new() },
    ];
    for event in events {
        let payload = event.serialize();
        let decoded = HardwareEvent::deserialize(payload.as_slice()).unwrap();
        assert_eq!(decoded, event);
        let frame = encode_event_frame(&event);
        let mut stream = SerialStream::new();
        stream.push_bytes(frame.as_slice());
        let decoded = stream.read_event().unwrap().unwrap();
        assert_eq!(decoded, event);
        assert_eq!(stream.len(), 0);
    }
}

#[test]
fn resync_on_noise() {
    // A junk byte, a truncated frame, then a valid frame: exactly the
    // valid frame is decoded and the buffer is drained.
    let valid = encode_command_frame(&HardwareCommand::Ping { slave_id: 0, seq: 69 });
    let mut noisy: Vec<u8> = vec![0x00];
    noisy.extend_from_slice(&[0xAA, 0x09, 0x00, 0x00, 0x00, 0x00, 0x00]); // truncated frame
    noisy.extend_from_slice(valid.as_slice());
    let mut stream = SerialStream::new();
    stream.push_bytes(noisy.as_slice());
    let decoded = stream.read_command().unwrap().unwrap();
    assert_eq!(decoded, HardwareCommand::Ping { slave_id: 0, seq: 69 });
    assert_eq!(stream.len(), 0);
}

#[test]
fn checksum_flip_skips_frame() {
    // Flipping a payload byte makes the decoder skip the candidate and
    // resynchronize on the next good frame.
    let mut bad = encode_command_frame(&HardwareCommand::Ping { slave_id: 0, seq: 69 });
    bad[10] ^= 0xFF; // corrupt a payload byte
    let good = encode_command_frame(&HardwareCommand::Ping { slave_id: 7, seq: 8 });
    let mut stream = SerialStream::new();
    stream.push_bytes(bad.as_slice());
    stream.push_bytes(good.as_slice());
    let decoded = stream.read_command().unwrap().unwrap();
    assert_eq!(decoded, HardwareCommand::Ping { slave_id: 7, seq: 8 });
    assert_eq!(stream.len(), 0);
}

#[test]
fn incomplete_frame_is_pending() {
    let frame = encode_command_frame(&HardwareCommand::ResetAll);
    let mut stream = SerialStream::new();
    stream.push_bytes(&frame.as_slice()[..frame.len() - 2]);
    assert_eq!(stream.read_command().unwrap(), None);
    // the partial frame stays buffered until the rest arrives
    stream.push_bytes(&frame.as_slice()[frame.len() - 2..]);
    let decoded = stream.read_command().unwrap().unwrap();
    assert_eq!(decoded, HardwareCommand::ResetAll);
}

#[test]
fn invalid_variant_is_reported_and_dropped() {
    // A well-framed payload with an unknown tag propagates its error;
    // the bad frame is dropped whole, so the next read finds the
    // following good frame.
    let payload: Vec<u8> = vec![7u8];
    let frame = liketrain::stream::encode_frame(&payload);
    let good = encode_command_frame(&HardwareCommand::ResetAll);
    let mut stream = SerialStream::new();
    stream.push_bytes(frame.as_slice());
    stream.push_bytes(good.as_slice());
    assert_eq!(stream.read_command(), Err(DeserError::InvalidVariant(7)));
    assert_eq!(stream.len(), good.len());
    assert_eq!(stream.read_command().unwrap().unwrap(), HardwareCommand::ResetAll);
    assert_eq!(stream.len(), 0);
}

#[test]
fn short_payload_errors() {
    assert_eq!(
        HardwareCommand::deserialize(&[]),
        Err(DeserError::UnexpectedEndOfBuffer)
    );
    assert_eq!(
        HardwareCommand::deserialize(&[0u8, 1, 2]),
        Err(DeserError::UnexpectedEndOfBuffer)
    );
    assert_eq!(
        HardwareCommand::deserialize(&[1u8, 24, 0, 0, 0, 9]),
        Err(DeserError::InvalidVariant(9))
    );
}

#[test]
fn payload_reader_reads_little_endian() {
    let data: Vec<u8> = vec![0x45, 0x00, 0x00, 0x00, 0x34, 0x12, 0x07];
    let mut rd = DeserPayloadReader::new(data.as_slice());
    assert_eq!(rd.len(), 7);
    assert_eq!(rd.parse_u32(), Ok(0x45));
    assert_eq!(rd.parse_u16(), Ok(0x1234));
    assert_eq!(rd.parse_u8(), Ok(0x07));
    assert_eq!(rd.parse_u8(), Err(DeserError::UnexpectedEndOfBuffer));
}

#[test]
fn payload_writer_writes_little_endian() {
    let mut w = DeserPayloadWriter::new();
    w.write_u8(0x01);
    w.write_u16(0x1234);
    w.write_u32(0xAABBCCDD);
    assert!(w.write_size(5).is_ok());
    assert_eq!(w.write_size(5), Err(DeserError::SizeWasAlreadyWritten));
    let bytes = w.into_bytes();
    assert_eq!(
        bytes,
        vec![0x01, 0x34, 0x12, 0xDD, 0xCC, 0xBB, 0xAA, 0x05, 0x00, 0x00, 0x00]
    );
}
