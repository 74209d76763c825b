use bytes::Bytes;
use virima_remote_agent::pipe_io::{
    parse_body, wire_frame, write_error, FrameRead, FrameReader, PipeWrite, HRESULT_BROKEN_PIPE,
};
use virima_remote_agent::protocol::{
    Frame, FrameType, StreamId, DEFAULT_WINDOW_SIZE, FLAG_EOS, FLAG_URGENT, MAX_FRAME_SIZE,
    MAX_PAYLOAD_SIZE, PROTOCOL_VERSION,
};
use virima_remote_agent::Error;

const TYPES: [(FrameType, u8); 14] = [
    (FrameType::Hello, 0x01),
    (FrameType::HelloAck, 0x02),
    (FrameType::Run, 0x10),
    (FrameType::RunAck, 0x11),
    (FrameType::Output, 0x20),
    (FrameType::Status, 0x30),
    (FrameType::Exit, 0x40),
    (FrameType::Cancel, 0x50),
    (FrameType::CancelAck, 0x51),
    (FrameType::WindowUpdate, 0x60),
    (FrameType::Error, 0xF0),
    (FrameType::Ping, 0xFE),
    (FrameType::Pong, 0xFF),
    (FrameType::Goodbye, 0xFD),
];

fn message_of<T>(r: Result<T, Error>) -> String {
    match r {
        Ok(_) => panic!("an error was expected"),
        Err(e) => e.message(),
    }
}

fn output_frame() -> Frame {
    Frame::new(FrameType::Output, StreamId::Stdout)
        .with_job_id(0x01020304)
        .with_sequence(7)
        .with_flag(FLAG_EOS)
        .with_payload(Bytes::from_static(b"Hello World\n"))
}

#[test]
fn constants() {
    assert_eq!(PROTOCOL_VERSION, 1);
    assert_eq!(MAX_FRAME_SIZE, 1024 * 1024);
    assert_eq!(MAX_PAYLOAD_SIZE, 32 * 1024);
    assert_eq!(DEFAULT_WINDOW_SIZE, 64 * 1024);
}

#[test]
fn frame_types_have_their_bytes() {
    for (t, code) in TYPES {
        assert_eq!(t.code(), code);
        assert_eq!(FrameType::try_from(code).unwrap(), t);
    }
    let known: Vec<u8> = TYPES.iter().map(|(_, c)| *c).collect();
    for code in 0..=255u8 {
        assert_eq!(FrameType::try_from(code).is_ok(), known.contains(&code));
    }
}

#[test]
fn unknown_frame_type() {
    assert_eq!(
        message_of(FrameType::try_from(0x0a)),
        "Protocol error: Unknown frame type: 0x0a"
    );
}

#[test]
fn streams_have_their_bytes() {
    for (s, code) in [
        (StreamId::Control, 0),
        (StreamId::Stdout, 1),
        (StreamId::Stderr, 2),
        (StreamId::Stdin, 3),
    ] {
        assert_eq!(s.code(), code);
        assert_eq!(StreamId::try_from(code).unwrap(), s);
    }
    assert_eq!(message_of(StreamId::try_from(4)), "Protocol error: Invalid stream ID: 4");
}

#[test]
fn encode_is_big_endian() {
    let body = output_frame().encode().unwrap();
    let mut expected = vec![0x20, 0x01, 0x00, 0x01, 0x01, 0x02, 0x03, 0x04, 0, 0, 0, 7];
    expected.extend_from_slice(b"Hello World\n");
    assert_eq!(body.as_ref(), expected.as_slice());
}

#[test]
fn decode_of_encode() {
    let f = output_frame();
    let g = Frame::decode(&f.encode().unwrap()).unwrap();
    assert_eq!(g.frame_type, FrameType::Output);
    assert_eq!(g.stream_id, StreamId::Stdout);
    assert_eq!(g.flags, FLAG_EOS);
    assert_eq!(g.job_id, 0x01020304);
    assert_eq!(g.sequence_number, 7);
    assert_eq!(g.payload, f.payload);
}

#[test]
fn encode_of_decode() {
    let data = [0xF0, 0, 0xAB, 0xCD, 1, 2, 3, 4, 5, 6, 7, 8, 9];
    let f = Frame::decode(&data).unwrap();
    assert_eq!(f.flags, 0xABCD);
    assert_eq!(f.job_id, 0x01020304);
    assert_eq!(f.sequence_number, 0x05060708);
    assert_eq!(f.encode().unwrap().as_ref(), &data);
}

#[test]
fn decode_errors() {
    assert_eq!(message_of(Frame::decode(&[1; 11])), "Protocol error: Frame too short");
    let mut data = [0u8; 12];
    data[0] = 3;
    assert_eq!(message_of(Frame::decode(&data)), "Protocol error: Unknown frame type: 0x03");
    data[0] = 1;
    data[1] = 9;
    assert_eq!(message_of(Frame::decode(&data)), "Protocol error: Invalid stream ID: 9");
}

#[test]
fn payload_limit() {
    let f = Frame::new(FrameType::Output, StreamId::Stdout);
    let fits = f.clone().with_payload(Bytes::from(vec![1; MAX_PAYLOAD_SIZE]));
    assert_eq!(fits.encode().unwrap().len(), MAX_PAYLOAD_SIZE + 12);
    let too_long = f.with_payload(Bytes::from(vec![1; MAX_PAYLOAD_SIZE + 1]));
    assert_eq!(
        message_of(too_long.encode()),
        "Protocol error: Payload too large: 32769 bytes (max: 32768)"
    );
    assert_eq!(
        message_of(wire_frame(&too_long)),
        "Protocol error: Payload too large: 32769 bytes (max: 32768)"
    );
}

#[test]
fn flags() {
    let f = Frame::new(FrameType::Ping, StreamId::Control);
    assert!(!f.has_flag(FLAG_EOS));
    let f = f.with_flag(FLAG_URGENT);
    assert!(f.has_flag(FLAG_URGENT));
    assert!(!f.has_flag(FLAG_EOS));
    let f = f.with_flag(FLAG_EOS);
    assert_eq!(f.flags, 3);
    assert!(f.has_flag(FLAG_URGENT));
}

#[test]
fn wire_starts_with_the_length() {
    let wire = wire_frame(&output_frame()).unwrap();
    assert_eq!(&wire[..4], &[24, 0, 0, 0]);
    assert_eq!(&wire[4..], output_frame().encode().unwrap().as_ref());
    let long = Frame::new(FrameType::Output, StreamId::Stderr)
        .with_payload(Bytes::from(vec![5; 0x4321]));
    assert_eq!(&wire_frame(&long).unwrap()[..4], &[0x2d, 0x43, 0, 0]);
}

#[test]
fn client_frames_are_big_endian() {
    let body = [0x50, 0, 0x01, 0x02, 1, 2, 3, 4, 5, 6, 7, 8, 9, 9];
    let f = parse_body(&body).unwrap();
    assert_eq!(f.frame_type, FrameType::Cancel);
    assert_eq!(f.flags, 0x0102);
    assert_eq!(f.job_id, 0x01020304);
    assert_eq!(f.sequence_number, 0x05060708);
    assert_eq!(f.payload.as_ref(), &[9, 9]);
}

#[test]
fn parse_body_errors() {
    assert_eq!(
        message_of(parse_body(&[1; 11])),
        "Protocol error: Frame too small: 11 bytes (min: 12)"
    );
    assert_eq!(
        message_of(parse_body(&[0xEE; 12])),
        "Protocol error: Unknown frame type: 0xee"
    );
    let mut body = [0u8; 12];
    body[0] = 0xFE;
    body[1] = 200;
    assert_eq!(message_of(parse_body(&body)), "Protocol error: Invalid stream ID: 200");
}

#[test]
fn reader_collects_a_frame() {
    let mut reader = FrameReader::new();
    assert_eq!(reader.remaining(), 4);
    assert!(matches!(reader.feed(vec![14, 0]), FrameRead::More));
    assert_eq!(reader.remaining(), 2);
    assert!(matches!(reader.feed(vec![0, 0]), FrameRead::More));
    assert_eq!(reader.remaining(), 14);
    assert!(matches!(reader.feed(vec![0x10, 0, 0, 0, 0, 0, 0, 0, 0, 0]), FrameRead::More));
    assert_eq!(reader.remaining(), 4);
    match reader.feed(vec![0, 0, 1, 2]) {
        FrameRead::Complete(f) => {
            assert_eq!(f.frame_type, FrameType::Run);
            assert_eq!(f.payload.as_ref(), &[1, 2]);
        }
        _ => panic!("a frame was expected"),
    }
    assert_eq!(reader.remaining(), 4);
}

fn read_failure(chunks: Vec<Vec<u8>>) -> String {
    let mut reader = FrameReader::new();
    for chunk in chunks {
        match reader.feed(chunk) {
            FrameRead::More => {}
            FrameRead::Complete(_) => panic!("no frame was expected"),
            FrameRead::Failed(e) => return e.message(),
        }
    }
    panic!("an error was expected")
}

#[test]
fn reader_errors() {
    assert_eq!(
        read_failure(vec![vec![0; 4]]),
        "Protocol error: Invalid frame length: 0"
    );
    assert_eq!(
        read_failure(vec![vec![1, 0, 16, 0]]),
        "Protocol error: Frame too large: 1048577 bytes"
    );
    assert_eq!(
        read_failure(vec![vec![3, 0, 0, 0], vec![1, 1, 1]]),
        "Protocol error: Frame too small: 3 bytes (min: 12)"
    );
    assert_eq!(
        read_failure(vec![vec![3], vec![]]),
        "Protocol error: Failed to read frame length (EOF or disconnect)"
    );
    assert_eq!(
        read_failure(vec![vec![20, 0, 0, 0], vec![1; 5], vec![]]),
        "Protocol error: Incomplete frame read: got 5 bytes, expected 20"
    );
    let mut reader = FrameReader::new();
    assert_eq!(reader.fail("gone").message(), "Protocol error: Pipe read error: gone");
    assert_eq!(
        reader.task_failed("panic").message(),
        "Protocol error: Spawn blocking failed: panic"
    );
}

fn read_back(wire: &[u8]) -> Frame {
    let mut reader = FrameReader::new();
    assert!(matches!(reader.feed(wire[..4].to_vec()), FrameRead::More));
    match reader.feed(wire[4..].to_vec()) {
        FrameRead::Complete(f) => f,
        _ => panic!("a frame was expected"),
    }
}

#[test]
fn frames_read_as_written() {
    for f in [
        output_frame(),
        Frame::new(FrameType::Cancel, StreamId::Control).with_job_id(1),
        Frame::new(FrameType::Ping, StreamId::Control),
    ] {
        let wire = wire_frame(&f).unwrap();
        let g = read_back(&wire);
        assert_eq!(g.frame_type, f.frame_type);
        assert_eq!(g.stream_id, f.stream_id);
        assert_eq!(g.flags, f.flags);
        assert_eq!(g.job_id, f.job_id);
        assert_eq!(g.sequence_number, f.sequence_number);
        assert_eq!(g.payload, f.payload);
        assert_eq!(wire_frame(&g).unwrap(), wire);
    }
}

#[test]
fn pipe_write_goes_on_after_partial_writes() {
    let mut w = PipeWrite::new(vec![1, 2, 3, 4, 5]);
    assert_eq!(w.pending(), &[1, 2, 3, 4, 5]);
    assert_eq!(w.advance(2), None);
    assert_eq!(w.pending(), &[3, 4, 5]);
    assert_eq!(w.advance(0), None);
    assert_eq!(w.advance(3), Some(5));
    assert!(w.pending().is_empty());
}

#[test]
fn write_errors() {
    assert_eq!(
        write_error(HRESULT_BROKEN_PIPE, "x").message(),
        "Protocol error: Pipe broken (client disconnect)"
    );
    assert_eq!(write_error(5, "x").message(), "Protocol error: Pipe write error: x");
}
