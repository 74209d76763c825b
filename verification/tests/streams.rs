use bytes::Bytes;
use virima_remote_agent::io_pump::{
    channel_error, pump_stderr, pump_stdout, read_result, OutputPump, PipeReadResult, PumpEvent,
    PumpStep, SendDecision, StreamPump,
};
use virima_remote_agent::pipe_io::{HRESULT_BROKEN_PIPE, HRESULT_MORE_DATA};
use virima_remote_agent::protocol::{Frame, FrameType, StreamId, FLAG_EOS};
use virima_remote_agent::Error;

fn frame_of(len: usize) -> Frame {
    Frame::new(FrameType::Output, StreamId::Stdout).with_payload(Bytes::from(vec![0; len]))
}

fn data(bytes: &[u8]) -> PumpEvent {
    PumpEvent::Read(PipeReadResult {
        data: bytes.to_vec(),
        bytes_read: bytes.len(),
        is_eof: false,
    })
}

fn eof() -> PumpEvent {
    PumpEvent::Read(PipeReadResult { data: Vec::new(), bytes_read: 0, is_eof: true })
}

fn output(step: PumpStep) -> Frame {
    match step {
        PumpStep::Output(f) => f,
        _ => panic!("output was expected"),
    }
}

fn finish(step: PumpStep) -> Frame {
    match step {
        PumpStep::Finish(f) => f,
        _ => panic!("the end of the stream was expected"),
    }
}

#[test]
fn window_fills_and_empties() {
    let mut p = StreamPump::new(100, false);
    assert_eq!(p.try_send_frame(&frame_of(60)), SendDecision::Send);
    assert_eq!(p.try_send_frame(&frame_of(41)), SendDecision::Wait);
    assert_eq!(p.try_send_frame(&frame_of(40)), SendDecision::Send);
    assert_eq!(p.try_send_frame(&frame_of(1)), SendDecision::Wait);
    assert_eq!(p.try_send_frame(&frame_of(0)), SendDecision::Send);
    p.update_window(60);
    assert_eq!(p.try_send_frame(&frame_of(121)), SendDecision::Wait);
    assert_eq!(p.try_send_frame(&frame_of(120)), SendDecision::Send);
}

#[test]
fn too_large_acknowledgement() {
    let mut p = StreamPump::new(10, false);
    assert_eq!(p.try_send_frame(&frame_of(4)), SendDecision::Send);
    p.update_window(50);
    assert_eq!(p.try_send_frame(&frame_of(61)), SendDecision::Wait);
    assert_eq!(p.try_send_frame(&frame_of(60)), SendDecision::Send);
}

#[test]
fn drop_policy() {
    let mut p = StreamPump::new(10, true);
    assert_eq!(p.try_send_frame(&frame_of(11)), SendDecision::Discard);
    assert_eq!(p.try_send_frame(&frame_of(10)), SendDecision::Send);
    assert_eq!(p.try_send_frame(&frame_of(1)), SendDecision::Discard);
}

#[test]
fn reads() {
    let r = read_result(vec![1, 2, 3, 4], 2, None).unwrap();
    assert_eq!((r.data, r.bytes_read, r.is_eof), (vec![1, 2], 2, false));
    let r = read_result(vec![1, 2], 0, None).unwrap();
    assert_eq!((r.data, r.bytes_read, r.is_eof), (vec![], 0, true));
    let r = read_result(vec![1, 2], 2, Some((HRESULT_BROKEN_PIPE, "x".to_string()))).unwrap();
    assert_eq!((r.data, r.bytes_read, r.is_eof), (vec![], 0, true));
    let r = read_result(vec![1, 2], 1, Some((HRESULT_MORE_DATA, "x".to_string()))).unwrap();
    assert_eq!((r.data, r.bytes_read, r.is_eof), (vec![1], 1, false));
    let e = read_result(vec![1, 2], 1, Some((5, "denied".to_string()))).unwrap_err();
    assert_eq!(e.message(), "IO error: denied");
}

#[test]
fn codes_of_the_system() {
    assert_eq!(HRESULT_BROKEN_PIPE as u32, 0x8007_006D);
    assert_eq!(HRESULT_MORE_DATA as u32, 0x8007_00EA);
}

#[test]
fn frames_carry_the_data_in_order() {
    let mut p = pump_stdout(3);
    let mut seen: Vec<u8> = Vec::new();
    for (n, chunk) in [b"one ".as_slice(), b"two ", b"three"].iter().enumerate() {
        let f = output(p.step(data(chunk)));
        assert_eq!(f.frame_type, FrameType::Output);
        assert_eq!(f.stream_id, StreamId::Stdout);
        assert_eq!(f.job_id, 3);
        assert_eq!(f.sequence_number, n as u32);
        assert_eq!(f.flags, 0);
        seen.extend_from_slice(&f.payload);
    }
    let last = finish(p.step(eof()));
    assert_eq!(last.flags, FLAG_EOS);
    assert_eq!(last.sequence_number, 3);
    assert!(last.payload.is_empty());
    assert_eq!(seen, b"one two three");
}

#[test]
fn streams_are_numbered_apart() {
    let mut out = pump_stdout(1);
    let mut err = pump_stderr(1);
    output(out.step(data(b"x")));
    output(out.step(data(b"y")));
    let f = output(err.step(data(b"z")));
    assert_eq!(f.stream_id, StreamId::Stderr);
    assert_eq!(f.sequence_number, 0);
}

#[test]
fn nothing_failure_and_cancellation() {
    let mut p = OutputPump::new(2, StreamId::Stderr);
    let nothing = PipeReadResult { data: Vec::new(), bytes_read: 0, is_eof: false };
    assert!(matches!(p.step(PumpEvent::Read(nothing)), PumpStep::ReadOn));
    match p.step(PumpEvent::Failed(Error::Io("bad".to_string()))) {
        PumpStep::Fail(e) => assert_eq!(e.message(), "IO error: bad"),
        _ => panic!("a failure was expected"),
    }
    let f = finish(p.step(PumpEvent::Cancelled));
    assert_eq!(f.flags, FLAG_EOS);
    assert_eq!(f.sequence_number, 0);
}

#[test]
fn channel_errors() {
    assert_eq!(
        channel_error("closed").message(),
        "Protocol error: Failed to send frame to channel: closed"
    );
}
