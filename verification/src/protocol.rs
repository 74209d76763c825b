//! Frames and their payloads.
//!
//! A frame's body is laid out as
//!
//! ```text
//! [1 byte: type] [1 byte: stream_id] [2 bytes: flags]
//! [4 bytes: job_id] [4 bytes: sequence] [variable: payload]
//! ```
//!
//! with the numbers most significant byte first.
use bytes::Bytes;
use vstd::prelude::*;

use crate::byte_buf;
use crate::error::{Error, ErrorView, Result};
use crate::string_map::StringMap;
use crate::text;

verus! {

pub const PROTOCOL_VERSION: u8 = 1;

/// The longest frame that is read.
pub const MAX_FRAME_SIZE: usize = 1_048_576;

/// The longest payload that is written.
pub const MAX_PAYLOAD_SIZE: usize = 32_768;

/// The send window that a stream starts with.
pub const DEFAULT_WINDOW_SIZE: u64 = 65_536;

/// The bytes of a frame before its payload.
pub const HEADER_SIZE: usize = 12;

/// End of stream.
pub const FLAG_EOS: u16 = 0x01;

/// Urgent frame.
pub const FLAG_URGENT: u16 = 0x02;

#[derive(Debug, Clone, Copy, PartialEq, Eq, Structural)]
pub enum FrameType {
    Hello,
    HelloAck,
    Run,
    RunAck,
    Output,
    Status,
    Exit,
    Cancel,
    CancelAck,
    WindowUpdate,
    Error,
    Ping,
    Pong,
    Goodbye,
}

impl FrameType {
    /// The byte that stands for the type on the wire.
    pub open spec fn spec_code(self) -> u8 {
        match self {
            FrameType::Hello => 0x01,
            FrameType::HelloAck => 0x02,
            FrameType::Run => 0x10,
            FrameType::RunAck => 0x11,
            FrameType::Output => 0x20,
            FrameType::Status => 0x30,
            FrameType::Exit => 0x40,
            FrameType::Cancel => 0x50,
            FrameType::CancelAck => 0x51,
            FrameType::WindowUpdate => 0x60,
            FrameType::Error => 0xF0,
            FrameType::Ping => 0xFE,
            FrameType::Pong => 0xFF,
            FrameType::Goodbye => 0xFD,
        }
    }

    /// The byte that stands for the type on the wire.
    pub fn code(self) -> (c: u8)
        ensures
            c == self.spec_code(),
    {
        match self {
            FrameType::Hello => 0x01,
            FrameType::HelloAck => 0x02,
            FrameType::Run => 0x10,
            FrameType::RunAck => 0x11,
            FrameType::Output => 0x20,
            FrameType::Status => 0x30,
            FrameType::Exit => 0x40,
            FrameType::Cancel => 0x50,
            FrameType::CancelAck => 0x51,
            FrameType::WindowUpdate => 0x60,
            FrameType::Error => 0xF0,
            FrameType::Ping => 0xFE,
            FrameType::Pong => 0xFF,
            FrameType::Goodbye => 0xFD,
        }
    }
}

/// The type that stands on the wire as `code`, where there is one.
pub open spec fn frame_type_of(code: u8) -> Option<FrameType> {
    match code {
        0x01 => Some(FrameType::Hello),
        0x02 => Some(FrameType::HelloAck),
        0x10 => Some(FrameType::Run),
        0x11 => Some(FrameType::RunAck),
        0x20 => Some(FrameType::Output),
        0x30 => Some(FrameType::Status),
        0x40 => Some(FrameType::Exit),
        0x50 => Some(FrameType::Cancel),
        0x51 => Some(FrameType::CancelAck),
        0x60 => Some(FrameType::WindowUpdate),
        0xF0 => Some(FrameType::Error),
        0xFD => Some(FrameType::Goodbye),
        0xFE => Some(FrameType::Ping),
        0xFF => Some(FrameType::Pong),
        _ => None,
    }
}

/// What is said of a byte that stands for no frame type.
pub open spec fn unknown_frame_type(code: u8) -> ErrorView {
    ErrorView::Protocol("Unknown frame type: 0x"@ + text::hex_byte(code))
}

impl vstd::std_specs::convert::TryFromSpecImpl<u8> for FrameType {
    open spec fn obeys_try_from_spec() -> bool {
        false
    }

    open spec fn try_from_spec(value: u8) -> std::result::Result<Self, Error> {
        arbitrary()
    }
}

impl TryFrom<u8> for FrameType {
    type Error = Error;

    fn try_from(value: u8) -> (r: std::result::Result<Self, Error>)
        ensures
            r is Ok <==> frame_type_of(value) is Some,
            r matches Ok(t) ==> frame_type_of(value) == Some(t),
            r matches Err(e) ==> e@ == unknown_frame_type(value),
    {
        match value {
            0x01 => Ok(FrameType::Hello),
            0x02 => Ok(FrameType::HelloAck),
            0x10 => Ok(FrameType::Run),
            0x11 => Ok(FrameType::RunAck),
            0x20 => Ok(FrameType::Output),
            0x30 => Ok(FrameType::Status),
            0x40 => Ok(FrameType::Exit),
            0x50 => Ok(FrameType::Cancel),
            0x51 => Ok(FrameType::CancelAck),
            0x60 => Ok(FrameType::WindowUpdate),
            0xF0 => Ok(FrameType::Error),
            0xFD => Ok(FrameType::Goodbye),
            0xFE => Ok(FrameType::Ping),
            0xFF => Ok(FrameType::Pong),
            _ => {
                let mut m = "Unknown frame type: 0x".to_owned();
                m.append(text::hex_byte_text(value).as_str());
                Err(Error::Protocol(m))
            },
        }
    }
}

#[derive(Debug, Clone, Copy, PartialEq, Eq, Structural)]
pub enum StreamId {
    Control,
    Stdout,
    Stderr,
    Stdin,
}

impl StreamId {
    /// The byte that stands for the stream on the wire.
    pub open spec fn spec_code(self) -> u8 {
        match self {
            StreamId::Control => 0,
            StreamId::Stdout => 1,
            StreamId::Stderr => 2,
            StreamId::Stdin => 3,
        }
    }

    /// The byte that stands for the stream on the wire.
    pub fn code(self) -> (c: u8)
        ensures
            c == self.spec_code(),
    {
        match self {
            StreamId::Control => 0,
            StreamId::Stdout => 1,
            StreamId::Stderr => 2,
            StreamId::Stdin => 3,
        }
    }
}

/// The stream that stands on the wire as `code`, where there is one.
pub open spec fn stream_id_of(code: u8) -> Option<StreamId> {
    match code {
        0 => Some(StreamId::Control),
        1 => Some(StreamId::Stdout),
        2 => Some(StreamId::Stderr),
        3 => Some(StreamId::Stdin),
        _ => None,
    }
}

/// What is said of a byte that stands for no stream.
pub open spec fn invalid_stream_id(code: u8) -> ErrorView {
    ErrorView::Protocol("Invalid stream ID: "@ + text::decimal(code as nat))
}

impl vstd::std_specs::convert::TryFromSpecImpl<u8> for StreamId {
    open spec fn obeys_try_from_spec() -> bool {
        false
    }

    open spec fn try_from_spec(value: u8) -> std::result::Result<Self, Error> {
        arbitrary()
    }
}

impl TryFrom<u8> for StreamId {
    type Error = Error;

    fn try_from(value: u8) -> (r: std::result::Result<Self, Error>)
        ensures
            r is Ok <==> stream_id_of(value) is Some,
            r matches Ok(s) ==> stream_id_of(value) == Some(s),
            r matches Err(e) ==> e@ == invalid_stream_id(value),
    {
        match value {
            0 => Ok(StreamId::Control),
            1 => Ok(StreamId::Stdout),
            2 => Ok(StreamId::Stderr),
            3 => Ok(StreamId::Stdin),
            _ => {
                let mut m = "Invalid stream ID: ".to_owned();
                m.append(text::decimal_text(value as u64).as_str());
                Err(Error::Protocol(m))
            },
        }
    }
}

/// One message on the pipe. A `job_id` of 0 means that the frame belongs to no job.
#[derive(Debug)]
pub struct Frame {
    pub frame_type: FrameType,
    pub stream_id: StreamId,
    pub flags: u16,
    pub job_id: u32,
    pub sequence_number: u32,
    pub payload: Bytes,
}

/// A frame with its payload as a sequence of bytes.
#[verifier::ext_equal]
pub struct FrameView {
    pub frame_type: FrameType,
    pub stream_id: StreamId,
    pub flags: u16,
    pub job_id: u32,
    pub sequence_number: u32,
    pub payload: Seq<u8>,
}

impl View for Frame {
    type V = FrameView;

    open spec fn view(&self) -> FrameView {
        FrameView {
            frame_type: self.frame_type,
            stream_id: self.stream_id,
            flags: self.flags,
            job_id: self.job_id,
            sequence_number: self.sequence_number,
            payload: byte_buf::bytes_of(self.payload),
        }
    }
}

impl Clone for Frame {
    fn clone(&self) -> (f: Self)
        ensures
            f@ == self@,
    {
        Frame {
            frame_type: self.frame_type,
            stream_id: self.stream_id,
            flags: self.flags,
            job_id: self.job_id,
            sequence_number: self.sequence_number,
            payload: byte_buf::bytes_clone(&self.payload),
        }
    }
}

impl FrameView {
    /// A frame with nothing but a type and a stream.
    pub open spec fn bare(frame_type: FrameType, stream_id: StreamId) -> FrameView {
        FrameView {
            frame_type,
            stream_id,
            flags: 0,
            job_id: 0,
            sequence_number: 0,
            payload: Seq::empty(),
        }
    }

    /// The bytes of the frame.
    pub open spec fn body(self) -> Seq<u8> {
        seq![self.frame_type.spec_code(), self.stream_id.spec_code()] + byte_buf::be16(self.flags)
            + byte_buf::be32(self.job_id) + byte_buf::be32(self.sequence_number) + self.payload
    }
}

/// What is said of a payload that is too long to be sent.
pub open spec fn payload_too_large(len: nat) -> ErrorView {
    ErrorView::Protocol(
        "Payload too large: "@ + text::decimal(len) + " bytes (max: "@ + text::decimal(
            MAX_PAYLOAD_SIZE as nat,
        ) + ")"@,
    )
}

/// The frame whose body is `data`, for data that is long enough and starts with a type and a
/// stream.
pub open spec fn decoded(data: Seq<u8>) -> FrameView
    recommends
        data.len() >= HEADER_SIZE,
        frame_type_of(data[0]) is Some,
        stream_id_of(data[1]) is Some,
{
    FrameView {
        frame_type: frame_type_of(data[0])->0,
        stream_id: stream_id_of(data[1])->0,
        flags: byte_buf::be16_value(data[2], data[3]),
        job_id: byte_buf::be32_value(data[4], data[5], data[6], data[7]),
        sequence_number: byte_buf::be32_value(data[8], data[9], data[10], data[11]),
        payload: data.skip(HEADER_SIZE as int),
    }
}

fn from_be16(a: u8, b: u8) -> (n: u16)
    ensures
        n == byte_buf::be16_value(a, b),
{
    a as u16 * 256 + b as u16
}

fn from_be32(a: u8, b: u8, c: u8, d: u8) -> (n: u32)
    ensures
        n == byte_buf::be32_value(a, b, c, d),
{
    from_be16(a, b) as u32 * 0x1_0000 + from_be16(c, d) as u32
}

impl Frame {
    pub fn new(frame_type: FrameType, stream_id: StreamId) -> (f: Self)
        ensures
            f@ == FrameView::bare(frame_type, stream_id),
    {
        Frame {
            frame_type,
            stream_id,
            flags: 0,
            job_id: 0,
            sequence_number: 0,
            payload: byte_buf::empty_bytes(),
        }
    }

    pub fn with_job_id(self, job_id: u32) -> (f: Self)
        ensures
            f@ == (FrameView { job_id, ..self@ }),
    {
        Frame { job_id, ..self }
    }

    pub fn with_sequence(self, seq: u32) -> (f: Self)
        ensures
            f@ == (FrameView { sequence_number: seq, ..self@ }),
    {
        Frame { sequence_number: seq, ..self }
    }

    pub fn with_payload(self, payload: Bytes) -> (f: Self)
        ensures
            f@ == (FrameView { payload: byte_buf::bytes_of(payload), ..self@ }),
    {
        Frame { payload, ..self }
    }

    /// Sets the bits of `flag`.
    pub fn with_flag(self, flag: u16) -> (f: Self)
        ensures
            f@ == (FrameView { flags: self.flags | flag, ..self@ }),
    {
        Frame { flags: self.flags | flag, ..self }
    }

    /// Whether a bit of `flag` is set.
    pub fn has_flag(&self, flag: u16) -> (b: bool)
        ensures
            b == (self.flags & flag != 0),
    {
        self.flags & flag != 0
    }

    /// The bytes of the frame. A payload of more than `MAX_PAYLOAD_SIZE` bytes is refused.
    pub fn encode(&self) -> (r: Result<Bytes>)
        ensures
            r is Ok <==> self@.payload.len() <= MAX_PAYLOAD_SIZE,
            r matches Ok(b) ==> byte_buf::bytes_of(b) == self@.body() && byte_buf::bytes_of(b).len()
                <= MAX_FRAME_SIZE,
            r matches Err(e) ==> e@ == payload_too_large(self@.payload.len()),
    {
        let payload_len: usize = byte_buf::bytes_len(&self.payload);
        if payload_len > MAX_PAYLOAD_SIZE {
            let mut m = "Payload too large: ".to_owned();
            m.append(text::decimal_text(payload_len as u64).as_str());
            m.append(" bytes (max: ");
            m.append(text::decimal_text(MAX_PAYLOAD_SIZE as u64).as_str());
            m.append(")");
            return Err(Error::Protocol(m));
        }
        let frame_len: usize = HEADER_SIZE + payload_len;
        let mut buf = byte_buf::buffer_with_capacity(frame_len);
        byte_buf::put_u8(&mut buf, self.frame_type.code());
        byte_buf::put_u8(&mut buf, self.stream_id.code());
        byte_buf::put_u16(&mut buf, self.flags);
        byte_buf::put_u32(&mut buf, self.job_id);
        byte_buf::put_u32(&mut buf, self.sequence_number);
        byte_buf::put_slice(&mut buf, byte_buf::bytes_slice(&self.payload));
        assert(byte_buf::written(buf) =~= self@.body());
        Ok(byte_buf::freeze(buf))
    }

    /// The frame whose body is `data`.
    pub fn decode(data: &[u8]) -> (r: Result<Self>)
        ensures
            r is Ok <==> data@.len() >= HEADER_SIZE && frame_type_of(data@[0]) is Some
                && stream_id_of(data@[1]) is Some,
            r matches Ok(f) ==> f@ == decoded(data@),
            r matches Err(e) ==> e@ == (if data@.len() < HEADER_SIZE {
                ErrorView::Protocol("Frame too short"@)
            } else if frame_type_of(data@[0]) is None {
                unknown_frame_type(data@[0])
            } else {
                invalid_stream_id(data@[1])
            }),
    {
        if data.len() < HEADER_SIZE {
            return Err(Error::Protocol("Frame too short".to_owned()));
        }
        let frame_type = match FrameType::try_from(data[0]) {
            Ok(t) => t,
            Err(e) => return Err(e),
        };
        let stream_id = match StreamId::try_from(data[1]) {
            Ok(s) => s,
            Err(e) => return Err(e),
        };
        let flags: u16 = from_be16(data[2], data[3]);
        let job_id: u32 = from_be32(data[4], data[5], data[6], data[7]);
        let sequence_number: u32 = from_be32(data[8], data[9], data[10], data[11]);
        let payload = byte_buf::copied_bytes(vstd::slice::slice_subrange(data, HEADER_SIZE, data.len()));
        let f = Frame { frame_type, stream_id, flags, job_id, sequence_number, payload };
        assert(f@.payload =~= data@.skip(HEADER_SIZE as int));
        Ok(f)
    }
}

/// The payload of a HELLO frame.
#[derive(Debug, Clone)]
pub struct HelloPayload {
    pub version: u8,
    pub client_id: Option<String>,
}

/// The payload of a HELLO_ACK frame.
#[derive(Debug, Clone)]
pub struct HelloAckPayload {
    pub version: u8,
    pub capabilities: Vec<String>,
}

/// The payload of a RUN frame: what to run, where, with which variables, and for how long.
#[derive(Debug, Clone)]
pub struct RunPayload {
    pub command: String,
    pub working_directory: Option<String>,
    pub environment: Option<StringMap>,
    pub timeout_ms: Option<u64>,
}

/// The payload of a RUN_ACK frame.
#[derive(Debug, Clone, Copy, PartialEq, Eq, Structural)]
pub struct RunAckPayload {
    pub job_id: u32,
}

/// The payload of a STATUS frame.
#[derive(Debug, Clone)]
pub struct StatusPayload {
    pub job_id: u32,
    pub status: String,
}

/// The payload of an EXIT frame.
#[derive(Debug, Clone, Copy, PartialEq, Eq, Structural)]
pub struct ExitPayload {
    pub exit_code: i32,
}

/// The payload of a WINDOW_UPDATE frame.
#[derive(Debug, Clone, Copy, PartialEq, Eq, Structural)]
pub struct WindowUpdatePayload {
    pub stream_id: u8,
    pub bytes_consumed: u64,
}

/// The payload of an ERROR frame.
#[derive(Debug, Clone)]
pub struct ErrorPayload {
    pub job_id: Option<u32>,
    pub error_code: u32,
    pub error_message: String,
}

/// No two frame types, and no two streams, share a byte on the wire, and the byte of a type or a
/// stream stands for it.
pub proof fn law_codes(t: FrameType, s: StreamId, code: u8)
    ensures
        frame_type_of(code) == Some(t) <==> t.spec_code() == code,
        stream_id_of(code) == Some(s) <==> s.spec_code() == code,
{
}

/// Decoding what was encoded gives the frame back.
pub proof fn law_decode_of_encode(f: FrameView)
    ensures
        f.body().len() == HEADER_SIZE + f.payload.len(),
        frame_type_of(f.body()[0]) is Some,
        stream_id_of(f.body()[1]) is Some,
        decoded(f.body()) == f,
{
    let b = f.body();
    law_codes(f.frame_type, f.stream_id, f.frame_type.spec_code());
    law_codes(f.frame_type, f.stream_id, f.stream_id.spec_code());
    assert(b[0] == f.frame_type.spec_code());
    assert(b[1] == f.stream_id.spec_code());
    byte_buf::lemma_be_value(f.flags, f.job_id);
    byte_buf::lemma_be_value(f.flags, f.sequence_number);
    assert(b[2] == byte_buf::be16(f.flags)[0]);
    assert(b[3] == byte_buf::be16(f.flags)[1]);
    assert(b[4] == byte_buf::be32(f.job_id)[0]);
    assert(b[5] == byte_buf::be32(f.job_id)[1]);
    assert(b[6] == byte_buf::be32(f.job_id)[2]);
    assert(b[7] == byte_buf::be32(f.job_id)[3]);
    assert(b[8] == byte_buf::be32(f.sequence_number)[0]);
    assert(b[9] == byte_buf::be32(f.sequence_number)[1]);
    assert(b[10] == byte_buf::be32(f.sequence_number)[2]);
    assert(b[11] == byte_buf::be32(f.sequence_number)[3]);
    assert(b.skip(12) =~= f.payload);
}

/// Encoding what was decoded gives the bytes back.
pub proof fn law_encode_of_decode(data: Seq<u8>)
    requires
        data.len() >= HEADER_SIZE,
        frame_type_of(data[0]) is Some,
        stream_id_of(data[1]) is Some,
    ensures
        decoded(data).body() == data,
{
    let f = decoded(data);
    law_codes(f.frame_type, f.stream_id, data[0]);
    law_codes(f.frame_type, f.stream_id, data[1]);
    byte_buf::lemma_be_bytes(data[2], data[3], 0, 0);
    byte_buf::lemma_be_bytes(data[4], data[5], data[6], data[7]);
    byte_buf::lemma_be_bytes(data[8], data[9], data[10], data[11]);
    assert(f.body() =~= data);
}

/// A flag that was set is seen, and setting it leaves the other flags as they were.
pub proof fn law_flags(flags: u16, flag: u16, other: u16)
    ensures
        flag != 0 ==> (flags | flag) & flag != 0,
        flag & other == 0 ==> (flags | flag) & other == flags & other,
{
    assert(flag != 0 ==> (flags | flag) & flag != 0) by (bit_vector);
    assert(flag & other == 0 ==> (flags | flag) & other == flags & other) by (bit_vector);
}

/// The bytes that stand for the types of frames and for the streams.
pub proof fn law_wire_codes(t: FrameType, s: StreamId)
    ensures
        t.spec_code() == (match t {
            FrameType::Hello => 0x01u8,
            FrameType::HelloAck => 0x02u8,
            FrameType::Run => 0x10u8,
            FrameType::RunAck => 0x11u8,
            FrameType::Output => 0x20u8,
            FrameType::Status => 0x30u8,
            FrameType::Exit => 0x40u8,
            FrameType::Cancel => 0x50u8,
            FrameType::CancelAck => 0x51u8,
            FrameType::WindowUpdate => 0x60u8,
            FrameType::Error => 0xF0u8,
            FrameType::Goodbye => 0xFDu8,
            FrameType::Ping => 0xFEu8,
            FrameType::Pong => 0xFFu8,
        }),
        s is Control ==> s.spec_code() == 0,
        s is Stdout ==> s.spec_code() == 1,
        s is Stderr ==> s.spec_code() == 2,
        s is Stdin ==> s.spec_code() == 3,
{
}

/// Which bytes stand for no type and for no stream, and what is said of them.
pub proof fn law_unknown_codes(code: u8)
    ensures
        frame_type_of(code) is None <==> !(code == 0x01 || code == 0x02 || code == 0x10 || code
            == 0x11 || code == 0x20 || code == 0x30 || code == 0x40 || code == 0x50 || code == 0x51
            || code == 0x60 || code == 0xF0 || code >= 0xFD),
        stream_id_of(code) is None <==> code > 3,
        unknown_frame_type(code) == ErrorView::Protocol(
            "Unknown frame type: 0x"@ + text::hex_byte(code),
        ),
        invalid_stream_id(code) == ErrorView::Protocol(
            "Invalid stream ID: "@ + text::decimal(code as nat),
        ),
{
}

/// Where everything stands in the bytes of a frame: type, stream, flags, job, sequence number, and
/// from the twelfth byte on the payload, whole. Numbers have their most significant byte first.
pub proof fn law_layout(f: FrameView)
    ensures
        ({
            let b = f.body();
            &&& b.len() == 12 + f.payload.len()
            &&& b[0] == f.frame_type.spec_code()
            &&& b[1] == f.stream_id.spec_code()
            &&& b[2] * 256 + b[3] == f.flags
            &&& b[4] * 16777216 + b[5] * 65536 + b[6] * 256 + b[7] == f.job_id
            &&& b[8] * 16777216 + b[9] * 65536 + b[10] * 256 + b[11] == f.sequence_number
            &&& b.subrange(12, b.len() as int) == f.payload
        }),
{
    let b = f.body();
    byte_buf::law_byte_order(f.flags, f.job_id, 0, 0, 0, 0);
    byte_buf::law_byte_order(f.flags, f.sequence_number, 0, 0, 0, 0);
    assert(b[2] == byte_buf::be16(f.flags)[0]);
    assert(b[3] == byte_buf::be16(f.flags)[1]);
    assert(b[4] == byte_buf::be32(f.job_id)[0]);
    assert(b[5] == byte_buf::be32(f.job_id)[1]);
    assert(b[6] == byte_buf::be32(f.job_id)[2]);
    assert(b[7] == byte_buf::be32(f.job_id)[3]);
    assert(b[8] == byte_buf::be32(f.sequence_number)[0]);
    assert(b[9] == byte_buf::be32(f.sequence_number)[1]);
    assert(b[10] == byte_buf::be32(f.sequence_number)[2]);
    assert(b[11] == byte_buf::be32(f.sequence_number)[3]);
    assert(b.subrange(12, b.len() as int) =~= f.payload);
}

/// What a frame is read as, byte by byte.
pub proof fn law_decoded(data: Seq<u8>)
    requires
        data.len() >= 12,
        frame_type_of(data[0]) is Some,
        stream_id_of(data[1]) is Some,
    ensures
        ({
            let f = decoded(data);
            &&& f.frame_type.spec_code() == data[0]
            &&& f.stream_id.spec_code() == data[1]
            &&& f.flags == data[2] * 256 + data[3]
            &&& f.job_id == data[4] * 16777216 + data[5] * 65536 + data[6] * 256 + data[7]
            &&& f.sequence_number == data[8] * 16777216 + data[9] * 65536 + data[10] * 256
                + data[11]
            &&& f.payload == data.subrange(12, data.len() as int)
        }),
{
    let f = decoded(data);
    law_codes(f.frame_type, f.stream_id, data[0]);
    law_codes(f.frame_type, f.stream_id, data[1]);
    byte_buf::law_byte_order(0, 0, data[2], data[3], 0, 0);
    byte_buf::law_byte_order(0, 0, data[4], data[5], data[6], data[7]);
    byte_buf::law_byte_order(0, 0, data[8], data[9], data[10], data[11]);
    assert(f.payload =~= data.subrange(12, data.len() as int));
}

/// A frame starts out as its type and its stream alone.
pub proof fn law_bare_frame(frame_type: FrameType, stream_id: StreamId)
    ensures
        ({
            let f = FrameView::bare(frame_type, stream_id);
            &&& f.frame_type == frame_type
            &&& f.stream_id == stream_id
            &&& f.flags == 0
            &&& f.job_id == 0
            &&& f.sequence_number == 0
            &&& f.payload.len() == 0
        }),
{
}

/// What is said of a payload that is too long says how long it is and may be.
pub proof fn law_payload_too_large(len: nat)
    ensures
        payload_too_large(len) == ErrorView::Protocol(
            "Payload too large: "@ + text::decimal(len) + " bytes (max: "@ + text::decimal(32768)
                + ")"@,
        ),
{
}

} // verus!
