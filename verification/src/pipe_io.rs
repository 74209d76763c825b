//! Frames on the pipe.
//!
//! On the pipe every frame follows its length, in four bytes, least significant first; the length
//! does not count its own four bytes. Frames look the same in both directions.
use vstd::prelude::*;

use crate::byte_buf;
use crate::error::{Error, ErrorView, Result};
use crate::protocol;
use crate::protocol::{Frame, FrameView, HEADER_SIZE, MAX_FRAME_SIZE, MAX_PAYLOAD_SIZE};
use crate::text;

verus! {

/// The bytes of the length before a frame.
pub const LENGTH_SIZE: usize = 4;

/// The code of a call that failed since the other end of the pipe is closed.
pub const HRESULT_BROKEN_PIPE: i32 = -2147024787;

/// The code of a read that left part of a message in the pipe.
pub const HRESULT_MORE_DATA: i32 = -2147024662;

/// The code of a wait for a client that was already there.
pub const HRESULT_PIPE_CONNECTED: i32 = -2147024361;

/// The length that `received` starts with.
pub open spec fn announced(received: Seq<u8>) -> nat
    recommends
        received.len() >= LENGTH_SIZE,
{
    byte_buf::be32_value(received[3], received[2], received[1], received[0]) as nat
}

/// Where the reading of a frame stands.
pub enum Reading {
    /// More bytes are needed.
    Pending,
    /// The frame is there.
    Done(FrameView),
    /// What was read is no frame.
    Bad(ErrorView),
}

/// What is said of a frame whose length is 0.
pub open spec fn zero_length() -> ErrorView {
    ErrorView::Protocol("Invalid frame length: 0"@)
}

/// What is said of a frame that is longer than any frame may be.
pub open spec fn frame_too_large(len: nat) -> ErrorView {
    ErrorView::Protocol("Frame too large: "@ + text::decimal(len) + " bytes"@)
}

/// What is said of a frame that is too short for its header.
pub open spec fn frame_too_small(len: nat) -> ErrorView {
    ErrorView::Protocol("Frame too small: "@ + text::decimal(len) + " bytes (min: 12)"@)
}

/// What a complete body is read as.
pub open spec fn body_reading(body: Seq<u8>) -> Reading {
    if body.len() < HEADER_SIZE {
        Reading::Bad(frame_too_small(body.len()))
    } else if protocol::frame_type_of(body[0]) is None {
        Reading::Bad(protocol::unknown_frame_type(body[0]))
    } else if protocol::stream_id_of(body[1]) is None {
        Reading::Bad(protocol::invalid_stream_id(body[1]))
    } else {
        Reading::Done(protocol::decoded(body))
    }
}

/// Where the reading of a frame stands when `received` has come in.
pub open spec fn reading(received: Seq<u8>) -> Reading {
    if received.len() < LENGTH_SIZE {
        Reading::Pending
    } else if announced(received) == 0 {
        Reading::Bad(zero_length())
    } else if announced(received) > MAX_FRAME_SIZE {
        Reading::Bad(frame_too_large(announced(received)))
    } else if received.len() < LENGTH_SIZE + announced(received) {
        Reading::Pending
    } else {
        body_reading(received.skip(LENGTH_SIZE as int))
    }
}

/// How many bytes to ask for next: the rest of the length, or the rest of the frame.
pub open spec fn missing(received: Seq<u8>) -> int {
    if received.len() < LENGTH_SIZE {
        LENGTH_SIZE - received.len()
    } else {
        LENGTH_SIZE + announced(received) - received.len()
    }
}

/// What is said when the pipe ends after `received`.
pub open spec fn cut_short(received: Seq<u8>) -> ErrorView {
    if received.len() < LENGTH_SIZE {
        ErrorView::Protocol("Failed to read frame length (EOF or disconnect)"@)
    } else {
        ErrorView::Protocol(
            "Incomplete frame read: got "@ + text::decimal((received.len() - LENGTH_SIZE) as nat)
                + " bytes, expected "@ + text::decimal(announced(received)),
        )
    }
}

/// What came of handing bytes to a reader.
pub enum FrameRead {
    /// The frame is not complete yet.
    More,
    /// A frame.
    Complete(Frame),
    /// No frame can be read any more.
    Failed(Error),
}

/// Collects the bytes of one frame after the other.
pub struct FrameReader {
    received: Vec<u8>,
}

impl View for FrameReader {
    type V = Seq<u8>;

    /// The bytes of the frame that is being read.
    closed spec fn view(&self) -> Seq<u8> {
        self.received@
    }
}

fn read_le32(a: u8, b: u8, c: u8, d: u8) -> (n: u32)
    ensures
        n == byte_buf::be32_value(d, c, b, a),
{
    let low: u32 = b as u32 * 256 + a as u32;
    let high: u32 = d as u32 * 256 + c as u32;
    high * 0x1_0000 + low
}

/// Reads a complete frame body.
pub fn parse_body(body: &[u8]) -> (r: Result<Frame>)
    ensures
        match body_reading(body@) {
            Reading::Done(f) => r matches Ok(g) && g@ == f,
            Reading::Bad(e) => r matches Err(d) && d@ == e,
            Reading::Pending => false,
        },
{
    if body.len() < HEADER_SIZE {
        let mut m = "Frame too small: ".to_owned();
        m.append(text::decimal_text(body.len() as u64).as_str());
        m.append(" bytes (min: 12)");
        return Err(Error::Protocol(m));
    }
    Frame::decode(body)
}

impl FrameReader {
    #[verifier::type_invariant]
    spec fn unfinished(self) -> bool {
        reading(self.received@) is Pending
    }

    /// A reader that waits for the length of the first frame.
    pub fn new() -> (reader: Self)
        ensures
            reader@ == Seq::<u8>::empty(),
    {
        FrameReader { received: Vec::new() }
    }

    /// How many bytes to ask the pipe for. There is always at least one.
    pub fn remaining(&self) -> (n: usize)
        ensures
            n == missing(self@),
            n > 0,
    {
        proof {
            use_type_invariant(self);
        }
        let have: usize = self.received.len();
        if have < LENGTH_SIZE {
            LENGTH_SIZE - have
        } else {
            let len: u32 = read_le32(
                self.received[0],
                self.received[1],
                self.received[2],
                self.received[3],
            );
            LENGTH_SIZE + len as usize - have
        }
    }

    /// Takes what the pipe gave. An empty chunk means that the pipe has ended.
    pub fn feed(&mut self, chunk: Vec<u8>) -> (r: FrameRead)
        requires
            chunk@.len() <= missing(old(self)@),
        ensures
            chunk@.len() == 0 ==> {
                &&& r matches FrameRead::Failed(e) && e@ == cut_short(old(self)@)
                &&& final(self)@ == Seq::<u8>::empty()
            },
            chunk@.len() > 0 ==> match reading(old(self)@ + chunk@) {
                Reading::Pending => r is More && final(self)@ == old(self)@ + chunk@,
                Reading::Done(f) => {
                    &&& r matches FrameRead::Complete(g) && g@ == f
                    &&& final(self)@ == Seq::<u8>::empty()
                },
                Reading::Bad(e) => {
                    &&& r matches FrameRead::Failed(d) && d@ == e
                    &&& final(self)@ == Seq::<u8>::empty()
                },
            },
    {
        proof {
            use_type_invariant(&*self);
        }
        if chunk.len() == 0 {
            return FrameRead::Failed(self.end());
        }
        let ghost all = self@ + chunk@;
        let mut bytes: Vec<u8> = Vec::new();
        std::mem::swap(&mut bytes, &mut self.received);
        let mut chunk = chunk;
        bytes.append(&mut chunk);
        assert(bytes@ == all);
        if bytes.len() < LENGTH_SIZE {
            self.received = bytes;
            return FrameRead::More;
        }
        let len: u32 = read_le32(bytes[0], bytes[1], bytes[2], bytes[3]);
        if len == 0 {
            return FrameRead::Failed(Error::Protocol("Invalid frame length: 0".to_owned()));
        }
        if len as usize > MAX_FRAME_SIZE {
            let mut m = "Frame too large: ".to_owned();
            m.append(text::decimal_text(len as u64).as_str());
            m.append(" bytes");
            return FrameRead::Failed(Error::Protocol(m));
        }
        if bytes.len() < LENGTH_SIZE + len as usize {
            self.received = bytes;
            return FrameRead::More;
        }
        let body = vstd::slice::slice_subrange(bytes.as_slice(), LENGTH_SIZE, bytes.len());
        assert(body@ =~= all.skip(LENGTH_SIZE as int));
        match parse_body(body) {
            Ok(f) => FrameRead::Complete(f),
            Err(e) => FrameRead::Failed(e),
        }
    }

    /// The pipe has ended, or the peer has closed it: the frame that was being read is lost.
    pub fn end(&mut self) -> (e: Error)
        ensures
            e@ == cut_short(old(self)@),
            final(self)@ == Seq::<u8>::empty(),
    {
        proof {
            use_type_invariant(&*self);
        }
        let mut bytes: Vec<u8> = Vec::new();
        std::mem::swap(&mut bytes, &mut self.received);
        if bytes.len() < LENGTH_SIZE {
            Error::Protocol("Failed to read frame length (EOF or disconnect)".to_owned())
        } else {
            let len: u32 = read_le32(bytes[0], bytes[1], bytes[2], bytes[3]);
            let mut m = "Incomplete frame read: got ".to_owned();
            m.append(text::decimal_text((bytes.len() - LENGTH_SIZE) as u64).as_str());
            m.append(" bytes, expected ");
            m.append(text::decimal_text(len as u64).as_str());
            Error::Protocol(m)
        }
    }

    /// Reading from the pipe has failed with `reason`.
    pub fn fail(&mut self, reason: &str) -> (e: Error)
        ensures
            e@ == ErrorView::Protocol("Pipe read error: "@ + reason@),
            final(self)@ == Seq::<u8>::empty(),
    {
        self.received = Vec::new();
        Error::Protocol(text::joined("Pipe read error: ", reason))
    }

    /// The task that reads from the pipe has failed with `reason`.
    pub fn task_failed(&mut self, reason: &str) -> (e: Error)
        ensures
            e@ == ErrorView::Protocol("Spawn blocking failed: "@ + reason@),
            final(self)@ == Seq::<u8>::empty(),
    {
        self.received = Vec::new();
        Error::Protocol(text::joined("Spawn blocking failed: ", reason))
    }
}

/// A frame as the agent puts it on the pipe.
pub open spec fn wire(f: FrameView) -> Seq<u8> {
    byte_buf::le32(f.body().len() as u32) + f.body()
}

/// The bytes that put `frame` on the pipe. A payload of more than `MAX_PAYLOAD_SIZE` bytes is
/// refused.
pub fn wire_frame(frame: &Frame) -> (r: Result<Vec<u8>>)
    ensures
        r is Ok <==> frame@.payload.len() <= MAX_PAYLOAD_SIZE,
        r matches Ok(v) ==> v@ == wire(frame@),
        r matches Err(e) ==> e@ == protocol::payload_too_large(frame@.payload.len()),
{
    let body = match frame.encode() {
        Ok(b) => b,
        Err(e) => return Err(e),
    };
    let len: u32 = byte_buf::bytes_len(&body) as u32;
    let mut v: Vec<u8> = Vec::new();
    v.push((len % 0x1_0000 % 256) as u8);
    v.push((len % 0x1_0000 / 256) as u8);
    v.push((len / 0x1_0000 % 256) as u8);
    v.push((len / 0x1_0000 / 256) as u8);
    assert(v@ =~= byte_buf::le32(len));
    let mut rest = vstd::slice::slice_to_vec(byte_buf::bytes_slice(&body));
    v.append(&mut rest);
    Ok(v)
}

/// Bytes on their way into the pipe.
pub struct PipeWrite {
    data: Vec<u8>,
    total_written: usize,
}

impl View for PipeWrite {
    type V = Seq<u8>;

    /// The bytes that are still to be written.
    closed spec fn view(&self) -> Seq<u8> {
        self.data@.skip(self.total_written as int)
    }
}

impl PipeWrite {
    #[verifier::type_invariant]
    spec fn in_bounds(self) -> bool {
        self.total_written <= self.data@.len()
    }

    /// All the bytes that were to be written.
    pub closed spec fn all(self) -> Seq<u8> {
        self.data@
    }

    /// The bytes that the pipe has taken.
    pub closed spec fn taken(self) -> Seq<u8> {
        self.data@.take(self.total_written as int)
    }

    /// Nothing of `data` is written yet.
    pub fn new(data: Vec<u8>) -> (w: Self)
        ensures
            w@ == data@,
            w.all() == data@,
            w.taken() == Seq::<u8>::empty(),
    {
        let w = PipeWrite { data, total_written: 0 };
        assert(w@ =~= w.data@);
        assert(w.taken() =~= Seq::<u8>::empty());
        w
    }

    /// The bytes to hand to the pipe next. Where there are none, all is written.
    pub fn pending(&self) -> (s: &[u8])
        ensures
            s@ == self@,
    {
        proof {
            use_type_invariant(self);
        }
        let s = vstd::slice::slice_subrange(
            self.data.as_slice(),
            self.total_written,
            self.data.len(),
        );
        assert(s@ =~= self@);
        s
    }

    /// The pipe has taken the first `bytes_written` of the pending bytes. Gives the number of bytes
    /// written in all once nothing is left.
    pub fn advance(&mut self, bytes_written: usize) -> (r: Option<usize>)
        requires
            bytes_written <= old(self)@.len(),
        ensures
            final(self)@ == old(self)@.skip(bytes_written as int),
            final(self).taken() == old(self).taken() + old(self)@.take(bytes_written as int),
            final(self).all() == old(self).all(),
            r is Some <==> final(self)@.len() == 0,
            r matches Some(n) ==> n == old(self).all().len(),
    {
        proof {
            use_type_invariant(&*self);
        }
        let ghost before = *self;
        let len: usize = self.data.len();
        assert(self.total_written + bytes_written <= len);
        self.total_written = self.total_written + bytes_written;
        assert(self@ =~= before@.skip(bytes_written as int));
        assert(self.taken() =~= before.taken() + before@.take(bytes_written as int));
        if self.total_written == len {
            Some(self.total_written)
        } else {
            None
        }
    }
}

/// The error of a write that the pipe refused for `reason`.
pub fn write_error(code: i32, reason: &str) -> (e: Error)
    ensures
        e@ == (if code == HRESULT_BROKEN_PIPE {
            ErrorView::Protocol("Pipe broken (client disconnect)"@)
        } else {
            ErrorView::Protocol("Pipe write error: "@ + reason@)
        }),
{
    if code == HRESULT_BROKEN_PIPE {
        Error::Protocol("Pipe broken (client disconnect)".to_owned())
    } else {
        Error::Protocol(text::joined("Pipe write error: ", reason))
    }
}

proof fn lemma_announced(len: u32, rest: Seq<u8>)
    ensures
        announced(byte_buf::le32(len) + rest) == len,
{
    let b = byte_buf::le32(len) + rest;
    byte_buf::lemma_be_value(0, len);
    assert(b[0] == byte_buf::be32(len)[3]);
    assert(b[1] == byte_buf::be32(len)[2]);
    assert(b[2] == byte_buf::be32(len)[1]);
    assert(b[3] == byte_buf::be32(len)[0]);
}

proof fn lemma_announced_prefix(received: Seq<u8>, k: int)
    requires
        LENGTH_SIZE <= k <= received.len(),
    ensures
        announced(received.take(k)) == announced(received),
{
}

/// A frame that is put on the pipe is read back as that frame, whatever its type, flags, job,
/// sequence number and payload are. While any byte of it is missing the reader waits for more.
pub proof fn law_frames_are_read_back(f: FrameView, k: int)
    requires
        HEADER_SIZE + f.payload.len() <= MAX_FRAME_SIZE,
        0 <= k < wire(f).len(),
    ensures
        reading(wire(f)) == Reading::Done(f),
        reading(wire(f).take(k)) is Pending,
{
    let w = wire(f);
    protocol::law_decode_of_encode(f);
    lemma_announced(f.body().len() as u32, f.body());
    let n = f.body().len();
    assert(n == HEADER_SIZE + f.payload.len());
    assert(w.len() == LENGTH_SIZE + n);
    assert(announced(w) == n);
    assert(w.skip(LENGTH_SIZE as int) =~= f.body());
    assert(body_reading(f.body()) == Reading::Done(f));
    assert(reading(w) == body_reading(f.body()));
    if k >= LENGTH_SIZE {
        lemma_announced_prefix(w, k);
        assert(w.take(k).len() == k);
        assert(announced(w.take(k)) == n);
    }
}

/// Every frame that is written can be read: a payload that is short enough to be written is short
/// enough to be read.
pub proof fn law_written_frames_are_read_back(f: FrameView)
    requires
        f.payload.len() <= MAX_PAYLOAD_SIZE,
    ensures
        reading(wire(f)) == Reading::Done(f),
{
    law_frames_are_read_back(f, 0);
}

/// A frame that was read is put on the pipe as the bytes that it was read from.
pub proof fn law_read_frames_are_written_back(received: Seq<u8>, f: FrameView)
    requires
        received.len() == LENGTH_SIZE + announced(received),
        reading(received) == Reading::Done(f),
    ensures
        wire(f) == received,
{
    let body = received.skip(LENGTH_SIZE as int);
    protocol::law_encode_of_decode(body);
    byte_buf::lemma_be_bytes(received[3], received[2], received[1], received[0]);
    assert(f.body().len() as u32 == announced(received) as u32);
    assert(byte_buf::le32(announced(received) as u32) =~= received.take(LENGTH_SIZE as int));
    assert(wire(f) =~= received);
}

/// How a frame stands on the pipe: the length of its bytes, least significant first, and its bytes.
pub proof fn law_wire(f: FrameView)
    requires
        12 + f.payload.len() <= u32::MAX,
    ensures
        wire(f).len() == 16 + f.payload.len(),
        wire(f)[0] + wire(f)[1] * 256 + wire(f)[2] * 65536 + wire(f)[3] * 16777216 == 12
            + f.payload.len(),
        wire(f).subrange(4, wire(f).len() as int) == f.body(),
        wire(f).subrange(16, wire(f).len() as int) == f.payload,
{
    protocol::law_layout(f);
    let n = f.body().len() as u32;
    byte_buf::law_byte_order(0, n, 0, 0, 0, 0);
    let w = wire(f);
    let l = byte_buf::le32(n);
    assert(w[0] == l[0] && w[1] == l[1] && w[2] == l[2] && w[3] == l[3]);
    assert(w.subrange(4, w.len() as int) =~= f.body());
    assert(w.subrange(16, w.len() as int) =~= f.body().subrange(12, f.body().len() as int));
}

/// What comes of bytes from the pipe. The first four are the length, least significant first. A
/// length of 0, or over 1048576, is refused as soon as it is known. Until as many bytes have come as
/// it says, more are waited for. Then those after the length are a frame, unless they are fewer than
/// twelve or their first two stand for no type or no stream.
pub proof fn law_reading(received: Seq<u8>)
    ensures
        received.len() < 4 ==> reading(received) is Pending,
        received.len() >= 4 ==> {
            let n = received[0] + received[1] * 256 + received[2] * 65536 + received[3] * 16777216;
            let body = received.subrange(4, received.len() as int);
            &&& n == 0 ==> reading(received) == Reading::Bad(
                ErrorView::Protocol("Invalid frame length: 0"@),
            )
            &&& n > 1048576 ==> reading(received) == Reading::Bad(
                ErrorView::Protocol("Frame too large: "@ + text::decimal(n as nat) + " bytes"@),
            )
            &&& 0 < n <= 1048576 && body.len() < n ==> reading(received) is Pending
            &&& 0 < n <= 1048576 && body.len() >= n ==> {
                &&& body.len() < 12 ==> reading(received) == Reading::Bad(
                    ErrorView::Protocol(
                        "Frame too small: "@ + text::decimal(body.len()) + " bytes (min: 12)"@,
                    ),
                )
                &&& body.len() >= 12 && protocol::frame_type_of(body[0]) is None ==> reading(received)
                    == Reading::Bad(protocol::unknown_frame_type(body[0]))
                &&& body.len() >= 12 && protocol::frame_type_of(body[0]) is Some
                    && protocol::stream_id_of(body[1]) is None ==> reading(received)
                    == Reading::Bad(protocol::invalid_stream_id(body[1]))
                &&& body.len() >= 12 && protocol::frame_type_of(body[0]) is Some
                    && protocol::stream_id_of(body[1]) is Some ==> {
                    &&& reading(received) matches Reading::Done(f)
                    &&& f.frame_type.spec_code() == body[0]
                    &&& f.stream_id.spec_code() == body[1]
                    &&& f.flags == body[2] * 256 + body[3]
                    &&& f.job_id == body[4] * 16777216 + body[5] * 65536 + body[6] * 256 + body[7]
                    &&& f.sequence_number == body[8] * 16777216 + body[9] * 65536 + body[10] * 256
                        + body[11]
                    &&& f.payload == body.subrange(12, body.len() as int)
                }
            }
        },
{
    if received.len() >= 4 {
        byte_buf::law_byte_order(0, 0, received[3], received[2], received[1], received[0]);
        let body = received.subrange(4, received.len() as int);
        assert(body =~= received.skip(LENGTH_SIZE as int));
        if body.len() >= 12 && protocol::frame_type_of(body[0]) is Some && protocol::stream_id_of(
            body[1],
        ) is Some {
            protocol::law_decoded(body);
        }
    }
}

/// What is asked of the pipe is exactly what is missing: of the length first, and then of the frame.
/// With that much more, and no less, the frame can be read.
pub proof fn law_missing(received: Seq<u8>, more: Seq<u8>)
    requires
        reading(received) is Pending,
        received.len() >= 4,
    ensures
        received.len() + missing(received) == 4 + received[0] + received[1] * 256 + received[2]
            * 65536 + received[3] * 16777216,
        missing(received) > 0,
        more.len() < missing(received) ==> reading(received + more) is Pending,
        more.len() == missing(received) ==> !(reading(received + more) is Pending),
{
    byte_buf::law_byte_order(0, 0, received[3], received[2], received[1], received[0]);
    let all = received + more;
    assert(all[0] == received[0] && all[1] == received[1] && all[2] == received[2] && all[3]
        == received[3]);
}

/// Before the length is known, what is missing is the rest of its four bytes.
pub proof fn law_missing_length(received: Seq<u8>)
    requires
        received.len() < 4,
    ensures
        received.len() + missing(received) == 4,
{
}

/// What is said when the pipe ends in the middle of a frame.
pub proof fn law_cut_short(received: Seq<u8>)
    ensures
        received.len() < 4 ==> cut_short(received) == ErrorView::Protocol(
            "Failed to read frame length (EOF or disconnect)"@,
        ),
        received.len() >= 4 ==> cut_short(received) == ErrorView::Protocol(
            "Incomplete frame read: got "@ + text::decimal((received.len() - 4) as nat)
                + " bytes, expected "@ + text::decimal(
                (received[0] + received[1] * 256 + received[2] * 65536 + received[3]
                    * 16777216) as nat,
            ),
        ),
{
    if received.len() >= 4 {
        byte_buf::law_byte_order(0, 0, received[3], received[2], received[1], received[0]);
    }
}

} // verus!
