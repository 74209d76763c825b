//! Copying a process's output into frames, no faster than the client takes it.
use vstd::prelude::*;

use crate::byte_buf;
use crate::error::{Error, ErrorView, Result};
use crate::pipe_io::{HRESULT_BROKEN_PIPE, HRESULT_MORE_DATA};
use crate::protocol::{Frame, FrameType, FrameView, StreamId, FLAG_EOS};

verus! {

/// The send window of one stream.
pub struct StreamPump {
    send_window: u64,
    bytes_in_flight: u64,
    drop_policy: bool,
}

/// What a send window stands at.
pub struct WindowView {
    /// How many bytes may be in flight.
    pub window: u64,
    /// How many bytes were sent and not yet acknowledged.
    pub in_flight: u64,
    /// Whether frames that do not fit are forgotten.
    pub drops: bool,
}

/// A window when `bytes_consumed` more bytes are acknowledged.
pub open spec fn acknowledged(w: WindowView, bytes_consumed: u64) -> WindowView {
    WindowView {
        window: w.window.wrapping_add(bytes_consumed),
        in_flight: still_in_flight(w.in_flight, bytes_consumed),
        drops: w.drops,
    }
}

/// What to do with a frame of `len` bytes.
pub open spec fn decision(w: WindowView, len: nat) -> SendDecision {
    if w.in_flight + len <= w.window {
        SendDecision::Send
    } else if w.drops {
        SendDecision::Discard
    } else {
        SendDecision::Wait
    }
}

/// A window after that decision about a frame of `len` bytes.
pub open spec fn decided(w: WindowView, len: nat) -> WindowView {
    if decision(w, len) is Send {
        WindowView { in_flight: (w.in_flight + len) as u64, ..w }
    } else {
        w
    }
}

impl View for StreamPump {
    type V = WindowView;

    open spec fn view(&self) -> WindowView {
        WindowView { window: self.window(), in_flight: self.in_flight(), drops: self.drops() }
    }
}

/// What to do with a frame.
#[derive(Debug, Clone, Copy, PartialEq, Eq, Structural)]
pub enum SendDecision {
    /// Send it now; its bytes are in flight.
    Send,
    /// Forget it.
    Discard,
    /// Ask again when the window has changed.
    Wait,
}

/// What is left of `in_flight` bytes when `bytes_consumed` bytes are acknowledged.
pub open spec fn still_in_flight(in_flight: u64, bytes_consumed: u64) -> u64 {
    if bytes_consumed <= in_flight {
        (in_flight - bytes_consumed) as u64
    } else {
        0
    }
}

impl StreamPump {
    /// How many bytes may be in flight.
    pub closed spec fn window(self) -> u64 {
        self.send_window
    }

    /// How many bytes were sent and not yet acknowledged.
    pub closed spec fn in_flight(self) -> u64 {
        self.bytes_in_flight
    }

    /// Whether frames that do not fit are forgotten.
    pub closed spec fn drops(self) -> bool {
        self.drop_policy
    }

    pub fn new(initial_window: u64, drop_policy: bool) -> (p: Self)
        ensures
            p@ == (WindowView { window: initial_window, in_flight: 0, drops: drop_policy }),
    {
        StreamPump { send_window: initial_window, bytes_in_flight: 0, drop_policy }
    }

    /// The client has consumed `bytes_consumed` bytes: the window grows by them, and they are no
    /// longer in flight. Whoever waits for the window is to ask again.
    pub fn update_window(&mut self, bytes_consumed: u64)
        ensures
            final(self)@ == acknowledged(old(self)@, bytes_consumed),
    {
        self.send_window = self.send_window.wrapping_add(bytes_consumed);
        let acknowledged: u64 = if bytes_consumed <= self.bytes_in_flight {
            bytes_consumed
        } else {
            self.bytes_in_flight
        };
        self.bytes_in_flight = self.bytes_in_flight - acknowledged;
    }

    /// Decides about a frame. Where it is to be sent, its payload is in flight from now on.
    pub fn try_send_frame(&mut self, frame: &Frame) -> (d: SendDecision)
        ensures
            d == decision(old(self)@, frame@.payload.len()),
            final(self)@ == decided(old(self)@, frame@.payload.len()),
    {
        let data_len: u64 = byte_buf::bytes_len(&frame.payload) as u64;
        if self.bytes_in_flight <= self.send_window && data_len <= self.send_window
            - self.bytes_in_flight {
            self.bytes_in_flight = self.bytes_in_flight + data_len;
            SendDecision::Send
        } else if self.drop_policy {
            SendDecision::Discard
        } else {
            SendDecision::Wait
        }
    }
}

/// The error of a frame that could not be handed to the task that writes frames.
pub fn channel_error(reason: &str) -> (e: Error)
    ensures
        e@ == ErrorView::Protocol("Failed to send frame to channel: "@ + reason@),
{
    Error::Protocol(crate::text::joined("Failed to send frame to channel: ", reason))
}

/// What a read from a process's pipe gave.
#[derive(Debug)]
pub struct PipeReadResult {
    pub data: Vec<u8>,
    pub bytes_read: usize,
    pub is_eof: bool,
}

/// The other end of the pipe is closed, or a read gave nothing.
pub open spec fn at_end(bytes_read: u32, failure: Option<(i32, String)>) -> bool {
    match failure {
        None => bytes_read == 0,
        Some((code, _)) => code == HRESULT_BROKEN_PIPE,
    }
}

/// What to make of a read into `buffer` that reported `bytes_read` bytes and, where it failed, the
/// code and the reason `failure`. The other end being closed is the end of the stream; more data
/// waiting is no failure; any other failure is an error.
pub fn read_result(buffer: Vec<u8>, bytes_read: u32, failure: Option<(i32, String)>) -> (r: Result<
    PipeReadResult,
>)
    ensures
        r is Err <==> (failure matches Some((code, _)) && code != HRESULT_BROKEN_PIPE && code
            != HRESULT_MORE_DATA),
        r matches Err(e) ==> (failure matches Some((_, reason)) && e@ == ErrorView::Io(reason@)),
        r matches Ok(p) ==> (p.is_eof <==> (failure matches Some((code, _)) && code
            == HRESULT_BROKEN_PIPE) || (failure is None && bytes_read == 0)),
        r matches Ok(p) ==> (!p.is_eof && bytes_read <= buffer@.len() ==> p.data@
            == buffer@.subrange(0, bytes_read as int) && p.bytes_read == bytes_read),
        r matches Ok(p) ==> (p.is_eof ==> p.data@.len() == 0 && p.bytes_read == 0),
        r matches Ok(p) ==> {
            let eof = at_end(bytes_read, failure);
            &&& p.is_eof == eof
            &&& p.bytes_read == (if eof {
                0
            } else {
                bytes_read as int
            })
            &&& p.data@ == (if eof {
                Seq::empty()
            } else if bytes_read <= buffer@.len() {
                buffer@.take(bytes_read as int)
            } else {
                buffer@
            })
        },
{
    let mut buffer = buffer;
    match failure {
        None => {
            if bytes_read == 0 {
                return Ok(PipeReadResult { data: Vec::new(), bytes_read: 0, is_eof: true });
            }
        },
        Some((code, reason)) => {
            if code == HRESULT_BROKEN_PIPE {
                return Ok(PipeReadResult { data: Vec::new(), bytes_read: 0, is_eof: true });
            }
            if code != HRESULT_MORE_DATA {
                return Err(Error::Io(reason));
            }
        },
    }
    buffer.truncate(bytes_read as usize);
    Ok(PipeReadResult { data: buffer, bytes_read: bytes_read as usize, is_eof: false })
}

/// What happened at the pipe of a process.
pub enum PumpEvent {
    /// The job was told to stop.
    Cancelled,
    /// The pipe was read.
    Read(PipeReadResult),
    /// The pipe could not be read.
    Failed(Error),
}

/// What to do next.
pub enum PumpStep {
    /// Read on.
    ReadOn,
    /// Send the frame, then read on.
    Output(Frame),
    /// Send the frame, which ends the stream.
    Finish(Frame),
    /// Give up.
    Fail(Error),
}

/// Turns what is read from one of a process's pipes into frames.
pub struct OutputPump {
    job_id: u32,
    stream_id: StreamId,
    sequence: u32,
}

/// The frame that carries a chunk of output.
pub open spec fn output_frame(job_id: u32, stream_id: StreamId, sequence: u32, data: Seq<u8>) -> FrameView {
    FrameView {
        frame_type: FrameType::Output,
        stream_id,
        flags: 0,
        job_id,
        sequence_number: sequence,
        payload: data,
    }
}

/// The frame that ends a stream.
pub open spec fn eos_frame(job_id: u32, stream_id: StreamId, sequence: u32) -> FrameView {
    FrameView {
        frame_type: FrameType::Output,
        stream_id,
        flags: FLAG_EOS,
        job_id,
        sequence_number: sequence,
        payload: Seq::empty(),
    }
}

/// What an event means for the stream.
pub enum Heard {
    /// There was no data.
    Nothing,
    /// There was data.
    Data(Seq<u8>),
    /// The stream has ended, or the job was told to stop.
    End,
    /// The pipe could not be read.
    Failure(Error),
}

/// What `event` means for the stream.
pub open spec fn heard(event: PumpEvent) -> Heard {
    match event {
        PumpEvent::Cancelled => Heard::End,
        PumpEvent::Failed(e) => Heard::Failure(e),
        PumpEvent::Read(p) => if p.is_eof {
            Heard::End
        } else if p.bytes_read == 0 {
            Heard::Nothing
        } else {
            Heard::Data(p.data@)
        },
    }
}

/// A step with its frame as a view.
pub enum StepView {
    ReadOn,
    Output(FrameView),
    Finish(FrameView),
    Fail(Error),
}

impl View for PumpStep {
    type V = StepView;

    open spec fn view(&self) -> StepView {
        match self {
            PumpStep::ReadOn => StepView::ReadOn,
            PumpStep::Output(f) => StepView::Output(f@),
            PumpStep::Finish(f) => StepView::Finish(f@),
            PumpStep::Fail(e) => StepView::Fail(*e),
        }
    }
}

/// The step of a pump that hears `h` when its next frame is numbered `next`.
pub open spec fn step_for(job_id: u32, stream_id: StreamId, next: u32, h: Heard) -> StepView {
    match h {
        Heard::End => StepView::Finish(eos_frame(job_id, stream_id, next)),
        Heard::Failure(e) => StepView::Fail(e),
        Heard::Nothing => StepView::ReadOn,
        Heard::Data(data) => StepView::Output(output_frame(job_id, stream_id, next, data)),
    }
}

/// The number of the frame after that step.
pub open spec fn next_after(next: u32, step: StepView) -> u32 {
    if step is Output {
        next.wrapping_add(1)
    } else {
        next
    }
}

impl OutputPump {
    pub closed spec fn job(self) -> u32 {
        self.job_id
    }

    pub closed spec fn stream(self) -> StreamId {
        self.stream_id
    }

    /// The number of the next frame.
    pub closed spec fn next(self) -> u32 {
        self.sequence
    }

    /// A pump at the start of a stream.
    pub fn new(job_id: u32, stream_id: StreamId) -> (p: Self)
        ensures
            p.job() == job_id,
            p.stream() == stream_id,
            p.next() == 0,
    {
        OutputPump { job_id, stream_id, sequence: 0 }
    }

    /// Takes what happened at the pipe.
    pub fn step(&mut self, event: PumpEvent) -> (s: PumpStep)
        ensures
            final(self).job() == old(self).job(),
            final(self).stream() == old(self).stream(),
            s@ == step_for(old(self).job(), old(self).stream(), old(self).next(), heard(event)),
            final(self).next() == next_after(old(self).next(), s@),
            event matches PumpEvent::Read(p) ==> (!p.is_eof && p.bytes_read > 0 ==> (s
                matches PumpStep::Output(f) && f@.payload == p.data@)),
    {
        match event {
            PumpEvent::Cancelled => PumpStep::Finish(self.eos()),
            PumpEvent::Failed(e) => PumpStep::Fail(e),
            PumpEvent::Read(p) => {
                if p.is_eof {
                    PumpStep::Finish(self.eos())
                } else if p.bytes_read == 0 {
                    PumpStep::ReadOn
                } else {
                    let frame = Frame::new(FrameType::Output, self.stream_id).with_job_id(
                        self.job_id,
                    ).with_sequence(self.sequence).with_payload(
                        byte_buf::bytes_from_vec(p.data),
                    );
                    self.sequence = self.sequence.wrapping_add(1);
                    PumpStep::Output(frame)
                }
            },
        }
    }

    fn eos(&self) -> (f: Frame)
        ensures
            f@ == eos_frame(self.job(), self.stream(), self.next()),
    {
        assert(0u16 | FLAG_EOS == FLAG_EOS) by (bit_vector);
        Frame::new(FrameType::Output, self.stream_id).with_job_id(self.job_id).with_sequence(
            self.sequence,
        ).with_flag(FLAG_EOS)
    }
}

/// A pump for a process's standard output.
pub fn pump_stdout(job_id: u32) -> (p: OutputPump)
    ensures
        p.job() == job_id,
        p.stream() == StreamId::Stdout,
        p.next() == 0,
{
    OutputPump::new(job_id, StreamId::Stdout)
}

/// A pump for a process's standard error.
pub fn pump_stderr(job_id: u32) -> (p: OutputPump)
    ensures
        p.job() == job_id,
        p.stream() == StreamId::Stderr,
        p.next() == 0,
{
    OutputPump::new(job_id, StreamId::Stderr)
}

/// The frames that a pump gives for what it hears, until the stream ends or fails, when its next
/// frame is numbered `next`.
pub open spec fn pumped(job_id: u32, stream_id: StreamId, next: u32, story: Seq<Heard>) -> Seq<
    FrameView,
>
    decreases story.len(),
{
    if story.len() == 0 {
        Seq::empty()
    } else {
        let step = step_for(job_id, stream_id, next, story[0]);
        let rest = story.drop_first();
        match step {
            StepView::ReadOn => pumped(job_id, stream_id, next_after(next, step), rest),
            StepView::Output(f) => seq![f] + pumped(
                job_id,
                stream_id,
                next_after(next, step),
                rest,
            ),
            StepView::Finish(f) => seq![f],
            StepView::Fail(_) => Seq::empty(),
        }
    }
}

/// The data of a story, until the stream ends or fails.
pub open spec fn data_of(story: Seq<Heard>) -> Seq<u8>
    decreases story.len(),
{
    if story.len() == 0 {
        Seq::empty()
    } else {
        match story[0] {
            Heard::End => Seq::empty(),
            Heard::Failure(e) => Seq::empty(),
            Heard::Nothing => data_of(story.drop_first()),
            Heard::Data(data) => data + data_of(story.drop_first()),
        }
    }
}

/// The payloads of `frames`, one after the other.
pub open spec fn payloads(frames: Seq<FrameView>) -> Seq<u8>
    decreases frames.len(),
{
    if frames.len() == 0 {
        Seq::empty()
    } else {
        frames[0].payload + payloads(frames.drop_first())
    }
}

/// The stream ends, and does not fail before.
pub open spec fn ends(story: Seq<Heard>) -> bool
    decreases story.len(),
{
    story.len() > 0 && match story[0] {
        Heard::End => true,
        Heard::Failure(e) => false,
        _ => ends(story.drop_first()),
    }
}

/// The number `n` places after `first`, where the numbers wrap around.
pub open spec fn number_after(first: u32, n: nat) -> u32 {
    ((first + n) % 0x1_0000_0000) as u32
}

/// Nothing is lost, added or reordered: the payloads of the frames of a stream are the data that
/// was read.
pub proof fn law_frames_carry_the_data(
    job_id: u32,
    stream_id: StreamId,
    next: u32,
    story: Seq<Heard>,
)
    ensures
        payloads(pumped(job_id, stream_id, next, story)) == data_of(story),
    decreases story.len(),
{
    reveal_with_fuel(payloads, 2);
    if story.len() > 0 {
        let rest = story.drop_first();
        match story[0] {
            Heard::End => {
                let f = seq![eos_frame(job_id, stream_id, next)];
                assert(f.drop_first() =~= Seq::empty());
                assert(payloads(f) =~= Seq::empty());
            },
            Heard::Failure(e) => {},
            Heard::Nothing => {
                law_frames_carry_the_data(job_id, stream_id, next, rest);
            },
            Heard::Data(data) => {
                let later = pumped(job_id, stream_id, next.wrapping_add(1), rest);
                law_frames_carry_the_data(job_id, stream_id, next.wrapping_add(1), rest);
                let all = seq![output_frame(job_id, stream_id, next, data)] + later;
                assert(all.drop_first() =~= later);
                assert(all[0].payload == data);
            },
        }
    }
}

/// The frames of a stream are all of its job and its stream and numbered in order; a stream that
/// ends has exactly one frame with the end of stream flag, its last, which is empty.
pub proof fn law_frames_are_numbered(
    job_id: u32,
    stream_id: StreamId,
    next: u32,
    story: Seq<Heard>,
    i: int,
)
    requires
        0 <= i < pumped(job_id, stream_id, next, story).len(),
    ensures
        ({
            let frames = pumped(job_id, stream_id, next, story);
            let f = frames[i];
            &&& f.frame_type == FrameType::Output
            &&& f.stream_id == stream_id
            &&& f.job_id == job_id
            &&& f.sequence_number == number_after(next, i as nat)
            &&& f.flags == FLAG_EOS <==> ends(story) && i == frames.len() - 1
            &&& f.flags == FLAG_EOS || f.flags == 0
            &&& f.flags == FLAG_EOS ==> f.payload.len() == 0
        }),
    decreases story.len(),
{
    let rest = story.drop_first();
    match story[0] {
        Heard::Nothing => {
            law_frames_are_numbered(job_id, stream_id, next, rest, i);
        },
        Heard::Data(data) => {
            let follow = next.wrapping_add(1);
            let later = pumped(job_id, stream_id, follow, rest);
            let all = seq![output_frame(job_id, stream_id, next, data)] + later;
            assert(all == pumped(job_id, stream_id, next, story));
            if i > 0 {
                law_frames_are_numbered(job_id, stream_id, follow, rest, i - 1);
                assert(all[i] == later[i - 1]);
            } else if ends(rest) {
                lemma_ending_stream_has_a_frame(job_id, stream_id, follow, rest);
            }
        },
        _ => {},
    }
}

proof fn lemma_ending_stream_has_a_frame(
    job_id: u32,
    stream_id: StreamId,
    next: u32,
    story: Seq<Heard>,
)
    requires
        ends(story),
    ensures
        pumped(job_id, stream_id, next, story).len() > 0,
    decreases story.len(),
{
    match story[0] {
        Heard::Nothing => {
            lemma_ending_stream_has_a_frame(job_id, stream_id, next, story.drop_first());
        },
        _ => {},
    }
}

/// What is in flight never exceeds the window, whatever is sent or acknowledged, unless the window
/// outgrows its counter.
pub proof fn law_window_bounds_flight(w: WindowView, bytes_consumed: u64, len: nat)
    requires
        w.in_flight <= w.window,
    ensures
        decided(w, len).in_flight <= decided(w, len).window,
        w.window + bytes_consumed <= u64::MAX ==> acknowledged(w, bytes_consumed).in_flight
            <= acknowledged(w, bytes_consumed).window,
{
}

/// A client that acknowledges all it was sent lets any frame through that the window can hold at
/// all: no stream stays blocked.
pub proof fn law_acknowledging_unblocks(w: WindowView, bytes_consumed: u64, len: nat)
    requires
        w.in_flight <= bytes_consumed,
        len <= w.window,
        w.window + bytes_consumed <= u64::MAX,
    ensures
        decision(acknowledged(w, bytes_consumed), len) is Send,
{
}

/// An acknowledgement never takes room away: what could be sent before it can be sent after it.
pub proof fn law_acknowledging_keeps_room(w: WindowView, bytes_consumed: u64, len: nat)
    requires
        decision(w, len) is Send,
        w.window + bytes_consumed <= u64::MAX,
    ensures
        decision(acknowledged(w, bytes_consumed), len) is Send,
{
}

/// The frames that a pump gives for what happens at its pipe, until the stream ends or fails, when
/// its next frame is numbered `next`.
pub open spec fn frames_of(job_id: u32, stream_id: StreamId, next: u32, events: Seq<PumpEvent>) -> Seq<
    FrameView,
> {
    pumped(job_id, stream_id, next, events.map_values(|e: PumpEvent| heard(e)))
}

/// What a pump does at one event. A read that gave bytes is sent on, whole and unchanged, in a frame
/// of its own; a read of nothing sends nothing; the end of the pipe, and being told to stop, send
/// one empty frame with the end of stream flag; a failed read ends the pump with its error and sends
/// nothing.
pub proof fn law_step(job_id: u32, stream_id: StreamId, next: u32, event: PumpEvent)
    ensures
        ({
            let step = step_for(job_id, stream_id, next, heard(event));
            match event {
                PumpEvent::Read(p) => {
                    &&& !p.is_eof && p.bytes_read > 0 ==> {
                        &&& step matches StepView::Output(f)
                        &&& f.payload == p.data@
                        &&& f.frame_type == FrameType::Output
                        &&& f.stream_id == stream_id
                        &&& f.job_id == job_id
                        &&& f.sequence_number == next
                        &&& f.flags == 0
                        &&& next_after(next, step) == (next + 1) % 0x1_0000_0000
                    }
                    &&& !p.is_eof && p.bytes_read == 0 ==> step is ReadOn && next_after(next, step)
                        == next
                    &&& p.is_eof ==> step is Finish
                },
                PumpEvent::Cancelled => step is Finish,
                PumpEvent::Failed(e) => step == StepView::Fail(e),
            }
        }),
        step_for(job_id, stream_id, next, heard(event)) matches StepView::Finish(f) ==> {
            &&& f.payload.len() == 0
            &&& f.frame_type == FrameType::Output
            &&& f.stream_id == stream_id
            &&& f.job_id == job_id
            &&& f.sequence_number == next
            &&& f.flags == FLAG_EOS
        },
{
}

/// While a process writes, each read that gives bytes adds one frame at the end of those before it,
/// with the bytes of the read, numbered by how many frames came before; a read of nothing adds none.
/// The end of the pipe, or being told to stop, adds one empty frame with the end of stream flag, and
/// what comes after it adds nothing; after a failed read nothing is added either.
pub proof fn law_run_goes_on(
    job_id: u32,
    stream_id: StreamId,
    next: u32,
    events: Seq<PumpEvent>,
    event: PumpEvent,
    later: Seq<PumpEvent>,
)
    requires
        forall|i: int|
            0 <= i < events.len() ==> (#[trigger] events[i] matches PumpEvent::Read(p)
                && !p.is_eof),
    ensures
        ({
            let before = frames_of(job_id, stream_id, next, events);
            let after = frames_of(job_id, stream_id, next, events.push(event));
            let number = (next + before.len()) % 0x1_0000_0000;
            match event {
                PumpEvent::Read(p) => {
                    &&& !p.is_eof && p.bytes_read == 0 ==> after == before
                    &&& !p.is_eof && p.bytes_read > 0 ==> {
                        &&& after.len() == before.len() + 1
                        &&& after.drop_last() == before
                        &&& after.last().payload == p.data@
                        &&& after.last().flags == 0
                        &&& after.last().sequence_number == number
                        &&& after.last().job_id == job_id
                        &&& after.last().stream_id == stream_id
                    }
                },
                PumpEvent::Failed(_) => after == before,
                PumpEvent::Cancelled => true,
            }
        }),
        ({
            let before = frames_of(job_id, stream_id, next, events);
            let after = frames_of(job_id, stream_id, next, events.push(event));
            (event is Cancelled || (event matches PumpEvent::Read(p) && p.is_eof)) ==> {
                &&& after.len() == before.len() + 1
                &&& after.drop_last() == before
                &&& after.last().payload.len() == 0
                &&& after.last().flags == FLAG_EOS
                &&& after.last().sequence_number == (next + before.len()) % 0x1_0000_0000
                &&& after.last().job_id == job_id
                &&& after.last().stream_id == stream_id
            }
        }),
        !(event matches PumpEvent::Read(p) && !p.is_eof) ==> frames_of(
            job_id,
            stream_id,
            next,
            events.push(event) + later,
        ) == frames_of(job_id, stream_id, next, events.push(event)),
    decreases events.len(),
{
    let told = |e: PumpEvent| heard(e);
    let up_to = events.push(event);
    let all = up_to + later;
    if events.len() == 0 {
        assert(up_to.map_values(told)[0] == heard(event));
        assert(up_to.map_values(told).drop_first() =~= Seq::<Heard>::empty());
        assert(all.map_values(told)[0] == heard(event));
        assert(frames_of(job_id, stream_id, next, events) =~= Seq::empty());
        reveal_with_fuel(pumped, 2);
        assert(next as int % 0x1_0000_0000 == next);
    } else {
        let first = events[0];
        let rest = events.drop_first();
        let step = step_for(job_id, stream_id, next, heard(first));
        let follow = next_after(next, step);
        assert forall|i: int| 0 <= i < rest.len() implies (#[trigger] rest[i] matches PumpEvent::Read(
            p,
        ) && !p.is_eof) by {
            assert(rest[i] == events[i + 1]);
        }
        assert(first matches PumpEvent::Read(p) && !p.is_eof);
        assert(events.map_values(told).drop_first() =~= rest.map_values(told));
        assert(up_to.map_values(told).drop_first() =~= rest.push(event).map_values(told));
        assert(all.map_values(told).drop_first() =~= (rest.push(event) + later).map_values(told));
        assert(up_to.map_values(told)[0] == heard(first));
        assert(all.map_values(told)[0] == heard(first));
        assert(events.map_values(told)[0] == heard(first));
        law_run_goes_on(job_id, stream_id, follow, rest, event, later);
        let b = frames_of(job_id, stream_id, follow, rest);
        let a = frames_of(job_id, stream_id, follow, rest.push(event));
        if step is Output {
            let f = seq![step->Output_0];
            assert(frames_of(job_id, stream_id, next, events) == f + b);
            assert(frames_of(job_id, stream_id, next, up_to) == f + a);
            assert(f + b.push(a.last()) =~= (f + b).push(a.last()));
            if a.len() > 0 {
                assert((f + a).last() == a.last());
                assert((f + a).drop_last() =~= f + a.drop_last());
            }
            assert((follow + b.len()) % 0x1_0000_0000 == (next + (f + b).len()) % 0x1_0000_0000);
        } else {
            assert(step is ReadOn);
        }
    }
}

/// Nothing is lost, added or reordered between a pipe and the frames: put together, the payloads of
/// the frames are the bytes of the reads put together.
pub proof fn law_payloads_are_the_reads(
    job_id: u32,
    stream_id: StreamId,
    next: u32,
    events: Seq<PumpEvent>,
)
    requires
        forall|i: int|
            0 <= i < events.len() ==> (#[trigger] events[i] matches PumpEvent::Read(p)
                && !p.is_eof && p.bytes_read > 0),
    ensures
        frames_of(job_id, stream_id, next, events).map_values(|f: FrameView| f.payload).flatten()
            == events.map_values(|e: PumpEvent| e->Read_0.data@).flatten(),
        frames_of(job_id, stream_id, next, events).len() == events.len(),
        forall|i: int|
            0 <= i < events.len() ==> (#[trigger] frames_of(
                job_id,
                stream_id,
                next,
                events,
            )[i]).payload == events[i]->Read_0.data@,
    decreases events.len(),
{
    let frames = frames_of(job_id, stream_id, next, events);
    if events.len() == 0 {
        assert(events.map_values(|e: PumpEvent| heard(e)).len() == 0);
        assert(frames =~= Seq::empty());
    } else {
        let most = events.drop_last();
        let event = events.last();
        assert(most.push(event) =~= events);
        assert forall|i: int| 0 <= i < most.len() implies (#[trigger] most[i] matches PumpEvent::Read(
            p,
        ) && !p.is_eof && p.bytes_read > 0) by {
            assert(most[i] == events[i]);
        }
        law_payloads_are_the_reads(job_id, stream_id, next, most);
        law_run_goes_on(job_id, stream_id, next, most, event, Seq::empty());
        let before = frames_of(job_id, stream_id, next, most);
        assert(frames.drop_last() == before);
        assert forall|i: int| 0 <= i < events.len() implies (#[trigger] frames[i]).payload
            == events[i]->Read_0.data@ by {
            if i < most.len() {
                assert(frames[i] == before[i]);
                assert(most[i] == events[i]);
            }
        }
    }
    assert(frames.map_values(|f: FrameView| f.payload) =~= events.map_values(
        |e: PumpEvent| e->Read_0.data@,
    ));
}

/// An acknowledgement makes the window larger, and what is in flight smaller, by the bytes it speaks
/// of, and what is in flight by no more than there is; a frame is sent exactly where the bytes in
/// flight and its own fit into the window, which are then in flight together; where it does not fit
/// nothing changes, and it is forgotten or waits as the stream was made to.
pub proof fn law_window_arithmetic(w: WindowView, bytes_consumed: u64, len: nat)
    ensures
        ({
            let a = acknowledged(w, bytes_consumed);
            &&& w.window + bytes_consumed <= u64::MAX ==> a.window == w.window + bytes_consumed
            &&& a.window == (w.window + bytes_consumed) % 0x1_0000_0000_0000_0000
            &&& bytes_consumed <= w.in_flight ==> a.in_flight == w.in_flight - bytes_consumed
            &&& bytes_consumed >= w.in_flight ==> a.in_flight == 0
            &&& a.drops == w.drops
        }),
        decision(w, len) is Send <==> w.in_flight + len <= w.window,
        decision(w, len) is Discard <==> w.in_flight + len > w.window && w.drops,
        decision(w, len) is Wait <==> w.in_flight + len > w.window && !w.drops,
        decided(w, len).window == w.window,
        decided(w, len).drops == w.drops,
        w.in_flight + len <= w.window ==> decided(w, len).in_flight == w.in_flight + len,
        w.in_flight + len > w.window ==> decided(w, len).in_flight == w.in_flight,
{
}

/// Acknowledging in two parts is acknowledging at once, and a frame that was sent and acknowledged
/// leaves in flight what was there before.
pub proof fn law_acknowledgements_add_up(w: WindowView, first: u64, second: u64, len: u64)
    requires
        w.window + first + second <= u64::MAX,
        w.window + len <= u64::MAX,
    ensures
        acknowledged(acknowledged(w, first), second) == acknowledged(w, (first + second) as u64),
        w.in_flight + len <= w.window ==> acknowledged(decided(w, len as nat), len) == (WindowView {
            window: (w.window + len) as u64,
            ..w
        }),
{
}

/// A read is the end of the stream where it gave nothing and did not fail, or failed since the other
/// end is closed.
pub proof fn law_at_end(bytes_read: u32, code: i32, reason: String)
    ensures
        at_end(bytes_read, None) <==> bytes_read == 0,
        at_end(bytes_read, Some((code, reason))) <==> code == 0x8007_006D - 0x1_0000_0000,
{
}

/// Put together, the payloads of the frames of a process's output are the bytes of the reads that
/// gave any, put together, for as long as the pipe is read. The end of the pipe, being told to stop
/// or a failed read takes nothing away and adds nothing, whatever happens after it.
pub proof fn law_output_is_complete(
    job_id: u32,
    stream_id: StreamId,
    next: u32,
    events: Seq<PumpEvent>,
    end: PumpEvent,
    later: Seq<PumpEvent>,
)
    requires
        forall|i: int|
            0 <= i < events.len() ==> (#[trigger] events[i] matches PumpEvent::Read(p)
                && !p.is_eof),
        !(end matches PumpEvent::Read(p) && !p.is_eof),
    ensures
        ({
            let payload = |f: FrameView| f.payload;
            let read = |e: PumpEvent|
                if e->Read_0.bytes_read > 0 {
                    e->Read_0.data@
                } else {
                    Seq::<u8>::empty()
                };
            let all = events.map_values(read).flatten();
            &&& frames_of(job_id, stream_id, next, events).map_values(payload).flatten() == all
            &&& frames_of(job_id, stream_id, next, events.push(end) + later).map_values(
                payload,
            ).flatten() == all
        }),
    decreases events.len(),
{
    let payload = |f: FrameView| f.payload;
    let read = |e: PumpEvent|
        if e->Read_0.bytes_read > 0 {
            e->Read_0.data@
        } else {
            Seq::<u8>::empty()
        };
    let frames = frames_of(job_id, stream_id, next, events);
    if events.len() == 0 {
        assert(events.map_values(|e: PumpEvent| heard(e)).len() == 0);
        assert(frames.map_values(payload) =~= Seq::empty());
        assert(events.map_values(read) =~= Seq::empty());
    } else {
        let most = events.drop_last();
        let event = events.last();
        assert(event == events[events.len() - 1]);
        assert(most.push(event) =~= events);
        assert forall|i: int| 0 <= i < most.len() implies (#[trigger] most[i] matches PumpEvent::Read(
            p,
        ) && !p.is_eof) by {
            assert(most[i] == events[i]);
        }
        law_output_is_complete(job_id, stream_id, next, most, end, later);
        law_run_goes_on(job_id, stream_id, next, most, event, Seq::empty());
        let before = frames_of(job_id, stream_id, next, most);
        most.map_values(read).lemma_flatten_push(read(event));
        assert(events.map_values(read) =~= most.map_values(read).push(read(event)));
        if event->Read_0.bytes_read > 0 {
            assert(frames =~= before.push(frames.last()));
            before.map_values(payload).lemma_flatten_push(frames.last().payload);
            assert(frames.map_values(payload) =~= before.map_values(payload).push(
                frames.last().payload,
            ));
        } else {
            assert(most.map_values(read).flatten() + read(event) =~= most.map_values(
                read,
            ).flatten());
        }
    }
    law_run_goes_on(job_id, stream_id, next, events, end, later);
    let ended = frames_of(job_id, stream_id, next, events.push(end));
    if !(end is Failed) {
        assert(ended =~= frames.push(ended.last()));
        frames.map_values(payload).lemma_flatten_push(ended.last().payload);
        assert(ended.map_values(payload) =~= frames.map_values(payload).push(ended.last().payload));
        assert(frames.map_values(payload).flatten() + ended.last().payload =~= frames.map_values(
            payload,
        ).flatten());
    }
}

} // verus!
