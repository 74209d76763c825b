//! What the agent tells a client.
use vstd::prelude::*;

use crate::byte_buf;
use crate::error::{Error, ErrorView};
use crate::protocol::{
    ErrorPayload, ExitPayload, Frame, FrameType, FrameView, HelloAckPayload, RunAckPayload,
    StatusPayload, StreamId,
};
use crate::text;

verus! {

/// A message to a client.
#[derive(Debug)]
pub enum Outgoing {
    HelloAck(HelloAckPayload),
    RunAck(RunAckPayload),
    /// The job was canceled.
    CancelAck(u32),
    Pong,
    Status(StatusPayload),
    /// The job's process has exited.
    Exit(u32, ExitPayload),
    Error(ErrorPayload),
}

/// A message with its text as sequences of characters.
pub enum OutgoingView {
    HelloAck { version: u8, capabilities: Seq<Seq<char>> },
    RunAck { job_id: u32 },
    CancelAck { job_id: u32 },
    Pong,
    Status { job_id: u32, status: Seq<char> },
    Exit { job_id: u32, exit_code: i32 },
    Error { about: Option<u32>, error_code: u32, error_message: Seq<char> },
}

impl View for Outgoing {
    type V = OutgoingView;

    open spec fn view(&self) -> OutgoingView {
        match self {
            Outgoing::HelloAck(p) => OutgoingView::HelloAck {
                version: p.version,
                capabilities: p.capabilities@.map_values(|s: String| s@),
            },
            Outgoing::RunAck(p) => OutgoingView::RunAck { job_id: p.job_id },
            Outgoing::CancelAck(job_id) => OutgoingView::CancelAck { job_id: *job_id },
            Outgoing::Pong => OutgoingView::Pong,
            Outgoing::Status(p) => OutgoingView::Status { job_id: p.job_id, status: p.status@ },
            Outgoing::Exit(job_id, p) => OutgoingView::Exit {
                job_id: *job_id,
                exit_code: p.exit_code,
            },
            Outgoing::Error(p) => OutgoingView::Error {
                about: p.job_id,
                error_code: p.error_code,
                error_message: p.error_message@,
            },
        }
    }
}

impl OutgoingView {
    /// The type of the frame that carries the message.
    pub open spec fn frame_type(self) -> FrameType {
        match self {
            OutgoingView::HelloAck { .. } => FrameType::HelloAck,
            OutgoingView::RunAck { .. } => FrameType::RunAck,
            OutgoingView::CancelAck { .. } => FrameType::CancelAck,
            OutgoingView::Pong => FrameType::Pong,
            OutgoingView::Status { .. } => FrameType::Status,
            OutgoingView::Exit { .. } => FrameType::Exit,
            OutgoingView::Error { .. } => FrameType::Error,
        }
    }

    /// The job that the message is about, or 0.
    pub open spec fn job(self) -> u32 {
        match self {
            OutgoingView::HelloAck { .. } => 0,
            OutgoingView::RunAck { job_id } => job_id,
            OutgoingView::CancelAck { job_id } => job_id,
            OutgoingView::Pong => 0,
            OutgoingView::Status { job_id, .. } => job_id,
            OutgoingView::Exit { job_id, .. } => job_id,
            OutgoingView::Error { about, .. } => match about {
                Some(id) => id,
                None => 0,
            },
        }
    }

    /// The message says more than its frame's header.
    pub open spec fn has_payload(self) -> bool {
        !(self is CancelAck) && !(self is Pong)
    }

    /// The frame that carries the message, whose payload is written as `json`.
    pub open spec fn framed(self, json: Seq<u8>) -> FrameView {
        FrameView {
            job_id: self.job(),
            payload: if self.has_payload() {
                json
            } else {
                Seq::empty()
            },
            ..FrameView::bare(self.frame_type(), StreamId::Control)
        }
    }

    /// What is said when the message cannot be handed to the task that writes frames, where
    /// anything is.
    pub open spec fn unsent(self, reason: Seq<char>) -> Option<ErrorView> {
        match self {
            OutgoingView::HelloAck { .. } => Some(
                ErrorView::Protocol("Failed to send HELLO_ACK: "@ + reason),
            ),
            OutgoingView::RunAck { .. } => Some(
                ErrorView::Protocol("Failed to send RUN_ACK: "@ + reason),
            ),
            OutgoingView::CancelAck { .. } => Some(
                ErrorView::Protocol("Failed to send CANCEL_ACK: "@ + reason),
            ),
            OutgoingView::Pong => Some(ErrorView::Protocol("Failed to send PONG: "@ + reason)),
            OutgoingView::Status { .. } => Some(
                ErrorView::Protocol("Failed to send STATUS: "@ + reason),
            ),
            OutgoingView::Exit { .. } => None,
            OutgoingView::Error { .. } => None,
        }
    }
}

impl Outgoing {
    /// The frame that carries the message. `json` is the message's payload as it goes on the wire;
    /// it is left out where the message has none.
    pub fn frame(&self, json: Vec<u8>) -> (f: Frame)
        ensures
            f@ == self@.framed(json@),
    {
        match self {
            Outgoing::HelloAck(_) => Frame::new(
                FrameType::HelloAck,
                StreamId::Control,
            ).with_payload(byte_buf::bytes_from_vec(json)),
            Outgoing::RunAck(p) => Frame::new(FrameType::RunAck, StreamId::Control).with_job_id(
                p.job_id,
            ).with_payload(byte_buf::bytes_from_vec(json)),
            Outgoing::CancelAck(job_id) => Frame::new(
                FrameType::CancelAck,
                StreamId::Control,
            ).with_job_id(*job_id),
            Outgoing::Pong => Frame::new(FrameType::Pong, StreamId::Control),
            Outgoing::Status(p) => Frame::new(FrameType::Status, StreamId::Control).with_job_id(
                p.job_id,
            ).with_payload(byte_buf::bytes_from_vec(json)),
            Outgoing::Exit(job_id, _) => Frame::new(FrameType::Exit, StreamId::Control).with_job_id(
                *job_id,
            ).with_payload(byte_buf::bytes_from_vec(json)),
            Outgoing::Error(p) => {
                let frame = Frame::new(FrameType::Error, StreamId::Control);
                let frame = match p.job_id {
                    Some(id) => frame.with_job_id(id),
                    None => frame,
                };
                frame.with_payload(byte_buf::bytes_from_vec(json))
            },
        }
    }

    /// The error of a message that could not be handed to the task that writes frames. The last
    /// messages about a job or a client are sent if they can be, and their loss is no error.
    pub fn send_error(&self, reason: &str) -> (e: Option<Error>)
        ensures
            e is Some <==> self@.unsent(reason@) is Some,
            e matches Some(x) ==> self@.unsent(reason@) == Some(x@),
    {
        let call = match self {
            Outgoing::HelloAck(_) => "Failed to send HELLO_ACK: ",
            Outgoing::RunAck(_) => "Failed to send RUN_ACK: ",
            Outgoing::CancelAck(_) => "Failed to send CANCEL_ACK: ",
            Outgoing::Pong => "Failed to send PONG: ",
            Outgoing::Status(_) => "Failed to send STATUS: ",
            Outgoing::Exit(_, _) => return None,
            Outgoing::Error(_) => return None,
        };
        Some(Error::Protocol(text::joined(call, reason)))
    }
}

/// A message goes out in a frame of its own type, on the control stream, about the job that it
/// speaks of, and with its whole payload. An acknowledged cancellation and a pong have no payload.
/// Of messages that cannot be sent, all but the last ones about a job or a client are errors.
pub proof fn law_messages(m: OutgoingView, json: Seq<u8>, reason: Seq<char>)
    ensures
        ({
            let f = m.framed(json);
            &&& f.stream_id is Control
            &&& f.flags == 0
            &&& f.sequence_number == 0
            &&& match m {
                OutgoingView::HelloAck { .. } => f.frame_type is HelloAck && f.job_id == 0
                    && f.payload == json && m.unsent(reason) == Some(
                    ErrorView::Protocol("Failed to send HELLO_ACK: "@ + reason),
                ),
                OutgoingView::RunAck { job_id } => f.frame_type is RunAck && f.job_id == job_id
                    && f.payload == json && m.unsent(reason) == Some(
                    ErrorView::Protocol("Failed to send RUN_ACK: "@ + reason),
                ),
                OutgoingView::CancelAck { job_id } => f.frame_type is CancelAck && f.job_id
                    == job_id && f.payload.len() == 0 && m.unsent(reason) == Some(
                    ErrorView::Protocol("Failed to send CANCEL_ACK: "@ + reason),
                ),
                OutgoingView::Pong => f.frame_type is Pong && f.job_id == 0 && f.payload.len() == 0
                    && m.unsent(reason) == Some(
                    ErrorView::Protocol("Failed to send PONG: "@ + reason),
                ),
                OutgoingView::Status { job_id, .. } => f.frame_type is Status && f.job_id == job_id
                    && f.payload == json && m.unsent(reason) == Some(
                    ErrorView::Protocol("Failed to send STATUS: "@ + reason),
                ),
                OutgoingView::Exit { job_id, .. } => f.frame_type is Exit && f.job_id == job_id
                    && f.payload == json && m.unsent(reason) is None,
                OutgoingView::Error { about, .. } => f.frame_type is Error && (about matches Some(
                    id,
                ) ==> f.job_id == id) && (about is None ==> f.job_id == 0) && f.payload == json
                    && m.unsent(reason) is None,
            }
        }),
{
}

} // verus!
