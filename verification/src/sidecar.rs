//! The speech-recognition sidecar as a process: how it is launched, the
//! events it emits, and the errors of talking to it.  Pipes and tasks are
//! the application's; the mapping of their outcomes to errors is here.

use vstd::prelude::*;
use vstd::string::StringExecFns;
use crate::text::{decimal, push_decimal};

verus! {

/// Capacity of the frame channel towards the sidecar (5 s at 100 frames/s).
pub const FRAME_CHANNEL_CAPACITY: usize = 500;

/// Capacity of the event broadcast from the sidecar.
pub const EVENT_CHANNEL_CAPACITY: usize = 100;

/// Errors of the sidecar facade.
#[derive(Debug, Clone, PartialEq, Eq)]
pub enum SidecarError {
    SpawnFailed(String),
    SendFailed(String),
    ReceiveFailed(String),
    ProcessTerminated,
    ChannelClosed,
}

/// Message of an error.
pub open spec fn sidecar_error_text(e: SidecarError) -> Seq<char> {
    match e {
        SidecarError::SpawnFailed(m) => "Failed to spawn sidecar process: "@ + m@,
        SidecarError::SendFailed(m) => "Failed to send frame: "@ + m@,
        SidecarError::ReceiveFailed(m) => "Failed to receive event: "@ + m@,
        SidecarError::ProcessTerminated => "Sidecar process terminated unexpectedly"@,
        SidecarError::ChannelClosed => "Channel closed"@,
    }
}

impl SidecarError {
    /// Message of the error.
    pub fn message(&self) -> (s: String)
        ensures
            s@ == sidecar_error_text(*self),
    {
        match self {
            SidecarError::SpawnFailed(m) => {
                let mut s = String::from_str("Failed to spawn sidecar process: ");
                s.append(m.as_str());
                s
            },
            SidecarError::SendFailed(m) => {
                let mut s = String::from_str("Failed to send frame: ");
                s.append(m.as_str());
                s
            },
            SidecarError::ReceiveFailed(m) => {
                let mut s = String::from_str("Failed to receive event: ");
                s.append(m.as_str());
                s
            },
            SidecarError::ProcessTerminated => String::from_str("Sidecar process terminated unexpectedly"),
            SidecarError::ChannelClosed => String::from_str("Channel closed"),
        }
    }
}

/// Why a frame could not be queued without waiting.
#[derive(Debug, Clone, Copy, PartialEq, Eq, Structural)]
pub enum TrySendFailure {
    /// The channel is full.
    Full,
    /// The writer task is gone.
    Closed,
}

/// The error for a frame that could not be queued: back-pressure when the
/// channel is full, a closed channel otherwise.
pub fn try_send_error(f: TrySendFailure) -> (e: SidecarError)
    ensures
        f == TrySendFailure::Full ==> (e matches SidecarError::SendFailed(m) && m@ == "Channel full (backpressure)"@),
        f == TrySendFailure::Closed ==> e == SidecarError::ChannelClosed,
{
    match f {
        TrySendFailure::Full => SidecarError::SendFailed(String::from_str("Channel full (backpressure)")),
        TrySendFailure::Closed => SidecarError::ChannelClosed,
    }
}

/// Why no event could be taken without waiting.
#[derive(Debug, Clone, Copy, PartialEq, Eq, Structural)]
pub enum TryRecvFailure {
    /// No event is waiting.
    Empty,
    /// The receiver fell behind by this many events.
    Lagged(u64),
    /// The reader task is gone.
    Closed,
}

/// The error for an event that could not be taken.
pub fn try_recv_error(f: TryRecvFailure) -> (e: SidecarError)
    ensures
        f == TryRecvFailure::Empty ==> (e matches SidecarError::ReceiveFailed(m) && m@ == "No events available"@),
        f matches TryRecvFailure::Lagged(n) ==> (e matches SidecarError::ReceiveFailed(m) && m@ == "Lagged by "@ + decimal(n as nat) + " events"@),
        f == TryRecvFailure::Closed ==> e == SidecarError::ChannelClosed,
{
    match f {
        TryRecvFailure::Empty => SidecarError::ReceiveFailed(String::from_str("No events available")),
        TryRecvFailure::Lagged(n) => {
            let mut m = String::from_str("Lagged by ");
            push_decimal(&mut m, n);
            m.append(" events");
            SidecarError::ReceiveFailed(m)
        },
        TryRecvFailure::Closed => SidecarError::ChannelClosed,
    }
}

/// Events emitted by the sidecar.
#[derive(Debug)]
pub enum Event {
    /// The sidecar is ready.
    Ready,
    /// A stream event (`partial_text`, `final_text`, ...) with its data.
    Stream { event_type: String, data: serde_json::Value },
    /// An error on the sidecar's side.
    Error { message: String },
    /// Older protocol: a partial text.
    LegacyPartial { text: String },
    /// Older protocol: a final text.
    LegacyFinal { text: String },
    /// Older protocol: no speech.
    LegacyNoSpeech,
    /// An event this side does not know.
    Unknown,
}

/// How to launch the sidecar.
#[derive(Debug, Clone)]
pub struct SidecarCmd {
    pub program: String,
    pub args: Vec<String>,
}

impl SidecarCmd {
    /// Launch `program` without arguments.
    pub fn new(program: String) -> (c: Self)
        ensures
            c.program@ == program@,
            c.args@.len() == 0,
    {
        SidecarCmd { program, args: Vec::new() }
    }

    /// The same command with one more argument.
    pub fn arg(self, arg: String) -> (c: Self)
        ensures
            c.program == self.program,
            c.args@ == self.args@.push(arg),
    {
        let mut c = self;
        c.args.push(arg);
        c
    }
}

/// Id of the `n`-th audio frame request.
pub open spec fn frame_request_id_text(n: nat) -> Seq<char> {
    "burnin-"@ + decimal(n)
}

/// Id of the `n`-th audio frame request.
pub fn frame_request_id(n: u64) -> (s: String)
    ensures
        s@ == frame_request_id_text(n as nat),
{
    let mut s = String::from_str("burnin-");
    push_decimal(&mut s, n);
    s
}

} // verus!
