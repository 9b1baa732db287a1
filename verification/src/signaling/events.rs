//! What signaling tells the user interface, and what it is told.

use vstd::prelude::*;

use crate::net::PeerAddress;
use crate::text::{copy_opt_text, copy_text, opt_text};

verus! {

/// What identifies a call: its SIP Call-ID, which stays the same from the
/// first message to the last.
pub type CallId = String;

/// Where and how the other side of a call receives audio.
#[derive(Debug)]
pub struct RemoteMediaInfo {
    pub remote_addr: PeerAddress,
    pub payload_type: u8,
    /// The payload type of telephone events, if both sides agreed on them.
    pub telephone_event_pt: Option<u8>,
    pub crypto_key: Option<String>,
}

/// Where and how the other side receives, as a plain value.
pub struct RemoteView {
    pub remote_addr: (Seq<char>, u16),
    pub payload_type: u8,
    pub telephone_event_pt: Option<u8>,
    pub crypto_key: Option<Seq<char>>,
}

impl View for RemoteMediaInfo {
    type V = RemoteView;

    open spec fn view(&self) -> RemoteView {
        RemoteView {
            remote_addr: self.remote_addr@,
            payload_type: self.payload_type,
            telephone_event_pt: self.telephone_event_pt,
            crypto_key: opt_text(self.crypto_key),
        }
    }
}

impl RemoteMediaInfo {
    /// A copy of it.
    pub fn copy(&self) -> (r: Self)
        ensures
            r@ == self@,
    {
        RemoteMediaInfo {
            remote_addr: self.remote_addr.copy(),
            payload_type: self.payload_type,
            telephone_event_pt: self.telephone_event_pt,
            crypto_key: copy_opt_text(&self.crypto_key),
        }
    }
}

/// How this side of a call sends audio.
#[derive(Debug)]
pub struct LocalMediaInfo {
    pub crypto_key: Option<String>,
}

impl Default for LocalMediaInfo {
    fn default() -> (r: Self)
        ensures
            r.crypto_key is None,
    {
        LocalMediaInfo { crypto_key: None }
    }
}

/// What has become of a call.
#[derive(Debug)]
pub enum CallState {
    Ringing,
    /// Audio before the call was answered.
    EarlyMedia { remote: RemoteMediaInfo },
    Answered { local: LocalMediaInfo, remote: RemoteMediaInfo },
    Held,
    Rejected,
    /// The call is over; the text says why.
    Terminated(String),
}

/// What has become of a call, as a plain value.
pub enum CallStateView {
    Ringing,
    EarlyMedia { remote: RemoteView },
    Answered { crypto_key: Option<Seq<char>>, remote: RemoteView },
    Held,
    Rejected,
    Terminated(Seq<char>),
}

impl View for CallState {
    type V = CallStateView;

    open spec fn view(&self) -> CallStateView {
        match self {
            CallState::Ringing => CallStateView::Ringing,
            CallState::EarlyMedia { remote } => CallStateView::EarlyMedia { remote: remote@ },
            CallState::Answered { local, remote } => CallStateView::Answered {
                crypto_key: opt_text(local.crypto_key),
                remote: remote@,
            },
            CallState::Held => CallStateView::Held,
            CallState::Rejected => CallStateView::Rejected,
            CallState::Terminated(why) => CallStateView::Terminated(why@),
        }
    }
}

/// What signaling tells the user interface.
#[derive(Debug)]
pub enum CoreEvent {
    Registered { expires: u32, rtt_ms: u32 },
    /// Registering failed and is tried again.
    RegistrationFailed { reason: String },
    /// Registering failed and is not tried again until the account is saved.
    RegistrationHalted { reason: String },
    IncomingCall { id: CallId, line: u8, remote: String, offer: RemoteMediaInfo },
    OutgoingCallStarted { id: CallId, line: u8 },
    CallStateChanged { id: CallId, state: CallState },
    PlaceCallFailed { line: u8, reason: String },
    DtmfResult { id: CallId, digit: char, ok: bool },
    /// Whether the request to transfer was taken, not whether the transfer
    /// came about.
    TransferResult { id: CallId, ok: bool },
    HoldResumeFailed { id: CallId, hold: bool, reason: String },
}

/// What signaling tells the user interface, as a plain value.
pub enum EventView {
    Registered { expires: u32, rtt_ms: u32 },
    RegistrationFailed { reason: Seq<char> },
    RegistrationHalted { reason: Seq<char> },
    IncomingCall { id: Seq<char>, line: u8, remote: Seq<char>, offer: RemoteView },
    OutgoingCallStarted { id: Seq<char>, line: u8 },
    CallStateChanged { id: Seq<char>, state: CallStateView },
    PlaceCallFailed { line: u8, reason: Seq<char> },
    DtmfResult { id: Seq<char>, digit: char, ok: bool },
    TransferResult { id: Seq<char>, ok: bool },
    HoldResumeFailed { id: Seq<char>, hold: bool, reason: Seq<char> },
}

impl View for CoreEvent {
    type V = EventView;

    open spec fn view(&self) -> EventView {
        match self {
            CoreEvent::Registered { expires, rtt_ms } => EventView::Registered {
                expires: *expires,
                rtt_ms: *rtt_ms,
            },
            CoreEvent::RegistrationFailed { reason } => EventView::RegistrationFailed {
                reason: reason@,
            },
            CoreEvent::RegistrationHalted { reason } => EventView::RegistrationHalted {
                reason: reason@,
            },
            CoreEvent::IncomingCall { id, line, remote, offer } => EventView::IncomingCall {
                id: id@,
                line: *line,
                remote: remote@,
                offer: offer@,
            },
            CoreEvent::OutgoingCallStarted { id, line } => EventView::OutgoingCallStarted {
                id: id@,
                line: *line,
            },
            CoreEvent::CallStateChanged { id, state } => EventView::CallStateChanged {
                id: id@,
                state: state@,
            },
            CoreEvent::PlaceCallFailed { line, reason } => EventView::PlaceCallFailed {
                line: *line,
                reason: reason@,
            },
            CoreEvent::DtmfResult { id, digit, ok } => EventView::DtmfResult {
                id: id@,
                digit: *digit,
                ok: *ok,
            },
            CoreEvent::TransferResult { id, ok } => EventView::TransferResult { id: id@, ok: *ok },
            CoreEvent::HoldResumeFailed { id, hold, reason } => EventView::HoldResumeFailed {
                id: id@,
                hold: *hold,
                reason: reason@,
            },
        }
    }
}

/// What the user interface tells signaling.
#[derive(Debug)]
pub enum CoreCommand {
    PlaceCall { line: u8, callee: String, local_rtp_port: u16 },
    AnswerCall { id: CallId, local_rtp_port: u16 },
    RejectCall(CallId),
    HangUp(CallId),
    SendDtmf { id: CallId, digit: char },
    HoldCall(CallId),
    ResumeCall(CallId),
    BlindTransfer { id: CallId, target: String },
    Shutdown,
}

/// What the user interface tells signaling, as a plain value.
pub enum CommandView {
    PlaceCall { line: u8, callee: Seq<char>, local_rtp_port: u16 },
    AnswerCall { id: Seq<char>, local_rtp_port: u16 },
    RejectCall(Seq<char>),
    HangUp(Seq<char>),
    SendDtmf { id: Seq<char>, digit: char },
    HoldCall(Seq<char>),
    ResumeCall(Seq<char>),
    BlindTransfer { id: Seq<char>, target: Seq<char> },
    Shutdown,
}

impl View for CoreCommand {
    type V = CommandView;

    open spec fn view(&self) -> CommandView {
        match self {
            CoreCommand::PlaceCall { line, callee, local_rtp_port } => CommandView::PlaceCall {
                line: *line,
                callee: callee@,
                local_rtp_port: *local_rtp_port,
            },
            CoreCommand::AnswerCall { id, local_rtp_port } => CommandView::AnswerCall {
                id: id@,
                local_rtp_port: *local_rtp_port,
            },
            CoreCommand::RejectCall(id) => CommandView::RejectCall(id@),
            CoreCommand::HangUp(id) => CommandView::HangUp(id@),
            CoreCommand::SendDtmf { id, digit } => CommandView::SendDtmf { id: id@, digit: *digit },
            CoreCommand::HoldCall(id) => CommandView::HoldCall(id@),
            CoreCommand::ResumeCall(id) => CommandView::ResumeCall(id@),
            CoreCommand::BlindTransfer { id, target } => CommandView::BlindTransfer {
                id: id@,
                target: target@,
            },
            CoreCommand::Shutdown => CommandView::Shutdown,
        }
    }
}

/// That a call is in a given state now.
pub fn state_changed(id: &str, state: CallState) -> (e: CoreEvent)
    ensures
        e@ == (EventView::CallStateChanged { id: id@, state: state@ }),
{
    CoreEvent::CallStateChanged { id: copy_text(id), state }
}

} // verus!
