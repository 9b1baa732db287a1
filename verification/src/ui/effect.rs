//! What is left to do when the user interface has taken a message in.

use vstd::prelude::*;

use crate::signaling::events::{CallId, CoreCommand, RemoteMediaInfo};

verus! {

/// A window.
#[derive(Debug, Clone, Copy, PartialEq, Eq, Structural)]
pub enum WindowKind {
    Main,
    SipSettings,
    AudioSettings,
    Settings,
}

/// A sound that tells how a call or a line is doing.
#[derive(Debug, Clone, Copy, PartialEq, Eq, Structural)]
pub enum ToneCue {
    /// The tone of a key.
    Digit(char),
    Dial,
    /// Silence, at once.
    StopLine,
    Busy,
    Reorder,
    Disconnect,
    /// The other side rings.
    Ringback,
    StopRingback,
    /// A call comes in.
    Ring,
    StopRing,
}

/// What a local port is wanted for.
#[derive(Debug)]
pub enum Purpose {
    /// To call a number, and to send digits once it answers.
    Place { number: String, post_dial: String },
    Answer { id: CallId },
}

/// Something that happens later.
#[derive(Debug)]
pub enum Timer {
    /// The next of the digits that follow a call's number is due.
    PostDial { account: usize, id: CallId },
    /// A line stood open without a number being dialled.
    LineIdle { account: usize, line: u8 },
}

/// What is left to do.
#[derive(Debug)]
pub enum Effect {
    /// Hands signaling a command.
    Send { account: usize, command: CoreCommand },
    Tone(ToneCue),
    /// Reserves a local port and reports what came of it.
    Reserve { account: usize, idx: usize, purpose: Purpose },
    /// Starts the audio of a call and reports what came of it.
    StartMedia {
        account: usize,
        idx: usize,
        id: CallId,
        remote: RemoteMediaInfo,
        capture: Option<String>,
        playback: Option<String>,
    },
    /// Keeps the audio that was started for a line.
    AttachMedia { account: usize, idx: usize },
    /// Drops audio that was started for a call that is gone.
    DiscardMedia { account: usize, id: CallId },
    /// Sends a digit with the audio of a line.
    SendEvent { account: usize, idx: usize, digit: char },
    SetMicMuted { account: usize, idx: usize, muted: bool },
    SetOutputVolume { account: usize, idx: usize, gain: u32 },
    SetInputGain { account: usize, idx: usize, gain: u32 },
    Join { account: usize, a: usize, b: usize },
    Unjoin { account: usize, idx: usize },
    StartRecording { account: usize, idx: usize },
    SetSecondaryOutput { account: usize, idx: usize, target: String },
    /// Stops recording a call and, if it is to be kept, saves what was
    /// recorded, if anything was.
    SaveRecording { account: usize, idx: usize, number: String, secs: u64, keep: bool },
    /// Drops a line's audio and its local port.
    ClearLine { account: usize, idx: usize },
    /// Drops all that belongs to an account.
    DropAccount { account: usize },
    /// Reports back after a number of milliseconds.
    Later { millis: u64, timer: Timer },
    OpenWindow(WindowKind),
    FocusWindow(WindowKind),
    CloseWindow(WindowKind),
    ResizeMain { compact: bool },
    Exit,
    ListDevices,
    ListSecondaryTargets,
    PickRecordingFolder { current: String },
    PickImportFile { current: String },
    PickExportFile { current: String },
    ImportContacts { path: String },
    ExportContacts { path: String },
    /// Saves the contacts and reads them back.
    PersistContacts,
    SaveHistory,
    SaveAccounts,
    SaveSettings,
    SaveAudioDevices,
}

/// An effect, if a condition holds.
pub open spec fn only_if(condition: bool, effect: Effect) -> Seq<Effect> {
    if condition {
        seq![effect]
    } else {
        Seq::empty()
    }
}

} // verus!
