//! What the user interface is told.

use vstd::prelude::*;

use crate::media::devices::AudioDevice;
use crate::signaling::config::{DtmfMode, SipTransport};
use crate::signaling::events::{CallId, CoreEvent};
use crate::ui::contacts::{Contact, ImportContact};
use crate::ui::effect::{Purpose, WindowKind};
use crate::ui::settings::Screen;

verus! {

/// The time at which a message is taken in.
#[derive(Debug, Clone, Copy, PartialEq, Eq, Structural)]
pub struct Moment {
    /// Milliseconds of a clock that never goes back.
    pub millis: u64,
    /// Seconds since the Unix epoch.
    pub unix_secs: i64,
}

/// What the user did, or what came of an effect.
#[derive(Debug)]
pub enum Message {
    /// What signaling says of an account.
    Core(usize, CoreEvent),
    DialInputChanged(String),
    DialHistoryToggled,
    DialHistorySelected(String),
    DialpadPressed(char),
    CallPressed,
    AnswerPressed,
    RejectPressed,
    HangUpPressed,
    /// A local port was reserved for a line, or why not.
    PortReserved { account: usize, idx: usize, purpose: Purpose, outcome: Result<u16, String> },
    /// The audio of a call was started, or why not.
    MediaReady(usize, CallId, Result<(), String>),
    OpenSipSettings,
    OpenAudioSettings,
    SipSettingsNameChanged(String),
    SipSettingsHostChanged(String),
    SipSettingsPortChanged(String),
    SipSettingsUsernameChanged(String),
    SipSettingsPasswordChanged(String),
    SipSettingsTransportChanged(SipTransport),
    SipSettingsSavePressed,
    SipSettingsCancelPressed,
    SelectAccountForEditing(usize),
    AddAccountPressed,
    DeleteAccountPressed(usize),
    AccountSwitched(usize),
    AudioSettingsInputDeviceChanged(String),
    AudioSettingsOutputDeviceChanged(String),
    AudioSettingsSrtpToggled(bool),
    AudioSettingsDtmfModeChanged(DtmfMode),
    /// The codec at a place moves up or down.
    AudioSettingsCodecMoved(usize, bool),
    AudioSettingsSavePressed,
    AudioSettingsCancelPressed,
    DevicesLoaded(Vec<AudioDevice>, Vec<AudioDevice>),
    OpenSettings,
    SettingsDndToggled(bool),
    SettingsAutoAnswerToggled(bool),
    SettingsForwardingToggled(bool),
    SettingsForwardingNumberChanged(String),
    SettingsDenyListInputChanged(String),
    SettingsDenyListAddPressed,
    SettingsDenyListRemovePressed(usize),
    SettingsRecordingToggled(bool),
    SettingsRecordingPathChanged(String),
    BrowseRecordingPathPressed,
    SettingsSecondaryOutputChanged(Option<String>),
    RefreshSecondaryOutputTargets,
    SecondaryOutputTargetsLoaded(Vec<AudioDevice>, Vec<AudioDevice>),
    SettingsSavePressed,
    SettingsCancelPressed,
    MuteToggled,
    /// The volumes are the bits of single-precision numbers.
    OutputVolumeChanged(u32),
    InputVolumeChanged(u32),
    WindowClosed(WindowKind),
    TabSelected(Screen),
    DialNumber(String),
    RedialPressed,
    HoldToggled,
    TransferPanelToggled,
    TransferTargetChanged(String),
    TransferConfirmed,
    CompactToggled,
    PostDialAdvance(usize, CallId),
    LineIdleTimeout(usize, u8),
    LineSelected(u8),
    AddCallPressed,
    JoinCallsPressed,
    SplitCallPressed,
    ContactFilterChanged(String),
    ContactSortToggled,
    AddContactPressed,
    EditContactPressed(usize),
    ContactNameChanged(String),
    ContactNumberChanged(String),
    ContactSavePressed,
    ContactCancelPressed,
    DeleteContactPressed(usize),
    /// The contacts as they were read back after they were saved.
    ContactsLoaded(Vec<Contact>),
    ContactsIoPathChanged(String),
    ContactsImportPressed,
    ContactsExportPressed,
    /// The entries of the file to import, or why it cannot be read.
    ContactsRead(Result<Vec<ImportContact>, String>),
    /// Whether the contacts were exported, or why not.
    ContactsWritten(Result<(), String>),
    BrowseContactsImportPressed,
    BrowseContactsExportPressed,
}

} // verus!
