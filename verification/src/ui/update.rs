//! What each message does.

use vstd::prelude::*;

use crate::signaling::events::CoreEvent;
use crate::text::{chars, texts, trim, trimmed};
use crate::ui::app::{App, ContactForm};
use crate::ui::calls::{names_line, on_core};
use crate::ui::dialer::{
    on_call_pressed, on_hang_up, on_media_ready, on_port_reserved, to_answer, to_reject,
};
use crate::ui::effect::{only_if, Effect, ToneCue, WindowKind};
use crate::ui::forms::{
    on_audio_save, on_contact_save, on_contacts_read, on_contacts_written, on_delete_account,
    on_delete_contact, on_edit_account, on_edit_contact, on_open_audio, on_open_settings, on_open_sip,
    on_settings_save, on_sip_save,
};
use crate::ui::in_call::{
    on_dial_input, on_dial_number, on_dialpad, on_hold_toggled, on_input_volume, on_mute,
    on_output_volume, on_post_dial, on_redial, on_transfer_confirmed, on_transfer_target,
    on_transfer_toggled,
};
use crate::ui::lines::{
    on_account_switched, on_add_call, on_idle_timeout, on_join_pressed, on_select, on_split_pressed,
    selectable,
};
use crate::ui::message::{Message, Moment};
use crate::ui::session::{line_idx, AccountSession, CallUiState, LINE_COUNT};
use crate::ui::settings::{
    move_codec, moved, AudioSettingsForm, SettingsForm, SipSettingsForm,
};

verus! {

impl Message {
    /// Whether a message speaks of what is there: a line that an account has,
    /// and not a codec behind the last one.
    pub open spec fn fits(self, b: App) -> bool {
        match self {
            Message::Core(_, event) => names_line(event),
            Message::PortReserved { idx, .. } => idx < LINE_COUNT,
            Message::LineSelected(line) => selectable(b, line),
            Message::AudioSettingsCodecMoved(index, up) => !(up && index
                == b.audio_settings_form.codecs@.len()),
            _ => true,
        }
    }

    /// Whether a message speaks of what is there.
    pub fn fits_in(&self, app: &App) -> (r: bool)
        ensures
            r == self.fits(*app),
    {
        match self {
            Message::Core(_, event) => event_fits(event),
            Message::PortReserved { idx, .. } => *idx < LINE_COUNT,
            Message::LineSelected(line) => {
                let joining = match app.selected() {
                    Some(acc) => acc.pending_join.is_some(),
                    None => false,
                };
                *line >= 1 && (!joining || *line as usize <= LINE_COUNT)
            },
            Message::AudioSettingsCodecMoved(index, up) => !(*up && *index
                == app.audio_settings_form.codecs.len()),
            _ => true,
        }
    }
}

fn event_fits(event: &CoreEvent) -> (r: bool)
    ensures
        r == names_line(*event),
{
    match event {
        CoreEvent::IncomingCall { line, .. } => line_idx(*line) < LINE_COUNT,
        CoreEvent::OutgoingCallStarted { line, .. } => line_idx(*line) < LINE_COUNT,
        CoreEvent::PlaceCallFailed { line, .. } => line_idx(*line) < LINE_COUNT,
        _ => true,
    }
}

/// Whether nothing is left to do.
pub open spec fn done(out: Seq<Effect>) -> bool {
    out == Seq::<Effect>::empty()
}

/// A device by its name; the empty name stands for none.
pub open spec fn chosen(id: String) -> Option<String> {
    if id@.len() == 0 {
        None
    } else {
        Some(id)
    }
}

fn choose_device(id: String) -> (r: Option<String>)
    ensures
        r == chosen(id),
{
    if chars(id.as_str()).len() == 0 {
        None
    } else {
        Some(id)
    }
}

/// What the fields of the SIP settings do.
pub open spec fn sip_field(b: App, message: Message, a: App) -> bool {
    let form = b.sip_settings_form;
    a == (App {
        sip_settings_form: match message {
            Message::SipSettingsNameChanged(s) => SipSettingsForm { name: s, ..form },
            Message::SipSettingsHostChanged(s) => SipSettingsForm { host: s, ..form },
            Message::SipSettingsPortChanged(s) => SipSettingsForm { port: s, ..form },
            Message::SipSettingsUsernameChanged(s) => SipSettingsForm { username: s, ..form },
            Message::SipSettingsPasswordChanged(s) => SipSettingsForm { password: s, ..form },
            Message::SipSettingsTransportChanged(t) => SipSettingsForm { transport: t, ..form },
            _ => form,
        },
        ..b
    })
}

/// What the fields of the settings do.
pub open spec fn settings_field(b: App, message: Message, a: App) -> bool {
    let form = b.settings_form;
    a == (App {
        settings_form: match message {
            Message::SettingsDndToggled(on) => SettingsForm { dnd: on, ..form },
            Message::SettingsAutoAnswerToggled(on) => SettingsForm { auto_answer: on, ..form },
            Message::SettingsForwardingToggled(on) => SettingsForm {
                forwarding_enabled: on,
                ..form
            },
            Message::SettingsForwardingNumberChanged(s) => SettingsForm {
                forwarding_number: s,
                ..form
            },
            Message::SettingsDenyListInputChanged(s) => SettingsForm {
                deny_list_input: s,
                ..form
            },
            Message::SettingsRecordingToggled(on) => SettingsForm { recording_enabled: on, ..form },
            Message::SettingsRecordingPathChanged(s) => SettingsForm { recording_path: s, ..form },
            Message::SettingsSecondaryOutputChanged(t) => SettingsForm {
                secondary_output_target: t,
                ..form
            },
            _ => form,
        },
        ..b
    })
}

/// What the fields of the audio settings do.
pub open spec fn audio_field(b: App, message: Message, a: App) -> bool {
    let form = b.audio_settings_form;
    a == (App {
        audio_settings_form: match message {
            Message::AudioSettingsInputDeviceChanged(id) => AudioSettingsForm {
                input_device: chosen(id),
                ..form
            },
            Message::AudioSettingsOutputDeviceChanged(id) => AudioSettingsForm {
                output_device: chosen(id),
                ..form
            },
            Message::AudioSettingsSrtpToggled(on) => AudioSettingsForm { srtp: on, ..form },
            Message::AudioSettingsDtmfModeChanged(mode) => AudioSettingsForm {
                dtmf_mode: mode,
                ..form
            },
            _ => form,
        },
        ..b
    })
}

/// What moving a codec does.
pub open spec fn on_codec_moved(b: App, index: usize, up: bool, a: App) -> bool {
    &&& a == (App {
        audio_settings_form: AudioSettingsForm {
            codecs: a.audio_settings_form.codecs,
            ..b.audio_settings_form
        },
        ..b
    })
    &&& a.audio_settings_form.codecs@ == if index < b.audio_settings_form.codecs@.len() {
        moved(b.audio_settings_form.codecs@, index as int, up)
    } else {
        b.audio_settings_form.codecs@
    }
}

/// What adding to the deny list does.
pub open spec fn on_deny_added(b: App, a: App) -> bool {
    &&& a == (App {
        settings_form: SettingsForm {
            deny_list: a.settings_form.deny_list,
            deny_list_input: a.settings_form.deny_list_input,
            ..b.settings_form
        },
        ..b
    })
    &&& texts(a.settings_form.deny_list@) == b.settings_form.extended()
    &&& a.settings_form.deny_list_input@.len() == 0
}

/// What removing from the deny list does.
pub open spec fn on_deny_removed(b: App, index: usize, a: App) -> bool {
    &&& a == (App {
        settings_form: SettingsForm { deny_list: a.settings_form.deny_list, ..b.settings_form },
        ..b
    })
    &&& a.settings_form.deny_list@ == if index < b.settings_form.deny_list@.len() {
        b.settings_form.deny_list@.remove(index as int)
    } else {
        b.settings_form.deny_list@
    }
}

/// What cancelling does: the window closes, and no error is shown.
pub open spec fn on_cancel(b: App, window: WindowKind, a: App, out: Seq<Effect>) -> bool {
    &&& a == (App {
        error: None,
        sip_settings_window: b.sip_settings_window && window != WindowKind::SipSettings,
        audio_settings_window: b.audio_settings_window && window != WindowKind::AudioSettings,
        settings_window: b.settings_window && window != WindowKind::Settings,
        ..b
    })
    &&& out == only_if(
        match window {
            WindowKind::Main => false,
            WindowKind::SipSettings => b.sip_settings_window,
            WindowKind::AudioSettings => b.audio_settings_window,
            WindowKind::Settings => b.settings_window,
        },
        Effect::CloseWindow(window),
    )
}

/// What the closing of a window does: the program ends with the main window.
pub open spec fn on_window_closed(b: App, window: WindowKind, a: App, out: Seq<Effect>) -> bool {
    &&& a == (App {
        sip_settings_window: b.sip_settings_window && window != WindowKind::SipSettings,
        audio_settings_window: b.audio_settings_window && window != WindowKind::AudioSettings,
        settings_window: b.settings_window && window != WindowKind::Settings,
        ..b
    })
    &&& out == only_if(window == WindowKind::Main, Effect::Exit)
}

/// What typing into the form of a contact does, if it is open.
pub open spec fn contact_field(b: App, message: Message, a: App) -> bool {
    a == (App {
        contact_form: match b.contact_form {
            Some(form) => Some(
                match message {
                    Message::ContactNameChanged(s) => ContactForm { name: s, ..form },
                    Message::ContactNumberChanged(s) => ContactForm { number: s, ..form },
                    _ => form,
                },
            ),
            None => None,
        },
        ..b
    })
}

/// What composing a new account does: the form is blank.
pub open spec fn on_add_account(b: App, a: App, out: Seq<Effect>) -> bool {
    &&& a == (App {
        editing_account: None,
        sip_settings_form: a.sip_settings_form,
        error: None,
        ..b
    })
    &&& a.sip_settings_form.is_new()
    &&& done(out)
}

/// What composing a new contact does: the form is blank.
pub open spec fn on_add_contact(b: App, a: App, out: Seq<Effect>) -> bool {
    &&& a == (App { contact_form: a.contact_form, ..b })
    &&& (a.contact_form matches Some(form) && form.name@.len() == 0 && form.number@.len() == 0
        && form.editing_index is None)
    &&& done(out)
}

/// What a message does: from the state before it and the time at which it is
/// taken in to the state after it and what is left to do.
pub open spec fn step(b: App, message: Message, now: Moment, a: App, out: Seq<Effect>) -> bool {
    match message {
        Message::Core(account, event) => on_core(b, account, event, now, a, out),
        Message::DialInputChanged(s) => on_dial_input(b, s, a, out),
        Message::DialHistoryToggled => a == (App { dial_history_open: !b.dial_history_open, ..b })
            && done(out),
        Message::DialHistorySelected(number) => a == (App {
            dial_input: number,
            dial_history_open: false,
            ..b
        }) && done(out),
        Message::DialpadPressed(digit) => on_dialpad(b, digit, a, out),
        Message::CallPressed => on_call_pressed(b, a, out),
        Message::AnswerPressed => a == b && out == if b.has_account() {
            to_answer(b.session().line().call, b.selected_account, b.session().at())
        } else {
            Seq::empty()
        },
        Message::RejectPressed => a == b && out == if b.has_account() {
            to_reject(b.session().line().call, b.selected_account)
        } else {
            Seq::empty()
        },
        Message::HangUpPressed => on_hang_up(b, now, a, out),
        Message::PortReserved { account, idx, purpose, outcome } => on_port_reserved(
            b,
            account,
            idx as int,
            purpose,
            outcome,
            a,
            out,
        ),
        Message::MediaReady(account, id, outcome) => on_media_ready(b, account, id, outcome, a, out),
        Message::OpenSipSettings => on_open_sip(b, a, out),
        Message::OpenAudioSettings => on_open_audio(b, a, out),
        Message::SipSettingsNameChanged(_) => sip_field(b, message, a) && done(out),
        Message::SipSettingsHostChanged(_) => sip_field(b, message, a) && done(out),
        Message::SipSettingsPortChanged(_) => sip_field(b, message, a) && done(out),
        Message::SipSettingsUsernameChanged(_) => sip_field(b, message, a) && done(out),
        Message::SipSettingsPasswordChanged(_) => sip_field(b, message, a) && done(out),
        Message::SipSettingsTransportChanged(_) => sip_field(b, message, a) && done(out),
        Message::SipSettingsSavePressed => on_sip_save(b, a, out),
        Message::SipSettingsCancelPressed => on_cancel(b, WindowKind::SipSettings, a, out),
        Message::SelectAccountForEditing(index) => on_edit_account(b, index, a, out),
        Message::AddAccountPressed => on_add_account(b, a, out),
        Message::DeleteAccountPressed(index) => on_delete_account(b, index, a, out),
        Message::AccountSwitched(index) => on_account_switched(b, index, a, out),
        Message::AudioSettingsInputDeviceChanged(_) => audio_field(b, message, a) && done(out),
        Message::AudioSettingsOutputDeviceChanged(_) => audio_field(b, message, a) && done(out),
        Message::AudioSettingsSrtpToggled(_) => audio_field(b, message, a) && done(out),
        Message::AudioSettingsDtmfModeChanged(_) => audio_field(b, message, a) && done(out),
        Message::AudioSettingsCodecMoved(index, up) => on_codec_moved(b, index, up, a) && done(out),
        Message::AudioSettingsSavePressed => on_audio_save(b, a, out),
        Message::AudioSettingsCancelPressed => on_cancel(b, WindowKind::AudioSettings, a, out),
        Message::DevicesLoaded(inputs, outputs) => a == (App {
            input_devices: inputs,
            output_devices: outputs,
            ..b
        }) && done(out),
        Message::OpenSettings => on_open_settings(b, a, out),
        Message::SettingsDndToggled(_) => settings_field(b, message, a) && done(out),
        Message::SettingsAutoAnswerToggled(_) => settings_field(b, message, a) && done(out),
        Message::SettingsForwardingToggled(_) => settings_field(b, message, a) && done(out),
        Message::SettingsForwardingNumberChanged(_) => settings_field(b, message, a) && done(out),
        Message::SettingsDenyListInputChanged(_) => settings_field(b, message, a) && done(out),
        Message::SettingsDenyListAddPressed => on_deny_added(b, a) && done(out),
        Message::SettingsDenyListRemovePressed(index) => on_deny_removed(b, index, a) && done(out),
        Message::SettingsRecordingToggled(_) => settings_field(b, message, a) && done(out),
        Message::SettingsRecordingPathChanged(_) => settings_field(b, message, a) && done(out),
        Message::BrowseRecordingPathPressed => a == b && out == seq![
            Effect::PickRecordingFolder { current: b.settings_form.recording_path },
        ],
        Message::SettingsSecondaryOutputChanged(_) => settings_field(b, message, a) && done(out),
        Message::RefreshSecondaryOutputTargets => a == b && out == seq![
            Effect::ListSecondaryTargets,
        ],
        Message::SecondaryOutputTargetsLoaded(sinks, streams) => a == (App {
            output_devices: sinks,
            app_capture_streams: streams,
            ..b
        }) && done(out),
        Message::SettingsSavePressed => on_settings_save(b, a, out),
        Message::SettingsCancelPressed => on_cancel(b, WindowKind::Settings, a, out),
        Message::MuteToggled => on_mute(b, a, out),
        Message::OutputVolumeChanged(gain) => on_output_volume(b, gain, a, out),
        Message::InputVolumeChanged(gain) => on_input_volume(b, gain, a, out),
        Message::WindowClosed(window) => on_window_closed(b, window, a, out),
        Message::TabSelected(screen) => a == (App { screen, ..b }) && done(out),
        Message::DialNumber(number) => on_dial_number(b, number, a, out),
        Message::RedialPressed => on_redial(b, a, out),
        Message::HoldToggled => on_hold_toggled(b, a, out),
        Message::TransferPanelToggled => on_transfer_toggled(b, a, out),
        Message::TransferTargetChanged(s) => on_transfer_target(b, s, a, out),
        Message::TransferConfirmed => on_transfer_confirmed(b, a, out),
        Message::CompactToggled => a == (App { compact_mode: !b.compact_mode, ..b }) && out == seq![
            Effect::ResizeMain { compact: !b.compact_mode },
        ],
        Message::PostDialAdvance(account, id) => on_post_dial(b, account, id, a, out),
        Message::LineIdleTimeout(account, line) => on_idle_timeout(b, account, line, a, out),
        Message::LineSelected(line) => on_select(b, line, now, a, out),
        Message::AddCallPressed => on_add_call(b, now, a, out),
        Message::JoinCallsPressed => on_join_pressed(b, a, out),
        Message::SplitCallPressed => on_split_pressed(b, a, out),
        Message::ContactFilterChanged(s) => a == (App { contact_filter: s, ..b }) && done(out),
        Message::ContactSortToggled => a == (App { contact_sort: b.contact_sort.other(), ..b })
            && done(out),
        Message::AddContactPressed => on_add_contact(b, a, out),
        Message::EditContactPressed(index) => on_edit_contact(b, index, a, out),
        Message::ContactNameChanged(_) => contact_field(b, message, a) && done(out),
        Message::ContactNumberChanged(_) => contact_field(b, message, a) && done(out),
        Message::ContactSavePressed => on_contact_save(b, a, out),
        Message::ContactCancelPressed => a == (App { contact_form: None, ..b }) && done(out),
        Message::DeleteContactPressed(index) => on_delete_contact(b, index, a, out),
        Message::ContactsLoaded(contacts) => a == (App { contacts, ..b }) && done(out),
        Message::ContactsIoPathChanged(path) => a == (App { contacts_io_path: path, ..b }) && done(
            out,
        ),
        Message::ContactsImportPressed => a == b && out.len() == 1 && (
        out[0] matches Effect::ImportContacts { path } && path@ == trimmed(b.contacts_io_path@)),
        Message::ContactsExportPressed => a == b && out.len() == 1 && (
        out[0] matches Effect::ExportContacts { path } && path@ == trimmed(b.contacts_io_path@)),
        Message::ContactsRead(outcome) => on_contacts_read(b, outcome, a, out),
        Message::ContactsWritten(outcome) => on_contacts_written(b, outcome, a, out),
        Message::BrowseContactsImportPressed => a == b && out == seq![
            Effect::PickImportFile { current: b.contacts_io_path },
        ],
        Message::BrowseContactsExportPressed => a == b && out == seq![
            Effect::PickExportFile { current: b.contacts_io_path },
        ],
    }
}

/// Whether a message is about accounts or settings.
pub open spec fn about_settings(message: Message) -> bool {
    match message {
        Message::OpenSipSettings => true,
        Message::OpenAudioSettings => true,
        Message::SipSettingsNameChanged(_) => true,
        Message::SipSettingsHostChanged(_) => true,
        Message::SipSettingsPortChanged(_) => true,
        Message::SipSettingsUsernameChanged(_) => true,
        Message::SipSettingsPasswordChanged(_) => true,
        Message::SipSettingsTransportChanged(_) => true,
        Message::SipSettingsSavePressed => true,
        Message::SipSettingsCancelPressed => true,
        Message::SelectAccountForEditing(_) => true,
        Message::AddAccountPressed => true,
        Message::DeleteAccountPressed(_) => true,
        Message::AudioSettingsInputDeviceChanged(_) => true,
        Message::AudioSettingsOutputDeviceChanged(_) => true,
        Message::AudioSettingsSrtpToggled(_) => true,
        Message::AudioSettingsDtmfModeChanged(_) => true,
        Message::AudioSettingsCodecMoved(_, _) => true,
        Message::AudioSettingsSavePressed => true,
        Message::AudioSettingsCancelPressed => true,
        Message::OpenSettings => true,
        Message::SettingsDndToggled(_) => true,
        Message::SettingsAutoAnswerToggled(_) => true,
        Message::SettingsForwardingToggled(_) => true,
        Message::SettingsForwardingNumberChanged(_) => true,
        Message::SettingsDenyListInputChanged(_) => true,
        Message::SettingsRecordingToggled(_) => true,
        Message::SettingsRecordingPathChanged(_) => true,
        Message::SettingsSecondaryOutputChanged(_) => true,
        Message::SettingsDenyListAddPressed => true,
        Message::SettingsDenyListRemovePressed(_) => true,
        Message::SettingsSavePressed => true,
        Message::SettingsCancelPressed => true,
        _ => false,
    }
}

/// Whether a message is about contacts, windows, or what the main window shows.
pub open spec fn about_views(message: Message) -> bool {
    match message {
        Message::DialHistoryToggled => true,
        Message::DialHistorySelected(_) => true,
        Message::DevicesLoaded(_, _) => true,
        Message::BrowseRecordingPathPressed => true,
        Message::RefreshSecondaryOutputTargets => true,
        Message::SecondaryOutputTargetsLoaded(_, _) => true,
        Message::WindowClosed(_) => true,
        Message::TabSelected(_) => true,
        Message::CompactToggled => true,
        Message::ContactFilterChanged(_) => true,
        Message::ContactSortToggled => true,
        Message::AddContactPressed => true,
        Message::EditContactPressed(_) => true,
        Message::ContactNameChanged(_) => true,
        Message::ContactNumberChanged(_) => true,
        Message::ContactSavePressed => true,
        Message::ContactCancelPressed => true,
        Message::DeleteContactPressed(_) => true,
        Message::ContactsLoaded(_) => true,
        Message::ContactsIoPathChanged(_) => true,
        Message::ContactsImportPressed => true,
        Message::ContactsExportPressed => true,
        Message::ContactsRead(_) => true,
        Message::ContactsWritten(_) => true,
        Message::BrowseContactsImportPressed => true,
        Message::BrowseContactsExportPressed => true,
        _ => false,
    }
}

fn one(effect: Effect) -> (out: Vec<Effect>)
    ensures
        out@ == seq![effect],
{
    let mut out: Vec<Effect> = Vec::new();
    out.push(effect);
    proof {
        assert(out@ =~= seq![effect]);
    }
    out
}

impl App {
    fn set_sip_field(&mut self, message: Message)
        ensures
            sip_field(*old(self), message, *final(self)),
    {
        match message {
            Message::SipSettingsNameChanged(s) => {
                self.sip_settings_form.name = s;
            },
            Message::SipSettingsHostChanged(s) => {
                self.sip_settings_form.host = s;
            },
            Message::SipSettingsPortChanged(s) => {
                self.sip_settings_form.port = s;
            },
            Message::SipSettingsUsernameChanged(s) => {
                self.sip_settings_form.username = s;
            },
            Message::SipSettingsPasswordChanged(s) => {
                self.sip_settings_form.password = s;
            },
            Message::SipSettingsTransportChanged(t) => {
                self.sip_settings_form.transport = t;
            },
            _ => {},
        }
    }

    fn set_audio_field(&mut self, message: Message)
        ensures
            audio_field(*old(self), message, *final(self)),
    {
        match message {
            Message::AudioSettingsInputDeviceChanged(id) => {
                self.audio_settings_form.input_device = choose_device(id);
            },
            Message::AudioSettingsOutputDeviceChanged(id) => {
                self.audio_settings_form.output_device = choose_device(id);
            },
            Message::AudioSettingsSrtpToggled(on) => {
                self.audio_settings_form.srtp = on;
            },
            Message::AudioSettingsDtmfModeChanged(mode) => {
                self.audio_settings_form.dtmf_mode = mode;
            },
            _ => {},
        }
    }

    fn set_settings_field(&mut self, message: Message)
        ensures
            settings_field(*old(self), message, *final(self)),
    {
        match message {
            Message::SettingsDndToggled(on) => {
                self.settings_form.dnd = on;
            },
            Message::SettingsAutoAnswerToggled(on) => {
                self.settings_form.auto_answer = on;
            },
            Message::SettingsForwardingToggled(on) => {
                self.settings_form.forwarding_enabled = on;
            },
            Message::SettingsForwardingNumberChanged(s) => {
                self.settings_form.forwarding_number = s;
            },
            Message::SettingsDenyListInputChanged(s) => {
                self.settings_form.deny_list_input = s;
            },
            Message::SettingsRecordingToggled(on) => {
                self.settings_form.recording_enabled = on;
            },
            Message::SettingsRecordingPathChanged(s) => {
                self.settings_form.recording_path = s;
            },
            Message::SettingsSecondaryOutputChanged(t) => {
                self.settings_form.secondary_output_target = t;
            },
            _ => {},
        }
    }

    fn set_contact_field(&mut self, message: Message)
        ensures
            contact_field(*old(self), message, *final(self)),
    {
        if let Some(form) = &mut self.contact_form {
            match message {
                Message::ContactNameChanged(s) => {
                    form.name = s;
                },
                Message::ContactNumberChanged(s) => {
                    form.number = s;
                },
                _ => {},
            }
        }
    }

    fn cancel(&mut self, window: WindowKind) -> (out: Vec<Effect>)
        ensures
            on_cancel(*old(self), window, *final(self), out@),
            final(self).accounts == old(self).accounts,
            final(self).selected_account == old(self).selected_account,
    {
        let mut out: Vec<Effect> = Vec::new();
        self.error = None;
        let open = match window {
            WindowKind::Main => false,
            WindowKind::SipSettings => self.sip_settings_window,
            WindowKind::AudioSettings => self.audio_settings_window,
            WindowKind::Settings => self.settings_window,
        };
        if open {
            out.push(Effect::CloseWindow(window));
        }
        self.forget_window(window);
        out
    }

    fn forget_window(&mut self, window: WindowKind)
        ensures
            *final(self) == (App {
                sip_settings_window: old(self).sip_settings_window && window
                    != WindowKind::SipSettings,
                audio_settings_window: old(self).audio_settings_window && window
                    != WindowKind::AudioSettings,
                settings_window: old(self).settings_window && window != WindowKind::Settings,
                ..*old(self)
            }),
    {
        match window {
            WindowKind::Main => {},
            WindowKind::SipSettings => {
                self.sip_settings_window = false;
            },
            WindowKind::AudioSettings => {
                self.audio_settings_window = false;
            },
            WindowKind::Settings => {
                self.settings_window = false;
            },
        }
    }

    /// Takes in a message about contacts, windows, or what the main window
    /// shows.
    fn update_views(&mut self, message: Message, now: Moment) -> (out: Vec<Effect>)
        requires
            old(self).wf(),
            message.fits(*old(self)),
            about_views(message),
        ensures
            final(self).wf(),
            step(*old(self), message, now, *final(self), out@),
    {
        match message {
            Message::DialHistoryToggled => {
                self.dial_history_open = !self.dial_history_open;
                Vec::new()
            },
            Message::DialHistorySelected(number) => {
                self.dial_input = number;
                self.dial_history_open = false;
                Vec::new()
            },
            Message::DevicesLoaded(inputs, outputs) => {
                self.input_devices = inputs;
                self.output_devices = outputs;
                Vec::new()
            },
            Message::BrowseRecordingPathPressed => one(
                Effect::PickRecordingFolder { current: self.settings_form.recording_path.clone() },
            ),
            Message::RefreshSecondaryOutputTargets => one(Effect::ListSecondaryTargets),
            Message::SecondaryOutputTargetsLoaded(sinks, streams) => {
                self.output_devices = sinks;
                self.app_capture_streams = streams;
                Vec::new()
            },
            Message::WindowClosed(window) => {
                self.forget_window(window);
                let mut out: Vec<Effect> = Vec::new();
                if window == WindowKind::Main {
                    out.push(Effect::Exit);
                }
                out
            },
            Message::TabSelected(screen) => {
                self.screen = screen;
                Vec::new()
            },
            Message::CompactToggled => {
                self.compact_mode = !self.compact_mode;
                one(Effect::ResizeMain { compact: self.compact_mode })
            },
            Message::ContactFilterChanged(s) => {
                self.contact_filter = s;
                Vec::new()
            },
            Message::ContactSortToggled => {
                self.contact_sort = self.contact_sort.next();
                Vec::new()
            },
            Message::AddContactPressed => {
                self.contact_form = Some(ContactForm::default());
                Vec::new()
            },
            Message::EditContactPressed(index) => self.handle_edit_contact(index),
            Message::ContactNameChanged(_) | Message::ContactNumberChanged(_) => {
                self.set_contact_field(message);
                Vec::new()
            },
            Message::ContactSavePressed => self.handle_contact_save(),
            Message::ContactCancelPressed => {
                self.contact_form = None;
                Vec::new()
            },
            Message::DeleteContactPressed(index) => self.handle_delete_contact(index),
            Message::ContactsLoaded(contacts) => {
                self.contacts = contacts;
                Vec::new()
            },
            Message::ContactsIoPathChanged(path) => {
                self.contacts_io_path = path;
                Vec::new()
            },
            Message::ContactsImportPressed => one(
                Effect::ImportContacts { path: trim(self.contacts_io_path.as_str()) },
            ),
            Message::ContactsExportPressed => one(
                Effect::ExportContacts { path: trim(self.contacts_io_path.as_str()) },
            ),
            Message::ContactsRead(outcome) => self.handle_contacts_read(outcome),
            Message::ContactsWritten(outcome) => self.handle_contacts_written(outcome),
            Message::BrowseContactsImportPressed => one(
                Effect::PickImportFile { current: self.contacts_io_path.clone() },
            ),
            Message::BrowseContactsExportPressed => one(
                Effect::PickExportFile { current: self.contacts_io_path.clone() },
            ),
            _ => Vec::new(),
        }
    }

    /// Takes in a message about accounts or settings.
    fn update_settings(&mut self, message: Message, now: Moment) -> (out: Vec<Effect>)
        requires
            old(self).wf(),
            message.fits(*old(self)),
            about_settings(message),
        ensures
            final(self).wf(),
            step(*old(self), message, now, *final(self), out@),
    {
        match message {
            Message::OpenSipSettings => self.handle_open_sip(),
            Message::OpenAudioSettings => self.handle_open_audio(),
            Message::SipSettingsNameChanged(_) | Message::SipSettingsHostChanged(_)
            | Message::SipSettingsPortChanged(_) | Message::SipSettingsUsernameChanged(_)
            | Message::SipSettingsPasswordChanged(_) | Message::SipSettingsTransportChanged(_) => {
                self.set_sip_field(message);
                Vec::new()
            },
            Message::SipSettingsSavePressed => self.handle_sip_settings_save(),
            Message::SipSettingsCancelPressed => self.cancel(WindowKind::SipSettings),
            Message::SelectAccountForEditing(index) => self.handle_edit_account(index),
            Message::AddAccountPressed => {
                self.editing_account = None;
                self.sip_settings_form = SipSettingsForm::default();
                self.error = None;
                Vec::new()
            },
            Message::DeleteAccountPressed(index) => self.handle_delete_account(index),
            Message::AudioSettingsInputDeviceChanged(_)
            | Message::AudioSettingsOutputDeviceChanged(_) | Message::AudioSettingsSrtpToggled(_)
            | Message::AudioSettingsDtmfModeChanged(_) => {
                self.set_audio_field(message);
                Vec::new()
            },
            Message::AudioSettingsCodecMoved(index, up) => {
                if index < self.audio_settings_form.codecs.len() {
                    move_codec(&mut self.audio_settings_form.codecs, index, up);
                }
                Vec::new()
            },
            Message::AudioSettingsSavePressed => self.handle_audio_settings_save(),
            Message::AudioSettingsCancelPressed => self.cancel(WindowKind::AudioSettings),
            Message::OpenSettings => self.handle_open_settings(),
            Message::SettingsDndToggled(_) | Message::SettingsAutoAnswerToggled(_)
            | Message::SettingsForwardingToggled(_) | Message::SettingsForwardingNumberChanged(_)
            | Message::SettingsDenyListInputChanged(_) | Message::SettingsRecordingToggled(_)
            | Message::SettingsRecordingPathChanged(_)
            | Message::SettingsSecondaryOutputChanged(_) => {
                self.set_settings_field(message);
                Vec::new()
            },
            Message::SettingsDenyListAddPressed => {
                self.settings_form.add_denied();
                Vec::new()
            },
            Message::SettingsDenyListRemovePressed(index) => {
                if index < self.settings_form.deny_list.len() {
                    let _ = self.settings_form.deny_list.remove(index);
                }
                Vec::new()
            },
            Message::SettingsSavePressed => self.handle_settings_save(),
            Message::SettingsCancelPressed => self.cancel(WindowKind::Settings),
            _ => Vec::new(),
        }
    }

    /// Takes in a message.
    fn take_in(&mut self, message: Message, now: Moment) -> (out: Vec<Effect>)
        requires
            old(self).wf(),
            message.fits(*old(self)),
        ensures
            final(self).wf(),
            step(*old(self), message, now, *final(self), out@),
    {
        match message {
            Message::Core(account, event) => self.handle_core(account, event, now),
            Message::DialInputChanged(s) => self.handle_dial_input(s),
            Message::DialpadPressed(digit) => self.handle_dialpad(digit),
            Message::CallPressed => self.handle_call_pressed(),
            Message::AnswerPressed => self.handle_answer_pressed(),
            Message::RejectPressed => self.handle_reject_pressed(),
            Message::HangUpPressed => self.handle_hang_up_pressed(now),
            Message::PortReserved { account, idx, purpose, outcome } => self.handle_port_reserved(
                account,
                idx,
                purpose,
                outcome,
            ),
            Message::MediaReady(account, id, outcome) => self.handle_media_ready(
                account,
                id,
                outcome,
            ),
            Message::AccountSwitched(index) => self.handle_account_switched(index),
            Message::MuteToggled => self.handle_mute(),
            Message::OutputVolumeChanged(gain) => self.handle_output_volume(gain),
            Message::InputVolumeChanged(gain) => self.handle_input_volume(gain),
            Message::DialNumber(number) => self.handle_dial_number(number),
            Message::RedialPressed => self.handle_redial(),
            Message::HoldToggled => self.handle_hold(),
            Message::TransferPanelToggled => self.handle_transfer_toggled(),
            Message::TransferTargetChanged(s) => self.handle_transfer_target(s),
            Message::TransferConfirmed => self.handle_transfer_confirmed(),
            Message::PostDialAdvance(account, id) => self.handle_post_dial(account, id),
            Message::LineIdleTimeout(account, line) => self.handle_idle_timeout(account, line),
            Message::LineSelected(line) => self.select_line(line, now),
            Message::AddCallPressed => self.handle_add_call(now),
            Message::JoinCallsPressed => self.handle_join_pressed(),
            Message::SplitCallPressed => self.handle_split_pressed(),
            Message::OpenSipSettings
            | Message::OpenAudioSettings
            | Message::SipSettingsNameChanged(_)
            | Message::SipSettingsHostChanged(_)
            | Message::SipSettingsPortChanged(_)
            | Message::SipSettingsUsernameChanged(_)
            | Message::SipSettingsPasswordChanged(_)
            | Message::SipSettingsTransportChanged(_)
            | Message::SipSettingsSavePressed
            | Message::SipSettingsCancelPressed
            | Message::SelectAccountForEditing(_)
            | Message::AddAccountPressed
            | Message::DeleteAccountPressed(_)
            | Message::AudioSettingsInputDeviceChanged(_)
            | Message::AudioSettingsOutputDeviceChanged(_)
            | Message::AudioSettingsSrtpToggled(_)
            | Message::AudioSettingsDtmfModeChanged(_)
            | Message::AudioSettingsCodecMoved(_, _)
            | Message::AudioSettingsSavePressed
            | Message::AudioSettingsCancelPressed
            | Message::OpenSettings
            | Message::SettingsDndToggled(_)
            | Message::SettingsAutoAnswerToggled(_)
            | Message::SettingsForwardingToggled(_)
            | Message::SettingsForwardingNumberChanged(_)
            | Message::SettingsDenyListInputChanged(_)
            | Message::SettingsRecordingToggled(_)
            | Message::SettingsRecordingPathChanged(_)
            | Message::SettingsSecondaryOutputChanged(_)
            | Message::SettingsDenyListAddPressed
            | Message::SettingsDenyListRemovePressed(_)
            | Message::SettingsSavePressed
            | Message::SettingsCancelPressed => self.update_settings(message, now),
            other => self.update_views(other, now),
        }
    }

    /// Takes in a message, and says what is left to do. The ringing starts and
    /// stops with the calls that ring.
    pub fn update(&mut self, message: Message, now: Moment) -> (out: Vec<Effect>)
        requires
            old(self).wf(),
            message.fits(*old(self)),
        ensures
            final(self).wf(),
            took_in(*old(self), message, now, *final(self), out@),
    {
        let ghost b = *self;
        let rang = self.is_ringing();
        let rang_back = self.is_ringing_back();
        let mut out = self.take_in(message, now);
        let ghost inner = out@;
        let rings = self.is_ringing();
        let rings_back = self.is_ringing_back();
        if rang != rings {
            out.push(
                Effect::Tone(
                    if rings {
                        ToneCue::Ring
                    } else {
                        ToneCue::StopRing
                    },
                ),
            );
        }
        if rang_back != rings_back {
            out.push(
                Effect::Tone(
                    if rings_back {
                        ToneCue::Ringback
                    } else {
                        ToneCue::StopRingback
                    },
                ),
            );
        }
        proof {
            assert(out@ =~= inner + ring_cues(b, *self));
            assert(out@.take(out@.len() - ring_cues(b, *self).len()) =~= inner);
            assert(out@.skip(out@.len() - ring_cues(b, *self).len()) =~= ring_cues(b, *self));
        }
        out
    }

    /// Whether a call comes in.
    pub fn is_ringing(&self) -> (r: bool)
        ensures
            r == ringing(self.accounts@),
    {
        let mut i: usize = 0;
        while i < self.accounts.len()
            invariant
                i <= self.accounts@.len(),
                forall|k: int| 0 <= k < i ==> !account_rings(#[trigger] self.accounts@[k]),
            decreases self.accounts.len() - i,
        {
            let mut j: usize = 0;
            while j < self.accounts[i].lines.len()
                invariant
                    i < self.accounts@.len(),
                    j <= self.accounts@[i as int].lines@.len(),
                    forall|k: int|
                        0 <= k < j ==> !((#[trigger] self.accounts@[i as int].lines@[k]).call is Incoming),
                decreases self.accounts@[i as int].lines@.len() - j,
            {
                if let CallUiState::Incoming { .. } = &self.accounts[i].lines[j].call {
                    proof {
                        assert(account_rings(self.accounts@[i as int]));
                    }
                    return true;
                }
                j += 1;
            }
            i += 1;
        }
        false
    }

    /// Whether the other side of a call rings.
    pub fn is_ringing_back(&self) -> (r: bool)
        ensures
            r == ringing_back(self.accounts@),
    {
        let mut i: usize = 0;
        while i < self.accounts.len()
            invariant
                i <= self.accounts@.len(),
                forall|k: int| 0 <= k < i ==> !account_rings_back(#[trigger] self.accounts@[k]),
            decreases self.accounts.len() - i,
        {
            let mut j: usize = 0;
            while j < self.accounts[i].lines.len()
                invariant
                    i < self.accounts@.len(),
                    j <= self.accounts@[i as int].lines@.len(),
                    forall|k: int|
                        0 <= k < j ==> !rings_back((#[trigger] self.accounts@[i as int].lines@[k]).call),
                decreases self.accounts@[i as int].lines@.len() - j,
            {
                if let CallUiState::Outgoing { ringing: true, .. } = &self.accounts[i].lines[j].call {
                    proof {
                        assert(account_rings_back(self.accounts@[i as int]));
                    }
                    return true;
                }
                j += 1;
            }
            i += 1;
        }
        false
    }
}

/// Whether a call comes in on a line of an account.
pub open spec fn account_rings(acc: AccountSession) -> bool {
    exists|i: int| 0 <= i < acc.lines@.len() && (#[trigger] acc.lines@[i]).call is Incoming
}

/// Whether a call comes in.
pub open spec fn ringing(accounts: Seq<AccountSession>) -> bool {
    exists|i: int| 0 <= i < accounts.len() && account_rings(#[trigger] accounts[i])
}

/// Whether the other side of a call rings.
pub open spec fn rings_back(call: CallUiState) -> bool {
    call matches CallUiState::Outgoing { ringing, .. } && ringing
}

/// Whether the other side of a call on a line of an account rings.
pub open spec fn account_rings_back(acc: AccountSession) -> bool {
    exists|i: int| 0 <= i < acc.lines@.len() && rings_back((#[trigger] acc.lines@[i]).call)
}

/// Whether the other side of a call rings.
pub open spec fn ringing_back(accounts: Seq<AccountSession>) -> bool {
    exists|i: int| 0 <= i < accounts.len() && account_rings_back(#[trigger] accounts[i])
}

/// What a change of the calls does to the ringing.
pub open spec fn ring_cues(b: App, a: App) -> Seq<Effect> {
    only_if(
        ringing(b.accounts@) != ringing(a.accounts@),
        Effect::Tone(
            if ringing(a.accounts@) {
                ToneCue::Ring
            } else {
                ToneCue::StopRing
            },
        ),
    ) + only_if(
        ringing_back(b.accounts@) != ringing_back(a.accounts@),
        Effect::Tone(
            if ringing_back(a.accounts@) {
                ToneCue::Ringback
            } else {
                ToneCue::StopRingback
            },
        ),
    )
}

/// What taking a message in does: what the message does, and then what that
/// does to the ringing.
pub open spec fn took_in(b: App, message: Message, now: Moment, a: App, out: Seq<Effect>) -> bool {
    let cues = ring_cues(b, a);
    let n = out.len() - cues.len();
    &&& n >= 0
    &&& step(b, message, now, a, out.take(n))
    &&& out.skip(n) == cues
}

} // verus!
