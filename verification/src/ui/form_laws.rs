//! What the user types into forms, and what becomes of it.

use vstd::prelude::*;

use crate::media::devices::AudioDevice;
use crate::signaling::config::{DtmfMode, PreferredCodec, SipTransport};
use crate::text::{blank_iff_trimmed_empty, decimal, opt_text, texts, trimmed, unsigned};
use crate::ui::app::{App, ContactForm};
use crate::ui::contacts::Contact;
use crate::ui::effect::{Effect, WindowKind};
use crate::ui::forms::debug_text;
use crate::ui::message::{Message, Moment};
use crate::ui::session::AccountSession;
use crate::ui::settings::{AppSettings, AudioSettingsForm, Screen, SettingsForm, SipSettingsForm};
use crate::ui::update::step;

verus! {

// ---------------------------------------------------------------------------
// Accounts

/// Each field of the SIP settings takes what is typed into it, and no other does.
pub proof fn account_fields_take_what_is_typed(
    b: App,
    s: String,
    t: SipTransport,
    now: Moment,
    a: App,
    out: Seq<Effect>,
)
    ensures
        step(b, Message::SipSettingsNameChanged(s), now, a, out) ==> out.len() == 0 && a == (App {
            sip_settings_form: SipSettingsForm { name: s, ..b.sip_settings_form },
            ..b
        }),
        step(b, Message::SipSettingsHostChanged(s), now, a, out) ==> out.len() == 0 && a == (App {
            sip_settings_form: SipSettingsForm { host: s, ..b.sip_settings_form },
            ..b
        }),
        step(b, Message::SipSettingsPortChanged(s), now, a, out) ==> out.len() == 0 && a == (App {
            sip_settings_form: SipSettingsForm { port: s, ..b.sip_settings_form },
            ..b
        }),
        step(b, Message::SipSettingsUsernameChanged(s), now, a, out) ==> out.len() == 0 && a == (
        App { sip_settings_form: SipSettingsForm { username: s, ..b.sip_settings_form }, ..b }),
        step(b, Message::SipSettingsPasswordChanged(s), now, a, out) ==> out.len() == 0 && a == (
        App { sip_settings_form: SipSettingsForm { password: s, ..b.sip_settings_form }, ..b }),
        step(b, Message::SipSettingsTransportChanged(t), now, a, out) ==> out.len() == 0 && a == (
        App { sip_settings_form: SipSettingsForm { transport: t, ..b.sip_settings_form }, ..b }),
{
}

/// Whether a form holds what an account needs.
pub open spec fn is_complete(form: SipSettingsForm) -> bool {
    &&& unsigned(trimmed(form.port@), 65535) is Some
    &&& trimmed(form.host@).len() > 0
    &&& trimmed(form.username@).len() > 0
}

/// Whether an account is what a form says, apart from what the form leaves to
/// other settings: without a name it goes by its user and its server.
pub open spec fn is_as_typed(acc: AccountSession, form: SipSettingsForm) -> bool {
    &&& acc.config.sip_server_host@ == trimmed(form.host@)
    &&& Some(acc.config.sip_server_port as nat) == unsigned(trimmed(form.port@), 65535)
    &&& acc.config.username@ == trimmed(form.username@)
    &&& acc.config.password@ == form.password@
    &&& acc.config.transport == form.transport
    &&& acc.config.name@ == if trimmed(form.name@).len() == 0 {
        trimmed(form.username@) + seq!['@'] + trimmed(form.host@)
    } else {
        trimmed(form.name@)
    }
}

/// What is missing is told, the port first, and nothing is saved.
pub proof fn incomplete_accounts_are_not_saved(b: App, now: Moment, a: App, out: Seq<Effect>)
    requires
        step(b, Message::SipSettingsSavePressed, now, a, out),
        !is_complete(b.sip_settings_form),
    ensures
        a == (App { error: a.error, ..b }),
        out.len() == 0,
        unsigned(trimmed(b.sip_settings_form.port@), 65535) is None ==> opt_text(a.error) == Some(
            "invalid port: "@ + debug_text(b.sip_settings_form.port@),
        ),
        unsigned(trimmed(b.sip_settings_form.port@), 65535) is Some ==> opt_text(a.error) == Some(
            "server and username are required"@,
        ),
{
    blank_iff_trimmed_empty(b.sip_settings_form.host@);
    blank_iff_trimmed_empty(b.sip_settings_form.username@);
}

/// The account that is edited becomes what was typed and is saved: its calls, its
/// other settings and the other accounts stay, and it counts one save more, so
/// that it registers anew.
pub proof fn edited_accounts_become_what_was_typed(
    b: App,
    i: usize,
    now: Moment,
    a: App,
    out: Seq<Effect>,
)
    requires
        step(b, Message::SipSettingsSavePressed, now, a, out),
        is_complete(b.sip_settings_form),
        b.editing_account == Some(i),
        i < b.accounts@.len(),
    ensures
        is_as_typed(a.accounts@[i as int], b.sip_settings_form),
        a.accounts@.len() == b.accounts@.len(),
        forall|k: int| 0 <= k < b.accounts@.len() && k != i ==> #[trigger] a.accounts@[k]
            == b.accounts@[k],
        a.accounts@[i as int].lines == b.accounts@[i as int].lines,
        a.accounts@[i as int].selected_line == b.accounts@[i as int].selected_line,
        a.accounts@[i as int].registration == b.accounts@[i as int].registration,
        a.accounts@[i as int].config.srtp == b.accounts@[i as int].config.srtp,
        a.accounts@[i as int].config.dtmf_mode == b.accounts@[i as int].config.dtmf_mode,
        a.accounts@[i as int].config.register_expires
            == b.accounts@[i as int].config.register_expires,
        a.accounts@[i as int].config.local_port == b.accounts@[i as int].config.local_port,
        a.accounts@[i as int].config.preferred_codecs@
            == b.accounts@[i as int].config.preferred_codecs@,
        b.accounts@[i as int].config.reg_epoch < u64::MAX
            ==> a.accounts@[i as int].config.reg_epoch == b.accounts@[i as int].config.reg_epoch
            + 1,
        a.error is None,
        a.selected_account == b.selected_account,
        a.editing_account == Some(i),
        out == seq![Effect::SaveAccounts],
{
    let form = b.sip_settings_form;
    blank_iff_trimmed_empty(form.host@);
    blank_iff_trimmed_empty(form.username@);
    blank_iff_trimmed_empty(form.name@);
    assert(a.accounts@[i as int].config@.sip_server_host == trimmed(form.host@));
    assert(a.accounts@[i as int].config@.srtp == b.accounts@[i as int].config@.srtp);
}

/// A new account is added behind the others as it was typed, idle and about to
/// register, and is the one that is edited from then on. The first one is
/// selected.
pub proof fn new_accounts_are_added_at_the_end(
    b: App,
    now: Moment,
    a: App,
    out: Seq<Effect>,
)
    requires
        step(b, Message::SipSettingsSavePressed, now, a, out),
        is_complete(b.sip_settings_form),
        b.editing_account is None,
        b.accounts@.len() < usize::MAX,
    ensures
        a.accounts@.len() == b.accounts@.len() + 1,
        forall|k: int| 0 <= k < b.accounts@.len() ==> #[trigger] a.accounts@[k] == b.accounts@[k],
        is_as_typed(a.accounts@.last(), b.sip_settings_form),
        a.accounts@.last().registration is Connecting,
        a.accounts@.last().lines@.len() == 5,
        forall|k: int| 0 <= k < 5 ==> (#[trigger] a.accounts@.last().lines@[k]).call is Idle,
        a.accounts@.last().selected_line == 1,
        a.accounts@.last().config.register_expires == 3600,
        a.accounts@.last().config.local_port == 0,
        !a.accounts@.last().config.srtp,
        a.accounts@.last().config.preferred_codecs@ == seq![
            PreferredCodec::Ulaw,
            PreferredCodec::Alaw,
        ],
        a.editing_account == Some(b.accounts@.len() as usize),
        b.accounts@.len() == 0 ==> a.selected_account == 0,
        b.accounts@.len() > 0 ==> a.selected_account == b.selected_account,
        a.error is None,
        out == seq![Effect::SaveAccounts],
{
    let form = b.sip_settings_form;
    blank_iff_trimmed_empty(form.host@);
    blank_iff_trimmed_empty(form.username@);
    blank_iff_trimmed_empty(form.name@);
    let fresh = a.accounts@.last();
    assert(fresh.config@.sip_server_host == trimmed(form.host@));
    assert forall|k: int| 0 <= k < 5 implies (#[trigger] a.accounts@.last().lines@[k]).call is Idle by {
        assert(fresh.lines@[k].fresh());
    }
}

/// A deleted account is gone and all that belongs to it is dropped; the others
/// keep their order, and what was selected and edited stays in range.
pub proof fn deleted_accounts_are_gone(
    b: App,
    index: usize,
    now: Moment,
    a: App,
    out: Seq<Effect>,
)
    requires
        b.wf(),
        step(b, Message::DeleteAccountPressed(index), now, a, out),
    ensures
        index >= b.accounts@.len() ==> a == b && out.len() == 0,
        index < b.accounts@.len() ==> {
            &&& a.accounts@.len() == b.accounts@.len() - 1
            &&& forall|k: int| 0 <= k < index ==> #[trigger] a.accounts@[k] == b.accounts@[k]
            &&& forall|k: int|
                index <= k < a.accounts@.len() ==> #[trigger] a.accounts@[k] == b.accounts@[k + 1]
            &&& a.accounts@.len() > 0 ==> a.selected_account < a.accounts@.len()
            &&& b.selected_account < a.accounts@.len() ==> a.selected_account
                == b.selected_account
            &&& a.accounts@.len() == 0 ==> a.selected_account == 0
            &&& b.editing_account == Some(index) && a.accounts@.len() > 0 ==> a.editing_account
                == Some(0usize) && a.sip_settings_form.host
                == a.accounts@[0].config.sip_server_host
            &&& b.editing_account == Some(index) && a.accounts@.len() == 0 ==> a.editing_account
                is None && a.sip_settings_form.host@.len() == 0
            &&& (b.editing_account matches Some(e) && e > index) ==> a.editing_account == Some(
                (b.editing_account->0 - 1) as usize,
            )
            &&& (b.editing_account matches Some(e) && e < index) ==> a.editing_account
                == b.editing_account
            &&& out == seq![Effect::DropAccount { account: index }, Effect::SaveAccounts]
        },
{
}

/// Whether the SIP settings show an account.
pub open spec fn shown_as(form: SipSettingsForm, acc: AccountSession) -> bool {
    &&& form.name@ == acc.config.name@
    &&& form.host@ == acc.config.sip_server_host@
    &&& form.port@ == decimal(acc.config.sip_server_port as nat)
    &&& form.username@ == acc.config.username@
    &&& form.password@ == acc.config.password@
    &&& form.transport == acc.config.transport
}

/// Whether the SIP settings are blank.
pub open spec fn shown_blank(form: SipSettingsForm) -> bool {
    &&& form.name@.len() == 0 && form.host@.len() == 0 && form.port@.len() == 0
    &&& form.username@.len() == 0 && form.password@.len() == 0
    &&& form.transport == SipTransport::Udp
}

/// The SIP settings show the account that is edited: the selected one when they
/// are opened, any other once it is picked, and nothing for a new one.
pub proof fn account_forms_show_the_account(
    b: App,
    index: usize,
    now: Moment,
    a: App,
    out: Seq<Effect>,
)
    requires
        b.wf(),
    ensures
        step(b, Message::OpenSipSettings, now, a, out) ==> {
            &&& a.sip_settings_window
            &&& a.error is None
            &&& a.accounts == b.accounts
            &&& b.accounts@.len() == 0 ==> a.editing_account is None && shown_blank(
                a.sip_settings_form,
            )
            &&& b.accounts@.len() > 0 ==> a.editing_account == Some(b.selected_account)
                && shown_as(a.sip_settings_form, b.accounts@[b.selected_account as int])
            &&& !b.sip_settings_window ==> out == seq![Effect::OpenWindow(WindowKind::SipSettings)]
            &&& b.sip_settings_window ==> out == seq![Effect::FocusWindow(WindowKind::SipSettings)]
        },
        step(b, Message::SelectAccountForEditing(index), now, a, out) ==> {
            &&& out.len() == 0
            &&& index >= b.accounts@.len() ==> a == b
            &&& index < b.accounts@.len() ==> a.editing_account == Some(index) && shown_as(
                a.sip_settings_form,
                b.accounts@[index as int],
            ) && a.error is None && a.accounts == b.accounts
        },
        step(b, Message::AddAccountPressed, now, a, out) ==> {
            &&& out.len() == 0
            &&& a.editing_account is None
            &&& shown_blank(a.sip_settings_form)
            &&& a.error is None
            &&& a.accounts == b.accounts
        },
{
}

// ---------------------------------------------------------------------------
// Audio

/// Each field of the audio settings takes what is chosen, and no other does; no
/// name stands for no device.
pub proof fn audio_fields_take_what_is_chosen(
    b: App,
    id: String,
    on: bool,
    mode: DtmfMode,
    now: Moment,
    a: App,
    out: Seq<Effect>,
)
    ensures
        step(b, Message::AudioSettingsInputDeviceChanged(id), now, a, out) ==> out.len() == 0 && a
            == (App {
            audio_settings_form: AudioSettingsForm {
                input_device: if id@.len() == 0 {
                    None
                } else {
                    Some(id)
                },
                ..b.audio_settings_form
            },
            ..b
        }),
        step(b, Message::AudioSettingsOutputDeviceChanged(id), now, a, out) ==> out.len() == 0 && a
            == (App {
            audio_settings_form: AudioSettingsForm {
                output_device: if id@.len() == 0 {
                    None
                } else {
                    Some(id)
                },
                ..b.audio_settings_form
            },
            ..b
        }),
        step(b, Message::AudioSettingsSrtpToggled(on), now, a, out) ==> out.len() == 0 && a == (
        App { audio_settings_form: AudioSettingsForm { srtp: on, ..b.audio_settings_form }, ..b }),
        step(b, Message::AudioSettingsDtmfModeChanged(mode), now, a, out) ==> out.len() == 0 && a
            == (App {
            audio_settings_form: AudioSettingsForm { dtmf_mode: mode, ..b.audio_settings_form },
            ..b
        }),
{
}

/// A codec that is moved changes places with the one above or below it; the first
/// cannot go up, nor the last down.
pub proof fn codecs_change_places(
    b: App,
    index: usize,
    up: bool,
    now: Moment,
    a: App,
    out: Seq<Effect>,
)
    requires
        step(b, Message::AudioSettingsCodecMoved(index, up), now, a, out),
    ensures
        out.len() == 0,
        a.accounts == b.accounts,
        ({
            let before = b.audio_settings_form.codecs@;
            let after = a.audio_settings_form.codecs@;
            let n = before.len();
            &&& up && 0 < index < n ==> after == before.take(index - 1) + seq![
                before[index as int],
                before[index - 1],
            ] + before.skip(index + 1)
            &&& !up && index + 1 < n ==> after == before.take(index as int) + seq![
                before[index + 1],
                before[index as int],
            ] + before.skip(index + 2)
            &&& (up && index == 0) || (!up && index + 1 >= n) || index >= n ==> after == before
        }),
{
    let before = b.audio_settings_form.codecs@;
    let after = a.audio_settings_form.codecs@;
    let n = before.len();
    if up && 0 < index < n {
        assert(after =~= before.take(index - 1) + seq![before[index as int], before[index - 1]]
            + before.skip(index + 1));
    }
    if !up && index + 1 < n {
        assert(after =~= before.take(index as int) + seq![before[index + 1], before[index as int]]
            + before.skip(index + 2));
    }
}

/// Opening the audio settings shows the selected account's, and the devices are
/// listed anew where the window was closed. Saving them gives the account its
/// codecs, its encryption and its way to send digits, sets the devices and closes
/// the window.
pub proof fn audio_settings_are_shown_and_saved(b: App, now: Moment, a: App, out: Seq<Effect>)
    requires
        b.wf(),
        b.selected_account < b.accounts@.len(),
    ensures
        step(b, Message::OpenAudioSettings, now, a, out) ==> {
            let form = a.audio_settings_form;
            let acc = b.accounts@[b.selected_account as int];
            &&& a.audio_settings_window
            &&& a.accounts == b.accounts
            &&& form.input_device == b.audio_devices.input_device
            &&& form.output_device == b.audio_devices.output_device
            &&& form.srtp == acc.config.srtp
            &&& form.dtmf_mode == acc.config.dtmf_mode
            &&& !b.audio_settings_window ==> out == seq![
                Effect::OpenWindow(WindowKind::AudioSettings),
                Effect::ListDevices,
            ]
            &&& b.audio_settings_window ==> out == seq![
                Effect::FocusWindow(WindowKind::AudioSettings),
            ]
        },
        step(b, Message::AudioSettingsSavePressed, now, a, out) ==> {
            let form = b.audio_settings_form;
            let before = b.accounts@[b.selected_account as int];
            let after = a.accounts@[b.selected_account as int];
            &&& a.audio_devices.input_device == form.input_device
            &&& a.audio_devices.output_device == form.output_device
            &&& after.config.srtp == form.srtp
            &&& after.config.dtmf_mode == form.dtmf_mode
            &&& after.config.preferred_codecs@ == form.codecs@
            &&& after.config.sip_server_host@ == before.config.sip_server_host@
            &&& after.config.reg_epoch == before.config.reg_epoch
            &&& after.lines == before.lines
            &&& a.accounts@.len() == b.accounts@.len()
            &&& forall|k: int|
                0 <= k < b.accounts@.len() && k != b.selected_account ==> #[trigger] a.accounts@[k]
                    == b.accounts@[k]
            &&& !a.audio_settings_window
            &&& b.audio_settings_window ==> out == seq![
                Effect::SaveAccounts,
                Effect::SaveAudioDevices,
                Effect::CloseWindow(WindowKind::AudioSettings),
            ]
            &&& !b.audio_settings_window ==> out == seq![
                Effect::SaveAccounts,
                Effect::SaveAudioDevices,
            ]
        },
{
    if step(b, Message::OpenAudioSettings, now, a, out) {
        if b.audio_settings_window {
            assert(out =~= seq![Effect::FocusWindow(WindowKind::AudioSettings)]);
        } else {
            assert(out =~= seq![
                Effect::OpenWindow(WindowKind::AudioSettings),
                Effect::ListDevices,
            ]);
        }
    }
    if step(b, Message::AudioSettingsSavePressed, now, a, out) {
        let i = b.selected_account as int;
        assert(a.accounts@[i].config@.srtp == b.audio_settings_form.srtp);
        if b.audio_settings_window {
            assert(out =~= seq![
                Effect::SaveAccounts,
                Effect::SaveAudioDevices,
                Effect::CloseWindow(WindowKind::AudioSettings),
            ]);
        } else {
            assert(out =~= seq![Effect::SaveAccounts, Effect::SaveAudioDevices]);
        }
    }
}

// ---------------------------------------------------------------------------
// Settings

/// Each field of the settings takes what is chosen or typed, and no other does.
pub proof fn settings_fields_take_what_is_chosen(
    b: App,
    on: bool,
    s: String,
    t: Option<String>,
    now: Moment,
    a: App,
    out: Seq<Effect>,
)
    ensures
        step(b, Message::SettingsDndToggled(on), now, a, out) ==> out.len() == 0 && a == (App {
            settings_form: SettingsForm { dnd: on, ..b.settings_form },
            ..b
        }),
        step(b, Message::SettingsAutoAnswerToggled(on), now, a, out) ==> out.len() == 0 && a == (
        App { settings_form: SettingsForm { auto_answer: on, ..b.settings_form }, ..b }),
        step(b, Message::SettingsForwardingToggled(on), now, a, out) ==> out.len() == 0 && a == (
        App { settings_form: SettingsForm { forwarding_enabled: on, ..b.settings_form }, ..b }),
        step(b, Message::SettingsForwardingNumberChanged(s), now, a, out) ==> out.len() == 0 && a
            == (App {
            settings_form: SettingsForm { forwarding_number: s, ..b.settings_form },
            ..b
        }),
        step(b, Message::SettingsDenyListInputChanged(s), now, a, out) ==> out.len() == 0 && a == (
        App { settings_form: SettingsForm { deny_list_input: s, ..b.settings_form }, ..b }),
        step(b, Message::SettingsRecordingToggled(on), now, a, out) ==> out.len() == 0 && a == (
        App { settings_form: SettingsForm { recording_enabled: on, ..b.settings_form }, ..b }),
        step(b, Message::SettingsRecordingPathChanged(s), now, a, out) ==> out.len() == 0 && a == (
        App { settings_form: SettingsForm { recording_path: s, ..b.settings_form }, ..b }),
        step(b, Message::SettingsSecondaryOutputChanged(t), now, a, out) ==> out.len() == 0 && a
            == (App {
            settings_form: SettingsForm { secondary_output_target: t, ..b.settings_form },
            ..b
        }),
{
}

/// What is typed for the deny list is added at its end without the white space
/// around it, unless it is blank or there already, and the field is cleared; an
/// entry that is removed is gone, and the others keep their order.
pub proof fn deny_list_grows_and_shrinks(
    b: App,
    index: usize,
    now: Moment,
    a: App,
    out: Seq<Effect>,
)
    ensures
        step(b, Message::SettingsDenyListAddPressed, now, a, out) ==> {
            let before = texts(b.settings_form.deny_list@);
            let after = texts(a.settings_form.deny_list@);
            let entry = trimmed(b.settings_form.deny_list_input@);
            &&& out.len() == 0
            &&& a.settings == b.settings
            &&& a.settings_form.deny_list_input@.len() == 0
            &&& entry.len() == 0 || (exists|k: int|
                0 <= k < before.len() && #[trigger] before[k] == entry) ==> after == before
            &&& entry.len() > 0 && (forall|k: int|
                0 <= k < before.len() ==> #[trigger] before[k] != entry) ==> after == before
                + seq![entry]
        },
        step(b, Message::SettingsDenyListRemovePressed(index), now, a, out) ==> {
            let before = b.settings_form.deny_list@;
            let after = a.settings_form.deny_list@;
            &&& out.len() == 0
            &&& a.settings == b.settings
            &&& index >= before.len() ==> after == before
            &&& index < before.len() ==> after == before.take(index as int) + before.skip(index + 1)
        },
{
    blank_iff_trimmed_empty(b.settings_form.deny_list_input@);
    if step(b, Message::SettingsDenyListAddPressed, now, a, out) {
        let before = texts(b.settings_form.deny_list@);
        let entry = trimmed(b.settings_form.deny_list_input@);
        assert(before.push(entry) =~= before + seq![entry]);
    }
    if step(b, Message::SettingsDenyListRemovePressed(index), now, a, out) {
        let before = b.settings_form.deny_list@;
        if index < before.len() {
            assert(before.remove(index as int) =~= before.take(index as int) + before.skip(
                index + 1,
            ));
        }
    }
}

/// The settings are shown as they are when they are opened, and become what was
/// chosen when they are saved, each in its place, without the white space around
/// what was typed; the window closes.
pub proof fn settings_are_shown_and_saved(b: App, now: Moment, a: App, out: Seq<Effect>)
    ensures
        step(b, Message::OpenSettings, now, a, out) ==> {
            let form = a.settings_form;
            let kept = b.settings;
            &&& a.settings_window && a.settings == kept
            &&& form.dnd == kept.dnd && form.auto_answer == kept.auto_answer
            &&& form.forwarding_enabled == kept.forwarding_enabled
            &&& form.forwarding_number@ == kept.forwarding_number@
            &&& form.deny_list@ == kept.deny_list@
            &&& form.deny_list_input@.len() == 0
            &&& form.recording_enabled == kept.recording_enabled
            &&& form.recording_path@ == kept.recording_path@
            &&& form.secondary_output_target == kept.secondary_output_target
            &&& out.len() == 2
            &&& !b.settings_window ==> out[0] == Effect::OpenWindow(WindowKind::Settings)
            &&& b.settings_window ==> out[0] == Effect::FocusWindow(WindowKind::Settings)
            &&& out[1] == Effect::ListSecondaryTargets
        },
        step(b, Message::SettingsSavePressed, now, a, out) ==> {
            let form = b.settings_form;
            let kept = a.settings;
            &&& !a.settings_window && a.error is None && a.accounts == b.accounts
            &&& form.dnd == kept.dnd && form.auto_answer == kept.auto_answer
            &&& form.forwarding_enabled == kept.forwarding_enabled
            &&& kept.forwarding_number@ == trimmed(form.forwarding_number@)
            &&& form.deny_list@ == kept.deny_list@
            &&& form.recording_enabled == kept.recording_enabled
            &&& kept.recording_path@ == trimmed(form.recording_path@)
            &&& form.secondary_output_target == kept.secondary_output_target
            &&& out[0] == Effect::SaveSettings
            &&& b.settings_window ==> out.len() == 2 && out[1] == Effect::CloseWindow(
                WindowKind::Settings,
            )
            &&& !b.settings_window ==> out.len() == 1
        },
{
}

/// A call is unwanted where no call is wanted at all, or where an entry of the
/// deny list, without the white space around it, is a part of the caller.
pub proof fn deny_list_goes_by_parts(settings: AppSettings, caller: Seq<char>, k: int, at: int)
    ensures
        settings.dnd ==> settings.denied(caller),
        ({
            &&& 0 <= k < settings.deny_list@.len()
            &&& trimmed(settings.deny_list@[k]@).len() > 0
            &&& 0 <= at
            &&& at + trimmed(settings.deny_list@[k]@).len() <= caller.len()
            &&& caller.subrange(at, at + trimmed(settings.deny_list@[k]@).len()) == trimmed(
                settings.deny_list@[k]@,
            )
        }) ==> settings.denied(caller),
        !settings.dnd && settings.deny_list@.len() == 0 ==> !settings.denied(caller),
        !settings.dnd && settings.denied(caller) ==> exists|i: int, j: int|
            0 <= i < settings.deny_list@.len() && trimmed(
                (#[trigger] settings.deny_list@[i])@,
            ).len() > 0 && 0 <= j && j + trimmed(settings.deny_list@[i]@).len() <= caller.len()
                && #[trigger] caller.subrange(j, j + trimmed(settings.deny_list@[i]@).len())
                == trimmed(settings.deny_list@[i]@),
{
    if 0 <= k < settings.deny_list@.len() {
        let entry = settings.deny_list@[k]@;
        blank_iff_trimmed_empty(entry);
        if trimmed(entry).len() > 0 && crate::text::occurs_at(caller, trimmed(entry), at) {
            assert(crate::text::contains_text(caller, trimmed(entry)));
            assert(crate::ui::settings::about(settings.deny_list@[k]@, caller));
        }
    }
    if !settings.dnd && settings.denied(caller) {
        let i = choose|i: int|
            0 <= i < settings.deny_list@.len() && crate::ui::settings::about(
                #[trigger] settings.deny_list@[i]@,
                caller,
            );
        let entry = trimmed(settings.deny_list@[i]@);
        blank_iff_trimmed_empty(settings.deny_list@[i]@);
        let j = choose|j: int| crate::text::occurs_at(caller, entry, j);
        assert(caller.subrange(j, j + entry.len()) == entry);
    }
}

// ---------------------------------------------------------------------------
// Windows and views

/// Closing a window, by the user or by cancelling, closes that window and no
/// other; the program ends with the main window alone. Cancelling saves nothing.
pub proof fn windows_close_one_by_one(b: App, now: Moment, a: App, out: Seq<Effect>)
    ensures
        step(b, Message::WindowClosed(WindowKind::Main), now, a, out) ==> a == b && out == seq![
            Effect::Exit,
        ],
        step(b, Message::WindowClosed(WindowKind::SipSettings), now, a, out) ==> a == (App {
            sip_settings_window: false,
            ..b
        }) && out.len() == 0,
        step(b, Message::WindowClosed(WindowKind::AudioSettings), now, a, out) ==> a == (App {
            audio_settings_window: false,
            ..b
        }) && out.len() == 0,
        step(b, Message::WindowClosed(WindowKind::Settings), now, a, out) ==> a == (App {
            settings_window: false,
            ..b
        }) && out.len() == 0,
        step(b, Message::SipSettingsCancelPressed, now, a, out) ==> a == (App {
            sip_settings_window: false,
            error: None,
            ..b
        }) && (b.sip_settings_window ==> out == seq![Effect::CloseWindow(WindowKind::SipSettings)])
            && (!b.sip_settings_window ==> out.len() == 0),
        step(b, Message::AudioSettingsCancelPressed, now, a, out) ==> a == (App {
            audio_settings_window: false,
            error: None,
            ..b
        }) && (b.audio_settings_window ==> out == seq![
            Effect::CloseWindow(WindowKind::AudioSettings),
        ]) && (!b.audio_settings_window ==> out.len() == 0),
        step(b, Message::SettingsCancelPressed, now, a, out) ==> a == (App {
            settings_window: false,
            error: None,
            ..b
        }) && (b.settings_window ==> out == seq![Effect::CloseWindow(WindowKind::Settings)]) && (
        !b.settings_window ==> out.len() == 0),
{
}

/// What the main window shows is what the user asks for.
pub proof fn views_follow_the_user(
    b: App,
    screen: Screen,
    s: String,
    first: Vec<AudioDevice>,
    second: Vec<AudioDevice>,
    contacts: Vec<Contact>,
    now: Moment,
    a: App,
    out: Seq<Effect>,
)
    ensures
        step(b, Message::TabSelected(screen), now, a, out) ==> a == (App { screen, ..b })
            && out.len() == 0,
        step(b, Message::CompactToggled, now, a, out) ==> a == (App {
            compact_mode: !b.compact_mode,
            ..b
        }) && out == seq![Effect::ResizeMain { compact: !b.compact_mode }],
        step(b, Message::DialHistoryToggled, now, a, out) ==> a == (App {
            dial_history_open: !b.dial_history_open,
            ..b
        }) && out.len() == 0,
        step(b, Message::DialHistorySelected(s), now, a, out) ==> a == (App {
            dial_input: s,
            dial_history_open: false,
            ..b
        }) && out.len() == 0,
        step(b, Message::ContactFilterChanged(s), now, a, out) ==> a == (App {
            contact_filter: s,
            ..b
        }) && out.len() == 0,
        step(b, Message::ContactSortToggled, now, a, out) ==> out.len() == 0 && a == (App {
            contact_sort: a.contact_sort,
            ..b
        }) && a.contact_sort != b.contact_sort,
        step(b, Message::ContactsIoPathChanged(s), now, a, out) ==> a == (App {
            contacts_io_path: s,
            ..b
        }) && out.len() == 0,
        step(b, Message::DevicesLoaded(first, second), now, a, out) ==> a == (App {
            input_devices: first,
            output_devices: second,
            ..b
        }) && out.len() == 0,
        step(b, Message::SecondaryOutputTargetsLoaded(first, second), now, a, out) ==> a == (App {
            output_devices: first,
            app_capture_streams: second,
            ..b
        }) && out.len() == 0,
        step(b, Message::ContactsLoaded(contacts), now, a, out) ==> a == (App { contacts, ..b })
            && out.len() == 0,
        step(b, Message::RefreshSecondaryOutputTargets, now, a, out) ==> a == b && out == seq![
            Effect::ListSecondaryTargets,
        ],
        step(b, Message::BrowseRecordingPathPressed, now, a, out) ==> a == b && out == seq![
            Effect::PickRecordingFolder { current: b.settings_form.recording_path },
        ],
        step(b, Message::BrowseContactsImportPressed, now, a, out) ==> a == b && out == seq![
            Effect::PickImportFile { current: b.contacts_io_path },
        ],
        step(b, Message::BrowseContactsExportPressed, now, a, out) ==> a == b && out == seq![
            Effect::PickExportFile { current: b.contacts_io_path },
        ],
        step(b, Message::ContactsImportPressed, now, a, out) ==> a == b && out.len() == 1 && (
        out[0] matches Effect::ImportContacts { path } && path@ == trimmed(b.contacts_io_path@)),
        step(b, Message::ContactsExportPressed, now, a, out) ==> a == b && out.len() == 1 && (
        out[0] matches Effect::ExportContacts { path } && path@ == trimmed(b.contacts_io_path@)),
{
}

// ---------------------------------------------------------------------------
// Contacts

/// The form of a contact is blank for a new one and shows one that is edited;
/// each field takes what is typed, and cancelling closes it.
pub proof fn contact_forms_show_the_contact(
    b: App,
    form: ContactForm,
    index: usize,
    s: String,
    now: Moment,
    a: App,
    out: Seq<Effect>,
)
    ensures
        step(b, Message::AddContactPressed, now, a, out) ==> out.len() == 0 && a == (App {
            contact_form: a.contact_form,
            ..b
        }) && (a.contact_form matches Some(f) && f.name@.len() == 0 && f.number@.len() == 0
            && f.editing_index is None),
        step(b, Message::EditContactPressed(index), now, a, out) && index < b.contacts@.len()
            ==> out.len() == 0 && a == (App { contact_form: a.contact_form, ..b }) && (
        a.contact_form matches Some(f) && f.name@ == b.contacts@[index as int].name@ && f.number@
            == b.contacts@[index as int].number@ && f.editing_index == Some(index)),
        step(b, Message::EditContactPressed(index), now, a, out) && index >= b.contacts@.len()
            ==> a == b && out.len() == 0,
        step(b, Message::ContactNameChanged(s), now, a, out) && b.contact_form == Some(form)
            ==> out.len() == 0 && a == (App {
            contact_form: Some(ContactForm { name: s, ..form }),
            ..b
        }),
        step(b, Message::ContactNumberChanged(s), now, a, out) && b.contact_form == Some(form)
            ==> out.len() == 0 && a == (App {
            contact_form: Some(ContactForm { number: s, ..form }),
            ..b
        }),
        step(b, Message::ContactCancelPressed, now, a, out) ==> out.len() == 0 && a == (App {
            contact_form: None,
            ..b
        }),
{
}

/// A contact is saved where it was, or at the end if it is new, without the white
/// space around its name and its number; one without either is not. The form
/// closes in any case. A deleted contact is gone, and the others keep their order.
pub proof fn contacts_are_kept_as_typed(
    b: App,
    form: ContactForm,
    index: usize,
    now: Moment,
    a: App,
    out: Seq<Effect>,
)
    ensures
        step(b, Message::ContactSavePressed, now, a, out) && b.contact_form == Some(form) ==> {
            let before = b.contacts@;
            let after = a.contacts@;
            let there = form.editing_index matches Some(i) && i < before.len();
            let place: int = if there {
                form.editing_index->0 as int
            } else {
                before.len() as int
            };
            &&& a.contact_form is None
            &&& trimmed(form.name@).len() == 0 || trimmed(form.number@).len() == 0 ==> a.contacts
                == b.contacts && out.len() == 0
            &&& trimmed(form.name@).len() > 0 && trimmed(form.number@).len() > 0 ==> {
                &&& there ==> after.len() == before.len()
                &&& !there ==> after.len() == before.len() + 1
                &&& after[place].name@ == trimmed(form.name@)
                &&& after[place].number@ == trimmed(form.number@)
                &&& forall|k: int|
                    0 <= k < before.len() && k != place ==> (#[trigger] after[k]).name@
                        == before[k].name@ && after[k].number@ == before[k].number@
                &&& out == seq![Effect::PersistContacts]
            }
        },
        step(b, Message::DeleteContactPressed(index), now, a, out) && index < b.contacts@.len()
            ==> a.contacts@ == b.contacts@.take(index as int) + b.contacts@.skip(index + 1) && out
            == seq![Effect::PersistContacts],
        step(b, Message::DeleteContactPressed(index), now, a, out) && index >= b.contacts@.len()
            ==> a == b && out.len() == 0,
{
    blank_iff_trimmed_empty(form.name@);
    blank_iff_trimmed_empty(form.number@);
    let x = crate::ui::contacts::people(b.contacts@);
    let y = crate::ui::contacts::people(a.contacts@);
    assert(x.len() == b.contacts@.len() && y.len() == a.contacts@.len());
    assert(forall|k: int| 0 <= k < y.len() ==> y[k] == #[trigger] a.contacts@[k]@);
    assert(forall|k: int| 0 <= k < x.len() ==> x[k] == #[trigger] b.contacts@[k]@);
    if step(b, Message::ContactSavePressed, now, a, out) && b.contact_form == Some(form)
        && trimmed(form.name@).len() > 0 && trimmed(form.number@).len() > 0 {
        let there = form.editing_index matches Some(i) && i < b.contacts@.len();
        let place: int = if there {
            form.editing_index->0 as int
        } else {
            b.contacts@.len() as int
        };
        assert(y[place] == a.contacts@[place]@);
        assert forall|k: int| 0 <= k < b.contacts@.len() && k != place implies (
        #[trigger] a.contacts@[k]).name@ == b.contacts@[k].name@ && a.contacts@[k].number@
            == b.contacts@[k].number@ by {
            assert(y[k] == a.contacts@[k]@);
            assert(x[k] == b.contacts@[k]@);
            assert(y[k] == x[k]);
        }
    }
    if step(b, Message::DeleteContactPressed(index), now, a, out) && index < b.contacts@.len() {
        assert(b.contacts@.remove(index as int) =~= b.contacts@.take(index as int)
            + b.contacts@.skip(index + 1));
    }
}

/// Exporting and importing are reported, with how many contacts there were or why
/// it failed.
pub proof fn exchange_is_reported(b: App, why: String, now: Moment, a: App, out: Seq<Effect>)
    ensures
        step(b, Message::ContactsWritten(Ok(())), now, a, out) ==> a == (App {
            contacts_io_status: a.contacts_io_status,
            ..b
        }) && opt_text(a.contacts_io_status) == Some(
            "Exported "@ + decimal(b.contacts@.len()) + " contacts"@,
        ) && out.len() == 0,
        step(b, Message::ContactsWritten(Err(why)), now, a, out) ==> a == (App {
            contacts_io_status: a.contacts_io_status,
            ..b
        }) && opt_text(a.contacts_io_status) == Some("Export failed: "@ + why@) && out.len() == 0,
        step(b, Message::ContactsRead(Err(why)), now, a, out) ==> a == (App {
            contacts_io_status: a.contacts_io_status,
            ..b
        }) && opt_text(a.contacts_io_status) == Some("Import failed: "@ + why@) && out.len() == 0,
{
}

} // verus!
