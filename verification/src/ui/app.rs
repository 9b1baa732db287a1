//! The state of the user interface.

use vstd::prelude::*;

use crate::media::devices::AudioDevice;
use crate::signaling::config::{blank_account, SipAccountConfig};
use crate::text::copy_text;
use crate::ui::contacts::{Contact, ContactSort};
use crate::ui::history::HistoryEntry;
use crate::ui::session::AccountSession;
use crate::ui::settings::{
    AppSettings, AudioDeviceConfig, AudioSettingsForm, Screen, SettingsForm, SipSettingsForm,
};

verus! {

/// A contact as it is edited.
#[derive(Debug)]
pub struct ContactForm {
    pub name: String,
    pub number: String,
    /// Its place in the phone book; none for a new contact.
    pub editing_index: Option<usize>,
}

impl Default for ContactForm {
    fn default() -> (r: Self)
        ensures
            r.name@.len() == 0,
            r.number@.len() == 0,
            r.editing_index is None,
    {
        ContactForm { name: String::new(), number: String::new(), editing_index: None }
    }
}

/// The state of the user interface.
#[derive(Debug)]
pub struct App {
    pub accounts: Vec<AccountSession>,
    pub selected_account: usize,
    pub screen: Screen,
    pub dial_input: String,
    pub dial_history_open: bool,
    pub sip_settings_form: SipSettingsForm,
    /// The account that is being edited; none for a new one.
    pub editing_account: Option<usize>,
    pub audio_settings_form: AudioSettingsForm,
    pub audio_devices: AudioDeviceConfig,
    pub input_devices: Vec<AudioDevice>,
    pub output_devices: Vec<AudioDevice>,
    pub app_capture_streams: Vec<AudioDevice>,
    pub error: Option<String>,
    /// Whether the main window is shrunk to a bar.
    pub compact_mode: bool,
    pub sip_settings_window: bool,
    pub audio_settings_window: bool,
    pub settings_window: bool,
    pub settings: AppSettings,
    pub settings_form: SettingsForm,
    /// The calls that are over, the oldest first.
    pub call_history: Vec<HistoryEntry>,
    pub contacts: Vec<Contact>,
    pub contact_filter: String,
    pub contact_form: Option<ContactForm>,
    pub contact_sort: ContactSort,
    pub contacts_io_path: String,
    pub contacts_io_status: Option<String>,
}

/// Whether all accounts are in order.
pub open spec fn all_wf(accounts: Seq<AccountSession>) -> bool {
    forall|i: int| 0 <= i < accounts.len() ==> (#[trigger] accounts[i]).wf()
}

/// Whether an account is selected where there is any.
pub open spec fn selects(accounts: Seq<AccountSession>, selected: usize) -> bool {
    selected < accounts.len() || (accounts.len() == 0 && selected == 0)
}

/// The SIP settings of an account, or blank ones.
pub open spec fn sip_form_of(accounts: Seq<AccountSession>, i: int, form: SipSettingsForm) -> bool {
    if 0 <= i < accounts.len() {
        form.shows(accounts[i].config)
    } else {
        form.is_new()
    }
}

/// The audio settings of an account, or those of a new one.
pub open spec fn audio_form_of(
    accounts: Seq<AccountSession>,
    i: int,
    audio: AudioDeviceConfig,
    form: AudioSettingsForm,
) -> bool {
    if 0 <= i < accounts.len() {
        form.shows(
            accounts[i].config.srtp,
            accounts[i].config.preferred_codecs@,
            accounts[i].config.dtmf_mode,
            audio,
        )
    } else {
        form.shows(
            blank_account().srtp,
            blank_account().preferred_codecs,
            blank_account().dtmf_mode,
            audio,
        )
    }
}

/// The SIP settings of an account, or blank ones.
pub fn sip_form(accounts: &Vec<AccountSession>, i: usize) -> (form: SipSettingsForm)
    ensures
        sip_form_of(accounts@, i as int, form),
{
    if i < accounts.len() {
        SipSettingsForm::from_config(&accounts[i].config)
    } else {
        SipSettingsForm::default()
    }
}

/// The audio settings of an account, or those of a new one.
pub fn audio_form(accounts: &Vec<AccountSession>, i: usize, audio: &AudioDeviceConfig) -> (form:
    AudioSettingsForm)
    ensures
        audio_form_of(accounts@, i as int, *audio, form),
{
    if i < accounts.len() {
        AudioSettingsForm::from_config(&accounts[i].config, audio)
    } else {
        AudioSettingsForm::from_config(&SipAccountConfig::default(), audio)
    }
}

impl App {
    /// Whether the state is in order: every account is, and one is selected
    /// where there is any.
    pub open spec fn wf(self) -> bool {
        &&& all_wf(self.accounts@)
        &&& selects(self.accounts@, self.selected_account)
    }

    /// Whether any account is there.
    pub open spec fn has_account(self) -> bool {
        self.selected_account < self.accounts@.len()
    }

    /// The selected account.
    pub open spec fn session(self) -> AccountSession {
        self.accounts@[self.selected_account as int]
    }

    /// The state at the start.
    pub fn boot(
        configs: Vec<SipAccountConfig>,
        audio_devices: AudioDeviceConfig,
        settings: AppSettings,
        call_history: Vec<HistoryEntry>,
        contacts: Vec<Contact>,
    ) -> (r: Self)
        ensures
            r.wf(),
            r.accounts@.len() == configs@.len(),
            forall|i: int|
                0 <= i < configs@.len() ==> (#[trigger] r.accounts@[i]).starts_with(configs@[i]),
            r.selected_account == 0,
            r.screen == Screen::Dialer,
            r.dial_input@.len() == 0,
            !r.dial_history_open,
            sip_form_of(r.accounts@, 0, r.sip_settings_form),
            r.editing_account == Some(0usize),
            audio_form_of(r.accounts@, 0, audio_devices, r.audio_settings_form),
            r.audio_devices == audio_devices,
            r.input_devices@.len() == 0,
            r.output_devices@.len() == 0,
            r.app_capture_streams@.len() == 0,
            r.error is None,
            !r.compact_mode,
            !r.sip_settings_window,
            !r.audio_settings_window,
            !r.settings_window,
            r.settings == settings,
            r.settings_form.shows(settings),
            r.call_history == call_history,
            r.contacts == contacts,
            r.contact_filter@.len() == 0,
            r.contact_form is None,
            r.contact_sort == ContactSort::NameAsc,
            r.contacts_io_path@ == "./contacts_export.json"@,
            r.contacts_io_status is None,
    {
        let accounts = sessions_of(configs);
        let sip_settings_form = sip_form(&accounts, 0);
        let audio_settings_form = audio_form(&accounts, 0, &audio_devices);
        App {
            accounts,
            selected_account: 0,
            screen: Screen::Dialer,
            dial_input: String::new(),
            dial_history_open: false,
            sip_settings_form,
            editing_account: Some(0),
            audio_settings_form,
            audio_devices,
            input_devices: Vec::new(),
            output_devices: Vec::new(),
            app_capture_streams: Vec::new(),
            error: None,
            compact_mode: false,
            sip_settings_window: false,
            audio_settings_window: false,
            settings_window: false,
            settings_form: SettingsForm::from_settings(&settings),
            settings,
            call_history,
            contacts,
            contact_filter: String::new(),
            contact_form: None,
            contact_sort: ContactSort::default(),
            contacts_io_path: copy_text("./contacts_export.json"),
            contacts_io_status: None,
        }
    }

    /// Whether an account has to be set up first: at the start, none is there.
    pub fn needs_setup(&self) -> (r: bool)
        ensures
            r == (self.accounts@.len() == 0),
    {
        self.accounts.len() == 0
    }

    /// The selected account.
    pub fn selected(&self) -> (r: Option<&AccountSession>)
        ensures
            match r {
                Some(acc) => self.has_account() && *acc == self.session(),
                None => !self.has_account(),
            },
    {
        if self.selected_account < self.accounts.len() {
            Some(&self.accounts[self.selected_account])
        } else {
            None
        }
    }
}

/// The sessions of accounts that are about to connect.
fn sessions_of(configs: Vec<SipAccountConfig>) -> (r: Vec<AccountSession>)
    ensures
        r@.len() == configs@.len(),
        forall|i: int|
            0 <= i < configs@.len() ==> (#[trigger] r@[i]).starts_with(configs@[i]),
        all_wf(r@),
{
    let ghost all = configs@;
    let mut rest = configs;
    let mut r: Vec<AccountSession> = Vec::new();
    while rest.len() > 0
        invariant
            r@.len() + rest@.len() == all.len(),
            rest@ == all.skip(r@.len() as int),
            forall|i: int| 0 <= i < r@.len() ==> (#[trigger] r@[i]).starts_with(all[i]),
            all_wf(r@),
        decreases rest.len(),
    {
        let config = rest.remove(0);
        r.push(AccountSession::new(config));
        proof {
            assert(rest@ =~= all.skip(r@.len() as int));
        }
    }
    r
}

} // verus!
