//! What the user does to accounts, settings and contacts.

use vstd::prelude::*;

use crate::signaling::config::{blank_account, copy_codecs, AccountView, SipAccountConfig};
use crate::text::{
    blank, blank_iff_trimmed_empty, copy_text, decimal, is_blank, opt_text, push_all, push_number,
    read_unsigned, trim, trimmed, unsigned,
};
use crate::ui::app::{sip_form, sip_form_of, App, ContactForm};
use crate::ui::calls::{errs, ignored, one_account_changed};
use crate::ui::contacts::{
    import_entries, imported, merge_contacts, merged, people, Contact, ContactView, ImportContact,
};
use crate::ui::effect::{only_if, Effect, WindowKind};
use crate::ui::session::AccountSession;
use crate::ui::settings::{clone_opt, AudioDeviceConfig, SettingsForm, SipSettingsForm};

verus! {

// ---------------------------------------------------------------------------
// Accounts

/// A text as `format!("{:?}")` writes it.
pub uninterp spec fn debug_text(s: Seq<char>) -> Seq<char>;

/// `format!` with `{:?}` on a text: in quotation marks, with escapes in it. The
/// result is named; what is escaped is left unsaid.
#[verifier::external_body]
fn quoted(s: &str) -> (r: String)
    ensures
        r@ == debug_text(s@),
{
    format!("{:?}", s)
}

/// The name of an account: as it was typed, or made of the user and the server.
pub open spec fn account_name(form: SipSettingsForm) -> Seq<char> {
    if is_blank(form.name@) {
        trimmed(form.username@) + seq!['@'] + trimmed(form.host@)
    } else {
        trimmed(form.name@)
    }
}

/// An account as a form has it. Its count of saves goes up, so that it
/// registers anew.
pub open spec fn applied(config: AccountView, form: SipSettingsForm, port: u16) -> AccountView {
    AccountView {
        name: account_name(form),
        sip_server_host: trimmed(form.host@),
        sip_server_port: port,
        username: trimmed(form.username@),
        password: form.password@,
        transport: form.transport,
        reg_epoch: if config.reg_epoch == u64::MAX {
            0
        } else {
            (config.reg_epoch + 1) as u64
        },
        ..config
    }
}

fn apply_form(config: &mut SipAccountConfig, form: &SipSettingsForm, port: u16)
    ensures
        final(config)@ == applied(old(config)@, *form, port),
{
    let mut name: String = trim(form.name.as_str());
    if blank(form.name.as_str()) {
        name = trim(form.username.as_str());
        name.push('@');
        let host = trim(form.host.as_str());
        push_all(&mut name, host.as_str());
        proof {
            assert(name@ =~= account_name(*form));
        }
    }
    config.name = name;
    config.sip_server_host = trim(form.host.as_str());
    config.sip_server_port = port;
    config.username = trim(form.username.as_str());
    config.password = form.password.clone();
    config.transport = form.transport;
    config.reg_epoch = if config.reg_epoch == u64::MAX {
        0
    } else {
        config.reg_epoch + 1
    };
}

/// Every save makes another account of it, so that it registers anew, even if
/// nothing was changed.
pub proof fn saving_registers_anew(config: AccountView, form: SipSettingsForm, port: u16)
    ensures
        applied(config, form, port) != config,
        applied(config, form, port).srtp == config.srtp,
        applied(config, form, port).preferred_codecs == config.preferred_codecs,
        !is_blank(form.username@) ==> account_name(form).len() > 0,
{
    assert(applied(config, form, port).reg_epoch != config.reg_epoch);
    blank_iff_trimmed_empty(form.name@);
    blank_iff_trimmed_empty(form.username@);
}

/// The account that is edited, if it is there.
pub open spec fn edited(b: App) -> Option<int> {
    match b.editing_account {
        Some(i) if i < b.accounts@.len() => Some(i as int),
        _ => None,
    }
}

/// What saving an account does: the account that is edited becomes what the
/// form says, or a new one is added. Without a port, a server and a user,
/// nothing changes but the error that is shown.
pub open spec fn on_sip_save(b: App, a: App, out: Seq<Effect>) -> bool {
    let form = b.sip_settings_form;
    match unsigned(trimmed(form.port@), 65535) {
        None => {
            &&& errs(b, a, "invalid port: "@ + debug_text(form.port@))
            &&& out == Seq::<Effect>::empty()
        },
        Some(port) => if is_blank(form.host@) || is_blank(form.username@) {
            &&& errs(b, a, "server and username are required"@)
            &&& out == Seq::<Effect>::empty()
        } else {
            &&& out == seq![Effect::SaveAccounts]
            &&& a == (App {
                accounts: a.accounts,
                selected_account: a.selected_account,
                editing_account: a.editing_account,
                error: None,
                ..b
            })
            &&& match edited(b) {
                Some(i) => {
                    &&& a.accounts@ == b.accounts@.update(i, a.accounts@[i])
                    &&& a.accounts@[i] == (AccountSession {
                        config: a.accounts@[i].config,
                        ..b.accounts@[i]
                    })
                    &&& a.accounts@[i].config@ == applied(
                        b.accounts@[i].config@,
                        form,
                        port as u16,
                    )
                    &&& a.editing_account == b.editing_account
                    &&& a.selected_account == b.selected_account
                },
                None => {
                    let fresh = a.accounts@.last();
                    &&& a.accounts@ == b.accounts@.push(fresh)
                    &&& fresh.starts_with(fresh.config)
                    &&& fresh.config@ == applied(blank_account(), form, port as u16)
                    &&& a.editing_account == Some(b.accounts@.len() as usize)
                    &&& a.selected_account == if b.accounts@.len() == 0 {
                        0
                    } else {
                        b.selected_account
                    }
                },
            }
        },
    }
}

/// What deleting an account does.
pub open spec fn on_delete_account(b: App, index: usize, a: App, out: Seq<Effect>) -> bool {
    if index >= b.accounts@.len() {
        ignored(b, a, out)
    } else {
        let rest = b.accounts@.remove(index as int);
        &&& a.accounts@ == rest
        &&& a.selected_account == if b.selected_account < rest.len() {
            b.selected_account as int
        } else if rest.len() == 0 {
            0
        } else {
            rest.len() - 1
        }
        &&& if b.editing_account == Some(index) {
            &&& a.editing_account == if rest.len() == 0 {
                None
            } else {
                Some(0usize)
            }
            &&& sip_form_of(rest, 0, a.sip_settings_form)
        } else {
            &&& a.editing_account == match b.editing_account {
                Some(i) if i > index => Some((i - 1) as usize),
                other => other,
            }
            &&& a.sip_settings_form == b.sip_settings_form
        }
        &&& a == (App {
            accounts: a.accounts,
            selected_account: a.selected_account,
            editing_account: a.editing_account,
            sip_settings_form: a.sip_settings_form,
            ..b
        })
        &&& out == seq![Effect::DropAccount { account: index }, Effect::SaveAccounts]
    }
}

/// What opening the SIP settings does: they show the selected account.
pub open spec fn on_open_sip(b: App, a: App, out: Seq<Effect>) -> bool {
    &&& a == (App {
        editing_account: if b.accounts@.len() == 0 {
            None
        } else {
            Some(b.selected_account)
        },
        sip_settings_form: a.sip_settings_form,
        error: None,
        sip_settings_window: true,
        ..b
    })
    &&& sip_form_of(b.accounts@, b.selected_account as int, a.sip_settings_form)
    &&& out == seq![shown(b.sip_settings_window, WindowKind::SipSettings)]
}

/// What showing a window takes: it is brought to the front, or opened.
pub open spec fn shown(open: bool, window: WindowKind) -> Effect {
    if open {
        Effect::FocusWindow(window)
    } else {
        Effect::OpenWindow(window)
    }
}

fn show(open: bool, window: WindowKind) -> (r: Effect)
    ensures
        r == shown(open, window),
{
    if open {
        Effect::FocusWindow(window)
    } else {
        Effect::OpenWindow(window)
    }
}

/// What selecting an account to edit does.
pub open spec fn on_edit_account(b: App, index: usize, a: App, out: Seq<Effect>) -> bool {
    if index < b.accounts@.len() {
        &&& a == (App {
            editing_account: Some(index),
            sip_settings_form: a.sip_settings_form,
            error: None,
            ..b
        })
        &&& a.sip_settings_form.shows(b.accounts@[index as int].config)
        &&& out == Seq::<Effect>::empty()
    } else {
        ignored(b, a, out)
    }
}

impl App {
    /// Saves the account that is edited.
    pub fn handle_sip_settings_save(&mut self) -> (out: Vec<Effect>)
        requires
            old(self).wf(),
        ensures
            final(self).wf(),
            on_sip_save(*old(self), *final(self), out@),
    {
        let ghost b = *self;
        let mut out: Vec<Effect> = Vec::new();
        let typed = trim(self.sip_settings_form.port.as_str());
        let port: u16 = match read_unsigned(typed.as_str(), 65535) {
            Some(p) => p as u16,
            None => {
                let mut text = copy_text("invalid port: ");
                let shown = quoted(self.sip_settings_form.port.as_str());
                push_all(&mut text, shown.as_str());
                self.error = Some(text);
                return out;
            },
        };
        if blank(self.sip_settings_form.host.as_str()) || blank(
            self.sip_settings_form.username.as_str(),
        ) {
            self.error = Some(copy_text("server and username are required"));
            return out;
        }
        let place: Option<usize> = match self.editing_account {
            Some(i) => if i < self.accounts.len() {
                Some(i)
            } else {
                None
            },
            None => None,
        };
        match place {
            Some(i) => {
                proof {
                    assert(self.accounts@[i as int].wf());
                }
                apply_form(&mut self.accounts[i].config, &self.sip_settings_form, port);
                proof {
                    one_account_changed(b.accounts@, self.accounts@, i as int);
                }
            },
            None => {
                let mut config = SipAccountConfig::default();
                apply_form(&mut config, &self.sip_settings_form, port);
                self.accounts.push(AccountSession::new(config));
                self.editing_account = Some(self.accounts.len() - 1);
                if self.accounts.len() == 1 {
                    self.selected_account = 0;
                }
            },
        }
        self.error = None;
        out.push(Effect::SaveAccounts);
        out
    }

    /// Deletes an account.
    pub fn handle_delete_account(&mut self, index: usize) -> (out: Vec<Effect>)
        requires
            old(self).wf(),
        ensures
            final(self).wf(),
            on_delete_account(*old(self), index, *final(self), out@),
    {
        let ghost b = *self;
        let mut out: Vec<Effect> = Vec::new();
        if index >= self.accounts.len() {
            return out;
        }
        let _ = self.accounts.remove(index);
        if self.selected_account >= self.accounts.len() {
            self.selected_account = if self.accounts.len() == 0 {
                0
            } else {
                self.accounts.len() - 1
            };
        }
        if let Some(editing) = self.editing_account {
            if editing == index {
                self.editing_account = if self.accounts.len() == 0 {
                    None
                } else {
                    Some(0)
                };
                self.sip_settings_form = sip_form(&self.accounts, 0);
            } else if editing > index {
                self.editing_account = Some(editing - 1);
            }
        }
        out.push(Effect::DropAccount { account: index });
        out.push(Effect::SaveAccounts);
        proof {
            assert forall|i: int| 0 <= i < self.accounts@.len() implies (
            #[trigger] self.accounts@[i]).wf() by {
                if i < index {
                    assert(b.accounts@[i].wf());
                } else {
                    assert(b.accounts@[i + 1].wf());
                }
            }
            assert(out@ =~= seq![Effect::DropAccount { account: index }, Effect::SaveAccounts]);
        }
        out
    }

    /// Shows the SIP settings of the selected account.
    pub fn handle_open_sip(&mut self) -> (out: Vec<Effect>)
        requires
            old(self).wf(),
        ensures
            final(self).wf(),
            on_open_sip(*old(self), *final(self), out@),
    {
        let mut out: Vec<Effect> = Vec::new();
        self.editing_account = if self.accounts.len() == 0 {
            None
        } else {
            Some(self.selected_account)
        };
        self.sip_settings_form = sip_form(&self.accounts, self.selected_account);
        self.error = None;
        out.push(show(self.sip_settings_window, WindowKind::SipSettings));
        self.sip_settings_window = true;
        out
    }

    /// Shows an account to edit it.
    pub fn handle_edit_account(&mut self, index: usize) -> (out: Vec<Effect>)
        requires
            old(self).wf(),
        ensures
            final(self).wf(),
            on_edit_account(*old(self), index, *final(self), out@),
    {
        if index < self.accounts.len() {
            self.editing_account = Some(index);
            self.sip_settings_form = SipSettingsForm::from_config(&self.accounts[index].config);
            self.error = None;
        }
        Vec::new()
    }
}

// ---------------------------------------------------------------------------
// Audio and other settings

/// What opening the audio settings does.
pub open spec fn on_open_audio(b: App, a: App, out: Seq<Effect>) -> bool {
    &&& a == (App {
        audio_settings_form: a.audio_settings_form,
        error: None,
        audio_settings_window: true,
        ..b
    })
    &&& crate::ui::app::audio_form_of(
        b.accounts@,
        b.selected_account as int,
        b.audio_devices,
        a.audio_settings_form,
    )
    &&& out == seq![shown(b.audio_settings_window, WindowKind::AudioSettings)] + only_if(
        !b.audio_settings_window,
        Effect::ListDevices,
    )
}

/// What saving the audio settings does: the selected account takes over the
/// codecs, the devices are set, and the window closes.
pub open spec fn on_audio_save(b: App, a: App, out: Seq<Effect>) -> bool {
    let form = b.audio_settings_form;
    &&& a == (App {
        accounts: a.accounts,
        audio_devices: AudioDeviceConfig {
            input_device: form.input_device,
            output_device: form.output_device,
        },
        error: None,
        audio_settings_window: false,
        ..b
    })
    &&& if b.has_account() {
        let acc = b.session();
        let after = a.accounts@[b.selected_account as int];
        &&& a.accounts@ == b.accounts@.update(b.selected_account as int, after)
        &&& after == (AccountSession { config: after.config, ..acc })
        &&& after.config@ == (AccountView {
            srtp: form.srtp,
            preferred_codecs: form.codecs@,
            dtmf_mode: form.dtmf_mode,
            ..acc.config@
        })
    } else {
        a.accounts == b.accounts
    }
    &&& out == only_if(b.has_account(), Effect::SaveAccounts) + (seq![Effect::SaveAudioDevices]
        + only_if(b.audio_settings_window, Effect::CloseWindow(WindowKind::AudioSettings)))
}

/// What saving the settings does.
pub open spec fn on_settings_save(b: App, a: App, out: Seq<Effect>) -> bool {
    &&& a == (App { settings: a.settings, error: None, settings_window: false, ..b })
    &&& b.settings_form.yields(a.settings)
    &&& out == seq![Effect::SaveSettings] + only_if(
        b.settings_window,
        Effect::CloseWindow(WindowKind::Settings),
    )
}

/// What opening the settings does.
pub open spec fn on_open_settings(b: App, a: App, out: Seq<Effect>) -> bool {
    &&& a == (App { settings_form: a.settings_form, error: None, settings_window: true, ..b })
    &&& a.settings_form.shows(b.settings)
    &&& out == seq![
        shown(b.settings_window, WindowKind::Settings),
        Effect::ListSecondaryTargets,
    ]
}

impl App {
    /// Shows the audio settings.
    pub fn handle_open_audio(&mut self) -> (out: Vec<Effect>)
        requires
            old(self).wf(),
        ensures
            final(self).wf(),
            on_open_audio(*old(self), *final(self), out@),
    {
        let ghost b = *self;
        let mut out: Vec<Effect> = Vec::new();
        self.audio_settings_form = crate::ui::app::audio_form(
            &self.accounts,
            self.selected_account,
            &self.audio_devices,
        );
        self.error = None;
        out.push(show(self.audio_settings_window, WindowKind::AudioSettings));
        if !self.audio_settings_window {
            out.push(Effect::ListDevices);
        }
        self.audio_settings_window = true;
        proof {
            assert(out@ =~= seq![shown(b.audio_settings_window, WindowKind::AudioSettings)]
                + only_if(!b.audio_settings_window, Effect::ListDevices));
        }
        out
    }

    /// Saves the audio settings.
    pub fn handle_audio_settings_save(&mut self) -> (out: Vec<Effect>)
        requires
            old(self).wf(),
        ensures
            final(self).wf(),
            on_audio_save(*old(self), *final(self), out@),
    {
        let ghost b = *self;
        let mut out: Vec<Effect> = Vec::new();
        let account: usize = self.selected_account;
        if account < self.accounts.len() {
            proof {
                assert(self.accounts@[account as int].wf());
            }
            self.accounts[account].config.srtp = self.audio_settings_form.srtp;
            self.accounts[account].config.preferred_codecs = copy_codecs(
                &self.audio_settings_form.codecs,
            );
            self.accounts[account].config.dtmf_mode = self.audio_settings_form.dtmf_mode;
            out.push(Effect::SaveAccounts);
            proof {
                assert(self.accounts@ =~= b.accounts@.update(
                    account as int,
                    self.accounts@[account as int],
                ));
                one_account_changed(b.accounts@, self.accounts@, account as int);
            }
        }
        self.audio_devices = AudioDeviceConfig {
            input_device: clone_opt(&self.audio_settings_form.input_device),
            output_device: clone_opt(&self.audio_settings_form.output_device),
        };
        out.push(Effect::SaveAudioDevices);
        self.error = None;
        if self.audio_settings_window {
            self.audio_settings_window = false;
            out.push(Effect::CloseWindow(WindowKind::AudioSettings));
        }
        proof {
            assert(out@ =~= only_if(b.has_account(), Effect::SaveAccounts) + (seq![
                Effect::SaveAudioDevices,
            ] + only_if(
                b.audio_settings_window,
                Effect::CloseWindow(WindowKind::AudioSettings),
            )));
        }
        out
    }

    /// Saves the settings.
    pub fn handle_settings_save(&mut self) -> (out: Vec<Effect>)
        requires
            old(self).wf(),
        ensures
            final(self).wf(),
            on_settings_save(*old(self), *final(self), out@),
    {
        let ghost b = *self;
        let mut out: Vec<Effect> = Vec::new();
        self.settings = self.settings_form.to_settings();
        out.push(Effect::SaveSettings);
        self.error = None;
        if self.settings_window {
            self.settings_window = false;
            out.push(Effect::CloseWindow(WindowKind::Settings));
        }
        proof {
            assert(out@ =~= seq![Effect::SaveSettings] + only_if(
                b.settings_window,
                Effect::CloseWindow(WindowKind::Settings),
            ));
        }
        out
    }

    /// Shows the settings.
    pub fn handle_open_settings(&mut self) -> (out: Vec<Effect>)
        requires
            old(self).wf(),
        ensures
            final(self).wf(),
            on_open_settings(*old(self), *final(self), out@),
    {
        let ghost b = *self;
        let mut out: Vec<Effect> = Vec::new();
        self.settings_form = SettingsForm::from_settings(&self.settings);
        self.error = None;
        out.push(show(self.settings_window, WindowKind::Settings));
        self.settings_window = true;
        out.push(Effect::ListSecondaryTargets);
        proof {
            assert(out@ =~= seq![
                shown(b.settings_window, WindowKind::Settings),
                Effect::ListSecondaryTargets,
            ]);
        }
        out
    }
}

// ---------------------------------------------------------------------------
// Contacts

/// What editing a contact does.
pub open spec fn on_edit_contact(b: App, index: usize, a: App, out: Seq<Effect>) -> bool {
    if index < b.contacts@.len() {
        let c = b.contacts@[index as int];
        &&& a == (App {
            contact_form: Some(
                ContactForm { name: c.name, number: c.number, editing_index: Some(index) },
            ),
            ..b
        })
        &&& out == Seq::<Effect>::empty()
    } else {
        ignored(b, a, out)
    }
}

/// What saving a contact does: the form closes, and the contact is put in its
/// place or at the end, if it has both a name and a number.
pub open spec fn on_contact_save(b: App, a: App, out: Seq<Effect>) -> bool {
    match b.contact_form {
        None => ignored(b, a, out),
        Some(form) => if is_blank(form.name@) || is_blank(form.number@) {
            a == (App { contact_form: None, ..b }) && out == Seq::<Effect>::empty()
        } else {
            let c = ContactView { name: trimmed(form.name@), number: trimmed(form.number@) };
            &&& a == (App { contact_form: None, contacts: a.contacts, ..b })
            &&& people(a.contacts@) == match form.editing_index {
                Some(i) if i < b.contacts@.len() => people(b.contacts@).update(i as int, c),
                _ => people(b.contacts@).push(c),
            }
            &&& out == seq![Effect::PersistContacts]
        },
    }
}

/// What deleting a contact does.
pub open spec fn on_delete_contact(b: App, index: usize, a: App, out: Seq<Effect>) -> bool {
    if index < b.contacts@.len() {
        &&& a == (App { contacts: a.contacts, ..b })
        &&& a.contacts@ == b.contacts@.remove(index as int)
        &&& out == seq![Effect::PersistContacts]
    } else {
        ignored(b, a, out)
    }
}

/// What an import is reported as.
pub open spec fn import_report(n: nat) -> Seq<char> {
    "Imported "@ + decimal(n) + " contact"@ + if n == 1 {
        Seq::empty()
    } else {
        seq!['s']
    }
}

/// What the entries of a file do: they are put into the phone book.
pub open spec fn on_contacts_read(
    b: App,
    outcome: Result<Vec<ImportContact>, String>,
    a: App,
    out: Seq<Effect>,
) -> bool {
    match outcome {
        Ok(entries) => {
            &&& a == (App {
                contacts: a.contacts,
                contacts_io_status: a.contacts_io_status,
                ..b
            })
            &&& people(a.contacts@) == merged(people(b.contacts@), imported(entries@))
            &&& opt_text(a.contacts_io_status) == Some(import_report(imported(entries@).len()))
            &&& out == seq![Effect::PersistContacts]
        },
        Err(why) => {
            &&& a == (App { contacts_io_status: a.contacts_io_status, ..b })
            &&& opt_text(a.contacts_io_status) == Some("Import failed: "@ + why@)
            &&& out == Seq::<Effect>::empty()
        },
    }
}

/// What an export does: it is reported.
pub open spec fn on_contacts_written(
    b: App,
    outcome: Result<(), String>,
    a: App,
    out: Seq<Effect>,
) -> bool {
    &&& a == (App { contacts_io_status: a.contacts_io_status, ..b })
    &&& opt_text(a.contacts_io_status) == Some(
        match outcome {
            Ok(_) => "Exported "@ + decimal(b.contacts@.len()) + " contacts"@,
            Err(why) => "Export failed: "@ + why@,
        },
    )
    &&& out == Seq::<Effect>::empty()
}

impl App {
    /// Shows a contact to edit it.
    pub fn handle_edit_contact(&mut self, index: usize) -> (out: Vec<Effect>)
        requires
            old(self).wf(),
        ensures
            final(self).wf(),
            on_edit_contact(*old(self), index, *final(self), out@),
    {
        if index < self.contacts.len() {
            let c = self.contacts[index].copy();
            self.contact_form = Some(
                ContactForm { name: c.name, number: c.number, editing_index: Some(index) },
            );
        }
        Vec::new()
    }

    /// Saves the contact that is edited.
    pub fn handle_contact_save(&mut self) -> (out: Vec<Effect>)
        requires
            old(self).wf(),
        ensures
            final(self).wf(),
            on_contact_save(*old(self), *final(self), out@),
    {
        let ghost b = *self;
        let mut out: Vec<Effect> = Vec::new();
        let (name, number, place): (String, String, Option<usize>) = match &self.contact_form {
            None => {
                return out;
            },
            Some(form) => (form.name.clone(), form.number.clone(), form.editing_index),
        };
        self.contact_form = None;
        if blank(name.as_str()) || blank(number.as_str()) {
            return out;
        }
        let contact = Contact { name: trim(name.as_str()), number: trim(number.as_str()) };
        let ghost c = contact@;
        let at: usize = match place {
            Some(i) => if i < self.contacts.len() {
                i
            } else {
                self.contacts.len()
            },
            None => self.contacts.len(),
        };
        if at < self.contacts.len() {
            self.contacts[at] = contact;
            proof {
                assert(people(self.contacts@) =~= people(b.contacts@).update(at as int, c));
            }
        } else {
            self.contacts.push(contact);
            proof {
                assert(people(self.contacts@) =~= people(b.contacts@).push(c));
            }
        }
        out.push(Effect::PersistContacts);
        out
    }

    /// Deletes a contact.
    pub fn handle_delete_contact(&mut self, index: usize) -> (out: Vec<Effect>)
        requires
            old(self).wf(),
        ensures
            final(self).wf(),
            on_delete_contact(*old(self), index, *final(self), out@),
    {
        let mut out: Vec<Effect> = Vec::new();
        if index < self.contacts.len() {
            let _ = self.contacts.remove(index);
            out.push(Effect::PersistContacts);
        }
        out
    }

    /// Puts the entries of a file into the phone book.
    pub fn handle_contacts_read(&mut self, outcome: Result<Vec<ImportContact>, String>) -> (out: Vec<
        Effect,
    >)
        requires
            old(self).wf(),
        ensures
            final(self).wf(),
            on_contacts_read(*old(self), outcome, *final(self), out@),
    {
        let mut out: Vec<Effect> = Vec::new();
        match outcome {
            Ok(entries) => {
                let contacts = import_entries(entries);
                let n: usize = contacts.len();
                proof {
                    assert(people(contacts@).len() == n);
                }
                merge_contacts(&mut self.contacts, &contacts);
                let mut text = copy_text("Imported ");
                push_number(&mut text, n as u64);
                push_all(&mut text, " contact");
                if n != 1 {
                    text.push('s');
                }
                proof {
                    assert(text@ =~= import_report(n as nat));
                }
                self.contacts_io_status = Some(text);
                out.push(Effect::PersistContacts);
            },
            Err(why) => {
                let mut text = copy_text("Import failed: ");
                push_all(&mut text, why.as_str());
                self.contacts_io_status = Some(text);
            },
        }
        out
    }

    /// Reports an export.
    pub fn handle_contacts_written(&mut self, outcome: Result<(), String>) -> (out: Vec<Effect>)
        requires
            old(self).wf(),
        ensures
            final(self).wf(),
            on_contacts_written(*old(self), outcome, *final(self), out@),
    {
        let text = match outcome {
            Ok(_) => {
                let mut text = copy_text("Exported ");
                push_number(&mut text, self.contacts.len() as u64);
                push_all(&mut text, " contacts");
                text
            },
            Err(why) => {
                let mut text = copy_text("Export failed: ");
                push_all(&mut text, why.as_str());
                text
            },
        };
        self.contacts_io_status = Some(text);
        Vec::new()
    }
}

} // verus!
