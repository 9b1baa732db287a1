//! What the user can set, and the forms in which it is edited.

use vstd::prelude::*;

use crate::signaling::config::{
    DtmfMode, PreferredCodec, SipAccountConfig, SipTransport, PREFERRED_CODECS,
};
use crate::text::{
    blank, blank_iff_trimmed_empty, contains_text, decimal, has_text, is_blank, number_text, texts,
    trim, trimmed,
};

verus! {

/// A copy of a text, if there is one.
pub fn clone_opt(o: &Option<String>) -> (r: Option<String>)
    ensures
        r == *o,
{
    match o {
        Some(s) => Some(s.clone()),
        None => None,
    }
}

/// A copy of a list of texts.
pub fn clone_texts(v: &Vec<String>) -> (r: Vec<String>)
    ensures
        r@ == v@,
{
    let mut r: Vec<String> = Vec::new();
    let mut i: usize = 0;
    while i < v.len()
        invariant
            i <= v.len(),
            r@ == v@.take(i as int),
        decreases v.len() - i,
    {
        r.push(v[i].clone());
        i += 1;
        proof {
            assert(r@ =~= v@.take(i as int));
        }
    }
    proof {
        assert(v@.take(i as int) =~= v@);
    }
    r
}

/// How calls are handled.
#[derive(Debug)]
pub struct AppSettings {
    /// Rejects every call that comes in.
    pub dnd: bool,
    /// Answers every call that comes in and is not rejected.
    pub auto_answer: bool,
    pub forwarding_enabled: bool,
    pub forwarding_number: String,
    /// Callers whose calls are rejected: any part of the caller's address.
    pub deny_list: Vec<String>,
    pub recording_enabled: bool,
    pub recording_path: String,
    /// Where the other side's voice is played besides the output device.
    pub secondary_output_target: Option<String>,
}

impl Default for AppSettings {
    fn default() -> (r: Self)
        ensures
            !r.dnd,
            !r.auto_answer,
            !r.forwarding_enabled,
            r.forwarding_number@.len() == 0,
            r.deny_list@.len() == 0,
            !r.recording_enabled,
            r.recording_path@.len() == 0,
            r.secondary_output_target is None,
    {
        AppSettings {
            dnd: false,
            auto_answer: false,
            forwarding_enabled: false,
            forwarding_number: String::new(),
            deny_list: Vec::new(),
            recording_enabled: false,
            recording_path: String::new(),
            secondary_output_target: None,
        }
    }
}

/// Whether an entry of the deny list is about a caller.
pub open spec fn about(entry: Seq<char>, caller: Seq<char>) -> bool {
    !is_blank(entry) && contains_text(caller, trimmed(entry))
}

impl AppSettings {
    /// Whether calls from a caller are rejected.
    pub open spec fn denied(self, caller: Seq<char>) -> bool {
        self.dnd || exists|i: int|
            0 <= i < self.deny_list@.len() && about(#[trigger] self.deny_list@[i]@, caller)
    }

    /// Whether calls from a caller are rejected.
    pub fn denies(&self, caller: &str) -> (r: bool)
        ensures
            r == self.denied(caller@),
    {
        if self.dnd {
            return true;
        }
        let mut i: usize = 0;
        while i < self.deny_list.len()
            invariant
                !self.dnd,
                i <= self.deny_list@.len(),
                forall|k: int|
                    0 <= k < i ==> !about(#[trigger] self.deny_list@[k]@, caller@),
            decreases self.deny_list.len() - i,
        {
            if !blank(self.deny_list[i].as_str()) {
                let entry = trim(self.deny_list[i].as_str());
                if has_text(caller, entry.as_str()) {
                    proof {
                        assert(about(self.deny_list@[i as int]@, caller@));
                    }
                    return true;
                }
            }
            i += 1;
        }
        false
    }

    /// Whether calls are recorded: only with a folder to save them in.
    pub open spec fn records(self) -> bool {
        self.recording_enabled && !is_blank(self.recording_path@)
    }

    /// Whether calls are recorded.
    pub fn recording(&self) -> (r: bool)
        ensures
            r == self.records(),
    {
        self.recording_enabled && !blank(self.recording_path.as_str())
    }
}

/// The input and output device.
#[derive(Debug)]
pub struct AudioDeviceConfig {
    pub input_device: Option<String>,
    pub output_device: Option<String>,
}

impl Default for AudioDeviceConfig {
    fn default() -> (r: Self)
        ensures
            r.input_device is None,
            r.output_device is None,
    {
        AudioDeviceConfig { input_device: None, output_device: None }
    }
}

/// What the main window shows.
#[derive(Debug, Clone, Copy, PartialEq, Eq, Structural)]
pub enum Screen {
    Dialer,
    Contacts,
    History,
}

// ---------------------------------------------------------------------------
// Forms

/// An account as it is edited.
#[derive(Debug)]
pub struct SipSettingsForm {
    pub name: String,
    pub host: String,
    pub port: String,
    pub username: String,
    pub password: String,
    pub transport: SipTransport,
}

impl SipSettingsForm {
    /// Whether the form is blank.
    pub open spec fn is_new(self) -> bool {
        &&& self.name@.len() == 0
        &&& self.host@.len() == 0
        &&& self.port@.len() == 0
        &&& self.username@.len() == 0
        &&& self.password@.len() == 0
        &&& self.transport == SipTransport::Udp
    }

    /// Whether the form shows an account.
    pub open spec fn shows(self, config: SipAccountConfig) -> bool {
        &&& self.name == config.name
        &&& self.host == config.sip_server_host
        &&& self.port@ == decimal(config.sip_server_port as nat)
        &&& self.username == config.username
        &&& self.password == config.password
        &&& self.transport == config.transport
    }

    /// A form that shows an account.
    pub fn from_config(config: &SipAccountConfig) -> (r: Self)
        ensures
            r.shows(*config),
    {
        SipSettingsForm {
            name: config.name.clone(),
            host: config.sip_server_host.clone(),
            port: number_text(config.sip_server_port as u64),
            username: config.username.clone(),
            password: config.password.clone(),
            transport: config.transport,
        }
    }
}

impl Default for SipSettingsForm {
    fn default() -> (r: Self)
        ensures
            r.is_new(),
    {
        SipSettingsForm {
            name: String::new(),
            host: String::new(),
            port: String::new(),
            username: String::new(),
            password: String::new(),
            transport: SipTransport::Udp,
        }
    }
}

/// The devices and codecs as they are edited.
#[derive(Debug)]
pub struct AudioSettingsForm {
    pub input_device: Option<String>,
    pub output_device: Option<String>,
    pub srtp: bool,
    /// Every codec once, the best first.
    pub codecs: Vec<PreferredCodec>,
    pub dtmf_mode: DtmfMode,
}

/// A list of codecs with a codec at its end, unless it holds it already.
pub open spec fn with_codec(codecs: Seq<PreferredCodec>, codec: PreferredCodec) -> Seq<
    PreferredCodec,
> {
    if codecs.contains(codec) {
        codecs
    } else {
        codecs.push(codec)
    }
}

/// A list of codecs with each of them only where it first stands.
pub open spec fn without_repeats(codecs: Seq<PreferredCodec>) -> Seq<PreferredCodec>
    decreases codecs.len(),
{
    if codecs.len() == 0 {
        codecs
    } else {
        with_codec(without_repeats(codecs.drop_last()), codecs.last())
    }
}

/// An account's codecs, each once, with those it does not name at the end.
pub open spec fn completed(codecs: Seq<PreferredCodec>) -> Seq<PreferredCodec> {
    with_codec(
        with_codec(without_repeats(codecs), PreferredCodec::Ulaw),
        PreferredCodec::Alaw,
    )
}

fn has_codec(codecs: &Vec<PreferredCodec>, codec: PreferredCodec) -> (r: bool)
    ensures
        r == codecs@.contains(codec),
{
    let mut i: usize = 0;
    while i < codecs.len()
        invariant
            i <= codecs.len(),
            forall|k: int| 0 <= k < i ==> #[trigger] codecs@[k] != codec,
        decreases codecs.len() - i,
    {
        if codecs[i] == codec {
            return true;
        }
        i += 1;
    }
    false
}

impl AudioSettingsForm {
    /// Whether the form shows an account's codecs and the devices.
    pub open spec fn shows(
        self,
        srtp: bool,
        codecs: Seq<PreferredCodec>,
        dtmf_mode: DtmfMode,
        audio: AudioDeviceConfig,
    ) -> bool {
        &&& self.input_device == audio.input_device
        &&& self.output_device == audio.output_device
        &&& self.srtp == srtp
        &&& self.codecs@ == completed(codecs)
        &&& self.dtmf_mode == dtmf_mode
    }

    /// A form that shows an account's codecs and the devices.
    pub fn from_config(config: &SipAccountConfig, audio: &AudioDeviceConfig) -> (r: Self)
        ensures
            r.shows(config.srtp, config.preferred_codecs@, config.dtmf_mode, *audio),
    {
        let mut codecs: Vec<PreferredCodec> = Vec::new();
        let ghost all = config.preferred_codecs@;
        let mut i: usize = 0;
        assert(codecs@ =~= without_repeats(all.take(0)));
        while i < config.preferred_codecs.len()
            invariant
                i <= all.len(),
                all == config.preferred_codecs@,
                codecs@ == without_repeats(all.take(i as int)),
            decreases config.preferred_codecs.len() - i,
        {
            assert(all.take(i + 1).drop_last() =~= all.take(i as int));
            if !has_codec(&codecs, config.preferred_codecs[i]) {
                codecs.push(config.preferred_codecs[i]);
            }
            i += 1;
        }
        assert(all.take(i as int) =~= all);
        if !has_codec(&codecs, PREFERRED_CODECS[0]) {
            codecs.push(PREFERRED_CODECS[0]);
        }
        if !has_codec(&codecs, PREFERRED_CODECS[1]) {
            codecs.push(PREFERRED_CODECS[1]);
        }
        AudioSettingsForm {
            input_device: clone_opt(&audio.input_device),
            output_device: clone_opt(&audio.output_device),
            srtp: config.srtp,
            codecs,
            dtmf_mode: config.dtmf_mode,
        }
    }
}

/// The list of codecs with the one at a position moved one up or down, if
/// there is room to.
pub open spec fn moved(codecs: Seq<PreferredCodec>, index: int, up: bool) -> Seq<PreferredCodec> {
    let target = if up {
        index - 1
    } else {
        index + 1
    };
    if 0 <= target < codecs.len() {
        codecs.update(index, codecs[target]).update(target, codecs[index])
    } else {
        codecs
    }
}

/// Moves the codec at a position one up or down.
pub fn move_codec(codecs: &mut Vec<PreferredCodec>, index: usize, up: bool)
    requires
        index < old(codecs)@.len(),
    ensures
        final(codecs)@ == moved(old(codecs)@, index as int, up),
{
    let n: usize = codecs.len();
    if (up && index == 0) || (!up && index + 1 == n) {
        return;
    }
    let target: usize = if up {
        index - 1
    } else {
        index + 1
    };
    let a = codecs[index];
    let b = codecs[target];
    codecs[index] = b;
    codecs[target] = a;
}

proof fn repeats_are_dropped(codecs: Seq<PreferredCodec>)
    ensures
        without_repeats(codecs).no_duplicates(),
        forall|c: PreferredCodec|
            #[trigger] without_repeats(codecs).contains(c) <==> codecs.contains(c),
        codecs.len() > 0 ==> without_repeats(codecs).len() > 0 && without_repeats(codecs)[0]
            == codecs[0],
        codecs.no_duplicates() ==> without_repeats(codecs) == codecs,
    decreases codecs.len(),
{
    if codecs.len() > 0 {
        let head = codecs.drop_last();
        repeats_are_dropped(head);
        let before = without_repeats(head);
        let after = without_repeats(codecs);
        assert forall|c: PreferredCodec| #[trigger] after.contains(c) <==> codecs.contains(c) by {
            assert(before.contains(c) <==> head.contains(c));
            if before.contains(c) {
                let k = choose|k: int| 0 <= k < before.len() && before[k] == c;
                assert(after[k] == c);
            }
            if head.contains(c) {
                let k = choose|k: int| 0 <= k < head.len() && head[k] == c;
                assert(codecs[k] == c);
            }
            if c == codecs.last() {
                assert(codecs[codecs.len() - 1] == c);
                if !before.contains(c) {
                    assert(after[after.len() - 1] == c);
                }
            }
            if codecs.contains(c) {
                let k = choose|k: int| 0 <= k < codecs.len() && codecs[k] == c;
                if k < head.len() {
                    assert(head[k] == c);
                }
            }
        }
        if codecs.no_duplicates() {
            assert(head.no_duplicates());
            if head.contains(codecs.last()) {
                let k = choose|k: int| 0 <= k < head.len() && head[k] == codecs.last();
                assert(codecs[k] == codecs[codecs.len() - 1]);
            }
            assert(before.contains(codecs.last()) <==> head.contains(codecs.last()));
            assert(after =~= codecs);
        }
    }
}

/// The form lists every codec exactly once, those that the account names first
/// and in its order; moving a codec keeps the list's codecs, and moving it back
/// undoes it.
pub proof fn codec_list_is_complete(codecs: Seq<PreferredCodec>, index: int)
    ensures
        completed(codecs).contains(PreferredCodec::Ulaw),
        completed(codecs).contains(PreferredCodec::Alaw),
        completed(codecs).no_duplicates(),
        completed(codecs).len() == PREFERRED_CODECS@.len(),
        completed(codecs).take(without_repeats(codecs).len() as int) == without_repeats(codecs),
        codecs.len() > 0 ==> completed(codecs)[0] == codecs[0],
        codecs.no_duplicates() ==> completed(codecs).take(codecs.len() as int) == codecs,
        0 <= index < codecs.len() ==> {
            &&& moved(codecs, index, true).to_multiset() =~= codecs.to_multiset()
            &&& moved(codecs, index, false).to_multiset() =~= codecs.to_multiset()
            &&& index > 0 ==> moved(moved(codecs, index, true), index - 1, false) == codecs
            &&& index + 1 < codecs.len() ==> moved(moved(codecs, index, false), index + 1, true)
                == codecs
        },
{
    repeats_are_dropped(codecs);
    let named = without_repeats(codecs);
    let once = with_codec(named, PreferredCodec::Ulaw);
    let all = completed(codecs);
    assert(all.take(named.len() as int) =~= named);
    assert(all.no_duplicates());
    if !named.contains(PreferredCodec::Ulaw) {
        assert(once.last() == PreferredCodec::Ulaw);
    }
    assert(once.contains(PreferredCodec::Ulaw));
    let k = choose|k: int| 0 <= k < once.len() && once[k] == PreferredCodec::Ulaw;
    assert(all[k] == PreferredCodec::Ulaw);
    if !once.contains(PreferredCodec::Alaw) {
        assert(all.last() == PreferredCodec::Alaw);
    }
    assert(all.contains(PreferredCodec::Alaw));
    let j = choose|j: int| 0 <= j < all.len() && all[j] == PreferredCodec::Alaw;
    assert(all.len() == 2) by {
        if all.len() > 2 {
            assert(all[0] != all[1] && all[1] != all[2] && all[0] != all[2]);
        }
    }
    if 0 <= index < codecs.len() {
        codec_swap_keeps(codecs, index, true);
        codec_swap_keeps(codecs, index, false);
        if index > 0 {
            assert(moved(moved(codecs, index, true), index - 1, false) =~= codecs);
        }
        if index + 1 < codecs.len() {
            assert(moved(moved(codecs, index, false), index + 1, true) =~= codecs);
        }
    }
}

proof fn codec_swap_keeps(codecs: Seq<PreferredCodec>, index: int, up: bool)
    requires
        0 <= index < codecs.len(),
    ensures
        moved(codecs, index, up).to_multiset() =~= codecs.to_multiset(),
{
    broadcast use vstd::seq_lib::group_to_multiset_ensures;

    let target = if up {
        index - 1
    } else {
        index + 1
    };
    if 0 <= target < codecs.len() {
        vstd::seq_lib::to_multiset_update(codecs, index, codecs[target]);
        vstd::seq_lib::to_multiset_update(
            codecs.update(index, codecs[target]),
            target,
            codecs[index],
        );
    }
}

/// How calls are handled, as it is edited.
#[derive(Debug)]
pub struct SettingsForm {
    pub dnd: bool,
    pub auto_answer: bool,
    pub forwarding_enabled: bool,
    pub forwarding_number: String,
    pub deny_list: Vec<String>,
    /// The entry about to be added.
    pub deny_list_input: String,
    pub recording_enabled: bool,
    pub recording_path: String,
    pub secondary_output_target: Option<String>,
}

impl SettingsForm {
    /// Whether the form shows settings.
    pub open spec fn shows(self, settings: AppSettings) -> bool {
        &&& self.dnd == settings.dnd
        &&& self.auto_answer == settings.auto_answer
        &&& self.forwarding_enabled == settings.forwarding_enabled
        &&& self.forwarding_number == settings.forwarding_number
        &&& self.deny_list@ == settings.deny_list@
        &&& self.deny_list_input@.len() == 0
        &&& self.recording_enabled == settings.recording_enabled
        &&& self.recording_path == settings.recording_path
        &&& self.secondary_output_target == settings.secondary_output_target
    }

    /// A form that shows settings.
    pub fn from_settings(settings: &AppSettings) -> (r: Self)
        ensures
            r.shows(*settings),
    {
        SettingsForm {
            dnd: settings.dnd,
            auto_answer: settings.auto_answer,
            forwarding_enabled: settings.forwarding_enabled,
            forwarding_number: settings.forwarding_number.clone(),
            deny_list: clone_texts(&settings.deny_list),
            deny_list_input: String::new(),
            recording_enabled: settings.recording_enabled,
            recording_path: settings.recording_path.clone(),
            secondary_output_target: clone_opt(&settings.secondary_output_target),
        }
    }

    /// Whether settings are those of the form, with the ends of texts trimmed.
    pub open spec fn yields(self, settings: AppSettings) -> bool {
        &&& settings.dnd == self.dnd
        &&& settings.auto_answer == self.auto_answer
        &&& settings.forwarding_enabled == self.forwarding_enabled
        &&& settings.forwarding_number@ == trimmed(self.forwarding_number@)
        &&& settings.deny_list@ == self.deny_list@
        &&& settings.recording_enabled == self.recording_enabled
        &&& settings.recording_path@ == trimmed(self.recording_path@)
        &&& settings.secondary_output_target == self.secondary_output_target
    }

    /// The settings of the form.
    pub fn to_settings(&self) -> (r: AppSettings)
        ensures
            self.yields(r),
    {
        AppSettings {
            dnd: self.dnd,
            auto_answer: self.auto_answer,
            forwarding_enabled: self.forwarding_enabled,
            forwarding_number: trim(self.forwarding_number.as_str()),
            deny_list: clone_texts(&self.deny_list),
            recording_enabled: self.recording_enabled,
            recording_path: trim(self.recording_path.as_str()),
            secondary_output_target: clone_opt(&self.secondary_output_target),
        }
    }

    /// The deny list once the entry that was typed is added: trimmed, and not
    /// if it is blank or there already.
    pub open spec fn extended(self) -> Seq<Seq<char>> {
        let entry = trimmed(self.deny_list_input@);
        if is_blank(self.deny_list_input@) || texts(self.deny_list@).contains(entry) {
            texts(self.deny_list@)
        } else {
            texts(self.deny_list@).push(entry)
        }
    }

    /// Adds the entry that was typed to the deny list.
    pub fn add_denied(&mut self)
        ensures
            *final(self) == (SettingsForm {
                deny_list: final(self).deny_list,
                deny_list_input: final(self).deny_list_input,
                ..*old(self)
            }),
            texts(final(self).deny_list@) == old(self).extended(),
            final(self).deny_list@.len() >= old(self).deny_list@.len(),
            final(self).deny_list@.take(old(self).deny_list@.len() as int) == old(self).deny_list@,
            final(self).deny_list_input@.len() == 0,
    {
        let ghost before = self.deny_list@;
        let entry = trim(self.deny_list_input.as_str());
        proof {
            blank_iff_trimmed_empty(self.deny_list_input@);
        }
        if !blank(self.deny_list_input.as_str()) && !crate::ui::history::holds_text(
            &self.deny_list,
            entry.as_str(),
        ) {
            self.deny_list.push(entry);
            proof {
                assert(texts(self.deny_list@) =~= texts(before).push(entry@));
            }
        }
        self.deny_list_input = String::new();
        proof {
            assert(self.deny_list@.take(before.len() as int) =~= before);
        }
    }
}

impl Default for SettingsForm {
    fn default() -> (r: Self)
        ensures
            r.deny_list_input@.len() == 0,
            !r.dnd,
            !r.auto_answer,
            !r.forwarding_enabled,
            r.forwarding_number@.len() == 0,
            r.deny_list@.len() == 0,
            !r.recording_enabled,
            r.recording_path@.len() == 0,
            r.secondary_output_target is None,
    {
        SettingsForm::from_settings(&AppSettings::default())
    }
}

/// Settings survive being shown and saved: what the form of some settings
/// yields are those settings, but for the ends of texts, and showing and
/// saving once more changes nothing.
pub proof fn settings_survive_editing(
    settings: AppSettings,
    form: SettingsForm,
    saved: AppSettings,
    again: SettingsForm,
    resaved: AppSettings,
)
    requires
        form.shows(settings),
        form.yields(saved),
        again.shows(saved),
        again.yields(resaved),
    ensures
        saved.dnd == settings.dnd,
        saved.auto_answer == settings.auto_answer,
        saved.deny_list@ == settings.deny_list@,
        saved.records() == settings.records(),
        forall|caller: Seq<char>| #[trigger] saved.denied(caller) == settings.denied(caller),
        resaved.recording_path@ == saved.recording_path@,
        resaved.forwarding_number@ == saved.forwarding_number@,
{
    let path = settings.recording_path@;
    crate::text::trimming_is_final(path);
    crate::text::trimming_is_final(settings.forwarding_number@);
    blank_iff_trimmed_empty(path);
    blank_iff_trimmed_empty(trimmed(path));
    assert forall|caller: Seq<char>| #[trigger] saved.denied(caller) == settings.denied(caller) by {
        if saved.denied(caller) && !settings.dnd {
            let i = choose|i: int|
                0 <= i < saved.deny_list@.len() && about(#[trigger] saved.deny_list@[i]@, caller);
            assert(about(settings.deny_list@[i]@, caller));
        }
        if settings.denied(caller) && !settings.dnd {
            let i = choose|i: int|
                0 <= i < settings.deny_list@.len() && about(
                    #[trigger] settings.deny_list@[i]@,
                    caller,
                );
            assert(about(saved.deny_list@[i]@, caller));
        }
    }
}

} // verus!
