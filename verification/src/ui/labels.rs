//! What the windows show of the state.

use vstd::prelude::*;
use vstd::utf8::encode_utf8;

use crate::media::devices::AudioDevice;
use crate::text::{chars, copy_text, decimal, push_all, push_number, same_text, split_words, string_of, texts, words};
use crate::ui::calls::{seconds_since, secs_since};
use crate::ui::contacts::{find_number, people, with_number, Contact};
use crate::ui::effect::WindowKind;
use crate::ui::history::{
    ago, clock_label, duration_label, push_two_digits, relative_label, two_digits, CallDirection,
    CallOutcome, HistoryEntry,
};
use crate::ui::message::Moment;
use crate::ui::session::{
    AccountSession, ActiveCall, CallUiState, RegistrationStatus, LINE_COUNT,
};

verus! {

/// The title of a window.
pub open spec fn title_of(window: WindowKind) -> Seq<char> {
    match window {
        WindowKind::Main => "OxideSip"@,
        WindowKind::SipSettings => "OxideSip \u{2014} SIP Setup"@,
        WindowKind::AudioSettings => "OxideSip \u{2014} Audio & Codecs"@,
        WindowKind::Settings => "OxideSip \u{2014} Settings"@,
    }
}

/// The title of a window.
pub fn title(window: WindowKind) -> (s: String)
    ensures
        s@ == title_of(window),
{
    match window {
        WindowKind::Main => copy_text("OxideSip"),
        WindowKind::SipSettings => copy_text("OxideSip \u{2014} SIP Setup"),
        WindowKind::AudioSettings => copy_text("OxideSip \u{2014} Audio & Codecs"),
        WindowKind::Settings => copy_text("OxideSip \u{2014} Settings"),
    }
}

/// The name of a line's audio.
pub open spec fn media_name(account: nat, idx: nat) -> Seq<char> {
    "OxideSip Acct"@ + decimal(account + 1) + " Line "@ + decimal(idx + 1)
}

/// The name under which a line's audio is announced, as its main output or as
/// its second one.
pub fn media_label(account: usize, idx: usize, secondary: bool) -> (s: String)
    requires
        account < usize::MAX,
        idx < usize::MAX,
    ensures
        s@ == media_name(account as nat, idx as nat) + if secondary {
            " (secondary)"@
        } else {
            Seq::empty()
        },
{
    let mut s = copy_text("OxideSip Acct");
    push_number(&mut s, (account + 1) as u64);
    push_all(&mut s, " Line ");
    push_number(&mut s, (idx + 1) as u64);
    if secondary {
        push_all(&mut s, " (secondary)");
    }
    proof {
        assert(!secondary ==> s@ =~= s@ + Seq::<char>::empty());
    }
    s
}

/// What an account is called where one is chosen.
pub open spec fn account_title(name: Seq<char>, index: nat) -> Seq<char> {
    if name.len() == 0 {
        "Account "@ + decimal(index + 1)
    } else {
        name
    }
}

/// What an account is called where one is chosen.
pub fn account_label(name: &str, index: usize) -> (s: String)
    requires
        index < usize::MAX,
    ensures
        s@ == account_title(name@, index as nat),
{
    if chars(name).len() == 0 {
        let mut s = copy_text("Account ");
        push_number(&mut s, (index + 1) as u64);
        s
    } else {
        copy_text(name)
    }
}

// ---------------------------------------------------------------------------
// Lines

/// How many characters of a number fit on the button of a line.
pub const SHORT_LABEL: usize = 6;

/// The start of a number.
pub open spec fn shortened(s: Seq<char>) -> Seq<char> {
    if s.len() <= SHORT_LABEL {
        s
    } else {
        s.take(SHORT_LABEL as int)
    }
}

/// The start of a number.
pub fn short_label(s: &str) -> (r: String)
    ensures
        r@ == shortened(s@),
{
    let v: Vec<char> = chars(s);
    if v.len() <= SHORT_LABEL {
        copy_text(s)
    } else {
        let r = string_of(&v, 0, SHORT_LABEL);
        proof {
            assert(r@ =~= s@.take(SHORT_LABEL as int));
        }
        r
    }
}

/// How a line is lit.
#[derive(Debug, Clone, Copy, PartialEq, Eq, Structural)]
pub enum Light {
    /// Idle, and not open.
    Off,
    /// Open, ringing, calling, or on hold.
    On,
    /// Heard.
    Live,
}

/// Whether a line is heard: it is joined, or selected and not on hold.
pub open spec fn live(acc: AccountSession, idx: int) -> bool {
    acc.lines@[idx].call matches CallUiState::Active(c) && (acc.lines@[idx].joined is Some || (idx
        == acc.at() && !c.on_hold))
}

/// Whether a line is open without a call on it.
pub open spec fn armed(acc: AccountSession, idx: int) -> bool {
    idx == acc.at() && acc.line_open && acc.lines@[idx].call is Idle
}

/// How a line is lit.
pub open spec fn light_of(acc: AccountSession, idx: int) -> Light {
    if live(acc, idx) {
        Light::Live
    } else if !(acc.lines@[idx].call is Idle) || armed(acc, idx) {
        Light::On
    } else {
        Light::Off
    }
}

/// How a line is lit.
pub fn line_light(acc: &AccountSession, idx: usize) -> (r: Light)
    requires
        acc.wf(),
        idx < LINE_COUNT,
    ensures
        r == light_of(*acc, idx as int),
{
    let selected = idx == acc.selected_idx();
    let joined = acc.lines[idx].joined.is_some();
    match &acc.lines[idx].call {
        CallUiState::Idle => if selected && acc.line_open {
            Light::On
        } else {
            Light::Off
        },
        CallUiState::Active(c) => if joined || (selected && !c.on_hold) {
            Light::Live
        } else {
            Light::On
        },
        _ => Light::On,
    }
}

/// At most one line of an account is lit as live, but for those that are
/// joined.
pub proof fn one_live_line(acc: AccountSession, i: int, j: int)
    requires
        acc.wf(),
        0 <= i < LINE_COUNT,
        0 <= j < LINE_COUNT,
        light_of(acc, i) == Light::Live,
        light_of(acc, j) == Light::Live,
        acc.lines@[i].joined is None,
        acc.lines@[j].joined is None,
    ensures
        i == j,
{
}

/// What stands on the button of a line.
pub open spec fn sub_label_of(call: CallUiState, joined: bool) -> Seq<char> {
    match call {
        CallUiState::Idle => Seq::empty(),
        CallUiState::Incoming { caller, .. } => shortened(caller@),
        CallUiState::Outgoing { number, .. } => shortened(number@),
        CallUiState::Active(c) => if joined {
            shortened(c.number@) + " J"@
        } else {
            shortened(c.number@)
        },
    }
}

/// What stands on the button of a line.
pub fn sub_label(call: &CallUiState, joined: bool) -> (s: String)
    ensures
        s@ == sub_label_of(*call, joined),
{
    match call {
        CallUiState::Idle => String::new(),
        CallUiState::Incoming { caller, .. } => short_label(caller.as_str()),
        CallUiState::Outgoing { number, .. } => short_label(number.as_str()),
        CallUiState::Active(c) => {
            let mut s = short_label(c.number.as_str());
            if joined {
                push_all(&mut s, " J");
            }
            s
        },
    }
}

/// What is said of a line.
pub open spec fn tooltip_of(line: u8, call: CallUiState, joined: Option<u8>, armed: bool) -> Seq<
    char,
> {
    "Line "@ + decimal(line as nat) + match call {
        CallUiState::Idle => if armed {
            " \u{2014} open, ready to dial"@
        } else {
            " \u{2014} idle"@
        },
        CallUiState::Incoming { caller, .. } => " \u{2014} ringing: "@ + caller@,
        CallUiState::Outgoing { number, .. } => " \u{2014} calling "@ + number@,
        CallUiState::Active(c) => " \u{2014} "@ + c.number@ + match joined {
            Some(partner) => " (joined with Line "@ + decimal(partner as nat) + ")"@,
            None => if c.on_hold {
                " (on hold)"@
            } else {
                Seq::empty()
            },
        },
    }
}

/// What is said of a line.
pub fn line_tooltip(line: u8, call: &CallUiState, joined_with: Option<u8>, armed_idle: bool) -> (s:
    String)
    ensures
        s@ == tooltip_of(line, *call, joined_with, armed_idle),
{
    let mut s = copy_text("Line ");
    push_number(&mut s, line as u64);
    let ghost start = s@;
    match call {
        CallUiState::Idle => {
            if armed_idle {
                push_all(&mut s, " \u{2014} open, ready to dial");
            } else {
                push_all(&mut s, " \u{2014} idle");
            }
        },
        CallUiState::Incoming { caller, .. } => {
            push_all(&mut s, " \u{2014} ringing: ");
            push_all(&mut s, caller.as_str());
            proof {
                assert(s@ =~= start + (" \u{2014} ringing: "@ + caller@));
            }
        },
        CallUiState::Outgoing { number, .. } => {
            push_all(&mut s, " \u{2014} calling ");
            push_all(&mut s, number.as_str());
            proof {
                assert(s@ =~= start + (" \u{2014} calling "@ + number@));
            }
        },
        CallUiState::Active(c) => {
            push_all(&mut s, " \u{2014} ");
            push_all(&mut s, c.number.as_str());
            match joined_with {
                Some(partner) => {
                    push_all(&mut s, " (joined with Line ");
                    push_number(&mut s, partner as u64);
                    push_all(&mut s, ")");
                },
                None => {
                    if c.on_hold {
                        push_all(&mut s, " (on hold)");
                    }
                },
            }
            proof {
                assert(s@ =~= tooltip_of(line, *call, joined_with, armed_idle));
            }
        },
    }
    s
}

/// Minutes, and seconds with two digits.
pub open spec fn elapsed_label(secs: nat) -> Seq<char> {
    decimal(secs / 60) + seq![':'] + two_digits(secs % 60)
}

/// How long something has been going on.
pub fn format_elapsed(secs: u64) -> (s: String)
    ensures
        s@ == elapsed_label(secs as nat),
{
    let mut s = String::new();
    push_number(&mut s, secs / 60);
    s.push(':');
    push_two_digits(&mut s, secs % 60);
    proof {
        assert(s@ =~= elapsed_label(secs as nat));
    }
    s
}

/// Since when the selected line does what it does.
pub open spec fn going_since(acc: AccountSession) -> Option<u64> {
    match acc.line().call {
        CallUiState::Idle => if acc.line_open {
            acc.line_open_at
        } else {
            None
        },
        CallUiState::Incoming { ringing_since, .. } => Some(ringing_since),
        CallUiState::Outgoing { started_at, .. } => Some(started_at),
        CallUiState::Active(c) => Some(c.answered_at),
    }
}

/// What stands at the bottom of the main window: how long the selected line has
/// been doing what it does, or how its last call ended.
pub open spec fn status_of(acc: AccountSession, now: Moment) -> Option<Seq<char>> {
    match going_since(acc) {
        Some(since) => Some(
            "(L"@ + decimal(acc.selected_line as nat) + " "@ + elapsed_label(
                secs_since(now, since) as nat,
            ) + ")"@,
        ),
        None => match acc.line().last_call_status {
            Some(label) => Some("("@ + label@ + ")"@),
            None => None,
        },
    }
}

/// What stands at the bottom of the main window.
pub fn line_status_label(acc: &AccountSession, now: Moment) -> (r: Option<String>)
    requires
        acc.wf(),
    ensures
        crate::text::opt_text(r) == status_of(*acc, now),
{
    let idx: usize = acc.selected_idx();
    let since: Option<u64> = match &acc.lines[idx].call {
        CallUiState::Idle => if acc.line_open {
            acc.line_open_at
        } else {
            None
        },
        CallUiState::Incoming { ringing_since, .. } => Some(*ringing_since),
        CallUiState::Outgoing { started_at, .. } => Some(*started_at),
        CallUiState::Active(c) => Some(c.answered_at),
    };
    match since {
        Some(since) => {
            let mut s = copy_text("(L");
            push_number(&mut s, acc.selected_line as u64);
            push_all(&mut s, " ");
            let elapsed = format_elapsed(seconds_since(now, since));
            push_all(&mut s, elapsed.as_str());
            push_all(&mut s, ")");
            Some(s)
        },
        None => match &acc.lines[idx].last_call_status {
            Some(label) => {
                let mut s = copy_text("(");
                push_all(&mut s, label.as_str());
                push_all(&mut s, ")");
                Some(s)
            },
            None => None,
        },
    }
}

/// What the join button is for.
#[derive(Debug)]
pub enum JoinUi {
    /// There is no other call to join.
    Hidden,
    Available,
    /// Another line is to be picked.
    Pending,
    Joined { partner_number: String },
}

/// What the join button of the selected line is for.
pub fn selected_join_ui(acc: &AccountSession) -> (r: JoinUi)
    requires
        acc.wf(),
    ensures
        match r {
            JoinUi::Pending => acc.pending_join == Some(acc.selected_line),
            JoinUi::Joined { partner_number } => acc.pending_join != Some(acc.selected_line) && (
            acc.line().joined matches Some(p) && partner_number@ == match acc.lines@[p - 1].call {
                CallUiState::Active(c) => c.number@,
                _ => Seq::<char>::empty(),
            }),
            JoinUi::Available => acc.pending_join != Some(acc.selected_line)
                && acc.line().joined is None && acc.other_active(),
            JoinUi::Hidden => acc.pending_join != Some(acc.selected_line)
                && acc.line().joined is None && !acc.other_active(),
        },
{
    let idx: usize = acc.selected_idx();
    if let Some(line) = acc.pending_join {
        if line == acc.selected_line {
            return JoinUi::Pending;
        }
    }
    if let Some(partner) = acc.lines[idx].joined {
        let partner_number = match &acc.lines[(partner - 1) as usize].call {
            CallUiState::Active(c) => c.number.clone(),
            _ => String::new(),
        };
        return JoinUi::Joined { partner_number };
    }
    if acc.has_other_active() {
        JoinUi::Available
    } else {
        JoinUi::Hidden
    }
}

// ---------------------------------------------------------------------------
// The selected call

/// What is said of a call: whom it is joined with, that its audio starts, that
/// it is on hold, or how long it lasts.
pub open spec fn call_status_of(
    call: ActiveCall,
    partner: Option<Seq<char>>,
    now: Moment,
) -> Seq<char> {
    match partner {
        Some(number) => "Joined with "@ + number,
        None => if !call.media {
            "Connecting audio\u{2026}"@
        } else if call.on_hold {
            "On hold"@
        } else {
            clock_label(secs_since(now, call.answered_at) as nat)
        },
    }
}

/// What is said of a call.
pub fn call_status(call: &ActiveCall, join: &JoinUi, now: Moment) -> (s: String)
    ensures
        s@ == call_status_of(
            *call,
            match *join {
                JoinUi::Joined { partner_number } => Some(partner_number@),
                _ => None,
            },
            now,
        ),
{
    if let JoinUi::Joined { partner_number } = join {
        let mut s = copy_text("Joined with ");
        push_all(&mut s, partner_number.as_str());
        return s;
    }
    if !call.media {
        copy_text("Connecting audio\u{2026}")
    } else if call.on_hold {
        copy_text("On hold")
    } else {
        let secs: u64 = seconds_since(now, call.answered_at);
        let mut s = String::new();
        push_two_digits(&mut s, secs / 60);
        s.push(':');
        push_two_digits(&mut s, secs % 60);
        proof {
            assert(s@ =~= clock_label(secs as nat));
        }
        s
    }
}

/// What is said of a call in the shrunk window.
pub fn compact_status(call: &ActiveCall) -> (s: &'static str)
    ensures
        s@ == if !call.media {
            "Connecting\u{2026}"@
        } else if call.on_hold {
            "On hold"@
        } else {
            "Connected"@
        },
{
    if !call.media {
        "Connecting\u{2026}"
    } else if call.on_hold {
        "On hold"
    } else {
        "Connected"
    }
}

/// How many of the digits that were sent are shown.
pub const SHOWN_DIGITS: usize = 8;

/// The last of the digits that were sent.
pub open spec fn last_digits(digits: Seq<char>) -> Seq<char> {
    if digits.len() <= SHOWN_DIGITS {
        digits
    } else {
        digits.skip(digits.len() - SHOWN_DIGITS)
    }
}

/// The last of the digits that were sent.
pub fn shown_digits(digits: &Vec<char>) -> (s: String)
    ensures
        s@ == last_digits(digits@),
{
    let from: usize = if digits.len() <= SHOWN_DIGITS {
        0
    } else {
        digits.len() - SHOWN_DIGITS
    };
    let s = string_of(digits, from, digits.len());
    proof {
        assert(s@ =~= last_digits(digits@));
    }
    s
}

// ---------------------------------------------------------------------------
// Registration

/// What an account's registration is shown as.
pub open spec fn registration_label(status: RegistrationStatus) -> Seq<char> {
    match status {
        RegistrationStatus::Connecting => "Connecting"@,
        RegistrationStatus::Registered { .. } => "Connected"@,
        RegistrationStatus::Failed { .. } => "Offline"@,
    }
}

/// The seconds until an account registers anew.
pub open spec fn renews_in(expires: u32, since: u64) -> u32 {
    let passed = (since % 0x1_0000_0000) as u32;
    if passed <= expires {
        (expires - passed) as u32
    } else {
        0
    }
}

/// What is said of an account's registration.
pub open spec fn registration_detail(status: RegistrationStatus, now: Moment) -> Seq<char> {
    match status {
        RegistrationStatus::Connecting => "Connecting to SIP server\u{2026}"@,
        RegistrationStatus::Registered { expires, registered_at, rtt_ms } => {
            "Registered with SIP server \u{2014} renews in "@ + elapsed_label(
                renews_in(expires, secs_since(now, registered_at)) as nat,
            ) + " \u{2014} last REGISTER took "@ + decimal(rtt_ms as nat) + "ms"@
        },
        RegistrationStatus::Failed { reason } => "Registration failed: "@ + reason@,
    }
}

/// What an account's registration is shown as, and what is said of it.
pub fn registration_texts(status: &RegistrationStatus, now: Moment) -> (r: (&'static str, String))
    ensures
        r.0@ == registration_label(*status),
        r.1@ == registration_detail(*status, now),
{
    match status {
        RegistrationStatus::Connecting => (
            "Connecting",
            copy_text("Connecting to SIP server\u{2026}"),
        ),
        RegistrationStatus::Registered { expires, registered_at, rtt_ms } => {
            let passed: u32 = (seconds_since(now, *registered_at) % 0x1_0000_0000) as u32;
            let remaining: u32 = if passed <= *expires {
                *expires - passed
            } else {
                0
            };
            let mut s = copy_text("Registered with SIP server \u{2014} renews in ");
            let elapsed = format_elapsed(remaining as u64);
            push_all(&mut s, elapsed.as_str());
            push_all(&mut s, " \u{2014} last REGISTER took ");
            push_number(&mut s, *rtt_ms as u64);
            push_all(&mut s, "ms");
            ("Connected", s)
        },
        RegistrationStatus::Failed { reason } => {
            let mut s = copy_text("Registration failed: ");
            push_all(&mut s, reason.as_str());
            ("Offline", s)
        },
    }
}

// ---------------------------------------------------------------------------
// People and numbers

/// A character in upper case, as `char::to_uppercase` has it.
pub uninterp spec fn uppercase_of(c: char) -> Seq<char>;

/// Whether `char::is_alphanumeric` holds.
pub uninterp spec fn is_alphanumeric(c: char) -> bool;

/// `char::to_uppercase`, as a text: the character in upper case, by the rules
/// of Unicode. The result is named; what those rules are is left unsaid.
#[verifier::external_body]
fn to_uppercase(c: char) -> (r: String)
    ensures
        r@ == uppercase_of(c),
{
    c.to_uppercase().to_string()
}

/// `char::is_alphanumeric`: whether the character is a letter or a digit, by
/// the rules of Unicode. The result is named; what those rules are is left
/// unsaid.
#[verifier::external_body]
fn alphanumeric(c: char) -> (r: bool)
    ensures
        r == is_alphanumeric(c),
{
    c.is_alphanumeric()
}

/// The first letter or digit from a position on.
pub open spec fn first_alphanumeric(s: Seq<char>, from: int) -> Option<char>
    decreases s.len() - from,
{
    if from < 0 || from >= s.len() {
        None
    } else if is_alphanumeric(s[from]) {
        Some(s[from])
    } else {
        first_alphanumeric(s, from + 1)
    }
}

/// What stands for a name: its first letter or digit, in upper case, or a hash.
pub open spec fn initial_of(s: Seq<char>) -> Seq<char> {
    match first_alphanumeric(s, 0) {
        Some(c) => uppercase_of(c),
        None => "#"@,
    }
}

/// What stands for a name.
pub fn initial(label: &str) -> (r: String)
    ensures
        r@ == initial_of(label@),
{
    let v: Vec<char> = chars(label);
    let mut i: usize = 0;
    while i < v.len()
        invariant
            i <= v@.len(),
            v@ == label@,
            first_alphanumeric(label@, 0) == first_alphanumeric(v@, i as int),
        decreases v.len() - i,
    {
        if alphanumeric(v[i]) {
            return to_uppercase(v[i]);
        }
        i += 1;
    }
    copy_text("#")
}

/// A letter in upper case, if it is one of the first 128 characters.
pub open spec fn ascii_upper(c: char) -> char {
    if 'a' <= c && c <= 'z' {
        ((c as u8 - 32) as u8) as char
    } else {
        c
    }
}

fn upper(c: char) -> (r: char)
    ensures
        r == ascii_upper(c),
{
    if 'a' <= c && c <= 'z' {
        ((c as u8) - 32) as char
    } else {
        c
    }
}

/// What stands for a contact: the first letters of the first two words of its
/// name, in upper case, or a hash.
pub open spec fn initials_of(name: Seq<char>) -> Seq<char> {
    let w = words(name);
    if w.len() == 0 {
        "#"@
    } else if w.len() == 1 {
        seq![ascii_upper(w[0][0])]
    } else {
        seq![ascii_upper(w[0][0]), ascii_upper(w[1][0])]
    }
}

/// What stands for a contact.
pub fn contact_initials(name: &str) -> (r: String)
    ensures
        r@ == initials_of(name@),
{
    let w: Vec<String> = split_words(name);
    proof {
        assert(texts(w@).len() == w@.len());
        words_hold_something(name@, 0);
    }
    if w.len() == 0 {
        return copy_text("#");
    }
    let mut r = String::new();
    proof {
        assert(texts(w@)[0] == w@[0]@);
    }
    let first: Vec<char> = chars(w[0].as_str());
    r.push(upper(first[0]));
    if w.len() > 1 {
        proof {
            assert(texts(w@)[1] == w@[1]@);
        }
        let second: Vec<char> = chars(w[1].as_str());
        r.push(upper(second[0]));
    }
    proof {
        assert(r@ =~= initials_of(name@));
    }
    r
}

spec fn none_empty(w: Seq<Seq<char>>) -> bool {
    forall|k: int| 0 <= k < w.len() ==> (#[trigger] w[k]).len() > 0
}

proof fn words_hold_something(s: Seq<char>, i: int)
    requires
        0 <= i <= s.len(),
    ensures
        none_empty(crate::text::words_from(s, i)),
    decreases s.len() - i,
{
    if i < s.len() {
        if crate::text::is_space(s[i]) {
            words_hold_something(s, i + 1);
        } else {
            let e = crate::text::word_end(s, i);
            crate::text::word_end_bounds(s, i);
            crate::text::word_end_bounds(s, i + 1);
            words_hold_something(s, e);
            let rest = crate::text::words_from(s, e);
            let all = crate::text::words_from(s, i);
            assert forall|k: int| 0 <= k < all.len() implies (#[trigger] all[k]).len() > 0 by {
                if k > 0 {
                    assert(all[k] == rest[k - 1]);
                } else {
                    assert(all[0] == s.subrange(i, e));
                }
            }
        }
    }
}

/// The last digits of a number, at most `most` of them.
pub open spec fn tail_digits(s: Seq<char>, most: nat) -> Seq<char>
    decreases s.len(),
{
    if s.len() == 0 || most == 0 {
        Seq::empty()
    } else if crate::ui::dialing::numeral(s.last()) {
        tail_digits(s.drop_last(), (most - 1) as nat).push(s.last())
    } else {
        tail_digits(s.drop_last(), most)
    }
}

/// What stands for the other side of a call: a contact's initials, or the last
/// two digits of its number, or a hash.
pub open spec fn avatar_of(contacts: Seq<Contact>, raw: Seq<char>) -> Seq<char> {
    match with_number(people(contacts), raw, 0) {
        Some(i) => initials_of(contacts[i].name@),
        None => {
            let digits = tail_digits(raw, 2);
            if digits.len() == 0 {
                "#"@
            } else {
                digits
            }
        },
    }
}

/// What stands for the other side of a call.
pub fn call_avatar_label(contacts: &Vec<Contact>, raw: &str) -> (r: String)
    ensures
        r@ == avatar_of(contacts@, raw@),
{
    if let Some(i) = find_number(contacts, raw) {
        return contact_initials(contacts[i].name.as_str());
    }
    let v: Vec<char> = chars(raw);
    let mut last: Option<char> = None;
    let mut i: usize = v.len();
    proof {
        assert(v@.take(i as int) =~= raw@);
    }
    while i > 0
        invariant
            i <= v@.len(),
            tail_digits(raw@, 2) == match last {
                Some(c) => tail_digits(v@.take(i as int), 1).push(c),
                None => tail_digits(v@.take(i as int), 2),
            },
            with_number(people(contacts@), raw@, 0) is None,
        decreases i,
    {
        i -= 1;
        let c = v[i];
        proof {
            assert(v@.take(i + 1).drop_last() =~= v@.take(i as int));
        }
        if '0' <= c && c <= '9' {
            match last {
                None => {
                    last = Some(c);
                },
                Some(d) => {
                    let mut r = String::new();
                    r.push(c);
                    r.push(d);
                    proof {
                        assert(tail_digits(v@.take(i as int), 0) =~= Seq::empty());
                        assert(r@ =~= tail_digits(raw@, 2));
                    }
                    return r;
                },
            }
        }
    }
    match last {
        Some(c) => {
            let mut r = String::new();
            r.push(c);
            proof {
                assert(r@ =~= tail_digits(raw@, 2));
            }
            r
        },
        None => copy_text("#"),
    }
}

/// Who is at the other side of a call: a contact's name, or else the number.
pub open spec fn caller_of(contacts: Seq<Contact>, number: Seq<char>) -> Seq<char> {
    match with_number(people(contacts), number, 0) {
        Some(i) => contacts[i].name@,
        None => number,
    }
}

/// Who is at the other side of a call.
pub fn caller_name(contacts: &Vec<Contact>, number: &str) -> (s: String)
    ensures
        s@ == caller_of(contacts@, number@),
{
    match find_number(contacts, number) {
        Some(i) => copy_text(contacts[i].name.as_str()),
        None => copy_text(number),
    }
}

/// The letters on a key.
pub open spec fn letters_on(key: char) -> Seq<char> {
    match key {
        '2' => "ABC"@,
        '3' => "DEF"@,
        '4' => "GHI"@,
        '5' => "JKL"@,
        '6' => "MNO"@,
        '7' => "PQRS"@,
        '8' => "TUV"@,
        '9' => "WXYZ"@,
        '0' => "+"@,
        _ => ""@,
    }
}

/// The letters on a key.
pub fn dialpad_letters(key: char) -> (s: &'static str)
    ensures
        s@ == letters_on(key),
{
    match key {
        '2' => "ABC",
        '3' => "DEF",
        '4' => "GHI",
        '5' => "JKL",
        '6' => "MNO",
        '7' => "PQRS",
        '8' => "TUV",
        '9' => "WXYZ",
        '0' => "+",
        _ => "",
    }
}

/// The sum over bytes that decides on a colour.
pub open spec fn color_hash(bytes: Seq<u8>) -> u32
    decreases bytes.len(),
{
    if bytes.len() == 0 {
        5381
    } else {
        ((color_hash(bytes.drop_last()) * 33 + bytes.last()) % 0x1_0000_0000) as u32
    }
}

/// The hue, in degrees, of what stands for a name: the same for the same name.
pub fn avatar_hue(seed: &str) -> (r: u32)
    ensures
        r == color_hash(encode_utf8(seed@)) % 360,
{
    let bytes: &[u8] = seed.as_bytes();
    let mut h: u32 = 5381;
    let mut i: usize = 0;
    proof {
        assert(bytes@.take(0) =~= Seq::empty());
    }
    while i < bytes.len()
        invariant
            i <= bytes@.len(),
            h == color_hash(bytes@.take(i as int)),
        decreases bytes.len() - i,
    {
        let next: u64 = (h as u64) * 33 + bytes[i] as u64;
        proof {
            assert(bytes@.take(i + 1).drop_last() =~= bytes@.take(i as int));
        }
        h = (next % 0x1_0000_0000) as u32;
        i += 1;
    }
    proof {
        assert(bytes@.take(i as int) =~= encode_utf8(seed@));
    }
    h % 360
}

// ---------------------------------------------------------------------------
// Lists

/// How a call of the history is marked.
#[derive(Debug, Clone, Copy, PartialEq, Eq, Structural)]
pub enum Mark {
    Missed,
    Unsuccessful,
    Received,
    Made,
}

/// How a call of the history is marked.
pub open spec fn mark_of(direction: CallDirection, outcome: CallOutcome) -> Mark {
    match outcome {
        CallOutcome::Missed => Mark::Missed,
        CallOutcome::Rejected => Mark::Unsuccessful,
        CallOutcome::Failed => Mark::Unsuccessful,
        CallOutcome::Answered => if direction == CallDirection::Incoming {
            Mark::Received
        } else {
            Mark::Made
        },
    }
}

/// How a call of the history is marked.
pub fn history_mark(entry: &HistoryEntry) -> (r: Mark)
    ensures
        r == mark_of(entry.direction, entry.outcome),
{
    match entry.outcome {
        CallOutcome::Missed => Mark::Missed,
        CallOutcome::Rejected => Mark::Unsuccessful,
        CallOutcome::Failed => Mark::Unsuccessful,
        CallOutcome::Answered => if entry.direction == CallDirection::Incoming {
            Mark::Received
        } else {
            Mark::Made
        },
    }
}

/// What is said of a call of the history: when it was, and how long it lasted
/// if it was answered.
pub fn history_detail(now: i64, entry: &HistoryEntry) -> (s: String)
    requires
        i64::MIN <= now - entry.unix_secs <= i64::MAX,
    ensures
        s@ == ago(now - entry.unix_secs) + if entry.outcome == CallOutcome::Answered {
            " - "@ + clock_label(entry.duration_secs as nat)
        } else {
            Seq::empty()
        },
{
    let mut s = relative_label(now, entry.unix_secs);
    let ghost when = s@;
    if entry.outcome == CallOutcome::Answered {
        push_all(&mut s, " - ");
        let lasted = duration_label(entry.duration_secs);
        push_all(&mut s, lasted.as_str());
        proof {
            assert(s@ =~= when + (" - "@ + clock_label(entry.duration_secs as nat)));
        }
    } else {
        proof {
            assert(s@ =~= when + Seq::<char>::empty());
        }
    }
    s
}

/// How many contacts are shown.
pub fn count_label(count: usize) -> (s: String)
    ensures
        s@ == decimal(count as nat) + " contact"@ + if count == 1 {
            Seq::empty()
        } else {
            seq!['s']
        },
{
    let mut s = String::new();
    push_number(&mut s, count as u64);
    push_all(&mut s, " contact");
    if count != 1 {
        s.push('s');
    }
    proof {
        assert(s@ =~= decimal(count as nat) + " contact"@ + if count == 1 {
            Seq::empty()
        } else {
            seq!['s']
        });
    }
    s
}

/// A device as it is offered to the user.
pub open spec fn offered(id: Seq<char>, description: Seq<char>, app: bool) -> (Seq<char>, Seq<char>) {
    (
        id,
        if app {
            "App: "@ + description
        } else {
            description
        },
    )
}

/// A device as a plain value.
pub open spec fn device(d: AudioDevice) -> (Seq<char>, Seq<char>) {
    (d.id@, d.description@)
}

/// What is offered to the user where a device is chosen: first none of them,
/// under a given name, then the streams of programs, marked as such, then the
/// devices.
pub open spec fn choices(
    none: Seq<char>,
    streams: Seq<AudioDevice>,
    devices: Seq<AudioDevice>,
) -> Seq<(Seq<char>, Seq<char>)> {
    seq![(Seq::<char>::empty(), none)] + streams.map_values(
        |d: AudioDevice| offered(d.id@, d.description@, true),
    ) + devices.map_values(|d: AudioDevice| offered(d.id@, d.description@, false))
}

fn offer(d: &AudioDevice, app: bool) -> (r: AudioDevice)
    ensures
        device(r) == offered(d.id@, d.description@, app),
{
    if app {
        let mut description = copy_text("App: ");
        push_all(&mut description, d.description.as_str());
        AudioDevice { id: copy_text(d.id.as_str()), description }
    } else {
        AudioDevice {
            id: copy_text(d.id.as_str()),
            description: copy_text(d.description.as_str()),
        }
    }
}

/// Devices as plain values.
pub open spec fn device_list(v: Seq<AudioDevice>) -> Seq<(Seq<char>, Seq<char>)> {
    v.map_values(|d: AudioDevice| device(d))
}

fn extend_offers(v: &mut Vec<AudioDevice>, more: &Vec<AudioDevice>, app: bool)
    ensures
        device_list(final(v)@) == device_list(old(v)@) + more@.map_values(
            |d: AudioDevice| offered(d.id@, d.description@, app),
        ),
{
    let ghost start = device_list(v@);
    let ghost all = more@.map_values(|d: AudioDevice| offered(d.id@, d.description@, app));
    let mut i: usize = 0;
    proof {
        assert(start + all.take(0) =~= start);
    }
    while i < more.len()
        invariant
            i <= more@.len(),
            all == more@.map_values(|d: AudioDevice| offered(d.id@, d.description@, app)),
            device_list(v@) == start + all.take(i as int),
        decreases more.len() - i,
    {
        let ghost before = v@;
        let d = offer(&more[i], app);
        v.push(d);
        proof {
            assert(device_list(v@) =~= device_list(before).push(device(d)));
            assert(all.take(i + 1) =~= all.take(i as int).push(all[i as int]));
            assert(device_list(v@) =~= start + all.take(i + 1));
        }
        i += 1;
    }
    proof {
        assert(all.take(i as int) =~= all);
    }
}

/// What is offered to the user where a device is chosen.
pub fn device_choices(none: &str, streams: &Vec<AudioDevice>, devices: &Vec<AudioDevice>) -> (v: Vec<
    AudioDevice,
>)
    ensures
        device_list(v@) == choices(none@, streams@, devices@),
{
    let mut v: Vec<AudioDevice> = Vec::new();
    let first = AudioDevice { id: String::new(), description: copy_text(none) };
    v.push(first);
    proof {
        assert(first.id@ =~= Seq::<char>::empty());
        assert(device_list(v@) =~= seq![(Seq::<char>::empty(), none@)]);
    }
    extend_offers(&mut v, streams, true);
    extend_offers(&mut v, devices, false);
    v
}

/// The first choice from a position on that has a name.
pub open spec fn choice_from(v: Seq<AudioDevice>, id: Seq<char>, from: int) -> Option<int>
    decreases v.len() - from,
{
    if from < 0 || from >= v.len() {
        None
    } else if v[from].id@ == id {
        Some(from)
    } else {
        choice_from(v, id, from + 1)
    }
}

/// The name of the chosen device; the empty name stands for none of them.
pub open spec fn chosen_id(chosen: Option<String>) -> Seq<char> {
    match chosen {
        Some(id) => id@,
        None => Seq::empty(),
    }
}

/// Which of the choices is the chosen one.
pub fn chosen_device(v: &Vec<AudioDevice>, chosen: &Option<String>) -> (r: Option<usize>)
    ensures
        match r {
            Some(i) => i < v@.len() && choice_from(v@, chosen_id(*chosen), 0) == Some(i as int),
            None => choice_from(v@, chosen_id(*chosen), 0) is None,
        },
{
    let id: String = match chosen {
        Some(id) => id.clone(),
        None => String::new(),
    };
    proof {
        assert(id@ =~= chosen_id(*chosen));
    }
    let mut i: usize = 0;
    while i < v.len()
        invariant
            i <= v@.len(),
            choice_from(v@, chosen_id(*chosen), 0) == choice_from(v@, id@, i as int),
        decreases v.len() - i,
    {
        if same_text(v[i].id.as_str(), id.as_str()) {
            return Some(i);
        }
        i += 1;
    }
    None
}

} // verus!
