//! What the user reads.

use vstd::prelude::*;

use crate::media::devices::AudioDevice;
use crate::text::{decimal, is_space};
use crate::ui::app::App;
use crate::ui::call_laws::whole_secs;
use crate::ui::contacts::Contact;
use crate::ui::effect::{Effect, ToneCue, WindowKind};
use crate::ui::history::{clock_label, two_digits, CallDirection, CallOutcome};
use crate::ui::labels::{
    account_title, avatar_of, call_status_of, caller_of, choice_from, choices, chosen_id, color_hash,
    device_list, elapsed_label, initial_of, initials_of, is_alphanumeric, last_digits, letters_on,
    light_of, mark_of, media_name, registration_detail, registration_label, shortened, status_of,
    sub_label_of, tail_digits, title_of, tooltip_of, uppercase_of, Light, Mark,
};
use crate::ui::message::{Message, Moment};
use crate::ui::session::{AccountSession, ActiveCall, CallUiState, RegistrationStatus};
use crate::ui::update::took_in;

verus! {

/// Each window has its own title.
pub proof fn windows_have_titles()
    ensures
        title_of(WindowKind::Main) == "OxideSip"@,
        title_of(WindowKind::SipSettings) == "OxideSip"@ + " \u{2014} SIP Setup"@,
        title_of(WindowKind::AudioSettings) == "OxideSip"@ + " \u{2014} Audio & Codecs"@,
        title_of(WindowKind::Settings) == "OxideSip"@ + " \u{2014} Settings"@,
{
    reveal_strlit("OxideSip");
    reveal_strlit("OxideSip \u{2014} SIP Setup");
    reveal_strlit(" \u{2014} SIP Setup");
    reveal_strlit("OxideSip \u{2014} Audio & Codecs");
    reveal_strlit(" \u{2014} Audio & Codecs");
    reveal_strlit("OxideSip \u{2014} Settings");
    reveal_strlit(" \u{2014} Settings");
    assert(title_of(WindowKind::SipSettings) =~= "OxideSip"@ + " \u{2014} SIP Setup"@);
    assert(title_of(WindowKind::AudioSettings) =~= "OxideSip"@ + " \u{2014} Audio & Codecs"@);
    assert(title_of(WindowKind::Settings) =~= "OxideSip"@ + " \u{2014} Settings"@);
}

/// Accounts and lines are counted from one; an account goes by its name where it
/// has one.
pub proof fn accounts_and_lines_are_counted_from_one(name: Seq<char>, account: nat, idx: nat)
    ensures
        media_name(account, idx) == "OxideSip Acct"@ + decimal(account + 1) + " Line "@ + decimal(
            idx + 1,
        ),
        name.len() > 0 ==> account_title(name, account) == name,
        name.len() == 0 ==> account_title(name, account) == "Account "@ + decimal(account + 1),
{
}

/// A button shows the first six characters of a number, and a call the last eight
/// digits that were sent.
pub proof fn labels_are_cut_to_fit(s: Seq<char>)
    ensures
        s.len() <= 6 ==> shortened(s) == s,
        s.len() > 6 ==> shortened(s).len() == 6,
        forall|k: int| 0 <= k < shortened(s).len() ==> #[trigger] shortened(s)[k] == s[k],
        s.len() <= 8 ==> last_digits(s) == s,
        s.len() > 8 ==> last_digits(s).len() == 8,
        forall|k: int| 0 <= k < last_digits(s).len() ==> #[trigger] last_digits(s)[k] == s[s.len()
            - last_digits(s).len() + k],
{
}

/// A line is lit while anything goes on on it or it is open, and live while it is
/// heard: it holds an answered call that is joined, or selected and not on hold.
pub proof fn lights_show_what_is_heard(acc: AccountSession, idx: int)
    requires
        acc.wf(),
        0 <= idx < 5,
    ensures
        ({
            let line = acc.lines@[idx];
            let selected = idx + 1 == acc.selected_line;
            match line.call {
                CallUiState::Active(c) => if line.joined is Some || (selected && !c.on_hold) {
                    light_of(acc, idx) == Light::Live
                } else {
                    light_of(acc, idx) == Light::On
                },
                CallUiState::Idle => if selected && acc.line_open {
                    light_of(acc, idx) == Light::On
                } else {
                    light_of(acc, idx) == Light::Off
                },
                _ => light_of(acc, idx) == Light::On,
            }
        }),
{
}

/// A button shows who is at the other side, and that the call is joined.
pub proof fn buttons_show_who_is_there(
    id: String,
    number: String,
    offer: crate::signaling::events::RemoteMediaInfo,
    since: u64,
    ringing: bool,
    c: ActiveCall,
    joined: bool,
)
    ensures
        sub_label_of(CallUiState::Idle, joined).len() == 0,
        sub_label_of(
            CallUiState::Incoming { id, caller: number, offer, ringing_since: since },
            joined,
        ) == shortened(number@),
        sub_label_of(
            CallUiState::Outgoing { id, number, started_at: since, ringing },
            joined,
        ) == shortened(number@),
        sub_label_of(CallUiState::Active(c), true) == shortened(c.number@) + seq![' ', 'J'],
        sub_label_of(CallUiState::Active(c), false) == shortened(c.number@),
{
    reveal_strlit(" J");
    assert(" J"@ =~= seq![' ', 'J']);
}

/// What is said of a line names it and says what goes on there.
pub proof fn tooltips_say_what_goes_on(
    line: u8,
    partner: u8,
    id: String,
    number: String,
    offer: crate::signaling::events::RemoteMediaInfo,
    since: u64,
    ringing: bool,
    c: ActiveCall,
    armed: bool,
    joined: Option<u8>,
)
    ensures
        tooltip_of(line, CallUiState::Idle, joined, true) == "Line "@ + decimal(line as nat)
            + " \u{2014} open, ready to dial"@,
        tooltip_of(line, CallUiState::Idle, joined, false) == "Line "@ + decimal(line as nat)
            + " \u{2014} idle"@,
        tooltip_of(
            line,
            CallUiState::Incoming { id, caller: number, offer, ringing_since: since },
            joined,
            armed,
        ) == "Line "@ + decimal(line as nat) + (" \u{2014} ringing: "@ + number@),
        tooltip_of(
            line,
            CallUiState::Outgoing { id, number, started_at: since, ringing },
            joined,
            armed,
        ) == "Line "@ + decimal(line as nat) + (" \u{2014} calling "@ + number@),
        tooltip_of(line, CallUiState::Active(c), Some(partner), armed) == "Line "@ + decimal(
            line as nat,
        ) + (" \u{2014} "@ + c.number@ + (" (joined with Line "@ + decimal(partner as nat) + ")"@)),
        c.on_hold ==> tooltip_of(line, CallUiState::Active(c), None, armed) == "Line "@ + decimal(
            line as nat,
        ) + (" \u{2014} "@ + c.number@ + " (on hold)"@),
        !c.on_hold ==> tooltip_of(line, CallUiState::Active(c), None, armed) == "Line "@ + decimal(
            line as nat,
        ) + (" \u{2014} "@ + c.number@),
{
    assert(" \u{2014} "@ + c.number@ + Seq::<char>::empty() =~= " \u{2014} "@ + c.number@);
}

/// The selected line shows for how long it has been doing what it does: an open
/// line since it was opened, a call since it rang, was placed or was answered. An
/// idle line shows how its last call ended.
pub proof fn lines_show_how_long(acc: AccountSession, now: Moment)
    requires
        acc.wf(),
    ensures
        ({
            let line = acc.lines@[acc.selected_line - 1];
            match line.call {
                CallUiState::Idle => match acc.line_open_at {
                    Some(since) => shows_since(acc, since, now),
                    None => match line.last_call_status {
                        Some(label) => status_of(acc, now) == Some(seq!['('] + label@ + seq![')']),
                        None => status_of(acc, now) is None,
                    },
                },
                CallUiState::Incoming { ringing_since, .. } => shows_since(acc, ringing_since, now),
                CallUiState::Outgoing { started_at, .. } => shows_since(acc, started_at, now),
                CallUiState::Active(c) => shows_since(acc, c.answered_at, now),
            }
        }),
{
    reveal_strlit("(");
    reveal_strlit(")");
    reveal_strlit("(L");
    reveal_strlit(" ");
    assert("("@ =~= seq!['(']);
    assert(")"@ =~= seq![')']);
    assert("(L"@ =~= seq!['(', 'L']);
    assert(" "@ =~= seq![' ']);
}

/// Whether an account shows its selected line and the time since a moment.
pub open spec fn shows_since(acc: AccountSession, since: u64, now: Moment) -> bool {
    let secs = whole_secs(since as int, now.millis as int) as nat;
    status_of(acc, now) == Some(
        seq!['(', 'L'] + decimal(acc.selected_line as nat) + seq![' '] + (decimal(secs / 60)
            + seq![':'] + two_digits(secs % 60)) + seq![')'],
    )
}

/// What is said of a call: whom it is joined with; or else that its audio starts,
/// that it is on hold, or how long it has been going on.
pub proof fn calls_show_how_they_do(call: ActiveCall, number: Seq<char>, now: Moment)
    ensures
        call_status_of(call, Some(number), now) == "Joined with "@ + number,
        !call.media ==> call_status_of(call, None, now) == "Connecting audio\u{2026}"@,
        call.media && call.on_hold ==> call_status_of(call, None, now) == "On hold"@,
        call.media && !call.on_hold ==> call_status_of(call, None, now) == clock_label(
            whole_secs(call.answered_at as int, now.millis as int) as nat,
        ),
{
}

/// Minutes stand before a colon, and seconds with two digits behind it.
pub proof fn elapsed_times_are_minutes_and_seconds(minutes: nat, secs: nat)
    requires
        secs < 60,
    ensures
        elapsed_label(minutes * 60 + secs) == decimal(minutes) + seq![':'] + two_digits(secs),
        clock_label(minutes * 60 + secs) == two_digits(minutes) + seq![':'] + two_digits(secs),
{
    assert((minutes * 60 + secs) / 60 == minutes && (minutes * 60 + secs) % 60 == secs)
        by (nonlinear_arith)
        requires
            secs < 60,
    ;
}

/// An account is connecting, connected or offline, and says until when it is
/// registered and how long that took, or why it is not.
pub proof fn registrations_are_told(
    expires: u32,
    registered_at: u64,
    rtt_ms: u32,
    reason: String,
    now: Moment,
)
    ensures
        registration_label(RegistrationStatus::Connecting) == "Connecting"@,
        registration_label(RegistrationStatus::Registered { expires, registered_at, rtt_ms })
            == "Connected"@,
        registration_label(RegistrationStatus::Failed { reason }) == "Offline"@,
        registration_detail(RegistrationStatus::Connecting, now)
            == "Connecting to SIP server\u{2026}"@,
        registration_detail(RegistrationStatus::Failed { reason }, now) == "Registration failed: "@
            + reason@,
        ({
            let passed = whole_secs(registered_at as int, now.millis as int);
            let left = if passed <= expires {
                (expires - passed) as nat
            } else {
                0
            };
            passed <= u32::MAX ==> registration_detail(
                RegistrationStatus::Registered { expires, registered_at, rtt_ms },
                now,
            ) == "Registered with SIP server \u{2014} renews in "@ + elapsed_label(left)
                + " \u{2014} last REGISTER took "@ + decimal(rtt_ms as nat) + "ms"@
        }),
{
}

/// A call of the history is marked by its outcome, and by who called where it was
/// answered.
pub proof fn history_is_marked_by_outcome(direction: CallDirection, outcome: CallOutcome)
    ensures
        mark_of(direction, CallOutcome::Missed) == Mark::Missed,
        mark_of(direction, CallOutcome::Rejected) == Mark::Unsuccessful,
        mark_of(direction, CallOutcome::Failed) == Mark::Unsuccessful,
        mark_of(CallDirection::Incoming, CallOutcome::Answered) == Mark::Received,
        mark_of(CallDirection::Outgoing, CallOutcome::Answered) == Mark::Made,
{
}

/// The keys from two to nine bear the letters of the alphabet in order, three or
/// four each; zero bears the plus sign, and no other key bears any.
pub proof fn keys_bear_the_alphabet(key: char)
    ensures
        letters_on('2') + letters_on('3') + letters_on('4') + letters_on('5') + letters_on('6')
            + letters_on('7') + letters_on('8') + letters_on('9') == "ABCDEFGHIJKLMNOPQRSTUVWXYZ"@,
        50 <= key as int <= 57 && key != '7' && key != '9' ==> letters_on(key).len() == 3,
        key == '7' || key == '9' ==> letters_on(key).len() == 4,
        letters_on('0') == seq!['+'],
        !(48 <= key as int <= 57) || key == '1' ==> letters_on(key).len() == 0,
{
    reveal_strlit("ABC");
    reveal_strlit("DEF");
    reveal_strlit("GHI");
    reveal_strlit("JKL");
    reveal_strlit("MNO");
    reveal_strlit("PQRS");
    reveal_strlit("TUV");
    reveal_strlit("WXYZ");
    reveal_strlit("+");
    reveal_strlit("");
    reveal_strlit("ABCDEFGHIJKLMNOPQRSTUVWXYZ");
    assert("+"@ =~= seq!['+']);
    assert(letters_on('2') + letters_on('3') + letters_on('4') + letters_on('5') + letters_on('6')
        + letters_on('7') + letters_on('8') + letters_on('9') =~= "ABCDEFGHIJKLMNOPQRSTUVWXYZ"@);
}

/// The other side of a call is shown by the last two digits of its number, or by a
/// hash where it has none; a contact is called by its name.
pub proof fn strangers_go_by_their_digits(contacts: Seq<Contact>, number: Seq<char>, i: int)
    ensures
        (forall|k: int| 0 <= k < contacts.len() ==> (#[trigger] contacts[k]).number@ != number)
            ==> caller_of(contacts, number) == number && avatar_of(contacts, number)
            == if tail_digits(number, 2).len() == 0 {
            seq!['#']
        } else {
            tail_digits(number, 2)
        },
        ({
            &&& 0 <= i < contacts.len()
            &&& contacts[i].number@ == number
            &&& forall|k: int| 0 <= k < i ==> (#[trigger] contacts[k]).number@ != number
        }) ==> caller_of(contacts, number) == contacts[i].name@ && avatar_of(contacts, number)
            == initials_of(contacts[i].name@),
{
    reveal_strlit("#");
    assert("#"@ =~= seq!['#']);
    let book = crate::ui::contacts::people(contacts);
    assert(book.len() == contacts.len());
    assert forall|k: int| 0 <= k < contacts.len() implies (#[trigger] book[k]).number
        == contacts[k].number@ by {
        assert(book[k] == contacts[k]@);
    }
    if forall|k: int| 0 <= k < contacts.len() ==> (#[trigger] contacts[k]).number@ != number {
        assert forall|k: int| 0 <= k < book.len() implies (#[trigger] book[k]).number != number by {
            assert(contacts[k].number@ != number);
        }
        crate::ui::book_laws::has_number(book, number, 0, book.len() as int);
    }
    if 0 <= i < contacts.len() && contacts[i].number@ == number && forall|k: int|
        0 <= k < i ==> (#[trigger] contacts[k]).number@ != number {
        assert forall|k: int| 0 <= k < i implies (#[trigger] book[k]).number != number by {
            assert(contacts[k].number@ != number);
        }
        crate::ui::book_laws::has_number(book, number, 0, i);
    }
}

/// The last digits of a number are found from its end, whatever stands between
/// them.
pub proof fn last_digits_are_found(s: Seq<char>, c: char, most: nat)
    ensures
        48 <= c as int <= 57 && most > 0 ==> tail_digits(s.push(c), most) == tail_digits(
            s,
            (most - 1) as nat,
        ).push(c),
        !(48 <= c as int <= 57) ==> tail_digits(s.push(c), most) == tail_digits(s, most),
        tail_digits(s, 0).len() == 0,
        tail_digits(Seq::empty(), most).len() == 0,
{
    assert(s.push(c).drop_last() =~= s);
    assert(most == 0 ==> tail_digits(s, most).len() == 0);
    if most == 0 {
        assert(tail_digits(s.push(c), most) =~= tail_digits(s, most));
    }
}

/// A name is shown by its first letter or digit in upper case, whatever stands
/// before it, and by a hash where it has none.
pub proof fn names_go_by_their_first_letter(front: Seq<char>, c: char, rest: Seq<char>)
    requires
        forall|i: int| 0 <= i < front.len() ==> !is_alphanumeric(#[trigger] front[i]),
    ensures
        is_alphanumeric(c) ==> initial_of(front + seq![c] + rest) == uppercase_of(c),
        initial_of(front) == seq!['#'],
{
    reveal_strlit("#");
    assert("#"@ =~= seq!['#']);
    let s = front + seq![c] + rest;
    if is_alphanumeric(c) {
        first_letter(s, 0, front.len() as int);
    }
    no_letter(front, 0);
}

proof fn first_letter(s: Seq<char>, i: int, n: int)
    requires
        0 <= i <= n < s.len(),
        forall|k: int| 0 <= k < n ==> !is_alphanumeric(#[trigger] s[k]),
        is_alphanumeric(s[n]),
    ensures
        crate::ui::labels::first_alphanumeric(s, i) == Some(s[n]),
    decreases n - i,
{
    if i < n {
        first_letter(s, i + 1, n);
    }
}

proof fn no_letter(s: Seq<char>, i: int)
    requires
        0 <= i,
        forall|k: int| 0 <= k < s.len() ==> !is_alphanumeric(#[trigger] s[k]),
    ensures
        crate::ui::labels::first_alphanumeric(s, i) is None,
    decreases s.len() - i,
{
    if i < s.len() {
        no_letter(s, i + 1);
    }
}

/// A plain character in upper case.
pub open spec fn raised(c: char) -> char {
    if 97 <= c as int <= 122 {
        (c as int - 32) as char
    } else {
        c
    }
}

/// A contact is shown by the first letters of its first two words, in upper case;
/// by one where it has one word, and by a hash where it has none.
pub proof fn contacts_go_by_their_initials(
    first: Seq<char>,
    c: char,
    second: Seq<char>,
    d: char,
    rest: Seq<char>,
)
    requires
        first.len() > 0,
        second.len() > 0,
        crate::text_laws::is_solid(first),
        crate::text_laws::is_solid(second),
        is_space(c),
        is_space(d),
    ensures
        initials_of(Seq::empty()) == seq!['#'],
        initials_of(first) == seq![raised(first[0])],
        initials_of(first + seq![c] + second) == seq![raised(first[0]), raised(second[0])],
        initials_of(first + seq![c] + (second + seq![d] + rest)) == seq![
            raised(first[0]),
            raised(second[0]),
        ],
{
    reveal_strlit("#");
    assert("#"@ =~= seq!['#']);
    crate::text_laws::words_stand_between_white_space(first, c, second);
    crate::text_laws::words_stand_between_white_space(second, d, rest);
    crate::text_laws::words_stand_between_white_space(first, c, second + seq![d] + rest);
    upper_case(first[0]);
    upper_case(second[0]);
    let many = crate::text::words(rest);
    assert((seq![first] + (seq![second] + many))[1] == second);
    assert((seq![first] + seq![second])[1] == second);
}

proof fn upper_case(c: char)
    ensures
        crate::ui::labels::ascii_upper(c) == raised(c),
{
}

/// The colour of a name depends on all of its bytes, in order: each counts, and
/// those before it count thirty-three times as much.
pub proof fn colours_depend_on_every_byte(bytes: Seq<u8>, b: u8)
    ensures
        color_hash(Seq::empty()) == 5381,
        color_hash(bytes.push(b)) as int == (color_hash(bytes) * 33 + b) % 0x1_0000_0000,
{
    assert(bytes.push(b).drop_last() =~= bytes);
}

/// Where a device is chosen, none of them comes first under its own name, then the
/// streams of programs, marked as such, and then the devices, each in order.
pub proof fn choices_are_in_order(
    none: Seq<char>,
    streams: Seq<AudioDevice>,
    devices: Seq<AudioDevice>,
    i: int,
)
    ensures
        choices(none, streams, devices).len() == 1 + streams.len() + devices.len(),
        choices(none, streams, devices)[0] == (Seq::<char>::empty(), none),
        0 <= i < streams.len() ==> choices(none, streams, devices)[1 + i] == (
            streams[i].id@,
            seq!['A', 'p', 'p', ':', ' '] + streams[i].description@,
        ),
        0 <= i < devices.len() ==> choices(none, streams, devices)[1 + streams.len() + i] == (
            devices[i].id@,
            devices[i].description@,
        ),
{
    reveal_strlit("App: ");
    assert("App: "@ =~= seq!['A', 'p', 'p', ':', ' ']);
}

/// No device is chosen by no name, and any other by its own.
pub proof fn devices_are_chosen_by_name(id: String, v: Seq<AudioDevice>, i: int)
    ensures
        chosen_id(None).len() == 0,
        chosen_id(Some(id)) == id@,
        device_list(v).len() == v.len(),
        0 <= i < v.len() ==> device_list(v)[i] == (v[i].id@, v[i].description@),
{
}

/// The choice with a name is the first one that bears it.
pub proof fn choices_go_by_name(v: Seq<AudioDevice>, id: Seq<char>, from: int, i: int)
    requires
        0 <= from <= i <= v.len(),
        forall|k: int| from <= k < i ==> (#[trigger] v[k]).id@ != id,
        i < v.len() ==> v[i].id@ == id,
    ensures
        i < v.len() ==> choice_from(v, id, from) == Some(i),
        i == v.len() ==> choice_from(v, id, from) is None,
    decreases i - from,
{
    if from < i {
        choices_go_by_name(v, id, from + 1, i);
    }
}

/// Whether a call comes in on any line.
pub open spec fn comes_in(b: App) -> bool {
    exists|i: int, j: int|
        0 <= i < b.accounts@.len() && 0 <= j < b.accounts@[i].lines@.len() && (
        #[trigger] b.accounts@[i].lines@[j]).call is Incoming
}

/// Whether the other side of a call on any line rings.
pub open spec fn goes_out_ringing(b: App) -> bool {
    exists|i: int, j: int|
        0 <= i < b.accounts@.len() && 0 <= j < b.accounts@[i].lines@.len() && ((
        #[trigger] b.accounts@[i].lines@[j]).call matches CallUiState::Outgoing { ringing, .. }
            && ringing)
}

/// It starts to ring when the first call comes in and stops when the last one no
/// longer does; it rings back while the other side of a call rings. A call that
/// comes in while it rings already changes nothing.
pub proof fn ringing_starts_and_stops(b: App, message: Message, now: Moment, a: App, out: Seq<Effect>)
    requires
        took_in(b, message, now, a, out),
    ensures
        !comes_in(b) && comes_in(a) ==> out.contains(Effect::Tone(ToneCue::Ring)),
        comes_in(b) && !comes_in(a) ==> out.contains(Effect::Tone(ToneCue::StopRing)),
        !goes_out_ringing(b) && goes_out_ringing(a) ==> out.last() == Effect::Tone(
            ToneCue::Ringback,
        ),
        goes_out_ringing(b) && !goes_out_ringing(a) ==> out.last() == Effect::Tone(
            ToneCue::StopRingback,
        ),
        comes_in(b) == comes_in(a) && goes_out_ringing(b) == goes_out_ringing(a)
            ==> crate::ui::update::step(b, message, now, a, out),
{
    same_ringing(b);
    same_ringing(a);
    let cues = crate::ui::update::ring_cues(b, a);
    let n = out.len() - cues.len();
    assert forall|k: int| 0 <= k < cues.len() implies out.contains(#[trigger] cues[k]) by {
        assert(out[n + k] == out.skip(n)[k]);
    }
    if comes_in(b) != comes_in(a) {
        assert(out.contains(cues[0]));
    }
    if goes_out_ringing(b) != goes_out_ringing(a) {
        assert(out[n + (cues.len() - 1)] == out.skip(n)[cues.len() - 1]);
    }
    if cues.len() == 0 {
        assert(out.take(n) =~= out);
    }
}

proof fn same_ringing(b: App)
    ensures
        crate::ui::update::ringing(b.accounts@) == comes_in(b),
        crate::ui::update::ringing_back(b.accounts@) == goes_out_ringing(b),
{
    if comes_in(b) {
        let (i, j) = choose|i: int, j: int|
            0 <= i < b.accounts@.len() && 0 <= j < b.accounts@[i].lines@.len() && (
            #[trigger] b.accounts@[i].lines@[j]).call is Incoming;
        assert(crate::ui::update::account_rings(b.accounts@[i]));
    }
    if goes_out_ringing(b) {
        let (i, j) = choose|i: int, j: int|
            0 <= i < b.accounts@.len() && 0 <= j < b.accounts@[i].lines@.len() && ((
            #[trigger] b.accounts@[i].lines@[j]).call matches CallUiState::Outgoing { ringing, .. }
                && ringing);
        assert(crate::ui::update::rings_back(b.accounts@[i].lines@[j].call));
        assert(crate::ui::update::account_rings_back(b.accounts@[i]));
    }
    if crate::ui::update::ringing(b.accounts@) {
        let i = choose|i: int|
            0 <= i < b.accounts@.len() && crate::ui::update::account_rings(
                #[trigger] b.accounts@[i],
            );
        let j = choose|j: int|
            0 <= j < b.accounts@[i].lines@.len() && (
            #[trigger] b.accounts@[i].lines@[j]).call is Incoming;
        assert(b.accounts@[i].lines@[j].call is Incoming);
    }
    if crate::ui::update::ringing_back(b.accounts@) {
        let i = choose|i: int|
            0 <= i < b.accounts@.len() && crate::ui::update::account_rings_back(
                #[trigger] b.accounts@[i],
            );
        let j = choose|j: int|
            0 <= j < b.accounts@[i].lines@.len() && crate::ui::update::rings_back(
                (#[trigger] b.accounts@[i].lines@[j]).call,
            );
        assert(crate::ui::update::rings_back(b.accounts@[i].lines@[j].call));
    }
}

} // verus!
