//! What the user does on a line.

use vstd::prelude::*;

use crate::signaling::events::CoreCommand;
use crate::text::{opt_text, trimmed};
use crate::ui::app::App;
use crate::ui::call_laws::{is_found, is_on, line_at, recorded, rest_stays};
use crate::ui::dialing::{number_in, post_dial_in};
use crate::ui::effect::{Effect, Purpose, Timer, ToneCue};
use crate::ui::history::{last_outgoing, CallDirection, HistoryEntry};
use crate::ui::in_call::sounds;
use crate::ui::message::{Message, Moment};
use crate::ui::session::{paired, AccountSession, ActiveCall, CallUiState, Line};
use crate::ui::settings::Screen;
use crate::ui::update::step;

verus! {

/// Answering asks for a local port and rejecting tells the other side, each for
/// the call that comes in on the selected line; other calls are left alone.
pub proof fn incoming_calls_are_answered_or_rejected(b: App, now: Moment, a: App, out: Seq<Effect>)
    requires
        b.wf(),
        b.selected_account < b.accounts@.len(),
    ensures
        step(b, Message::AnswerPressed, now, a, out) ==> a == b && match line_at(
            b,
            b.selected_account,
            b.session().selected_line - 1,
        ).call {
            CallUiState::Incoming { id, .. } => out == seq![
                Effect::Reserve {
                    account: b.selected_account,
                    idx: (b.session().selected_line - 1) as usize,
                    purpose: Purpose::Answer { id },
                },
            ],
            _ => out.len() == 0,
        },
        step(b, Message::RejectPressed, now, a, out) ==> a == b && match line_at(
            b,
            b.selected_account,
            b.session().selected_line - 1,
        ).call {
            CallUiState::Incoming { id, .. } => out == seq![
                Effect::Send {
                    account: b.selected_account,
                    command: CoreCommand::RejectCall(id),
                },
            ],
            _ => out.len() == 0,
        },
{
    assert(b.session().wf());
}

/// A reserved port is used for what it was asked for: the number is called from
/// that line, or the call answered, each with that port. Without one, why is
/// shown and no line changes.
pub proof fn ports_are_used_as_asked(
    b: App,
    account: usize,
    idx: usize,
    number: String,
    post_dial: String,
    id: String,
    port: u16,
    purpose: Purpose,
    why: String,
    now: Moment,
    a: App,
    out: Seq<Effect>,
)
    requires
        b.wf(),
        account < b.accounts@.len(),
        idx < 5,
    ensures
        step(
            b,
            Message::PortReserved {
                account,
                idx,
                purpose: Purpose::Place { number, post_dial },
                outcome: Ok(port),
            },
            now,
            a,
            out,
        ) ==> {
            &&& rest_stays(b, a, account, idx as int)
            &&& line_at(a, account, idx as int) == (Line {
                reserved: true,
                pending_post_dial: post_dial,
                pending_number: number,
                ..line_at(b, account, idx as int)
            })
            &&& out == seq![
                Effect::Send {
                    account,
                    command: CoreCommand::PlaceCall {
                        line: (idx + 1) as u8,
                        callee: number,
                        local_rtp_port: port,
                    },
                },
            ]
        },
        step(
            b,
            Message::PortReserved {
                account,
                idx,
                purpose: Purpose::Answer { id },
                outcome: Ok(port),
            },
            now,
            a,
            out,
        ) ==> {
            &&& rest_stays(b, a, account, idx as int)
            &&& line_at(a, account, idx as int) == (Line {
                reserved: true,
                ..line_at(b, account, idx as int)
            })
            &&& out == seq![
                Effect::Send {
                    account,
                    command: CoreCommand::AnswerCall { id, local_rtp_port: port },
                },
            ]
        },
        step(
            b,
            Message::PortReserved { account, idx, purpose, outcome: Err(why) },
            now,
            a,
            out,
        ) ==> {
            &&& a == (App { error: a.error, ..b })
            &&& opt_text(a.error) == Some("failed to reserve local port: "@ + why@)
            &&& out.len() == 0
        },
{
    assert(b.accounts@[account as int].wf());
}

/// Audio that runs is kept for its call, and recorded and played to the second
/// output where the user wants that; without audio the call is hung up and why is
/// shown.
pub proof fn audio_goes_to_its_call(
    b: App,
    account: usize,
    idx: int,
    name: String,
    c: ActiveCall,
    why: String,
    now: Moment,
    a: App,
    out: Seq<Effect>,
)
    requires
        b.wf(),
        is_on(b, account, idx, name@),
        line_at(b, account, idx).call == CallUiState::Active(c),
    ensures
        step(b, Message::MediaReady(account, name, Ok(())), now, a, out) ==> {
            let at = if recorded(b) {
                2int
            } else {
                1
            };
            &&& rest_stays(b, a, account, idx)
            &&& line_at(a, account, idx) == (Line {
                call: CallUiState::Active(ActiveCall { media: true, ..c }),
                ..line_at(b, account, idx)
            })
            &&& out[0] == (Effect::AttachMedia { account, idx: idx as usize })
            &&& recorded(b) ==> out[1] == (Effect::StartRecording { account, idx: idx as usize })
            &&& b.settings.secondary_output_target is None ==> out.len() == at
            &&& (b.settings.secondary_output_target matches Some(target) ==> out.len() == at + 1
                && out[at] == (Effect::SetSecondaryOutput { account, idx: idx as usize, target }))
        },
        step(b, Message::MediaReady(account, name, Err(why)), now, a, out) ==> {
            &&& a == (App { error: a.error, ..b })
            &&& opt_text(a.error) == Some("audio pipeline failed: "@ + why@)
            &&& out == seq![Effect::Send { account, command: CoreCommand::HangUp(name) }]
        },
{
    is_found(b, account, idx, name@);
}

/// Audio of a call that is gone or not answered is dropped.
pub proof fn audio_of_no_call_is_dropped(
    b: App,
    account: usize,
    name: String,
    now: Moment,
    a: App,
    out: Seq<Effect>,
)
    requires
        b.wf(),
        account < b.accounts@.len(),
        forall|i: int|
            0 <= i < 5 ==> !((#[trigger] b.accounts@[account as int].lines@[i]).call is Active),
        step(b, Message::MediaReady(account, name, Ok(())), now, a, out),
    ensures
        a == b,
        out == seq![Effect::DiscardMedia { account, id: name }],
{
    assert(b.accounts@[account as int].wf());
    found_in_range(b.accounts@[account as int].lines@, name@, 0);
}

proof fn found_in_range(lines: Seq<Line>, name: Seq<char>, from: int)
    ensures
        crate::ui::session::line_with_from(lines, name, from) matches Some(i) ==> 0 <= i
            < lines.len(),
    decreases lines.len() - from,
{
    if 0 <= from < lines.len() {
        found_in_range(lines, name, from + 1);
    }
}

/// What was typed is called: the number asks for a port on the selected line,
/// together with the digits that follow it. Nothing is called from a line that is
/// taken, and without a digit the user is asked for a number.
pub proof fn typed_numbers_are_called(b: App, now: Moment, a: App, out: Seq<Effect>)
    requires
        b.wf(),
        b.selected_account < b.accounts@.len(),
        step(b, Message::CallPressed, now, a, out),
    ensures
        ({
            let idx = b.session().selected_line - 1;
            if !(line_at(b, b.selected_account, idx).call is Idle) || b.dial_input@.len() == 0 {
                a == b && out.len() == 0
            } else if number_in(b.dial_input@).len() == 0 {
                a == (App { error: a.error, ..b }) && opt_text(a.error) == Some(
                    "enter a number to call"@,
                ) && out.len() == 0
            } else {
                a == b && asks_to_call(b, b.dial_input@, out)
            }
        }),
{
    assert(b.session().wf());
}

/// Whether a port is asked for on the selected line, to call what was typed.
pub open spec fn asks_to_call(b: App, typed: Seq<char>, out: Seq<Effect>) -> bool {
    &&& out.len() == 1
    &&& (out[0] matches Effect::Reserve {
        account,
        idx,
        purpose: Purpose::Place { number, post_dial },
    } && account == b.selected_account && idx == b.session().selected_line - 1 && number@
        == number_in(typed) && post_dial@ == post_dial_in(typed))
}

/// A given number is put into the dial field and called at once; the number that
/// was called last is too. A line that is taken keeps its call.
pub proof fn given_numbers_are_called(
    b: App,
    number: String,
    k: int,
    now: Moment,
    a: App,
    out: Seq<Effect>,
)
    requires
        b.wf(),
        b.selected_account < b.accounts@.len(),
        number_in(number@).len() > 0,
        number@.len() > 0,
    ensures
        step(b, Message::DialNumber(number), now, a, out) && line_at(
            b,
            b.selected_account,
            b.session().selected_line - 1,
        ).call is Idle ==> {
            &&& a == (App { dial_input: number, screen: Screen::Dialer, ..b })
            &&& asks_to_call(b, number@, out)
        },
        step(b, Message::DialNumber(number), now, a, out) && !(line_at(
            b,
            b.selected_account,
            b.session().selected_line - 1,
        ).call is Idle) ==> {
            &&& a == (App { error: a.error, ..b })
            &&& opt_text(a.error) == Some("selected line is busy \u{2014} pick a free line first"@)
            &&& out.len() == 0
        },
        ({
            &&& step(b, Message::RedialPressed, now, a, out)
            &&& called_last(b.call_history@, k)
            &&& b.call_history@[k].number == number
            &&& line_at(b, b.selected_account, b.session().selected_line - 1).call is Idle
        }) ==> a == (App { dial_input: number, ..b }) && asks_to_call(b, number@, out),
{
    assert(b.session().wf());
    if called_last(b.call_history@, k) {
        last_is_found(b.call_history@, k);
    }
}

/// Whether the call at a place is the last one that was placed.
pub open spec fn called_last(history: Seq<HistoryEntry>, k: int) -> bool {
    &&& 0 <= k < history.len()
    &&& history[k].direction == CallDirection::Outgoing
    &&& forall|i: int|
        k < i < history.len() ==> (#[trigger] history[i]).direction == CallDirection::Incoming
}

proof fn last_is_found(history: Seq<HistoryEntry>, k: int)
    requires
        called_last(history, k),
    ensures
        last_outgoing(history) == Some(history[k].number),
    decreases history.len(),
{
    if k < history.len() - 1 {
        assert(history[history.len() - 1].direction == CallDirection::Incoming);
        last_is_found(history.drop_last(), k);
    }
}

/// Muting turns the microphone off, and on again; the call is told so where its
/// audio runs.
pub proof fn muting_is_a_switch(b: App, c: ActiveCall, now: Moment, a: App, out: Seq<Effect>)
    requires
        b.wf(),
        b.selected_account < b.accounts@.len(),
        line_at(b, b.selected_account, b.session().selected_line - 1).call == CallUiState::Active(c),
        step(b, Message::MuteToggled, now, a, out),
    ensures
        rest_stays(b, a, b.selected_account, b.session().selected_line - 1),
        line_at(a, b.selected_account, b.session().selected_line - 1) == (Line {
            call: CallUiState::Active(ActiveCall { muted: !c.muted, ..c }),
            ..line_at(b, b.selected_account, b.session().selected_line - 1)
        }),
        c.media ==> out == seq![
            Effect::SetMicMuted {
                account: b.selected_account,
                idx: (b.session().selected_line - 1) as usize,
                muted: !c.muted,
            },
        ],
        !c.media ==> out.len() == 0,
{
    assert(b.session().wf());
}

/// The volumes of a call are what they are turned to, each its own; that of the
/// output is heard at once unless the call is on hold.
pub proof fn volumes_are_what_they_are_turned_to(
    b: App,
    c: ActiveCall,
    gain: u32,
    now: Moment,
    a: App,
    out: Seq<Effect>,
)
    requires
        b.wf(),
        b.selected_account < b.accounts@.len(),
        line_at(b, b.selected_account, b.session().selected_line - 1).call == CallUiState::Active(c),
    ensures
        step(b, Message::OutputVolumeChanged(gain), now, a, out) ==> {
            &&& rest_stays(b, a, b.selected_account, b.session().selected_line - 1)
            &&& line_at(a, b.selected_account, b.session().selected_line - 1) == (Line {
                call: CallUiState::Active(ActiveCall { output_volume: gain, ..c }),
                ..line_at(b, b.selected_account, b.session().selected_line - 1)
            })
            &&& c.media && !c.on_hold ==> out == seq![
                Effect::SetOutputVolume {
                    account: b.selected_account,
                    idx: (b.session().selected_line - 1) as usize,
                    gain,
                },
            ]
            &&& !c.media || c.on_hold ==> out.len() == 0
        },
        step(b, Message::InputVolumeChanged(gain), now, a, out) ==> {
            &&& rest_stays(b, a, b.selected_account, b.session().selected_line - 1)
            &&& line_at(a, b.selected_account, b.session().selected_line - 1) == (Line {
                call: CallUiState::Active(ActiveCall { input_volume: gain, ..c }),
                ..line_at(b, b.selected_account, b.session().selected_line - 1)
            })
            &&& c.media ==> out == seq![
                Effect::SetInputGain {
                    account: b.selected_account,
                    idx: (b.session().selected_line - 1) as usize,
                    gain,
                },
            ]
            &&& !c.media ==> out.len() == 0
        },
{
    assert(b.session().wf());
}

/// The hold button asks to hold a call that is not on hold and to resume one that
/// is; a joined call has to be split first.
pub proof fn hold_is_asked_for(b: App, c: ActiveCall, now: Moment, a: App, out: Seq<Effect>)
    requires
        b.wf(),
        b.selected_account < b.accounts@.len(),
        line_at(b, b.selected_account, b.session().selected_line - 1).call == CallUiState::Active(c),
        step(b, Message::HoldToggled, now, a, out),
    ensures
        ({
            let line = line_at(b, b.selected_account, b.session().selected_line - 1);
            let account = b.selected_account;
            &&& line.joined is Some ==> {
                &&& a == (App { error: a.error, ..b })
                &&& opt_text(a.error) == Some("can't hold a joined call \u{2014} split it first"@)
                &&& out.len() == 0
            }
            &&& line.joined is None ==> a == b
            &&& line.joined is None && c.on_hold ==> out == seq![
                Effect::Send { account, command: CoreCommand::ResumeCall(c.id) },
            ]
            &&& line.joined is None && !c.on_hold ==> out == seq![
                Effect::Send { account, command: CoreCommand::HoldCall(c.id) },
            ]
        }),
{
    assert(b.session().wf());
}

/// A call is transferred to what was typed, without the white space around it,
/// and not at all where nothing was; the panel closes either way.
pub proof fn transfers_go_where_typed(
    b: App,
    c: ActiveCall,
    typed: String,
    now: Moment,
    a: App,
    out: Seq<Effect>,
)
    requires
        b.wf(),
        b.selected_account < b.accounts@.len(),
        line_at(b, b.selected_account, b.session().selected_line - 1).call == CallUiState::Active(c),
    ensures
        step(b, Message::TransferConfirmed, now, a, out) && c.transfer_input == Some(typed) ==> {
            &&& rest_stays(b, a, b.selected_account, b.session().selected_line - 1)
            &&& line_at(a, b.selected_account, b.session().selected_line - 1) == (Line {
                call: CallUiState::Active(ActiveCall { transfer_input: None, ..c }),
                ..line_at(b, b.selected_account, b.session().selected_line - 1)
            })
            &&& trimmed(typed@).len() == 0 ==> out.len() == 0
            &&& trimmed(typed@).len() > 0 ==> out.len() == 1 && (out[0] matches Effect::Send {
                account,
                command: CoreCommand::BlindTransfer { id, target },
            } && account == b.selected_account && id == c.id && target@ == trimmed(typed@))
        },
        step(b, Message::TransferConfirmed, now, a, out) && c.transfer_input is None ==> a == b
            && out.len() == 0,
        step(b, Message::TransferTargetChanged(typed), now, a, out) ==> {
            &&& out.len() == 0
            &&& c.transfer_input is None ==> a == b
            &&& c.transfer_input is Some ==> rest_stays(
                b,
                a,
                b.selected_account,
                b.session().selected_line - 1,
            ) && line_at(a, b.selected_account, b.session().selected_line - 1) == (Line {
                call: CallUiState::Active(ActiveCall { transfer_input: Some(typed), ..c }),
                ..line_at(b, b.selected_account, b.session().selected_line - 1)
            })
        },
        step(b, Message::TransferPanelToggled, now, a, out) ==> {
            &&& out.len() == 0
            &&& rest_stays(b, a, b.selected_account, b.session().selected_line - 1)
            &&& line_at(
                a,
                b.selected_account,
                b.session().selected_line - 1,
            ).call matches CallUiState::Active(d) && d == (ActiveCall {
                transfer_input: d.transfer_input,
                ..c
            }) && match d.transfer_input {
                None => c.transfer_input is Some,
                Some(s) => c.transfer_input is None && s@.len() == 0,
            }
        },
{
    assert(b.session().wf());
    crate::text::blank_iff_trimmed_empty(typed@);
}

/// Whether a digit goes with the audio of a call: the audio runs, both sides
/// agreed on it, and the digit is a key's.
pub open spec fn goes_with_audio(c: ActiveCall, digit: char) -> bool {
    &&& c.media
    &&& c.telephone_event_pt is Some
    &&& ('0' <= digit && digit <= '9') || digit == '*' || digit == '#' || ('A' <= digit && digit
        <= 'D') || ('a' <= digit && digit <= 'd')
}

/// A key sounds. On an idle line it is typed; in a call it is shown and sent, with
/// the audio where that can be, and with signaling otherwise.
pub proof fn keys_are_typed_or_sent(b: App, digit: char, now: Moment, a: App, out: Seq<Effect>)
    requires
        b.wf(),
        b.selected_account < b.accounts@.len(),
        step(b, Message::DialpadPressed(digit), now, a, out),
    ensures
        out.len() > 0,
        out[0] == Effect::Tone(ToneCue::Digit(digit)),
        match line_at(b, b.selected_account, b.session().selected_line - 1).call {
            CallUiState::Idle => {
                &&& a == (App { dial_input: a.dial_input, ..b })
                &&& a.dial_input@ == b.dial_input@ + seq![digit]
                &&& out.len() == 1
            },
            CallUiState::Active(c) => {
                &&& rest_stays(b, a, b.selected_account, b.session().selected_line - 1)
                &&& line_at(
                    a,
                    b.selected_account,
                    b.session().selected_line - 1,
                ).call matches CallUiState::Active(d) && d == (ActiveCall {
                    dtmf_feedback: d.dtmf_feedback,
                    ..c
                }) && d.dtmf_feedback@ == c.dtmf_feedback@ + seq![digit]
                &&& out.len() == 2
                &&& goes_with_audio(c, digit) ==> out[1] == (Effect::SendEvent {
                    account: b.selected_account,
                    idx: (b.session().selected_line - 1) as usize,
                    digit,
                })
                &&& !goes_with_audio(c, digit) ==> out[1] == (Effect::Send {
                    account: b.selected_account,
                    command: CoreCommand::SendDtmf { id: c.id, digit },
                })
            },
            _ => a == b && out.len() == 1,
        },
{
    assert(b.session().wf());
    assert(b.dial_input@.push(digit) =~= b.dial_input@ + seq![digit]);
    if let CallUiState::Active(c) = line_at(
        b,
        b.selected_account,
        b.session().selected_line - 1,
    ).call {
        assert(c.dtmf_feedback@.push(digit) =~= c.dtmf_feedback@ + seq![digit]);
    }
}

/// What is typed stands in the dial field; each character that is added at its
/// end sounds, in order, and a change anywhere else is silent.
pub proof fn typing_sounds(b: App, typed: String, now: Moment, a: App, out: Seq<Effect>)
    requires
        step(b, Message::DialInputChanged(typed), now, a, out),
    ensures
        a == (App { dial_input: typed, ..b }),
        b.dial_input@.len() < typed@.len() && typed@.take(b.dial_input@.len() as int)
            == b.dial_input@ ==> out.len() == typed@.len() - b.dial_input@.len() && forall|k: int|
            0 <= k < out.len() ==> #[trigger] out[k] == Effect::Tone(
                ToneCue::Digit(typed@[b.dial_input@.len() + k]),
            ),
        b.dial_input@.len() >= typed@.len() || typed@.take(b.dial_input@.len() as int)
            != b.dial_input@ ==> out.len() == 0,
{
    let n = b.dial_input@.len() as int;
    if n <= typed@.len() {
        assert(typed@.take(n) =~= typed@.subrange(0, n));
    }
    sounds_in_order(typed@.skip(n));
}

proof fn sounds_in_order(digits: Seq<char>)
    ensures
        sounds(digits).len() == digits.len(),
        forall|k: int|
            0 <= k < digits.len() ==> #[trigger] sounds(digits)[k] == Effect::Tone(
                ToneCue::Digit(digits[k]),
            ),
    decreases digits.len(),
{
    if digits.len() > 0 {
        sounds_in_order(digits.drop_last());
        in_range(digits.last());
    }
}

/// A character is a Unicode scalar value.
proof fn in_range(c: char)
    ensures
        0 <= c as int <= 0xd7ff || 0xe000 <= c as int <= 0x10ffff,
{
}

/// The digits that follow a number are sent one at a time: a comma waits for a
/// second and a half, any other is shown and sent as if it had been pressed, and
/// the next one, if there is any, follows a third of a second later.
pub proof fn following_digits_take_their_time(
    b: App,
    account: usize,
    idx: int,
    name: String,
    c: ActiveCall,
    now: Moment,
    a: App,
    out: Seq<Effect>,
)
    requires
        b.wf(),
        is_on(b, account, idx, name@),
        line_at(b, account, idx).call == CallUiState::Active(c),
        step(b, Message::PostDialAdvance(account, name), now, a, out),
    ensures
        c.post_dial@.len() == 0 ==> a == b && out.len() == 0,
        c.post_dial@.len() > 0 ==> {
            let digit = c.post_dial@[0];
            let again = Timer::PostDial { account, id: name };
            &&& rest_stays(b, a, account, idx)
            &&& line_at(a, account, idx).call matches CallUiState::Active(d) && d == (ActiveCall {
                post_dial: d.post_dial,
                dtmf_feedback: d.dtmf_feedback,
                ..c
            }) && d.post_dial@ == c.post_dial@.skip(1) && d.dtmf_feedback@ == if digit == ',' {
                c.dtmf_feedback@
            } else {
                c.dtmf_feedback@ + seq![digit]
            }
            &&& digit == ',' ==> out == seq![Effect::Later { millis: 1500, timer: again }]
            &&& digit != ',' ==> {
                &&& out[0] == Effect::Tone(ToneCue::Digit(digit))
                &&& goes_with_audio(c, digit) ==> out[1] == (Effect::SendEvent {
                    account,
                    idx: idx as usize,
                    digit,
                })
                &&& !goes_with_audio(c, digit) ==> out[1] == (Effect::Send {
                    account,
                    command: CoreCommand::SendDtmf { id: name, digit },
                })
                &&& c.post_dial@.len() == 1 ==> out.len() == 2
                &&& c.post_dial@.len() > 1 ==> out.len() == 3 && out[2] == (Effect::Later {
                    millis: 350,
                    timer: again,
                })
            }
        },
{
    is_found(b, account, idx, name@);
    if c.post_dial@.len() > 0 {
        let digit = c.post_dial@[0];
        in_range(digit);
        assert(c.post_dial@.skip(1) =~= c.post_dial@.drop_first());
        assert(c.dtmf_feedback@.push(digit) =~= c.dtmf_feedback@ + seq![digit]);
    }
}

/// Whether only the selected account may be another.
pub open spec fn account_alone(b: App, a: App) -> bool {
    &&& a.accounts@.len() == b.accounts@.len()
    &&& a.selected_account == b.selected_account
    &&& forall|i: int|
        0 <= i < b.accounts@.len() && i != b.selected_account ==> #[trigger] a.accounts@[i]
            == b.accounts@[i]
}

/// An idle line opens with a dial tone when it is pressed, for eight seconds, and
/// closes silently when it is pressed again; a line with a call stays as it is.
pub proof fn lines_open_and_close(b: App, now: Moment, a: App, out: Seq<Effect>)
    requires
        b.wf(),
        b.selected_account < b.accounts@.len(),
        b.session().pending_join is None,
        step(b, Message::LineSelected(b.session().selected_line), now, a, out),
    ensures
        ({
            let acc = b.session();
            let idle = line_at(b, b.selected_account, acc.selected_line - 1).call is Idle;
            &&& !idle ==> a == b && out.len() == 0
            &&& idle ==> account_alone(b, a) && a.error is None && a.call_history
                == b.call_history
            &&& idle && !acc.line_open ==> {
                &&& a.session() == (AccountSession {
                    line_open: true,
                    line_open_at: Some(now.millis),
                    ..acc
                })
                &&& a.dial_input@ == b.dial_input@
                &&& out == seq![
                    Effect::Tone(ToneCue::Dial),
                    Effect::Later {
                        millis: 8000,
                        timer: Timer::LineIdle {
                            account: b.selected_account,
                            line: acc.selected_line,
                        },
                    },
                ]
            }
            &&& idle && acc.line_open ==> {
                &&& a.session() == (AccountSession { line_open: false, line_open_at: None, ..acc })
                &&& a.dial_input@.len() == 0
                &&& out == seq![Effect::Tone(ToneCue::StopLine)]
            }
        }),
{
    assert(b.session().wf());
}

/// What leaving the selected line hands out: a call that is live and on its own
/// is held, and an open line falls silent.
pub open spec fn leaving(acc: AccountSession, account: usize) -> Seq<Effect> {
    let line = acc.lines@[acc.selected_line - 1];
    match line.call {
        CallUiState::Idle => if acc.line_open {
            seq![Effect::Tone(ToneCue::StopLine)]
        } else {
            seq![]
        },
        CallUiState::Active(c) => if c.on_hold || line.joined is Some {
            seq![]
        } else {
            seq![Effect::Send { account, command: CoreCommand::HoldCall(c.id) }]
        },
        _ => seq![],
    }
}

/// What coming to a line with a call hands out: one that is on hold and on its
/// own is resumed.
pub open spec fn coming(line: Line, account: usize) -> Seq<Effect> {
    match line.call {
        CallUiState::Active(c) => if c.on_hold && line.joined is None {
            seq![Effect::Send { account, command: CoreCommand::ResumeCall(c.id) }]
        } else {
            seq![]
        },
        _ => seq![],
    }
}

proof fn leaving_a_line(acc: AccountSession, account: usize)
    requires
        acc.wf(),
    ensures
        crate::ui::lines::to_leave(acc, account) == leaving(acc, account),
{
    assert(crate::ui::lines::to_leave(acc, account) =~= leaving(acc, account));
}

/// Another line is selected when it is pressed: what was selected is left first;
/// an idle line opens with a dial tone, for eight seconds, and a call on hold is
/// resumed. No call changes by itself.
pub proof fn lines_are_switched(b: App, line: u8, now: Moment, a: App, out: Seq<Effect>)
    requires
        b.wf(),
        b.selected_account < b.accounts@.len(),
        b.session().pending_join is None,
        1 <= line <= 5,
        line != b.session().selected_line,
        step(b, Message::LineSelected(line), now, a, out),
    ensures
        ({
            let acc = b.session();
            let there = acc.lines@[line - 1];
            let left = leaving(acc, b.selected_account);
            &&& account_alone(b, a)
            &&& a.session().selected_line == line
            &&& a.session().lines == acc.lines
            &&& a.session().pending_join == acc.pending_join
            &&& a.session().config == acc.config
            &&& a.session().registration == acc.registration
            &&& a.dial_input@.len() == 0
            &&& a.error is None
            &&& there.call is Idle ==> {
                &&& a.session().line_open
                &&& a.session().line_open_at == Some(now.millis)
                &&& out == left + seq![
                    Effect::Tone(ToneCue::Dial),
                    Effect::Later {
                        millis: 8000,
                        timer: Timer::LineIdle { account: b.selected_account, line },
                    },
                ]
            }
            &&& !(there.call is Idle) ==> {
                &&& a.session().line_open == acc.line_open
                &&& out == left + coming(there, b.selected_account)
            }
        }),
{
    assert(b.session().wf());
    leaving_a_line(b.session(), b.selected_account);
}

/// Another account is selected in the same way: its own selected line is resumed
/// if its call is on hold, and no account changes.
pub proof fn accounts_are_switched(b: App, index: usize, now: Moment, a: App, out: Seq<Effect>)
    requires
        b.wf(),
        b.selected_account < b.accounts@.len(),
        step(b, Message::AccountSwitched(index), now, a, out),
    ensures
        index == b.selected_account || index >= b.accounts@.len() ==> a == b && out.len() == 0,
        index != b.selected_account && index < b.accounts@.len() ==> {
            let there = b.accounts@[index as int];
            &&& a.selected_account == index
            &&& a.accounts == b.accounts
            &&& a.dial_input@.len() == 0
            &&& a.error is None
            &&& a.editing_account == b.editing_account
            &&& out == leaving(b.session(), b.selected_account) + coming(
                there.lines@[there.selected_line - 1],
                index,
            )
        },
{
    assert(b.session().wf());
    leaving_a_line(b.session(), b.selected_account);
    if index < b.accounts@.len() {
        assert(b.accounts@[index as int].wf());
    }
}

/// A line that stood open for too long without a number being typed closes and
/// sounds so; in any other case nothing happens.
pub proof fn open_lines_time_out(
    b: App,
    account: usize,
    line: u8,
    now: Moment,
    a: App,
    out: Seq<Effect>,
)
    requires
        b.wf(),
        b.selected_account < b.accounts@.len(),
        step(b, Message::LineIdleTimeout(account, line), now, a, out),
    ensures
        ({
            let acc = b.session();
            if account == b.selected_account && line == acc.selected_line && acc.line_open
                && b.dial_input@.len() == 0 && acc.lines@[acc.selected_line - 1].call is Idle {
                &&& a == (App { accounts: a.accounts, ..b })
                &&& account_alone(b, a)
                &&& a.session() == (AccountSession { line_open: false, line_open_at: None, ..acc })
                &&& out == seq![Effect::Tone(ToneCue::Reorder)]
            } else {
                a == b && out.len() == 0
            }
        }),
{
    assert(b.session().wf());
}

/// Another call is made from the first idle line that is not selected; with none
/// left the user is told so.
pub proof fn added_calls_take_the_first_idle_line(
    b: App,
    line: u8,
    now: Moment,
    a: App,
    out: Seq<Effect>,
)
    requires
        b.wf(),
        b.selected_account < b.accounts@.len(),
        step(b, Message::AddCallPressed, now, a, out),
    ensures
        ({
            &&& 1 <= line <= 5
            &&& line != b.session().selected_line
            &&& b.session().lines@[line - 1].call is Idle
            &&& forall|i: int|
                0 <= i < line - 1 && i != b.session().selected_line - 1 ==> !((
                #[trigger] b.session().lines@[i]).call is Idle)
        }) ==> step(b, Message::LineSelected(line), now, a, out),
        (forall|i: int|
            0 <= i < 5 && i != b.session().selected_line - 1 ==> !((
            #[trigger] b.session().lines@[i]).call is Idle)) ==> {
            &&& a == (App { error: a.error, ..b })
            &&& opt_text(a.error) == Some("all lines are busy"@)
            &&& out.len() == 0
        },
{
    let acc = b.session();
    assert(acc.wf());
    if 1 <= line <= 5 && line != acc.selected_line && acc.lines@[line - 1].call is Idle && forall|
        i: int,
    |
        0 <= i < line - 1 && i != acc.selected_line - 1 ==> !((#[trigger] acc.lines@[i]).call is Idle) {
        first_free(acc, 0, line);
    }
    if forall|i: int|
        0 <= i < 5 && i != acc.selected_line - 1 ==> !((#[trigger] acc.lines@[i]).call is Idle) {
        none_free(acc, 0);
    }
}

proof fn first_free(acc: AccountSession, from: int, line: u8)
    requires
        acc.wf(),
        0 <= from < line <= 5,
        line != acc.selected_line,
        acc.lines@[line - 1].call is Idle,
        forall|i: int|
            from <= i < line - 1 && i != acc.selected_line - 1 ==> !((
            #[trigger] acc.lines@[i]).call is Idle),
    ensures
        acc.free_from(from) == Some(line),
    decreases line - from,
{
    if from < line - 1 {
        assert(from != acc.selected_line - 1 ==> !(acc.lines@[from].call is Idle));
        first_free(acc, from + 1, line);
    }
}

proof fn none_free(acc: AccountSession, from: int)
    requires
        acc.wf(),
        0 <= from <= 5,
        forall|i: int|
            from <= i < 5 && i != acc.selected_line - 1 ==> !((
            #[trigger] acc.lines@[i]).call is Idle),
    ensures
        acc.free_from(from) is None,
    decreases 5 - from,
{
    if from < 5 {
        assert(from != acc.selected_line - 1 ==> !(acc.lines@[from].call is Idle));
        none_free(acc, from + 1);
    }
}

/// Joining waits for the second call to be picked, and is called off by pressing
/// it again. It takes an answered call on its own, and another answered one.
pub proof fn joining_waits_for_another(b: App, now: Moment, a: App, out: Seq<Effect>)
    requires
        b.wf(),
        b.selected_account < b.accounts@.len(),
        step(b, Message::JoinCallsPressed, now, a, out),
    ensures
        out.len() == 0,
        a.call_history == b.call_history,
        ({
            let acc = b.session();
            let line = acc.lines@[acc.selected_line - 1];
            let other = exists|i: int|
                0 <= i < 5 && i != acc.selected_line - 1 && (
                #[trigger] acc.lines@[i]).call is Active;
            &&& account_alone(b, a)
            &&& acc.pending_join is Some ==> a.session() == (AccountSession {
                pending_join: None,
                ..acc
            }) && a.error == b.error
            &&& acc.pending_join is None && (!(line.call is Active) || line.joined is Some) ==> a
                == b
            &&& acc.pending_join is None && line.call is Active && line.joined is None && other
                ==> a.session() == (AccountSession {
                pending_join: Some(acc.selected_line),
                ..acc
            }) && a.error == b.error
            &&& acc.pending_join is None && line.call is Active && line.joined is None && !other
                ==> a.accounts == b.accounts && opt_text(a.error) == Some(
                "no other active call to join"@,
            )
        }),
{
    assert(b.session().wf());
}

/// Two calls on their own are joined once the second is picked: each line names
/// the other, what was on hold is resumed, and the audio is connected where both
/// run. The call that asked for it is selected. A line without an answered call
/// cannot be picked, and picking the same line calls it off.
pub proof fn picked_calls_are_joined(
    b: App,
    first: u8,
    second: u8,
    now: Moment,
    a: App,
    out: Seq<Effect>,
)
    requires
        b.wf(),
        b.selected_account < b.accounts@.len(),
        b.session().pending_join == Some(first),
        1 <= second <= 5,
        b.session().lines@[first - 1].joined is None,
        b.session().lines@[second - 1].joined is None,
        step(b, Message::LineSelected(second), now, a, out),
    ensures
        account_alone(b, a),
        a.session().pending_join is None,
        first == second ==> a.session().lines == b.session().lines && a.session().selected_line
            == b.session().selected_line && out.len() == 0 && a.error == b.error,
        first != second && !(b.session().lines@[second - 1].call is Active) ==> {
            &&& a.session().lines == b.session().lines
            &&& a.session().selected_line == b.session().selected_line
            &&& opt_text(a.error) == Some("pick another active call to join"@)
            &&& out.len() == 0
        },
        first != second && b.session().lines@[second - 1].call is Active ==> {
            &&& a.error is None
            &&& a.session().selected_line == first
            &&& a.session().lines@.len() == 5
            &&& a.session().lines@[first - 1] == (Line {
                joined: Some(second),
                ..b.session().lines@[first - 1]
            })
            &&& a.session().lines@[second - 1] == (Line {
                joined: Some(first),
                ..b.session().lines@[second - 1]
            })
            &&& forall|i: int|
                0 <= i < 5 && i != first - 1 && i != second - 1 ==> #[trigger] a.session().lines@[i]
                    == b.session().lines@[i]
            &&& out == back(b.session().lines@[first - 1].call, b.selected_account) + back(
                b.session().lines@[second - 1].call,
                b.selected_account,
            ) + if runs(b.session().lines@[first - 1].call) && runs(
                b.session().lines@[second - 1].call,
            ) {
                seq![
                    Effect::Join {
                        account: b.selected_account,
                        a: (first - 1) as usize,
                        b: (second - 1) as usize,
                    },
                ]
            } else {
                seq![]
            }
        },
{
    let acc = b.session();
    assert(acc.wf());
    assert(1 <= first <= 5);
    if first != second && acc.lines@[second - 1].call is Active {
        let want = back(acc.lines@[first - 1].call, b.selected_account) + back(
            acc.lines@[second - 1].call,
            b.selected_account,
        ) + if runs(acc.lines@[first - 1].call) && runs(acc.lines@[second - 1].call) {
            seq![
                Effect::Join {
                    account: b.selected_account,
                    a: (first - 1) as usize,
                    b: (second - 1) as usize,
                },
            ]
        } else {
            seq![]
        };
        assert(out =~= want);
    }
}

/// What resuming a call hands out: nothing unless it is on hold.
pub open spec fn back(call: CallUiState, account: usize) -> Seq<Effect> {
    match call {
        CallUiState::Active(c) => if c.on_hold {
            seq![Effect::Send { account, command: CoreCommand::ResumeCall(c.id) }]
        } else {
            seq![]
        },
        _ => seq![],
    }
}

/// Whether a call was answered and its audio runs.
pub open spec fn runs(call: CallUiState) -> bool {
    call matches CallUiState::Active(c) && c.media
}

/// Splitting parts the selected call from its partner: both go on, and the audio
/// of both is split where both run.
pub proof fn splitting_parts_the_pair(
    b: App,
    partner: u8,
    now: Moment,
    a: App,
    out: Seq<Effect>,
)
    requires
        b.wf(),
        b.selected_account < b.accounts@.len(),
        step(b, Message::SplitCallPressed, now, a, out),
    ensures
        b.session().lines@[b.session().selected_line - 1].joined is None ==> a == b && out.len()
            == 0,
        b.session().lines@[b.session().selected_line - 1].joined == Some(partner) ==> {
            let at = b.session().selected_line - 1;
            let before = b.session().lines@;
            let after = a.session().lines@;
            &&& a == (App { accounts: a.accounts, ..b })
            &&& account_alone(b, a)
            &&& a.session() == (AccountSession { lines: a.session().lines, ..b.session() })
            &&& after.len() == before.len()
            &&& after[at] == (Line { joined: None, ..before[at] })
            &&& after[partner - 1] == (Line { joined: None, ..before[partner - 1] })
            &&& forall|i: int|
                0 <= i < before.len() && i != at && i != partner - 1 ==> #[trigger] after[i]
                    == before[i]
            &&& runs(before[at].call) && runs(before[partner - 1].call) ==> out == seq![
                Effect::Unjoin { account: b.selected_account, idx: at as usize },
                Effect::Unjoin { account: b.selected_account, idx: (partner - 1) as usize },
            ]
            &&& !(runs(before[at].call) && runs(before[partner - 1].call)) ==> out.len() == 0
        },
{
    assert(b.session().wf());
    assert(paired(b.session().lines@));
    assert(b.session().lines@[b.session().selected_line - 1].joined matches Some(p) ==> 1 <= p
        <= 5);
}

/// A line that leaves its pair leaves its partner on its own, too; both keep their
/// calls, no other line changes, and the line no longer waits to be joined.
pub proof fn leaving_a_pair_parts_both(
    acc: AccountSession,
    after: AccountSession,
    idx: int,
    partner: u8,
    i: int,
)
    requires
        acc.wf(),
        0 <= idx < 5,
        0 <= i < 5,
        acc.unjoined(idx, after),
    ensures
        after.lines@.len() == 5,
        after.lines@[idx] == (Line { joined: None, ..acc.lines@[idx] }),
        acc.lines@[idx].joined == Some(partner) ==> after.lines@[partner - 1] == (Line {
            joined: None,
            ..acc.lines@[partner - 1]
        }),
        i != idx && acc.lines@[idx].joined != Some((i + 1) as u8) ==> after.lines@[i]
            == acc.lines@[i],
        after.pending_join == if acc.pending_join == Some((idx + 1) as u8) {
            None
        } else {
            acc.pending_join
        },
        after.selected_line == acc.selected_line,
        after.config == acc.config,
{
    assert(paired(acc.lines@));
    assert(acc.lines@[idx].joined matches Some(p) ==> 1 <= p <= 5 && p - 1 != idx);
}

} // verus!
