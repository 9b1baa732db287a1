//! What the user interface makes of signaling's events.

use vstd::prelude::*;

use crate::signaling::events::{
    CallState, CoreCommand, CoreEvent, LocalMediaInfo, RemoteMediaInfo,
};
use crate::text::{is_space, opt_text};
use crate::ui::app::App;
use crate::ui::effect::{Effect, Purpose, Timer, ToneCue};
use crate::ui::history::{CallDirection, CallOutcome, HistoryEntry};
use crate::ui::message::{Message, Moment};
use crate::ui::session::{
    line_with, line_with_from, AccountSession, ActiveCall, CallUiState, Line, RegistrationStatus,
};
use crate::ui::update::step;

verus! {

/// Whether a call goes by a name.
pub open spec fn goes_by(call: CallUiState, name: Seq<char>) -> bool {
    match call {
        CallUiState::Idle => false,
        CallUiState::Incoming { id, .. } => id@ == name,
        CallUiState::Outgoing { id, .. } => id@ == name,
        CallUiState::Active(c) => c.id@ == name,
    }
}

/// Whether a call is on a line of an account, and on none before it.
pub open spec fn is_on(b: App, account: usize, idx: int, name: Seq<char>) -> bool {
    &&& account < b.accounts@.len()
    &&& 0 <= idx < 5
    &&& idx < b.accounts@[account as int].lines@.len()
    &&& goes_by(b.accounts@[account as int].lines@[idx].call, name)
    &&& forall|i: int|
        0 <= i < idx ==> !goes_by(
            (#[trigger] b.accounts@[account as int].lines@[i]).call,
            name,
        )
}

/// A line of an account.
pub open spec fn line_at(b: App, account: usize, idx: int) -> Line {
    b.accounts@[account as int].lines@[idx]
}

/// Whether accounts are the same but for one line of one of them.
pub open spec fn line_alone(
    x: Seq<AccountSession>,
    y: Seq<AccountSession>,
    account: int,
    idx: int,
) -> bool {
    &&& y.len() == x.len()
    &&& forall|i: int| 0 <= i < x.len() && i != account ==> #[trigger] y[i] == x[i]
    &&& y[account] == (AccountSession { lines: y[account].lines, ..x[account] })
    &&& y[account].lines@.len() == x[account].lines@.len()
    &&& forall|i: int|
        0 <= i < x[account].lines@.len() && i != idx ==> #[trigger] y[account].lines@[i]
            == x[account].lines@[i]
}

/// Whether nothing is another but one line of one account.
pub open spec fn rest_stays(b: App, a: App, account: usize, idx: int) -> bool {
    &&& a == (App { accounts: a.accounts, ..b })
    &&& line_alone(b.accounts@, a.accounts@, account as int, idx)
}

proof fn first_with(lines: Seq<Line>, name: Seq<char>, from: int, idx: int)
    requires
        0 <= from <= idx < lines.len(),
        goes_by(lines[idx].call, name),
        forall|i: int| from <= i < idx ==> !goes_by((#[trigger] lines[i]).call, name),
    ensures
        line_with_from(lines, name, from) == Some(idx),
    decreases idx - from,
{
    if from < idx {
        assert(!goes_by(lines[from].call, name));
        first_with(lines, name, from + 1, idx);
    }
}

/// A call is found on the first line that holds it.
pub proof fn is_found(b: App, account: usize, idx: int, name: Seq<char>)
    requires
        is_on(b, account, idx, name),
    ensures
        line_with(b.accounts@[account as int].lines@, name) == Some(idx),
{
    first_with(b.accounts@[account as int].lines@, name, 0, idx);
}

/// A wanted call rings on its line: the line shows who calls and since when,
/// and only where every call is answered a local port is asked for at once. A
/// line that is taken keeps its call.
pub proof fn wanted_calls_ring_on_their_line(
    b: App,
    account: usize,
    id: String,
    line: u8,
    remote: String,
    offer: RemoteMediaInfo,
    now: Moment,
    a: App,
    out: Seq<Effect>,
)
    requires
        b.wf(),
        account < b.accounts@.len(),
        1 <= line <= 5,
        !b.settings.dnd,
        b.settings.deny_list@.len() == 0,
        step(
            b,
            Message::Core(account, CoreEvent::IncomingCall { id, line, remote, offer }),
            now,
            a,
            out,
        ),
    ensures
        line_at(b, account, line - 1).call is Idle ==> {
            &&& rest_stays(b, a, account, line - 1)
            &&& line_at(a, account, line - 1) == (Line {
                call: CallUiState::Incoming {
                    id,
                    caller: remote,
                    offer,
                    ringing_since: now.millis,
                },
                last_call_status: None,
                ..line_at(b, account, line - 1)
            })
            &&& b.settings.auto_answer ==> out == seq![
                Effect::Reserve {
                    account,
                    idx: (line - 1) as usize,
                    purpose: Purpose::Answer { id },
                },
            ]
            &&& !b.settings.auto_answer ==> out.len() == 0
        },
        !(line_at(b, account, line - 1).call is Idle) ==> a == b && out.len() == 0,
{
    assert(b.accounts@[account as int].wf());
}

/// A call that was placed shows the number that was asked for on its line, and
/// rings only once the other side says so.
pub proof fn placed_calls_show_their_number(
    b: App,
    account: usize,
    id: String,
    line: u8,
    now: Moment,
    a: App,
    out: Seq<Effect>,
)
    requires
        b.wf(),
        account < b.accounts@.len(),
        1 <= line <= 5,
        step(
            b,
            Message::Core(account, CoreEvent::OutgoingCallStarted { id, line }),
            now,
            a,
            out,
        ),
    ensures
        rest_stays(b, a, account, line - 1),
        line_at(a, account, line - 1).call == (CallUiState::Outgoing {
            id,
            number: line_at(b, account, line - 1).pending_number,
            started_at: now.millis,
            ringing: false,
        }),
        line_at(a, account, line - 1).pending_number@.len() == 0,
        line_at(a, account, line - 1).last_call_status is None,
        line_at(a, account, line - 1).reserved == line_at(b, account, line - 1).reserved,
        line_at(a, account, line - 1).joined == line_at(b, account, line - 1).joined,
        line_at(a, account, line - 1).pending_post_dial == line_at(
            b,
            account,
            line - 1,
        ).pending_post_dial,
        out.len() == 0,
{
    assert(b.accounts@[account as int].wf());
}

/// A call that cannot be placed leaves its line idle, without a port, and why is
/// shown.
pub proof fn calls_that_fail_free_their_line(
    b: App,
    account: usize,
    line: u8,
    reason: String,
    now: Moment,
    a: App,
    out: Seq<Effect>,
)
    requires
        b.wf(),
        account < b.accounts@.len(),
        1 <= line <= 5,
        step(
            b,
            Message::Core(account, CoreEvent::PlaceCallFailed { line, reason }),
            now,
            a,
            out,
        ),
    ensures
        a.error == Some(reason),
        line_alone(b.accounts@, a.accounts@, account as int, line - 1),
        line_at(a, account, line - 1).call is Idle,
        !line_at(a, account, line - 1).reserved,
        line_at(a, account, line - 1).joined == line_at(b, account, line - 1).joined,
        a.call_history == b.call_history,
        out == seq![Effect::ClearLine { account, idx: (line - 1) as usize }],
{
    assert(b.accounts@[account as int].wf());
}

/// A call rings while the other side rings, and no longer once the other side
/// sends audio of its own.
pub proof fn ringing_is_shown(
    b: App,
    account: usize,
    idx: int,
    name: String,
    id: String,
    number: String,
    started_at: u64,
    ringing: bool,
    remote: RemoteMediaInfo,
    now: Moment,
    a: App,
    out: Seq<Effect>,
)
    requires
        b.wf(),
        is_on(b, account, idx, name@),
        line_at(b, account, idx).call == (CallUiState::Outgoing {
            id,
            number,
            started_at,
            ringing,
        }),
    ensures
        step(
            b,
            Message::Core(
                account,
                CoreEvent::CallStateChanged { id: name, state: CallState::Ringing },
            ),
            now,
            a,
            out,
        ) ==> {
            &&& rest_stays(b, a, account, idx)
            &&& line_at(a, account, idx) == (Line {
                call: CallUiState::Outgoing { id, number, started_at, ringing: true },
                ..line_at(b, account, idx)
            })
            &&& out.len() == 0
        },
        step(
            b,
            Message::Core(
                account,
                CoreEvent::CallStateChanged {
                    id: name,
                    state: CallState::EarlyMedia { remote },
                },
            ),
            now,
            a,
            out,
        ) ==> {
            &&& rest_stays(b, a, account, idx)
            &&& line_at(a, account, idx) == (Line {
                call: CallUiState::Outgoing { id, number, started_at, ringing: false },
                ..line_at(b, account, idx)
            })
            &&& out.len() == 0
        },
{
    is_found(b, account, idx, name@);
}

/// An answered call for which a port is reserved goes on with the one who was
/// called or who called: its audio is started where the other side receives, and
/// six tenths of a second later the digits that follow its number, if there are
/// any, begin to be sent.
pub proof fn answered_calls_start_their_audio(
    b: App,
    account: usize,
    idx: int,
    name: String,
    local: LocalMediaInfo,
    remote: RemoteMediaInfo,
    now: Moment,
    a: App,
    out: Seq<Effect>,
)
    requires
        b.wf(),
        is_on(b, account, idx, name@),
        !(line_at(b, account, idx).call is Active),
        step(
            b,
            Message::Core(
                account,
                CoreEvent::CallStateChanged {
                    id: name,
                    state: CallState::Answered { local, remote },
                },
            ),
            now,
            a,
            out,
        ),
    ensures
        !line_at(b, account, idx).reserved ==> a == b && out.len() == 0,
        line_at(b, account, idx).reserved ==> {
            let before = line_at(b, account, idx);
            let after = line_at(a, account, idx);
            &&& rest_stays(b, a, account, idx)
            &&& !after.reserved
            &&& after.joined == before.joined
            &&& after.pending_post_dial@.len() == 0
            &&& (after.call matches CallUiState::Active(c) && {
                &&& c.id == name
                &&& (before.call matches CallUiState::Incoming { caller, .. } ==> c.number@
                    == caller@ && c.direction == CallDirection::Incoming)
                &&& (before.call matches CallUiState::Outgoing { number, .. } ==> c.number@
                    == number@ && c.direction == CallDirection::Outgoing)
                &&& !c.media
                &&& !c.muted
                &&& !c.on_hold
                &&& c.telephone_event_pt == remote.telephone_event_pt
                &&& c.answered_at == now.millis
                &&& c.output_volume == 0x3f80_0000
                &&& c.input_volume == 0x3f80_0000
                &&& c.dtmf_feedback@.len() == 0
                &&& c.transfer_input is None
                &&& c.post_dial@ == before.pending_post_dial@
            })
            &&& out[0] == (Effect::StartMedia {
                account,
                idx: idx as usize,
                id: name,
                remote,
                capture: b.audio_devices.input_device,
                playback: b.audio_devices.output_device,
            })
            &&& before.pending_post_dial@.len() == 0 ==> out.len() == 1
            &&& before.pending_post_dial@.len() > 0 ==> out.len() == 2 && out[1]
                == (Effect::Later { millis: 600, timer: Timer::PostDial { account, id: name } })
        },
{
    is_found(b, account, idx, name@);
}

/// A call on hold is neither heard nor speaks, and what it was heard at is kept;
/// once it is resumed it is heard at that, and speaks unless it is muted.
pub proof fn held_calls_are_silent(
    b: App,
    account: usize,
    idx: int,
    name: String,
    c: ActiveCall,
    local: LocalMediaInfo,
    remote: RemoteMediaInfo,
    now: Moment,
    a: App,
    out: Seq<Effect>,
)
    requires
        b.wf(),
        is_on(b, account, idx, name@),
        line_at(b, account, idx).call == CallUiState::Active(c),
    ensures
        step(
            b,
            Message::Core(account, CoreEvent::CallStateChanged { id: name, state: CallState::Held }),
            now,
            a,
            out,
        ) ==> {
            &&& rest_stays(b, a, account, idx)
            &&& line_at(a, account, idx) == (Line {
                call: CallUiState::Active(
                    ActiveCall {
                        on_hold: true,
                        pre_hold_output_volume: c.output_volume,
                        ..c
                    },
                ),
                ..line_at(b, account, idx)
            })
            &&& c.media ==> out == seq![
                Effect::SetMicMuted { account, idx: idx as usize, muted: true },
                Effect::SetOutputVolume { account, idx: idx as usize, gain: 0 },
            ]
            &&& !c.media ==> out.len() == 0
        },
        step(
            b,
            Message::Core(
                account,
                CoreEvent::CallStateChanged {
                    id: name,
                    state: CallState::Answered { local, remote },
                },
            ),
            now,
            a,
            out,
        ) ==> {
            &&& rest_stays(b, a, account, idx)
            &&& line_at(a, account, idx) == (Line {
                call: CallUiState::Active(
                    ActiveCall { on_hold: false, output_volume: c.pre_hold_output_volume, ..c },
                ),
                ..line_at(b, account, idx)
            })
            &&& c.media ==> out == seq![
                Effect::SetMicMuted { account, idx: idx as usize, muted: c.muted },
                Effect::SetOutputVolume {
                    account,
                    idx: idx as usize,
                    gain: c.pre_hold_output_volume,
                },
            ]
            &&& !c.media ==> out.len() == 0
        },
{
    is_found(b, account, idx, name@);
}

/// A refused call leaves its line idle and declined; one that came in is noted
/// as rejected.
pub proof fn refused_calls_are_declined(
    b: App,
    account: usize,
    idx: int,
    name: String,
    now: Moment,
    a: App,
    out: Seq<Effect>,
)
    requires
        b.wf(),
        is_on(b, account, idx, name@),
        step(
            b,
            Message::Core(
                account,
                CoreEvent::CallStateChanged { id: name, state: CallState::Rejected },
            ),
            now,
            a,
            out,
        ),
    ensures
        line_alone(b.accounts@, a.accounts@, account as int, idx),
        line_at(a, account, idx).call is Idle,
        !line_at(a, account, idx).reserved,
        opt_text(line_at(a, account, idx).last_call_status) == Some("declined"@),
        a.error == b.error,
        line_at(b, account, idx).call matches CallUiState::Incoming { caller, .. } ==> {
            &&& a.call_history@ == b.call_history@.push(
                HistoryEntry {
                    number: caller,
                    direction: CallDirection::Incoming,
                    outcome: CallOutcome::Rejected,
                    unix_secs: now.unix_secs,
                    duration_secs: 0,
                },
            )
            &&& out == seq![
                Effect::SaveHistory,
                Effect::ClearLine { account, idx: idx as usize },
                Effect::Tone(ToneCue::Disconnect),
            ]
        },
        !(line_at(b, account, idx).call is Incoming) ==> {
            &&& a.call_history@ == b.call_history@
            &&& out == seq![
                Effect::ClearLine { account, idx: idx as usize },
                Effect::Tone(ToneCue::Disconnect),
            ]
        },
{
    is_found(b, account, idx, name@);
    if line_at(b, account, idx).call is Incoming {
        assert(out =~= seq![
            Effect::SaveHistory,
            Effect::ClearLine { account, idx: idx as usize },
            Effect::Tone(ToneCue::Disconnect),
        ]);
    } else {
        assert(out =~= seq![
            Effect::ClearLine { account, idx: idx as usize },
            Effect::Tone(ToneCue::Disconnect),
        ]);
    }
}

/// An account shows how it last fared with its server: since when it is
/// registered, or why it is not.
pub proof fn registrations_are_shown(
    b: App,
    account: usize,
    expires: u32,
    rtt_ms: u32,
    reason: String,
    now: Moment,
    a: App,
    out: Seq<Effect>,
)
    requires
        account < b.accounts@.len(),
    ensures
        step(
            b,
            Message::Core(account, CoreEvent::Registered { expires, rtt_ms }),
            now,
            a,
            out,
        ) ==> {
            &&& a == (App { accounts: a.accounts, ..b })
            &&& a.accounts@.len() == b.accounts@.len()
            &&& a.accounts@[account as int] == (AccountSession {
                registration: RegistrationStatus::Registered {
                    expires,
                    registered_at: now.millis,
                    rtt_ms,
                },
                ..b.accounts@[account as int]
            })
            &&& forall|i: int| 0 <= i < b.accounts@.len() && i != account ==> #[trigger] a.accounts@[i]
                == b.accounts@[i]
            &&& out.len() == 0
        },
        step(b, Message::Core(account, CoreEvent::RegistrationFailed { reason }), now, a, out)
            || step(
            b,
            Message::Core(account, CoreEvent::RegistrationHalted { reason }),
            now,
            a,
            out,
        ) ==> {
            &&& a == (App { accounts: a.accounts, ..b })
            &&& a.accounts@.len() == b.accounts@.len()
            &&& a.accounts@[account as int] == (AccountSession {
                registration: RegistrationStatus::Failed { reason },
                ..b.accounts@[account as int]
            })
            &&& forall|i: int| 0 <= i < b.accounts@.len() && i != account ==> #[trigger] a.accounts@[i]
                == b.accounts@[i]
            &&& out.len() == 0
        },
{
}

/// What cannot be done is shown, and only that: a transfer that was not taken, a
/// hold or a resumption that failed. What was done changes nothing.
pub proof fn failures_are_shown(
    b: App,
    account: usize,
    id: String,
    ok: bool,
    hold: bool,
    reason: String,
    digit: char,
    now: Moment,
    a: App,
    out: Seq<Effect>,
)
    ensures
        step(b, Message::Core(account, CoreEvent::TransferResult { id, ok }), now, a, out) ==> {
            &&& out.len() == 0
            &&& ok ==> a == b
            &&& !ok ==> a == (App { error: a.error, ..b }) && opt_text(a.error) == Some(
                "call transfer failed"@,
            )
        },
        step(
            b,
            Message::Core(account, CoreEvent::HoldResumeFailed { id, hold, reason }),
            now,
            a,
            out,
        ) ==> {
            &&& out.len() == 0
            &&& a == (App { error: a.error, ..b })
            &&& hold ==> opt_text(a.error) == Some("hold failed: "@ + reason@)
            &&& !hold ==> opt_text(a.error) == Some("resume failed: "@ + reason@)
        },
        step(b, Message::Core(account, CoreEvent::DtmfResult { id, digit, ok }), now, a, out)
            ==> a == b && out.len() == 0,
{
}

/// The whole seconds between two moments, and none where the later one is not
/// later.
pub open spec fn whole_secs(from: int, to: int) -> int {
    if to <= from {
        0
    } else {
        (to - from) / 1000
    }
}

/// Whether calls are recorded: recording is on, and a folder is named.
pub open spec fn recorded(b: App) -> bool {
    b.settings.recording_enabled && exists|i: int|
        0 <= i < b.settings.recording_path@.len() && !is_space(
            #[trigger] b.settings.recording_path@[i],
        )
}

/// Whether effects are handed out one after the other: the recording of a call
/// whose audio ran is saved, and kept only where calls are recorded; the history
/// is saved; and what the line held is dropped.
pub open spec fn goes_out_with(
    b: App,
    account: usize,
    idx: int,
    now: Moment,
    out: Seq<Effect>,
) -> bool {
    let dropped = Effect::ClearLine { account, idx: idx as usize };
    match line_at(b, account, idx).call {
        CallUiState::Active(c) if c.media => {
            &&& out.len() == 3
            &&& out[0] matches Effect::SaveRecording {
                account: of,
                idx: at,
                number,
                secs,
                keep,
            } && of == account && at == idx && number == c.number && secs == whole_secs(
                c.answered_at as int,
                now.millis as int,
            ) && keep == recorded(b)
            &&& out[1] == Effect::SaveHistory
            &&& out[2] == dropped
        },
        _ => out == seq![Effect::SaveHistory, dropped],
    }
}

/// Whether the history has grown by the call that was on a line: a call that
/// came in was missed, one that was placed failed, and one that was answered
/// lasted for the whole seconds since.
pub open spec fn noted_at_its_end(
    call: CallUiState,
    before: Seq<HistoryEntry>,
    after: Seq<HistoryEntry>,
    now: Moment,
) -> bool {
    let note = after.last();
    &&& after == before.push(note)
    &&& note.unix_secs == now.unix_secs
    &&& match call {
        CallUiState::Idle => true,
        CallUiState::Incoming { caller, .. } => note.number == caller && note.direction
            == CallDirection::Incoming && note.outcome == CallOutcome::Missed && note.duration_secs
            == 0,
        CallUiState::Outgoing { number, .. } => note.number == number && note.direction
            == CallDirection::Outgoing && note.outcome == CallOutcome::Failed && note.duration_secs
            == 0,
        CallUiState::Active(c) => note.number == c.number && note.direction == c.direction
            && note.outcome == CallOutcome::Answered && (whole_secs(
            c.answered_at as int,
            now.millis as int,
        ) <= u32::MAX ==> note.duration_secs == whole_secs(
            c.answered_at as int,
            now.millis as int,
        )),
    }
}

/// A call that ends on its own is noted, its line is idle and says why, and it
/// sounds so: busy or refused where the call was never answered by the other
/// side, and over otherwise. The main window grows back where it showed the
/// call.
pub proof fn ends_are_noted(
    b: App,
    account: usize,
    idx: int,
    name: String,
    reason: String,
    now: Moment,
    a: App,
    out: Seq<Effect>,
)
    requires
        b.wf(),
        is_on(b, account, idx, name@),
        line_at(b, account, idx).joined is None,
        step(
            b,
            Message::Core(
                account,
                CoreEvent::CallStateChanged { id: name, state: CallState::Terminated(reason) },
            ),
            now,
            a,
            out,
        ),
    ensures
        ({
            let call = line_at(b, account, idx).call;
            let grows = b.compact_mode && account == b.selected_account && idx + 1
                == b.accounts@[account as int].selected_line;
            let n: int = if grows {
                out.len() - 1
            } else {
                out.len() as int
            };
            &&& noted_at_its_end(call, b.call_history@, a.call_history@, now)
            &&& line_at(a, account, idx).call is Idle
            &&& !line_at(a, account, idx).reserved
            &&& line_at(a, account, idx).joined is None
            &&& opt_text(line_at(a, account, idx).last_call_status) == if reason@.len() == 0 {
                None
            } else {
                Some(reason@)
            }
            &&& forall|i: int|
                0 <= i < 5 && i != idx ==> #[trigger] a.accounts@[account as int].lines@[i]
                    == b.accounts@[account as int].lines@[i]
            &&& forall|i: int|
                0 <= i < b.accounts@.len() && i != account ==> #[trigger] a.accounts@[i]
                    == b.accounts@[i]
            &&& a.compact_mode == (b.compact_mode && !grows)
            &&& 0 < n <= out.len()
            &&& call is Outgoing && reason@ == seq!['b', 'u', 's', 'y'] ==> out[0] == Effect::Tone(
                ToneCue::Busy,
            )
            &&& call is Outgoing && reason@ != seq!['b', 'u', 's', 'y'] ==> out[0] == Effect::Tone(
                ToneCue::Reorder,
            )
            &&& !(call is Outgoing) ==> out[0] == Effect::Tone(ToneCue::Disconnect)
            &&& goes_out_with(b, account, idx, now, out.subrange(1, n))
            &&& grows ==> out[n] == (Effect::ResizeMain { compact: false })
        }),
{
    is_found(b, account, idx, name@);
    reveal_strlit("busy");
    assert("busy"@ =~= seq!['b', 'u', 's', 'y']);
    assert(b.accounts@[account as int].wf());
    let call = line_at(b, account, idx).call;
    let grows = b.compact_mode && account == b.selected_account && idx + 1
        == b.accounts@[account as int].selected_line;
    let n: int = if grows {
        out.len() - 1
    } else {
        out.len() as int
    };
    ends_hand_out(b, account, idx, now);
    let end = crate::ui::calls::to_end(b, account, idx, now);
    assert(out.subrange(1, n) =~= end);
    assert(a.call_history@ == b.call_history@.push(a.call_history@.last()));
}

/// What the end of a call on its own takes.
proof fn ends_hand_out(b: App, account: usize, idx: int, now: Moment)
    requires
        0 <= idx < 5,
        !(line_at(b, account, idx).call is Idle),
        line_at(b, account, idx).joined is None,
    ensures
        goes_out_with(b, account, idx, now, crate::ui::calls::to_end(b, account, idx, now)),
{
    let end = crate::ui::calls::to_end(b, account, idx, now);
    if !(line_at(b, account, idx).call matches CallUiState::Active(c) && c.media) {
        assert(end =~= seq![
            Effect::SaveHistory,
            Effect::ClearLine { account, idx: idx as usize },
        ]);
    }
}

/// Hanging up ends the call that is selected, whether it was answered or is
/// still being placed: the other side is told, and the call is noted as any that
/// ends. A call that comes in is not hung up.
pub proof fn hanging_up_ends_the_call(b: App, now: Moment, a: App, out: Seq<Effect>)
    requires
        b.wf(),
        b.selected_account < b.accounts@.len(),
        b.session().lines@[b.session().selected_line - 1].joined is None,
        step(b, Message::HangUpPressed, now, a, out),
    ensures
        ({
            let account = b.selected_account;
            let idx = b.session().selected_line - 1;
            let call = line_at(b, account, idx).call;
            match call {
                CallUiState::Idle => a == b && out.len() == 0,
                CallUiState::Incoming { .. } => a == b && out.len() == 0,
                CallUiState::Outgoing { id, .. } => over(b, account, idx, id, now, a, out),
                CallUiState::Active(c) => over(b, account, idx, c.id, now, a, out),
            }
        }),
{
    reveal_strlit("hung up");
    assert("hung up"@ =~= seq!['h', 'u', 'n', 'g', ' ', 'u', 'p']);
    assert(b.session().wf());
    let account = b.selected_account;
    let idx = b.session().selected_line - 1;
    let call = line_at(b, account, idx).call;
    if call is Outgoing || call is Active {
        ends_hand_out(b, account, idx, now);
        let end = crate::ui::calls::to_end(b, account, idx, now);
        let n: int = if b.compact_mode {
            out.len() - 1
        } else {
            out.len() as int
        };
        assert(out.subrange(1, n - 1) =~= end);
        assert(a.call_history@ == b.call_history@.push(a.call_history@.last()));
    }
}

/// Whether a call was hung up.
pub open spec fn over(
    b: App,
    account: usize,
    idx: int,
    id: String,
    now: Moment,
    a: App,
    out: Seq<Effect>,
) -> bool {
    let n: int = if b.compact_mode {
        out.len() - 1
    } else {
        out.len() as int
    };
    &&& noted_at_its_end(line_at(b, account, idx).call, b.call_history@, a.call_history@, now)
    &&& line_at(a, account, idx).call is Idle
    &&& !line_at(a, account, idx).reserved
    &&& opt_text(line_at(a, account, idx).last_call_status) == Some(
        seq!['h', 'u', 'n', 'g', ' ', 'u', 'p'],
    )
    &&& forall|i: int|
        0 <= i < 5 && i != idx ==> #[trigger] a.accounts@[account as int].lines@[i]
            == b.accounts@[account as int].lines@[i]
    &&& !a.compact_mode
    &&& 2 <= n <= out.len()
    &&& out[0] == (Effect::Send { account, command: CoreCommand::HangUp(id) })
    &&& goes_out_with(b, account, idx, now, out.subrange(1, n - 1))
    &&& out[n - 1] == Effect::Tone(ToneCue::Disconnect)
    &&& b.compact_mode ==> out[n] == (Effect::ResizeMain { compact: false })
}

/// A call that ends leaves its pair: the other call goes on, on its own, and its
/// audio is split off if it runs.
pub proof fn ends_leave_the_pair(
    b: App,
    account: usize,
    idx: int,
    name: String,
    reason: String,
    partner: u8,
    now: Moment,
    a: App,
    out: Seq<Effect>,
)
    requires
        b.wf(),
        is_on(b, account, idx, name@),
        line_at(b, account, idx).joined == Some(partner),
        step(
            b,
            Message::Core(
                account,
                CoreEvent::CallStateChanged { id: name, state: CallState::Terminated(reason) },
            ),
            now,
            a,
            out,
        ),
    ensures
        line_at(a, account, idx).call is Idle,
        line_at(a, account, idx).joined is None,
        line_at(a, account, partner - 1) == (Line {
            joined: None,
            ..line_at(b, account, partner - 1)
        }),
        (line_at(b, account, partner - 1).call matches CallUiState::Active(c) && c.media)
            <==> out.contains(Effect::Unjoin { account, idx: (partner - 1) as usize }),
{
    is_found(b, account, idx, name@);
    let lines = b.accounts@[account as int].lines@;
    assert(b.accounts@[account as int].wf());
    assert(lines[idx].joined is Some);
    let cue = out.take(1);
    let end = crate::ui::calls::to_end(b, account, idx, now);
    let apart = Effect::Unjoin { account, idx: (partner - 1) as usize };
    let saved = crate::ui::calls::to_save(
        lines[idx].call,
        account,
        idx,
        b.settings.records(),
        now,
    );
    if line_at(b, account, partner - 1).call matches CallUiState::Active(c) && c.media {
        let k: int = saved.len() as int + 1;
        assert(end[k] == apart);
        assert(out[k + 1] == apart);
    }
}

/// News of a call that no line holds is not for anyone.
pub proof fn unknown_calls_are_passed_over(
    b: App,
    account: usize,
    name: String,
    state: CallState,
    now: Moment,
    a: App,
    out: Seq<Effect>,
)
    requires
        account < b.accounts@.len(),
        forall|i: int|
            0 <= i < b.accounts@[account as int].lines@.len() ==> !goes_by(
                (#[trigger] b.accounts@[account as int].lines@[i]).call,
                name@,
            ),
        step(
            b,
            Message::Core(account, CoreEvent::CallStateChanged { id: name, state }),
            now,
            a,
            out,
        ),
    ensures
        a == b,
        out.len() == 0,
{
    nowhere(b.accounts@[account as int].lines@, name@, 0);
}

proof fn nowhere(lines: Seq<Line>, name: Seq<char>, from: int)
    requires
        forall|i: int| 0 <= i < lines.len() ==> !goes_by((#[trigger] lines[i]).call, name),
    ensures
        line_with_from(lines, name, from) is None,
    decreases lines.len() - from,
{
    if 0 <= from < lines.len() {
        assert(!goes_by(lines[from].call, name));
        nowhere(lines, name, from + 1);
    }
}

} // verus!
