//! What holds from one message to the next.

use vstd::prelude::*;

use crate::signaling::events::{CallState, CoreCommand, CoreEvent, RemoteMediaInfo};
use crate::ui::app::App;
use crate::ui::calls::{
    ignored, note_of, on_call_state, on_core, on_rejected, on_terminated, to_clear, to_end, to_save,
};
use crate::ui::dialer::{on_hang_up, to_hang_up};
use crate::ui::effect::{only_if, Effect, ToneCue};
use crate::ui::history::{CallOutcome, HistoryEntry};
use crate::ui::in_call::selected_active;
use crate::ui::message::{Message, Moment};
use crate::ui::session::{
    is_line, joined_lines, line_with, line_with_from, paired, position, split_keeps_pairs, split_off,
    ActiveCall, CallUiState, Line, LINE_COUNT,
};
use crate::ui::update::{ring_cues, ringing, ringing_back, step, took_in};

verus! {

/// A call that is unwanted never rings: no line changes, nothing sounds, no port
/// is reserved for it even if every call is answered, and the caller is rejected
/// and noted.
pub proof fn unwanted_calls_never_ring(
    b: App,
    account: usize,
    id: String,
    line: u8,
    remote: String,
    offer: RemoteMediaInfo,
    now: Moment,
    a: App,
    out: Seq<Effect>,
)
    requires
        b.wf(),
        account < b.accounts@.len(),
        position(line) < LINE_COUNT,
        b.settings.denied(remote@),
        took_in(
            b,
            Message::Core(account, CoreEvent::IncomingCall { id, line, remote, offer }),
            now,
            a,
            out,
        ),
    ensures
        a.accounts == b.accounts,
        out == seq![
            Effect::Send { account, command: CoreCommand::RejectCall(id) },
            Effect::SaveHistory,
        ],
        a.call_history@.drop_last() == b.call_history@,
        a.call_history@.last().number == remote,
{
    let n = out.len() - ring_cues(b, a).len();
    assert(a.accounts == b.accounts);
    assert(ring_cues(b, a) =~= Seq::<Effect>::empty());
    assert(out.take(n) =~= out);
    assert(out =~= seq![
        Effect::Send { account, command: CoreCommand::RejectCall(id) },
        Effect::SaveHistory,
    ]);
    assert(a.call_history@.drop_last() =~= b.call_history@);
}

/// Resuming a call restores it: once a call that was heard is held and then
/// resumed, it is as it was, and is heard and speaks as before.
pub proof fn resuming_restores_the_call(
    b: App,
    account: usize,
    id: String,
    local: crate::signaling::events::LocalMediaInfo,
    remote: RemoteMediaInfo,
    now: Moment,
    held: App,
    out: Seq<Effect>,
    later: Moment,
    a: App,
    again: Seq<Effect>,
    idx: int,
    call: ActiveCall,
)
    requires
        b.wf(),
        account < b.accounts@.len(),
        line_with(b.accounts@[account as int].lines@, id@) == Some(idx),
        b.accounts@[account as int].lines@[idx].call == CallUiState::Active(call),
        on_call_state(b, account, id, CallState::Held, now, held, out),
        on_call_state(held, account, id, CallState::Answered { local, remote }, later, a, again),
    ensures
        a.accounts@[account as int].lines@[idx].call == CallUiState::Active(
            ActiveCall { on_hold: false, pre_hold_output_volume: call.output_volume, ..call },
        ),
        call.media ==> again == seq![
            Effect::SetMicMuted { account, idx: idx as usize, muted: call.muted },
            Effect::SetOutputVolume { account, idx: idx as usize, gain: call.output_volume },
        ],
{
    let before = b.accounts@[account as int].lines@;
    let during = held.accounts@[account as int].lines@;
    assert(b.accounts@[account as int].wf());
    found_line_is_there(before, id@, 0);
    same_ids_same_line(before, during, id@, 0);
}

proof fn found_line_is_there(lines: Seq<Line>, id: Seq<char>, from: int)
    ensures
        line_with_from(lines, id, from) matches Some(i) ==> 0 <= from <= i < lines.len()
            && lines[i].call.id() == Some(id),
    decreases lines.len() - from,
{
    if 0 <= from < lines.len() && lines[from].call.id() != Some(id) {
        found_line_is_there(lines, id, from + 1);
    }
}

proof fn same_ids_same_line(x: Seq<Line>, y: Seq<Line>, id: Seq<char>, from: int)
    requires
        x.len() == y.len(),
        forall|i: int| 0 <= i < x.len() ==> (#[trigger] x[i]).call.id() == y[i].call.id(),
    ensures
        line_with_from(x, id, from) == line_with_from(y, id, from),
    decreases x.len() - from,
{
    if 0 <= from < x.len() {
        assert(x[from].call.id() == y[from].call.id());
        same_ids_same_line(x, y, id, from + 1);
    }
}

proof fn no_line_holds(lines: Seq<Line>, id: Seq<char>, from: int)
    requires
        forall|i: int| 0 <= i < lines.len() ==> (#[trigger] lines[i]).call.id() != Some(id),
    ensures
        line_with_from(lines, id, from) is None,
    decreases lines.len() - from,
{
    if 0 <= from < lines.len() {
        assert(lines[from].call.id() != Some(id));
        no_line_holds(lines, id, from + 1);
    }
}

/// Hanging up is final: the line is idle at once and on its own, other lines
/// keep their calls, and whatever signaling says of the call later changes
/// nothing, unless another line holds a call of the same name.
pub proof fn hanging_up_is_final(
    b: App,
    id: String,
    now: Moment,
    a: App,
    out: Seq<Effect>,
    state: CallState,
    later: Moment,
    end: App,
    rest: Seq<Effect>,
)
    requires
        b.wf(),
        b.has_account(),
        to_hang_up(b.session().line().call) == Some(id),
        forall|i: int|
            0 <= i < LINE_COUNT && i != b.session().at() ==> (
            #[trigger] b.session().lines@[i]).call.id() != Some(id@),
        step(b, Message::HangUpPressed, now, a, out),
        on_call_state(a, b.selected_account, id, state, later, end, rest),
    ensures
        a.session().line().call is Idle,
        a.session().line().joined is None,
        forall|i: int|
            0 <= i < LINE_COUNT && i != b.session().at() ==> (
            #[trigger] a.session().lines@[i]).call == b.session().lines@[i].call,
        out.len() > 0,
        out[0] == (Effect::Send {
            account: b.selected_account,
            command: CoreCommand::HangUp(id),
        }),
        ignored(a, end, rest),
{
    let before = b.session().lines@;
    let after = a.session().lines@;
    let idx = b.session().at();
    assert(b.accounts@[b.selected_account as int].wf());
    split_keeps_pairs(before, idx);
    assert forall|i: int| 0 <= i < LINE_COUNT && i != idx implies (#[trigger] after[i]).call
        == before[i].call by {
        assert(split_off(before, idx)[i].call == before[i].call);
    }
    assert forall|i: int| 0 <= i < after.len() implies (#[trigger] after[i]).call.id() != Some(
        id@,
    ) by {
        if i != idx {
            assert(before[i].call.id() != Some(id@));
        }
    }
    no_line_holds(after, id@, 0);
}

/// Only one call is heard at a time: switching to another line or account holds
/// the call that was live, unless it is joined.
pub proof fn leaving_a_live_call_holds_it(
    b: App,
    line: u8,
    index: usize,
    now: Moment,
    a: App,
    out: Seq<Effect>,
    call: ActiveCall,
)
    requires
        b.wf(),
        selected_active(b) == Some(call),
        !call.on_hold,
        b.session().line().joined is None,
        ({
            ||| b.session().pending_join is None && is_line(line) && line
                != b.session().selected_line && step(b, Message::LineSelected(line), now, a, out)
            ||| index < b.accounts@.len() && index != b.selected_account && step(
                b,
                Message::AccountSwitched(index),
                now,
                a,
                out,
            )
        }),
    ensures
        out.len() > 0,
        out[0] == (Effect::Send {
            account: b.selected_account,
            command: CoreCommand::HoldCall(call.id),
        }),
{
}

/// The digits among those that follow a number, without the pauses.
pub open spec fn without_pauses(queue: Seq<char>) -> Seq<char>
    decreases queue.len(),
{
    if queue.len() == 0 {
        Seq::empty()
    } else if queue[0] == ',' {
        without_pauses(queue.drop_first())
    } else {
        seq![queue[0]] + without_pauses(queue.drop_first())
    }
}

/// Every digit that follows a number is handed out to be sent, in order: with
/// each step, what was handed out and what is still to be stay the same taken
/// together, and less is left, until nothing is.
pub proof fn every_digit_is_sent(
    b: App,
    account: usize,
    id: String,
    now: Moment,
    a: App,
    out: Seq<Effect>,
    idx: int,
    call: ActiveCall,
)
    requires
        b.wf(),
        account < b.accounts@.len(),
        line_with(b.accounts@[account as int].lines@, id@) == Some(idx),
        b.accounts@[account as int].lines@[idx].call == CallUiState::Active(call),
        call.post_dial@.len() > 0,
        step(b, Message::PostDialAdvance(account, id), now, a, out),
    ensures
        a.accounts@[account as int].lines@[idx].call matches CallUiState::Active(next)
            && next.post_dial@ == call.post_dial@.drop_first() && next.dtmf_feedback@
            + without_pauses(next.post_dial@) == call.dtmf_feedback@ + without_pauses(
            call.post_dial@,
        ),
{
    let next = a.accounts@[account as int].lines@[idx].call->Active_0;
    if call.post_dial@[0] != ',' {
        assert(next.dtmf_feedback@ + without_pauses(next.post_dial@) =~= call.dtmf_feedback@
            + without_pauses(call.post_dial@));
    }
}

/// Whether the history has grown by no more than one call, and is saved if it
/// has.
pub open spec fn grown(b: App, a: App, out: Seq<Effect>) -> bool {
    &&& b.call_history@.len() <= a.call_history@.len() <= b.call_history@.len() + 1
    &&& a.call_history@.take(b.call_history@.len() as int) == b.call_history@
    &&& a.call_history@ != b.call_history@ ==> out.contains(Effect::SaveHistory)
}

/// The history only grows: no message takes a call out of it, none adds more
/// than one, and what is added is saved.
#[verifier::spinoff_prover]
pub proof fn history_only_grows(b: App, message: Message, now: Moment, a: App, out: Seq<Effect>)
    requires
        b.wf(),
        message.fits(b),
        step(b, message, now, a, out),
    ensures
        grown(b, a, out),
{
    match message {
        Message::Core(account, event) => {
            events_grow_history(b, account, event, now, a, out);
        },
        Message::HangUpPressed => {
            hanging_up_grows_history(b, now, a, out);
        },
        _ => {
            if a.call_history == b.call_history {
                same_history_grows(b, a, out);
            }
        },
    }
}

proof fn same_history_grows(b: App, a: App, out: Seq<Effect>)
    requires
        a.call_history == b.call_history,
    ensures
        grown(b, a, out),
{
    assert(a.call_history@.take(b.call_history@.len() as int) =~= b.call_history@);
}

proof fn noted_history_grows(b: App, a: App, out: Seq<Effect>, entry: HistoryEntry)
    requires
        a.call_history@ == b.call_history@.push(entry),
        out.contains(Effect::SaveHistory),
    ensures
        grown(b, a, out),
{
    assert(a.call_history@.take(b.call_history@.len() as int) =~= b.call_history@);
}

proof fn hanging_up_grows_history(b: App, now: Moment, a: App, out: Seq<Effect>)
    requires
        on_hang_up(b, now, a, out),
    ensures
        grown(b, a, out),
{
    let account = b.selected_account;
    let idx = b.session().at();
    if b.has_account() && to_hang_up(b.session().line().call) is Some {
        let first = out.take(1);
        let end = to_end(b, account, idx, now);
        let rest = out.skip(1);
        end_is_saved(b, account, idx, now);
        in_sum(end, rest.skip(end.len() as int), Effect::SaveHistory);
        assert(rest =~= end + rest.skip(end.len() as int));
        in_sum(first, rest, Effect::SaveHistory);
        assert(out =~= first + rest);
        noted_history_grows(
            b,
            a,
            out,
            note_of(b.session().line().call, CallOutcome::Missed, now).unwrap(),
        );
    } else {
        same_history_grows(b, a, out);
    }
}

proof fn ends_grow_history(
    b: App,
    account: usize,
    idx: int,
    reason: Seq<char>,
    now: Moment,
    a: App,
    out: Seq<Effect>,
)
    requires
        on_terminated(b, account, idx, reason, now, a, out),
        !(b.accounts@[account as int].lines@[idx].call is Idle),
    ensures
        grown(b, a, out),
{
    let first = out.take(1);
    let end = to_end(b, account, idx, now);
    let rest = out.skip(1);
    end_is_saved(b, account, idx, now);
    in_sum(end, rest.skip(end.len() as int), Effect::SaveHistory);
    assert(rest =~= end + rest.skip(end.len() as int));
    in_sum(first, rest, Effect::SaveHistory);
    assert(out =~= first + rest);
    noted_history_grows(
        b,
        a,
        out,
        note_of(b.accounts@[account as int].lines@[idx].call, CallOutcome::Missed, now).unwrap(),
    );
}

proof fn rejections_grow_history(
    b: App,
    account: usize,
    idx: int,
    now: Moment,
    a: App,
    out: Seq<Effect>,
)
    requires
        on_rejected(b, account, idx, now, a, out),
    ensures
        grown(b, a, out),
{
    let call = b.accounts@[account as int].lines@[idx].call;
    if call is Incoming {
        assert(out[0] == Effect::SaveHistory);
        noted_history_grows(b, a, out, note_of(call, CallOutcome::Rejected, now).unwrap());
    } else {
        assert(a.call_history@.take(b.call_history@.len() as int) =~= b.call_history@);
    }
}

proof fn events_grow_history(
    b: App,
    account: usize,
    event: CoreEvent,
    now: Moment,
    a: App,
    out: Seq<Effect>,
)
    requires
        b.wf(),
        on_core(b, account, event, now, a, out),
    ensures
        grown(b, a, out),
{
    match event {
        CoreEvent::IncomingCall { remote, .. } => {
            if b.settings.denied(remote@) {
                assert(out.last() == Effect::SaveHistory);
                noted_history_grows(b, a, out, a.call_history@.last());
            } else {
                same_history_grows(b, a, out);
            }
        },
        CoreEvent::CallStateChanged { id, state } => {
            if account < b.accounts@.len() {
                let lines = b.accounts@[account as int].lines@;
                found_line_is_there(lines, id@, 0);
                if let Some(idx) = line_with(lines, id@) {
                    match state {
                        CallState::Rejected => {
                            rejections_grow_history(b, account, idx, now, a, out);
                        },
                        CallState::Terminated(reason) => {
                            ends_grow_history(b, account, idx, reason@, now, a, out);
                        },
                        _ => {
                            same_history_grows(b, a, out);
                        },
                    }
                } else {
                    same_history_grows(b, a, out);
                }
            } else {
                same_history_grows(b, a, out);
            }
        },
        _ => {
            same_history_grows(b, a, out);
        },
    }
}

proof fn in_sum(x: Seq<Effect>, y: Seq<Effect>, e: Effect)
    requires
        x.contains(e) || y.contains(e),
    ensures
        (x + y).contains(e),
{
    if x.contains(e) {
        let i = choose|i: int| 0 <= i < x.len() && x[i] == e;
        assert((x + y)[i] == e);
    } else {
        let i = choose|i: int| 0 <= i < y.len() && y[i] == e;
        assert((x + y)[x.len() + i] == e);
    }
}

proof fn end_is_saved(b: App, account: usize, idx: int, now: Moment)
    requires
        !(b.accounts@[account as int].lines@[idx].call is Idle),
    ensures
        to_end(b, account, idx, now).contains(Effect::SaveHistory),
{
    let lines = b.accounts@[account as int].lines@;
    let saved = to_save(lines[idx].call, account, idx, b.settings.records(), now);
    let mark = only_if(true, Effect::SaveHistory);
    assert(mark[0] == Effect::SaveHistory);
    in_sum(mark, to_clear(lines, account, idx), Effect::SaveHistory);
    in_sum(saved, mark + to_clear(lines, account, idx), Effect::SaveHistory);
}

/// Splitting undoes joining: two lines that were on their own are so again.
pub proof fn splitting_undoes_joining(lines: Seq<Line>, a: u8, b: u8)
    requires
        paired(lines),
        lines.len() == LINE_COUNT,
        is_line(a),
        is_line(b),
        a != b,
        lines[a - 1].joined is None,
        lines[b - 1].joined is None,
    ensures
        split_off(joined_lines(lines, a, b), a - 1) == lines,
        split_off(joined_lines(lines, a, b), b - 1) == lines,
{
    assert(split_off(joined_lines(lines, a, b), a - 1) =~= lines);
    assert(split_off(joined_lines(lines, a, b), b - 1) =~= lines);
}

/// It rings exactly while a call comes in, and rings back exactly while the
/// other side of a call rings: the sound starts when the first such call is
/// there and ends when the last one is gone.
pub proof fn ringing_follows_the_calls(
    b: App,
    message: Message,
    now: Moment,
    a: App,
    out: Seq<Effect>,
)
    requires
        took_in(b, message, now, a, out),
    ensures
        !ringing(b.accounts@) && ringing(a.accounts@) ==> out.contains(Effect::Tone(ToneCue::Ring)),
        ringing(b.accounts@) && !ringing(a.accounts@) ==> out.contains(
            Effect::Tone(ToneCue::StopRing),
        ),
        !ringing_back(b.accounts@) && ringing_back(a.accounts@) ==> out.contains(
            Effect::Tone(ToneCue::Ringback),
        ),
        ringing_back(b.accounts@) && !ringing_back(a.accounts@) ==> out.contains(
            Effect::Tone(ToneCue::StopRingback),
        ),
{
    let cues = ring_cues(b, a);
    let n = out.len() - cues.len();
    assert forall|k: int| 0 <= k < cues.len() implies out.contains(#[trigger] cues[k]) by {
        assert(out[n + k] == out.skip(n)[k]);
    }
    if ringing(b.accounts@) != ringing(a.accounts@) {
        assert(out.contains(cues[0]));
    }
    if ringing_back(b.accounts@) != ringing_back(a.accounts@) {
        assert(out.contains(cues[cues.len() - 1]));
    }
}

} // verus!
