//! What becomes of calls: what the user does to them, and what signaling and
//! audio report of them.

use vstd::prelude::*;

use crate::signaling::events::{CallId, CallState, CoreCommand, CoreEvent, RemoteMediaInfo};
use crate::text::{chars, copy_text, push_all, same_text};
use crate::ui::app::{all_wf, App};
use crate::ui::effect::{only_if, Effect, Purpose, Timer, ToneCue};
use crate::ui::history::{CallDirection, CallOutcome, HistoryEntry};
use crate::ui::message::Moment;
use crate::ui::session::{
    joins_decide, line_idx, line_with, position, seq_sum, to_unjoin, AccountSession, ActiveCall,
    CallUiState, Line, RegistrationStatus, LINE_COUNT, UNIT_GAIN, ZERO_GAIN,
};
use crate::ui::settings::clone_opt;

verus! {

/// How long after the answer the first of the digits that follow is sent.
pub const POST_DIAL_START_MS: u64 = 600;

/// How long a pause among those digits lasts.
pub const POST_DIAL_PAUSE_MS: u64 = 1500;

/// How long after one of those digits the next is sent.
pub const POST_DIAL_GAP_MS: u64 = 350;

// ---------------------------------------------------------------------------
// What changes

/// Whether nothing of the state but one line of one account may have changed.
pub open spec fn only_line(b: App, a: App, account: int, idx: int) -> bool {
    &&& a.accounts@ == b.accounts@.update(account, a.accounts@[account])
    &&& a.accounts@[account] == (AccountSession {
        lines: a.accounts@[account].lines,
        ..b.accounts@[account]
    })
    &&& a.accounts@[account].lines@ == b.accounts@[account].lines@.update(
        idx,
        a.accounts@[account].lines@[idx],
    )
}

/// Whether nothing has changed and nothing is left to do.
pub open spec fn ignored(b: App, a: App, out: Seq<Effect>) -> bool {
    a == b && out == Seq::<Effect>::empty()
}

/// The whole seconds since a moment.
pub open spec fn secs_since(now: Moment, since: u64) -> u64 {
    if now.millis < since {
        0
    } else {
        ((now.millis - since) / 1000) as u64
    }
}

/// The whole seconds since a moment.
pub fn seconds_since(now: Moment, since: u64) -> (r: u64)
    ensures
        r == secs_since(now, since),
{
    if now.millis < since {
        0
    } else {
        (now.millis - since) / 1000
    }
}

/// The seconds as they are noted of a call.
pub open spec fn noted_secs(secs: u64) -> u32 {
    (secs % 0x1_0000_0000) as u32
}

/// What is noted of a call that goes away: nothing of an idle line.
pub open spec fn note_of(call: CallUiState, unanswered: CallOutcome, now: Moment) -> Option<
    HistoryEntry,
> {
    match call {
        CallUiState::Idle => None,
        CallUiState::Incoming { caller, .. } => Some(
            HistoryEntry {
                number: caller,
                direction: CallDirection::Incoming,
                outcome: unanswered,
                unix_secs: now.unix_secs,
                duration_secs: 0,
            },
        ),
        CallUiState::Outgoing { number, .. } => Some(
            HistoryEntry {
                number,
                direction: CallDirection::Outgoing,
                outcome: CallOutcome::Failed,
                unix_secs: now.unix_secs,
                duration_secs: 0,
            },
        ),
        CallUiState::Active(c) => Some(
            HistoryEntry {
                number: c.number,
                direction: c.direction,
                outcome: CallOutcome::Answered,
                unix_secs: now.unix_secs,
                duration_secs: noted_secs(secs_since(now, c.answered_at)),
            },
        ),
    }
}

/// The history with what is noted of a call.
pub open spec fn noted(history: Seq<HistoryEntry>, note: Option<HistoryEntry>) -> Seq<
    HistoryEntry,
> {
    match note {
        Some(e) => history.push(e),
        None => history,
    }
}

fn note_for(call: &CallUiState, unanswered: CallOutcome, now: Moment) -> (r: Option<HistoryEntry>)
    ensures
        r == note_of(*call, unanswered, now),
{
    match call {
        CallUiState::Idle => None,
        CallUiState::Incoming { caller, .. } => Some(
            HistoryEntry {
                number: caller.clone(),
                direction: CallDirection::Incoming,
                outcome: unanswered,
                unix_secs: now.unix_secs,
                duration_secs: 0,
            },
        ),
        CallUiState::Outgoing { number, .. } => Some(
            HistoryEntry {
                number: number.clone(),
                direction: CallDirection::Outgoing,
                outcome: CallOutcome::Failed,
                unix_secs: now.unix_secs,
                duration_secs: 0,
            },
        ),
        CallUiState::Active(c) => Some(
            HistoryEntry {
                number: c.number.clone(),
                direction: c.direction,
                outcome: CallOutcome::Answered,
                unix_secs: now.unix_secs,
                duration_secs: (seconds_since(now, c.answered_at) % 0x1_0000_0000) as u32,
            },
        ),
    }
}

/// What saving the recording of a call takes: nothing unless its audio runs.
pub open spec fn to_save(
    call: CallUiState,
    account: usize,
    idx: int,
    keep: bool,
    now: Moment,
) -> Seq<Effect> {
    match call {
        CallUiState::Active(c) => only_if(
            c.media,
            Effect::SaveRecording {
                account,
                idx: idx as usize,
                number: c.number,
                secs: secs_since(now, c.answered_at),
                keep,
            },
        ),
        _ => Seq::empty(),
    }
}

fn save_recording(
    call: &CallUiState,
    account: usize,
    idx: usize,
    keep: bool,
    now: Moment,
    out: &mut Vec<Effect>,
)
    ensures
        final(out)@ == old(out)@ + to_save(*call, account, idx as int, keep, now),
{
    match call {
        CallUiState::Active(c) => {
            if c.media {
                out.push(
                    Effect::SaveRecording {
                        account,
                        idx,
                        number: c.number.clone(),
                        secs: seconds_since(now, c.answered_at),
                        keep,
                    },
                );
            }
        },
        _ => {},
    }
    proof {
        assert(out@ =~= old(out)@ + to_save(*call, account, idx as int, keep, now));
    }
}

// ---------------------------------------------------------------------------
// Calls that end

/// What the end of a call takes: its recording is saved, it is noted, its
/// partner is split off, and what the line held is dropped.
pub open spec fn to_end(b: App, account: usize, idx: int, now: Moment) -> Seq<Effect> {
    let lines = b.accounts@[account as int].lines@;
    to_save(lines[idx].call, account, idx, b.settings.records(), now) + (only_if(
        !(lines[idx].call is Idle),
        Effect::SaveHistory,
    ) + to_clear(lines, account, idx))
}

/// What clearing a line takes: its partner is split off, and what the line held
/// is dropped.
pub open spec fn to_clear(lines: Seq<Line>, account: usize, idx: int) -> Seq<Effect> {
    to_unjoin(lines, account, idx).push(Effect::ClearLine { account, idx: idx as usize })
}

/// Whether a call has ended on a line: the call is noted, the line has left its
/// pair and is idle, and `status` says how the call ended.
pub open spec fn ended(
    b: App,
    a: App,
    account: int,
    idx: int,
    status: Option<Seq<char>>,
    now: Moment,
) -> bool {
    &&& a.call_history@ == noted(
        b.call_history@,
        note_of(b.accounts@[account].lines@[idx].call, CallOutcome::Missed, now),
    )
    &&& a.accounts@ == b.accounts@.update(account, a.accounts@[account])
    &&& b.accounts@[account].quieted(idx, status, a.accounts@[account])
}

impl App {
    /// Ends the call on a line.
    pub(crate) fn end_call(
        &mut self,
        account: usize,
        idx: usize,
        status: Option<String>,
        now: Moment,
        out: &mut Vec<Effect>,
    )
        requires
            old(self).wf(),
            account < old(self).accounts@.len(),
            idx < LINE_COUNT,
        ensures
            final(self).wf(),
            *final(self) == (App {
                accounts: final(self).accounts,
                call_history: final(self).call_history,
                ..*old(self)
            }),
            ended(
                *old(self),
                *final(self),
                account as int,
                idx as int,
                crate::text::opt_text(status),
                now,
            ),
            final(out)@ == old(out)@ + to_end(*old(self), account, idx as int, now),
    {
        let keep = self.settings.recording();
        let ghost b = *self;
        let ghost lines = self.accounts@[account as int].lines@;
        let ghost call = lines[idx as int].call;
        proof {
            assert(self.accounts@[account as int].wf());
        }
        save_recording(&self.accounts[account].lines[idx].call, account, idx, keep, now, out);
        let ghost saved = out@;
        let note = note_for(&self.accounts[account].lines[idx].call, CallOutcome::Missed, now);
        if let Some(entry) = note {
            self.call_history.push(entry);
            out.push(Effect::SaveHistory);
        }
        proof {
            assert(out@ =~= saved + only_if(!(call is Idle), Effect::SaveHistory));
        }
        let ghost marked = out@;
        self.accounts[account].quiet(account, idx, status, out);
        out.push(Effect::ClearLine { account, idx });
        proof {
            assert(out@ =~= marked + to_clear(lines, account, idx as int));
            seq_sum(
                old(out)@,
                to_save(call, account, idx as int, keep, now),
                only_if(!(call is Idle), Effect::SaveHistory),
                to_clear(lines, account, idx as int),
            );
            one_account_changed(b.accounts@, self.accounts@, account as int);
        }
    }
}

/// The accounts are in order if they were and the one that changed is.
pub proof fn one_account_changed(b: Seq<AccountSession>, a: Seq<AccountSession>, account: int)
    requires
        all_wf(b),
        0 <= account < b.len(),
        a == b.update(account, a[account]),
        a[account].wf(),
    ensures
        all_wf(a),
{
}

/// The accounts are in order if they were and only what goes on on one line has
/// changed, not how it is joined.
pub proof fn one_line_changed(b: App, a: App, account: int, idx: int)
    requires
        all_wf(b.accounts@),
        0 <= account < b.accounts@.len(),
        0 <= idx < LINE_COUNT,
        only_line(b, a, account, idx),
        a.accounts@[account].lines@[idx].joined == b.accounts@[account].lines@[idx].joined,
    ensures
        all_wf(a.accounts@),
{
    assert(b.accounts@[account].wf());
    joins_decide(a.accounts@[account].lines@, b.accounts@[account].lines@);
    one_account_changed(b.accounts@, a.accounts@, account);
}

// ---------------------------------------------------------------------------
// What signaling says of a call

/// Who is at the other end of a call, and who called.
pub open spec fn party(call: CallUiState) -> (Seq<char>, CallDirection) {
    match call {
        CallUiState::Idle => (Seq::empty(), CallDirection::Outgoing),
        CallUiState::Incoming { caller, .. } => (caller@, CallDirection::Incoming),
        CallUiState::Outgoing { number, .. } => (number@, CallDirection::Outgoing),
        CallUiState::Active(c) => (c.number@, c.direction),
    }
}

fn party_of(call: &CallUiState) -> (r: (String, CallDirection))
    ensures
        (r.0@, r.1) == party(*call),
{
    match call {
        CallUiState::Idle => (String::new(), CallDirection::Outgoing),
        CallUiState::Incoming { caller, .. } => (caller.clone(), CallDirection::Incoming),
        CallUiState::Outgoing { number, .. } => (number.clone(), CallDirection::Outgoing),
        CallUiState::Active(c) => (c.number.clone(), c.direction),
    }
}

/// Whether a call is as it is when it was just answered: at full volume, not
/// muted, not on hold, and without audio yet.
pub open spec fn just_answered(
    c: ActiveCall,
    id: String,
    with: (Seq<char>, CallDirection),
    telephone_event_pt: Option<u8>,
    post_dial: Seq<char>,
    now: Moment,
) -> bool {
    &&& c.id == id
    &&& c.number@ == with.0
    &&& c.direction == with.1
    &&& !c.media
    &&& c.telephone_event_pt == telephone_event_pt
    &&& c.dtmf_feedback@.len() == 0
    &&& c.answered_at == now.millis
    &&& !c.muted
    &&& c.output_volume == UNIT_GAIN
    &&& c.input_volume == UNIT_GAIN
    &&& !c.on_hold
    &&& c.pre_hold_output_volume == UNIT_GAIN
    &&& c.transfer_input is None
    &&& c.post_dial@ == post_dial
}

/// What an answer does. A call that is active already is resumed: it is heard
/// and speaks again as it did before it was held. A call that was being set up
/// becomes active, if a local port is reserved for it: its audio is started,
/// and the digits that follow its number are sent after a while.
pub open spec fn on_answered(
    b: App,
    account: usize,
    idx: int,
    id: String,
    remote: RemoteMediaInfo,
    now: Moment,
    a: App,
    out: Seq<Effect>,
) -> bool {
    let before = b.accounts@[account as int].lines@[idx];
    let after = a.accounts@[account as int].lines@[idx];
    match before.call {
        CallUiState::Active(c) => {
            &&& a == (App { accounts: a.accounts, ..b })
            &&& only_line(b, a, account as int, idx)
            &&& after == (Line {
                call: CallUiState::Active(
                    ActiveCall {
                        on_hold: false,
                        output_volume: c.pre_hold_output_volume,
                        ..c
                    },
                ),
                ..before
            })
            &&& out == heard(c.media, account, idx, c.muted, c.pre_hold_output_volume)
        },
        _ => if before.reserved {
            &&& a == (App { accounts: a.accounts, ..b })
            &&& only_line(b, a, account as int, idx)
            &&& after == (Line {
                call: after.call,
                reserved: false,
                pending_post_dial: after.pending_post_dial,
                ..before
            })
            &&& after.pending_post_dial@.len() == 0
            &&& (after.call matches CallUiState::Active(c) && just_answered(
                c,
                id,
                party(before.call),
                remote.telephone_event_pt,
                before.pending_post_dial@,
                now,
            ))
            &&& out == seq![
                Effect::StartMedia {
                    account,
                    idx: idx as usize,
                    id,
                    remote,
                    capture: b.audio_devices.input_device,
                    playback: b.audio_devices.output_device,
                },
            ] + only_if(
                before.pending_post_dial@.len() > 0,
                Effect::Later {
                    millis: POST_DIAL_START_MS,
                    timer: Timer::PostDial { account, id },
                },
            )
        } else {
            ignored(b, a, out)
        },
    }
}

/// What setting a call's microphone and volume takes: nothing unless its audio
/// runs.
pub open spec fn heard(media: bool, account: usize, idx: int, muted: bool, gain: u32) -> Seq<
    Effect,
> {
    if media {
        seq![
            Effect::SetMicMuted { account, idx: idx as usize, muted },
            Effect::SetOutputVolume { account, idx: idx as usize, gain },
        ]
    } else {
        Seq::empty()
    }
}

/// What news of a call that this side is setting up does: the other side rings,
/// or sends audio of its own.
pub open spec fn on_progress(
    b: App,
    account: usize,
    idx: int,
    rings: bool,
    a: App,
    out: Seq<Effect>,
) -> bool {
    let before = b.accounts@[account as int].lines@[idx];
    match before.call {
        CallUiState::Outgoing { id, number, started_at, .. } => {
            &&& a == (App { accounts: a.accounts, ..b })
            &&& only_line(b, a, account as int, idx)
            &&& a.accounts@[account as int].lines@[idx] == (Line {
                call: CallUiState::Outgoing { id, number, started_at, ringing: rings },
                ..before
            })
            &&& out == Seq::<Effect>::empty()
        },
        _ => ignored(b, a, out),
    }
}

/// What a hold does: the call is neither heard nor speaks, and its volume is
/// kept for when it is resumed.
pub open spec fn on_held(b: App, account: usize, idx: int, a: App, out: Seq<Effect>) -> bool {
    let before = b.accounts@[account as int].lines@[idx];
    match before.call {
        CallUiState::Active(c) => {
            &&& a == (App { accounts: a.accounts, ..b })
            &&& only_line(b, a, account as int, idx)
            &&& a.accounts@[account as int].lines@[idx] == (Line {
                call: CallUiState::Active(
                    ActiveCall {
                        on_hold: true,
                        pre_hold_output_volume: c.output_volume,
                        ..c
                    },
                ),
                ..before
            })
            &&& out == heard(c.media, account, idx, true, ZERO_GAIN)
        },
        _ => ignored(b, a, out),
    }
}

/// What a refusal does: a call that came in is noted, and the line is idle.
pub open spec fn on_rejected(
    b: App,
    account: usize,
    idx: int,
    now: Moment,
    a: App,
    out: Seq<Effect>,
) -> bool {
    let before = b.accounts@[account as int].lines@[idx];
    let after = a.accounts@[account as int].lines@[idx];
    &&& a == (App { accounts: a.accounts, call_history: a.call_history, ..b })
    &&& a.call_history@ == if before.call is Incoming {
        noted(b.call_history@, note_of(before.call, CallOutcome::Rejected, now))
    } else {
        b.call_history@
    }
    &&& only_line(b, a, account as int, idx)
    &&& after == (Line {
        call: CallUiState::Idle,
        reserved: false,
        last_call_status: after.last_call_status,
        ..before
    })
    &&& crate::text::opt_text(after.last_call_status) == Some("declined"@)
    &&& out == only_if(before.call is Incoming, Effect::SaveHistory) + seq![
        Effect::ClearLine { account, idx: idx as usize },
        Effect::Tone(ToneCue::Disconnect),
    ]
}

/// The sound of a call's end: a call that was never answered by the other side
/// sounds busy if it is, and refused otherwise; any other call just ends.
pub open spec fn end_cue(call: CallUiState, reason: Seq<char>) -> ToneCue {
    if call is Outgoing {
        if reason == "busy"@ {
            ToneCue::Busy
        } else {
            ToneCue::Reorder
        }
    } else {
        ToneCue::Disconnect
    }
}

/// What the end of a call does. The main window grows back if it was shrunk and
/// showed the call.
pub open spec fn on_terminated(
    b: App,
    account: usize,
    idx: int,
    reason: Seq<char>,
    now: Moment,
    a: App,
    out: Seq<Effect>,
) -> bool {
    let acc = b.accounts@[account as int];
    let grows = b.compact_mode && account == b.selected_account && idx == acc.at();
    &&& a == (App {
        accounts: a.accounts,
        call_history: a.call_history,
        compact_mode: b.compact_mode && !grows,
        ..b
    })
    &&& ended(
        b,
        a,
        account as int,
        idx,
        if reason.len() > 0 {
            Some(reason)
        } else {
            None
        },
        now,
    )
    &&& out == seq![Effect::Tone(end_cue(acc.lines@[idx].call, reason))] + (to_end(
        b,
        account,
        idx,
        now,
    ) + only_if(grows, Effect::ResizeMain { compact: false }))
}

/// What news of a call does: nothing unless a line of the account holds the
/// call.
pub open spec fn on_call_state(
    b: App,
    account: usize,
    id: String,
    state: CallState,
    now: Moment,
    a: App,
    out: Seq<Effect>,
) -> bool {
    if account >= b.accounts@.len() {
        ignored(b, a, out)
    } else {
        match line_with(b.accounts@[account as int].lines@, id@) {
            None => ignored(b, a, out),
            Some(idx) => match state {
                CallState::Ringing => on_progress(b, account, idx, true, a, out),
                CallState::EarlyMedia { .. } => on_progress(b, account, idx, false, a, out),
                CallState::Answered { remote, .. } => on_answered(
                    b,
                    account,
                    idx,
                    id,
                    remote,
                    now,
                    a,
                    out,
                ),
                CallState::Held => on_held(b, account, idx, a, out),
                CallState::Rejected => on_rejected(b, account, idx, now, a, out),
                CallState::Terminated(reason) => on_terminated(
                    b,
                    account,
                    idx,
                    reason@,
                    now,
                    a,
                    out,
                ),
            },
        }
    }
}

fn push_heard(media: bool, account: usize, idx: usize, muted: bool, gain: u32) -> (out: Vec<Effect>)
    ensures
        out@ == heard(media, account, idx as int, muted, gain),
{
    let mut out: Vec<Effect> = Vec::new();
    if media {
        out.push(Effect::SetMicMuted { account, idx, muted });
        out.push(Effect::SetOutputVolume { account, idx, gain });
    }
    proof {
        assert(out@ =~= heard(media, account, idx as int, muted, gain));
    }
    out
}

impl App {
    fn handle_answered(
        &mut self,
        account: usize,
        idx: usize,
        id: CallId,
        remote: RemoteMediaInfo,
        now: Moment,
    ) -> (out: Vec<Effect>)
        requires
            old(self).wf(),
            account < old(self).accounts@.len(),
            idx < LINE_COUNT,
        ensures
            final(self).wf(),
            on_answered(*old(self), account, idx as int, id, remote, now, *final(self), out@),
    {
        let ghost b = *self;
        proof {
            assert(self.accounts@[account as int].wf());
        }
        if self.accounts[account].lines[idx].call.is_active() {
            if let CallUiState::Active(c) = &mut self.accounts[account].lines[idx].call {
                c.on_hold = false;
                c.output_volume = c.pre_hold_output_volume;
                let (media, muted, gain): (bool, bool, u32) = (c.media, c.muted, c.output_volume);
                proof {
                    assert(only_line(b, *self, account as int, idx as int));
                    one_line_changed(b, *self, account as int, idx as int);
                }
                return push_heard(media, account, idx, muted, gain);
            }
        }
        if !self.accounts[account].lines[idx].reserved {
            return Vec::new();
        }
        let (number, direction) = party_of(&self.accounts[account].lines[idx].call);
        let post_dial = chars(self.accounts[account].lines[idx].pending_post_dial.as_str());
        let follows = post_dial.len() > 0;
        let telephone_event_pt: Option<u8> = remote.telephone_event_pt;
        let mut out: Vec<Effect> = Vec::new();
        out.push(
            Effect::StartMedia {
                account,
                idx,
                id: id.clone(),
                remote,
                capture: clone_opt(&self.audio_devices.input_device),
                playback: clone_opt(&self.audio_devices.output_device),
            },
        );
        if follows {
            out.push(
                Effect::Later {
                    millis: POST_DIAL_START_MS,
                    timer: Timer::PostDial { account, id: id.clone() },
                },
            );
        }
        self.accounts[account].lines[idx].reserved = false;
        self.accounts[account].lines[idx].pending_post_dial = String::new();
        self.accounts[account].lines[idx].call = CallUiState::Active(
            ActiveCall {
                id,
                number,
                direction,
                media: false,
                telephone_event_pt,
                dtmf_feedback: Vec::new(),
                answered_at: now.millis,
                muted: false,
                output_volume: UNIT_GAIN,
                input_volume: UNIT_GAIN,
                on_hold: false,
                pre_hold_output_volume: UNIT_GAIN,
                transfer_input: None,
                post_dial,
            },
        );
        proof {
            assert(self.accounts@ =~= b.accounts@.update(
                account as int,
                self.accounts@[account as int],
            ));
            assert(self.accounts@[account as int].lines@
                =~= b.accounts@[account as int].lines@.update(
                idx as int,
                self.accounts@[account as int].lines@[idx as int],
            ));
            assert(only_line(b, *self, account as int, idx as int));
            one_line_changed(b, *self, account as int, idx as int);
            let before = b.accounts@[account as int].lines@[idx as int];
            assert(out@ =~= seq![
                Effect::StartMedia {
                    account,
                    idx,
                    id,
                    remote,
                    capture: b.audio_devices.input_device,
                    playback: b.audio_devices.output_device,
                },
            ] + only_if(
                before.pending_post_dial@.len() > 0,
                Effect::Later {
                    millis: POST_DIAL_START_MS,
                    timer: Timer::PostDial { account, id },
                },
            ));
        }
        out
    }

    fn handle_progress(&mut self, account: usize, idx: usize, rings: bool) -> (out: Vec<Effect>)
        requires
            old(self).wf(),
            account < old(self).accounts@.len(),
            idx < LINE_COUNT,
        ensures
            final(self).wf(),
            on_progress(*old(self), account, idx as int, rings, *final(self), out@),
    {
        let ghost b = *self;
        proof {
            assert(self.accounts@[account as int].wf());
        }
        let calling = match &self.accounts[account].lines[idx].call {
            CallUiState::Outgoing { .. } => true,
            _ => false,
        };
        if calling {
            if let CallUiState::Outgoing { ringing, .. } = &mut self.accounts[account].lines[idx].call {
                *ringing = rings;
            }
            proof {
                self.one_line_is_new(b, account as int, idx as int);
            }
        }
        Vec::new()
    }

    fn handle_held(&mut self, account: usize, idx: usize) -> (out: Vec<Effect>)
        requires
            old(self).wf(),
            account < old(self).accounts@.len(),
            idx < LINE_COUNT,
        ensures
            final(self).wf(),
            on_held(*old(self), account, idx as int, *final(self), out@),
    {
        let ghost b = *self;
        proof {
            assert(self.accounts@[account as int].wf());
        }
        if self.accounts[account].lines[idx].call.is_active() {
            if let CallUiState::Active(c) = &mut self.accounts[account].lines[idx].call {
                c.on_hold = true;
                c.pre_hold_output_volume = c.output_volume;
                let media = c.media;
                proof {
                    assert(only_line(b, *self, account as int, idx as int));
                    one_line_changed(b, *self, account as int, idx as int);
                }
                return push_heard(media, account, idx, true, ZERO_GAIN);
            }
        }
        Vec::new()
    }

    fn handle_rejected(&mut self, account: usize, idx: usize, now: Moment) -> (out: Vec<Effect>)
        requires
            old(self).wf(),
            account < old(self).accounts@.len(),
            idx < LINE_COUNT,
        ensures
            final(self).wf(),
            on_rejected(*old(self), account, idx as int, now, *final(self), out@),
    {
        let ghost b = *self;
        let mut out: Vec<Effect> = Vec::new();
        proof {
            assert(self.accounts@[account as int].wf());
        }
        if let CallUiState::Incoming { .. } = &self.accounts[account].lines[idx].call {
            let note = note_for(&self.accounts[account].lines[idx].call, CallOutcome::Rejected, now);
            if let Some(entry) = note {
                self.call_history.push(entry);
            }
            out.push(Effect::SaveHistory);
        }
        self.accounts[account].lines[idx].call = CallUiState::Idle;
        self.accounts[account].lines[idx].reserved = false;
        self.accounts[account].lines[idx].last_call_status = Some(copy_text("declined"));
        out.push(Effect::ClearLine { account, idx });
        out.push(Effect::Tone(ToneCue::Disconnect));
        proof {
            assert(self.accounts@ =~= b.accounts@.update(
                account as int,
                self.accounts@[account as int],
            ));
            assert(self.accounts@[account as int].lines@
                =~= b.accounts@[account as int].lines@.update(
                idx as int,
                self.accounts@[account as int].lines@[idx as int],
            ));
            assert(only_line(b, *self, account as int, idx as int));
            one_line_changed(b, *self, account as int, idx as int);
            let before = b.accounts@[account as int].lines@[idx as int];
            assert(out@ =~= only_if(before.call is Incoming, Effect::SaveHistory) + seq![
                Effect::ClearLine { account, idx },
                Effect::Tone(ToneCue::Disconnect),
            ]);
        }
        out
    }

    fn cue_for(&self, account: usize, idx: usize, reason: &str) -> (r: ToneCue)
        requires
            account < self.accounts@.len(),
            idx < self.accounts@[account as int].lines@.len(),
        ensures
            r == end_cue(self.accounts@[account as int].lines@[idx as int].call, reason@),
    {
        match &self.accounts[account].lines[idx].call {
            CallUiState::Outgoing { .. } => {
                if same_text(reason, "busy") {
                    ToneCue::Busy
                } else {
                    ToneCue::Reorder
                }
            },
            _ => ToneCue::Disconnect,
        }
    }

    fn handle_terminated(&mut self, account: usize, idx: usize, reason: String, now: Moment) -> (out:
        Vec<Effect>)
        requires
            old(self).wf(),
            account < old(self).accounts@.len(),
            idx < LINE_COUNT,
        ensures
            final(self).wf(),
            on_terminated(*old(self), account, idx as int, reason@, now, *final(self), out@),
    {
        let ghost b = *self;
        let mut out: Vec<Effect> = Vec::new();
        proof {
            assert(self.accounts@[account as int].wf());
        }
        let cue = self.cue_for(account, idx, reason.as_str());
        out.push(Effect::Tone(cue));
        let grows = self.compact_mode && account == self.selected_account && idx
            == self.accounts[account].selected_idx();
        let status: Option<String> = if chars(reason.as_str()).len() > 0 {
            Some(reason)
        } else {
            None
        };
        self.end_call(account, idx, status, now, &mut out);
        if grows {
            self.compact_mode = false;
            out.push(Effect::ResizeMain { compact: false });
        }
        proof {
            assert(out@ =~= seq![Effect::Tone(cue)] + (to_end(b, account, idx as int, now)
                + only_if(grows, Effect::ResizeMain { compact: false })));
        }
        out
    }

    /// Takes in news of a call.
    pub fn handle_call_state_changed(
        &mut self,
        account: usize,
        id: CallId,
        state: CallState,
        now: Moment,
    ) -> (out: Vec<Effect>)
        requires
            old(self).wf(),
        ensures
            final(self).wf(),
            on_call_state(*old(self), account, id, state, now, *final(self), out@),
    {
        if account >= self.accounts.len() {
            return Vec::new();
        }
        proof {
            assert(self.accounts@[account as int].wf());
        }
        match self.accounts[account].line_index_for_call(id.as_str()) {
            None => Vec::new(),
            Some(idx) => match state {
                CallState::Ringing => self.handle_progress(account, idx, true),
                CallState::EarlyMedia { .. } => self.handle_progress(account, idx, false),
                CallState::Answered { local: _, remote } => self.handle_answered(
                    account,
                    idx,
                    id,
                    remote,
                    now,
                ),
                CallState::Held => self.handle_held(account, idx),
                CallState::Rejected => self.handle_rejected(account, idx, now),
                CallState::Terminated(reason) => self.handle_terminated(account, idx, reason, now),
            },
        }
    }
}

// ---------------------------------------------------------------------------
// What signaling says

/// Whether the line that signaling names is there.
pub open spec fn names_line(event: CoreEvent) -> bool {
    match event {
        CoreEvent::IncomingCall { line, .. } => position(line) < LINE_COUNT,
        CoreEvent::OutgoingCallStarted { line, .. } => position(line) < LINE_COUNT,
        CoreEvent::PlaceCallFailed { line, .. } => position(line) < LINE_COUNT,
        _ => true,
    }
}

/// Whether nothing has changed but the error that is shown.
pub open spec fn errs(b: App, a: App, text: Seq<char>) -> bool {
    &&& a == (App { error: a.error, ..b })
    &&& crate::text::opt_text(a.error) == Some(text)
}

/// What a change of an account's registration does.
pub open spec fn on_registration(
    b: App,
    account: usize,
    status: RegistrationStatus,
    a: App,
    out: Seq<Effect>,
) -> bool {
    if account < b.accounts@.len() {
        &&& a == (App { accounts: a.accounts, ..b })
        &&& a.accounts@ == b.accounts@.update(
            account as int,
            AccountSession { registration: status, ..b.accounts@[account as int] },
        )
        &&& out == Seq::<Effect>::empty()
    } else {
        ignored(b, a, out)
    }
}

/// What a call that comes in does. An unwanted one is rejected and noted before
/// it rings. Any other rings on its line, if that is idle, and is answered if
/// every call is.
pub open spec fn on_incoming(
    b: App,
    account: usize,
    id: String,
    line: u8,
    remote: String,
    offer: RemoteMediaInfo,
    now: Moment,
    a: App,
    out: Seq<Effect>,
) -> bool {
    let idx = position(line);
    let before = b.accounts@[account as int].lines@[idx];
    if b.settings.denied(remote@) {
        &&& a == (App { call_history: a.call_history, ..b })
        &&& a.call_history@ == b.call_history@.push(
            HistoryEntry {
                number: remote,
                direction: CallDirection::Incoming,
                outcome: CallOutcome::Rejected,
                unix_secs: now.unix_secs,
                duration_secs: 0,
            },
        )
        &&& out == only_if(
            account < b.accounts@.len(),
            Effect::Send { account, command: CoreCommand::RejectCall(id) },
        ) + seq![Effect::SaveHistory]
    } else if account < b.accounts@.len() && before.call is Idle {
        &&& a == (App { accounts: a.accounts, ..b })
        &&& only_line(b, a, account as int, idx)
        &&& a.accounts@[account as int].lines@[idx] == (Line {
            call: CallUiState::Incoming { id, caller: remote, offer, ringing_since: now.millis },
            last_call_status: None,
            ..before
        })
        &&& out == only_if(
            b.settings.auto_answer,
            Effect::Reserve { account, idx: idx as usize, purpose: Purpose::Answer { id } },
        )
    } else {
        ignored(b, a, out)
    }
}

/// What the start of a call does: the line calls the number that was asked for.
pub open spec fn on_outgoing(
    b: App,
    account: usize,
    id: String,
    line: u8,
    now: Moment,
    a: App,
    out: Seq<Effect>,
) -> bool {
    let idx = position(line);
    let before = b.accounts@[account as int].lines@[idx];
    let after = a.accounts@[account as int].lines@[idx];
    if account < b.accounts@.len() {
        &&& a == (App { accounts: a.accounts, ..b })
        &&& only_line(b, a, account as int, idx)
        &&& after == (Line {
            call: CallUiState::Outgoing {
                id,
                number: before.pending_number,
                started_at: now.millis,
                ringing: false,
            },
            pending_number: after.pending_number,
            last_call_status: None,
            ..before
        })
        &&& after.pending_number@.len() == 0
        &&& out == Seq::<Effect>::empty()
    } else {
        ignored(b, a, out)
    }
}

/// What the failure of a call does: the line is idle, and the reason is shown.
pub open spec fn on_place_failed(
    b: App,
    account: usize,
    line: u8,
    reason: String,
    a: App,
    out: Seq<Effect>,
) -> bool {
    let idx = position(line);
    let before = b.accounts@[account as int].lines@[idx];
    if account < b.accounts@.len() {
        &&& a == (App { accounts: a.accounts, error: Some(reason), ..b })
        &&& only_line(b, a, account as int, idx)
        &&& a.accounts@[account as int].lines@[idx] == (Line {
            call: CallUiState::Idle,
            reserved: false,
            ..before
        })
        &&& out == seq![Effect::ClearLine { account, idx: idx as usize }]
    } else {
        a == (App { error: Some(reason), ..b }) && out == Seq::<Effect>::empty()
    }
}

/// What signaling's events do.
pub open spec fn on_core(
    b: App,
    account: usize,
    event: CoreEvent,
    now: Moment,
    a: App,
    out: Seq<Effect>,
) -> bool {
    match event {
        CoreEvent::Registered { expires, rtt_ms } => on_registration(
            b,
            account,
            RegistrationStatus::Registered { expires, registered_at: now.millis, rtt_ms },
            a,
            out,
        ),
        CoreEvent::RegistrationFailed { reason } => on_registration(
            b,
            account,
            RegistrationStatus::Failed { reason },
            a,
            out,
        ),
        CoreEvent::RegistrationHalted { reason } => on_registration(
            b,
            account,
            RegistrationStatus::Failed { reason },
            a,
            out,
        ),
        CoreEvent::IncomingCall { id, line, remote, offer } => on_incoming(
            b,
            account,
            id,
            line,
            remote,
            offer,
            now,
            a,
            out,
        ),
        CoreEvent::OutgoingCallStarted { id, line } => on_outgoing(
            b,
            account,
            id,
            line,
            now,
            a,
            out,
        ),
        CoreEvent::CallStateChanged { id, state } => on_call_state(
            b,
            account,
            id,
            state,
            now,
            a,
            out,
        ),
        CoreEvent::PlaceCallFailed { line, reason } => on_place_failed(
            b,
            account,
            line,
            reason,
            a,
            out,
        ),
        CoreEvent::DtmfResult { .. } => ignored(b, a, out),
        CoreEvent::TransferResult { ok, .. } => if ok {
            ignored(b, a, out)
        } else {
            errs(b, a, "call transfer failed"@) && out == Seq::<Effect>::empty()
        },
        CoreEvent::HoldResumeFailed { hold, reason, .. } => {
            &&& errs(
                b,
                a,
                (if hold {
                    "hold failed: "@
                } else {
                    "resume failed: "@
                }) + reason@,
            )
            &&& out == Seq::<Effect>::empty()
        },
    }
}

impl App {
    fn set_registration(&mut self, account: usize, status: RegistrationStatus) -> (out: Vec<Effect>)
        requires
            old(self).wf(),
        ensures
            final(self).wf(),
            on_registration(*old(self), account, status, *final(self), out@),
    {
        let ghost b = *self;
        if account < self.accounts.len() {
            self.accounts[account].registration = status;
            proof {
                assert(b.accounts@[account as int].wf());
                one_account_changed(b.accounts@, self.accounts@, account as int);
            }
        }
        Vec::new()
    }

    fn handle_incoming(
        &mut self,
        account: usize,
        id: CallId,
        line: u8,
        remote: String,
        offer: RemoteMediaInfo,
        now: Moment,
    ) -> (out: Vec<Effect>)
        requires
            old(self).wf(),
            position(line) < LINE_COUNT,
        ensures
            final(self).wf(),
            on_incoming(*old(self), account, id, line, remote, offer, now, *final(self), out@),
    {
        let ghost b = *self;
        let idx: usize = line_idx(line);
        let mut out: Vec<Effect> = Vec::new();
        if self.settings.denies(remote.as_str()) {
            if account < self.accounts.len() {
                out.push(Effect::Send { account, command: CoreCommand::RejectCall(id) });
            }
            self.call_history.push(
                HistoryEntry {
                    number: remote,
                    direction: CallDirection::Incoming,
                    outcome: CallOutcome::Rejected,
                    unix_secs: now.unix_secs,
                    duration_secs: 0,
                },
            );
            out.push(Effect::SaveHistory);
            proof {
                assert(out@ =~= only_if(
                    account < b.accounts@.len(),
                    Effect::Send { account, command: CoreCommand::RejectCall(id) },
                ) + seq![Effect::SaveHistory]);
            }
            return out;
        }
        if account < self.accounts.len() {
            proof {
                assert(b.accounts@[account as int].wf());
            }
            if self.accounts[account].lines[idx].call.is_idle() {
                if self.settings.auto_answer {
                    out.push(
                        Effect::Reserve { account, idx, purpose: Purpose::Answer { id: id.clone() } },
                    );
                }
                self.accounts[account].lines[idx].call = CallUiState::Incoming {
                    id,
                    caller: remote,
                    offer,
                    ringing_since: now.millis,
                };
                self.accounts[account].lines[idx].last_call_status = None;
                proof {
                    self.one_line_is_new(b, account as int, idx as int);
                    assert(out@ =~= only_if(
                        b.settings.auto_answer,
                        Effect::Reserve { account, idx, purpose: Purpose::Answer { id } },
                    ));
                }
            }
        }
        out
    }

    /// The state is in order if it was and only one line of one account was
    /// written to, and not how it is joined.
    pub proof fn one_line_is_new(&self, b: App, account: int, idx: int)
        requires
            b.wf(),
            0 <= account < b.accounts@.len(),
            0 <= idx < LINE_COUNT,
            self.selected_account == b.selected_account,
            self.accounts@.len() == b.accounts@.len(),
            forall|i: int|
                0 <= i < b.accounts@.len() && i != account ==> #[trigger] self.accounts@[i]
                    == b.accounts@[i],
            self.accounts@[account] == (AccountSession {
                lines: self.accounts@[account].lines,
                ..b.accounts@[account]
            }),
            self.accounts@[account].lines@.len() == b.accounts@[account].lines@.len(),
            forall|i: int|
                0 <= i < LINE_COUNT && i != idx ==> #[trigger] self.accounts@[account].lines@[i]
                    == b.accounts@[account].lines@[i],
            self.accounts@[account].lines@[idx].joined == b.accounts@[account].lines@[idx].joined,
        ensures
            self.wf(),
            only_line(b, *self, account, idx),
    {
        assert(b.accounts@[account].wf());
        assert(self.accounts@ =~= b.accounts@.update(account, self.accounts@[account]));
        assert(self.accounts@[account].lines@ =~= b.accounts@[account].lines@.update(
            idx,
            self.accounts@[account].lines@[idx],
        ));
        one_line_changed(b, *self, account, idx);
    }

    fn handle_outgoing(&mut self, account: usize, id: CallId, line: u8, now: Moment) -> (out: Vec<
        Effect,
    >)
        requires
            old(self).wf(),
            position(line) < LINE_COUNT,
        ensures
            final(self).wf(),
            on_outgoing(*old(self), account, id, line, now, *final(self), out@),
    {
        let ghost b = *self;
        let idx: usize = line_idx(line);
        if account < self.accounts.len() {
            proof {
                assert(b.accounts@[account as int].wf());
            }
            let number = self.accounts[account].lines[idx].pending_number.clone();
            self.accounts[account].lines[idx].pending_number = String::new();
            self.accounts[account].lines[idx].call = CallUiState::Outgoing {
                id,
                number,
                started_at: now.millis,
                ringing: false,
            };
            self.accounts[account].lines[idx].last_call_status = None;
            proof {
                self.one_line_is_new(b, account as int, idx as int);
            }
        }
        Vec::new()
    }

    fn handle_place_failed(&mut self, account: usize, line: u8, reason: String) -> (out: Vec<Effect>)
        requires
            old(self).wf(),
            position(line) < LINE_COUNT,
        ensures
            final(self).wf(),
            on_place_failed(*old(self), account, line, reason, *final(self), out@),
    {
        let ghost b = *self;
        let idx: usize = line_idx(line);
        let mut out: Vec<Effect> = Vec::new();
        self.error = Some(reason);
        if account < self.accounts.len() {
            proof {
                assert(b.accounts@[account as int].wf());
            }
            self.accounts[account].lines[idx].call = CallUiState::Idle;
            self.accounts[account].lines[idx].reserved = false;
            out.push(Effect::ClearLine { account, idx });
            proof {
                self.one_line_is_new(b, account as int, idx as int);
            }
        }
        out
    }

    /// Takes in what signaling says of an account.
    pub fn handle_core(&mut self, account: usize, event: CoreEvent, now: Moment) -> (out: Vec<Effect>)
        requires
            old(self).wf(),
            names_line(event),
        ensures
            final(self).wf(),
            on_core(*old(self), account, event, now, *final(self), out@),
    {
        match event {
            CoreEvent::Registered { expires, rtt_ms } => self.set_registration(
                account,
                RegistrationStatus::Registered { expires, registered_at: now.millis, rtt_ms },
            ),
            CoreEvent::RegistrationFailed { reason } => self.set_registration(
                account,
                RegistrationStatus::Failed { reason },
            ),
            CoreEvent::RegistrationHalted { reason } => self.set_registration(
                account,
                RegistrationStatus::Failed { reason },
            ),
            CoreEvent::IncomingCall { id, line, remote, offer } => self.handle_incoming(
                account,
                id,
                line,
                remote,
                offer,
                now,
            ),
            CoreEvent::OutgoingCallStarted { id, line } => self.handle_outgoing(
                account,
                id,
                line,
                now,
            ),
            CoreEvent::CallStateChanged { id, state } => self.handle_call_state_changed(
                account,
                id,
                state,
                now,
            ),
            CoreEvent::PlaceCallFailed { line, reason } => self.handle_place_failed(
                account,
                line,
                reason,
            ),
            CoreEvent::DtmfResult { .. } => Vec::new(),
            CoreEvent::TransferResult { id: _, ok } => {
                if !ok {
                    self.error = Some(copy_text("call transfer failed"));
                }
                Vec::new()
            },
            CoreEvent::HoldResumeFailed { id: _, hold, reason } => {
                let mut text = if hold {
                    copy_text("hold failed: ")
                } else {
                    copy_text("resume failed: ")
                };
                push_all(&mut text, reason.as_str());
                self.error = Some(text);
                Vec::new()
            },
        }
    }
}

} // verus!
