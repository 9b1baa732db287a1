//! What the user does to calls.

use vstd::prelude::*;

use crate::signaling::events::{CallId, CoreCommand};
use crate::text::{chars, copy_text, push_all};
use crate::ui::app::App;
use crate::ui::calls::{ended, errs, ignored, only_line, to_end};
use crate::ui::dialing::{number_in, post_dial_in, split_dial_input};
use crate::ui::effect::{only_if, Effect, Purpose, ToneCue};
use crate::ui::message::Moment;
use crate::ui::session::{idx_line, line_with, ActiveCall, CallUiState, Line, LINE_COUNT};
use crate::ui::settings::clone_opt;

verus! {

// ---------------------------------------------------------------------------
// Starting, answering and ending calls

/// What calling takes: nothing unless the selected line is idle and something
/// was typed; a local port, if a number was.
pub open spec fn on_call_pressed(b: App, a: App, out: Seq<Effect>) -> bool {
    if !b.has_account() || !(b.session().line().call is Idle) || b.dial_input@.len() == 0 {
        ignored(b, a, out)
    } else if number_in(b.dial_input@).len() == 0 {
        errs(b, a, "enter a number to call"@) && out == Seq::<Effect>::empty()
    } else {
        &&& a == b
        &&& out.len() == 1
        &&& (out[0] matches Effect::Reserve {
            account,
            idx,
            purpose: Purpose::Place { number, post_dial },
        } && account == b.selected_account && idx == b.session().at() && number@ == number_in(
            b.dial_input@,
        ) && post_dial@ == post_dial_in(b.dial_input@))
    }
}

/// What answering a line takes: a local port, if the line rings.
pub open spec fn to_answer(call: CallUiState, account: usize, idx: int) -> Seq<Effect> {
    match call {
        CallUiState::Incoming { id, .. } => seq![
            Effect::Reserve { account, idx: idx as usize, purpose: Purpose::Answer { id } },
        ],
        _ => Seq::empty(),
    }
}

/// What rejecting a line takes, if it rings.
pub open spec fn to_reject(call: CallUiState, account: usize) -> Seq<Effect> {
    match call {
        CallUiState::Incoming { id, .. } => seq![
            Effect::Send { account, command: CoreCommand::RejectCall(id) },
        ],
        _ => Seq::empty(),
    }
}

/// The call that hanging up would end: one that is active or being set up by
/// this side.
pub open spec fn to_hang_up(call: CallUiState) -> Option<String> {
    match call {
        CallUiState::Outgoing { id, .. } => Some(id),
        CallUiState::Active(c) => Some(c.id),
        _ => None,
    }
}

/// What hanging up does: the line is idle at once, whatever the other side says
/// later.
pub open spec fn on_hang_up(b: App, now: Moment, a: App, out: Seq<Effect>) -> bool {
    if !b.has_account() {
        ignored(b, a, out)
    } else {
        let account = b.selected_account;
        let idx = b.session().at();
        match to_hang_up(b.session().line().call) {
            None => ignored(b, a, out),
            Some(id) => {
                &&& a == (App {
                    accounts: a.accounts,
                    call_history: a.call_history,
                    compact_mode: false,
                    ..b
                })
                &&& ended(b, a, account as int, idx, Some("hung up"@), now)
                &&& out == seq![Effect::Send { account, command: CoreCommand::HangUp(id) }] + (
                to_end(b, account, idx, now) + (seq![Effect::Tone(ToneCue::Disconnect)] + only_if(
                    b.compact_mode,
                    Effect::ResizeMain { compact: false },
                )))
            },
        }
    }
}

/// What a reserved port does: the call is placed or answered with it. Without
/// one, the reason is shown.
pub open spec fn on_port_reserved(
    b: App,
    account: usize,
    idx: int,
    purpose: Purpose,
    outcome: Result<u16, String>,
    a: App,
    out: Seq<Effect>,
) -> bool {
    let before = b.accounts@[account as int].lines@[idx];
    match outcome {
        Err(why) => {
            &&& errs(b, a, "failed to reserve local port: "@ + why@)
            &&& out == Seq::<Effect>::empty()
        },
        Ok(port) => if account >= b.accounts@.len() {
            ignored(b, a, out)
        } else {
            &&& a == (App { accounts: a.accounts, ..b })
            &&& only_line(b, a, account as int, idx)
            &&& match purpose {
                Purpose::Place { number, post_dial } => {
                    &&& a.accounts@[account as int].lines@[idx] == (Line {
                        reserved: true,
                        pending_post_dial: post_dial,
                        pending_number: number,
                        ..before
                    })
                    &&& out == seq![
                        Effect::Send {
                            account,
                            command: CoreCommand::PlaceCall {
                                line: (idx + 1) as u8,
                                callee: number,
                                local_rtp_port: port,
                            },
                        },
                    ]
                },
                Purpose::Answer { id } => {
                    &&& a.accounts@[account as int].lines@[idx] == (Line {
                        reserved: true,
                        ..before
                    })
                    &&& out == seq![
                        Effect::Send {
                            account,
                            command: CoreCommand::AnswerCall { id, local_rtp_port: port },
                        },
                    ]
                },
            }
        },
    }
}

/// What audio that was started does: the call keeps it, is recorded if calls
/// are, and is played to the second output if there is one. Audio of a call
/// that is gone is dropped. Without audio, the call is hung up and the reason
/// shown.
pub open spec fn on_media_ready(
    b: App,
    account: usize,
    id: String,
    outcome: Result<(), String>,
    a: App,
    out: Seq<Effect>,
) -> bool {
    match outcome {
        Err(why) => {
            &&& errs(b, a, "audio pipeline failed: "@ + why@)
            &&& out == only_if(
                account < b.accounts@.len(),
                Effect::Send { account, command: CoreCommand::HangUp(id) },
            )
        },
        Ok(_) => match active_with(b, account, id@) {
            None => a == b && out == seq![Effect::DiscardMedia { account, id }],
            Some(idx) => {
                let before = b.accounts@[account as int].lines@[idx];
                &&& a == (App { accounts: a.accounts, ..b })
                &&& only_line(b, a, account as int, idx)
                &&& (before.call matches CallUiState::Active(c)
                    && a.accounts@[account as int].lines@[idx] == (Line {
                    call: CallUiState::Active(ActiveCall { media: true, ..c }),
                    ..before
                }))
                &&& out == seq![Effect::AttachMedia { account, idx: idx as usize }] + only_if(
                    b.settings.records(),
                    Effect::StartRecording { account, idx: idx as usize },
                ) + match b.settings.secondary_output_target {
                    Some(target) => seq![
                        Effect::SetSecondaryOutput { account, idx: idx as usize, target },
                    ],
                    None => Seq::empty(),
                }
            },
        },
    }
}

/// The line on which an account has an answered call.
pub open spec fn active_with(b: App, account: usize, id: Seq<char>) -> Option<int> {
    if account >= b.accounts@.len() {
        None
    } else {
        match line_with(b.accounts@[account as int].lines@, id) {
            Some(idx) if b.accounts@[account as int].lines@[idx].call is Active => Some(idx),
            _ => None,
        }
    }
}

impl App {
    /// Calls the number in the dial field.
    pub fn handle_call_pressed(&mut self) -> (out: Vec<Effect>)
        requires
            old(self).wf(),
        ensures
            final(self).wf(),
            on_call_pressed(*old(self), *final(self), out@),
    {
        let account: usize = self.selected_account;
        if account >= self.accounts.len() {
            return Vec::new();
        }
        proof {
            assert(self.accounts@[account as int].wf());
        }
        let idx: usize = self.accounts[account].selected_idx();
        if !self.accounts[account].lines[idx].call.is_idle() || chars(
            self.dial_input.as_str(),
        ).len() == 0 {
            return Vec::new();
        }
        let (number, post_dial) = split_dial_input(self.dial_input.as_str());
        if chars(number.as_str()).len() == 0 {
            self.error = Some(copy_text("enter a number to call"));
            return Vec::new();
        }
        let mut out: Vec<Effect> = Vec::new();
        out.push(Effect::Reserve { account, idx, purpose: Purpose::Place { number, post_dial } });
        out
    }

    /// Answers the selected line.
    pub fn handle_answer_pressed(&self) -> (out: Vec<Effect>)
        requires
            self.wf(),
        ensures
            out@ == if self.has_account() {
                to_answer(self.session().line().call, self.selected_account, self.session().at())
            } else {
                Seq::empty()
            },
    {
        let account: usize = self.selected_account;
        let mut out: Vec<Effect> = Vec::new();
        if account < self.accounts.len() {
            proof {
                assert(self.accounts@[account as int].wf());
            }
            let idx: usize = self.accounts[account].selected_idx();
            if let CallUiState::Incoming { id, .. } = &self.accounts[account].lines[idx].call {
                out.push(
                    Effect::Reserve { account, idx, purpose: Purpose::Answer { id: id.clone() } },
                );
            }
        }
        out
    }

    /// Rejects the call on the selected line.
    pub fn handle_reject_pressed(&self) -> (out: Vec<Effect>)
        requires
            self.wf(),
        ensures
            out@ == if self.has_account() {
                to_reject(self.session().line().call, self.selected_account)
            } else {
                Seq::empty()
            },
    {
        let account: usize = self.selected_account;
        let mut out: Vec<Effect> = Vec::new();
        if account < self.accounts.len() {
            proof {
                assert(self.accounts@[account as int].wf());
            }
            let idx: usize = self.accounts[account].selected_idx();
            if let CallUiState::Incoming { id, .. } = &self.accounts[account].lines[idx].call {
                out.push(Effect::Send { account, command: CoreCommand::RejectCall(id.clone()) });
            }
        }
        out
    }

    /// Hangs up on the selected line.
    pub fn handle_hang_up_pressed(&mut self, now: Moment) -> (out: Vec<Effect>)
        requires
            old(self).wf(),
        ensures
            final(self).wf(),
            on_hang_up(*old(self), now, *final(self), out@),
    {
        let ghost b = *self;
        let account: usize = self.selected_account;
        let mut out: Vec<Effect> = Vec::new();
        if account >= self.accounts.len() {
            return out;
        }
        proof {
            assert(self.accounts@[account as int].wf());
        }
        let idx: usize = self.accounts[account].selected_idx();
        let id: String = match &self.accounts[account].lines[idx].call {
            CallUiState::Outgoing { id, .. } => id.clone(),
            CallUiState::Active(c) => c.id.clone(),
            _ => {
                return out;
            },
        };
        out.push(Effect::Send { account, command: CoreCommand::HangUp(id) });
        self.end_call(account, idx, Some(copy_text("hung up")), now, &mut out);
        out.push(Effect::Tone(ToneCue::Disconnect));
        if self.compact_mode {
            self.compact_mode = false;
            out.push(Effect::ResizeMain { compact: false });
        }
        proof {
            assert(out@ =~= seq![Effect::Send { account, command: CoreCommand::HangUp(id) }] + (
            to_end(b, account, idx as int, now) + (seq![Effect::Tone(ToneCue::Disconnect)]
                + only_if(b.compact_mode, Effect::ResizeMain { compact: false }))));
        }
        out
    }

    /// Takes in whether a local port was reserved.
    pub fn handle_port_reserved(
        &mut self,
        account: usize,
        idx: usize,
        purpose: Purpose,
        outcome: Result<u16, String>,
    ) -> (out: Vec<Effect>)
        requires
            old(self).wf(),
            idx < LINE_COUNT,
        ensures
            final(self).wf(),
            on_port_reserved(
                *old(self),
                account,
                idx as int,
                purpose,
                outcome,
                *final(self),
                out@,
            ),
    {
        let ghost b = *self;
        let mut out: Vec<Effect> = Vec::new();
        match outcome {
            Err(why) => {
                let mut text = copy_text("failed to reserve local port: ");
                push_all(&mut text, why.as_str());
                self.error = Some(text);
            },
            Ok(port) => {
                if account < self.accounts.len() {
                    proof {
                        assert(self.accounts@[account as int].wf());
                    }
                    self.accounts[account].lines[idx].reserved = true;
                    match purpose {
                        Purpose::Place { number, post_dial } => {
                            let callee = number.clone();
                            self.accounts[account].lines[idx].pending_post_dial = post_dial;
                            self.accounts[account].lines[idx].pending_number = number;
                            out.push(
                                Effect::Send {
                                    account,
                                    command: CoreCommand::PlaceCall {
                                        line: idx_line(idx),
                                        callee,
                                        local_rtp_port: port,
                                    },
                                },
                            );
                        },
                        Purpose::Answer { id } => {
                            out.push(
                                Effect::Send {
                                    account,
                                    command: CoreCommand::AnswerCall { id, local_rtp_port: port },
                                },
                            );
                        },
                    }
                    proof {
                        self.one_line_is_new(b, account as int, idx as int);
                    }
                }
            },
        }
        out
    }

    /// The line on which an account has an answered call.
    pub(crate) fn active_line(&self, account: usize, id: &str) -> (r: Option<usize>)
        requires
            self.wf(),
        ensures
            match r {
                Some(idx) => idx < LINE_COUNT && account < self.accounts@.len() && active_with(
                    *self,
                    account,
                    id@,
                ) == Some(idx as int) && self.accounts@[account as int].lines@[idx as int].call is Active
                    && self.accounts@[account as int].lines@[idx as int].call.id() == Some(id@),
                None => active_with(*self, account, id@) is None,
            },
    {
        if account >= self.accounts.len() {
            return None;
        }
        proof {
            assert(self.accounts@[account as int].wf());
        }
        match self.accounts[account].line_index_for_call(id) {
            Some(idx) => {
                if self.accounts[account].lines[idx].call.is_active() {
                    Some(idx)
                } else {
                    None
                }
            },
            None => None,
        }
    }

    /// Takes in whether the audio of a call was started.
    pub fn handle_media_ready(&mut self, account: usize, id: CallId, outcome: Result<(), String>) -> (
        out: Vec<Effect>)
        requires
            old(self).wf(),
        ensures
            final(self).wf(),
            on_media_ready(*old(self), account, id, outcome, *final(self), out@),
    {
        let ghost b = *self;
        let mut out: Vec<Effect> = Vec::new();
        match outcome {
            Err(why) => {
                let mut text = copy_text("audio pipeline failed: ");
                push_all(&mut text, why.as_str());
                self.error = Some(text);
                if account < self.accounts.len() {
                    out.push(Effect::Send { account, command: CoreCommand::HangUp(id) });
                }
            },
            Ok(_) => match self.active_line(account, id.as_str()) {
                None => {
                    out.push(Effect::DiscardMedia { account, id });
                },
                Some(idx) => {
                    out.push(Effect::AttachMedia { account, idx });
                    if self.settings.recording() {
                        out.push(Effect::StartRecording { account, idx });
                    }
                    if let Some(target) = clone_opt(&self.settings.secondary_output_target) {
                        out.push(Effect::SetSecondaryOutput { account, idx, target });
                    }
                    proof {
                        assert(self.accounts@[account as int].wf());
                        assert(out@ =~= seq![Effect::AttachMedia { account, idx }] + only_if(
                            b.settings.records(),
                            Effect::StartRecording { account, idx },
                        ) + match b.settings.secondary_output_target {
                            Some(target) => seq![
                                Effect::SetSecondaryOutput { account, idx, target },
                            ],
                            None => Seq::empty(),
                        });
                    }
                    if let CallUiState::Active(c) = &mut self.accounts[account].lines[idx].call {
                        c.media = true;
                    }
                    proof {
                        self.one_line_is_new(b, account as int, idx as int);
                    }
                },
            },
        }
        out
    }
}

} // verus!
