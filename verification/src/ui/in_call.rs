//! What the user does while a call goes on, and the digits that are sent.

use vstd::prelude::*;

use crate::media::dtmf::{can_send_event, event_code};
use crate::signaling::events::{CallId, CoreCommand};
use crate::text::{begins, blank, chars, copy_text, is_blank, opt_text, trim, trimmed};
use crate::ui::app::App;
use crate::ui::calls::{errs, ignored, only_line, POST_DIAL_GAP_MS, POST_DIAL_PAUSE_MS};
use crate::ui::dialer::{active_with, on_call_pressed};
use crate::ui::effect::{only_if, Effect, Timer, ToneCue};
use crate::ui::history::{last_outgoing, last_outgoing_number};
use crate::ui::session::{ActiveCall, CallUiState, Line};
use crate::ui::settings::Screen;

verus! {

// ---------------------------------------------------------------------------
// The selected call

/// The answered call on the selected line.
pub open spec fn selected_active(b: App) -> Option<ActiveCall> {
    if b.has_account() {
        match b.session().line().call {
            CallUiState::Active(c) => Some(c),
            _ => None,
        }
    } else {
        None
    }
}

/// Whether nothing has changed but the call on the selected line, which is
/// another one now.
pub open spec fn call_changed(b: App, a: App, call: ActiveCall) -> bool {
    &&& a == (App { accounts: a.accounts, ..b })
    &&& only_line(b, a, b.selected_account as int, b.session().at())
    &&& a.session().line() == (Line { call: CallUiState::Active(call), ..b.session().line() })
}

/// What muting does: the microphone is muted if it was not, and the other way
/// round.
pub open spec fn on_mute(b: App, a: App, out: Seq<Effect>) -> bool {
    match selected_active(b) {
        None => ignored(b, a, out),
        Some(c) => {
            &&& call_changed(b, a, ActiveCall { muted: !c.muted, ..c })
            &&& out == only_if(
                c.media,
                Effect::SetMicMuted {
                    account: b.selected_account,
                    idx: b.session().at() as usize,
                    muted: !c.muted,
                },
            )
        },
    }
}

/// What turning the output volume does: it is heard at once, unless the call is
/// on hold.
pub open spec fn on_output_volume(b: App, gain: u32, a: App, out: Seq<Effect>) -> bool {
    match selected_active(b) {
        None => ignored(b, a, out),
        Some(c) => {
            &&& call_changed(b, a, ActiveCall { output_volume: gain, ..c })
            &&& out == only_if(
                c.media && !c.on_hold,
                Effect::SetOutputVolume {
                    account: b.selected_account,
                    idx: b.session().at() as usize,
                    gain,
                },
            )
        },
    }
}

/// What turning the input volume does.
pub open spec fn on_input_volume(b: App, gain: u32, a: App, out: Seq<Effect>) -> bool {
    match selected_active(b) {
        None => ignored(b, a, out),
        Some(c) => {
            &&& call_changed(b, a, ActiveCall { input_volume: gain, ..c })
            &&& out == only_if(
                c.media,
                Effect::SetInputGain {
                    account: b.selected_account,
                    idx: b.session().at() as usize,
                    gain,
                },
            )
        },
    }
}

/// What the hold button does: it asks for a hold or a resumption; a joined call
/// cannot be held.
pub open spec fn on_hold_toggled(b: App, a: App, out: Seq<Effect>) -> bool {
    if b.has_account() && b.session().line().joined is Some {
        &&& errs(b, a, "can't hold a joined call \u{2014} split it first"@)
        &&& out == Seq::<Effect>::empty()
    } else {
        &&& a == b
        &&& out == match selected_active(b) {
            None => Seq::empty(),
            Some(c) => seq![
                Effect::Send {
                    account: b.selected_account,
                    command: if c.on_hold {
                        CoreCommand::ResumeCall(c.id)
                    } else {
                        CoreCommand::HoldCall(c.id)
                    },
                },
            ],
        }
    }
}

/// What opening or closing the transfer panel does.
pub open spec fn on_transfer_toggled(b: App, a: App, out: Seq<Effect>) -> bool {
    match selected_active(b) {
        None => ignored(b, a, out),
        Some(c) => {
            &&& selected_active(a) matches Some(d)
            &&& call_changed(b, a, ActiveCall { transfer_input: d.transfer_input, ..c })
            &&& opt_text(d.transfer_input) == if c.transfer_input is Some {
                None
            } else {
                Some(Seq::<char>::empty())
            }
            &&& out == Seq::<Effect>::empty()
        },
    }
}

/// What typing the number to transfer to does: nothing unless the panel is
/// open.
pub open spec fn on_transfer_target(b: App, target: String, a: App, out: Seq<Effect>) -> bool {
    match selected_active(b) {
        Some(c) if c.transfer_input is Some => {
            &&& call_changed(b, a, ActiveCall { transfer_input: Some(target), ..c })
            &&& out == Seq::<Effect>::empty()
        },
        _ => ignored(b, a, out),
    }
}

/// What confirming a transfer does: the panel closes, and the call is
/// transferred if a number was typed.
pub open spec fn on_transfer_confirmed(b: App, a: App, out: Seq<Effect>) -> bool {
    match selected_active(b) {
        Some(c) => match c.transfer_input {
            Some(typed) => {
                &&& call_changed(b, a, ActiveCall { transfer_input: None, ..c })
                &&& if is_blank(typed@) {
                    out == Seq::<Effect>::empty()
                } else {
                    &&& out.len() == 1
                    &&& (out[0] matches Effect::Send {
                        account,
                        command: CoreCommand::BlindTransfer { id, target },
                    } && account == b.selected_account && id == c.id && target@ == trimmed(typed@))
                }
            },
            None => ignored(b, a, out),
        },
        None => ignored(b, a, out),
    }
}

impl App {
    /// Whether the selected line holds an answered call.
    fn has_active(&self) -> (r: bool)
        requires
            self.wf(),
        ensures
            r == (selected_active(*self) is Some),
            r ==> self.has_account() && self.session().wf(),
    {
        if self.selected_account < self.accounts.len() {
            proof {
                assert(self.accounts@[self.selected_account as int].wf());
            }
            self.accounts[self.selected_account].selected_call().is_active()
        } else {
            false
        }
    }

    /// Mutes the microphone of the selected call, or turns it on again.
    pub fn handle_mute(&mut self) -> (out: Vec<Effect>)
        requires
            old(self).wf(),
        ensures
            final(self).wf(),
            on_mute(*old(self), *final(self), out@),
    {
        let ghost b = *self;
        let mut out: Vec<Effect> = Vec::new();
        if self.has_active() {
            let account: usize = self.selected_account;
            let idx: usize = self.accounts[account].selected_idx();
            if let CallUiState::Active(c) = &mut self.accounts[account].lines[idx].call {
                c.muted = !c.muted;
                if c.media {
                    out.push(Effect::SetMicMuted { account, idx, muted: c.muted });
                }
            }
            proof {
                self.one_line_is_new(b, account as int, idx as int);
            }
        }
        out
    }

    /// Sets the output volume of the selected call.
    pub fn handle_output_volume(&mut self, gain: u32) -> (out: Vec<Effect>)
        requires
            old(self).wf(),
        ensures
            final(self).wf(),
            on_output_volume(*old(self), gain, *final(self), out@),
    {
        let ghost b = *self;
        let mut out: Vec<Effect> = Vec::new();
        if self.has_active() {
            let account: usize = self.selected_account;
            let idx: usize = self.accounts[account].selected_idx();
            if let CallUiState::Active(c) = &mut self.accounts[account].lines[idx].call {
                c.output_volume = gain;
                if c.media && !c.on_hold {
                    out.push(Effect::SetOutputVolume { account, idx, gain });
                }
            }
            proof {
                self.one_line_is_new(b, account as int, idx as int);
            }
        }
        out
    }

    /// Sets the input volume of the selected call.
    pub fn handle_input_volume(&mut self, gain: u32) -> (out: Vec<Effect>)
        requires
            old(self).wf(),
        ensures
            final(self).wf(),
            on_input_volume(*old(self), gain, *final(self), out@),
    {
        let ghost b = *self;
        let mut out: Vec<Effect> = Vec::new();
        if self.has_active() {
            let account: usize = self.selected_account;
            let idx: usize = self.accounts[account].selected_idx();
            if let CallUiState::Active(c) = &mut self.accounts[account].lines[idx].call {
                c.input_volume = gain;
                if c.media {
                    out.push(Effect::SetInputGain { account, idx, gain });
                }
            }
            proof {
                self.one_line_is_new(b, account as int, idx as int);
            }
        }
        out
    }

    /// Asks for the selected call to be held or resumed.
    pub fn handle_hold(&mut self) -> (out: Vec<Effect>)
        requires
            old(self).wf(),
        ensures
            final(self).wf(),
            on_hold_toggled(*old(self), *final(self), out@),
    {
        let mut out: Vec<Effect> = Vec::new();
        let account: usize = self.selected_account;
        if account < self.accounts.len() {
            proof {
                assert(self.accounts@[account as int].wf());
            }
            let idx: usize = self.accounts[account].selected_idx();
            if self.accounts[account].lines[idx].joined.is_some() {
                self.error = Some(copy_text("can't hold a joined call \u{2014} split it first"));
                return out;
            }
            if let CallUiState::Active(c) = &self.accounts[account].lines[idx].call {
                let command = if c.on_hold {
                    CoreCommand::ResumeCall(c.id.clone())
                } else {
                    CoreCommand::HoldCall(c.id.clone())
                };
                out.push(Effect::Send { account, command });
            }
        }
        out
    }

    /// Opens or closes the transfer panel.
    pub fn handle_transfer_toggled(&mut self) -> (out: Vec<Effect>)
        requires
            old(self).wf(),
        ensures
            final(self).wf(),
            on_transfer_toggled(*old(self), *final(self), out@),
    {
        let ghost b = *self;
        if self.has_active() {
            let account: usize = self.selected_account;
            let idx: usize = self.accounts[account].selected_idx();
            if let CallUiState::Active(c) = &mut self.accounts[account].lines[idx].call {
                c.transfer_input = if c.transfer_input.is_some() {
                    None
                } else {
                    Some(String::new())
                };
            }
            proof {
                self.one_line_is_new(b, account as int, idx as int);
            }
        }
        Vec::new()
    }

    /// Takes in what is typed into the transfer panel.
    pub fn handle_transfer_target(&mut self, target: String) -> (out: Vec<Effect>)
        requires
            old(self).wf(),
        ensures
            final(self).wf(),
            on_transfer_target(*old(self), target, *final(self), out@),
    {
        let ghost b = *self;
        if self.has_active() {
            let account: usize = self.selected_account;
            let idx: usize = self.accounts[account].selected_idx();
            let open = match &self.accounts[account].lines[idx].call {
                CallUiState::Active(c) => c.transfer_input.is_some(),
                _ => false,
            };
            if open {
                if let CallUiState::Active(c) = &mut self.accounts[account].lines[idx].call {
                    c.transfer_input = Some(target);
                }
                proof {
                    self.one_line_is_new(b, account as int, idx as int);
                }
            }
        }
        Vec::new()
    }

    /// Transfers the selected call to the number that was typed.
    pub fn handle_transfer_confirmed(&mut self) -> (out: Vec<Effect>)
        requires
            old(self).wf(),
        ensures
            final(self).wf(),
            on_transfer_confirmed(*old(self), *final(self), out@),
    {
        let ghost b = *self;
        let mut out: Vec<Effect> = Vec::new();
        if self.has_active() {
            let account: usize = self.selected_account;
            let idx: usize = self.accounts[account].selected_idx();
            let (id, typed): (String, String) = match &self.accounts[account].lines[idx].call {
                CallUiState::Active(c) => match &c.transfer_input {
                    Some(typed) => (c.id.clone(), typed.clone()),
                    None => {
                        return out;
                    },
                },
                _ => {
                    return out;
                },
            };
            if !blank(typed.as_str()) {
                let target = trim(typed.as_str());
                out.push(
                    Effect::Send { account, command: CoreCommand::BlindTransfer { id, target } },
                );
            }
            if let CallUiState::Active(c) = &mut self.accounts[account].lines[idx].call {
                c.transfer_input = None;
            }
            proof {
                self.one_line_is_new(b, account as int, idx as int);
            }
        }
        out
    }
}

// ---------------------------------------------------------------------------
// Digits

/// What pressing a key does: it sounds; on an idle line it is typed, and in a
/// call it is sent.
pub open spec fn on_dialpad(b: App, digit: char, a: App, out: Seq<Effect>) -> bool {
    let sound = seq![Effect::Tone(ToneCue::Digit(digit))];
    if b.has_account() && b.session().line().call is Idle {
        &&& a == (App { dial_input: a.dial_input, ..b })
        &&& a.dial_input@ == b.dial_input@.push(digit)
        &&& out == sound
    } else {
        match selected_active(b) {
            Some(c) => {
                &&& selected_active(a) matches Some(d)
                &&& call_changed(b, a, ActiveCall { dtmf_feedback: d.dtmf_feedback, ..c })
                &&& d.dtmf_feedback@ == c.dtmf_feedback@.push(digit)
                &&& out == sound.push(
                    to_send(c, b.selected_account, b.session().at(), c.id, digit),
                )
            },
            None => a == b && out == sound,
        }
    }
}

/// What sending a digit takes: it goes with the audio where that runs and both
/// sides agreed on it, and with signaling otherwise.
pub open spec fn to_send(c: ActiveCall, account: usize, idx: int, id: String, digit: char) -> Effect {
    if c.media && c.telephone_event_pt is Some && event_code(digit) is Some {
        Effect::SendEvent { account, idx: idx as usize, digit }
    } else {
        Effect::Send { account, command: CoreCommand::SendDtmf { id, digit } }
    }
}

fn send_digit(c: &ActiveCall, account: usize, idx: usize, id: String, digit: char) -> (r: Effect)
    ensures
        r == to_send(*c, account, idx as int, id, digit),
{
    if c.media && can_send_event(c.telephone_event_pt, digit) {
        Effect::SendEvent { account, idx, digit }
    } else {
        Effect::Send { account, command: CoreCommand::SendDtmf { id, digit } }
    }
}

/// The sounds of some keys.
pub open spec fn sounds(digits: Seq<char>) -> Seq<Effect>
    decreases digits.len(),
{
    if digits.len() == 0 {
        Seq::empty()
    } else {
        sounds(digits.drop_last()).push(Effect::Tone(ToneCue::Digit(digits.last())))
    }
}

/// What typing into the dial field does: what is added at its end sounds.
pub open spec fn on_dial_input(b: App, typed: String, a: App, out: Seq<Effect>) -> bool {
    &&& a == (App { dial_input: typed, ..b })
    &&& out == if typed@.len() > b.dial_input@.len() && begins(typed@, b.dial_input@) {
        sounds(typed@.skip(b.dial_input@.len() as int))
    } else {
        Seq::empty()
    }
}

/// What happens when the next of the digits that follow a number is due: a
/// pause passes, and a digit sounds and is sent, as if it had been pressed. The
/// rest follows later.
pub open spec fn on_post_dial(b: App, account: usize, id: String, a: App, out: Seq<Effect>) -> bool {
    match active_with(b, account, id@) {
        None => ignored(b, a, out),
        Some(idx) => {
            let before = b.accounts@[account as int].lines@[idx];
            let after = a.accounts@[account as int].lines@[idx];
            match (before.call, after.call) {
                (CallUiState::Active(c), CallUiState::Active(d)) => if c.post_dial@.len() == 0 {
                    ignored(b, a, out)
                } else {
                    let next = c.post_dial@[0];
                    let rest = c.post_dial@.drop_first();
                    let again = Timer::PostDial { account, id };
                    &&& a == (App { accounts: a.accounts, ..b })
                    &&& only_line(b, a, account as int, idx)
                    &&& after == (Line {
                        call: CallUiState::Active(
                            ActiveCall {
                                post_dial: d.post_dial,
                                dtmf_feedback: d.dtmf_feedback,
                                ..c
                            },
                        ),
                        ..before
                    })
                    &&& d.post_dial@ == rest
                    &&& if next == ',' {
                        &&& d.dtmf_feedback@ == c.dtmf_feedback@
                        &&& out == seq![Effect::Later { millis: POST_DIAL_PAUSE_MS, timer: again }]
                    } else {
                        &&& d.dtmf_feedback@ == c.dtmf_feedback@.push(next)
                        &&& out == seq![
                            Effect::Tone(ToneCue::Digit(next)),
                            to_send(c, account, idx, id, next),
                        ] + only_if(
                            rest.len() > 0,
                            Effect::Later { millis: POST_DIAL_GAP_MS, timer: again },
                        )
                    }
                },
                _ => false,
            }
        },
    }
}

/// What calling a given number does: it is put into the dial field and called,
/// if the selected line is idle.
pub open spec fn on_dial_number(b: App, number: String, a: App, out: Seq<Effect>) -> bool {
    if !b.has_account() {
        ignored(b, a, out)
    } else if !(b.session().line().call is Idle) {
        &&& errs(b, a, "selected line is busy \u{2014} pick a free line first"@)
        &&& out == Seq::<Effect>::empty()
    } else {
        on_call_pressed(App { dial_input: number, screen: Screen::Dialer, ..b }, a, out)
    }
}

/// What redialling does: the number that was called last is called.
pub open spec fn on_redial(b: App, a: App, out: Seq<Effect>) -> bool {
    match last_outgoing(b.call_history@) {
        None => ignored(b, a, out),
        Some(number) => on_call_pressed(App { dial_input: number, ..b }, a, out),
    }
}

/// The key at a place.
fn key_at(keys: &Vec<char>, i: usize) -> (r: char)
    requires
        i < keys@.len(),
    ensures
        r == keys@[i as int],
{
    keys[i]
}

impl App {
    /// Takes in a key of the dialpad.
    pub fn handle_dialpad(&mut self, digit: char) -> (out: Vec<Effect>)
        requires
            old(self).wf(),
        ensures
            final(self).wf(),
            on_dialpad(*old(self), digit, *final(self), out@),
    {
        let ghost b = *self;
        let account: usize = self.selected_account;
        let mut out: Vec<Effect> = Vec::new();
        out.push(Effect::Tone(ToneCue::Digit(digit)));
        if account >= self.accounts.len() {
            return out;
        }
        proof {
            assert(self.accounts@[account as int].wf());
        }
        let idx: usize = self.accounts[account].selected_idx();
        if self.accounts[account].lines[idx].call.is_idle() {
            self.dial_input.push(digit);
            return out;
        }
        if self.accounts[account].lines[idx].call.is_active() {
            if let CallUiState::Active(c) = &mut self.accounts[account].lines[idx].call {
                c.dtmf_feedback.push(digit);
                out.push(send_digit(c, account, idx, c.id.clone(), digit));
            }
            proof {
                self.one_line_is_new(b, account as int, idx as int);
            }
        }
        out
    }

    /// Takes in what is typed into the dial field.
    pub fn handle_dial_input(&mut self, typed: String) -> (out: Vec<Effect>)
        requires
            old(self).wf(),
        ensures
            final(self).wf(),
            on_dial_input(*old(self), typed, *final(self), out@),
    {
        let mut out: Vec<Effect> = Vec::new();
        let v: Vec<char> = chars(typed.as_str());
        let n: usize = chars(self.dial_input.as_str()).len();
        if v.len() > n && crate::text::starts_with(typed.as_str(), self.dial_input.as_str()) {
            let mut i: usize = n;
            proof {
                assert(out@ =~= sounds(v@.subrange(n as int, i as int)));
            }
            while i < v.len()
                invariant
                    n <= i <= v@.len(),
                    out@ == sounds(v@.subrange(n as int, i as int)),
                decreases v.len() - i,
            {
                out.push(Effect::Tone(ToneCue::Digit(key_at(&v, i))));
                proof {
                    assert(v@.subrange(n as int, i + 1).drop_last() =~= v@.subrange(
                        n as int,
                        i as int,
                    ));
                }
                i += 1;
            }
            proof {
                assert(v@.subrange(n as int, i as int) =~= v@.skip(n as int));
            }
        }
        self.dial_input = typed;
        out
    }

    /// Sends the next of the digits that follow a number.
    pub fn handle_post_dial(&mut self, account: usize, id: CallId) -> (out: Vec<Effect>)
        requires
            old(self).wf(),
        ensures
            final(self).wf(),
            on_post_dial(*old(self), account, id, *final(self), out@),
    {
        let ghost b = *self;
        let mut out: Vec<Effect> = Vec::new();
        let idx: usize = match self.active_line(account, id.as_str()) {
            Some(idx) => idx,
            None => {
                return out;
            },
        };
        proof {
            assert(self.accounts@[account as int].wf());
        }
        let (next, more, sending): (char, bool, Effect) = match &self.accounts[account].lines[idx].call {
            CallUiState::Active(c) => {
                if c.post_dial.len() == 0 {
                    return out;
                }
                let next = key_at(&c.post_dial, 0);
                (next, c.post_dial.len() > 1, send_digit(c, account, idx, id.clone(), next))
            },
            _ => {
                return out;
            },
        };
        if let CallUiState::Active(c) = &mut self.accounts[account].lines[idx].call {
            let ghost queued = c.post_dial@;
            let _ = c.post_dial.remove(0);
            proof {
                assert(c.post_dial@ =~= queued.drop_first());
            }
            if next != ',' {
                c.dtmf_feedback.push(next);
            }
        }
        if next == ',' {
            out.push(
                Effect::Later {
                    millis: POST_DIAL_PAUSE_MS,
                    timer: Timer::PostDial { account, id },
                },
            );
        } else {
            out.push(Effect::Tone(ToneCue::Digit(next)));
            out.push(sending);
            if more {
                out.push(
                    Effect::Later {
                        millis: POST_DIAL_GAP_MS,
                        timer: Timer::PostDial { account, id },
                    },
                );
            }
        }
        proof {
            self.one_line_is_new(b, account as int, idx as int);
            let c = b.accounts@[account as int].lines@[idx as int].call->Active_0;
            if next != ',' {
                assert(out@ =~= seq![
                    Effect::Tone(ToneCue::Digit(next)),
                    sending,
                ] + only_if(
                    c.post_dial@.drop_first().len() > 0,
                    Effect::Later {
                        millis: POST_DIAL_GAP_MS,
                        timer: Timer::PostDial { account, id },
                    },
                ));
            }
        }
        out
    }

    /// Calls a given number.
    pub fn handle_dial_number(&mut self, number: String) -> (out: Vec<Effect>)
        requires
            old(self).wf(),
        ensures
            final(self).wf(),
            on_dial_number(*old(self), number, *final(self), out@),
    {
        let account: usize = self.selected_account;
        if account >= self.accounts.len() {
            return Vec::new();
        }
        proof {
            assert(self.accounts@[account as int].wf());
        }
        if !self.accounts[account].selected_call().is_idle() {
            self.error = Some(copy_text("selected line is busy \u{2014} pick a free line first"));
            return Vec::new();
        }
        self.dial_input = number;
        self.screen = Screen::Dialer;
        self.handle_call_pressed()
    }

    /// Calls the number that was called last.
    pub fn handle_redial(&mut self) -> (out: Vec<Effect>)
        requires
            old(self).wf(),
        ensures
            final(self).wf(),
            on_redial(*old(self), *final(self), out@),
    {
        match last_outgoing_number(&self.call_history) {
            Some(number) => {
                self.dial_input = number;
                self.handle_call_pressed()
            },
            None => Vec::new(),
        }
    }
}


} // verus!
