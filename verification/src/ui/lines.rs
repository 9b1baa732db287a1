//! What the user does to lines: selecting, opening, joining and splitting
//! them, and switching between accounts.

use vstd::prelude::*;

use crate::text::{chars, copy_text, opt_text};
use crate::ui::app::App;
use crate::ui::calls::{errs, ignored, one_account_changed};
use crate::ui::effect::{only_if, Effect, Timer, ToneCue};
use crate::ui::message::Moment;
use crate::ui::session::{
    is_line, joined_lines, split_off, to_join, to_split, AccountSession, LINE_COUNT,
};

verus! {

/// How long a line stays open without a number being dialled.
pub const DIAL_TIMEOUT_MS: u64 = 8000;

/// Whether nothing has changed but the selected account, which is another one
/// now.
pub open spec fn account_becomes(b: App, a: App, acc: AccountSession) -> bool {
    a.accounts@ == b.accounts@.update(b.selected_account as int, acc)
}

/// What opening a line takes: a dial tone, and a limit on how long it is open.
pub open spec fn to_open(account: usize, line: u8) -> Seq<Effect> {
    seq![
        Effect::Tone(ToneCue::Dial),
        Effect::Later { millis: DIAL_TIMEOUT_MS, timer: Timer::LineIdle { account, line } },
    ]
}

/// What pressing the button of the selected line does: an idle line is opened,
/// or closed again.
pub open spec fn on_reselect(b: App, now: Moment, a: App, out: Seq<Effect>) -> bool {
    let acc = b.session();
    if acc.line().call is Idle {
        let opens = !acc.line_open;
        &&& a == (App { accounts: a.accounts, dial_input: a.dial_input, error: None, ..b })
        &&& account_becomes(
            b,
            a,
            AccountSession {
                line_open: opens,
                line_open_at: if opens {
                    Some(now.millis)
                } else {
                    None
                },
                ..acc
            },
        )
        &&& a.dial_input@ == if opens {
            b.dial_input@
        } else {
            Seq::empty()
        }
        &&& out == if opens {
            to_open(b.selected_account, acc.selected_line)
        } else {
            seq![Effect::Tone(ToneCue::StopLine)]
        }
    } else {
        ignored(b, a, out)
    }
}

/// What leaving the selected line takes: a live call on its own is held, and
/// the tone of an open line ends.
pub open spec fn to_leave(acc: AccountSession, account: usize) -> Seq<Effect> {
    acc.to_hold(account) + only_if(
        acc.line_open && acc.line().call is Idle,
        Effect::Tone(ToneCue::StopLine),
    )
}

/// What switching to another line does: what was selected is left, a call on
/// hold on the other line is resumed, and an idle line is opened.
pub open spec fn on_switch(b: App, line: u8, now: Moment, a: App, out: Seq<Effect>) -> bool {
    let acc = b.session();
    let there = AccountSession { selected_line: line, ..acc };
    let opens = there.line().call is Idle;
    &&& a == (App { accounts: a.accounts, dial_input: a.dial_input, error: None, ..b })
    &&& a.dial_input@.len() == 0
    &&& account_becomes(
        b,
        a,
        if opens {
            AccountSession { line_open: true, line_open_at: Some(now.millis), ..there }
        } else {
            there
        },
    )
    &&& out == to_leave(acc, b.selected_account) + if opens {
        to_open(b.selected_account, line)
    } else {
        there.to_resume(b.selected_account)
    }
}

/// What picking the line to join another with does.
pub open spec fn on_pick(b: App, initiator: u8, line: u8, a: App, out: Seq<Effect>) -> bool {
    let acc = AccountSession { pending_join: None, ..b.session() };
    if line == initiator {
        &&& a == (App { accounts: a.accounts, ..b })
        &&& account_becomes(b, a, acc)
        &&& out == Seq::<Effect>::empty()
    } else if acc.lines@[line - 1].call is Active {
        &&& a == (App { accounts: a.accounts, error: None, ..b })
        &&& account_becomes(b, a, a.session())
        &&& a.session() == (AccountSession {
            lines: a.session().lines,
            selected_line: initiator,
            ..acc
        })
        &&& a.session().lines@ == joined_lines(acc.lines@, initiator, line)
        &&& out == to_join(acc.lines@, b.selected_account, initiator, line)
    } else {
        &&& a == (App { accounts: a.accounts, error: a.error, ..b })
        &&& opt_text(a.error) == Some("pick another active call to join"@)
        &&& account_becomes(b, a, acc)
        &&& out == Seq::<Effect>::empty()
    }
}

/// Whether a line can be selected: its number is a line's, unless no line
/// waits to be joined, when numbers beyond the last line do nothing.
pub open spec fn selectable(b: App, line: u8) -> bool {
    line >= 1 && (b.has_account() && b.session().pending_join is Some ==> is_line(line))
}

/// What selecting a line does.
pub open spec fn on_select(b: App, line: u8, now: Moment, a: App, out: Seq<Effect>) -> bool {
    if !b.has_account() {
        ignored(b, a, out)
    } else {
        match b.session().pending_join {
            Some(initiator) => on_pick(b, initiator, line, a, out),
            None => if !is_line(line) {
                ignored(b, a, out)
            } else if line == b.session().selected_line {
                on_reselect(b, now, a, out)
            } else {
                on_switch(b, line, now, a, out)
            },
        }
    }
}

/// What the button for another call does: the first other idle line is
/// selected.
pub open spec fn on_add_call(b: App, now: Moment, a: App, out: Seq<Effect>) -> bool {
    if !b.has_account() {
        ignored(b, a, out)
    } else {
        match b.session().free_from(0) {
            Some(line) => on_select(b, line, now, a, out),
            None => errs(b, a, "all lines are busy"@) && out == Seq::<Effect>::empty(),
        }
    }
}

/// What the join button does: the selected line waits for another one to be
/// picked, or no longer does.
pub open spec fn on_join_pressed(b: App, a: App, out: Seq<Effect>) -> bool {
    let acc = b.session();
    if !b.has_account() {
        ignored(b, a, out)
    } else if acc.pending_join is Some {
        &&& a == (App { accounts: a.accounts, ..b })
        &&& account_becomes(b, a, AccountSession { pending_join: None, ..acc })
        &&& out == Seq::<Effect>::empty()
    } else if !(acc.line().call is Active) || acc.line().joined is Some {
        ignored(b, a, out)
    } else if acc.other_active() {
        &&& a == (App { accounts: a.accounts, ..b })
        &&& account_becomes(
            b,
            a,
            AccountSession { pending_join: Some(acc.selected_line), ..acc },
        )
        &&& out == Seq::<Effect>::empty()
    } else {
        errs(b, a, "no other active call to join"@) && out == Seq::<Effect>::empty()
    }
}

/// What the split button does: the selected line leaves its pair, and both
/// calls go on.
pub open spec fn on_split_pressed(b: App, a: App, out: Seq<Effect>) -> bool {
    let acc = b.session();
    if !b.has_account() {
        ignored(b, a, out)
    } else {
        match acc.line().joined {
            Some(partner) => {
                &&& a == (App { accounts: a.accounts, ..b })
                &&& account_becomes(b, a, a.session())
                &&& a.session() == (AccountSession { lines: a.session().lines, ..acc })
                &&& a.session().lines@ == split_off(acc.lines@, acc.at())
                &&& out == to_split(acc.lines@, b.selected_account, acc.selected_line, partner)
            },
            None => ignored(b, a, out),
        }
    }
}

/// What happens when a line was open for too long: it is closed and sounds so,
/// if it is still selected and open and nothing was typed.
pub open spec fn on_idle_timeout(b: App, account: usize, line: u8, a: App, out: Seq<Effect>) -> bool {
    let acc = b.session();
    if b.has_account() && account == b.selected_account && acc.selected_line == line
        && acc.line_open && b.dial_input@.len() == 0 && acc.line().call is Idle {
        &&& a == (App { accounts: a.accounts, ..b })
        &&& account_becomes(b, a, AccountSession { line_open: false, line_open_at: None, ..acc })
        &&& out == seq![Effect::Tone(ToneCue::Reorder)]
    } else {
        ignored(b, a, out)
    }
}

/// What switching to another account does: what was selected is left, and a
/// call on hold on the other account's line is resumed.
pub open spec fn on_account_switched(b: App, index: usize, a: App, out: Seq<Effect>) -> bool {
    if index == b.selected_account || index >= b.accounts@.len() {
        ignored(b, a, out)
    } else {
        &&& a == (App {
            selected_account: index,
            dial_input: a.dial_input,
            error: None,
            ..b
        })
        &&& a.dial_input@.len() == 0
        &&& out == to_leave(b.session(), b.selected_account) + b.accounts@[index as int].to_resume(
            index,
        )
    }
}

impl App {
    fn leave_line(&self, out: &mut Vec<Effect>)
        requires
            self.wf(),
            self.has_account(),
        ensures
            final(out)@ == old(out)@ + to_leave(self.session(), self.selected_account),
    {
        let account: usize = self.selected_account;
        proof {
            assert(self.accounts@[account as int].wf());
        }
        self.accounts[account].hold_current_if_live(account, out);
        if self.accounts[account].line_open && self.accounts[account].selected_call().is_idle() {
            out.push(Effect::Tone(ToneCue::StopLine));
        }
        proof {
            let acc = self.session();
            assert(out@ =~= old(out)@ + to_leave(acc, account));
        }
    }

    fn push_open(account: usize, line: u8, out: &mut Vec<Effect>)
        ensures
            final(out)@ == old(out)@ + to_open(account, line),
    {
        out.push(Effect::Tone(ToneCue::Dial));
        out.push(
            Effect::Later { millis: DIAL_TIMEOUT_MS, timer: Timer::LineIdle { account, line } },
        );
        proof {
            assert(out@ =~= old(out)@ + to_open(account, line));
        }
    }

    fn reselect(&mut self, now: Moment) -> (out: Vec<Effect>)
        requires
            old(self).wf(),
            old(self).has_account(),
        ensures
            final(self).wf(),
            on_reselect(*old(self), now, *final(self), out@),
    {
        let ghost b = *self;
        let account: usize = self.selected_account;
        let mut out: Vec<Effect> = Vec::new();
        proof {
            assert(self.accounts@[account as int].wf());
        }
        if !self.accounts[account].selected_call().is_idle() {
            return out;
        }
        let line: u8 = self.accounts[account].selected_line;
        let opens = !self.accounts[account].line_open;
        self.accounts[account].line_open = opens;
        self.accounts[account].line_open_at = if opens {
            Some(now.millis)
        } else {
            None
        };
        if opens {
            Self::push_open(account, line, &mut out);
        } else {
            out.push(Effect::Tone(ToneCue::StopLine));
            self.dial_input = String::new();
        }
        self.error = None;
        proof {
            assert(self.accounts@ =~= b.accounts@.update(
                account as int,
                self.accounts@[account as int],
            ));
            one_account_changed(b.accounts@, self.accounts@, account as int);
            assert(opens ==> out@ =~= to_open(account, line));
        }
        out
    }

    fn switch_line(&mut self, line: u8, now: Moment) -> (out: Vec<Effect>)
        requires
            old(self).wf(),
            old(self).has_account(),
            is_line(line),
            line != old(self).session().selected_line,
        ensures
            final(self).wf(),
            on_switch(*old(self), line, now, *final(self), out@),
    {
        let ghost b = *self;
        let account: usize = self.selected_account;
        let mut out: Vec<Effect> = Vec::new();
        proof {
            assert(self.accounts@[account as int].wf());
        }
        self.leave_line(&mut out);
        proof {
            assert(out@ =~= to_leave(b.session(), account));
        }
        self.accounts[account].selected_line = line;
        self.dial_input = String::new();
        self.error = None;
        proof {
            assert(self.accounts@[account as int].wf());
        }
        if self.accounts[account].selected_call().is_idle() {
            self.accounts[account].line_open = true;
            self.accounts[account].line_open_at = Some(now.millis);
            Self::push_open(account, line, &mut out);
        } else {
            self.accounts[account].resume_current_if_held(account, &mut out);
        }
        proof {
            assert(self.accounts@ =~= b.accounts@.update(
                account as int,
                self.accounts@[account as int],
            ));
            one_account_changed(b.accounts@, self.accounts@, account as int);
        }
        out
    }

    fn pick_line(&mut self, initiator: u8, line: u8) -> (out: Vec<Effect>)
        requires
            old(self).wf(),
            old(self).has_account(),
            is_line(line),
            old(self).session().pending_join == Some(initiator),
        ensures
            final(self).wf(),
            on_pick(*old(self), initiator, line, *final(self), out@),
    {
        let ghost b = *self;
        let account: usize = self.selected_account;
        let mut out: Vec<Effect> = Vec::new();
        proof {
            assert(self.accounts@[account as int].wf());
        }
        self.accounts[account].pending_join = None;
        proof {
            one_account_changed(b.accounts@, self.accounts@, account as int);
        }
        if line != initiator {
            let active = self.accounts[account].lines[(line - 1) as usize].call.is_active();
            if active {
                let _ = self.accounts[account].complete_join(account, initiator, line, &mut out);
                self.error = None;
                proof {
                    assert(out@ =~= to_join(
                        b.session().lines@,
                        account,
                        initiator,
                        line,
                    ));
                }
            } else {
                self.error = Some(copy_text("pick another active call to join"));
            }
            proof {
                assert(self.accounts@ =~= b.accounts@.update(
                    account as int,
                    self.accounts@[account as int],
                ));
                one_account_changed(b.accounts@, self.accounts@, account as int);
            }
        }
        out
    }

    /// Selects a line.
    pub fn select_line(&mut self, line: u8, now: Moment) -> (out: Vec<Effect>)
        requires
            old(self).wf(),
            selectable(*old(self), line),
        ensures
            final(self).wf(),
            on_select(*old(self), line, now, *final(self), out@),
    {
        let account: usize = self.selected_account;
        if account >= self.accounts.len() {
            return Vec::new();
        }
        proof {
            assert(self.accounts@[account as int].wf());
        }
        if let Some(initiator) = self.accounts[account].pending_join {
            return self.pick_line(initiator, line);
        }
        if line as usize > LINE_COUNT {
            return Vec::new();
        }
        if line == self.accounts[account].selected_line {
            self.reselect(now)
        } else {
            self.switch_line(line, now)
        }
    }

    /// Selects the first other idle line.
    pub fn handle_add_call(&mut self, now: Moment) -> (out: Vec<Effect>)
        requires
            old(self).wf(),
        ensures
            final(self).wf(),
            on_add_call(*old(self), now, *final(self), out@),
    {
        let account: usize = self.selected_account;
        if account >= self.accounts.len() {
            return Vec::new();
        }
        proof {
            assert(self.accounts@[account as int].wf());
        }
        match self.accounts[account].other_free_line() {
            Some(line) => self.select_line(line, now),
            None => {
                self.error = Some(copy_text("all lines are busy"));
                Vec::new()
            },
        }
    }

    /// Makes the selected line wait for another one to be joined with, or no
    /// longer wait.
    pub fn handle_join_pressed(&mut self) -> (out: Vec<Effect>)
        requires
            old(self).wf(),
        ensures
            final(self).wf(),
            on_join_pressed(*old(self), *final(self), out@),
    {
        let ghost b = *self;
        let account: usize = self.selected_account;
        if account >= self.accounts.len() {
            return Vec::new();
        }
        proof {
            assert(self.accounts@[account as int].wf());
        }
        if self.accounts[account].pending_join.is_some() {
            self.accounts[account].pending_join = None;
            proof {
                one_account_changed(b.accounts@, self.accounts@, account as int);
            }
            return Vec::new();
        }
        let idx: usize = self.accounts[account].selected_idx();
        if !self.accounts[account].lines[idx].call.is_active()
            || self.accounts[account].lines[idx].joined.is_some() {
            return Vec::new();
        }
        if self.accounts[account].has_other_active() {
            let line: u8 = self.accounts[account].selected_line;
            self.accounts[account].pending_join = Some(line);
            proof {
                one_account_changed(b.accounts@, self.accounts@, account as int);
            }
        } else {
            self.error = Some(copy_text("no other active call to join"));
        }
        Vec::new()
    }

    /// Splits the selected line off its partner.
    pub fn handle_split_pressed(&mut self) -> (out: Vec<Effect>)
        requires
            old(self).wf(),
        ensures
            final(self).wf(),
            on_split_pressed(*old(self), *final(self), out@),
    {
        let ghost b = *self;
        let account: usize = self.selected_account;
        let mut out: Vec<Effect> = Vec::new();
        if account >= self.accounts.len() {
            return out;
        }
        proof {
            assert(self.accounts@[account as int].wf());
        }
        let idx: usize = self.accounts[account].selected_idx();
        if let Some(partner) = self.accounts[account].lines[idx].joined {
            let line: u8 = self.accounts[account].selected_line;
            self.accounts[account].split_join(account, line, partner, &mut out);
            proof {
                assert(out@ =~= to_split(b.session().lines@, account, line, partner));
                one_account_changed(b.accounts@, self.accounts@, account as int);
            }
        }
        out
    }

    /// Closes a line that was open for too long.
    pub fn handle_idle_timeout(&mut self, account: usize, line: u8) -> (out: Vec<Effect>)
        requires
            old(self).wf(),
        ensures
            final(self).wf(),
            on_idle_timeout(*old(self), account, line, *final(self), out@),
    {
        let ghost b = *self;
        let mut out: Vec<Effect> = Vec::new();
        if account != self.selected_account || account >= self.accounts.len() {
            return out;
        }
        proof {
            assert(self.accounts@[account as int].wf());
        }
        if self.accounts[account].selected_line == line && self.accounts[account].line_open
            && chars(self.dial_input.as_str()).len() == 0
            && self.accounts[account].selected_call().is_idle() {
            self.accounts[account].line_open = false;
            self.accounts[account].line_open_at = None;
            out.push(Effect::Tone(ToneCue::Reorder));
            proof {
                assert(self.accounts@ =~= b.accounts@.update(
                    account as int,
                    self.accounts@[account as int],
                ));
                one_account_changed(b.accounts@, self.accounts@, account as int);
            }
        }
        out
    }

    /// Selects another account.
    pub fn handle_account_switched(&mut self, index: usize) -> (out: Vec<Effect>)
        requires
            old(self).wf(),
        ensures
            final(self).wf(),
            on_account_switched(*old(self), index, *final(self), out@),
    {
        let ghost b = *self;
        let mut out: Vec<Effect> = Vec::new();
        if index == self.selected_account || index >= self.accounts.len() {
            return out;
        }
        proof {
            assert(self.accounts@[index as int].wf());
        }
        self.leave_line(&mut out);
        proof {
            assert(out@ =~= to_leave(b.session(), b.selected_account));
        }
        self.selected_account = index;
        self.dial_input = String::new();
        self.error = None;
        self.accounts[index].resume_current_if_held(index, &mut out);
        out
    }
}

} // verus!
