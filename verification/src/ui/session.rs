//! An account in use: whether it is registered, and its lines.

use vstd::prelude::*;

use crate::signaling::config::SipAccountConfig;
use crate::signaling::events::{CallId, CoreCommand, RemoteMediaInfo};
use crate::text::{opt_text, same_text};
use crate::ui::effect::{only_if, Effect};
use crate::ui::history::CallDirection;

verus! {

/// How many lines an account has.
pub const LINE_COUNT: usize = 5;

/// The position of a line, by its number.
pub open spec fn position(line: u8) -> int {
    if line == 0 {
        0
    } else {
        line - 1
    }
}

/// The position of a line, by its number.
pub fn line_idx(line: u8) -> (r: usize)
    ensures
        r == position(line),
{
    if line == 0 {
        0
    } else {
        (line - 1) as usize
    }
}

/// The number of a line, by its position.
pub fn idx_line(idx: usize) -> (r: u8)
    requires
        idx < u8::MAX,
    ensures
        r == idx + 1,
{
    (idx + 1) as u8
}

/// Whether there is a line of that number.
pub open spec fn is_line(line: u8) -> bool {
    1 <= line <= LINE_COUNT
}

/// Whether an account is registered. Moments are in milliseconds of a clock
/// that never goes back.
#[derive(Debug)]
pub enum RegistrationStatus {
    Connecting,
    Registered { expires: u32, registered_at: u64, rtt_ms: u32 },
    Failed { reason: String },
}

/// A call that was answered.
#[derive(Debug)]
pub struct ActiveCall {
    pub id: CallId,
    pub number: String,
    pub direction: CallDirection,
    /// Whether its audio runs.
    pub media: bool,
    /// The payload type of telephone events, if both sides agreed on them.
    pub telephone_event_pt: Option<u8>,
    /// The digits that were sent.
    pub dtmf_feedback: Vec<char>,
    pub answered_at: u64,
    pub muted: bool,
    /// The volumes, each the bits of a single-precision number.
    pub output_volume: u32,
    pub input_volume: u32,
    pub on_hold: bool,
    /// The output volume to go back to once the call is resumed.
    pub pre_hold_output_volume: u32,
    /// The number to transfer to, while it is being typed.
    pub transfer_input: Option<String>,
    /// The digits and pauses yet to be sent.
    pub post_dial: Vec<char>,
}

/// What goes on on a line.
#[derive(Debug)]
pub enum CallUiState {
    Idle,
    Incoming { id: CallId, caller: String, offer: RemoteMediaInfo, ringing_since: u64 },
    /// `ringing` while the other side rings and sends no audio yet.
    Outgoing { id: CallId, number: String, started_at: u64, ringing: bool },
    Active(ActiveCall),
}

/// Full volume: the bits of one.
pub const UNIT_GAIN: u32 = 0x3f80_0000;

/// Silence: the bits of zero.
pub const ZERO_GAIN: u32 = 0;

impl CallUiState {
    /// The call on the line.
    pub open spec fn id(self) -> Option<Seq<char>> {
        match self {
            CallUiState::Idle => None,
            CallUiState::Incoming { id, .. } => Some(id@),
            CallUiState::Outgoing { id, .. } => Some(id@),
            CallUiState::Active(call) => Some(call.id@),
        }
    }

    /// Whether the line is free.
    pub fn is_idle(&self) -> (r: bool)
        ensures
            r == (*self is Idle),
    {
        match self {
            CallUiState::Idle => true,
            _ => false,
        }
    }

    /// Whether the line holds an answered call.
    pub fn is_active(&self) -> (r: bool)
        ensures
            r == (*self is Active),
    {
        match self {
            CallUiState::Active(_) => true,
            _ => false,
        }
    }

    /// Whether the line holds a given call.
    pub fn has_id(&self, wanted: &str) -> (r: bool)
        ensures
            r == (self.id() == Some(wanted@)),
    {
        match self {
            CallUiState::Idle => false,
            CallUiState::Incoming { id, .. } => same_text(id.as_str(), wanted),
            CallUiState::Outgoing { id, .. } => same_text(id.as_str(), wanted),
            CallUiState::Active(call) => same_text(call.id.as_str(), wanted),
        }
    }

    /// Whether the line holds an answered call whose audio runs.
    pub open spec fn plays(self) -> bool {
        self matches CallUiState::Active(call) && call.media
    }

    /// Whether the line holds an answered call whose audio runs.
    pub fn has_media(&self) -> (r: bool)
        ensures
            r == self.plays(),
    {
        match self {
            CallUiState::Active(call) => call.media,
            _ => false,
        }
    }
}

/// A line.
#[derive(Debug)]
pub struct Line {
    pub call: CallUiState,
    /// The line that this one is joined with.
    pub joined: Option<u8>,
    /// Whether a local port is reserved for the call that is being set up.
    pub reserved: bool,
    /// The digits to send once the call that is being set up is answered.
    pub pending_post_dial: String,
    /// The number that is being called.
    pub pending_number: String,
    /// How the last call ended; nothing while a new one goes on.
    pub last_call_status: Option<String>,
}

impl Line {
    /// Whether the line is as it is before the first call.
    pub open spec fn fresh(self) -> bool {
        &&& self.call is Idle
        &&& self.joined is None
        &&& !self.reserved
        &&& self.pending_post_dial@.len() == 0
        &&& self.pending_number@.len() == 0
        &&& self.last_call_status is None
    }

    /// A line before the first call.
    pub fn new() -> (r: Self)
        ensures
            r.fresh(),
    {
        Line {
            call: CallUiState::Idle,
            joined: None,
            reserved: false,
            pending_post_dial: String::new(),
            pending_number: String::new(),
            last_call_status: None,
        }
    }
}

/// An account in use.
#[derive(Debug)]
pub struct AccountSession {
    pub config: SipAccountConfig,
    pub registration: RegistrationStatus,
    pub lines: Vec<Line>,
    pub selected_line: u8,
    /// Whether the selected line was opened while it is idle.
    pub line_open: bool,
    pub line_open_at: Option<u64>,
    /// The line that waits for another to be joined with.
    pub pending_join: Option<u8>,
}

/// Whether lines are joined in pairs: each joined line names another one, which
/// names it back.
pub open spec fn paired(lines: Seq<Line>) -> bool {
    forall|i: int|
        0 <= i < lines.len() ==> (#[trigger] lines[i].joined matches Some(p) ==> {
            &&& is_line(p)
            &&& p - 1 != i
            &&& p - 1 < lines.len()
            &&& lines[p - 1].joined == Some((i + 1) as u8)
        })
}

/// Whether two sets of lines are joined in the same way.
pub open spec fn same_joins(a: Seq<Line>, b: Seq<Line>) -> bool {
    &&& a.len() == b.len()
    &&& forall|i: int| 0 <= i < a.len() ==> #[trigger] a[i].joined == b[i].joined
}

impl AccountSession {
    /// Whether the account is in order: it has its lines, one of them is
    /// selected, they are joined in pairs, a line that waits for another is one
    /// of them, and it is known since when a line is open exactly if one is.
    pub open spec fn wf(self) -> bool {
        &&& self.lines@.len() == LINE_COUNT
        &&& self.line_open == (self.line_open_at is Some)
        &&& is_line(self.selected_line)
        &&& paired(self.lines@)
        &&& (self.pending_join matches Some(p) ==> is_line(p))
    }

    /// The position of the selected line.
    pub open spec fn at(self) -> int {
        position(self.selected_line)
    }

    /// The selected line.
    pub open spec fn line(self) -> Line {
        self.lines@[self.at()]
    }

    /// An account that is about to connect.
    pub open spec fn starts_with(self, config: SipAccountConfig) -> bool {
        &&& self.config == config
        &&& self.registration is Connecting
        &&& self.lines@.len() == LINE_COUNT
        &&& forall|i: int| 0 <= i < LINE_COUNT ==> (#[trigger] self.lines@[i]).fresh()
        &&& self.selected_line == 1
        &&& !self.line_open
        &&& self.line_open_at is None
        &&& self.pending_join is None
    }

    /// An account that is about to connect.
    pub fn new(config: SipAccountConfig) -> (r: Self)
        ensures
            r.starts_with(config),
            r.wf(),
    {
        let mut lines: Vec<Line> = Vec::new();
        let mut i: usize = 0;
        while i < LINE_COUNT
            invariant
                i <= LINE_COUNT,
                lines@.len() == i,
                forall|k: int| 0 <= k < i ==> (#[trigger] lines@[k]).fresh(),
            decreases LINE_COUNT - i,
        {
            lines.push(Line::new());
            i += 1;
        }
        AccountSession {
            config,
            registration: RegistrationStatus::Connecting,
            lines,
            selected_line: 1,
            line_open: false,
            line_open_at: None,
            pending_join: None,
        }
    }

    /// The position of the selected line.
    pub fn selected_idx(&self) -> (r: usize)
        requires
            self.wf(),
        ensures
            r == self.at(),
            r < LINE_COUNT,
    {
        line_idx(self.selected_line)
    }

    /// What goes on on the selected line.
    pub fn selected_call(&self) -> (r: &CallUiState)
        requires
            self.wf(),
        ensures
            *r == self.line().call,
    {
        &self.lines[self.selected_idx()].call
    }

    /// What holding the selected line takes: nothing unless it holds a call
    /// that is live and on its own.
    pub open spec fn to_hold(self, account: usize) -> Seq<Effect> {
        match self.line().call {
            CallUiState::Active(call) => only_if(
                self.line().joined is None && !call.on_hold,
                Effect::Send { account, command: CoreCommand::HoldCall(call.id) },
            ),
            _ => Seq::empty(),
        }
    }

    /// Holds the selected line if it holds a call that is live and on its own.
    pub fn hold_current_if_live(&self, account: usize, out: &mut Vec<Effect>)
        requires
            self.wf(),
        ensures
            final(out)@ == old(out)@ + self.to_hold(account),
    {
        let idx: usize = self.selected_idx();
        match &self.lines[idx].call {
            CallUiState::Active(call) => {
                if self.lines[idx].joined.is_none() && !call.on_hold {
                    out.push(
                        Effect::Send { account, command: CoreCommand::HoldCall(call.id.clone()) },
                    );
                }
            },
            _ => {},
        }
        proof {
            assert(out@ =~= old(out)@ + self.to_hold(account));
        }
    }

    /// What resuming the selected line takes: nothing unless it holds a call
    /// that is on hold and on its own.
    pub open spec fn to_resume(self, account: usize) -> Seq<Effect> {
        match self.line().call {
            CallUiState::Active(call) => only_if(
                self.line().joined is None && call.on_hold,
                Effect::Send { account, command: CoreCommand::ResumeCall(call.id) },
            ),
            _ => Seq::empty(),
        }
    }

    /// Resumes the selected line if it holds a call that is on hold and on its
    /// own.
    pub fn resume_current_if_held(&self, account: usize, out: &mut Vec<Effect>)
        requires
            self.wf(),
        ensures
            final(out)@ == old(out)@ + self.to_resume(account),
    {
        let idx: usize = self.selected_idx();
        match &self.lines[idx].call {
            CallUiState::Active(call) => {
                if self.lines[idx].joined.is_none() && call.on_hold {
                    out.push(
                        Effect::Send { account, command: CoreCommand::ResumeCall(call.id.clone()) },
                    );
                }
            },
            _ => {},
        }
        proof {
            assert(out@ =~= old(out)@ + self.to_resume(account));
        }
    }

    /// The position of the first line that holds a call.
    pub fn line_index_for_call(&self, call_id: &str) -> (r: Option<usize>)
        ensures
            match r {
                Some(idx) => line_with(self.lines@, call_id@) == Some(idx as int) && idx
                    < self.lines@.len() && self.lines@[idx as int].call.id() == Some(call_id@),
                None => line_with(self.lines@, call_id@) is None,
            },
    {
        let mut i: usize = 0;
        while i < self.lines.len()
            invariant
                i <= self.lines@.len(),
                line_with(self.lines@, call_id@) == line_with_from(
                    self.lines@,
                    call_id@,
                    i as int,
                ),
            decreases self.lines.len() - i,
        {
            if self.lines[i].call.has_id(call_id) {
                return Some(i);
            }
            i += 1;
        }
        None
    }

    /// The account when a line has left its pair.
    pub open spec fn unjoined(self, idx: int, after: AccountSession) -> bool {
        &&& after == (AccountSession {
            lines: after.lines,
            pending_join: if self.pending_join == Some((idx + 1) as u8) {
                None
            } else {
                self.pending_join
            },
            ..self
        })
        &&& after.lines@ == split_off(self.lines@, idx)
    }

    /// Takes a line out of its pair.
    fn leave_pair(&mut self, account: usize, idx: usize, out: &mut Vec<Effect>)
        requires
            old(self).wf(),
            idx < LINE_COUNT,
        ensures
            *final(self) == (AccountSession { lines: final(self).lines, ..*old(self) }),
            final(self).lines@ == split_off(old(self).lines@, idx as int),
            final(self).wf(),
            final(out)@ == old(out)@ + to_unjoin(old(self).lines@, account, idx as int),
    {
        proof {
            split_keeps_pairs(self.lines@, idx as int);
        }
        let ghost before = self.lines@;
        let joined: Option<u8> = self.lines[idx].joined;
        if let Some(partner_line) = joined {
            let partner: usize = line_idx(partner_line);
            if self.lines[partner].call.has_media() {
                out.push(Effect::Unjoin { account, idx: partner });
            }
            self.lines[idx].joined = None;
            self.lines[partner].joined = None;
        }
        proof {
            assert(self.lines@ =~= split_off(before, idx as int));
            assert(out@ =~= old(out)@ + to_unjoin(before, account, idx as int));
        }
    }

    /// Takes a line out of its pair, because its call goes away.
    pub fn unjoin_line(&mut self, account: usize, idx: usize, out: &mut Vec<Effect>)
        requires
            old(self).wf(),
            idx < LINE_COUNT,
        ensures
            old(self).unjoined(idx as int, *final(self)),
            final(self).wf(),
            final(out)@ == old(out)@ + to_unjoin(old(self).lines@, account, idx as int),
    {
        self.leave_pair(account, idx, out);
        if let Some(line) = self.pending_join {
            if line == idx_line(idx) {
                self.pending_join = None;
            }
        }
    }

    /// Whether a line has left its pair and become idle, and `status` says how
    /// its call ended.
    pub open spec fn quieted(self, idx: int, status: Option<Seq<char>>, after: AccountSession) -> bool {
        let apart = split_off(self.lines@, idx);
        &&& after == (AccountSession {
            lines: after.lines,
            pending_join: if self.pending_join == Some((idx + 1) as u8) {
                None
            } else {
                self.pending_join
            },
            ..self
        })
        &&& after.lines@ == apart.update(idx, after.lines@[idx])
        &&& after.lines@[idx] == (Line {
            call: CallUiState::Idle,
            reserved: false,
            last_call_status: after.lines@[idx].last_call_status,
            ..apart[idx]
        })
        &&& opt_text(after.lines@[idx].last_call_status) == status
    }

    /// Takes a line out of its pair and makes it idle.
    pub fn quiet(&mut self, account: usize, idx: usize, status: Option<String>, out: &mut Vec<Effect>)
        requires
            old(self).wf(),
            idx < LINE_COUNT,
        ensures
            final(self).wf(),
            old(self).quieted(idx as int, opt_text(status), *final(self)),
            final(out)@ == old(out)@ + to_unjoin(old(self).lines@, account, idx as int),
    {
        self.unjoin_line(account, idx, out);
        let ghost apart = self.lines@;
        self.lines[idx].call = CallUiState::Idle;
        self.lines[idx].reserved = false;
        self.lines[idx].last_call_status = status;
        proof {
            assert(self.lines@ =~= apart.update(idx as int, self.lines@[idx as int]));
            joins_decide(self.lines@, apart);
        }
    }

    /// Joins two lines: each leaves the pair it was in, a call on hold is
    /// resumed, and the audio of the two is connected, if it runs. The second
    /// line has to hold an answered call; otherwise nothing changes.
    pub fn complete_join(&mut self, account: usize, a: u8, b: u8, out: &mut Vec<Effect>) -> (r: bool)
        requires
            old(self).wf(),
            is_line(a),
            is_line(b),
            a != b,
        ensures
            final(self).wf(),
            r == (old(self).lines@[b - 1].call is Active),
            !r ==> *final(self) == *old(self) && final(out)@ == old(out)@,
            r ==> {
                &&& *final(self) == (AccountSession {
                    lines: final(self).lines,
                    selected_line: a,
                    ..*old(self)
                })
                &&& final(self).lines@ == joined_lines(old(self).lines@, a, b)
                &&& final(out)@ == old(out)@ + to_join(old(self).lines@, account, a, b)
            },
    {
        let a_idx: usize = line_idx(a);
        let b_idx: usize = line_idx(b);
        if !self.lines[b_idx].call.is_active() {
            return false;
        }
        let ghost before = self.lines@;
        proof {
            split_keeps_pairs(before, a_idx as int);
            split_keeps_pairs(split_off(before, a_idx as int), b_idx as int);
        }
        self.leave_pair(account, a_idx, out);
        self.leave_pair(account, b_idx, out);
        let ghost apart = self.lines@;
        proof {
            join_keeps_pairs(before, a, b);
            assert(apart[a_idx as int].call == before[a_idx as int].call);
            assert(apart[b_idx as int].call == before[b_idx as int].call);
        }
        self.connect(account, a_idx, b_idx, out);
        self.set_partners(a, b);
        proof {
            seq_sum(
                old(out)@,
                to_unjoin(before, account, a - 1),
                to_unjoin(split_off(before, a - 1), account, b - 1),
                to_connect(before[a - 1].call, before[b - 1].call, account, a, b),
            );
        }
        true
    }

    /// Records that two lines are joined, and selects the first.
    fn set_partners(&mut self, a: u8, b: u8)
        requires
            old(self).lines@.len() == LINE_COUNT,
            is_line(a),
            is_line(b),
            a != b,
        ensures
            *final(self) == (AccountSession {
                lines: final(self).lines,
                selected_line: a,
                ..*old(self)
            }),
            final(self).lines@ == with_partners(old(self).lines@, a, b),
    {
        let ghost before = self.lines@;
        let a_idx: usize = line_idx(a);
        let b_idx: usize = line_idx(b);
        self.lines[a_idx].joined = Some(b);
        self.lines[b_idx].joined = Some(a);
        self.selected_line = a;
        proof {
            assert(self.lines@ =~= with_partners(before, a, b));
        }
    }

    /// Resumes two calls where they are on hold, and connects their audio,
    /// where it runs.
    fn connect(&self, account: usize, a_idx: usize, b_idx: usize, out: &mut Vec<Effect>)
        requires
            self.lines@.len() == LINE_COUNT,
            a_idx < LINE_COUNT,
            b_idx < LINE_COUNT,
        ensures
            final(out)@ == old(out)@ + to_connect(
                self.lines@[a_idx as int].call,
                self.lines@[b_idx as int].call,
                account,
                (a_idx + 1) as u8,
                (b_idx + 1) as u8,
            ),
    {
        self.resume_if_held(account, a_idx, out);
        self.resume_if_held(account, b_idx, out);
        let ghost resumed = out@;
        let ghost both = self.lines@[a_idx as int].call.plays()
            && self.lines@[b_idx as int].call.plays();
        let ghost join = Effect::Join { account, a: a_idx, b: b_idx };
        if self.lines[a_idx].call.has_media() && self.lines[b_idx].call.has_media() {
            out.push(Effect::Join { account, a: a_idx, b: b_idx });
        }
        proof {
            assert(out@ =~= resumed + only_if(both, join));
            seq_sum(
                old(out)@,
                to_resume(self.lines@[a_idx as int].call, account),
                to_resume(self.lines@[b_idx as int].call, account),
                only_if(both, join),
            );
        }
    }

    /// Resumes a line if it holds a call on hold.
    fn resume_if_held(&self, account: usize, idx: usize, out: &mut Vec<Effect>)
        requires
            idx < self.lines@.len(),
        ensures
            final(out)@ == old(out)@ + to_resume(self.lines@[idx as int].call, account),
    {
        match &self.lines[idx].call {
            CallUiState::Active(call) => {
                if call.on_hold {
                    out.push(
                        Effect::Send { account, command: CoreCommand::ResumeCall(call.id.clone()) },
                    );
                }
            },
            _ => {},
        }
        proof {
            assert(out@ =~= old(out)@ + to_resume(self.lines@[idx as int].call, account));
        }
    }

    /// Splits two joined lines: both calls go on, each on its own.
    pub fn split_join(&mut self, account: usize, a: u8, b: u8, out: &mut Vec<Effect>)
        requires
            old(self).wf(),
            is_line(a),
            is_line(b),
            old(self).lines@[a - 1].joined == Some(b),
        ensures
            final(self).wf(),
            *final(self) == (AccountSession { lines: final(self).lines, ..*old(self) }),
            final(self).lines@ == split_off(old(self).lines@, a - 1),
            final(out)@ == old(out)@ + to_split(old(self).lines@, account, a, b),
    {
        let a_idx: usize = line_idx(a);
        let b_idx: usize = line_idx(b);
        let ghost before = self.lines@;
        proof {
            split_keeps_pairs(before, a_idx as int);
        }
        if self.lines[a_idx].call.has_media() && self.lines[b_idx].call.has_media() {
            out.push(Effect::Unjoin { account, idx: a_idx });
            out.push(Effect::Unjoin { account, idx: b_idx });
        }
        self.lines[a_idx].joined = None;
        self.lines[b_idx].joined = None;
        proof {
            assert(self.lines@ =~= split_off(before, a - 1));
            assert(out@ =~= old(out)@ + to_split(before, account, a, b));
        }
    }

    /// Whether another line than the selected one holds an answered call.
    pub open spec fn other_active(self) -> bool {
        exists|i: int|
            0 <= i < LINE_COUNT && i != self.at() && (#[trigger] self.lines@[i]).call is Active
    }

    /// Whether another line than the selected one holds an answered call.
    pub fn has_other_active(&self) -> (r: bool)
        requires
            self.wf(),
        ensures
            r == self.other_active(),
    {
        let at: usize = self.selected_idx();
        let mut i: usize = 0;
        while i < LINE_COUNT
            invariant
                i <= LINE_COUNT,
                self.wf(),
                at == self.at(),
                forall|k: int|
                    0 <= k < i && k != at ==> !((#[trigger] self.lines@[k]).call is Active),
            decreases LINE_COUNT - i,
        {
            if i != at && self.lines[i].call.is_active() {
                return true;
            }
            i += 1;
        }
        false
    }

    /// The first idle line from a position on, other than the selected one.
    pub open spec fn free_from(self, from: int) -> Option<u8>
        decreases LINE_COUNT - from,
    {
        if from < 0 || from >= LINE_COUNT {
            None
        } else if from != self.at() && self.lines@[from].call is Idle {
            Some((from + 1) as u8)
        } else {
            self.free_from(from + 1)
        }
    }

    /// The first idle line other than the selected one.
    pub fn other_free_line(&self) -> (r: Option<u8>)
        requires
            self.wf(),
        ensures
            r == self.free_from(0),
            r matches Some(line) ==> is_line(line) && line != self.selected_line && self.lines@[line
                - 1].call is Idle,
    {
        let at: usize = self.selected_idx();
        let mut i: usize = 0;
        while i < LINE_COUNT
            invariant
                i <= LINE_COUNT,
                self.wf(),
                at == self.at(),
                self.free_from(0) == self.free_from(i as int),
            decreases LINE_COUNT - i,
        {
            if i != at && self.lines[i].call.is_idle() {
                return Some(idx_line(i));
            }
            i += 1;
        }
        None
    }
}

/// What leaving a pair takes: the partner's audio is split off, if it runs.
pub open spec fn to_unjoin(lines: Seq<Line>, account: usize, idx: int) -> Seq<Effect> {
    match lines[idx].joined {
        Some(p) => only_if(
            lines[p - 1].call.plays(),
            Effect::Unjoin { account, idx: (p - 1) as usize },
        ),
        None => Seq::empty(),
    }
}

/// What resuming a call takes, if it is on hold.
pub open spec fn to_resume(call: CallUiState, account: usize) -> Seq<Effect> {
    match call {
        CallUiState::Active(c) => only_if(
            c.on_hold,
            Effect::Send { account, command: CoreCommand::ResumeCall(c.id) },
        ),
        _ => Seq::empty(),
    }
}

/// What connecting the calls of two lines takes: those on hold are resumed,
/// and the audio is connected where it runs on both.
pub open spec fn to_connect(
    first: CallUiState,
    second: CallUiState,
    account: usize,
    a: u8,
    b: u8,
) -> Seq<Effect> {
    to_resume(first, account) + (to_resume(second, account) + only_if(
        first.plays() && second.plays(),
        Effect::Join { account, a: (a - 1) as usize, b: (b - 1) as usize },
    ))
}

/// What joining two lines takes: each leaves the pair it was in, and the two
/// are connected.
pub open spec fn to_join(lines: Seq<Line>, account: usize, a: u8, b: u8) -> Seq<Effect> {
    to_unjoin(lines, account, a - 1) + (to_unjoin(split_off(lines, a - 1), account, b - 1)
        + to_connect(lines[a - 1].call, lines[b - 1].call, account, a, b))
}

/// Appending one after the other or all at once makes no difference.
pub proof fn seq_sum<T>(s: Seq<T>, a: Seq<T>, b: Seq<T>, c: Seq<T>)
    ensures
        s + a + b + c == s + (a + (b + c)),
{
    assert(s + a + b + c =~= s + (a + (b + c)));
}

/// What splitting two joined lines takes.
pub open spec fn to_split(lines: Seq<Line>, account: usize, a: u8, b: u8) -> Seq<Effect> {
    if lines[a - 1].call.plays() && lines[b - 1].call.plays() {
        seq![
            Effect::Unjoin { account, idx: (a - 1) as usize },
            Effect::Unjoin { account, idx: (b - 1) as usize },
        ]
    } else {
        Seq::empty()
    }
}

/// The lines once two of them are joined.
pub open spec fn joined_lines(lines: Seq<Line>, a: u8, b: u8) -> Seq<Line> {
    with_partners(split_off(split_off(lines, a - 1), b - 1), a, b)
}

/// The lines with two of them marked as partners.
pub open spec fn with_partners(lines: Seq<Line>, a: u8, b: u8) -> Seq<Line> {
    lines.update(a - 1, Line { joined: Some(b), ..lines[a - 1] }).update(
        b - 1,
        Line { joined: Some(a), ..lines[b - 1] },
    )
}

/// Lines stay joined in pairs when two of them are joined, the two are then
/// partners, and no call changes.
pub proof fn join_keeps_pairs(lines: Seq<Line>, a: u8, b: u8)
    requires
        paired(lines),
        lines.len() == LINE_COUNT,
        is_line(a),
        is_line(b),
        a != b,
    ensures
        paired(joined_lines(lines, a, b)),
        joined_lines(lines, a, b)[a - 1].joined == Some(b),
        joined_lines(lines, a, b)[b - 1].joined == Some(a),
        forall|i: int|
            0 <= i < LINE_COUNT ==> (#[trigger] joined_lines(lines, a, b)[i]).call
                == lines[i].call,
{
    let once = split_off(lines, a - 1);
    let apart = split_off(once, b - 1);
    split_keeps_pairs(lines, a - 1);
    split_keeps_pairs(once, b - 1);
    let after = joined_lines(lines, a, b);
    assert(apart[a - 1].joined is None);
    assert forall|i: int| 0 <= i < after.len() implies (#[trigger] after[i].joined matches Some(q)
        ==> {
        &&& is_line(q)
        &&& q - 1 != i
        &&& q - 1 < after.len()
        &&& after[q - 1].joined == Some((i + 1) as u8)
    }) by {
        if i != a - 1 && i != b - 1 {
            if let Some(q) = after[i].joined {
                assert(apart[i].joined == Some(q));
                assert(apart[q - 1].joined == Some((i + 1) as u8));
            }
        }
    }
    assert forall|i: int| 0 <= i < LINE_COUNT implies (#[trigger] after[i]).call
        == lines[i].call by {
        assert(apart[i].call == once[i].call);
        assert(once[i].call == lines[i].call);
    }
}

/// Whether lines are joined in pairs depends on how they are joined alone.
pub proof fn joins_decide(a: Seq<Line>, b: Seq<Line>)
    requires
        same_joins(a, b),
        paired(b),
    ensures
        paired(a),
{
    assert forall|i: int| 0 <= i < a.len() implies (#[trigger] a[i].joined matches Some(p) ==> {
        &&& is_line(p)
        &&& p - 1 != i
        &&& p - 1 < a.len()
        &&& a[p - 1].joined == Some((i + 1) as u8)
    }) by {
        assert(a[i].joined == b[i].joined);
        if let Some(p) = a[i].joined {
            assert(a[p - 1].joined == b[p - 1].joined);
        }
    }
}

/// The first line from a position on that holds a call.
pub open spec fn line_with_from(lines: Seq<Line>, id: Seq<char>, from: int) -> Option<int>
    decreases lines.len() - from,
{
    if from < 0 || from >= lines.len() {
        None
    } else if lines[from].call.id() == Some(id) {
        Some(from)
    } else {
        line_with_from(lines, id, from + 1)
    }
}

/// The first line that holds a call.
pub open spec fn line_with(lines: Seq<Line>, id: Seq<char>) -> Option<int> {
    line_with_from(lines, id, 0)
}

/// The lines once one of them has left its pair.
pub open spec fn split_off(lines: Seq<Line>, idx: int) -> Seq<Line> {
    match lines[idx].joined {
        Some(p) => lines.update(idx, Line { joined: None, ..lines[idx] }).update(
            p - 1,
            Line { joined: None, ..lines[p - 1] },
        ),
        None => lines,
    }
}

/// Lines stay joined in pairs when one leaves its pair, and that line is then
/// on its own.
pub proof fn split_keeps_pairs(lines: Seq<Line>, idx: int)
    requires
        paired(lines),
        0 <= idx < lines.len(),
        lines.len() <= LINE_COUNT,
    ensures
        paired(split_off(lines, idx)),
        split_off(lines, idx)[idx].joined is None,
        split_off(lines, idx).len() == lines.len(),
        forall|i: int|
            0 <= i < lines.len() ==> (#[trigger] split_off(lines, idx)[i]).call == lines[i].call,
{
    let after = split_off(lines, idx);
    if let Some(p) = lines[idx].joined {
        assert forall|i: int| 0 <= i < after.len() implies (#[trigger] after[i].joined matches Some(
            q,
        ) ==> {
            &&& is_line(q)
            &&& q - 1 != i
            &&& q - 1 < after.len()
            &&& after[q - 1].joined == Some((i + 1) as u8)
        }) by {
            if let Some(q) = after[i].joined {
                assert(lines[i].joined == Some(q));
                assert(lines[q - 1].joined == Some((i + 1) as u8));
                assert(lines[p - 1].joined == Some((idx + 1) as u8));
            }
        }
    }
}

} // verus!
