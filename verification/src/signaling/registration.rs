//! When to register, and when to stop trying.
//!
//! A registrar that keeps refusing the password is not asked again and again:
//! that looks like an attack, and gets the phone banned.

use vstd::prelude::*;

use crate::signaling::events::{CoreEvent, EventView};
use crate::text::{copy_text, push_all};

verus! {

/// How long to wait after a first failure, and after the password was refused,
/// in seconds.
pub const INITIAL_BACKOFF: u64 = 30;

/// The longest that is waited after another failure, in seconds.
pub const MAX_BACKOFF: u64 = 300;

/// How often in a row the password may be refused.
pub const MAX_CONSECUTIVE_AUTH_FAILURES: u32 = 3;

/// What came of an attempt to register.
#[derive(Debug)]
pub enum Attempt {
    /// An answer: its code, and the code with its reason as a text; and, for
    /// when it was a success, how long the registration holds and how long the
    /// answer took.
    Answer { code: u16, status: String, expires: u32, rtt_ms: u32 },
    /// No answer; the text says why.
    Failed { error: String },
}

/// What came of an attempt, as a plain value.
pub enum AttemptView {
    Answer { code: u16, status: Seq<char>, expires: u32, rtt_ms: u32 },
    Failed { error: Seq<char> },
}

impl View for Attempt {
    type V = AttemptView;

    open spec fn view(&self) -> AttemptView {
        match self {
            Attempt::Answer { code, status, expires, rtt_ms } => AttemptView::Answer {
                code: *code,
                status: status@,
                expires: *expires,
                rtt_ms: *rtt_ms,
            },
            Attempt::Failed { error } => AttemptView::Failed { error: error@ },
        }
    }
}

/// How attempts have gone so far.
#[derive(Debug, Clone, Copy, PartialEq, Eq, Structural)]
pub struct RegistrationState {
    pub consecutive_auth_failures: u32,
    /// How long to wait after the next failure that is no refusal, in seconds.
    pub backoff: u64,
}

/// Twice as long, but no longer than the longest wait.
pub open spec fn grown(backoff: u64) -> u64 {
    if 2 * backoff < MAX_BACKOFF {
        (2 * backoff) as u64
    } else {
        MAX_BACKOFF
    }
}

/// Twice as long, but no longer than the longest wait.
pub fn grow_backoff(current: u64) -> (r: u64)
    requires
        current <= u64::MAX / 2,
    ensures
        r == grown(current),
{
    let twice: u64 = current * 2;
    if twice < MAX_BACKOFF {
        twice
    } else {
        MAX_BACKOFF
    }
}

/// What to do after an attempt.
pub struct Outcome {
    pub state: RegistrationState,
    pub event: EventView,
    /// How long to wait for the next attempt, in seconds; nothing to stop.
    pub retry_after: Option<u64>,
}

/// When to register anew after a success: a quarter of the time before it
/// runs out, and three seconds later at the least.
pub open spec fn renewal(expires: u32) -> u64 {
    ((if expires > 4 {
        expires as int
    } else {
        4
    }) * 3 / 4) as u64
}

/// What to do after an attempt.
pub open spec fn outcome(s: RegistrationState, attempt: AttemptView) -> Outcome {
    match attempt {
        AttemptView::Answer { code, status, expires, rtt_ms } => if code == 200 {
            Outcome {
                state: RegistrationState { consecutive_auth_failures: 0, backoff: INITIAL_BACKOFF },
                event: EventView::Registered { expires, rtt_ms },
                retry_after: Some(renewal(expires)),
            }
        } else if code == 403 {
            Outcome {
                state: s,
                event: EventView::RegistrationHalted {
                    reason: "403 Forbidden \u{2014} check credentials/account status"@,
                },
                retry_after: None,
            }
        } else if code == 401 || code == 407 {
            let failures = (s.consecutive_auth_failures + 1) as u32;
            if failures >= MAX_CONSECUTIVE_AUTH_FAILURES {
                Outcome {
                    state: RegistrationState { consecutive_auth_failures: failures, ..s },
                    event: EventView::RegistrationHalted {
                        reason: "repeated "@ + status + " \u{2014} check username/password"@,
                    },
                    retry_after: None,
                }
            } else {
                Outcome {
                    state: RegistrationState { consecutive_auth_failures: failures, ..s },
                    event: EventView::RegistrationFailed { reason: status },
                    retry_after: Some(INITIAL_BACKOFF),
                }
            }
        } else {
            Outcome {
                state: RegistrationState {
                    consecutive_auth_failures: 0,
                    backoff: grown(s.backoff),
                },
                event: EventView::RegistrationFailed { reason: status },
                retry_after: Some(s.backoff),
            }
        },
        AttemptView::Failed { error } => Outcome {
            state: RegistrationState { consecutive_auth_failures: 0, backoff: grown(s.backoff) },
            event: EventView::RegistrationFailed { reason: error },
            retry_after: Some(s.backoff),
        },
    }
}

impl RegistrationState {
    /// Attempts go on: the password was not refused too often, and the wait is
    /// in its bounds.
    pub open spec fn wf(self) -> bool {
        &&& self.consecutive_auth_failures < MAX_CONSECUTIVE_AUTH_FAILURES
        &&& INITIAL_BACKOFF <= self.backoff <= MAX_BACKOFF
    }

    /// Before the first attempt.
    pub fn new() -> (r: Self)
        ensures
            r.wf(),
            r.consecutive_auth_failures == 0,
            r.backoff == INITIAL_BACKOFF,
    {
        RegistrationState { consecutive_auth_failures: 0, backoff: INITIAL_BACKOFF }
    }

    /// Takes note of an attempt: what to tell, and how long to wait for the
    /// next one, nothing if there is to be none.
    pub fn after(&mut self, attempt: Attempt) -> (r: (CoreEvent, Option<u64>))
        requires
            old(self).wf(),
        ensures
            *final(self) == outcome(*old(self), attempt@).state,
            r.0@ == outcome(*old(self), attempt@).event,
            r.1 == outcome(*old(self), attempt@).retry_after,
            r.1 is Some ==> final(self).wf(),
    {
        match attempt {
            Attempt::Answer { code, status, expires, rtt_ms } => {
                if code == 200 {
                    self.consecutive_auth_failures = 0;
                    self.backoff = INITIAL_BACKOFF;
                    let held: u64 = if expires > 4 {
                        expires as u64
                    } else {
                        4
                    };
                    return (CoreEvent::Registered { expires, rtt_ms }, Some(held * 3 / 4));
                }
                if code == 403 {
                    let reason = copy_text(
                        "403 Forbidden \u{2014} check credentials/account status",
                    );
                    return (CoreEvent::RegistrationHalted { reason }, None);
                }
                if code == 401 || code == 407 {
                    self.consecutive_auth_failures = self.consecutive_auth_failures + 1;
                    if self.consecutive_auth_failures >= MAX_CONSECUTIVE_AUTH_FAILURES {
                        let mut reason = String::new();
                        push_all(&mut reason, "repeated ");
                        push_all(&mut reason, status.as_str());
                        push_all(&mut reason, " \u{2014} check username/password");
                        assert(reason@ =~= "repeated "@ + status@
                            + " \u{2014} check username/password"@);
                        return (CoreEvent::RegistrationHalted { reason }, None);
                    }
                    return (
                        CoreEvent::RegistrationFailed { reason: status },
                        Some(INITIAL_BACKOFF),
                    );
                }
                self.consecutive_auth_failures = 0;
                let after: u64 = self.backoff;
                self.backoff = grow_backoff(self.backoff);
                (CoreEvent::RegistrationFailed { reason: status }, Some(after))
            },
            Attempt::Failed { error } => {
                self.consecutive_auth_failures = 0;
                let after: u64 = self.backoff;
                self.backoff = grow_backoff(self.backoff);
                (CoreEvent::RegistrationFailed { reason: error }, Some(after))
            },
        }
    }
}

// ---------------------------------------------------------------------------
// Laws

/// The state after some attempts, as long as they go on.
pub open spec fn after_all(s: RegistrationState, attempts: Seq<AttemptView>) -> Option<
    RegistrationState,
>
    decreases attempts.len(),
{
    if attempts.len() == 0 {
        Some(s)
    } else {
        match after_all(s, attempts.drop_last()) {
            Some(t) => {
                let o = outcome(t, attempts.last());
                if o.retry_after is Some {
                    Some(o.state)
                } else {
                    None
                }
            },
            None => None,
        }
    }
}

/// Whether the password was refused.
pub open spec fn is_refusal(a: AttemptView) -> bool {
    a matches AttemptView::Answer { code, .. } && (code == 401 || code == 407)
}

/// Three refusals of the password in a row end the attempts, whatever came
/// before; so does being forbidden, at once.
pub proof fn repeated_refusals_halt(
    s: RegistrationState,
    before: Seq<AttemptView>,
    a: AttemptView,
    b: AttemptView,
    c: AttemptView,
)
    requires
        s.wf(),
        is_refusal(a) && is_refusal(b) && is_refusal(c) || (c matches AttemptView::Answer {
            code,
            ..
        } && code == 403),
    ensures
        after_all(s, before.push(a).push(b).push(c)) is None,
{
    let s1 = before.push(a);
    let s2 = s1.push(b);
    let s3 = s2.push(c);
    assert(s3.drop_last() =~= s2);
    assert(s2.drop_last() =~= s1);
    assert(s1.drop_last() =~= before);
    attempts_stay_in_bounds(s, before);
    attempts_stay_in_bounds(s, s1);
    attempts_stay_in_bounds(s, s2);
}

/// How many refusals of the password in a row the attempts end with.
pub open spec fn refusals_at_end(attempts: Seq<AttemptView>) -> nat
    decreases attempts.len(),
{
    if attempts.len() > 0 && is_refusal(attempts.last()) {
        refusals_at_end(attempts.drop_last()) + 1
    } else {
        0
    }
}

/// Whether attempts end with one of them: it was forbidden, or it and the two
/// before it were refused.
pub open spec fn ends_at(attempts: Seq<AttemptView>, k: int) -> bool {
    &&& 0 <= k < attempts.len()
    &&& (attempts[k] matches AttemptView::Answer { code, .. } && code == 403) || (k >= 2
        && is_refusal(attempts[k]) && is_refusal(attempts[k - 1]) && is_refusal(attempts[k - 2]))
}

/// Attempts end with the first one that is forbidden, or refused for the third
/// time in a row, and with no other.
pub proof fn nothing_else_halts(attempts: Seq<AttemptView>)
    ensures
        ({
            let s = RegistrationState { consecutive_auth_failures: 0, backoff: INITIAL_BACKOFF };
            &&& after_all(s, attempts) is None <==> exists|k: int| ends_at(attempts, k)
            &&& after_all(s, attempts) matches Some(t) ==> t.consecutive_auth_failures
                == refusals_at_end(attempts)
        }),
    decreases attempts.len(),
{
    let s = RegistrationState { consecutive_auth_failures: 0, backoff: INITIAL_BACKOFF };
    attempts_stay_in_bounds(s, attempts);
    if attempts.len() > 0 {
        let before = attempts.drop_last();
        let last = attempts.len() - 1;
        nothing_else_halts(before);
        attempts_stay_in_bounds(s, before);
        if before.len() > 0 {
            assert(before.last() == attempts[last - 1]);
            let earlier = before.drop_last();
            if earlier.len() > 0 {
                assert(earlier.last() == attempts[last - 2]);
            }
        }
        assert(refusals_at_end(before) >= 2 <==> last >= 2 && is_refusal(attempts[last - 1])
            && is_refusal(attempts[last - 2])) by {
            reveal_with_fuel(refusals_at_end, 3);
        }
        if exists|k: int| ends_at(before, k) {
            let k = choose|k: int| ends_at(before, k);
            assert(ends_at(attempts, k));
        }
        assert(forall|k: int| ends_at(attempts, k) && k != last ==> ends_at(before, k));
        assert(after_all(s, before) is Some && outcome(after_all(s, before)->0, attempts[last]).retry_after
            is None ==> ends_at(attempts, last));
    }
}

/// As long as attempts go on, the wait stays between 30 seconds and five
/// minutes, and fewer than three refusals have come in a row.
pub proof fn attempts_stay_in_bounds(s: RegistrationState, attempts: Seq<AttemptView>)
    requires
        s.wf(),
    ensures
        after_all(s, attempts) matches Some(t) ==> t.wf(),
    decreases attempts.len(),
{
    if attempts.len() > 0 {
        attempts_stay_in_bounds(s, attempts.drop_last());
    }
}

/// A success forgets the failures before it: the wait is short again, and the
/// password may be refused as often as at first.
pub proof fn success_starts_over(s: RegistrationState, status: Seq<char>, expires: u32, rtt_ms: u32)
    ensures
        outcome(
            s,
            AttemptView::Answer { code: 200, status, expires, rtt_ms },
        ).state == (RegistrationState {
            consecutive_auth_failures: 0,
            backoff: INITIAL_BACKOFF,
        }),
{
}

/// A registration is renewed before it runs out, if it holds for at least
/// four seconds.
pub proof fn renewed_in_time(expires: u32)
    requires
        expires >= 4,
    ensures
        0 < renewal(expires) < expires,
{
}

} // verus!
