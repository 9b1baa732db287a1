//! Calls that are over.

use vstd::prelude::*;

use crate::text::{copy_text, decimal, push_all, push_number};

verus! {

/// How many calls are kept on disk.
pub const MAX_ENTRIES: usize = 200;

/// Who called.
#[derive(Debug, Clone, Copy, PartialEq, Eq, Structural)]
pub enum CallDirection {
    Incoming,
    Outgoing,
}

/// What came of a call.
#[derive(Debug, Clone, Copy, PartialEq, Eq, Structural)]
pub enum CallOutcome {
    Answered,
    Missed,
    Rejected,
    Failed,
}

/// A call that is over.
#[derive(Debug)]
pub struct HistoryEntry {
    pub number: String,
    pub direction: CallDirection,
    pub outcome: CallOutcome,
    pub unix_secs: i64,
    pub duration_secs: u32,
}

impl HistoryEntry {
    /// A copy of it.
    pub fn copy(&self) -> (r: Self)
        ensures
            r == *self,
    {
        HistoryEntry {
            number: self.number.clone(),
            direction: self.direction,
            outcome: self.outcome,
            unix_secs: self.unix_secs,
            duration_secs: self.duration_secs,
        }
    }
}

/// The seconds since the Unix epoch, by `std::time::UNIX_EPOCH.elapsed()`;
/// nothing if the clock stands before the epoch. Nothing is claimed of the
/// number: it comes from the clock.
#[verifier::external_body]
fn seconds_since_epoch() -> (r: Option<u64>) {
    std::time::UNIX_EPOCH.elapsed().ok().map(|d| d.as_secs())
}

/// The time that a clock shows, in seconds since the Unix epoch: zero where it
/// shows a time before the epoch.
pub open spec fn unix_time(clock: Option<u64>) -> i64 {
    match clock {
        Some(secs) => secs as i64,
        None => 0,
    }
}

/// The time that a clock shows, in seconds since the Unix epoch.
pub fn unix_from(clock: Option<u64>) -> (r: i64)
    ensures
        r == unix_time(clock),
{
    match clock {
        Some(secs) => #[verifier::truncate] (secs as i64),
        None => 0,
    }
}

/// Now, in seconds since the Unix epoch.
pub fn now_unix() -> (r: i64)
    ensures
        exists|clock: Option<u64>| r == #[trigger] unix_time(clock),
{
    unix_from(seconds_since_epoch())
}

/// The calls that are kept on disk: the latest ones.
pub open spec fn kept(entries: Seq<HistoryEntry>) -> Seq<HistoryEntry> {
    if entries.len() <= MAX_ENTRIES {
        entries
    } else {
        entries.skip(entries.len() - MAX_ENTRIES)
    }
}

/// The calls to save, the oldest first.
pub fn entries_to_save(entries: &Vec<HistoryEntry>) -> (r: Vec<HistoryEntry>)
    ensures
        r@ == kept(entries@),
{
    let start: usize = if entries.len() <= MAX_ENTRIES {
        0
    } else {
        entries.len() - MAX_ENTRIES
    };
    let mut r: Vec<HistoryEntry> = Vec::new();
    let mut i: usize = start;
    while i < entries.len()
        invariant
            start <= i <= entries.len(),
            start == if entries@.len() <= MAX_ENTRIES { 0int } else { entries@.len() - MAX_ENTRIES },
            r@ == entries@.subrange(start as int, i as int),
        decreases entries.len() - i,
    {
        r.push(entries[i].copy());
        i += 1;
        proof {
            assert(r@ =~= entries@.subrange(start as int, i as int));
        }
    }
    proof {
        assert(r@ =~= kept(entries@));
    }
    r
}

/// The history never outgrows its file: no more than the limit is saved, the
/// newest call is among it, and saving what was saved changes nothing.
pub proof fn history_stays_small(entries: Seq<HistoryEntry>)
    ensures
        kept(entries).len() <= MAX_ENTRIES,
        entries.len() > 0 ==> kept(entries).len() > 0 && kept(entries).last() == entries.last(),
        kept(kept(entries)) == kept(entries),
        forall|k: int| 0 <= k < kept(entries).len() ==> #[trigger] kept(entries)[k]
            == entries[entries.len() - kept(entries).len() + k],
{
}

/// The number that was called last.
pub open spec fn last_outgoing(entries: Seq<HistoryEntry>) -> Option<String>
    decreases entries.len(),
{
    if entries.len() == 0 {
        None
    } else if entries.last().direction == CallDirection::Outgoing {
        Some(entries.last().number)
    } else {
        last_outgoing(entries.drop_last())
    }
}

/// The number that was called last.
pub fn last_outgoing_number(entries: &Vec<HistoryEntry>) -> (r: Option<String>)
    ensures
        r == last_outgoing(entries@),
{
    let mut i: usize = entries.len();
    proof {
        assert(entries@.take(i as int) =~= entries@);
    }
    while i > 0
        invariant
            i <= entries.len(),
            last_outgoing(entries@) == last_outgoing(entries@.take(i as int)),
        decreases i,
    {
        i -= 1;
        proof {
            assert(entries@.take(i + 1).drop_last() =~= entries@.take(i as int));
        }
        if entries[i].direction == CallDirection::Outgoing {
            return Some(entries[i].number.clone());
        }
    }
    None
}

/// The numbers that were called lately, the latest first, none twice, and no
/// more than `most`; `seen` are those of later calls.
pub open spec fn recent_after(entries: Seq<HistoryEntry>, seen: Seq<Seq<char>>, most: nat) -> Seq<
    Seq<char>,
>
    decreases entries.len(),
{
    if entries.len() == 0 || seen.len() >= most {
        seen
    } else {
        let e = entries.last();
        recent_after(
            entries.drop_last(),
            if e.direction == CallDirection::Outgoing && !seen.contains(e.number@) {
                seen.push(e.number@)
            } else {
                seen
            },
            most,
        )
    }
}

/// How many numbers the panel under the dial field shows.
pub const RECENT_NUMBERS: usize = 12;

/// Whether a list holds a text.
pub fn holds_text(v: &Vec<String>, s: &str) -> (r: bool)
    ensures
        r == crate::text::texts(v@).contains(s@),
{
    let mut i: usize = 0;
    while i < v.len()
        invariant
            i <= v.len(),
            forall|k: int| 0 <= k < i ==> #[trigger] v@[k]@ != s@,
        decreases v.len() - i,
    {
        if crate::text::same_text(v[i].as_str(), s) {
            proof {
                assert(crate::text::texts(v@)[i as int] == s@);
            }
            return true;
        }
        i += 1;
    }
    proof {
        assert forall|k: int| 0 <= k < crate::text::texts(v@).len() implies crate::text::texts(
            v@,
        )[k] != s@ by {
            assert(v@[k]@ != s@);
        }
    }
    false
}

/// The numbers that the panel under the dial field shows: those called
/// lately, the latest first, none twice.
pub fn recent_numbers(entries: &Vec<HistoryEntry>) -> (r: Vec<String>)
    ensures
        crate::text::texts(r@) == recent_after(entries@, Seq::empty(), RECENT_NUMBERS as nat),
{
    let mut numbers: Vec<String> = Vec::new();
    let mut i: usize = entries.len();
    proof {
        assert(crate::text::texts(numbers@) =~= Seq::empty());
        assert(entries@.take(i as int) =~= entries@);
    }
    while i > 0 && numbers.len() < RECENT_NUMBERS
        invariant
            i <= entries.len(),
            recent_after(entries@, Seq::empty(), RECENT_NUMBERS as nat) == recent_after(
                entries@.take(i as int),
                crate::text::texts(numbers@),
                RECENT_NUMBERS as nat,
            ),
        decreases i,
    {
        i -= 1;
        proof {
            assert(crate::text::texts(numbers@).len() == numbers@.len());
            assert(entries@.take(i + 1).drop_last() =~= entries@.take(i as int));
        }
        let ghost before = numbers@;
        if entries[i].direction == CallDirection::Outgoing && !holds_text(
            &numbers,
            entries[i].number.as_str(),
        ) {
            numbers.push(entries[i].number.clone());
            proof {
                assert(crate::text::texts(numbers@) =~= crate::text::texts(before).push(
                    entries@[i as int].number@,
                ));
            }
        }
    }
    proof {
        assert(crate::text::texts(numbers@).len() == numbers@.len());
    }
    numbers
}

/// Whether a number was called.
pub open spec fn was_called(entries: Seq<HistoryEntry>, number: Seq<char>) -> bool {
    exists|j: int|
        0 <= j < entries.len() && (#[trigger] entries[j]).direction == CallDirection::Outgoing
            && entries[j].number@ == number
}

/// What the panel of recent numbers shows is short, holds no number twice, and
/// holds nothing but numbers that were called.
pub proof fn recent_numbers_are_distinct(entries: Seq<HistoryEntry>, seen: Seq<Seq<char>>, most: nat)
    requires
        seen.no_duplicates(),
        seen.len() <= most,
    ensures
        recent_after(entries, seen, most).no_duplicates(),
        recent_after(entries, seen, most).len() <= most,
        forall|k: int|
            seen.len() <= k < recent_after(entries, seen, most).len() ==> was_called(
                entries,
                #[trigger] recent_after(entries, seen, most)[k],
            ),
        recent_after(entries, seen, most).len() >= seen.len(),
        forall|k: int|
            0 <= k < seen.len() ==> #[trigger] recent_after(entries, seen, most)[k] == seen[k],
    decreases entries.len(),
{
    if entries.len() != 0 && seen.len() < most {
        let e = entries.last();
        let fresh = e.direction == CallDirection::Outgoing && !seen.contains(e.number@);
        let next = if fresh {
            seen.push(e.number@)
        } else {
            seen
        };
        let rest = entries.drop_last();
        recent_numbers_are_distinct(rest, next, most);
        let all = recent_after(entries, seen, most);
        assert(all == recent_after(rest, next, most));
        assert forall|k: int| seen.len() <= k < all.len() implies was_called(
            entries,
            #[trigger] all[k],
        ) by {
            if k < next.len() {
                assert(all[k] == next[k]);
                assert(entries[entries.len() - 1].number@ == all[k]);
            } else {
                assert(was_called(rest, recent_after(rest, next, most)[k]));
                let j = choose|j: int|
                    0 <= j < rest.len() && (#[trigger] rest[j]).direction == CallDirection::Outgoing
                        && rest[j].number@ == all[k];
                assert(entries[j] == rest[j]);
            }
        }
        assert forall|k: int| 0 <= k < seen.len() implies #[trigger] all[k] == seen[k] by {
            assert(next[k] == seen[k]);
        }
    }
}

// ---------------------------------------------------------------------------
// Labels

/// A number with two digits at least.
pub open spec fn two_digits(n: nat) -> Seq<char> {
    if n < 10 {
        seq!['0'] + decimal(n)
    } else {
        decimal(n)
    }
}

/// Appends a number with two digits at least.
pub fn push_two_digits(s: &mut String, n: u64)
    ensures
        final(s)@ == old(s)@ + two_digits(n as nat),
{
    if n < 10 {
        s.push('0');
    }
    push_number(s, n);
    proof {
        assert(s@ =~= old(s)@ + two_digits(n as nat));
    }
}

/// How long ago something was, in short.
pub open spec fn ago(secs: int) -> Seq<char> {
    if secs < 60 {
        "just now"@
    } else if secs < 3600 {
        decimal((secs / 60) as nat) + "m ago"@
    } else if secs < 86_400 {
        decimal((secs / 3600) as nat) + "h ago"@
    } else if secs < 30 * 86_400 {
        decimal((secs / 86_400) as nat) + "d ago"@
    } else {
        decimal((secs / 604_800) as nat) + "w ago"@
    }
}

fn count_of(n: u64, unit: &str) -> (s: String)
    ensures
        s@ == decimal(n as nat) + unit@,
{
    let mut s = String::new();
    push_number(&mut s, n);
    push_all(&mut s, unit);
    proof {
        assert(s@ =~= decimal(n as nat) + unit@);
    }
    s
}

/// How long ago something was, in short; "just now" also for what lies ahead.
/// The span has to fit the numbers that hold it.
pub fn relative_label(now: i64, unix_secs: i64) -> (s: String)
    requires
        i64::MIN <= now - unix_secs <= i64::MAX,
    ensures
        s@ == ago(now - unix_secs),
{
    let diff: i64 = now - unix_secs;
    if diff < 60 {
        copy_text("just now")
    } else if diff < 3600 {
        count_of((diff / 60) as u64, "m ago")
    } else if diff < 86_400 {
        count_of((diff / 3600) as u64, "h ago")
    } else if diff < 30 * 86_400 {
        count_of((diff / 86_400) as u64, "d ago")
    } else {
        count_of((diff / (7 * 86_400)) as u64, "w ago")
    }
}

/// Minutes and seconds, each with two digits at least.
pub open spec fn clock_label(secs: nat) -> Seq<char> {
    two_digits(secs / 60) + seq![':'] + two_digits(secs % 60)
}

/// How long a call lasted.
pub fn duration_label(duration_secs: u32) -> (s: String)
    ensures
        s@ == clock_label(duration_secs as nat),
{
    let mut s = String::new();
    push_two_digits(&mut s, (duration_secs / 60) as u64);
    s.push(':');
    push_two_digits(&mut s, (duration_secs % 60) as u64);
    proof {
        assert(s@ =~= clock_label(duration_secs as nat));
    }
    s
}

} // verus!
