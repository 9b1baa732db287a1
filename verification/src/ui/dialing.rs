//! What is typed into the dial field.

use vstd::prelude::*;

use crate::text::{chars, copy_text, decimal, piece_end, piece_end_bounds, push_all, push_number};
use crate::ui::history::{push_two_digits, two_digits};

verus! {

/// Whether a character is a digit.
pub open spec fn numeral(c: char) -> bool {
    '0' <= c && c <= '9'
}

/// Whether a character can be dialled: a digit, star or hash.
pub open spec fn dialable(c: char) -> bool {
    numeral(c) || c == '*' || c == '#'
}

fn can_dial(c: char) -> (r: bool)
    ensures
        r == dialable(c),
{
    ('0' <= c && c <= '9') || c == '*' || c == '#'
}

/// What can be dialled of a text: its digits, stars and hashes, and a plus
/// sign at its start where that is allowed.
pub open spec fn dialled(s: Seq<char>, plus: bool) -> Seq<char>
    decreases s.len(),
{
    if s.len() == 0 {
        Seq::empty()
    } else {
        let c = s.last();
        let before = dialled(s.drop_last(), plus);
        if dialable(c) || (plus && c == '+' && s.len() == 1) {
            before.push(c)
        } else {
            before
        }
    }
}

/// What can be dialled of a text.
pub fn sanitize_dial_chars(input: &str, allow_leading_plus: bool) -> (r: String)
    ensures
        r@ == dialled(input@, allow_leading_plus),
{
    let v: Vec<char> = chars(input);
    proof {
        assert(v@.take(v@.len() as int) =~= input@);
    }
    dial_part(&v, v.len(), allow_leading_plus)
}

fn dial_part(v: &Vec<char>, to: usize, plus: bool) -> (r: String)
    requires
        to <= v@.len(),
    ensures
        r@ == dialled(v@.take(to as int), plus),
{
    let mut r = String::new();
    let mut i: usize = 0;
    proof {
        assert(v@.take(0) =~= Seq::empty());
    }
    while i < to
        invariant
            i <= to <= v@.len(),
            r@ == dialled(v@.take(i as int), plus),
        decreases to - i,
    {
        let c = v[i];
        proof {
            assert(v@.take(i + 1).drop_last() =~= v@.take(i as int));
        }
        if can_dial(c) || (plus && c == '+' && i == 0) {
            r.push(c);
        }
        i += 1;
    }
    r
}

/// What is sent after a call is answered: digits, stars, hashes, and commas,
/// which stand for pauses.
pub open spec fn paused(s: Seq<char>) -> Seq<char>
    decreases s.len(),
{
    if s.len() == 0 {
        Seq::empty()
    } else {
        let before = paused(s.drop_last());
        if s.last() == ',' || dialable(s.last()) {
            before.push(s.last())
        } else {
            before
        }
    }
}

/// Where the number in a dial field ends: at the first comma.
pub open spec fn number_end(input: Seq<char>) -> int {
    piece_end(input, ',', 0)
}

/// The number in a dial field.
pub open spec fn number_in(input: Seq<char>) -> Seq<char> {
    dialled(input.take(number_end(input)), true)
}

/// What follows the number in a dial field, from the first comma on.
pub open spec fn post_dial_in(input: Seq<char>) -> Seq<char> {
    paused(input.skip(number_end(input)))
}

/// Splits a dial field into the number and what is sent after the call is
/// answered.
pub fn split_dial_input(input: &str) -> (r: (String, String))
    ensures
        r.0@ == number_in(input@),
        r.1@ == post_dial_in(input@),
{
    let v: Vec<char> = chars(input);
    let mut end: usize = 0;
    while end < v.len() && v[end] != ','
        invariant
            end <= v@.len(),
            v@ == input@,
            number_end(input@) == piece_end(v@, ',', end as int),
        decreases v.len() - end,
    {
        end += 1;
    }
    let number = dial_part(&v, end, true);
    let mut post = String::new();
    let mut i: usize = end;
    let ghost rest = v@.skip(end as int);
    proof {
        assert(end == number_end(input@));
        assert(rest.take(0) =~= Seq::empty());
    }
    while i < v.len()
        invariant
            end <= i <= v@.len(),
            rest == v@.skip(end as int),
            post@ == paused(rest.take(i - end)),
        decreases v.len() - i,
    {
        let c = v[i];
        proof {
            assert(rest.take(i - end + 1).drop_last() =~= rest.take(i - end));
            assert(rest.take(i - end + 1).last() == c);
        }
        if c == ',' || can_dial(c) {
            post.push(c);
        }
        i += 1;
    }
    proof {
        assert(rest.take(i - end) =~= rest);
    }
    (number, post)
}

proof fn dialled_holds_dialable(s: Seq<char>, plus: bool)
    ensures
        forall|i: int|
            0 <= i < dialled(s, plus).len() ==> dialable(#[trigger] dialled(s, plus)[i]) || (plus
                && i == 0 && dialled(s, plus)[i] == '+'),
        dialled(s, plus).len() <= s.len(),
    decreases s.len(),
{
    if s.len() > 0 {
        dialled_holds_dialable(s.drop_last(), plus);
    }
}

proof fn dialled_twice(s: Seq<char>)
    requires
        forall|i: int|
            0 <= i < s.len() ==> dialable(#[trigger] s[i]) || (i == 0 && s[i] == '+'),
    ensures
        dialled(s, true) == s,
    decreases s.len(),
{
    if s.len() > 0 {
        let t = s.drop_last();
        assert forall|i: int| 0 <= i < t.len() implies dialable(#[trigger] t[i]) || (i == 0 && t[i]
            == '+') by {
            assert(t[i] == s[i]);
        }
        dialled_twice(t);
        assert(t.push(s.last()) =~= s);
    } else {
        assert(dialled(s, true) =~= s);
    }
}

proof fn paused_holds(s: Seq<char>)
    ensures
        forall|i: int|
            0 <= i < paused(s).len() ==> #[trigger] paused(s)[i] == ',' || dialable(paused(s)[i]),
        s.len() > 0 && s[0] == ',' ==> paused(s).len() > 0 && paused(s)[0] == ',',
        s.len() == 0 ==> paused(s).len() == 0,
    decreases s.len(),
{
    if s.len() > 0 {
        let before = paused(s.drop_last());
        paused_holds(s.drop_last());
        assert forall|i: int| 0 <= i < paused(s).len() implies #[trigger] paused(s)[i] == ','
            || dialable(paused(s)[i]) by {
            if i < before.len() {
                assert(paused(s)[i] == before[i]);
            }
        }
        if s.len() > 1 {
            assert(s.drop_last()[0] == s[0]);
        }
    }
}

/// However a number was typed, what is called holds nothing but what a phone
/// can dial; calling it again calls the same number and sends nothing after
/// it. What is sent after a call is answered starts with a pause.
pub proof fn numbers_come_out_clean(input: Seq<char>)
    ensures
        forall|i: int|
            0 <= i < number_in(input).len() ==> dialable(#[trigger] number_in(input)[i]) || (i == 0
                && number_in(input)[i] == '+'),
        number_in(number_in(input)) == number_in(input),
        post_dial_in(number_in(input)).len() == 0,
        post_dial_in(input).len() > 0 ==> post_dial_in(input)[0] == ',',
        forall|i: int|
            0 <= i < post_dial_in(input).len() ==> #[trigger] post_dial_in(input)[i] == ','
                || dialable(post_dial_in(input)[i]),
{
    let n = number_in(input);
    let end = number_end(input);
    dialled_holds_dialable(input.take(end), true);
    no_comma(n, 0);
    assert(n.take(n.len() as int) =~= n);
    dialled_twice(n);
    assert(n.skip(n.len() as int).len() == 0);
    paused_holds(n.skip(n.len() as int));
    paused_holds(input.skip(end));
    piece_end_bounds(input, ',', 0);
    comma_at_end(input, 0);
    if end < input.len() {
        assert(input.skip(end)[0] == ',');
    }
}

proof fn no_comma(s: Seq<char>, i: int)
    requires
        0 <= i <= s.len(),
        forall|k: int| 0 <= k < s.len() ==> #[trigger] s[k] != ',',
    ensures
        piece_end(s, ',', i) == s.len(),
    decreases s.len() - i,
{
    if i < s.len() {
        no_comma(s, i + 1);
    }
}

proof fn comma_at_end(s: Seq<char>, i: int)
    requires
        0 <= i <= s.len(),
    ensures
        i <= piece_end(s, ',', i) <= s.len(),
        piece_end(s, ',', i) < s.len() ==> s[piece_end(s, ',', i)] == ',',
    decreases s.len() - i,
{
    if i < s.len() && s[i] != ',' {
        comma_at_end(s, i + 1);
    }
}

// ---------------------------------------------------------------------------
// Recordings

/// Whether a character is kept in the name of a recording.
pub open spec fn safe(c: char) -> bool {
    numeral(c) || ('a' <= c && c <= 'z') || ('A' <= c && c <= 'Z') || c == '+' || c == '-'
}

/// What is kept of a number in the name of a recording.
pub open spec fn safe_part(s: Seq<char>) -> Seq<char>
    decreases s.len(),
{
    if s.len() == 0 {
        Seq::empty()
    } else if safe(s.last()) {
        safe_part(s.drop_last()).push(s.last())
    } else {
        safe_part(s.drop_last())
    }
}

/// A signed number in decimal.
pub open spec fn signed_decimal(n: int) -> Seq<char> {
    if n < 0 {
        seq!['-'] + decimal((-n) as nat)
    } else {
        decimal(n as nat)
    }
}

/// The name of a recording: the number, how long the call lasted, and when it
/// ended.
pub open spec fn recording_name(number: Seq<char>, secs: nat, unix_secs: int) -> Seq<char> {
    let who = if safe_part(number).len() == 0 {
        "unknown"@
    } else {
        safe_part(number)
    };
    who + " ("@ + decimal(secs / 60) + "m"@ + two_digits(secs % 60) + "s) "@ + signed_decimal(
        unix_secs,
    ) + ".wav"@
}

fn keep_safe(number: &str) -> (r: String)
    ensures
        r@ == safe_part(number@),
{
    let v: Vec<char> = chars(number);
    let mut r = String::new();
    let mut i: usize = 0;
    proof {
        assert(v@.take(0) =~= Seq::empty());
    }
    while i < v.len()
        invariant
            i <= v@.len(),
            r@ == safe_part(v@.take(i as int)),
        decreases v.len() - i,
    {
        let c = v[i];
        proof {
            assert(v@.take(i + 1).drop_last() =~= v@.take(i as int));
        }
        if ('0' <= c && c <= '9') || ('a' <= c && c <= 'z') || ('A' <= c && c <= 'Z') || c == '+'
            || c == '-' {
            r.push(c);
        }
        i += 1;
    }
    proof {
        assert(v@.take(i as int) =~= number@);
    }
    r
}

fn push_signed(s: &mut String, n: i64)
    ensures
        final(s)@ == old(s)@ + signed_decimal(n as int),
{
    if n < 0 {
        s.push('-');
        let magnitude: u64 = (-(n + 1)) as u64 + 1;
        push_number(s, magnitude);
    } else {
        push_number(s, n as u64);
    }
    proof {
        assert(s@ =~= old(s)@ + signed_decimal(n as int));
    }
}

/// The name of a recording.
pub fn recording_filename(number: &str, secs: u64, unix_secs: i64) -> (r: String)
    ensures
        r@ == recording_name(number@, secs as nat, unix_secs as int),
{
    let safe_number = keep_safe(number);
    let mut r = if chars(safe_number.as_str()).len() == 0 {
        copy_text("unknown")
    } else {
        safe_number
    };
    push_all(&mut r, " (");
    push_number(&mut r, secs / 60);
    push_all(&mut r, "m");
    push_two_digits(&mut r, secs % 60);
    push_all(&mut r, "s) ");
    push_signed(&mut r, unix_secs);
    push_all(&mut r, ".wav");
    r
}

} // verus!
