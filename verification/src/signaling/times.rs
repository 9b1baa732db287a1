//! Repeat times and time zones in SDP.
//!
//! They stand in lines behind the one that tells when a session is held. Their
//! times are numbers of seconds, or of what a unit behind them says. A duration
//! counts milliseconds in 64 bits, so one that is too long cannot be kept.

use vstd::prelude::*;

use crate::text::{
    chars, digits_value, find_from, first_from, first_from_is_least, is_digit, occurs_at,
    read_unsigned, string_of, unsigned_digits,
};

verus! {

/// The most seconds that a duration can hold, in either direction.
pub const MOST_SECONDS: u64 = 9_223_372_036_854_775;

/// How many seconds a unit stands for; nothing if the character is no unit.
pub open spec fn unit_seconds(c: char) -> Option<nat> {
    if c == 's' {
        Some(1)
    } else if c == 'm' {
        Some(60)
    } else if c == 'h' {
        Some(3600)
    } else if c == 'd' {
        Some(86400)
    } else {
        None
    }
}

/// The digits of a number with an optional sign.
pub open spec fn signed_digits(s: Seq<char>) -> Seq<char> {
    if s.len() > 0 && (s[0] == '-' || s[0] == '+') {
        s.skip(1)
    } else {
        s
    }
}

/// Whether `s` is a number that fits 64 bits with a sign, and is more than the
/// given number of times longer than a duration can be.
pub open spec fn number_overflows(s: Seq<char>, unit: nat) -> bool {
    let d = signed_digits(s);
    &&& d.len() > 0
    &&& forall|i: int| 0 <= i < d.len() ==> is_digit(#[trigger] d[i])
    &&& digits_value(d) <= (if s[0] == '-' {
        0x8000_0000_0000_0000nat
    } else {
        0x7fff_ffff_ffff_ffffnat
    })
    &&& digits_value(d) * unit > MOST_SECONDS
}

/// Whether a word is a time that is too long for a duration. What is no number,
/// or one that does not fit 64 bits, is no time at all.
pub open spec fn time_overflows(w: Seq<char>) -> bool {
    &&& w.len() > 0
    &&& match unit_seconds(w.last()) {
        Some(unit) => number_overflows(w.drop_last(), unit),
        None => number_overflows(w, 1),
    }
}

/// Whether what stands from `i` on begins like a line of the given kind.
pub open spec fn begins_line(s: Seq<char>, i: int, kind: char) -> bool {
    0 <= i && i + 1 < s.len() && s[i] == kind && s[i + 1] == '='
}

/// Where the line behind the one that starts at `i` starts; the end of the text
/// if there is none. A line ends with a carriage return and a line feed, or, if
/// those stand nowhere behind `i`, with the one or the other.
pub open spec fn next_line(s: Seq<char>, i: int) -> int {
    match (first_from(s, "\r\n"@, i), first_from(s, "\r"@, i), first_from(s, "\n"@, i)) {
        (Some(j), _, _) => j + 2,
        (None, Some(j), _) => j + 1,
        (None, None, Some(j)) => j + 1,
        (None, None, None) => s.len() as int,
    }
}

/// Whether there is no line break from `i` up to `j`.
pub open spec fn same_line(s: Seq<char>, i: int, j: int) -> bool {
    forall|k: int| i <= k < j ==> #[trigger] s[k] != '\r' && s[k] != '\n'
}

/// How many blanks there are from `i` up to `j`.
pub open spec fn blanks(s: Seq<char>, i: int, j: int) -> nat
    decreases j - i,
{
    if i >= j {
        0
    } else {
        blanks(s, i, j - 1) + if s[j - 1] == ' ' {
            1nat
        } else {
            0nat
        }
    }
}

/// Whether a word of the line that starts at `i` stands from `a` up to `b`.
pub open spec fn line_word_at(s: Seq<char>, i: int, a: int, b: int) -> bool {
    &&& i + 2 <= a <= b < s.len()
    &&& a == i + 2 || s[a - 1] == ' '
    &&& same_line(s, i, b)
    &&& forall|k: int| a <= k < b ==> #[trigger] s[k] != ' '
    &&& s[b] == ' ' || s[b] == '\r' || s[b] == '\n'
}

/// Whether the word from `a` up to `b` of the line of times that starts at `i`
/// is a time that is too long. In a line of time zones every other word is one:
/// it stands behind the moment that it applies from.
pub open spec fn endless_word_at(s: Seq<char>, i: int, a: int, b: int) -> bool {
    &&& line_word_at(s, i, a, b)
    &&& s[i] == 'z' ==> blanks(s, i + 2, a) % 2 == 1
    &&& time_overflows(s.subrange(a, b))
}

/// Whether the line of times that starts at `i` holds one that is too long.
pub open spec fn endless_line_at(s: Seq<char>, i: int) -> bool {
    exists|a: int, b: int| #[trigger] endless_word_at(s, i, a, b)
}

/// Where the first line from `i` on starts that tells when a session is held;
/// the end of the text if there is none.
pub open spec fn first_times(s: Seq<char>, i: int) -> int
    decreases s.len() - i,
    via first_times_decreases
{
    if i < 0 || i >= s.len() {
        s.len() as int
    } else if begins_line(s, i, 't') {
        i
    } else {
        first_times(s, next_line(s, i))
    }
}

#[via_fn]
proof fn first_times_decreases(s: Seq<char>, i: int) {
    if 0 <= i < s.len() {
        next_line_is_ahead(s, i);
    }
}

/// Whether a time that is too long stands in the lines from `i` on that belong
/// to the times of a session: lines of repeat times, then one of time zones if
/// there was none yet, then perhaps more of when the session is held.
pub open spec fn endless_times_from(s: Seq<char>, i: int, zoned: bool) -> bool
    decreases s.len() - i,
    via endless_times_decreases
{
    if i < 0 || i >= s.len() {
        false
    } else if begins_line(s, i, 'r') && !zoned {
        endless_line_at(s, i) || endless_times_from(s, next_line(s, i), false)
    } else if begins_line(s, i, 'z') && !zoned {
        endless_line_at(s, i) || endless_times_from(s, next_line(s, i), true)
    } else if begins_line(s, i, 't') {
        endless_times_from(s, next_line(s, i), false)
    } else {
        false
    }
}

#[via_fn]
proof fn endless_times_decreases(s: Seq<char>, i: int, zoned: bool) {
    if 0 <= i < s.len() {
        next_line_is_ahead(s, i);
    }
}

/// Whether the repeat times and time zones of a session hold a time that is too
/// long for a duration. Lines like theirs elsewhere do not matter.
pub open spec fn has_endless_time(s: Seq<char>) -> bool {
    let i = first_times(s, 0);
    i < s.len() && endless_times_from(s, next_line(s, i), false)
}

proof fn next_line_is_ahead(s: Seq<char>, i: int)
    requires
        0 <= i < s.len(),
    ensures
        i < next_line(s, i) <= s.len(),
        next_line(s, i) < s.len() ==> s[next_line(s, i) - 1] == '\r' || s[next_line(s, i) - 1]
            == '\n',
{
    reveal_strlit("\r\n");
    reveal_strlit("\r");
    reveal_strlit("\n");
    first_from_is_least(s, "\r\n"@, i);
    first_from_is_least(s, "\r"@, i);
    first_from_is_least(s, "\n"@, i);
    if let Some(j) = first_from(s, "\r\n"@, i) {
        assert(s.subrange(j, j + 2)[1] == s[j + 1]);
        assert(occurs_at(s, "\r\n"@, j));
    }
    if let Some(j) = first_from(s, "\r"@, i) {
        assert(s.subrange(j, j + 1)[0] == s[j]);
        assert(occurs_at(s, "\r"@, j));
    }
    if let Some(j) = first_from(s, "\n"@, i) {
        assert(s.subrange(j, j + 1)[0] == s[j]);
        assert(occurs_at(s, "\n"@, j));
    }
}

fn overflows(v: &Vec<char>, from: usize, to: usize, unit: u64) -> (r: bool)
    requires
        from <= to <= v@.len(),
        unit > 0,
    ensures
        r == number_overflows(v@.subrange(from as int, to as int), unit as nat),
{
    let ghost s = v@.subrange(from as int, to as int);
    if from == to {
        return false;
    }
    assert(s[0] == v@[from as int]);
    let negative = v[from] == '-';
    let start: usize = if negative || v[from] == '+' {
        from + 1
    } else {
        from
    };
    let ghost d = signed_digits(s);
    assert(d =~= v@.subrange(start as int, to as int));
    if start == to {
        return false;
    }
    assert(d[0] == v@[start as int]);
    if v[start] == '+' {
        assert(!is_digit(d[0]));
        return false;
    }
    assert(unsigned_digits(d) == d);
    let most: u64 = if negative {
        0x8000_0000_0000_0000
    } else {
        0x7fff_ffff_ffff_ffff
    };
    let text = string_of(v, start, to);
    assert(text@ == d);
    assert(negative == (s[0] == '-'));
    match read_unsigned(text.as_str(), most) {
        Some(n) => {
            assert(n == digits_value(d));
            assert(number_overflows(s, unit as nat) == (n * unit > MOST_SECONDS));
            assert((n > MOST_SECONDS / unit) == (n * unit > MOST_SECONDS)) by (nonlinear_arith)
                requires
                    unit > 0,
            ;
            n > MOST_SECONDS / unit
        },
        None => {
            assert(!number_overflows(s, unit as nat));
            false
        },
    }
}

fn word_overflows(v: &Vec<char>, from: usize, to: usize) -> (r: bool)
    requires
        from <= to <= v@.len(),
    ensures
        r == time_overflows(v@.subrange(from as int, to as int)),
{
    if from == to {
        return false;
    }
    let ghost w = v@.subrange(from as int, to as int);
    let last = v[to - 1];
    assert(w.last() == last);
    assert(w.drop_last() =~= v@.subrange(from as int, to - 1));
    if last == 's' {
        overflows(v, from, to - 1, 1)
    } else if last == 'm' {
        overflows(v, from, to - 1, 60)
    } else if last == 'h' {
        overflows(v, from, to - 1, 3600)
    } else if last == 'd' {
        overflows(v, from, to - 1, 86400)
    } else {
        overflows(v, from, to, 1)
    }
}

fn line_is_endless(v: &Vec<char>, i: usize) -> (r: bool)
    requires
        begins_line(v@, i as int, 'r') || begins_line(v@, i as int, 'z'),
    ensures
        r == endless_line_at(v@, i as int),
{
    let n: usize = v.len();
    assert(i + 1 < n);
    let zones = v[i] == 'z';
    let mut a: usize = i + 2;
    let mut k: usize = i + 2;
    let mut odd = false;
    assert(v@[i as int] != '\r' && v@[i as int] != '\n');
    assert(same_line(v@, i as int, k as int));
    while k < v.len()
        invariant
            i + 2 <= a <= k <= v@.len(),
            begins_line(v@, i as int, 'r') || begins_line(v@, i as int, 'z'),
            zones == (v@[i as int] == 'z'),
            a == i + 2 || v@[a - 1] == ' ',
            same_line(v@, i as int, k as int),
            forall|m: int| a <= m < k ==> #[trigger] v@[m] != ' ',
            odd == (blanks(v@, i + 2, a as int) % 2 == 1),
            forall|x: int, y: int| #[trigger] endless_word_at(v@, i as int, x, y) ==> y >= k,
        decreases v.len() - k,
    {
        let c = v[k];
        let breaks = c == '\r' || c == '\n';
        if breaks || c == ' ' {
            assert forall|x: int| #[trigger] line_word_at(v@, i as int, x, k as int) implies x
                == a by {
                if x < a {
                    assert(v@[a - 1] != ' ');
                }
                if x > a {
                    assert(v@[x - 1] == ' ');
                }
            }
            if (!zones || odd) && word_overflows(v, a, k) {
                assert(endless_word_at(v@, i as int, a as int, k as int));
                return true;
            }
            assert forall|x: int, y: int| #[trigger]
                endless_word_at(v@, i as int, x, y) implies y >= k + 1 by {
                if y == k {
                    assert(line_word_at(v@, i as int, x, k as int));
                }
            }
            if breaks {
                assert forall|x: int, y: int| !#[trigger] endless_word_at(
                    v@,
                    i as int,
                    x,
                    y,
                ) by {
                    if endless_word_at(v@, i as int, x, y) {
                        assert(v@[k as int] == c);
                    }
                }
                return false;
            }
            proof {
                blanks_step(v@, i + 2, a as int, k as int);
            }
            a = k + 1;
            odd = !odd;
        } else {
            assert forall|x: int, y: int| #[trigger]
                endless_word_at(v@, i as int, x, y) implies y >= k + 1 by {
                if y == k {
                    assert(v@[y] == c);
                }
            }
        }
        k = k + 1;
    }
    false
}

/// A word and the blank behind it make for one more blank.
proof fn blanks_step(s: Seq<char>, i: int, a: int, k: int)
    requires
        i <= a <= k < s.len(),
        forall|m: int| a <= m < k ==> #[trigger] s[m] != ' ',
        s[k] == ' ',
    ensures
        blanks(s, i, k + 1) == blanks(s, i, a) + 1,
{
    blanks_of_word(s, i, a, k);
}

proof fn blanks_of_word(s: Seq<char>, i: int, a: int, k: int)
    requires
        i <= a <= k <= s.len(),
        forall|m: int| a <= m < k ==> #[trigger] s[m] != ' ',
    ensures
        blanks(s, i, k) == blanks(s, i, a),
    decreases k - a,
{
    if a < k {
        assert(s[k - 1] != ' ');
        blanks_of_word(s, i, a, k - 1);
    }
}

fn line_begins(v: &Vec<char>, i: usize, kind: char) -> (r: bool)
    requires
        i < v@.len(),
    ensures
        r == begins_line(v@, i as int, kind),
{
    v[i] == kind && v.len() - i > 1 && v[i + 1] == '='
}

fn skip_line(v: &Vec<char>, i: usize) -> (r: usize)
    requires
        i < v@.len(),
    ensures
        r == next_line(v@, i as int),
        i < r <= v@.len(),
{
    let n: usize = v.len();
    let both: Vec<char> = chars("\r\n");
    let first: Vec<char> = chars("\r");
    let second: Vec<char> = chars("\n");
    proof {
        reveal_strlit("\r\n");
        reveal_strlit("\r");
        reveal_strlit("\n");
        next_line_is_ahead(v@, i as int);
    }
    if let Some(j) = find_from(v, &both, i) {
        return j + 2;
    }
    if let Some(j) = find_from(v, &first, i) {
        return j + 1;
    }
    if let Some(j) = find_from(v, &second, i) {
        return j + 1;
    }
    n
}

/// Whether the repeat times and time zones of a session hold a time that is too
/// long for a duration.
pub fn endless_time(text: &str) -> (r: bool)
    ensures
        r == has_endless_time(text@),
{
    let v: Vec<char> = chars(text);
    let mut i: usize = 0;
    while i < v.len() && !line_begins(&v, i, 't')
        invariant
            i <= v@.len(),
            v@ == text@,
            first_times(v@, 0) == first_times(v@, i as int),
        decreases v.len() - i,
    {
        i = skip_line(&v, i);
    }
    if i == v.len() {
        return false;
    }
    i = skip_line(&v, i);
    let mut zoned = false;
    while i < v.len()
        invariant
            i <= v@.len(),
            v@ == text@,
            has_endless_time(v@) == endless_times_from(v@, i as int, zoned),
        decreases v.len() - i,
    {
        let repeats = line_begins(&v, i, 'r') && !zoned;
        let zones = line_begins(&v, i, 'z') && !zoned;
        if repeats || zones {
            if line_is_endless(&v, i) {
                return true;
            }
            zoned = zones;
        } else if line_begins(&v, i, 't') {
            zoned = false;
        } else {
            return false;
        }
        i = skip_line(&v, i);
    }
    false
}

// ---------------------------------------------------------------------------
// Texts without times

/// Whether a text does not end with a line break, and no line of times starts
/// in it behind one.
pub open spec fn is_calm(s: Seq<char>) -> bool {
    forall|i: int|
        0 <= i < s.len() && (#[trigger] s[i] == '\r' || s[i] == '\n') ==> i + 1 < s.len() && s[i
            + 1] != 'r' && s[i + 1] != 'z'
}

/// Calm texts behind each other make a calm text.
pub proof fn calm_texts_join(a: Seq<char>, b: Seq<char>)
    requires
        is_calm(a),
        is_calm(b),
    ensures
        is_calm(a + b),
{
    let s = a + b;
    assert forall|i: int| 0 <= i < s.len() && (#[trigger] s[i] == '\r' || s[i] == '\n') implies i
        + 1 < s.len() && s[i + 1] != 'r' && s[i + 1] != 'z' by {
        if i < a.len() {
            assert(s[i] == a[i]);
            assert(s[i + 1] == a[i + 1]);
        } else {
            assert(s[i] == b[i - a.len()]);
            assert(s[i + 1] == b[i - a.len() + 1]);
        }
    }
}

/// Where no line of times starts behind a line break, there is no endless time.
proof fn no_time_lines_no_times(s: Seq<char>, i: int, zoned: bool)
    requires
        0 <= i,
        i < s.len() ==> i > 0 && (s[i - 1] == '\r' || s[i - 1] == '\n'),
        forall|k: int|
            0 < k < s.len() && (#[trigger] s[k] == 'r' || s[k] == 'z') ==> s[k - 1] != '\r' && s[k
                - 1] != '\n',
    ensures
        !endless_times_from(s, i, zoned),
    decreases s.len() - i,
{
    if i < s.len() {
        next_line_is_ahead(s, i);
        assert(s[i] != 'r' && s[i] != 'z');
        no_time_lines_no_times(s, next_line(s, i), false);
    }
}

proof fn first_times_bounds(s: Seq<char>, i: int)
    requires
        0 <= i,
    ensures
        0 <= first_times(s, i) <= s.len(),
    decreases s.len() - i,
{
    if i < s.len() {
        next_line_is_ahead(s, i);
        first_times_bounds(s, next_line(s, i));
    }
}

/// A calm text holds no endless time, nor does it with a line break behind it.
pub proof fn calm_texts_hold_no_time(s: Seq<char>)
    requires
        is_calm(s),
    ensures
        !has_endless_time(s + "\r\n"@),
{
    reveal_strlit("\r\n");
    let t = s + "\r\n"@;
    assert forall|k: int| 0 < k < t.len() && (#[trigger] t[k] == 'r' || t[k] == 'z') implies t[k
        - 1] != '\r' && t[k - 1] != '\n' by {
        assert(t[k] == s[k]);
        assert(t[k - 1] == s[k - 1]);
    }
    first_times_bounds(t, 0);
    let i = first_times(t, 0);
    if i < t.len() {
        next_line_is_ahead(t, i);
        no_time_lines_no_times(t, next_line(t, i), false);
    }
}

} // verus!
