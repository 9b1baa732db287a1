//! What holds of texts, numbers and their parts.

use vstd::prelude::*;

use crate::text::{
    contains_text, decimal, digits_value, first_of, hexadecimal, is_blank, is_space, occurs_at,
    piece_end, pieces, pieces_from, trim_end, trim_start, trimmed, unsigned, unsigned_digits,
    word_end, words, words_from,
};

verus! {

// ---------------------------------------------------------------------------
// Numbers

/// A number is written digit by digit in base ten: its last digit is what is left
/// when it is divided by ten, and what stands before is the quotient.
pub proof fn decimal_goes_by_tens(n: nat)
    ensures
        n < 10 ==> decimal(n).len() == 1,
        decimal(n).len() > 0,
        decimal(n).last() as int == 48 + n % 10,
        n >= 10 ==> decimal(n).drop_last() == decimal(n / 10),
        n > 0 ==> decimal(n)[0] as int != 48,
    decreases n,
{
    if n >= 10 {
        decimal_goes_by_tens(n / 10);
        assert(decimal(n).drop_last() =~= decimal(n / 10));
    }
}

/// In base sixteen, letters stand for ten to fifteen.
pub proof fn hexadecimal_goes_by_sixteens(n: nat)
    ensures
        n < 16 ==> hexadecimal(n).len() == 1,
        hexadecimal(n).len() > 0,
        n % 16 < 10 ==> hexadecimal(n).last() as int == 48 + n % 16,
        n % 16 >= 10 ==> hexadecimal(n).last() as int == 97 + (n % 16 - 10),
        n >= 16 ==> hexadecimal(n).drop_last() == hexadecimal(n / 16),
        n > 0 ==> hexadecimal(n)[0] as int != 48,
    decreases n,
{
    if n >= 16 {
        hexadecimal_goes_by_sixteens(n / 16);
        assert(hexadecimal(n).drop_last() =~= hexadecimal(n / 16));
    }
}

/// Whether a text is made of the ten digits.
pub open spec fn all_digits(s: Seq<char>) -> bool {
    forall|i: int| 0 <= i < s.len() ==> 48 <= (#[trigger] s[i]) as int <= 57
}

/// Numbers are read digit by digit: each digit that is added counts, and those
/// before it ten times as much. A plus sign may stand before them. Nothing else is
/// a number, nor is one that is too large.
pub proof fn numbers_are_read_by_tens(s: Seq<char>, c: char, v: nat, max: nat)
    ensures
        all_digits(seq![c]) ==> unsigned(seq![c], max) == if (c as int - 48) as nat <= max {
            Some((c as int - 48) as nat)
        } else {
            None
        },
        all_digits(s) && all_digits(seq![c]) && unsigned(s, max) == Some(v) ==> unsigned(
            s.push(c),
            max,
        ) == if 10 * v + (c as int - 48) <= max {
            Some((10 * v + (c as int - 48)) as nat)
        } else {
            None
        },
        s.len() > 0 && all_digits(s) ==> unsigned(seq!['+'] + s, max) == unsigned(s, max),
        unsigned(Seq::empty(), max) is None,
        unsigned(seq!['+'], max) is None,
        unsigned(s, max) matches Some(n) ==> n <= max,
        s.len() > 0 && !all_digits(s) && s[0] != '+' ==> unsigned(s, max) is None,
        s.len() > 0 && !all_digits(s.skip(1)) ==> unsigned(s, max) is None,
{
    let one = seq![c];
    assert(all_digits(one) ==> one[0] as int >= 48);
    assert(one.drop_last() =~= Seq::<char>::empty());
    reveal_with_fuel(digits_value, 3);
    assert(all_digits(one) ==> 48 <= c as int <= 57) by {
        assert(one[0] == c);
    }
    if all_digits(s) && all_digits(one) && unsigned(s, max) == Some(v) {
        assert(s.len() > 0 ==> 48 <= s[0] as int <= 57);
        assert(unsigned_digits(s) == s);
        let t = s.push(c);
        assert(t[0] == s[0]);
        assert(unsigned_digits(t) == t);
        assert(t.drop_last() =~= s);
        assert(digits_value(t) == 10 * digits_value(s) + (c as int - 48) as nat);
        assert forall|i: int| 0 <= i < t.len() implies crate::text::is_digit(#[trigger] t[i]) by {
            if i < s.len() {
                assert(t[i] == s[i]);
                assert(48 <= s[i] as int <= 57);
            }
        }
    }
    if s.len() > 0 && all_digits(s) {
        let t = seq!['+'] + s;
        assert(t.skip(1) =~= s);
        assert(48 <= s[0] as int <= 57);
        assert(unsigned_digits(s) == s);
    }
    assert(seq!['+'].skip(1) =~= Seq::<char>::empty());
    if s.len() > 0 && !all_digits(s) && s[0] != '+' {
        let i = choose|i: int| 0 <= i < s.len() && !(48 <= (#[trigger] s[i]) as int <= 57);
        assert(!crate::text::is_digit(s[i]));
    }
    if s.len() > 0 && !all_digits(s.skip(1)) {
        let t = s.skip(1);
        let i = choose|i: int| 0 <= i < t.len() && !(48 <= (#[trigger] t[i]) as int <= 57);
        assert(!crate::text::is_digit(t[i]));
        assert(s[i + 1] == t[i]);
    }
}

// ---------------------------------------------------------------------------
// White space

/// Among the first 128 characters, white space is the blank, the tab, the ends of
/// lines and of pages, and nothing else.
pub proof fn plain_white_space(c: char)
    requires
        (c as int) < 128,
    ensures
        is_space(c) <==> c as int == 32 || 9 <= c as int <= 13,
{
}

/// Trimming cuts white space off both ends and nothing else: what is left stands
/// in the text, neither begins nor ends with white space, and all that was cut off
/// is white space.
pub proof fn trimming_cuts_the_ends(s: Seq<char>)
    ensures
        exists|i: int, j: int|
            0 <= i <= j <= s.len() && trimmed(s) == #[trigger] s.subrange(i, j) && is_blank(
                s.subrange(0, i),
            ) && is_blank(s.subrange(j, s.len() as int)),
        trimmed(s).len() > 0 ==> !is_space(trimmed(s)[0]) && !is_space(trimmed(s).last()),
{
    let t = trim_start(s);
    start_is_cut(s);
    end_is_cut(t);
    let u = trim_end(t);
    let i = s.len() - t.len();
    let j = i + u.len();
    assert(t =~= s.subrange(i, s.len() as int));
    assert(u =~= s.subrange(i, j));
    assert(s.subrange(j, s.len() as int) =~= t.subrange(u.len() as int, t.len() as int));
    if u.len() > 0 {
        assert(u[0] == t[0]);
    }
}

proof fn start_is_cut(s: Seq<char>)
    ensures
        trim_start(s).len() <= s.len(),
        trim_start(s) == s.subrange(s.len() - trim_start(s).len(), s.len() as int),
        is_blank(s.subrange(0, s.len() - trim_start(s).len())),
        trim_start(s).len() > 0 ==> !is_space(trim_start(s)[0]),
    decreases s.len(),
{
    let t = trim_start(s);
    if s.len() > 0 && is_space(s[0]) {
        let r = s.drop_first();
        start_is_cut(r);
        assert(t =~= s.subrange(s.len() - t.len(), s.len() as int));
        let cut = s.subrange(0, s.len() - t.len());
        let less = r.subrange(0, r.len() - t.len());
        assert forall|k: int| 0 <= k < cut.len() implies is_space(#[trigger] cut[k]) by {
            if k > 0 {
                assert(cut[k] == less[k - 1]);
            }
        }
    } else {
        assert(t =~= s.subrange(0, s.len() as int));
        assert(s.subrange(0, 0) =~= Seq::<char>::empty());
    }
}

proof fn end_is_cut(s: Seq<char>)
    ensures
        trim_end(s).len() <= s.len(),
        trim_end(s) == s.subrange(0, trim_end(s).len() as int),
        is_blank(s.subrange(trim_end(s).len() as int, s.len() as int)),
        trim_end(s).len() > 0 ==> !is_space(trim_end(s).last()),
    decreases s.len(),
{
    let t = trim_end(s);
    if s.len() > 0 && is_space(s.last()) {
        let r = s.drop_last();
        end_is_cut(r);
        assert(t =~= s.subrange(0, t.len() as int));
        let cut = s.subrange(t.len() as int, s.len() as int);
        let less = r.subrange(t.len() as int, r.len() as int);
        assert forall|k: int| 0 <= k < cut.len() implies is_space(#[trigger] cut[k]) by {
            if k < less.len() {
                assert(cut[k] == less[k]);
            }
        }
    } else {
        assert(t =~= s.subrange(0, s.len() as int));
        assert(s.subrange(s.len() as int, s.len() as int) =~= Seq::<char>::empty());
    }
}

// ---------------------------------------------------------------------------
// Parts

/// Whether a character stands nowhere in a text.
pub open spec fn lacks(s: Seq<char>, c: char) -> bool {
    forall|i: int| 0 <= i < s.len() ==> #[trigger] s[i] != c
}

/// Whether a text holds no white space.
pub open spec fn is_solid(s: Seq<char>) -> bool {
    forall|i: int| 0 <= i < s.len() ==> !is_space(#[trigger] s[i])
}

/// A text is parted at each occurrence of a character: what stands before the
/// first is a piece, and what stands behind it is parted in the same way.
pub proof fn texts_are_parted_at_a_character(first: Seq<char>, c: char, rest: Seq<char>)
    requires
        lacks(first, c),
    ensures
        pieces(first, c) == seq![first],
        pieces(first + seq![c] + rest, c) == seq![first] + pieces(rest, c),
{
    let n = first.len() as int;
    end_of_piece(first, c, 0, n);
    assert(first.subrange(0, n) =~= first);
    let s = first + seq![c] + rest;
    end_of_piece(s, c, 0, n);
    assert(s.subrange(0, n) =~= first);
    let front = first + seq![c];
    later_pieces(front, rest, c, 0);
    assert(s == front + rest);
}

proof fn end_of_piece(s: Seq<char>, c: char, i: int, n: int)
    requires
        0 <= i <= n <= s.len(),
        forall|k: int| i <= k < n ==> #[trigger] s[k] != c,
        n < s.len() ==> s[n] == c,
    ensures
        piece_end(s, c, i) == n,
    decreases n - i,
{
    if i < n {
        end_of_piece(s, c, i + 1, n);
    }
}

proof fn ends_behind(front: Seq<char>, s: Seq<char>, c: char, i: int)
    requires
        0 <= i <= s.len(),
    ensures
        piece_end(front + s, c, front.len() + i) == front.len() + piece_end(s, c, i),
        i <= piece_end(s, c, i) <= s.len(),
    decreases s.len() - i,
{
    let t = front + s;
    if i < s.len() {
        assert(t[front.len() + i] == s[i]);
        if s[i] != c {
            ends_behind(front, s, c, i + 1);
        }
    }
}

proof fn later_pieces(front: Seq<char>, s: Seq<char>, c: char, i: int)
    requires
        0 <= i <= s.len(),
    ensures
        pieces_from(front + s, c, front.len() + i) == pieces_from(s, c, i),
    decreases s.len() - i,
{
    let t = front + s;
    let e = piece_end(s, c, i);
    ends_behind(front, s, c, i);
    if e >= s.len() {
        assert(t.subrange(front.len() + i, t.len() as int) =~= s.subrange(i, s.len() as int));
    } else {
        assert(t.subrange(front.len() + i, front.len() + e) =~= s.subrange(i, e));
        later_pieces(front, s, c, e + 1);
    }
}

/// The words of a text are what stands between white space: white space before the
/// first does not count, and behind each word the rest is read in the same way.
pub proof fn words_stand_between_white_space(word: Seq<char>, c: char, rest: Seq<char>)
    requires
        word.len() > 0,
        is_solid(word),
        is_space(c),
    ensures
        words(word) == seq![word],
        words(word + seq![c] + rest) == seq![word] + words(rest),
        words(seq![c] + rest) == words(rest),
        words(Seq::empty()).len() == 0,
{
    let n = word.len() as int;
    end_of_word(word, 0, n);
    assert(word.subrange(0, n) =~= word);
    assert(words_from(word, n) =~= seq![]);
    assert(words(word) =~= seq![word]);
    let s = word + seq![c] + rest;
    end_of_word(s, 0, n);
    assert(s.subrange(0, n) =~= word);
    let front = word + seq![c];
    assert(s == front + rest);
    assert(s[n] == c);
    later_words(front, rest, 0);
    assert(words_from(s, n) == words_from(s, n + 1));
    let blank = seq![c];
    later_words(blank, rest, 0);
    assert((blank + rest)[0] == c);
}

proof fn end_of_word(s: Seq<char>, i: int, n: int)
    requires
        0 <= i <= n <= s.len(),
        forall|k: int| i <= k < n ==> !is_space(#[trigger] s[k]),
        n < s.len() ==> is_space(s[n]),
    ensures
        word_end(s, i) == n,
    decreases n - i,
{
    if i < n {
        end_of_word(s, i + 1, n);
    }
}

proof fn word_ends_behind(front: Seq<char>, s: Seq<char>, i: int)
    requires
        0 <= i <= s.len(),
    ensures
        word_end(front + s, front.len() + i) == front.len() + word_end(s, i),
        i <= word_end(s, i) <= s.len(),
    decreases s.len() - i,
{
    let t = front + s;
    if i < s.len() {
        assert(t[front.len() + i] == s[i]);
        if !is_space(s[i]) {
            word_ends_behind(front, s, i + 1);
        }
    }
}

proof fn later_words(front: Seq<char>, s: Seq<char>, i: int)
    requires
        0 <= i <= s.len(),
    ensures
        words_from(front + s, front.len() + i) == words_from(s, i),
    decreases s.len() - i,
{
    let t = front + s;
    if i < s.len() {
        assert(t[front.len() + i] == s[i]);
        if is_space(s[i]) {
            later_words(front, s, i + 1);
        } else {
            let e = word_end(s, i);
            word_ends_behind(front, s, i);
            word_ends_behind(front, s, i + 1);
            assert(e > i);
            assert(t.subrange(front.len() + i, front.len() + e) =~= s.subrange(i, e));
            later_words(front, s, e);
        }
    }
}

/// A text is found exactly where it stands, and first where it stands first.
pub proof fn parts_are_found_where_they_stand(x: Seq<char>, part: Seq<char>, y: Seq<char>, i: int)
    ensures
        occurs_at(x + part + y, part, x.len() as int),
        contains_text(x + part + y, part),
        first_of(x + part + y, part) matches Some(k) && 0 <= k <= x.len(),
        occurs_at(x, part, i) ==> x == x.take(i) + part + x.skip(i + part.len()),
        contains_text(x, part) <==> first_of(x, part) is Some,
        first_of(x, part) matches Some(k) ==> 0 <= k && k + part.len() <= x.len() && x.subrange(
            k,
            k + part.len(),
        ) == part,
{
    let s = x + part + y;
    let n = x.len() as int;
    assert(s.subrange(n, n + part.len()) =~= part);
    assert(occurs_at(s, part, n));
    crate::text::first_from_is_least(s, part, 0);
    crate::text::first_from_is_least(x, part, 0);
    if occurs_at(x, part, i) {
        assert(x =~= x.take(i) + x.subrange(i, i + part.len()) + x.skip(i + part.len()));
    }
    if contains_text(x, part) {
        let k = choose|k: int| occurs_at(x, part, k);
        assert(occurs_at(x, part, k));
    }
}

} // verus!
