//! What holds of the numbers that are dialled, of the history and of the phone
//! book.

use vstd::prelude::*;

use crate::text::{decimal, opt_text, piece_end, trimmed};
use crate::text_laws::lacks;
use crate::ui::contacts::{
    earlier, imported, listed_before, lists, lowercase_of, matches_filter, matching, merged,
    sort_keys, sorted_copy, with_contact, with_number, Contact, ContactView, ImportContact,
};
use crate::ui::dialing::{number_in, paused, post_dial_in, recording_name, safe_part};
use crate::ui::history::{
    ago, clock_label, kept, last_outgoing, recent_after, two_digits, unix_time, CallDirection,
    HistoryEntry,
};

verus! {

// ---------------------------------------------------------------------------
// Numbers

/// Whether a character stands for a key of a telephone.
pub open spec fn is_key(c: char) -> bool {
    48 <= c as int <= 57 || c == '*' || c == '#'
}

/// A number grows with each key that is typed before the first comma, a plus sign
/// only at its start; anything else typed there does not count.
pub proof fn keys_make_the_number(input: Seq<char>, c: char)
    requires
        lacks(input, ','),
        c != ',',
    ensures
        number_in(Seq::empty()).len() == 0,
        is_key(c) || (c == '+' && input.len() == 0) ==> number_in(input.push(c)) == number_in(
            input,
        ).push(c),
        !(is_key(c) || (c == '+' && input.len() == 0)) ==> number_in(input.push(c)) == number_in(
            input,
        ),
        post_dial_in(input).len() == 0,
{
    let t = input.push(c);
    no_comma(input, 0);
    assert forall|i: int| 0 <= i < t.len() implies #[trigger] t[i] != ',' by {
        if i < input.len() {
            assert(t[i] == input[i]);
        }
    }
    no_comma(t, 0);
    assert(input.take(input.len() as int) =~= input);
    assert(t.take(t.len() as int) =~= t);
    assert(t.drop_last() =~= input);
    assert(input.skip(input.len() as int) =~= Seq::<char>::empty());
    let none = Seq::<char>::empty();
    no_comma(none, 0);
    assert(none.take(0) =~= none);
}

proof fn no_comma(s: Seq<char>, i: int)
    requires
        lacks(s, ','),
        0 <= i <= s.len(),
    ensures
        piece_end(s, ',', i) == s.len(),
    decreases s.len() - i,
{
    if i < s.len() {
        no_comma(s, i + 1);
    }
}

/// From the first comma on, the number stays as it is; what follows it grows with
/// each key and each further comma, and starts with the first one.
pub proof fn keys_behind_a_comma_follow(input: Seq<char>, rest: Seq<char>, c: char)
    requires
        lacks(input, ','),
    ensures
        number_in(input + seq![','] + rest) == number_in(input),
        post_dial_in(input + seq![',']) == seq![','],
        is_key(c) || c == ',' ==> post_dial_in((input + seq![','] + rest).push(c)) == post_dial_in(
            input + seq![','] + rest,
        ).push(c),
        !(is_key(c) || c == ',') ==> post_dial_in((input + seq![','] + rest).push(c))
            == post_dial_in(input + seq![','] + rest),
{
    let n = input.len() as int;
    let s = input + seq![','] + rest;
    let t = s.push(c);
    let u = input + seq![','];
    no_comma(input, 0);
    first_comma(s, 0, n);
    first_comma(t, 0, n);
    first_comma(u, 0, n);
    assert(s.take(n) =~= input);
    assert(input.take(n) =~= input);
    assert(t.skip(n).drop_last() =~= s.skip(n));
    assert(t.skip(n).last() == c);
    assert(u.skip(n) =~= seq![',']);
    assert(seq![','].drop_last() =~= Seq::<char>::empty());
    reveal_with_fuel(paused, 2);
    assert(paused(seq![',']) =~= seq![',']);
}

proof fn first_comma(s: Seq<char>, i: int, n: int)
    requires
        0 <= i <= n < s.len(),
        forall|k: int| 0 <= k < n ==> #[trigger] s[k] != ',',
        s[n] == ',',
    ensures
        piece_end(s, ',', i) == n,
    decreases n - i,
{
    if i < n {
        first_comma(s, i + 1, n);
    }
}

/// The name of a recording says whom the call was with, how long it lasted and
/// when it ended; of the number, letters, digits, plus signs and hyphens are kept.
pub proof fn recordings_are_named(number: Seq<char>, c: char, secs: nat, ended: nat)
    ensures
        ({
            let fits = 48 <= c as int <= 57 || 65 <= c as int <= 90 || 97 <= c as int <= 122 || c
                == '+' || c == '-';
            &&& fits ==> safe_part(number.push(c)) == safe_part(number).push(c)
            &&& !fits ==> safe_part(number.push(c)) == safe_part(number)
        }),
        safe_part(Seq::empty()).len() == 0,
        recording_name(number, secs, ended as int) == (if safe_part(number).len() > 0 {
            safe_part(number)
        } else {
            "unknown"@
        }) + " ("@ + decimal(secs / 60) + "m"@ + two_digits(secs % 60) + "s) "@ + decimal(ended)
            + ".wav"@,
        ended > 0 ==> recording_name(number, secs, -(ended as int)) == (if safe_part(number).len()
            > 0 {
            safe_part(number)
        } else {
            "unknown"@
        }) + " ("@ + decimal(secs / 60) + "m"@ + two_digits(secs % 60) + "s) "@ + (seq!['-']
            + decimal(ended)) + ".wav"@,
{
    assert(number.push(c).drop_last() =~= number);
}

// ---------------------------------------------------------------------------
// Times

/// Minutes and seconds have two digits each, or more minutes.
pub proof fn times_have_two_digits(n: nat, secs: nat)
    ensures
        n < 10 ==> two_digits(n).len() == 2 && two_digits(n)[0] == '0' && two_digits(n)[1] as int
            == 48 + n,
        10 <= n < 100 ==> two_digits(n).len() == 2 && two_digits(n)[0] as int == 48 + n / 10
            && two_digits(n)[1] as int == 48 + n % 10,
        clock_label(secs) == two_digits(secs / 60) + seq![':'] + two_digits(secs % 60),
{
    reveal_with_fuel(decimal, 3);
}

/// A clock is believed to the second; one that shows a time before the epoch shows
/// the epoch.
pub proof fn clocks_are_believed(secs: u64)
    ensures
        secs <= i64::MAX ==> unix_time(Some(secs)) == secs,
        unix_time(None) == 0,
{
}

/// How long ago something was is told in the largest unit that fits: minutes,
/// hours, days, and weeks from thirty days on.
pub proof fn times_are_told_in_units(secs: int)
    ensures
        secs < 60 ==> ago(secs) == "just now"@,
        60 <= secs < 60 * 60 ==> ago(secs) == decimal((secs / 60) as nat) + "m ago"@,
        60 * 60 <= secs < 24 * 60 * 60 ==> ago(secs) == decimal((secs / 3600) as nat)
            + "h ago"@,
        24 * 60 * 60 <= secs < 30 * 24 * 60 * 60 ==> ago(secs) == decimal(
            (secs / 86400) as nat,
        ) + "d ago"@,
        30 * 24 * 60 * 60 <= secs ==> ago(secs) == decimal((secs / 604800) as nat)
            + "w ago"@,
{
}

// ---------------------------------------------------------------------------
// The history

/// The last two hundred calls are kept.
pub proof fn two_hundred_calls_are_kept(entries: Seq<HistoryEntry>)
    ensures
        entries.len() <= 200 ==> kept(entries) == entries,
        entries.len() > 200 ==> kept(entries).len() == 200 && forall|k: int|
            0 <= k < 200 ==> #[trigger] kept(entries)[k] == entries[entries.len() - 200 + k],
{
}

/// Without a call that was placed there is none to place again.
pub proof fn nothing_to_redial(entries: Seq<HistoryEntry>)
    requires
        forall|i: int|
            0 <= i < entries.len() ==> (#[trigger] entries[i]).direction == CallDirection::Incoming,
    ensures
        last_outgoing(entries) is None,
    decreases entries.len(),
{
    if entries.len() > 0 {
        let rest = entries.drop_last();
        assert(entries[entries.len() - 1].direction == CallDirection::Incoming);
        assert forall|i: int| 0 <= i < rest.len() implies (#[trigger] rest[i]).direction
            == CallDirection::Incoming by {
            assert(rest[i] == entries[i]);
        }
        nothing_to_redial(rest);
    }
}

/// Whether a call is the last one to a number.
pub open spec fn last_to(entries: Seq<HistoryEntry>, number: Seq<char>, p: int) -> bool {
    &&& 0 <= p < entries.len()
    &&& entries[p].direction == CallDirection::Outgoing
    &&& entries[p].number@ == number
    &&& forall|q: int|
        p < q < entries.len() ==> !((#[trigger] entries[q]).direction == CallDirection::Outgoing
            && entries[q].number@ == number)
}

/// The numbers that were called lately are listed by their last call, the latest
/// first, and none is left out unless the list is full.
pub proof fn recent_numbers_go_by_their_last_call(
    entries: Seq<HistoryEntry>,
    seen: Seq<Seq<char>>,
    most: nat,
    i: int,
    j: int,
    p: int,
    q: int,
)
    requires
        seen.no_duplicates(),
        seen.len() <= most,
    ensures
        ({
            let r = recent_after(entries, seen, most);
            &&& seen.len() <= i < j < r.len() && last_to(entries, r[i], p) && last_to(
                entries,
                r[j],
                q,
            ) ==> p > q
            &&& r.len() < most && 0 <= p < entries.len() && entries[p].direction
                == CallDirection::Outgoing ==> r.contains(entries[p].number@)
        }),
    decreases entries.len(),
{
    let r = recent_after(entries, seen, most);
    if entries.len() > 0 && seen.len() < most {
        let e = entries.last();
        let rest = entries.drop_last();
        let end = entries.len() - 1;
        let more = if e.direction == CallDirection::Outgoing && !seen.contains(e.number@) {
            seen.push(e.number@)
        } else {
            seen
        };
        assert(more.no_duplicates()) by {
            if more.len() > seen.len() {
                assert forall|x: int, y: int|
                    0 <= x < more.len() && 0 <= y < more.len() && x != y implies more[x]
                    != more[y] by {
                    if x < seen.len() && y < seen.len() {
                        assert(seen[x] != seen[y]);
                    } else if x < seen.len() {
                        assert(seen.contains(seen[x]));
                    } else {
                        assert(seen.contains(seen[y]));
                    }
                }
            }
        }
        crate::ui::history::recent_numbers_are_distinct(entries, seen, most);
        crate::ui::history::recent_numbers_are_distinct(rest, more, most);
        recent_numbers_go_by_their_last_call(rest, more, most, i, j, p, q);
        if seen.len() <= i < j < r.len() && last_to(entries, r[i], p) && last_to(
            entries,
            r[j],
            q,
        ) {
            assert(r[i] != r[j]);
            if e.direction == CallDirection::Outgoing {
                if more.len() > seen.len() {
                    assert(r[seen.len() as int] == e.number@);
                } else {
                    let x = choose|x: int| 0 <= x < seen.len() && seen[x] == e.number@;
                    assert(r[x] == seen[x]);
                    assert(r[x] != r[i] && r[x] != r[j]);
                }
            }
            if p < end {
                assert(rest[p] == entries[p]);
                assert forall|k: int| p < k < rest.len() implies !((
                #[trigger] rest[k]).direction == CallDirection::Outgoing && rest[k].number@
                    == r[i]) by {
                    assert(rest[k] == entries[k]);
                }
                assert(last_to(rest, r[i], p));
                assert(entries[end] == e);
            } else {
                assert(entries[p] == e);
            }
            if q < end {
                assert(rest[q] == entries[q]);
                assert forall|k: int| q < k < rest.len() implies !((
                #[trigger] rest[k]).direction == CallDirection::Outgoing && rest[k].number@
                    == r[j]) by {
                    assert(rest[k] == entries[k]);
                }
                assert(last_to(rest, r[j], q));
            } else {
                assert(entries[q] == e);
            }
        }
        if r.len() < most && 0 <= p < entries.len() && entries[p].direction
            == CallDirection::Outgoing {
            if p < end {
                assert(rest[p] == entries[p]);
            } else {
                assert(more.contains(e.number@)) by {
                    if more.len() > seen.len() {
                        assert(more[seen.len() as int] == e.number@);
                    }
                }
                let x = choose|x: int| 0 <= x < more.len() && more[x] == e.number@;
                assert(r[x] == more[x]);
            }
        }
    }
}

// ---------------------------------------------------------------------------
// The phone book

/// An entry of a file is taken by its name, or by its first and last names with a
/// blank between them, and by its number, or else its mobile, or else its
/// telephone number; one with neither a name nor a number is left out.
pub proof fn entries_become_contacts(e: ImportContact)
    ensures
        (e.name matches Some(n) && trimmed(n@).len() > 0) ==> (e.contact() matches Some(c) && Some(
            c.name,
        ) == opt_text(e.name)),
        ({
            &&& e.name is None
            &&& e.firstname matches Some(f)
            &&& e.lastname matches Some(l)
            &&& trimmed(f@ + seq![' '] + l@).len() > 0
        }) ==> (e.contact() matches Some(c) && c.name == trimmed(
            e.firstname->0@ + seq![' '] + e.lastname->0@,
        )),
        ({
            &&& e.name is None
            &&& e.firstname matches Some(f)
            &&& e.lastname is None
            &&& trimmed(f@).len() > 0
        }) ==> (e.contact() matches Some(c) && c.name == trimmed(e.firstname->0@)),
        ({
            &&& e.name is None
            &&& e.firstname is None
            &&& e.lastname matches Some(l)
            &&& trimmed(l@).len() > 0
        }) ==> (e.contact() matches Some(c) && c.name == trimmed(e.lastname->0@)),
        (e.number matches Some(n) && trimmed(n@).len() > 0) ==> (e.contact() matches Some(c)
            && c.number == e.number->0@),
        e.number is None && (e.mobile matches Some(n) && trimmed(n@).len() > 0) ==> (
        e.contact() matches Some(c) && c.number == e.mobile->0@),
        e.number is None && e.mobile is None && (e.phone matches Some(n) && trimmed(n@).len() > 0)
            ==> (e.contact() matches Some(c) && c.number == e.phone->0@),
        e.number is None && e.mobile is None && e.phone is None && (e.contact() matches Some(c))
            ==> e.contact()->0.number.len() == 0,
        e.name is None && e.firstname is None && e.lastname is None && e.number is None
            && e.mobile is None && e.phone is None ==> e.contact() is None,
{
    let none = Seq::<char>::empty();
    crate::text::blank_iff_trimmed_empty(none);
    if let Some(n) = e.name {
        crate::text::blank_iff_trimmed_empty(n@);
    }
    if let Some(n) = e.number {
        crate::text::blank_iff_trimmed_empty(n@);
    }
    if let Some(n) = e.mobile {
        crate::text::blank_iff_trimmed_empty(n@);
    }
    if let Some(n) = e.phone {
        crate::text::blank_iff_trimmed_empty(n@);
    }
    if let Some(f) = e.firstname {
        crate::text::blank_iff_trimmed_empty(f@);
        if let Some(l) = e.lastname {
            crate::text::blank_iff_trimmed_empty(f@ + seq![' '] + l@);
        }
    }
    if let Some(l) = e.lastname {
        crate::text::blank_iff_trimmed_empty(l@);
    }
}

/// The contacts of a file keep its order, and entries that are none are left out.
pub proof fn entries_keep_their_order(entries: Seq<ImportContact>, e: ImportContact)
    ensures
        imported(Seq::empty()).len() == 0,
        e.contact() matches Some(c) ==> imported(entries.push(e)) == imported(entries).push(c),
        e.contact() is None ==> imported(entries.push(e)) == imported(entries),
{
    assert(entries.push(e).drop_last() =~= entries);
}

/// A contact that is put into the phone book takes the place of the first one with
/// the same number, or stands at the end; the others stay where they are.
pub proof fn numbers_decide_on_the_place(contacts: Seq<ContactView>, c: ContactView, i: int)
    ensures
        ({
            &&& 0 <= i < contacts.len()
            &&& contacts[i].number == c.number
            &&& forall|k: int| 0 <= k < i ==> (#[trigger] contacts[k]).number != c.number
        }) ==> with_contact(contacts, c) == contacts.take(i) + seq![c] + contacts.skip(i + 1),
        (forall|k: int| 0 <= k < contacts.len() ==> (#[trigger] contacts[k]).number != c.number)
            ==> with_contact(contacts, c) == contacts + seq![c],
        merged(contacts, seq![c]) == with_contact(contacts, c),
        merged(contacts, Seq::empty()) == contacts,
{
    assert(contacts.push(c) =~= contacts + seq![c]);
    if forall|k: int| 0 <= k < contacts.len() ==> (#[trigger] contacts[k]).number != c.number {
        has_number(contacts, c.number, 0, contacts.len() as int);
    }
    if 0 <= i < contacts.len() && contacts[i].number == c.number && forall|k: int|
        0 <= k < i ==> (#[trigger] contacts[k]).number != c.number {
        has_number(contacts, c.number, 0, i);
        assert(contacts.update(i, c) =~= contacts.take(i) + seq![c] + contacts.skip(i + 1));
    }
    reveal_with_fuel(merged, 2);
    assert(seq![c].drop_last() =~= Seq::<ContactView>::empty());
    assert(seq![c].last() == c);
}

/// The first contact with a number is found, and none where there is none.
pub proof fn has_number(contacts: Seq<ContactView>, number: Seq<char>, from: int, i: int)
    requires
        0 <= from <= i <= contacts.len(),
        forall|k: int| from <= k < i ==> (#[trigger] contacts[k]).number != number,
        i < contacts.len() ==> contacts[i].number == number,
    ensures
        i < contacts.len() ==> with_number(contacts, number, from) == Some(i),
        i == contacts.len() ==> with_number(contacts, number, from) is None,
    decreases i - from,
{
    if from < i {
        has_number(contacts, number, from + 1, i);
    }
}

/// Names are ordered by the first character in which they differ; a name comes
/// before those that it begins.
pub proof fn names_go_by_their_first_difference(
    front: Seq<char>,
    x: Seq<char>,
    y: Seq<char>,
)
    ensures
        x.len() > 0 && y.len() > 0 && x[0] < y[0] ==> earlier(front + x, front + y),
        x.len() > 0 && y.len() > 0 && x[0] > y[0] ==> !earlier(front + x, front + y),
        x.len() > 0 ==> earlier(front, front + x) && !earlier(front + x, front),
        !earlier(front, front),
    decreases front.len(),
{
    if front.len() > 0 {
        let rest = front.drop_first();
        names_go_by_their_first_difference(rest, x, y);
        assert((front + x).drop_first() =~= rest + x);
        assert((front + y).drop_first() =~= rest + y);
        assert((front + x)[0] == front[0] && (front + y)[0] == front[0]);
    } else {
        assert(front + x =~= x);
        assert(front + y =~= y);
    }
}

/// A contact is found by any part of its number or of its name in lower case; all
/// are where nothing is searched for.
pub proof fn contacts_are_found_by_parts(
    x: Seq<char>,
    part: Seq<char>,
    y: Seq<char>,
    c: ContactView,
)
    ensures
        matches_filter(c, Seq::empty()),
        c.number == x + part + y ==> matches_filter(c, part),
        lowercase_of(c.name) == x + part + y ==> matches_filter(c, part),
        matches_filter(c, part) && part.len() > 0 ==> exists|s: Seq<char>, t: Seq<char>|
            c.number == #[trigger] (s + part + t) || lowercase_of(c.name) == s + part + t,
{
    crate::text_laws::parts_are_found_where_they_stand(x, part, y, 0);
    if matches_filter(c, part) && part.len() > 0 {
        let s = if crate::text::contains_text(c.number, part) {
            c.number
        } else {
            lowercase_of(c.name)
        };
        let i = choose|i: int| crate::text::occurs_at(s, part, i);
        crate::text_laws::parts_are_found_where_they_stand(s, part, y, i);
        assert(s == s.take(i) + part + s.skip(i + part.len()));
    }
}

proof fn only_one_is_earlier(x: Seq<char>, y: Seq<char>)
    ensures
        !(earlier(x, y) && earlier(y, x)),
    decreases x.len(),
{
    if x.len() > 0 && y.len() > 0 {
        only_one_is_earlier(x.drop_first(), y.drop_first());
    }
}

proof fn matching_places(contacts: Seq<Contact>, filter: Seq<char>, upto: int)
    requires
        0 <= upto <= contacts.len() <= usize::MAX,
    ensures
        matching(contacts, filter, upto).no_duplicates(),
        forall|k: int|
            0 <= k < matching(contacts, filter, upto).len() ==> #[trigger] matching(
                contacts,
                filter,
                upto,
            )[k] < upto && matches_filter(
                contacts[matching(contacts, filter, upto)[k] as int]@,
                filter,
            ),
        forall|i: int|
            0 <= i < upto && matches_filter((#[trigger] contacts[i])@, filter) ==> matching(
                contacts,
                filter,
                upto,
            ).contains(i as usize),
    decreases upto,
{
    if upto > 0 {
        matching_places(contacts, filter, upto - 1);
        let before = matching(contacts, filter, upto - 1);
        let now = matching(contacts, filter, upto);
        let last = (upto - 1) as usize;
        if matches_filter(contacts[upto - 1]@, filter) {
            assert(now == before.push(last));
            assert(now[before.len() as int] == last);
        }
        assert forall|i: int|
            0 <= i < upto && matches_filter((#[trigger] contacts[i])@, filter) implies now.contains(
            i as usize,
        ) by {
            if i < upto - 1 {
                let k = choose|k: int| 0 <= k < before.len() && before[k] == i as usize;
                assert(now[k] == before[k]);
            }
        }
    }
}

/// The phone book lists exactly the contacts that match what is searched for, each
/// once, and none before another whose name in lower case comes earlier.
pub proof fn lists_hold_what_matches(
    contacts: Seq<Contact>,
    filter: Seq<char>,
    places: Seq<usize>,
    i: usize,
    x: int,
    y: int,
)
    requires
        lists(contacts, filter, places),
        contacts.len() <= usize::MAX,
    ensures
        places.contains(i) <==> i < contacts.len() && matches_filter(contacts[i as int]@, filter),
        0 <= x < y < places.len() ==> places[x] != places[y] && !earlier(
            lowercase_of(contacts[places[y] as int].name@),
            lowercase_of(contacts[places[x] as int].name@),
        ),
{
    broadcast use vstd::seq_lib::group_to_multiset_ensures;

    let all = matching(contacts, filter, contacts.len() as int);
    matching_places(contacts, filter, contacts.len() as int);
    assert(places.contains(i) <==> places.to_multiset().count(i) > 0);
    assert(all.contains(i) <==> all.to_multiset().count(i) > 0);
    if all.contains(i) {
        let k = choose|k: int| 0 <= k < all.len() && all[k] == i;
        assert(all[k] < contacts.len());
    }
    if i < contacts.len() && matches_filter(contacts[i as int]@, filter) {
        assert(all.contains(i));
    }
    if 0 <= x < y < places.len() {
        let keys = sort_keys(contacts);
        assert(listed_before(keys, places[x] as int, places[y] as int));
        assert(keys[places[x] as int] == lowercase_of(contacts[places[x] as int].name@));
        assert(keys[places[y] as int] == lowercase_of(contacts[places[y] as int].name@));
        only_one_is_earlier(keys[places[x] as int], keys[places[y] as int]);
    }
}

/// The phone book is saved in order: no one stands before another whose name in
/// lower case comes earlier.
pub proof fn saved_contacts_are_in_order(
    contacts: Seq<Contact>,
    sorted: Seq<Contact>,
    x: int,
    y: int,
)
    requires
        sorted_copy(contacts, sorted),
        contacts.len() <= usize::MAX,
        0 <= x < y < sorted.len(),
    ensures
        !earlier(lowercase_of(sorted[y].name@), lowercase_of(sorted[x].name@)),
{
    let places = choose|places: Seq<usize>|
        #[trigger] lists(contacts, Seq::empty(), places) && sorted.len() == places.len() && forall|
            k: int,
        |
            0 <= k < places.len() ==> #[trigger] sorted[k] == contacts[places[k] as int];
    lists_hold_what_matches(contacts, Seq::empty(), places, 0, x, y);
    assert(sorted[x] == contacts[places[x] as int]);
    assert(sorted[y] == contacts[places[y] as int]);
}

} // verus!
