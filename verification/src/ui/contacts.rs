//! The phone book.

use vstd::prelude::*;

use crate::text::{
    blank, chars, contains_text, copy_text, has_text, is_blank, opt_text, push_all, same_text,
    texts, trim, trimmed,
};

verus! {

/// Someone to call.
#[derive(Debug)]
pub struct Contact {
    pub name: String,
    pub number: String,
}

/// Someone to call, as a plain value.
pub struct ContactView {
    pub name: Seq<char>,
    pub number: Seq<char>,
}

impl View for Contact {
    type V = ContactView;

    open spec fn view(&self) -> ContactView {
        ContactView { name: self.name@, number: self.number@ }
    }
}

/// A phone book as plain values.
pub open spec fn people(contacts: Seq<Contact>) -> Seq<ContactView> {
    contacts.map_values(|c: Contact| c@)
}

impl Contact {
    /// A copy of it.
    pub fn copy(&self) -> (r: Self)
        ensures
            r == *self,
    {
        Contact { name: self.name.clone(), number: self.number.clone() }
    }
}

// ---------------------------------------------------------------------------
// Import

/// An entry of a phone book to import. Other programs split names, and call
/// numbers by other words.
#[derive(Debug)]
pub struct ImportContact {
    pub name: Option<String>,
    pub firstname: Option<String>,
    pub lastname: Option<String>,
    pub number: Option<String>,
    pub mobile: Option<String>,
    pub phone: Option<String>,
}

impl Default for ImportContact {
    fn default() -> (r: Self)
        ensures
            r.name is None,
            r.firstname is None,
            r.lastname is None,
            r.number is None,
            r.mobile is None,
            r.phone is None,
    {
        ImportContact {
            name: None,
            firstname: None,
            lastname: None,
            number: None,
            mobile: None,
            phone: None,
        }
    }
}

/// A text, or the empty text where there is none.
pub open spec fn or_empty(s: Option<Seq<char>>) -> Seq<char> {
    match s {
        Some(s) => s,
        None => Seq::empty(),
    }
}

/// Two parts of a name with a blank between them, if both are there.
pub open spec fn full_name(first: Option<Seq<char>>, last: Option<Seq<char>>) -> Seq<char> {
    match (first, last) {
        (Some(a), Some(b)) => a + seq![' '] + b,
        (Some(a), None) => a,
        (None, Some(b)) => b,
        (None, None) => Seq::empty(),
    }
}

impl ImportContact {
    /// The name: as it stands, or put together of its parts; none if that is
    /// blank.
    pub open spec fn name_of(self) -> Option<Seq<char>> {
        let combined = full_name(opt_text(self.firstname), opt_text(self.lastname));
        match self.name {
            Some(name) if !is_blank(name@) => Some(name@),
            _ => if is_blank(combined) {
                None
            } else {
                Some(trimmed(combined))
            },
        }
    }

    /// The first number that is there.
    pub open spec fn first_number(self) -> Option<Seq<char>> {
        match (self.number, self.mobile, self.phone) {
            (Some(n), _, _) => Some(n@),
            (None, Some(n), _) => Some(n@),
            (None, None, Some(n)) => Some(n@),
            (None, None, None) => None,
        }
    }

    /// The number: the first that is there; none if that is blank.
    pub open spec fn number_of(self) -> Option<Seq<char>> {
        match self.first_number() {
            Some(n) if !is_blank(n) => Some(n),
            _ => None,
        }
    }

    /// The contact, unless the entry has neither a name nor a number. Where one
    /// of them is missing, what the entry has in its place is taken as it
    /// stands.
    pub open spec fn contact(self) -> Option<ContactView> {
        if self.name_of() is None && self.number_of() is None {
            None
        } else {
            Some(
                ContactView {
                    name: or_empty(
                        if self.name_of() is Some {
                            self.name_of()
                        } else {
                            opt_text(self.name)
                        },
                    ),
                    number: or_empty(self.first_number()),
                },
            )
        }
    }

    /// The name, and whether it is one.
    fn take_name(name: Option<String>, first: Option<String>, last: Option<String>) -> (r: (
        String,
        bool,
    ))
        ensures
            ({
                let named = (ImportContact {
                    name,
                    firstname: first,
                    lastname: last,
                    number: None,
                    mobile: None,
                    phone: None,
                }).name_of();
                &&& r.1 == (named is Some)
                &&& r.0@ == or_empty(
                    if named is Some {
                        named
                    } else {
                        opt_text(name)
                    },
                )
            }),
    {
        let plain: String = match name {
            Some(name) => {
                if !blank(name.as_str()) {
                    return (name, true);
                }
                name
            },
            None => String::new(),
        };
        assert(plain@ =~= or_empty(opt_text(name)));
        let combined: String = match (first, last) {
            (Some(a), Some(b)) => {
                let mut s = copy_text(a.as_str());
                s.push(' ');
                push_all(&mut s, b.as_str());
                proof {
                    assert(s@ =~= a@ + seq![' '] + b@);
                }
                s
            },
            (Some(a), None) => a,
            (None, Some(b)) => b,
            (None, None) => String::new(),
        };
        if blank(combined.as_str()) {
            (plain, false)
        } else {
            (trim(combined.as_str()), true)
        }
    }

    /// The contact, unless the entry has neither a name nor a number.
    pub fn into_contact(self) -> (r: Option<Contact>)
        ensures
            match r {
                Some(c) => self.contact() == Some(c@),
                None => self.contact() is None,
            },
    {
        let (name, named) = Self::take_name(self.name, self.firstname, self.lastname);
        let number: String = match (self.number, self.mobile, self.phone) {
            (Some(n), _, _) => n,
            (None, Some(n), _) => n,
            (None, None, Some(n)) => n,
            (None, None, None) => String::new(),
        };
        assert(number@ =~= or_empty(self.first_number()));
        if !named && blank(number.as_str()) {
            None
        } else {
            Some(Contact { name, number })
        }
    }
}

/// The contacts among the entries; entries without both a name and a number are
/// left out.
pub open spec fn imported(entries: Seq<ImportContact>) -> Seq<ContactView>
    decreases entries.len(),
{
    if entries.len() == 0 {
        Seq::empty()
    } else {
        let before = imported(entries.drop_last());
        match entries.last().contact() {
            Some(c) => before.push(c),
            None => before,
        }
    }
}

/// The contacts among the entries.
pub fn import_entries(entries: Vec<ImportContact>) -> (r: Vec<Contact>)
    ensures
        people(r@) == imported(entries@),
{
    let ghost all = entries@;
    let mut rest = entries;
    let mut reversed: Vec<ImportContact> = Vec::new();
    while rest.len() > 0
        invariant
            rest@.len() <= all.len(),
            rest@ == all.take(rest@.len() as int),
            reversed@ == all.skip(rest@.len() as int).reverse(),
        decreases rest.len(),
    {
        let ghost n = rest@.len() as int;
        let e = rest.pop();
        if let Some(e) = e {
            reversed.push(e);
            proof {
                assert(rest@ =~= all.take(n - 1));
                assert(reversed@ =~= all.skip(n - 1).reverse());
            }
        }
    }
    let mut r: Vec<Contact> = Vec::new();
    proof {
        assert(reversed@.reverse() =~= all);
        assert(people(r@) =~= imported(all.take(0)));
    }
    while reversed.len() > 0
        invariant
            reversed@.len() <= all.len(),
            reversed@ == all.skip(all.len() - reversed@.len()).reverse(),
            people(r@) == imported(all.take(all.len() - reversed@.len())),
        decreases reversed.len(),
    {
        let ghost n = reversed@.len() as int;
        let ghost done = all.len() - n;
        let e = reversed.pop();
        if let Some(e) = e {
            proof {
                assert(e == all[done]);
                assert(reversed@ =~= all.skip(done + 1).reverse());
                assert(all.take(done + 1).drop_last() =~= all.take(done));
            }
            let ghost before = r@;
            if let Some(c) = e.into_contact() {
                r.push(c);
                proof {
                    assert(people(r@) =~= people(before).push(c@));
                }
            }
        }
    }
    proof {
        assert(all.take(all.len() as int) =~= all);
    }
    r
}

/// Whether an entry is what a contact is exported as: its name and its number.
pub open spec fn exported_as(entry: ImportContact, c: ContactView) -> bool {
    &&& opt_text(entry.name) == Some(c.name)
    &&& opt_text(entry.number) == Some(c.number)
    &&& entry.firstname is None && entry.lastname is None
    &&& entry.mobile is None && entry.phone is None
}

/// Contacts that were exported are imported as they were, in the same order,
/// but for those that have neither a name nor a number.
pub proof fn exports_read_back(contacts: Seq<ContactView>, entries: Seq<ImportContact>)
    requires
        entries.len() == contacts.len(),
        forall|i: int|
            0 <= i < contacts.len() ==> exported_as(#[trigger] entries[i], contacts[i]),
        forall|i: int|
            0 <= i < contacts.len() ==> !(is_blank((#[trigger] contacts[i]).name) && is_blank(
                contacts[i].number,
            )),
    ensures
        imported(entries) == contacts,
    decreases contacts.len(),
{
    if contacts.len() > 0 {
        let last = contacts.len() - 1;
        assert forall|i: int| 0 <= i < last implies exported_as(
            #[trigger] entries.drop_last()[i],
            contacts.drop_last()[i],
        ) by {
            assert(exported_as(entries[i], contacts[i]));
        }
        exports_read_back(contacts.drop_last(), entries.drop_last());
        let e = entries[last];
        assert(exported_as(e, contacts[last]));
        assert(!(is_blank(contacts[last].name) && is_blank(contacts[last].number)));
        assert(is_blank(full_name(None, None)));
        assert(e.contact() == Some(contacts[last]));
        assert(imported(entries) =~= contacts);
    } else {
        assert(imported(entries) =~= contacts);
    }
}

/// The first contact from a position on that has a number.
pub open spec fn with_number(contacts: Seq<ContactView>, number: Seq<char>, from: int) -> Option<int>
    decreases contacts.len() - from,
{
    if from < 0 || from >= contacts.len() {
        None
    } else if contacts[from].number == number {
        Some(from)
    } else {
        with_number(contacts, number, from + 1)
    }
}

/// A phone book with a contact in it: in the place of the one with the same
/// number, or at the end.
pub open spec fn with_contact(contacts: Seq<ContactView>, c: ContactView) -> Seq<ContactView> {
    match with_number(contacts, c.number, 0) {
        Some(i) => contacts.update(i, c),
        None => contacts.push(c),
    }
}

/// A phone book with others put into it, one after the other.
pub open spec fn merged(contacts: Seq<ContactView>, others: Seq<ContactView>) -> Seq<ContactView>
    decreases others.len(),
{
    if others.len() == 0 {
        contacts
    } else {
        with_contact(merged(contacts, others.drop_last()), others.last())
    }
}

/// The place of the first contact that has a number.
pub fn find_number(contacts: &Vec<Contact>, number: &str) -> (r: Option<usize>)
    ensures
        match r {
            Some(i) => i < contacts@.len() && with_number(people(contacts@), number@, 0) == Some(
                i as int,
            ),
            None => with_number(people(contacts@), number@, 0) is None,
        },
{
    let mut i: usize = 0;
    proof {
        assert(people(contacts@).len() == contacts@.len());
    }
    while i < contacts.len()
        invariant
            i <= contacts@.len(),
            people(contacts@).len() == contacts@.len(),
            with_number(people(contacts@), number@, 0) == with_number(
                people(contacts@),
                number@,
                i as int,
            ),
        decreases contacts.len() - i,
    {
        proof {
            assert(people(contacts@)[i as int] == contacts@[i as int]@);
        }
        if same_text(contacts[i].number.as_str(), number) {
            return Some(i);
        }
        i += 1;
    }
    None
}

/// Puts contacts into a phone book, one after the other.
pub fn merge_contacts(contacts: &mut Vec<Contact>, others: &Vec<Contact>)
    ensures
        people(final(contacts)@) == merged(people(old(contacts)@), people(others@)),
{
    let ghost start = people(contacts@);
    let ghost all = people(others@);
    let mut i: usize = 0;
    proof {
        assert(all.len() == others@.len());
        assert(merged(start, all.take(0)) == start);
    }
    while i < others.len()
        invariant
            i <= others@.len(),
            all == people(others@),
            all.len() == others@.len(),
            people(contacts@) == merged(start, all.take(i as int)),
        decreases others.len() - i,
    {
        let c = others[i].copy();
        let ghost before = contacts@;
        proof {
            assert(all[i as int] == c@);
            assert(all.take(i + 1).drop_last() =~= all.take(i as int));
            assert(all.take(i + 1).last() == c@);
        }
        match find_number(contacts, c.number.as_str()) {
            Some(k) => {
                contacts[k] = c;
                proof {
                    assert(people(contacts@) =~= people(before).update(k as int, c@));
                }
            },
            None => {
                contacts.push(c);
                proof {
                    assert(people(contacts@) =~= people(before).push(c@));
                }
            },
        }
        i += 1;
    }
    proof {
        assert(all.take(i as int) =~= all);
    }
}

/// Whether no number occurs twice in a phone book.
pub open spec fn distinct_numbers(contacts: Seq<ContactView>) -> bool {
    forall|i: int, j: int|
        0 <= i < j < contacts.len() ==> (#[trigger] contacts[i]).number != (
        #[trigger] contacts[j]).number
}

proof fn with_number_is_first(contacts: Seq<ContactView>, number: Seq<char>, from: int)
    requires
        0 <= from,
    ensures
        match with_number(contacts, number, from) {
            Some(i) => from <= i < contacts.len() && contacts[i].number == number,
            None => forall|i: int|
                from <= i < contacts.len() ==> (#[trigger] contacts[i]).number != number,
        },
    decreases contacts.len() - from,
{
    if from < contacts.len() && contacts[from].number != number {
        with_number_is_first(contacts, number, from + 1);
    }
}

/// Importing loses no one and doubles no one: every number of the phone book
/// and of the others is there afterwards, the last of the others with a number
/// is the one that is kept, and if no number occurred twice, none does.
pub proof fn import_keeps_numbers(contacts: Seq<ContactView>, others: Seq<ContactView>)
    ensures
        merged(contacts, others).len() >= contacts.len(),
        merged(contacts, others).len() <= contacts.len() + others.len(),
        forall|i: int|
            0 <= i < contacts.len() ==> (#[trigger] merged(contacts, others)[i]).number
                == contacts[i].number,
        others.len() > 0 ==> merged(contacts, others).contains(others.last()),
        forall|j: int|
            0 <= j < others.len() ==> with_number(
                merged(contacts, others),
                (#[trigger] others[j]).number,
                0,
            ) is Some,
        distinct_numbers(contacts) ==> distinct_numbers(merged(contacts, others)),
    decreases others.len(),
{
    if others.len() > 0 {
        let rest = others.drop_last();
        let c = others.last();
        import_keeps_numbers(contacts, rest);
        let before = merged(contacts, rest);
        let after = merged(contacts, others);
        with_number_is_first(before, c.number, 0);
        match with_number(before, c.number, 0) {
            Some(i) => {
                assert(after[i] == c);
            },
            None => {
                assert(after.last() == c);
            },
        }
        assert forall|j: int| 0 <= j < others.len() implies with_number(
            after,
            (#[trigger] others[j]).number,
            0,
        ) is Some by {
            let n = others[j].number;
            with_number_is_first(after, n, 0);
            if j == others.len() - 1 {
                assert(after.contains(c));
                let k = choose|k: int| 0 <= k < after.len() && after[k] == c;
                assert(after[k].number == n);
            } else {
                assert(rest[j] == others[j]);
                with_number_is_first(before, n, 0);
                let k = with_number(before, n, 0).unwrap();
                assert(after[k].number == before[k].number);
            }
        }
    }
}

// ---------------------------------------------------------------------------
// Order

/// A text in lower case, as `str::to_lowercase` has it.
pub uninterp spec fn lowercase_of(s: Seq<char>) -> Seq<char>;

/// `str::to_lowercase`: the text in lower case, by the rules of Unicode. The
/// result is named; what those rules are is left unsaid.
#[verifier::external_body]
pub(crate) fn to_lowercase(s: &str) -> (r: String)
    ensures
        r@ == lowercase_of(s@),
{
    s.to_lowercase()
}

/// Whether a text comes before another: the first character in which they
/// differ decides, and the shorter one comes first if there is none.
pub open spec fn earlier(a: Seq<char>, b: Seq<char>) -> bool
    decreases a.len(),
{
    if b.len() == 0 {
        false
    } else if a.len() == 0 {
        true
    } else if a[0] != b[0] {
        a[0] < b[0]
    } else {
        earlier(a.drop_first(), b.drop_first())
    }
}

/// Whether a text comes before another.
pub fn comes_earlier(a: &str, b: &str) -> (r: bool)
    ensures
        r == earlier(a@, b@),
{
    let x: Vec<char> = chars(a);
    let y: Vec<char> = chars(b);
    let mut i: usize = 0;
    proof {
        assert(x@.skip(0) =~= x@);
        assert(y@.skip(0) =~= y@);
    }
    loop
        invariant
            x@ == a@,
            y@ == b@,
            i <= x@.len(),
            i <= y@.len(),
            earlier(a@, b@) == earlier(x@.skip(i as int), y@.skip(i as int)),
        decreases x.len() - i,
    {
        if i == y.len() {
            return false;
        }
        if i == x.len() {
            return true;
        }
        if x[i] != y[i] {
            return x[i] < y[i];
        }
        proof {
            assert(x@.skip(i as int).drop_first() =~= x@.skip(i + 1));
            assert(y@.skip(i as int).drop_first() =~= y@.skip(i + 1));
        }
        i += 1;
    }
}

proof fn earlier_is_total(a: Seq<char>, b: Seq<char>)
    ensures
        earlier(a, b) || earlier(b, a) || a == b,
        !(earlier(a, b) && earlier(b, a)),
        a == b ==> !earlier(a, b),
    decreases a.len(),
{
    if a.len() == 0 || b.len() == 0 {
        if a.len() == 0 && b.len() == 0 {
            assert(a =~= b);
        }
    } else if a[0] == b[0] {
        earlier_is_total(a.drop_first(), b.drop_first());
        if a.drop_first() == b.drop_first() {
            assert(a =~= seq![a[0]] + a.drop_first());
            assert(b =~= seq![b[0]] + b.drop_first());
        }
    }
}

proof fn earlier_is_transitive(a: Seq<char>, b: Seq<char>, c: Seq<char>)
    requires
        earlier(a, b),
        earlier(b, c),
    ensures
        earlier(a, c),
    decreases a.len(),
{
    if a.len() > 0 && b.len() > 0 && c.len() > 0 && a[0] == b[0] && b[0] == c[0] {
        earlier_is_transitive(a.drop_first(), b.drop_first(), c.drop_first());
    }
}

/// The names of a phone book in lower case.
pub open spec fn sort_keys(contacts: Seq<Contact>) -> Seq<Seq<char>> {
    Seq::new(contacts.len(), |i: int| lowercase_of(contacts[i].name@))
}

/// Whether one entry is listed before another: by its key, and where the keys
/// are the same, by its place.
pub open spec fn listed_before(keys: Seq<Seq<char>>, i: int, j: int) -> bool {
    earlier(keys[i], keys[j]) || (keys[i] == keys[j] && i < j)
}

/// Whether places are listed in order.
pub open spec fn in_order(keys: Seq<Seq<char>>, places: Seq<usize>) -> bool {
    forall|a: int, b: int|
        0 <= a < b < places.len() ==> listed_before(
            keys,
            #[trigger] places[a] as int,
            #[trigger] places[b] as int,
        )
}

proof fn listing_is_transitive(keys: Seq<Seq<char>>, i: int, j: int, k: int)
    requires
        listed_before(keys, i, j),
        listed_before(keys, j, k),
    ensures
        listed_before(keys, i, k),
{
    if earlier(keys[i], keys[j]) && earlier(keys[j], keys[k]) {
        earlier_is_transitive(keys[i], keys[j], keys[k]);
    }
}

fn keys_of(contacts: &Vec<Contact>) -> (r: Vec<String>)
    ensures
        r@.len() == contacts@.len(),
        texts(r@) == sort_keys(contacts@),
{
    let mut r: Vec<String> = Vec::new();
    let mut i: usize = 0;
    while i < contacts.len()
        invariant
            i <= contacts@.len(),
            r@.len() == i,
            forall|k: int| 0 <= k < i ==> #[trigger] r@[k]@ == lowercase_of(contacts@[k].name@),
        decreases contacts.len() - i,
    {
        r.push(to_lowercase(contacts[i].name.as_str()));
        i += 1;
    }
    proof {
        assert(texts(r@) =~= sort_keys(contacts@));
    }
    r
}

/// Puts a place where it belongs in an ordered list.
fn insert_place(keys: &Vec<String>, places: &mut Vec<usize>, place: usize)
    requires
        place < keys@.len(),
        in_order(texts(keys@), old(places)@),
        forall|k: int| 0 <= k < old(places)@.len() ==> #[trigger] old(places)@[k] < place,
    ensures
        in_order(texts(keys@), final(places)@),
        final(places)@.to_multiset() == old(places)@.to_multiset().insert(place),
        final(places)@.len() == old(places)@.len() + 1,
        forall|k: int| 0 <= k < final(places)@.len() ==> #[trigger] final(places)@[k] <= place,
{
    let ghost ks = texts(keys@);
    let ghost before = places@;
    let mut at: usize = places.len();
    while at > 0 && comes_earlier(keys[place].as_str(), keys[places[at - 1]].as_str())
        invariant
            at <= places@.len(),
            places@ == before,
            place < keys@.len(),
            ks == texts(keys@),
            forall|k: int| 0 <= k < before.len() ==> #[trigger] before[k] < place,
            forall|k: int|
                at <= k < before.len() ==> listed_before(
                    ks,
                    place as int,
                    #[trigger] before[k] as int,
                ),
        decreases at,
    {
        proof {
            assert(ks[place as int] == keys@[place as int]@);
            assert(ks[before[at - 1] as int] == keys@[before[at - 1] as int]@);
        }
        at -= 1;
    }
    proof {
        if at > 0 {
            assert(ks[place as int] == keys@[place as int]@);
            assert(ks[before[at - 1] as int] == keys@[before[at - 1] as int]@);
            earlier_is_total(ks[place as int], ks[before[at - 1] as int]);
            assert(listed_before(ks, before[at - 1] as int, place as int));
        }
        assert forall|k: int| 0 <= k < at implies listed_before(
            ks,
            #[trigger] before[k] as int,
            place as int,
        ) by {
            if k < at - 1 {
                assert(listed_before(ks, before[k] as int, before[at - 1] as int));
                listing_is_transitive(ks, before[k] as int, before[at - 1] as int, place as int);
            }
        }
        broadcast use vstd::seq_lib::group_to_multiset_ensures;

        vstd::seq_lib::to_multiset_insert(before, at as int, place);
    }
    places.insert(at, place);
    proof {
        let after = places@;
        assert(after == before.insert(at as int, place));
        assert forall|a: int, b: int| 0 <= a < b < after.len() implies listed_before(
            ks,
            #[trigger] after[a] as int,
            #[trigger] after[b] as int,
        ) by {
            let x = if a < at { a } else { a - 1 };
            let y = if b < at { b } else { b - 1 };
            if a != at {
                assert(after[a] == before[x]);
            }
            if b != at {
                assert(after[b] == before[y]);
            }
        }
        assert forall|k: int| 0 <= k < after.len() implies #[trigger] after[k] <= place by {
            if k != at {
                assert(after[k] == before[if k < at { k } else { k - 1 }]);
            }
        }
    }
}

/// Whether a contact matches what is searched for: by its name in lower case
/// or by its number.
pub open spec fn matches_filter(c: ContactView, filter: Seq<char>) -> bool {
    ||| filter.len() == 0
    ||| contains_text(lowercase_of(c.name), filter)
    ||| contains_text(c.number, filter)
}

/// The places of the contacts that match, from the first on.
pub open spec fn matching(contacts: Seq<Contact>, filter: Seq<char>, upto: int) -> Seq<usize>
    decreases upto,
{
    if upto <= 0 {
        Seq::empty()
    } else {
        let before = matching(contacts, filter, upto - 1);
        if matches_filter(contacts[upto - 1]@, filter) {
            before.push((upto - 1) as usize)
        } else {
            before
        }
    }
}

/// How contacts are listed.
#[derive(Debug, Clone, Copy, PartialEq, Eq, Structural)]
pub enum ContactSort {
    NameAsc,
    NameDesc,
}

impl Default for ContactSort {
    fn default() -> (r: Self)
        ensures
            r == ContactSort::NameAsc,
    {
        ContactSort::NameAsc
    }
}

impl ContactSort {
    /// The other way.
    pub open spec fn other(self) -> ContactSort {
        match self {
            ContactSort::NameAsc => ContactSort::NameDesc,
            ContactSort::NameDesc => ContactSort::NameAsc,
        }
    }

    /// The other way.
    pub fn next(self) -> (r: Self)
        ensures
            r == self.other(),
            r.other() == self,
    {
        match self {
            ContactSort::NameAsc => ContactSort::NameDesc,
            ContactSort::NameDesc => ContactSort::NameAsc,
        }
    }

    /// What the button that changes the order shows.
    pub fn label(self) -> (r: &'static str)
        ensures
            r@ == match self {
                ContactSort::NameAsc => "A-Z"@,
                ContactSort::NameDesc => "Z-A"@,
            },
    {
        match self {
            ContactSort::NameAsc => "A-Z",
            ContactSort::NameDesc => "Z-A",
        }
    }
}

/// Whether places list the contacts that match, in order of their names.
pub open spec fn lists(contacts: Seq<Contact>, filter: Seq<char>, places: Seq<usize>) -> bool {
    &&& places.to_multiset() == matching(contacts, filter, contacts.len() as int).to_multiset()
    &&& in_order(sort_keys(contacts), places)
    &&& forall|k: int| 0 <= k < places.len() ==> #[trigger] places[k] < contacts.len()
}

/// The places of the contacts that match what is searched for, in order of
/// their names: by the names in lower case, and by their places where those
/// are the same.
fn list_matching(contacts: &Vec<Contact>, filter: &str) -> (r: Vec<usize>)
    ensures
        lists(contacts@, filter@, r@),
{
    let keys = keys_of(contacts);
    let mut places: Vec<usize> = Vec::new();
    let mut i: usize = 0;
    let empty: bool = chars(filter).len() == 0;
    while i < contacts.len()
        invariant
            i <= contacts@.len(),
            keys@.len() == contacts@.len(),
            texts(keys@) == sort_keys(contacts@),
            empty == (filter@.len() == 0),
            in_order(texts(keys@), places@),
            places@.to_multiset() == matching(contacts@, filter@, i as int).to_multiset(),
            forall|k: int| 0 <= k < places@.len() ==> #[trigger] places@[k] < i,
        decreases contacts.len() - i,
    {
        proof {
            assert(keys@[i as int]@ == texts(keys@)[i as int]);
        }
        if empty || has_text(keys[i].as_str(), filter) || has_text(
            contacts[i].number.as_str(),
            filter,
        ) {
            insert_place(&keys, &mut places, i);
            proof {
                broadcast use vstd::seq_lib::group_to_multiset_ensures;

                let before = matching(contacts@, filter@, i as int);
                assert(before.push(i).to_multiset() =~= before.to_multiset().insert(i));
            }
        }
        i += 1;
    }
    places
}

/// The contacts that the list shows, by their places: those that match what is
/// searched for, in lower case, and in the order that was chosen.
pub fn shown_contacts(contacts: &Vec<Contact>, search: &str, sort: ContactSort) -> (r: Vec<usize>)
    ensures
        lists(
            contacts@,
            lowercase_of(search@),
            match sort {
                ContactSort::NameAsc => r@,
                ContactSort::NameDesc => r@.reverse(),
            },
        ),
{
    let filter = to_lowercase(search);
    let listed = list_matching(contacts, filter.as_str());
    match sort {
        ContactSort::NameAsc => listed,
        ContactSort::NameDesc => {
            let mut r: Vec<usize> = Vec::new();
            let mut i: usize = listed.len();
            while i > 0
                invariant
                    i <= listed@.len(),
                    r@ == listed@.skip(i as int).reverse(),
                decreases i,
            {
                i -= 1;
                r.push(listed[i]);
                proof {
                    assert(r@ =~= listed@.skip(i as int).reverse());
                }
            }
            proof {
                assert(r@.reverse() =~= listed@);
            }
            r
        },
    }
}

/// Whether contacts are those of a phone book, in order of their names.
pub open spec fn sorted_copy(contacts: Seq<Contact>, sorted: Seq<Contact>) -> bool {
    exists|places: Seq<usize>|
        #[trigger] lists(contacts, Seq::empty(), places) && sorted.len() == places.len() && forall|
            k: int,
        |
            0 <= k < places.len() ==> #[trigger] sorted[k] == contacts[places[k] as int]
}

proof fn every_place_matches(contacts: Seq<Contact>, upto: int)
    requires
        0 <= upto <= contacts.len() <= usize::MAX,
    ensures
        matching(contacts, Seq::empty(), upto).len() == upto,
        forall|i: int|
            0 <= i < upto ==> #[trigger] matching(contacts, Seq::empty(), upto)[i] == i,
    decreases upto,
{
    if upto > 0 {
        every_place_matches(contacts, upto - 1);
    }
}

/// Saving loses no one: the saved phone book is as long, and everyone is in
/// it.
pub proof fn saving_keeps_everyone(contacts: Seq<Contact>, sorted: Seq<Contact>)
    requires
        sorted_copy(contacts, sorted),
        contacts.len() <= usize::MAX,
    ensures
        sorted.len() == contacts.len(),
        forall|i: int| 0 <= i < contacts.len() ==> sorted.contains(#[trigger] contacts[i]),
{
    broadcast use vstd::seq_lib::group_to_multiset_ensures;

    let places = choose|places: Seq<usize>|
        #[trigger] lists(contacts, Seq::empty(), places) && sorted.len() == places.len() && forall|
            k: int,
        |
            0 <= k < places.len() ==> #[trigger] sorted[k] == contacts[places[k] as int];
    let all = matching(contacts, Seq::empty(), contacts.len() as int);
    every_place_matches(contacts, contacts.len() as int);
    assert(places.len() == places.to_multiset().len());
    assert(all.len() == all.to_multiset().len());
    assert forall|i: int| 0 <= i < contacts.len() implies sorted.contains(
        #[trigger] contacts[i],
    ) by {
        assert(all[i] == i);
        assert(all.contains(i as usize));
        assert(all.to_multiset().count(i as usize) > 0);
        assert(places.contains(i as usize));
        let k = choose|k: int| 0 <= k < places.len() && places[k] == i as usize;
        assert(sorted[k] == contacts[i]);
    }
}

/// The contacts to save, in order of their names.
pub fn contacts_to_save(contacts: &Vec<Contact>) -> (r: Vec<Contact>)
    ensures
        sorted_copy(contacts@, r@),
{
    let empty = String::new();
    let listed = list_matching(contacts, empty.as_str());
    let mut r: Vec<Contact> = Vec::new();
    let mut i: usize = 0;
    proof {
        assert(empty@ =~= Seq::<char>::empty());
    }
    while i < listed.len()
        invariant
            i <= listed@.len(),
            lists(contacts@, Seq::empty(), listed@),
            r@.len() == i,
            forall|k: int| 0 <= k < i ==> #[trigger] r@[k] == contacts@[listed@[k] as int],
        decreases listed.len() - i,
    {
        r.push(contacts[listed[i]].copy());
        i += 1;
    }
    r
}

} // verus!
