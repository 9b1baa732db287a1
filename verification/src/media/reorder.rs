//! A small buffer in front of playback that puts packets back in order.
//!
//! It holds up to a window of packets while it waits for one that is missing.
//! Where that one does not come in time, the window is forced forward, so
//! that playback never stalls for good.

use vstd::prelude::*;

verus! {

/// How many packets wait for a missing one: 100 ms.
pub const REORDER_WINDOW: usize = 5;

/// A packet that waits: its sequence number and its samples.
#[derive(Debug)]
pub struct Waiting {
    pub seq: u16,
    pub samples: Vec<i16>,
}

impl View for Waiting {
    type V = (u16, Seq<i16>);

    open spec fn view(&self) -> (u16, Seq<i16>) {
        (self.seq, self.samples@)
    }
}

/// Packets as pairs of sequence number and samples.
pub open spec fn views(v: Seq<Waiting>) -> Seq<(u16, Seq<i16>)> {
    v.map_values(|w: Waiting| w@)
}

/// How far `seq` is ahead of `base`, the numbers wrapping around.
pub open spec fn ahead(seq: u16, base: u16) -> int {
    (seq - base) % 0x1_0000
}

/// The number after `seq`, wrapping around.
pub open spec fn following(seq: u16) -> u16 {
    ((seq + 1) % 0x1_0000) as u16
}

/// A packet less than half of all numbers ahead is taken as new, one further
/// ahead as a late one.
pub open spec fn is_late(seq: u16, expected: u16) -> bool {
    ahead(seq, expected) >= 0x8000
}

/// Where `p` goes among packets in order: behind all that are not further
/// ahead.
pub open spec fn place(s: Seq<(u16, Seq<i16>)>, seq: u16, base: u16) -> int
    decreases s.len(),
{
    if s.len() == 0 {
        0
    } else if ahead(s.last().0, base) <= ahead(seq, base) {
        s.len() as int
    } else {
        place(s.drop_last(), seq, base)
    }
}

/// The packets of `s` in the order of their numbers from `base` on; those of
/// the same number in the order in which they came.
pub open spec fn in_order(s: Seq<(u16, Seq<i16>)>, base: u16) -> Seq<(u16, Seq<i16>)>
    decreases s.len(),
{
    if s.len() == 0 {
        s
    } else {
        let head = in_order(s.drop_last(), base);
        head.insert(place(head, s.last().0, base), s.last())
    }
}

/// The first position of a packet with the given number.
pub open spec fn position(s: Seq<(u16, Seq<i16>)>, seq: u16) -> Option<int>
    decreases s.len(),
{
    if s.len() == 0 {
        None
    } else if s[0].0 == seq {
        Some(0)
    } else {
        match position(s.drop_first(), seq) {
            Some(i) => Some(i + 1),
            None => None,
        }
    }
}

/// What a run of releases leaves: the samples that came out, the packets that
/// still wait, and the number expected next.
pub struct Released {
    pub out: Seq<i16>,
    pub pending: Seq<(u16, Seq<i16>)>,
    pub expected: u16,
}

/// Lets packets go as long as the one expected next is there.
pub open spec fn release(s: Seq<(u16, Seq<i16>)>, expected: u16) -> Released
    decreases s.len(),
    via release_decreases
{
    match position(s, expected) {
        Some(i) => {
            let rest = release(s.remove(i), following(expected));
            Released { out: s[i].1 + rest.out, ..rest }
        },
        None => Released { out: Seq::empty(), pending: s, expected },
    }
}

#[via_fn]
proof fn release_decreases(s: Seq<(u16, Seq<i16>)>, expected: u16) {
    position_bounds(s, expected);
}

pub proof fn position_bounds(s: Seq<(u16, Seq<i16>)>, seq: u16)
    ensures
        match position(s, seq) {
            Some(i) => 0 <= i < s.len() && s[i].0 == seq && forall|j: int|
                0 <= j < i ==> (#[trigger] s[j]).0 != seq,
            None => forall|j: int| 0 <= j < s.len() ==> (#[trigger] s[j]).0 != seq,
        },
    decreases s.len(),
{
    if s.len() > 0 && s[0].0 != seq {
        let t = s.drop_first();
        position_bounds(t, seq);
        assert forall|j: int|
            0 < j < s.len() && (position(t, seq) matches Some(i) ==> j <= i) implies (
        #[trigger] s[j]).0 != seq by {
            assert(t[j - 1] == s[j]);
        }
    }
}

proof fn place_bounds(s: Seq<(u16, Seq<i16>)>, seq: u16, base: u16)
    ensures
        0 <= place(s, seq, base) <= s.len(),
    decreases s.len(),
{
    if s.len() > 0 {
        place_bounds(s.drop_last(), seq, base);
    }
}

/// What a packet does to the buffer.
pub open spec fn pushed(
    pending: Seq<(u16, Seq<i16>)>,
    expected: Option<u16>,
    seq: u16,
    samples: Seq<i16>,
) -> Released {
    let expected = match expected {
        Some(e) => e,
        None => seq,
    };
    if is_late(seq, expected) {
        Released { out: Seq::empty(), pending, expected }
    } else {
        let all = in_order(pending.push((seq, samples)), expected);
        release(
            all,
            if all.len() > REORDER_WINDOW {
                all[0].0
            } else {
                expected
            },
        )
    }
}

/// The buffer.
#[derive(Debug)]
pub struct ReorderBuffer {
    pub expected: Option<u16>,
    pub pending: Vec<Waiting>,
}

fn insert_in_order(v: &mut Vec<Waiting>, w: Waiting, base: u16)
    ensures
        views(final(v)@) == views(old(v)@).insert(place(views(old(v)@), w.seq, base), w@),
{
    let mut i: usize = v.len();
    let key: u16 = w.seq.wrapping_sub(base);
    let ghost s = views(v@);
    assert(s.take(s.len() as int) =~= s);
    while i > 0 && v[i - 1].seq.wrapping_sub(base) > key
        invariant
            i <= v@.len(),
            s == views(v@),
            key == ahead(w.seq, base),
            place(s, w.seq, base) == place(s.take(i as int), w.seq, base),
        decreases i,
    {
        assert(s.take(i as int).last() == s[i - 1]);
        assert(s[i - 1] == v@[i - 1]@);
        assert(s.take(i as int).drop_last() =~= s.take(i - 1));
        i = i - 1;
    }
    proof {
        if i > 0 {
            assert(s.take(i as int).last() == s[i - 1]);
            assert(s[i - 1] == v@[i - 1]@);
        }
        assert(place(s, w.seq, base) == i);
    }
    let ghost wv = w;
    v.insert(i, w);
    assert(views(v@) =~= s.insert(i as int, wv@));
}

fn sort_pending(pending: &mut Vec<Waiting>, base: u16)
    ensures
        views(final(pending)@) == in_order(views(old(pending)@), base),
{
    let mut out: Vec<Waiting> = Vec::new();
    let ghost s = views(pending@);
    let ghost mut k: int = 0;
    assert(views(out@) =~= in_order(s.take(0), base));
    assert(views(pending@) =~= s.skip(0));
    while pending.len() > 0
        invariant
            0 <= k <= s.len(),
            s == views(old(pending)@),
            views(pending@) == s.skip(k),
            views(out@) == in_order(s.take(k), base),
        decreases pending.len(),
    {
        let ghost rest = pending@;
        assert(views(rest).len() == rest.len());
        assert(views(rest)[0] == rest[0]@);
        assert(s.skip(k)[0] == s[k]);
        let w = pending.remove(0);
        assert(w@ == s[k]);
        assert(views(pending@) =~= s.skip(k + 1)) by {
            assert forall|j: int| 0 <= j < pending@.len() implies views(pending@)[j] == s.skip(
                k + 1,
            )[j] by {
                assert(pending@[j] == rest[j + 1]);
                assert(views(rest)[j + 1] == rest[j + 1]@);
                assert(s.skip(k)[j + 1] == s[k + j + 1]);
            }
        }
        insert_in_order(&mut out, w, base);
        proof {
            assert(s.take(k + 1).drop_last() =~= s.take(k));
            assert(s.take(k + 1).last() == s[k]);
            k = k + 1;
        }
    }
    assert(s.take(k) =~= s) by {
        assert(s.skip(k).len() == 0);
    }
    *pending = out;
}

fn find_waiting(pending: &Vec<Waiting>, seq: u16) -> (r: Option<usize>)
    ensures
        match r {
            Some(i) => i < pending@.len() && position(views(pending@), seq) == Some(i as int),
            None => position(views(pending@), seq) is None,
        },
{
    let ghost s = views(pending@);
    proof {
        position_bounds(s, seq);
    }
    let mut i: usize = 0;
    while i < pending.len()
        invariant
            i <= pending@.len(),
            s == views(pending@),
            forall|j: int| 0 <= j < i ==> (#[trigger] s[j]).0 != seq,
            match position(s, seq) {
                Some(k) => 0 <= k < s.len() && s[k].0 == seq && forall|j: int|
                    0 <= j < k ==> (#[trigger] s[j]).0 != seq,
                None => forall|j: int| 0 <= j < s.len() ==> (#[trigger] s[j]).0 != seq,
            },
        decreases pending.len() - i,
    {
        assert(s[i as int] == pending@[i as int]@);
        if pending[i].seq == seq {
            return Some(i);
        }
        i = i + 1;
    }
    None
}

impl ReorderBuffer {
    /// No more packets wait than the window has room for.
    pub open spec fn wf(self) -> bool {
        self.pending@.len() <= REORDER_WINDOW
    }

    /// An empty buffer that takes whatever comes first as expected.
    pub fn new() -> (r: Self)
        ensures
            r.wf(),
            r.expected is None,
            r.pending@.len() == 0,
    {
        ReorderBuffer { expected: None, pending: Vec::new() }
    }

    /// Takes in a packet and gives out the samples that are now due.
    pub fn push(&mut self, seq: u16, samples: Vec<i16>) -> (out: Vec<i16>)
        requires
            old(self).wf(),
        ensures
            final(self).wf(),
            out@ == pushed(views(old(self).pending@), old(self).expected, seq, samples@).out,
            views(final(self).pending@) == pushed(
                views(old(self).pending@),
                old(self).expected,
                seq,
                samples@,
            ).pending,
            final(self).expected == Some(
                pushed(
                    views(old(self).pending@),
                    old(self).expected,
                    seq,
                    samples@,
                ).expected,
            ),
    {
        let ghost before = views(self.pending@);
        let expected: u16 = match self.expected {
            Some(e) => e,
            None => seq,
        };
        self.expected = Some(expected);
        if seq.wrapping_sub(expected) >= 0x8000 {
            return Vec::new();
        }
        let ghost samples_view = samples@;
        self.pending.push(Waiting { seq, samples });
        assert(views(self.pending@) =~= before.push((seq, samples_view)));
        sort_pending(&mut self.pending, expected);
        let ghost all = views(self.pending@);
        proof {
            in_order_len(before.push((seq, samples_view)), expected);
            assert(all.len() == self.pending@.len());
        }
        let mut next: u16 = expected;
        if self.pending.len() > REORDER_WINDOW {
            next = self.pending[0].seq;
            assert(next == all[0].0);
        }
        let ghost start = next;
        let mut out: Vec<i16> = Vec::new();
        proof {
            window_moves(all, start);
        }
        loop
            invariant
                self.pending@.len() <= all.len(),
                out@ + release(views(self.pending@), next).out == release(all, start).out,
                release(views(self.pending@), next).pending == release(all, start).pending,
                release(views(self.pending@), next).expected == release(all, start).expected,
            ensures
                position(views(self.pending@), next) is None,
                out@ + release(views(self.pending@), next).out == release(all, start).out,
                release(views(self.pending@), next).pending == release(all, start).pending,
                release(views(self.pending@), next).expected == release(all, start).expected,
            decreases self.pending@.len(),
        {
            match find_waiting(&self.pending, next) {
                Some(pos) => {
                    let ghost s = views(self.pending@);
                    let ghost was = self.pending@;
                    let ghost out_was = out@;
                    let w = self.pending.remove(pos);
                    assert(views(self.pending@) =~= s.remove(pos as int));
                    assert(s[pos as int] == was[pos as int]@);
                    let mut samples = w.samples;
                    out.append(&mut samples);
                    assert(out@ =~= out_was + s[pos as int].1);
                    let ghost rest = release(s.remove(pos as int), following(next));
                    assert(release(s, next).out == s[pos as int].1 + rest.out);
                    assert((out_was + s[pos as int].1) + rest.out =~= out_was + (s[pos as int].1
                        + rest.out));
                    next = next.wrapping_add(1);
                },
                None => {
                    break;
                },
            }
        }
        assert(release(views(self.pending@), next).out =~= Seq::empty());
        assert(out@ =~= release(all, start).out);
        self.expected = Some(next);
        out
    }
}

proof fn in_order_len(s: Seq<(u16, Seq<i16>)>, base: u16)
    ensures
        in_order(s, base).len() == s.len(),
    decreases s.len(),
{
    if s.len() > 0 {
        in_order_len(s.drop_last(), base);
        place_bounds(in_order(s.drop_last(), base), s.last().0, base);
    }
}

proof fn release_shrinks(s: Seq<(u16, Seq<i16>)>, expected: u16)
    ensures
        release(s, expected).pending.len() <= s.len(),
        position(release(s, expected).pending, release(s, expected).expected) is None,
    decreases s.len(),
{
    position_bounds(s, expected);
    if let Some(i) = position(s, expected) {
        release_shrinks(s.remove(i), following(expected));
    }
}

proof fn window_moves(all: Seq<(u16, Seq<i16>)>, start: u16)
    requires
        all.len() > REORDER_WINDOW ==> start == all[0].0,
        all.len() <= REORDER_WINDOW + 1,
    ensures
        release(all, start).pending.len() <= REORDER_WINDOW,
{
    release_shrinks(all, start);
    if all.len() > REORDER_WINDOW {
        release_shrinks(all.remove(0), following(start));
    }
}

// ---------------------------------------------------------------------------
// Laws

/// A packet that arrives as expected, with none waiting, is given out at once
/// and leaves nothing behind; so does the first packet of all.
pub proof fn in_order_passes_through(expected: Option<u16>, seq: u16, samples: Seq<i16>)
    requires
        expected is None || expected == Some(seq),
    ensures
        pushed(Seq::empty(), expected, seq, samples) == (Released {
            out: samples,
            pending: Seq::empty(),
            expected: following(seq),
        }),
{
    let none = Seq::<(u16, Seq<i16>)>::empty();
    let one = none.push((seq, samples));
    assert(one.drop_last() =~= none);
    assert(in_order(one, seq) =~= one) by {
        assert(in_order(none, seq) == none);
        assert(place(none, seq, seq) == 0);
        assert(none.insert(0, one.last()) =~= one);
    }
    assert(position(one, seq) == Some(0int));
    assert(one.remove(0) =~= none);
    assert(release(none, following(seq)).out =~= Seq::empty());
    assert(samples + Seq::<i16>::empty() =~= samples);
}

/// A late packet, or one that was given out already, changes nothing and
/// gives out nothing.
pub proof fn late_packets_are_dropped(
    pending: Seq<(u16, Seq<i16>)>,
    expected: u16,
    seq: u16,
    samples: Seq<i16>,
)
    requires
        is_late(seq, expected),
    ensures
        pushed(pending, Some(expected), seq, samples) == (Released {
            out: Seq::empty(),
            pending,
            expected,
        }),
        is_late(expected, following(expected)),
{
}

/// Whatever arrives, no more than a window of packets waits, and none that
/// waits is the one expected next.
pub proof fn window_is_bounded(
    pending: Seq<(u16, Seq<i16>)>,
    expected: u16,
    seq: u16,
    samples: Seq<i16>,
)
    requires
        pending.len() <= REORDER_WINDOW,
        !is_late(seq, expected),
    ensures
        ({
            let r = pushed(pending, Some(expected), seq, samples);
            &&& r.pending.len() <= REORDER_WINDOW
            &&& forall|j: int| 0 <= j < r.pending.len() ==> (#[trigger] r.pending[j]).0 != r.expected
        }),
{
    let s = pending.push((seq, samples));
    let all = in_order(s, expected);
    in_order_len(s, expected);
    let start = if all.len() > REORDER_WINDOW {
        all[0].0
    } else {
        expected
    };
    window_moves(all, start);
    release_shrinks(all, start);
    position_bounds(release(all, start).pending, release(all, start).expected);
}

/// The samples of `n` packets with numbers from `first` on, each found in `s`.
pub open spec fn is_run(s: Seq<(u16, Seq<i16>)>, first: u16, n: nat, out: Seq<i16>) -> bool
    decreases n,
{
    if n == 0 {
        out.len() == 0
    } else {
        exists|i: int|
            0 <= i < s.len() && (#[trigger] s[i]).0 == first && s[i].1.len() <= out.len()
                && out.take(s[i].1.len() as int) == s[i].1 && is_run(
                s.remove(i),
                following(first),
                (n - 1) as nat,
                out.skip(s[i].1.len() as int),
            )
    }
}

/// What is given out is the audio of consecutive packets: each once, in the
/// order of their numbers.
pub proof fn output_is_consecutive(s: Seq<(u16, Seq<i16>)>, expected: u16)
    ensures
        is_run(
            s,
            expected,
            (s.len() - release(s, expected).pending.len()) as nat,
            release(s, expected).out,
        ),
        release(s, expected).expected == (expected + (s.len() - release(
            s,
            expected,
        ).pending.len())) % 0x1_0000,
    decreases s.len(),
{
    position_bounds(s, expected);
    release_shrinks(s, expected);
    match position(s, expected) {
        Some(i) => {
            let rest = release(s.remove(i), following(expected));
            output_is_consecutive(s.remove(i), following(expected));
            release_shrinks(s.remove(i), following(expected));
            let out = s[i].1 + rest.out;
            assert(out.take(s[i].1.len() as int) =~= s[i].1);
            assert(out.skip(s[i].1.len() as int) =~= rest.out);
        },
        None => {},
    }
}

// ---------------------------------------------------------------------------
// Runs of packets

/// The packets that are let go as long as the one expected next is there.
pub open spec fn released_packets(s: Seq<(u16, Seq<i16>)>, expected: u16) -> Seq<(u16, Seq<i16>)>
    decreases s.len(),
    via released_packets_decreases
{
    match position(s, expected) {
        Some(i) => seq![s[i]] + released_packets(s.remove(i), following(expected)),
        None => Seq::empty(),
    }
}

#[via_fn]
proof fn released_packets_decreases(s: Seq<(u16, Seq<i16>)>, expected: u16) {
    position_bounds(s, expected);
}

/// The packets that a packet lets go.
pub open spec fn pushed_packets(
    pending: Seq<(u16, Seq<i16>)>,
    expected: Option<u16>,
    p: (u16, Seq<i16>),
) -> Seq<(u16, Seq<i16>)> {
    let expected = match expected {
        Some(e) => e,
        None => p.0,
    };
    if is_late(p.0, expected) {
        Seq::empty()
    } else {
        let all = in_order(pending.push(p), expected);
        released_packets(
            all,
            if all.len() > REORDER_WINDOW {
                all[0].0
            } else {
                expected
            },
        )
    }
}

/// The samples of packets, one behind the other.
pub open spec fn audio_of(packets: Seq<(u16, Seq<i16>)>) -> Seq<i16>
    decreases packets.len(),
{
    if packets.len() == 0 {
        Seq::empty()
    } else {
        packets[0].1 + audio_of(packets.drop_first())
    }
}

/// What has become of packets that came one after the other.
pub struct Run {
    /// Those that were let go, in the order in which they were.
    pub out: Seq<(u16, Seq<i16>)>,
    /// The samples that came out.
    pub audio: Seq<i16>,
    /// Those that wait.
    pub pending: Seq<(u16, Seq<i16>)>,
    pub expected: Option<u16>,
    /// Those that were not late when they came.
    pub taken: Seq<(u16, Seq<i16>)>,
}

/// What has become of packets that came one after the other.
pub open spec fn after_run(packets: Seq<(u16, Seq<i16>)>) -> Run
    decreases packets.len(),
{
    if packets.len() == 0 {
        Run {
            out: Seq::empty(),
            audio: Seq::empty(),
            pending: Seq::empty(),
            expected: None,
            taken: Seq::empty(),
        }
    } else {
        let before = after_run(packets.drop_last());
        let p = packets.last();
        let r = pushed(before.pending, before.expected, p.0, p.1);
        Run {
            out: before.out + pushed_packets(before.pending, before.expected, p),
            audio: before.audio + r.out,
            pending: r.pending,
            expected: Some(r.expected),
            taken: if before.expected matches Some(e) && is_late(p.0, e) {
                before.taken
            } else {
                before.taken.push(p)
            },
        }
    }
}

/// Whether one of the packets has a number.
pub open spec fn has_number(s: Seq<(u16, Seq<i16>)>, seq: u16) -> bool {
    exists|i: int| 0 <= i < s.len() && (#[trigger] s[i]).0 == seq
}

/// Whether no packet that comes has the number of one that waits at that time.
pub open spec fn none_comes_twice(packets: Seq<(u16, Seq<i16>)>) -> bool {
    forall|k: int|
        0 <= k < packets.len() ==> !has_number(
            after_run(packets.take(k)).pending,
            (#[trigger] packets[k]).0,
        )
}

/// Whether all packets have different numbers.
pub open spec fn distinct_numbers(s: Seq<(u16, Seq<i16>)>) -> bool {
    forall|i: int, j: int| 0 <= i < j < s.len() ==> (#[trigger] s[i]).0 != (#[trigger] s[j]).0
}

/// Whether all packets are new from `base` on.
pub open spec fn none_late(s: Seq<(u16, Seq<i16>)>, base: u16) -> bool {
    forall|i: int| 0 <= i < s.len() ==> !is_late((#[trigger] s[i]).0, base)
}

/// Whether the packet at `i` is ahead of the one before it, and not by more
/// than half of all numbers.
pub open spec fn ascends_at(s: Seq<(u16, Seq<i16>)>, i: int) -> bool {
    1 <= ahead(s[i].0, s[i - 1].0) <= 0x8000
}

/// Whether every packet is ahead of the one before it.
pub open spec fn ascending(s: Seq<(u16, Seq<i16>)>) -> bool {
    forall|i: int| 0 < i < s.len() ==> #[trigger] ascends_at(s, i)
}

spec fn follows_at(s: Seq<(u16, Seq<i16>)>, i: int) -> bool {
    s[i].0 == following(s[i - 1].0)
}

spec fn sorted(s: Seq<(u16, Seq<i16>)>, base: u16) -> bool {
    forall|i: int, j: int|
        0 <= i < j < s.len() ==> ahead((#[trigger] s[i]).0, base) <= ahead(
            (#[trigger] s[j]).0,
            base,
        )
}

proof fn place_splits(s: Seq<(u16, Seq<i16>)>, seq: u16, base: u16)
    requires
        sorted(s, base),
    ensures
        0 <= place(s, seq, base) <= s.len(),
        forall|i: int|
            0 <= i < place(s, seq, base) ==> ahead((#[trigger] s[i]).0, base) <= ahead(seq, base),
        forall|i: int|
            place(s, seq, base) <= i < s.len() ==> ahead((#[trigger] s[i]).0, base) > ahead(
                seq,
                base,
            ),
    decreases s.len(),
{
    if s.len() > 0 && !(ahead(s.last().0, base) <= ahead(seq, base)) {
        let t = s.drop_last();
        place_splits(t, seq, base);
        assert forall|i: int| 0 <= i < place(t, seq, base) implies ahead(
            (#[trigger] s[i]).0,
            base,
        ) <= ahead(seq, base) by {
            assert(t[i] == s[i]);
        }
        assert forall|i: int| place(t, seq, base) <= i < s.len() implies ahead(
            (#[trigger] s[i]).0,
            base,
        ) > ahead(seq, base) by {
            if i < t.len() {
                assert(t[i] == s[i]);
            }
        }
    }
}

/// Sorting puts packets in order.
proof fn in_order_sorts(s: Seq<(u16, Seq<i16>)>, base: u16)
    ensures
        sorted(in_order(s, base), base),
    decreases s.len(),
{
    if s.len() > 0 {
        let p = s.last();
        let head = in_order(s.drop_last(), base);
        in_order_sorts(s.drop_last(), base);
        let at = place(head, p.0, base);
        place_splits(head, p.0, base);
        let all = head.insert(at, p);
        assert forall|i: int, j: int| 0 <= i < j < all.len() implies ahead(
            (#[trigger] all[i]).0,
            base,
        ) <= ahead((#[trigger] all[j]).0, base) by {
            if i != at {
                assert(all[i] == head[before_insert(i, at)]);
            }
            if j != at {
                assert(all[j] == head[before_insert(j, at)]);
            }
        }
    }
}

/// Where the element at `i` stood before one was put in at `at`.
spec fn before_insert(i: int, at: int) -> int {
    if i < at {
        i
    } else {
        i - 1
    }
}

/// Sorting keeps the packets.
proof fn in_order_keeps(s: Seq<(u16, Seq<i16>)>, base: u16)
    ensures
        in_order(s, base).to_multiset() == s.to_multiset(),
    decreases s.len(),
{
    if s.len() > 0 {
        let t = s.drop_last();
        let head = in_order(t, base);
        in_order_keeps(t, base);
        place_bounds(head, s.last().0, base);
        vstd::seq_lib::to_multiset_insert(head, place(head, s.last().0, base), s.last());
        vstd::seq_lib::to_multiset_build(t, s.last());
        assert(t.push(s.last()) =~= s);
    }
}

/// Sorting adds no numbers, and none twice.
proof fn in_order_keeps_numbers(s: Seq<(u16, Seq<i16>)>, base: u16)
    ensures
        forall|n: u16| #[trigger] has_number(in_order(s, base), n) ==> has_number(s, n),
        distinct_numbers(s) ==> distinct_numbers(in_order(s, base)),
    decreases s.len(),
{
    if s.len() > 0 {
        let t = s.drop_last();
        let p = s.last();
        in_order_keeps_numbers(t, base);
        let head = in_order(t, base);
        let at = place(head, p.0, base);
        place_bounds(head, p.0, base);
        let all = head.insert(at, p);
        assert forall|n: u16| #[trigger] has_number(all, n) implies has_number(s, n) by {
            let i = choose|i: int| 0 <= i < all.len() && (#[trigger] all[i]).0 == n;
            if i == at {
                assert(s[s.len() - 1].0 == n);
            } else {
                assert(all[i] == head[before_insert(i, at)]);
                assert(has_number(head, n));
                let k = choose|k: int| 0 <= k < t.len() && (#[trigger] t[k]).0 == n;
                assert(s[k].0 == n);
            }
        }
        if distinct_numbers(s) {
            assert forall|i: int, j: int| 0 <= i < j < t.len() implies (#[trigger] t[i]).0 != (
            #[trigger] t[j]).0 by {
                assert(s[i].0 != s[j].0);
            }
            assert(!has_number(head, p.0)) by {
                if has_number(head, p.0) {
                    let k = choose|k: int| 0 <= k < t.len() && (#[trigger] t[k]).0 == p.0;
                    assert(s[k].0 != s[s.len() - 1].0);
                }
            }
            assert forall|i: int, j: int| 0 <= i < j < all.len() implies (#[trigger] all[i]).0 != (
            #[trigger] all[j]).0 by {
                if i != at {
                    assert(all[i] == head[before_insert(i, at)]);
                }
                if j != at {
                    assert(all[j] == head[before_insert(j, at)]);
                }
            }
        }
    }
}

/// A release splits the packets into those that go and those that wait, and
/// what comes out is the audio of those that go.
proof fn release_splits(s: Seq<(u16, Seq<i16>)>, expected: u16)
    ensures
        released_packets(s, expected).to_multiset().add(
            release(s, expected).pending.to_multiset(),
        ) =~= s.to_multiset(),
        audio_of(released_packets(s, expected)) == release(s, expected).out,
    decreases s.len(),
{
    position_bounds(s, expected);
    match position(s, expected) {
        Some(i) => {
            let t = s.remove(i);
            let rest = released_packets(t, following(expected));
            release_splits(t, following(expected));
            let go = seq![s[i]] + rest;
            assert(go =~= rest.insert(0, s[i]));
            assert(go.drop_first() =~= rest);
            vstd::seq_lib::to_multiset_insert(rest, 0, s[i]);
            vstd::seq_lib::to_multiset_insert(t, i, s[i]);
            assert(t.insert(i, s[i]) =~= s);
        },
        None => {
            let none = released_packets(s, expected);
            assert(none.to_multiset() =~= vstd::multiset::Multiset::empty()) by {
                broadcast use vstd::seq_lib::group_to_multiset_ensures;

                assert(none.to_multiset().len() == 0);
            }
        },
    }
}

/// From packets of different numbers, none of them late, consecutive ones go,
/// and those that wait are ahead of what is expected then.
proof fn release_keeps_order(s: Seq<(u16, Seq<i16>)>, expected: u16)
    requires
        distinct_numbers(s),
        none_late(s, expected),
    ensures
        ({
            let go = released_packets(s, expected);
            let r = release(s, expected);
            &&& distinct_numbers(r.pending)
            &&& none_late(r.pending, r.expected)
            &&& go.len() > 0 ==> go[0].0 == expected && r.expected == following(go.last().0)
            &&& go.len() == 0 ==> r.expected == expected
            &&& forall|i: int| 0 < i < go.len() ==> #[trigger] follows_at(go, i)
        }),
    decreases s.len(),
{
    position_bounds(s, expected);
    match position(s, expected) {
        Some(i) => {
            let t = s.remove(i);
            let next = following(expected);
            assert forall|j: int| 0 <= j < t.len() implies !is_late((#[trigger] t[j]).0, next) by {
                let k = if j < i { j } else { j + 1 };
                assert(t[j] == s[k]);
                assert(s[k].0 != s[i].0);
                assert(!is_late(s[k].0, expected));
            }
            assert forall|j: int, k: int| 0 <= j < k < t.len() implies (#[trigger] t[j]).0 != (
            #[trigger] t[k]).0 by {
                let a = if j < i { j } else { j + 1 };
                let b = if k < i { k } else { k + 1 };
                assert(t[j] == s[a] && t[k] == s[b]);
            }
            release_keeps_order(t, next);
            let rest = released_packets(t, next);
            let go = seq![s[i]] + rest;
            assert(go == released_packets(s, expected));
            assert forall|j: int| 0 < j < go.len() implies #[trigger] follows_at(go, j) by {
                assert(go[j] == rest[j - 1]);
                if j > 1 {
                    assert(go[j - 1] == rest[j - 2]);
                    assert(follows_at(rest, j - 1));
                }
            }
            if rest.len() > 0 {
                assert(go.last() == rest.last());
            }
        },
        None => {},
    }
}

proof fn audio_of_both(a: Seq<(u16, Seq<i16>)>, b: Seq<(u16, Seq<i16>)>)
    ensures
        audio_of(a + b) == audio_of(a) + audio_of(b),
    decreases a.len(),
{
    if a.len() == 0 {
        assert(a + b =~= b);
        assert(audio_of(a) + audio_of(b) =~= audio_of(b));
    } else {
        audio_of_both(a.drop_first(), b);
        assert((a + b).drop_first() =~= a.drop_first() + b);
        assert(audio_of(a + b) =~= audio_of(a) + audio_of(b));
    }
}

/// What becomes of packets, with nothing said of the order.
proof fn run_keeps_packets(packets: Seq<(u16, Seq<i16>)>)
    ensures
        ({
            let run = after_run(packets);
            &&& run.out.to_multiset().add(run.pending.to_multiset()) =~= run.taken.to_multiset()
            &&& run.pending.len() <= REORDER_WINDOW
            &&& packets.len() > 0 ==> run.expected is Some && run.out.len() > 0
            &&& packets.len() == 0 ==> run.expected is None && run.out.len() == 0
            &&& run.audio == audio_of(run.out)
        }),
    decreases packets.len(),
{
    let run = after_run(packets);
    if packets.len() == 0 {
        let none = Seq::<(u16, Seq<i16>)>::empty();
        assert(none.to_multiset() =~= vstd::multiset::Multiset::empty()) by {
            broadcast use vstd::seq_lib::group_to_multiset_ensures;

            assert(none.to_multiset().len() == 0);
        }
    } else {
        let before = after_run(packets.drop_last());
        let p = packets.last();
        run_keeps_packets(packets.drop_last());
        let e = match before.expected {
            Some(e) => e,
            None => p.0,
        };
        if is_late(p.0, e) {
            assert(run.out =~= before.out);
            assert(run.audio =~= before.audio);
        } else {
            let s = before.pending.push(p);
            let all = in_order(s, e);
            in_order_keeps(s, e);
            in_order_len(s, e);
            let start = if all.len() > REORDER_WINDOW {
                all[0].0
            } else {
                e
            };
            let go = released_packets(all, start);
            window_moves(all, start);
            release_splits(all, start);
            audio_of_both(before.out, go);
            vstd::seq_lib::lemma_multiset_commutative(before.out, go);
            vstd::seq_lib::to_multiset_build(before.pending, p);
            vstd::seq_lib::to_multiset_build(before.taken, p);
            assert(run.out.to_multiset().add(run.pending.to_multiset())
                =~= before.out.to_multiset().add(all.to_multiset()));
            if before.expected is None {
                assert(packets.drop_last().len() == 0);
                assert(s.drop_last() =~= Seq::empty());
                assert(in_order(s.drop_last(), e).len() == 0);
                assert(all[0] == p);
                position_bounds(all, start);
                assert(go.len() > 0);
            }
        }
    }
}

/// The packets that a packet finds waiting, and itself, in order: all new from
/// where the release starts.
proof fn window_is_new(pending: Seq<(u16, Seq<i16>)>, p: (u16, Seq<i16>), e: u16, start: u16)
    requires
        distinct_numbers(pending),
        none_late(pending, e),
        !has_number(pending, p.0),
        !is_late(p.0, e),
        start == e || start == in_order(pending.push(p), e)[0].0,
    ensures
        distinct_numbers(in_order(pending.push(p), e)),
        none_late(in_order(pending.push(p), e), start),
        !is_late(start, e),
{
    let s = pending.push(p);
    let all = in_order(s, e);
    in_order_sorts(s, e);
    in_order_len(s, e);
    assert forall|i: int, j: int| 0 <= i < j < s.len() implies (#[trigger] s[i]).0 != (
    #[trigger] s[j]).0 by {
        assert(pending[i] == s[i]);
        if j < pending.len() {
            assert(pending[j] == s[j]);
        }
    }
    in_order_keeps_numbers(s, e);
    assert forall|i: int| 0 <= i < all.len() implies !is_late((#[trigger] all[i]).0, e) by {
        assert(has_number(all, all[i].0));
        let k = choose|k: int| 0 <= k < s.len() && (#[trigger] s[k]).0 == all[i].0;
        if k < pending.len() {
            assert(pending[k] == s[k]);
        }
    }
    assert(!is_late(all[0].0, e));
    assert forall|i: int| 0 <= i < all.len() implies !is_late((#[trigger] all[i]).0, start) by {
        if i > 0 {
            assert(ahead(all[0].0, e) <= ahead(all[i].0, e));
        }
    }
}

/// Whatever packets come, in whatever order: every one that is not late when it
/// comes, which is one that is newer than all that were let go, is let go once
/// or still waits, and nothing else is let go; what comes out is the audio of
/// those that were let go; no more than a window of packets waits. If moreover
/// none comes with the number of one that waits, packets are let go in ascending
/// order, and those that wait are newer than all of them.
pub proof fn runs_keep_order(packets: Seq<(u16, Seq<i16>)>)
    ensures
        ({
            let run = after_run(packets);
            &&& run.out.to_multiset().add(run.pending.to_multiset()) =~= run.taken.to_multiset()
            &&& run.pending.len() <= REORDER_WINDOW
            &&& packets.len() > 0 ==> run.expected is Some && run.out.len() > 0
            &&& run.audio == audio_of(run.out)
            &&& none_comes_twice(packets) && packets.len() > 0 ==> {
                &&& ascending(run.out)
                &&& run.expected == Some(following(run.out.last().0))
                &&& none_late(run.pending, run.expected->0)
                &&& distinct_numbers(run.pending)
            }
        }),
    decreases packets.len(),
{
    run_keeps_packets(packets);
    let run = after_run(packets);
    if packets.len() > 0 && none_comes_twice(packets) {
        let earlier = packets.drop_last();
        let before = after_run(earlier);
        let p = packets.last();
        let last = packets.len() - 1;
        run_keeps_packets(earlier);
        assert(packets.take(last) =~= earlier);
        assert(!has_number(before.pending, packets[last].0));
        assert forall|k: int| 0 <= k < earlier.len() implies !has_number(
            after_run(earlier.take(k)).pending,
            (#[trigger] earlier[k]).0,
        ) by {
            assert(earlier.take(k) =~= packets.take(k));
            assert(earlier[k] == packets[k]);
        }
        runs_keep_order(earlier);
        let e = match before.expected {
            Some(e) => e,
            None => p.0,
        };
        if is_late(p.0, e) {
            assert(run.out =~= before.out);
        } else {
            let all = in_order(before.pending.push(p), e);
            let start = if all.len() > REORDER_WINDOW {
                all[0].0
            } else {
                e
            };
            let go = released_packets(all, start);
            window_is_new(before.pending, p, e, start);
            release_keeps_order(all, start);
            run_ascends(before.out, go, e, start);
            if go.len() > 0 {
                assert(run.out.last() == go.last());
            } else {
                assert(run.out =~= before.out);
                in_order_len(before.pending.push(p), e);
                position_bounds(all, start);
            }
        }
    }
}

proof fn run_ascends(
    before: Seq<(u16, Seq<i16>)>,
    go: Seq<(u16, Seq<i16>)>,
    e: u16,
    start: u16,
)
    requires
        ascending(before),
        before.len() > 0 ==> e == following(before.last().0),
        !is_late(start, e),
        go.len() > 0 ==> go[0].0 == start,
        forall|i: int| 0 < i < go.len() ==> #[trigger] follows_at(go, i),
    ensures
        ascending(before + go),
{
    let out = before + go;
    let n = before.len();
    assert forall|i: int| 0 < i < out.len() implies #[trigger] ascends_at(out, i) by {
        if i < n {
            assert(out[i] == before[i]);
            assert(out[i - 1] == before[i - 1]);
            assert(ascends_at(before, i));
        } else if i == n {
            assert(out[i] == go[0]);
            assert(out[i - 1] == before.last());
        } else {
            assert(out[i] == go[i - n]);
            assert(out[i - 1] == go[i - n - 1]);
            assert(follows_at(go, i - n));
        }
    }
}

/// A gap is waited for: while fewer than six packets would wait and the expected
/// one is not among them, nothing is let go, and the new one waits with the others.
pub proof fn gaps_are_waited_for(
    pending: Seq<(u16, Seq<i16>)>,
    expected: u16,
    seq: u16,
    samples: Seq<i16>,
)
    requires
        pending.len() < 5,
        !is_late(seq, expected),
        seq != expected,
        forall|i: int| 0 <= i < pending.len() ==> (#[trigger] pending[i]).0 != expected,
    ensures
        ({
            let r = pushed(pending, Some(expected), seq, samples);
            &&& r.out.len() == 0
            &&& r.expected == expected
            &&& r.pending.to_multiset() == pending.push((seq, samples)).to_multiset()
        }),
{
    let s = pending.push((seq, samples));
    let all = in_order(s, expected);
    in_order_len(s, expected);
    in_order_keeps(s, expected);
    in_order_keeps_numbers(s, expected);
    position_bounds(all, expected);
    if has_number(all, expected) {
        assert(has_number(s, expected));
        let i = choose|i: int| 0 <= i < s.len() && (#[trigger] s[i]).0 == expected;
        if i < pending.len() {
            assert(s[i] == pending[i]);
        }
    }
    if let Some(i) = position(all, expected) {
        assert(all[i].0 == expected);
        assert(has_number(all, expected));
    }
}

/// With six packets a gap is given up: what is let go begins with the one that is
/// least far ahead, and the next one is expected from there on.
pub proof fn gaps_are_given_up(
    pending: Seq<(u16, Seq<i16>)>,
    expected: u16,
    seq: u16,
    samples: Seq<i16>,
)
    requires
        pending.len() == 5,
        !is_late(seq, expected),
    ensures
        ({
            let s = pending.push((seq, samples));
            let r = pushed(pending, Some(expected), seq, samples);
            let n = s.len() - r.pending.len();
            &&& n >= 1
            &&& exists|i: int|
                0 <= i < s.len() && (forall|j: int|
                    0 <= j < s.len() ==> ahead(s[i].0, expected) <= ahead(
                        (#[trigger] s[j]).0,
                        expected,
                    )) && (#[trigger] s[i]).1.len() <= r.out.len() && r.out.take(
                    s[i].1.len() as int,
                ) == s[i].1 && r.expected == (s[i].0 + n) % 0x1_0000
        }),
{
    let s = pending.push((seq, samples));
    let all = in_order(s, expected);
    in_order_len(s, expected);
    in_order_sorts(s, expected);
    in_order_keeps(s, expected);
    let first = all[0];
    assert(position(all, first.0) == Some(0int));
    output_is_consecutive(all, first.0);
    let r = pushed(pending, Some(expected), seq, samples);
    release_shrinks(all.remove(0), following(first.0));
    assert(r == release(all, first.0));
    assert(r.out.take(first.1.len() as int) =~= first.1);
    broadcast use vstd::seq_lib::group_to_multiset_ensures;

    assert(all.contains(first));
    assert(s.to_multiset().count(first) > 0);
    assert(s.contains(first));
    let i = choose|i: int| 0 <= i < s.len() && s[i] == first;
    assert forall|j: int| 0 <= j < s.len() implies ahead(s[i].0, expected) <= ahead(
        (#[trigger] s[j]).0,
        expected,
    ) by {
        assert(s.contains(s[j]));
        assert(all.to_multiset().count(s[j]) > 0);
        assert(all.contains(s[j]));
        let k = choose|k: int| 0 <= k < all.len() && all[k] == s[j];
        if k > 0 {
            assert(ahead(all[0].0, expected) <= ahead(all[k].0, expected));
        }
    }
}

} // verus!
