//! The rings that carry samples between threads.
//!
//! A ring has two ends, and whoever holds the other end uses it at the same
//! time. So neither end can say what the ring holds at some moment. What the
//! consuming end can say is which samples come out of it and in what order, and
//! how many it has seen that wait for it; what the producing end can say is
//! which samples it took in, and how many places it has seen free.

use ringbuf::traits::{Consumer, Observer, Producer, Split};
use vstd::prelude::*;

verus! {

/// The consuming end of a ring of samples.
#[verifier::external_body]
pub struct SampleSource {
    cons: ringbuf::HeapCons<i16>,
}

/// The producing end of a ring of samples.
#[verifier::external_body]
pub struct SampleSink {
    prod: ringbuf::HeapProd<i16>,
}

/// The samples still to come out of a source, the next one first: those in
/// the ring, then those that the other end is yet to put in.
pub uninterp spec fn upcoming(source: SampleSource) -> Seq<i16>;

/// How many samples a source has seen in the ring and not taken out yet. They
/// stay there until it takes them out, as nobody else does; more may be there.
pub uninterp spec fn seen(source: SampleSource) -> nat;

/// The samples that a sink has taken in, the earliest first.
pub uninterp spec fn taken_in(sink: SampleSink) -> Seq<i16>;

/// How many free places a sink has seen in the ring and not filled yet. They
/// stay free until it fills them, as nobody else does; more may be free.
pub uninterp spec fn room(sink: SampleSink) -> nat;

/// Which ring a sink puts samples into.
pub uninterp spec fn sink_ring(sink: SampleSink) -> int;

/// Which ring a source takes samples out of.
pub uninterp spec fn source_ring(source: SampleSource) -> int;

/// All samples that ever go through a ring, the earliest first: those that its
/// sink takes in, in that order.
pub uninterp spec fn stream(ring: int) -> Seq<i16>;

/// Whether what a sink has taken in is where the stream of its ring begins.
pub open spec fn begins_stream(sink: SampleSink) -> bool {
    &&& taken_in(sink).len() <= stream(sink_ring(sink)).len()
    &&& taken_in(sink) == stream(sink_ring(sink)).take(taken_in(sink).len() as int)
}

/// Whether what is still to come out of a source is what the stream of its ring
/// holds behind the first `given` samples.
pub open spec fn ends_stream(source: SampleSource, given: int) -> bool {
    &&& 0 <= given <= stream(source_ring(source)).len()
    &&& upcoming(source) == stream(source_ring(source)).skip(given)
}

/// How many samples a ring between the audio server and a call holds, about
/// three seconds.
pub const RING_CAPACITY: usize = 24_000;

/// How many samples a ring between two joined calls holds, half a second.
pub const BRIDGE_RING_CAPACITY: usize = 4_000;

/// Both ends of a new ring.
///
/// Made by `HeapRb::new`, which panics on a capacity of zero, and its
/// `split`. Claimed: both are ends of the same ring, the sink has taken in
/// nothing yet, all its places are free, and all that ever goes in is still to
/// come out.
#[verifier::external_body]
pub(crate) fn sample_ring(capacity: usize) -> (ends: (SampleSink, SampleSource))
    requires
        0 < capacity <= RING_CAPACITY,
    ensures
        sink_ring(ends.0) == source_ring(ends.1),
        taken_in(ends.0) == Seq::<i16>::empty(),
        room(ends.0) == capacity,
        upcoming(ends.1) == stream(source_ring(ends.1)),
{
    let (prod, cons) = ringbuf::HeapRb::<i16>::new(capacity).split();
    (SampleSink { prod }, SampleSource { cons })
}

/// A ring between a call and the audio server.
pub fn audio_ring() -> (ends: (SampleSink, SampleSource))
    ensures
        sink_ring(ends.0) == source_ring(ends.1),
        taken_in(ends.0) == Seq::<i16>::empty(),
        room(ends.0) == RING_CAPACITY,
        begins_stream(ends.0),
        ends_stream(ends.1, 0),
{
    assert(forall|s: Seq<i16>| #[trigger] s.take(0) =~= Seq::<i16>::empty());
    assert(forall|s: Seq<i16>| #[trigger] s.skip(0) =~= s);
    sample_ring(RING_CAPACITY)
}

/// What one of two joined calls holds: where the audio that it receives goes,
/// and where the audio of the other call comes from.
pub struct Bridge {
    pub out: SampleSink,
    pub input: SampleSource,
}

/// Both halves of a bridge between two calls: what either call receives comes
/// in at the other, so that the two remote parties hear each other.
pub fn conference_bridge() -> (halves: (Bridge, Bridge))
    ensures
        sink_ring(halves.0.out) == source_ring(halves.1.input),
        sink_ring(halves.1.out) == source_ring(halves.0.input),
        taken_in(halves.0.out) == Seq::<i16>::empty(),
        taken_in(halves.1.out) == Seq::<i16>::empty(),
        room(halves.0.out) == BRIDGE_RING_CAPACITY,
        room(halves.1.out) == BRIDGE_RING_CAPACITY,
        begins_stream(halves.0.out),
        begins_stream(halves.1.out),
        ends_stream(halves.0.input, 0),
        ends_stream(halves.1.input, 0),
{
    assert(forall|s: Seq<i16>| #[trigger] s.take(0) =~= Seq::<i16>::empty());
    assert(forall|s: Seq<i16>| #[trigger] s.skip(0) =~= s);
    let (first_out, second_in) = sample_ring(BRIDGE_RING_CAPACITY);
    let (second_out, first_in) = sample_ring(BRIDGE_RING_CAPACITY);
    (Bridge { out: first_out, input: first_in }, Bridge { out: second_out, input: second_in })
}

impl SampleSource {
    /// How many samples are ready now.
    ///
    /// `Observer::occupied_len`, which for a consumer looks up how far the
    /// producer has come and remembers it. Claimed: the samples that were seen
    /// before are still there, what is there now has been seen, and it is no
    /// more than is still to come. The other end may add samples at any moment,
    /// so nothing else fixes the number.
    #[verifier::external_body]
    pub(crate) fn occupied(&mut self) -> (n: usize)
        ensures
            seen(*old(self)) <= n,
            n <= upcoming(*old(self)).len(),
            seen(*final(self)) == n,
            upcoming(*final(self)) == upcoming(*old(self)),
            source_ring(*final(self)) == source_ring(*old(self)),
    {
        self.cons.occupied_len()
    }

    /// Takes out up to `max` samples.
    ///
    /// `Consumer::pop_slice`, which removes items from the front, writes them
    /// to a slice and returns their number. Claimed: at most `max` come out,
    /// the next ones in order, and those after them stay. Fewer than `max` come
    /// out only where nothing else is there, so those that were seen come out
    /// as far as `max` goes. How many more do depends on what the other end has
    /// put in by then.
    #[verifier::external_body]
    pub(crate) fn pop(&mut self, max: usize) -> (out: Vec<i16>)
        ensures
            out@.len() <= max,
            out@.len() <= upcoming(*old(self)).len(),
            out@ == upcoming(*old(self)).take(out@.len() as int),
            upcoming(*final(self)) == upcoming(*old(self)).skip(out@.len() as int),
            seen(*old(self)) <= out@.len() + seen(*final(self)),
            out@.len() < max ==> seen(*final(self)) == 0,
            source_ring(*final(self)) == source_ring(*old(self)),
    {
        let mut out = vec![0i16; max];
        let n = self.cons.pop_slice(&mut out);
        out.truncate(n);
        out
    }
}

impl SampleSink {
    /// Puts in as many of `samples` as there is room for, the rest is lost.
    ///
    /// `Producer::push_iter`, which appends items from an iterator until the
    /// ring is full and returns their number; a producer looks up how far the
    /// consumer has come first. Claimed: the first so many of the samples were
    /// taken in, in order. Fewer than all are taken in only where the ring is
    /// full, so the places that were seen free are filled as far as the samples
    /// go. What was taken in so far is how the ring's stream begins. How many more are taken in depends on what the other end has taken
    /// out by then.
    #[verifier::external_body]
    pub(crate) fn push(&mut self, samples: &[i16]) -> (n: usize)
        ensures
            n <= samples@.len(),
            taken_in(*final(self)) == taken_in(*old(self)) + samples@.take(n as int),
            n < samples@.len() ==> room(*old(self)) <= n,
            room(*old(self)) <= n + room(*final(self)),
            taken_in(*final(self)).len() <= stream(sink_ring(*final(self))).len(),
            taken_in(*final(self)) == stream(sink_ring(*final(self))).take(
                taken_in(*final(self)).len() as int,
            ),
            sink_ring(*final(self)) == sink_ring(*old(self)),
    {
        self.prod.push_iter(samples.iter().copied())
    }
}

/// The samples still to come from a source that may be missing.
pub open spec fn upcoming_of(source: Option<SampleSource>) -> Seq<i16> {
    match source {
        Some(s) => upcoming(s),
        None => Seq::empty(),
    }
}

/// How many samples a source that may be missing has seen in its ring.
pub open spec fn seen_of(source: Option<SampleSource>) -> nat {
    match source {
        Some(s) => seen(s),
        None => 0,
    }
}

/// Whether a source is still there, and at the same ring, if it was.
pub open spec fn same_source(before: Option<SampleSource>, after: Option<SampleSource>) -> bool {
    match (before, after) {
        (Some(b), Some(a)) => source_ring(a) == source_ring(b),
        (None, None) => true,
        _ => false,
    }
}

/// Takes up to `max` samples out of a source, or none where there is none.
/// Fewer than `max` come out only where nothing else is there.
pub fn pop_from(source: &mut Option<SampleSource>, max: usize) -> (out: Vec<i16>)
    ensures
        out@.len() <= max,
        out@.len() <= upcoming_of(*old(source)).len(),
        out@ == upcoming_of(*old(source)).take(out@.len() as int),
        upcoming_of(*final(source)) == upcoming_of(*old(source)).skip(out@.len() as int),
        seen_of(*old(source)) <= out@.len() + seen_of(*final(source)),
        out@.len() < max ==> seen_of(*final(source)) == 0,
        same_source(*old(source), *final(source)),
{
    match source {
        Some(s) => s.pop(max),
        None => {
            let out: Vec<i16> = Vec::new();
            assert(out@ =~= Seq::<i16>::empty().take(0));
            assert(Seq::<i16>::empty().skip(0) =~= Seq::<i16>::empty());
            out
        },
    }
}

/// Whether `after` is `before` with a first part of `samples` taken in: all of
/// them, or at least as many as there were free places. A sink that is missing
/// stays missing.
pub open spec fn fed(before: Option<SampleSink>, after: Option<SampleSink>, samples: Seq<i16>) -> bool {
    match (before, after) {
        (Some(b), Some(a)) => {
            &&& sink_ring(a) == sink_ring(b)
            &&& exists|n: int|
                0 <= n <= samples.len() && #[trigger] samples.take(n).len() == n && taken_in(a)
                    == taken_in(b) + samples.take(n) && (n < samples.len() ==> room(b) <= n)
                    && room(b) <= n + room(a)
            &&& begins_stream(a)
        },
        (None, None) => true,
        _ => false,
    }
}

/// Puts samples into a sink, where there is one.
pub fn push_to(sink: &mut Option<SampleSink>, samples: &Vec<i16>)
    ensures
        fed(*old(sink), *final(sink), samples@),
{
    match sink {
        Some(s) => {
            let n: usize = s.push(samples.as_slice());
            assert(samples@.take(n as int).len() == n);
        },
        None => {},
    }
}

// ---------------------------------------------------------------------------
// Laws

/// A source that has let go of so many samples is so much further on in the
/// stream.
pub proof fn popping_keeps_the_end(before: SampleSource, after: SampleSource, given: int, n: int)
    requires
        ends_stream(before, given),
        0 <= n <= upcoming(before).len(),
        upcoming(after) == upcoming(before).skip(n),
        source_ring(after) == source_ring(before),
    ensures
        ends_stream(after, given + n),
{
    let all = stream(source_ring(before));
    assert(all.skip(given).skip(n) =~= all.skip(given + n));
}

/// What goes into a ring comes out of it in the same order, and nothing is lost
/// or added: what the sink has taken in and the source has not given out yet is
/// what comes out next.
pub proof fn rings_keep_order(sink: SampleSink, source: SampleSource, given: int)
    requires
        sink_ring(sink) == source_ring(source),
        begins_stream(sink),
        ends_stream(source, given),
        given <= taken_in(sink).len(),
    ensures
        upcoming(source).len() >= taken_in(sink).len() - given,
        upcoming(source).take(taken_in(sink).len() - given) == taken_in(sink).skip(given),
{
    assert(upcoming(source).take(taken_in(sink).len() - given) =~= taken_in(sink).skip(given));
}

} // verus!
